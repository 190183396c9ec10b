use vstd::prelude::*;

use crate::errors::BuildError;

verus! {

/// The share of the full code space that one code of length `l` occupies, in
/// units of `2^-15`: a length-`l` code uses `2^(15-l)` of the `2^15` units.
pub open spec fn code_weight(l: u16) -> int {
    if 1 <= l <= 15 {
        (32768u32 >> (l as u32)) as int
    } else {
        0
    }
}

/// Total weight of a code-length multiset, in units of `2^-15` of the code
/// space. A complete prefix code weighs exactly `32768`; less is an
/// under-specified tree, more is over-subscribed.
pub open spec fn weight15(lens: Seq<u16>) -> int
    decreases lens.len(),
{
    if lens.len() == 0 {
        0
    } else {
        weight15(lens.drop_last()) + code_weight(lens.last())
    }
}

/// How many symbols are assigned a non-zero code length.
pub open spec fn nonzero_count(lens: Seq<u16>) -> int
    decreases lens.len(),
{
    if lens.len() == 0 {
        0
    } else {
        nonzero_count(lens.drop_last()) + if lens.last() == 0 {
            0int
        } else {
            1int
        }
    }
}

/// One decode-table entry's operation tag.
#[derive(Clone, Copy, PartialEq, Eq, Structural, Debug)]
pub enum CodeOp {
    /// Emit this byte.
    Literal { byte: u8 },
    /// The block ends here.
    EndOfBlock,
    /// A length or distance base; `extra` further bits refine it.
    Base { base: u16, extra: u8 },
    /// Codes longer than the root bits continue in the sub-table at `off`,
    /// indexed by the next `index_bits` bits.
    SubTable { off: u32, index_bits: u8 },
    /// No code has this bit pattern (table miss or reserved symbol).
    Invalid,
}

/// One decode-table entry: what to do, and how many input bits the entry
/// consumes (for a sub-table pointer, the root bits; for an entry inside a
/// sub-table, the code's full length).
#[derive(Clone, Copy, PartialEq, Eq, Structural, Debug)]
pub struct Code {
    pub op: CodeOp,
    pub bits: u8,
}

/// Which alphabet the table decodes; it decides what a symbol index means.
#[derive(Clone, Copy, PartialEq, Eq, Structural, Debug)]
pub enum TableKind {
    /// The auxiliary alphabet that describes dynamic tables (symbols 0..18).
    CodeLengths,
    /// The literal/length alphabet (literals, end-of-block, length bases).
    LitLen,
    /// The distance alphabet.
    Dist,
}

/// Flat lookup structure: `2^root_bits` root entries, every root-bit pattern
/// mapped to exactly one entry (short codes duplicated over all patterns
/// sharing their prefix), with chained sub-tables appended after the root for
/// codes longer than the root bits.
pub struct CodeTable {
    pub codes: Vec<Code>,
    pub root_bits: u32,
}

impl CodeTable {
    pub open spec fn wf(self) -> bool {
        &&& 1 <= self.root_bits <= 10
        &&& (1usize << (self.root_bits as usize)) <= self.codes@.len()
        &&& self.codes@.len() <= 0x2000000
    }
}

/// Bounds of variable shifts that the builder and the decoder lean on.
pub proof fn shift_facts()
    by (bit_vector)
    ensures
        forall|s: usize| s <= 24 ==> 1 <= #[trigger] (1usize << s) <= 0x1000000,
        forall|s: usize| s <= 14 ==> #[trigger] (1usize << s) <= 16384,
        forall|s: usize| s <= 10 ==> #[trigger] (1usize << s) <= 1024,
        forall|x: u32| #[trigger] (32768u32 >> x) <= 32768,
        forall|x: u32| 1 <= x ==> #[trigger] (32768u32 >> x) <= 16384,
        forall|s: u32| s <= 24 ==> 1 <= #[trigger] (1u32 << s) <= 0x1000000,
{
}

/// Counts and weights are never negative.
pub proof fn lemma_measure_nonneg(s: Seq<u16>)
    ensures
        nonzero_count(s) >= 0,
        weight15(s) >= 0,
    decreases s.len(),
{
    if s.len() > 0 {
        lemma_measure_nonneg(s.drop_last());
    }
}

/// A length multiset with no codes weighs nothing.
pub proof fn lemma_no_code_weight(s: Seq<u16>)
    requires
        nonzero_count(s) == 0,
    ensures
        weight15(s) == 0,
    decreases s.len(),
{
    if s.len() > 0 {
        lemma_measure_nonneg(s.drop_last());
        lemma_no_code_weight(s.drop_last());
    }
}

/// The degenerate single-code case never fills the code space: one code of
/// length at least 1 weighs at most half of it.
pub proof fn lemma_single_code_weight(s: Seq<u16>)
    requires
        forall|i: int| 0 <= i < s.len() ==> s[i] <= 15,
        nonzero_count(s) == 1,
    ensures
        0 < weight15(s) <= 16384,
    decreases s.len(),
{
    shift_facts();
    assert(forall|x: u32| x <= 15 ==> #[trigger] (32768u32 >> x) >= 1) by (bit_vector);
    if s.len() > 0 {
        lemma_measure_nonneg(s.drop_last());
        if s.last() == 0 {
            lemma_single_code_weight(s.drop_last());
        } else {
            lemma_no_code_weight(s.drop_last());
        }
    }
}

/// Length base and extra-bit count for literal/length symbols 257..=285.
fn length_params(sym: usize) -> (r: (u16, u8))
    requires
        257 <= sym <= 285,
    ensures
        3 <= r.0 <= 258,
        r.1 <= 5,
{
    match sym {
        257 => (3, 0),
        258 => (4, 0),
        259 => (5, 0),
        260 => (6, 0),
        261 => (7, 0),
        262 => (8, 0),
        263 => (9, 0),
        264 => (10, 0),
        265 => (11, 1),
        266 => (13, 1),
        267 => (15, 1),
        268 => (17, 1),
        269 => (19, 2),
        270 => (23, 2),
        271 => (27, 2),
        272 => (31, 2),
        273 => (35, 3),
        274 => (43, 3),
        275 => (51, 3),
        276 => (59, 3),
        277 => (67, 4),
        278 => (83, 4),
        279 => (99, 4),
        280 => (115, 4),
        281 => (131, 5),
        282 => (163, 5),
        283 => (195, 5),
        284 => (227, 5),
        _ => (258, 0),
    }
}

/// Distance base and extra-bit count for distance symbols 0..=29.
fn dist_params(sym: usize) -> (r: (u16, u8))
    requires
        sym <= 29,
    ensures
        1 <= r.0 <= 24577,
        r.1 <= 13,
{
    match sym {
        0 => (1, 0),
        1 => (2, 0),
        2 => (3, 0),
        3 => (4, 0),
        4 => (5, 1),
        5 => (7, 1),
        6 => (9, 2),
        7 => (13, 2),
        8 => (17, 3),
        9 => (25, 3),
        10 => (33, 4),
        11 => (49, 4),
        12 => (65, 5),
        13 => (97, 5),
        14 => (129, 6),
        15 => (193, 6),
        16 => (257, 7),
        17 => (385, 7),
        18 => (513, 8),
        19 => (769, 8),
        20 => (1025, 9),
        21 => (1537, 9),
        22 => (2049, 10),
        23 => (3073, 10),
        24 => (4097, 11),
        25 => (6145, 11),
        26 => (8193, 12),
        27 => (12289, 12),
        28 => (16385, 13),
        _ => (24577, 13),
    }
}

/// What a decoded symbol of the given alphabet means. Reserved symbols (286
/// and 287 of the literal/length alphabet, 30 and 31 of the distance alphabet)
/// decode to `Invalid`.
fn op_for(kind: TableKind, sym: usize) -> (r: CodeOp) {
    match kind {
        TableKind::CodeLengths => CodeOp::Literal { byte: (sym % 256) as u8 },
        TableKind::LitLen => {
            if sym < 256 {
                CodeOp::Literal { byte: sym as u8 }
            } else if sym == 256 {
                CodeOp::EndOfBlock
            } else if sym <= 285 {
                let (base, extra) = length_params(sym);
                CodeOp::Base { base, extra }
            } else {
                CodeOp::Invalid
            }
        },
        TableKind::Dist => {
            if sym <= 29 {
                let (base, extra) = dist_params(sym);
                CodeOp::Base { base, extra }
            } else {
                CodeOp::Invalid
            }
        },
    }
}

/// The low `len` bits of `code`, in reverse order: codes are assigned
/// most-significant-bit first but consumed from the stream low-order first.
fn reverse_bits(code: u32, len: u32) -> (r: u32)
    requires
        len <= 15,
    ensures
        r < (1u32 << len),
{
    let mut r: u32 = 0;
    let mut k: u32 = 0;
    proof {
        assert(0u32 < (1u32 << 0u32)) by (bit_vector);
    }
    while k < len
        invariant
            k <= len <= 15,
            r < (1u32 << k),
        decreases len - k,
    {
        let bit: u32 = (code >> k) & 1;
        let ghost r0 = r;
        let ghost k0 = k;
        proof {
            let c = code;
            assert(((c >> k0) & 1) <= 1 && ((r0 << 1) | ((c >> k0) & 1)) < (1u32 << ((k0
                + 1) as u32))) by (bit_vector)
                requires
                    r0 < (1u32 << k0),
                    k0 <= 14,
            ;
        }
        r = (r << 1) | bit;
        k = k + 1;
    }
    r
}

/// Histogram of the first `nsyms` code lengths, indexed by length 0..=15.
fn histogram(lens: &Vec<u16>, nsyms: usize) -> (counts: Vec<u32>)
    requires
        nsyms <= lens@.len(),
        nsyms <= 0x10000000,
        forall|i: int| 0 <= i < nsyms ==> lens@[i] <= 15,
    ensures
        counts@.len() == 16,
        forall|q: int| 0 <= q < 16 ==> counts@[q] <= nsyms,
{
    let mut counts: Vec<u32> = Vec::new();
    counts.resize(16, 0u32);
    let mut i: usize = 0;
    while i < nsyms
        invariant
            i <= nsyms <= 0x10000000,
            nsyms <= lens@.len(),
            counts@.len() == 16,
            forall|i2: int| 0 <= i2 < nsyms ==> lens@[i2] <= 15,
            forall|q: int| 0 <= q < 16 ==> counts@[q] <= i,
        decreases nsyms - i,
    {
        let l = lens[i] as usize;
        counts[l] = counts[l] + 1;
        i = i + 1;
    }
    counts
}

/// The first canonical code of each length, before bit reversal: codes are
/// ordered first by length, then by symbol index.
fn first_codes(counts: &Vec<u32>) -> (next: Vec<u32>)
    requires
        counts@.len() == 16,
        forall|q: int| 0 <= q < 16 ==> counts@[q] <= 0x10000000,
    ensures
        next@.len() == 16,
        forall|q: int| 0 <= q < 16 ==> next@[q] <= 0x1ffff,
{
    let mut next: Vec<u32> = Vec::new();
    next.resize(16, 0u32);
    let mut code: u32 = 0;
    let mut l: usize = 1;
    while l < 16
        invariant
            next@.len() == 16,
            counts@.len() == 16,
            forall|q: int| 0 <= q < 16 ==> counts@[q] <= 0x10000000,
            forall|q: int| 0 <= q < 16 ==> next@[q] <= 0x1ffff,
            code <= 0x1ffff,
            1 <= l <= 16,
        decreases 16 - l,
    {
        let ghost c0 = code;
        let cnt: u32 = counts[l - 1];
        proof {
            let c1 = (c0 + cnt) as u32;
            assert((c1 << 1u32) & 0x1ffffu32 <= 0x1ffff) by (bit_vector);
        }
        code = ((code + cnt) << 1) & 0x1ffff;
        next[l] = code;
        l = l + 1;
    }
    next
}

/// Computes the weight and the count of non-zero lengths of the first `nsyms`
/// entries, exactly as the specification-level sums define them.
fn measure_lengths(lens: &Vec<u16>, nsyms: usize) -> (r: (u64, usize))
    requires
        nsyms <= lens@.len(),
        nsyms <= 0x10000000,
        forall|i: int| 0 <= i < nsyms ==> lens@[i] <= 15,
    ensures
        r.0 == weight15(lens@.take(nsyms as int)),
        r.1 == nonzero_count(lens@.take(nsyms as int)),
{
    let mut w: u64 = 0;
    let mut nz: usize = 0;
    let mut i: usize = 0;
    proof {
        shift_facts();
        assert(lens@.take(0int) =~= Seq::<u16>::empty());
    }
    while i < nsyms
        invariant
            i <= nsyms <= 0x10000000,
            nsyms <= lens@.len(),
            forall|i2: int| 0 <= i2 < nsyms ==> lens@[i2] <= 15,
            w == weight15(lens@.take(i as int)),
            nz == nonzero_count(lens@.take(i as int)),
            w <= 32768 * i,
            nz <= i,
        decreases nsyms - i,
    {
        let l = lens[i];
        proof {
            shift_facts();
            assert(lens@.take(i + 1).drop_last() =~= lens@.take(i as int));
            assert(lens@.take(i + 1).last() == lens@[i as int]);
        }
        if l >= 1 {
            w = w + (32768u32 >> (l as u32)) as u64;
            nz = nz + 1;
        }
        i = i + 1;
    }
    (w, nz)
}

/// Builds the flat two-level decode table for the canonical prefix code that
/// the per-symbol code lengths describe.
///
/// Succeeds exactly when the length multiset's weight fills the code space
/// (`weight15 == 32768`) or the accepted degenerate case of a single non-zero
/// length holds; an under-weight description is `Incomplete`, an over-weight
/// one `Oversubscribed`. The cap on `nsyms` only keeps the weight sum inside
/// a machine word; the format's own alphabets stay far below it.
pub fn build(kind: TableKind, lens: &Vec<u16>, nsyms: usize, root_bits: u32) -> (r: Result<
    CodeTable,
    BuildError,
>)
    requires
        nsyms <= lens@.len(),
        nsyms <= 0x10000000,
        1 <= root_bits <= 10,
        forall|i: int| 0 <= i < nsyms ==> lens@[i] <= 15,
    ensures
        r == Err::<CodeTable, BuildError>(BuildError::Oversubscribed) <==> weight15(
            lens@.take(nsyms as int),
        ) > 32768,
        r == Err::<CodeTable, BuildError>(BuildError::Incomplete) <==> (weight15(
            lens@.take(nsyms as int),
        ) < 32768 && nonzero_count(lens@.take(nsyms as int)) != 1),
        r is Ok <==> (weight15(lens@.take(nsyms as int)) == 32768 || nonzero_count(
            lens@.take(nsyms as int),
        ) == 1),
        r matches Ok(t) ==> t.wf() && t.root_bits == root_bits,
{
    let (w, nz) = measure_lengths(lens, nsyms);
    proof {
        if nz == 1 {
            lemma_single_code_weight(lens@.take(nsyms as int));
        }
    }
    if w > 32768 {
        return Err(BuildError::Oversubscribed);
    }
    if w < 32768 && nz != 1 {
        return Err(BuildError::Incomplete);
    }
    proof {
        shift_facts();
    }
    let rootsize: usize = 1usize << (root_bits as usize);
    let counts = histogram(lens, nsyms);
    let rootmask: u32 = (rootsize - 1) as u32;

    // Which root prefixes need a sub-table, and how many index bits each uses:
    // the longest code sharing that prefix decides the sub-table's depth.
    let mut subbits: Vec<u8> = Vec::new();
    subbits.resize(rootsize, 0u8);
    {
        let mut next = first_codes(&counts);
        let mut i: usize = 0;
        while i < nsyms
            invariant
                i <= nsyms,
                nsyms <= lens@.len(),
                forall|i2: int| 0 <= i2 < nsyms ==> lens@[i2] <= 15,
                next@.len() == 16,
                forall|q: int| 0 <= q < 16 ==> next@[q] <= 0x1ffff,
                subbits@.len() == rootsize,
                rootsize == (1usize << (root_bits as usize)),
                1 <= root_bits <= 10,
                rootmask == rootsize - 1,
                forall|q: int| 0 <= q < rootsize ==> subbits@[q] <= 14,
            decreases nsyms - i,
        {
            let l = lens[i] as u32;
            if l > root_bits {
                let code = next[l as usize];
                proof {
                    let c2 = (code + 1) as u32;
                    assert(c2 & 0x1ffffu32 <= 0x1ffff) by (bit_vector);
                }
                next[l as usize] = (code + 1) & 0x1ffff;
                let rev = reverse_bits(code, l);
                let p = (rev & rootmask) as usize;
                proof {
                    let rm = rootmask;
                    assert((rev & rm) <= rm) by (bit_vector);
                }
                let need: u8 = (l - root_bits) as u8;
                if subbits[p] < need {
                    subbits[p] = need;
                }
            }
            i = i + 1;
        }
    }

    // Assign each needed sub-table a region after the root table.
    let mut suboff: Vec<u32> = Vec::new();
    suboff.resize(rootsize, 0u32);
    let mut total: usize = rootsize;
    {
        let mut p: usize = 0;
        while p < rootsize
            invariant
                subbits@.len() == rootsize,
                suboff@.len() == rootsize,
                p <= rootsize,
                rootsize <= 1024,
                rootsize <= total,
                total <= rootsize + p * 16384,
                forall|q: int| 0 <= q < rootsize ==> subbits@[q] <= 14,
                forall|q: int|
                    0 <= q < p && subbits@[q] >= 1 ==> suboff@[q] + (1usize << (
                    subbits@[q] as usize)) <= total,
            decreases rootsize - p,
        {
            let sb = subbits[p];
            if sb >= 1 {
                proof {
                    shift_facts();
                }
                suboff[p] = total as u32;
                total = total + (1usize << (sb as usize));
            }
            p = p + 1;
        }
    }

    // The table itself: root region first, every slot an explicit miss until a
    // code claims it; each sub-table region likewise, behind a pointer entry.
    let mut table: Vec<Code> = Vec::new();
    table.resize(total, Code { op: CodeOp::Invalid, bits: root_bits as u8 });
    {
        let mut p: usize = 0;
        while p < rootsize
            invariant
                subbits@.len() == rootsize,
                suboff@.len() == rootsize,
                table@.len() == total,
                p <= rootsize,
                rootsize <= total,
                forall|q: int| 0 <= q < rootsize ==> subbits@[q] <= 14,
                forall|q: int|
                    0 <= q < rootsize && subbits@[q] >= 1 ==> suboff@[q] + (1usize << (
                    subbits@[q] as usize)) <= total,
                1 <= root_bits <= 10,
            decreases rootsize - p,
        {
            let sb = subbits[p];
            if sb >= 1 {
                let base = suboff[p] as usize;
                table[p] = Code {
                    op: CodeOp::SubTable { off: suboff[p], index_bits: sb },
                    bits: root_bits as u8,
                };
                proof {
                    shift_facts();
                }
                let lim: usize = 1usize << (sb as usize);
                let mut j: usize = 0;
                while j < lim
                    invariant
                        table@.len() == total,
                        base + lim <= total,
                        j <= lim,
                        root_bits + sb <= 24,
                    decreases lim - j,
                {
                    table[base + j] = Code { op: CodeOp::Invalid, bits: (root_bits as u8) + sb };
                    j = j + 1;
                }
            }
            p = p + 1;
        }
    }

    // Insert every coded symbol, replicating its entry over all root patterns
    // (or sub-table patterns) that share the code's bit-reversed prefix.
    {
        let mut next = first_codes(&counts);
        let mut i: usize = 0;
        while i < nsyms
            invariant
                i <= nsyms,
                nsyms <= lens@.len(),
                nsyms <= 0x10000000,
                forall|i2: int| 0 <= i2 < nsyms ==> lens@[i2] <= 15,
                next@.len() == 16,
                forall|q: int| 0 <= q < 16 ==> next@[q] <= 0x1ffff,
                subbits@.len() == rootsize,
                suboff@.len() == rootsize,
                table@.len() == total,
                rootsize == (1usize << (root_bits as usize)),
                1 <= root_bits <= 10,
                rootmask == rootsize - 1,
                rootsize <= total,
                forall|q: int| 0 <= q < rootsize ==> subbits@[q] <= 14,
                forall|q: int|
                    0 <= q < rootsize && subbits@[q] >= 1 ==> suboff@[q] + (1usize << (
                    subbits@[q] as usize)) <= total,
            decreases nsyms - i,
        {
            let l = lens[i] as u32;
            if l >= 1 {
                let code = next[l as usize];
                proof {
                    let c2 = (code + 1) as u32;
                    assert(c2 & 0x1ffffu32 <= 0x1ffff) by (bit_vector);
                }
                next[l as usize] = (code + 1) & 0x1ffff;
                let rev = reverse_bits(code, l);
                let op = op_for(kind, i);
                proof {
                    shift_facts();
                }
                if l <= root_bits {
                    let step: usize = 1usize << (l as usize);
                    let mut idx: usize = rev as usize;
                    while idx < rootsize
                        invariant
                            table@.len() == total,
                            rootsize <= total,
                            rootsize <= 1024,
                            1 <= step <= 0x1000000,
                            l <= 15,
                        decreases rootsize - idx,
                    {
                        table[idx] = Code { op, bits: l as u8 };
                        idx = if rootsize - idx <= step {
                            rootsize
                        } else {
                            idx + step
                        };
                    }
                } else {
                    let p = (rev & rootmask) as usize;
                    proof {
                        let rm = rootmask;
                        assert((rev & rm) <= rm) by (bit_vector);
                    }
                    let sb = subbits[p];
                    if sb as u32 >= l - root_bits {
                        let base = suboff[p] as usize;
                        let lim: usize = 1usize << (sb as usize);
                        let step: usize = 1usize << ((l - root_bits) as usize);
                        let mut j: usize = (rev >> root_bits) as usize;
                        while j < lim
                            invariant
                                table@.len() == total,
                                base + lim <= total,
                                lim <= 16384,
                                1 <= step <= 0x1000000,
                                l <= 15,
                            decreases lim - j,
                        {
                            table[base + j] = Code { op, bits: l as u8 };
                            j = if lim - j <= step {
                                lim
                            } else {
                                j + step
                            };
                        }
                    }
                }
            }
            i = i + 1;
        }
    }

    Ok(CodeTable { codes: table, root_bits })
}

} // verus!
