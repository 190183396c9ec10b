use vstd::prelude::*;

use crate::bits::BitReader;
use crate::errors::DecodeError;
use crate::fixed::fixed_tables;
use crate::huffman::{build, shift_facts, Code, CodeOp, CodeTable, TableKind};
use crate::window::SlidingWindow;

verus! {

/// The block decoder's persisted phase: any call may return control in any of
/// these, and the next call continues from exactly that point, no bits lost
/// or duplicated.
#[derive(Clone, Copy, PartialEq, Eq, Structural, Debug)]
pub enum Phase {
    /// Before a block's 3 header bits.
    BlockHeader,
    /// Before a stored block's aligned length and check words.
    StoredHeader,
    /// Copying a stored block's raw bytes.
    StoredCopy,
    /// Before the dynamic HLIT/HDIST/HCLEN counts.
    DynamicHeaderCounts,
    /// Reading the code-length alphabet's own 3-bit lengths.
    DynamicLengthTable,
    /// Reading the literal/length and distance length arrays via run codes.
    DynamicTableBuild,
    /// Before the next literal/length symbol.
    SymbolDecode,
    /// A length base was read; its extra bits are pending.
    LengthExtraBits,
    /// Before the distance symbol of a back-reference.
    DistanceDecode,
    /// A distance base was read; its extra bits are pending.
    DistanceExtraBits,
    /// Performing a back-reference copy.
    CopyMatch,
    /// The final block is fully decoded.
    Done,
    /// The stream is corrupt; terminal.
    Error,
}

/// Strictly decreasing along every phase transition that consumes no input
/// bit and produces no output byte; together with the bits left and the
/// output room it bounds the decoder's work per call.
pub open spec fn phase_rank(p: Phase) -> int {
    match p {
        Phase::Done => 0,
        Phase::Error => 0,
        Phase::CopyMatch => 1,
        Phase::DistanceExtraBits => 2,
        Phase::DistanceDecode => 3,
        Phase::LengthExtraBits => 4,
        Phase::SymbolDecode => 5,
        Phase::DynamicTableBuild => 6,
        Phase::DynamicLengthTable => 7,
        Phase::DynamicHeaderCounts => 8,
        Phase::BlockHeader => 9,
        Phase::StoredCopy => 10,
        Phase::StoredHeader => 11,
    }
}

/// Why one `run` call handed control back.
#[derive(Clone, Copy, PartialEq, Eq, Structural, Debug)]
pub enum RunStatus {
    /// The input ran out at a bit-exact resumable point.
    Suspended,
    /// The output buffer reached its limit with work still pending.
    OutputFull,
    /// The final block is fully decoded.
    Done,
    /// The stream is corrupt; terminal.
    Failed(DecodeError),
}

/// Outcome of resolving one symbol against a decode table without consuming
/// anything: the entry and the exact number of stream bits its code uses.
enum Peeked {
    NeedMore,
    Bad,
    Found(Code, u32),
}

/// The permitted-input measure: bits still to be had from this call's input,
/// counting both unread bytes and bits already in the accumulator.
pub open spec fn bits_left(input: Seq<u8>, pos: int, br: BitReader) -> int {
    8 * (input.len() - pos) + br.count
}

/// One step either shrinks the bit measure, or grows the output, or moves to
/// a phase of strictly smaller rank: the lexicographic progress that bounds
/// the decoder's work per call.
pub open spec fn progressed(m0: int, m1: int, o0: int, o1: int, p0: Phase, p1: Phase) -> bool {
    ||| m1 < m0
    ||| (m1 == m0 && o1 > o0)
    ||| (m1 == m0 && o1 == o0 && phase_rank(p1) < phase_rank(p0))
}

/// A step that reports a terminal status has moved to the matching phase,
/// with the reported error recorded.
pub open spec fn step_post(s: BlockDecoder, r: Option<RunStatus>) -> bool {
    match r {
        Some(RunStatus::Failed(e)) => s.phase == Phase::Error && s.err == e,
        Some(RunStatus::Done) => s.phase == Phase::Done,
        _ => true,
    }
}

/// Resolves the next code against `table`, loading input bytes as needed but
/// consuming no bits. `Found(c, used)` says the next `used` buffered bits are
/// the code for entry `c`.
fn peek_entry(table: &CodeTable, br: &mut BitReader, input: &Vec<u8>, pos: &mut usize) -> (r:
    Peeked)
    requires
        table.wf(),
        old(br).wf(),
        *old(pos) <= input@.len(),
    ensures
        final(br).wf(),
        *old(pos) <= *final(pos) <= input@.len(),
        bits_left(input@, *final(pos) as int, *final(br)) == bits_left(
            input@,
            *old(pos) as int,
            *old(br),
        ),
        r matches Peeked::Found(c, used) ==> 1 <= used <= 24 && used <= final(br).count,
        r is NeedMore ==> *final(pos) == input@.len(),
        final(br).count >= old(br).count,
        final(br).hold & crate::bits::mask64(old(br).count as u64) == old(br).hold,
{
    let rb: u32 = table.root_bits;
    let ghost h0 = br.hold;
    let ghost c0 = br.count as u64;
    proof {
        shift_facts();
        let h = br.hold;
        assert(h & crate::bits::mask64(c0) == h0) by (bit_vector)
            requires
                h == h0,
                h0 >> c0 == 0,
                c0 <= 56,
        ;
    }
    loop
        invariant
            table.wf(),
            br.wf(),
            rb == table.root_bits,
            1 <= rb <= 10,
            *old(pos) <= *pos <= input@.len(),
            bits_left(input@, *pos as int, *br) == bits_left(input@, *old(pos) as int, *old(br)),
            br.count >= old(br).count,
            c0 == old(br).count,
            h0 == old(br).hold,
            br.hold & crate::bits::mask64(c0) == h0,
        decreases input@.len() - *pos,
    {
        let have: u32 = br.bits_available();
        let idx: usize = br.peek_bits(rb) as usize;
        proof {
            shift_facts();
            let r2 = rb;
            assert(((1u32 << r2) as u64) == ((1usize << (r2 as usize)) as u64)) by (bit_vector)
                requires
                    r2 <= 10,
            ;
        }
        let e: Code = table.codes[idx];
        if e.bits == 0 || e.bits > 24 {
            return Peeked::Bad;
        }
        if e.bits as u32 <= have {
            match e.op {
                CodeOp::SubTable { off, index_bits } => {
                    if e.bits as u32 != rb || index_bits < 1 || rb + index_bits as u32 > 15 || off
                        > 0x2000000 {
                        return Peeked::Bad;
                    }
                    let ib: u32 = index_bits as u32;
                    let pv: u32 = br.peek_bits(rb + ib);
                    let sidx: usize = (pv >> rb) as usize;
                    proof {
                        let sx = pv;
                        assert((sx >> rb) <= sx) by (bit_vector);
                    }
                    let off2: usize = off as usize + sidx;
                    if off2 >= table.codes.len() {
                        return Peeked::Bad;
                    }
                    let s: Code = table.codes[off2];
                    match s.op {
                        CodeOp::SubTable { .. } => {
                            return Peeked::Bad;
                        },
                        CodeOp::Invalid => {
                            if have >= rb + ib {
                                return Peeked::Bad;
                            }
                            // The padded index may still change: more bits first.
                        },
                        _ => {
                            if s.bits as u32 <= rb || s.bits > 15 {
                                return Peeked::Bad;
                            }
                            if s.bits as u32 <= have {
                                return Peeked::Found(s, s.bits as u32);
                            }
                            // The code is longer than what is buffered.
                        },
                    }
                },
                CodeOp::Invalid => {
                    return Peeked::Bad;
                },
                _ => {
                    return Peeked::Found(e, e.bits as u32);
                },
            }
        }
        // Not decidable yet: load another byte or suspend.
        if *pos < input.len() {
            if br.bits_available() > 48 {
                // Cannot happen while a code is undecided, but keeps the
                // accumulator's room obvious.
                return Peeked::Bad;
            }
            let b: u8 = input[*pos];
            let ghost h1 = br.hold;
            let ghost c1 = br.count as u64;
            br.load_byte(b);
            *pos = *pos + 1;
            proof {
                let bv = b as u64;
                assert((h1 | (bv << c1)) & crate::bits::mask64(c0) == h1 & crate::bits::mask64(c0))
                    by (bit_vector)
                    requires
                        c0 <= c1,
                        c1 <= 48,
                ;
            }
        } else {
            return Peeked::NeedMore;
        }
    }
}

/// Position of the `i`-th code-length-alphabet length in a dynamic header,
/// most-used symbols first.
fn clen_order(i: usize) -> (r: usize)
    requires
        i < 19,
    ensures
        r < 19,
{
    match i {
        0 => 16,
        1 => 17,
        2 => 18,
        3 => 0,
        4 => 8,
        5 => 7,
        6 => 9,
        7 => 6,
        8 => 10,
        9 => 5,
        10 => 11,
        11 => 4,
        12 => 12,
        13 => 3,
        14 => 13,
        15 => 2,
        16 => 14,
        17 => 1,
        _ => 15,
    }
}

/// Appending one byte to both the history and the output keeps them in step.
proof fn lemma_sync_push(h: Seq<u8>, o0: Seq<u8>, o: Seq<u8>, b: u8)
    requires
        o0.is_prefix_of(o),
    ensures
        o0.is_prefix_of(o.push(b)),
        (h + o.skip(o0.len() as int)).push(b) == h + o.push(b).skip(o0.len() as int),
{
    assert(o.push(b).skip(o0.len() as int) =~= o.skip(o0.len() as int).push(b));
    assert((h + o.skip(o0.len() as int)).push(b) =~= h + o.skip(o0.len() as int).push(b));
}

/// Two in-step extensions compose into one.
pub proof fn lemma_sync_trans(h0: Seq<u8>, o0: Seq<u8>, o1: Seq<u8>, o2: Seq<u8>, p1: Seq<u8>, p2: Seq<
    u8,
>)
    requires
        o0.is_prefix_of(o1),
        o1.is_prefix_of(o2),
        p1 == h0 + o1.skip(o0.len() as int),
        p2 == p1 + o2.skip(o1.len() as int),
    ensures
        o0.is_prefix_of(o2),
        p2 == h0 + o2.skip(o0.len() as int),
{
    assert(o2.skip(o0.len() as int) =~= o1.skip(o0.len() as int) + o2.skip(o1.len() as int));
    assert(h0 + (o1.skip(o0.len() as int) + o2.skip(o1.len() as int)) =~= (h0 + o1.skip(
        o0.len() as int,
    )) + o2.skip(o1.len() as int));
}

/// The resumable block-decoding state machine: consumes compressed bits,
/// rebuilds dynamic tables when needed, and performs literal and
/// back-reference output through the sliding window.
pub struct BlockDecoder {
    pub phase: Phase,
    pub bits: BitReader,
    /// BFINAL of the block being decoded.
    pub last_block: bool,
    /// The terminal error, meaningful in `Phase::Error`.
    pub err: DecodeError,
    /// Raw bytes still to copy in a stored block.
    pub stored_remaining: u32,
    /// Dynamic header counts, and the read cursor into the length arrays.
    pub hlit: usize,
    pub hdist: usize,
    pub hclen: usize,
    pub hidx: usize,
    /// Scratch code lengths: literal/length then distance (or, first, the
    /// code-length alphabet's own lengths at their scrambled positions).
    pub lens: Vec<u16>,
    /// Table for the code-length alphabet of the current dynamic header.
    pub clen_table: CodeTable,
    /// Tables the symbol loop currently decodes with.
    pub lit_table: CodeTable,
    pub dist_table: CodeTable,
    /// Pending back-reference: bytes still to copy, and the distance.
    pub copy_len: usize,
    pub copy_dist: usize,
    /// Pending extra-bit count for the length or distance being read.
    pub extra: u8,
}

impl BlockDecoder {
    pub open spec fn wf(self) -> bool {
        &&& self.bits.wf()
        &&& self.lit_table.wf()
        &&& self.dist_table.wf()
        &&& self.clen_table.wf()
        &&& self.lens@.len() == 320
        &&& forall|i: int| 0 <= i < 320 ==> self.lens@[i] <= 15
        &&& self.hlit <= 288
        &&& self.hdist <= 32
        &&& self.hclen <= 19
        &&& self.hidx <= 320
        &&& self.extra <= 13
        &&& self.copy_len <= 0x10000
        &&& self.copy_dist <= 0x10000
        // Only the session can find a checksum or framing header wrong; the
        // block decoder never reports those errors.
        &&& self.err != DecodeError::ChecksumMismatch
        &&& self.err != DecodeError::InvalidWindowBits
    }

    /// A fresh decoder, positioned before the first block header.
    pub fn new() -> (r: BlockDecoder)
        ensures
            r.wf(),
            r.phase == Phase::BlockHeader,
            r.bits.count == 0,
    {
        let (lit, dist) = fixed_tables();
        // Placeholder only: a dynamic header always rebuilds this table
        // before anything decodes with it.
        let mut clen_codes: Vec<Code> = Vec::new();
        clen_codes.resize(2, Code { op: CodeOp::Invalid, bits: 1 });
        let clen = CodeTable { codes: clen_codes, root_bits: 1 };
        proof {
            assert((1usize << 1usize) == 2) by (bit_vector);
        }
        let mut lens: Vec<u16> = Vec::new();
        lens.resize(320, 0u16);
        BlockDecoder {
            phase: Phase::BlockHeader,
            bits: BitReader::new(),
            last_block: false,
            err: DecodeError::InvalidBlockType,
            stored_remaining: 0,
            hlit: 0,
            hdist: 0,
            hclen: 0,
            hidx: 0,
            lens,
            clen_table: clen,
            lit_table: lit,
            dist_table: dist,
            copy_len: 0,
            copy_dist: 0,
            extra: 0,
        }
    }

    /// Enters the terminal error phase.
    fn fail(&mut self, e: DecodeError) -> (r: RunStatus)
        ensures
            r == RunStatus::Failed(e),
            *final(self) == (BlockDecoder { phase: Phase::Error, err: e, ..*old(self) }),
    {
        self.phase = Phase::Error;
        self.err = e;
        RunStatus::Failed(e)
    }

    /// Reads BFINAL and the block type.
    fn step_block_header(&mut self, input: &Vec<u8>, pos: &mut usize) -> (r: Option<RunStatus>)
        requires
            old(self).wf(),
            *old(pos) <= input@.len(),
            old(self).phase == Phase::BlockHeader,
        ensures
            final(self).wf(),
            *old(pos) <= *final(pos) <= input@.len(),
            bits_left(input@, *final(pos) as int, final(self).bits) <= bits_left(
                input@,
                *old(pos) as int,
                old(self).bits,
            ),
            r is None ==> progressed(
                bits_left(input@, *old(pos) as int, old(self).bits),
                bits_left(input@, *final(pos) as int, final(self).bits),
                0,
                0,
                Phase::BlockHeader,
                final(self).phase,
            ),
            step_post(*final(self), r),
            r == Some(RunStatus::Suspended) ==> *final(pos) == input@.len(),
            r != Some(RunStatus::OutputFull),
    {
        if !self.bits.fill_bits(input, pos, 3) {
            return Some(RunStatus::Suspended);
        }
        let v = self.bits.peek_bits(3);
        self.bits.drop_bits(3);
        self.last_block = (v & 1) == 1;
        let ty = v >> 1;
        if ty == 0 {
            self.phase = Phase::StoredHeader;
        } else if ty == 1 {
            let (lit, dist) = fixed_tables();
            self.lit_table = lit;
            self.dist_table = dist;
            self.phase = Phase::SymbolDecode;
        } else if ty == 2 {
            self.phase = Phase::DynamicHeaderCounts;
        } else {
            return Some(self.fail(DecodeError::InvalidBlockType));
        }
        None
    }

    /// Byte-aligns, then reads a stored block's length and its check.
    fn step_stored_header(&mut self, input: &Vec<u8>, pos: &mut usize) -> (r: Option<RunStatus>)
        requires
            old(self).wf(),
            *old(pos) <= input@.len(),
            old(self).phase == Phase::StoredHeader,
        ensures
            final(self).wf(),
            *old(pos) <= *final(pos) <= input@.len(),
            bits_left(input@, *final(pos) as int, final(self).bits) <= bits_left(
                input@,
                *old(pos) as int,
                old(self).bits,
            ),
            r is None ==> progressed(
                bits_left(input@, *old(pos) as int, old(self).bits),
                bits_left(input@, *final(pos) as int, final(self).bits),
                0,
                0,
                Phase::StoredHeader,
                final(self).phase,
            ),
            step_post(*final(self), r),
            r == Some(RunStatus::Suspended) ==> *final(pos) == input@.len(),
            r != Some(RunStatus::OutputFull),
    {
        self.bits.align_to_byte();
        if !self.bits.fill_bits(input, pos, 32) {
            return Some(RunStatus::Suspended);
        }
        let len = self.bits.peek_bits(16);
        self.bits.drop_bits(16);
        let nlen = self.bits.peek_bits(16);
        self.bits.drop_bits(16);
        if len != (nlen ^ 0xffff) {
            return Some(self.fail(DecodeError::InvalidStoredBlockLength));
        }
        self.stored_remaining = len;
        self.phase = Phase::StoredCopy;
        None
    }

    /// Copies one raw byte of a stored block, or leaves the block when done.
    fn step_stored_copy(
        &mut self,
        input: &Vec<u8>,
        pos: &mut usize,
        window: &mut SlidingWindow,
        output: &mut Vec<u8>,
        out_limit: usize,
    ) -> (r: Option<RunStatus>)
        requires
            old(self).wf(),
            old(window).wf(),
            *old(pos) <= input@.len(),
            old(output)@.len() <= out_limit,
            old(self).phase == Phase::StoredCopy,
        ensures
            final(self).wf(),
            final(window).wf(),
            *old(pos) <= *final(pos) <= input@.len(),
            old(output)@.is_prefix_of(final(output)@),
            final(output)@.len() <= out_limit,
            final(window).produced() == old(window).produced() + final(output)@.skip(
                old(output)@.len() as int,
            ),
            final(window).capacity() == old(window).capacity(),
            bits_left(input@, *final(pos) as int, final(self).bits) <= bits_left(
                input@,
                *old(pos) as int,
                old(self).bits,
            ),
            r is None ==> progressed(
                bits_left(input@, *old(pos) as int, old(self).bits),
                bits_left(input@, *final(pos) as int, final(self).bits),
                old(output)@.len() as int,
                final(output)@.len() as int,
                Phase::StoredCopy,
                final(self).phase,
            ),
            step_post(*final(self), r),
            r == Some(RunStatus::Suspended) ==> *final(pos) == input@.len(),
            r == Some(RunStatus::OutputFull) ==> final(output)@.len() >= out_limit,
    {
        proof {
            assert(output@.skip(output@.len() as int) =~= Seq::<u8>::empty());
            assert(window.produced() + Seq::<u8>::empty() =~= window.produced());
        }
        if self.stored_remaining == 0 {
            if self.last_block {
                self.phase = Phase::Done;
            } else {
                self.phase = Phase::BlockHeader;
            }
            return None;
        }
        if output.len() >= out_limit {
            return Some(RunStatus::OutputFull);
        }
        if !self.bits.fill_bits(input, pos, 8) {
            return Some(RunStatus::Suspended);
        }
        let b = self.bits.peek_bits(8) as u8;
        self.bits.drop_bits(8);
        proof {
            lemma_sync_push(window.produced(), output@, output@, b);
        }
        window.append(b);
        output.push(b);
        self.stored_remaining = self.stored_remaining - 1;
        None
    }

    /// Reads HLIT, HDIST and HCLEN and resets the length scratch.
    fn step_dynamic_counts(&mut self, input: &Vec<u8>, pos: &mut usize) -> (r: Option<RunStatus>)
        requires
            old(self).wf(),
            *old(pos) <= input@.len(),
            old(self).phase == Phase::DynamicHeaderCounts,
        ensures
            final(self).wf(),
            *old(pos) <= *final(pos) <= input@.len(),
            bits_left(input@, *final(pos) as int, final(self).bits) <= bits_left(
                input@,
                *old(pos) as int,
                old(self).bits,
            ),
            r is None ==> progressed(
                bits_left(input@, *old(pos) as int, old(self).bits),
                bits_left(input@, *final(pos) as int, final(self).bits),
                0,
                0,
                Phase::DynamicHeaderCounts,
                final(self).phase,
            ),
            step_post(*final(self), r),
            r == Some(RunStatus::Suspended) ==> *final(pos) == input@.len(),
            r != Some(RunStatus::OutputFull),
    {
        if !self.bits.fill_bits(input, pos, 14) {
            return Some(RunStatus::Suspended);
        }
        let v1 = self.bits.peek_bits(5);
        self.bits.drop_bits(5);
        let v2 = self.bits.peek_bits(5);
        self.bits.drop_bits(5);
        let v3 = self.bits.peek_bits(4);
        self.bits.drop_bits(4);
        proof {
            assert((1u32 << 5u32) == 32 && (1u32 << 4u32) == 16) by (bit_vector);
        }
        if v1 > 29 || v2 > 29 {
            return Some(self.fail(DecodeError::InvalidDynamicHeader));
        }
        self.hlit = 257 + v1 as usize;
        self.hdist = 1 + v2 as usize;
        self.hclen = 4 + v3 as usize;
        self.hidx = 0;
        let mut fresh: Vec<u16> = Vec::new();
        fresh.resize(320, 0u16);
        self.lens = fresh;
        self.phase = Phase::DynamicLengthTable;
        None
    }

    /// Reads one 3-bit code-length-alphabet length, or builds that alphabet's
    /// table once all are read.
    fn step_dynamic_lengths(&mut self, input: &Vec<u8>, pos: &mut usize) -> (r: Option<RunStatus>)
        requires
            old(self).wf(),
            *old(pos) <= input@.len(),
            old(self).phase == Phase::DynamicLengthTable,
        ensures
            final(self).wf(),
            *old(pos) <= *final(pos) <= input@.len(),
            bits_left(input@, *final(pos) as int, final(self).bits) <= bits_left(
                input@,
                *old(pos) as int,
                old(self).bits,
            ),
            r is None ==> progressed(
                bits_left(input@, *old(pos) as int, old(self).bits),
                bits_left(input@, *final(pos) as int, final(self).bits),
                0,
                0,
                Phase::DynamicLengthTable,
                final(self).phase,
            ),
            step_post(*final(self), r),
            r == Some(RunStatus::Suspended) ==> *final(pos) == input@.len(),
            r != Some(RunStatus::OutputFull),
    {
        if self.hidx < self.hclen {
            if !self.bits.fill_bits(input, pos, 3) {
                return Some(RunStatus::Suspended);
            }
            let v = self.bits.peek_bits(3) as u16;
            self.bits.drop_bits(3);
            let k = clen_order(self.hidx);
            proof {
                assert((1u32 << 3u32) == 8) by (bit_vector);
            }
            self.lens[k] = v;
            self.hidx = self.hidx + 1;
            return None;
        }
        match build(TableKind::CodeLengths, &self.lens, 19, 7) {
            Ok(t) => {
                self.clen_table = t;
            },
            Err(_) => {
                return Some(self.fail(DecodeError::InvalidDynamicHeader));
            },
        }
        self.hidx = 0;
        self.phase = Phase::DynamicTableBuild;
        None
    }

    /// Decodes one run-length-coded entry of the literal/length and distance
    /// length arrays, or builds this block's two tables once all are read.
    fn step_dynamic_build(&mut self, input: &Vec<u8>, pos: &mut usize) -> (r: Option<RunStatus>)
        requires
            old(self).wf(),
            *old(pos) <= input@.len(),
            old(self).phase == Phase::DynamicTableBuild,
        ensures
            final(self).wf(),
            *old(pos) <= *final(pos) <= input@.len(),
            bits_left(input@, *final(pos) as int, final(self).bits) <= bits_left(
                input@,
                *old(pos) as int,
                old(self).bits,
            ),
            r is None ==> progressed(
                bits_left(input@, *old(pos) as int, old(self).bits),
                bits_left(input@, *final(pos) as int, final(self).bits),
                0,
                0,
                Phase::DynamicTableBuild,
                final(self).phase,
            ),
            step_post(*final(self), r),
            r == Some(RunStatus::Suspended) ==> *final(pos) == input@.len(),
            r != Some(RunStatus::OutputFull),
    {
        let limit = self.hlit + self.hdist;
        if self.hidx < limit {
            let step = peek_entry(&self.clen_table, &mut self.bits, input, pos);
            match step {
                Peeked::NeedMore => {
                    return Some(RunStatus::Suspended);
                },
                Peeked::Bad => {
                    return Some(self.fail(DecodeError::InvalidDynamicHeader));
                },
                Peeked::Found(c, used) => {
                    let sym: u32 = match c.op {
                        CodeOp::Literal { byte } => byte as u32,
                        _ => 255,
                    };
                    if sym <= 15 {
                        self.bits.drop_bits(used);
                        self.lens[self.hidx] = sym as u16;
                        self.hidx = self.hidx + 1;
                        return None;
                    }
                    if sym > 18 {
                        return Some(self.fail(DecodeError::InvalidDynamicHeader));
                    }
                    let xb: u32 = if sym == 16 {
                        2
                    } else if sym == 17 {
                        3
                    } else {
                        7
                    };
                    if !self.bits.fill_bits(input, pos, used + xb) {
                        return Some(RunStatus::Suspended);
                    }
                    self.bits.drop_bits(used);
                    let xv = self.bits.peek_bits(xb);
                    self.bits.drop_bits(xb);
                    proof {
                        let x = xv;
                        let e = xb;
                        assert(x < (1u32 << e) && e <= 7 ==> x <= 127) by (bit_vector);
                    }
                    let fill_val: u16;
                    let count: usize;
                    if sym == 16 {
                        if self.hidx == 0 {
                            return Some(self.fail(DecodeError::InvalidDynamicHeader));
                        }
                        fill_val = self.lens[self.hidx - 1];
                        count = 3 + xv as usize;
                    } else if sym == 17 {
                        fill_val = 0;
                        count = 3 + xv as usize;
                    } else {
                        fill_val = 0;
                        count = 11 + xv as usize;
                    }
                    if count > limit - self.hidx {
                        return Some(self.fail(DecodeError::InvalidDynamicHeader));
                    }
                    let ghost snap = *self;
                    let mut j: usize = 0;
                    while j < count
                        invariant
                            j <= count,
                            self.wf(),
                            *self == (BlockDecoder { lens: self.lens, ..snap }),
                            snap.hidx + count <= limit,
                            limit == snap.hlit + snap.hdist,
                            limit <= 320,
                            self.lens@.len() == 320,
                            fill_val <= 15,
                            forall|i2: int| 0 <= i2 < 320 ==> self.lens@[i2] <= 15,
                        decreases count - j,
                    {
                        let k = self.hidx + j;
                        self.lens[k] = fill_val;
                        j = j + 1;
                    }
                    self.hidx = self.hidx + count;
                    return None;
                },
            }
        }
        if self.lens[256] == 0 {
            // A block with no way to end is malformed.
            return Some(self.fail(DecodeError::InvalidDynamicHeader));
        }
        match build(TableKind::LitLen, &self.lens, self.hlit, 9) {
            Ok(t) => {
                self.lit_table = t;
            },
            Err(_) => {
                return Some(self.fail(DecodeError::InvalidDynamicHeader));
            },
        }
        let mut dl: Vec<u16> = Vec::new();
        let ghost snap2 = *self;
        let mut j: usize = 0;
        while j < self.hdist
            invariant
                j <= self.hdist <= 32,
                self.hlit <= 288,
                self.wf(),
                *self == snap2,
                self.lens@.len() == 320,
                dl@.len() == j,
                forall|i2: int| 0 <= i2 < 320 ==> self.lens@[i2] <= 15,
                forall|i2: int| 0 <= i2 < j ==> dl@[i2] <= 15,
            decreases self.hdist - j,
        {
            let v = self.lens[self.hlit + j];
            dl.push(v);
            j = j + 1;
        }
        match build(TableKind::Dist, &dl, dl.len(), 5) {
            Ok(t) => {
                self.dist_table = t;
            },
            Err(_) => {
                return Some(self.fail(DecodeError::InvalidDynamicHeader));
            },
        }
        self.phase = Phase::SymbolDecode;
        None
    }

    /// Decodes one literal/length symbol: a literal byte, the end of the
    /// block, or a length base that starts a back-reference.
    fn step_symbol(
        &mut self,
        input: &Vec<u8>,
        pos: &mut usize,
        window: &mut SlidingWindow,
        output: &mut Vec<u8>,
        out_limit: usize,
    ) -> (r: Option<RunStatus>)
        requires
            old(self).wf(),
            old(window).wf(),
            *old(pos) <= input@.len(),
            old(output)@.len() <= out_limit,
            old(self).phase == Phase::SymbolDecode,
        ensures
            final(self).wf(),
            final(window).wf(),
            *old(pos) <= *final(pos) <= input@.len(),
            old(output)@.is_prefix_of(final(output)@),
            final(output)@.len() <= out_limit,
            final(window).produced() == old(window).produced() + final(output)@.skip(
                old(output)@.len() as int,
            ),
            final(window).capacity() == old(window).capacity(),
            bits_left(input@, *final(pos) as int, final(self).bits) <= bits_left(
                input@,
                *old(pos) as int,
                old(self).bits,
            ),
            r is None ==> progressed(
                bits_left(input@, *old(pos) as int, old(self).bits),
                bits_left(input@, *final(pos) as int, final(self).bits),
                old(output)@.len() as int,
                final(output)@.len() as int,
                Phase::SymbolDecode,
                final(self).phase,
            ),
            step_post(*final(self), r),
            r == Some(RunStatus::Suspended) ==> *final(pos) == input@.len(),
            r == Some(RunStatus::OutputFull) ==> final(output)@.len() >= out_limit,
            old(output)@.len() >= out_limit ==> r == Some(RunStatus::OutputFull) && *final(self)
                == *old(self) && final(output)@ == old(output)@,
    {
        proof {
            assert(output@.skip(output@.len() as int) =~= Seq::<u8>::empty());
            assert(window.produced() + Seq::<u8>::empty() =~= window.produced());
        }
        if output.len() >= out_limit {
            return Some(RunStatus::OutputFull);
        }
        let step = peek_entry(&self.lit_table, &mut self.bits, input, pos);
        match step {
            Peeked::NeedMore => {
                return Some(RunStatus::Suspended);
            },
            Peeked::Bad => {
                return Some(self.fail(DecodeError::InvalidSymbol));
            },
            Peeked::Found(c, used) => {
                match c.op {
                    CodeOp::Literal { byte } => {
                        self.bits.drop_bits(used);
                        proof {
                            lemma_sync_push(window.produced(), output@, output@, byte);
                        }
                        window.append(byte);
                        output.push(byte);
                        None
                    },
                    CodeOp::EndOfBlock => {
                        self.bits.drop_bits(used);
                        if self.last_block {
                            self.phase = Phase::Done;
                        } else {
                            self.phase = Phase::BlockHeader;
                        }
                        None
                    },
                    CodeOp::Base { base, extra } => {
                        if extra > 5 {
                            return Some(self.fail(DecodeError::InvalidSymbol));
                        }
                        self.bits.drop_bits(used);
                        self.copy_len = base as usize;
                        self.extra = extra;
                        self.phase = Phase::LengthExtraBits;
                        None
                    },
                    _ => Some(self.fail(DecodeError::InvalidSymbol)),
                }
            },
        }
    }

    /// Refines the pending length with its extra bits.
    fn step_length_extra(&mut self, input: &Vec<u8>, pos: &mut usize) -> (r: Option<RunStatus>)
        requires
            old(self).wf(),
            *old(pos) <= input@.len(),
            old(self).phase == Phase::LengthExtraBits,
        ensures
            final(self).wf(),
            *old(pos) <= *final(pos) <= input@.len(),
            bits_left(input@, *final(pos) as int, final(self).bits) <= bits_left(
                input@,
                *old(pos) as int,
                old(self).bits,
            ),
            r is None ==> progressed(
                bits_left(input@, *old(pos) as int, old(self).bits),
                bits_left(input@, *final(pos) as int, final(self).bits),
                0,
                0,
                Phase::LengthExtraBits,
                final(self).phase,
            ),
            step_post(*final(self), r),
            r == Some(RunStatus::Suspended) ==> *final(pos) == input@.len(),
            r != Some(RunStatus::OutputFull),
    {
        let xb = self.extra as u32;
        if xb > 0 {
            if !self.bits.fill_bits(input, pos, xb) {
                return Some(RunStatus::Suspended);
            }
            let xv = self.bits.peek_bits(xb);
            self.bits.drop_bits(xb);
            proof {
                let x = xv;
                let e = xb;
                assert(x < (1u32 << e) && e <= 13 ==> x <= 0x2000) by (bit_vector);
            }
            self.copy_len = self.copy_len + xv as usize;
            if self.copy_len > 0x10000 {
                self.copy_len = 0;
                return Some(self.fail(DecodeError::InvalidSymbol));
            }
        }
        self.phase = Phase::DistanceDecode;
        None
    }

    /// Decodes the distance symbol of the pending back-reference.
    fn step_distance(&mut self, input: &Vec<u8>, pos: &mut usize) -> (r: Option<RunStatus>)
        requires
            old(self).wf(),
            *old(pos) <= input@.len(),
            old(self).phase == Phase::DistanceDecode,
        ensures
            final(self).wf(),
            *old(pos) <= *final(pos) <= input@.len(),
            bits_left(input@, *final(pos) as int, final(self).bits) <= bits_left(
                input@,
                *old(pos) as int,
                old(self).bits,
            ),
            r is None ==> progressed(
                bits_left(input@, *old(pos) as int, old(self).bits),
                bits_left(input@, *final(pos) as int, final(self).bits),
                0,
                0,
                Phase::DistanceDecode,
                final(self).phase,
            ),
            step_post(*final(self), r),
            r == Some(RunStatus::Suspended) ==> *final(pos) == input@.len(),
            r != Some(RunStatus::OutputFull),
    {
        let step = peek_entry(&self.dist_table, &mut self.bits, input, pos);
        match step {
            Peeked::NeedMore => Some(RunStatus::Suspended),
            Peeked::Bad => Some(self.fail(DecodeError::InvalidSymbol)),
            Peeked::Found(c, used) => {
                match c.op {
                    CodeOp::Base { base, extra } => {
                        if extra > 13 || base == 0 {
                            return Some(self.fail(DecodeError::InvalidSymbol));
                        }
                        self.bits.drop_bits(used);
                        self.copy_dist = base as usize;
                        self.extra = extra;
                        self.phase = Phase::DistanceExtraBits;
                        None
                    },
                    _ => Some(self.fail(DecodeError::InvalidSymbol)),
                }
            },
        }
    }

    /// Refines the pending distance with its extra bits.
    fn step_distance_extra(&mut self, input: &Vec<u8>, pos: &mut usize) -> (r: Option<RunStatus>)
        requires
            old(self).wf(),
            *old(pos) <= input@.len(),
            old(self).phase == Phase::DistanceExtraBits,
        ensures
            final(self).wf(),
            *old(pos) <= *final(pos) <= input@.len(),
            bits_left(input@, *final(pos) as int, final(self).bits) <= bits_left(
                input@,
                *old(pos) as int,
                old(self).bits,
            ),
            r is None ==> progressed(
                bits_left(input@, *old(pos) as int, old(self).bits),
                bits_left(input@, *final(pos) as int, final(self).bits),
                0,
                0,
                Phase::DistanceExtraBits,
                final(self).phase,
            ),
            step_post(*final(self), r),
            r == Some(RunStatus::Suspended) ==> *final(pos) == input@.len(),
            r != Some(RunStatus::OutputFull),
    {
        let xb = self.extra as u32;
        if xb > 0 {
            if !self.bits.fill_bits(input, pos, xb) {
                return Some(RunStatus::Suspended);
            }
            let xv = self.bits.peek_bits(xb);
            self.bits.drop_bits(xb);
            proof {
                let x = xv;
                let e = xb;
                assert(x < (1u32 << e) && e <= 13 ==> x <= 0x2000) by (bit_vector);
            }
            self.copy_dist = self.copy_dist + xv as usize;
            if self.copy_dist > 0x10000 {
                self.copy_dist = 0x10000;
                return Some(self.fail(DecodeError::DistanceTooFar));
            }
        }
        self.phase = Phase::CopyMatch;
        None
    }

    /// Performs as much of the pending back-reference copy as the output
    /// room allows.
    fn step_copy(
        &mut self,
        window: &mut SlidingWindow,
        output: &mut Vec<u8>,
        out_limit: usize,
    ) -> (r: Option<RunStatus>)
        requires
            old(self).wf(),
            old(window).wf(),
            old(output)@.len() <= out_limit,
            old(self).phase == Phase::CopyMatch,
        ensures
            final(self).wf(),
            final(window).wf(),
            old(output)@.is_prefix_of(final(output)@),
            final(output)@.len() <= out_limit,
            final(window).produced() == old(window).produced() + final(output)@.skip(
                old(output)@.len() as int,
            ),
            final(window).capacity() == old(window).capacity(),
            final(self).bits == old(self).bits,
            r is None ==> progressed(
                0,
                0,
                old(output)@.len() as int,
                final(output)@.len() as int,
                Phase::CopyMatch,
                final(self).phase,
            ),
            step_post(*final(self), r),
            r != Some(RunStatus::Suspended),
            r == Some(RunStatus::OutputFull) ==> final(output)@.len() >= out_limit,
    {
        proof {
            assert(output@.skip(output@.len() as int) =~= Seq::<u8>::empty());
            assert(window.produced() + Seq::<u8>::empty() =~= window.produced());
        }
        if self.copy_len < 1 || self.copy_dist < 1 {
            return Some(self.fail(DecodeError::InvalidSymbol));
        }
        let res = window.copy_match(self.copy_dist, self.copy_len, output, out_limit);
        match res {
            Err(e) => Some(self.fail(e)),
            Ok(k) => {
                if k == 0 {
                    return Some(RunStatus::OutputFull);
                }
                self.copy_len = self.copy_len - k;
                if self.copy_len == 0 {
                    self.phase = Phase::SymbolDecode;
                }
                None
            },
        }
    }

    /// Advances the state machine as far as this call's input and output room
    /// allow. Output bytes are appended both to the sliding window's history
    /// and to `output` (never past `out_limit` bytes), so the window history
    /// grows by exactly the bytes this call appends to `output`: no decoded
    /// output is lost or duplicated across suspensions.
    pub fn run(
        &mut self,
        input: &Vec<u8>,
        pos: &mut usize,
        window: &mut SlidingWindow,
        output: &mut Vec<u8>,
        out_limit: usize,
    ) -> (r: RunStatus)
        requires
            old(self).wf(),
            old(window).wf(),
            *old(pos) <= input@.len(),
            old(output)@.len() <= out_limit,
        ensures
            final(self).wf(),
            final(window).wf(),
            *old(pos) <= *final(pos) <= input@.len(),
            old(output)@.is_prefix_of(final(output)@),
            final(output)@.len() <= out_limit,
            final(window).produced() == old(window).produced() + final(output)@.skip(
                old(output)@.len() as int,
            ),
            final(window).capacity() == old(window).capacity(),
            bits_left(input@, *final(pos) as int, final(self).bits) <= bits_left(
                input@,
                *old(pos) as int,
                old(self).bits,
            ),
            r == RunStatus::Done ==> final(self).phase == Phase::Done,
            r is Failed ==> final(self).phase == Phase::Error,
            r matches RunStatus::Failed(e2) ==> final(self).err == e2 && e2
                != DecodeError::ChecksumMismatch && e2 != DecodeError::InvalidWindowBits,
            r == RunStatus::Suspended ==> *final(pos) == input@.len(),
            r == RunStatus::OutputFull ==> final(output)@.len() >= out_limit,
            // A full output buffer at a symbol boundary is owed OutputFull,
            // never an error.
            old(self).phase == Phase::SymbolDecode && old(output)@.len() >= out_limit ==> r
                == RunStatus::OutputFull,
            // Done and Error are terminal: the call changes nothing and
            // repeats the verdict.
            old(self).phase == Phase::Done ==> r == RunStatus::Done && *final(self) == *old(self)
                && *final(pos) == *old(pos) && *final(window) == *old(window) && final(output)@
                == old(output)@,
            old(self).phase == Phase::Error ==> r == RunStatus::Failed(old(self).err)
                && *final(self) == *old(self) && *final(pos) == *old(pos) && *final(window)
                == *old(window) && final(output)@ == old(output)@,
    {
        let ghost in0 = *pos;
        let ghost out0 = output@;
        let ghost h0 = window.produced();
        let ghost cap0 = window.capacity();
        let ghost m0 = bits_left(input@, *pos as int, self.bits);
        proof {
            assert(output@.skip(out0.len() as int) =~= Seq::<u8>::empty());
            assert(h0 + Seq::<u8>::empty() =~= h0);
        }
        loop
            invariant
                self.wf(),
                window.wf(),
                in0 <= *pos <= input@.len(),
                in0 == *old(pos),
                out0 == old(output)@,
                h0 == old(window).produced(),
                out0.is_prefix_of(output@),
                output@.len() <= out_limit,
                window.produced() == h0 + output@.skip(out0.len() as int),
                window.capacity() == cap0,
                cap0 == old(window).capacity(),
                bits_left(input@, *pos as int, self.bits) <= m0,
                m0 == bits_left(input@, *old(pos) as int, old(self).bits),
                old(self).phase == Phase::Done ==> *self == *old(self) && *pos == *old(pos)
                    && *window == *old(window) && output@ == old(output)@,
                old(self).phase == Phase::Error ==> *self == *old(self) && *pos == *old(pos)
                    && *window == *old(window) && output@ == old(output)@,
                old(self).phase == Phase::SymbolDecode && out0.len() >= out_limit ==> self.phase
                    == Phase::SymbolDecode && output@ == out0,
            decreases
                    bits_left(input@, *pos as int, self.bits),
                    out_limit - output@.len(),
                    phase_rank(self.phase),
        {
            let ghost o_pre = output@;
            let ghost w_pre = window.produced();
            let step: Option<RunStatus> = match self.phase {
                Phase::BlockHeader => self.step_block_header(input, pos),
                Phase::StoredHeader => self.step_stored_header(input, pos),
                Phase::StoredCopy => self.step_stored_copy(input, pos, window, output, out_limit),
                Phase::DynamicHeaderCounts => self.step_dynamic_counts(input, pos),
                Phase::DynamicLengthTable => self.step_dynamic_lengths(input, pos),
                Phase::DynamicTableBuild => self.step_dynamic_build(input, pos),
                Phase::SymbolDecode => self.step_symbol(input, pos, window, output, out_limit),
                Phase::LengthExtraBits => self.step_length_extra(input, pos),
                Phase::DistanceDecode => self.step_distance(input, pos),
                Phase::DistanceExtraBits => self.step_distance_extra(input, pos),
                Phase::CopyMatch => self.step_copy(window, output, out_limit),
                Phase::Done => Some(RunStatus::Done),
                Phase::Error => Some(RunStatus::Failed(self.err)),
            };
            proof {
                lemma_sync_trans(h0, out0, o_pre, output@, w_pre, window.produced());
            }
            match step {
                Some(s) => {
                    return s;
                },
                None => {
                },
            }
        }
    }
}

} // verus!
