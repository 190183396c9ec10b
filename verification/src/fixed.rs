use vstd::prelude::*;

use crate::errors::BuildError;
use crate::huffman::{
    build, code_weight, nonzero_count, weight15, CodeTable, TableKind,
};

verus! {

/// The fixed literal/length code lengths: 8 for symbols 0..=143, 9 for
/// 144..=255, 7 for 256..=279 and 8 for 280..=287.
pub open spec fn fixed_lit_lens_spec() -> Seq<u16> {
    Seq::new(
        288,
        |i: int|
            if i < 144 {
                8u16
            } else if i < 256 {
                9u16
            } else if i < 280 {
                7u16
            } else {
                8u16
            },
    )
}

/// The fixed distance code lengths: 5 for all 32 symbols.
pub open spec fn fixed_dist_lens_spec() -> Seq<u16> {
    Seq::new(32, |i: int| 5u16)
}

/// A constant run of one length.
pub open spec fn run_of(l: u16, n: nat) -> Seq<u16> {
    Seq::new(n, |i: int| l)
}

/// Weight and code count add over concatenation.
pub proof fn lemma_weight_concat(a: Seq<u16>, b: Seq<u16>)
    ensures
        weight15(a + b) == weight15(a) + weight15(b),
        nonzero_count(a + b) == nonzero_count(a) + nonzero_count(b),
    decreases b.len(),
{
    if b.len() == 0 {
        assert(a + b =~= a);
    } else {
        lemma_weight_concat(a, b.drop_last());
        assert((a + b).drop_last() =~= a + b.drop_last());
        assert((a + b).last() == b.last());
    }
}

/// A run of `n` equal lengths weighs `n` times one of them.
pub proof fn lemma_weight_run(l: u16, n: nat)
    ensures
        weight15(run_of(l, n)) == n * code_weight(l),
        nonzero_count(run_of(l, n)) == if l == 0 {
            0int
        } else {
            n as int
        },
    decreases n,
{
    if n > 0 {
        lemma_weight_run(l, (n - 1) as nat);
        assert(run_of(l, n).drop_last() =~= run_of(l, (n - 1) as nat));
        assert(run_of(l, n).last() == l);
        assert(n * code_weight(l) == (n - 1) * code_weight(l) + code_weight(l))
            by (nonlinear_arith);
    } else {
        assert(run_of(l, 0) =~= Seq::<u16>::empty());
    }
}

/// Both fixed length arrays describe complete trees: their weights fill the
/// code space exactly.
pub proof fn lemma_fixed_weights()
    ensures
        weight15(fixed_lit_lens_spec()) == 32768,
        weight15(fixed_dist_lens_spec()) == 32768,
{
    assert((32768u32 >> 8u32) == 128 && (32768u32 >> 9u32) == 64 && (32768u32 >> 7u32) == 256 && (
    32768u32 >> 5u32) == 1024) by (bit_vector);
    let a = run_of(8, 144);
    let b = run_of(9, 112);
    let c = run_of(7, 24);
    let d = run_of(8, 8);
    lemma_weight_run(8, 144);
    lemma_weight_run(9, 112);
    lemma_weight_run(7, 24);
    lemma_weight_run(8, 8);
    lemma_weight_concat(a, b);
    lemma_weight_concat(a + b, c);
    lemma_weight_concat(a + b + c, d);
    assert(a + b + c + d =~= fixed_lit_lens_spec());
    lemma_weight_run(5, 32);
    assert(run_of(5, 32) =~= fixed_dist_lens_spec());
}

/// The fixed literal/length code lengths as a vector.
pub fn fixed_lit_lens() -> (r: Vec<u16>)
    ensures
        r@ == fixed_lit_lens_spec(),
{
    let mut r: Vec<u16> = Vec::new();
    let mut i: usize = 0;
    while i < 288
        invariant
            r@.len() == i,
            i <= 288,
            forall|j: int| 0 <= j < i ==> r@[j] == fixed_lit_lens_spec()[j],
        decreases 288 - i,
    {
        if i < 144 {
            r.push(8);
        } else if i < 256 {
            r.push(9);
        } else if i < 280 {
            r.push(7);
        } else {
            r.push(8);
        }
        i = i + 1;
    }
    proof {
        assert(r@ =~= fixed_lit_lens_spec());
    }
    r
}

/// The fixed distance code lengths as a vector.
pub fn fixed_dist_lens() -> (r: Vec<u16>)
    ensures
        r@ == fixed_dist_lens_spec(),
{
    let mut r: Vec<u16> = Vec::new();
    r.resize(32, 5u16);
    proof {
        assert(r@ =~= fixed_dist_lens_spec());
    }
    r
}

/// The two fixed decode tables, built from the fixed length arrays by the
/// same table builder that dynamic blocks use; the build cannot fail because
/// both arrays weigh exactly the full code space.
pub fn fixed_tables() -> (r: (CodeTable, CodeTable))
    ensures
        r.0.wf(),
        r.0.root_bits == 9,
        r.1.wf(),
        r.1.root_bits == 5,
{
    proof {
        lemma_fixed_weights();
    }
    let ll = fixed_lit_lens();
    proof {
        assert(ll@.take(288) =~= fixed_lit_lens_spec());
        assert(forall|i: int| 0 <= i < 288 ==> fixed_lit_lens_spec()[i] <= 15);
    }
    let lit = match build(TableKind::LitLen, &ll, 288, 9) {
        Ok(t) => t,
        Err(_) => {
            proof {
                assert(false);
            }
            CodeTable { codes: Vec::new(), root_bits: 9 }
        },
    };
    let dl = fixed_dist_lens();
    proof {
        assert(dl@.take(32) =~= fixed_dist_lens_spec());
        assert(forall|i: int| 0 <= i < 32 ==> fixed_dist_lens_spec()[i] <= 15);
    }
    let dist = match build(TableKind::Dist, &dl, 32, 5) {
        Ok(t) => t,
        Err(_) => {
            proof {
                assert(false);
            }
            CodeTable { codes: Vec::new(), root_bits: 5 }
        },
    };
    (lit, dist)
}

} // verus!
