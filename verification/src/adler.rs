use vstd::prelude::*;

verus! {

/// The Adler-32 modulus: the largest prime below 65536.
pub open spec fn adler_mod() -> int {
    65521
}

/// Low half of the Adler-32 state over a byte sequence: 1 plus the sum of all
/// bytes, modulo 65521.
pub open spec fn adler_a(s: Seq<u8>) -> int
    decreases s.len(),
{
    if s.len() == 0 {
        1
    } else {
        (adler_a(s.drop_last()) + s.last()) % adler_mod()
    }
}

/// High half of the Adler-32 state: the running sum of the low halves,
/// modulo 65521.
pub open spec fn adler_b(s: Seq<u8>) -> int
    decreases s.len(),
{
    if s.len() == 0 {
        0
    } else {
        (adler_b(s.drop_last()) + adler_a(s)) % adler_mod()
    }
}

/// The Adler-32 checksum of a byte sequence, as the trailer stores it.
pub open spec fn adler32_of(s: Seq<u8>) -> int {
    adler_b(s) * 65536 + adler_a(s)
}

/// Both halves of the state stay below the modulus.
pub proof fn lemma_adler_bounds(s: Seq<u8>)
    ensures
        0 <= adler_a(s) <= 65520,
        0 <= adler_b(s) <= 65520,
{
    if s.len() == 0 {
    } else {
    }
}

/// Rolling Adler-32 accumulator over the bytes handed to `update`, which the
/// ghost view `data` records.
pub struct Adler32 {
    pub a: u32,
    pub b: u32,
    pub data: Ghost<Seq<u8>>,
}

impl Adler32 {
    pub open spec fn wf(self) -> bool {
        &&& self.a == adler_a(self.data@)
        &&& self.b == adler_b(self.data@)
    }

    pub fn new() -> (r: Adler32)
        ensures
            r.wf(),
            r.data@ == Seq::<u8>::empty(),
    {
        Adler32 { a: 1, b: 0, data: Ghost(Seq::empty()) }
    }

    /// Rolls one byte into the accumulator.
    pub fn update(&mut self, byte: u8)
        requires
            old(self).wf(),
        ensures
            final(self).wf(),
            final(self).data@ == old(self).data@.push(byte),
    {
        proof {
            lemma_adler_bounds(self.data@);
        }
        self.a = (self.a + byte as u32) % 65521;
        self.b = (self.b + self.a) % 65521;
        self.data = Ghost(self.data@.push(byte));
        proof {
            assert(self.data@.drop_last() =~= old(self).data@);
            assert(self.data@.last() == byte);
        }
    }

    /// The checksum of everything rolled in so far.
    pub fn finish(&self) -> (r: u32)
        requires
            self.wf(),
        ensures
            r == adler32_of(self.data@),
    {
        proof {
            lemma_adler_bounds(self.data@);
        }
        self.b * 65536 + self.a
    }
}

} // verus!
