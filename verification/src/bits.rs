use vstd::prelude::*;

verus! {

/// The value of the low `n` bits, all set.
pub open spec fn mask64(n: u64) -> u64
    recommends
        n < 64,
{
    ((1u64 << n) - 1) as u64
}

/// Stateful cursor over the compressed byte stream. Bits pulled into the
/// accumulator are never discarded across calls; only fully consumed input
/// bytes advance the caller's byte position. The accumulator `hold` keeps the
/// next bits of the stream, lowest bit first, and `count` says how many of its
/// low bits are valid.
pub struct BitReader {
    pub hold: u64,
    pub count: u32,
}

impl BitReader {
    /// All bits above `count` are zero, and there is room to load more bytes.
    pub open spec fn wf(self) -> bool {
        self.count <= 56 && (self.hold >> (self.count as u64)) == 0
    }

    pub fn new() -> (r: BitReader)
        ensures
            r.wf(),
            r.hold == 0,
            r.count == 0,
    {
        proof {
            assert(0u64 >> 0u64 == 0u64) by (bit_vector);
        }
        BitReader { hold: 0, count: 0 }
    }

    /// How many bits are buffered and ready to be peeked.
    pub fn bits_available(&self) -> (r: u32)
        ensures
            r == self.count,
    {
        self.count
    }

    /// Appends the eight bits of `b` above the bits already buffered.
    pub fn load_byte(&mut self, b: u8)
        requires
            old(self).wf(),
            old(self).count <= 48,
        ensures
            final(self).wf(),
            final(self).count == old(self).count + 8,
            final(self).hold == old(self).hold | ((b as u64) << (old(self).count as u64)),
            final(self).hold & mask64(old(self).count as u64) == old(self).hold,
    {
        let ghost h = self.hold;
        let ghost c = self.count as u64;
        let ghost bv = b as u64;
        self.hold = self.hold | ((b as u64) << self.count);
        self.count = self.count + 8;
        proof {
            assert((h | (bv << c)) >> ((c + 8) as u64) == 0) by (bit_vector)
                requires
                    h >> c == 0,
                    c <= 48,
                    bv < 256,
            ;
            assert((h | (bv << c)) & mask64(c) == h) by (bit_vector)
                requires
                    h >> c == 0,
                    c <= 48,
            ;
        }
    }

    /// Returns the next `n` bits without consuming them, lowest stream bit in
    /// the lowest result bit. With fewer than `n` bits buffered the missing
    /// high bits read as zero, so the result is still the masked accumulator.
    pub fn peek_bits(&self, n: u32) -> (r: u32)
        requires
            self.wf(),
            n <= 24,
        ensures
            r as u64 == self.hold & mask64(n as u64),
            r < (1u32 << n),
            self.count <= n ==> r as u64 == self.hold,
    {
        let ghost h = self.hold;
        let ghost c = self.count as u64;
        let nw: u64 = n as u64;
        let ghost nn = n as u64;
        proof {
            assert((h & mask64(nn)) < (1u64 << nn) && (h & mask64(nn)) < 0x1000000u64 && ((c
                <= nn && h >> c == 0) ==> (h & mask64(nn)) == h) && ((1u64 << nn) as u64 == (1u32
                << (nn as u32)) as u64) && (1u64 << nn) >= 1) by (bit_vector)
                requires
                    nn <= 24,
            ;
        }
        let m: u64 = (1u64 << nw) - 1;
        let masked: u64 = self.hold & m;
        masked as u32
    }

    /// Consumes exactly `n` bits already buffered.
    pub fn drop_bits(&mut self, n: u32)
        requires
            old(self).wf(),
            n <= old(self).count,
        ensures
            final(self).wf(),
            final(self).count == old(self).count - n,
            final(self).hold == old(self).hold >> (n as u64),
    {
        let ghost h = self.hold;
        let ghost c = self.count as u64;
        let ghost nn = n as u64;
        self.hold = self.hold >> n;
        self.count = self.count - n;
        proof {
            assert((h >> nn) >> ((c - nn) as u64) == 0) by (bit_vector)
                requires
                    h >> c == 0,
                    nn <= c,
                    c <= 56,
            ;
        }
    }

    /// Consumes buffered bits up to the next byte boundary of the input.
    pub fn align_to_byte(&mut self)
        requires
            old(self).wf(),
        ensures
            final(self).wf(),
            final(self).count == old(self).count - (old(self).count % 8),
            final(self).count % 8 == 0,
            final(self).hold == old(self).hold >> ((old(self).count % 8) as u64),
    {
        let extra: u32 = self.count % 8;
        self.drop_bits(extra);
    }

    /// Loads whole input bytes until `n` bits are buffered. Returns false when
    /// the input runs out first; the bits already buffered are kept either way,
    /// so suspension never discards bits.
    pub fn fill_bits(&mut self, input: &Vec<u8>, pos: &mut usize, n: u32) -> (ok: bool)
        requires
            old(self).wf(),
            n <= 32,
            *old(pos) <= input@.len(),
        ensures
            final(self).wf(),
            *old(pos) <= *final(pos),
            *final(pos) <= input@.len(),
            final(self).count >= old(self).count,
            final(self).hold & mask64(old(self).count as u64) == old(self).hold,
            ok == (final(self).count >= n),
            !ok ==> *final(pos) == input@.len(),
            final(self).count == old(self).count + 8 * (*final(pos) - *old(pos)),
    {
        let ghost h0 = self.hold;
        let ghost c0 = self.count as u64;
        proof {
            let h = self.hold;
            assert(h & mask64(c0) == h0) by (bit_vector)
                requires
                    h == h0,
                    h0 >> c0 == 0,
                    c0 <= 56,
            ;
        }
        while self.count < n
            invariant
                self.wf(),
                n <= 32,
                *old(pos) <= *pos <= input@.len(),
                self.count >= old(self).count,
                self.hold & mask64(c0) == h0,
                c0 == old(self).count,
                h0 == old(self).hold,
                self.count == old(self).count + 8 * (*pos - *old(pos)),
            decreases input@.len() - *pos,
        {
            if *pos == input.len() {
                return false;
            }
            let b: u8 = input[*pos];
            let ghost h1 = self.hold;
            let ghost c1 = self.count as u64;
            self.load_byte(b);
            *pos = *pos + 1;
            proof {
                let bv = b as u64;
                assert((h1 | (bv << c1)) & mask64(c0) == h1 & mask64(c0)) by (bit_vector)
                    requires
                        c0 <= c1,
                        c1 <= 48,
                ;
            }
        }
        true
    }
}

/// How many input bytes of this call are still unread at `pos`.
pub fn bytes_available(input: &Vec<u8>, pos: usize) -> (r: usize)
    requires
        pos <= input@.len(),
    ensures
        r == input@.len() - pos,
{
    input.len() - pos
}

} // verus!
