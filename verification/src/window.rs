use vstd::prelude::*;

use crate::errors::DecodeError;

verus! {

/// The bytes a back-reference copy appends: byte `i` of the copy is the byte
/// `dist` positions behind the end of the output so far, where the output so
/// far includes the bytes the same copy has already appended. Overlap
/// (`dist < n`) therefore repeats a pattern, as DEFLATE requires.
pub open spec fn match_bytes(h: Seq<u8>, dist: int, n: int) -> Seq<u8>
    decreases n,
{
    if n <= 0 {
        Seq::empty()
    } else {
        let prev = match_bytes(h, dist, n - 1);
        prev.push((h + prev)[h.len() + n - 1 - dist])
    }
}

/// Circular output buffer of capacity `1 << window_bits`, plus the whole
/// history of bytes ever produced (including any preset dictionary) as the
/// ghost view `hist`. A copy request's distance must not exceed the bytes
/// produced so far nor the window capacity.
pub struct SlidingWindow {
    pub buf: Vec<u8>,
    pub pos: usize,
    pub filled: usize,
    pub hist: Ghost<Seq<u8>>,
}

/// Index of the byte `d` positions behind the write position, without wrap
/// arithmetic: one step back from `pos` is `pos - 1`, or `cap - 1` at the seam.
pub open spec fn back_slot(pos: int, cap: int, d: int) -> int {
    if d <= pos {
        pos - d
    } else {
        pos + cap - d
    }
}

impl SlidingWindow {
    /// Everything the engine relies on: the buffer's last `filled` bytes,
    /// read backwards from `pos`, are the last `filled` bytes of the history.
    pub open spec fn wf(self) -> bool {
        &&& 256 <= self.buf@.len() <= 32768
        &&& self.pos < self.buf@.len()
        &&& self.filled == if self.hist@.len() <= self.buf@.len() {
            self.hist@.len() as int
        } else {
            self.buf@.len() as int
        }
        &&& forall|d: int|
            1 <= d <= self.filled ==> self.buf@[back_slot(
                self.pos as int,
                self.buf@.len() as int,
                d,
            )] == self.hist@[self.hist@.len() - d]
    }

    pub open spec fn capacity(self) -> int {
        self.buf@.len() as int
    }

    /// Total bytes ever produced, including any preset dictionary.
    pub open spec fn produced(self) -> Seq<u8> {
        self.hist@
    }

    /// An empty window of capacity `1 << window_bits`.
    pub fn new(window_bits: usize) -> (r: SlidingWindow)
        requires
            8 <= window_bits <= 15,
        ensures
            r.wf(),
            r.produced() == Seq::<u8>::empty(),
            r.capacity() == (1usize << window_bits),
    {
        let cap: usize = 1usize << window_bits;
        proof {
            assert(256 <= (1usize << window_bits) <= 32768) by (bit_vector)
                requires
                    8 <= window_bits <= 15,
            ;
        }
        let mut buf: Vec<u8> = Vec::new();
        buf.resize(cap, 0u8);
        SlidingWindow { buf, pos: 0, filled: 0, hist: Ghost(Seq::empty()) }
    }

    /// How many bytes may still serve as a back-reference source.
    pub fn available_history(&self) -> (r: usize)
        requires
            self.wf(),
        ensures
            r == self.filled,
            r == if self.produced().len() <= self.capacity() {
                self.produced().len() as int
            } else {
                self.capacity()
            },
    {
        self.filled
    }

    /// Appends one decompressed byte to the history, advancing the write
    /// position modulo the capacity.
    pub fn append(&mut self, b: u8)
        requires
            old(self).wf(),
        ensures
            final(self).wf(),
            final(self).produced() == old(self).produced().push(b),
            final(self).capacity() == old(self).capacity(),
    {
        let ghost h0 = self.hist@;
        let ghost cap = self.buf@.len() as int;
        let ghost p0 = self.pos as int;
        self.buf[self.pos] = b;
        self.pos = if self.pos + 1 == self.buf.len() {
            0
        } else {
            self.pos + 1
        };
        if self.filled < self.buf.len() {
            self.filled = self.filled + 1;
        }
        self.hist = Ghost(h0.push(b));
        proof {
            let p1 = self.pos as int;
            let h1 = self.hist@;
            assert forall|d: int| 1 <= d <= self.filled implies self.buf@[back_slot(p1, cap, d)]
                == h1[h1.len() - d] by {
                if d == 1 {
                    assert(back_slot(p1, cap, 1) == p0);
                } else {
                    assert(back_slot(p1, cap, d) == back_slot(p0, cap, d - 1));
                    assert(back_slot(p0, cap, d - 1) != p0);
                    assert(h1[h1.len() - d] == h0[h0.len() - (d - 1)]);
                }
            }
        }
    }

    /// Appends a whole slice of bytes, oldest first; used to seed the window
    /// with a preset dictionary before decoding begins.
    pub fn append_all(&mut self, data: &Vec<u8>)
        requires
            old(self).wf(),
        ensures
            final(self).wf(),
            final(self).produced() == old(self).produced() + data@,
            final(self).capacity() == old(self).capacity(),
    {
        let mut i: usize = 0;
        while i < data.len()
            invariant
                self.wf(),
                i <= data@.len(),
                self.produced() == old(self).produced() + data@.take(i as int),
                self.capacity() == old(self).capacity(),
            decreases data@.len() - i,
        {
            self.append(data[i]);
            proof {
                assert(data@.take(i as int).push(data@[i as int]) == data@.take(i + 1));
            }
            i = i + 1;
        }
        proof {
            assert(data@.take(data@.len() as int) == data@);
        }
    }

    /// The byte `d` positions behind the end of the history.
    pub fn byte_at_distance(&self, d: usize) -> (r: u8)
        requires
            self.wf(),
            1 <= d <= self.filled,
        ensures
            r == self.produced()[self.produced().len() - d],
    {
        let idx: usize = if d <= self.pos {
            self.pos - d
        } else {
            self.pos + self.buf.len() - d
        };
        proof {
            assert(idx == back_slot(self.pos as int, self.buf@.len() as int, d as int));
            assert(self.buf@[back_slot(self.pos as int, self.buf@.len() as int, d as int)]
                == self.hist@[self.hist@.len() - d]);
        }
        self.buf[idx]
    }

    /// Copies up to `n` bytes from `dist` bytes behind the current position
    /// into both the output vector and the window, one byte at a time; stops
    /// early when `out` reaches `out_limit` bytes. Overlapping copies repeat
    /// their pattern. Fails with `DistanceTooFar` exactly when the distance
    /// exceeds the bytes produced so far or the window capacity — even as the
    /// very first operation of a stream.
    pub fn copy_match(&mut self, dist: usize, n: usize, out: &mut Vec<u8>, out_limit: usize) -> (r:
        Result<usize, DecodeError>)
        requires
            old(self).wf(),
            1 <= dist,
            old(out)@.len() <= out_limit,
        ensures
            final(self).wf(),
            final(self).capacity() == old(self).capacity(),
            r == Err::<usize, DecodeError>(DecodeError::DistanceTooFar) <==> (dist
                > old(self).produced().len() || dist > old(self).capacity()),
            r is Err ==> r == Err::<usize, DecodeError>(DecodeError::DistanceTooFar)
                && *final(self) == *old(self) && *final(out) == *old(out),
            r matches Ok(k) ==> final(out)@.len() == old(out)@.len() + k,
            r matches Ok(k) ==> {
                &&& k == if n <= out_limit - old(out)@.len() {
                    n as int
                } else {
                    out_limit - old(out)@.len()
                }
                &&& final(self).produced() == old(self).produced() + match_bytes(
                    old(self).produced(),
                    dist as int,
                    k as int,
                )
                &&& final(out)@ == old(out)@ + match_bytes(
                    old(self).produced(),
                    dist as int,
                    k as int,
                )
            },
    {
        if dist > self.filled {
            // Behind the start of the history, or beyond the window: either
            // way the source byte is gone (or never existed).
            return Err(DecodeError::DistanceTooFar);
        }
        let ghost h0 = self.hist@;
        let room: usize = out_limit - out.len();
        let k: usize = if n <= room {
            n
        } else {
            room
        };
        let mut i: usize = 0;
        while i < k
            invariant
                self.wf(),
                i <= k,
                1 <= dist <= self.filled,
                dist <= h0.len() + i,
                dist <= self.capacity(),
                self.capacity() == old(self).capacity(),
                self.produced() == h0 + match_bytes(h0, dist as int, i as int),
                out@ == old(out)@ + match_bytes(h0, dist as int, i as int),
                out@.len() == old(out)@.len() + i,
            decreases k - i,
        {
            let b: u8 = self.byte_at_distance(dist);
            proof {
                let prev = match_bytes(h0, dist as int, i as int);
                let cur = match_bytes(h0, dist as int, i + 1);
                assert(cur == prev.push((h0 + prev)[h0.len() + i - dist]));
                assert(self.produced()[self.produced().len() - dist] == (h0 + prev)[h0.len() + i
                    - dist]);
            }
            self.append(b);
            out.push(b);
            i = i + 1;
        }
        Ok(k)
    }
}

} // verus!
