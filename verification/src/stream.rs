use vstd::prelude::*;

use crate::adler::{adler32_of, Adler32};
use crate::decode::{lemma_sync_trans, BlockDecoder, RunStatus};
use crate::errors::{consumed_of, produced_of, DecodeError, DecodeResult};
use crate::window::SlidingWindow;

verus! {

/// Where the session stands around the block decoder: before the 2-byte
/// framing header, inside the compressed body, before the 4-byte trailer, or
/// at one of the two terminal states.
#[derive(Clone, Copy, PartialEq, Eq, Structural, Debug)]
pub enum StreamPhase {
    Header,
    Body,
    Trailer,
    Finished,
    Failed,
}

/// Decreasing along every transition that consumes nothing.
pub open spec fn stream_rank(p: StreamPhase) -> int {
    match p {
        StreamPhase::Header => 3,
        StreamPhase::Body => 2,
        StreamPhase::Trailer => 1,
        StreamPhase::Finished => 0,
        StreamPhase::Failed => 0,
    }
}

/// The public session object: one block decoder, one sliding window, the
/// running checksum and the running byte counters, plus the framing
/// configuration.
pub struct Stream {
    pub dec: BlockDecoder,
    pub win: SlidingWindow,
    pub chk: Adler32,
    pub sphase: StreamPhase,
    /// The terminal error, meaningful in `StreamPhase::Failed`.
    pub serr: DecodeError,
    /// Whether the stream carries the 2-byte header and 4-byte trailer.
    pub zlib_framed: bool,
    /// Whether the trailing checksum is compared at all.
    pub verify_checksum: bool,
    /// The configured window exponent (the window holds `1 << cfg_bits`).
    pub cfg_bits: usize,
    pub total_in: u64,
    pub total_out: u64,
    /// How much of the window history is preset dictionary, not output.
    pub dict_len: Ghost<int>,
    /// The checksum value the trailer carried, once the trailer was read.
    pub trailer_read: Ghost<Option<int>>,
}

impl Stream {
    pub open spec fn wf(self) -> bool {
        &&& self.dec.wf()
        &&& self.win.wf()
        &&& self.chk.wf()
        &&& 0 <= self.dict_len@ <= self.win.produced().len()
        &&& self.chk.data@ == self.win.produced().skip(self.dict_len@)
        &&& (self.sphase == StreamPhase::Finished && self.zlib_framed && self.verify_checksum
            ==> self.trailer_read@ == Some(adler32_of(self.chk.data@)))
        &&& (self.sphase == StreamPhase::Header ==> self.dec.bits.count < 16)
    }

    /// Every byte the engine has ever produced, preset dictionary included.
    pub open spec fn produced_all(self) -> Seq<u8> {
        self.win.produced()
    }

    /// Nothing has been decoded yet: the whole history is dictionary.
    pub open spec fn fresh(self) -> bool {
        self.win.produced().len() == self.dict_len@
    }

    /// A new session. `window_bits` 0 means a raw DEFLATE stream with the
    /// default 32 KiB window; 8 through 15 mean a zlib-framed stream whose
    /// header must advertise at most that window. Anything else is refused.
    pub fn new(window_bits: usize, verify_checksum: bool) -> (r: Result<Stream, DecodeError>)
        ensures
            r is Ok <==> (window_bits == 0 || (8 <= window_bits <= 15)),
            r is Err ==> r == Err::<Stream, DecodeError>(DecodeError::InvalidWindowBits),
            r matches Ok(s) ==> s.wf() && s.fresh() && s.total_in == 0 && s.total_out == 0
                && s.produced_all().len() == 0 && s.zlib_framed == (window_bits != 0),
            r matches Ok(s) ==> s.verify_checksum == verify_checksum && s.cfg_bits == (
            if window_bits == 0 {
                15usize
            } else {
                window_bits
            }) && s.win.capacity() == (1usize << s.cfg_bits) && s.sphase == (
            if window_bits == 0 {
                StreamPhase::Body
            } else {
                StreamPhase::Header
            }),
    {
        if !(window_bits == 0 || (8 <= window_bits && window_bits <= 15)) {
            return Err(DecodeError::InvalidWindowBits);
        }
        let cfg_bits: usize = if window_bits == 0 {
            15
        } else {
            window_bits
        };
        let framed = window_bits != 0;
        let s = Stream {
            dec: BlockDecoder::new(),
            win: SlidingWindow::new(cfg_bits),
            chk: Adler32::new(),
            sphase: if framed {
                StreamPhase::Header
            } else {
                StreamPhase::Body
            },
            serr: DecodeError::InvalidWindowBits,
            zlib_framed: framed,
            verify_checksum,
            cfg_bits,
            total_in: 0,
            total_out: 0,
            dict_len: Ghost(0int),
            trailer_read: Ghost(None),
        };
        proof {
            assert(s.win.produced().skip(0) =~= s.win.produced());
        }
        Ok(s)
    }

    /// Seeds the sliding window with a preset dictionary, for
    /// shared-dictionary protocols. Only meaningful before any decoding.
    pub fn set_dictionary(&mut self, dict: &Vec<u8>)
        requires
            old(self).wf(),
            old(self).fresh(),
        ensures
            final(self).wf(),
            final(self).fresh(),
            final(self).produced_all() == old(self).produced_all() + dict@,
            final(self).total_in == old(self).total_in,
            final(self).total_out == old(self).total_out,
    {
        self.win.append_all(dict);
        proof {
            self.dict_len@ = self.dict_len@ + dict@.len();
            assert(self.win.produced().skip(self.dict_len@) =~= Seq::<u8>::empty());
            assert(self.chk.data@ =~= Seq::<u8>::empty());
        }
    }

    /// Adds a per-call count into a running total, stopping at the top of the
    /// counter's range rather than wrapping.
    fn add_count(total: u64, c: usize) -> (r: u64)
        ensures
            total + c <= u64::MAX ==> r == total + c,
            r >= total,
    {
        if c as u64 <= u64::MAX - total {
            total + c as u64
        } else {
            u64::MAX
        }
    }

    /// Records this call's consumed and produced counts in the totals.
    fn note_counts(&mut self, c: usize, p: usize)
        ensures
            old(self).total_in + c <= u64::MAX ==> final(self).total_in == old(self).total_in + c,
            old(self).total_out + p <= u64::MAX ==> final(self).total_out == old(self).total_out
                + p,
            *final(self) == (Stream {
                total_in: final(self).total_in,
                total_out: final(self).total_out,
                ..*old(self)
            }),
    {
        self.total_in = Self::add_count(self.total_in, c);
        self.total_out = Self::add_count(self.total_out, p);
    }

    /// Feeds a slice of compressed bytes and fills `output` (up to
    /// `out_limit` bytes in all) with decompressed bytes, advancing as far as
    /// this call's input and output room allow. Counts of bytes consumed and
    /// produced are reported in every result, even on error, so no decoded
    /// output is ever silently lost; the engine's whole output history grows
    /// by exactly the bytes appended to `output`.
    pub fn push(&mut self, input: &Vec<u8>, output: &mut Vec<u8>, out_limit: usize) -> (r:
        DecodeResult)
        requires
            old(self).wf(),
            old(output)@.len() <= out_limit,
        ensures
            final(self).wf(),
            old(output)@.is_prefix_of(final(output)@),
            final(output)@.len() <= out_limit,
            consumed_of(r) <= input@.len(),
            produced_of(r) == final(output)@.len() - old(output)@.len(),
            final(self).produced_all() == old(self).produced_all() + final(output)@.skip(
                old(output)@.len() as int,
            ),
            old(self).total_in + consumed_of(r) <= u64::MAX ==> final(self).total_in == old(
                self,
            ).total_in + consumed_of(r),
            old(self).total_out + produced_of(r) <= u64::MAX ==> final(self).total_out == old(
                self,
            ).total_out + produced_of(r),
            r matches DecodeResult::InvalidData(e, c, p) ==> final(self).sphase
                == StreamPhase::Failed && final(self).serr == e,
            r is Eof ==> final(self).sphase == StreamPhase::Finished,
            r is NeedInput ==> input@.len() == 0,
            r matches DecodeResult::Decoded(c, p) && c == 0 && p == 0 ==> final(output)@.len()
                >= out_limit,
            final(self).zlib_framed == old(self).zlib_framed,
            final(self).verify_checksum == old(self).verify_checksum,
            final(self).cfg_bits == old(self).cfg_bits,
            // Errors and completion are terminal: a finished or failed stream
            // repeats its verdict, consumes nothing and produces nothing.
            old(self).sphase == StreamPhase::Failed ==> r == DecodeResult::InvalidData(
                old(self).serr,
                0,
                0,
            ) && *final(self) == *old(self) && final(output)@ == old(output)@,
            old(self).sphase == StreamPhase::Finished ==> r == DecodeResult::Eof(0, 0)
                && *final(self) == *old(self) && final(output)@ == old(output)@,
            // A verifying framed session reports Eof only when the trailer it
            // read equals the checksum of everything it decoded, and finds the
            // checksum wrong only when the trailer it read disagrees with it.
            r is Eof && old(self).zlib_framed && old(self).verify_checksum ==> final(self).trailer_read@
                == Some(adler32_of(final(self).chk.data@)),
            r matches DecodeResult::InvalidData(e, c, p) && e == DecodeError::ChecksumMismatch
                && old(self).sphase != StreamPhase::Failed ==> final(self).trailer_read@ is Some
                && final(self).trailer_read@ != Some(adler32_of(final(self).chk.data@)),
            // Each error comes only from its own part of the session: once
            // the body decoded cleanly, a corrupt trailer can only be
            // reported as a checksum mismatch, and a bad framing header can
            // only be reported while reading the header.
            r matches DecodeResult::InvalidData(e, c, p) && e != DecodeError::ChecksumMismatch
                ==> old(self).sphase != StreamPhase::Trailer,
            old(self).sphase == StreamPhase::Body ==> !(r matches DecodeResult::InvalidData(
                DecodeError::InvalidWindowBits,
                _,
                _,
            )),
            r matches DecodeResult::InvalidData(DecodeError::InvalidWindowBits, _, _)
                && old(self).sphase != StreamPhase::Failed ==> old(self).sphase
                == StreamPhase::Header,
            // With no input at all, a session still reading its header owes
            // a plain request for more.
            old(self).sphase == StreamPhase::Header && input@.len() == 0 ==> r
                == DecodeResult::NeedInput(0, 0),
    {
        let mut pos: usize = 0;
        let out_start: usize = output.len();
        let ghost out0 = output@;
        let ghost h0 = self.win.produced();
        let ghost m0 = crate::decode::bits_left(input@, 0int, self.dec.bits);
        let ghost ti0 = self.total_in;
        let ghost to0 = self.total_out;
        proof {
            assert(output@.skip(out0.len() as int) =~= Seq::<u8>::empty());
            assert(h0 + Seq::<u8>::empty() =~= h0);
        }
        loop
            invariant
                self.wf(),
                pos <= input@.len(),
                out_start == out0.len(),
                out0 == old(output)@,
                h0 == old(self).produced_all(),
                ti0 == old(self).total_in,
                to0 == old(self).total_out,
                self.total_in == ti0,
                self.total_out == to0,
                out0.is_prefix_of(output@),
                output@.len() <= out_limit,
                self.win.produced() == h0 + output@.skip(out0.len() as int),
                crate::decode::bits_left(input@, pos as int, self.dec.bits) <= m0,
                m0 == crate::decode::bits_left(input@, 0int, old(self).dec.bits),
                self.zlib_framed == old(self).zlib_framed,
                self.verify_checksum == old(self).verify_checksum,
                self.cfg_bits == old(self).cfg_bits,
                old(self).sphase == StreamPhase::Failed ==> *self == *old(self) && pos == 0
                    && output@ == out0,
                old(self).sphase == StreamPhase::Finished ==> *self == *old(self) && pos == 0
                    && output@ == out0,
                self.sphase == StreamPhase::Failed ==> old(self).sphase == StreamPhase::Failed,
                self.sphase == StreamPhase::Header ==> old(self).sphase == StreamPhase::Header,
                old(self).sphase == StreamPhase::Header && input@.len() == 0 ==> self.sphase
                    == StreamPhase::Header && pos == 0 && output@ == out0,
                old(self).sphase == StreamPhase::Trailer ==> self.sphase == StreamPhase::Trailer
                    || self.sphase == StreamPhase::Finished,
                old(self).sphase == StreamPhase::Body ==> self.sphase == StreamPhase::Body
                    || self.sphase == StreamPhase::Trailer || self.sphase
                    == StreamPhase::Finished,
            decreases
                    crate::decode::bits_left(input@, pos as int, self.dec.bits),
                    out_limit - output@.len(),
                    stream_rank(self.sphase),
        {
            match self.sphase {
                StreamPhase::Header => {
                    if !self.dec.bits.fill_bits(input, &mut pos, 16) {
                        let p = output.len() - out_start;
                        self.note_counts(pos, p);
                        if pos == 0 && p == 0 {
                            return DecodeResult::NeedInput(0, 0);
                        }
                        return DecodeResult::Decoded(pos, p);
                    }
                    let cmf = self.dec.bits.peek_bits(8);
                    self.dec.bits.drop_bits(8);
                    let flg = self.dec.bits.peek_bits(8);
                    self.dec.bits.drop_bits(8);
                    let method = cmf & 0x0f;
                    let cinfo = cmf >> 4;
                    proof {
                        let c = cmf;
                        assert(c < 256 ==> ((c >> 4u32) <= 15 && (c & 0x0fu32) <= 15)) by (
                        bit_vector);
                        assert((1u32 << 8u32) == 256) by (bit_vector);
                    }
                    let bad = method != 8 || cinfo > 7 || (cinfo as usize + 8 > self.cfg_bits) || (
                    cmf * 256 + flg) % 31 != 0 || (flg & 0x20) != 0;
                    if bad {
                        self.sphase = StreamPhase::Failed;
                        self.serr = DecodeError::InvalidWindowBits;
                        let p = output.len() - out_start;
                        self.note_counts(pos, p);
                        return DecodeResult::InvalidData(DecodeError::InvalidWindowBits, pos, p);
                    }
                    self.sphase = StreamPhase::Body;
                },
                StreamPhase::Body => {
                    let ghost opre = output@;
                    let ghost wpre = self.win.produced();
                    let i_start: usize = output.len();
                    let st = self.dec.run(input, &mut pos, &mut self.win, output, out_limit);
                    proof {
                        lemma_sync_trans(h0, out0, opre, output@, wpre, self.win.produced());
                    }
                    // Roll the new output bytes into the running checksum.
                    let ghost wsuf = self.chk.data@;
                    let ghost smid = *self;
                    let mut i: usize = i_start;
                    proof {
                        assert(output@.subrange(i_start as int, i_start as int) =~= Seq::<
                            u8,
                        >::empty());
                        assert(wsuf + Seq::<u8>::empty() =~= wsuf);
                    }
                    while i < output.len()
                        invariant
                            i_start <= i <= output@.len(),
                            self.chk.wf(),
                            *self == (Stream { chk: self.chk, ..smid }),
                            self.chk.data@ == wsuf + output@.subrange(i_start as int, i as int),
                        decreases output@.len() - i,
                    {
                        let b = output[i];
                        proof {
                            assert(output@.subrange(i_start as int, i as int).push(
                                output@[i as int],
                            ) =~= output@.subrange(i_start as int, i + 1));
                        }
                        self.chk.update(b);
                        i = i + 1;
                    }
                    proof {
                        let dl = self.dict_len@;
                        assert(0 <= dl <= wpre.len());
                        assert(output@.subrange(i_start as int, output@.len() as int)
                            =~= output@.skip(i_start as int));
                        assert((wpre + output@.skip(i_start as int)).skip(dl) =~= wpre.skip(dl)
                            + output@.skip(i_start as int));
                    }
                    match st {
                        RunStatus::Suspended => {
                            let p = output.len() - out_start;
                            self.note_counts(pos, p);
                            if pos == 0 && p == 0 {
                                return DecodeResult::NeedInput(0, 0);
                            }
                            return DecodeResult::Decoded(pos, p);
                        },
                        RunStatus::OutputFull => {
                            let p = output.len() - out_start;
                            self.note_counts(pos, p);
                            return DecodeResult::Decoded(pos, p);
                        },
                        RunStatus::Failed(e) => {
                            self.sphase = StreamPhase::Failed;
                            self.serr = e;
                            let p = output.len() - out_start;
                            self.note_counts(pos, p);
                            return DecodeResult::InvalidData(e, pos, p);
                        },
                        RunStatus::Done => {
                            if self.zlib_framed {
                                self.sphase = StreamPhase::Trailer;
                            } else {
                                self.sphase = StreamPhase::Finished;
                            }
                        },
                    }
                },
                StreamPhase::Trailer => {
                    self.dec.bits.align_to_byte();
                    if !self.dec.bits.fill_bits(input, &mut pos, 32) {
                        let p = output.len() - out_start;
                        self.note_counts(pos, p);
                        if pos == 0 && p == 0 {
                            return DecodeResult::NeedInput(0, 0);
                        }
                        return DecodeResult::Decoded(pos, p);
                    }
                    // The trailer stores the checksum most-significant byte
                    // first.
                    let b0 = self.dec.bits.peek_bits(8);
                    self.dec.bits.drop_bits(8);
                    let b1 = self.dec.bits.peek_bits(8);
                    self.dec.bits.drop_bits(8);
                    let b2 = self.dec.bits.peek_bits(8);
                    self.dec.bits.drop_bits(8);
                    let b3 = self.dec.bits.peek_bits(8);
                    self.dec.bits.drop_bits(8);
                    proof {
                        assert((1u32 << 8u32) == 256) by (bit_vector);
                    }
                    let stored: u64 = ((b0 as u64) * 16777216) + ((b1 as u64) * 65536) + ((
                    b2 as u64) * 256) + (b3 as u64);
                    self.trailer_read = Ghost(Some(stored as int));
                    let computed = self.chk.finish();
                    if self.verify_checksum && stored != computed as u64 {
                        self.sphase = StreamPhase::Failed;
                        self.serr = DecodeError::ChecksumMismatch;
                        let p = output.len() - out_start;
                        self.note_counts(pos, p);
                        return DecodeResult::InvalidData(DecodeError::ChecksumMismatch, pos, p);
                    }
                    self.sphase = StreamPhase::Finished;
                },
                StreamPhase::Finished => {
                    let p = output.len() - out_start;
                    self.note_counts(pos, p);
                    return DecodeResult::Eof(pos, p);
                },
                StreamPhase::Failed => {
                    let p = output.len() - out_start;
                    self.note_counts(pos, p);
                    return DecodeResult::InvalidData(self.serr, pos, p);
                },
            }
        }
    }
}

} // verus!
