use zinflate::errors::{DecodeError, DecodeResult};
use zinflate::stream::Stream;

/// Writes a DEFLATE bitstream: values go in low bit first, Huffman codes go
/// in most-significant code bit first.
struct Bw {
    bytes: Vec<u8>,
    cur: u32,
    n: u32,
}

impl Bw {
    fn new() -> Bw {
        Bw { bytes: Vec::new(), cur: 0, n: 0 }
    }

    fn bits(&mut self, v: u32, n: u32) {
        for k in 0..n {
            self.cur |= ((v >> k) & 1) << self.n;
            self.n += 1;
            if self.n == 8 {
                self.bytes.push(self.cur as u8);
                self.cur = 0;
                self.n = 0;
            }
        }
    }

    fn huff(&mut self, code: u32, len: u32) {
        for k in 0..len {
            let bit = (code >> (len - 1 - k)) & 1;
            self.bits(bit, 1);
        }
    }

    fn flush(&mut self) {
        while self.n != 0 {
            self.bits(0, 1);
        }
    }
}

fn adler32(data: &[u8]) -> u32 {
    let mut a: u32 = 1;
    let mut b: u32 = 0;
    for &x in data {
        a = (a + x as u32) % 65521;
        b = (b + a) % 65521;
    }
    (b << 16) | a
}

/// A single final fixed-Huffman block for "abcabcabcabc": three literals and
/// one overlapping length-9 distance-3 match.
fn fixed_abc_block() -> Vec<u8> {
    let mut w = Bw::new();
    w.bits(1, 1); // BFINAL
    w.bits(1, 2); // fixed Huffman
    w.huff(0x30 + 'a' as u32, 8);
    w.huff(0x30 + 'b' as u32, 8);
    w.huff(0x30 + 'c' as u32, 8);
    w.huff(263 - 256, 7); // length 9
    w.huff(2, 5); // distance 3
    w.huff(0, 7); // end of block
    w.flush();
    w.bytes
}

fn stored_hello() -> Vec<u8> {
    let mut v = vec![0x01, 0x05, 0x00, 0xfa, 0xff];
    v.extend_from_slice(b"hello");
    v
}

fn push_all(s: &mut Stream, input: &Vec<u8>) -> (Vec<u8>, DecodeResult) {
    let mut out: Vec<u8> = Vec::new();
    loop {
        let before = out.len();
        let r = s.push(input, &mut out, 1 << 20);
        match r {
            DecodeResult::Decoded(_, _) => {
                if out.len() == before {
                    panic!("no progress");
                }
            }
            other => return (out, other),
        }
    }
}

#[test]
fn stored_block_roundtrip() {
    let mut s = Stream::new(0, false).unwrap();
    let input = stored_hello();
    let mut out: Vec<u8> = Vec::new();
    let r = s.push(&input, &mut out, 64);
    assert_eq!(r, DecodeResult::Eof(10, 5));
    assert_eq!(out, b"hello".to_vec());
    assert_eq!(s.total_in, 10);
    assert_eq!(s.total_out, 5);
}

#[test]
fn fixed_block_abc() {
    let mut s = Stream::new(0, false).unwrap();
    let input = fixed_abc_block();
    let (out, last) = push_all(&mut s, &input);
    assert!(matches!(last, DecodeResult::Eof(_, _)));
    assert_eq!(out, b"abcabcabcabc".to_vec());
    assert_eq!(out.len(), 12);
}

#[test]
fn chunked_input_matches_whole_input() {
    let input = fixed_abc_block();
    let mut s1 = Stream::new(0, false).unwrap();
    let (whole, r1) = push_all(&mut s1, &input);
    assert!(matches!(r1, DecodeResult::Eof(_, _)));

    let mut s2 = Stream::new(0, false).unwrap();
    let mut pieces: Vec<u8> = Vec::new();
    for i in 0..input.len() {
        let one = vec![input[i]];
        loop {
            let before = pieces.len();
            let r = s2.push(&one, &mut pieces, 1 << 20);
            match r {
                DecodeResult::Decoded(c, _) => {
                    if c > 0 || pieces.len() == before {
                        break;
                    }
                }
                DecodeResult::NeedInput(_, _) => break,
                DecodeResult::Eof(_, _) => break,
                other => panic!("unexpected result {:?}", other),
            }
        }
    }
    let empty: Vec<u8> = Vec::new();
    loop {
        match s2.push(&empty, &mut pieces, 1 << 20) {
            DecodeResult::Decoded(_, p) if p > 0 => continue,
            DecodeResult::Eof(_, _) => break,
            DecodeResult::NeedInput(_, _) => break,
            other => panic!("unexpected tail result {:?}", other),
        }
    }
    assert_eq!(pieces, whole);
}

#[test]
fn small_output_buffers_suspend_and_resume() {
    let mut s = Stream::new(0, false).unwrap();
    let input = stored_hello();
    let mut first: Vec<u8> = Vec::new();
    let r1 = s.push(&input, &mut first, 3);
    assert_eq!(r1, DecodeResult::Decoded(8, 3));
    assert_eq!(first, b"hel".to_vec());
    let rest: Vec<u8> = input[8..].to_vec();
    let mut second: Vec<u8> = Vec::new();
    let r2 = s.push(&rest, &mut second, 64);
    assert_eq!(r2, DecodeResult::Eof(2, 2));
    assert_eq!(second, b"lo".to_vec());
    assert_eq!(s.total_in, 10);
    assert_eq!(s.total_out, 5);
}

#[test]
fn zlib_roundtrip() {
    let body = fixed_abc_block();
    let mut input = vec![0x78, 0x01];
    input.extend_from_slice(&body);
    input.extend_from_slice(&adler32(b"abcabcabcabc").to_be_bytes());
    let mut s = Stream::new(15, true).unwrap();
    let (out, last) = push_all(&mut s, &input);
    assert!(matches!(last, DecodeResult::Eof(_, _)));
    assert_eq!(out, b"abcabcabcabc".to_vec());
}

#[test]
fn corrupt_trailer_keeps_output() {
    let body = fixed_abc_block();
    let mut input = vec![0x78, 0x01];
    input.extend_from_slice(&body);
    let mut trailer = adler32(b"abcabcabcabc").to_be_bytes();
    trailer[3] = trailer[3].wrapping_add(1);
    input.extend_from_slice(&trailer);
    let mut s = Stream::new(15, true).unwrap();
    let mut out: Vec<u8> = Vec::new();
    let r = s.push(&input, &mut out, 1 << 20);
    match r {
        DecodeResult::InvalidData(e, _, p) => {
            assert_eq!(e, DecodeError::ChecksumMismatch);
            assert_eq!(p, 12);
        }
        other => panic!("expected a checksum error, got {:?}", other),
    }
    assert_eq!(out, b"abcabcabcabc".to_vec());
}

#[test]
fn zlib_checksum_ignored_when_disabled() {
    let body = fixed_abc_block();
    let mut input = vec![0x78, 0x01];
    input.extend_from_slice(&body);
    input.extend_from_slice(&[0, 0, 0, 0]);
    let mut s = Stream::new(15, false).unwrap();
    let (out, last) = push_all(&mut s, &input);
    assert!(matches!(last, DecodeResult::Eof(_, _)));
    assert_eq!(out, b"abcabcabcabc".to_vec());
}

#[test]
fn dynamic_block_literals() {
    // Lengths: 'a' -> 1 bit, 'b' and the end-of-block code -> 2 bits; one
    // degenerate distance code; zero runs written with run code 18.
    let mut w = Bw::new();
    w.bits(1, 1); // BFINAL
    w.bits(2, 2); // dynamic Huffman
    w.bits(0, 5); // HLIT = 257
    w.bits(0, 5); // HDIST = 1
    w.bits(14, 4); // HCLEN = 18
    let clen_of: [u32; 18] = [0, 0, 2, 2, 0, 0, 0, 0, 0, 0, 0, 0, 0, 0, 0, 2, 0, 2];
    for v in clen_of {
        w.bits(v, 3);
    }
    // Code-length alphabet codes: 0 -> 00, 1 -> 01, 2 -> 10, 18 -> 11.
    w.huff(3, 2); // run of zeros...
    w.bits(86, 7); // ...97 long (symbols 0..=96)
    w.huff(1, 2); // length 1 for 'a' (97)
    w.huff(2, 2); // length 2 for 'b' (98)
    w.huff(3, 2);
    w.bits(127, 7); // 138 zeros (99..=236)
    w.huff(3, 2);
    w.bits(8, 7); // 19 zeros (237..=255)
    w.huff(2, 2); // length 2 for the end-of-block code (256)
    w.huff(1, 2); // distance alphabet: one symbol of length 1
    // Literal codes: 'a' -> 0, 'b' -> 10, end of block -> 11.
    for _ in 0..4 {
        w.huff(0, 1);
        w.huff(2, 2);
    }
    w.huff(3, 2); // end of block
    w.flush();
    let mut s = Stream::new(0, false).unwrap();
    let (out, last) = push_all(&mut s, &w.bytes);
    assert!(matches!(last, DecodeResult::Eof(_, _)));
    assert_eq!(out, b"abababab".to_vec());
}

#[test]
fn first_operation_distance_too_far() {
    let mut w = Bw::new();
    w.bits(1, 1);
    w.bits(1, 2);
    w.huff(257 - 256, 7); // length 3
    w.huff(0, 5); // distance 1, but nothing was produced yet
    w.huff(0, 7);
    w.flush();
    let mut s = Stream::new(0, false).unwrap();
    let mut out: Vec<u8> = Vec::new();
    let r = s.push(&w.bytes, &mut out, 64);
    assert!(matches!(r, DecodeResult::InvalidData(DecodeError::DistanceTooFar, _, _)));
    assert_eq!(out.len(), 0);
}

#[test]
fn preset_dictionary_serves_back_references() {
    let mut w = Bw::new();
    w.bits(1, 1);
    w.bits(1, 2);
    w.huff(257 - 256, 7); // length 3
    w.huff(2, 5); // distance 3: reaches into the dictionary
    w.huff(0, 7);
    w.flush();
    let mut s = Stream::new(0, false).unwrap();
    let dict = b"abc".to_vec();
    s.set_dictionary(&dict);
    let (out, last) = push_all(&mut s, &w.bytes);
    assert!(matches!(last, DecodeResult::Eof(_, _)));
    assert_eq!(out, b"abc".to_vec());
}

#[test]
fn reserved_block_type_rejected() {
    let input = vec![0x07u8, 0x00];
    let mut s = Stream::new(0, false).unwrap();
    let mut out: Vec<u8> = Vec::new();
    let r = s.push(&input, &mut out, 64);
    assert!(matches!(r, DecodeResult::InvalidData(DecodeError::InvalidBlockType, _, _)));
}

#[test]
fn stored_length_check_mismatch_rejected() {
    let input = vec![0x01u8, 0x05, 0x00, 0x00, 0xff, b'h', b'e', b'l', b'l', b'o'];
    let mut s = Stream::new(0, false).unwrap();
    let mut out: Vec<u8> = Vec::new();
    let r = s.push(&input, &mut out, 64);
    assert!(matches!(r, DecodeResult::InvalidData(DecodeError::InvalidStoredBlockLength, _, _)));
}

#[test]
fn reserved_literal_symbol_rejected() {
    let mut w = Bw::new();
    w.bits(1, 1);
    w.bits(1, 2);
    w.huff(0xc6, 8); // symbol 286: reserved
    w.huff(0, 7);
    w.flush();
    w.bytes.push(0);
    let mut s = Stream::new(0, false).unwrap();
    let mut out: Vec<u8> = Vec::new();
    let r = s.push(&w.bytes, &mut out, 64);
    assert!(matches!(r, DecodeResult::InvalidData(DecodeError::InvalidSymbol, _, _)));
}

#[test]
fn bad_window_bits_rejected() {
    assert!(matches!(Stream::new(5, true), Err(DecodeError::InvalidWindowBits)));
    assert!(matches!(Stream::new(16, true), Err(DecodeError::InvalidWindowBits)));
    assert!(Stream::new(0, true).is_ok());
    assert!(Stream::new(8, true).is_ok());
}

#[test]
fn bad_zlib_header_rejected() {
    let mut s = Stream::new(15, true).unwrap();
    let input = vec![0x78u8, 0x02];
    let mut out: Vec<u8> = Vec::new();
    let r = s.push(&input, &mut out, 64);
    assert!(matches!(r, DecodeResult::InvalidData(DecodeError::InvalidWindowBits, _, _)));
}

#[test]
fn window_smaller_than_advertised_rejected() {
    // The header advertises a 32 KiB window; the session allows only 256.
    let mut s = Stream::new(8, true).unwrap();
    let input = vec![0x78u8, 0x01];
    let mut out: Vec<u8> = Vec::new();
    let r = s.push(&input, &mut out, 64);
    assert!(matches!(r, DecodeResult::InvalidData(DecodeError::InvalidWindowBits, _, _)));
}

#[test]
fn need_input_when_nothing_given() {
    let mut s = Stream::new(0, false).unwrap();
    let empty: Vec<u8> = Vec::new();
    let mut out: Vec<u8> = Vec::new();
    let r = s.push(&empty, &mut out, 64);
    assert_eq!(r, DecodeResult::NeedInput(0, 0));
}

#[test]
fn two_blocks_in_one_stream() {
    // A non-final stored block, then a final fixed block.
    let mut input = vec![0x00u8, 0x02, 0x00, 0xfd, 0xff, b'x', b'y'];
    input.extend_from_slice(&fixed_abc_block());
    let mut s = Stream::new(0, false).unwrap();
    let (out, last) = push_all(&mut s, &input);
    assert!(matches!(last, DecodeResult::Eof(_, _)));
    assert_eq!(out, b"xyabcabcabcabc".to_vec());
}

#[test]
fn zlib_chunked_one_byte_at_a_time() {
    let body = fixed_abc_block();
    let mut input = vec![0x78, 0x01];
    input.extend_from_slice(&body);
    input.extend_from_slice(&adler32(b"abcabcabcabc").to_be_bytes());
    let mut s = Stream::new(15, true).unwrap();
    let mut out: Vec<u8> = Vec::new();
    let mut done = false;
    for i in 0..input.len() {
        let one = vec![input[i]];
        match s.push(&one, &mut out, 1 << 20) {
            DecodeResult::Decoded(c, _) => assert_eq!(c, 1),
            DecodeResult::NeedInput(_, _) => {}
            DecodeResult::Eof(_, _) => {
                assert_eq!(i, input.len() - 1);
                done = true;
            }
            other => panic!("unexpected result {:?}", other),
        }
    }
    assert!(done);
    assert_eq!(out, b"abcabcabcabc".to_vec());
}

#[test]
fn back_reference_across_window_wrap() {
    // 300 stored bytes overflow a 256-byte window; a back-reference after the
    // wrap still reads the most recent history correctly.
    let data: Vec<u8> = (0..300u32).map(|i| (i % 251) as u8).collect();
    let mut body: Vec<u8> = vec![0x00, 0x2c, 0x01, 0xd3, 0xfe];
    body.extend_from_slice(&data);
    let mut w = Bw::new();
    w.bits(1, 1); // BFINAL
    w.bits(1, 2); // fixed Huffman
    w.huff(258 - 256, 7); // length 4
    w.huff(5, 5); // distance 7
    w.huff(0, 7); // end of block
    w.flush();
    body.extend_from_slice(&w.bytes);

    let mut expect = data.clone();
    let n = data.len();
    for k in 0..4 {
        expect.push(data[n - 7 + k]);
    }

    let mut input = vec![0x08u8, 0x1d]; // window size 256 advertised
    input.extend_from_slice(&body);
    input.extend_from_slice(&adler32(&expect).to_be_bytes());

    let mut s = Stream::new(8, true).unwrap();
    let (out, last) = push_all(&mut s, &input);
    assert!(matches!(last, DecodeResult::Eof(_, _)));
    assert_eq!(out, expect);
}

#[test]
fn dynamic_block_with_codes_longer_than_root() {
    // Literal lengths 1..=10 for 'a'..='j' plus a 10-bit end-of-block code:
    // the two 10-bit codes route through a sub-table behind the 9 root bits.
    let mut w = Bw::new();
    w.bits(1, 1); // BFINAL
    w.bits(2, 2); // dynamic Huffman
    w.bits(0, 5); // HLIT = 257
    w.bits(0, 5); // HDIST = 1
    w.bits(14, 4); // HCLEN = 18
    let clen_of: [u32; 18] = [0, 0, 2, 0, 4, 4, 4, 4, 4, 4, 0, 4, 0, 4, 0, 3, 0, 3];
    for v in clen_of {
        w.bits(v, 3);
    }
    // Code-length alphabet: 18 -> 00; 1 -> 010, 2 -> 011; 3..=10 -> 1000..1111.
    w.huff(0, 2); // zeros...
    w.bits(86, 7); // ...97 long
    w.huff(2, 3); // 'a': length 1
    w.huff(3, 3); // 'b': length 2
    for k in 0..8u32 {
        w.huff(8 + k, 4); // 'c'..='j': lengths 3..=10
    }
    w.huff(0, 2);
    w.bits(127, 7); // 138 zeros
    w.huff(0, 2);
    w.bits(0, 7); // 11 zeros
    w.huff(15, 4); // end-of-block code: length 10
    w.huff(2, 3); // distance alphabet: one code of length 1
    // Literal codes: 'a' -> 0, ..., 'j' -> 1111111110, end -> 1111111111.
    w.huff(0, 1); // 'a'
    w.huff(1022, 10); // 'j'
    w.huff(1023, 10); // end of block
    w.flush();
    let mut s = Stream::new(0, false).unwrap();
    let (out, last) = push_all(&mut s, &w.bytes);
    assert!(matches!(last, DecodeResult::Eof(_, _)));
    assert_eq!(out, b"aj".to_vec());
}

#[test]
fn dynamic_block_with_repeat_run_code() {
    // 'b' gets length 4 and run code 16 repeats it three times for 'c', 'd'
    // and 'e'; 'a' is 1 bit and the end-of-block code 2 bits.
    let mut w = Bw::new();
    w.bits(1, 1); // BFINAL
    w.bits(2, 2); // dynamic Huffman
    w.bits(0, 5); // HLIT = 257
    w.bits(0, 5); // HDIST = 1
    w.bits(14, 4); // HCLEN = 18
    let clen_of: [u32; 18] = [2, 0, 2, 0, 0, 0, 0, 0, 0, 0, 0, 2, 0, 0, 0, 3, 0, 3];
    for v in clen_of {
        w.bits(v, 3);
    }
    // Code-length alphabet: 4 -> 00, 16 -> 01, 18 -> 10; 1 -> 110, 2 -> 111.
    w.huff(2, 2); // zeros...
    w.bits(86, 7); // ...97 long
    w.huff(6, 3); // 'a': length 1
    w.huff(0, 2); // 'b': length 4
    w.huff(1, 2); // repeat the previous length...
    w.bits(0, 2); // ...three times: 'c', 'd', 'e'
    w.huff(2, 2);
    w.bits(127, 7); // 138 zeros
    w.huff(2, 2);
    w.bits(5, 7); // 16 zeros
    w.huff(7, 3); // end-of-block code: length 2
    w.huff(6, 3); // distance alphabet: one code of length 1
    // Literal codes: 'a' -> 0, end -> 10, 'b'..='e' -> 1100..1111.
    w.huff(0, 1); // 'a'
    w.huff(12, 4); // 'b'
    w.huff(15, 4); // 'e'
    w.huff(2, 2); // end of block
    w.flush();
    let mut s = Stream::new(0, false).unwrap();
    let (out, last) = push_all(&mut s, &w.bytes);
    assert!(matches!(last, DecodeResult::Eof(_, _)));
    assert_eq!(out, b"abe".to_vec());
}

#[test]
fn empty_stored_blocks_reach_eof() {
    let input = vec![0x00u8, 0x00, 0x00, 0xff, 0xff, 0x01, 0x00, 0x00, 0xff, 0xff];
    let mut s = Stream::new(0, false).unwrap();
    let mut out: Vec<u8> = Vec::new();
    let r = s.push(&input, &mut out, 16);
    assert_eq!(r, DecodeResult::Eof(10, 0));
    assert!(out.is_empty());
}

#[test]
fn oversubscribed_dynamic_header_rejected() {
    // Three codes of length 1 overfill the code space.
    let mut w = Bw::new();
    w.bits(1, 1);
    w.bits(2, 2);
    w.bits(0, 5);
    w.bits(0, 5);
    w.bits(14, 4);
    let clen_of: [u32; 18] = [0, 0, 2, 2, 0, 0, 0, 0, 0, 0, 0, 0, 0, 0, 0, 2, 0, 2];
    for v in clen_of {
        w.bits(v, 3);
    }
    w.huff(3, 2);
    w.bits(86, 7); // 97 zeros
    w.huff(1, 2); // 'a': length 1
    w.huff(1, 2); // 'b': length 1
    w.huff(3, 2);
    w.bits(127, 7); // 138 zeros
    w.huff(3, 2);
    w.bits(8, 7); // 19 zeros
    w.huff(1, 2); // end-of-block code: length 1 as well
    w.huff(1, 2); // distance alphabet
    w.flush();
    w.bytes.push(0);
    let mut s = Stream::new(0, false).unwrap();
    let mut out: Vec<u8> = Vec::new();
    let r = s.push(&w.bytes, &mut out, 64);
    assert!(matches!(r, DecodeResult::InvalidData(DecodeError::InvalidDynamicHeader, _, _)));
}

#[test]
fn repeat_run_code_with_no_previous_length_rejected() {
    let mut w = Bw::new();
    w.bits(1, 1);
    w.bits(2, 2);
    w.bits(0, 5);
    w.bits(0, 5);
    w.bits(14, 4);
    let clen_of: [u32; 18] = [2, 0, 2, 0, 0, 0, 0, 0, 0, 0, 0, 2, 0, 0, 0, 3, 0, 3];
    for v in clen_of {
        w.bits(v, 3);
    }
    w.huff(1, 2); // run code 16 first of all: nothing to repeat
    w.bits(0, 2);
    w.flush();
    w.bytes.push(0);
    let mut s = Stream::new(0, false).unwrap();
    let mut out: Vec<u8> = Vec::new();
    let r = s.push(&w.bytes, &mut out, 64);
    assert!(matches!(r, DecodeResult::InvalidData(DecodeError::InvalidDynamicHeader, _, _)));
}

#[test]
fn dynamic_header_without_end_code_rejected() {
    // A complete literal tree that gives the end-of-block code no length.
    let mut w = Bw::new();
    w.bits(1, 1);
    w.bits(2, 2);
    w.bits(0, 5);
    w.bits(0, 5);
    w.bits(14, 4);
    let clen_of: [u32; 18] = [0, 0, 2, 2, 0, 0, 0, 0, 0, 0, 0, 0, 0, 0, 0, 2, 0, 2];
    for v in clen_of {
        w.bits(v, 3);
    }
    w.huff(3, 2);
    w.bits(86, 7); // 97 zeros
    w.huff(1, 2); // 'a': length 1
    w.huff(2, 2); // 'b': length 2
    w.huff(2, 2); // 'c': length 2 completes the tree
    w.huff(3, 2);
    w.bits(126, 7); // 137 zeros
    w.huff(3, 2);
    w.bits(9, 7); // 20 zeros, through symbol 256
    w.huff(1, 2); // distance alphabet
    w.flush();
    w.bytes.push(0);
    let mut s = Stream::new(0, false).unwrap();
    let mut out: Vec<u8> = Vec::new();
    let r = s.push(&w.bytes, &mut out, 64);
    assert!(matches!(r, DecodeResult::InvalidData(DecodeError::InvalidDynamicHeader, _, _)));
}

#[test]
fn failed_stream_stays_failed() {
    let mut s = Stream::new(0, false).unwrap();
    let bad = vec![0x07u8, 0x00];
    let mut out: Vec<u8> = Vec::new();
    let r = s.push(&bad, &mut out, 64);
    assert!(matches!(r, DecodeResult::InvalidData(DecodeError::InvalidBlockType, _, _)));
    // Later calls repeat the verdict, consume nothing and produce nothing,
    // even when handed a valid stream.
    let good = stored_hello();
    let mut out2: Vec<u8> = Vec::new();
    let r2 = s.push(&good, &mut out2, 64);
    assert_eq!(r2, DecodeResult::InvalidData(DecodeError::InvalidBlockType, 0, 0));
    assert!(out2.is_empty());
    let r3 = s.push(&good, &mut out2, 64);
    assert_eq!(r3, DecodeResult::InvalidData(DecodeError::InvalidBlockType, 0, 0));
    assert!(out2.is_empty());
}

#[test]
fn finished_stream_stays_finished() {
    let mut s = Stream::new(0, false).unwrap();
    let input = stored_hello();
    let mut out: Vec<u8> = Vec::new();
    let r = s.push(&input, &mut out, 64);
    assert_eq!(r, DecodeResult::Eof(10, 5));
    let mut out2: Vec<u8> = Vec::new();
    let r2 = s.push(&input, &mut out2, 64);
    assert_eq!(r2, DecodeResult::Eof(0, 0));
    assert!(out2.is_empty());
}

#[test]
fn corrupt_trailer_failure_is_terminal() {
    let body = fixed_abc_block();
    let mut input = vec![0x78, 0x01];
    input.extend_from_slice(&body);
    let mut trailer = adler32(b"abcabcabcabc").to_be_bytes();
    trailer[0] = trailer[0].wrapping_add(1);
    input.extend_from_slice(&trailer);
    let mut s = Stream::new(15, true).unwrap();
    let mut out: Vec<u8> = Vec::new();
    let r = s.push(&input, &mut out, 1 << 20);
    assert!(matches!(r, DecodeResult::InvalidData(DecodeError::ChecksumMismatch, _, _)));
    let mut out2: Vec<u8> = Vec::new();
    let r2 = s.push(&input, &mut out2, 1 << 20);
    assert_eq!(r2, DecodeResult::InvalidData(DecodeError::ChecksumMismatch, 0, 0));
    assert!(out2.is_empty());
}
