use zinflate::adler::Adler32;
use zinflate::bits::BitReader;
use zinflate::errors::{BuildError, DecodeError};
use zinflate::fixed::{fixed_dist_lens, fixed_lit_lens, fixed_tables};
use zinflate::hexdump::hex_dump_line;
use zinflate::huffman::{build, CodeOp, TableKind};
use zinflate::window::SlidingWindow;

#[test]
fn bit_reader_peek_and_drop() {
    let mut br = BitReader::new();
    br.load_byte(0xa5); // 1010 0101
    assert_eq!(br.bits_available(), 8);
    assert_eq!(br.peek_bits(4), 0x5);
    br.drop_bits(4);
    assert_eq!(br.peek_bits(4), 0xa);
    br.load_byte(0xff);
    assert_eq!(br.bits_available(), 12);
    assert_eq!(br.peek_bits(12), 0xffa);
    br.drop_bits(12);
    assert_eq!(br.bits_available(), 0);
}

#[test]
fn bit_reader_align_keeps_loaded_bytes() {
    let mut br = BitReader::new();
    br.load_byte(0x12);
    br.load_byte(0x34);
    br.drop_bits(3);
    br.align_to_byte();
    assert_eq!(br.bits_available(), 8);
    assert_eq!(br.peek_bits(8), 0x34);
}

#[test]
fn bit_reader_fill_reports_exhaustion() {
    let mut br = BitReader::new();
    let input = vec![0xffu8];
    let mut pos: usize = 0;
    assert!(br.fill_bits(&input, &mut pos, 8));
    assert!(!br.fill_bits(&input, &mut pos, 9));
    assert_eq!(pos, 1);
    assert_eq!(br.bits_available(), 8);
}

#[test]
fn build_rejects_oversubscribed_lengths() {
    let lens: Vec<u16> = vec![1, 1, 1];
    let r = build(TableKind::LitLen, &lens, 3, 9);
    assert_eq!(r.err(), Some(BuildError::Oversubscribed));
}

#[test]
fn build_rejects_incomplete_lengths() {
    let lens: Vec<u16> = vec![2, 2, 2];
    let r = build(TableKind::LitLen, &lens, 3, 9);
    assert_eq!(r.err(), Some(BuildError::Incomplete));
    let none: Vec<u16> = vec![0, 0];
    let r2 = build(TableKind::Dist, &none, 2, 5);
    assert_eq!(r2.err(), Some(BuildError::Incomplete));
}

#[test]
fn build_accepts_complete_and_degenerate_lengths() {
    let pair: Vec<u16> = vec![1, 1];
    assert!(build(TableKind::LitLen, &pair, 2, 9).is_ok());
    let one: Vec<u16> = vec![0, 3, 0];
    assert!(build(TableKind::Dist, &one, 3, 5).is_ok());
    let four: Vec<u16> = vec![2, 2, 2, 2];
    assert!(build(TableKind::Dist, &four, 4, 5).is_ok());
}

#[test]
fn build_creates_sub_tables_for_long_codes() {
    // One 1-bit code and a ladder down to two 10-bit codes: all longer than
    // the 9 root bits, so a sub-table pointer must appear.
    let lens: Vec<u16> = vec![1, 2, 3, 4, 5, 6, 7, 8, 9, 10, 10];
    let t = build(TableKind::LitLen, &lens, 11, 9).unwrap();
    assert_eq!(t.root_bits, 9);
    assert!(t.codes.len() > 512);
    let mut saw_sub = false;
    for i in 0..512 {
        if matches!(t.codes[i].op, CodeOp::SubTable { .. }) {
            saw_sub = true;
        }
    }
    assert!(saw_sub);
}

#[test]
fn fixed_tables_match_runtime_build() {
    let (lit, dist) = fixed_tables();
    let ll = fixed_lit_lens();
    let dl = fixed_dist_lens();
    let lit2 = build(TableKind::LitLen, &ll, 288, 9).unwrap();
    let dist2 = build(TableKind::Dist, &dl, 32, 5).unwrap();
    assert_eq!(lit.codes, lit2.codes);
    assert_eq!(lit.root_bits, lit2.root_bits);
    assert_eq!(dist.codes, dist2.codes);
    assert_eq!(dist.root_bits, dist2.root_bits);
    let (lit3, dist3) = fixed_tables();
    assert_eq!(lit.codes, lit3.codes);
    assert_eq!(dist.codes, dist3.codes);
}

#[test]
fn fixed_length_arrays_follow_the_format() {
    let ll = fixed_lit_lens();
    assert_eq!(ll.len(), 288);
    assert!(ll[0..144].iter().all(|&l| l == 8));
    assert!(ll[144..256].iter().all(|&l| l == 9));
    assert!(ll[256..280].iter().all(|&l| l == 7));
    assert!(ll[280..288].iter().all(|&l| l == 8));
    let dl = fixed_dist_lens();
    assert_eq!(dl.len(), 32);
    assert!(dl.iter().all(|&l| l == 5));
}

#[test]
fn adler_known_value() {
    let mut a = Adler32::new();
    for &b in b"Wikipedia" {
        a.update(b);
    }
    assert_eq!(a.finish(), 0x11e60398);
}

#[test]
fn window_copy_overlapping_match() {
    let mut w = SlidingWindow::new(8);
    w.append(b'a');
    let mut out: Vec<u8> = Vec::new();
    let r = w.copy_match(1, 3, &mut out, 16);
    assert_eq!(r, Ok(3));
    assert_eq!(out, b"aaa".to_vec());
}

#[test]
fn window_distance_too_far_on_fresh_window() {
    let mut w = SlidingWindow::new(8);
    let mut out: Vec<u8> = Vec::new();
    let r = w.copy_match(1, 1, &mut out, 16);
    assert_eq!(r, Err(DecodeError::DistanceTooFar));
    assert!(out.is_empty());
}

#[test]
fn window_distance_beyond_history_rejected() {
    let mut w = SlidingWindow::new(8);
    let data = b"xy".to_vec();
    w.append_all(&data);
    let mut out: Vec<u8> = Vec::new();
    assert_eq!(w.copy_match(3, 1, &mut out, 16), Err(DecodeError::DistanceTooFar));
    assert_eq!(w.copy_match(2, 2, &mut out, 16), Ok(2));
    assert_eq!(out, b"xy".to_vec());
}

#[test]
fn window_copy_respects_output_limit() {
    let mut w = SlidingWindow::new(8);
    w.append(b'q');
    let mut out: Vec<u8> = Vec::new();
    let r = w.copy_match(1, 5, &mut out, 2);
    assert_eq!(r, Ok(2));
    assert_eq!(out, b"qq".to_vec());
}

#[test]
fn hex_dump_line_formats_bytes() {
    let data = vec![0x00u8, 0xff, 0x1a];
    let line = hex_dump_line(&data, 0, 3);
    assert_eq!(line, b" 00 ff 1a".to_vec());
    let tail = hex_dump_line(&data, 2, 3);
    assert_eq!(tail, b" 1a".to_vec());
    let empty = hex_dump_line(&data, 1, 1);
    assert!(empty.is_empty());
}

#[test]
fn bytes_available_counts_unread_input() {
    let input = vec![1u8, 2, 3];
    assert_eq!(zinflate::bits::bytes_available(&input, 0), 3);
    assert_eq!(zinflate::bits::bytes_available(&input, 2), 1);
    assert_eq!(zinflate::bits::bytes_available(&input, 3), 0);
}

#[test]
fn window_available_history_saturates_at_capacity() {
    let mut w = SlidingWindow::new(8);
    assert_eq!(w.available_history(), 0);
    for _ in 0..300 {
        w.append(7);
    }
    assert_eq!(w.available_history(), 256);
}

#[test]
fn hex_dump_rows_groups_lines() {
    let data: Vec<u8> = (0u8..5).collect();
    let rows = zinflate::hexdump::hex_dump_rows(&data, 2);
    assert_eq!(rows.len(), 3);
    assert_eq!(rows[0], b" 00 01".to_vec());
    assert_eq!(rows[1], b" 02 03".to_vec());
    assert_eq!(rows[2], b" 04".to_vec());
    let none = zinflate::hexdump::hex_dump_rows(&Vec::new(), 32);
    assert!(none.is_empty());
    let one = zinflate::hexdump::hex_dump_rows(&data, 8);
    assert_eq!(one.len(), 1);
    assert_eq!(one[0], b" 00 01 02 03 04".to_vec());
}

#[test]
fn build_law_beyond_format_alphabets() {
    // The completeness law is not tied to the format's alphabet sizes: 512
    // codes of length 9 fill the code space exactly; one more overfills it,
    // one fewer leaves it incomplete.
    let full: Vec<u16> = vec![9; 512];
    assert!(build(TableKind::LitLen, &full, 512, 9).is_ok());
    let over: Vec<u16> = vec![9; 513];
    assert_eq!(build(TableKind::LitLen, &over, 513, 9).err(), Some(BuildError::Oversubscribed));
    let under: Vec<u16> = vec![9; 511];
    assert_eq!(build(TableKind::LitLen, &under, 511, 9).err(), Some(BuildError::Incomplete));
}
