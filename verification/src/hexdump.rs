use vstd::prelude::*;

verus! {

/// The lower-case ASCII hex digit for a value below 16.
pub open spec fn hex_digit_spec(n: int) -> u8 {
    if n < 10 {
        (48 + n) as u8
    } else {
        (87 + n) as u8
    }
}

/// One dump line for a byte run: for each byte, a space and its two hex
/// digits, high digit first.
pub open spec fn hex_line_spec(s: Seq<u8>) -> Seq<u8>
    decreases s.len(),
{
    if s.len() == 0 {
        Seq::empty()
    } else {
        hex_line_spec(s.drop_last()) + seq![
            32u8,
            hex_digit_spec(s.last() as int / 16),
            hex_digit_spec(s.last() as int % 16),
        ]
    }
}

fn hex_digit(n: u8) -> (r: u8)
    requires
        n < 16,
    ensures
        r == hex_digit_spec(n as int),
{
    if n < 10 {
        48 + n
    } else {
        87 + n
    }
}

/// Renders `data[start..end]` as one hex dump line, a space and two digits
/// per byte, exactly as `hex_line_spec` lays it out.
pub fn hex_dump_line(data: &Vec<u8>, start: usize, end: usize) -> (r: Vec<u8>)
    requires
        start <= end <= data@.len(),
    ensures
        r@ == hex_line_spec(data@.subrange(start as int, end as int)),
{
    let mut r: Vec<u8> = Vec::new();
    let mut i: usize = start;
    proof {
        assert(data@.subrange(start as int, start as int) =~= Seq::<u8>::empty());
    }
    while i < end
        invariant
            start <= i <= end <= data@.len(),
            r@ == hex_line_spec(data@.subrange(start as int, i as int)),
        decreases end - i,
    {
        let b = data[i];
        proof {
            assert(data@.subrange(start as int, i + 1).drop_last() =~= data@.subrange(
                start as int,
                i as int,
            ));
            assert(data@.subrange(start as int, i + 1).last() == data@[i as int]);
        }
        r.push(32);
        r.push(hex_digit(b / 16));
        r.push(hex_digit(b % 16));
        proof {
            assert(r@ =~= hex_line_spec(data@.subrange(start as int, i + 1)));
        }
        i = i + 1;
    }
    r
}

/// A whole dump, split into rows of at most `width` bytes, each rendered as
/// one `hex_line_spec` line; a final short row holds the remainder.
pub open spec fn hex_rows_spec(s: Seq<u8>, width: int) -> Seq<Seq<u8>>
    recommends
        width >= 1,
    decreases s.len(),
    when width >= 1
{
    if s.len() <= 0 {
        Seq::empty()
    } else if s.len() <= width {
        seq![hex_line_spec(s)]
    } else {
        seq![hex_line_spec(s.take(width))] + hex_rows_spec(s.skip(width), width)
    }
}

/// Renders a whole byte run as dump rows of at most `width` bytes each,
/// exactly as `hex_rows_spec` lays them out.
pub fn hex_dump_rows(data: &Vec<u8>, width: usize) -> (r: Vec<Vec<u8>>)
    requires
        width >= 1,
    ensures
        r@.map_values(|row: Vec<u8>| row@) == hex_rows_spec(data@, width as int),
{
    let mut r: Vec<Vec<u8>> = Vec::new();
    let mut start: usize = 0;
    proof {
        assert(r@.map_values(|row: Vec<u8>| row@) =~= Seq::<Seq<u8>>::empty());
        assert(data@.skip(0) =~= data@);
    }
    while start < data.len()
        invariant
            width >= 1,
            start <= data@.len(),
            hex_rows_spec(data@, width as int) == r@.map_values(|row: Vec<u8>| row@)
                + hex_rows_spec(data@.skip(start as int), width as int),
        decreases data@.len() - start,
    {
        let end: usize = if data.len() - start <= width {
            data.len()
        } else {
            start + width
        };
        let row = hex_dump_line(data, start, end);
        proof {
            let rest = data@.skip(start as int);
            if rest.len() <= width {
                assert(rest =~= data@.subrange(start as int, end as int));
            } else {
                assert(rest.take(width as int) =~= data@.subrange(start as int, end as int));
                assert(rest.skip(width as int) =~= data@.skip(end as int));
            }
            assert(r@.push(row).map_values(|row2: Vec<u8>| row2@) =~= r@.map_values(
                |row2: Vec<u8>| row2@,
            ).push(row@));
            assert(r@.map_values(|row2: Vec<u8>| row2@).push(row@) + hex_rows_spec(
                data@.skip(end as int),
                width as int,
            ) =~= r@.map_values(|row2: Vec<u8>| row2@) + (seq![row@] + hex_rows_spec(
                data@.skip(end as int),
                width as int,
            )));
        }
        r.push(row);
        start = end;
    }
    proof {
        assert(hex_rows_spec(data@.skip(start as int), width as int) =~= Seq::<Seq<u8>>::empty());
        assert(r@.map_values(|row: Vec<u8>| row@) + Seq::<Seq<u8>>::empty() =~= r@.map_values(
            |row: Vec<u8>| row@,
        ));
    }
    r
}

} // verus!
