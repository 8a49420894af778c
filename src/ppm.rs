use vstd::prelude::*;
use vstd::string::*;

use crate::image::{ImageSize, Rgb};

verus! {

/// The character of decimal digit `d`.
pub open spec fn digit_char(d: nat) -> char {
    if d == 0 {
        '0'
    } else if d == 1 {
        '1'
    } else if d == 2 {
        '2'
    } else if d == 3 {
        '3'
    } else if d == 4 {
        '4'
    } else if d == 5 {
        '5'
    } else if d == 6 {
        '6'
    } else if d == 7 {
        '7'
    } else if d == 8 {
        '8'
    } else {
        '9'
    }
}

/// Decimal notation of `n`, without sign or leading zeros.
pub open spec fn decimal(n: nat) -> Seq<char>
    decreases n,
{
    if n < 10 {
        seq![digit_char(n)]
    } else {
        decimal(n / 10) + seq![digit_char(n % 10)]
    }
}

fn push_digit(buf: &mut String, d: u32)
    requires
        d < 10,
    ensures
        final(buf)@ == old(buf)@ + seq![digit_char(d as nat)],
{
    proof {
        reveal_strlit("0");
        reveal_strlit("1");
        reveal_strlit("2");
        reveal_strlit("3");
        reveal_strlit("4");
        reveal_strlit("5");
        reveal_strlit("6");
        reveal_strlit("7");
        reveal_strlit("8");
        reveal_strlit("9");
    }
    let s = if d == 0 {
        "0"
    } else if d == 1 {
        "1"
    } else if d == 2 {
        "2"
    } else if d == 3 {
        "3"
    } else if d == 4 {
        "4"
    } else if d == 5 {
        "5"
    } else if d == 6 {
        "6"
    } else if d == 7 {
        "7"
    } else if d == 8 {
        "8"
    } else {
        "9"
    };
    buf.append(s);
}

fn push_decimal(buf: &mut String, n: u32)
    ensures
        final(buf)@ == old(buf)@ + decimal(n as nat),
    decreases n,
{
    if n >= 10 {
        push_decimal(buf, n / 10);
    }
    push_digit(buf, n % 10);
    assert(buf@ =~= old(buf)@ + decimal(n as nat));
}


/// The text line of one pixel: `"r g b\n"` in decimal.
pub open spec fn pixel_text(p: Rgb) -> Seq<char> {
    decimal(p.r as nat) + seq![' '] + decimal(p.g as nat) + seq![' '] + decimal(p.b as nat) + seq![
        '\n',
    ]
}

/// The three header lines: `"P3"`, `"<width> <height>"`, `"255"`.
pub open spec fn header_text(size: ImageSize) -> Seq<char> {
    seq!['P', '3', '\n'] + decimal(size.width as nat) + seq![' '] + decimal(size.height as nat)
        + seq!['\n', '2', '5', '5', '\n']
}

/// The pixel lines of a row-major stream, rows `width` pixels wide, with an
/// empty line after each complete row.
pub open spec fn stream_text(width: nat, px: Seq<Rgb>) -> Seq<char>
    decreases px.len(),
{
    if px.len() == 0 {
        seq![]
    } else {
        stream_text(width, px.drop_last()) + pixel_text(px.last()) + if px.len() % width == 0 {
            seq!['\n']
        } else {
            seq![]
        }
    }
}

/// The whole plain-text image: header, then the pixel lines.
pub open spec fn ppm_text(size: ImageSize, px: Seq<Rgb>) -> Seq<char> {
    header_text(size) + stream_text(size.width as nat, px)
}

/// Appends the line of one pixel to `buffer`.
pub fn write_color_to_string(buffer: &mut String, color: Rgb)
    ensures
        final(buffer)@ == old(buffer)@ + pixel_text(color),
{
    proof {
        reveal_strlit(" ");
        reveal_strlit("\n");
    }
    push_decimal(buffer, color.r as u32);
    buffer.append(" ");
    push_decimal(buffer, color.g as u32);
    buffer.append(" ");
    push_decimal(buffer, color.b as u32);
    buffer.append("\n");
    assert(buffer@ =~= old(buffer)@ + pixel_text(color));
}

fn write_header(buffer: &mut String, size: ImageSize)
    ensures
        final(buffer)@ == old(buffer)@ + header_text(size),
{
    proof {
        reveal_strlit("P3\n");
        reveal_strlit(" ");
        reveal_strlit("\n255\n");
    }
    buffer.append("P3\n");
    push_decimal(buffer, size.width);
    buffer.append(" ");
    push_decimal(buffer, size.height);
    buffer.append("\n255\n");
    assert(buffer@ =~= old(buffer)@ + header_text(size));
}

/// Encodes a row-major pixel stream as a plain-text (P3) image.
pub fn ppm_document(size: ImageSize, px: &Vec<Rgb>) -> (r: String)
    requires
        size.wf(),
        px@.len() == size.width * size.height,
    ensures
        r@ == ppm_text(size, px@),
{
    let mut out = String::new();
    write_header(&mut out, size);
    let w = size.width as usize;
    let mut k: usize = 0;
    proof {
        assert(px@.subrange(0, 0).len() == 0);
    }
    while k < px.len()
        invariant
            k <= px@.len(),
            w == size.width,
            w >= 1,
            out@ == header_text(size) + stream_text(w as nat, px@.subrange(0, k as int)),
        decreases px@.len() - k,
    {
        let ghost before = out@;
        proof {
            reveal_strlit("\n");
        }
        write_color_to_string(&mut out, px[k]);
        if (k + 1) % w == 0 {
            out.append("\n");
        }
        proof {
            let pre = px@.subrange(0, (k + 1) as int);
            assert(pre.drop_last() =~= px@.subrange(0, k as int));
            assert(pre.last() == px@[k as int]);
            assert(pre.len() == k + 1);
            let tail: Seq<char> = if pre.len() % (w as nat) == 0 {
                seq!['\n']
            } else {
                seq![]
            };
            assert(stream_text(w as nat, pre) == stream_text(w as nat, px@.subrange(0, k as int))
                + pixel_text(px@[k as int]) + tail);
            assert(out@ =~= before + pixel_text(px@[k as int]) + tail);
            assert(out@ =~= header_text(size) + stream_text(w as nat, pre));
        }
        k = k + 1;
    }
    assert(px@.subrange(0, px@.len() as int) =~= px@);
    out
}

} // verus!
