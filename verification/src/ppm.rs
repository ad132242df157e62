//! The plain text form of the portable pixmap, in which an image is written:
//! a header, and then a line of three numbers for each pixel, row by row
//! from the top.

use vstd::prelude::*;

verus! {

/// The byte of a digit.
pub open spec fn digit(d: int) -> u8 {
    (48 + d) as u8
}

/// The decimal digits of a number, the most significant first.
pub open spec fn decimal(n: nat) -> Seq<u8>
    decreases n,
{
    if n < 10 {
        seq![digit(n as int)]
    } else {
        decimal(n / 10).push(digit((n % 10) as int))
    }
}

/// A number as `{}` prints it: its decimal digits, after a minus sign where
/// it is below zero.
pub open spec fn signed_decimal(n: int) -> Seq<u8> {
    if n < 0 {
        seq![45u8] + decimal((-n) as nat)
    } else {
        decimal(n as nat)
    }
}

/// The header of an image of `width` by `height` pixels whose samples run
/// up to 255: the magic number, the size and the largest sample, each on a
/// line of its own.
pub open spec fn header_spec(width: int, height: int) -> Seq<u8> {
    seq![80u8, 51u8, 10u8] + signed_decimal(width) + seq![32u8] + signed_decimal(height) + seq![
        10u8,
        50u8,
        53u8,
        53u8,
        10u8,
    ]
}

/// The line of one pixel: its red, green and blue samples, a blank between
/// them.
pub open spec fn pixel_spec(r: u8, g: u8, b: u8) -> Seq<u8> {
    decimal(r as nat) + seq![32u8] + decimal(g as nat) + seq![32u8] + decimal(b as nat) + seq![
        10u8,
    ]
}

/// Appends the decimal digits of `n` to `out`.
pub fn push_decimal(out: &mut Vec<u8>, n: u64)
    ensures
        final(out)@ == old(out)@ + decimal(n as nat),
{
    let mut digits: Vec<u8> = Vec::new();
    let mut rest: u64 = n;
    let ghost mut tail: Seq<u8> = Seq::empty();
    loop
        invariant_except_break
            digits@.len() == tail.len(),
            forall|i: int|
                0 <= i < tail.len() ==> #[trigger] digits@[i] == tail[tail.len() - 1 - i],
            decimal(n as nat) == decimal(rest as nat) + tail,
        ensures
            digits@.len() == decimal(n as nat).len(),
            forall|i: int|
                0 <= i < digits@.len() ==> #[trigger] digits@[i] == decimal(n as nat)[digits@.len()
                    - 1 - i],
        decreases rest,
    {
        let d: u8 = (rest % 10) as u8;
        digits.push(48 + d);
        if rest < 10 {
            proof {
                let whole = decimal(n as nat);
                let last = seq![digit(rest as int)];
                assert(whole =~= last + tail);
                assert forall|i: int| 0 <= i < digits@.len() implies #[trigger] digits@[i]
                    == whole[digits@.len() - 1 - i] by {
                    if i < tail.len() {
                        assert(whole[digits@.len() - 1 - i] == tail[tail.len() - 1 - i]);
                    }
                }
            }
            break ;
        }
        proof {
            let shifted = seq![digit((rest % 10) as int)] + tail;
            assert(decimal(rest as nat) == decimal((rest / 10) as nat).push(
                digit((rest % 10) as int),
            ));
            assert(decimal(n as nat) =~= decimal((rest / 10) as nat) + shifted);
            assert forall|i: int| 0 <= i < shifted.len() implies #[trigger] digits@[i]
                == shifted[shifted.len() - 1 - i] by {
                if i < tail.len() {
                    assert(shifted[shifted.len() - 1 - i] == tail[tail.len() - 1 - i]);
                }
            }
            tail = shifted;
        }
        rest = rest / 10;
    }
    let ghost before = out@;
    let ghost whole = decimal(n as nat);
    let mut k: usize = digits.len();
    while k > 0
        invariant
            k <= digits@.len(),
            digits@.len() == whole.len(),
            forall|i: int|
                0 <= i < digits@.len() ==> #[trigger] digits@[i] == whole[digits@.len() - 1 - i],
            out@ == before + whole.take(digits@.len() - k),
        decreases k,
    {
        k = k - 1;
        out.push(digits[k]);
        proof {
            let done = digits@.len() - k;
            assert(whole.take(done) =~= whole.take(done - 1).push(whole[done - 1]));
            assert(out@ =~= before + whole.take(done));
        }
    }
    proof {
        assert(whole.take(digits@.len() as int) =~= whole);
    }
}

/// Appends a number as `{}` prints it.
pub fn push_signed(out: &mut Vec<u8>, n: i32)
    ensures
        final(out)@ == old(out)@ + signed_decimal(n as int),
{
    let ghost before = out@;
    if n < 0 {
        out.push(45);
        let magnitude: u64 = (-(n as i64)) as u64;
        push_decimal(out, magnitude);
        proof {
            assert(out@ =~= before + signed_decimal(n as int));
        }
    } else {
        push_decimal(out, n as u64);
    }
}

/// The header of an image of `image_width` by `image_height` pixels.
pub fn header(image_width: i32, image_height: i32) -> (out: Vec<u8>)
    ensures
        out@ == header_spec(image_width as int, image_height as int),
{
    let mut out: Vec<u8> = Vec::new();
    out.push(80);
    out.push(51);
    out.push(10);
    push_signed(&mut out, image_width);
    out.push(32);
    push_signed(&mut out, image_height);
    out.push(10);
    out.push(50);
    out.push(53);
    out.push(53);
    out.push(10);
    proof {
        assert(out@ =~= header_spec(image_width as int, image_height as int));
    }
    out
}

/// The line of one pixel.
pub fn pixel(r: u8, g: u8, b: u8) -> (out: Vec<u8>)
    ensures
        out@ == pixel_spec(r, g, b),
{
    let mut out: Vec<u8> = Vec::new();
    push_decimal(&mut out, r as u64);
    out.push(32);
    push_decimal(&mut out, g as u64);
    out.push(32);
    push_decimal(&mut out, b as u64);
    out.push(10);
    proof {
        assert(out@ =~= pixel_spec(r, g, b));
    }
    out
}

/// The rows of an image in the order in which they are written: the top row,
/// which has the highest number, first.
pub fn rows_from_top(image_height: i32) -> (rows: Vec<i32>)
    ensures
        rows@.len() == if image_height > 0 { image_height as int } else { 0 },
        forall|k: int| 0 <= k < rows@.len() ==> #[trigger] rows@[k] == image_height - 1 - k,
{
    let mut rows: Vec<i32> = Vec::new();
    let mut j: i32 = image_height;
    while j > 0
        invariant
            0 <= j || rows@.len() == 0,
            j <= image_height,
            image_height > 0 ==> rows@.len() == image_height - j,
            image_height <= 0 ==> rows@.len() == 0,
            forall|k: int| 0 <= k < rows@.len() ==> #[trigger] rows@[k] == image_height - 1 - k,
        decreases j,
    {
        j = j - 1;
        rows.push(j);
    }
    rows
}

} // verus!
