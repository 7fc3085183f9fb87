//! The plain-text PPM image format.

use vstd::prelude::*;
use crate::image::pixel::FPixel;
use crate::image::pixel::UPixel;
use crate::image::Image;

verus! {

/// An image ready to be written as plain-text PPM: `width * height` pixels
/// of one byte per channel, row by row from the top.
#[derive(Debug)]
pub struct PPM {
    pub data: Vec<UPixel>,
    pub width: u32,
    pub height: u32,
}

/// A number in decimal, most significant digit first, as ASCII.
pub open spec fn decimal(n: nat) -> Seq<u8>
    decreases n,
{
    if n < 10 {
        seq![(48 + n) as u8]
    } else {
        decimal(n / 10).push((48 + n % 10) as u8)
    }
}

/// The number that a run of ASCII digits spells.
pub open spec fn number(digits: Seq<u8>) -> nat
    decreases digits.len(),
{
    if digits.len() == 0 {
        0
    } else {
        (number(digits.drop_last()) * 10 + (digits.last() - 48)) as nat
    }
}

/// The line of one pixel: red, green and blue, a space between them and a
/// line feed behind.
pub open spec fn pixel_line(p: UPixel) -> Seq<u8> {
    decimal(p.red as nat) + seq![32u8] + decimal(p.green as nat) + seq![32u8] + decimal(
        p.blue as nat,
    ) + seq![10u8]
}

/// The lines of many pixels, in order.
pub open spec fn pixel_lines(data: Seq<UPixel>) -> Seq<u8>
    decreases data.len(),
{
    if data.len() == 0 {
        Seq::empty()
    } else {
        pixel_lines(data.drop_last()) + pixel_line(data.last())
    }
}

/// The three lines that open a file: the magic `P3`, the width and height,
/// and the largest channel value, 255.
pub open spec fn header(width: u32, height: u32) -> Seq<u8> {
    seq![80u8, 51u8, 10u8] + decimal(width as nat) + seq![32u8] + decimal(height as nat)
        + seq![10u8, 50u8, 53u8, 53u8, 10u8]
}

/// How often `byte` occurs in `text`.
pub open spec fn count(text: Seq<u8>, byte: u8) -> nat
    decreases text.len(),
{
    if text.len() == 0 {
        0
    } else {
        count(text.drop_last(), byte) + if text.last() == byte {
            1nat
        } else {
            0nat
        }
    }
}

/// The display pixels of gamma-encoded pixels, one for one.
pub open spec fn quantized(encoded: Seq<FPixel>) -> Seq<UPixel> {
    Seq::new(encoded.len(), |k: int| encoded[k].spec_quantize())
}

impl PPM {
    /// Whether the image holds exactly the pixels of its size.
    pub open spec fn wf(&self) -> bool {
        self.data@.len() == self.width * self.height
    }

    /// The whole file: the header and a line for each pixel.
    pub open spec fn spec_encode(&self) -> Seq<u8> {
        header(self.width, self.height) + pixel_lines(self.data@)
    }

    /// The image of the given size that holds the given pixels. There must
    /// be as many pixels as the size asks for.
    pub fn new(width: u32, height: u32, data: Vec<UPixel>) -> (ppm: PPM)
        requires
            width * height == data@.len(),
        ensures
            ppm.width == width,
            ppm.height == height,
            ppm.data@ == data@,
            ppm.wf(),
    {
        PPM { data, width, height }
    }

    /// The image for display of an image whose channels are already
    /// gamma-encoded: the same size, and every pixel cut to bytes.
    pub fn from_encoded(image: Image) -> (ppm: PPM)
        ensures
            ppm.width == image.width,
            ppm.height == image.height,
            ppm.data@ == quantized(image.data@),
            image.wf() ==> ppm.wf(),
    {
        let mut data: Vec<UPixel> = Vec::new();
        let n = image.data.len();
        let mut k: usize = 0;
        while k < n
            invariant
                k <= n,
                n == image.data@.len(),
                data@ == quantized(image.data@.take(k as int)),
            decreases n - k,
        {
            data.push(image.data[k].quantize());
            k += 1;
            assert(data@ == quantized(image.data@.take(k as int)));
        }
        assert(image.data@.take(n as int) == image.data@);
        PPM { data, width: image.width, height: image.height }
    }

    /// The image as the bytes of a plain-text PPM file.
    pub fn encode(&self) -> (out: Vec<u8>)
        ensures
            out@ == self.spec_encode(),
    {
        let mut out: Vec<u8> = Vec::new();
        out.push(80);
        out.push(51);
        out.push(10);
        push_decimal(&mut out, self.width);
        out.push(32);
        push_decimal(&mut out, self.height);
        out.push(10);
        out.push(50);
        out.push(53);
        out.push(53);
        out.push(10);
        assert(out@ == header(self.width, self.height));
        let n = self.data.len();
        let mut k: usize = 0;
        while k < n
            invariant
                k <= n,
                n == self.data@.len(),
                out@ == header(self.width, self.height) + pixel_lines(self.data@.take(k as int)),
            decreases n - k,
        {
            let p = self.data[k];
            let ghost before = out@;
            push_decimal(&mut out, p.red as u32);
            out.push(32);
            push_decimal(&mut out, p.green as u32);
            out.push(32);
            push_decimal(&mut out, p.blue as u32);
            out.push(10);
            proof {
                assert(out@ == before + pixel_line(p));
                let next = self.data@.take(k + 1);
                assert(next.drop_last() == self.data@.take(k as int));
                assert(next.last() == p);
            }
            k += 1;
        }
        assert(self.data@.take(n as int) == self.data@);
        out
    }
}

/// Appends `n` in decimal to `out`.
fn push_decimal(out: &mut Vec<u8>, n: u32)
    ensures
        final(out)@ == old(out)@ + decimal(n as nat),
    decreases n,
{
    if n >= 10 {
        push_decimal(out, n / 10);
    }
    out.push(48 + (n % 10) as u8);
}

/// A number in decimal is one or more ASCII digits, and starts with a zero
/// only when it is zero.
pub proof fn lemma_decimal_is_digits(n: nat)
    ensures
        decimal(n).len() >= 1,
        forall|k: int| 0 <= k < decimal(n).len() ==> 48 <= #[trigger] decimal(n)[k] <= 57,
        decimal(n)[0] == 48 <==> n == 0,
    decreases n,
{
    if n >= 10 {
        lemma_decimal_is_digits(n / 10);
    }
}

/// Reading a number back from its decimal gives the number: no two numbers
/// are written alike.
pub proof fn lemma_decimal_round_trip(n: nat)
    ensures
        number(decimal(n)) == n,
    decreases n,
{
    if n < 10 {
        assert(decimal(n).drop_last() == Seq::<u8>::empty());
        assert(number(Seq::<u8>::empty()) == 0);
    } else {
        lemma_decimal_round_trip(n / 10);
        assert(decimal(n).drop_last() == decimal(n / 10));
    }
}

/// Counting a byte in two texts joined is counting it in each.
pub proof fn lemma_count_of_joined(a: Seq<u8>, b: Seq<u8>, byte: u8)
    ensures
        count(a + b, byte) == count(a, byte) + count(b, byte),
    decreases b.len(),
{
    if b.len() == 0 {
        assert(a + b == a);
    } else {
        lemma_count_of_joined(a, b.drop_last(), byte);
        assert((a + b).drop_last() == a + b.drop_last());
    }
}

/// A number in decimal holds neither a space nor a line feed.
pub proof fn lemma_decimal_has_no_separator(n: nat)
    ensures
        count(decimal(n), 32) == 0,
        count(decimal(n), 10) == 0,
    decreases n,
{
    if n < 10 {
        assert(decimal(n).drop_last() == Seq::<u8>::empty());
        assert(count(Seq::<u8>::empty(), 32) == 0);
        assert(count(Seq::<u8>::empty(), 10) == 0);
    } else {
        lemma_decimal_has_no_separator(n / 10);
        assert(decimal(n).drop_last() == decimal(n / 10));
    }
}

/// The file has three lines of header and then one line per pixel.
pub proof fn lemma_one_line_per_pixel(ppm: PPM)
    ensures
        count(ppm.spec_encode(), 10) == 3 + ppm.data@.len(),
{
    lemma_header_has_three_lines(ppm.width, ppm.height);
    lemma_lines_of_pixels(ppm.data@);
    lemma_count_of_joined(header(ppm.width, ppm.height), pixel_lines(ppm.data@), 10);
}

/// A number in decimal followed by a byte that is no digit says where it
/// ends: two texts that begin so are the same text only if they begin with
/// the same number, go on with the same byte, and end alike.
pub proof fn lemma_decimal_delimits_itself(
    n: nat,
    stop_n: u8,
    rest_n: Seq<u8>,
    m: nat,
    stop_m: u8,
    rest_m: Seq<u8>,
)
    requires
        stop_n < 48 || stop_n > 57,
        stop_m < 48 || stop_m > 57,
        decimal(n) + seq![stop_n] + rest_n == decimal(m) + seq![stop_m] + rest_m,
    ensures
        n == m,
        stop_n == stop_m,
        rest_n == rest_m,
{
    let a = decimal(n);
    let b = decimal(m);
    let left = a + seq![stop_n] + rest_n;
    let right = b + seq![stop_m] + rest_m;
    lemma_decimal_is_digits(n);
    lemma_decimal_is_digits(m);
    assert(left[a.len() as int] == stop_n);
    assert(right[b.len() as int] == stop_m);
    if a.len() < b.len() {
        assert(right[a.len() as int] == b[a.len() as int]);
    } else if b.len() < a.len() {
        assert(left[b.len() as int] == a[b.len() as int]);
    }
    assert(a.len() == b.len());
    assert forall|k: int| 0 <= k < a.len() implies a[k] == b[k] by {
        assert(left[k] == a[k]);
        assert(right[k] == b[k]);
    }
    assert(a =~= b);
    lemma_decimal_round_trip(n);
    lemma_decimal_round_trip(m);
    assert(left.len() == right.len());
    assert forall|k: int| 0 <= k < rest_n.len() implies rest_n[k] == rest_m[k] by {
        assert(left[a.len() + 1 + k] == rest_n[k]);
        assert(right[b.len() + 1 + k] == rest_m[k]);
    }
    assert(rest_n =~= rest_m);
}

/// The lines of many pixels are the line of the first and the lines of the
/// others.
pub proof fn lemma_pixel_lines_begin_with_the_first(data: Seq<UPixel>)
    requires
        data.len() > 0,
    ensures
        pixel_lines(data) == pixel_line(data[0]) + pixel_lines(data.drop_first()),
    decreases data.len(),
{
    if data.len() == 1 {
        assert(data.drop_last() == Seq::<UPixel>::empty());
        assert(data.drop_first() == Seq::<UPixel>::empty());
        assert(pixel_lines(Seq::<UPixel>::empty()) == Seq::<u8>::empty());
        assert(pixel_lines(data) == Seq::<u8>::empty() + pixel_line(data[0]));
        assert(pixel_lines(data) =~= pixel_line(data[0]) + Seq::<u8>::empty());
    } else {
        let init = data.drop_last();
        lemma_pixel_lines_begin_with_the_first(init);
        assert(init[0] == data[0]);
        assert(init.drop_first() == data.drop_first().drop_last());
        assert(data.drop_first().last() == data.last());
        assert(pixel_lines(data.drop_first()) == pixel_lines(init.drop_first()) + pixel_line(
            data.last(),
        ));
        assert(pixel_lines(data) =~= pixel_line(data[0]) + pixel_lines(data.drop_first()));
    }
}

/// The line of a pixel, with whatever follows it, tells the pixel and what
/// follows apart.
proof fn lemma_pixel_line_is_lossless(p: UPixel, rest_p: Seq<u8>, q: UPixel, rest_q: Seq<u8>)
    requires
        pixel_line(p) + rest_p == pixel_line(q) + rest_q,
    ensures
        p == q,
        rest_p == rest_q,
{
    let space = seq![32u8];
    let feed = seq![10u8];
    let tail_p2 = rest_p;
    let tail_p1 = decimal(p.blue as nat) + feed + tail_p2;
    let tail_p0 = decimal(p.green as nat) + space + tail_p1;
    let tail_q2 = rest_q;
    let tail_q1 = decimal(q.blue as nat) + feed + tail_q2;
    let tail_q0 = decimal(q.green as nat) + space + tail_q1;
    assert(pixel_line(p) + rest_p =~= decimal(p.red as nat) + space + tail_p0);
    assert(pixel_line(q) + rest_q =~= decimal(q.red as nat) + space + tail_q0);
    lemma_decimal_delimits_itself(p.red as nat, 32, tail_p0, q.red as nat, 32, tail_q0);
    lemma_decimal_delimits_itself(p.green as nat, 32, tail_p1, q.green as nat, 32, tail_q1);
    lemma_decimal_delimits_itself(p.blue as nat, 10, tail_p2, q.blue as nat, 10, tail_q2);
}

/// The lines of many pixels tell the pixels: no two runs of pixels are
/// written alike.
pub proof fn lemma_pixel_lines_are_lossless(a: Seq<UPixel>, b: Seq<UPixel>)
    requires
        pixel_lines(a) == pixel_lines(b),
    ensures
        a == b,
    decreases a.len(),
{
    if a.len() == 0 || b.len() == 0 {
        assert(pixel_lines(Seq::<UPixel>::empty()) == Seq::<u8>::empty());
        if a.len() > 0 {
            lemma_pixel_lines_begin_with_the_first(a);
            assert(pixel_lines(a).len() > 0);
            assert(b =~= Seq::<UPixel>::empty());
        }
        if b.len() > 0 {
            lemma_pixel_lines_begin_with_the_first(b);
            assert(pixel_lines(b).len() > 0);
            assert(a =~= Seq::<UPixel>::empty());
        }
        assert(a =~= b);
    } else {
        lemma_pixel_lines_begin_with_the_first(a);
        lemma_pixel_lines_begin_with_the_first(b);
        lemma_pixel_line_is_lossless(
            a[0],
            pixel_lines(a.drop_first()),
            b[0],
            pixel_lines(b.drop_first()),
        );
        lemma_pixel_lines_are_lossless(a.drop_first(), b.drop_first());
        assert(a =~= seq![a[0]] + a.drop_first());
        assert(b =~= seq![b[0]] + b.drop_first());
    }
}

/// Two texts that begin alike and are the same text end alike.
proof fn lemma_same_text_same_ending(start: Seq<u8>, x: Seq<u8>, y: Seq<u8>)
    requires
        start + x == start + y,
    ensures
        x == y,
{
    assert(x =~= (start + x).subrange(start.len() as int, (start + x).len() as int));
    assert(y =~= (start + y).subrange(start.len() as int, (start + y).len() as int));
}

/// A file is its magic, then its width and a space, then its height and a
/// line feed, then the depth and the lines of its pixels.
proof fn lemma_file_in_parts(ppm: PPM)
    ensures
        ppm.spec_encode() == seq![80u8, 51u8, 10u8] + (decimal(ppm.width as nat) + seq![32u8] + (
        decimal(ppm.height as nat) + seq![10u8] + (seq![50u8, 53u8, 53u8, 10u8] + pixel_lines(
            ppm.data@,
        )))),
{
    let parts = seq![80u8, 51u8, 10u8] + (decimal(ppm.width as nat) + seq![32u8] + (decimal(
        ppm.height as nat,
    ) + seq![10u8] + (seq![50u8, 53u8, 53u8, 10u8] + pixel_lines(ppm.data@))));
    assert(seq![10u8, 50u8, 53u8, 53u8, 10u8] =~= seq![10u8] + seq![50u8, 53u8, 53u8, 10u8]);
    assert(ppm.spec_encode() =~= parts);
}

/// The file tells the image: two images that are written alike have the
/// same size and the same pixels.
pub proof fn lemma_encoding_is_lossless(a: PPM, b: PPM)
    requires
        a.spec_encode() == b.spec_encode(),
    ensures
        a.width == b.width,
        a.height == b.height,
        a.data@ == b.data@,
{
    let magic = seq![80u8, 51u8, 10u8];
    let depth = seq![50u8, 53u8, 53u8, 10u8];
    let lines_a = depth + pixel_lines(a.data@);
    let lines_b = depth + pixel_lines(b.data@);
    let rows_a = decimal(a.height as nat) + seq![10u8] + lines_a;
    let rows_b = decimal(b.height as nat) + seq![10u8] + lines_b;
    lemma_file_in_parts(a);
    lemma_file_in_parts(b);
    lemma_same_text_same_ending(
        magic,
        decimal(a.width as nat) + seq![32u8] + rows_a,
        decimal(b.width as nat) + seq![32u8] + rows_b,
    );
    lemma_decimal_delimits_itself(a.width as nat, 32, rows_a, b.width as nat, 32, rows_b);
    lemma_decimal_delimits_itself(a.height as nat, 10, lines_a, b.height as nat, 10, lines_b);
    lemma_same_text_same_ending(depth, pixel_lines(a.data@), pixel_lines(b.data@));
    lemma_pixel_lines_are_lossless(a.data@, b.data@);
}

proof fn lemma_count_of_short(byte: u8)
    ensures
        count(seq![32u8], byte) == if byte == 32 {
            1nat
        } else {
            0nat
        },
        count(seq![10u8], byte) == if byte == 10 {
            1nat
        } else {
            0nat
        },
{
    assert(seq![32u8].drop_last() == Seq::<u8>::empty());
    assert(seq![10u8].drop_last() == Seq::<u8>::empty());
    assert(count(Seq::<u8>::empty(), byte) == 0);
}

proof fn lemma_header_has_three_lines(width: u32, height: u32)
    ensures
        count(header(width, height), 10) == 3,
{
    let magic = seq![80u8, 51u8, 10u8];
    let tail = seq![10u8, 50u8, 53u8, 53u8, 10u8];
    let w = decimal(width as nat);
    let h = decimal(height as nat);
    assert(count(magic, 10) == 1) by {
        reveal_with_fuel(count, 4);
        assert(magic.drop_last() == seq![80u8, 51u8]);
        assert(seq![80u8, 51u8].drop_last() == seq![80u8]);
        assert(seq![80u8].drop_last() == Seq::<u8>::empty());
    }
    assert(count(tail, 10) == 2) by {
        reveal_with_fuel(count, 6);
        assert(tail.drop_last() == seq![10u8, 50u8, 53u8, 53u8]);
        assert(seq![10u8, 50u8, 53u8, 53u8].drop_last() == seq![10u8, 50u8, 53u8]);
        assert(seq![10u8, 50u8, 53u8].drop_last() == seq![10u8, 50u8]);
        assert(seq![10u8, 50u8].drop_last() == seq![10u8]);
        assert(seq![10u8].drop_last() == Seq::<u8>::empty());
    }
    lemma_count_of_short(10);
    lemma_decimal_has_no_separator(width as nat);
    lemma_decimal_has_no_separator(height as nat);
    lemma_count_of_joined(magic, w, 10);
    lemma_count_of_joined(magic + w, seq![32u8], 10);
    lemma_count_of_joined(magic + w + seq![32u8], h, 10);
    lemma_count_of_joined(magic + w + seq![32u8] + h, tail, 10);
}

proof fn lemma_line_of_pixel(p: UPixel)
    ensures
        count(pixel_line(p), 10) == 1,
{
    let r = decimal(p.red as nat);
    let g = decimal(p.green as nat);
    let b = decimal(p.blue as nat);
    lemma_count_of_short(10);
    lemma_decimal_has_no_separator(p.red as nat);
    lemma_decimal_has_no_separator(p.green as nat);
    lemma_decimal_has_no_separator(p.blue as nat);
    lemma_count_of_joined(r, seq![32u8], 10);
    lemma_count_of_joined(r + seq![32u8], g, 10);
    lemma_count_of_joined(r + seq![32u8] + g, seq![32u8], 10);
    lemma_count_of_joined(r + seq![32u8] + g + seq![32u8], b, 10);
    lemma_count_of_joined(r + seq![32u8] + g + seq![32u8] + b, seq![10u8], 10);
}

proof fn lemma_lines_of_pixels(data: Seq<UPixel>)
    ensures
        count(pixel_lines(data), 10) == data.len(),
    decreases data.len(),
{
    if data.len() > 0 {
        lemma_lines_of_pixels(data.drop_last());
        lemma_line_of_pixel(data.last());
        lemma_count_of_joined(pixel_lines(data.drop_last()), pixel_line(data.last()), 10);
    }
}

} // verus!
