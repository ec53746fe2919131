//! The pixel canvas and its serialization to the plain-text PPM image
//! format: a `P3` header, then one line of channel values per pixel
//! row, wrapped at seventy columns.

use vstd::prelude::*;
use vstd::string::*;
use crate::colour::Colour;
use crate::matrix::lemma_row_major_bound;
use crate::scalar::{
    le_bits, mul_bits, round_bits, u32_of_bits, float_le, float_mul, float_round, float_to_u32,
    BITS_255, BITS_ONE, BITS_ZERO,
};
use vstd::utf8::is_ascii_chars;

verus! {

/// A rectangle of pixels, row-major from the top-left corner.
#[derive(Debug)]
pub struct Canvas {
    pub pixels: Vec<Colour>,
    pub width: u32,
    pub height: u32,
}

/// The decimal digit `d` as a character.
pub open spec fn spec_digit(d: int) -> char {
    if d == 0 {
        '0'
    } else if d == 1 {
        '1'
    } else if d == 2 {
        '2'
    } else if d == 3 {
        '3'
    } else if d == 4 {
        '4'
    } else if d == 5 {
        '5'
    } else if d == 6 {
        '6'
    } else if d == 7 {
        '7'
    } else if d == 8 {
        '8'
    } else {
        '9'
    }
}

/// The decimal notation of a non-negative integer.
pub open spec fn spec_decimal(n: int) -> Seq<char>
    decreases n,
{
    if n < 10 {
        seq![spec_digit(n)]
    } else {
        spec_decimal(n / 10) + seq![spec_digit(n % 10)]
    }
}

/// The header of a PPM file: magic number, dimensions, maximum channel
/// value.
pub open spec fn spec_ppm_header(width: u32, height: u32) -> Seq<char> {
    "P3\n"@ + spec_decimal(width as int) + " "@ + spec_decimal(height as int) + "\n255\n"@
}

/// ASCII whitespace, the characters that trimming removes.
pub open spec fn spec_is_space(c: char) -> bool {
    c == ' ' || c == '\t' || c == '\n' || c == '\u{B}' || c == '\u{C}' || c == '\r'
}

/// The sequence without its trailing whitespace.
pub open spec fn spec_trim_end(s: Seq<char>) -> Seq<char>
    decreases s.len(),
{
    if s.len() > 0 && spec_is_space(s[s.len() - 1]) {
        spec_trim_end(s.drop_last())
    } else {
        s
    }
}

/// The sequence without its leading whitespace.
pub open spec fn spec_trim_start(s: Seq<char>) -> Seq<char>
    decreases s.len(),
{
    if s.len() > 0 && spec_is_space(s[0]) {
        spec_trim_start(s.drop_first())
    } else {
        s
    }
}

/// The sequence without leading or trailing whitespace.
pub open spec fn spec_trim(s: Seq<char>) -> Seq<char> {
    spec_trim_start(spec_trim_end(s))
}

/// Line-gathering state after the first `i` entries: the finished
/// lines, and the line being filled. An entry that would push the
/// current line past seventy columns closes it (trimmed) first; every
/// entry lands on the current line followed by one space.
pub open spec fn spec_combine_state(ns: Seq<Seq<char>>, i: int) -> (Seq<Seq<char>>, Seq<char>)
    decreases i,
{
    if i <= 0 {
        (Seq::empty(), Seq::empty())
    } else {
        let (lines, cur) = spec_combine_state(ns, i - 1);
        let n = ns[i - 1];
        let (lines2, cur2) = if cur.len() + n.len() > 70 {
            (lines.push(spec_trim(cur)), Seq::<char>::empty())
        } else {
            (lines, cur)
        };
        (lines2, cur2 + n + seq![' '])
    }
}

/// The `i` first lines joined with one newline between them.
pub open spec fn spec_join(lines: Seq<Seq<char>>, i: int) -> Seq<char>
    decreases i,
{
    if i <= 0 {
        Seq::empty()
    } else if i == 1 {
        lines[0]
    } else {
        spec_join(lines, i - 1) + seq!['\n'] + lines[i - 1]
    }
}

/// What `combine_numbers` returns: the gathered lines, the trimmed last
/// line appended when it is not empty, joined with newlines.
pub open spec fn spec_combine(ns: Seq<Seq<char>>) -> Seq<char> {
    let (lines, cur) = spec_combine_state(ns, ns.len() as int);
    let t = spec_trim(cur);
    let all = if t.len() > 0 {
        lines.push(t)
    } else {
        lines
    };
    spec_join(all, all.len() as int)
}

/// A channel scalar clamped into `[0, 1]`: everything at or above one
/// becomes one, everything at or below zero (NaN included) becomes
/// zero.
pub open spec fn spec_clamp01(p: u32) -> u32 {
    if le_bits(BITS_ONE, p) {
        BITS_ONE
    } else if le_bits(p, BITS_ZERO) {
        BITS_ZERO
    } else {
        p
    }
}

/// A channel scalar as a byte: clamped, scaled by 255, rounded, and
/// converted.
pub open spec fn spec_convert_pixel(p: u32) -> u8 {
    let i = u32_of_bits(round_bits(mul_bits(spec_clamp01(p), BITS_255)));
    if i >= 256 {
        255u8
    } else {
        i as u8
    }
}

/// The three decimal channel strings of one colour.
pub open spec fn spec_colour_strings(p: Colour) -> Seq<Seq<char>> {
    seq![
        spec_decimal(spec_convert_pixel(p.r) as int),
        spec_decimal(spec_convert_pixel(p.g) as int),
        spec_decimal(spec_convert_pixel(p.b) as int),
    ]
}

/// The channel strings of the first `col` pixels of row `row`.
pub open spec fn spec_row_numbers(c: Canvas, row: int, col: int) -> Seq<Seq<char>>
    decreases col,
{
    if col <= 0 {
        Seq::empty()
    } else {
        spec_row_numbers(c, row, col - 1) + spec_colour_strings(
            c.pixels@[row * c.width + (col - 1)],
        )
    }
}

/// The first `row` pixel rows serialized: each row's numbers gathered
/// into lines, with a final newline per row.
pub open spec fn spec_ppm_rows(c: Canvas, row: int) -> Seq<char>
    decreases row,
{
    if row <= 0 {
        Seq::empty()
    } else {
        spec_ppm_rows(c, row - 1) + spec_combine(spec_row_numbers(c, row - 1, c.width as int))
            + seq!['\n']
    }
}

/// The whole PPM text of a canvas.
pub open spec fn spec_to_ppm(c: Canvas) -> Seq<char> {
    spec_ppm_header(c.width, c.height) + spec_ppm_rows(c, c.height as int)
}

/// Concatenation keeps sequences ASCII.
proof fn lemma_ascii_concat(a: Seq<char>, b: Seq<char>)
    requires
        is_ascii_chars(a),
        is_ascii_chars(b),
    ensures
        is_ascii_chars(a + b),
{
    assert forall|i: int| 0 <= i < (a + b).len() implies '\0' <= #[trigger] (a + b)[i]
        <= '\u{7f}' by {
        if i < a.len() {
            assert((a + b)[i] == a[i]);
        } else {
            assert((a + b)[i] == b[i - a.len()]);
        }
    }
}

/// One decimal digit as a string slice.
fn digit_str(d: u32) -> (r: &'static str)
    requires
        d < 10,
    ensures
        r@ == seq![spec_digit(d as int)],
        is_ascii_chars(r@),
{
    proof {
        reveal_strlit("0");
        reveal_strlit("1");
        reveal_strlit("2");
        reveal_strlit("3");
        reveal_strlit("4");
        reveal_strlit("5");
        reveal_strlit("6");
        reveal_strlit("7");
        reveal_strlit("8");
        reveal_strlit("9");
    }
    match d {
        0 => "0",
        1 => "1",
        2 => "2",
        3 => "3",
        4 => "4",
        5 => "5",
        6 => "6",
        7 => "7",
        8 => "8",
        _ => "9",
    }
}

/// The decimal notation of `n`.
fn decimal_string(n: u32) -> (s: String)
    ensures
        s@ == spec_decimal(n as int),
        is_ascii_chars(s@),
    decreases n,
{
    if n >= 10 {
        let mut s = decimal_string(n / 10);
        let d = digit_str(n % 10);
        proof {
            lemma_ascii_concat(s@, d@);
        }
        s.append(d);
        s
    } else {
        digit_str(n).to_owned()
    }
}

/// The PPM header for the given dimensions.
pub fn ppm_header(width: u32, height: u32) -> (r: String)
    ensures
        r@ == spec_ppm_header(width, height),
{
    let mut s = String::from_str("P3\n");
    s.append(decimal_string(width).as_str());
    s.append(" ");
    s.append(decimal_string(height).as_str());
    s.append("\n255\n");
    s
}

/// Whether `c` is ASCII whitespace.
fn is_space(c: char) -> (r: bool)
    ensures
        r == spec_is_space(c),
{
    c == ' ' || c == '\t' || c == '\n' || c == '\u{B}' || c == '\u{C}' || c == '\r'
}

/// The slice without leading or trailing whitespace, as a fresh string.
fn trim_spaces(s: &str) -> (r: String)
    requires
        is_ascii_chars(s@),
    ensures
        r@ == spec_trim(s@),
        is_ascii_chars(r@),
{
    let len = s.unicode_len();
    let mut e = len;
    proof {
        assert(s@.subrange(0, e as int) =~= s@);
    }
    while e > 0 && is_space(s.get_char(e - 1))
        invariant
            e <= len,
            len == s@.len(),
            is_ascii_chars(s@),
            spec_trim_end(s@) == spec_trim_end(s@.subrange(0, e as int)),
        decreases e,
    {
        proof {
            assert(s@.subrange(0, e as int).drop_last() =~= s@.subrange(0, e as int - 1));
        }
        e = e - 1;
    }
    proof {
        assert(spec_trim_end(s@) == s@.subrange(0, e as int));
    }
    let mut b: usize = 0;
    while b < e && is_space(s.get_char(b))
        invariant
            b <= e <= len,
            len == s@.len(),
            is_ascii_chars(s@),
            spec_trim_end(s@) == s@.subrange(0, e as int),
            spec_trim(s@) == spec_trim_start(s@.subrange(b as int, e as int)),
        decreases e - b,
    {
        proof {
            assert(s@.subrange(b as int, e as int).drop_first() =~= s@.subrange(
                b as int + 1,
                e as int,
            ));
        }
        b = b + 1;
    }
    proof {
        assert(spec_trim(s@) == s@.subrange(b as int, e as int));
    }
    let out = s.substring_ascii(b, e).to_owned();
    proof {
        assert forall|i: int| 0 <= i < out@.len() implies '\0' <= #[trigger] out@[i]
            <= '\u{7f}' by {
            assert(out@[i] == s@[b + i]);
        }
    }
    out
}

/// Gathers decimal strings into lines of at most seventy columns (one
/// space after each entry, trailing whitespace trimmed), joined with
/// newlines.
pub fn combine_numbers(numbers: &[String]) -> (r: String)
    requires
        forall|i: int| 0 <= i < numbers@.len() ==> is_ascii_chars(#[trigger] numbers@[i]@),
    ensures
        r@ == spec_combine(numbers@.map_values(|s: String| s@)),
{
    let ghost ns = numbers@.map_values(|s: String| s@);
    let mut lines: Vec<String> = Vec::new();
    let mut current = String::new();
    let mut i: usize = 0;
    proof {
        reveal_strlit(" ");
    }
    while i < numbers.len()
        invariant
            ns == numbers@.map_values(|s: String| s@),
            forall|t: int| 0 <= t < numbers@.len() ==> is_ascii_chars(#[trigger] numbers@[t]@),
            i <= numbers@.len(),
            lines@.map_values(|s: String| s@) == spec_combine_state(ns, i as int).0,
            current@ == spec_combine_state(ns, i as int).1,
            is_ascii_chars(current@),
        decreases numbers@.len() - i,
    {
        proof {
            reveal_strlit(" ");
            assert(ns[i as int] == numbers@[i as int]@);
            assert(is_ascii_chars(" "@));
        }
        let n: &String = &numbers[i];
        let n_len = n.as_str().unicode_len();
        let cur_len = current.as_str().unicode_len();
        let over = if cur_len > 70 {
            true
        } else {
            n_len > 70 - cur_len
        };
        if over {
            let t = trim_spaces(current.as_str());
            proof {
                assert(lines@.push(t).map_values(|s: String| s@) =~= lines@.map_values(
                    |s: String| s@,
                ).push(t@));
            }
            lines.push(t);
            current = String::new();
        }
        proof {
            assert(is_ascii_chars(n@));
            lemma_ascii_concat(current@, n@);
            lemma_ascii_concat(current@ + n@, " "@);
        }
        current.append(n.as_str());
        current.append(" ");
        i = i + 1;
        proof {
            assert(ns[i - 1] == numbers@[i - 1]@);
        }
    }
    let t = trim_spaces(current.as_str());
    let t_empty = t.as_str().is_empty();
    if !t_empty {
        proof {
            assert(lines@.push(t).map_values(|s: String| s@) =~= lines@.map_values(
                |s: String| s@,
            ).push(t@));
        }
        lines.push(t);
    }
    let mut out = String::new();
    let mut k: usize = 0;
    proof {
        reveal_strlit("\n");
    }
    while k < lines.len()
        invariant
            out@ == spec_join(lines@.map_values(|s: String| s@), k as int),
            k <= lines@.len(),
        decreases lines@.len() - k,
    {
        proof {
            reveal_strlit("\n");
            assert(lines@.map_values(|s: String| s@)[k as int] == lines@[k as int]@);
        }
        if k > 0 {
            out.append("\n");
        } else {
            proof {
                assert(out@ + lines@[k as int]@ =~= lines@[k as int]@);
            }
        }
        out.append(lines[k].as_str());
        k = k + 1;
    }
    out
}

/// A channel scalar as a byte in `[0, 255]`.
fn convert_pixel(pixel: u32) -> (r: u8)
    ensures
        r == spec_convert_pixel(pixel),
{
    let clamped = if float_le(BITS_ONE, pixel) {
        BITS_ONE
    } else if float_le(pixel, BITS_ZERO) {
        BITS_ZERO
    } else {
        pixel
    };
    let scaled = float_mul(clamped, BITS_255);
    let rounded = float_round(scaled);
    let i = float_to_u32(rounded);
    if i >= 256 {
        255
    } else {
        i as u8
    }
}

/// The three decimal channel strings of one colour.
fn format_colour(colour: &Colour) -> (r: Vec<String>)
    ensures
        r@.map_values(|s: String| s@) == spec_colour_strings(*colour),
        forall|i: int| 0 <= i < r@.len() ==> is_ascii_chars(#[trigger] r@[i]@),
{
    let red = decimal_string(convert_pixel(colour.r) as u32);
    let green = decimal_string(convert_pixel(colour.g) as u32);
    let blue = decimal_string(convert_pixel(colour.b) as u32);
    let out = vec![red, green, blue];
    proof {
        assert(out@.map_values(|s: String| s@) =~= spec_colour_strings(*colour));
    }
    out
}

impl Canvas {
    /// Well-formed: one stored pixel per coordinate, and a pixel count
    /// that fits the index arithmetic.
    pub open spec fn wf(self) -> bool {
        self.pixels@.len() == self.width * self.height && self.width * self.height
            <= u32::MAX
    }

    /// An all-black canvas of the given dimensions. The pixel count
    /// must fit in the index arithmetic; that is the machine's limit,
    /// not a rule of the format.
    pub fn new(width: u32, height: u32) -> (c: Canvas)
        requires
            width as int * height as int <= u32::MAX as int,
        ensures
            c.wf(),
            c.width == width,
            c.height == height,
            forall|k: int|
                0 <= k < c.pixels@.len() ==> c.pixels@[k] == (Colour {
                    r: BITS_ZERO,
                    g: BITS_ZERO,
                    b: BITS_ZERO,
                }),
    {
        let pixel_count = width * height;
        let black = Colour::new(BITS_ZERO, BITS_ZERO, BITS_ZERO);
        let mut pixels: Vec<Colour> = Vec::new();
        let mut k: u32 = 0;
        while k < pixel_count
            invariant
                black == (Colour { r: BITS_ZERO, g: BITS_ZERO, b: BITS_ZERO }),
                k <= pixel_count,
                pixels@.len() == k,
                forall|t: int|
                    0 <= t < pixels@.len() ==> pixels@[t] == (Colour {
                        r: BITS_ZERO,
                        g: BITS_ZERO,
                        b: BITS_ZERO,
                    }),
            decreases pixel_count - k,
        {
            pixels.push(black);
            k = k + 1;
        }
        Canvas { pixels, width, height }
    }

    /// Replaces the pixel at `(x, y)`.
    pub fn write_pixel(&mut self, x: u32, y: u32, colour: &Colour)
        requires
            old(self).wf(),
            x < old(self).width,
            y < old(self).height,
        ensures
            final(self).wf(),
            final(self).width == old(self).width,
            final(self).height == old(self).height,
            final(self).pixels@ == old(self).pixels@.update(
                y as int * old(self).width as int + x as int,
                *colour,
            ),
    {
        proof {
            lemma_row_major_bound(self.height as int, self.width as int, y as int, x as int);
        }
        let index = y * self.width + x;
        self.pixels[index as usize] = *colour;
    }

    /// The pixel at `(x, y)`.
    pub fn read_pixel(&self, x: u32, y: u32) -> (r: Colour)
        requires
            self.wf(),
            x < self.width,
            y < self.height,
        ensures
            r == self.pixels@[y as int * self.width as int + x as int],
    {
        proof {
            lemma_row_major_bound(self.height as int, self.width as int, y as int, x as int);
        }
        let index = y * self.width + x;
        self.pixels[index as usize]
    }

    /// The whole canvas serialized as PPM text.
    pub fn to_ppm(&self) -> (r: String)
        requires
            self.wf(),
        ensures
            r@ == spec_to_ppm(*self),
    {
        let header = ppm_header(self.width, self.height);
        let mut data = String::new();
        let mut row: u32 = 0;
        proof {
            reveal_strlit("\n");
        }
        while row < self.height
            invariant
                self.wf(),
                row <= self.height,
                data@ == spec_ppm_rows(*self, row as int),
            decreases self.height - row,
        {
            let mut row_numbers: Vec<String> = Vec::new();
            let mut col: u32 = 0;
            while col < self.width
                invariant
                    self.wf(),
                    row < self.height,
                    col <= self.width,
                    row_numbers@.map_values(|s: String| s@) == spec_row_numbers(
                        *self,
                        row as int,
                        col as int,
                    ),
                    forall|i: int|
                        0 <= i < row_numbers@.len() ==> is_ascii_chars(
                            #[trigger] row_numbers@[i]@,
                        ),
                decreases self.width - col,
            {
                let px = self.read_pixel(col, row);
                let mut strings = format_colour(&px);
                proof {
                    assert((row_numbers@ + strings@).map_values(|s: String| s@)
                        =~= row_numbers@.map_values(|s: String| s@) + strings@.map_values(
                        |s: String| s@,
                    ));
                }
                row_numbers.append(&mut strings);
                col = col + 1;
            }
            let combined = combine_numbers(row_numbers.as_slice());
            proof {
                reveal_strlit("\n");
            }
            data.append(combined.as_str());
            data.append("\n");
            row = row + 1;
        }
        header.concat(data.as_str())
    }
}

} // verus!
