//! Hex/ARGB conversions matching the pipeline's exact formatting.

use vstd::prelude::*;
use vstd::string::StringSliceAdditionalSpecFns;
use vstd::utf8::{encode_utf8, is_ascii_chars, is_ascii_chars_encode_utf8};

use crate::text::push_char;

verus! {

/// An 8-bit-per-channel color with alpha.
#[derive(Debug, Clone, Copy, PartialEq, Eq, Structural, Hash)]
pub struct Argb {
    pub alpha: u8,
    pub red: u8,
    pub green: u8,
    pub blue: u8,
}

impl Argb {
    /// Builds a color from its four channels.
    pub fn new(alpha: u8, red: u8, green: u8, blue: u8) -> (c: Argb)
        ensures
            c == (Argb { alpha, red, green, blue }),
    {
        Argb { alpha, red, green, blue }
    }
}

/// The input that `hex_to_argb` refused, kept verbatim.
#[derive(Debug, Clone, PartialEq, Eq)]
pub struct HexParseError(pub String);

impl HexParseError {
    /// The error message shown to users: `invalid hex color: <input>`.
    pub fn message(&self) -> (m: String)
        ensures
            m@ == "invalid hex color: "@ + self.0@,
    {
        let mut m = "invalid hex color: ".to_string();
        m.append(self.0.as_str());
        proof {
            reveal_strlit("invalid hex color: ");
        }
        m
    }
}

// ── specification ───────────────────────────────────────────────────────

/// `b` is an ASCII hexadecimal digit (`0-9`, `A-F`, `a-f`).
pub open spec fn is_hex_digit_byte(b: u8) -> bool {
    (48 <= b <= 57) || (65 <= b <= 70) || (97 <= b <= 102)
}

/// Value of an ASCII hexadecimal digit.
pub open spec fn hex_digit_value(b: u8) -> int {
    if b <= 57 {
        b - 48
    } else if b <= 70 {
        b - 55
    } else {
        b - 87
    }
}

/// The bytes after one optional leading `#`.
pub open spec fn hex_body(bytes: Seq<u8>) -> Seq<u8> {
    if bytes.len() > 0 && bytes[0] == 35 {
        bytes.drop_first()
    } else {
        bytes
    }
}

/// `bytes` spell `#RRGGBB` or `RRGGBB` with hexadecimal digits of either case.
pub open spec fn is_hex_color(bytes: Seq<u8>) -> bool {
    let s = hex_body(bytes);
    &&& s.len() == 6
    &&& forall|i: int| 0 <= i < 6 ==> is_hex_digit_byte(#[trigger] s[i])
}

/// The byte value of the two hexadecimal digits starting at `i`.
pub open spec fn hex_pair_value(s: Seq<u8>, i: int) -> u8 {
    (16 * hex_digit_value(s[i]) + hex_digit_value(s[i + 1])) as u8
}

/// The opaque color that a well-formed hex string denotes.
pub open spec fn parsed_color(bytes: Seq<u8>) -> Argb {
    let s = hex_body(bytes);
    Argb { alpha: 255, red: hex_pair_value(s, 0), green: hex_pair_value(s, 2), blue: hex_pair_value(s, 4) }
}

/// Uppercase hexadecimal digit for `n < 16`.
pub open spec fn upper_hex_digit(n: int) -> char {
    if n < 10 {
        (48 + n) as char
    } else {
        (55 + n) as char
    }
}

/// Two uppercase hexadecimal digits of a byte.
pub open spec fn byte_hex(b: u8) -> Seq<char> {
    seq![upper_hex_digit(b as int / 16), upper_hex_digit(b as int % 16)]
}

/// `#RRGGBB` in uppercase; the alpha channel is not written.
pub open spec fn hex_text(c: Argb) -> Seq<char> {
    seq!['#'] + byte_hex(c.red) + byte_hex(c.green) + byte_hex(c.blue)
}

// ── formatting ──────────────────────────────────────────────────────────

fn upper_digit(n: u8) -> (c: char)
    requires
        n < 16,
    ensures
        c == upper_hex_digit(n as int),
{
    if n < 10 {
        (48 + n) as char
    } else {
        (55 + n) as char
    }
}

/// Appends the two uppercase hexadecimal digits of `b` to `out`.
pub(crate) fn push_byte_hex(out: &mut String, b: u8)
    ensures
        final(out)@ == old(out)@ + byte_hex(b),
{
    push_char(out, upper_digit(b / 16));
    push_char(out, upper_digit(b % 16));
    assert(final(out)@ =~= old(out)@ + byte_hex(b));
}

/// `#RRGGBB`, uppercase — the format every consumer of the pipeline expects.
pub fn argb_to_hex(c: Argb) -> (s: String)
    ensures
        s@ == hex_text(c),
{
    let mut s = String::new();
    push_char(&mut s, '#');
    push_byte_hex(&mut s, c.red);
    push_byte_hex(&mut s, c.green);
    push_byte_hex(&mut s, c.blue);
    assert(s@ =~= hex_text(c));
    s
}

// ── parsing ─────────────────────────────────────────────────────────────

pub(crate) fn is_hex_digit(b: u8) -> (r: bool)
    ensures
        r == is_hex_digit_byte(b),
{
    (48 <= b && b <= 57) || (65 <= b && b <= 70) || (97 <= b && b <= 102)
}

pub(crate) fn digit_value(b: u8) -> (v: u8)
    requires
        is_hex_digit_byte(b),
    ensures
        v == hex_digit_value(b),
        v < 16,
{
    if b <= 57 {
        b - 48
    } else if b <= 70 {
        b - 55
    } else {
        b - 87
    }
}

pub(crate) fn pair_value(s: &[u8], i: usize) -> (v: u8)
    requires
        i + 1 < s@.len(),
        is_hex_digit_byte(s@[i as int]),
        is_hex_digit_byte(s@[i + 1]),
    ensures
        v == hex_pair_value(s@, i as int),
{
    let hi = digit_value(s[i]);
    let lo = digit_value(s[i + 1]);
    16 * hi + lo
}

/// Parse `#RRGGBB` (leading `#` optional) to an opaque color.
pub fn hex_to_argb(hex: &str) -> (r: Result<Argb, HexParseError>)
    ensures
        match r {
            Ok(c) => is_hex_color(hex.spec_bytes()) && c == parsed_color(hex.spec_bytes()),
            Err(e) => !is_hex_color(hex.spec_bytes()) && e.0@ == hex@,
        },
{
    let all = hex.as_bytes();
    let start: usize = if all.len() > 0 && all[0] == 35 { 1 } else { 0 };
    let ghost body = hex_body(all@);
    assert(body =~= all@.subrange(start as int, all@.len() as int));
    if all.len() - start != 6 {
        return Err(HexParseError(hex.to_string()));
    }
    let mut i: usize = 0;
    assert(body.len() == 6);
    while i < 6
        invariant
            0 <= i <= 6,
            start <= 1,
            all@ == hex.spec_bytes(),
            body == hex_body(hex.spec_bytes()),
            start + 6 == all@.len(),
            body =~= all@.subrange(start as int, all@.len() as int),
            forall|j: int| 0 <= j < i ==> is_hex_digit_byte(#[trigger] body[j]),
        decreases 6 - i,
    {
        if !is_hex_digit(all[start + i]) {
            assert(!is_hex_digit_byte(body[i as int]));
            return Err(HexParseError(hex.to_string()));
        }
        i = i + 1;
    }
    assert forall|k: int| 0 <= k < 6 implies is_hex_digit_byte(#[trigger] all@[start + k]) by {
        assert(all@[start + k] == body[k]);
    }
    assert(is_hex_digit_byte(all@[start + 0]) && is_hex_digit_byte(all@[start + 1]));
    assert(is_hex_digit_byte(all@[start + 2]) && is_hex_digit_byte(all@[start + 3]));
    assert(is_hex_digit_byte(all@[start + 4]) && is_hex_digit_byte(all@[start + 5]));
    let red = pair_value(all, start);
    let green = pair_value(all, start + 2);
    let blue = pair_value(all, start + 4);
    Ok(Argb::new(255, red, green, blue))
}

// ── lenient RGB parsing ─────────────────────────────────────────────────

/// The bytes after all leading `#`s.
pub open spec fn strip_hashes(b: Seq<u8>) -> Seq<u8>
    decreases b.len(),
{
    if b.len() > 0 && b[0] == 35 {
        strip_hashes(b.drop_first())
    } else {
        b
    }
}

/// The lenient parser keeps the first six of eight digits (`#RRGGBBAA`) by
/// slicing the text at byte 6, which is only possible when byte 6 starts a
/// character, i.e. is not a UTF-8 continuation byte.
pub open spec fn rgb_slice_ok(b: Seq<u8>) -> bool {
    let h = strip_hashes(b);
    !(h.len() == 8 && 0x80 <= h[6] <= 0xbf)
}

/// The digits the lenient parser reads: the first six of eight, else all.
pub open spec fn rgb_digits(b: Seq<u8>) -> Seq<u8> {
    let h = strip_hashes(b);
    if h.len() == 8 {
        h.take(6)
    } else {
        h
    }
}

/// `#RRGGBB`, `RRGGBB`, `#RRGGBBAA` (alpha ignored), any number of leading
/// `#`s: the three channels, or `None` when the digits are not six hex digits.
pub open spec fn rgb_channels(b: Seq<u8>) -> Option<(u8, u8, u8)> {
    let d = rgb_digits(b);
    if d.len() == 6 && forall|i: int| 0 <= i < 6 ==> is_hex_digit_byte(#[trigger] d[i]) {
        Some((hex_pair_value(d, 0), hex_pair_value(d, 2), hex_pair_value(d, 4)))
    } else {
        None
    }
}

/// Whether the lenient parser can take `hex` (see `rgb_slice_ok`).
pub fn rgb_slice_ok_exec(hex: &str) -> (r: bool)
    ensures
        r == rgb_slice_ok(hex.spec_bytes()),
{
    let all = hex.as_bytes();
    let n = all.len();
    let mut start: usize = 0;
    assert(all@.skip(0) =~= all@);
    while start < n && all[start] == 35
        invariant
            all@ == hex.spec_bytes(),
            n == all@.len(),
            0 <= start <= n,
            strip_hashes(all@) == strip_hashes(all@.skip(start as int)),
        decreases n - start,
    {
        assert(all@.skip(start as int).drop_first() =~= all@.skip(start + 1));
        start = start + 1;
    }
    let ghost h = all@.skip(start as int);
    assert(strip_hashes(h) == h);
    if n - start == 8 {
        let b = all[start + 6];
        assert(b == h[6]);
        !(0x80 <= b && b <= 0xbf)
    } else {
        true
    }
}

/// Lenient `#RRGGBB[AA]` parsing to (r, g, b) channels, as the palette
/// transforms read colors.
pub fn hex_to_rgb(hex: &str) -> (r: Option<(u8, u8, u8)>)
    requires
        rgb_slice_ok(hex.spec_bytes()),
    ensures
        r == rgb_channels(hex.spec_bytes()),
{
    let all = hex.as_bytes();
    let n = all.len();
    let mut start: usize = 0;
    assert(all@.skip(0) =~= all@);
    while start < n && all[start] == 35
        invariant
            all@ == hex.spec_bytes(),
            n == all@.len(),
            0 <= start <= n,
            strip_hashes(all@) == strip_hashes(all@.skip(start as int)),
        decreases n - start,
    {
        assert(all@.skip(start as int).drop_first() =~= all@.skip(start + 1));
        start = start + 1;
    }
    let ghost h = all@.skip(start as int);
    assert(strip_hashes(h) == h);
    let len = n - start;
    if len != 6 && len != 8 {
        return None;
    }
    let ghost d = rgb_digits(all@);
    assert(d =~= all@.subrange(start as int, start + 6));
    let mut i: usize = 0;
    while i < 6
        invariant
            all@ == hex.spec_bytes(),
            n == all@.len(),
            start + 6 <= n,
            d == rgb_digits(all@),
            d =~= all@.subrange(start as int, start + 6),
            0 <= i <= 6,
            forall|j: int| 0 <= j < i ==> is_hex_digit_byte(#[trigger] d[j]),
        decreases 6 - i,
    {
        if !is_hex_digit(all[start + i]) {
            assert(!is_hex_digit_byte(d[i as int]));
            return None;
        }
        i = i + 1;
    }
    assert forall|k: int| 0 <= k < 6 implies is_hex_digit_byte(#[trigger] all@[start + k]) by {
        assert(all@[start + k] == d[k]);
    }
    assert(is_hex_digit_byte(all@[start + 0]) && is_hex_digit_byte(all@[start + 1]));
    assert(is_hex_digit_byte(all@[start + 2]) && is_hex_digit_byte(all@[start + 3]));
    assert(is_hex_digit_byte(all@[start + 4]) && is_hex_digit_byte(all@[start + 5]));
    let r = pair_value(all, start);
    let g = pair_value(all, start + 2);
    let b = pair_value(all, start + 4);
    Some((r, g, b))
}

// ── round trips ─────────────────────────────────────────────────────────

/// ASCII uppercase of a byte (letters `a-z` become `A-Z`).
pub open spec fn ascii_upper_byte(b: u8) -> u8 {
    if 97 <= b <= 122 {
        (b - 32) as u8
    } else {
        b
    }
}

proof fn lemma_upper_hex_digit(n: int)
    requires
        0 <= n < 16,
    ensures
        is_hex_digit_byte(upper_hex_digit(n) as u8),
        hex_digit_value(upper_hex_digit(n) as u8) == n,
        '\0' <= upper_hex_digit(n) <= '\u{7f}',
{
}

proof fn lemma_byte_hex(b: u8)
    ensures
        byte_hex(b).len() == 2,
        is_hex_digit_byte(byte_hex(b)[0] as u8),
        is_hex_digit_byte(byte_hex(b)[1] as u8),
        16 * hex_digit_value(byte_hex(b)[0] as u8) + hex_digit_value(byte_hex(b)[1] as u8) == b,
        '\0' <= byte_hex(b)[0] <= '\u{7f}',
        '\0' <= byte_hex(b)[1] <= '\u{7f}',
{
    lemma_upper_hex_digit(b as int / 16);
    lemma_upper_hex_digit(b as int % 16);
}

/// Formatting a color and parsing the text back gives the same color, made
/// opaque: `hex_to_argb(&argb_to_hex(c)) == Ok(Argb { alpha: 255, ..c })`.
pub proof fn lemma_hex_text_parses_back(c: Argb)
    ensures
        is_hex_color(encode_utf8(hex_text(c))),
        parsed_color(encode_utf8(hex_text(c))) == (Argb { alpha: 255, red: c.red, green: c.green, blue: c.blue }),
{
    let t = hex_text(c);
    lemma_byte_hex(c.red);
    lemma_byte_hex(c.green);
    lemma_byte_hex(c.blue);
    assert(t.len() == 7);
    assert(t[1] == byte_hex(c.red)[0] && t[2] == byte_hex(c.red)[1]);
    assert(t[3] == byte_hex(c.green)[0] && t[4] == byte_hex(c.green)[1]);
    assert(t[5] == byte_hex(c.blue)[0] && t[6] == byte_hex(c.blue)[1]);
    assert(is_ascii_chars(t));
    is_ascii_chars_encode_utf8(t);
    let bytes = encode_utf8(t);
    assert(bytes[0] == t[0] as u8);
    assert(bytes[0] == 35);
    let body = hex_body(bytes);
    assert(body.len() == 6);
    assert forall|i: int| 0 <= i < 6 implies is_hex_digit_byte(#[trigger] body[i]) by {
        assert(body[i] == bytes[i + 1]);
        assert(bytes[i + 1] == t[i + 1] as u8);
    }
    assert(body[0] == t[1] as u8 && body[1] == t[2] as u8);
    assert(body[2] == t[3] as u8 && body[3] == t[4] as u8);
    assert(body[4] == t[5] as u8 && body[5] == t[6] as u8);
}

/// Parsing well-formed hex text and formatting the color again gives `#`
/// followed by the same six digits in uppercase.
pub proof fn lemma_parsed_formats_upper(bytes: Seq<u8>)
    requires
        is_hex_color(bytes),
    ensures
        hex_text(parsed_color(bytes)).len() == 7,
        hex_text(parsed_color(bytes))[0] == '#',
        forall|i: int|
            0 <= i < 6 ==> #[trigger] hex_text(parsed_color(bytes))[i + 1] as u8 == ascii_upper_byte(
                hex_body(bytes)[i],
            ),
{
    let s = hex_body(bytes);
    let c = parsed_color(bytes);
    let t = hex_text(c);
    assert forall|i: int| 0 <= i < 6 implies #[trigger] t[i + 1] as u8 == ascii_upper_byte(s[i]) by {
        let k = i - i % 2;
        assert(is_hex_digit_byte(s[k]) && is_hex_digit_byte(s[k + 1]));
        let v = hex_pair_value(s, k);
        assert(v / 16 == hex_digit_value(s[k]) && v % 16 == hex_digit_value(s[k + 1]));
        if k == 0 {
            assert(v == c.red);
        } else if k == 2 {
            assert(v == c.green);
        } else {
            assert(v == c.blue);
        }
    }
}

// ── xterm-256 ───────────────────────────────────────────────────────────

/// The sixteen standard ANSI colors, as (r, g, b).
pub open spec fn base16_rgb(i: int) -> (int, int, int) {
    if i == 0 {
        (0x00, 0x00, 0x00)
    } else if i == 1 {
        (0x80, 0x00, 0x00)
    } else if i == 2 {
        (0x00, 0x80, 0x00)
    } else if i == 3 {
        (0x80, 0x80, 0x00)
    } else if i == 4 {
        (0x00, 0x00, 0x80)
    } else if i == 5 {
        (0x80, 0x00, 0x80)
    } else if i == 6 {
        (0x00, 0x80, 0x80)
    } else if i == 7 {
        (0xc0, 0xc0, 0xc0)
    } else if i == 8 {
        (0x80, 0x80, 0x80)
    } else if i == 9 {
        (0xff, 0x00, 0x00)
    } else if i == 10 {
        (0x00, 0xff, 0x00)
    } else if i == 11 {
        (0xff, 0xff, 0x00)
    } else if i == 12 {
        (0x00, 0x00, 0xff)
    } else if i == 13 {
        (0xff, 0x00, 0xff)
    } else if i == 14 {
        (0x00, 0xff, 0xff)
    } else {
        (0xff, 0xff, 0xff)
    }
}

/// Channel levels of the 6×6×6 color cube.
pub open spec fn cube_level(i: int) -> int {
    if i == 0 {
        0
    } else if i == 1 {
        95
    } else if i == 2 {
        135
    } else if i == 3 {
        175
    } else if i == 4 {
        215
    } else {
        255
    }
}

/// The color of xterm-256 palette entry `idx` (`0 <= idx < 256`): the 16
/// standard colors, the 6×6×6 cube from 16, the 24-step gray ramp from 232.
pub open spec fn ansi256_rgb(idx: int) -> (int, int, int) {
    if idx < 16 {
        base16_rgb(idx)
    } else if idx < 232 {
        let n = idx - 16;
        (cube_level(n / 36), cube_level((n / 6) % 6), cube_level(n % 6))
    } else {
        let v = 8 + (idx - 232) * 10;
        (v, v, v)
    }
}

/// Squared RGB distance between `c` and palette entry `idx`.
pub open spec fn ansi256_distance(c: Argb, idx: int) -> int {
    let (cr, cg, cb) = ansi256_rgb(idx);
    (c.red - cr) * (c.red - cr) + (c.green - cg) * (c.green - cg) + (c.blue - cb) * (c.blue - cb)
}

/// `idx` is the lowest-numbered entry among those nearest to `c`.
pub open spec fn is_nearest_ansi256(c: Argb, idx: int) -> bool {
    &&& 0 <= idx < 256
    &&& forall|j: int| 0 <= j < 256 ==> ansi256_distance(c, idx) <= #[trigger] ansi256_distance(c, j)
    &&& forall|j: int| 0 <= j < idx ==> ansi256_distance(c, idx) < #[trigger] ansi256_distance(c, j)
}

fn square(x: i32) -> (s: i32)
    requires
        -255 <= x <= 255,
    ensures
        s == x * x,
        0 <= s <= 65025,
{
    assert(0 <= x * x <= 65025) by (nonlinear_arith)
        requires
            -255 <= x <= 255,
    ;
    x * x
}

fn base16_entry(i: u32) -> (rgb: (i32, i32, i32))
    requires
        i < 16,
    ensures
        (rgb.0 as int, rgb.1 as int, rgb.2 as int) == base16_rgb(i as int),
{
    match i {
        0 => (0x00, 0x00, 0x00),
        1 => (0x80, 0x00, 0x00),
        2 => (0x00, 0x80, 0x00),
        3 => (0x80, 0x80, 0x00),
        4 => (0x00, 0x00, 0x80),
        5 => (0x80, 0x00, 0x80),
        6 => (0x00, 0x80, 0x80),
        7 => (0xc0, 0xc0, 0xc0),
        8 => (0x80, 0x80, 0x80),
        9 => (0xff, 0x00, 0x00),
        10 => (0x00, 0xff, 0x00),
        11 => (0xff, 0xff, 0x00),
        12 => (0x00, 0x00, 0xff),
        13 => (0xff, 0x00, 0xff),
        14 => (0x00, 0xff, 0xff),
        _ => (0xff, 0xff, 0xff),
    }
}

fn cube_entry(i: u32) -> (v: i32)
    requires
        i < 6,
    ensures
        v as int == cube_level(i as int),
{
    match i {
        0 => 0,
        1 => 95,
        2 => 135,
        3 => 175,
        4 => 215,
        _ => 255,
    }
}

fn ansi256_entry(idx: u32) -> (rgb: (i32, i32, i32))
    requires
        idx < 256,
    ensures
        (rgb.0 as int, rgb.1 as int, rgb.2 as int) == ansi256_rgb(idx as int),
        0 <= rgb.0 <= 255,
        0 <= rgb.1 <= 255,
        0 <= rgb.2 <= 255,
{
    if idx < 16 {
        base16_entry(idx)
    } else if idx < 232 {
        let n = idx - 16;
        (cube_entry(n / 36), cube_entry((n / 6) % 6), cube_entry(n % 6))
    } else {
        let v = 8 + (idx - 232) as i32 * 10;
        (v, v, v)
    }
}

/// Nearest xterm-256 index for a hex color (exact-distance scan over the 16
/// standard colors, the 6×6×6 cube and the grayscale ramp; ties go to the
/// lowest index). Used for cmus theming.
pub fn hex_to_ansi256_exact(hex: &str) -> (r: Result<u8, HexParseError>)
    ensures
        match r {
            Ok(idx) => is_hex_color(hex.spec_bytes()) && is_nearest_ansi256(
                parsed_color(hex.spec_bytes()),
                idx as int,
            ),
            Err(e) => !is_hex_color(hex.spec_bytes()) && e.0@ == hex@,
        },
{
    let c = match hex_to_argb(hex) {
        Ok(c) => c,
        Err(e) => return Err(e),
    };
    let (r, g, b) = (c.red as i32, c.green as i32, c.blue as i32);
    let mut best_d: i32 = i32::MAX;
    let mut best: u32 = 0;
    let mut idx: u32 = 0;
    while idx < 256
        invariant
            idx <= 256,
            r == c.red,
            g == c.green,
            b == c.blue,
            idx == 0 ==> best_d == i32::MAX && best == 0,
            idx > 0 ==> best < idx && best_d == ansi256_distance(c, best as int),
            forall|j: int| 0 <= j < idx ==> best_d <= #[trigger] ansi256_distance(c, j),
            forall|j: int| 0 <= j < best ==> best_d < #[trigger] ansi256_distance(c, j),
        decreases 256 - idx,
    {
        let (cr, cg, cb) = ansi256_entry(idx);
        let d = square(r - cr) + square(g - cg) + square(b - cb);
        assert(d == ansi256_distance(c, idx as int));
        if d < best_d {
            best_d = d;
            best = idx;
        }
        idx = idx + 1;
    }
    Ok(best as u8)
}

/// The standard colors follow the ANSI numbering: bit 0 of the index is
/// red, bit 1 green, bit 2 blue, at half intensity (0x80) for 1–6 and full
/// intensity (0xff) for 9–14; 0 is black, 15 white, 7 light gray (0xc0) and
/// 8 dark gray (0x80).
pub proof fn lemma_standard_colors_ansi(i: int)
    requires
        0 <= i < 16,
    ensures
        i != 7 && i != 8 ==> {
            let level = if i < 8 { 0x80int } else { 0xffint };
            ansi256_rgb(i) == (
                if i % 2 == 1 { level } else { 0 },
                if (i / 2) % 2 == 1 { level } else { 0 },
                if (i / 4) % 2 == 1 { level } else { 0 },
            )
        },
        i == 7 ==> ansi256_rgb(i) == (0xc0int, 0xc0int, 0xc0int),
        i == 8 ==> ansi256_rgb(i) == (0x80int, 0x80int, 0x80int),
{
}

} // verus!
