//! Template rendering for matugen-style configs: the nested
//! `{colors: {key: {default/dark/light: {hex, hex_stripped, rgb, rgba}}}}`
//! color data and a small `{{...}}` expression engine over it.

use vstd::prelude::*;
use vstd::string::StringSliceAdditionalSpecFns;
use vstd::utf8::{
    decode_utf8, encode_utf8, encode_utf8_decode_utf8, encode_utf8_valid_utf8,
    is_char_boundary_iff_not_is_continuation_byte, is_continuation_byte,
};

use crate::color::{
    ansi256_distance, digit_value, hex_digit_value, hex_to_ansi256_exact, hex_to_argb, is_hex_color,
    is_hex_digit, is_hex_digit_byte, is_nearest_ansi256, parsed_color, rgb_digits, strip_hashes, Argb,
};
use crate::palette::entries_view;
use crate::palette::{first_index, lemma_first_index, lemma_first_index_at};
use crate::text::{
    chars_eq_lit, chars_of, find_from, first_occurrence, has_prefix, is_first_occurrence, push_char,
    split_chars, split_on, starts_with, str_eq, string_of_chars, trim_chars, trim_white,
};

verus! {

// ── color fields ────────────────────────────────────────────────────────

/// Leading `#` characters removed.
pub open spec fn strip_hash_chars(cs: Seq<char>) -> Seq<char>
    decreases cs.len(),
{
    if cs.len() > 0 && cs[0] == '#' {
        strip_hash_chars(cs.drop_first())
    } else {
        cs
    }
}

/// Stripping leading `#` characters strips the same `#` bytes from the encoding.
proof fn lemma_strip_hashes_encode(cs: Seq<char>)
    ensures
        strip_hashes(encode_utf8(cs)) == encode_utf8(strip_hash_chars(cs)),
    decreases cs.len(),
{
    if cs.len() > 0 {
        let c = cs[0] as u32;
        vstd::utf8::char_is_scalar(cs[0]);
        let e = encode_utf8(cs);
        assert(e =~= vstd::utf8::encode_scalar(c) + encode_utf8(cs.drop_first()));
        if cs[0] == '#' {
            assert(c == 35);
            assert((35u32 & 0x7F) as u8 == 35u8) by (bit_vector);
            assert(e.drop_first() =~= encode_utf8(cs.drop_first()));
            lemma_strip_hashes_encode(cs.drop_first());
        } else {
            vstd::utf8::char_u32_cast(cs[0], c);
            vstd::utf8::char_u32_cast('#', 35);
            assert(c != 35);
            assert(e[0] != 35) by {
                if c <= 0x7F {
                    assert(c <= 0x7F ==> (c & 0x7F) as u8 == c as u8) by (bit_vector);
                } else if c <= 0x7FF {
                    assert((0xC0u8 | ((c >> 6) & 0x1F) as u8) >= 0xC0) by (bit_vector);
                } else if c <= 0xFFFF {
                    assert((0xE0u8 | ((c >> 12) & 0x0F) as u8) >= 0xE0) by (bit_vector);
                } else {
                    assert((0xF0u8 | ((c >> 18) & 0x7) as u8) >= 0xF0) by (bit_vector);
                }
            }
        }
    }
}

/// Leading `#`s removed; of eight bytes left, the first six (which requires
/// byte 6 to start a character); at least six bytes left; and the two-byte
/// digit slices at bytes 0, 2 and 4 lie on character boundaries.
pub open spec fn fields_ok(bytes: Seq<u8>) -> bool {
    let h = strip_hashes(bytes);
    let d = rgb_digits(bytes);
    &&& d.len() >= 6
    &&& (h.len() == 8 ==> !is_continuation_byte(h[6]))
    &&& !is_continuation_byte(d[2])
    &&& !is_continuation_byte(d[4])
    &&& (d.len() > 6 ==> !is_continuation_byte(d[6]))
}

/// `u8::from_str_radix(two bytes, 16).unwrap_or(0)`: two hex digits, or a
/// `+` sign and one hex digit; anything else reads as 0.
pub open spec fn radix_pair(d: Seq<u8>, i: int) -> int {
    if is_hex_digit_byte(d[i]) && is_hex_digit_byte(d[i + 1]) {
        16 * hex_digit_value(d[i]) + hex_digit_value(d[i + 1])
    } else if d[i] == 43 && is_hex_digit_byte(d[i + 1]) {
        hex_digit_value(d[i + 1])
    } else {
        0
    }
}

/// Decimal digits of a natural number.
pub open spec fn decimal(n: nat) -> Seq<char>
    decreases n,
{
    if n < 10 {
        seq![(48 + n) as char]
    } else {
        decimal(n / 10) + seq![(48 + n % 10) as char]
    }
}

/// `r, g, b` of the digit pairs.
pub open spec fn rgb_text(d: Seq<u8>) -> Seq<char> {
    decimal(radix_pair(d, 0) as nat) + ", "@ + decimal(radix_pair(d, 2) as nat) + ", "@ + decimal(
        radix_pair(d, 4) as nat,
    )
}

/// The four textual forms of a color.
#[derive(Debug, Clone)]
pub struct ColorFields {
    pub hex: String,
    pub hex_stripped: String,
    pub rgb: String,
    pub rgba: String,
}

/// The stripped hex text of a color (specification).
pub open spec fn stripped_text(hex: Seq<char>) -> Seq<char> {
    decode_utf8(rgb_digits(encode_utf8(hex)))
}

fn push_decimal(out: &mut String, n: u8)
    ensures
        final(out)@ == old(out)@ + decimal(n as nat),
{
    let ghost start = out@;
    if n >= 100 {
        let c1 = ((n / 100) + 48) as char;
        let c2 = (((n / 10) % 10) + 48) as char;
        let c3 = ((n % 10) + 48) as char;
        push_char(out, c1);
        push_char(out, c2);
        push_char(out, c3);
        assert(decimal((n / 100) as nat) == seq![c1]);
        assert(decimal((n / 10) as nat) == seq![c1] + seq![c2]);
        assert(decimal(n as nat) == seq![c1] + seq![c2] + seq![c3]);
        assert(out@ =~= start + decimal(n as nat));
    } else if n >= 10 {
        let c1 = ((n / 10) + 48) as char;
        let c2 = ((n % 10) + 48) as char;
        push_char(out, c1);
        push_char(out, c2);
        assert(decimal((n / 10) as nat) == seq![c1]);
        assert(decimal(n as nat) == seq![c1] + seq![c2]);
        assert(out@ =~= start + decimal(n as nat));
    } else {
        let c1 = (n + 48) as char;
        push_char(out, c1);
        assert(decimal(n as nat) == seq![c1]);
        assert(out@ =~= start + decimal(n as nat));
    }
}

fn read_pair(d: &[u8], i: usize) -> (v: u8)
    requires
        i + 1 < d@.len(),
    ensures
        v as int == radix_pair(d@, i as int),
{
    let a = d[i];
    let b = d[i + 1];
    if is_hex_digit(a) && is_hex_digit(b) {
        16 * digit_value(a) + digit_value(b)
    } else if a == 43 && is_hex_digit(b) {
        digit_value(b)
    } else {
        0
    }
}

/// The `hex`, `hex_stripped`, `rgb` and `rgba` fields of a color value.
pub fn fields(hex: &str) -> (f: ColorFields)
    requires
        fields_ok(hex.spec_bytes()),
    ensures
        f.hex@ == hex@,
        f.hex_stripped@ == stripped_text(hex@),
        f.rgb@ == rgb_text(rgb_digits(hex.spec_bytes())),
        f.rgba@ == rgb_text(rgb_digits(hex.spec_bytes())) + ", 255"@,
{
    let cs = chars_of(hex);
    let n = cs.len();
    let mut k: usize = 0;
    assert(cs@.skip(0) =~= cs@);
    while k < n && cs[k] == '#'
        invariant
            cs@ == hex@,
            n == cs@.len(),
            0 <= k <= n,
            strip_hash_chars(cs@) == strip_hash_chars(cs@.skip(k as int)),
        decreases n - k,
    {
        assert(cs@.skip(k as int).drop_first() =~= cs@.skip(k + 1));
        k = k + 1;
    }
    let mut stripped = String::new();
    let mut i: usize = k;
    while i < n
        invariant
            cs@ == hex@,
            n == cs@.len(),
            0 <= k <= i <= n,
            stripped@ == cs@.subrange(k as int, i as int),
        decreases n - i,
    {
        push_char(&mut stripped, cs[i]);
        assert(stripped@ =~= cs@.subrange(k as int, i + 1));
        i = i + 1;
    }
    proof {
        assert(stripped@ =~= cs@.skip(k as int));
        assert(strip_hash_chars(cs@.skip(k as int)) == cs@.skip(k as int));
        lemma_strip_hashes_encode(hex@);
        encode_utf8_valid_utf8(stripped@);
    }
    let s = stripped.as_str();
    let ghost h = strip_hashes(hex.spec_bytes());
    assert(s.spec_bytes() == h);
    let ghost d = rgb_digits(hex.spec_bytes());
    let body: &str = if s.as_bytes().len() == 8 {
        proof {
            is_char_boundary_iff_not_is_continuation_byte(h, 6);
        }
        let (front, _) = s.split_at(6);
        assert(front.spec_bytes() =~= h.take(6));
        assert(h.len() == 8);
        assert(d == h.take(6));
        assert(front.spec_bytes() == d);
        front
    } else {
        assert(s.spec_bytes() == d);
        s
    };
    assert(body.spec_bytes() == d);
    proof {
        encode_utf8_decode_utf8(body@);
    }
    let bytes = body.as_bytes();
    let r = read_pair(bytes, 0);
    let g = read_pair(bytes, 2);
    let b = read_pair(bytes, 4);
    let mut rgb = String::new();
    push_decimal(&mut rgb, r);
    rgb.append(", ");
    push_decimal(&mut rgb, g);
    rgb.append(", ");
    push_decimal(&mut rgb, b);
    let mut rgba = rgb.clone();
    rgba.append(", 255");
    ColorFields { hex: hex.to_string(), hex_stripped: body.to_string(), rgb, rgba }
}

// ── nested color data ───────────────────────────────────────────────────

/// Template colors: for each key, its (default, dark, light) hex values.
#[derive(Debug, Clone)]
pub struct NestedColors {
    pub entries: Vec<(String, (String, String, String))>,
}

/// (default, dark, light) as character sequences.
pub type TripleView = (Seq<char>, Seq<char>, Seq<char>);

/// The view of nested color entries.
pub open spec fn nested_view(es: Seq<(String, (String, String, String))>) -> Seq<(Seq<char>, TripleView)> {
    es.map_values(|e: (String, (String, String, String))| (e.0@, (e.1.0@, e.1.1@, e.1.2@)))
}

/// The colors stored under a key (the first entry with that key).
pub open spec fn nested_lookup(es: Seq<(Seq<char>, TripleView)>, key: Seq<char>) -> Option<TripleView> {
    match first_index(es, key) {
        Some(i) => Some(es[i].1),
        None => None,
    }
}

impl NestedColors {
    /// The entries as character sequences.
    pub open spec fn view_entries(&self) -> Seq<(Seq<char>, TripleView)> {
        nested_view(self.entries@)
    }

    /// The colors stored under `key`.
    pub fn lookup(&self, key: &str) -> (r: Option<&(String, String, String)>)
        ensures
            match r {
                Some(t) => nested_lookup(self.view_entries(), key@) == Some((t.0@, t.1@, t.2@)),
                None => nested_lookup(self.view_entries(), key@) is None,
            },
    {
        let ghost es = self.view_entries();
        let mut i: usize = 0;
        while i < self.entries.len()
            invariant
                es == self.view_entries(),
                0 <= i <= self.entries@.len(),
                forall|j: int| 0 <= j < i ==> #[trigger] es[j].0 != key@,
            decreases self.entries@.len() - i,
        {
            if str_eq(self.entries[i].0.as_str(), key) {
                proof {
                    lemma_first_index_at(es, key@, i as int);
                }
                return Some(&self.entries[i].1);
            }
            i = i + 1;
        }
        proof {
            lemma_first_index(es, key@);
        }
        None
    }
}

// ── expressions ─────────────────────────────────────────────────────────

/// The color of one mode: `default`, `dark` or `light`.
pub open spec fn mode_hex(v: TripleView, mode: Seq<char>) -> Option<Seq<char>> {
    if mode == "default"@ {
        Some(v.0)
    } else if mode == "dark"@ {
        Some(v.1)
    } else if mode == "light"@ {
        Some(v.2)
    } else {
        None
    }
}

/// The dotted path after `colors.`.
pub open spec fn color_path(expr: Seq<char>) -> Seq<Seq<char>> {
    split_on(expr.skip("colors."@.len() as int), '.')
}

/// The color value a `colors.<key>.<mode>.<format>` expression selects.
pub open spec fn expr_color(expr: Seq<char>, es: Seq<(Seq<char>, TripleView)>) -> Option<Seq<char>> {
    if expr != "image"@ && has_prefix(expr, "colors."@) && color_path(expr).len() == 3 {
        match nested_lookup(es, color_path(expr)[0]) {
            Some(v) => mode_hex(v, color_path(expr)[1]),
            None => None,
        }
    } else {
        None
    }
}

/// One textual form of a color: `hex`, `hex_stripped`, `rgb` or `rgba`.
pub open spec fn field_value(hex: Seq<char>, field: Seq<char>) -> Option<Seq<char>> {
    let d = rgb_digits(encode_utf8(hex));
    if field == "hex"@ {
        Some(hex)
    } else if field == "hex_stripped"@ {
        Some(stripped_text(hex))
    } else if field == "rgb"@ {
        Some(rgb_text(d))
    } else if field == "rgba"@ {
        Some(rgb_text(d) + ", 255"@)
    } else {
        None
    }
}

/// What an expression renders to: `image` gives the image value,
/// `colors.<key>.<mode>.<format>` the selected form of the selected color;
/// anything else is unresolved.
pub open spec fn replacement(expr: Seq<char>, es: Seq<(Seq<char>, TripleView)>, image: Seq<char>) -> Option<Seq<char>> {
    if expr == "image"@ {
        Some(image)
    } else {
        match expr_color(expr, es) {
            Some(h) => field_value(h, color_path(expr)[2]),
            None => None,
        }
    }
}

/// `{{`.
pub open spec fn open_braces() -> Seq<char> {
    seq!['{', '{']
}

/// `}}`.
pub open spec fn close_braces() -> Seq<char> {
    seq!['}', '}']
}

/// Rendering from position `pos` on: the text, and the unresolved
/// expressions in order. Each `{{ expr }}` (expression trimmed) is replaced
/// by its value; an unresolved one is kept verbatim and reported; text after
/// an unmatched `{{` is kept as it is.
pub open spec fn render_from(
    cs: Seq<char>,
    pos: int,
    es: Seq<(Seq<char>, TripleView)>,
    image: Seq<char>,
) -> (Seq<char>, Seq<Seq<char>>)
    decreases cs.len() - pos,
{
    if pos < 0 || pos > cs.len() {
        (Seq::empty(), Seq::empty())
    } else {
        match first_occurrence(cs, open_braces(), pos) {
            None => (cs.skip(pos), Seq::empty()),
            Some(start) => match first_occurrence(cs, close_braces(), start + 2) {
                None => (cs.skip(pos), Seq::empty()),
                Some(close) => {
                    let expr = trim_white(cs.subrange(start + 2, close));
                    let tail = render_from(cs, close + 2, es, image);
                    match replacement(expr, es, image) {
                        Some(r) => (cs.subrange(pos, start) + r + tail.0, tail.1),
                        None => (cs.subrange(pos, close + 2) + tail.0, seq![expr] + tail.1),
                    }
                },
            },
        }
    }
}

/// Every color that rendering from `pos` on computes fields of can have them
/// computed (see `fields_ok`).
pub open spec fn render_safe_from(cs: Seq<char>, pos: int, es: Seq<(Seq<char>, TripleView)>) -> bool
    decreases cs.len() - pos,
{
    if pos < 0 || pos > cs.len() {
        true
    } else {
        match first_occurrence(cs, open_braces(), pos) {
            None => true,
            Some(start) => match first_occurrence(cs, close_braces(), start + 2) {
                None => true,
                Some(close) => {
                    let expr = trim_white(cs.subrange(start + 2, close));
                    (match expr_color(expr, es) {
                        Some(h) => fields_ok(encode_utf8(h)),
                        None => true,
                    }) && render_safe_from(cs, close + 2, es)
                },
            },
        }
    }
}

// ── rendering ───────────────────────────────────────────────────────────

/// Whether the fields of a color value can be computed (`fields_ok`).
pub fn fields_ok_exec(hex: &str) -> (r: bool)
    ensures
        r == fields_ok(hex.spec_bytes()),
{
    let all = hex.as_bytes();
    let n = all.len();
    let mut k: usize = 0;
    assert(all@.skip(0) =~= all@);
    while k < n && all[k] == 35
        invariant
            all@ == hex.spec_bytes(),
            n == all@.len(),
            0 <= k <= n,
            strip_hashes(all@) == strip_hashes(all@.skip(k as int)),
        decreases n - k,
    {
        assert(all@.skip(k as int).drop_first() =~= all@.skip(k + 1));
        k = k + 1;
    }
    let ghost h = all@.skip(k as int);
    assert(strip_hashes(h) == h);
    let hl = n - k;
    let dl = if hl == 8 { 6 } else { hl };
    if dl < 6 {
        return false;
    }
    let cont = |b: u8| -> (r: bool)
        ensures
            r == is_continuation_byte(b),
        { 0x80 <= b && b <= 0xbf };
    if hl == 8 && cont(all[k + 6]) {
        return false;
    }
    if cont(all[k + 2]) || cont(all[k + 4]) {
        return false;
    }
    if dl > 6 && cont(all[k + 6]) {
        return false;
    }
    true
}

fn color_of_expr(expr: &Vec<char>, nested: &NestedColors) -> (r: Option<(String, Vec<char>)>)
    ensures
        match r {
            Some((h, field)) => expr_color(expr@, nested.view_entries()) == Some(h@) && field@ == color_path(
                expr@,
            )[2],
            None => expr_color(expr@, nested.view_entries()) is None,
        },
{
    proof {
        reveal_strlit("colors.");
    }
    if chars_eq_lit(expr, "image") {
        return None;
    }
    let prefix = chars_of("colors.");
    let pl = prefix.len();
    if expr.len() < pl {
        return None;
    }
    let mut i: usize = 0;
    while i < pl
        invariant
            prefix@ == "colors."@,
            pl == prefix@.len(),
            pl <= expr@.len(),
            0 <= i <= pl,
            forall|j: int| 0 <= j < i ==> expr@[j] == prefix@[j],
        decreases pl - i,
    {
        if expr[i] != prefix[i] {
            assert(expr@.subrange(0, pl as int)[i as int] != prefix@[i as int]);
            return None;
        }
        i = i + 1;
    }
    assert(expr@.subrange(0, pl as int) =~= prefix@);
    let mut path: Vec<char> = Vec::new();
    let mut j: usize = pl;
    while j < expr.len()
        invariant
            pl <= j <= expr@.len(),
            path@ == expr@.subrange(pl as int, j as int),
        decreases expr@.len() - j,
    {
        path.push(expr[j]);
        assert(path@ =~= expr@.subrange(pl as int, j + 1));
        j = j + 1;
    }
    assert(path@ =~= expr@.skip(pl as int));
    let parts = split_chars(&path, '.');
    if parts.len() != 3 {
        return None;
    }
    let key = string_of_chars(&parts[0]);
    let triple = match nested.lookup(key.as_str()) {
        Some(t) => t,
        None => return None,
    };
    let hex = if chars_eq_lit(&parts[1], "default") {
        triple.0.clone()
    } else if chars_eq_lit(&parts[1], "dark") {
        triple.1.clone()
    } else if chars_eq_lit(&parts[1], "light") {
        triple.2.clone()
    } else {
        return None;
    };
    let field = parts[2].clone();
    Some((hex, field))
}

fn replacement_exec(expr: &Vec<char>, nested: &NestedColors, image: &str) -> (r: Option<String>)
    requires
        expr_color(expr@, nested.view_entries()) matches Some(h) ==> fields_ok(encode_utf8(h)),
    ensures
        match r {
            Some(t) => replacement(expr@, nested.view_entries(), image@) == Some(t@),
            None => replacement(expr@, nested.view_entries(), image@) is None,
        },
{
    if chars_eq_lit(expr, "image") {
        return Some(image.to_string());
    }
    let (hex, field) = match color_of_expr(expr, nested) {
        Some(p) => p,
        None => return None,
    };
    let f = fields(hex.as_str());
    if chars_eq_lit(&field, "hex") {
        Some(f.hex)
    } else if chars_eq_lit(&field, "hex_stripped") {
        Some(f.hex_stripped)
    } else if chars_eq_lit(&field, "rgb") {
        Some(f.rgb)
    } else if chars_eq_lit(&field, "rgba") {
        Some(f.rgba)
    } else {
        None
    }
}

fn push_range(out: &mut String, cs: &Vec<char>, a: usize, b: usize)
    requires
        a <= b <= cs@.len(),
    ensures
        final(out)@ == old(out)@ + cs@.subrange(a as int, b as int),
{
    let ghost start = out@;
    let mut i: usize = a;
    while i < b
        invariant
            a <= i <= b <= cs@.len(),
            out@ == start + cs@.subrange(a as int, i as int),
        decreases b - i,
    {
        push_char(out, cs[i]);
        assert(out@ =~= start + cs@.subrange(a as int, i + 1));
        i = i + 1;
    }
}

/// The views of a list of strings.
pub open spec fn strings_view(v: Seq<String>) -> Seq<Seq<char>> {
    v.map_values(|s: String| s@)
}

fn find_braces(cs: &Vec<char>, pos: usize) -> (r: Option<(usize, usize)>)
    requires
        pos <= cs@.len(),
    ensures
        match r {
            Some((start, close)) => first_occurrence(cs@, open_braces(), pos as int) == Some(start as int)
                && first_occurrence(cs@, close_braces(), start + 2) == Some(close as int)
                && pos <= start && start + 2 <= close && close + 2 <= cs@.len(),
            None => first_occurrence(cs@, open_braces(), pos as int) is None || (first_occurrence(
                cs@,
                open_braces(),
                pos as int,
            ) matches Some(start) && first_occurrence(cs@, close_braces(), start + 2) is None),
        },
{
    let n = cs.len();
    let open = vec!['{', '{'];
    let close = vec!['}', '}'];
    assert(open@ =~= open_braces());
    assert(close@ =~= close_braces());
    let start = match find_from(cs, &open, pos) {
        Some(s) => s,
        None => return None,
    };
    proof {
        let c = choose|i: int| is_first_occurrence(cs@, open_braces(), pos as int, i);
        assert(is_first_occurrence(cs@, open_braces(), pos as int, c));
        assert(c == start);
        assert(start + 2 <= cs@.len());
    }
    let cl = match find_from(cs, &close, start + 2) {
        Some(c) => c,
        None => return None,
    };
    proof {
        let from2 = start + 2;
        let c = choose|i: int| is_first_occurrence(cs@, close_braces(), from2, i);
        assert(is_first_occurrence(cs@, close_braces(), from2, c));
        assert(c == cl);
    }
    Some((start, cl))
}

/// Render `{{ colors.<key>.<mode>.<format> }}` and `{{ image }}` expressions;
/// unknown expressions stay verbatim and are returned, in order.
pub fn render_template(input: &str, nested: &NestedColors, image: &str) -> (r: (String, Vec<String>))
    requires
        render_safe_from(input@, 0, nested.view_entries()),
    ensures
        (r.0@, strings_view(r.1@)) == render_from(input@, 0, nested.view_entries(), image@),
{
    let ghost es = nested.view_entries();
    let cs = chars_of(input);
    let n = cs.len();
    let mut out = String::new();
    let mut missing: Vec<String> = Vec::new();
    let mut pos: usize = 0;
    let mut done = false;
    while !done
        invariant
            cs@ == input@,
            n == cs@.len(),
            es == nested.view_entries(),
            0 <= pos <= n,
            render_safe_from(cs@, pos as int, es),
            done ==> render_from(cs@, 0, es, image@) == (out@, strings_view(missing@)),
            !done ==> render_from(cs@, 0, es, image@) == (out@ + render_from(cs@, pos as int, es, image@).0,
                strings_view(missing@) + render_from(cs@, pos as int, es, image@).1),
        decreases n - pos + (if done { 0int } else { 1int }),
    {
        let ghost rest = render_from(cs@, pos as int, es, image@);
        match find_braces(&cs, pos) {
            None => {
                push_range(&mut out, &cs, pos, n);
                assert(cs@.subrange(pos as int, n as int) =~= cs@.skip(pos as int));
                assert(strings_view(missing@) + rest.1 =~= strings_view(missing@));
                done = true;
            },
            Some((start, close)) => {
                let mut expr_raw: Vec<char> = Vec::new();
                let mut k: usize = start + 2;
                while k < close
                    invariant
                        start + 2 <= k <= close <= n,
                        n == cs@.len(),
                        expr_raw@ == cs@.subrange(start + 2, k as int),
                    decreases close - k,
                {
                    expr_raw.push(cs[k]);
                    assert(expr_raw@ =~= cs@.subrange(start + 2, k + 1));
                    k = k + 1;
                }
                let expr = trim_chars(&expr_raw);
                let ghost tail = render_from(cs@, close + 2, es, image@);
                match replacement_exec(&expr, nested, image) {
                    Some(r) => {
                        let ghost before = out@;
                        push_range(&mut out, &cs, pos, start);
                        out.append(r.as_str());
                        assert(out@ + tail.0 =~= before + rest.0);
                    },
                    None => {
                        let ghost before = out@;
                        let ghost mbefore = strings_view(missing@);
                        push_range(&mut out, &cs, pos, close + 2);
                        let e = string_of_chars(&expr);
                        missing.push(e);
                        assert(strings_view(missing@) =~= mbefore.push(expr@));
                        assert(out@ + tail.0 =~= before + rest.0);
                        assert(strings_view(missing@) + tail.1 =~= mbefore + rest.1);
                    },
                }
                pos = close + 2;
            },
        }
    }
    (out, missing)
}

/// Whether `render_template` can render `input` (its precondition): every
/// color it computes the fields of passes `fields_ok`.
pub fn template_renders(input: &str, nested: &NestedColors) -> (r: bool)
    ensures
        r == render_safe_from(input@, 0, nested.view_entries()),
{
    let ghost es = nested.view_entries();
    let cs = chars_of(input);
    let n = cs.len();
    let mut pos: usize = 0;
    loop
        invariant
            cs@ == input@,
            n == cs@.len(),
            es == nested.view_entries(),
            0 <= pos <= n,
            render_safe_from(cs@, 0, es) == render_safe_from(cs@, pos as int, es),
        decreases n - pos,
    {
        match find_braces(&cs, pos) {
            None => {
                return true;
            },
            Some((start, close)) => {
                let mut expr_raw: Vec<char> = Vec::new();
                let mut k: usize = start + 2;
                while k < close
                    invariant
                        start + 2 <= k <= close <= n,
                        n == cs@.len(),
                        expr_raw@ == cs@.subrange(start + 2, k as int),
                    decreases close - k,
                {
                    expr_raw.push(cs[k]);
                    assert(expr_raw@ =~= cs@.subrange(start + 2, k + 1));
                    k = k + 1;
                }
                let expr = trim_chars(&expr_raw);
                match color_of_expr(&expr, nested) {
                    Some((hex, _)) => {
                        if !fields_ok_exec(hex.as_str()) {
                            return false;
                        }
                    },
                    None => {},
                }
                pos = close + 2;
            },
        }
    }
}

// ── building the nested data ───────────────────────────────────────────

/// The hex colors of material-colors' TonalSpot theme built from `source`:
/// its light scheme when `light`, else its dark scheme, as (role, `#rrggbb`).
pub uninterp spec fn theme_scheme_hex(source: Argb, light: bool) -> Seq<(Seq<char>, Seq<char>)>;

/// material-colors' `ThemeBuilder::with_source(source).build()`, one of its
/// two schemes (`Scheme::into_iter`), each color as `Argb::to_hex_with_pound`.
/// The result is named, not stated.
#[verifier::external_body]
fn theme_scheme_colors(source: Argb, light: bool) -> (r: Vec<(String, String)>)
    ensures
        entries_view(r@) == theme_scheme_hex(source, light),
{
    let argb = material_colors::color::Argb::new(source.alpha, source.red, source.green, source.blue);
    let theme = material_colors::theme::ThemeBuilder::with_source(argb).build();
    let scheme = if light { theme.schemes.light } else { theme.schemes.dark };
    scheme.into_iter().map(|(k, v)| (k, v.to_hex_with_pound())).collect()
}

/// A JSON object's members as (key, string value if the value is a string).
pub type JsonMembers = Seq<(Seq<char>, Option<Seq<char>>)>;

/// The view of JSON members.
pub open spec fn members_view(m: Seq<(String, Option<String>)>) -> JsonMembers {
    m.map_values(|e: (String, Option<String>)| (e.0@, match e.1 {
        Some(s) => Some(s@),
        None => None,
    }))
}

/// The object's keys are distinct (as in any JSON object map).
pub open spec fn distinct_keys(m: JsonMembers) -> bool {
    forall|i: int, j: int| 0 <= i < j < m.len() ==> #[trigger] m[i].0 != #[trigger] m[j].0
}

/// The member under `key`: `Some(string value or None)` when present.
pub open spec fn member(m: JsonMembers, key: Seq<char>) -> Option<Option<Seq<char>>> {
    match first_index(m, key) {
        Some(i) => Some(m[i].1),
        None => None,
    }
}

/// The fallback source color.
pub open spec fn default_source() -> Seq<char> {
    "#bac2de"@
}

/// The theme's source color: `source_color` if present, else `primary`, as a
/// string; the default when the member is missing or not a string.
pub open spec fn source_hex(m: JsonMembers) -> Seq<char> {
    match member(m, "source_color"@) {
        Some(v) => match v {
            Some(s) => s,
            None => default_source(),
        },
        None => match member(m, "primary"@) {
            Some(Some(s)) => s,
            _ => default_source(),
        },
    }
}

/// The opposite-mode colors: the other scheme of the theme built from the
/// source color, or nothing when the source is not a hex color.
pub open spec fn opposite_colors(m: JsonMembers, dark: bool) -> Seq<(Seq<char>, Seq<char>)> {
    let src = encode_utf8(source_hex(m));
    if is_hex_color(src) {
        theme_scheme_hex(parsed_color(src), dark)
    } else {
        Seq::empty()
    }
}

/// The value of the last entry with the key (a map collected from the pairs).
pub open spec fn last_value(es: Seq<(Seq<char>, Seq<char>)>, key: Seq<char>) -> Option<Seq<char>>
    decreases es.len(),
{
    if es.len() == 0 {
        None
    } else if es.last().0 == key {
        Some(es.last().1)
    } else {
        last_value(es.drop_last(), key)
    }
}

/// (default, dark, light) for one color: the value itself is the current
/// mode's, the opposite scheme's color of the same key (else the value) the
/// other mode's.
pub open spec fn triple_for(hex: Seq<char>, opp: Option<Seq<char>>, dark: bool) -> TripleView {
    let o = match opp {
        Some(x) => x,
        None => hex,
    };
    if dark {
        (hex, hex, o)
    } else {
        (hex, o, hex)
    }
}

/// One nested entry per member whose value is a string starting with `#`, in member order.
pub open spec fn color_entries(m: JsonMembers, opp: Seq<(Seq<char>, Seq<char>)>, dark: bool) -> Seq<(Seq<char>, TripleView)>
    decreases m.len(),
{
    if m.len() == 0 {
        Seq::empty()
    } else {
        let rest = color_entries(m.drop_last(), opp, dark);
        match m.last().1 {
            Some(h) => if has_prefix(h, "#"@) {
                rest.push((m.last().0, triple_for(h, last_value(opp, m.last().0), dark)))
            } else {
                rest
            },
            None => rest,
        }
    }
}

/// The first member value that is a string starting with `#`.
pub open spec fn first_color_value(m: JsonMembers) -> Option<Seq<char>>
    decreases m.len(),
{
    if m.len() == 0 {
        None
    } else {
        match first_color_value(m.drop_last()) {
            Some(h) => Some(h),
            None => match m.last().1 {
                Some(h) => if has_prefix(h, "#"@) {
                    Some(h)
                } else {
                    None
                },
                None => None,
            },
        }
    }
}

/// The nested template data of a flat colors object: one entry per color
/// member, plus a `source_color` entry (from `primary`, else the first color
/// value) when the object has no `source_color` color.
pub open spec fn nested_colors(m: JsonMembers, dark: bool) -> Seq<(Seq<char>, TripleView)> {
    let es = color_entries(m, opposite_colors(m, dark), dark);
    if first_index(es, "source_color"@) is Some {
        es
    } else {
        let fallback = match member(m, "primary"@) {
            Some(Some(p)) => Some(p),
            _ => first_color_value(m),
        };
        match fallback {
            Some(h) => es.push(("source_color"@, (h, h, h))),
            None => es,
        }
    }
}

fn member_exec<'a>(m: &'a [(String, Option<String>)], key: &str) -> (r: Option<Option<&'a String>>)
    ensures
        match r {
            Some(Some(s)) => member(members_view(m@), key@) == Some(Some(s@)),
            Some(None) => member(members_view(m@), key@) == Some(None::<Seq<char>>),
            None => member(members_view(m@), key@) is None,
        },
{
    let ghost mv = members_view(m@);
    let mut i: usize = 0;
    while i < m.len()
        invariant
            mv == members_view(m@),
            0 <= i <= m@.len(),
            forall|j: int| 0 <= j < i ==> #[trigger] mv[j].0 != key@,
        decreases m@.len() - i,
    {
        if str_eq(m[i].0.as_str(), key) {
            proof {
                lemma_first_index_at(mv, key@, i as int);
            }
            return match &m[i].1 {
                Some(s) => Some(Some(s)),
                None => Some(None),
            };
        }
        i = i + 1;
    }
    proof {
        lemma_first_index(mv, key@);
    }
    None
}

fn last_value_exec(es: &Vec<(String, String)>, key: &str) -> (r: Option<String>)
    ensures
        match r {
            Some(s) => last_value(entries_view(es@), key@) == Some(s@),
            None => last_value(entries_view(es@), key@) is None,
        },
{
    let ghost ev = entries_view(es@);
    let mut i: usize = es.len();
    assert(ev.take(i as int) =~= ev);
    while i > 0
        invariant
            ev == entries_view(es@),
            0 <= i <= es@.len(),
            last_value(ev, key@) == last_value(ev.take(i as int), key@),
        decreases i,
    {
        assert(ev.take(i as int).drop_last() =~= ev.take(i - 1));
        assert(ev.take(i as int).last() == ev[i - 1]);
        if str_eq(es[i - 1].0.as_str(), key) {
            return Some(es[i - 1].1.clone());
        }
        i = i - 1;
    }
    None
}

/// Build the nested template data from a flat colors object (its members in
/// order, with keys distinct as in any JSON object): the opposite mode's
/// colors come from material-colors' theme for the source color.
pub fn build_nested(colors: &[(String, Option<String>)], dark: bool) -> (r: NestedColors)
    requires
        distinct_keys(members_view(colors@)),
    ensures
        r.view_entries() == nested_colors(members_view(colors@), dark),
{
    let ghost m = members_view(colors@);
    let source: String = match member_exec(colors, "source_color") {
        Some(Some(s)) => s.clone(),
        Some(None) => "#bac2de".to_string(),
        None => match member_exec(colors, "primary") {
            Some(Some(s)) => s.clone(),
            _ => "#bac2de".to_string(),
        },
    };
    assert(source@ == source_hex(m));
    let opposite: Vec<(String, String)> = match hex_to_argb(source.as_str()) {
        Ok(argb) => theme_scheme_colors(argb, dark),
        Err(_) => Vec::new(),
    };
    assert(entries_view(opposite@) =~= opposite_colors(m, dark));
    let mut entries: Vec<(String, (String, String, String))> = Vec::new();
    let mut i: usize = 0;
    while i < colors.len()
        invariant
            m == members_view(colors@),
            entries_view(opposite@) == opposite_colors(m, dark),
            0 <= i <= colors@.len(),
            nested_view(entries@) == color_entries(m.take(i as int), opposite_colors(m, dark), dark),
        decreases colors@.len() - i,
    {
        assert(m.take(i + 1).drop_last() =~= m.take(i as int));
        assert(m.take(i + 1).last() == m[i as int]);
        match &colors[i].1 {
            Some(hex) => {
                if starts_with(hex.as_str(), "#") {
                    let opp = last_value_exec(&opposite, colors[i].0.as_str());
                    let o = match opp {
                        Some(x) => x,
                        None => hex.clone(),
                    };
                    let triple = if dark {
                        (hex.clone(), hex.clone(), o)
                    } else {
                        (hex.clone(), o, hex.clone())
                    };
                    let ghost before = entries@;
                    let e = (colors[i].0.clone(), triple);
                    entries.push(e);
                    assert(nested_view(entries@) =~= nested_view(before).push((e.0@, (e.1.0@, e.1.1@, e.1.2@))));
                }
            },
            None => {},
        }
        i = i + 1;
    }
    assert(m.take(i as int) =~= m);
    let mut nested = NestedColors { entries };
    let has_source = nested.lookup("source_color").is_some();
    if !has_source {
        let fallback: Option<String> = match member_exec(colors, "primary") {
            Some(Some(p)) => Some(p.clone()),
            _ => first_color_value_exec(colors),
        };
        match fallback {
            Some(h) => {
                let ghost before = nested.entries@;
                let e = ("source_color".to_string(), (h.clone(), h.clone(), h));
                nested.entries.push(e);
                assert(nested_view(nested.entries@) =~= nested_view(before).push((e.0@, (e.1.0@, e.1.1@, e.1.2@))));
            },
            None => {},
        }
    }
    nested
}

fn first_color_value_exec(colors: &[(String, Option<String>)]) -> (r: Option<String>)
    ensures
        match r {
            Some(h) => first_color_value(members_view(colors@)) == Some(h@),
            None => first_color_value(members_view(colors@)) is None,
        },
{
    let ghost m = members_view(colors@);
    let mut i: usize = 0;
    while i < colors.len()
        invariant
            m == members_view(colors@),
            0 <= i <= colors@.len(),
            first_color_value(m.take(i as int)) is None,
        decreases colors@.len() - i,
    {
        assert(m.take(i + 1).drop_last() =~= m.take(i as int));
        assert(m.take(i + 1).last() == m[i as int]);
        match &colors[i].1 {
            Some(h) => {
                if starts_with(h.as_str(), "#") {
                    proof {
                        lemma_first_color_value_prefix(m, i as int + 1);
                    }
                    return Some(h.clone());
                }
            },
            None => {},
        }
        i = i + 1;
    }
    assert(m.take(i as int) =~= m);
    None
}

proof fn lemma_first_color_value_prefix(m: JsonMembers, k: int)
    requires
        0 <= k <= m.len(),
        first_color_value(m.take(k)) is Some,
    ensures
        first_color_value(m) == first_color_value(m.take(k)),
    decreases m.len() - k,
{
    if k < m.len() {
        assert(m.take(k + 1).drop_last() =~= m.take(k));
        lemma_first_color_value_prefix(m, k + 1);
    } else {
        assert(m.take(k) =~= m);
    }
}

// ── options ─────────────────────────────────────────────────────────────

#[verifier::external_type_specification]
#[verifier::external_body]
pub struct ExPathBuf(std::path::PathBuf);

/// Options of one `render` run.
pub struct RenderOptions {
    pub config: std::path::PathBuf,
    pub colors: std::path::PathBuf,
    /// "dark" | "light" | None (= detect from the desktop settings)
    pub mode: Option<String>,
    /// `{{image}}` value; None → the state wallpaper path
    pub image: Option<String>,
    /// Restrict to these template names
    pub only: Option<Vec<String>>,
    pub run_post_hooks: bool,
    pub cmus: bool,
}

/// The mode a `--mode` value selects: `Some(true)` for `dark`,
/// `Some(false)` for `light`, `None` (detect) otherwise.
pub open spec fn mode_choice(mode: Option<Seq<char>>) -> Option<bool> {
    match mode {
        Some(m) => if m == "dark"@ {
            Some(true)
        } else if m == "light"@ {
            Some(false)
        } else {
            None
        },
        None => None,
    }
}

impl RenderOptions {
    /// Dark or light as requested, or `None` when the mode must be detected.
    pub fn requested_dark(&self) -> (r: Option<bool>)
        ensures
            r == mode_choice(match self.mode {
                Some(m) => Some(m@),
                None => None,
            }),
    {
        match &self.mode {
            Some(m) => if str_eq(m.as_str(), "dark") {
                Some(true)
            } else if str_eq(m.as_str(), "light") {
                Some(false)
            } else {
                None
            },
            None => None,
        }
    }

    /// Whether the template `name` is to be rendered: all are, unless a list
    /// restricts them to the names it holds.
    pub fn renders(&self, name: &str) -> (r: bool)
        ensures
            r == match self.only {
                Some(list) => strings_view(list@).contains(name@),
                None => true,
            },
    {
        match &self.only {
            Some(list) => {
                let mut i: usize = 0;
                while i < list.len()
                    invariant
                        self.only == Some(*list),
                        0 <= i <= list@.len(),
                        forall|j: int| 0 <= j < i ==> #[trigger] strings_view(list@)[j] != name@,
                    decreases list@.len() - i,
                {
                    if str_eq(list[i].as_str(), name) {
                        assert(strings_view(list@)[i as int] == name@);
                        assert(strings_view(list@).contains(name@));
                        return true;
                    }
                    i = i + 1;
                }
                false
            },
            None => true,
        }
    }
}

// ── cmus theme ──────────────────────────────────────────────────────────

/// The lowest-numbered xterm-256 entry nearest to `c`.
pub open spec fn nearest_ansi256(c: Argb) -> int {
    choose|i: int| is_nearest_ansi256(c, i)
}

proof fn lemma_nearest_unique(c: Argb, a: int, b: int)
    requires
        is_nearest_ansi256(c, a),
        is_nearest_ansi256(c, b),
    ensures
        a == b,
{
    if a < b {
        assert(ansi256_distance(c, b) < ansi256_distance(c, a));
    }
    if b < a {
        assert(ansi256_distance(c, a) < ansi256_distance(c, b));
    }
}

/// The 256-color index used for a color member: its string value (else the
/// fallback) mapped to the nearest xterm-256 entry, or 7 when it is not a
/// hex color.
pub open spec fn cmus_color(m: JsonMembers, key: Seq<char>, fallback: Seq<char>) -> int {
    let hex = match member(m, key) {
        Some(Some(s)) => s,
        _ => fallback,
    };
    if is_hex_color(encode_utf8(hex)) {
        nearest_ansi256(parsed_color(encode_utf8(hex)))
    } else {
        7
    }
}

fn cmus_color_exec(colors: &[(String, Option<String>)], key: &str, fallback: &str) -> (r: u8)
    ensures
        r as int == cmus_color(members_view(colors@), key@, fallback@),
{
    let hex: &str = match member_exec(colors, key) {
        Some(Some(s)) => s.as_str(),
        _ => fallback,
    };
    match hex_to_ansi256_exact(hex) {
        Ok(i) => {
            proof {
                let c = parsed_color(encode_utf8(hex@));
                let k = choose|i: int| is_nearest_ansi256(c, i);
                assert(is_nearest_ansi256(c, i as int));
                lemma_nearest_unique(c, k, i as int);
            }
            i
        },
        Err(_) => 7,
    }
}

/// The ten theme colors, in the order `on_surface`, `tertiary`, `primary`,
/// `on_primary`, `surface_container_highest`, `secondary`,
/// `surface_container`, `surface`, `error`, `surface_variant`.
pub open spec fn cmus_colors(m: JsonMembers) -> Seq<int> {
    seq![
        cmus_color(m, "on_surface"@, "#e6e1e1"@),
        cmus_color(m, "tertiary"@, "#8D76AD"@),
        cmus_color(m, "primary"@, "#B52755"@),
        cmus_color(m, "on_primary"@, "#ffffff"@),
        cmus_color(m, "surface_container_highest"@, "#4d4b4d"@),
        cmus_color(m, "secondary"@, "#A97363"@),
        cmus_color(m, "surface_container"@, "#201f20"@),
        cmus_color(m, "surface"@, "#141313"@),
        cmus_color(m, "error"@, "#ffb4ab"@),
        cmus_color(m, "surface_variant"@, "#49464a"@),
    ]
}

/// The cmus 256-color theme text for the ten theme colors.
pub open spec fn cmus_theme_text(v: Seq<u8>) -> Seq<char> {
    "# Matugen-generated theme for cmus\n# Matches the active system wallpaper palette (256-color compatible)\n\n# Background and text colors\nset color_win_bg=default\nset color_win_fg="@
        + decimal(v[0] as nat)
        + "\n\n# Directory and Category headers (views 1 and 2)\nset color_win_dir="@
        + decimal(v[1] as nat)
        + "\n\n# Selected row (focused window)\nset color_win_sel_bg="@
        + decimal(v[2] as nat)
        + "\nset color_win_sel_fg="@
        + decimal(v[3] as nat)
        + "\n\n# Selected row (unfocused window)\nset color_win_inactive_sel_bg="@
        + decimal(v[4] as nat)
        + "\nset color_win_inactive_sel_fg="@
        + decimal(v[0] as nat)
        + "\n\n# Currently playing track (unselected)\nset color_win_cur="@
        + decimal(v[5] as nat)
        + "\n\n# Currently playing track (selected)\nset color_win_cur_sel_bg="@
        + decimal(v[2] as nat)
        + "\nset color_win_cur_sel_fg="@
        + decimal(v[3] as nat)
        + "\n\n# Inactive currently playing track (selected)\nset color_win_inactive_cur_sel_bg="@
        + decimal(v[4] as nat)
        + "\nset color_win_inactive_cur_sel_fg="@
        + decimal(v[5] as nat)
        + "\n\n# Title line at the top\nset color_titleline_bg="@
        + decimal(v[6] as nat)
        + "\nset color_titleline_fg="@
        + decimal(v[2] as nat)
        + "\n\n# Status line at the bottom\nset color_statusline_bg="@
        + decimal(v[6] as nat)
        + "\nset color_statusline_fg="@
        + decimal(v[5] as nat)
        + "\n\n# Command line / search input at the very bottom\nset color_cmdline_bg="@
        + decimal(v[7] as nat)
        + "\nset color_cmdline_fg="@
        + decimal(v[0] as nat)
        + "\n\n# Warnings and errors\nset color_error="@
        + decimal(v[8] as nat)
        + "\nset color_info="@
        + decimal(v[5] as nat)
        + "\n\n# Separator lines\nset color_separator="@
        + decimal(v[9] as nat)
        + "\n"@
}

/// The cmus 256-color theme for a flat colors object: each slot takes the
/// nearest xterm-256 index of its color member (with the built-in fallback
/// colors; index 7 for a value that is not a hex color).
pub fn cmus_theme(colors: &[(String, Option<String>)]) -> (t: String)
    ensures
        t@ == cmus_theme_text(cmus_colors(members_view(colors@)).map_values(|x: int| x as u8)),
{
    let mut v: Vec<u8> = Vec::new();
    v.push(cmus_color_exec(colors, "on_surface", "#e6e1e1"));
    v.push(cmus_color_exec(colors, "tertiary", "#8D76AD"));
    v.push(cmus_color_exec(colors, "primary", "#B52755"));
    v.push(cmus_color_exec(colors, "on_primary", "#ffffff"));
    v.push(cmus_color_exec(colors, "surface_container_highest", "#4d4b4d"));
    v.push(cmus_color_exec(colors, "secondary", "#A97363"));
    v.push(cmus_color_exec(colors, "surface_container", "#201f20"));
    v.push(cmus_color_exec(colors, "surface", "#141313"));
    v.push(cmus_color_exec(colors, "error", "#ffb4ab"));
    v.push(cmus_color_exec(colors, "surface_variant", "#49464a"));
    assert(v@ =~= cmus_colors(members_view(colors@)).map_values(|x: int| x as u8));
    let mut out = String::new();
    out.append("# Matugen-generated theme for cmus\n# Matches the active system wallpaper palette (256-color compatible)\n\n# Background and text colors\nset color_win_bg=default\nset color_win_fg=");
    push_decimal(&mut out, v[0]);
    out.append("\n\n# Directory and Category headers (views 1 and 2)\nset color_win_dir=");
    push_decimal(&mut out, v[1]);
    out.append("\n\n# Selected row (focused window)\nset color_win_sel_bg=");
    push_decimal(&mut out, v[2]);
    out.append("\nset color_win_sel_fg=");
    push_decimal(&mut out, v[3]);
    out.append("\n\n# Selected row (unfocused window)\nset color_win_inactive_sel_bg=");
    push_decimal(&mut out, v[4]);
    out.append("\nset color_win_inactive_sel_fg=");
    push_decimal(&mut out, v[0]);
    out.append("\n\n# Currently playing track (unselected)\nset color_win_cur=");
    push_decimal(&mut out, v[5]);
    out.append("\n\n# Currently playing track (selected)\nset color_win_cur_sel_bg=");
    push_decimal(&mut out, v[2]);
    out.append("\nset color_win_cur_sel_fg=");
    push_decimal(&mut out, v[3]);
    out.append("\n\n# Inactive currently playing track (selected)\nset color_win_inactive_cur_sel_bg=");
    push_decimal(&mut out, v[4]);
    out.append("\nset color_win_inactive_cur_sel_fg=");
    push_decimal(&mut out, v[5]);
    out.append("\n\n# Title line at the top\nset color_titleline_bg=");
    push_decimal(&mut out, v[6]);
    out.append("\nset color_titleline_fg=");
    push_decimal(&mut out, v[2]);
    out.append("\n\n# Status line at the bottom\nset color_statusline_bg=");
    push_decimal(&mut out, v[6]);
    out.append("\nset color_statusline_fg=");
    push_decimal(&mut out, v[5]);
    out.append("\n\n# Command line / search input at the very bottom\nset color_cmdline_bg=");
    push_decimal(&mut out, v[7]);
    out.append("\nset color_cmdline_fg=");
    push_decimal(&mut out, v[0]);
    out.append("\n\n# Warnings and errors\nset color_error=");
    push_decimal(&mut out, v[8]);
    out.append("\nset color_info=");
    push_decimal(&mut out, v[5]);
    out.append("\n\n# Separator lines\nset color_separator=");
    push_decimal(&mut out, v[9]);
    out.append("\n");
    assert(out@ =~= cmus_theme_text(v@));
    out
}

// ── reading the colors and the config ───────────────────────────────────

/// The members of the JSON object a text holds, in the parsed map's order,
/// each with its value when that is a string; `None` when the text is not
/// a JSON object.
pub uninterp spec fn json_members(text: Seq<char>) -> Option<JsonMembers>;

/// serde_json's `from_str` into a `Map<String, Value>`; the map's keys are
/// distinct.
#[verifier::external_body]
fn parse_json_object(text: &str) -> (r: Option<Vec<(String, Option<String>)>>)
    ensures
        r matches Some(m) ==> json_members(text@) == Some(members_view(m@)) && distinct_keys(members_view(m@)),
        r is None ==> json_members(text@) is None,
{
    serde_json::from_str::<serde_json::Map<String, serde_json::Value>>(text)
        .ok()
        .map(|m| m.into_iter().map(|(k, v)| (k, v.as_str().map(|s| s.to_string()))).collect())
}

/// The nested template data of a colors.json text, or `None` when the text
/// is not a JSON object.
pub fn nested_from_json(text: &str, dark: bool) -> (r: Option<NestedColors>)
    ensures
        r is Some <==> json_members(text@) is Some,
        r matches Some(n) ==> n.view_entries() == nested_colors(json_members(text@)->0, dark),
{
    match parse_json_object(text) {
        Some(m) => Some(build_nested(m.as_slice(), dark)),
        None => None,
    }
}

/// The cmus theme of a colors.json text, or `None` when the text is not a
/// JSON object.
pub fn cmus_theme_from_json(text: &str) -> (r: Option<String>)
    ensures
        r is Some <==> json_members(text@) is Some,
        r matches Some(t) ==> t@ == cmus_theme_text(cmus_colors(json_members(text@)->0).map_values(|x: int| x as u8)),
{
    match parse_json_object(text) {
        Some(m) => Some(cmus_theme(m.as_slice())),
        None => None,
    }
}

/// One entry of the config's `[templates]` table: its name and its
/// `input_path`, `output_path` and `post_hook` when they are strings.
#[derive(Debug, Clone)]
pub struct TemplateEntry {
    pub name: String,
    pub input_path: Option<String>,
    pub output_path: Option<String>,
    pub post_hook: Option<String>,
}

/// (name, input_path, output_path, post_hook).
pub type TemplateView = (Seq<char>, Option<Seq<char>>, Option<Seq<char>>, Option<Seq<char>>);

pub open spec fn opt_view(o: Option<String>) -> Option<Seq<char>> {
    match o {
        Some(s) => Some(s@),
        None => None,
    }
}

pub open spec fn template_view(e: TemplateEntry) -> TemplateView {
    (e.name@, opt_view(e.input_path), opt_view(e.output_path), opt_view(e.post_hook))
}

/// The `[templates]` table of a matugen config text, in the table's order:
/// `None` when the text is not TOML, `Some(None)` when it has no
/// `templates` table.
pub uninterp spec fn toml_templates(text: Seq<char>) -> Option<Option<Seq<TemplateView>>>;

/// toml's `from_str` into a `Table`, then its `templates` table with each
/// entry's string fields.
#[verifier::external_body]
fn parse_templates(text: &str) -> (r: Option<Option<Vec<TemplateEntry>>>)
    ensures
        match r {
            None => toml_templates(text@) is None,
            Some(None) => toml_templates(text@) == Some(None::<Seq<TemplateView>>),
            Some(Some(v)) => toml_templates(text@) == Some(Some(v@.map_values(|e: TemplateEntry| template_view(e)))),
        },
{
    let config: toml::Table = toml::from_str(text).ok()?;
    let s = |e: &toml::Value, k: &str| e.get(k).and_then(|v| v.as_str()).map(|x| x.to_string());
    Some(config.get("templates").and_then(|t| t.as_table()).map(|t| {
        t.iter().map(|(n, e)| TemplateEntry { name: n.clone(), input_path: s(e, "input_path"), output_path: s(e, "output_path"), post_hook: s(e, "post_hook") }).collect()
    }))
}

/// A template to render: its name, input and output paths, and post hook.
#[derive(Debug, Clone)]
pub struct RenderJob {
    pub name: String,
    pub input_path: String,
    pub output_path: String,
    pub post_hook: Option<String>,
}

/// (name, input_path, output_path, post_hook).
pub type JobView = (Seq<char>, Seq<char>, Seq<char>, Option<Seq<char>>);

pub open spec fn job_view(j: RenderJob) -> JobView {
    (j.name@, j.input_path@, j.output_path@, opt_view(j.post_hook))
}

/// A template name is asked for: all are, unless a list names the ones that are.
pub open spec fn asked_for(only: Option<Seq<Seq<char>>>, name: Seq<char>) -> bool {
    match only {
        Some(list) => list.contains(name),
        None => true,
    }
}

/// The templates to render, in table order: those asked for that have both
/// an input and an output path.
pub open spec fn jobs_of(es: Seq<TemplateView>, only: Option<Seq<Seq<char>>>) -> Seq<JobView>
    decreases es.len(),
{
    if es.len() == 0 {
        Seq::empty()
    } else {
        let e = es.last();
        let rest = jobs_of(es.drop_last(), only);
        if asked_for(only, e.0) && e.1 is Some && e.2 is Some {
            rest.push((e.0, e.1->0, e.2->0, e.3))
        } else {
            rest
        }
    }
}

pub open spec fn only_view(only: Option<Vec<String>>) -> Option<Seq<Seq<char>>> {
    match only {
        Some(l) => Some(strings_view(l@)),
        None => None,
    }
}

fn is_asked_for(only: &Option<Vec<String>>, name: &str) -> (r: bool)
    ensures
        r == asked_for(only_view(*only), name@),
{
    match only {
        Some(list) => {
            let mut i: usize = 0;
            while i < list.len()
                invariant
                    *only == Some(*list),
                    0 <= i <= list@.len(),
                    forall|j: int| 0 <= j < i ==> #[trigger] strings_view(list@)[j] != name@,
                decreases list@.len() - i,
            {
                if str_eq(list[i].as_str(), name) {
                    assert(strings_view(list@)[i as int] == name@);
                    assert(only_view(*only) == Some(strings_view(list@)));
                    assert(strings_view(list@).contains(name@));
                    return true;
                }
                i = i + 1;
            }
            assert(only_view(*only) == Some(strings_view(list@)));
            false
        },
        None => true,
    }
}

/// The templates to render among the config's entries, in order.
pub fn templates_to_render(entries: &[TemplateEntry], only: &Option<Vec<String>>) -> (r: Vec<RenderJob>)
    ensures
        r@.map_values(|j: RenderJob| job_view(j)) == jobs_of(
            entries@.map_values(|e: TemplateEntry| template_view(e)),
            only_view(*only),
        ),
{
    let ghost es = entries@.map_values(|e: TemplateEntry| template_view(e));
    let mut r: Vec<RenderJob> = Vec::new();
    let mut i: usize = 0;
    while i < entries.len()
        invariant
            es == entries@.map_values(|e: TemplateEntry| template_view(e)),
            0 <= i <= entries@.len(),
            r@.map_values(|j: RenderJob| job_view(j)) == jobs_of(es.take(i as int), only_view(*only)),
        decreases entries@.len() - i,
    {
        assert(es.take(i + 1).drop_last() =~= es.take(i as int));
        assert(es.take(i + 1).last() == template_view(entries@[i as int]));
        let e = &entries[i];
        if is_asked_for(only, e.name.as_str()) {
            match (&e.input_path, &e.output_path) {
                (Some(input), Some(output)) => {
                    let ghost before = r@;
                    let job = RenderJob {
                        name: e.name.clone(),
                        input_path: input.clone(),
                        output_path: output.clone(),
                        post_hook: e.post_hook.clone(),
                    };
                    assert(job_view(job) == (es[i as int].0, es[i as int].1->0, es[i as int].2->0, es[i as int].3));
                    r.push(job);
                    assert(r@.map_values(|j: RenderJob| job_view(j)) =~= before.map_values(|j: RenderJob| job_view(j)).push(job_view(job)));
                },
                _ => {},
            }
        }
        i = i + 1;
    }
    assert(es.take(i as int) =~= es);
    r
}

/// Why the config yields no templates.
#[derive(Debug, Clone, Copy, PartialEq, Eq, Structural)]
pub enum ConfigError {
    /// The text is not TOML.
    Parse,
    /// There is no `[templates]` table.
    NoTemplates,
}

/// The templates a config text asks to render, in table order.
pub fn render_jobs(config_text: &str, only: &Option<Vec<String>>) -> (r: Result<Vec<RenderJob>, ConfigError>)
    ensures
        match r {
            Ok(jobs) => toml_templates(config_text@) matches Some(Some(es)) && jobs@.map_values(
                |j: RenderJob| job_view(j),
            ) == jobs_of(es, only_view(*only)),
            Err(ConfigError::Parse) => toml_templates(config_text@) is None,
            Err(ConfigError::NoTemplates) => toml_templates(config_text@) == Some(None::<Seq<TemplateView>>),
        },
{
    match parse_templates(config_text) {
        None => Err(ConfigError::Parse),
        Some(None) => Err(ConfigError::NoTemplates),
        Some(Some(entries)) => Ok(templates_to_render(entries.as_slice(), only)),
    }
}

// ── laws ────────────────────────────────────────────────────────────────

/// A template without `{{` renders to itself, with nothing unresolved.
pub proof fn lemma_plain_text_renders_to_itself(
    cs: Seq<char>,
    es: Seq<(Seq<char>, TripleView)>,
    image: Seq<char>,
)
    requires
        forall|i: int| 0 <= i < cs.len() - 1 ==> !(#[trigger] cs[i] == '{' && cs[i + 1] == '{'),
    ensures
        render_from(cs, 0, es, image) == (cs, Seq::<Seq<char>>::empty()),
{
    assert forall|i: int| !is_first_occurrence(cs, open_braces(), 0, i) by {
        if 0 <= i && i + 2 <= cs.len() && cs.subrange(i, i + 2) == open_braces() {
            assert(cs.subrange(i, i + 2)[0] == cs[i]);
            assert(cs.subrange(i, i + 2)[1] == cs[i + 1]);
        }
    }
    assert(first_occurrence(cs, open_braces(), 0) is None);
    assert(cs.skip(0) =~= cs);
}

/// A key that no member has is not among the color entries.
proof fn lemma_color_entries_absent(m: JsonMembers, opp: Seq<(Seq<char>, Seq<char>)>, dark: bool, key: Seq<char>)
    requires
        forall|k: int| 0 <= k < m.len() ==> #[trigger] m[k].0 != key,
    ensures
        first_index(color_entries(m, opp, dark), key) is None,
    decreases m.len(),
{
    if m.len() > 0 {
        assert forall|k: int| 0 <= k < m.drop_last().len() implies #[trigger] m.drop_last()[k].0 != key by {
            assert(m.drop_last()[k] == m[k]);
        }
        lemma_color_entries_absent(m.drop_last(), opp, dark, key);
        let prev = color_entries(m.drop_last(), opp, dark);
        let es = color_entries(m, opp, dark);
        if es.len() > prev.len() {
            assert(es.drop_last() =~= prev);
        } else {
            assert(es =~= prev);
        }
    }
}

proof fn lemma_color_entry_found(m: JsonMembers, opp: Seq<(Seq<char>, Seq<char>)>, dark: bool, i: int)
    requires
        distinct_keys(m),
        0 <= i < m.len(),
        m[i].1 is Some,
        has_prefix(m[i].1->0, "#"@),
    ensures
        first_index(color_entries(m, opp, dark), m[i].0) matches Some(j) && color_entries(m, opp, dark)[j] == (
            m[i].0,
            triple_for(m[i].1->0, last_value(opp, m[i].0), dark),
        ),
    decreases m.len(),
{
    let prev = color_entries(m.drop_last(), opp, dark);
    let es = color_entries(m, opp, dark);
    let key = m[i].0;
    if i == m.len() - 1 {
        assert forall|k: int| 0 <= k < m.drop_last().len() implies #[trigger] m.drop_last()[k].0 != key by {
            assert(m.drop_last()[k] == m[k]);
        }
        lemma_color_entries_absent(m.drop_last(), opp, dark, key);
        assert(es.drop_last() =~= prev);
    } else {
        assert(m.drop_last()[i] == m[i]);
        assert forall|a: int, b: int| 0 <= a < b < m.drop_last().len() implies #[trigger] m.drop_last()[a].0
            != #[trigger] m.drop_last()[b].0 by {
            assert(m.drop_last()[a] == m[a] && m.drop_last()[b] == m[b]);
        }
        lemma_color_entry_found(m.drop_last(), opp, dark, i);
        if es.len() > prev.len() {
            assert(es.drop_last() =~= prev);
            lemma_first_index(prev, key);
            assert(es[first_index(prev, key)->0] == prev[first_index(prev, key)->0]);
        } else {
            assert(es =~= prev);
        }
    }
}

/// Every color member of a colors object is found under its key in the
/// nested template data: the value itself as the default and as the
/// current mode's color, the opposite scheme's color of that key (else the
/// value again) as the other mode's.
pub proof fn lemma_nested_keeps_colors(m: JsonMembers, dark: bool, i: int)
    requires
        distinct_keys(m),
        0 <= i < m.len(),
        m[i].1 is Some,
        has_prefix(m[i].1->0, "#"@),
    ensures
        nested_lookup(nested_colors(m, dark), m[i].0) == Some(
            triple_for(m[i].1->0, last_value(opposite_colors(m, dark), m[i].0), dark),
        ),
{
    let opp = opposite_colors(m, dark);
    let es = color_entries(m, opp, dark);
    lemma_color_entry_found(m, opp, dark, i);
    let n = nested_colors(m, dark);
    if n.len() > es.len() {
        assert(n.drop_last() =~= es);
        lemma_first_index(es, m[i].0);
        assert(n[first_index(es, m[i].0)->0] == es[first_index(es, m[i].0)->0]);
    }
}

proof fn lemma_first_color_value_some(m: JsonMembers, i: int)
    requires
        0 <= i < m.len(),
        m[i].1 is Some,
        has_prefix(m[i].1->0, "#"@),
    ensures
        first_color_value(m) is Some,
    decreases m.len(),
{
    if i < m.len() - 1 {
        assert(m.drop_last()[i] == m[i]);
        lemma_first_color_value_some(m.drop_last(), i);
    }
}

/// Once the colors object holds a color, the nested data holds a
/// `source_color` entry.
pub proof fn lemma_nested_has_source(m: JsonMembers, dark: bool, i: int)
    requires
        0 <= i < m.len(),
        m[i].1 is Some,
        has_prefix(m[i].1->0, "#"@),
    ensures
        nested_lookup(nested_colors(m, dark), "source_color"@) is Some,
{
    let es = color_entries(m, opposite_colors(m, dark), dark);
    lemma_first_color_value_some(m, i);
    if first_index(es, "source_color"@) is None {
        let n = nested_colors(m, dark);
        assert(n.drop_last() =~= es);
    }
}

/// Encoding characters whose first `k` are ASCII: those give one byte
/// each, and the rest of the encoding is that of the remaining characters.
proof fn lemma_ascii_prefix_encode(t: Seq<char>, k: int)
    requires
        0 <= k <= t.len(),
        forall|i: int| 0 <= i < k ==> (#[trigger] t[i] as u32) < 0x80,
    ensures
        encode_utf8(t).len() == k + encode_utf8(t.skip(k)).len(),
        forall|i: int| 0 <= i < k ==> (#[trigger] encode_utf8(t)[i]) < 0x80,
        encode_utf8(t).skip(k) == encode_utf8(t.skip(k)),
    decreases k,
{
    if k == 0 {
        assert(t.skip(0) =~= t);
        assert(encode_utf8(t).skip(0) =~= encode_utf8(t));
    } else {
        let c = t[0] as u32;
        assert(c < 0x80);
        let rest = t.drop_first();
        assert forall|i: int| 0 <= i < k - 1 implies (#[trigger] rest[i] as u32) < 0x80 by {
            assert(rest[i] == t[i + 1]);
        }
        lemma_ascii_prefix_encode(rest, k - 1);
        let e = encode_utf8(t);
        assert(e =~= vstd::utf8::encode_scalar(c) + encode_utf8(rest));
        assert(c < 0x80 ==> (c & 0x7F) as u8 == c as u8) by (bit_vector);
        assert(vstd::utf8::encode_scalar(c) =~= seq![c as u8]);
        assert(rest.skip(k - 1) =~= t.skip(k));
        assert(e.skip(k) =~= encode_utf8(rest).skip(k - 1));
        assert forall|i: int| 0 <= i < k implies (#[trigger] e[i]) < 0x80 by {
            if i > 0 {
                assert(e[i] == encode_utf8(rest)[i - 1]);
            }
        }
    }
}

/// The first byte of a non-empty encoding starts a character.
proof fn lemma_encode_starts_char(t: Seq<char>)
    requires
        t.len() > 0,
    ensures
        !is_continuation_byte(encode_utf8(t)[0]),
{
    let c = t[0] as u32;
    vstd::utf8::char_is_scalar(t[0]);
    let e = encode_utf8(t);
    assert(e =~= vstd::utf8::encode_scalar(c) + encode_utf8(t.drop_first()));
    if c <= 0x7F {
        assert(c <= 0x7F ==> ((c & 0x7F) as u8) < 0x80) by (bit_vector);
    } else if c <= 0x7FF {
        assert((0xC0u8 | ((c >> 6) & 0x1F) as u8) >= 0xC0) by (bit_vector);
    } else if c <= 0xFFFF {
        assert((0xE0u8 | ((c >> 12) & 0x0F) as u8) >= 0xE0) by (bit_vector);
    } else {
        assert((0xF0u8 | ((c >> 18) & 0x07) as u8) >= 0xF0) by (bit_vector);
    }
}

/// The color fields can be computed for every value whose first six
/// characters after the leading `#`s are ASCII (the slices the fields read
/// then lie on character boundaries).
pub proof fn lemma_ascii_colors_have_fields(hex: Seq<char>)
    requires
        strip_hash_chars(hex).len() >= 6,
        forall|i: int| 0 <= i < 6 ==> (#[trigger] strip_hash_chars(hex)[i] as u32) < 0x80,
    ensures
        fields_ok(encode_utf8(hex)),
{
    let t = strip_hash_chars(hex);
    lemma_strip_hashes_encode(hex);
    lemma_ascii_prefix_encode(t, 6);
    let h = encode_utf8(t);
    assert(strip_hashes(encode_utf8(hex)) == h);
    if t.len() > 6 {
        lemma_encode_starts_char(t.skip(6));
        assert(h[6] == h.skip(6)[0]);
    }
    assert(h[2] < 0x80 && h[4] < 0x80);
}

/// The current mode's slot of a triple: the dark color in a dark render,
/// the light color in a light one.
pub open spec fn current_mode_color(v: TripleView, dark: bool) -> Seq<char> {
    if dark {
        v.1
    } else {
        v.2
    }
}

proof fn lemma_color_entries_default_current(m: JsonMembers, opp: Seq<(Seq<char>, Seq<char>)>, dark: bool)
    ensures
        forall|i: int|
            0 <= i < color_entries(m, opp, dark).len() ==> (#[trigger] color_entries(m, opp, dark)[i]).1.0
                == current_mode_color(color_entries(m, opp, dark)[i].1, dark),
    decreases m.len(),
{
    if m.len() > 0 {
        lemma_color_entries_default_current(m.drop_last(), opp, dark);
        let prev = color_entries(m.drop_last(), opp, dark);
        let es = color_entries(m, opp, dark);
        assert forall|i: int| 0 <= i < es.len() implies (#[trigger] es[i]).1.0 == current_mode_color(es[i].1, dark) by {
            if i < prev.len() {
                assert(es[i] == prev[i]);
            }
        }
    }
}

/// In the nested template data every entry's default color is its
/// current-mode color: the dark color in a dark render, the light color in
/// a light one (the colors.json value itself).
pub proof fn lemma_default_is_current_mode(m: JsonMembers, dark: bool)
    ensures
        forall|i: int|
            0 <= i < nested_colors(m, dark).len() ==> (#[trigger] nested_colors(m, dark)[i]).1.0
                == current_mode_color(nested_colors(m, dark)[i].1, dark),
{
    let es = color_entries(m, opposite_colors(m, dark), dark);
    lemma_color_entries_default_current(m, opposite_colors(m, dark), dark);
    let n = nested_colors(m, dark);
    assert forall|i: int| 0 <= i < n.len() implies (#[trigger] n[i]).1.0 == current_mode_color(n[i].1, dark) by {
        if i < es.len() {
            assert(n[i] == es[i]);
        }
    }
}

/// Rendering `colors.<key>.default.<format>` from the nested data of a
/// colors object gives the same color as `colors.<key>.dark.<format>` in a
/// dark render and `colors.<key>.light.<format>` in a light one.
pub proof fn lemma_default_renders_current_mode(expr: Seq<char>, m: JsonMembers, dark: bool)
    requires
        expr_color(expr, nested_colors(m, dark)) is Some,
        color_path(expr)[1] == "default"@,
    ensures
        nested_lookup(nested_colors(m, dark), color_path(expr)[0]) matches Some(v) && expr_color(
            expr,
            nested_colors(m, dark),
        ) == Some(current_mode_color(v, dark)),
{
    let es = nested_colors(m, dark);
    let key = color_path(expr)[0];
    lemma_first_index(es, key);
    lemma_default_is_current_mode(m, dark);
    let i = first_index(es, key)->0;
    assert(es[i].1.0 == current_mode_color(es[i].1, dark));
}

} // verus!
