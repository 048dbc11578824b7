//! The `$key: #hex;` palette file: its lines, the color entries among them,
//! and the text written back after the entries' values change.

use vstd::prelude::*;

use crate::text::{
    chars_of, find_from, first_occurrence, is_first_occurrence, lemma_first_occurrence_unique,
    lemma_leading_white, lemma_trailing_white, push_char, split_chars, split_on, str_eq, string_of_chars,
    trim_chars, trim_white,
};
use crate::transform::{camel_to_snake, snake_case};

verus! {

// ── lines ───────────────────────────────────────────────────────────────

/// One trailing carriage return removed.
pub open spec fn strip_cr(p: Seq<char>) -> Seq<char> {
    if p.len() > 0 && p.last() == '\r' {
        p.drop_last()
    } else {
        p
    }
}

/// `str::lines`: the pieces between newlines, each without a `\r` before
/// its newline; an empty piece after the last newline is no line.
pub open spec fn text_lines(s: Seq<char>) -> Seq<Seq<char>> {
    let parts = split_on(s, '\n');
    let body = parts.drop_last().map_values(|p: Seq<char>| strip_cr(p));
    if parts.last().len() == 0 {
        body
    } else {
        body.push(parts.last())
    }
}

/// The characters of `v` from `a` up to `b`.
fn chars_between(v: &Vec<char>, a: usize, b: usize) -> (r: Vec<char>)
    requires
        a <= b <= v@.len(),
    ensures
        r@ == v@.subrange(a as int, b as int),
{
    let mut r: Vec<char> = Vec::new();
    let mut i: usize = a;
    while i < b
        invariant
            a <= i <= b <= v@.len(),
            r@ == v@.subrange(a as int, i as int),
        decreases b - i,
    {
        r.push(v[i]);
        assert(r@ =~= v@.subrange(a as int, i + 1));
        i = i + 1;
    }
    r
}

fn without_cr(p: &Vec<char>) -> (r: String)
    ensures
        r@ == strip_cr(p@),
{
    let n = p.len();
    if n > 0 && p[n - 1] == '\r' {
        let q = chars_between(p, 0, n - 1);
        assert(q@ =~= p@.drop_last());
        string_of_chars(&q)
    } else {
        string_of_chars(p)
    }
}

/// The lines of a text, as `str::lines` yields them.
pub fn lines_of(text: &str) -> (ls: Vec<String>)
    ensures
        ls@.len() == text_lines(text@).len(),
        forall|i: int| 0 <= i < ls@.len() ==> #[trigger] ls@[i]@ == text_lines(text@)[i],
{
    let cs = chars_of(text);
    let parts = split_chars(&cs, '\n');
    let ghost all = split_on(text@, '\n');
    proof {
        crate::text::lemma_split_on_nonempty(text@, '\n');
    }
    let n = parts.len();
    let mut ls: Vec<String> = Vec::new();
    let mut i: usize = 0;
    while i + 1 < n
        invariant
            n == parts@.len(),
            n == all.len(),
            n >= 1,
            all == split_on(text@, '\n'),
            forall|q: int| 0 <= q < n ==> #[trigger] parts@[q]@ == all[q],
            0 <= i <= n - 1,
            ls@.len() == i,
            forall|q: int| 0 <= q < i ==> #[trigger] ls@[q]@ == strip_cr(all[q]),
        decreases n - i,
    {
        let l = without_cr(&parts[i]);
        ls.push(l);
        i = i + 1;
    }
    let last = &parts[n - 1];
    if last.len() > 0 {
        ls.push(string_of_chars(last));
    }
    proof {
        let body = all.drop_last().map_values(|p: Seq<char>| strip_cr(p));
        assert(all.last() == parts@[n - 1]@);
        assert forall|q: int| 0 <= q < ls@.len() implies #[trigger] ls@[q]@ == text_lines(text@)[q] by {
            if q < n - 1 {
                assert(body[q] == strip_cr(all[q]));
            }
        }
    }
    ls
}

// ── entries ─────────────────────────────────────────────────────────────

/// An ASCII hexadecimal digit.
pub open spec fn is_hex_char(c: char) -> bool {
    ('0' <= c && c <= '9') || ('a' <= c && c <= 'f') || ('A' <= c && c <= 'F')
}

/// A color value of the file: `#` and three to eight hex digits.
pub open spec fn entry_value_ok(v: Seq<char>) -> bool {
    &&& 4 <= v.len() <= 9
    &&& v[0] == '#'
    &&& forall|i: int| 1 <= i < v.len() ==> is_hex_char(#[trigger] v[i])
}

/// The (key, value) of a `$key: #hex;` line: the key is the trimmed text
/// between `$` and the first `:`, the value the trimmed text before the
/// final `;` of the rest; `None` for every other line.
pub open spec fn scss_entry(line: Seq<char>) -> Option<(Seq<char>, Seq<char>)> {
    if line.len() == 0 || line[0] != '$' {
        None
    } else {
        let rest = line.skip(1);
        match first_occurrence(rest, seq![':'], 0) {
            None => None,
            Some(c) => {
                let raw = trim_white(rest.skip(c + 1));
                if raw.len() == 0 || raw.last() != ';' {
                    None
                } else {
                    let v = trim_white(raw.drop_last());
                    if entry_value_ok(v) {
                        Some((trim_white(rest.take(c)), v))
                    } else {
                        None
                    }
                }
            },
        }
    }
}

fn value_ok(v: &Vec<char>) -> (r: bool)
    ensures
        r == entry_value_ok(v@),
{
    let n = v.len();
    if n < 4 || n > 9 || v[0] != '#' {
        return false;
    }
    let mut i: usize = 1;
    while i < n
        invariant
            n == v@.len(),
            1 <= i <= n,
            forall|j: int| 1 <= j < i ==> is_hex_char(#[trigger] v@[j]),
        decreases n - i,
    {
        let c = v[i];
        if !(('0' <= c && c <= '9') || ('a' <= c && c <= 'f') || ('A' <= c && c <= 'F')) {
            return false;
        }
        i = i + 1;
    }
    true
}

/// Parse a `$key: #hex;` line into its key and color value.
pub fn parse_scss_entry(line: &str) -> (r: Option<(String, String)>)
    ensures
        match r {
            Some((k, v)) => scss_entry(line@) == Some((k@, v@)),
            None => scss_entry(line@) is None,
        },
{
    let cs = chars_of(line);
    if cs.len() == 0 || cs[0] != '$' {
        return None;
    }
    let rest = chars_between(&cs, 1, cs.len());
    assert(rest@ =~= line@.skip(1));
    let colon = vec![':'];
    assert(colon@ =~= seq![':']);
    let c = match find_from(&rest, &colon, 0) {
        Some(c) => c,
        None => return None,
    };
    proof {
        let w = choose|i: int| crate::text::is_first_occurrence(rest@, seq![':'], 0, i);
        assert(crate::text::is_first_occurrence(rest@, seq![':'], 0, w));
        lemma_first_occurrence_unique(rest@, seq![':'], 0, w);
    }
    let after = chars_between(&rest, c + 1, rest.len());
    assert(after@ =~= rest@.skip(c + 1));
    let raw = trim_chars(&after);
    let m = raw.len();
    if m == 0 || raw[m - 1] != ';' {
        return None;
    }
    let body = chars_between(&raw, 0, m - 1);
    assert(body@ =~= raw@.drop_last());
    let v = trim_chars(&body);
    if !value_ok(&v) {
        return None;
    }
    let key_raw = chars_between(&rest, 0, c);
    assert(key_raw@ =~= rest@.take(c as int));
    let key = trim_chars(&key_raw);
    Some((string_of_chars(&key), string_of_chars(&v)))
}

// ── the file ────────────────────────────────────────────────────────────

/// A line of the palette file: a color entry, or any other text.
#[derive(Debug, Clone)]
pub enum ScssLine {
    Entry { key: String, value: String },
    Other(String),
}

/// `l` is what the text line `t` parses to.
pub open spec fn parsed_as(l: ScssLine, t: Seq<char>) -> bool {
    match l {
        ScssLine::Entry { key, value } => scss_entry(t) == Some((key@, value@)),
        ScssLine::Other(s) => scss_entry(t) is None && s@ == t,
    }
}

/// The lines of a palette file, each parsed.
pub fn scss_lines(text: &str) -> (r: Vec<ScssLine>)
    ensures
        r@.len() == text_lines(text@).len(),
        forall|i: int| 0 <= i < r@.len() ==> parsed_as(#[trigger] r@[i], text_lines(text@)[i]),
{
    let ls = lines_of(text);
    let mut r: Vec<ScssLine> = Vec::new();
    let mut i: usize = 0;
    while i < ls.len()
        invariant
            ls@.len() == text_lines(text@).len(),
            forall|q: int| 0 <= q < ls@.len() ==> #[trigger] ls@[q]@ == text_lines(text@)[q],
            0 <= i <= ls@.len(),
            r@.len() == i,
            forall|q: int| 0 <= q < i ==> parsed_as(#[trigger] r@[q], text_lines(text@)[q]),
        decreases ls@.len() - i,
    {
        let line = match parse_scss_entry(ls[i].as_str()) {
            Some((key, value)) => ScssLine::Entry { key, value },
            None => ScssLine::Other(ls[i].clone()),
        };
        r.push(line);
        i = i + 1;
    }
    r
}

/// The value of an entry whose key reads `primary` in snake_case.
pub open spec fn primary_value_of(l: ScssLine) -> Option<Seq<char>> {
    match l {
        ScssLine::Entry { key, value } => if snake_case(key@) == "primary"@ {
            Some(value@)
        } else {
            None
        },
        ScssLine::Other(_) => None,
    }
}

/// The value of the first `primary` entry.
pub open spec fn first_primary(ls: Seq<ScssLine>) -> Option<Seq<char>>
    decreases ls.len(),
{
    if ls.len() == 0 {
        None
    } else {
        match first_primary(ls.drop_last()) {
            Some(v) => Some(v),
            None => primary_value_of(ls.last()),
        }
    }
}

proof fn lemma_first_primary_prefix(ls: Seq<ScssLine>, k: int)
    requires
        0 <= k <= ls.len(),
        first_primary(ls.take(k)) is Some,
    ensures
        first_primary(ls) == first_primary(ls.take(k)),
    decreases ls.len() - k,
{
    if k < ls.len() {
        assert(ls.take(k + 1).drop_last() =~= ls.take(k));
        lemma_first_primary_prefix(ls, k + 1);
    } else {
        assert(ls.take(k) =~= ls);
    }
}

/// The value of the first entry whose key is `primary` in snake_case (the
/// hue the theory and duotone steps refer to), read before any change.
pub fn scss_primary(ls: &Vec<ScssLine>) -> (r: Option<String>)
    ensures
        match r {
            Some(v) => first_primary(ls@) == Some(v@),
            None => first_primary(ls@) is None,
        },
{
    let mut i: usize = 0;
    while i < ls.len()
        invariant
            0 <= i <= ls@.len(),
            first_primary(ls@.take(i as int)) is None,
        decreases ls@.len() - i,
    {
        assert(ls@.take(i + 1).drop_last() =~= ls@.take(i as int));
        assert(ls@.take(i + 1).last() == ls@[i as int]);
        match &ls[i] {
            ScssLine::Entry { key, value } => {
                let k = camel_to_snake(key.as_str());
                if str_eq(k.as_str(), "primary") {
                    proof {
                        lemma_first_primary_prefix(ls@, i + 1);
                    }
                    return Some(value.clone());
                }
            },
            ScssLine::Other(_) => {},
        }
        i = i + 1;
    }
    assert(ls@.take(i as int) =~= ls@);
    None
}

/// The text of one line: `$key: value;` for an entry.
pub open spec fn line_text(l: ScssLine) -> Seq<char> {
    match l {
        ScssLine::Entry { key, value } => seq!['$'] + key@ + ": "@ + value@ + seq![';'],
        ScssLine::Other(s) => s@,
    }
}

/// The line texts joined with newlines.
pub open spec fn joined_lines(ls: Seq<ScssLine>) -> Seq<char>
    decreases ls.len(),
{
    if ls.len() == 0 {
        Seq::empty()
    } else if ls.len() == 1 {
        line_text(ls[0])
    } else {
        joined_lines(ls.drop_last()) + seq!['\n'] + line_text(ls.last())
    }
}

fn push_str_chars(out: &mut String, s: &str)
    ensures
        final(out)@ == old(out)@ + s@,
{
    let cs = chars_of(s);
    let ghost start = out@;
    let mut i: usize = 0;
    while i < cs.len()
        invariant
            cs@ == s@,
            0 <= i <= cs@.len(),
            out@ == start + cs@.take(i as int),
        decreases cs@.len() - i,
    {
        push_char(out, cs[i]);
        assert(out@ =~= start + cs@.take(i + 1));
        i = i + 1;
    }
    assert(cs@.take(i as int) =~= cs@);
}

/// The file text of the lines: joined with newlines, with a final newline.
pub fn scss_text(ls: &Vec<ScssLine>) -> (out: String)
    ensures
        out@ == joined_lines(ls@) + seq!['\n'],
{
    let mut out = String::new();
    let mut i: usize = 0;
    while i < ls.len()
        invariant
            0 <= i <= ls@.len(),
            out@ == joined_lines(ls@.take(i as int)),
        decreases ls@.len() - i,
    {
        let ghost before = out@;
        assert(ls@.take(i + 1).drop_last() =~= ls@.take(i as int));
        if i > 0 {
            push_char(&mut out, '\n');
        }
        match &ls[i] {
            ScssLine::Entry { key, value } => {
                push_char(&mut out, '$');
                push_str_chars(&mut out, key.as_str());
                push_str_chars(&mut out, ": ");
                push_str_chars(&mut out, value.as_str());
                push_char(&mut out, ';');
            },
            ScssLine::Other(s) => {
                push_str_chars(&mut out, s.as_str());
            },
        }
        proof {
            if i == 0 {
                assert(ls@.take(1)[0] == ls@[0]);
            }
            assert(out@ =~= joined_lines(ls@.take(i + 1)));
        }
        i = i + 1;
    }
    assert(ls@.take(i as int) =~= ls@);
    push_char(&mut out, '\n');
    out
}

// ── laws ────────────────────────────────────────────────────────────────

/// A value that passes `entry_value_ok` has no white space at either end.
proof fn lemma_value_trimmed(v: Seq<char>)
    requires
        entry_value_ok(v),
    ensures
        trim_white(v) == v,
{
    lemma_leading_white(v, 0);
    assert(is_hex_char(v[v.len() - 1]));
    lemma_trailing_white(v, 0);
    assert(v.skip(0) =~= v);
    assert(v.take(v.len() as int) =~= v);
}

/// What the file writer writes for an entry, the reader reads back: for a
/// key without `:` and without white space at its ends, and a color value,
/// the line `$key: value;` parses to (key, value).
pub proof fn lemma_entry_line_reads_back(key: Seq<char>, value: Seq<char>)
    requires
        trim_white(key) == key,
        forall|i: int| 0 <= i < key.len() ==> #[trigger] key[i] != ':',
        entry_value_ok(value),
    ensures
        scss_entry(seq!['$'] + key + ": "@ + value + seq![';']) == Some((key, value)),
{
    reveal_strlit(": ");
    let line = seq!['$'] + key + ": "@ + value + seq![';'];
    let rest = line.skip(1);
    let c = key.len() as int;
    assert(rest =~= key + seq![':', ' '] + value + seq![';']);
    assert(rest.subrange(c, c + 1) =~= seq![':']);
    assert forall|k: int| 0 <= k < c implies !crate::text::occurs_at(rest, seq![':'], k) by {
        assert(rest.subrange(k, k + 1)[0] == key[k]);
    }
    assert(is_first_occurrence(rest, seq![':'], 0, c));
    lemma_first_occurrence_unique(rest, seq![':'], 0, c);
    assert(rest.take(c) =~= key);
    let after = rest.skip(c + 1);
    assert(after =~= seq![' '] + value + seq![';']);
    lemma_leading_white(after, 1);
    let t = after.skip(1);
    assert(t =~= value + seq![';']);
    lemma_trailing_white(t, 0);
    assert(t.take(t.len() as int) =~= t);
    assert(trim_white(after) == t);
    assert(t.drop_last() =~= value);
    lemma_value_trimmed(value);
}

} // verus!
