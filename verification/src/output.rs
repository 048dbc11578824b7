//! Pure string builders for the pipeline's output formats. No I/O here.

use vstd::prelude::*;

use crate::palette::{entries_view, EntryView, Palette};
use crate::text::{contains, contains_seq, to_lowercase, unicode_lowercase};
use crate::transform::{camel_to_snake, snake_case};

verus! {

// ── SCSS ────────────────────────────────────────────────────────────────

/// Capitalized booleans: `True` / `False`.
pub open spec fn cap_bool(b: bool) -> Seq<char> {
    if b {
        "True"@
    } else {
        "False"@
    }
}

/// `$key: value;` and a newline.
pub open spec fn scss_line(e: EntryView) -> Seq<char> {
    "$"@ + e.0 + ": "@ + e.1 + ";\n"@
}

/// One SCSS line per entry, in order.
pub open spec fn scss_lines(es: Seq<EntryView>) -> Seq<char>
    decreases es.len(),
{
    if es.len() == 0 {
        Seq::empty()
    } else {
        scss_lines(es.drop_last()) + scss_line(es.last())
    }
}

/// The SCSS document: mode and transparency flags, then the palette entries,
/// then the terminal entries.
pub open spec fn scss_text(dark: bool, transparent: bool, es: Seq<EntryView>, terms: Seq<EntryView>) -> Seq<char> {
    "$darkmode: "@ + cap_bool(dark) + ";\n"@ + "$transparent: "@ + cap_bool(transparent) + ";\n"@
        + scss_lines(es) + scss_lines(terms)
}

fn push_scss_lines(out: &mut String, entries: &[(String, String)])
    ensures
        final(out)@ == old(out)@ + scss_lines(entries_view(entries@)),
{
    let ghost start = out@;
    let mut i: usize = 0;
    while i < entries.len()
        invariant
            0 <= i <= entries@.len(),
            out@ == start + scss_lines(entries_view(entries@).take(i as int)),
        decreases entries@.len() - i,
    {
        let ghost es = entries_view(entries@);
        assert(es.take(i + 1).drop_last() =~= es.take(i as int));
        assert(es.take(i + 1).last() == es[i as int]);
        out.append("$");
        out.append(entries[i].0.as_str());
        out.append(": ");
        out.append(entries[i].1.as_str());
        out.append(";\n");
        assert(out@ =~= start + scss_lines(es.take(i + 1)));
        i = i + 1;
    }
    assert(entries_view(entries@).take(i as int) =~= entries_view(entries@));
}

fn push_cap_bool(out: &mut String, b: bool)
    ensures
        final(out)@ == old(out)@ + cap_bool(b),
{
    if b {
        out.append("True");
    } else {
        out.append("False");
    }
}

/// SCSS in the exact format the pipeline prints, with capitalized
/// booleans (`True` / `False`).
pub fn to_scss(palette: &Palette, transparent: bool, terms: &[(String, String)]) -> (out: String)
    ensures
        out@ == scss_text(palette.dark, transparent, palette.view_entries(), entries_view(terms@)),
{
    let mut out = String::new();
    out.append("$darkmode: ");
    push_cap_bool(&mut out, palette.dark);
    out.append(";\n");
    out.append("$transparent: ");
    push_cap_bool(&mut out, transparent);
    out.append(";\n");
    push_scss_lines(&mut out, palette.entries.as_slice());
    push_scss_lines(&mut out, terms);
    assert(out@ =~= scss_text(palette.dark, transparent, palette.view_entries(), entries_view(terms@)));
    out
}

// ── flat JSON ───────────────────────────────────────────────────────────

/// `"key":"value"`.
pub open spec fn json_item(e: EntryView) -> Seq<char> {
    "\""@ + e.0 + "\":\""@ + e.1 + "\""@
}

/// The items joined by commas.
pub open spec fn json_items(es: Seq<EntryView>) -> Seq<char>
    decreases es.len(),
{
    if es.len() == 0 {
        Seq::empty()
    } else if es.len() == 1 {
        json_item(es[0])
    } else {
        json_items(es.drop_last()) + ","@ + json_item(es.last())
    }
}

/// Flat `{"role":"#HEX",...}` object preserving entry order.
pub open spec fn flat_json_text(es: Seq<EntryView>) -> Seq<char> {
    "{"@ + json_items(es) + "}"@
}

fn push_json_items(out: &mut String, entries: &[(String, String)], first: bool) -> (still_first: bool)
    ensures
        still_first == (first && entries@.len() == 0),
        first ==> final(out)@ == old(out)@ + json_items(entries_view(entries@)),
        !first ==> final(out)@ == old(out)@ + json_rest(entries_view(entries@)),
{
    let ghost start = out@;
    let ghost es = entries_view(entries@);
    let mut first = first;
    let ghost first0 = first;
    let mut i: usize = 0;
    while i < entries.len()
        invariant
            0 <= i <= entries@.len(),
            es == entries_view(entries@),
            first == (first0 && i == 0),
            first0 ==> out@ == start + json_items(es.take(i as int)),
            !first0 ==> out@ == start + json_rest(es.take(i as int)),
        decreases entries@.len() - i,
    {
        assert(es.take(i + 1).drop_last() =~= es.take(i as int));
        assert(es.take(i + 1).last() == es[i as int]);
        if !first {
            out.append(",");
        }
        first = false;
        out.append("\"");
        out.append(entries[i].0.as_str());
        out.append("\":\"");
        out.append(entries[i].1.as_str());
        out.append("\"");
        proof {
            if first0 && i == 0 {
                assert(es.take(1)[0] == es[0]);
                assert(out@ =~= start + json_items(es.take(i + 1)));
            } else if first0 {
                assert(out@ =~= start + json_items(es.take(i + 1)));
            } else {
                assert(out@ =~= start + json_rest(es.take(i + 1)));
            }
        }
        i = i + 1;
    }
    assert(es.take(i as int) =~= es);
    first
}

/// Each item preceded by a comma (the tail of a list whose head is already written).
pub open spec fn json_rest(es: Seq<EntryView>) -> Seq<char>
    decreases es.len(),
{
    if es.len() == 0 {
        Seq::empty()
    } else {
        json_rest(es.drop_last()) + ","@ + json_item(es.last())
    }
}

proof fn lemma_json_items_concat(a: Seq<EntryView>, b: Seq<EntryView>)
    requires
        a.len() > 0,
    ensures
        json_items(a + b) == json_items(a) + json_rest(b),
    decreases b.len(),
{
    if b.len() == 0 {
        assert(a + b =~= a);
    } else {
        lemma_json_items_concat(a, b.drop_last());
        assert((a + b).drop_last() =~= a + b.drop_last());
        assert((a + b).last() == b.last());
    }
}

/// Flat `{ "role": "#HEX", ... }` JSON preserving palette order, palette
/// entries first, then the terminal entries.
pub fn to_flat_json(palette: &Palette, terms: &[(String, String)]) -> (out: String)
    ensures
        out@ == flat_json_text(palette.view_entries() + entries_view(terms@)),
{
    let mut out = String::new();
    out.append("{");
    let ghost after_open = out@;
    let first = push_json_items(&mut out, palette.entries.as_slice(), true);
    let ghost mid = out@;
    let first2 = push_json_items(&mut out, terms, first);
    out.append("}");
    proof {
        let a = palette.view_entries();
        let b = entries_view(terms@);
        if a.len() > 0 {
            lemma_json_items_concat(a, b);
        } else {
            assert(a + b =~= b);
            assert(mid == after_open);
        }
        assert(out@ =~= flat_json_text(a + b));
    }
    out
}

// ── matugen colors.json ─────────────────────────────────────────────────

/// Lexicographic order of character sequences (code-point order, which is
/// the byte order of their UTF-8 encodings).
pub open spec fn chars_le(a: Seq<char>, b: Seq<char>) -> bool
    decreases a.len(),
{
    if a.len() == 0 {
        true
    } else if b.len() == 0 {
        false
    } else if a[0] != b[0] {
        a[0] < b[0]
    } else {
        chars_le(a.drop_first(), b.drop_first())
    }
}

proof fn lemma_chars_le_total(a: Seq<char>, b: Seq<char>)
    ensures
        chars_le(a, b) || chars_le(b, a),
    decreases a.len(),
{
    if a.len() > 0 && b.len() > 0 && a[0] == b[0] {
        lemma_chars_le_total(a.drop_first(), b.drop_first());
    }
}

proof fn lemma_chars_le_trans(a: Seq<char>, b: Seq<char>, c: Seq<char>)
    requires
        chars_le(a, b),
        chars_le(b, c),
    ensures
        chars_le(a, c),
    decreases a.len(),
{
    if a.len() > 0 && b.len() > 0 && c.len() > 0 && a[0] == b[0] && b[0] == c[0] {
        lemma_chars_le_trans(a.drop_first(), b.drop_first(), c.drop_first());
    }
}

fn chars_le_exec(a: &str, b: &str) -> (r: bool)
    ensures
        r == chars_le(a@, b@),
{
    let x = crate::text::chars_of(a);
    let y = crate::text::chars_of(b);
    let mut i: usize = 0;
    assert(a@.skip(0) =~= a@);
    assert(b@.skip(0) =~= b@);
    while i < x.len() && i < y.len() && x[i] == y[i]
        invariant
            x@ == a@,
            y@ == b@,
            0 <= i <= x@.len(),
            i <= y@.len(),
            forall|j: int| 0 <= j < i ==> x@[j] == y@[j],
            chars_le(a@, b@) == chars_le(a@.skip(i as int), b@.skip(i as int)),
        decreases x@.len() - i,
    {
        assert(a@.skip(i as int).drop_first() =~= a@.skip(i + 1));
        assert(b@.skip(i as int).drop_first() =~= b@.skip(i + 1));
        i = i + 1;
    }
    if i == x.len() {
        true
    } else if i == y.len() {
        false
    } else {
        x[i] < y[i]
    }
}

/// Entries sorted by key: `sorted[i].0 <= sorted[j].0` for `i <= j`.
pub open spec fn sorted_by_key(es: Seq<EntryView>) -> bool {
    forall|i: int, j: int| 0 <= i <= j < es.len() ==> chars_le(#[trigger] es[i].0, #[trigger] es[j].0)
}

/// Insert `e` after every entry whose key is not greater than its own.
pub open spec fn insert_by_key(s: Seq<EntryView>, e: EntryView) -> Seq<EntryView>
    decreases s.len(),
{
    if s.len() == 0 {
        seq![e]
    } else if chars_le(s.last().0, e.0) {
        s.push(e)
    } else {
        insert_by_key(s.drop_last(), e).push(s.last())
    }
}

/// Stable sort by key (`slice::sort_by` on the key): equal keys keep their
/// relative order.
pub open spec fn stable_sort_by_key(s: Seq<EntryView>) -> Seq<EntryView>
    decreases s.len(),
{
    if s.len() == 0 {
        Seq::empty()
    } else {
        insert_by_key(stable_sort_by_key(s.drop_last()), s.last())
    }
}

/// The insertion point that `insert_by_key` uses.
proof fn lemma_insert_by_key_at(s: Seq<EntryView>, e: EntryView, p: int)
    requires
        0 <= p <= s.len(),
        p == 0 || chars_le(s[p - 1].0, e.0),
        forall|q: int| p <= q < s.len() ==> !chars_le(#[trigger] s[q].0, e.0),
    ensures
        insert_by_key(s, e) == s.insert(p, e),
    decreases s.len(),
{
    if s.len() == 0 {
        assert(s.insert(p, e) =~= seq![e]);
    } else if chars_le(s.last().0, e.0) {
        assert(p == s.len());
        assert(s.insert(p, e) =~= s.push(e));
    } else {
        let t = s.drop_last();
        assert forall|q: int| p <= q < t.len() implies !chars_le(#[trigger] t[q].0, e.0) by {
            assert(t[q] == s[q]);
        }
        if p > 0 {
            assert(t[p - 1] == s[p - 1]);
        }
        lemma_insert_by_key_at(t, e, p);
        assert(s.insert(p, e) =~= t.insert(p, e).push(s.last()));
    }
}

/// Inserting into a sorted sequence keeps it sorted and adds exactly `e`.
proof fn lemma_insert_by_key_sorted(s: Seq<EntryView>, e: EntryView)
    requires
        sorted_by_key(s),
    ensures
        sorted_by_key(insert_by_key(s, e)),
        insert_by_key(s, e).to_multiset() == s.to_multiset().insert(e),
{
    // the insertion point: after the last entry whose key is <= e's key
    let p = insertion_point(s, e, s.len() as int);
    lemma_insert_by_key_at(s, e, p);
    vstd::seq_lib::to_multiset_insert(s, p, e);
    let r = s.insert(p, e);
    assert forall|i: int, j: int| 0 <= i <= j < r.len() implies chars_le(#[trigger] r[i].0, #[trigger] r[j].0) by {
        if i < p && j < p {
        } else if i < p && j == p {
            lemma_chars_le_trans(s[i].0, s[p - 1].0, e.0);
        } else if i < p && j > p {
            assert(r[j] == s[j - 1]);
        } else if i == p && j == p {
            lemma_chars_le_total(e.0, e.0);
        } else if i == p && j > p {
            assert(r[j] == s[j - 1]);
            lemma_chars_le_total(s[j - 1].0, e.0);
        } else {
            assert(r[i] == s[i - 1] && r[j] == s[j - 1]);
        }
    }
}

proof fn insertion_point(s: Seq<EntryView>, e: EntryView, k: int) -> (p: int)
    requires
        0 <= k <= s.len(),
        forall|q: int| k <= q < s.len() ==> !chars_le(#[trigger] s[q].0, e.0),
    ensures
        0 <= p <= s.len(),
        p == 0 || chars_le(s[p - 1].0, e.0),
        forall|q: int| p <= q < s.len() ==> !chars_le(#[trigger] s[q].0, e.0),
    decreases k,
{
    if k == 0 || chars_le(s[k - 1].0, e.0) {
        k
    } else {
        insertion_point(s, e, k - 1)
    }
}

/// The stable sort by key yields entries sorted by key, holding exactly the
/// entries it was given.
pub proof fn lemma_stable_sort_sorted(s: Seq<EntryView>)
    ensures
        sorted_by_key(stable_sort_by_key(s)),
        stable_sort_by_key(s).to_multiset() == s.to_multiset(),
    decreases s.len(),
{
    if s.len() == 0 {
        assert(stable_sort_by_key(s) =~= s);
    } else {
        lemma_stable_sort_sorted(s.drop_last());
        lemma_insert_by_key_sorted(stable_sort_by_key(s.drop_last()), s.last());
        vstd::seq_lib::to_multiset_build(s.drop_last(), s.last());
        assert(s.drop_last().push(s.last()) =~= s);
    }
}

/// The entries matugen's colors.json holds: neither a palette key color nor
/// an extended success role.
pub open spec fn matugen_keeps(e: EntryView) -> bool {
    !contains_seq(e.0, "paletteKeyColor"@) && !contains_seq(unicode_lowercase(e.0), "success"@)
}

/// The kept entries with snake_case keys and lowercase values, in palette order.
pub open spec fn matugen_entries(es: Seq<EntryView>) -> Seq<EntryView>
    decreases es.len(),
{
    if es.len() == 0 {
        Seq::empty()
    } else if matugen_keeps(es.last()) {
        matugen_entries(es.drop_last()).push((snake_case(es.last().0), unicode_lowercase(es.last().1)))
    } else {
        matugen_entries(es.drop_last())
    }
}

/// `  "key": "value"`, a comma unless it is the last line, and a newline.
pub open spec fn matugen_line(e: EntryView, last: bool) -> Seq<char> {
    "  \""@ + e.0 + "\": \""@ + e.1 + "\""@ + (if last {
        Seq::empty()
    } else {
        ","@
    }) + "\n"@
}

/// The first `n` lines of the object body.
pub open spec fn matugen_lines(es: Seq<EntryView>, n: int) -> Seq<char>
    decreases n,
{
    if n <= 0 {
        Seq::empty()
    } else {
        matugen_lines(es, n - 1) + matugen_line(es[n - 1], n == es.len())
    }
}

/// The whole document: `{`, one line per entry, `}`.
pub open spec fn matugen_json_text(es: Seq<EntryView>) -> Seq<char> {
    let sorted = stable_sort_by_key(matugen_entries(es));
    "{\n"@ + matugen_lines(sorted, sorted.len() as int) + "}"@
}

fn clone_entry(e: &(String, String)) -> (c: (String, String))
    ensures
        c.0@ == e.0@,
        c.1@ == e.1@,
{
    (e.0.clone(), e.1.clone())
}

/// Insert `e` into a key-sorted vector after all entries with keys not
/// greater than its own.
fn insert_sorted(sorted: &Vec<(String, String)>, e: (String, String)) -> (r: Vec<(String, String)>)
    ensures
        entries_view(r@) == insert_by_key(entries_view(sorted@), (e.0@, e.1@)),
{
    let ghost s = entries_view(sorted@);
    let ghost ev = (e.0@, e.1@);
    let n = sorted.len();
    let mut p: usize = n;
    while p > 0 && !chars_le_exec(sorted[p - 1].0.as_str(), e.0.as_str())
        invariant
            n == sorted@.len(),
            s == entries_view(sorted@),
            ev == (e.0@, e.1@),
            0 <= p <= n,
            forall|q: int| p <= q < n ==> !chars_le(#[trigger] s[q].0, ev.0),
        decreases p,
    {
        assert(s[p - 1].0 == sorted@[p - 1].0@);
        p = p - 1;
    }
    proof {
        lemma_insert_by_key_at(s, ev, p as int);
    }
    let mut r: Vec<(String, String)> = Vec::new();
    let mut i: usize = 0;
    while i < p
        invariant
            n == sorted@.len(),
            s == entries_view(sorted@),
            0 <= i <= p <= n,
            entries_view(r@) == s.take(i as int),
        decreases p - i,
    {
        let c = clone_entry(&sorted[i]);
        let ghost before = r@;
        r.push(c);
        proof {
            crate::palette::lemma_entries_view_push(before, c);
            assert(s.take(i + 1) =~= s.take(i as int).push(s[i as int]));
        }
        i = i + 1;
    }
    let ghost before = r@;
    r.push(e);
    proof {
        crate::palette::lemma_entries_view_push(before, e);
    }
    let ghost mid = entries_view(r@);
    while i < n
        invariant
            n == sorted@.len(),
            s == entries_view(sorted@),
            0 <= p <= i <= n,
            entries_view(r@) == s.take(p as int).push(ev) + s.subrange(p as int, i as int),
        decreases n - i,
    {
        let c = clone_entry(&sorted[i]);
        let ghost before = r@;
        r.push(c);
        proof {
            crate::palette::lemma_entries_view_push(before, c);
            assert(s.take(p as int).push(ev) + s.subrange(p as int, i + 1) =~= (s.take(p as int).push(ev)
                + s.subrange(p as int, i as int)).push(s[i as int]));
        }
        i = i + 1;
    }
    assert(s.insert(p as int, ev) =~= s.take(p as int).push(ev) + s.subrange(p as int, n as int));
    r
}

/// matugen-compatible flat colors.json: the scheme keys in snake_case,
/// ordered by key, lowercase values, 2-space indent. Palette key colors and
/// the extended success roles are left out.
pub fn to_matugen_colors_json(palette: &Palette) -> (out: String)
    ensures
        out@ == matugen_json_text(palette.view_entries()),
{
    let ghost es = palette.view_entries();
    // select and rename, keeping palette order
    let mut selected: Vec<(String, String)> = Vec::new();
    let mut i: usize = 0;
    while i < palette.entries.len()
        invariant
            es == palette.view_entries(),
            0 <= i <= es.len(),
            entries_view(selected@) == matugen_entries(es.take(i as int)),
        decreases es.len() - i,
    {
        assert(es.take(i + 1).drop_last() =~= es.take(i as int));
        assert(es.take(i + 1).last() == es[i as int]);
        let k = palette.entries[i].0.as_str();
        let v = palette.entries[i].1.as_str();
        let lower_key = to_lowercase(k);
        if !contains(k, "paletteKeyColor") && !contains(lower_key.as_str(), "success") {
            let e = (camel_to_snake(k), to_lowercase(v));
            let ghost before = selected@;
            selected.push(e);
            proof {
                crate::palette::lemma_entries_view_push(before, e);
            }
        }
        i = i + 1;
    }
    assert(es.take(i as int) =~= es);
    // stable insertion sort by key
    let ghost sel = entries_view(selected@);
    let mut sorted: Vec<(String, String)> = Vec::new();
    let mut j: usize = 0;
    while j < selected.len()
        invariant
            sel == entries_view(selected@),
            0 <= j <= sel.len(),
            entries_view(sorted@) == stable_sort_by_key(sel.take(j as int)),
        decreases sel.len() - j,
    {
        assert(sel.take(j + 1).drop_last() =~= sel.take(j as int));
        assert(sel.take(j + 1).last() == sel[j as int]);
        let e = clone_entry(&selected[j]);
        sorted = insert_sorted(&sorted, e);
        j = j + 1;
    }
    assert(sel.take(j as int) =~= sel);
    let ghost srt = entries_view(sorted@);
    // render
    let mut out = String::new();
    out.append("{\n");
    let n = sorted.len();
    let mut k: usize = 0;
    while k < n
        invariant
            n == sorted@.len(),
            srt == entries_view(sorted@),
            0 <= k <= n,
            out@ == "{\n"@ + matugen_lines(srt, k as int),
        decreases n - k,
    {
        assert(srt[k as int] == (sorted@[k as int].0@, sorted@[k as int].1@));
        out.append("  \"");
        out.append(sorted[k].0.as_str());
        out.append("\": \"");
        out.append(sorted[k].1.as_str());
        out.append("\"");
        if k + 1 < n {
            out.append(",");
        }
        out.append("\n");
        assert(out@ =~= "{\n"@ + matugen_lines(srt, k + 1));
        k = k + 1;
    }
    out.append("}");
    out
}

// ── laws ────────────────────────────────────────────────────────────────

/// colors.json lists its keys in order, holds every kept entry and nothing
/// else.
pub proof fn lemma_matugen_sorted(es: Seq<EntryView>)
    ensures
        sorted_by_key(stable_sort_by_key(matugen_entries(es))),
        stable_sort_by_key(matugen_entries(es)).to_multiset() == matugen_entries(es).to_multiset(),
{
    lemma_stable_sort_sorted(matugen_entries(es));
}

} // verus!
