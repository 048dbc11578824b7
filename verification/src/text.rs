//! Small string helpers over `String`/`&str` views.

use vstd::prelude::*;

verus! {

/// Appends a character to a string (std's `String::push`).
#[verifier::external_body]
pub(crate) fn push_char(s: &mut String, c: char)
    ensures
        final(s)@ == old(s)@.push(c),
{
    s.push(c);
}

/// The characters of `s`, in order.
pub fn chars_of(s: &str) -> (v: Vec<char>)
    ensures
        v@ == s@,
{
    let mut v: Vec<char> = Vec::new();
    for c in it: s.chars()
        invariant
            v@ == it.seq().take(it.index() as int),
            it.seq() == s@,
    {
        v.push(c);
    }
    v
}

} // verus!

verus! {

/// Character-wise string equality.
pub fn str_eq(a: &str, b: &str) -> (r: bool)
    ensures
        r == (a@ == b@),
{
    let x = chars_of(a);
    let y = chars_of(b);
    if x.len() != y.len() {
        return false;
    }
    let mut i: usize = 0;
    while i < x.len()
        invariant
            x@ == a@,
            y@ == b@,
            x@.len() == y@.len(),
            0 <= i <= x@.len(),
            forall|j: int| 0 <= j < i ==> x@[j] == y@[j],
        decreases x@.len() - i,
    {
        if x[i] != y[i] {
            return false;
        }
        i = i + 1;
    }
    assert(x@ =~= y@);
    true
}

} // verus!

verus! {

/// ASCII lowercase of a character; other characters are unchanged.
pub open spec fn ascii_lower(c: char) -> char {
    if 'A' <= c <= 'Z' {
        ((c as u32) + 32) as char
    } else {
        c
    }
}

/// `c` is an ASCII uppercase letter.
pub open spec fn is_ascii_upper(c: char) -> bool {
    'A' <= c <= 'Z'
}

/// ASCII lowercase of a character.
pub fn to_ascii_lower(c: char) -> (r: char)
    ensures
        r == ascii_lower(c),
{
    if 'A' <= c && c <= 'Z' {
        ((c as u8) + 32) as char
    } else {
        c
    }
}

/// Unicode lowercase mapping of a string, as std's `str::to_lowercase` computes it.
pub uninterp spec fn unicode_lowercase(s: Seq<char>) -> Seq<char>;

/// Unicode lowercase of a string (std's `str::to_lowercase`). For ASCII
/// input this is the ASCII lowercase of every character.
#[verifier::external_body]
pub(crate) fn to_lowercase(s: &str) -> (r: String)
    ensures
        r@ == unicode_lowercase(s@),
        vstd::utf8::is_ascii_chars(s@) ==> r@ == s@.map_values(|c: char| ascii_lower(c)),
{
    s.to_lowercase()
}

/// `needle` occurs in `hay` starting at position `i`.
pub open spec fn occurs_at(hay: Seq<char>, needle: Seq<char>, i: int) -> bool {
    0 <= i && i + needle.len() <= hay.len() && hay.subrange(i, i + needle.len()) == needle
}

/// `needle` occurs somewhere in `hay`.
pub open spec fn contains_seq(hay: Seq<char>, needle: Seq<char>) -> bool {
    exists|i: int| occurs_at(hay, needle, i)
}

/// Substring test on character sequences.
pub fn contains(hay: &str, needle: &str) -> (r: bool)
    ensures
        r == contains_seq(hay@, needle@),
{
    let h = chars_of(hay);
    let n = chars_of(needle);
    if n.len() > h.len() {
        proof {
            assert forall|i: int| !occurs_at(hay@, needle@, i) by {}
        }
        return false;
    }
    let hl = h.len();
    let nl = n.len();
    let mut i: usize = 0;
    while i <= hl - nl
        invariant
            h@ == hay@,
            n@ == needle@,
            hl == h@.len(),
            nl == n@.len(),
            nl <= hl,
            0 <= i <= hl - nl + 1,
            forall|k: int| 0 <= k < i ==> !occurs_at(hay@, needle@, k),
        decreases hl - i,
    {
        let mut j: usize = 0;
        let mut ok = true;
        while j < nl
            invariant
                h@ == hay@,
                n@ == needle@,
                hl == h@.len(),
                nl == n@.len(),
                i + nl <= hl,
                0 <= j <= nl,
                ok == (forall|q: int| 0 <= q < j ==> h@[i + q] == n@[q]),
            decreases nl - j,
        {
            if h[i + j] != n[j] {
                ok = false;
            }
            j = j + 1;
        }
        if ok {
            assert(hay@.subrange(i as int, i + needle@.len()) =~= needle@);
            assert(occurs_at(hay@, needle@, i as int));
            return true;
        }
        assert(!occurs_at(hay@, needle@, i as int)) by {
            if occurs_at(hay@, needle@, i as int) {
                assert forall|q: int| 0 <= q < n@.len() implies h@[i + q] == n@[q] by {
                    assert(hay@.subrange(i as int, i + needle@.len())[q] == h@[i + q]);
                }
            }
        }
        i = i + 1;
    }
    assert forall|k: int| !occurs_at(hay@, needle@, k) by {
        if 0 <= k && k >= i {
            assert(k + needle@.len() > hay@.len());
        }
    }
    false
}

} // verus!

verus! {

/// `p` is a prefix of `s`.
pub open spec fn has_prefix(s: Seq<char>, p: Seq<char>) -> bool {
    p.len() <= s.len() && s.subrange(0, p.len() as int) == p
}

/// Prefix test on strings.
pub fn starts_with(s: &str, p: &str) -> (r: bool)
    ensures
        r == has_prefix(s@, p@),
{
    let a = chars_of(s);
    let b = chars_of(p);
    if b.len() > a.len() {
        return false;
    }
    let mut i: usize = 0;
    while i < b.len()
        invariant
            a@ == s@,
            b@ == p@,
            b@.len() <= a@.len(),
            0 <= i <= b@.len(),
            forall|j: int| 0 <= j < i ==> a@[j] == b@[j],
        decreases b@.len() - i,
    {
        if a[i] != b[i] {
            assert(s@.subrange(0, p@.len() as int)[i as int] != p@[i as int]);
            return false;
        }
        i = i + 1;
    }
    assert(s@.subrange(0, p@.len() as int) =~= p@);
    true
}

/// Unicode `White_Space` characters, as `char::is_whitespace` recognizes them.
pub open spec fn is_white_space(c: char) -> bool {
    let u = c as u32;
    (0x09 <= u <= 0x0d) || u == 0x20 || u == 0x85 || u == 0xa0 || u == 0x1680 || (0x2000 <= u
        <= 0x200a) || u == 0x2028 || u == 0x2029 || u == 0x202f || u == 0x205f || u == 0x3000
}

/// `char::is_whitespace`.
pub fn is_white(c: char) -> (r: bool)
    ensures
        r == is_white_space(c),
{
    let u = c as u32;
    (0x09 <= u && u <= 0x0d) || u == 0x20 || u == 0x85 || u == 0xa0 || u == 0x1680 || (0x2000 <= u
        && u <= 0x200a) || u == 0x2028 || u == 0x2029 || u == 0x202f || u == 0x205f || u == 0x3000
}

/// Number of leading white-space characters.
pub open spec fn leading_white(s: Seq<char>) -> nat
    decreases s.len(),
{
    if s.len() > 0 && is_white_space(s[0]) {
        1 + leading_white(s.drop_first())
    } else {
        0
    }
}

/// Number of trailing white-space characters.
pub open spec fn trailing_white(s: Seq<char>) -> nat
    decreases s.len(),
{
    if s.len() > 0 && is_white_space(s.last()) {
        1 + trailing_white(s.drop_last())
    } else {
        0
    }
}

/// `str::trim`: white space removed from both ends.
pub open spec fn trim_white(s: Seq<char>) -> Seq<char> {
    let t = s.skip(leading_white(s) as int);
    t.take(t.len() - trailing_white(t))
}

pub proof fn lemma_leading_white(s: Seq<char>, k: int)
    requires
        0 <= k <= s.len(),
        forall|j: int| 0 <= j < k ==> is_white_space(#[trigger] s[j]),
        k == s.len() || !is_white_space(s[k]),
    ensures
        leading_white(s) == k,
    decreases k,
{
    if k > 0 {
        lemma_leading_white(s.drop_first(), k - 1);
    }
}

pub proof fn lemma_trailing_white(s: Seq<char>, k: int)
    requires
        0 <= k <= s.len(),
        forall|j: int| s.len() - k <= j < s.len() ==> is_white_space(#[trigger] s[j]),
        k == s.len() || !is_white_space(s[s.len() - k - 1]),
    ensures
        trailing_white(s) == k,
    decreases k,
{
    if k > 0 {
        lemma_trailing_white(s.drop_last(), k - 1);
    }
}

/// Trim white space off both ends of a character vector.
pub fn trim_chars(s: &Vec<char>) -> (t: Vec<char>)
    ensures
        t@ == trim_white(s@),
{
    let n = s.len();
    let mut a: usize = 0;
    while a < n && is_white(s[a])
        invariant
            n == s@.len(),
            0 <= a <= n,
            forall|j: int| 0 <= j < a ==> is_white_space(#[trigger] s@[j]),
        decreases n - a,
    {
        a = a + 1;
    }
    proof {
        lemma_leading_white(s@, a as int);
    }
    let mut b: usize = n;
    while b > a && is_white(s[b - 1])
        invariant
            n == s@.len(),
            0 <= a <= b <= n,
            forall|j: int| b <= j < n ==> is_white_space(#[trigger] s@[j]),
        decreases b,
    {
        b = b - 1;
    }
    let ghost u = s@.skip(a as int);
    proof {
        assert forall|j: int| u.len() - (n - b) <= j < u.len() implies is_white_space(#[trigger] u[j]) by {
            assert(u[j] == s@[a + j]);
        }
        if b > a {
            assert(u[u.len() - (n - b) - 1] == s@[b - 1]);
        }
        lemma_trailing_white(u, (n - b) as int);
    }
    let mut t: Vec<char> = Vec::new();
    let mut i: usize = a;
    while i < b
        invariant
            n == s@.len(),
            0 <= a <= i <= b <= n,
            t@ == s@.subrange(a as int, i as int),
        decreases b - i,
    {
        t.push(s[i]);
        assert(t@ =~= s@.subrange(a as int, i + 1));
        i = i + 1;
    }
    assert(t@ =~= trim_white(s@));
    t
}

} // verus!

verus! {

/// The pieces of `s` between occurrences of `sep` (`str::split(sep)`);
/// there is always at least one.
pub open spec fn split_on(s: Seq<char>, sep: char) -> Seq<Seq<char>>
    decreases s.len(),
{
    if s.len() == 0 {
        seq![Seq::empty()]
    } else {
        let parts = split_on(s.drop_last(), sep);
        if s.last() == sep {
            parts.push(Seq::empty())
        } else {
            parts.update(parts.len() - 1, parts.last().push(s.last()))
        }
    }
}

/// `split_on` yields at least one piece.
pub proof fn lemma_split_on_nonempty(s: Seq<char>, sep: char)
    ensures
        split_on(s, sep).len() >= 1,
    decreases s.len(),
{
    if s.len() > 0 {
        lemma_split_on_nonempty(s.drop_last(), sep);
    }
}

} // verus!

verus! {

/// `i` is the first position at or after `from` where `needle` occurs.
pub open spec fn is_first_occurrence(hay: Seq<char>, needle: Seq<char>, from: int, i: int) -> bool {
    &&& from <= i
    &&& occurs_at(hay, needle, i)
    &&& forall|k: int| from <= k < i ==> !occurs_at(hay, needle, k)
}

/// `str::find` from position `from`: the first occurrence of `needle`.
pub open spec fn first_occurrence(hay: Seq<char>, needle: Seq<char>, from: int) -> Option<int> {
    if exists|i: int| is_first_occurrence(hay, needle, from, i) {
        Some(choose|i: int| is_first_occurrence(hay, needle, from, i))
    } else {
        None
    }
}

pub proof fn lemma_first_occurrence_unique(hay: Seq<char>, needle: Seq<char>, from: int, i: int)
    requires
        is_first_occurrence(hay, needle, from, i),
    ensures
        first_occurrence(hay, needle, from) == Some(i),
{
    let c = choose|i: int| is_first_occurrence(hay, needle, from, i);
    assert(is_first_occurrence(hay, needle, from, c));
    if c < i {
        assert(!occurs_at(hay, needle, c));
    }
    if i < c {
        assert(!occurs_at(hay, needle, i));
    }
}

/// `str::find` from a position, on character vectors.
pub fn find_from(hay: &Vec<char>, needle: &Vec<char>, from: usize) -> (r: Option<usize>)
    requires
        from <= hay@.len(),
    ensures
        match r {
            Some(i) => first_occurrence(hay@, needle@, from as int) == Some(i as int),
            None => first_occurrence(hay@, needle@, from as int) is None,
        },
{
    let hl = hay.len();
    let nl = needle.len();
    if nl > hl || from > hl - nl {
        assert forall|i: int| !is_first_occurrence(hay@, needle@, from as int, i) by {}
        return None;
    }
    let mut i: usize = from;
    while i <= hl - nl
        invariant
            hl == hay@.len(),
            nl == needle@.len(),
            nl <= hl,
            from <= i <= hl - nl + 1,
            from <= hl,
            forall|k: int| from <= k < i ==> !occurs_at(hay@, needle@, k),
        decreases hl - i,
    {
        let mut j: usize = 0;
        let mut ok = true;
        while j < nl
            invariant
                hl == hay@.len(),
                nl == needle@.len(),
                i + nl <= hl,
                0 <= j <= nl,
                ok == (forall|q: int| 0 <= q < j ==> hay@[i + q] == needle@[q]),
            decreases nl - j,
        {
            if hay[i + j] != needle[j] {
                ok = false;
            }
            j = j + 1;
        }
        if ok {
            assert(hay@.subrange(i as int, i + nl) =~= needle@);
            proof {
                lemma_first_occurrence_unique(hay@, needle@, from as int, i as int);
            }
            return Some(i);
        }
        assert(!occurs_at(hay@, needle@, i as int)) by {
            if occurs_at(hay@, needle@, i as int) {
                assert forall|q: int| 0 <= q < nl implies hay@[i + q] == needle@[q] by {
                    assert(hay@.subrange(i as int, i + nl)[q] == hay@[i + q]);
                }
            }
        }
        i = i + 1;
    }
    assert forall|k: int| !is_first_occurrence(hay@, needle@, from as int, k) by {
        if from <= k && k >= i {
            assert(k + nl > hl);
        }
    }
    None
}

/// A string holding the given characters.
pub fn string_of_chars(v: &Vec<char>) -> (s: String)
    ensures
        s@ == v@,
{
    let mut s = String::new();
    let mut i: usize = 0;
    while i < v.len()
        invariant
            0 <= i <= v@.len(),
            s@ == v@.take(i as int),
        decreases v@.len() - i,
    {
        push_char(&mut s, v[i]);
        assert(s@ =~= v@.take(i + 1));
        i = i + 1;
    }
    assert(v@.take(i as int) =~= v@);
    s
}

} // verus!

verus! {

/// Whether a character vector spells a string.
pub fn chars_eq_lit(v: &Vec<char>, lit: &str) -> (r: bool)
    ensures
        r == (v@ == lit@),
{
    let w = chars_of(lit);
    if v.len() != w.len() {
        return false;
    }
    let mut i: usize = 0;
    while i < v.len()
        invariant
            w@ == lit@,
            v@.len() == w@.len(),
            0 <= i <= v@.len(),
            forall|j: int| 0 <= j < i ==> v@[j] == w@[j],
        decreases v@.len() - i,
    {
        if v[i] != w[i] {
            return false;
        }
        i = i + 1;
    }
    assert(v@ =~= w@);
    true
}

/// Split a character vector at every `sep` (`str::split`).
pub fn split_chars(v: &Vec<char>, sep: char) -> (parts: Vec<Vec<char>>)
    ensures
        parts@.len() == split_on(v@, sep).len(),
        forall|i: int| 0 <= i < parts@.len() ==> #[trigger] parts@[i]@ == split_on(v@, sep)[i],
{
    let mut parts: Vec<Vec<char>> = Vec::new();
    let mut cur: Vec<char> = Vec::new();
    let mut i: usize = 0;
    while i < v.len()
        invariant
            0 <= i <= v@.len(),
            split_on(v@.take(i as int), sep).len() >= 1,
            parts@.len() == split_on(v@.take(i as int), sep).len() - 1,
            forall|q: int| 0 <= q < parts@.len() ==> #[trigger] parts@[q]@ == split_on(v@.take(i as int), sep)[q],
            cur@ == split_on(v@.take(i as int), sep).last(),
        decreases v@.len() - i,
    {
        let ghost prev = split_on(v@.take(i as int), sep);
        assert(v@.take(i + 1).drop_last() =~= v@.take(i as int));
        if v[i] == sep {
            let done = cur;
            parts.push(done);
            cur = Vec::new();
            proof {
                let now = split_on(v@.take(i + 1), sep);
                assert(now =~= prev.push(Seq::empty()));
                assert forall|q: int| 0 <= q < parts@.len() implies #[trigger] parts@[q]@ == now[q] by {
                    if q < parts@.len() - 1 {
                        assert(now[q] == prev[q]);
                    }
                }
                lemma_split_on_nonempty(v@.take(i + 1), sep);
            }
        } else {
            cur.push(v[i]);
            proof {
                let now = split_on(v@.take(i + 1), sep);
                assert(now =~= prev.update(prev.len() - 1, prev.last().push(v@[i as int])));
                assert forall|q: int| 0 <= q < parts@.len() implies #[trigger] parts@[q]@ == now[q] by {
                    assert(now[q] == prev[q]);
                }
                assert(cur@ =~= now.last());
                lemma_split_on_nonempty(v@.take(i + 1), sep);
            }
        }
        i = i + 1;
    }
    let last = cur;
    parts.push(last);
    proof {
        assert(v@.take(i as int) =~= v@);
        let all = split_on(v@, sep);
        assert forall|q: int| 0 <= q < parts@.len() implies #[trigger] parts@[q]@ == all[q] by {
            if q == parts@.len() - 1 {
                assert(all[q] == all.last());
            }
        }
    }
    parts
}

} // verus!
