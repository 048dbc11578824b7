//! The decisions of a command-line request that do not need the outside
//! world: which scheme to build, what goes to standard output, which
//! templates were asked for, and where a `~/` path points.

use vstd::prelude::*;

use crate::scheme::{lemma_cli_name_roundtrip, variant_named, SchemeVariant};
use crate::text::{chars_of, split_chars, split_on, str_eq, string_of_chars, trim_chars, trim_white};

verus! {

/// The scheme name in effect: `scheme-neutral` when an image seed has low
/// chroma and `--smart` was given, the requested name otherwise.
pub open spec fn chosen_scheme(from_image: bool, smart: bool, low_chroma: bool, requested: Seq<char>) -> Seq<char> {
    if from_image && smart && low_chroma {
        "scheme-neutral"@
    } else {
        requested
    }
}

/// The scheme name a `generate` request uses (`low_chroma`: the seed's HCT
/// chroma is below 20).
pub fn scheme_choice(from_image: bool, smart: bool, low_chroma: bool, requested: &str) -> (r: String)
    ensures
        r@ == chosen_scheme(from_image, smart, low_chroma, requested@),
{
    if from_image && smart && low_chroma {
        "scheme-neutral".to_string()
    } else {
        requested.to_string()
    }
}

/// The smart downgrade selects the neutral scheme variant.
pub proof fn lemma_smart_downgrade_is_neutral(requested: Seq<char>)
    ensures
        variant_named(chosen_scheme(true, true, true, requested)) == SchemeVariant::Neutral,
{
    lemma_cli_name_roundtrip(SchemeVariant::Neutral);
}

/// Terminal colors pass through untouched only for the bare scheme name
/// `monochrome` (the `scheme-…` names never select it).
pub fn terminal_passthrough(scheme_name: &str) -> (r: bool)
    ensures
        r == (scheme_name@ == "monochrome"@),
{
    str_eq(scheme_name, "monochrome")
}

/// What a `generate` request prints on standard output.
#[derive(Debug, Clone, Copy, PartialEq, Eq, Structural)]
pub enum Printed {
    /// The flat JSON palette.
    FlatJson,
    /// The SCSS palette.
    Scss,
    /// Nothing.
    Nothing,
}

/// Flat JSON when asked for; else the SCSS unless it was written to a file.
pub open spec fn printed_spec(json: bool, scss_to_file: bool) -> Printed {
    if json {
        Printed::FlatJson
    } else if !scss_to_file {
        Printed::Scss
    } else {
        Printed::Nothing
    }
}

/// What goes to standard output after a palette was generated.
pub fn printed(json: bool, scss_to_file: bool) -> (r: Printed)
    ensures
        r == printed_spec(json, scss_to_file),
{
    if json {
        Printed::FlatJson
    } else if !scss_to_file {
        Printed::Scss
    } else {
        Printed::Nothing
    }
}

/// The template names of an `--only` value: split at commas, each trimmed.
pub open spec fn only_names(s: Seq<char>) -> Seq<Seq<char>> {
    split_on(s, ',').map_values(|p: Seq<char>| trim_white(p))
}

/// Parse an `--only` value into template names.
pub fn only_list(s: &str) -> (r: Vec<String>)
    ensures
        r@.len() == only_names(s@).len(),
        forall|i: int| 0 <= i < r@.len() ==> #[trigger] r@[i]@ == only_names(s@)[i],
{
    let cs = chars_of(s);
    let parts = split_chars(&cs, ',');
    let mut r: Vec<String> = Vec::new();
    let mut i: usize = 0;
    while i < parts.len()
        invariant
            cs@ == s@,
            parts@.len() == split_on(cs@, ',').len(),
            forall|q: int| 0 <= q < parts@.len() ==> #[trigger] parts@[q]@ == split_on(cs@, ',')[q],
            0 <= i <= parts@.len(),
            r@.len() == i,
            forall|q: int| 0 <= q < i ==> #[trigger] r@[q]@ == only_names(s@)[q],
        decreases parts@.len() - i,
    {
        let t = trim_chars(&parts[i]);
        r.push(string_of_chars(&t));
        i = i + 1;
    }
    r
}

/// The rest of a path written `~/rest`, relative to the home directory.
pub open spec fn home_rest(p: Seq<char>) -> Option<Seq<char>> {
    if p.len() >= 2 && p[0] == '~' && p[1] == '/' {
        Some(p.skip(2))
    } else {
        None
    }
}

/// For `~/rest`, the part to join to the home directory.
pub fn home_relative(p: &str) -> (r: Option<String>)
    ensures
        match r {
            Some(rest) => home_rest(p@) == Some(rest@),
            None => home_rest(p@) is None,
        },
{
    let cs = chars_of(p);
    if cs.len() >= 2 && cs[0] == '~' && cs[1] == '/' {
        let mut rest: Vec<char> = Vec::new();
        let mut i: usize = 2;
        while i < cs.len()
            invariant
                cs@ == p@,
                2 <= i <= cs@.len(),
                rest@ == cs@.subrange(2, i as int),
            decreases cs@.len() - i,
        {
            rest.push(cs[i]);
            assert(rest@ =~= cs@.subrange(2, i + 1));
            i = i + 1;
        }
        assert(rest@ =~= p@.skip(2));
        Some(string_of_chars(&rest))
    } else {
        None
    }
}

} // verus!
