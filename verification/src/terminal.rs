//! Terminal ANSI palette derivation: a base-16 scheme harmonized toward the
//! generated palette's primary key color.
//!
//! The HCT color arithmetic (hue rotation, chroma/tone scaling) is floating
//! point and runs in the application; this module decides, per base color,
//! which of those operations applies and to which colors.

use vstd::prelude::*;

use vstd::string::StringSliceAdditionalSpecFns;
use vstd::utf8::encode_utf8;

use crate::color::{hex_to_argb, is_hex_color, parsed_color, Argb};
use crate::palette::{
    entries_view, first_index, lemma_entries_view_push, lemma_first_index, lemma_first_index_at, lookup, EntryView,
    Palette,
};
use crate::render::{members_view, JsonMembers};
use crate::text::str_eq;

verus! {

/// What to do with one base color.
#[derive(Debug, Clone, Copy, PartialEq, Eq, Structural)]
pub enum TermAction {
    /// Keep the base value as it is.
    Keep,
    /// Scale chroma by 1.2 and tone by 0.95 of this color (`term0` blended
    /// toward the surface).
    BlendBackground(Argb),
    /// Scale chroma by 3 of this color (`term15` blended toward the foreground).
    BlendForeground(Argb),
    /// Rotate `base`'s hue toward `accent` (when there is one), then scale
    /// its tone by the foreground boost.
    Harmonize { base: Argb, accent: Option<Argb> },
}

/// The color a palette role holds, when it is a hex color.
pub open spec fn role_color(es: Seq<EntryView>, role: Seq<char>) -> Option<Argb> {
    match lookup(es, role) {
        Some(h) => if is_hex_color(encode_utf8(h)) {
            Some(parsed_color(encode_utf8(h)))
        } else {
            None
        },
        None => None,
    }
}

/// The action for one base entry (specification).
pub open spec fn term_action(
    es: Seq<EntryView>,
    entry: EntryView,
    blend_bg_fg: bool,
    passthrough: bool,
) -> TermAction {
    let bytes = encode_utf8(entry.1);
    if passthrough || !is_hex_color(bytes) {
        TermAction::Keep
    } else {
        let base = parsed_color(bytes);
        if blend_bg_fg && entry.0 == "term0"@ {
            TermAction::BlendBackground(
                match role_color(es, "surfaceContainerLow"@) {
                    Some(c) => c,
                    None => base,
                },
            )
        } else if blend_bg_fg && entry.0 == "term15"@ {
            TermAction::BlendForeground(
                match role_color(es, "onSurface"@) {
                    Some(c) => c,
                    None => base,
                },
            )
        } else {
            TermAction::Harmonize { base, accent: role_color(es, "primary_paletteKeyColor"@) }
        }
    }
}

fn role_color_exec(palette: &Palette, role: &str) -> (r: Option<Argb>)
    ensures
        r == role_color(palette.view_entries(), role@),
{
    match palette.get(role) {
        Some(h) => match hex_to_argb(h) {
            Ok(c) => Some(c),
            Err(_) => None,
        },
        None => None,
    }
}

/// One action per base entry, in order: untouched when `passthrough` or
/// when the value is not a hex color; with `blend_bg_fg`, `term0` and
/// `term15` are derived from the palette's `surfaceContainerLow` and
/// `onSurface` (falling back to their own color); every other entry is
/// harmonized toward `primary_paletteKeyColor`.
pub fn terminal_plan(palette: &Palette, base: &[(String, String)], blend_bg_fg: bool, passthrough: bool) -> (plan: Vec<TermAction>)
    ensures
        plan@.len() == base@.len(),
        forall|i: int|
            0 <= i < base@.len() ==> #[trigger] plan@[i] == term_action(
                palette.view_entries(),
                entries_view(base@)[i],
                blend_bg_fg,
                passthrough,
            ),
{
    let ghost es = palette.view_entries();
    let accent = role_color_exec(palette, "primary_paletteKeyColor");
    let mut plan: Vec<TermAction> = Vec::new();
    let mut i: usize = 0;
    while i < base.len()
        invariant
            es == palette.view_entries(),
            accent == role_color(es, "primary_paletteKeyColor"@),
            0 <= i <= base@.len(),
            plan@.len() == i,
            forall|j: int|
                0 <= j < i ==> #[trigger] plan@[j] == term_action(es, entries_view(base@)[j], blend_bg_fg, passthrough),
        decreases base@.len() - i,
    {
        let name = base[i].0.as_str();
        let hex = base[i].1.as_str();
        let ghost e = entries_view(base@)[i as int];
        assert(e == (name@, hex@));
        let action = if passthrough {
            TermAction::Keep
        } else {
            match hex_to_argb(hex) {
                Err(_) => TermAction::Keep,
                Ok(base_argb) => {
                    if blend_bg_fg && str_eq(name, "term0") {
                        let src = match role_color_exec(palette, "surfaceContainerLow") {
                            Some(c) => c,
                            None => base_argb,
                        };
                        TermAction::BlendBackground(src)
                    } else if blend_bg_fg && str_eq(name, "term15") {
                        let src = match role_color_exec(palette, "onSurface") {
                            Some(c) => c,
                            None => base_argb,
                        };
                        TermAction::BlendForeground(src)
                    } else {
                        TermAction::Harmonize { base: base_argb, accent }
                    }
                },
            }
        };
        assert(action == term_action(es, e, blend_bg_fg, passthrough));
        plan.push(action);
        i = i + 1;
    }
    plan
}

// ── laws ────────────────────────────────────────────────────────────────

/// Where each terminal color comes from. A base entry whose value is a hex
/// color, without passthrough: with blending, `term0` is derived from the
/// palette's `surfaceContainerLow` and `term15` from its `onSurface` (each
/// when the palette holds it as a hex color); every other entry, and every
/// entry without blending, is harmonized toward the palette's
/// `primary_paletteKeyColor`. With passthrough, or for a value that is not a
/// hex color, the entry is kept.
pub proof fn lemma_terminal_sources(es: Seq<EntryView>, entry: EntryView, blend: bool, passthrough: bool, h: Seq<char>)
    ensures
        passthrough || !is_hex_color(encode_utf8(entry.1)) ==> term_action(es, entry, blend, passthrough)
            == TermAction::Keep,
        !passthrough && is_hex_color(encode_utf8(entry.1)) && blend && entry.0 == "term15"@ && lookup(
            es,
            "onSurface"@,
        ) == Some(h) && is_hex_color(encode_utf8(h)) ==> term_action(es, entry, blend, passthrough)
            == TermAction::BlendForeground(parsed_color(encode_utf8(h))),
        !passthrough && is_hex_color(encode_utf8(entry.1)) && blend && entry.0 == "term0"@ && lookup(
            es,
            "surfaceContainerLow"@,
        ) == Some(h) && is_hex_color(encode_utf8(h)) ==> term_action(es, entry, blend, passthrough)
            == TermAction::BlendBackground(parsed_color(encode_utf8(h))),
        !passthrough && is_hex_color(encode_utf8(entry.1)) && (!blend || (entry.0 != "term0"@ && entry.0
            != "term15"@)) ==> term_action(es, entry, blend, passthrough) == (TermAction::Harmonize {
            base: parsed_color(encode_utf8(entry.1)),
            accent: match lookup(es, "primary_paletteKeyColor"@) {
                Some(k) => if is_hex_color(encode_utf8(k)) {
                    Some(parsed_color(encode_utf8(k)))
                } else {
                    None
                },
                None => None,
            },
        }),
{
    reveal_strlit("term0");
    reveal_strlit("term15");
    assert("term0"@.len() != "term15"@.len());
}

// ── the base scheme file ────────────────────────────────────────────────

/// The members of the JSON value a text holds, each with its own members
/// when it is an object (those with their values when they are strings):
/// `None` when the text is not JSON, no members when it is not an object.
pub uninterp spec fn json_sections(text: Seq<char>) -> Option<Seq<(Seq<char>, Option<JsonMembers>)>>;

/// The view of parsed sections.
pub open spec fn sections_view(v: Seq<(String, Option<Vec<(String, Option<String>)>>)>) -> Seq<(Seq<char>, Option<JsonMembers>)> {
    v.map_values(|e: (String, Option<Vec<(String, Option<String>)>>)| (e.0@, match e.1 {
        Some(m) => Some(members_view(m@)),
        None => None,
    }))
}

/// serde_json's `from_str` into a `Value`, its members when it is an object
/// and theirs when they are objects.
#[verifier::external_body]
fn parse_json_sections(text: &str) -> (r: Option<Vec<(String, Option<Vec<(String, Option<String>)>>)>>)
    ensures
        match r {
            Some(v) => json_sections(text@) == Some(sections_view(v@)),
            None => json_sections(text@) is None,
        },
{
    let v: serde_json::Value = serde_json::from_str(text).ok()?;
    let m = |o: &serde_json::Map<String, serde_json::Value>| o.iter().map(|(k, x)| (k.clone(), x.as_str().map(|s| s.to_string()))).collect();
    Some(v.as_object().map(|o| o.iter().map(|(k, x)| (k.clone(), x.as_object().map(m))).collect()).unwrap_or_default())
}

/// Why a base scheme file gives no entries.
#[derive(Debug, Clone, Copy, PartialEq, Eq, Structural)]
pub enum TermschemeError {
    /// The text is not JSON.
    Parse,
    /// There is no `dark` (or `light`) member.
    MissingSection,
    /// That member is not an object.
    NotObject,
}

/// The section name of a mode.
pub open spec fn section_name(dark: bool) -> Seq<char> {
    if dark {
        "dark"@
    } else {
        "light"@
    }
}

/// The entries of a section: each value that is not a string reads as "".
pub open spec fn section_entries(m: JsonMembers) -> Seq<EntryView> {
    m.map_values(|e: (Seq<char>, Option<Seq<char>>)| (e.0, match e.1 {
        Some(v) => v,
        None => Seq::empty(),
    }))
}

/// The base scheme of a mode from a scheme file (specification).
pub open spec fn termscheme_spec(text: Seq<char>, dark: bool) -> Result<Seq<EntryView>, TermschemeError> {
    match json_sections(text) {
        None => Err(TermschemeError::Parse),
        Some(secs) => match first_index(secs, section_name(dark)) {
            None => Err(TermschemeError::MissingSection),
            Some(i) => match secs[i].1 {
                None => Err(TermschemeError::NotObject),
                Some(m) => Ok(section_entries(m)),
            },
        },
    }
}

/// The base-16 scheme of a mode from a scheme file with `dark` and `light`
/// objects: their members in order, values that are not strings as "".
pub fn termscheme_entries(text: &str, dark: bool) -> (r: Result<Vec<(String, String)>, TermschemeError>)
    ensures
        match r {
            Ok(v) => termscheme_spec(text@, dark) == Ok::<Seq<EntryView>, TermschemeError>(entries_view(v@)),
            Err(e) => termscheme_spec(text@, dark) == Err::<Seq<EntryView>, TermschemeError>(e),
        },
{
    let secs = match parse_json_sections(text) {
        Some(v) => v,
        None => return Err(TermschemeError::Parse),
    };
    let ghost sv = sections_view(secs@);
    let key = if dark { "dark" } else { "light" };
    assert(key@ == section_name(dark));
    let mut i: usize = 0;
    while i < secs.len()
        invariant
            sv == sections_view(secs@),
            json_sections(text@) == Some(sv),
            key@ == section_name(dark),
            0 <= i <= secs@.len(),
            forall|j: int| 0 <= j < i ==> #[trigger] sv[j].0 != key@,
        decreases secs@.len() - i,
    {
        if str_eq(secs[i].0.as_str(), key) {
            proof {
                lemma_first_index_at(sv, key@, i as int);
            }
            return match &secs[i].1 {
                None => {
                    assert(sv[i as int].1 is None);
                    Err(TermschemeError::NotObject)
                },
                Some(m) => {
                    let mut out: Vec<(String, String)> = Vec::new();
                    let mut k: usize = 0;
                    while k < m.len()
                        invariant
                            0 <= k <= m@.len(),
                            entries_view(out@) == section_entries(members_view(m@)).take(k as int),
                        decreases m@.len() - k,
                    {
                        let v = match &m[k].1 {
                            Some(s) => s.clone(),
                            None => String::new(),
                        };
                        let ghost before = out@;
                        let e = (m[k].0.clone(), v);
                        out.push(e);
                        proof {
                            lemma_entries_view_push(before, e);
                        }
                        assert(entries_view(out@) =~= section_entries(members_view(m@)).take(k + 1));
                        k = k + 1;
                    }
                    assert(section_entries(members_view(m@)).take(k as int) =~= section_entries(members_view(m@)));
                    assert(sv[i as int].1 == Some(members_view(m@)));
                    assert(first_index(sv, section_name(dark)) == Some(i as int));
                    Ok(out)
                },
            };
        }
        i = i + 1;
    }
    proof {
        lemma_first_index(sv, key@);
    }
    Err(TermschemeError::MissingSection)
}

} // verus!
