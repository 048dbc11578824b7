//! Material You scheme variants and palette assembly with the pipeline's
//! role names and order.

use vstd::prelude::*;

use crate::color::{argb_to_hex, hex_text, Argb};
use crate::compat::Role;
use crate::palette::{entries_view, lemma_entries_view_push, lemma_first_index_at, lookup, EntryView, Palette};
use crate::text::str_eq;

verus! {

/// The nine Material You scheme variants.
#[derive(Debug, Clone, Copy, PartialEq, Eq, Structural)]
pub enum SchemeVariant {
    TonalSpot,
    Vibrant,
    Expressive,
    FruitSalad,
    Monochrome,
    Rainbow,
    Neutral,
    Fidelity,
    Content,
}

/// The CLI name of each variant (specification).
pub open spec fn cli_name_spec(v: SchemeVariant) -> Seq<char> {
    match v {
        SchemeVariant::TonalSpot => "scheme-tonal-spot"@,
        SchemeVariant::Vibrant => "scheme-vibrant"@,
        SchemeVariant::Expressive => "scheme-expressive"@,
        SchemeVariant::FruitSalad => "scheme-fruit-salad"@,
        SchemeVariant::Monochrome => "scheme-monochrome"@,
        SchemeVariant::Rainbow => "scheme-rainbow"@,
        SchemeVariant::Neutral => "scheme-neutral"@,
        SchemeVariant::Fidelity => "scheme-fidelity"@,
        SchemeVariant::Content => "scheme-content"@,
    }
}

/// The variant a CLI name selects; unknown names select `TonalSpot`.
pub open spec fn variant_named(name: Seq<char>) -> SchemeVariant {
    if name == "scheme-content"@ {
        SchemeVariant::Content
    } else if name == "scheme-expressive"@ {
        SchemeVariant::Expressive
    } else if name == "scheme-fidelity"@ {
        SchemeVariant::Fidelity
    } else if name == "scheme-fruit-salad"@ {
        SchemeVariant::FruitSalad
    } else if name == "scheme-monochrome"@ {
        SchemeVariant::Monochrome
    } else if name == "scheme-neutral"@ {
        SchemeVariant::Neutral
    } else if name == "scheme-rainbow"@ {
        SchemeVariant::Rainbow
    } else if name == "scheme-tonal-spot"@ {
        SchemeVariant::TonalSpot
    } else if name == "scheme-vibrant"@ {
        SchemeVariant::Vibrant
    } else {
        SchemeVariant::TonalSpot
    }
}

impl SchemeVariant {
    /// Accepts the CLI names used across the pipeline ("scheme-tonal-spot"…).
    /// Unknown names fall back to `TonalSpot`.
    pub fn from_cli_name(name: &str) -> (v: SchemeVariant)
        ensures
            v == variant_named(name@),
    {
        if str_eq(name, "scheme-content") {
            SchemeVariant::Content
        } else if str_eq(name, "scheme-expressive") {
            SchemeVariant::Expressive
        } else if str_eq(name, "scheme-fidelity") {
            SchemeVariant::Fidelity
        } else if str_eq(name, "scheme-fruit-salad") {
            SchemeVariant::FruitSalad
        } else if str_eq(name, "scheme-monochrome") {
            SchemeVariant::Monochrome
        } else if str_eq(name, "scheme-neutral") {
            SchemeVariant::Neutral
        } else if str_eq(name, "scheme-rainbow") {
            SchemeVariant::Rainbow
        } else if str_eq(name, "scheme-tonal-spot") {
            SchemeVariant::TonalSpot
        } else if str_eq(name, "scheme-vibrant") {
            SchemeVariant::Vibrant
        } else {
            SchemeVariant::TonalSpot
        }
    }

    /// The CLI name of the variant.
    pub fn cli_name(&self) -> (s: &'static str)
        ensures
            s@ == cli_name_spec(*self),
    {
        match self {
            SchemeVariant::TonalSpot => "scheme-tonal-spot",
            SchemeVariant::Vibrant => "scheme-vibrant",
            SchemeVariant::Expressive => "scheme-expressive",
            SchemeVariant::FruitSalad => "scheme-fruit-salad",
            SchemeVariant::Monochrome => "scheme-monochrome",
            SchemeVariant::Rainbow => "scheme-rainbow",
            SchemeVariant::Neutral => "scheme-neutral",
            SchemeVariant::Fidelity => "scheme-fidelity",
            SchemeVariant::Content => "scheme-content",
        }
    }
}

/// `from_cli_name` inverts `cli_name`.
pub proof fn lemma_cli_name_roundtrip(v: SchemeVariant)
    ensures
        variant_named(cli_name_spec(v)) == v,
{
    reveal_strlit("scheme-tonal-spot");
    reveal_strlit("scheme-vibrant");
    reveal_strlit("scheme-expressive");
    reveal_strlit("scheme-fruit-salad");
    reveal_strlit("scheme-monochrome");
    reveal_strlit("scheme-rainbow");
    reveal_strlit("scheme-neutral");
    reveal_strlit("scheme-fidelity");
    reveal_strlit("scheme-content");
    match v {
        SchemeVariant::TonalSpot => {
            assert("scheme-tonal-spot"@.len() != "scheme-content"@.len());
            assert("scheme-tonal-spot"@[7] != "scheme-expressive"@[7]);
            assert("scheme-tonal-spot"@.len() != "scheme-fidelity"@.len());
            assert("scheme-tonal-spot"@.len() != "scheme-fruit-salad"@.len());
            assert("scheme-tonal-spot"@[7] != "scheme-monochrome"@[7]);
            assert("scheme-tonal-spot"@.len() != "scheme-neutral"@.len());
            assert("scheme-tonal-spot"@.len() != "scheme-rainbow"@.len());
        },
        SchemeVariant::Vibrant => {
            assert("scheme-vibrant"@[7] != "scheme-content"@[7]);
            assert("scheme-vibrant"@.len() != "scheme-expressive"@.len());
            assert("scheme-vibrant"@.len() != "scheme-fidelity"@.len());
            assert("scheme-vibrant"@.len() != "scheme-fruit-salad"@.len());
            assert("scheme-vibrant"@.len() != "scheme-monochrome"@.len());
            assert("scheme-vibrant"@[7] != "scheme-neutral"@[7]);
            assert("scheme-vibrant"@[7] != "scheme-rainbow"@[7]);
            assert("scheme-vibrant"@.len() != "scheme-tonal-spot"@.len());
        },
        SchemeVariant::Expressive => {
            assert("scheme-expressive"@.len() != "scheme-content"@.len());
        },
        SchemeVariant::FruitSalad => {
            assert("scheme-fruit-salad"@.len() != "scheme-content"@.len());
            assert("scheme-fruit-salad"@.len() != "scheme-expressive"@.len());
            assert("scheme-fruit-salad"@.len() != "scheme-fidelity"@.len());
        },
        SchemeVariant::Monochrome => {
            assert("scheme-monochrome"@.len() != "scheme-content"@.len());
            assert("scheme-monochrome"@[7] != "scheme-expressive"@[7]);
            assert("scheme-monochrome"@.len() != "scheme-fidelity"@.len());
            assert("scheme-monochrome"@.len() != "scheme-fruit-salad"@.len());
        },
        SchemeVariant::Rainbow => {
            assert("scheme-rainbow"@[7] != "scheme-content"@[7]);
            assert("scheme-rainbow"@.len() != "scheme-expressive"@.len());
            assert("scheme-rainbow"@.len() != "scheme-fidelity"@.len());
            assert("scheme-rainbow"@.len() != "scheme-fruit-salad"@.len());
            assert("scheme-rainbow"@.len() != "scheme-monochrome"@.len());
            assert("scheme-rainbow"@[7] != "scheme-neutral"@[7]);
        },
        SchemeVariant::Neutral => {
            assert("scheme-neutral"@[7] != "scheme-content"@[7]);
            assert("scheme-neutral"@.len() != "scheme-expressive"@.len());
            assert("scheme-neutral"@.len() != "scheme-fidelity"@.len());
            assert("scheme-neutral"@.len() != "scheme-fruit-salad"@.len());
            assert("scheme-neutral"@.len() != "scheme-monochrome"@.len());
        },
        SchemeVariant::Fidelity => {
            assert("scheme-fidelity"@.len() != "scheme-content"@.len());
            assert("scheme-fidelity"@.len() != "scheme-expressive"@.len());
        },
        SchemeVariant::Content => {
        },
    }
}

// ── palette assembly ────────────────────────────────────────────────────

/// The palette key of each role (specification).
pub open spec fn role_name_spec(role: Role) -> Seq<char> {
    match role {
        Role::Background => "background"@,
        Role::Error => "error"@,
        Role::ErrorContainer => "errorContainer"@,
        Role::InverseOnSurface => "inverseOnSurface"@,
        Role::InversePrimary => "inversePrimary"@,
        Role::InverseSurface => "inverseSurface"@,
        Role::NeutralPaletteKeyColor => "neutral_paletteKeyColor"@,
        Role::NeutralVariantPaletteKeyColor => "neutral_variant_paletteKeyColor"@,
        Role::OnBackground => "onBackground"@,
        Role::OnError => "onError"@,
        Role::OnErrorContainer => "onErrorContainer"@,
        Role::OnPrimary => "onPrimary"@,
        Role::OnPrimaryContainer => "onPrimaryContainer"@,
        Role::OnPrimaryFixed => "onPrimaryFixed"@,
        Role::OnPrimaryFixedVariant => "onPrimaryFixedVariant"@,
        Role::OnSecondary => "onSecondary"@,
        Role::OnSecondaryContainer => "onSecondaryContainer"@,
        Role::OnSecondaryFixed => "onSecondaryFixed"@,
        Role::OnSecondaryFixedVariant => "onSecondaryFixedVariant"@,
        Role::OnSurface => "onSurface"@,
        Role::OnSurfaceVariant => "onSurfaceVariant"@,
        Role::OnTertiary => "onTertiary"@,
        Role::OnTertiaryContainer => "onTertiaryContainer"@,
        Role::OnTertiaryFixed => "onTertiaryFixed"@,
        Role::OnTertiaryFixedVariant => "onTertiaryFixedVariant"@,
        Role::Outline => "outline"@,
        Role::OutlineVariant => "outlineVariant"@,
        Role::Primary => "primary"@,
        Role::PrimaryContainer => "primaryContainer"@,
        Role::PrimaryFixed => "primaryFixed"@,
        Role::PrimaryFixedDim => "primaryFixedDim"@,
        Role::PrimaryPaletteKeyColor => "primary_paletteKeyColor"@,
        Role::Scrim => "scrim"@,
        Role::Secondary => "secondary"@,
        Role::SecondaryContainer => "secondaryContainer"@,
        Role::SecondaryFixed => "secondaryFixed"@,
        Role::SecondaryFixedDim => "secondaryFixedDim"@,
        Role::SecondaryPaletteKeyColor => "secondary_paletteKeyColor"@,
        Role::Shadow => "shadow"@,
        Role::Surface => "surface"@,
        Role::SurfaceBright => "surfaceBright"@,
        Role::SurfaceContainer => "surfaceContainer"@,
        Role::SurfaceContainerHigh => "surfaceContainerHigh"@,
        Role::SurfaceContainerHighest => "surfaceContainerHighest"@,
        Role::SurfaceContainerLow => "surfaceContainerLow"@,
        Role::SurfaceContainerLowest => "surfaceContainerLowest"@,
        Role::SurfaceDim => "surfaceDim"@,
        Role::SurfaceTint => "surfaceTint"@,
        Role::SurfaceVariant => "surfaceVariant"@,
        Role::Tertiary => "tertiary"@,
        Role::TertiaryContainer => "tertiaryContainer"@,
        Role::TertiaryFixed => "tertiaryFixed"@,
        Role::TertiaryFixedDim => "tertiaryFixedDim"@,
        Role::TertiaryPaletteKeyColor => "tertiary_paletteKeyColor"@,
    }
}

/// The palette key under which a role's color is emitted.
pub fn role_name(role: Role) -> (s: &'static str)
    ensures
        s@ == role_name_spec(role),
{
    match role {
        Role::Background => "background",
        Role::Error => "error",
        Role::ErrorContainer => "errorContainer",
        Role::InverseOnSurface => "inverseOnSurface",
        Role::InversePrimary => "inversePrimary",
        Role::InverseSurface => "inverseSurface",
        Role::NeutralPaletteKeyColor => "neutral_paletteKeyColor",
        Role::NeutralVariantPaletteKeyColor => "neutral_variant_paletteKeyColor",
        Role::OnBackground => "onBackground",
        Role::OnError => "onError",
        Role::OnErrorContainer => "onErrorContainer",
        Role::OnPrimary => "onPrimary",
        Role::OnPrimaryContainer => "onPrimaryContainer",
        Role::OnPrimaryFixed => "onPrimaryFixed",
        Role::OnPrimaryFixedVariant => "onPrimaryFixedVariant",
        Role::OnSecondary => "onSecondary",
        Role::OnSecondaryContainer => "onSecondaryContainer",
        Role::OnSecondaryFixed => "onSecondaryFixed",
        Role::OnSecondaryFixedVariant => "onSecondaryFixedVariant",
        Role::OnSurface => "onSurface",
        Role::OnSurfaceVariant => "onSurfaceVariant",
        Role::OnTertiary => "onTertiary",
        Role::OnTertiaryContainer => "onTertiaryContainer",
        Role::OnTertiaryFixed => "onTertiaryFixed",
        Role::OnTertiaryFixedVariant => "onTertiaryFixedVariant",
        Role::Outline => "outline",
        Role::OutlineVariant => "outlineVariant",
        Role::Primary => "primary",
        Role::PrimaryContainer => "primaryContainer",
        Role::PrimaryFixed => "primaryFixed",
        Role::PrimaryFixedDim => "primaryFixedDim",
        Role::PrimaryPaletteKeyColor => "primary_paletteKeyColor",
        Role::Scrim => "scrim",
        Role::Secondary => "secondary",
        Role::SecondaryContainer => "secondaryContainer",
        Role::SecondaryFixed => "secondaryFixed",
        Role::SecondaryFixedDim => "secondaryFixedDim",
        Role::SecondaryPaletteKeyColor => "secondary_paletteKeyColor",
        Role::Shadow => "shadow",
        Role::Surface => "surface",
        Role::SurfaceBright => "surfaceBright",
        Role::SurfaceContainer => "surfaceContainer",
        Role::SurfaceContainerHigh => "surfaceContainerHigh",
        Role::SurfaceContainerHighest => "surfaceContainerHighest",
        Role::SurfaceContainerLow => "surfaceContainerLow",
        Role::SurfaceContainerLowest => "surfaceContainerLowest",
        Role::SurfaceDim => "surfaceDim",
        Role::SurfaceTint => "surfaceTint",
        Role::SurfaceVariant => "surfaceVariant",
        Role::Tertiary => "tertiary",
        Role::TertiaryContainer => "tertiaryContainer",
        Role::TertiaryFixed => "tertiaryFixed",
        Role::TertiaryFixedDim => "tertiaryFixedDim",
        Role::TertiaryPaletteKeyColor => "tertiary_paletteKeyColor",
    }
}

/// The emission order of the roles (specification); `0 <= i < 54`.
pub open spec fn role_at_spec(i: int) -> Role {
    if i == 5 {
        Role::Background
    } else if i == 38 {
        Role::Error
    } else if i == 40 {
        Role::ErrorContainer
    } else if i == 19 {
        Role::InverseOnSurface
    } else if i == 29 {
        Role::InversePrimary
    } else if i == 18 {
        Role::InverseSurface
    } else if i == 3 {
        Role::NeutralPaletteKeyColor
    } else if i == 4 {
        Role::NeutralVariantPaletteKeyColor
    } else if i == 6 {
        Role::OnBackground
    } else if i == 39 {
        Role::OnError
    } else if i == 41 {
        Role::OnErrorContainer
    } else if i == 26 {
        Role::OnPrimary
    } else if i == 28 {
        Role::OnPrimaryContainer
    } else if i == 44 {
        Role::OnPrimaryFixed
    } else if i == 45 {
        Role::OnPrimaryFixedVariant
    } else if i == 31 {
        Role::OnSecondary
    } else if i == 33 {
        Role::OnSecondaryContainer
    } else if i == 48 {
        Role::OnSecondaryFixed
    } else if i == 49 {
        Role::OnSecondaryFixedVariant
    } else if i == 15 {
        Role::OnSurface
    } else if i == 17 {
        Role::OnSurfaceVariant
    } else if i == 35 {
        Role::OnTertiary
    } else if i == 37 {
        Role::OnTertiaryContainer
    } else if i == 52 {
        Role::OnTertiaryFixed
    } else if i == 20 {
        Role::Outline
    } else if i == 21 {
        Role::OutlineVariant
    } else if i == 25 {
        Role::Primary
    } else if i == 27 {
        Role::PrimaryContainer
    } else if i == 42 {
        Role::PrimaryFixed
    } else if i == 43 {
        Role::PrimaryFixedDim
    } else if i == 0 {
        Role::PrimaryPaletteKeyColor
    } else if i == 23 {
        Role::Scrim
    } else if i == 30 {
        Role::Secondary
    } else if i == 32 {
        Role::SecondaryContainer
    } else if i == 46 {
        Role::SecondaryFixed
    } else if i == 47 {
        Role::SecondaryFixedDim
    } else if i == 1 {
        Role::SecondaryPaletteKeyColor
    } else if i == 22 {
        Role::Shadow
    } else if i == 7 {
        Role::Surface
    } else if i == 9 {
        Role::SurfaceBright
    } else if i == 12 {
        Role::SurfaceContainer
    } else if i == 13 {
        Role::SurfaceContainerHigh
    } else if i == 14 {
        Role::SurfaceContainerHighest
    } else if i == 11 {
        Role::SurfaceContainerLow
    } else if i == 10 {
        Role::SurfaceContainerLowest
    } else if i == 8 {
        Role::SurfaceDim
    } else if i == 24 {
        Role::SurfaceTint
    } else if i == 16 {
        Role::SurfaceVariant
    } else if i == 34 {
        Role::Tertiary
    } else if i == 36 {
        Role::TertiaryContainer
    } else if i == 50 {
        Role::TertiaryFixed
    } else if i == 51 {
        Role::TertiaryFixedDim
    } else if i == 2 {
        Role::TertiaryPaletteKeyColor
    } else {
        Role::OnTertiaryFixedVariant
    }
}

/// The `i`-th role in emission order.
pub fn role_at(i: usize) -> (r: Role)
    requires
        i < 54,
    ensures
        r == role_at_spec(i as int),
{
    match i {
        5 => Role::Background,
        38 => Role::Error,
        40 => Role::ErrorContainer,
        19 => Role::InverseOnSurface,
        29 => Role::InversePrimary,
        18 => Role::InverseSurface,
        3 => Role::NeutralPaletteKeyColor,
        4 => Role::NeutralVariantPaletteKeyColor,
        6 => Role::OnBackground,
        39 => Role::OnError,
        41 => Role::OnErrorContainer,
        26 => Role::OnPrimary,
        28 => Role::OnPrimaryContainer,
        44 => Role::OnPrimaryFixed,
        45 => Role::OnPrimaryFixedVariant,
        31 => Role::OnSecondary,
        33 => Role::OnSecondaryContainer,
        48 => Role::OnSecondaryFixed,
        49 => Role::OnSecondaryFixedVariant,
        15 => Role::OnSurface,
        17 => Role::OnSurfaceVariant,
        35 => Role::OnTertiary,
        37 => Role::OnTertiaryContainer,
        52 => Role::OnTertiaryFixed,
        20 => Role::Outline,
        21 => Role::OutlineVariant,
        25 => Role::Primary,
        27 => Role::PrimaryContainer,
        42 => Role::PrimaryFixed,
        43 => Role::PrimaryFixedDim,
        0 => Role::PrimaryPaletteKeyColor,
        23 => Role::Scrim,
        30 => Role::Secondary,
        32 => Role::SecondaryContainer,
        46 => Role::SecondaryFixed,
        47 => Role::SecondaryFixedDim,
        1 => Role::SecondaryPaletteKeyColor,
        22 => Role::Shadow,
        7 => Role::Surface,
        9 => Role::SurfaceBright,
        12 => Role::SurfaceContainer,
        13 => Role::SurfaceContainerHigh,
        14 => Role::SurfaceContainerHighest,
        11 => Role::SurfaceContainerLow,
        10 => Role::SurfaceContainerLowest,
        8 => Role::SurfaceDim,
        24 => Role::SurfaceTint,
        16 => Role::SurfaceVariant,
        34 => Role::Tertiary,
        36 => Role::TertiaryContainer,
        50 => Role::TertiaryFixed,
        51 => Role::TertiaryFixedDim,
        2 => Role::TertiaryPaletteKeyColor,
        _ => Role::OnTertiaryFixedVariant,
    }
}

/// Number of Material roles in a generated palette.
pub const ROLE_COUNT: usize = 54;

/// Names of the extended success roles, in emission order.
pub open spec fn success_names() -> Seq<Seq<char>> {
    seq!["success"@, "onSuccess"@, "successContainer"@, "onSuccessContainer"@]
}

/// The fixed colors of the success roles in dark or light mode.
pub open spec fn success_colors(dark: bool) -> Seq<Seq<char>> {
    if dark {
        seq!["#B5CCBA"@, "#213528"@, "#374B3E"@, "#D1E9D6"@]
    } else {
        seq!["#4F6354"@, "#FFFFFF"@, "#D1E8D5"@, "#0C1F13"@]
    }
}

/// The extended success roles appended after the Material roles (specification).
pub open spec fn success_entries(dark: bool) -> Seq<EntryView> {
    Seq::new(4, |k: int| (success_names()[k], success_colors(dark)[k]))
}

fn success_name(k: usize) -> (s: &'static str)
    requires
        k < 4,
    ensures
        s@ == success_names()[k as int],
{
    match k {
        0 => "success",
        1 => "onSuccess",
        2 => "successContainer",
        _ => "onSuccessContainer",
    }
}

fn success_color(k: usize, dark: bool) -> (s: &'static str)
    requires
        k < 4,
    ensures
        s@ == success_colors(dark)[k as int],
{
    match k {
        0 => if dark { "#B5CCBA" } else { "#4F6354" },
        1 => if dark { "#213528" } else { "#FFFFFF" },
        2 => if dark { "#374B3E" } else { "#D1E8D5" },
        _ => if dark { "#D1E9D6" } else { "#0C1F13" },
    }
}

/// One entry per role, in emission order, with the role's color as `#RRGGBB`.
pub open spec fn role_entries(colors: Seq<Argb>) -> Seq<EntryView> {
    Seq::new(54, |i: int| (role_name_spec(role_at_spec(i)), hex_text(colors[i])))
}

fn push_entry(entries: &mut Vec<(String, String)>, key: &str, value: &str)
    ensures
        final(entries)@.len() == old(entries)@.len() + 1,
        forall|j: int| 0 <= j < old(entries)@.len() ==> #[trigger] final(entries)@[j] == old(entries)@[j],
        final(entries)@.last().0@ == key@,
        final(entries)@.last().1@ == value@,
{
    entries.push((key.to_string(), value.to_string()));
}

/// Assemble the generated palette from the color of each role (in the order
/// of `role_at`), followed by the pipeline's hard-coded success roles.
pub fn palette_from_role_colors(dark: bool, colors: &[Argb]) -> (p: Palette)
    requires
        colors@.len() == 54,
    ensures
        p.dark == dark,
        p.view_entries() == role_entries(colors@) + success_entries(dark),
{
    let mut entries: Vec<(String, String)> = Vec::new();
    let mut i: usize = 0;
    while i < ROLE_COUNT
        invariant
            colors@.len() == 54,
            0 <= i <= 54,
            entries_view(entries@) == role_entries(colors@).take(i as int),
        decreases 54 - i,
    {
        let name = role_name(role_at(i));
        let hex = argb_to_hex(colors[i]);
        let ghost before = entries@;
        let entry = (name.to_string(), hex);
        entries.push(entry);
        proof {
            lemma_entries_view_push(before, entry);
            assert(role_entries(colors@).take(i + 1) =~= role_entries(colors@).take(i as int).push(
                (entry.0@, entry.1@),
            ));
        }
        i = i + 1;
    }
    let ghost roles_part = entries_view(entries@);
    let mut k: usize = 0;
    while k < 4
        invariant
            0 <= k <= 4,
            entries@.len() == 54 + k,
            forall|j: int| 0 <= j < 54 ==> #[trigger] entries_view(entries@)[j] == roles_part[j],
            forall|j: int| 0 <= j < k ==> #[trigger] entries_view(entries@)[54 + j] == success_entries(dark)[j],
            roles_part.len() == 54,
        decreases 4 - k,
    {
        let ghost before = entries@;
        push_entry(&mut entries, success_name(k), success_color(k, dark));
        proof {
            assert forall|j: int| 0 <= j < before.len() implies #[trigger] entries_view(entries@)[j]
                == entries_view(before)[j] by {
                assert(entries@[j] == before[j]);
            }
            assert(entries_view(entries@)[54 + k] == success_entries(dark)[k as int]);
        }
        k = k + 1;
    }
    let p = Palette { dark, entries };
    assert(p.view_entries() =~= role_entries(colors@) + success_entries(dark)) by {
        assert(role_entries(colors@).take(54) =~= role_entries(colors@));
        assert(p.view_entries().len() == 58);
        assert forall|j: int| 0 <= j < 58 implies #[trigger] p.view_entries()[j] == (role_entries(
            colors@,
        ) + success_entries(dark))[j] by {
            if j < 54 {
                assert(p.view_entries()[j] == roles_part[j]);
            } else {
                assert(p.view_entries()[54 + (j - 54)] == success_entries(dark)[j - 54]);
            }
        }
    }
    p
}

// ── laws ────────────────────────────────────────────────────────────────

/// The keys of a generated palette, in emission order.
pub open spec fn emitted_names() -> Seq<Seq<char>> {
    Seq::new(54, |i: int| role_name_spec(role_at_spec(i))) + success_names()
}

/// Length, third character and last character: enough to tell the
/// emitted names apart.
spec fn name_key(s: Seq<char>) -> (nat, char, char) {
    (s.len(), s[2], s.last())
}

/// The position of the emitted name with a given key.
spec fn position_of_key(k: (nat, char, char)) -> int {
    if k == (10nat, 'c', 'd') {
        5
    } else if k == (5nat, 'r', 'r') {
        38
    } else if k == (14nat, 'r', 'r') {
        40
    } else if k == (16nat, 'v', 'e') {
        19
    } else if k == (14nat, 'v', 'y') {
        29
    } else if k == (14nat, 'v', 'e') {
        18
    } else if k == (23nat, 'u', 'r') {
        3
    } else if k == (31nat, 'u', 'r') {
        4
    } else if k == (12nat, 'B', 'd') {
        6
    } else if k == (7nat, 'E', 'r') {
        39
    } else if k == (16nat, 'E', 'r') {
        41
    } else if k == (9nat, 'P', 'y') {
        26
    } else if k == (18nat, 'P', 'r') {
        28
    } else if k == (14nat, 'P', 'd') {
        44
    } else if k == (21nat, 'P', 't') {
        45
    } else if k == (11nat, 'S', 'y') {
        31
    } else if k == (20nat, 'S', 'r') {
        33
    } else if k == (16nat, 'S', 'd') {
        48
    } else if k == (23nat, 'S', 't') {
        49
    } else if k == (9nat, 'S', 's') {
        55
    } else if k == (18nat, 'S', 'r') {
        57
    } else if k == (9nat, 'S', 'e') {
        15
    } else if k == (16nat, 'S', 't') {
        17
    } else if k == (10nat, 'T', 'y') {
        35
    } else if k == (19nat, 'T', 'r') {
        37
    } else if k == (15nat, 'T', 'd') {
        52
    } else if k == (22nat, 'T', 't') {
        53
    } else if k == (7nat, 't', 'e') {
        20
    } else if k == (14nat, 't', 't') {
        21
    } else if k == (7nat, 'i', 'y') {
        25
    } else if k == (16nat, 'i', 'r') {
        27
    } else if k == (12nat, 'i', 'd') {
        42
    } else if k == (15nat, 'i', 'm') {
        43
    } else if k == (23nat, 'i', 'r') {
        0
    } else if k == (5nat, 'r', 'm') {
        23
    } else if k == (9nat, 'c', 'y') {
        30
    } else if k == (18nat, 'c', 'r') {
        32
    } else if k == (14nat, 'c', 'd') {
        46
    } else if k == (17nat, 'c', 'm') {
        47
    } else if k == (25nat, 'c', 'r') {
        1
    } else if k == (6nat, 'a', 'w') {
        22
    } else if k == (7nat, 'c', 's') {
        54
    } else if k == (16nat, 'c', 'r') {
        56
    } else if k == (7nat, 'r', 'e') {
        7
    } else if k == (13nat, 'r', 't') {
        9
    } else if k == (16nat, 'r', 'r') {
        12
    } else if k == (20nat, 'r', 'h') {
        13
    } else if k == (23nat, 'r', 't') {
        14
    } else if k == (19nat, 'r', 'w') {
        11
    } else if k == (22nat, 'r', 't') {
        10
    } else if k == (10nat, 'r', 'm') {
        8
    } else if k == (11nat, 'r', 't') {
        24
    } else if k == (14nat, 'r', 't') {
        16
    } else if k == (8nat, 'r', 'y') {
        34
    } else if k == (17nat, 'r', 'r') {
        36
    } else if k == (13nat, 'r', 'd') {
        50
    } else if k == (16nat, 'r', 'm') {
        51
    } else if k == (24nat, 'r', 'r') {
        2
    } else {
        -1
    }
}

/// No name is emitted twice.
proof fn lemma_emitted_names_distinct()
    ensures
        forall|i: int, j: int| 0 <= i < 58 && 0 <= j < 58 && i != j ==> emitted_names()[i] != emitted_names()[j],
{
    reveal_strlit("background");
    reveal_strlit("error");
    reveal_strlit("errorContainer");
    reveal_strlit("inverseOnSurface");
    reveal_strlit("inversePrimary");
    reveal_strlit("inverseSurface");
    reveal_strlit("neutral_paletteKeyColor");
    reveal_strlit("neutral_variant_paletteKeyColor");
    reveal_strlit("onBackground");
    reveal_strlit("onError");
    reveal_strlit("onErrorContainer");
    reveal_strlit("onPrimary");
    reveal_strlit("onPrimaryContainer");
    reveal_strlit("onPrimaryFixed");
    reveal_strlit("onPrimaryFixedVariant");
    reveal_strlit("onSecondary");
    reveal_strlit("onSecondaryContainer");
    reveal_strlit("onSecondaryFixed");
    reveal_strlit("onSecondaryFixedVariant");
    reveal_strlit("onSuccess");
    reveal_strlit("onSuccessContainer");
    reveal_strlit("onSurface");
    reveal_strlit("onSurfaceVariant");
    reveal_strlit("onTertiary");
    reveal_strlit("onTertiaryContainer");
    reveal_strlit("onTertiaryFixed");
    reveal_strlit("onTertiaryFixedVariant");
    reveal_strlit("outline");
    reveal_strlit("outlineVariant");
    reveal_strlit("primary");
    reveal_strlit("primaryContainer");
    reveal_strlit("primaryFixed");
    reveal_strlit("primaryFixedDim");
    reveal_strlit("primary_paletteKeyColor");
    reveal_strlit("scrim");
    reveal_strlit("secondary");
    reveal_strlit("secondaryContainer");
    reveal_strlit("secondaryFixed");
    reveal_strlit("secondaryFixedDim");
    reveal_strlit("secondary_paletteKeyColor");
    reveal_strlit("shadow");
    reveal_strlit("success");
    reveal_strlit("successContainer");
    reveal_strlit("surface");
    reveal_strlit("surfaceBright");
    reveal_strlit("surfaceContainer");
    reveal_strlit("surfaceContainerHigh");
    reveal_strlit("surfaceContainerHighest");
    reveal_strlit("surfaceContainerLow");
    reveal_strlit("surfaceContainerLowest");
    reveal_strlit("surfaceDim");
    reveal_strlit("surfaceTint");
    reveal_strlit("surfaceVariant");
    reveal_strlit("tertiary");
    reveal_strlit("tertiaryContainer");
    reveal_strlit("tertiaryFixed");
    reveal_strlit("tertiaryFixedDim");
    reveal_strlit("tertiary_paletteKeyColor");
    assert forall|i: int| 0 <= i < 58 implies position_of_key(name_key(#[trigger] emitted_names()[i])) == i by {
        if i >= 54 {
            assert(emitted_names()[i] == success_names()[i - 54]);
        }
    }
    assert forall|i: int, j: int| 0 <= i < 58 && 0 <= j < 58 && i != j implies emitted_names()[i]
        != emitted_names()[j] by {
        assert(position_of_key(name_key(emitted_names()[i])) == i);
        assert(position_of_key(name_key(emitted_names()[j])) == j);
    }
}

/// In a generated palette every key occurs once: `get` of a role's name gives
/// back that role's color, and `get` of a success role its fixed value.
pub proof fn lemma_palette_lookup(colors: Seq<Argb>, dark: bool)
    requires
        colors.len() == 54,
    ensures
        forall|i: int|
            0 <= i < 54 ==> lookup(role_entries(colors) + success_entries(dark), #[trigger] role_name_spec(role_at_spec(i)))
                == Some(hex_text(colors[i])),
        forall|k: int|
            0 <= k < 4 ==> lookup(role_entries(colors) + success_entries(dark), #[trigger] success_entries(dark)[k].0)
                == Some(success_entries(dark)[k].1),
{
    let es = role_entries(colors) + success_entries(dark);
    lemma_emitted_names_distinct();
    assert forall|j: int| 0 <= j < 58 implies #[trigger] es[j].0 == emitted_names()[j] by {
        if j >= 54 {
            assert(es[j] == success_entries(dark)[j - 54]);
        }
    }
    assert forall|i: int| 0 <= i < 54 implies lookup(es, #[trigger] role_name_spec(role_at_spec(i))) == Some(hex_text(colors[i])) by {
        assert(es[i].0 == emitted_names()[i]);
        assert forall|j: int| 0 <= j < i implies #[trigger] es[j].0 != role_name_spec(role_at_spec(i)) by {
            assert(es[j].0 == emitted_names()[j]);
        }
        lemma_first_index_at(es, role_name_spec(role_at_spec(i)), i);
    }
    assert forall|k: int| 0 <= k < 4 implies lookup(es, #[trigger] success_entries(dark)[k].0) == Some(success_entries(dark)[k].1) by {
        let name = success_entries(dark)[k].0;
        assert(es[54 + k] == success_entries(dark)[k]);
        assert(es[54 + k].0 == emitted_names()[54 + k]);
        assert forall|j: int| 0 <= j < 54 + k implies #[trigger] es[j].0 != name by {
            assert(es[j].0 == emitted_names()[j]);
        }
        lemma_first_index_at(es, name, 54 + k);
    }
}

/// `#` and six uppercase hexadecimal digits.
pub open spec fn is_upper_hex_color(v: Seq<char>) -> bool {
    &&& v.len() == 7
    &&& v[0] == '#'
    &&& forall|k: int| 1 <= k < 7 ==> ('0' <= #[trigger] v[k] <= '9') || ('A' <= v[k] <= 'F')
}

proof fn lemma_hex_text_upper(c: Argb)
    ensures
        is_upper_hex_color(hex_text(c)),
{
    let v = hex_text(c);
    assert forall|k: int| 1 <= k < 7 implies ('0' <= #[trigger] v[k] <= '9') || ('A' <= v[k] <= 'F') by {
        let b: u8 = if k < 3 { c.red } else if k < 5 { c.green } else { c.blue };
        assert(b as int / 16 < 16 && b as int % 16 < 16);
    }
}

/// A generated palette: 58 entries, the 54 roles then the success roles,
/// every key once, every value `#` and six uppercase hexadecimal digits.
pub proof fn lemma_generated_palette_shape(colors: Seq<Argb>, dark: bool)
    requires
        colors.len() == 54,
    ensures
        (role_entries(colors) + success_entries(dark)).len() == 58,
        forall|i: int, j: int|
            0 <= i < 58 && 0 <= j < 58 && i != j ==> #[trigger] (role_entries(colors) + success_entries(dark))[i].0
                != #[trigger] (role_entries(colors) + success_entries(dark))[j].0,
        forall|i: int| 0 <= i < 58 ==> is_upper_hex_color(#[trigger] (role_entries(colors) + success_entries(dark))[i].1),
{
    let es = role_entries(colors) + success_entries(dark);
    lemma_emitted_names_distinct();
    assert forall|j: int| 0 <= j < 58 implies #[trigger] es[j].0 == emitted_names()[j] by {
        if j >= 54 {
            assert(es[j] == success_entries(dark)[j - 54]);
        }
    }
    reveal_strlit("#B5CCBA");
    reveal_strlit("#213528");
    reveal_strlit("#374B3E");
    reveal_strlit("#D1E9D6");
    reveal_strlit("#4F6354");
    reveal_strlit("#FFFFFF");
    reveal_strlit("#D1E8D5");
    reveal_strlit("#0C1F13");
    assert forall|i: int| 0 <= i < 58 implies is_upper_hex_color(#[trigger] es[i].1) by {
        if i < 54 {
            lemma_hex_text_upper(colors[i]);
        } else {
            assert(es[i] == success_entries(dark)[i - 54]);
        }
    }
}

} // verus!
