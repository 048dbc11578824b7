//! Role table of the Material dynamic-color engine: which tonal palette each
//! role draws from, which role it must contrast against, its contrast curve
//! and its tone-pair partner. The tone solver itself works in floating point
//! and lives with the application; these tables are the data it consults.

use vstd::prelude::*;

use crate::scheme::SchemeVariant;

verus! {

/// A Material color role.
#[derive(Debug, Clone, Copy, PartialEq, Eq, Structural)]
pub enum Role {
    PrimaryPaletteKeyColor,
    SecondaryPaletteKeyColor,
    TertiaryPaletteKeyColor,
    NeutralPaletteKeyColor,
    NeutralVariantPaletteKeyColor,
    Background,
    OnBackground,
    Surface,
    SurfaceDim,
    SurfaceBright,
    SurfaceContainerLowest,
    SurfaceContainerLow,
    SurfaceContainer,
    SurfaceContainerHigh,
    SurfaceContainerHighest,
    OnSurface,
    SurfaceVariant,
    OnSurfaceVariant,
    InverseSurface,
    InverseOnSurface,
    Outline,
    OutlineVariant,
    Shadow,
    Scrim,
    SurfaceTint,
    Primary,
    OnPrimary,
    PrimaryContainer,
    OnPrimaryContainer,
    InversePrimary,
    Secondary,
    OnSecondary,
    SecondaryContainer,
    OnSecondaryContainer,
    Tertiary,
    OnTertiary,
    TertiaryContainer,
    OnTertiaryContainer,
    Error,
    OnError,
    ErrorContainer,
    OnErrorContainer,
    PrimaryFixed,
    PrimaryFixedDim,
    OnPrimaryFixed,
    OnPrimaryFixedVariant,
    SecondaryFixed,
    SecondaryFixedDim,
    OnSecondaryFixed,
    OnSecondaryFixedVariant,
    TertiaryFixed,
    TertiaryFixedDim,
    OnTertiaryFixed,
    OnTertiaryFixedVariant,
}

/// The tonal palette a role is drawn from.
#[derive(Debug, Clone, Copy, PartialEq, Eq, Structural)]
pub enum PaletteKind {
    Primary,
    Secondary,
    Tertiary,
    Neutral,
    NeutralVariant,
    Error,
}

/// How the two roles of a tone pair are placed relative to each other.
#[derive(Debug, Clone, Copy, PartialEq, Eq, Structural)]
pub enum Polarity {
    Nearer,
    Lighter,
}

/// Two roles whose tones are solved together (`a` is the container/fixed
/// role, `b` its partner), kept at least `delta` tone steps apart.
#[derive(Debug, Clone, Copy, PartialEq, Eq, Structural)]
pub struct Pair {
    pub a: Role,
    pub b: Role,
    pub delta: u8,
    pub polarity: Polarity,
    pub stay_together: bool,
}

/// The palette of each role (specification).
pub open spec fn palette_of_spec(role: Role) -> PaletteKind {
    match role {
        Role::PrimaryPaletteKeyColor
        | Role::SurfaceTint
        | Role::Primary
        | Role::OnPrimary
        | Role::PrimaryContainer
        | Role::OnPrimaryContainer
        | Role::InversePrimary
        | Role::PrimaryFixed
        | Role::PrimaryFixedDim
        | Role::OnPrimaryFixed
        | Role::OnPrimaryFixedVariant => PaletteKind::Primary,
        Role::SecondaryPaletteKeyColor
        | Role::Secondary
        | Role::OnSecondary
        | Role::SecondaryContainer
        | Role::OnSecondaryContainer
        | Role::SecondaryFixed
        | Role::SecondaryFixedDim
        | Role::OnSecondaryFixed
        | Role::OnSecondaryFixedVariant => PaletteKind::Secondary,
        Role::TertiaryPaletteKeyColor
        | Role::Tertiary
        | Role::OnTertiary
        | Role::TertiaryContainer
        | Role::OnTertiaryContainer
        | Role::TertiaryFixed
        | Role::TertiaryFixedDim
        | Role::OnTertiaryFixed
        | Role::OnTertiaryFixedVariant => PaletteKind::Tertiary,
        Role::NeutralPaletteKeyColor
        | Role::Background
        | Role::OnBackground
        | Role::Surface
        | Role::SurfaceDim
        | Role::SurfaceBright
        | Role::SurfaceContainerLowest
        | Role::SurfaceContainerLow
        | Role::SurfaceContainer
        | Role::SurfaceContainerHigh
        | Role::SurfaceContainerHighest
        | Role::OnSurface
        | Role::InverseSurface
        | Role::InverseOnSurface
        | Role::Shadow
        | Role::Scrim => PaletteKind::Neutral,
        Role::NeutralVariantPaletteKeyColor
        | Role::SurfaceVariant
        | Role::OnSurfaceVariant
        | Role::Outline
        | Role::OutlineVariant => PaletteKind::NeutralVariant,
        Role::Error
        | Role::OnError
        | Role::ErrorContainer
        | Role::OnErrorContainer => PaletteKind::Error,
    }
}

/// The tonal palette a role draws its color from.
pub fn palette_of(role: Role) -> (k: PaletteKind)
    ensures
        k == palette_of_spec(role),
{
    match role {
        Role::PrimaryPaletteKeyColor
        | Role::SurfaceTint
        | Role::Primary
        | Role::OnPrimary
        | Role::PrimaryContainer
        | Role::OnPrimaryContainer
        | Role::InversePrimary
        | Role::PrimaryFixed
        | Role::PrimaryFixedDim
        | Role::OnPrimaryFixed
        | Role::OnPrimaryFixedVariant => PaletteKind::Primary,
        Role::SecondaryPaletteKeyColor
        | Role::Secondary
        | Role::OnSecondary
        | Role::SecondaryContainer
        | Role::OnSecondaryContainer
        | Role::SecondaryFixed
        | Role::SecondaryFixedDim
        | Role::OnSecondaryFixed
        | Role::OnSecondaryFixedVariant => PaletteKind::Secondary,
        Role::TertiaryPaletteKeyColor
        | Role::Tertiary
        | Role::OnTertiary
        | Role::TertiaryContainer
        | Role::OnTertiaryContainer
        | Role::TertiaryFixed
        | Role::TertiaryFixedDim
        | Role::OnTertiaryFixed
        | Role::OnTertiaryFixedVariant => PaletteKind::Tertiary,
        Role::NeutralPaletteKeyColor
        | Role::Background
        | Role::OnBackground
        | Role::Surface
        | Role::SurfaceDim
        | Role::SurfaceBright
        | Role::SurfaceContainerLowest
        | Role::SurfaceContainerLow
        | Role::SurfaceContainer
        | Role::SurfaceContainerHigh
        | Role::SurfaceContainerHighest
        | Role::OnSurface
        | Role::InverseSurface
        | Role::InverseOnSurface
        | Role::Shadow
        | Role::Scrim => PaletteKind::Neutral,
        Role::NeutralVariantPaletteKeyColor
        | Role::SurfaceVariant
        | Role::OnSurfaceVariant
        | Role::Outline
        | Role::OutlineVariant => PaletteKind::NeutralVariant,
        Role::Error
        | Role::OnError
        | Role::ErrorContainer
        | Role::OnErrorContainer => PaletteKind::Error,
    }
}

/// The surface with the highest tone contrast in the given mode.
pub open spec fn highest_surface_spec(dark: bool) -> Role {
    if dark {
        Role::SurfaceBright
    } else {
        Role::SurfaceDim
    }
}

/// `SurfaceBright` in dark mode, `SurfaceDim` in light mode.
pub fn highest_surface(dark: bool) -> (r: Role)
    ensures
        r == highest_surface_spec(dark),
{
    if dark {
        Role::SurfaceBright
    } else {
        Role::SurfaceDim
    }
}

/// The role each role must contrast against (specification).
pub open spec fn background_of_spec(role: Role, dark: bool) -> Option<Role> {
    match role {
        Role::OnBackground => Some(Role::Background),
        Role::OnSurface
        | Role::OnSurfaceVariant
        | Role::Outline
        | Role::OutlineVariant
        | Role::Primary
        | Role::PrimaryContainer
        | Role::Secondary
        | Role::SecondaryContainer
        | Role::Tertiary
        | Role::TertiaryContainer
        | Role::Error
        | Role::ErrorContainer
        | Role::PrimaryFixed
        | Role::PrimaryFixedDim
        | Role::SecondaryFixed
        | Role::SecondaryFixedDim
        | Role::TertiaryFixed
        | Role::TertiaryFixedDim => Some(highest_surface_spec(dark)),
        Role::InverseOnSurface
        | Role::InversePrimary => Some(Role::InverseSurface),
        Role::OnPrimary => Some(Role::Primary),
        Role::OnPrimaryContainer => Some(Role::PrimaryContainer),
        Role::OnSecondary => Some(Role::Secondary),
        Role::OnSecondaryContainer => Some(Role::SecondaryContainer),
        Role::OnTertiary => Some(Role::Tertiary),
        Role::OnTertiaryContainer => Some(Role::TertiaryContainer),
        Role::OnError => Some(Role::Error),
        Role::OnErrorContainer => Some(Role::ErrorContainer),
        Role::OnPrimaryFixed
        | Role::OnPrimaryFixedVariant => Some(Role::PrimaryFixedDim),
        Role::OnSecondaryFixed
        | Role::OnSecondaryFixedVariant => Some(Role::SecondaryFixedDim),
        Role::OnTertiaryFixed
        | Role::OnTertiaryFixedVariant => Some(Role::TertiaryFixedDim),
        _ => None,
    }
}

/// The role `role` must keep its contrast against, if any.
pub fn background_of(role: Role, dark: bool) -> (r: Option<Role>)
    ensures
        r == background_of_spec(role, dark),
{
    match role {
        Role::OnBackground => Some(Role::Background),
        Role::OnSurface
        | Role::OnSurfaceVariant
        | Role::Outline
        | Role::OutlineVariant
        | Role::Primary
        | Role::PrimaryContainer
        | Role::Secondary
        | Role::SecondaryContainer
        | Role::Tertiary
        | Role::TertiaryContainer
        | Role::Error
        | Role::ErrorContainer
        | Role::PrimaryFixed
        | Role::PrimaryFixedDim
        | Role::SecondaryFixed
        | Role::SecondaryFixedDim
        | Role::TertiaryFixed
        | Role::TertiaryFixedDim => Some(highest_surface(dark)),
        Role::InverseOnSurface
        | Role::InversePrimary => Some(Role::InverseSurface),
        Role::OnPrimary => Some(Role::Primary),
        Role::OnPrimaryContainer => Some(Role::PrimaryContainer),
        Role::OnSecondary => Some(Role::Secondary),
        Role::OnSecondaryContainer => Some(Role::SecondaryContainer),
        Role::OnTertiary => Some(Role::Tertiary),
        Role::OnTertiaryContainer => Some(Role::TertiaryContainer),
        Role::OnError => Some(Role::Error),
        Role::OnErrorContainer => Some(Role::ErrorContainer),
        Role::OnPrimaryFixed
        | Role::OnPrimaryFixedVariant => Some(Role::PrimaryFixedDim),
        Role::OnSecondaryFixed
        | Role::OnSecondaryFixedVariant => Some(Role::SecondaryFixedDim),
        Role::OnTertiaryFixed
        | Role::OnTertiaryFixedVariant => Some(Role::TertiaryFixedDim),
        _ => None,
    }
}

/// The second background of the on-fixed roles (specification).
pub open spec fn second_background_of_spec(role: Role) -> Option<Role> {
    match role {
        Role::OnPrimaryFixed
        | Role::OnPrimaryFixedVariant => Some(Role::PrimaryFixed),
        Role::OnSecondaryFixed
        | Role::OnSecondaryFixedVariant => Some(Role::SecondaryFixed),
        Role::OnTertiaryFixed
        | Role::OnTertiaryFixedVariant => Some(Role::TertiaryFixed),
        _ => None,
    }
}

/// The second background of a role that sits on both fixed and fixed-dim surfaces.
pub fn second_background_of(role: Role) -> (r: Option<Role>)
    ensures
        r == second_background_of_spec(role),
{
    match role {
        Role::OnPrimaryFixed
        | Role::OnPrimaryFixedVariant => Some(Role::PrimaryFixed),
        Role::OnSecondaryFixed
        | Role::OnSecondaryFixedVariant => Some(Role::SecondaryFixed),
        Role::OnTertiaryFixed
        | Role::OnTertiaryFixedVariant => Some(Role::TertiaryFixed),
        _ => None,
    }
}

/// Contrast curves in tenths of a contrast ratio (specification).
pub open spec fn contrast_curve_spec(role: Role) -> Option<[u8; 4]> {
    match role {
        Role::OnBackground => Some([30, 30, 45, 70]),
        Role::OnSurface
        | Role::InverseOnSurface
        | Role::OnPrimary
        | Role::OnSecondary
        | Role::OnTertiary
        | Role::OnError
        | Role::OnPrimaryFixed
        | Role::OnSecondaryFixed
        | Role::OnTertiaryFixed => Some([45, 70, 110, 210]),
        Role::OnSurfaceVariant
        | Role::OnPrimaryContainer
        | Role::OnSecondaryContainer
        | Role::OnTertiaryContainer
        | Role::OnErrorContainer
        | Role::OnPrimaryFixedVariant
        | Role::OnSecondaryFixedVariant
        | Role::OnTertiaryFixedVariant => Some([30, 45, 70, 110]),
        Role::Outline => Some([15, 30, 45, 70]),
        Role::OutlineVariant
        | Role::PrimaryContainer
        | Role::SecondaryContainer
        | Role::TertiaryContainer
        | Role::ErrorContainer
        | Role::PrimaryFixed
        | Role::PrimaryFixedDim
        | Role::SecondaryFixed
        | Role::SecondaryFixedDim
        | Role::TertiaryFixed
        | Role::TertiaryFixedDim => Some([10, 10, 30, 45]),
        Role::Primary
        | Role::Secondary
        | Role::Tertiary
        | Role::Error
        | Role::InversePrimary => Some([30, 45, 70, 70]),
        _ => None,
    }
}

/// The contrast ratios a role must reach against its background at low,
/// normal, medium and high contrast, in tenths (`45` is a ratio of 4.5).
pub fn contrast_curve(role: Role) -> (r: Option<[u8; 4]>)
    ensures
        r == contrast_curve_spec(role),
{
    match role {
        Role::OnBackground => Some([30, 30, 45, 70]),
        Role::OnSurface
        | Role::InverseOnSurface
        | Role::OnPrimary
        | Role::OnSecondary
        | Role::OnTertiary
        | Role::OnError
        | Role::OnPrimaryFixed
        | Role::OnSecondaryFixed
        | Role::OnTertiaryFixed => Some([45, 70, 110, 210]),
        Role::OnSurfaceVariant
        | Role::OnPrimaryContainer
        | Role::OnSecondaryContainer
        | Role::OnTertiaryContainer
        | Role::OnErrorContainer
        | Role::OnPrimaryFixedVariant
        | Role::OnSecondaryFixedVariant
        | Role::OnTertiaryFixedVariant => Some([30, 45, 70, 110]),
        Role::Outline => Some([15, 30, 45, 70]),
        Role::OutlineVariant
        | Role::PrimaryContainer
        | Role::SecondaryContainer
        | Role::TertiaryContainer
        | Role::ErrorContainer
        | Role::PrimaryFixed
        | Role::PrimaryFixedDim
        | Role::SecondaryFixed
        | Role::SecondaryFixedDim
        | Role::TertiaryFixed
        | Role::TertiaryFixedDim => Some([10, 10, 30, 45]),
        Role::Primary
        | Role::Secondary
        | Role::Tertiary
        | Role::Error
        | Role::InversePrimary => Some([30, 45, 70, 70]),
        _ => None,
    }
}

/// Tone pairs (specification).
pub open spec fn pair_of_spec(role: Role) -> Option<Pair> {
    match role {
        Role::Primary
        | Role::PrimaryContainer => Some(Pair { a: Role::PrimaryContainer, b: Role::Primary, delta: 10, polarity: Polarity::Nearer, stay_together: false }),
        Role::Secondary
        | Role::SecondaryContainer => Some(Pair { a: Role::SecondaryContainer, b: Role::Secondary, delta: 10, polarity: Polarity::Nearer, stay_together: false }),
        Role::Tertiary
        | Role::TertiaryContainer => Some(Pair { a: Role::TertiaryContainer, b: Role::Tertiary, delta: 10, polarity: Polarity::Nearer, stay_together: false }),
        Role::Error
        | Role::ErrorContainer => Some(Pair { a: Role::ErrorContainer, b: Role::Error, delta: 10, polarity: Polarity::Nearer, stay_together: false }),
        Role::PrimaryFixed
        | Role::PrimaryFixedDim => Some(Pair { a: Role::PrimaryFixed, b: Role::PrimaryFixedDim, delta: 10, polarity: Polarity::Lighter, stay_together: true }),
        Role::SecondaryFixed
        | Role::SecondaryFixedDim => Some(Pair { a: Role::SecondaryFixed, b: Role::SecondaryFixedDim, delta: 10, polarity: Polarity::Lighter, stay_together: true }),
        Role::TertiaryFixed
        | Role::TertiaryFixedDim => Some(Pair { a: Role::TertiaryFixed, b: Role::TertiaryFixedDim, delta: 10, polarity: Polarity::Lighter, stay_together: true }),
        _ => None,
    }
}

/// The tone pair a role belongs to, if any.
pub fn pair_of(role: Role) -> (r: Option<Pair>)
    ensures
        r == pair_of_spec(role),
{
    match role {
        Role::Primary
        | Role::PrimaryContainer => Some(Pair { a: Role::PrimaryContainer, b: Role::Primary, delta: 10, polarity: Polarity::Nearer, stay_together: false }),
        Role::Secondary
        | Role::SecondaryContainer => Some(Pair { a: Role::SecondaryContainer, b: Role::Secondary, delta: 10, polarity: Polarity::Nearer, stay_together: false }),
        Role::Tertiary
        | Role::TertiaryContainer => Some(Pair { a: Role::TertiaryContainer, b: Role::Tertiary, delta: 10, polarity: Polarity::Nearer, stay_together: false }),
        Role::Error
        | Role::ErrorContainer => Some(Pair { a: Role::ErrorContainer, b: Role::Error, delta: 10, polarity: Polarity::Nearer, stay_together: false }),
        Role::PrimaryFixed
        | Role::PrimaryFixedDim => Some(Pair { a: Role::PrimaryFixed, b: Role::PrimaryFixedDim, delta: 10, polarity: Polarity::Lighter, stay_together: true }),
        Role::SecondaryFixed
        | Role::SecondaryFixedDim => Some(Pair { a: Role::SecondaryFixed, b: Role::SecondaryFixedDim, delta: 10, polarity: Polarity::Lighter, stay_together: true }),
        Role::TertiaryFixed
        | Role::TertiaryFixedDim => Some(Pair { a: Role::TertiaryFixed, b: Role::TertiaryFixedDim, delta: 10, polarity: Polarity::Lighter, stay_together: true }),
        _ => None,
    }
}

/// Height of a role in the background relation: roles without a background
/// are at 0, and every background sits strictly lower than its foreground.
pub open spec fn background_depth(role: Role) -> nat {
    match role {
        Role::PrimaryPaletteKeyColor
        | Role::SecondaryPaletteKeyColor
        | Role::TertiaryPaletteKeyColor
        | Role::NeutralPaletteKeyColor
        | Role::NeutralVariantPaletteKeyColor
        | Role::Background
        | Role::Surface
        | Role::SurfaceDim
        | Role::SurfaceBright
        | Role::SurfaceContainerLowest
        | Role::SurfaceContainerLow
        | Role::SurfaceContainer
        | Role::SurfaceContainerHigh
        | Role::SurfaceContainerHighest
        | Role::SurfaceVariant
        | Role::InverseSurface
        | Role::Shadow
        | Role::Scrim
        | Role::SurfaceTint => 0,
        Role::OnBackground
        | Role::OnSurface
        | Role::OnSurfaceVariant
        | Role::InverseOnSurface
        | Role::Outline
        | Role::OutlineVariant
        | Role::Primary
        | Role::PrimaryContainer
        | Role::InversePrimary
        | Role::Secondary
        | Role::SecondaryContainer
        | Role::Tertiary
        | Role::TertiaryContainer
        | Role::Error
        | Role::ErrorContainer
        | Role::PrimaryFixed
        | Role::PrimaryFixedDim
        | Role::SecondaryFixed
        | Role::SecondaryFixedDim
        | Role::TertiaryFixed
        | Role::TertiaryFixedDim => 1,
        Role::OnPrimary
        | Role::OnPrimaryContainer
        | Role::OnSecondary
        | Role::OnSecondaryContainer
        | Role::OnTertiary
        | Role::OnTertiaryContainer
        | Role::OnError
        | Role::OnErrorContainer
        | Role::OnPrimaryFixed
        | Role::OnPrimaryFixedVariant
        | Role::OnSecondaryFixed
        | Role::OnSecondaryFixedVariant
        | Role::OnTertiaryFixed
        | Role::OnTertiaryFixedVariant => 2,
    }
}
/// The pair's member nearer to the background, then the farther one: `a`
/// first for `Nearer` pairs and for `Lighter` pairs in light mode, `b`
/// first for `Lighter` pairs in dark mode (specification).
pub open spec fn pair_order_spec(p: Pair, dark: bool) -> (Role, Role) {
    if p.polarity == Polarity::Nearer || !dark {
        (p.a, p.b)
    } else {
        (p.b, p.a)
    }
}

/// Which member of a tone pair sits nearer to the background.
pub fn pair_order(p: Pair, dark: bool) -> (r: (Role, Role))
    ensures
        r == pair_order_spec(p, dark),
        (r.0 == p.a && r.1 == p.b) || (r.0 == p.b && r.1 == p.a),
{
    let a_nearer = match p.polarity {
        Polarity::Nearer => true,
        Polarity::Lighter => !dark,
    };
    if a_nearer {
        (p.a, p.b)
    } else {
        (p.b, p.a)
    }
}

// ── starting tones ──────────────────────────────────────────────────────

/// Tones at the low, normal, medium and high contrast levels.
#[derive(Debug, Clone, Copy, PartialEq, Eq, Structural)]
pub struct ToneCurve {
    pub low: u8,
    pub normal: u8,
    pub medium: u8,
    pub high: u8,
}

/// The curve with the given tones.
pub open spec fn tone_curve_spec(low: u8, normal: u8, medium: u8, high: u8) -> ToneCurve {
    ToneCurve { low, normal, medium, high }
}

fn tone_curve(low: u8, normal: u8, medium: u8, high: u8) -> (c: ToneCurve)
    ensures
        c == tone_curve_spec(low, normal, medium, high),
{
    ToneCurve { low, normal, medium, high }
}

/// How the solver obtains a role's starting tone before contrast
/// adjustments.
#[derive(Debug, Clone, Copy, PartialEq, Eq, Structural)]
pub enum ToneRule {
    /// A fixed tone.
    Fixed(u8),
    /// A tone picked by the contrast level: (low, normal, medium, high).
    ByContrast(ToneCurve),
    /// The tone found by the key-color search on the palette's hue and chroma.
    KeyColor(PaletteKind),
    /// The tone of the palette's own key color.
    PaletteKeyTone(PaletteKind),
    /// The tone of the scheme's source color.
    SourceTone,
    /// The foreground tone reaching `ratio` (tenths) against the starting
    /// tone of `of`.
    Foreground { of: Role, ratio: u8 },
    /// The secondary palette's desired-chroma search from `initial`.
    ChromaSearch { initial: u8, by_decreasing_tone: bool },
}

/// `d` in dark mode, `l` in light mode.
pub open spec fn by_mode(dark: bool, d: u8, l: u8) -> ToneRule {
    ToneRule::Fixed(if dark { d } else { l })
}

/// Fidelity-like variants build their containers from the source color.
pub open spec fn fidelity_like(v: SchemeVariant) -> bool {
    v == SchemeVariant::Fidelity || v == SchemeVariant::Content
}

/// The starting-tone rule of each role (specification).
pub open spec fn tone_rule_spec(role: Role, dark: bool, v: SchemeVariant) -> ToneRule {
    let mono = v == SchemeVariant::Monochrome;
    let fid = fidelity_like(v);
    match role {
        // key colors
        Role::PrimaryPaletteKeyColor => ToneRule::KeyColor(PaletteKind::Primary),
        Role::SecondaryPaletteKeyColor => ToneRule::KeyColor(PaletteKind::Secondary),
        Role::TertiaryPaletteKeyColor => if fid {
            ToneRule::PaletteKeyTone(PaletteKind::Tertiary)
        } else {
            ToneRule::KeyColor(PaletteKind::Tertiary)
        },
        Role::NeutralPaletteKeyColor => ToneRule::KeyColor(PaletteKind::Neutral),
        Role::NeutralVariantPaletteKeyColor => ToneRule::KeyColor(PaletteKind::NeutralVariant),
        // surfaces that follow the contrast level
        Role::SurfaceDim => if dark { ToneRule::Fixed(6) } else { ToneRule::ByContrast(tone_curve_spec(87, 87, 80, 75)) },
        Role::SurfaceBright => if dark { ToneRule::ByContrast(tone_curve_spec(24, 24, 29, 34)) } else { ToneRule::Fixed(98) },
        Role::SurfaceContainerLowest => if dark { ToneRule::ByContrast(tone_curve_spec(4, 4, 2, 0)) } else { ToneRule::Fixed(100) },
        Role::SurfaceContainerLow => ToneRule::ByContrast(if dark { tone_curve_spec(10, 10, 11, 12) } else { tone_curve_spec(96, 96, 96, 95) }),
        Role::SurfaceContainer => ToneRule::ByContrast(if dark { tone_curve_spec(12, 12, 16, 20) } else { tone_curve_spec(94, 94, 92, 90) }),
        Role::SurfaceContainerHigh => ToneRule::ByContrast(if dark { tone_curve_spec(17, 17, 21, 25) } else { tone_curve_spec(92, 92, 88, 85) }),
        Role::SurfaceContainerHighest => ToneRule::ByContrast(if dark { tone_curve_spec(22, 22, 26, 30) } else { tone_curve_spec(90, 90, 84, 80) }),
        // containers with special cases
        Role::PrimaryContainer => if fid {
            ToneRule::SourceTone
        } else if mono {
            ToneRule::Fixed(85)
        } else {
            by_mode(dark, 30, 90)
        },
        Role::OnPrimaryContainer => if fid {
            ToneRule::Foreground { of: Role::PrimaryContainer, ratio: 45 }
        } else if mono {
            ToneRule::Fixed(0)
        } else {
            by_mode(dark, 90, 30)
        },
        Role::SecondaryContainer => if mono {
            by_mode(dark, 30, 85)
        } else if fid {
            by_mode(dark, 30, 90)
        } else {
            ToneRule::ChromaSearch { initial: if dark { 30 } else { 90 }, by_decreasing_tone: !dark }
        },
        Role::OnSecondaryContainer => if mono {
            by_mode(dark, 90, 10)
        } else if fid {
            ToneRule::Foreground { of: Role::SecondaryContainer, ratio: 45 }
        } else {
            by_mode(dark, 90, 30)
        },
        Role::TertiaryContainer => if mono { by_mode(dark, 30, 90) } else { by_mode(dark, 60, 49) },
        Role::OnTertiaryContainer => if mono { by_mode(dark, 90, 30) } else { by_mode(dark, 0, 100) },
        Role::OnErrorContainer => if dark {
            ToneRule::Fixed(90)
        } else if mono {
            ToneRule::Fixed(10)
        } else {
            ToneRule::Fixed(30)
        },
        // accents that change in monochrome
        Role::Primary => if mono { ToneRule::Fixed(100) } else { by_mode(dark, 80, 40) },
        Role::OnPrimary => if mono { ToneRule::Fixed(10) } else { by_mode(dark, 20, 100) },
        Role::OnSecondary => if mono { ToneRule::Fixed(10) } else { by_mode(dark, 20, 100) },
        Role::Tertiary => if mono { by_mode(dark, 90, 25) } else { by_mode(dark, 80, 40) },
        Role::OnTertiary => if mono { by_mode(dark, 10, 90) } else { by_mode(dark, 20, 100) },
        // fixed roles: one tone in both modes
        Role::PrimaryFixed | Role::TertiaryFixed => ToneRule::Fixed(if mono { 40 } else { 90 }),
        Role::PrimaryFixedDim | Role::TertiaryFixedDim => ToneRule::Fixed(if mono { 30 } else { 80 }),
        Role::OnPrimaryFixed | Role::OnTertiaryFixed => ToneRule::Fixed(if mono { 100 } else { 10 }),
        Role::OnPrimaryFixedVariant | Role::OnTertiaryFixedVariant => ToneRule::Fixed(if mono { 90 } else { 30 }),
        Role::SecondaryFixed => ToneRule::Fixed(if mono { 80 } else { 90 }),
        Role::SecondaryFixedDim => ToneRule::Fixed(if mono { 70 } else { 80 }),
        Role::OnSecondaryFixed => ToneRule::Fixed(10),
        Role::OnSecondaryFixedVariant => ToneRule::Fixed(if mono { 25 } else { 30 }),
        // the rest depend on the mode alone
        Role::Background | Role::Surface => by_mode(dark, 6, 98),
        Role::OnBackground | Role::OnSurface => by_mode(dark, 90, 10),
        Role::SurfaceVariant => by_mode(dark, 30, 90),
        Role::OnSurfaceVariant => by_mode(dark, 80, 30),
        Role::InverseSurface => by_mode(dark, 90, 20),
        Role::InverseOnSurface => by_mode(dark, 20, 95),
        Role::Outline => by_mode(dark, 60, 50),
        Role::OutlineVariant => by_mode(dark, 30, 80),
        Role::Shadow | Role::Scrim => ToneRule::Fixed(0),
        Role::SurfaceTint => by_mode(dark, 80, 40),
        Role::InversePrimary => by_mode(dark, 40, 80),
        Role::Secondary | Role::Error => by_mode(dark, 80, 40),
        Role::OnError => by_mode(dark, 20, 100),
        Role::ErrorContainer => by_mode(dark, 30, 90),
    }
}

fn mode_tone(dark: bool, d: u8, l: u8) -> (r: ToneRule)
    ensures
        r == by_mode(dark, d, l),
{
    ToneRule::Fixed(if dark { d } else { l })
}

/// Every fixed or contrast-picked tone lies in 0..=100.
pub open spec fn rule_in_range(r: ToneRule) -> bool {
    match r {
        ToneRule::Fixed(t) => t <= 100,
        ToneRule::ByContrast(c) => c.low <= 100 && c.normal <= 100 && c.medium <= 100 && c.high <= 100,
        ToneRule::ChromaSearch { initial, .. } => initial <= 100,
        _ => true,
    }
}

/// The starting-tone rule of `role` in a scheme of variant `v` (dark or
/// light): a fixed tone, a contrast-dependent surface tone, a key-color or
/// source tone, a foreground tone against another role, or the secondary
/// container's chroma search.
pub fn tone_rule(role: Role, dark: bool, v: SchemeVariant) -> (r: ToneRule)
    ensures
        r == tone_rule_spec(role, dark, v),
        rule_in_range(r),
{
    let mono = v == SchemeVariant::Monochrome;
    let fid = v == SchemeVariant::Fidelity || v == SchemeVariant::Content;
    match role {
        Role::PrimaryPaletteKeyColor => ToneRule::KeyColor(PaletteKind::Primary),
        Role::SecondaryPaletteKeyColor => ToneRule::KeyColor(PaletteKind::Secondary),
        Role::TertiaryPaletteKeyColor => if fid {
            ToneRule::PaletteKeyTone(PaletteKind::Tertiary)
        } else {
            ToneRule::KeyColor(PaletteKind::Tertiary)
        },
        Role::NeutralPaletteKeyColor => ToneRule::KeyColor(PaletteKind::Neutral),
        Role::NeutralVariantPaletteKeyColor => ToneRule::KeyColor(PaletteKind::NeutralVariant),
        Role::SurfaceDim => if dark { ToneRule::Fixed(6) } else { ToneRule::ByContrast(tone_curve(87, 87, 80, 75)) },
        Role::SurfaceBright => if dark { ToneRule::ByContrast(tone_curve(24, 24, 29, 34)) } else { ToneRule::Fixed(98) },
        Role::SurfaceContainerLowest => if dark { ToneRule::ByContrast(tone_curve(4, 4, 2, 0)) } else { ToneRule::Fixed(100) },
        Role::SurfaceContainerLow => ToneRule::ByContrast(if dark { tone_curve(10, 10, 11, 12) } else { tone_curve(96, 96, 96, 95) }),
        Role::SurfaceContainer => ToneRule::ByContrast(if dark { tone_curve(12, 12, 16, 20) } else { tone_curve(94, 94, 92, 90) }),
        Role::SurfaceContainerHigh => ToneRule::ByContrast(if dark { tone_curve(17, 17, 21, 25) } else { tone_curve(92, 92, 88, 85) }),
        Role::SurfaceContainerHighest => ToneRule::ByContrast(if dark { tone_curve(22, 22, 26, 30) } else { tone_curve(90, 90, 84, 80) }),
        Role::PrimaryContainer => if fid {
            ToneRule::SourceTone
        } else if mono {
            ToneRule::Fixed(85)
        } else {
            mode_tone(dark, 30, 90)
        },
        Role::OnPrimaryContainer => if fid {
            ToneRule::Foreground { of: Role::PrimaryContainer, ratio: 45 }
        } else if mono {
            ToneRule::Fixed(0)
        } else {
            mode_tone(dark, 90, 30)
        },
        Role::SecondaryContainer => if mono {
            mode_tone(dark, 30, 85)
        } else if fid {
            mode_tone(dark, 30, 90)
        } else {
            ToneRule::ChromaSearch { initial: if dark { 30 } else { 90 }, by_decreasing_tone: !dark }
        },
        Role::OnSecondaryContainer => if mono {
            mode_tone(dark, 90, 10)
        } else if fid {
            ToneRule::Foreground { of: Role::SecondaryContainer, ratio: 45 }
        } else {
            mode_tone(dark, 90, 30)
        },
        Role::TertiaryContainer => if mono { mode_tone(dark, 30, 90) } else { mode_tone(dark, 60, 49) },
        Role::OnTertiaryContainer => if mono { mode_tone(dark, 90, 30) } else { mode_tone(dark, 0, 100) },
        Role::OnErrorContainer => if dark {
            ToneRule::Fixed(90)
        } else if mono {
            ToneRule::Fixed(10)
        } else {
            ToneRule::Fixed(30)
        },
        Role::Primary => if mono { ToneRule::Fixed(100) } else { mode_tone(dark, 80, 40) },
        Role::OnPrimary => if mono { ToneRule::Fixed(10) } else { mode_tone(dark, 20, 100) },
        Role::OnSecondary => if mono { ToneRule::Fixed(10) } else { mode_tone(dark, 20, 100) },
        Role::Tertiary => if mono { mode_tone(dark, 90, 25) } else { mode_tone(dark, 80, 40) },
        Role::OnTertiary => if mono { mode_tone(dark, 10, 90) } else { mode_tone(dark, 20, 100) },
        Role::PrimaryFixed | Role::TertiaryFixed => ToneRule::Fixed(if mono { 40 } else { 90 }),
        Role::PrimaryFixedDim | Role::TertiaryFixedDim => ToneRule::Fixed(if mono { 30 } else { 80 }),
        Role::OnPrimaryFixed | Role::OnTertiaryFixed => ToneRule::Fixed(if mono { 100 } else { 10 }),
        Role::OnPrimaryFixedVariant | Role::OnTertiaryFixedVariant => ToneRule::Fixed(if mono { 90 } else { 30 }),
        Role::SecondaryFixed => ToneRule::Fixed(if mono { 80 } else { 90 }),
        Role::SecondaryFixedDim => ToneRule::Fixed(if mono { 70 } else { 80 }),
        Role::OnSecondaryFixed => ToneRule::Fixed(10),
        Role::OnSecondaryFixedVariant => ToneRule::Fixed(if mono { 25 } else { 30 }),
        Role::Background | Role::Surface => mode_tone(dark, 6, 98),
        Role::OnBackground | Role::OnSurface => mode_tone(dark, 90, 10),
        Role::SurfaceVariant => mode_tone(dark, 30, 90),
        Role::OnSurfaceVariant => mode_tone(dark, 80, 30),
        Role::InverseSurface => mode_tone(dark, 90, 20),
        Role::InverseOnSurface => mode_tone(dark, 20, 95),
        Role::Outline => mode_tone(dark, 60, 50),
        Role::OutlineVariant => mode_tone(dark, 30, 80),
        Role::Shadow | Role::Scrim => ToneRule::Fixed(0),
        Role::SurfaceTint => mode_tone(dark, 80, 40),
        Role::InversePrimary => mode_tone(dark, 40, 80),
        Role::Secondary | Role::Error => mode_tone(dark, 80, 40),
        Role::OnError => mode_tone(dark, 20, 100),
        Role::ErrorContainer => mode_tone(dark, 30, 90),
    }
}

// ── laws ────────────────────────────────────────────────────────────────

/// The tables are consistent with the tone solver's needs: every role with a
/// background has a contrast curve and a strictly lower background (so the
/// recursive solve terminates), a second background only occurs together with
/// a first one, and both members of a tone pair share the pair, the
/// background and have contrast curves.
pub proof fn lemma_role_tables_consistent(role: Role, dark: bool)
    ensures
        background_of_spec(role, dark) matches Some(b) ==> background_depth(b) < background_depth(role)
            && contrast_curve_spec(role) is Some,
        second_background_of_spec(role) matches Some(b) ==> background_depth(b) < background_depth(
            role,
        ) && background_of_spec(role, dark) is Some,
        pair_of_spec(role) matches Some(p) ==> {
            &&& p.a == role || p.b == role
            &&& pair_of_spec(p.a) == Some(p)
            &&& pair_of_spec(p.b) == Some(p)
            &&& background_of_spec(role, dark) is Some
            &&& background_of_spec(p.a, dark) == background_of_spec(p.b, dark)
            &&& contrast_curve_spec(p.a) is Some
            &&& contrast_curve_spec(p.b) is Some
        },
{
}

/// A foreground starting tone is taken against a role whose own starting
/// tone is not a foreground tone, so the starting tones resolve in one step.
pub proof fn lemma_tone_rules_resolve(role: Role, dark: bool, v: SchemeVariant)
    ensures
        tone_rule_spec(role, dark, v) matches ToneRule::Foreground { of, .. } ==> !(tone_rule_spec(
            of,
            dark,
            v,
        ) is Foreground),
        rule_in_range(tone_rule_spec(role, dark, v)),
{
}

/// A starting tone on the mode's background side: at most 50 in dark mode,
/// at least 50 in light mode (every tone of a contrast curve included).
pub open spec fn on_background_side(r: ToneRule, dark: bool) -> bool {
    match r {
        ToneRule::Fixed(t) => if dark { t <= 50 } else { t >= 50 },
        ToneRule::ByContrast(c) => if dark {
            c.low <= 50 && c.normal <= 50 && c.medium <= 50 && c.high <= 50
        } else {
            c.low >= 50 && c.normal >= 50 && c.medium >= 50 && c.high >= 50
        },
        _ => false,
    }
}

/// The background and surface roles (not the inverse surface).
pub open spec fn is_background_role(r: Role) -> bool {
    ||| r == Role::Background
    ||| r == Role::Surface
    ||| r == Role::SurfaceDim
    ||| r == Role::SurfaceBright
    ||| r == Role::SurfaceContainerLowest
    ||| r == Role::SurfaceContainerLow
    ||| r == Role::SurfaceContainer
    ||| r == Role::SurfaceContainerHigh
    ||| r == Role::SurfaceContainerHighest
    ||| r == Role::SurfaceVariant
}

/// The foregrounds drawn on those backgrounds.
pub open spec fn is_background_foreground(r: Role) -> bool {
    r == Role::OnBackground || r == Role::OnSurface || r == Role::OnSurfaceVariant
}

/// Backgrounds follow the mode, in every scheme variant: a dark scheme's
/// backgrounds and surfaces start dark (tone at most 50) and a light
/// scheme's light (at least 50), while the text on them starts on the other
/// side. Background and surface sit at tone 6 in dark mode and 98 in light
/// mode; their foregrounds at 90 and 10.
pub proof fn lemma_backgrounds_follow_mode(v: SchemeVariant, dark: bool)
    ensures
        forall|r: Role| is_background_role(r) ==> on_background_side(#[trigger] tone_rule_spec(r, dark, v), dark),
        forall|r: Role| is_background_foreground(r) ==> on_background_side(#[trigger] tone_rule_spec(r, dark, v), !dark),
        tone_rule_spec(Role::Background, dark, v) == ToneRule::Fixed(if dark { 6u8 } else { 98u8 }),
        tone_rule_spec(Role::Surface, dark, v) == ToneRule::Fixed(if dark { 6u8 } else { 98u8 }),
        tone_rule_spec(Role::OnBackground, dark, v) == ToneRule::Fixed(if dark { 90u8 } else { 10u8 }),
        tone_rule_spec(Role::OnSurface, dark, v) == ToneRule::Fixed(if dark { 90u8 } else { 10u8 }),
{
}

} // verus!
