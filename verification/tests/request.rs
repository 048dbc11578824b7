use tinct::compat::{tone_rule, PaletteKind, Role, ToneCurve, ToneRule};
use tinct::request::{home_relative, only_list, printed, scheme_choice, terminal_passthrough, Printed};
use tinct::scheme::SchemeVariant;

#[test]
fn smart_downgrade_only_for_dull_image_seeds() {
    assert_eq!(scheme_choice(true, true, true, "scheme-vibrant"), "scheme-neutral");
    assert_eq!(SchemeVariant::from_cli_name(&scheme_choice(true, true, true, "vibrant")), SchemeVariant::Neutral);
    assert_eq!(scheme_choice(false, true, true, "scheme-vibrant"), "scheme-vibrant");
    assert_eq!(scheme_choice(true, false, true, "scheme-vibrant"), "scheme-vibrant");
    assert_eq!(scheme_choice(true, true, false, "scheme-vibrant"), "scheme-vibrant");
    assert!(terminal_passthrough("monochrome"));
    assert!(!terminal_passthrough("scheme-monochrome"));
}

#[test]
fn standard_output_choice() {
    assert_eq!(printed(true, true), Printed::FlatJson);
    assert_eq!(printed(false, false), Printed::Scss);
    assert_eq!(printed(false, true), Printed::Nothing);
}

#[test]
fn only_names_and_home_paths() {
    assert_eq!(only_list("gtk, kitty ,nvim"), vec!["gtk".to_string(), "kitty".to_string(), "nvim".to_string()]);
    assert_eq!(only_list(""), vec!["".to_string()]);
    assert_eq!(home_relative("~/.config/x"), Some(".config/x".to_string()));
    assert_eq!(home_relative("~user/x"), None);
    assert_eq!(home_relative("/etc"), None);
}

#[test]
fn starting_tone_rules() {
    let tonal = SchemeVariant::TonalSpot;
    assert_eq!(tone_rule(Role::Primary, true, tonal), ToneRule::Fixed(80));
    assert_eq!(tone_rule(Role::Primary, false, SchemeVariant::Monochrome), ToneRule::Fixed(100));
    assert_eq!(tone_rule(Role::TertiaryContainer, false, tonal), ToneRule::Fixed(49));
    assert_eq!(
        tone_rule(Role::SurfaceContainerHigh, false, tonal),
        ToneRule::ByContrast(ToneCurve { low: 92, normal: 92, medium: 88, high: 85 })
    );
    assert_eq!(tone_rule(Role::NeutralPaletteKeyColor, true, tonal), ToneRule::KeyColor(PaletteKind::Neutral));
    assert_eq!(
        tone_rule(Role::TertiaryPaletteKeyColor, true, SchemeVariant::Content),
        ToneRule::PaletteKeyTone(PaletteKind::Tertiary)
    );
    assert_eq!(tone_rule(Role::PrimaryContainer, true, SchemeVariant::Fidelity), ToneRule::SourceTone);
    assert_eq!(
        tone_rule(Role::OnSecondaryContainer, false, SchemeVariant::Fidelity),
        ToneRule::Foreground { of: Role::SecondaryContainer, ratio: 45 }
    );
    assert_eq!(
        tone_rule(Role::SecondaryContainer, false, tonal),
        ToneRule::ChromaSearch { initial: 90, by_decreasing_tone: true }
    );
    assert_eq!(tone_rule(Role::OnErrorContainer, false, SchemeVariant::Monochrome), ToneRule::Fixed(10));
    // a foreground rule refers to a role with a direct starting tone
    assert_eq!(tone_rule(Role::SecondaryContainer, false, SchemeVariant::Fidelity), ToneRule::Fixed(90));
    assert_eq!(tone_rule(Role::PrimaryContainer, false, SchemeVariant::Content), ToneRule::SourceTone);
}
