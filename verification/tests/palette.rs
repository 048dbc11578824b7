use tinct::color::Argb;
use tinct::compat::{background_of, contrast_curve, pair_of, pair_order, palette_of, second_background_of, PaletteKind, Role};
use tinct::palette::Palette;
use tinct::scheme::{palette_from_role_colors, role_at, role_name, SchemeVariant};

fn sample() -> Palette {
    Palette {
        dark: true,
        entries: vec![
            ("primary".to_string(), "#112233".to_string()),
            ("onPrimary".to_string(), "#445566".to_string()),
            ("primary".to_string(), "#778899".to_string()),
        ],
    }
}

#[test]
fn get_returns_first_match() {
    let p = sample();
    assert_eq!(p.get("primary"), Some("#112233"));
    assert_eq!(p.get("onPrimary"), Some("#445566"));
    assert_eq!(p.get("secondary"), None);
}

#[test]
fn set_overwrites_in_place_or_appends() {
    let mut p = sample();
    p.set("onPrimary", "#000000".to_string());
    assert_eq!(p.entries[1], ("onPrimary".to_string(), "#000000".to_string()));
    assert_eq!(p.entries.len(), 3);
    p.set("tertiary", "#ABCDEF".to_string());
    assert_eq!(p.entries.len(), 4);
    assert_eq!(p.entries[3], ("tertiary".to_string(), "#ABCDEF".to_string()));
    assert!(p.dark);
}

#[test]
fn get_after_set_and_others_kept() {
    let mut p = sample();
    p.set("primary", "#FFFFFF".to_string());
    assert_eq!(p.get("primary"), Some("#FFFFFF"));
    assert_eq!(p.get("onPrimary"), Some("#445566"));
    // only the first "primary" entry was touched
    assert_eq!(p.entries[2].1, "#778899");
    p.set("primary", "#000001".to_string());
    p.set("primary", "#000002".to_string());
    assert_eq!(p.get("primary"), Some("#000002"));
}

#[test]
fn cli_names_round_trip() {
    let all = [
        SchemeVariant::TonalSpot,
        SchemeVariant::Vibrant,
        SchemeVariant::Expressive,
        SchemeVariant::FruitSalad,
        SchemeVariant::Monochrome,
        SchemeVariant::Rainbow,
        SchemeVariant::Neutral,
        SchemeVariant::Fidelity,
        SchemeVariant::Content,
    ];
    for v in all {
        assert_eq!(SchemeVariant::from_cli_name(v.cli_name()), v);
    }
    assert_eq!(SchemeVariant::from_cli_name("scheme-fruit-salad"), SchemeVariant::FruitSalad);
    assert_eq!(SchemeVariant::from_cli_name("vibrant"), SchemeVariant::TonalSpot);
    assert_eq!(SchemeVariant::from_cli_name(""), SchemeVariant::TonalSpot);
    assert_eq!(SchemeVariant::Neutral.cli_name(), "scheme-neutral");
}

#[test]
fn assembled_palette_order_and_success_roles() {
    let colors: Vec<Argb> = (0..54u8).map(|i| Argb::new(255, i, i.wrapping_mul(3), 255 - i)).collect();
    let dark = palette_from_role_colors(true, &colors);
    assert_eq!(dark.entries.len(), 58);
    assert_eq!(dark.entries[0], ("primary_paletteKeyColor".to_string(), "#0000FF".to_string()));
    assert_eq!(dark.entries[53].0, "onTertiaryFixedVariant");
    assert_eq!(dark.get("primary"), Some("#194BE6"));
    assert_eq!(role_name(role_at(25)), "primary");
    assert_eq!(dark.get("success"), Some("#B5CCBA"));
    assert_eq!(dark.get("onSuccessContainer"), Some("#D1E9D6"));
    let light = palette_from_role_colors(false, &colors);
    assert!(!light.dark);
    assert_eq!(light.get("onSuccess"), Some("#FFFFFF"));
    assert_eq!(light.entries[57], ("onSuccessContainer".to_string(), "#0C1F13".to_string()));
    for (k, v) in light.entries.iter().chain(dark.entries.iter()) {
        assert!(v.len() == 7 && v.starts_with('#') && v[1..].chars().all(|c| c.is_ascii_digit() || ('A'..='F').contains(&c)), "{k}: {v}");
    }
    let mut keys: Vec<&String> = dark.entries.iter().map(|(k, _)| k).collect();
    keys.sort();
    keys.dedup();
    assert_eq!(keys.len(), 58);
}

#[test]
fn role_tables() {
    assert_eq!(background_of(Role::OnPrimary, true), Some(Role::Primary));
    assert_eq!(background_of(Role::Primary, true), Some(Role::SurfaceBright));
    assert_eq!(background_of(Role::Primary, false), Some(Role::SurfaceDim));
    assert_eq!(background_of(Role::Surface, false), None);
    assert_eq!(second_background_of(Role::OnTertiaryFixedVariant), Some(Role::TertiaryFixed));
    assert_eq!(second_background_of(Role::OnPrimary), None);
    assert_eq!(contrast_curve(Role::OnSurface), Some([45, 70, 110, 210]));
    assert_eq!(contrast_curve(Role::Background), None);
    let p = pair_of(Role::PrimaryFixedDim).unwrap();
    assert_eq!((p.a, p.b, p.delta, p.stay_together), (Role::PrimaryFixed, Role::PrimaryFixedDim, 10, true));
    assert_eq!(palette_of(Role::Outline), PaletteKind::NeutralVariant);
    assert_eq!(palette_of(Role::SurfaceTint), PaletteKind::Primary);
}

#[test]
fn pair_member_order() {
    let p = pair_of(Role::Primary).unwrap();
    assert_eq!(pair_order(p, true), (Role::PrimaryContainer, Role::Primary));
    assert_eq!(pair_order(p, false), (Role::PrimaryContainer, Role::Primary));
    let f = pair_of(Role::TertiaryFixed).unwrap();
    assert_eq!(pair_order(f, false), (Role::TertiaryFixed, Role::TertiaryFixedDim));
    assert_eq!(pair_order(f, true), (Role::TertiaryFixedDim, Role::TertiaryFixed));
}
