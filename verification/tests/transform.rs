use tinct::transform::{
    build_transform_config, builtin_palette, camel_to_snake, catalog_items_parse, classify, default_order,
    is_color_value, primary_index, resolve_order, transform_plan, wants_transform, ColorOp, Group, Practical,
    StepKind, Style, Theory, TransformConfig,
};

const CATALOG: &str = "{\n  \"catppuccin_mocha\": [\"#1e1e2e\", \"#cdd6f4\", \"bad\", \"#f38ba8\"],\n  \"empty\": [\"nothing\"],\n  \"nord\": [ \"#2e3440\" ]\n}";

#[test]
fn names_select_variants() {
    assert_eq!(Theory::from_name("triadic"), Some(Theory::Triadic));
    assert_eq!(Theory::from_name("material"), None);
    assert_eq!(Theory::from_name(""), None);
    assert_eq!(Style::from_name("pastel"), Some(Style::Pastel));
    assert_eq!(Style::from_name("Pastel"), None);
    assert_eq!(Practical::from_name("high_contrast"), Some(Practical::HighContrast));
    assert_eq!(Practical::from_name("duotone"), Some(Practical::Duotone));
    assert_eq!(Practical::from_name("none"), None);
    assert_eq!(Theory::Triadic.deltas(), (0, 120, 240));
    assert_eq!(Theory::Analogous.deltas(), (0, 30, -30));
    assert_eq!(Theory::Mono.deltas(), (0, 0, 0));
}

#[test]
fn mix_order_parsing() {
    let (t, s, p, r) = (StepKind::Theory, StepKind::Style, StepKind::Practical, StepKind::Remap);
    assert_eq!(default_order(), vec![t, s, p, r]);
    assert_eq!(resolve_order(""), vec![t, s, p, r]);
    assert_eq!(resolve_order("remap,theory"), vec![r, t, s, p]);
    assert_eq!(resolve_order(" practical , style "), vec![p, s, t, r]);
    assert_eq!(resolve_order("bogus,style,style"), vec![s, s, t, p, r]);
}

#[test]
fn snake_and_groups() {
    assert_eq!(camel_to_snake("onPrimaryContainer"), "on_primary_container");
    assert_eq!(camel_to_snake("Primary"), "primary");
    assert_eq!(camel_to_snake(""), "");
    assert_eq!(classify("primary_container"), Some(Group::Primary));
    assert_eq!(classify("inverse_primary"), Some(Group::Primary));
    assert_eq!(classify("secondary"), Some(Group::Secondary));
    assert_eq!(classify("tertiary_fixed_dim"), Some(Group::Tertiary));
    assert_eq!(classify("on_primary"), None);
    assert!(is_color_value("#abc"));
    assert!(!is_color_value("abc"));
}

#[test]
fn plans_follow_order_and_groups() {
    let cfg = TransformConfig {
        theory: Some(Theory::Triadic),
        style: Some(Style::Pastel),
        practical: Some(Practical::HighContrast),
        remap: Some(vec![("#000000".to_string(), (0, 0, 0))]),
        order: vec![],
    };
    assert_eq!(
        transform_plan("secondaryContainer", &cfg),
        vec![
            ColorOp::ShiftHue(120),
            ColorOp::Style(Style::Pastel),
            ColorOp::Practical { mode: Practical::HighContrast, on_role: false, tertiary: false },
            ColorOp::Remap,
        ]
    );
    assert_eq!(
        transform_plan("onTertiary", &cfg),
        vec![ColorOp::Practical { mode: Practical::HighContrast, on_role: true, tertiary: false }, ColorOp::Remap]
    );
    assert_eq!(transform_plan("surface", &cfg), vec![ColorOp::Remap]);
    let mono = TransformConfig {
        theory: Some(Theory::Mono),
        order: vec![StepKind::Remap, StepKind::Theory],
        ..TransformConfig::default()
    };
    assert_eq!(transform_plan("tertiary", &mono), vec![ColorOp::SetPrimaryHue]);
    assert!(transform_plan("tertiary", &TransformConfig::default()).is_empty());
    assert!(TransformConfig::default().is_noop());
    assert!(!mono.is_noop());
}

#[test]
fn primary_entry_lookup() {
    let es = vec![
        ("onPrimary".to_string(), "#1".to_string()),
        ("primary".to_string(), "#2".to_string()),
        ("primary".to_string(), "#3".to_string()),
    ];
    assert_eq!(primary_index(&es), Some(1));
    assert_eq!(primary_index(&es[..1]), None);
}

#[test]
fn transform_requests() {
    assert!(!wants_transform("", "material", "none", ""));
    assert!(!wants_transform("material", "", "", ""));
    assert!(wants_transform("mono", "", "", ""));
    assert!(wants_transform("", "", "", "nord"));
    assert!(wants_transform("", "", "duotone", ""));
}

#[test]
fn catalog_palettes() {
    assert!(catalog_items_parse(CATALOG, "catppuccin_mocha"));
    let p = builtin_palette(CATALOG, "catppuccin_mocha").unwrap();
    assert_eq!(
        p,
        vec![
            ("#1e1e2e".to_string(), (0x1e, 0x1e, 0x2e)),
            ("#cdd6f4".to_string(), (0xcd, 0xd6, 0xf4)),
            ("#f38ba8".to_string(), (0xf3, 0x8b, 0xa8)),
        ]
    );
    assert_eq!(builtin_palette(CATALOG, "nord").unwrap(), vec![("#2e3440".to_string(), (0x2e, 0x34, 0x40))]);
    assert_eq!(builtin_palette(CATALOG, "empty"), None);
    assert_eq!(builtin_palette(CATALOG, "missing"), None);
    assert!(!catalog_items_parse("{\"x\": [\"#abcde\u{e9}x\"]}", "x"));
}

#[test]
fn transform_config_from_request() {
    let c = build_transform_config("analogous", "bright", "duotone", "nord", "practical,style", CATALOG);
    assert_eq!(c.theory, Some(Theory::Analogous));
    assert_eq!(c.style, Some(Style::Bright));
    assert_eq!(c.practical, Some(Practical::Duotone));
    assert_eq!(c.remap.unwrap().len(), 1);
    assert_eq!(c.order, vec![StepKind::Practical, StepKind::Style, StepKind::Theory, StepKind::Remap]);
    let m = build_transform_config("", "", "", "matugen", "", CATALOG);
    assert!(m.remap.is_none());
    assert!(m.is_noop());
    assert!(!wants_transform("material", "", "none", ""));
    let nothing = build_transform_config("material", "", "none", "", "remap,style", CATALOG);
    assert!(nothing.is_noop());
    for key in ["primary", "onTertiaryContainer", "secondaryFixedDim", "surface"] {
        assert!(transform_plan(key, &nothing).is_empty());
    }
}
