use tinct::color::Argb;
use tinct::palette::Palette;
use tinct::terminal::{terminal_plan, TermAction};

fn base() -> Vec<(String, String)> {
    vec![
        ("term0".to_string(), "#101010".to_string()),
        ("term1".to_string(), "#FF0000".to_string()),
        ("term2".to_string(), "green".to_string()),
        ("term15".to_string(), "#EEEEEE".to_string()),
    ]
}

fn palette() -> Palette {
    Palette {
        dark: true,
        entries: vec![
            ("primary_paletteKeyColor".to_string(), "#B52755".to_string()),
            ("surfaceContainerLow".to_string(), "#1D1B1B".to_string()),
        ],
    }
}

#[test]
fn plan_harmonizes_toward_key_color() {
    let plan = terminal_plan(&palette(), &base(), false, false);
    let accent = Some(Argb::new(255, 0xB5, 0x27, 0x55));
    assert_eq!(
        plan,
        vec![
            TermAction::Harmonize { base: Argb::new(255, 0x10, 0x10, 0x10), accent },
            TermAction::Harmonize { base: Argb::new(255, 0xFF, 0, 0), accent },
            TermAction::Keep,
            TermAction::Harmonize { base: Argb::new(255, 0xEE, 0xEE, 0xEE), accent },
        ]
    );
}

#[test]
fn plan_blends_background_and_foreground() {
    let plan = terminal_plan(&palette(), &base(), true, false);
    assert_eq!(plan[0], TermAction::BlendBackground(Argb::new(255, 0x1D, 0x1B, 0x1B)));
    // no onSurface in the palette: term15 falls back to its own color
    assert_eq!(plan[3], TermAction::BlendForeground(Argb::new(255, 0xEE, 0xEE, 0xEE)));
}

#[test]
fn plan_passthrough_and_missing_accent() {
    let plan = terminal_plan(&palette(), &base(), true, true);
    assert!(plan.iter().all(|a| *a == TermAction::Keep));
    let empty = Palette { dark: false, entries: vec![] };
    let plan = terminal_plan(&empty, &base()[1..2], false, false);
    assert_eq!(plan, vec![TermAction::Harmonize { base: Argb::new(255, 0xFF, 0, 0), accent: None }]);
}
