use std::path::PathBuf;
use tinct::render::{
    build_nested, cmus_theme, fields, fields_ok_exec, render_template, template_renders, NestedColors, RenderOptions,
};

fn members(ms: &[(&str, Option<&str>)]) -> Vec<(String, Option<String>)> {
    ms.iter().map(|(k, v)| (k.to_string(), v.map(|s| s.to_string()))).collect()
}

fn nested() -> NestedColors {
    NestedColors {
        entries: vec![
            ("primary".to_string(), ("#B52755".to_string(), "#B52755".to_string(), "#FFD9DF".to_string())),
            ("surface".to_string(), ("#141313".to_string(), "#141313".to_string(), "#FFF8F7".to_string())),
        ],
    }
}

#[test]
fn color_fields() {
    let f = fields("#B52755");
    assert_eq!((f.hex.as_str(), f.hex_stripped.as_str()), ("#B52755", "B52755"));
    assert_eq!(f.rgb, "181, 39, 85");
    assert_eq!(f.rgba, "181, 39, 85, 255");
    let g = fields("##0a0b0cff");
    assert_eq!(g.hex_stripped, "0a0b0c");
    assert_eq!(g.rgb, "10, 11, 12");
    let z = fields("#zz0000");
    assert_eq!(z.rgb, "0, 0, 0");
    assert!(fields_ok_exec("#B52755"));
    // six ASCII characters after the hashes are enough
    assert!(fields_ok_exec("##ab12cd\u{e9}"));
    assert_eq!(fields("##ab12cd\u{e9}").hex_stripped, "ab12cd");
    assert!(!fields_ok_exec("#B52"));
}

#[test]
fn template_expressions() {
    let n = nested();
    let (out, missing) = render_template(
        "a {{ colors.primary.default.hex }} b {{colors.surface.light.rgb}} {{image}}",
        &n,
        "/tmp/wall.png",
    );
    assert_eq!(out, "a #B52755 b 255, 248, 247 /tmp/wall.png");
    assert!(missing.is_empty());
    let (out, missing) = render_template("x {{ colors.primary.dark.hex_stripped }} {{ colors.nope.dark.hex }}", &n, "");
    assert_eq!(out, "x B52755 {{ colors.nope.dark.hex }}");
    assert_eq!(missing, vec!["colors.nope.dark.hex".to_string()]);
    let (out, missing) = render_template("{{ colors.primary.dim.hex }}{{ other }}", &n, "");
    assert_eq!(out, "{{ colors.primary.dim.hex }}{{ other }}");
    assert_eq!(missing, vec!["colors.primary.dim.hex".to_string(), "other".to_string()]);
    let (out, missing) = render_template("tail {{ colors.primary.default.rgba", &n, "");
    assert_eq!(out, "tail {{ colors.primary.default.rgba");
    assert!(missing.is_empty());
    assert!(template_renders("{{ colors.primary.default.rgb }}", &n));
    let (out, missing) = render_template("plain { text } with }} only", &n, "img");
    assert_eq!(out, "plain { text } with }} only");
    assert!(missing.is_empty());
}

#[test]
fn short_colors_are_refused_before_rendering() {
    let n = NestedColors {
        entries: vec![("bad".to_string(), ("#12".to_string(), "#12".to_string(), "#12".to_string()))],
    };
    assert!(!template_renders("{{ colors.bad.default.rgb }}", &n));
    assert!(template_renders("{{ colors.other.default.rgb }} {{ image }}", &n));
}

#[test]
fn nested_without_hex_source_keeps_values() {
    let m = members(&[
        ("source_color", Some("not-a-color")),
        ("primary", Some("#B52755")),
        ("count", None),
        ("name", Some("plain")),
    ]);
    let n = build_nested(&m, true);
    assert_eq!(n.entries.len(), 2);
    assert_eq!(
        n.entries[0],
        ("primary".to_string(), ("#B52755".to_string(), "#B52755".to_string(), "#B52755".to_string()))
    );
    assert_eq!(
        n.entries[1],
        ("source_color".to_string(), ("#B52755".to_string(), "#B52755".to_string(), "#B52755".to_string()))
    );
    assert!(n.lookup("name").is_none());
}

#[test]
fn nested_takes_opposite_mode_from_theme() {
    let m = members(&[("primary", Some("#B52755")), ("mystery", Some("#010203"))]);
    let n = build_nested(&m, true);
    let (d, dk, lt) = n.lookup("primary").unwrap().clone();
    assert_eq!((d.as_str(), dk.as_str()), ("#B52755", "#B52755"));
    assert!(lt.starts_with('#') && lt.len() == 7);
    assert_ne!(lt.to_uppercase(), "#B52755");
    // keys the theme lacks keep their own value in both modes
    let my = n.lookup("mystery").unwrap();
    assert_eq!((my.1.as_str(), my.2.as_str()), ("#010203", "#010203"));
    let light = build_nested(&m, false);
    let lp = light.lookup("primary").unwrap();
    assert_eq!(lp.2, "#B52755");
    assert_ne!(lp.1.to_uppercase(), "#B52755");
}

#[test]
fn cmus_theme_uses_members_and_fallbacks() {
    let m = members(&[("on_surface", Some("#ffffff")), ("primary", Some("#000000")), ("error", Some("junk"))]);
    let t = cmus_theme(&m);
    assert!(t.starts_with("# Matugen-generated theme for cmus\n"));
    assert!(t.contains("set color_win_fg=15\n"));
    assert!(t.contains("set color_win_sel_bg=0\n"));
    assert!(t.contains("set color_error=7\n"));
    // fallback #ffffff for on_primary
    assert!(t.contains("set color_win_sel_fg=15\n"));
    assert!(t.ends_with("set color_separator=238\n"));
}

#[test]
fn render_option_choices() {
    let mut o = RenderOptions {
        config: PathBuf::from("c.toml"),
        colors: PathBuf::from("colors.json"),
        mode: Some("dark".to_string()),
        image: None,
        only: None,
        run_post_hooks: false,
        cmus: false,
    };
    assert_eq!(o.requested_dark(), Some(true));
    o.mode = Some("light".to_string());
    assert_eq!(o.requested_dark(), Some(false));
    o.mode = Some("auto".to_string());
    assert_eq!(o.requested_dark(), None);
    assert!(o.renders("gtk"));
    o.only = Some(vec!["kitty".to_string()]);
    assert!(o.renders("kitty"));
    assert!(!o.renders("gtk"));
}
