use tinct::output::{to_flat_json, to_matugen_colors_json, to_scss};
use tinct::palette::Palette;

fn pal(dark: bool, entries: &[(&str, &str)]) -> Palette {
    Palette {
        dark,
        entries: entries.iter().map(|(k, v)| (k.to_string(), v.to_string())).collect(),
    }
}

#[test]
fn scss_booleans_entries_then_terms() {
    let p = pal(true, &[("primary", "#AABBCC"), ("onPrimary", "#000000")]);
    let terms = vec![("term0".to_string(), "#111111".to_string())];
    assert_eq!(
        to_scss(&p, false, &terms),
        "$darkmode: True;\n$transparent: False;\n$primary: #AABBCC;\n$onPrimary: #000000;\n$term0: #111111;\n"
    );
    let light = pal(false, &[]);
    assert_eq!(to_scss(&light, true, &[]), "$darkmode: False;\n$transparent: True;\n");
}

#[test]
fn flat_json_keeps_order() {
    let p = pal(false, &[("b", "#2"), ("a", "#1")]);
    let terms = vec![("term1".to_string(), "#3".to_string())];
    assert_eq!(to_flat_json(&p, &terms), "{\"b\":\"#2\",\"a\":\"#1\",\"term1\":\"#3\"}");
    assert_eq!(to_flat_json(&pal(true, &[]), &[]), "{}");
    assert_eq!(to_flat_json(&pal(true, &[]), &terms), "{\"term1\":\"#3\"}");
}

#[test]
fn matugen_filters_snakes_sorts_lowercases() {
    let p = pal(
        true,
        &[
            ("primary_paletteKeyColor", "#ABCDEF"),
            ("surfaceContainerLow", "#AABBCC"),
            ("background", "#0A0B0C"),
            ("success", "#111111"),
            ("onSuccessContainer", "#222222"),
            ("onBackground", "#DDEEFF"),
        ],
    );
    assert_eq!(
        to_matugen_colors_json(&p),
        "{\n  \"background\": \"#0a0b0c\",\n  \"on_background\": \"#ddeeff\",\n  \"surface_container_low\": \"#aabbcc\"\n}"
    );
    assert_eq!(to_matugen_colors_json(&pal(true, &[])), "{\n}");
}

#[test]
fn matugen_equal_keys_keep_palette_order() {
    let p = pal(true, &[("zeta", "#01"), ("alpha", "#0A"), ("zeta", "#02")]);
    assert_eq!(
        to_matugen_colors_json(&p),
        "{\n  \"alpha\": \"#0a\",\n  \"zeta\": \"#01\",\n  \"zeta\": \"#02\"\n}"
    );
}
