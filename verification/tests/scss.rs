use tinct::scss::{lines_of, parse_scss_entry, scss_lines, scss_primary, scss_text, ScssLine};

#[test]
fn lines_follow_str_lines() {
    assert_eq!(lines_of("a\nb\r\nc"), vec!["a".to_string(), "b".to_string(), "c".to_string()]);
    assert_eq!(lines_of("a\n"), vec!["a".to_string()]);
    assert_eq!(lines_of("a\n\nb\r"), vec!["a".to_string(), "".to_string(), "b\r".to_string()]);
    assert!(lines_of("").is_empty());
    assert_eq!(lines_of("\n"), vec!["".to_string()]);
}

#[test]
fn entry_lines() {
    assert_eq!(parse_scss_entry("$primary: #AABBCC;"), Some(("primary".to_string(), "#AABBCC".to_string())));
    assert_eq!(parse_scss_entry("$ onPrimary :  #abc ; "), Some(("onPrimary".to_string(), "#abc".to_string())));
    assert_eq!(parse_scss_entry("$a: #1234abcd;"), Some(("a".to_string(), "#1234abcd".to_string())));
    assert_eq!(parse_scss_entry("$darkmode: True;"), None);
    assert_eq!(parse_scss_entry("$a: #ab;"), None);
    assert_eq!(parse_scss_entry("$a: #1234abcde;"), None);
    assert_eq!(parse_scss_entry("$a: #abcdeg;"), None);
    assert_eq!(parse_scss_entry("$a #abcdef;"), None);
    assert_eq!(parse_scss_entry("$a: #abcdef"), None);
    assert_eq!(parse_scss_entry("a: #abcdef;"), None);
    assert_eq!(parse_scss_entry(""), None);
    // the key ends at the first colon
    assert_eq!(parse_scss_entry("$a:b: #abcdef;"), None);
}

#[test]
fn file_round_trip_and_primary() {
    let text = "$darkmode: True;\n$primary_paletteKeyColor: #111111;\n$primary:#AABBCC;\n// note\n$primary: #000000;\n";
    let mut lines = scss_lines(text);
    assert_eq!(lines.len(), 5);
    assert!(matches!(&lines[0], ScssLine::Other(s) if s == "$darkmode: True;"));
    assert_eq!(scss_primary(&lines), Some("#AABBCC".to_string()));
    if let ScssLine::Entry { value, .. } = &mut lines[2] {
        *value = "#ddeeff".to_string();
    }
    assert_eq!(
        scss_text(&lines),
        "$darkmode: True;\n$primary_paletteKeyColor: #111111;\n$primary: #ddeeff;\n// note\n$primary: #000000;\n"
    );
    assert_eq!(scss_primary(&scss_lines("$onPrimary: #123456;\n")), None);
    assert_eq!(scss_text(&Vec::new()), "\n");
}

#[test]
fn written_entries_read_back() {
    for (k, v) in [("primary", "#aabbcc"), ("onSurfaceVariant", "#1234"), ("x_y", "#ABCDEF12")] {
        let lines = vec![ScssLine::Entry { key: k.to_string(), value: v.to_string() }];
        let text = scss_text(&lines);
        assert_eq!(parse_scss_entry(text.trim_end()), Some((k.to_string(), v.to_string())));
    }
}
