use tinct::render::{cmus_theme_from_json, nested_from_json, render_jobs, ConfigError};
use tinct::terminal::{termscheme_entries, TermschemeError};
use tinct::transform::{json_palette, JsonItem};

const CONFIG: &str = "[config]\nx = 1\n\n[templates.gtk]\ninput_path = \"~/in/gtk.css\"\noutput_path = \"~/out/gtk.css\"\npost_hook = \"reload\"\n\n[templates.kitty]\ninput_path = \"in/kitty\"\noutput_path = \"out/kitty\"\n\n[templates.broken]\ninput_path = \"in/x\"\n";

#[test]
fn config_templates_to_render() {
    let jobs = render_jobs(CONFIG, &None).unwrap();
    let names: Vec<&str> = jobs.iter().map(|j| j.name.as_str()).collect();
    assert_eq!(names, vec!["gtk", "kitty"]);
    assert_eq!(jobs[0].input_path, "~/in/gtk.css");
    assert_eq!(jobs[0].post_hook.as_deref(), Some("reload"));
    assert_eq!(jobs[1].post_hook, None);
    let only = render_jobs(CONFIG, &Some(vec!["kitty".to_string(), "broken".to_string()])).unwrap();
    assert_eq!(only.len(), 1);
    assert_eq!(only[0].output_path, "out/kitty");
    assert_eq!(render_jobs("x = [", &None).unwrap_err(), ConfigError::Parse);
    assert_eq!(render_jobs("[other]\na = 1\n", &None).unwrap_err(), ConfigError::NoTemplates);
}

#[test]
fn colors_json_to_nested_and_cmus() {
    let text = "{\"source_color\": \"nope\", \"primary\": \"#B52755\", \"n\": 3}";
    let n = nested_from_json(text, true).unwrap();
    let names: Vec<&str> = n.entries.iter().map(|e| e.0.as_str()).collect();
    assert_eq!(names, vec!["primary", "source_color"]);
    assert_eq!(n.entries[0].1 .0, "#B52755");
    assert!(nested_from_json("[1, 2]", true).is_none());
    assert!(nested_from_json("not json", false).is_none());
    let t = cmus_theme_from_json("{\"primary\": \"#000000\"}").unwrap();
    assert!(t.contains("set color_win_sel_bg=0\n"));
    assert!(cmus_theme_from_json("3").is_none());
}

#[test]
fn termscheme_sections() {
    let text = "{\"dark\": {\"term0\": \"#000000\", \"term1\": 5}, \"light\": 7}";
    assert_eq!(
        termscheme_entries(text, true).unwrap(),
        vec![("term0".to_string(), "#000000".to_string()), ("term1".to_string(), "".to_string())]
    );
    assert_eq!(termscheme_entries(text, false).unwrap_err(), TermschemeError::NotObject);
    assert_eq!(termscheme_entries("{\"dark\": {}}", false).unwrap_err(), TermschemeError::MissingSection);
    assert_eq!(termscheme_entries("[1]", true).unwrap_err(), TermschemeError::MissingSection);
    assert_eq!(termscheme_entries("{", true).unwrap_err(), TermschemeError::Parse);
}

#[test]
fn colors_json_for_transforms() {
    let (p, items) = json_palette("{\"primary\": \"#112233\", \"alpha\": 0.5, \"tertiary\": \"#445566\"}").unwrap().unwrap();
    assert_eq!(p, "#112233");
    let keys: Vec<&str> = items.iter().map(|(k, _)| k.as_str()).collect();
    assert_eq!(keys, vec!["alpha", "primary", "tertiary"]);
    assert!(matches!(&items[0].1, JsonItem::Other(_)));
    assert!(matches!(&items[2].1, JsonItem::Text(s) if s == "#445566"));
    assert!(json_palette("{\"primary\": 1}").unwrap().is_none());
    assert!(json_palette("[\"#112233\"]").unwrap().is_none());
    assert!(json_palette("{").is_err());
}
