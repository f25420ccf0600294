use padu::keybindings::{keybinding_matches, keybinding_no_results};

fn shortcut(title: &str, desc: &str, keys: &str) -> (String, String, String) {
    (title.into(), desc.into(), keys.into())
}

fn sections() -> Vec<(String, Vec<(String, String, String)>)> {
    vec![
        (
            "General".into(),
            vec![
                shortcut("Settings", "Open the settings", "⌘,"),
                shortcut("New session", "Start a session", "⌘N"),
            ],
        ),
        (
            "Right panel".into(),
            vec![
                shortcut("Toggle terminal", "Show the terminal", "⌘J"),
                shortcut("Toggle review", "Show the review", "⇧⌘R"),
            ],
        ),
    ]
}

#[test]
fn an_empty_search_shows_every_shortcut() {
    let shown = keybinding_matches("   ", &sections());
    assert_eq!(shown, vec![vec![0, 1], vec![0, 1]]);
    assert!(!keybinding_no_results(&shown));
}

#[test]
fn a_matching_section_title_shows_its_whole_section() {
    assert_eq!(keybinding_matches(" RIGHT ", &sections()), vec![vec![], vec![0, 1]]);
}

#[test]
fn shortcuts_match_by_title_description_or_keys() {
    assert_eq!(keybinding_matches("session", &sections()), vec![vec![1], vec![]]);
    assert_eq!(keybinding_matches("show the t", &sections()), vec![vec![], vec![0]]);
    assert_eq!(keybinding_matches("⌘j", &sections()), vec![vec![], vec![0]]);
}

#[test]
fn nothing_matching_says_no_results() {
    let shown = keybinding_matches("zzz", &sections());
    assert_eq!(shown, vec![vec![], vec![]]);
    assert!(keybinding_no_results(&shown));
}
