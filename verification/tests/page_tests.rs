use aurelius::page::{highlight_theme, initial_markdown};

#[test]
fn nothing_configured_gives_the_defaults() {
    assert_eq!(initial_markdown(&None), "");
    assert_eq!(highlight_theme(&None), "github");
}

#[test]
fn configuration_is_kept() {
    assert_eq!(initial_markdown(&Some("# Title".to_owned())), "# Title");
    assert_eq!(highlight_theme(&Some("monokai".to_owned())), "monokai");
    assert_eq!(highlight_theme(&Some(String::new())), "");
}
