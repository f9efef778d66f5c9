//! What the preview page starts with when nothing was configured.

use vstd::prelude::*;

verus! {

/// The name of the highlighting theme that is used when none is chosen.
pub open spec fn default_theme() -> Seq<char> {
    "github"@
}

/// The text that `configured` stands for: its own, or `fallback` where
/// nothing is configured.
pub open spec fn configured_or(configured: Option<String>, fallback: Seq<char>) -> Seq<char> {
    match configured {
        Some(text) => text@,
        None => fallback,
    }
}

/// The markdown that the page shows before anything is published: the
/// configured one, or none at all.
pub fn initial_markdown(configured: &Option<String>) -> (markdown: String)
    ensures
        markdown@ == configured_or(*configured, Seq::empty()),
{
    match configured {
        Some(markdown) => markdown.clone(),
        None => String::new(),
    }
}

/// The highlighting theme of the page: the configured one, or the default.
pub fn highlight_theme(configured: &Option<String>) -> (theme: String)
    ensures
        theme@ == configured_or(*configured, default_theme()),
{
    match configured {
        Some(theme) => theme.clone(),
        None => "github".to_owned(),
    }
}

} // verus!
