//! The tool's settings, as read from its configuration file.
use vstd::prelude::*;

verus! {

/// How a commit message is framed on screen.
#[derive(Debug, Clone, Copy, PartialEq, Eq, Structural)]
pub enum MessageBoxStyle {
    Box,
    DoubleLine,
    TitleBox,
    Gutter,
}

impl Default for MessageBoxStyle {
    fn default() -> (r: Self)
        ensures
            r == MessageBoxStyle::Box,
    {
        MessageBoxStyle::Box
    }
}

#[derive(Debug)]
pub struct Config {
    pub default_ai: Option<String>,
    pub show_github_stats: bool,
    pub commit_style: Option<String>,
    /// Fetch from the remotes before showing the summary.
    pub auto_fetch: bool,
    pub message_box_style: MessageBoxStyle,
}

/// The value a missing `show_github_stats` setting takes.
pub fn default_true() -> (r: bool)
    ensures
        r,
{
    true
}

impl Default for Config {
    fn default() -> (r: Self)
        ensures
            r.default_ai is None,
            r.show_github_stats,
            r.commit_style is None,
            !r.auto_fetch,
            r.message_box_style == MessageBoxStyle::Box,
    {
        Config {
            default_ai: None,
            show_github_stats: default_true(),
            commit_style: None,
            auto_fetch: false,
            message_box_style: MessageBoxStyle::Box,
        }
    }
}

} // verus!
