//! The title bar's state: session title and id, fork parent, date and
//! multiplexer, and the short form of the session id that it shows.

use vstd::prelude::*;

use vstd::string::{StrSliceExecFns, StringExecFns};

verus! {

/// What the title bar shows.
#[derive(Debug, Clone, PartialEq, Eq)]
pub struct TitleBarState {
    /// Human-readable session name, e.g. "main".
    pub session_title: String,
    /// Full session ID; only the first 6 chars are displayed.
    pub session_id: String,
    /// Set when this session was forked from another; holds the parent title.
    pub parent_title: Option<String>,
    /// Pre-formatted date string, e.g. "2026-03-05".
    pub date: String,
    /// Terminal multiplexer name ("tmux", "zellij", …) when running inside one.
    pub in_multiplexer: Option<String>,
}

/// Characters of the session id that the title bar shows.
pub open spec fn short_id_len(id: Seq<char>) -> int {
    if id.len() < 6 {
        id.len() as int
    } else {
        6
    }
}

impl TitleBarState {
    /// A title bar for an unforked session outside any multiplexer.
    pub fn new(session_title: &str, session_id: &str, date: &str) -> (s: Self)
        ensures
            s.session_title@ == session_title@,
            s.session_id@ == session_id@,
            s.date@ == date@,
            s.parent_title is None,
            s.in_multiplexer is None,
    {
        TitleBarState {
            session_title: String::from_str(session_title),
            session_id: String::from_str(session_id),
            parent_title: None,
            date: String::from_str(date),
            in_multiplexer: None,
        }
    }

    /// At most the first 6 characters of the session id.
    pub fn short_id(&self) -> (r: &str)
        ensures
            r@ == self.session_id@.subrange(0, short_id_len(self.session_id@)),
    {
        let s = self.session_id.as_str();
        let n = s.unicode_len();
        let end: usize = if n < 6 {
            n
        } else {
            6
        };
        s.substring_char(0, end)
    }
}

} // verus!
