//! Renaming the title tag of every board in a record file.
use vstd::prelude::*;
use crate::tags::count_tags_from;
use crate::tags::replace_tags_from;

verus! {

/// The abstract command surface of the title-update run.
pub struct Args {
    /// Input record file path.
    pub input: String,
    /// The title to set.
    pub event: String,
    /// Optional output path.
    pub output: Option<String>,
    /// Whether the input file is rewritten in place.
    pub in_place: bool,
}

/// Replaces the value of every Event tag in the text with the given
/// title and reports how many tags were replaced.
pub fn update_event_tags(content: &str, event: &str) -> (r: (String, usize))
    ensures
        r.0@ == replace_tags_from(content@, "Event"@, "[Event \""@ + event@ + "\"]"@, 0),
        r.1 == count_tags_from(content@, "Event"@, 0),
{
    let mut repl: Vec<char> = Vec::new();
    crate::text::push_str_chars(&mut repl, "[Event \"");
    crate::text::push_str_chars(&mut repl, event);
    crate::text::push_str_chars(&mut repl, "\"]");
    proof {
        assert(repl@ =~= "[Event \""@ + event@ + "\"]"@);
    }
    crate::tags::replace_all_tags(content, "Event", &repl)
}

} // verus!
