//! The one number that the `claude_desktop` application does report: a running
//! total for the current day. It has no model, no split and no session, so it never belongs
//! to a task and never has a cost.
use vstd::prelude::*;

use crate::json::{json_str_at, json_u64_at, str_at, u64_at};
use crate::names::{first_word, first_word_of, title, title_of};
use crate::paths::{join_path, joined_path};
use crate::text::{opt_text, Text};

verus! {

/// What the counter said when it was last looked at.
#[derive(Debug, Clone, PartialEq, Eq)]
pub struct DailyTokens {
    /// Local calendar day, as the application writes it.
    pub day: String,
    pub tokens: u64,
}

/// Where the application keeps its counter.
pub fn counter_path(home: &str) -> (s: String)
    ensures
        s@ == joined_path(
            joined_path(
                joined_path(joined_path(home@, "Library"@), "Application Support"@),
                title(first_word("claude_desktop"@)),
            ),
            "buddy-tokens.json"@,
        ),
{
    let library = join_path(home, "Library");
    let support = join_path(library.as_str(), "Application Support");
    let maker = title_of(first_word_of("claude_desktop"));
    let directory = join_path(support.as_str(), maker.as_str());
    join_path(directory.as_str(), "buddy-tokens.json")
}

/// A day and a count as a reading: both are needed, and a blank day is the
/// application's way of saying that it has not begun to count.
pub open spec fn reading_of(day: Option<Text>, tokens: Option<u64>) -> Option<(Text, u64)> {
    match (day, tokens) {
        (Some(d), Some(n)) => if d.len() > 0 {
            Some((d, n))
        } else {
            None
        },
        _ => None,
    }
}

/// An optional reading as the contracts see it.
pub open spec fn opt_reading(r: Option<DailyTokens>) -> Option<(Text, u64)> {
    match r {
        Some(d) => Some((d.day@, d.tokens)),
        None => None,
    }
}

/// A day and a count as a reading.
pub fn reading(day: Option<String>, tokens: Option<u64>) -> (r: Option<DailyTokens>)
    ensures
        opt_reading(r) == reading_of(opt_text(day), tokens),
{
    match (day, tokens) {
        (Some(day), Some(tokens)) => {
            if day.as_str().is_empty() {
                None
            } else {
                Some(DailyTokens { day, tokens })
            }
        },
        _ => None,
    }
}

/// Read the counter's file. A shape that is not recognised is declined rather
/// than guessed at.
pub fn parse(raw: &str) -> (r: Option<DailyTokens>)
    ensures
        opt_reading(r) == reading_of(
            json_str_at(raw@, "/tokens-today/date"@),
            json_u64_at(raw@, "/tokens-today/tokens"@),
        ),
{
    reading(str_at(raw, "/tokens-today/date"), u64_at(raw, "/tokens-today/tokens"))
}

/// A reading is the day and the count that were found, and there is one exactly
/// where both were and the day is not blank.
pub proof fn law_a_reading_needs_a_day_and_a_count(day: Option<Text>, tokens: Option<u64>)
    ensures
        reading_of(day, tokens).is_some() <==> day.is_some() && tokens.is_some()
            && day.unwrap().len() > 0,
        reading_of(day, tokens).is_some() ==> reading_of(day, tokens).unwrap() == (
            day.unwrap(),
            tokens.unwrap(),
        ),
{
}

} // verus!
