//! The admin console: what a line typed at it asks for.

use vstd::prelude::*;
use vstd::string::{StringExecFns, StrSliceExecFns};
use crate::text::same_text;

verus! {

/// What a line of the console asks for.
#[derive(Debug)]
pub enum AdminCommand {
    /// Nothing: the line holds no word.
    Empty,
    /// Fetch the follows and posts of this requester.
    Backfill(String),
    /// `backfill` without a requester.
    BackfillUsage,
    /// Show the sizes of the tables.
    Stats,
    /// List the commands.
    Help,
    /// Close the console.
    Quit,
    /// A word that is no command.
    Unknown,
}

/// Mathematical value of an [`AdminCommand`].
pub ghost enum AdminCommandView {
    Empty,
    Backfill(Seq<char>),
    BackfillUsage,
    Stats,
    Help,
    Quit,
    Unknown,
}

impl View for AdminCommand {
    type V = AdminCommandView;

    open spec fn view(&self) -> AdminCommandView {
        match self {
            AdminCommand::Empty => AdminCommandView::Empty,
            AdminCommand::Backfill(did) => AdminCommandView::Backfill(did@),
            AdminCommand::BackfillUsage => AdminCommandView::BackfillUsage,
            AdminCommand::Stats => AdminCommandView::Stats,
            AdminCommand::Help => AdminCommandView::Help,
            AdminCommand::Quit => AdminCommandView::Quit,
            AdminCommand::Unknown => AdminCommandView::Unknown,
        }
    }
}

/// Whether a character is white space.
pub uninterp spec fn is_white_space(c: char) -> bool;

/// Asks `char::is_whitespace` of the standard library. Trusted: the result is the named
/// verdict on the character.
#[verifier::external_body]
fn white_space(c: char) -> (r: bool)
    ensures
        r == is_white_space(c),
{
    c.is_whitespace()
}

/// The place of the first character at or after `from` that is no white space; the length
/// of the line where there is none.
pub open spec fn word_start(line: Seq<char>, from: int) -> int
    decreases line.len() - from,
{
    if from < 0 || from >= line.len() {
        line.len() as int
    } else if is_white_space(line[from]) {
        word_start(line, from + 1)
    } else {
        from
    }
}

/// The place of the first white space at or after `from`; the length of the line where
/// there is none.
pub open spec fn word_end(line: Seq<char>, from: int) -> int
    decreases line.len() - from,
{
    if from < 0 || from >= line.len() {
        line.len() as int
    } else if is_white_space(line[from]) {
        from
    } else {
        word_end(line, from + 1)
    }
}

/// The command that a first word and, where there is one, a second word stand for: the
/// first word names the command, and `backfill` takes the second word as the requester.
pub open spec fn command_named(first: Seq<char>, second: Option<Seq<char>>) -> AdminCommandView {
    if first == "backfill"@ {
        match second {
            Some(did) => AdminCommandView::Backfill(did),
            None => AdminCommandView::BackfillUsage,
        }
    } else if first == "stats"@ {
        AdminCommandView::Stats
    } else if first == "help"@ {
        AdminCommandView::Help
    } else if first == "quit"@ || first == "exit"@ {
        AdminCommandView::Quit
    } else {
        AdminCommandView::Unknown
    }
}

/// The command that a line asks for: its first two words are read, white space around
/// and between them is passed over, and what follows them is not looked at.
pub open spec fn command_of(line: Seq<char>) -> AdminCommandView {
    let first_start = word_start(line, 0);
    if first_start >= line.len() {
        AdminCommandView::Empty
    } else {
        let first_end = word_end(line, first_start);
        let second_start = word_start(line, first_end);
        command_named(
            line.subrange(first_start, first_end),
            if second_start >= line.len() {
                None
            } else {
                Some(line.subrange(second_start, word_end(line, second_start)))
            },
        )
    }
}

/// Finds the next word at or after `from`.
fn find_word_start(line: &str, from: usize) -> (at: usize)
    requires
        from <= line@.len(),
    ensures
        at == word_start(line@, from as int),
        from <= at <= line@.len(),
{
    let n: usize = line.unicode_len();
    let mut i: usize = from;
    while i < n && white_space(line.get_char(i))
        invariant
            from <= i <= n,
            n == line@.len(),
            word_start(line@, i as int) == word_start(line@, from as int),
        decreases n - i,
    {
        i += 1;
    }
    i
}

/// Finds the end of the word that starts at `from`.
fn find_word_end(line: &str, from: usize) -> (at: usize)
    requires
        from <= line@.len(),
    ensures
        at == word_end(line@, from as int),
        from <= at <= line@.len(),
{
    let n: usize = line.unicode_len();
    let mut i: usize = from;
    while i < n && !white_space(line.get_char(i))
        invariant
            from <= i <= n,
            n == line@.len(),
            word_end(line@, i as int) == word_end(line@, from as int),
        decreases n - i,
    {
        i += 1;
    }
    i
}

/// Reads the command that a first word and, where there is one, a second word stand for.
pub fn command_from_words(first: &str, second: Option<&str>) -> (command: AdminCommand)
    ensures
        command@ == command_named(
            first@,
            match second {
                Some(word) => Some(word@),
                None => None,
            },
        ),
{
    if same_text(first, "backfill") {
        match second {
            Some(did) => AdminCommand::Backfill(String::from_str(did)),
            None => AdminCommand::BackfillUsage,
        }
    } else if same_text(first, "stats") {
        AdminCommand::Stats
    } else if same_text(first, "help") {
        AdminCommand::Help
    } else if same_text(first, "quit") || same_text(first, "exit") {
        AdminCommand::Quit
    } else {
        AdminCommand::Unknown
    }
}

/// Reads the command that a line typed at the console asks for.
pub fn parse_command(line: &str) -> (command: AdminCommand)
    ensures
        command@ == command_of(line@),
{
    let n: usize = line.unicode_len();
    let first_start = find_word_start(line, 0);
    if first_start >= n {
        return AdminCommand::Empty;
    }
    let first_end = find_word_end(line, first_start);
    let second_start = find_word_start(line, first_end);
    let first = line.substring_char(first_start, first_end);
    if second_start >= n {
        command_from_words(first, None)
    } else {
        let second_end = find_word_end(line, second_start);
        command_from_words(first, Some(line.substring_char(second_start, second_end)))
    }
}

} // verus!
