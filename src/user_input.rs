//! One line of user input, read as a command or as a prompt.

use crate::text::{
    chars_of, lower_of, lowercase, split_words, string_of, strip_colons, strip_colons_of, trim,
    trimmed_bounds, words,
};
use vstd::prelude::*;

verus! {

/// A command line: its lower-case name and its arguments.
#[derive(Debug)]
pub struct Command {
    pub name: String,
    pub args: Vec<String>,
}

/// A line of input: a command (it starts with a colon) or a prompt.
#[derive(Debug)]
pub enum UserInput {
    Command(Command),
    Prompt(String),
}

/// Whether the trimmed line `t` is a command.
pub open spec fn is_command_line(t: Seq<char>) -> bool {
    t.len() > 0 && t[0] == ':'
}

impl UserInput {
    /// Reads `input` with surrounding white space removed. A line that starts
    /// with a colon is a command: its first word, without leading colons and
    /// in lower case, is the name, and the other words are the arguments.
    /// Any other line is a prompt.
    pub fn parse(input: &str) -> (r: UserInput)
        ensures
            match r {
                UserInput::Command(c) => {
                    let ws = words(trim(input@));
                    &&& is_command_line(trim(input@))
                    &&& ws.len() > 0
                    &&& c.name@ == lower_of(strip_colons(ws[0]))
                    &&& c.args@.map_values(|w: String| w@) == ws.drop_first()
                },
                UserInput::Prompt(p) => !is_command_line(trim(input@)) && p@ == trim(input@),
            },
    {
        let cs = chars_of(input);
        let (a, b) = trimmed_bounds(&cs, 0, cs.len());
        assert(cs@.subrange(0, cs@.len() as int) =~= input@);
        if a < b && cs[a] == ':' {
            let mut parts = split_words(&cs, a, b);
            proof {
                let t = cs@.subrange(a as int, b as int);
                assert(t[0] == ':');
                lemma_first_word_starts(t);
            }
            let first = parts.remove(0);
            let name = lowercase(strip_colons_of(first.as_str()).as_str());
            let ghost ws = words(cs@.subrange(a as int, b as int));
            assert(parts@.map_values(|w: String| w@) =~= ws.drop_first());
            UserInput::Command(Command { name, args: parts })
        } else {
            let mut t: Vec<char> = Vec::new();
            let mut k: usize = a;
            while k < b
                invariant
                    a <= k <= b <= cs@.len(),
                    t@ == cs@.subrange(a as int, k as int),
                decreases b - k,
            {
                t.push(cs[k]);
                assert(t@ =~= cs@.subrange(a as int, k + 1));
                k = k + 1;
            }
            UserInput::Prompt(string_of(t))
        }
    }
}

/// A text that starts with a character other than white space has at least
/// one word.
proof fn lemma_first_word_starts(t: Seq<char>)
    requires
        t.len() > 0,
        !crate::text::is_space(t[0]),
    ensures
        words(t).len() > 0,
    decreases t.len(),
{
    if t.len() > 1 {
        lemma_first_word_starts(t.drop_last());
        assert(t.drop_last()[0] == t[0]);
    } else {
        assert(t.drop_last().len() == 0);
    }
}

} // verus!
