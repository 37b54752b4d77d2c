//! The local model server's client: its settings and the reading of the
//! model information that the server's command-line tool prints.

use crate::text::{
    chars_of, contains, contains_chars, copy_range, lemma_split_lines_nonempty, parse_usize,
    parse_usize_at, same_text, split_lines, split_words, trim, trimmed_bounds, words,
};
use vstd::prelude::*;

verus! {

pub const LLM_PROTOCOL: &'static str = "http";

pub const LLM_HOST: &'static str = "localhost";

pub const LLM_PORT: &'static str = "11434";

pub const LLM_ENDPOINT: &'static str = "/api/chat";

/// What is known of a model: its name, its context size, whether it takes
/// tools.
#[derive(Debug)]
pub struct ModelInformation {
    pub model: String,
    pub context_size: Option<usize>,
    pub supports_tools: bool,
}

/// A client of the local model server.
#[derive(Debug)]
pub struct OllamaClient {
    pub system_prompt: String,
    pub model_information: ModelInformation,
}

/// What the lines read so far tell: the context size, whether the
/// capabilities section has begun, whether tools are supported.
pub type InfoState = (Option<usize>, bool, bool);

/// What one more (untrimmed) line adds to `st`.
pub open spec fn info_step(st: InfoState, line: Seq<char>) -> InfoState {
    let t = trim(line);
    if contains(t, "context length"@) {
        let ws = words(t);
        if ws.len() >= 3 && parse_usize(ws.last()) is Some {
            (parse_usize(ws.last()), st.1, st.2)
        } else {
            st
        }
    } else if contains(t, "Capabilities"@) {
        (st.0, true, st.2)
    } else if st.1 && contains(t, "tools"@) {
        (st.0, st.1, true)
    } else {
        st
    }
}

/// What `lines`, read in order, tell.
pub open spec fn info_of(lines: Seq<Seq<char>>) -> InfoState
    decreases lines.len(),
{
    if lines.len() == 0 {
        (None, false, false)
    } else {
        info_step(info_of(lines.drop_last()), lines.last())
    }
}

/// Applies one line, `cs[a..b]`, to the state.
fn read_line(cs: &Vec<char>, a: usize, b: usize, st: InfoState) -> (r: InfoState)
    requires
        a <= b <= cs@.len(),
    ensures
        r == info_step(st, cs@.subrange(a as int, b as int)),
{
    let (lo, hi) = trimmed_bounds(cs, a, b);
    let t = copy_range(cs, lo, hi);
    let context_length = chars_of("context length");
    let capabilities = chars_of("Capabilities");
    let tools = chars_of("tools");
    if contains_chars(&t, &context_length) {
        let ws = split_words(cs, lo, hi);
        if ws.len() >= 3 {
            let last = chars_of(ws[ws.len() - 1].as_str());
            assert(last@ == words(t@).last());
            assert(last@.subrange(0, last@.len() as int) =~= last@);
            match parse_usize_at(&last, 0, last.len()) {
                Some(n) => (Some(n), st.1, st.2),
                None => st,
            }
        } else {
            st
        }
    } else if contains_chars(&t, &capabilities) {
        (st.0, true, st.2)
    } else if st.1 && contains_chars(&t, &tools) {
        (st.0, st.1, true)
    } else {
        st
    }
}

impl OllamaClient {
    pub fn new(model: String, system_prompt: String) -> (r: Self)
        ensures
            r.model_information.model@ == model@,
            r.model_information.context_size is None,
            !r.model_information.supports_tools,
            r.system_prompt@ == system_prompt@,
    {
        OllamaClient {
            system_prompt,
            model_information: ModelInformation {
                model,
                context_size: None,
                supports_tools: false,
            },
        }
    }

    pub fn update_system_prompt(&mut self, new_system_prompt: String)
        ensures
            final(self).system_prompt@ == new_system_prompt@,
            final(self).model_information == old(self).model_information,
    {
        self.system_prompt = new_system_prompt;
    }

    pub fn system_prompt(&self) -> (r: String)
        ensures
            r@ == self.system_prompt@,
    {
        self.system_prompt.clone()
    }

    pub fn model_context_size(&self) -> (r: Option<usize>)
        ensures
            r == self.model_information.context_size,
    {
        self.model_information.context_size
    }

    pub fn model_supports_tools(&self) -> (r: bool)
        ensures
            r == self.model_information.supports_tools,
    {
        self.model_information.supports_tools
    }

    /// Whether a reply asks for the request to be sent again: the server
    /// reports that it is done after only loading the model, with no content.
    pub fn needs_retry(done: bool, done_reason: &str, content: &str) -> (r: bool)
        ensures
            r == (done && done_reason@ == "load"@ && content@.len() == 0),
    {
        done && same_text(done_reason, "load") && content.unicode_len() == 0
    }

    /// Takes what was learnt of the model.
    pub fn set_model_information(&mut self, info: ModelInformation)
        ensures
            final(self).model_information == info,
            final(self).system_prompt == old(self).system_prompt,
    {
        self.model_information = info;
    }

    /// The chat endpoint of the local server.
    pub fn api_url() -> (r: String)
        ensures
            r@ == LLM_PROTOCOL@ + "://"@ + LLM_HOST@ + ":"@ + LLM_PORT@ + LLM_ENDPOINT@,
    {
        String::from_str(LLM_PROTOCOL).concat("://").concat(LLM_HOST).concat(":").concat(
            LLM_PORT,
        ).concat(LLM_ENDPOINT)
    }

    /// Reads the model information printed for `model_name`: the context
    /// size is the last word of a line that mentions "context length", when
    /// that line has three words or more and the word is a number; tools are
    /// supported when a line after the "Capabilities" heading mentions
    /// "tools".
    pub fn parse_model_information(output: &str, model_name: &str) -> (r: ModelInformation)
        ensures
            r.model@ == model_name@,
            r.context_size == info_of(split_lines(output@)).0,
            r.supports_tools == info_of(split_lines(output@)).2,
    {
        let cs = chars_of(output);
        let mut st: InfoState = (None, false, false);
        let mut start: usize = 0;
        let mut pos: usize = 0;
        proof {
            assert(cs@.subrange(0, 0) =~= Seq::<char>::empty());
            assert(split_lines(Seq::<char>::empty()).drop_last() =~= Seq::<Seq<char>>::empty());
        }
        while pos < cs.len()
            invariant
                start <= pos <= cs@.len(),
                st == info_of(split_lines(cs@.subrange(0, pos as int)).drop_last()),
                split_lines(cs@.subrange(0, pos as int)).last() == cs@.subrange(
                    start as int,
                    pos as int,
                ),
            decreases cs.len() - pos,
        {
            let ghost prefix = cs@.subrange(0, pos + 1);
            let ghost w = split_lines(cs@.subrange(0, pos as int));
            proof {
                assert(prefix.drop_last() =~= cs@.subrange(0, pos as int));
                lemma_split_lines_nonempty(cs@.subrange(0, pos as int));
            }
            if cs[pos] == '\n' {
                st = read_line(&cs, start, pos, st);
                proof {
                    assert(split_lines(prefix).drop_last() =~= w);
                    assert(w =~= w.drop_last().push(w.last()));
                    assert(cs@.subrange(pos + 1, pos + 1) =~= Seq::<char>::empty());
                }
                pos = pos + 1;
                start = pos;
            } else {
                proof {
                    assert(split_lines(prefix).drop_last() =~= w.drop_last());
                    assert(cs@.subrange(start as int, pos + 1) =~= cs@.subrange(
                        start as int,
                        pos as int,
                    ).push(cs@[pos as int]));
                }
                pos = pos + 1;
            }
        }
        st = read_line(&cs, start, cs.len(), st);
        proof {
            let w = split_lines(cs@);
            assert(cs@.subrange(0, cs@.len() as int) =~= cs@);
            lemma_split_lines_nonempty(cs@);
            assert(w =~= w.drop_last().push(w.last()));
        }
        ModelInformation { model: String::from_str(model_name), context_size: st.0, supports_tools: st.2 }
    }
}

} // verus!
