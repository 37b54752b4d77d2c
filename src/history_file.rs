//! The transcript: a text file framed by user and assistant banners, its
//! in-memory mirror, and the parse of that mirror into role-tagged messages.

use crate::text::{chars_of, occurs_at, occurs_at_index, string_of, trim, trim_end, trim_start, trimmed_bounds};
use vstd::prelude::*;

verus! {

/// The banner written before each user turn.
pub const DELIMITER_USER_INPUT: &'static str = "\n\n-------------------------------------------------------------------\n                        --- User Input ---\n-------------------------------------------------------------------\n";

/// The banner written before each assistant turn.
pub const DELIMITER_AI_RESPONSE: &'static str = "\n\n-------------------------------------------------------------------\n                        --- AI Response ---\n-------------------------------------------------------------------\n";

/// Who authored a message.
#[derive(Clone, Copy, Debug, PartialEq, Eq, Structural)]
pub enum Role {
    User,
    Assistant,
}

impl Role {
    /// The role's name in a chat request.
    pub fn as_str(&self) -> (r: &'static str)
        ensures
            r@ == role_name(*self),
    {
        match self {
            Role::User => "user",
            Role::Assistant => "assistant",
        }
    }
}

pub open spec fn role_name(r: Role) -> Seq<char> {
    match r {
        Role::User => "user"@,
        Role::Assistant => "assistant"@,
    }
}

/// One message of the replayed history.
#[derive(Clone, Debug)]
pub struct Message {
    pub role: Role,
    pub content: String,
}

impl View for Message {
    type V = (Role, Seq<char>);

    open spec fn view(&self) -> (Role, Seq<char>) {
        (self.role, self.content@)
    }
}

pub open spec fn messages_view(v: Seq<Message>) -> Seq<(Role, Seq<char>)> {
    v.map_values(|m: Message| m@)
}

/// A rule line of the banners.
pub open spec fn banner_rule() -> Seq<char> {
    Seq::new(67, |i: int| '-')
}

/// The banner around `label`: a blank line, a rule, the label centred
/// between dashes, and another rule.
pub open spec fn banner(label: Seq<char>) -> Seq<char> {
    seq!['\n', '\n'] + banner_rule() + seq!['\n'] + Seq::new(24, |i: int| ' ') + seq![
        '-',
        '-',
        '-',
        ' ',
    ] + label + seq![' ', '-', '-', '-', '\n'] + banner_rule() + seq!['\n']
}

pub open spec fn delimiter_of(r: Role) -> Seq<char> {
    match r {
        Role::User => banner(seq!['U', 's', 'e', 'r', ' ', 'I', 'n', 'p', 'u', 't']),
        Role::Assistant => banner(seq!['A', 'I', ' ', 'R', 'e', 's', 'p', 'o', 'n', 's', 'e']),
    }
}

/// The banner that starts at index `i` of `s`, if any; the user banner is
/// tried first.
pub open spec fn delimiter_at(s: Seq<char>, i: int) -> Option<Role> {
    if occurs_at(s, i, delimiter_of(Role::User)) {
        Some(Role::User)
    } else if occurs_at(s, i, delimiter_of(Role::Assistant)) {
        Some(Role::Assistant)
    } else {
        None
    }
}

/// The message that a span of text makes: none when it trims to nothing.
pub open spec fn message_of(role: Role, span: Seq<char>) -> Seq<(Role, Seq<char>)> {
    if trim(span).len() == 0 {
        Seq::empty()
    } else {
        seq![(role, trim(span))]
    }
}

/// The messages of `s` from index `pos` on, where the current span started at
/// `start` under `role`. Banners are matched left to right without overlap.
pub open spec fn parse_from(s: Seq<char>, pos: int, start: int, role: Role) -> Seq<
    (Role, Seq<char>),
>
    decreases s.len() - pos,
{
    if pos < 0 || pos >= s.len() {
        message_of(role, s.subrange(start, s.len() as int))
    } else {
        match delimiter_at(s, pos) {
            Some(r) => {
                let next = pos + delimiter_of(r).len();
                message_of(role, s.subrange(start, pos)) + parse_from(s, next, next, r)
            },
            None => parse_from(s, pos + 1, start, role),
        }
    }
}

/// The messages that a transcript's text replays: text before the first
/// banner belongs to the user, each banner opens a message of its role,
/// spans that trim to nothing are dropped.
pub open spec fn parse_transcript(s: Seq<char>) -> Seq<(Role, Seq<char>)> {
    parse_from(s, 0, 0, Role::User)
}

/// The banner constants spell out `delimiter_of`.
pub proof fn lemma_delimiter_constants()
    ensures
        DELIMITER_USER_INPUT@ == delimiter_of(Role::User),
        DELIMITER_AI_RESPONSE@ == delimiter_of(Role::Assistant),
{
    reveal_strlit(
        "\n\n-------------------------------------------------------------------\n                        --- User Input ---\n-------------------------------------------------------------------\n",
    );
    reveal_strlit(
        "\n\n-------------------------------------------------------------------\n                        --- AI Response ---\n-------------------------------------------------------------------\n",
    );
    assert(DELIMITER_USER_INPUT@ =~= delimiter_of(Role::User));
    assert(DELIMITER_AI_RESPONSE@ =~= delimiter_of(Role::Assistant));
}

/// The text of a transcript made by appending `entries`, each a role and the
/// text recorded under it, one after another to an empty file.
pub open spec fn transcript_of(entries: Seq<(Role, Seq<char>)>) -> Seq<char>
    decreases entries.len(),
{
    if entries.len() == 0 {
        Seq::empty()
    } else {
        delimiter_of(entries[0].0) + entries[0].1 + transcript_of(entries.drop_first())
    }
}

/// The messages that `entries` should read back as: each text trimmed, under
/// its role, in order, with those that trim to nothing left out.
pub open spec fn kept_messages(entries: Seq<(Role, Seq<char>)>) -> Seq<(Role, Seq<char>)>
    decreases entries.len(),
{
    if entries.len() == 0 {
        Seq::empty()
    } else {
        message_of(entries[0].0, entries[0].1) + kept_messages(entries.drop_first())
    }
}

/// The text of entry `i` followed by the banner of the entry after it, if any.
pub open spec fn text_and_next_banner(entries: Seq<(Role, Seq<char>)>, i: int) -> Seq<char> {
    if i + 1 < entries.len() {
        entries[i].1 + delimiter_of(entries[i + 1].0)
    } else {
        entries[i].1
    }
}

/// No banner starts inside the text of an entry, read on into the banner
/// that follows it.
pub open spec fn framing_intact(entries: Seq<(Role, Seq<char>)>) -> bool {
    forall|i: int, p: int|
        0 <= i < entries.len() && 0 <= p < entries[i].1.len() ==> (#[trigger] delimiter_at(
            text_and_next_banner(entries, i),
            p,
        )) is None
}

proof fn lemma_banner_facts()
    ensures
        delimiter_of(Role::User).len() == 181,
        delimiter_of(Role::Assistant).len() == 182,
        delimiter_of(Role::User)[98] == 'U',
        delimiter_of(Role::Assistant)[98] == 'A',
{
    let u = seq!['U', 's', 'e', 'r', ' ', 'I', 'n', 'p', 'u', 't'];
    let a = seq!['A', 'I', ' ', 'R', 'e', 's', 'p', 'o', 'n', 's', 'e'];
    let head = seq!['\n', '\n'] + banner_rule() + seq!['\n'] + Seq::new(24, |i: int| ' ') + seq![
        '-',
        '-',
        '-',
        ' ',
    ];
    assert(head.len() == 98);
    assert((head + u)[98] == 'U');
    assert((head + a)[98] == 'A');
    assert(delimiter_of(Role::User) =~= (head + u) + (seq![' ', '-', '-', '-', '\n'] + banner_rule()
        + seq!['\n']));
    assert(delimiter_of(Role::Assistant) =~= (head + a) + (seq![' ', '-', '-', '-', '\n']
        + banner_rule() + seq!['\n']));
}

/// A banner of role `r` that starts at `i` is read as `r`.
proof fn lemma_banner_read(s: Seq<char>, i: int, r: Role)
    requires
        occurs_at(s, i, delimiter_of(r)),
    ensures
        delimiter_at(s, i) == Some(r),
{
    lemma_banner_facts();
    if r == Role::Assistant && occurs_at(s, i, delimiter_of(Role::User)) {
        assert(s.subrange(i, i + 181)[98] == s.subrange(i, i + 182)[98]);
    }
}

/// Whether a banner starts at an index depends only on the text from there on.
proof fn lemma_occurs_shift(x: Seq<char>, y: Seq<char>, p: int, d: Seq<char>)
    requires
        0 <= p,
    ensures
        occurs_at(x + y, x.len() + p, d) == occurs_at(y, p, d),
{
    if p + d.len() <= y.len() {
        assert((x + y).subrange(x.len() + p, x.len() + p + d.len()) =~= y.subrange(p, p + d.len()));
    }
}

/// An occurrence inside a window of `s` is an occurrence in the window.
proof fn lemma_occurs_within(s: Seq<char>, a: int, b: int, i: int, d: Seq<char>)
    requires
        0 <= a <= i,
        i + d.len() <= b <= s.len(),
        occurs_at(s, i, d),
    ensures
        occurs_at(s.subrange(a, b), i - a, d),
{
    assert(s.subrange(a, b).subrange(i - a, i - a + d.len()) =~= s.subrange(i, i + d.len()));
}

/// Parsing the tail `y` of `x + y` does not look at `x`.
proof fn lemma_parse_shift(x: Seq<char>, y: Seq<char>, p: int, st: int, role: Role)
    requires
        0 <= st <= p <= y.len(),
    ensures
        parse_from(x + y, x.len() + p, x.len() + st, role) == parse_from(y, p, st, role),
    decreases y.len() - p,
{
    let s = x + y;
    if p >= y.len() {
        assert(s.subrange(x.len() + st, s.len() as int) =~= y.subrange(st, y.len() as int));
    } else {
        lemma_occurs_shift(x, y, p, delimiter_of(Role::User));
        lemma_occurs_shift(x, y, p, delimiter_of(Role::Assistant));
        assert(s.subrange(x.len() + st, x.len() + p) =~= y.subrange(st, p));
        match delimiter_at(y, p) {
            Some(r) => {
                let next = p + delimiter_of(r).len();
                lemma_parse_shift(x, y, next, next, r);
            },
            None => {
                lemma_parse_shift(x, y, p + 1, st, role);
            },
        }
    }
}

/// Parsing passes over indices where no banner starts.
proof fn lemma_parse_skip(s: Seq<char>, pos: int, end: int, start: int, role: Role)
    requires
        0 <= pos <= end <= s.len(),
        forall|q: int| pos <= q < end ==> delimiter_at(s, q) is None,
    ensures
        parse_from(s, pos, start, role) == parse_from(s, end, start, role),
    decreases end - pos,
{
    if pos < end {
        lemma_parse_skip(s, pos + 1, end, start, role);
    }
}

proof fn lemma_trim_empty()
    ensures
        trim(Seq::<char>::empty()) == Seq::<char>::empty(),
{
    assert(trim_start(Seq::<char>::empty()) == Seq::<char>::empty());
    assert(trim_end(Seq::<char>::empty()) == Seq::<char>::empty());
}

/// A transcript read from its start, whatever role the reading begins
/// under, gives its kept messages.
proof fn lemma_parse_transcript_from(entries: Seq<(Role, Seq<char>)>, role: Role)
    requires
        framing_intact(entries),
    ensures
        parse_from(transcript_of(entries), 0, 0, role) == kept_messages(entries),
    decreases entries.len(),
{
    lemma_trim_empty();
    lemma_banner_facts();
    let t_all = transcript_of(entries);
    if entries.len() == 0 {
        assert(t_all.subrange(0, 0) =~= Seq::<char>::empty());
    } else {
        let rest = entries.drop_first();
        let (r, t) = entries[0];
        let d = delimiter_of(r);
        let x = d + t;
        let tail = transcript_of(rest);
        assert(t_all == x + tail);
        assert(x.subrange(0, d.len() as int) =~= d);
        assert(t_all.subrange(0, d.len() as int) =~= d);
        lemma_banner_read(t_all, 0, r);
        assert(t_all.subrange(0, 0) =~= Seq::<char>::empty());
        assert(message_of(role, t_all.subrange(0, 0)) =~= Seq::empty());
        assert(parse_from(t_all, 0, 0, role) =~= parse_from(t_all, d.len() as int, d.len() as int, r));
        // no banner starts inside the text
        assert forall|q: int| d.len() <= q < x.len() implies delimiter_at(t_all, q) is None by {
            let p = q - d.len();
            assert(delimiter_at(text_and_next_banner(entries, 0), p) is None);
            if rest.len() > 0 {
                let d2 = delimiter_of(rest[0].0);
                assert(tail == d2 + rest[0].1 + transcript_of(rest.drop_first()));
                let w = t_all.subrange(d.len() as int, (x.len() + d2.len()) as int);
                assert(w =~= t + d2);
                assert(text_and_next_banner(entries, 0) == t + d2);
                if occurs_at(t_all, q, delimiter_of(Role::User)) {
                    lemma_occurs_within(t_all, d.len() as int, (x.len() + d2.len()) as int, q, delimiter_of(Role::User));
                }
                if occurs_at(t_all, q, delimiter_of(Role::Assistant)) {
                    lemma_occurs_within(t_all, d.len() as int, (x.len() + d2.len()) as int, q, delimiter_of(Role::Assistant));
                }
            } else {
                assert(tail =~= Seq::<char>::empty());
                assert(t_all.subrange(d.len() as int, t_all.len() as int) =~= t);
                assert(text_and_next_banner(entries, 0) == t);
                if occurs_at(t_all, q, delimiter_of(Role::User)) {
                    lemma_occurs_within(t_all, d.len() as int, t_all.len() as int, q, delimiter_of(Role::User));
                }
                if occurs_at(t_all, q, delimiter_of(Role::Assistant)) {
                    lemma_occurs_within(t_all, d.len() as int, t_all.len() as int, q, delimiter_of(Role::Assistant));
                }
            }
        }
        lemma_parse_skip(t_all, d.len() as int, x.len() as int, d.len() as int, r);
        assert(t_all.subrange(d.len() as int, x.len() as int) =~= t);
        assert forall|i: int, p: int|
            0 <= i < rest.len() && 0 <= p < rest[i].1.len() implies (#[trigger] delimiter_at(
            text_and_next_banner(rest, i),
            p,
        )) is None by {
            assert(text_and_next_banner(rest, i) == text_and_next_banner(entries, i + 1));
        }
        if rest.len() == 0 {
            assert(kept_messages(rest) =~= Seq::empty());
            assert(kept_messages(entries) =~= message_of(r, t));
            assert(tail =~= Seq::<char>::empty());
        } else {
            let (r2, t2) = rest[0];
            let d2 = delimiter_of(r2);
            assert(tail == d2 + t2 + transcript_of(rest.drop_first()));
            assert(tail.subrange(0, d2.len() as int) =~= d2);
            lemma_occurs_shift(x, tail, 0, d2);
            lemma_banner_read(t_all, x.len() as int, r2);
            lemma_banner_read(tail, 0, r2);
            lemma_parse_transcript_from(rest, r2);
            assert(tail.subrange(0, 0) =~= Seq::<char>::empty());
            assert(message_of(r2, tail.subrange(0, 0)) =~= Seq::empty());
            assert(parse_from(tail, 0, 0, r2) =~= parse_from(tail, d2.len() as int, d2.len() as int, r2));
            lemma_parse_shift(x, tail, d2.len() as int, d2.len() as int, r2);
        }
    }
}

/// Recording one more entry appends its banner and its text: what
/// `append_user_input` and `append_ai_response` do to the mirror.
pub proof fn lemma_transcript_append(entries: Seq<(Role, Seq<char>)>, role: Role, text: Seq<char>)
    ensures
        transcript_of(entries.push((role, text))) == transcript_of(entries) + delimiter_of(role)
            + text,
    decreases entries.len(),
{
    if entries.len() == 0 {
        assert(entries.push((role, text)).drop_first() =~= Seq::<(Role, Seq<char>)>::empty());
        assert(entries.push((role, text))[0] == (role, text));
        assert(transcript_of(Seq::<(Role, Seq<char>)>::empty()) == Seq::<char>::empty());
        assert(transcript_of(entries.push((role, text))) =~= delimiter_of(role) + text);
        assert(transcript_of(entries) + delimiter_of(role) + text =~= delimiter_of(role) + text);
    } else {
        assert(entries.push((role, text)).drop_first() =~= entries.drop_first().push((role, text)));
        lemma_transcript_append(entries.drop_first(), role, text);
        assert(transcript_of(entries.push((role, text))) =~= transcript_of(entries) + delimiter_of(
            role,
        ) + text);
    }
}

/// Round trip: a transcript made by appending user and assistant turns to an
/// empty file reads back as exactly those turns, each trimmed of surrounding
/// white space, in order, with no merges, and with no drops but of turns that
/// trim to nothing. It holds as long as no banner starts inside a turn's text
/// (read on into the banner after it).
pub proof fn lemma_round_trip(entries: Seq<(Role, Seq<char>)>)
    requires
        framing_intact(entries),
    ensures
        parse_transcript(transcript_of(entries)) == kept_messages(entries),
{
    lemma_parse_transcript_from(entries, Role::User);
}

/// Appends to `out` the message that `cs[start..end]` makes under `role`.
fn push_message(out: &mut Vec<Message>, cs: &Vec<char>, start: usize, end: usize, role: Role)
    requires
        start <= end <= cs@.len(),
    ensures
        messages_view(final(out)@) == messages_view(old(out)@) + message_of(
            role,
            cs@.subrange(start as int, end as int),
        ),
{
    let (a, b) = trimmed_bounds(cs, start, end);
    if a < b {
        let mut text: Vec<char> = Vec::new();
        let mut k: usize = a;
        while k < b
            invariant
                a <= k <= b <= cs@.len(),
                text@ == cs@.subrange(a as int, k as int),
            decreases b - k,
        {
            text.push(cs[k]);
            assert(text@ =~= cs@.subrange(a as int, k + 1));
            k = k + 1;
        }
        let m = Message { role, content: string_of(text) };
        let ghost before = out@;
        out.push(m);
        assert(messages_view(out@) =~= messages_view(before).push(m@));
    } else {
        assert(message_of(role, cs@.subrange(start as int, end as int)) =~= Seq::empty());
        assert(messages_view(out@) =~= messages_view(out@) + Seq::empty());
    }
}

/// The message that `content` makes under `role`: its trimmed text, or
/// none when that is empty.
pub fn maybe_create_message(role: Role, content: &str) -> (r: Option<Message>)
    ensures
        r is Some ==> message_of(role, content@) == seq![r->0@],
        r is None ==> message_of(role, content@).len() == 0,
{
    let cs = chars_of(content);
    let mut out: Vec<Message> = Vec::new();
    assert(messages_view(out@) =~= Seq::<(Role, Seq<char>)>::empty());
    push_message(&mut out, &cs, 0, cs.len(), role);
    assert(cs@.subrange(0, cs@.len() as int) =~= content@);
    if out.len() > 0 {
        assert(messages_view(out@)[0] == out@[0]@);
        Some(out.remove(0))
    } else {
        None
    }
}

/// The messages that the text `content` replays (see `parse_transcript`).
pub fn parse_messages(content: &str) -> (r: Vec<Message>)
    ensures
        messages_view(r@) == parse_transcript(content@),
{
    let cs = chars_of(content);
    let user = chars_of(DELIMITER_USER_INPUT);
    let ai = chars_of(DELIMITER_AI_RESPONSE);
    proof {
        lemma_delimiter_constants();
    }
    let mut out: Vec<Message> = Vec::new();
    let mut pos: usize = 0;
    let mut start: usize = 0;
    let mut role = Role::User;
    assert(messages_view(out@) + parse_transcript(cs@) =~= parse_transcript(cs@));
    while pos < cs.len()
        invariant
            start <= pos <= cs@.len(),
            user@ == delimiter_of(Role::User),
            ai@ == delimiter_of(Role::Assistant),
            messages_view(out@) + parse_from(cs@, pos as int, start as int, role)
                == parse_transcript(cs@),
        decreases cs.len() - pos,
    {
        let ghost prev = messages_view(out@);
        let ghost (old_pos, old_start, old_role) = (pos as int, start as int, role);
        if occurs_at_index(&cs, pos, &user) {
            push_message(&mut out, &cs, start, pos, role);
            pos = pos + user.len();
            start = pos;
            role = Role::User;
        } else if occurs_at_index(&cs, pos, &ai) {
            push_message(&mut out, &cs, start, pos, role);
            pos = pos + ai.len();
            start = pos;
            role = Role::Assistant;
        } else {
            pos = pos + 1;
        }
        proof {
            if delimiter_at(cs@, old_pos) is Some {
                let m = message_of(old_role, cs@.subrange(old_start, old_pos));
                assert(prev + (m + parse_from(cs@, pos as int, start as int, role)) =~= (prev + m)
                    + parse_from(cs@, pos as int, start as int, role));
            }
        }
    }
    push_message(&mut out, &cs, start, cs.len(), role);
    proof {
        assert(messages_view(out@) =~= messages_view(out@) + Seq::<(Role, Seq<char>)>::empty());
    }
    out
}

/// A transcript file: where it lives and the in-memory mirror of its text.
/// Reading and writing the file itself is the caller's part; each method here
/// applies to the mirror what was just done to the file.
pub struct HistoryFile {
    pub path: String,
    pub filename: String,
    pub content: String,
}

impl View for HistoryFile {
    type V = Seq<char>;

    open spec fn view(&self) -> Seq<char> {
        self.content@
    }
}

impl HistoryFile {
    /// A transcript at `path` whose file holds `content`.
    pub fn new(path: String, filename: String, content: String) -> (r: Self)
        ensures
            r.path@ == path@,
            r.filename@ == filename@,
            r@ == content@,
    {
        HistoryFile { path, filename, content }
    }

    /// The mirrored text.
    pub fn get_content(&self) -> (r: &str)
        ensures
            r@ == self@,
    {
        self.content.as_str()
    }

    /// The history that the transcript replays, in document order.
    pub fn to_messages(&self) -> (r: Vec<Message>)
        ensures
            messages_view(r@) == parse_transcript(self@),
    {
        parse_messages(self.content.as_str())
    }

    /// The text that recording `input` as a user turn appends to the file.
    pub fn user_entry(input: &str) -> (r: String)
        ensures
            r@ == delimiter_of(Role::User) + input@,
    {
        proof {
            lemma_delimiter_constants();
        }
        let mut entry = String::from_str(DELIMITER_USER_INPUT);
        entry.append(input);
        entry
    }

    /// The text that recording `response` as an assistant turn appends.
    pub fn ai_entry(response: &str) -> (r: String)
        ensures
            r@ == delimiter_of(Role::Assistant) + response@,
    {
        proof {
            lemma_delimiter_constants();
        }
        let mut entry = String::from_str(DELIMITER_AI_RESPONSE);
        entry.append(response);
        entry
    }

    /// Mirrors a user turn that was appended to the file.
    pub fn append_user_input(&mut self, input: &str)
        ensures
            final(self)@ == old(self)@ + delimiter_of(Role::User) + input@,
            final(self).path == old(self).path,
            final(self).filename == old(self).filename,
    {
        let entry = Self::user_entry(input);
        self.content.append(entry.as_str());
        assert(self@ =~= old(self)@ + delimiter_of(Role::User) + input@);
    }

    /// Mirrors an assistant turn that was appended to the file, and returns
    /// the appended text: banner and response.
    pub fn append_ai_response(&mut self, response: &str) -> (r: String)
        ensures
            r@ == delimiter_of(Role::Assistant) + response@,
            final(self)@ == old(self)@ + r@,
            final(self).path == old(self).path,
            final(self).filename == old(self).filename,
    {
        let entry = Self::ai_entry(response);
        self.content.append(entry.as_str());
        entry
    }

    /// Takes `disk`, the file's text as just read, as the new mirror.
    pub fn reload_content(&mut self, disk: String)
        ensures
            final(self)@ == disk@,
            disk@ == old(self)@ ==> final(self)@ == old(self)@,
            final(self).path == old(self).path,
            final(self).filename == old(self).filename,
    {
        self.content = disk;
    }
}

} // verus!
