//! Character-level helpers over strings viewed as `Seq<char>`.

use vstd::prelude::*;
use vstd::std_specs::iter::IteratorSpec;

verus! {

/// Whether `c` is white space in the sense of Unicode's `White_Space`
/// property, which is what `char::is_whitespace` tests.
pub open spec fn is_space(c: char) -> bool {
    let n = c as u32;
    n == 0x20 || (0x09 <= n && n <= 0x0d) || n == 0x85 || n == 0xa0 || n == 0x1680
        || (0x2000 <= n && n <= 0x200a) || n == 0x2028 || n == 0x2029 || n == 0x202f
        || n == 0x205f || n == 0x3000
}

/// `s` without its leading white space.
pub open spec fn trim_start(s: Seq<char>) -> Seq<char>
    decreases s.len(),
{
    if s.len() > 0 && is_space(s[0]) {
        trim_start(s.drop_first())
    } else {
        s
    }
}

/// `s` without its trailing white space.
pub open spec fn trim_end(s: Seq<char>) -> Seq<char>
    decreases s.len(),
{
    if s.len() > 0 && is_space(s.last()) {
        trim_end(s.drop_last())
    } else {
        s
    }
}

/// `s` without leading and trailing white space, as `str::trim` gives it.
pub open spec fn trim(s: Seq<char>) -> Seq<char> {
    trim_end(trim_start(s))
}

/// Whether `d` occurs in `s` starting at index `i`.
pub open spec fn occurs_at(s: Seq<char>, i: int, d: Seq<char>) -> bool {
    0 <= i && i + d.len() <= s.len() && s.subrange(i, i + d.len()) == d
}

/// Whether `d` occurs anywhere in `s`.
pub open spec fn contains(s: Seq<char>, d: Seq<char>) -> bool {
    exists|i: int| occurs_at(s, i, d)
}

pub fn is_space_char(c: char) -> (r: bool)
    ensures
        r == is_space(c),
{
    let n = c as u32;
    n == 0x20 || (0x09 <= n && n <= 0x0d) || n == 0x85 || n == 0xa0 || n == 0x1680 || (0x2000
        <= n && n <= 0x200a) || n == 0x2028 || n == 0x2029 || n == 0x202f || n == 0x205f || n
        == 0x3000
}

/// The bounds of `cs[lo..hi]` once white space is trimmed from both ends.
pub fn trimmed_bounds(cs: &Vec<char>, lo: usize, hi: usize) -> (r: (usize, usize))
    requires
        lo <= hi <= cs@.len(),
    ensures
        lo <= r.0 <= r.1 <= hi,
        cs@.subrange(r.0 as int, r.1 as int) == trim(cs@.subrange(lo as int, hi as int)),
{
    let mut a: usize = lo;
    while a < hi && is_space_char(cs[a])
        invariant
            lo <= a <= hi <= cs@.len(),
            trim_start(cs@.subrange(lo as int, hi as int)) == trim_start(
                cs@.subrange(a as int, hi as int),
            ),
        decreases hi - a,
    {
        assert(cs@.subrange(a as int, hi as int).drop_first() =~= cs@.subrange(
            a + 1,
            hi as int,
        ));
        a = a + 1;
    }
    assert(trim_start(cs@.subrange(a as int, hi as int)) == cs@.subrange(a as int, hi as int));
    let mut b: usize = hi;
    while b > a && is_space_char(cs[b - 1])
        invariant
            lo <= a <= b <= hi <= cs@.len(),
            trim_end(cs@.subrange(a as int, hi as int)) == trim_end(
                cs@.subrange(a as int, b as int),
            ),
        decreases b - a,
    {
        assert(cs@.subrange(a as int, b as int).drop_last() =~= cs@.subrange(
            a as int,
            b - 1,
        ));
        b = b - 1;
    }
    (a, b)
}

/// Whether `d` occurs in `cs` starting at index `i`.
pub fn occurs_at_index(cs: &Vec<char>, i: usize, d: &Vec<char>) -> (r: bool)
    ensures
        r == occurs_at(cs@, i as int, d@),
{
    if i > cs.len() || d.len() > cs.len() - i {
        return false;
    }
    let mut k: usize = 0;
    while k < d.len()
        invariant
            k <= d@.len(),
            i + d@.len() <= cs@.len(),
            cs@.len() == cs.len(),
            forall|j: int| 0 <= j < k ==> cs@[i + j] == d@[j],
        decreases d.len() - k,
    {
        if cs[i + k] != d[k] {
            assert(cs@.subrange(i as int, i + d@.len())[k as int] != d@[k as int]);
            return false;
        }
        k = k + 1;
    }
    assert(cs@.subrange(i as int, i + d@.len()) =~= d@);
    true
}

/// Whether `d` occurs anywhere in `cs`.
pub fn contains_chars(cs: &Vec<char>, d: &Vec<char>) -> (r: bool)
    ensures
        r == contains(cs@, d@),
{
    let mut i: usize = 0;
    while i < cs.len()
        invariant
            i <= cs@.len(),
            forall|j: int| 0 <= j < i ==> !occurs_at(cs@, j, d@),
        decreases cs.len() - i,
    {
        if occurs_at_index(cs, i, d) {
            return true;
        }
        i = i + 1;
    }
    if occurs_at_index(cs, i, d) {
        return true;
    }
    assert forall|j: int| !occurs_at(cs@, j, d@) by {
        if j > cs@.len() {
            assert(!occurs_at(cs@, j, d@));
        }
    }
    false
}

/// The white-space separated words of `s`, as `str::split_whitespace` gives
/// them: a character that is not white space extends the word of the
/// character before it, or starts a new word after white space.
pub open spec fn words(s: Seq<char>) -> Seq<Seq<char>>
    decreases s.len(),
{
    if s.len() == 0 {
        Seq::empty()
    } else {
        let w = words(s.drop_last());
        let c = s.last();
        if is_space(c) {
            w
        } else if s.len() >= 2 && !is_space(s[s.len() - 2]) && w.len() > 0 {
            w.drop_last().push(w.last().push(c))
        } else {
            w.push(seq![c])
        }
    }
}

/// The words of `cs[lo..hi]`.
pub fn split_words(cs: &Vec<char>, lo: usize, hi: usize) -> (r: Vec<String>)
    requires
        lo <= hi <= cs@.len(),
    ensures
        r@.map_values(|w: String| w@) == words(cs@.subrange(lo as int, hi as int)),
{
    let mut out: Vec<String> = Vec::new();
    let mut cur: Vec<char> = Vec::new();
    let mut in_word = false;
    let mut pos: usize = lo;
    while pos < hi
        invariant
            lo <= pos <= hi <= cs@.len(),
            in_word == (pos > lo && !is_space(cs@[pos - 1])),
            in_word ==> cur@.len() > 0,
            words(cs@.subrange(lo as int, pos as int)) == if in_word {
                out@.map_values(|w: String| w@).push(cur@)
            } else {
                out@.map_values(|w: String| w@)
            },
        decreases hi - pos,
    {
        let c = cs[pos];
        let ghost prefix = cs@.subrange(lo as int, pos + 1);
        assert(prefix.drop_last() =~= cs@.subrange(lo as int, pos as int));
        assert(prefix.last() == c);
        if is_space_char(c) {
            if in_word {
                let ghost before = out@.map_values(|w: String| w@);
                let w = string_of(cur);
                out.push(w);
                assert(out@.map_values(|w: String| w@) =~= before.push(cur@));
                cur = Vec::new();
            }
            in_word = false;
        } else {
            if in_word {
                proof {
                    let ws = words(cs@.subrange(lo as int, pos as int));
                    assert(ws.drop_last() =~= out@.map_values(|w: String| w@));
                }
                cur.push(c);
            } else {
                cur = Vec::new();
                cur.push(c);
                assert(cur@ =~= seq![c]);
            }
            in_word = true;
        }
        pos = pos + 1;
    }
    if in_word {
        let ghost before = out@.map_values(|w: String| w@);
        out.push(string_of(cur));
        assert(out@.map_values(|w: String| w@) =~= before.push(cur@));
    }
    out
}

/// `w` without its leading colons, as `str::trim_start_matches(":")` leaves it.
pub open spec fn strip_colons(w: Seq<char>) -> Seq<char>
    decreases w.len(),
{
    if w.len() > 0 && w[0] == ':' {
        strip_colons(w.drop_first())
    } else {
        w
    }
}

/// `w` without its leading colons.
pub fn strip_colons_of(w: &str) -> (r: String)
    ensures
        r@ == strip_colons(w@),
{
    let cs = chars_of(w);
    let mut a: usize = 0;
    assert(cs@.subrange(0, cs@.len() as int) =~= cs@);
    while a < cs.len() && cs[a] == ':'
        invariant
            a <= cs@.len(),
            strip_colons(cs@) == strip_colons(cs@.subrange(a as int, cs@.len() as int)),
        decreases cs.len() - a,
    {
        assert(cs@.subrange(a as int, cs@.len() as int).drop_first() =~= cs@.subrange(
            a + 1,
            cs@.len() as int,
        ));
        a = a + 1;
    }
    let mut rest: Vec<char> = Vec::new();
    let mut k: usize = a;
    while k < cs.len()
        invariant
            a <= k <= cs@.len(),
            rest@ == cs@.subrange(a as int, k as int),
        decreases cs.len() - k,
    {
        rest.push(cs[k]);
        assert(rest@ =~= cs@.subrange(a as int, k + 1));
        k = k + 1;
    }
    string_of(rest)
}

/// Whether every character of `d` is an ASCII digit.
pub open spec fn all_digits(d: Seq<char>) -> bool {
    forall|i: int| 0 <= i < d.len() ==> '0' <= #[trigger] d[i] <= '9'
}

/// The number that the decimal digits `d` spell.
pub open spec fn digits_value(d: Seq<char>) -> int
    decreases d.len(),
{
    if d.len() == 0 {
        0
    } else {
        digits_value(d.drop_last()) * 10 + (d.last() as int - '0' as int)
    }
}

/// What `str::parse::<usize>` makes of `s`: an optional `+` and then one or
/// more decimal digits whose value fits in `usize`.
pub open spec fn parse_usize(s: Seq<char>) -> Option<usize> {
    let d = if s.len() > 0 && s[0] == '+' {
        s.drop_first()
    } else {
        s
    };
    if d.len() > 0 && all_digits(d) && digits_value(d) <= usize::MAX {
        Some(digits_value(d) as usize)
    } else {
        None
    }
}

proof fn lemma_digits_grow(d: Seq<char>, k: int)
    requires
        0 <= k <= d.len(),
        all_digits(d),
    ensures
        0 <= digits_value(d.subrange(0, k)) <= digits_value(d),
    decreases d.len() - k,
{
    if k < d.len() {
        lemma_digits_grow(d, k + 1);
        let p = d.subrange(0, k + 1);
        assert(p.drop_last() =~= d.subrange(0, k));
        assert('0' <= p.last() <= '9');
    } else {
        assert(d.subrange(0, k) =~= d);
        lemma_digits_nonneg(d);
    }
}

proof fn lemma_digits_nonneg(d: Seq<char>)
    requires
        all_digits(d),
    ensures
        digits_value(d) >= 0,
    decreases d.len(),
{
    if d.len() > 0 {
        assert(all_digits(d.drop_last()));
        lemma_digits_nonneg(d.drop_last());
        assert('0' <= d.last() <= '9');
    }
}

/// The number that `cs[lo..hi]` spells, as `str::parse::<usize>` reads it.
pub fn parse_usize_at(cs: &Vec<char>, lo: usize, hi: usize) -> (r: Option<usize>)
    requires
        lo <= hi <= cs@.len(),
    ensures
        r == parse_usize(cs@.subrange(lo as int, hi as int)),
{
    let ghost s = cs@.subrange(lo as int, hi as int);
    let mut a: usize = lo;
    if a < hi && cs[a] == '+' {
        a = a + 1;
    }
    let ghost d = cs@.subrange(a as int, hi as int);
    assert(d =~= if s.len() > 0 && s[0] == '+' {
        s.drop_first()
    } else {
        s
    });
    if a == hi {
        return None;
    }
    let mut acc: usize = 0;
    let mut k: usize = a;
    while k < hi
        invariant
            a <= k <= hi <= cs@.len(),
            d == cs@.subrange(a as int, hi as int),
            s == cs@.subrange(lo as int, hi as int),
            d.len() > 0,
            d == if s.len() > 0 && s[0] == '+' {
                s.drop_first()
            } else {
                s
            },
            all_digits(cs@.subrange(a as int, k as int)),
            acc as int == digits_value(cs@.subrange(a as int, k as int)),
        decreases hi - k,
    {
        let c = cs[k];
        let ghost prefix = cs@.subrange(a as int, k + 1);
        assert(prefix.drop_last() =~= cs@.subrange(a as int, k as int));
        if c < '0' || c > '9' {
            assert(!all_digits(d)) by {
                assert(d[k - a] == c);
            }
            return None;
        }
        let digit = (c as u32 - '0' as u32) as usize;
        assert(all_digits(prefix));
        assert(prefix.last() == c);
        assert(digits_value(prefix) == acc * 10 + digit);
        match acc.checked_mul(10) {
            Some(m) => match m.checked_add(digit) {
                Some(v) => {
                    acc = v;
                },
                None => {
                    proof {
                        if all_digits(d) {
                            assert(prefix =~= d.subrange(0, k + 1 - a));
                            lemma_digits_grow(d, k + 1 - a);
                        }
                    }
                    return None;
                },
            },
            None => {
                proof {
                    lemma_digits_nonneg(cs@.subrange(a as int, k as int));
                    if all_digits(d) {
                        assert(prefix =~= d.subrange(0, k + 1 - a));
                        lemma_digits_grow(d, k + 1 - a);
                    }
                }
                return None;
            },
        }
        k = k + 1;
    }
    Some(acc)
}

/// A copy of `cs[a..b]`.
pub fn copy_range(cs: &Vec<char>, a: usize, b: usize) -> (r: Vec<char>)
    requires
        a <= b <= cs@.len(),
    ensures
        r@ == cs@.subrange(a as int, b as int),
{
    let mut out: Vec<char> = Vec::new();
    let mut k: usize = a;
    while k < b
        invariant
            a <= k <= b <= cs@.len(),
            out@ == cs@.subrange(a as int, k as int),
        decreases b - k,
    {
        out.push(cs[k]);
        assert(out@ =~= cs@.subrange(a as int, k + 1));
        k = k + 1;
    }
    out
}

/// The lines of `s`: the pieces between newline characters, the last one
/// included even when empty.
pub open spec fn split_lines(s: Seq<char>) -> Seq<Seq<char>>
    decreases s.len(),
{
    if s.len() == 0 {
        seq![Seq::empty()]
    } else {
        let w = split_lines(s.drop_last());
        if s.last() == '\n' {
            w.push(Seq::empty())
        } else {
            w.drop_last().push(w.last().push(s.last()))
        }
    }
}

pub proof fn lemma_split_lines_nonempty(s: Seq<char>)
    ensures
        split_lines(s).len() > 0,
    decreases s.len(),
{
    if s.len() > 0 {
        lemma_split_lines_nonempty(s.drop_last());
    }
}

/// Whether `a` and `b` hold the same characters.
pub fn same_text(a: &str, b: &str) -> (r: bool)
    ensures
        r == (a@ == b@),
{
    let x = chars_of(a);
    let y = chars_of(b);
    if x.len() != y.len() {
        assert(x@.len() != y@.len());
        return false;
    }
    let mut k: usize = 0;
    while k < x.len()
        invariant
            k <= x@.len() == y@.len(),
            x@ == a@,
            y@ == b@,
            forall|j: int| 0 <= j < k ==> x@[j] == y@[j],
        decreases x.len() - k,
    {
        if x[k] != y[k] {
            assert(x@[k as int] != y@[k as int]);
            return false;
        }
        k = k + 1;
    }
    assert(x@ =~= y@);
    true
}

/// A copy of `o`.
pub fn copy_opt_text(o: &Option<String>) -> (r: Option<String>)
    ensures
        opt_text(r) == opt_text(*o),
{
    match o {
        Some(s) => Some(s.clone()),
        None => None,
    }
}

/// The characters of an optional string.
pub open spec fn opt_text(o: Option<String>) -> Option<Seq<char>> {
    match o {
        Some(s) => Some(s@),
        None => None,
    }
}

/// A name for what `str::to_lowercase` makes of a text: it depends on the
/// characters alone.
pub uninterp spec fn lower_of(s: Seq<char>) -> Seq<char>;

/// Relies on `str::to_lowercase`: the lower-case form of `s`, which depends on
/// its characters alone.
#[verifier::external_body]
pub(crate) fn lowercase(s: &str) -> (r: String)
    ensures
        r@ == lower_of(s@),
{
    s.to_lowercase()
}

/// The characters of `s`, in order.
pub fn chars_of(s: &str) -> (r: Vec<char>)
    ensures
        r@ == s@,
{
    broadcast use vstd::string::group_string_axioms;

    let mut it = s.chars();
    let mut out: Vec<char> = Vec::new();
    loop
        invariant
            out@ + it.remaining() == s@,
            it.obeys_prophetic_iter_laws(),
        ensures
            out@ == s@,
        decreases s@.len() - out@.len(),
    {
        let ghost before = it.remaining();
        match it.next() {
            Some(c) => {
                out.push(c);
                assert(before == seq![c] + it.remaining());
            },
            None => {
                assert(out@ =~= s@);
                break;
            },
        }
    }
    out
}

/// Relies on `String::from_iter`: the string made of the characters of `v`,
/// in order.
#[verifier::external_body]
pub(crate) fn string_of(v: Vec<char>) -> (r: String)
    ensures
        r@ == v@,
{
    String::from_iter(v)
}

} // verus!
