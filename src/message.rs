//! The diagnostic text reported when a deadline elapses.
//!
//! A condition is described by its source text, with runs of whitespace
//! collapsed to single spaces and a leading `move || ` removed.
use vstd::prelude::*;

verus! {

/// The characters with the Unicode `White_Space` property.
pub open spec fn is_space(c: char) -> bool {
    ('\u{9}' <= c && c <= '\u{d}') || c == ' ' || c == '\u{85}' || c == '\u{a0}' || c == '\u{1680}'
        || ('\u{2000}' <= c && c <= '\u{200a}') || c == '\u{2028}' || c == '\u{2029}' || c
        == '\u{202f}' || c == '\u{205f}' || c == '\u{3000}'
}

/// The words of `s`: its maximal runs of non-space characters, in order.
pub open spec fn words(s: Seq<char>) -> Seq<Seq<char>>
    decreases s.len(),
{
    if s.len() == 0 {
        seq![]
    } else if is_space(s.last()) {
        words(s.drop_last())
    } else if s.len() == 1 || is_space(s[s.len() - 2]) {
        words(s.drop_last()).push(seq![s.last()])
    } else {
        let w = words(s.drop_last());
        w.update(w.len() - 1, w.last().push(s.last()))
    }
}

/// The words joined with one space between each two.
pub open spec fn join_words(ws: Seq<Seq<char>>) -> Seq<char>
    decreases ws.len(),
{
    if ws.len() == 0 {
        seq![]
    } else if ws.len() == 1 {
        ws[0]
    } else {
        join_words(ws.drop_last()) + seq![' '] + ws.last()
    }
}

/// `s` with its whitespace normalized: its words joined by single spaces.
pub open spec fn collapse_spaces(s: Seq<char>) -> Seq<char> {
    join_words(words(s))
}

/// The token that introduces a closure without arguments that moves its captures.
pub open spec fn closure_intro() -> Seq<char> {
    seq!['m', 'o', 'v', 'e', ' ', '|', '|', ' ']
}

/// `t` without a leading closure introducer, if it has one.
pub open spec fn strip_closure_intro(t: Seq<char>) -> Seq<char> {
    let p = closure_intro();
    if p.len() <= t.len() && t.take(p.len() as int) == p {
        t.skip(p.len() as int)
    } else {
        t
    }
}

/// The description of a condition given by its source text.
pub open spec fn description_of(source: Seq<char>) -> Seq<char> {
    strip_closure_intro(collapse_spaces(source))
}

/// The fixed start of the message of an elapsed deadline.
pub open spec fn elapsed_prefix() -> Seq<char> {
    "the deadline has elapsed for condition: "@
}

/// Whether `c` has the Unicode `White_Space` property.
pub fn is_space_char(c: char) -> (r: bool)
    ensures
        r == is_space(c),
{
    ('\u{9}' <= c && c <= '\u{d}') || c == ' ' || c == '\u{85}' || c == '\u{a0}' || c == '\u{1680}'
        || ('\u{2000}' <= c && c <= '\u{200a}') || c == '\u{2028}' || c == '\u{2029}' || c
        == '\u{202f}' || c == '\u{205f}' || c == '\u{3000}'
}

/// A text whose last character is not a space has at least one word.
proof fn lemma_words_nonempty(s: Seq<char>)
    requires
        s.len() > 0,
        !is_space(s.last()),
    ensures
        words(s).len() > 0,
    decreases s.len(),
{
    if s.len() > 1 && !is_space(s[s.len() - 2]) {
        lemma_words_nonempty(s.drop_last());
    }
}

/// Joining after lengthening the last word lengthens the joined text.
proof fn lemma_join_extend_last(ws: Seq<Seq<char>>, c: char)
    requires
        ws.len() > 0,
    ensures
        join_words(ws.update(ws.len() - 1, ws.last().push(c))) == join_words(ws).push(c),
{
    let ws2 = ws.update(ws.len() - 1, ws.last().push(c));
    assert(ws2.drop_last() == ws.drop_last());
    if ws.len() > 1 {
        assert(join_words(ws2) == join_words(ws.drop_last()) + seq![' '] + ws.last().push(c));
        assert(join_words(ws2) == join_words(ws).push(c));
    }
}

/// Joining after appending a word adds a space (if there were words) and the word.
proof fn lemma_join_push(ws: Seq<Seq<char>>, w: Seq<char>)
    ensures
        ws.len() == 0 ==> join_words(ws.push(w)) == w,
        ws.len() > 0 ==> join_words(ws.push(w)) == join_words(ws) + seq![' '] + w,
{
    assert(ws.push(w).drop_last() == ws);
}

/// The source text with its whitespace collapsed to single spaces.
fn collapse(source: &str) -> (r: Vec<char>)
    ensures
        r@ == collapse_spaces(source@),
{
    let n = source.unicode_len();
    let mut out: Vec<char> = Vec::new();
    let mut started = false;
    let mut i: usize = 0;
    while i < n
        invariant
            n == source@.len(),
            i <= n,
            out@ == join_words(words(source@.take(i as int))),
            started == (words(source@.take(i as int)).len() > 0),
        decreases n - i,
    {
        let c = source.get_char(i);
        let ghost s = source@.take(i as int + 1);
        let ghost ws = words(source@.take(i as int));
        assert(s.drop_last() == source@.take(i as int));
        assert(s.last() == c);
        if is_space_char(c) {
        } else if i == 0 || is_space_char(source.get_char(i - 1)) {
            proof {
                if i > 0 {
                    assert(s[s.len() - 2] == source@[i - 1]);
                }
                lemma_join_push(ws, seq![c]);
                if ws.len() > 0 {
                    assert(seq![' '] + seq![c] == seq![' ', c]);
                    assert(join_words(ws) + seq![' '] + seq![c] == join_words(ws) + seq![' ', c]);
                }
            }
            if started {
                out.push(' ');
            }
            out.push(c);
            started = true;
        } else {
            proof {
                assert(s[s.len() - 2] == source@[i - 1]);
                lemma_words_nonempty(source@.take(i as int));
                lemma_join_extend_last(ws, c);
            }
            out.push(c);
        }
        i = i + 1;
    }
    assert(source@.take(n as int) == source@);
    out
}

/// Whether `t` starts with the closure introducer.
fn starts_with_closure_intro(t: &Vec<char>) -> (r: bool)
    ensures
        r == (closure_intro().len() <= t@.len() && t@.take(closure_intro().len() as int)
            == closure_intro()),
{
    let p: Vec<char> = vec!['m', 'o', 'v', 'e', ' ', '|', '|', ' '];
    assert(p@ == closure_intro());
    if t.len() < p.len() {
        return false;
    }
    let mut i: usize = 0;
    while i < p.len()
        invariant
            p@ == closure_intro(),
            p.len() <= t.len(),
            i <= p.len(),
            forall|j: int| 0 <= j < i ==> t@[j] == p@[j],
        decreases p.len() - i,
    {
        if t[i] != p[i] {
            assert(t@.take(p.len() as int)[i as int] != p@[i as int]);
            return false;
        }
        i = i + 1;
    }
    assert(t@.take(p.len() as int) == p@);
    true
}

/// Relies on `String::push`: the character is appended at the end.
#[verifier::external_body]
fn push_char(s: &mut String, c: char)
    ensures
        final(s)@ == old(s)@.push(c),
{
    s.push(c)
}

/// Describes a condition by its source text: whitespace runs become single
/// spaces, none is kept at either end, and a leading `move || ` is removed.
pub fn describe_condition(source: &str) -> (r: String)
    ensures
        r@ == description_of(source@),
{
    let t = collapse(source);
    let start: usize = if starts_with_closure_intro(&t) {
        8
    } else {
        0
    };
    let ghost rest = strip_closure_intro(t@);
    assert(rest == t@.skip(start as int));
    let mut r = String::new();
    let mut i: usize = start;
    while i < t.len()
        invariant
            start <= i <= t.len(),
            rest == t@.skip(start as int),
            r@ == t@.subrange(start as int, i as int),
        decreases t.len() - i,
    {
        push_char(&mut r, t[i]);
        assert(t@.subrange(start as int, i + 1) == t@.subrange(start as int, i as int).push(t@[i as int]));
        i = i + 1;
    }
    assert(t@.subrange(start as int, t.len() as int) == rest);
    r
}

/// The message of a deadline that elapsed before the condition held, naming
/// the condition where a description of it is given.
pub fn elapsed_message(description: Option<&str>) -> (r: String)
    ensures
        description is Some ==> r@ == elapsed_prefix() + description->0@,
        description is None ==> r@ == "the deadline has elapsed"@,
{
    match description {
        Some(d) => {
            let mut r = String::from_str("the deadline has elapsed for condition: ");
            r.append(d);
            r
        },
        None => String::from_str("the deadline has elapsed"),
    }
}

} // verus!
