//! Strings taken apart into their characters and put together again.

use vstd::prelude::*;
use vstd::utf8::{decode_utf8, valid_utf8};

verus! {

/// `String::push` appends the given character to the end of the string.
pub assume_specification[ String::push ](string: &mut String, ch: char)
    ensures
        final(string)@ == old(string)@.push(ch),
;

/// Whether `c` has the Unicode property `White_Space`, as `char::is_whitespace` reports it.
pub uninterp spec fn white_space(c: char) -> bool;

/// `char::is_whitespace` tells whether the character has the property `White_Space`.
pub assume_specification[ char::is_whitespace ](c: char) -> (white: bool)
    ensures
        white == white_space(c),
;

/// `text` without the white space at its start.
pub open spec fn trim_start(text: Seq<char>) -> Seq<char>
    decreases text.len(),
{
    if text.len() > 0 && white_space(text[0]) {
        trim_start(text.drop_first())
    } else {
        text
    }
}

/// `text` without the white space at its end.
pub open spec fn trim_end(text: Seq<char>) -> Seq<char>
    decreases text.len(),
{
    if text.len() > 0 && white_space(text.last()) {
        trim_end(text.drop_last())
    } else {
        text
    }
}

/// `text` without the white space at its start and at its end.
pub open spec fn trimmed(text: Seq<char>) -> Seq<char> {
    trim_end(trim_start(text))
}

/// What follows the last `.` in `name`; `None` where `name` holds no `.`.
pub open spec fn after_last_dot(name: Seq<char>) -> Option<Seq<char>>
    decreases name.len(),
{
    if name.len() == 0 {
        None
    } else if name.last() == '.' {
        Some(Seq::empty())
    } else {
        match after_last_dot(name.drop_last()) {
            Some(tail) => Some(tail.push(name.last())),
            None => None,
        }
    }
}

/// Length of the first line of `text`, its line feed included: `text` up to and with its
/// first line feed, or all of it where it holds none.
pub open spec fn line_end(text: Seq<char>) -> int
    decreases text.len(),
{
    if text.len() == 0 {
        0
    } else if text[0] == '\n' {
        1
    } else {
        1 + line_end(text.drop_first())
    }
}

/// The lines of `text`, each with the line feed that ends it.
pub open spec fn lines(text: Seq<char>) -> Seq<Seq<char>>
    decreases text.len(),
{
    if text.len() == 0 {
        Seq::empty()
    } else {
        let end = line_end(text);
        proof {
            lemma_line_end_bounds(text);
        }
        seq![text.subrange(0, end)] + lines(text.subrange(end, text.len() as int))
    }
}

/// `text` without the characters `gone`.
pub open spec fn without(text: Seq<char>, gone: char) -> Seq<char>
    decreases text.len(),
{
    if text.len() == 0 {
        text
    } else if text.last() == gone {
        without(text.drop_last(), gone)
    } else {
        without(text.drop_last(), gone).push(text.last())
    }
}

/// The first line ends with the first line feed.
pub proof fn lemma_line_end(text: Seq<char>, stop: int)
    requires
        0 <= stop <= text.len(),
        forall|i: int| 0 <= i < stop ==> text[i] != '\n',
        stop < text.len() ==> text[stop] == '\n',
    ensures
        line_end(text) == if stop < text.len() {
            stop + 1
        } else {
            stop
        },
    decreases text.len(),
{
    if text.len() > 0 && text[0] != '\n' {
        lemma_line_end(text.drop_first(), stop - 1);
    }
}

/// The first line of a text that is not empty is not empty, and no longer than the text.
pub proof fn lemma_line_end_bounds(text: Seq<char>)
    ensures
        text.len() > 0 ==> 0 < line_end(text) <= text.len(),
        text.len() == 0 ==> line_end(text) == 0,
    decreases text.len(),
{
    if text.len() > 0 && text[0] != '\n' {
        lemma_line_end_bounds(text.drop_first());
    }
}

/// What follows a `.` that no other `.` follows is what follows the last `.`.
pub proof fn lemma_after_last_dot(name: Seq<char>, dot: int)
    requires
        0 <= dot < name.len(),
        name[dot] == '.',
        forall|i: int| dot < i < name.len() ==> name[i] != '.',
    ensures
        after_last_dot(name) == Some(name.subrange(dot + 1, name.len() as int)),
    decreases name.len(),
{
    if dot == name.len() - 1 {
        assert(name.subrange(dot + 1, name.len() as int) =~= Seq::<char>::empty());
    } else {
        let front = name.drop_last();
        lemma_after_last_dot(front, dot);
        assert(front.subrange(dot + 1, front.len() as int).push(name.last()) =~= name.subrange(
            dot + 1,
            name.len() as int,
        ));
    }
}

/// A name without a `.` has nothing after a last `.`.
pub proof fn lemma_no_dot(name: Seq<char>)
    requires
        forall|i: int| 0 <= i < name.len() ==> name[i] != '.',
    ensures
        after_last_dot(name) is None,
    decreases name.len(),
{
    if name.len() > 0 {
        lemma_no_dot(name.drop_last());
    }
}

/// `core::str::from_utf8` hands back the bytes as a string where they are valid UTF-8, and
/// an error where they are not.
#[verifier::external_body]
pub(crate) fn str_from_utf8(bytes: &[u8]) -> (text: Option<&str>)
    ensures
        match text {
            Some(text) => valid_utf8(bytes@) && text@ == decode_utf8(bytes@),
            None => !valid_utf8(bytes@),
        },
{
    core::str::from_utf8(bytes).ok()
}

/// The characters of `text`, in order.
pub fn chars_of(text: &str) -> (chars: Vec<char>)
    ensures
        chars@ == text@,
{
    let mut chars: Vec<char> = Vec::new();
    for c in it: text.chars()
        invariant
            chars@ == it.seq().take(it.index() as int),
    {
        chars.push(c);
    }
    chars
}

/// The string that the characters of `chars` from `start` up to `end` spell.
pub fn string_of(chars: &Vec<char>, start: usize, end: usize) -> (text: String)
    requires
        start <= end <= chars@.len(),
    ensures
        text@ == chars@.subrange(start as int, end as int),
{
    let mut text = String::new();
    let mut i: usize = start;
    while i < end
        invariant
            start <= i <= end <= chars@.len(),
            text@ == chars@.subrange(start as int, i as int),
        decreases end - i,
    {
        text.push(chars[i]);
        i = i + 1;
        assert(text@ =~= chars@.subrange(start as int, i as int));
    }
    text
}

/// The strings in `list`, each by its characters.
pub open spec fn texts(list: Seq<String>) -> Seq<Seq<char>> {
    Seq::new(list.len(), |i: int| list[i]@)
}

/// The lines of `text`, each with the line feed that ends it.
pub fn lines_with_endings(text: &str) -> (list: Vec<String>)
    ensures
        texts(list@) == lines(text@),
{
    let chars = chars_of(text);
    let mut list: Vec<String> = Vec::new();
    let mut start: usize = 0;
    proof {
        assert(chars@.subrange(0, chars@.len() as int) =~= chars@);
        assert(texts(list@) + lines(chars@) =~= lines(chars@));
    }
    while start < chars.len()
        invariant
            start <= chars@.len(),
            texts(list@) + lines(chars@.subrange(start as int, chars@.len() as int)) == lines(
                chars@,
            ),
        decreases chars@.len() - start,
    {
        let ghost rest = chars@.subrange(start as int, chars@.len() as int);
        let mut stop: usize = start;
        while stop < chars.len() && chars[stop] != '\n'
            invariant
                start <= stop <= chars@.len(),
                forall|i: int| start <= i < stop ==> chars@[i] != '\n',
            decreases chars@.len() - stop,
        {
            stop = stop + 1;
        }
        let end = if stop < chars.len() {
            stop + 1
        } else {
            stop
        };
        let line = string_of(&chars, start, end);
        proof {
            lemma_line_end(rest, stop - start);
            assert(rest.subrange(0, end - start) =~= line@);
            assert(rest.subrange(end - start, rest.len() as int) =~= chars@.subrange(
                end as int,
                chars@.len() as int,
            ));
            let tail = lines(chars@.subrange(end as int, chars@.len() as int));
            assert(texts(list@.push(line)) =~= texts(list@) + seq![line@]);
            assert((texts(list@) + seq![line@]) + tail =~= texts(list@) + (seq![line@] + tail));
        }
        list.push(line);
        start = end;
    }
    proof {
        assert(texts(list@) + Seq::<Seq<char>>::empty() =~= texts(list@));
    }
    list
}

/// `text` without the characters `gone`.
pub fn without_char(text: &str, gone: char) -> (rest: String)
    ensures
        rest@ == without(text@, gone),
{
    let chars = chars_of(text);
    let mut rest = String::new();
    let mut i: usize = 0;
    while i < chars.len()
        invariant
            i <= chars@.len(),
            rest@ == without(chars@.subrange(0, i as int), gone),
        decreases chars@.len() - i,
    {
        proof {
            assert(chars@.subrange(0, i + 1).drop_last() =~= chars@.subrange(0, i as int));
        }
        if chars[i] != gone {
            rest.push(chars[i]);
        }
        i = i + 1;
    }
    proof {
        assert(chars@.subrange(0, chars@.len() as int) =~= chars@);
    }
    rest
}

/// Where `chars` from `start` on is left after the white space at its start and at its end
/// is taken off: the range that stays.
pub fn trim_range(chars: &Vec<char>, start: usize) -> (range: (usize, usize))
    requires
        start <= chars@.len(),
    ensures
        start <= range.0 <= range.1 <= chars@.len(),
        chars@.subrange(range.0 as int, range.1 as int) == trimmed(
            chars@.subrange(start as int, chars@.len() as int),
        ),
{
    let ghost whole = chars@.subrange(start as int, chars@.len() as int);
    let mut from: usize = start;
    while from < chars.len() && chars[from].is_whitespace()
        invariant
            start <= from <= chars@.len(),
            trim_start(chars@.subrange(from as int, chars@.len() as int)) == trim_start(
                chars@.subrange(start as int, chars@.len() as int),
            ),
        decreases chars@.len() - from,
    {
        assert(chars@.subrange(from as int, chars@.len() as int).drop_first() =~= chars@.subrange(
            from + 1,
            chars@.len() as int,
        ));
        from = from + 1;
    }
    let ghost kept = chars@.subrange(from as int, chars@.len() as int);
    assert(trim_start(whole) == kept);
    let mut to: usize = chars.len();
    while to > from && chars[to - 1].is_whitespace()
        invariant
            from <= to <= chars@.len(),
            trim_end(chars@.subrange(from as int, to as int)) == trim_end(
                chars@.subrange(from as int, chars@.len() as int),
            ),
        decreases to,
    {
        assert(chars@.subrange(from as int, to as int).drop_last() =~= chars@.subrange(
            from as int,
            to - 1,
        ));
        to = to - 1;
    }
    (from, to)
}

/// `text` without the white space at its start and at its end.
pub fn trim(text: &str) -> (bare: String)
    ensures
        bare@ == trimmed(text@),
{
    let chars = chars_of(text);
    let range = trim_range(&chars, 0);
    assert(chars@.subrange(0, chars@.len() as int) =~= chars@);
    string_of(&chars, range.0, range.1)
}

} // verus!
