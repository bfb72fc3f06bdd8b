//! The configuration text: one `key:value` setting per line.

use crate::text::chars_of;
use crate::text::same_chars;
use vstd::prelude::*;

verus! {

/// The settings that a configuration text can hold.
#[derive(Clone, Copy, Debug, PartialEq, Eq, Structural)]
pub enum Key {
    /// `t min`
    TMin,
    /// `t max`
    TMax,
    /// `t div`
    TDiv,
    /// `y min`
    YMin,
    /// `y max`
    YMax,
    /// `y div`
    YDiv,
    /// `eq`
    Equation,
}

/// One line of a configuration text.
#[derive(Debug, PartialEq, Eq)]
#[allow(inconsistent_fields)]
pub enum Line {
    /// A known key and the text after its colon, up to a second colon if there is one.
    Setting { key: Key, value: String },
    /// A key that is none of the known ones.
    Unknown { key: String },
    /// A line without a colon.
    Malformed { text: String },
}

#[allow(inconsistent_fields)]
pub enum LineView {
    Setting { key: Key, value: Seq<char> },
    Unknown { key: Seq<char> },
    Malformed { text: Seq<char> },
}

impl View for Line {
    type V = LineView;

    open spec fn view(&self) -> LineView {
        match self {
            Line::Setting { key, value } => LineView::Setting { key: *key, value: value@ },
            Line::Unknown { key } => LineView::Unknown { key: key@ },
            Line::Malformed { text } => LineView::Malformed { text: text@ },
        }
    }
}

/// Index of the first `c` in `s`, or the length of `s` if there is none.
pub open spec fn first_of(s: Seq<char>, c: char) -> int
    decreases s.len(),
{
    if s.len() == 0 || s[0] == c {
        0
    } else {
        1 + first_of(s.drop_first(), c)
    }
}

/// `first_of` lies within the text, nothing before it is `c`, and where it
/// is not the end it is a `c`.
pub proof fn lemma_first_of(s: Seq<char>, c: char)
    ensures
        0 <= first_of(s, c) <= s.len(),
        forall|i: int| 0 <= i < first_of(s, c) ==> s[i] != c,
        first_of(s, c) < s.len() ==> s[first_of(s, c)] == c,
    decreases s.len(),
{
    if s.len() > 0 && s[0] != c {
        lemma_first_of(s.drop_first(), c);
        assert forall|i: int| 0 <= i < first_of(s, c) implies s[i] != c by {
            if i > 0 {
                assert(s[i] == s.drop_first()[i - 1]);
            }
        }
    }
}

/// A line without the carriage return that ended it, if one did.
pub open spec fn without_cr(line: Seq<char>) -> Seq<char> {
    if line.len() > 0 && line.last() == '\r' {
        line.drop_last()
    } else {
        line
    }
}

/// The lines of a text. A line ends with a line feed, or with a carriage
/// return and a line feed; neither belongs to the line. The last line
/// needs no line ending, and after a final line ending no empty line follows.
pub open spec fn lines_of(s: Seq<char>) -> Seq<Seq<char>>
    decreases s.len(),
    via lines_of_shrinks
{
    if s.len() == 0 {
        Seq::empty()
    } else if first_of(s, '\n') >= s.len() {
        seq![s]
    } else {
        seq![without_cr(s.take(first_of(s, '\n')))] + lines_of(s.skip(first_of(s, '\n') + 1))
    }
}

#[via_fn]
proof fn lines_of_shrinks(s: Seq<char>) {
    lemma_first_of(s, '\n');
}

/// The setting that a key names. Keys are matched as they stand: no
/// trimming, no folding of case.
pub open spec fn key_of(name: Seq<char>) -> Option<Key> {
    if name == "t min"@ {
        Some(Key::TMin)
    } else if name == "t max"@ {
        Some(Key::TMax)
    } else if name == "t div"@ {
        Some(Key::TDiv)
    } else if name == "y min"@ {
        Some(Key::YMin)
    } else if name == "y max"@ {
        Some(Key::YMax)
    } else if name == "y div"@ {
        Some(Key::YDiv)
    } else if name == "eq"@ {
        Some(Key::Equation)
    } else {
        None
    }
}

/// What a line says. The key is what stands before the first colon, the
/// value what stands between the first colon and the second, or the end
/// of the line.
pub open spec fn read_line(line: Seq<char>) -> LineView {
    let colon = first_of(line, ':');
    if colon >= line.len() {
        LineView::Malformed { text: line }
    } else {
        let rest = line.skip(colon + 1);
        match key_of(line.take(colon)) {
            Some(key) => LineView::Setting { key, value: rest.take(first_of(rest, ':')) },
            None => LineView::Unknown { key: line.take(colon) },
        }
    }
}

/// Index of the first `c` in `chars[from..to]`, or `to`.
pub fn find(chars: &Vec<char>, from: usize, to: usize, c: char) -> (at: usize)
    requires
        from <= to <= chars.len(),
    ensures
        from <= at <= to,
        at - from == first_of(chars@.subrange(from as int, to as int), c),
{
    let mut at: usize = from;
    while at < to && chars[at] != c
        invariant
            from <= at <= to <= chars.len(),
            first_of(chars@.subrange(from as int, to as int), c) == (at - from) + first_of(
                chars@.subrange(at as int, to as int),
                c,
            ),
        decreases to - at,
    {
        proof {
            assert(chars@.subrange(at as int, to as int).drop_first() =~= chars@.subrange(
                at + 1,
                to as int,
            ));
        }
        at = at + 1;
    }
    at
}

/// The setting named by `chars[from..to]`.
pub fn key_in(chars: &Vec<char>, from: usize, to: usize) -> (r: Option<Key>)
    requires
        from <= to <= chars.len(),
    ensures
        r == key_of(chars@.subrange(from as int, to as int)),
{
    if same_chars(chars, from, to, &chars_of("t min")) {
        Some(Key::TMin)
    } else if same_chars(chars, from, to, &chars_of("t max")) {
        Some(Key::TMax)
    } else if same_chars(chars, from, to, &chars_of("t div")) {
        Some(Key::TDiv)
    } else if same_chars(chars, from, to, &chars_of("y min")) {
        Some(Key::YMin)
    } else if same_chars(chars, from, to, &chars_of("y max")) {
        Some(Key::YMax)
    } else if same_chars(chars, from, to, &chars_of("y div")) {
        Some(Key::YDiv)
    } else if same_chars(chars, from, to, &chars_of("eq")) {
        Some(Key::Equation)
    } else {
        None
    }
}

/// Reads the line `chars[from..to]` of `text`.
fn line_in(text: &str, chars: &Vec<char>, from: usize, to: usize) -> (line: Line)
    requires
        chars@ == text@,
        from <= to <= chars.len(),
    ensures
        line@ == read_line(chars@.subrange(from as int, to as int)),
{
    let ghost whole = chars@.subrange(from as int, to as int);
    let colon: usize = find(chars, from, to, ':');
    if colon == to {
        return Line::Malformed { text: text.substring_char(from, to).to_owned() };
    }
    let end: usize = find(chars, colon + 1, to, ':');
    proof {
        assert(whole.take(colon - from) =~= chars@.subrange(from as int, colon as int));
        assert(whole.skip(colon - from + 1) =~= chars@.subrange(colon + 1, to as int));
        assert(whole.skip(colon - from + 1).take(end - colon - 1) =~= chars@.subrange(
            colon + 1,
            end as int,
        ));
    }
    match key_in(chars, from, colon) {
        Some(key) => Line::Setting {
            key,
            value: text.substring_char(colon + 1, end).to_owned(),
        },
        None => Line::Unknown { key: text.substring_char(from, colon).to_owned() },
    }
}

/// Reads a configuration text line by line.
pub fn read_lines(text: &str) -> (lines: Vec<Line>)
    ensures
        lines@.len() == lines_of(text@).len(),
        forall|k: int| 0 <= k < lines@.len() ==> (#[trigger] lines@[k])@ == read_line(lines_of(text@)[k]),
{
    let chars = chars_of(text);
    let mut lines: Vec<Line> = Vec::new();
    let mut pos: usize = 0;
    let ghost mut done: Seq<Seq<char>> = Seq::empty();
    proof {
        assert(text@.skip(0) =~= text@);
    }
    while pos < chars.len()
        invariant
            chars@ == text@,
            pos <= chars.len(),
            lines_of(text@) == done + lines_of(text@.skip(pos as int)),
            lines@.len() == done.len(),
            forall|k: int| 0 <= k < lines@.len() ==> (#[trigger] lines@[k])@ == read_line(done[k]),
        decreases chars.len() - pos,
    {
        let ghost rest = text@.skip(pos as int);
        let feed: usize = find(&chars, pos, chars.len(), '\n');
        proof {
            assert(chars@.subrange(pos as int, chars@.len() as int) =~= rest);
        }
        let end: usize = if feed < chars.len() && feed > pos && chars[feed - 1] == '\r' {
            feed - 1
        } else {
            feed
        };
        let ghost raw = if feed == chars.len() {
            rest
        } else {
            without_cr(rest.take(feed - pos))
        };
        proof {
            if feed < chars.len() {
                assert(rest.take(feed - pos) =~= chars@.subrange(pos as int, feed as int));
                assert(rest.skip(feed - pos + 1) =~= text@.skip(feed + 1));
                if end < feed {
                    assert(chars@.subrange(pos as int, feed as int).drop_last()
                        =~= chars@.subrange(pos as int, end as int));
                }
                assert(done + (seq![raw] + lines_of(text@.skip(feed + 1))) =~= done.push(raw)
                    + lines_of(text@.skip(feed + 1)));
            } else {
                assert(text@.skip(chars@.len() as int) =~= Seq::<char>::empty());
                assert(done + seq![raw] =~= done.push(raw) + Seq::<Seq<char>>::empty());
            }
            assert(raw == chars@.subrange(pos as int, end as int));
        }
        let line = line_in(text, &chars, pos, end);
        lines.push(line);
        proof {
            done = done.push(raw);
        }
        pos = if feed < chars.len() {
            feed + 1
        } else {
            feed
        };
    }
    proof {
        assert(text@.skip(pos as int) =~= Seq::<char>::empty());
        assert(done + Seq::<Seq<char>>::empty() =~= done);
    }
    lines
}

} // verus!
