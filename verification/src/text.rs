//! Text cut into lines.

use vstd::prelude::*;

verus! {

/// `String::push` puts one character at the end of the string.
pub assume_specification[ String::push ](text: &mut String, c: char)
    ensures
        final(text)@ == old(text)@.push(c),
;

/// Where the first line of `text` ends: the place of its first line feed, or
/// the length of `text` if it has none.
pub open spec fn line_end(text: Seq<char>) -> nat
    decreases text.len(),
{
    if text.len() == 0 || text[0] == '\n' {
        0
    } else {
        1 + line_end(text.drop_first())
    }
}

/// `line` without the carriage return at its end, if it has one there.
pub open spec fn without_cr(line: Seq<char>) -> Seq<char> {
    if line.len() > 0 && line.last() == '\r' {
        line.drop_last()
    } else {
        line
    }
}

/// The lines of `text`. A line ends at a line feed, or at a carriage return
/// that a line feed follows; neither is part of the line. What stands behind
/// the last line feed is a line too, unless it is empty, and is kept whole.
pub open spec fn lines(text: Seq<char>) -> Seq<Seq<char>>
    decreases text.len(),
{
    let end = line_end(text);
    if text.len() == 0 {
        Seq::empty()
    } else if end >= text.len() {
        seq![text]
    } else {
        seq![without_cr(text.take(end as int))] + lines(text.skip(end as int + 1))
    }
}

/// The first line of `text` ends at `end` if no line feed stands before `end`
/// and one stands there, or the text ends there.
pub proof fn lemma_line_end(text: Seq<char>, end: int)
    requires
        0 <= end <= text.len(),
        forall|k: int| 0 <= k < end ==> text[k] != '\n',
        end < text.len() ==> text[end] == '\n',
    ensures
        line_end(text) == end,
    decreases text.len(),
{
    if end > 0 {
        let rest = text.drop_first();
        assert forall|k: int| 0 <= k < end - 1 implies rest[k] != '\n' by {
            assert(rest[k] == text[k + 1]);
        }
        lemma_line_end(rest, end - 1);
    }
}

/// The text of `held`: one carriage return, or nothing.
pub open spec fn held_back(held: bool) -> Seq<char> {
    if held {
        seq!['\r']
    } else {
        Seq::empty()
    }
}

/// Cuts `text` into its lines.
pub fn split_lines(text: &str) -> (cut: Vec<String>)
    ensures
        cut.deep_view() == lines(text@),
{
    let mut cut: Vec<String> = Vec::new();
    let mut line = String::new();
    // A carriage return is held back until the next character shows whether
    // it ends the line.
    let mut held = false;
    let ghost mut start: int = 0;
    proof {
        assert(text@.skip(0) == text@);
        assert(cut.deep_view() =~= Seq::<Seq<char>>::empty());
    }
    for c in it: text.chars()
        invariant
            it.seq() == text@,
            0 <= start <= it.index() <= text@.len(),
            forall|k: int| start <= k < it.index() ==> text@[k] != '\n',
            line@ + held_back(held) == text@.subrange(start, it.index() as int),
            !held ==> line@.len() == 0 || line@.last() != '\r',
            cut.deep_view() + lines(text@.skip(start)) == lines(text@),
    {
        let ghost here = it.index() as int;
        let ghost rest = text@.skip(start);
        if c == '\n' {
            proof {
                assert forall|k: int| 0 <= k < here - start implies rest[k] != '\n' by {
                    assert(rest[k] == text@[start + k]);
                }
                lemma_line_end(rest, here - start);
                assert(rest.take(here - start) == text@.subrange(start, here));
                assert(rest.skip(here - start + 1) == text@.skip(here + 1));
                if held {
                    assert(text@.subrange(start, here).last() == '\r');
                    assert(text@.subrange(start, here).drop_last() == line@);
                } else {
                    assert(text@.subrange(start, here) == line@);
                }
                assert(without_cr(rest.take(here - start)) == line@);
                assert(cut.deep_view().push(line@) + lines(text@.skip(here + 1)) == lines(text@));
            }
            let ghost before = cut.deep_view();
            cut.push(line);
            assert(cut.deep_view() == before.push(line@));
            line = String::new();
            held = false;
            proof {
                start = here + 1;
                assert(text@.subrange(start, here + 1) == Seq::<char>::empty());
            }
        } else {
            let ghost before = line@ + held_back(held);
            if held {
                line.push('\r');
            }
            assert(line@ == before);
            if c == '\r' {
                held = true;
            } else {
                held = false;
                line.push(c);
            }
            assert(line@ + held_back(held) == before.push(c));
            assert(text@.subrange(start, here + 1) == text@.subrange(start, here).push(c));
        }
    }
    let ghost rest = text@.skip(start);
    proof {
        assert forall|k: int| 0 <= k < rest.len() implies rest[k] != '\n' by {
            assert(rest[k] == text@[start + k]);
        }
        lemma_line_end(rest, rest.len() as int);
        assert(text@.subrange(start, text@.len() as int) == rest);
    }
    if held {
        line.push('\r');
    }
    assert(line@ == rest);
    if !line.as_str().is_empty() {
        let ghost before = cut.deep_view();
        cut.push(line);
        assert(cut.deep_view() == before.push(rest));
        assert(lines(rest) == seq![rest]);
    }
    assert(cut.deep_view() == lines(text@));
    cut
}

} // verus!
