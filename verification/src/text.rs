//! Characters and lines: blank detection and line splitting.

use vstd::prelude::*;

verus! {

/// Whether `c` has the Unicode `White_Space` property.
pub open spec fn is_space(c: char) -> bool {
    let u = c as u32;
    ||| 0x09 <= u <= 0x0D
    ||| u == 0x20
    ||| u == 0x85
    ||| u == 0xA0
    ||| u == 0x1680
    ||| 0x2000 <= u <= 0x200A
    ||| u == 0x2028
    ||| u == 0x2029
    ||| u == 0x202F
    ||| u == 0x205F
    ||| u == 0x3000
}

/// A line is blank when it holds nothing but white space.
pub open spec fn is_blank(line: Seq<char>) -> bool {
    forall|i: int| 0 <= i < line.len() ==> is_space(#[trigger] line[i])
}

/// Tests one character for the `White_Space` property.
pub fn char_is_space(c: char) -> (b: bool)
    ensures
        b == is_space(c),
{
    let u: u32 = c as u32;
    (0x09 <= u && u <= 0x0D) || u == 0x20 || u == 0x85 || u == 0xA0 || u == 0x1680 || (0x2000 <= u
        && u <= 0x200A) || u == 0x2028 || u == 0x2029 || u == 0x202F || u == 0x205F || u == 0x3000
}

/// Tests a line for blankness.
pub fn line_is_blank(line: &str) -> (b: bool)
    ensures
        b == is_blank(line@),
{
    let mut blank = true;
    for c in it: line.chars()
        invariant
            it.seq() == line@,
            blank == is_blank(line@.take(it.index())),
    {
        proof {
            let seen = line@.take(it.index());
            let more = line@.take(it.index() + 1);
            assert(more[it.index()] == c);
            assert(forall|i: int| 0 <= i < seen.len() ==> seen[i] == more[i]);
            if is_blank(more) {
                assert forall|i: int| 0 <= i < seen.len() implies is_space(
                    #[trigger] seen[i],
                ) by {
                    assert(is_space(more[i]));
                }
            }
        }
        if !char_is_space(c) {
            blank = false;
        }
    }
    assert(line@.take(line@.len() as int) == line@);
    blank
}

/// The texts that a sequence of strings holds, in order.
pub open spec fn texts(v: Seq<String>) -> Seq<Seq<char>> {
    v.map_values(|s: String| s@)
}

/// Index of the first line feed in `s`, or `s.len()` where `s` holds none.
pub open spec fn line_end(s: Seq<char>) -> int
    decreases s.len(),
{
    if s.len() == 0 || s[0] == '\n' {
        0
    } else {
        1 + line_end(s.drop_first())
    }
}

/// A terminated line without the carriage return that stood before its
/// line feed.
pub open spec fn chomp(line: Seq<char>) -> Seq<char> {
    if line.len() > 0 && line.last() == '\r' {
        line.drop_last()
    } else {
        line
    }
}

/// The lines of `s`. A line ends at a line feed, or at a carriage return
/// directly followed by a line feed; neither belongs to the line. What
/// follows the last line feed is a line of its own unless it is empty, and
/// keeps a carriage return at its end.
pub open spec fn lines_of(s: Seq<char>) -> Seq<Seq<char>>
    decreases s.len(),
{
    let k = line_end(s);
    if s.len() == 0 {
        Seq::empty()
    } else if 0 <= k < s.len() {
        seq![chomp(s.take(k))] + lines_of(s.skip(k + 1))
    } else {
        seq![s]
    }
}

/// `line_end` is the one index that has no line feed before it and either
/// a line feed at it or the end of the text.
pub proof fn lemma_line_end(s: Seq<char>, k: int)
    requires
        0 <= k <= s.len(),
        forall|j: int| 0 <= j < k ==> s[j] != '\n',
        k < s.len() ==> s[k] == '\n',
    ensures
        line_end(s) == k,
    decreases s.len(),
{
    if k > 0 {
        let rest = s.drop_first();
        assert forall|j: int| 0 <= j < k - 1 implies rest[j] != '\n' by {
            assert(rest[j] == s[j + 1]);
        }
        lemma_line_end(rest, k - 1);
    }
}

/// `line_end` lies within the text, with no line feed before it and a line
/// feed at it unless it is the end of the text.
pub proof fn lemma_line_end_bounds(s: Seq<char>)
    ensures
        0 <= line_end(s) <= s.len(),
        forall|j: int| 0 <= j < line_end(s) ==> s[j] != '\n',
        line_end(s) < s.len() ==> s[line_end(s)] == '\n',
    decreases s.len(),
{
    if !(s.len() == 0 || s[0] == '\n') {
        let rest = s.drop_first();
        lemma_line_end_bounds(rest);
        assert forall|j: int| 0 <= j < line_end(s) implies s[j] != '\n' by {
            if j > 0 {
                assert(rest[j - 1] == s[j]);
            }
        }
        if line_end(s) < s.len() {
            assert(rest[line_end(rest)] == s[line_end(s)]);
        }
    }
}

/// A text is complete when it does not end in the middle of a line: it is
/// empty or ends with a line feed.
pub open spec fn complete(s: Seq<char>) -> bool {
    s.len() == 0 || s.last() == '\n'
}

/// After a complete text, the lines of what follows are the same as if it
/// stood alone: the lines of the whole are those of the first part and
/// then those of the second.
pub proof fn lemma_lines_of_concat(a: Seq<char>, b: Seq<char>)
    requires
        complete(a),
    ensures
        lines_of(a + b) == lines_of(a) + lines_of(b),
    decreases a.len(),
{
    if a.len() == 0 {
        assert(a + b == b);
        assert(lines_of(a) + lines_of(b) == lines_of(b));
    } else {
        lemma_line_end_bounds(a);
        let k = line_end(a);
        let whole = a + b;
        let rest = a.skip(k + 1);
        assert(k < a.len());
        assert forall|j: int| 0 <= j < k implies whole[j] != '\n' by {
            assert(whole[j] == a[j]);
        }
        assert(whole[k] == a[k]);
        lemma_line_end(whole, k);
        assert(whole.take(k) == a.take(k));
        assert(whole.skip(k + 1) == rest + b);
        if rest.len() > 0 {
            assert(rest.last() == a.last());
        }
        lemma_lines_of_concat(rest, b);
        assert(lines_of(whole) == seq![chomp(a.take(k))] + (lines_of(rest) + lines_of(b)));
        assert(lines_of(a) == seq![chomp(a.take(k))] + lines_of(rest));
    }
}

/// `String::push` of std: the string afterwards is the string before with
/// `c` added at its end.
pub assume_specification[ String::push ](s: &mut String, c: char)
    ensures
        final(s)@ == old(s)@.push(c),
;

/// Splits `text` into its lines.
pub fn split_lines(text: &str) -> (lines: Vec<String>)
    ensures
        texts(lines@) == lines_of(text@),
{
    let mut lines: Vec<String> = Vec::new();
    // The line under way, but for a carriage return at its end: that one is
    // held back until the next character shows whether it ends the line.
    let mut line = String::new();
    let mut held = false;
    // Whether anything was read since the last line feed.
    let mut open = false;
    let ghost mut start: int = 0;
    proof {
        assert(text@.skip(0) == text@);
        assert(texts(lines@) + lines_of(text@) == lines_of(text@));
    }
    for c in it: text.chars()
        invariant
            it.seq() == text@,
            0 <= start <= it.index(),
            forall|j: int| start <= j < it.index() ==> text@[j] != '\n',
            lines_of(text@) == texts(lines@) + lines_of(text@.skip(start)),
            text@.subrange(start, it.index()) == if held {
                line@.push('\r')
            } else {
                line@
            },
            open == (start < it.index()),
            !held && line@.len() > 0 ==> line@.last() != '\r',
    {
        let ghost i = it.index();
        let ghost tail = text@.skip(start);
        assert(text@[i] == c);
        assert(text@.subrange(start, i + 1) == text@.subrange(start, i).push(c));
        if c == '\n' {
            proof {
                assert forall|j: int| 0 <= j < i - start implies tail[j] != '\n' by {
                    assert(tail[j] == text@[start + j]);
                }
                lemma_line_end(tail, i - start);
                assert(tail.take(i - start) == text@.subrange(start, i));
                assert(tail.skip(i - start + 1) == text@.skip(i + 1));
                assert(line@.push('\r').drop_last() == line@);
                assert(chomp(text@.subrange(start, i)) == line@);
                assert(texts(lines@.push(line)) == texts(lines@).push(line@));
            }
            lines.push(line);
            line = String::new();
            held = false;
            open = false;
            proof {
                start = i + 1;
            }
        } else {
            if held {
                line.push('\r');
            }
            if c == '\r' {
                held = true;
            } else {
                held = false;
                line.push(c);
            }
            open = true;
        }
    }
    proof {
        let tail = text@.skip(start);
        assert(tail == text@.subrange(start, text@.len() as int));
        assert forall|j: int| 0 <= j < tail.len() implies tail[j] != '\n' by {
            assert(tail[j] == text@[start + j]);
        }
        lemma_line_end(tail, tail.len() as int);
    }
    if open {
        if held {
            line.push('\r');
        }
        proof {
            assert(texts(lines@.push(line)) == texts(lines@).push(line@));
        }
        lines.push(line);
    }
    lines
}

} // verus!
