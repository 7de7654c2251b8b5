//! One processing pass over a freshly read stretch of the source file:
//! which output lines it yields, and which lines it rejects.

use crate::codec::{decode, decoded, encode, encoded, Fault, ParseError};
use crate::record::{projection, qualifies};
use crate::text::{
    complete, is_blank, lemma_line_end, lemma_lines_of_concat, line_is_blank, lines_of,
    split_lines, texts,
};
use vstd::prelude::*;

verus! {

/// What becomes of one line of the source file.
#[derive(Debug, PartialEq, Eq)]
pub enum Fate {
    /// The line holds a qualifying record; this is its output line.
    Emit(String),
    /// The line is blank, or holds a record of another kind.
    Skip,
    /// The line is not a record.
    Reject(ParseError),
}

/// The output line of one line of the source file, where it has one: the
/// line is not blank, decodes, and its record qualifies.
pub open spec fn line_output(line: Seq<char>) -> Option<Seq<char>> {
    if is_blank(line) {
        None
    } else {
        match decoded(line) {
            Ok(record) => if qualifies(record) {
                Some(encoded(projection(record)))
            } else {
                None
            },
            Err(_) => None,
        }
    }
}

/// What keeps one line of the source file from being a record, where
/// something does: the line is not blank and does not decode.
pub open spec fn line_fault(line: Seq<char>) -> Option<Fault> {
    if is_blank(line) {
        None
    } else {
        match decoded(line) {
            Ok(_) => None,
            Err(fault) => Some(fault),
        }
    }
}

/// A rejected line with its fault, where the line is rejected.
pub open spec fn line_reject(line: Seq<char>) -> Option<(Seq<char>, Fault)> {
    match line_fault(line) {
        Some(fault) => Some((line, fault)),
        None => None,
    }
}

/// The output lines of a stretch of text: one for each of its lines that
/// holds a qualifying record, in the order of the lines.
pub open spec fn outputs(text: Seq<char>) -> Seq<Seq<char>> {
    lines_of(text).filter_map(|line: Seq<char>| line_output(line))
}

/// The rejected lines of a stretch of text with their faults, in the order
/// of the lines.
pub open spec fn rejects(text: Seq<char>) -> Seq<(Seq<char>, Fault)> {
    lines_of(text).filter_map(|line: Seq<char>| line_reject(line))
}

/// The line and the fault of each of a sequence of errors.
pub open spec fn faults(errors: Seq<ParseError>) -> Seq<(Seq<char>, Fault)> {
    errors.map_values(|error: ParseError| (error.line@, error.fault))
}

/// What one pass yields.
#[derive(Debug, PartialEq, Eq)]
pub struct Batch {
    /// The output lines, in order, without line endings.
    pub lines: Vec<String>,
    /// The lines that were rejected, in order.
    pub rejected: Vec<ParseError>,
}

/// Decides what becomes of one line of the source file.
pub fn transform_line(line: &str) -> (fate: Fate)
    ensures
        match fate {
            Fate::Emit(out) => line_output(line@) == Some(out@) && line_fault(line@) is None,
            Fate::Skip => line_output(line@) is None && line_fault(line@) is None,
            Fate::Reject(error) => {
                &&& line_output(line@) is None
                &&& line_fault(line@) == Some(error.fault)
                &&& error.line@ == line@
            },
        },
{
    if line_is_blank(line) {
        return Fate::Skip;
    }
    match decode(line) {
        Ok(record) => {
            if record.qualifies() {
                let out = record.project();
                Fate::Emit(encode(&out))
            } else {
                Fate::Skip
            }
        },
        Err(error) => Fate::Reject(error),
    }
}

/// Runs one pass over `text`: splits it into lines, and yields the output
/// line of each line that holds a qualifying record and the error of each
/// line that is not a record. A rejected line does not stop the pass.
pub fn process(text: &str) -> (batch: Batch)
    ensures
        texts(batch.lines@) == outputs(text@),
        faults(batch.rejected@) == rejects(text@),
{
    let source = split_lines(text);
    let mut lines: Vec<String> = Vec::new();
    let mut rejected: Vec<ParseError> = Vec::new();
    let ghost all = lines_of(text@);
    let ghost output = |line: Seq<char>| line_output(line);
    let ghost reject = |line: Seq<char>| line_reject(line);
    assert(all.take(0).filter_map(output) == texts(lines@));
    assert(all.take(0).filter_map(reject) == faults(rejected@));
    for i in 0..source.len()
        invariant
            texts(source@) == all,
            output == |line: Seq<char>| line_output(line),
            reject == |line: Seq<char>| line_reject(line),
            texts(lines@) == all.take(i as int).filter_map(output),
            faults(rejected@) == all.take(i as int).filter_map(reject),
    {
        proof {
            assert(all[i as int] == source@[i as int]@);
            all.lemma_filter_map_take_succ(output, i as int);
            all.lemma_filter_map_take_succ(reject, i as int);
        }
        match transform_line(source[i].as_str()) {
            Fate::Emit(out) => {
                assert(texts(lines@.push(out)) == texts(lines@).push(out@));
                lines.push(out);
            },
            Fate::Skip => {},
            Fate::Reject(error) => {
                assert(faults(rejected@.push(error)) == faults(rejected@).push(
                    (error.line@, error.fault),
                ));
                rejected.push(error);
            },
        }
    }
    assert(all.take(source@.len() as int) == all);
    Batch { lines, rejected }
}

proof fn lemma_filter_map_concat<A, B>(a: Seq<A>, b: Seq<A>, f: spec_fn(A) -> Option<B>)
    ensures
        (a + b).filter_map(f) == a.filter_map(f) + b.filter_map(f),
    decreases b.len(),
{
    if b.len() == 0 {
        assert(a + b == a);
    } else {
        assert((a + b).drop_last() == a + b.drop_last());
        assert((a + b).last() == b.last());
        lemma_filter_map_concat(a, b.drop_last(), f);
    }
}

proof fn lemma_filter_map_is_filter_then_map<A, B>(
    s: Seq<A>,
    f: spec_fn(A) -> Option<B>,
    keep: spec_fn(A) -> bool,
    get: spec_fn(A) -> B,
)
    requires
        forall|a: A| #[trigger] keep(a) == (f(a) is Some),
        forall|a: A| keep(a) ==> #[trigger] get(a) == f(a)->0,
    ensures
        s.filter_map(f) == s.filter(keep).map_values(get),
    decreases s.len(),
{
    reveal(Seq::filter);
    if s.len() > 0 {
        lemma_filter_map_is_filter_then_map(s.drop_last(), f, keep, get);
        let before = s.drop_last().filter(keep);
        if keep(s.last()) {
            assert(s.filter(keep) == before.push(s.last()));
            assert(before.push(s.last()).map_values(get) == before.map_values(get).push(
                get(s.last()),
            ));
        }
    }
}

/// The output lines of a text are the output lines of those of its lines
/// that have one: exactly one for each such line, in the order of the
/// lines.
pub proof fn lemma_one_output_per_qualifying_line(text: Seq<char>)
    ensures
        outputs(text) == lines_of(text).filter(|line: Seq<char>| line_output(line) is Some)
            .map_values(|line: Seq<char>| line_output(line)->0),
{
    lemma_filter_map_is_filter_then_map(
        lines_of(text),
        |line: Seq<char>| line_output(line),
        |line: Seq<char>| line_output(line) is Some,
        |line: Seq<char>| line_output(line)->0,
    );
}

/// Where the source file grows by a burst after a complete text, a pass
/// over the burst alone yields what a pass over the whole would have added:
/// the output lines and the rejected lines of the whole are those of the
/// text before the burst and then those of the burst.
pub proof fn lemma_burst_composes(done: Seq<char>, burst: Seq<char>)
    requires
        complete(done),
    ensures
        outputs(done + burst) == outputs(done) + outputs(burst),
        rejects(done + burst) == rejects(done) + rejects(burst),
{
    lemma_lines_of_concat(done, burst);
    lemma_filter_map_concat(lines_of(done), lines_of(burst), |line: Seq<char>| line_output(line));
    lemma_filter_map_concat(lines_of(done), lines_of(burst), |line: Seq<char>| line_reject(line));
}

/// A blank line, and a line whose record is of another kind than the
/// qualifying one, yield neither an output line nor an error.
pub proof fn lemma_silent_lines(line: Seq<char>)
    ensures
        is_blank(line) ==> line_output(line) is None && line_reject(line) is None,
        (decoded(line) matches Ok(record) && !qualifies(record)) ==> line_output(line) is None
            && line_reject(line) is None,
{
}

/// A line that is not blank and does not decode yields no output line and
/// one error, which holds the line as it was.
pub proof fn lemma_rejected_line(line: Seq<char>)
    requires
        !is_blank(line),
        decoded(line) is Err,
    ensures
        line_output(line) is None,
        line_reject(line) == Some((line, decoded(line)->Err_0)),
{
}

/// What one line yields does not depend on the lines around it, and what
/// they yield does not depend on it: a line that is rejected, skipped or
/// emitted between two stretches of text leaves the output lines and the
/// errors of both as they are.
pub proof fn lemma_line_in_context(before: Seq<char>, line: Seq<char>, after: Seq<char>)
    requires
        complete(before),
        !line.contains('\n'),
        line.len() > 0 ==> line.last() != '\r',
    ensures
        outputs(before + line.push('\n') + after) == outputs(before) + (match line_output(line) {
            Some(out) => seq![out],
            None => Seq::empty(),
        }) + outputs(after),
        rejects(before + line.push('\n') + after) == rejects(before) + (match line_reject(line) {
            Some(error) => seq![error],
            None => Seq::empty(),
        }) + rejects(after),
{
    let whole = line.push('\n');
    assert(lines_of(whole) == seq![line]) by {
        assert forall|j: int| 0 <= j < line.len() implies whole[j] != '\n' by {
            assert(line.contains(line[j]));
        }
        lemma_line_end(whole, line.len() as int);
        assert(whole.take(line.len() as int) == line);
        assert(whole.skip(line.len() as int + 1).len() == 0);
        assert(lines_of(whole.skip(line.len() as int + 1)).len() == 0);
    }
    assert(outputs(whole) == match line_output(line) {
        Some(out) => seq![out],
        None => Seq::<Seq<char>>::empty(),
    }) by {
        Seq::lemma_filter_map_singleton(line, |line: Seq<char>| line_output(line));
    }
    assert(rejects(whole) == match line_reject(line) {
        Some(error) => seq![error],
        None => Seq::<(Seq<char>, Fault)>::empty(),
    }) by {
        Seq::lemma_filter_map_singleton(line, |line: Seq<char>| line_reject(line));
    }
    assert(complete(before + whole)) by {
        assert((before + whole).last() == '\n');
    }
    lemma_burst_composes(before, whole);
    lemma_burst_composes(before + whole, after);
}

/// The output lines of one pass over each of a sequence of bursts, one
/// after the other.
pub open spec fn outputs_of_bursts(bursts: Seq<Seq<char>>) -> Seq<Seq<char>>
    decreases bursts.len(),
{
    if bursts.len() == 0 {
        Seq::empty()
    } else {
        outputs(bursts.first()) + outputs_of_bursts(bursts.drop_first())
    }
}

/// However a source file of complete lines is cut into bursts, the passes
/// over the bursts yield together the output lines of the whole file, each
/// once and in the order of the file. Only the last burst may end in the
/// middle of a line.
pub proof fn lemma_bursts_yield_outputs_of_whole(bursts: Seq<Seq<char>>)
    requires
        forall|i: int| 0 <= i < bursts.len() - 1 ==> complete(#[trigger] bursts[i]),
    ensures
        outputs_of_bursts(bursts) == outputs(bursts.flatten()),
    decreases bursts.len(),
{
    if bursts.len() > 0 {
        let rest = bursts.drop_first();
        assert forall|i: int| 0 <= i < rest.len() - 1 implies complete(#[trigger] rest[i]) by {
            assert(rest[i] == bursts[i + 1]);
        }
        lemma_bursts_yield_outputs_of_whole(rest);
        if bursts.len() == 1 {
            assert(rest.flatten() == Seq::<char>::empty());
            assert(bursts.flatten() == bursts.first());
            assert(outputs_of_bursts(rest) == Seq::<Seq<char>>::empty());
        } else {
            lemma_burst_composes(bursts.first(), rest.flatten());
        }
    }
}

/// A text whose lines are all blank or records has no rejected line.
pub proof fn lemma_well_formed_text_rejects_nothing(text: Seq<char>)
    requires
        forall|i: int|
            0 <= i < lines_of(text).len() ==> line_fault(#[trigger] lines_of(text)[i]) is None,
    ensures
        rejects(text).len() == 0,
{
    lemma_no_fault_no_reject(lines_of(text));
}

proof fn lemma_no_fault_no_reject(lines: Seq<Seq<char>>)
    requires
        forall|i: int| 0 <= i < lines.len() ==> line_fault(#[trigger] lines[i]) is None,
    ensures
        lines.filter_map(|line: Seq<char>| line_reject(line)).len() == 0,
    decreases lines.len(),
{
    if lines.len() > 0 {
        let before = lines.drop_last();
        assert forall|i: int| 0 <= i < before.len() implies line_fault(#[trigger] before[i])
            is None by {
            assert(before[i] == lines[i]);
        }
        lemma_no_fault_no_reject(before);
        assert(line_fault(lines[lines.len() - 1]) is None);
    }
}

} // verus!
