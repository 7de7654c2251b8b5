//! The records of the two files, and the rule that turns one into the other.

use vstd::prelude::*;

verus! {

/// One decoded line of the source file.
#[derive(Debug, PartialEq, Eq)]
pub struct InputRecord {
    pub timestamp: String,
    pub kind: String,
    pub branch: String,
    pub account: u64,
}

/// What an [`InputRecord`] holds, as plain values.
pub struct InputRecordView {
    pub timestamp: Seq<char>,
    pub kind: Seq<char>,
    pub branch: Seq<char>,
    pub account: u64,
}

impl View for InputRecord {
    type V = InputRecordView;

    open spec fn view(&self) -> InputRecordView {
        InputRecordView {
            timestamp: self.timestamp@,
            kind: self.kind@,
            branch: self.branch@,
            account: self.account,
        }
    }
}

/// One line of the destination file, before it is encoded.
#[derive(Debug, PartialEq, Eq)]
pub struct OutputRecord {
    pub timestamp: String,
    pub branch_account: String,
}

/// What an [`OutputRecord`] holds, as plain values.
pub struct OutputRecordView {
    pub timestamp: Seq<char>,
    pub branch_account: Seq<char>,
}

impl View for OutputRecord {
    type V = OutputRecordView;

    open spec fn view(&self) -> OutputRecordView {
        OutputRecordView { timestamp: self.timestamp@, branch_account: self.branch_account@ }
    }
}

/// The kind of the records that reach the destination file.
pub open spec fn qualifying_kind() -> Seq<char> {
    seq!['m', 'o', 'd']
}

/// The decimal digit that stands for `d`.
pub open spec fn digit(d: nat) -> char
    recommends
        d < 10,
{
    if d == 0 {
        '0'
    } else if d == 1 {
        '1'
    } else if d == 2 {
        '2'
    } else if d == 3 {
        '3'
    } else if d == 4 {
        '4'
    } else if d == 5 {
        '5'
    } else if d == 6 {
        '6'
    } else if d == 7 {
        '7'
    } else if d == 8 {
        '8'
    } else {
        '9'
    }
}

/// The decimal representation of `n`: no sign, no leading zero but for
/// zero itself.
pub open spec fn decimal(n: nat) -> Seq<char>
    decreases n,
{
    if n < 10 {
        seq![digit(n)]
    } else {
        decimal(n / 10).push(digit(n % 10))
    }
}

/// Whether a record reaches the destination file.
pub open spec fn qualifies(record: InputRecordView) -> bool {
    record.kind == qualifying_kind()
}

/// The output record of a qualifying input record.
pub open spec fn projection(record: InputRecordView) -> OutputRecordView {
    OutputRecordView {
        timestamp: record.timestamp,
        branch_account: record.branch.push('-') + decimal(record.account as nat),
    }
}

fn digit_char(d: u64) -> (c: char)
    requires
        d < 10,
    ensures
        c == digit(d as nat),
{
    if d == 0 {
        '0'
    } else if d == 1 {
        '1'
    } else if d == 2 {
        '2'
    } else if d == 3 {
        '3'
    } else if d == 4 {
        '4'
    } else if d == 5 {
        '5'
    } else if d == 6 {
        '6'
    } else if d == 7 {
        '7'
    } else if d == 8 {
        '8'
    } else {
        '9'
    }
}

/// Appends the decimal representation of `n` to `out`.
pub fn push_decimal(out: &mut String, n: u64)
    ensures
        final(out)@ == old(out)@ + decimal(n as nat),
    decreases n,
{
    if n >= 10 {
        push_decimal(out, n / 10);
    }
    out.push(digit_char(n % 10));
}

impl InputRecord {
    /// Whether this record reaches the destination file: its kind is `mod`.
    pub fn qualifies(&self) -> (b: bool)
        ensures
            b == qualifies(self@),
    {
        // `seen` counts the characters read, up to four; `same` says that
        // there were at most three and that they are the first of `mod`.
        let mut seen: usize = 0;
        let mut same = true;
        assert(self.kind@.take(0) == qualifying_kind().take(0));
        for c in it: self.kind.as_str().chars()
            invariant
                it.seq() == self.kind@,
                seen == if it.index() < 4 { it.index() } else { 4 },
                same == (it.index() <= 3 && self.kind@.take(it.index()) == qualifying_kind().take(
                    it.index(),
                )),
        {
            let ghost i = it.index();
            proof {
                if i < 3 {
                    assert(self.kind@.take(i + 1) == self.kind@.take(i).push(c));
                    assert(qualifying_kind().take(i + 1) == qualifying_kind().take(i).push(
                        qualifying_kind()[i],
                    ));
                    if self.kind@.take(i + 1) == qualifying_kind().take(i + 1) {
                        assert(self.kind@.take(i + 1).drop_last() == self.kind@.take(i));
                        assert(qualifying_kind().take(i + 1).drop_last() == qualifying_kind().take(
                            i,
                        ));
                        assert(self.kind@.take(i + 1).last() == c);
                    }
                }
            }
            let expected = if seen == 0 {
                'm'
            } else if seen == 1 {
                'o'
            } else {
                'd'
            };
            same = same && seen < 3 && c == expected;
            if seen < 4 {
                seen = seen + 1;
            }
        }
        proof {
            assert(self.kind@.take(self.kind@.len() as int) == self.kind@);
            if self.kind@.len() == 3 {
                assert(qualifying_kind().take(3) == qualifying_kind());
            }
            if self.kind@.len() < 3 {
                assert(qualifying_kind().take(self.kind@.len() as int).len() == self.kind@.len());
            }
        }
        same && seen == 3
    }

    /// The output record of this record: the time stamp as it is, and the
    /// branch and the account joined by a hyphen.
    pub fn project(&self) -> (out: OutputRecord)
        ensures
            out@ == projection(self@),
    {
        let mut joined = self.branch.clone();
        joined.push('-');
        push_decimal(&mut joined, self.account);
        OutputRecord { timestamp: self.timestamp.clone(), branch_account: joined }
    }
}

} // verus!
