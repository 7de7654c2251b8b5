//! Change notifications, and which of them start a processing pass.

use vstd::prelude::*;

verus! {

/// The kind of change that a notification reports.
#[derive(Clone, Copy, Debug, PartialEq, Eq, Structural)]
pub enum ChangeKind {
    /// Something was created.
    Create,
    /// The content of a file was modified.
    ModifyData,
    /// Anything else: a change of metadata, a removal, an access.
    Other,
}

/// One change notification.
#[derive(Debug, PartialEq, Eq)]
pub struct ChangeEvent {
    pub kind: ChangeKind,
    /// The paths that the change affected.
    pub paths: Vec<String>,
}

/// What a [`ChangeEvent`] holds, as plain values.
pub struct ChangeEventView {
    pub kind: ChangeKind,
    pub paths: Seq<Seq<char>>,
}

impl View for ChangeEvent {
    type V = ChangeEventView;

    open spec fn view(&self) -> ChangeEventView {
        ChangeEventView { kind: self.kind, paths: self.paths@.map_values(|path: String| path@) }
    }
}

/// Whether a notification starts a pass over the file at `watched`: it
/// reports a creation or a change of content, and `watched` is among its
/// paths.
pub open spec fn concerns(event: ChangeEventView, watched: Seq<char>) -> bool {
    (event.kind == ChangeKind::Create || event.kind == ChangeKind::ModifyData)
        && event.paths.contains(watched)
}

impl ChangeEvent {
    /// Whether this notification starts a pass over the file at `watched`.
    pub fn concerns(&self, watched: &String) -> (b: bool)
        ensures
            b == concerns(self@, watched@),
    {
        match self.kind {
            ChangeKind::Other => false,
            _ => {
                let mut found = false;
                for i in 0..self.paths.len()
                    invariant
                        found == self@.paths.take(i as int).contains(watched@),
                {
                    proof {
                        let seen = self@.paths.take(i as int);
                        let more = self@.paths.take(i + 1);
                        assert(more == seen.push(self.paths@[i as int]@));
                        if seen.contains(watched@) {
                            let j = choose|j: int| 0 <= j < seen.len() && seen[j] == watched@;
                            assert(more[j] == watched@);
                        }
                        if self.paths@[i as int]@ == watched@ {
                            assert(more[i as int] == watched@);
                        }
                    }
                    if self.paths[i] == *watched {
                        found = true;
                    }
                }
                assert(self@.paths.take(self.paths@.len() as int) == self@.paths);
                found
            },
        }
    }
}

} // verus!
