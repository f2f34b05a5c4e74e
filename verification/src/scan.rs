//! One search in flight: its operator and its window of list positions.

use crate::message::ProtocolError;
use vstd::prelude::*;

verus! {

/// Which extreme of the list a search is looking for.
#[derive(Clone, Copy, Debug, PartialEq, Eq, Structural)]
pub enum OpType {
    /// The largest element.
    Max,
    /// The smallest element.
    Min,
}

impl OpType {
    /// The advance rule: whether an answer moves the left end of the window
    /// forward (`true`) or the right end back (`false`).
    ///
    /// Looking for the maximum, a `true` answer moves the left end; looking
    /// for the minimum, a `false` answer does.
    pub open spec fn moves_left(self, answer: bool) -> bool {
        match self {
            OpType::Max => answer,
            OpType::Min => !answer,
        }
    }

    /// The other operator.
    pub open spec fn mirror(self) -> OpType {
        match self {
            OpType::Max => OpType::Min,
            OpType::Min => OpType::Max,
        }
    }

    /// Computes the advance rule for one answer.
    pub fn advances_left(self, answer: bool) -> (r: bool)
        ensures
            r == self.moves_left(answer),
    {
        match self {
            OpType::Max => answer,
            OpType::Min => !answer,
        }
    }
}

/// The mathematical state of one search: an operator and a window.
pub struct Scan {
    pub op: OpType,
    pub left: nat,
    pub right: nat,
}

impl Scan {
    /// The window of a search over `length` elements that has heard no answer.
    pub open spec fn fresh(op: OpType, length: nat) -> Scan {
        Scan { op, left: 0, right: (length - 1) as nat }
    }

    /// The ends of the window have not crossed.
    pub open spec fn wf(self) -> bool {
        self.left <= self.right
    }

    /// More than one position is left, so another comparison is due.
    pub open spec fn scanning(self) -> bool {
        self.left < self.right
    }

    /// Exactly one position is left: the result.
    pub open spec fn done(self) -> bool {
        self.left == self.right
    }

    /// Number of positions still in the window, less one: the comparisons
    /// that remain.
    pub open spec fn remaining(self) -> int {
        self.right - self.left
    }

    /// The window after one answer.
    pub open spec fn advance(self, answer: bool) -> Scan {
        if self.op.moves_left(answer) {
            Scan { left: self.left + 1, ..self }
        } else {
            Scan { right: (self.right - 1) as nat, ..self }
        }
    }
}

impl Scan {
    /// The same window under the other operator.
    pub open spec fn mirrored(self) -> Scan {
        Scan { op: self.op.mirror(), ..self }
    }

    /// The window after a sequence of answers, first to last.
    pub open spec fn fold(self, answers: Seq<bool>) -> Scan
        decreases answers.len(),
    {
        if answers.len() == 0 {
            self
        } else {
            self.fold(answers.drop_last()).advance(answers.last())
        }
    }
}

/// The complementary answers: each verdict turned round.
pub open spec fn negated(answers: Seq<bool>) -> Seq<bool> {
    Seq::new(answers.len(), |i: int| !answers[i])
}

/// One answer takes exactly one position off a window that is scanning, and
/// leaves it inside the window it came from.
pub proof fn lemma_advance_shrinks(scan: Scan, answer: bool)
    requires
        scan.scanning(),
    ensures
        scan.advance(answer).op == scan.op,
        scan.advance(answer).remaining() == scan.remaining() - 1,
        scan.left <= scan.advance(answer).left,
        scan.advance(answer).left <= scan.advance(answer).right,
        scan.advance(answer).right <= scan.right,
{
}

/// The operators mirror each other: the rule for one is the rule for the
/// other with the two answers swapped.
pub proof fn lemma_advance_mirror(scan: Scan, answer: bool)
    ensures
        scan.mirrored().advance(!answer) == scan.advance(answer).mirrored(),
{
}

/// As long as the answers do not outnumber the comparisons that remain, each
/// of them takes one position off the window, which stays inside the window
/// it started as.
pub proof fn lemma_fold_shrinks(scan: Scan, answers: Seq<bool>)
    requires
        scan.wf(),
        answers.len() <= scan.remaining(),
    ensures
        scan.fold(answers).op == scan.op,
        scan.fold(answers).remaining() == scan.remaining() - answers.len(),
        scan.left <= scan.fold(answers).left,
        scan.fold(answers).left <= scan.fold(answers).right,
        scan.fold(answers).right <= scan.right,
    decreases answers.len(),
{
    if answers.len() > 0 {
        lemma_fold_shrinks(scan, answers.drop_last());
        lemma_advance_shrinks(scan.fold(answers.drop_last()), answers.last());
    }
}

/// A search over `n >= 2` elements converges: whatever the answers are, it
/// is still scanning after fewer than `n - 1` of them, and after exactly
/// `n - 1` its window is a single position of the list.
pub proof fn lemma_converges(op: OpType, n: nat, answers: Seq<bool>)
    requires
        n >= 2,
        answers.len() <= n - 1,
    ensures
        answers.len() < n - 1 ==> Scan::fresh(op, n).fold(answers).scanning(),
        answers.len() == n - 1 ==> Scan::fresh(op, n).fold(answers).done(),
        Scan::fresh(op, n).fold(answers).remaining() == n - 1 - answers.len(),
        Scan::fresh(op, n).fold(answers).left <= Scan::fresh(op, n).fold(answers).right <= n - 1,
{
    lemma_fold_shrinks(Scan::fresh(op, n), answers);
}

/// Two searches with opposite operators that hear complementary answers
/// pass through the same windows.
pub proof fn lemma_fold_mirror(scan: Scan, answers: Seq<bool>)
    ensures
        scan.mirrored().fold(negated(answers)) == scan.fold(answers).mirrored(),
    decreases answers.len(),
{
    if answers.len() > 0 {
        lemma_fold_mirror(scan, answers.drop_last());
        assert(negated(answers).drop_last() =~= negated(answers.drop_last()));
        lemma_advance_mirror(scan.fold(answers.drop_last()), answers.last());
    }
}

/// The state of a single compare operation.
#[derive(Clone, Copy, Debug)]
pub struct ComputeState {
    /// The type of the comparison operation, either Max or Min.
    op: OpType,
    /// The index of the left element as we traverse the list.
    left: usize,
    /// The index of the right element as we traverse the list.
    right: usize,
}

impl View for ComputeState {
    type V = Scan;

    closed spec fn view(&self) -> Scan {
        Scan { op: self.op, left: self.left as nat, right: self.right as nat }
    }
}

impl ComputeState {
    /// A search over a list of `length` elements that has heard no answer:
    /// the window spans the whole list. An empty list has no window.
    pub fn new(op: OpType, length: usize) -> (r: Option<ComputeState>)
        ensures
            length == 0 ==> r is None,
            length >= 1 ==> r is Some && r->0@ == Scan::fresh(op, length as nat) && r->0@.wf(),
    {
        if length == 0 {
            None
        } else {
            Some(ComputeState { op, left: 0, right: length - 1 })
        }
    }

    /// The operator, fixed when the search was started.
    pub fn op(&self) -> (r: OpType)
        ensures
            r == self@.op,
    {
        self.op
    }

    /// The left end of the window.
    pub fn left(&self) -> (r: usize)
        ensures
            r == self@.left,
    {
        self.left
    }

    /// The right end of the window.
    pub fn right(&self) -> (r: usize)
        ensures
            r == self@.right,
    {
        self.right
    }

    /// Whether another comparison is due.
    pub fn is_scanning(&self) -> (r: bool)
        ensures
            r == self@.scanning(),
    {
        self.left < self.right
    }

    /// Whether the window has shrunk to the one position that is the result.
    pub fn is_done(&self) -> (r: bool)
        ensures
            r == self@.done(),
    {
        self.left == self.right
    }

    /// Folds one answer into the window: the end that the advance rule names
    /// moves by one position towards the other.
    ///
    /// A window that is not scanning has no end left to move. It is kept as
    /// it is and the call reports an internal error instead of letting an
    /// index wrap.
    pub fn advance(&mut self, answer: bool) -> (r: Result<(), ProtocolError>)
        ensures
            old(self)@.scanning() ==> r is Ok && final(self)@ == old(self)@.advance(answer),
            !old(self)@.scanning() ==> r == Err::<(), ProtocolError>(ProtocolError::Internal)
                && final(self)@ == old(self)@,
            old(self)@.wf() ==> final(self)@.wf(),
    {
        if self.left >= self.right {
            return Err(ProtocolError::Internal);
        }
        if self.op.advances_left(answer) {
            self.left = self.left + 1;
        } else {
            self.right = self.right - 1;
        }
        Ok(())
    }
}

} // verus!
