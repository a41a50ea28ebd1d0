//! The execution trace of a transaction, and what it tells about the calls
//! made in it.
//!
//! A trace is a flat list of steps. Each step says how deep in the call
//! stack it runs. Where the depth grows by one from a step to the next, the
//! step enters a call; where it shrinks by one, a call returns, and the top
//! of the stack of the next step says whether it succeeded.

use crate::call::CallKind;
use crate::error::Error;
use crate::opcode::OpcodeId;
use crate::primitives::{Address, Word};
use vstd::prelude::*;

verus! {

/// One step of a trace.
#[derive(Debug)]
pub struct TraceStep {
    /// Depth of the call in which the step runs.
    pub depth: u16,
    /// The opcode that the step executes.
    pub op: OpcodeId,
    /// The stack before the step, its top last.
    pub stack: Vec<Word>,
}

/// The trace of one transaction.
#[derive(Debug)]
pub struct ExecTrace {
    /// Whether the transaction failed.
    pub failed: bool,
    /// The steps, in the order in which they ran.
    pub steps: Vec<TraceStep>,
}

/// A transaction as it is handed in, before anything is derived from it.
#[derive(Debug)]
pub struct EthTransaction {
    /// Number of transactions the sender has sent before.
    pub nonce: Word,
    /// Gas that the transaction may use.
    pub gas: Word,
    /// Price of a unit of gas, where the transaction names one.
    pub gas_price: Option<Word>,
    /// The sender.
    pub from: Address,
    /// The receiver; none where the transaction creates a contract.
    pub to: Option<Address>,
    /// The value that is handed over.
    pub value: Word,
    /// The call data, or the code that sets up the new contract.
    pub input: Vec<u8>,
    /// Position of the transaction in its block, counted from 0.
    pub transaction_index: Option<u64>,
}

/// What two steps that follow each other show.
#[derive(Clone, Copy, Debug, PartialEq, Eq, Structural)]
pub enum Move {
    /// The depth grows by one: the first step enters a call.
    Enter,
    /// The depth shrinks by one: a call returns.
    Return,
    /// The depth stays as it is and the first step is a call or create
    /// opcode: the code that it called was empty, and the call returned at
    /// once. That the depth stayed for this reason and no other is taken
    /// for granted.
    EmptyCall,
    /// Nothing of this.
    Stay,
}

/// What the steps `cur` and `next` show, `next` being the one that follows
/// `cur`.
pub open spec fn move_between(cur: TraceStep, next: TraceStep) -> Move {
    if cur.depth + 1 == next.depth {
        Move::Enter
    } else if cur.depth - 1 == next.depth {
        Move::Return
    } else if cur.depth == next.depth && CallKind::of_opcode(cur.op) is Some {
        Move::EmptyCall
    } else {
        Move::Stay
    }
}

/// What the steps `j - 1` and `j` show.
pub open spec fn move_at(steps: Seq<TraceStep>, j: int) -> Move {
    move_between(steps[j - 1], steps[j])
}

/// Whether the top of the stack of `step` is not zero: the sign of success
/// after a call.
pub open spec fn top_is_nonzero(step: TraceStep) -> bool {
    step.stack@.last()@ != 0
}

/// The steps that have entered a call that has not returned, once the
/// steps up to `j` have been looked at: the latest last.
pub open spec fn pending_after(steps: Seq<TraceStep>, j: int) -> Seq<int>
    decreases j,
{
    if j <= 0 {
        Seq::empty()
    } else {
        let before = pending_after(steps, j - 1);
        match move_at(steps, j) {
            Move::Enter => before.push(j - 1),
            Move::Return => if before.len() > 0 {
                before.drop_last()
            } else {
                before
            },
            _ => before,
        }
    }
}

/// For each step, whether the call that it made succeeded, as far as the
/// steps up to `j` tell. A step that made no call, or one whose call has
/// not returned, has no entry.
pub open spec fn outcomes_after(steps: Seq<TraceStep>, j: int) -> Seq<Option<bool>>
    decreases j,
{
    if j <= 0 {
        Seq::new(steps.len(), |i: int| None)
    } else {
        let before = outcomes_after(steps, j - 1);
        let pending = pending_after(steps, j - 1);
        match move_at(steps, j) {
            Move::Return => if pending.len() > 0 {
                before.update(pending.last(), Some(top_is_nonzero(steps[j])))
            } else {
                before
            },
            Move::EmptyCall => before.update(j - 1, Some(top_is_nonzero(steps[j]))),
            _ => before,
        }
    }
}

/// Whether looking at the steps `j - 1` and `j` reads the top of an empty
/// stack: a call returns, and the stack that should hold its result is
/// empty.
pub open spec fn reads_empty_stack(steps: Seq<TraceStep>, j: int) -> bool {
    (move_at(steps, j) is Return || move_at(steps, j) is EmptyCall) && steps[j].stack@.len() == 0
}

/// Whether the steps `j - 1` and `j` show the return of a call that no
/// earlier step has entered.
pub open spec fn return_unmatched(steps: Seq<TraceStep>, j: int) -> bool {
    &&& move_at(steps, j) is Return
    &&& steps[j].stack@.len() > 0
    &&& pending_after(steps, j - 1).len() == 0
}

/// Whether an empty stack is read before the steps `j - 1` and `j` are
/// looked at.
pub open spec fn stops_before(steps: Seq<TraceStep>, j: int) -> bool {
    exists|i: int| 1 <= i < j && #[trigger] reads_empty_stack(steps, i)
}

/// A trace is well nested if every return in it belongs to a call that was
/// entered before. Returns that come after the read of an empty stack do
/// not count: nothing is looked at after such a read.
pub open spec fn well_nested(steps: Seq<TraceStep>) -> bool {
    forall|j: int|
        1 <= j < steps.len() && #[trigger] return_unmatched(steps, j) ==> stops_before(steps, j)
}

/// The entries that are present, in their order.
pub open spec fn present(outcomes: Seq<Option<bool>>) -> Seq<bool>
    decreases outcomes.len(),
{
    if outcomes.len() == 0 {
        Seq::empty()
    } else {
        match outcomes.last() {
            Some(b) => present(outcomes.drop_last()).push(b),
            None => present(outcomes.drop_last()),
        }
    }
}

/// Success of each call of the transaction. The first entry is that of the
/// transaction itself. The entries of the calls made in it follow, in the
/// order of the steps that made them.
pub open spec fn success_table(failed: bool, steps: Seq<TraceStep>) -> Seq<bool> {
    seq![!failed] + present(outcomes_after(steps, steps.len() - 1))
}

/// Every pending step has been looked at, and there is an entry for each
/// step of the trace.
pub proof fn lemma_scan_bounds(steps: Seq<TraceStep>, j: int)
    requires
        j < steps.len(),
    ensures
        outcomes_after(steps, j).len() == steps.len(),
        pending_after(steps, j).len() <= if j < 0 {
            0
        } else {
            j
        },
        forall|k: int|
            0 <= k < pending_after(steps, j).len() ==> 0 <= (#[trigger] pending_after(steps, j)[k])
                < j,
    decreases j,
{
    if j > 0 {
        lemma_scan_bounds(steps, j - 1);
    }
}

impl TraceStep {
    /// The top of the stack; `InvalidStackPointer` where the stack is empty.
    pub fn stack_top(&self) -> (r: Result<Word, Error>)
        ensures
            self.stack@.len() > 0 ==> r == Ok::<Word, Error>(self.stack@.last()),
            self.stack@.len() == 0 ==> r == Err::<Word, Error>(Error::InvalidStackPointer),
    {
        let n: usize = self.stack.len();
        if n == 0 {
            Err(Error::InvalidStackPointer)
        } else {
            Ok(self.stack[n - 1])
        }
    }

    /// What this step and the one that follows it show.
    pub fn move_to(&self, next: &TraceStep) -> (r: Move)
        ensures
            r == move_between(*self, *next),
    {
        if self.depth < u16::MAX && self.depth + 1 == next.depth {
            Move::Enter
        } else if self.depth > 0 && self.depth - 1 == next.depth {
            Move::Return
        } else if self.depth == next.depth && CallKind::try_from(self.op).is_ok() {
            Move::EmptyCall
        } else {
            Move::Stay
        }
    }
}

impl ExecTrace {
    /// Whether every return in the trace belongs to a call that was entered
    /// before, as far as the trace is looked at.
    pub fn is_well_nested(&self) -> (r: bool)
        ensures
            r == well_nested(self.steps@),
    {
        let n: usize = self.steps.len();
        let mut open: usize = 0;
        let mut j: usize = 1;
        while j < n
            invariant
                n == self.steps@.len(),
                1 <= j,
                j <= n || j == 1,
                open == pending_after(self.steps@, j - 1).len(),
                open <= j - 1,
                forall|i: int| 1 <= i < j ==> !reads_empty_stack(self.steps@, i),
                forall|i: int| 1 <= i < j ==> !return_unmatched(self.steps@, i),
            decreases n - j,
        {
            let m = self.steps[j - 1].move_to(&self.steps[j]);
            assert(m == move_at(self.steps@, j as int));
            match m {
                Move::Enter => {
                    open = open + 1;
                },
                Move::Return => {
                    if self.steps[j].stack.len() == 0 {
                        assert(reads_empty_stack(self.steps@, j as int));
                        return true;
                    }
                    if open == 0 {
                        assert(return_unmatched(self.steps@, j as int));
                        return false;
                    }
                    open = open - 1;
                },
                Move::EmptyCall => {
                    if self.steps[j].stack.len() == 0 {
                        assert(reads_empty_stack(self.steps@, j as int));
                        return true;
                    }
                },
                Move::Stay => {},
            }
            j = j + 1;
        }
        true
    }

    /// Success of each call of the transaction, worked out from the depths
    /// of the steps and the tops of their stacks.
    ///
    /// Fails with `InvalidStackPointer` where a call returns and the stack
    /// that should hold its result is empty, and only there.
    pub fn call_is_success(&self) -> (r: Result<Vec<bool>, Error>)
        requires
            well_nested(self.steps@),
        ensures
            match r {
                Ok(table) => {
                    &&& !stops_before(self.steps@, self.steps@.len() as int)
                    &&& table@ == success_table(self.failed, self.steps@)
                },
                Err(e) => {
                    &&& stops_before(self.steps@, self.steps@.len() as int)
                    &&& e == Error::InvalidStackPointer
                },
            },
    {
        let n: usize = self.steps.len();
        let mut outcomes: Vec<Option<bool>> = Vec::new();
        let mut i: usize = 0;
        while i < n
            invariant
                i <= n,
                outcomes@ =~= Seq::new(i as nat, |k: int| None::<bool>),
            decreases n - i,
        {
            outcomes.push(None);
            i = i + 1;
        }
        let mut pending: Vec<usize> = Vec::new();
        let mut j: usize = 1;
        while j < n
            invariant
                n == self.steps@.len(),
                1 <= j,
                j <= n || j == 1,
                well_nested(self.steps@),
                pending@.len() == pending_after(self.steps@, j - 1).len(),
                forall|k: int|
                    0 <= k < pending@.len() ==> (#[trigger] pending@[k]) == pending_after(
                        self.steps@,
                        j - 1,
                    )[k],
                outcomes@ == outcomes_after(self.steps@, j - 1),
                forall|i: int| 1 <= i < j ==> !reads_empty_stack(self.steps@, i),
            decreases n - j,
        {
            proof {
                lemma_scan_bounds(self.steps@, j - 1);
            }
            let m = self.steps[j - 1].move_to(&self.steps[j]);
            assert(m == move_at(self.steps@, j as int));
            match m {
                Move::Enter => {
                    pending.push(j - 1);
                },
                Move::Return => {
                    let top = match self.steps[j].stack_top() {
                        Ok(word) => word,
                        Err(e) => {
                            assert(reads_empty_stack(self.steps@, j as int));
                            return Err(e);
                        },
                    };
                    let is_success = !top.is_zero();
                    assert(pending@.len() > 0) by {
                        if pending@.len() == 0 {
                            assert(return_unmatched(self.steps@, j as int));
                        }
                    }
                    let call = pending.pop().unwrap();
                    outcomes.set(call, Some(is_success));
                },
                Move::EmptyCall => {
                    let top = match self.steps[j].stack_top() {
                        Ok(word) => word,
                        Err(e) => {
                            assert(reads_empty_stack(self.steps@, j as int));
                            return Err(e);
                        },
                    };
                    let is_success = !top.is_zero();
                    outcomes.set(j - 1, Some(is_success));
                },
                Move::Stay => {},
            }
            j = j + 1;
        }
        assert(outcomes@ == outcomes_after(self.steps@, n - 1)) by {
            if n == 0 {
                assert(outcomes_after(self.steps@, 0) =~= outcomes_after(self.steps@, -1));
            }
        }
        let mut table: Vec<bool> = Vec::new();
        table.push(!self.failed);
        let mut k: usize = 0;
        assert(outcomes@.take(0) =~= Seq::empty());
        assert(table@ =~= seq![!self.failed] + present(outcomes@.take(0)));
        while k < outcomes.len()
            invariant
                k <= outcomes@.len(),
                table@ == seq![!self.failed] + present(outcomes@.take(k as int)),
            decreases outcomes@.len() - k,
        {
            assert(outcomes@.take(k + 1).drop_last() =~= outcomes@.take(k as int));
            assert(outcomes@.take(k + 1).last() == outcomes@[k as int]);
            match outcomes[k] {
                Some(b) => {
                    table.push(b);
                    assert(table@ =~= seq![!self.failed] + present(outcomes@.take(k + 1)));
                },
                None => {},
            }
            k = k + 1;
        }
        assert(outcomes@.take(outcomes@.len() as int) =~= outcomes@);
        Ok(table)
    }
}

} // verus!
