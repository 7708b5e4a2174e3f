//! A debugging session: the machine and the breakpoints set on its program.

use vstd::prelude::*;
use crate::breakpoint::BreakpointError;
use crate::interpreter::Interpreter;

verus! {

/// Each element is smaller than the ones that follow it.
pub open spec fn strictly_increasing(s: Seq<usize>) -> bool {
    forall|i: int, j: int| 0 <= i < j < s.len() ==> s[i] < s[j]
}

/// Looks a breakpoint up. `Ok` holds the place where it stands; `Err` holds the
/// place where it would have to stand.
pub fn find(breakpoints: &Vec<usize>, index: usize) -> (r: Result<usize, usize>)
    requires
        strictly_increasing(breakpoints@),
    ensures
        r is Ok <==> breakpoints@.contains(index),
        match r {
            Ok(at) => at < breakpoints@.len() && breakpoints@[at as int] == index,
            Err(at) => {
                &&& at <= breakpoints@.len()
                &&& forall|j: int| 0 <= j < at ==> breakpoints@[j] < index
                &&& forall|j: int| at <= j < breakpoints@.len() ==> breakpoints@[j] > index
            },
        },
{
    let mut low: usize = 0;
    let mut high: usize = breakpoints.len();
    while low < high
        invariant
            low <= high <= breakpoints@.len(),
            strictly_increasing(breakpoints@),
            forall|j: int| 0 <= j < low ==> breakpoints@[j] < index,
            forall|j: int| high <= j < breakpoints@.len() ==> breakpoints@[j] > index,
        decreases high - low,
    {
        let mid: usize = low + (high - low) / 2;
        let value: usize = breakpoints[mid];
        if value == index {
            return Ok(mid);
        }
        if value < index {
            low = mid + 1;
        } else {
            high = mid;
        }
    }
    Err(low)
}

/// The machine under the debugger, with its breakpoints.
pub struct State {
    pub interpreter: Interpreter,
    pub breakpoints: Vec<usize>,
}

impl State {
    /// The machine is sound, and the breakpoints are sorted, without
    /// duplicates, and inside the program.
    pub open spec fn wf(&self) -> bool {
        &&& self.interpreter.wf()
        &&& strictly_increasing(self.breakpoints@)
        &&& forall|i: int|
            0 <= i < self.breakpoints@.len() ==> self.breakpoints@[i] < self.interpreter.code@.len()
    }

    /// A session for the machine, without breakpoints.
    pub fn new(interpreter: Interpreter) -> (r: Self)
        ensures
            r.interpreter == interpreter,
            r.breakpoints@ == Seq::<usize>::empty(),
            interpreter.wf() ==> r.wf(),
    {
        State { interpreter, breakpoints: Vec::new() }
    }

    /// What an attempt to set a breakpoint at `index` comes to.
    pub open spec fn add_result(&self, index: usize) -> Result<(), BreakpointError> {
        if index >= self.interpreter.code@.len() {
            Err(BreakpointError::PastEOF { index, len: self.interpreter.code@.len() as usize })
        } else if self.breakpoints@.contains(index) {
            Err(BreakpointError::AlreadyExists(index))
        } else {
            Ok(())
        }
    }

    /// What an attempt to take the breakpoint at `index` away comes to.
    pub open spec fn remove_result(&self, index: usize) -> Result<(), BreakpointError> {
        if self.breakpoints@.contains(index) {
            Ok(())
        } else {
            Err(BreakpointError::NotFound(index))
        }
    }

    /// Sets a breakpoint. An index at or past the end of the program and one
    /// that has a breakpoint already are turned away, and nothing changes.
    pub fn add(&mut self, index: usize) -> (r: Result<(), BreakpointError>)
        requires
            old(self).wf(),
        ensures
            final(self).wf(),
            final(self).interpreter == old(self).interpreter,
            r == old(self).add_result(index),
            r is Err ==> final(self).breakpoints@ == old(self).breakpoints@,
            r is Ok ==> final(self).breakpoints@.len() == old(self).breakpoints@.len() + 1,
            r is Ok ==> forall|x: usize| #[trigger]
                final(self).breakpoints@.contains(x) <==> (x == index || old(self).breakpoints@.contains(x)),
    {
        // don't insert anything past EOF
        if index >= self.interpreter.code.len() {
            return Err(BreakpointError::PastEOF { index, len: self.interpreter.code.len() });
        }
        match find(&self.breakpoints, index) {
            Err(insert_index) => {
                let ghost before = self.breakpoints@;
                self.breakpoints.insert(insert_index, index);
                proof {
                    let after = self.breakpoints@;
                    assert(after.len() == before.len() + 1);
                    assert(after[insert_index as int] == index);
                    assert forall|i: int| 0 <= i < after.len() implies #[trigger] after[i] == (if i
                        < insert_index {
                        before[i]
                    } else if i == insert_index {
                        index
                    } else {
                        before[i - 1]
                    }) by {}
                    assert forall|x: usize| #[trigger] after.contains(x) <==> (x == index || before.contains(x)) by {
                        if after.contains(x) {
                            let i = choose|i: int| 0 <= i < after.len() && after[i] == x;
                            if i < insert_index {
                                assert(before[i] == x);
                            } else if i > insert_index {
                                assert(before[i - 1] == x);
                            }
                        }
                        if before.contains(x) {
                            let i = choose|i: int| 0 <= i < before.len() && before[i] == x;
                            if i < insert_index {
                                assert(after[i] == x);
                            } else {
                                assert(after[i + 1] == x);
                            }
                        }
                    }
                }
                Ok(())
            },
            Ok(_) => Err(BreakpointError::AlreadyExists(index)),
        }
    }

    /// Takes a breakpoint away. An index without a breakpoint is turned away,
    /// and nothing changes.
    pub fn remove(&mut self, index: usize) -> (r: Result<(), BreakpointError>)
        requires
            old(self).wf(),
        ensures
            final(self).wf(),
            final(self).interpreter == old(self).interpreter,
            r == old(self).remove_result(index),
            r is Err ==> final(self).breakpoints@ == old(self).breakpoints@,
            r is Ok ==> final(self).breakpoints@.len() == old(self).breakpoints@.len() - 1,
            r is Ok ==> forall|x: usize| #[trigger]
                final(self).breakpoints@.contains(x) <==> (x != index && old(self).breakpoints@.contains(x)),
    {
        match find(&self.breakpoints, index) {
            Ok(found_index) => {
                let ghost before = self.breakpoints@;
                self.breakpoints.remove(found_index);
                proof {
                    let after = self.breakpoints@;
                    assert(after.len() == before.len() - 1);
                    assert forall|i: int| 0 <= i < after.len() implies #[trigger] after[i] == (if i
                        < found_index {
                        before[i]
                    } else {
                        before[i + 1]
                    }) by {}
                    assert forall|x: usize| #[trigger] after.contains(x) <==> (x != index && before.contains(x)) by {
                        if after.contains(x) {
                            let i = choose|i: int| 0 <= i < after.len() && after[i] == x;
                            if i < found_index {
                                assert(before[i] == x);
                            } else {
                                assert(before[i + 1] == x);
                            }
                        }
                        if x != index && before.contains(x) {
                            let i = choose|i: int| 0 <= i < before.len() && before[i] == x;
                            if i < found_index {
                                assert(after[i] == x);
                            } else {
                                assert(after[i - 1] == x);
                            }
                        }
                    }
                }
                Ok(())
            },
            Err(_) => Err(BreakpointError::NotFound(index)),
        }
    }

    /// The breakpoints, smallest first.
    pub fn list(&self) -> (r: &Vec<usize>)
        ensures
            r@ == self.breakpoints@,
    {
        &self.breakpoints
    }

    /// The breakpoint at which a run from here is to stop: the smallest one
    /// that lies behind the instruction pointer.
    pub open spec fn target(&self) -> Option<usize> {
        next_after(self.breakpoints@, self.interpreter.instruction_pointer)
    }

    /// The smallest breakpoint behind the instruction pointer, if there is
    /// one. A breakpoint that the instruction pointer stands on does not
    /// count: the machine has stopped there already.
    pub fn next_breakpoint(&self) -> (r: Option<usize>)
        requires
            strictly_increasing(self.breakpoints@),
        ensures
            r == self.target(),
            is_next_after(self.breakpoints@, self.interpreter.instruction_pointer, r),
    {
        let len: usize = self.breakpoints.len();
        // find where the next breakpoint is located inside the breakpoints
        let at: usize = match find(&self.breakpoints, self.interpreter.instruction_pointer) {
            // get the next breakpoint, we already stopped here
            Ok(ok_index) => ok_index + 1,
            Err(err_index) => err_index,
        };
        let r = if at < len {
            Some(self.breakpoints[at])
        } else {
            None
        };
        proof {
            lemma_next_after(self.breakpoints@, self.interpreter.instruction_pointer, r);
        }
        r
    }
}

/// `next` is the smallest element of `breakpoints` above `from`, or nothing
/// where no element is above it.
pub open spec fn is_next_after(breakpoints: Seq<usize>, from: usize, next: Option<usize>) -> bool {
    match next {
        Some(t) => {
            &&& breakpoints.contains(t)
            &&& t > from
            &&& forall|x: usize| breakpoints.contains(x) && x > from ==> t <= x
        },
        None => forall|x: usize| breakpoints.contains(x) ==> x <= from,
    }
}

/// The smallest element of `breakpoints` above `from`.
pub open spec fn next_after(breakpoints: Seq<usize>, from: usize) -> Option<usize> {
    if exists|x: usize| breakpoints.contains(x) && x > from {
        Some(choose|t: usize| is_next_after(breakpoints, from, Some(t)))
    } else {
        None
    }
}

/// There is one answer only to the question which breakpoint comes next.
pub proof fn lemma_next_after(breakpoints: Seq<usize>, from: usize, next: Option<usize>)
    requires
        is_next_after(breakpoints, from, next),
    ensures
        next == next_after(breakpoints, from),
{
    match next {
        Some(t) => {
            let other = choose|t: usize| is_next_after(breakpoints, from, Some(t));
            assert(is_next_after(breakpoints, from, Some(other)));
            assert(t <= other && other <= t);
        },
        None => {},
    }
}

} // verus!
