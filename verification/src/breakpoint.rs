//! The breakpoint command: set breakpoints, take them away, or show them.

use vstd::prelude::*;
use crate::state::State;

verus! {

#[derive(Debug, Clone, Copy, PartialEq, Eq, Structural)]
pub enum BreakpointMode {
    /// Add a new breakpoint
    Add,
    /// Remove an already-existing breakpoint
    Remove,
    /// Show a list of all breakpoints
    Show,
}

impl Default for BreakpointMode {
    fn default() -> (r: Self)
        ensures
            r == BreakpointMode::Show,
    {
        BreakpointMode::Show
    }
}

#[derive(Debug)]
pub struct BreakpointArgs {
    /// What to do at the provided index
    pub mode: BreakpointMode,
    /// The index of the breakpoint (required for add and remove modes)
    pub index: Option<Vec<usize>>,
}

#[derive(Debug, Clone, Copy, PartialEq, Eq, Structural)]
pub enum BreakpointError {
    /// There already exists a breakpoint at the index {0}
    AlreadyExists(usize),
    /// This index ({index}) is past/at the program's EOF (located at {len}). Not inserting breakpoint
    PastEOF { index: usize, len: usize },
    /// There isn't a breakpoint at the index {0}
    NotFound(usize),
}

/// What the breakpoint command answers.
#[derive(Debug, PartialEq, Eq)]
pub enum BreakpointReply {
    /// Indices were given in show mode: nothing was done.
    IndexNotAllowed,
    /// No index was given in add or remove mode: nothing was done.
    IndexRequired,
    /// The indices were taken one by one; each has its entry, in their order.
    Changed(Vec<Result<(), BreakpointError>>),
    /// The breakpoints, smallest first.
    Shown(Vec<usize>),
}

/// What becomes of the `at`-th index of an add command. An index that came
/// earlier in the same command has its breakpoint already.
pub open spec fn add_outcome(breakpoints: Seq<usize>, len: usize, indexes: Seq<usize>, at: int) -> Result<
    (),
    BreakpointError,
> {
    if indexes[at] >= len {
        Err(BreakpointError::PastEOF { index: indexes[at], len })
    } else if breakpoints.contains(indexes[at]) || indexes.take(at).contains(indexes[at]) {
        Err(BreakpointError::AlreadyExists(indexes[at]))
    } else {
        Ok(())
    }
}

/// What becomes of the `at`-th index of a remove command. An index that came
/// earlier in the same command has lost its breakpoint already.
pub open spec fn remove_outcome(breakpoints: Seq<usize>, indexes: Seq<usize>, at: int) -> Result<
    (),
    BreakpointError,
> {
    if breakpoints.contains(indexes[at]) && !indexes.take(at).contains(indexes[at]) {
        Ok(())
    } else {
        Err(BreakpointError::NotFound(indexes[at]))
    }
}

/// What a command answers and leaves behind, given the state `before` it.
pub open spec fn command_done(before: State, after: State, args: BreakpointArgs, reply: BreakpointReply) -> bool {
    let old_set = before.breakpoints@;
    let new_set = after.breakpoints@;
    let len = before.interpreter.code@.len() as usize;
    match args.index {
        None => match args.mode {
            BreakpointMode::Show => reply matches BreakpointReply::Shown(list) && list@ == old_set && new_set
                == old_set,
            _ => reply == BreakpointReply::IndexRequired && new_set == old_set,
        },
        Some(indexes) => match args.mode {
            BreakpointMode::Show => reply == BreakpointReply::IndexNotAllowed && new_set == old_set,
            BreakpointMode::Add => {
                &&& reply matches BreakpointReply::Changed(entries)
                &&& entries@.len() == indexes@.len()
                &&& forall|k: int|
                    0 <= k < entries@.len() ==> #[trigger] entries@[k] == add_outcome(old_set, len, indexes@, k)
                &&& forall|x: usize| #[trigger]
                    new_set.contains(x) <==> (old_set.contains(x) || (indexes@.contains(x) && x < len))
            },
            BreakpointMode::Remove => {
                &&& reply matches BreakpointReply::Changed(entries)
                &&& entries@.len() == indexes@.len()
                &&& forall|k: int|
                    0 <= k < entries@.len() ==> #[trigger] entries@[k] == remove_outcome(old_set, indexes@, k)
                &&& forall|x: usize| #[trigger]
                    new_set.contains(x) <==> (old_set.contains(x) && !indexes@.contains(x))
            },
        },
    }
}

/// One more element of a sequence is looked at.
pub proof fn lemma_take_next(s: Seq<usize>, k: int)
    requires
        0 <= k < s.len(),
    ensures
        forall|x: usize| #[trigger] s.take(k + 1).contains(x) <==> (s.take(k).contains(x) || s[k] == x),
{
    let longer = s.take(k + 1);
    let shorter = s.take(k);
    assert forall|x: usize| #[trigger] longer.contains(x) <==> (shorter.contains(x) || s[k] == x) by {
        if longer.contains(x) {
            let i = choose|i: int| 0 <= i < longer.len() && longer[i] == x;
            if i < k {
                assert(shorter[i] == x);
            }
        }
        if shorter.contains(x) {
            let i = choose|i: int| 0 <= i < shorter.len() && shorter[i] == x;
            assert(longer[i] == x);
        }
        if s[k] == x {
            assert(longer[k] == x);
        }
    }
}

/// Sets or removes a breakpoint at each index given, or shows the
/// breakpoints. An index that cannot be served gets its error and changes
/// nothing; the others are served all the same.
pub fn breakpoint(state: &mut State, args: BreakpointArgs) -> (reply: BreakpointReply)
    requires
        old(state).wf(),
    ensures
        final(state).wf(),
        final(state).interpreter == old(state).interpreter,
        command_done(*old(state), *final(state), args, reply),
{
    let indexes = match &args.index {
        Some(index) => match args.mode {
            BreakpointMode::Show => {
                return BreakpointReply::IndexNotAllowed;
            },
            _ => index,
        },
        None => match args.mode {
            BreakpointMode::Show => {
                let mut list: Vec<usize> = Vec::new();
                let mut k: usize = 0;
                while k < state.breakpoints.len()
                    invariant
                        k <= state.breakpoints@.len(),
                        list@ == state.breakpoints@.take(k as int),
                    decreases state.breakpoints@.len() - k,
                {
                    list.push(state.breakpoints[k]);
                    assert(state.breakpoints@.take(k + 1) =~= state.breakpoints@.take(k as int).push(
                        state.breakpoints@[k as int],
                    ));
                    k += 1;
                }
                assert(state.breakpoints@.take(k as int) =~= state.breakpoints@);
                return BreakpointReply::Shown(list);
            },
            _ => {
                return BreakpointReply::IndexRequired;
            },
        },
    };
    let ghost old_set = state.breakpoints@;
    let len: usize = state.interpreter.code.len();
    let mut entries: Vec<Result<(), BreakpointError>> = Vec::new();
    let mut k: usize = 0;
    match args.mode {
        BreakpointMode::Add => {
            while k < indexes.len()
                invariant
                    k <= indexes@.len(),
                    state.wf(),
                    state.interpreter == old(state).interpreter,
                    len == state.interpreter.code@.len(),
                    entries@.len() == k,
                    forall|j: int|
                        0 <= j < k ==> #[trigger] entries@[j] == add_outcome(old_set, len, indexes@, j),
                    forall|x: usize| #[trigger]
                        state.breakpoints@.contains(x) <==> (old_set.contains(x) || (indexes@.take(
                            k as int,
                        ).contains(x) && x < len)),
                decreases indexes@.len() - k,
            {
                let index: usize = indexes[k];
                let ghost current = state.breakpoints@;
                let ghost seen = indexes@.take(k as int);
                proof {
                    lemma_take_next(indexes@, k as int);
                    assert(current.contains(index) <==> (old_set.contains(index) || (seen.contains(index)
                        && index < len)));
                }
                let entry = state.add(index);
                proof {
                    assert(entry == add_outcome(old_set, len, indexes@, k as int));
                    let longer = indexes@.take(k + 1);
                    assert forall|x: usize| #[trigger]
                        state.breakpoints@.contains(x) <==> (old_set.contains(x) || (longer.contains(x) && x
                            < len)) by {
                        assert(longer.contains(x) <==> (seen.contains(x) || index == x));
                        assert(current.contains(x) <==> (old_set.contains(x) || (seen.contains(x) && x < len)));
                        if entry is Ok {
                            assert(state.breakpoints@.contains(x) <==> (x == index || current.contains(x)));
                        }
                    }
                }
                entries.push(entry);
                k += 1;
            }
        },
        _ => {
            while k < indexes.len()
                invariant
                    k <= indexes@.len(),
                    state.wf(),
                    state.interpreter == old(state).interpreter,
                    entries@.len() == k,
                    forall|j: int|
                        0 <= j < k ==> #[trigger] entries@[j] == remove_outcome(old_set, indexes@, j),
                    forall|x: usize| #[trigger]
                        state.breakpoints@.contains(x) <==> (old_set.contains(x) && !indexes@.take(
                            k as int,
                        ).contains(x)),
                decreases indexes@.len() - k,
            {
                let index: usize = indexes[k];
                let ghost current = state.breakpoints@;
                let ghost seen = indexes@.take(k as int);
                proof {
                    lemma_take_next(indexes@, k as int);
                    assert(current.contains(index) <==> (old_set.contains(index) && !seen.contains(index)));
                }
                let entry = state.remove(index);
                proof {
                    assert(entry == remove_outcome(old_set, indexes@, k as int));
                    let longer = indexes@.take(k + 1);
                    assert forall|x: usize| #[trigger]
                        state.breakpoints@.contains(x) <==> (old_set.contains(x) && !longer.contains(x)) by {
                        assert(longer.contains(x) <==> (seen.contains(x) || index == x));
                        assert(current.contains(x) <==> (old_set.contains(x) && !seen.contains(x)));
                        if entry is Ok {
                            assert(state.breakpoints@.contains(x) <==> (x != index && current.contains(x)));
                        }
                    }
                }
                entries.push(entry);
                k += 1;
            }
        },
    }
    assert(indexes@.take(k as int) =~= indexes@);
    BreakpointReply::Changed(entries)
}

} // verus!
