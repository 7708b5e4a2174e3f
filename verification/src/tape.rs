//! The machine's memory: a fixed row of byte cells and a pointer that wraps
//! around both ends.

use vstd::prelude::*;
use vstd::arithmetic::div_mod::{
    lemma_add_mod_noop, lemma_mod_bound, lemma_mod_multiples_vanish, lemma_mod_self_0, lemma_mod_twice,
    lemma_small_mod, lemma_sub_mod_noop,
};
use num_modular::{Reducer, Vanilla};
use crate::interpreter::InterpreterError;

verus! {

/// `num_modular::Vanilla`, the plain reducer, carried as it is: nothing
/// inside it is seen, and all that is known of one is what the functions
/// below state.
#[verifier::external_type_specification]
#[verifier::external_body]
#[verifier::reject_recursive_types(T)]
pub struct ExVanilla<T>(Vanilla<T>);

/// The modulus that a reducer was made with.
pub uninterp spec fn modulus_of(reducer: Vanilla<usize>) -> usize;

/// `Reducer::new` of `Vanilla<usize>`: the reducer keeps the modulus it is
/// given. A modulus of zero is left out: the call would panic.
#[verifier::external_body]
fn reducer_new(modulus: usize) -> (reducer: Vanilla<usize>)
    requires
        modulus > 0,
    ensures
        modulus_of(reducer) == modulus,
{
    Vanilla::<usize>::new(&modulus)
}

/// `Reducer::modulus` of `Vanilla<usize>`: the modulus the reducer was made with.
#[verifier::external_body]
fn reducer_modulus(reducer: &Vanilla<usize>) -> (modulus: usize)
    ensures
        modulus == modulus_of(*reducer),
{
    reducer.modulus()
}

/// `Reducer::add_in_place` of `Vanilla<usize>`: for a target below the modulus
/// and an addend not above it, the target becomes the sum reduced by the modulus.
#[verifier::external_body]
fn reducer_add_in_place(reducer: &Vanilla<usize>, target: &mut usize, rhs: usize)
    requires
        *old(target) < modulus_of(*reducer),
        rhs <= modulus_of(*reducer),
    ensures
        *final(target) == (*old(target) + rhs) % (modulus_of(*reducer) as int),
{
    reducer.add_in_place(target, &rhs)
}

/// `Reducer::sub_in_place` of `Vanilla<usize>`: for a target below the modulus
/// and a subtrahend not above it, the target becomes the difference reduced by
/// the modulus.
#[verifier::external_body]
fn reducer_sub_in_place(reducer: &Vanilla<usize>, target: &mut usize, rhs: usize)
    requires
        *old(target) < modulus_of(*reducer),
        rhs <= modulus_of(*reducer),
    ensures
        *final(target) == (*old(target) - rhs) % (modulus_of(*reducer) as int),
{
    reducer.sub_in_place(target, &rhs)
}

/// Where the pointer stands after one move forward: on the next cell, and
/// behind the last cell on the first.
pub open spec fn advanced(pointer: int, capacity: int) -> int {
    if pointer + 1 == capacity {
        0
    } else {
        pointer + 1
    }
}

/// Where the pointer stands after one move backward: on the cell before, and
/// before the first cell on the last.
pub open spec fn retreated(pointer: int, capacity: int) -> int {
    if pointer == 0 {
        capacity - 1
    } else {
        pointer - 1
    }
}

/// Where the pointer stands after `times` moves forward.
pub open spec fn advanced_by(pointer: int, capacity: int, times: nat) -> int
    decreases times,
{
    if times == 0 {
        pointer
    } else {
        advanced(advanced_by(pointer, capacity, (times - 1) as nat), capacity)
    }
}

/// Where the pointer stands after `times` moves backward.
pub open spec fn retreated_by(pointer: int, capacity: int, times: nat) -> int
    decreases times,
{
    if times == 0 {
        pointer
    } else {
        retreated(retreated_by(pointer, capacity, (times - 1) as nat), capacity)
    }
}

/// A cell's value after one increment.
pub open spec fn incremented(byte: u8) -> u8 {
    if byte == 255 {
        0
    } else {
        (byte + 1) as u8
    }
}

/// A cell's value after one decrement.
pub open spec fn decremented(byte: u8) -> u8 {
    if byte == 0 {
        255
    } else {
        (byte - 1) as u8
    }
}

/// A row of `capacity` cells that all hold zero.
pub open spec fn zeroed(capacity: nat) -> Seq<u8> {
    Seq::new(capacity, |i: int| 0u8)
}

/// A move of the pointer is an addition or a subtraction of one, reduced by
/// the number of cells.
pub proof fn lemma_moves_are_modular(pointer: int, capacity: int)
    requires
        0 <= pointer < capacity,
    ensures
        advanced(pointer, capacity) == (pointer + 1) % capacity,
        retreated(pointer, capacity) == (pointer - 1) % capacity,
        0 <= advanced(pointer, capacity) < capacity,
        0 <= retreated(pointer, capacity) < capacity,
{
    if pointer + 1 == capacity {
        lemma_mod_self_0(capacity);
    } else {
        lemma_small_mod((pointer + 1) as nat, capacity as nat);
    }
    if pointer == 0 {
        lemma_mod_multiples_vanish(-1, capacity - 1, capacity);
        lemma_small_mod((capacity - 1) as nat, capacity as nat);
    } else {
        lemma_small_mod((pointer - 1) as nat, capacity as nat);
    }
}

/// Moves forward add up: after `times` of them the pointer stands `times`
/// cells further, counted around the tape.
pub proof fn lemma_advanced_by(pointer: int, capacity: int, times: nat)
    requires
        0 <= pointer < capacity,
    ensures
        advanced_by(pointer, capacity, times) == (pointer + times) % capacity,
    decreases times,
{
    if times == 0 {
        lemma_small_mod(pointer as nat, capacity as nat);
    } else {
        lemma_advanced_by(pointer, capacity, (times - 1) as nat);
        let before = (pointer + times - 1) % capacity;
        lemma_mod_bound(pointer + times - 1, capacity);
        lemma_moves_are_modular(before, capacity);
        lemma_add_mod_noop(pointer + times - 1, 1, capacity);
        lemma_add_mod_noop(before, 1, capacity);
        lemma_mod_twice(pointer + times - 1, capacity);
    }
}

/// Moves backward add up in the same way.
pub proof fn lemma_retreated_by(pointer: int, capacity: int, times: nat)
    requires
        0 <= pointer < capacity,
    ensures
        retreated_by(pointer, capacity, times) == (pointer - times) % capacity,
    decreases times,
{
    if times == 0 {
        lemma_small_mod(pointer as nat, capacity as nat);
    } else {
        lemma_retreated_by(pointer, capacity, (times - 1) as nat);
        let before = (pointer - times + 1) % capacity;
        lemma_mod_bound(pointer - times + 1, capacity);
        lemma_moves_are_modular(before, capacity);
        lemma_sub_mod_noop(pointer - times + 1, 1, capacity);
        lemma_sub_mod_noop(before, 1, capacity);
        lemma_mod_twice(pointer - times + 1, capacity);
    }
}

/// The pointer goes once around the tape: after as many moves forward as the
/// tape has cells it stands where it started, and after as many moves backward
/// too.
pub proof fn lemma_pointer_goes_around(pointer: int, capacity: int)
    requires
        0 <= pointer < capacity,
    ensures
        advanced_by(pointer, capacity, capacity as nat) == pointer,
        retreated_by(pointer, capacity, capacity as nat) == pointer,
{
    lemma_advanced_by(pointer, capacity, capacity as nat);
    lemma_retreated_by(pointer, capacity, capacity as nat);
    lemma_mod_multiples_vanish(1, pointer, capacity);
    lemma_mod_multiples_vanish(-1, pointer, capacity);
    lemma_small_mod(pointer as nat, capacity as nat);
}

/// One move forward and one move backward undo each other.
pub proof fn lemma_advance_retreat(pointer: int, capacity: int)
    requires
        0 <= pointer < capacity,
    ensures
        retreated(advanced(pointer, capacity), capacity) == pointer,
        advanced(retreated(pointer, capacity), capacity) == pointer,
{
}

/// Incrementing and decrementing a cell wrap at 256 and undo each other.
pub proof fn lemma_cell_wraps(byte: u8)
    ensures
        incremented(byte) == (byte + 1) % 256,
        decremented(byte) == (byte - 1) % 256,
        incremented(255) == 0,
        decremented(0) == 255,
        decremented(incremented(byte)) == byte,
        incremented(decremented(byte)) == byte,
{
}

/// The memory of the machine.
pub struct Tape {
    pub cells: Vec<u8>,
    pub pointer: usize,
    pub modulo: Vanilla<usize>,
}

impl Tape {
    /// The tape has a cell, the pointer stands on one, and the pointer's
    /// arithmetic wraps at the number of cells.
    pub open spec fn wf(&self) -> bool {
        &&& self.cells@.len() > 0
        &&& self.pointer < self.cells@.len()
        &&& modulus_of(self.modulo) == self.cells@.len()
    }

    /// A tape of `capacity` zeroed cells with the pointer on the first. A tape
    /// without cells is refused.
    pub fn new(capacity: usize) -> (r: Result<Tape, InterpreterError>)
        ensures
            capacity == 0 <==> r is Err,
            r matches Err(e) ==> e == InterpreterError::InvalidCapacity,
            r matches Ok(tape) ==> tape.wf() && tape.cells@ == zeroed(capacity as nat) && tape.pointer == 0,
    {
        if capacity == 0 {
            return Err(InterpreterError::InvalidCapacity);
        }
        let cells: Vec<u8> = vec![0u8; capacity];
        assert(cells@ =~= zeroed(capacity as nat));
        Ok(Tape { cells, pointer: 0, modulo: reducer_new(capacity) })
    }

    /// The number of cells.
    pub fn capacity(&self) -> (r: usize)
        requires
            self.wf(),
        ensures
            r == self.cells@.len(),
    {
        reducer_modulus(&self.modulo)
    }

    /// Moves the pointer one cell forward, from the last cell to the first.
    pub fn advance(&mut self)
        requires
            old(self).wf(),
        ensures
            final(self).wf(),
            final(self).cells@ == old(self).cells@,
            final(self).modulo == old(self).modulo,
            final(self).pointer == advanced(old(self).pointer as int, old(self).cells@.len() as int),
    {
        reducer_add_in_place(&self.modulo, &mut self.pointer, 1);
        proof {
            lemma_moves_are_modular(old(self).pointer as int, old(self).cells@.len() as int);
        }
    }

    /// Moves the pointer one cell backward, from the first cell to the last.
    pub fn retreat(&mut self)
        requires
            old(self).wf(),
        ensures
            final(self).wf(),
            final(self).cells@ == old(self).cells@,
            final(self).modulo == old(self).modulo,
            final(self).pointer == retreated(old(self).pointer as int, old(self).cells@.len() as int),
    {
        reducer_sub_in_place(&self.modulo, &mut self.pointer, 1);
        proof {
            lemma_moves_are_modular(old(self).pointer as int, old(self).cells@.len() as int);
        }
    }

    /// The byte in the cell under the pointer.
    pub fn read(&self) -> (byte: u8)
        requires
            self.wf(),
        ensures
            byte == self.cells@[self.pointer as int],
    {
        self.cells[self.pointer]
    }

    /// Puts `byte` into the cell under the pointer.
    pub fn write(&mut self, byte: u8)
        requires
            old(self).wf(),
        ensures
            final(self).wf(),
            final(self).cells@ == old(self).cells@.update(old(self).pointer as int, byte),
            final(self).pointer == old(self).pointer,
            final(self).modulo == old(self).modulo,
    {
        let at: usize = self.pointer;
        self.cells[at] = byte;
    }

    /// Adds one to the cell under the pointer; 255 becomes 0.
    pub fn increment(&mut self)
        requires
            old(self).wf(),
        ensures
            final(self).wf(),
            final(self).cells@ == old(self).cells@.update(
                old(self).pointer as int,
                incremented(old(self).cells@[old(self).pointer as int]),
            ),
            final(self).pointer == old(self).pointer,
            final(self).modulo == old(self).modulo,
    {
        let byte: u8 = self.read().wrapping_add(1);
        self.write(byte);
    }

    /// Takes one from the cell under the pointer; 0 becomes 255.
    pub fn decrement(&mut self)
        requires
            old(self).wf(),
        ensures
            final(self).wf(),
            final(self).cells@ == old(self).cells@.update(
                old(self).pointer as int,
                decremented(old(self).cells@[old(self).pointer as int]),
            ),
            final(self).pointer == old(self).pointer,
            final(self).modulo == old(self).modulo,
    {
        let byte: u8 = self.read().wrapping_sub(1);
        self.write(byte);
    }

    /// Zeroes every cell and puts the pointer back on the first.
    pub fn clear(&mut self)
        requires
            old(self).wf(),
        ensures
            final(self).wf(),
            final(self).cells@ == zeroed(old(self).cells@.len()),
            final(self).pointer == 0,
            final(self).modulo == old(self).modulo,
    {
        let n: usize = self.cells.len();
        let mut i: usize = 0;
        while i < n
            invariant
                i <= n,
                n == self.cells@.len(),
                n == old(self).cells@.len(),
                self.modulo == old(self).modulo,
                forall|k: int| 0 <= k < i ==> self.cells@[k] == 0,
            decreases n - i,
        {
            self.cells[i] = 0;
            i += 1;
        }
        self.pointer = 0;
        assert(self.cells@ =~= zeroed(n as nat));
    }
}

} // verus!
