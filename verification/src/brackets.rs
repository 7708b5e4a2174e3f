//! Which loop bracket belongs to which: the definition, what follows from it,
//! and the two-way map that holds the pairs.

use vstd::prelude::*;
use bimap::BiMap;

verus! {

/// How many more `[` than `]` stand in `code[from..to)`.
pub open spec fn depth(code: Seq<char>, from: int, to: int) -> int
    decreases to - from,
{
    if to <= from {
        0
    } else {
        depth(code, from, to - 1) + (if code[to - 1] == '[' {
            1int
        } else if code[to - 1] == ']' {
            -1int
        } else {
            0int
        })
    }
}

/// No prefix of `code[from..to)` closes a loop that it did not open.
pub open spec fn never_negative(code: Seq<char>, from: int, to: int) -> bool {
    forall|j: int| from <= j <= to ==> #[trigger] depth(code, from, j) >= 0
}

/// `code[from..to)` opens and closes its loops in proper nesting.
pub open spec fn balanced(code: Seq<char>, from: int, to: int) -> bool {
    never_negative(code, from, to) && depth(code, from, to) == 0
}

/// Every bracket of the program has its partner.
pub open spec fn well_bracketed(code: Seq<char>) -> bool {
    balanced(code, 0, code.len() as int)
}

/// The `[` at `open` and the `]` at `close` delimit one loop: what stands
/// between them is balanced.
pub open spec fn is_pair(code: Seq<char>, open: int, close: int) -> bool {
    &&& 0 <= open < close < code.len()
    &&& code[open] == '['
    &&& code[close] == ']'
    &&& balanced(code, open + 1, close)
}

/// `pairs` maps each `[` of the program to its `]`, holds nothing else, and
/// leaves no bracket out.
pub open spec fn is_loop_index(code: Seq<char>, pairs: Map<usize, usize>) -> bool {
    &&& forall|o: usize, c: usize|
        (pairs.contains_key(o) && pairs[o] == c) <==> #[trigger] is_pair(code, o as int, c as int)
    &&& forall|o: usize| o < code.len() && code[o as int] == '[' ==> #[trigger] pairs.contains_key(o)
    &&& forall|c: usize|
        c < code.len() && #[trigger] code[c as int] == ']' ==> exists|o: usize|
            #[trigger] pairs.contains_key(o) && pairs[o] == c
}

/// The position of the bracket that belongs to the one at `at`.
pub open spec fn partner(code: Seq<char>, at: int) -> int {
    if code[at] == '[' {
        choose|c: int| is_pair(code, at, c)
    } else {
        choose|o: int| is_pair(code, o, at)
    }
}

/// The depth of a range is the sum of the depths of its two parts.
pub proof fn lemma_depth_split(code: Seq<char>, from: int, mid: int, to: int)
    requires
        from <= mid <= to,
    ensures
        depth(code, from, to) == depth(code, from, mid) + depth(code, mid, to),
    decreases to - mid,
{
    if mid < to {
        lemma_depth_split(code, from, mid, to - 1);
    }
}

/// A `[` has at most one partner.
pub proof fn lemma_close_is_unique(code: Seq<char>, open: int, c1: int, c2: int)
    requires
        is_pair(code, open, c1),
        is_pair(code, open, c2),
    ensures
        c1 == c2,
{
    if c1 < c2 {
        assert(depth(code, open + 1, c1 + 1) == depth(code, open + 1, c1) - 1);
    } else if c2 < c1 {
        assert(depth(code, open + 1, c2 + 1) == depth(code, open + 1, c2) - 1);
    }
}

/// A `]` has at most one partner.
pub proof fn lemma_open_is_unique(code: Seq<char>, o1: int, o2: int, close: int)
    requires
        is_pair(code, o1, close),
        is_pair(code, o2, close),
    ensures
        o1 == o2,
{
    if o1 < o2 {
        lemma_depth_split(code, o1 + 1, o2 + 1, close);
        assert(depth(code, o1 + 1, o2 + 1) == depth(code, o1 + 1, o2) + 1);
        assert(depth(code, o1 + 1, o2) >= 0);
    } else if o2 < o1 {
        lemma_depth_split(code, o2 + 1, o1 + 1, close);
        assert(depth(code, o2 + 1, o1 + 1) == depth(code, o2 + 1, o1) + 1);
        assert(depth(code, o2 + 1, o1) >= 0);
    }
}

/// The lookups of a loop index undo each other: for a pair, the `[` leads to
/// the `]`, and the `]` leads back to that `[` and to no other.
pub proof fn lemma_lookup_involution(code: Seq<char>, pairs: Map<usize, usize>, open: usize, close: usize)
    requires
        is_loop_index(code, pairs),
        is_pair(code, open as int, close as int),
    ensures
        pairs.contains_key(open),
        pairs[open] == close,
        forall|o: usize| pairs.contains_key(o) && pairs[o] == close ==> o == open,
{
    assert forall|o: usize| pairs.contains_key(o) && pairs[o] == close implies o == open by {
        assert(is_pair(code, o as int, close as int));
        lemma_open_is_unique(code, o as int, open as int, close as int);
    }
}

/// In a loop index the partner of a `[` is what the map holds for it.
pub proof fn lemma_partner_of_open(code: Seq<char>, pairs: Map<usize, usize>, open: usize)
    requires
        is_loop_index(code, pairs),
        open < code.len(),
        code[open as int] == '[',
    ensures
        pairs.contains_key(open),
        partner(code, open as int) == pairs[open],
        open < pairs[open] < code.len(),
{
    assert(pairs.contains_key(open));
    let c = pairs[open];
    assert(is_pair(code, open as int, c as int));
    lemma_close_is_unique(code, open as int, c as int, partner(code, open as int));
}

/// In a loop index the partner of a `]` is the key that the map holds it under.
pub proof fn lemma_partner_of_close(code: Seq<char>, pairs: Map<usize, usize>, close: usize, open: usize)
    requires
        is_loop_index(code, pairs),
        pairs.contains_key(open),
        pairs[open] == close,
    ensures
        partner(code, close as int) == open,
        open < close < code.len(),
        code[close as int] == ']',
{
    assert(is_pair(code, open as int, close as int));
    lemma_open_is_unique(code, open as int, partner(code, close as int), close as int);
}

/// The pairs that a two-way map holds, each left value with its right value.
pub uninterp spec fn loop_pairs(loops: BiMap<usize, usize>) -> Map<usize, usize>;

/// What an empty two-way map holds.
pub open spec fn no_pairs() -> Map<usize, usize> {
    Map::empty()
}

/// What a two-way map holds once `left` and `right` were put in: the pair that
/// had this left value and the pair that had this right value are gone, the
/// new pair is there, and the others stay.
pub open spec fn pairs_after_insert(pairs: Map<usize, usize>, left: usize, right: usize) -> Map<usize, usize> {
    Map::new(
        |k: usize| k == left || (pairs.contains_key(k) && pairs[k] != right),
        |k: usize| if k == left { right } else { pairs[k] },
    )
}

/// `bimap::BiHashMap`, the two-way map, carried as it is: nothing inside it
/// is seen, and all that is known of one is what the functions below state.
#[verifier::external_type_specification]
#[verifier::external_body]
#[verifier::reject_recursive_types(L)]
#[verifier::reject_recursive_types(R)]
#[verifier::reject_recursive_types(LS)]
#[verifier::reject_recursive_types(RS)]
pub struct ExBiHashMap<L, R, LS, RS>(bimap::BiHashMap<L, R, LS, RS>);

/// `BiMap::new`: the map that it makes holds no pair.
#[verifier::external_body]
pub(crate) fn loops_new() -> (made: BiMap<usize, usize>)
    ensures
        loop_pairs(made) == no_pairs(),
{
    BiMap::new()
}

/// `BiMap::insert`: it takes out the pair of this left value and the pair of
/// this right value, where there is one, and puts the new pair in.
#[verifier::external_body]
pub(crate) fn loops_insert(loops: &mut BiMap<usize, usize>, left: usize, right: usize)
    ensures
        loop_pairs(*final(loops)) == pairs_after_insert(loop_pairs(*old(loops)), left, right),
{
    loops.insert(left, right);
}

/// `BiMap::get_by_left`: the right value that is paired with `left`, if there
/// is such a pair.
#[verifier::external_body]
pub(crate) fn loops_get_by_left(loops: &BiMap<usize, usize>, left: usize) -> (right: Option<usize>)
    ensures
        right == (if loop_pairs(*loops).contains_key(left) {
            Some(loop_pairs(*loops)[left])
        } else {
            None
        }),
{
    loops.get_by_left(&left).copied()
}

/// `BiMap::get_by_right`: a left value that is paired with `right`, if there
/// is such a pair.
#[verifier::external_body]
pub(crate) fn loops_get_by_right(loops: &BiMap<usize, usize>, right: usize) -> (left: Option<usize>)
    ensures
        match left {
            Some(l) => loop_pairs(*loops).contains_key(l) && loop_pairs(*loops)[l] == right,
            None => forall|l: usize| !(loop_pairs(*loops).contains_key(l) && loop_pairs(*loops)[l] == right),
        },
{
    loops.get_by_right(&right).copied()
}

/// What the scan knows before it reads position `at`: `stack` holds the `[`
/// that are still open, innermost last, and `pairs` the loops closed so far.
pub open spec fn scan_inv(code: Seq<char>, at: int, stack: Seq<usize>, pairs: Map<usize, usize>) -> bool {
    &&& 0 <= at <= code.len()
    &&& never_negative(code, 0, at)
    &&& depth(code, 0, at) == stack.len()
    &&& forall|k: int|
        0 <= k < stack.len() ==> {
            &&& (#[trigger] stack[k]) < at
            &&& code[stack[k] as int] == '['
            &&& never_negative(code, stack[k] + 1, at)
            &&& depth(code, stack[k] + 1, at) == stack.len() - 1 - k
        }
    &&& forall|o: usize, c: usize|
        pairs.contains_key(o) && pairs[o] == c ==> #[trigger] is_pair(code, o as int, c as int) && c < at
    &&& forall|o: usize| #[trigger]
        pairs.contains_key(o) ==> is_pair(code, o as int, pairs[o] as int) && pairs[o] < at
    &&& forall|c: usize|
        c < at && #[trigger] code[c as int] == ']' ==> exists|o: usize|
            #[trigger] pairs.contains_key(o) && pairs[o] == c
    &&& forall|o: usize|
        o < at && #[trigger] code[o as int] == '[' ==> pairs.contains_key(o) || stack.contains(o)
}

/// The scan goes past a character that is no bracket.
pub proof fn lemma_scan_other(code: Seq<char>, at: int, stack: Seq<usize>, pairs: Map<usize, usize>)
    requires
        scan_inv(code, at, stack, pairs),
        at < code.len(),
        code[at] != '[',
        code[at] != ']',
    ensures
        scan_inv(code, at + 1, stack, pairs),
{
    assert(depth(code, 0, at + 1) == depth(code, 0, at));
    assert forall|k: int| 0 <= k < stack.len() implies {
        &&& (#[trigger] stack[k]) < at + 1
        &&& code[stack[k] as int] == '['
        &&& never_negative(code, stack[k] + 1, at + 1)
        &&& depth(code, stack[k] + 1, at + 1) == stack.len() - 1 - k
    } by {
        assert(depth(code, stack[k] + 1, at + 1) == depth(code, stack[k] + 1, at));
    }
}

/// The scan goes past a `[` and puts its position on the stack.
pub proof fn lemma_scan_open(code: Seq<char>, at: usize, stack: Seq<usize>, pairs: Map<usize, usize>)
    requires
        scan_inv(code, at as int, stack, pairs),
        at < code.len(),
        code[at as int] == '[',
    ensures
        scan_inv(code, at + 1, stack.push(at), pairs),
{
    let next = stack.push(at);
    assert(depth(code, 0, at + 1) == depth(code, 0, at as int) + 1);
    assert forall|k: int| 0 <= k < next.len() implies {
        &&& (#[trigger] next[k]) < at + 1
        &&& code[next[k] as int] == '['
        &&& never_negative(code, next[k] + 1, at + 1)
        &&& depth(code, next[k] + 1, at + 1) == next.len() - 1 - k
    } by {
        if k < stack.len() {
            assert(next[k] == stack[k]);
            assert(depth(code, stack[k] + 1, at + 1) == depth(code, stack[k] + 1, at as int) + 1);
        }
    }
    assert forall|o: usize| o < at + 1 && #[trigger] code[o as int] == '[' implies pairs.contains_key(o)
        || next.contains(o) by {
        if o == at {
            assert(next[stack.len() as int] == at);
        } else if !pairs.contains_key(o) {
            let k = choose|k: int| 0 <= k < stack.len() && stack[k] == o;
            assert(next[k] == o);
        }
    }
}

/// The scan goes past a `]` and pairs it with the innermost open `[`.
pub proof fn lemma_scan_close(code: Seq<char>, at: usize, stack: Seq<usize>, pairs: Map<usize, usize>)
    requires
        scan_inv(code, at as int, stack, pairs),
        at < code.len(),
        code[at as int] == ']',
        stack.len() > 0,
    ensures
        scan_inv(code, at + 1, stack.drop_last(), pairs_after_insert(pairs, stack.last(), at)),
        pairs_after_insert(pairs, stack.last(), at) == pairs.insert(stack.last(), at),
{
    let top = stack.last();
    let rest = stack.drop_last();
    let after = pairs_after_insert(pairs, top, at);
    assert(top == stack[stack.len() - 1]);
    assert(is_pair(code, top as int, at as int));
    if pairs.contains_key(top) {
        lemma_close_is_unique(code, top as int, pairs[top] as int, at as int);
    }
    assert(after =~= pairs.insert(top, at));
    assert(depth(code, 0, at + 1) == depth(code, 0, at as int) - 1);
    assert forall|k: int| 0 <= k < rest.len() implies {
        &&& (#[trigger] rest[k]) < at + 1
        &&& code[rest[k] as int] == '['
        &&& never_negative(code, rest[k] + 1, at + 1)
        &&& depth(code, rest[k] + 1, at + 1) == rest.len() - 1 - k
    } by {
        assert(rest[k] == stack[k]);
        assert(depth(code, stack[k] + 1, at + 1) == depth(code, stack[k] + 1, at as int) - 1);
    }
    assert forall|c: usize| c < at + 1 && #[trigger] code[c as int] == ']' implies exists|o: usize|
        #[trigger] after.contains_key(o) && after[o] == c by {
        if c == at {
            assert(after.contains_key(top) && after[top] == c);
        } else {
            let o = choose|o: usize| #[trigger] pairs.contains_key(o) && pairs[o] == c;
            assert(after.contains_key(o) && after[o] == c);
        }
    }
    assert forall|o: usize| o < at + 1 && #[trigger] code[o as int] == '[' implies after.contains_key(o)
        || rest.contains(o) by {
        if !pairs.contains_key(o) && o != top {
            let k = choose|k: int| 0 <= k < stack.len() && stack[k] == o;
            assert(rest[k] == o);
        }
    }
}

/// A `]` that finds no `[` open spoils the program.
pub proof fn lemma_scan_unmatched_close(code: Seq<char>, at: int, stack: Seq<usize>, pairs: Map<usize, usize>)
    requires
        scan_inv(code, at, stack, pairs),
        at < code.len(),
        code[at] == ']',
        stack.len() == 0,
    ensures
        !well_bracketed(code),
{
    assert(depth(code, 0, at + 1) == depth(code, 0, at) - 1);
}

/// At the end of the program the scan has the loop index, if no `[` is left open.
pub proof fn lemma_scan_end(code: Seq<char>, stack: Seq<usize>, pairs: Map<usize, usize>)
    requires
        scan_inv(code, code.len() as int, stack, pairs),
    ensures
        stack.len() == 0 <==> well_bracketed(code),
        stack.len() == 0 ==> is_loop_index(code, pairs),
{
    if stack.len() == 0 {
        assert forall|o: usize, c: usize| #[trigger] is_pair(code, o as int, c as int) implies pairs.contains_key(o)
            && pairs[o] == c by {
            assert(code[c as int] == ']');
            let w = choose|w: usize| #[trigger] pairs.contains_key(w) && pairs[w] == c;
            assert(is_pair(code, w as int, c as int));
            lemma_open_is_unique(code, w as int, o as int, c as int);
        }
        assert forall|o: usize| o < code.len() && code[o as int] == '[' implies #[trigger] pairs.contains_key(o) by {
            if !pairs.contains_key(o) {
                assert(stack.contains(o));
            }
        }
    }
}

} // verus!
