//! The value stack: 64-bit integers, last in, first out, with zeros below.

use vstd::prelude::*;

verus! {

/// The value `depth` places below the top of `items` (the top itself is at
/// depth 0). Below the bottom every place reads as zero.
pub open spec fn peek(items: Seq<i64>, depth: nat) -> i64 {
    if depth < items.len() {
        items[items.len() - 1 - depth]
    } else {
        0
    }
}

/// What is left of `items` once `count` values have been popped. Popping an
/// empty stack leaves it empty.
pub open spec fn drop_top(items: Seq<i64>, count: nat) -> Seq<i64> {
    if count <= items.len() {
        items.subrange(0, items.len() - count)
    } else {
        Seq::empty()
    }
}

/// Popping one value after another is popping them all at once, and the
/// values come off in order of depth.
pub proof fn lemma_drop_top_twice(items: Seq<i64>, first: nat, second: nat)
    ensures
        drop_top(drop_top(items, first), second) == drop_top(items, first + second),
        forall|depth: nat| peek(drop_top(items, first), depth) == peek(items, first + depth),
{
    assert(drop_top(drop_top(items, first), second) =~= drop_top(items, first + second));
}

/// A push puts its value at depth 0 and moves everything else one place down.
pub proof fn lemma_push_then_peek(items: Seq<i64>, item: i64)
    ensures
        peek(items.push(item), 0) == item,
        drop_top(items.push(item), 1) == items,
        forall|depth: nat| depth >= 1 ==> peek(items.push(item), depth) == peek(items, (depth - 1) as nat),
{
    assert(drop_top(items.push(item), 1) =~= items);
}

/// A stack of integers. Its view lists the values from the bottom to the top.
pub struct Stack {
    stack: Vec<i64>,
}

impl View for Stack {
    type V = Seq<i64>;

    closed spec fn view(&self) -> Seq<i64> {
        self.stack@
    }
}

impl Stack {
    /// Makes an empty stack.
    pub fn new() -> (stack: Stack)
        ensures
            stack@ == Seq::<i64>::empty(),
    {
        Stack { stack: Vec::new() }
    }

    /// Takes the top value off the stack and returns it. An empty stack
    /// stays empty and yields 0.
    pub fn pop(&mut self) -> (item: i64)
        ensures
            item == peek(old(self)@, 0),
            final(self)@ == drop_top(old(self)@, 1),
    {
        match self.stack.pop() {
            Some(item) => item,
            None => 0,
        }
    }

    /// Puts `item` on top of the stack.
    pub fn push(&mut self, item: i64)
        ensures
            final(self)@ == old(self)@.push(item),
    {
        self.stack.push(item);
    }

    /// Pushes a second copy of the top value. On an empty stack the top reads
    /// as 0, so two zeros are pushed.
    pub fn duplicate_top(&mut self)
        ensures
            final(self)@ == drop_top(old(self)@, 1).push(peek(old(self)@, 0)).push(
                peek(old(self)@, 0),
            ),
    {
        let value = self.pop();
        self.push(value);
        self.push(value);
    }

    /// Exchanges the two topmost values, reading a missing one as 0.
    pub fn swap_top(&mut self)
        ensures
            final(self)@ == drop_top(old(self)@, 2).push(peek(old(self)@, 0)).push(
                peek(old(self)@, 1),
            ),
    {
        let a = self.pop();
        let b = self.pop();
        proof {
            lemma_drop_top_twice(old(self)@, 1, 1);
        }
        self.push(a);
        self.push(b);
    }

    /// The values on the stack, bottom first.
    pub fn values(&self) -> (items: Vec<i64>)
        ensures
            items@ == self@,
    {
        self.stack.clone()
    }
}

impl Default for Stack {
    fn default() -> (stack: Stack)
        ensures
            stack@ == Seq::<i64>::empty(),
    {
        Stack::new()
    }
}

} // verus!
