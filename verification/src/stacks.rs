//! The two stacks a script runs on, and the stack of nested conditions.

use vstd::prelude::*;
use crate::constants::MAX_STACK_SIZE;
use crate::opcodes::{items, pushable, Item, StackEntry};

verus! {

/// The mathematical value of a `Stack`: the main and the alternative stack, bottom first.
pub struct StackState {
    pub main: Seq<Item>,
    pub alt: Seq<Item>,
}

/// Stack for script execution.
#[derive(Clone, Debug, PartialEq, Eq, PartialOrd)]
pub struct Stack {
    pub main_stack: Vec<StackEntry>,
    pub alt_stack: Vec<StackEntry>,
}

impl View for Stack {
    type V = StackState;

    open spec fn view(&self) -> StackState {
        StackState { main: items(self.main_stack@), alt: items(self.alt_stack@) }
    }
}

/// Whether the two stacks together are within the size limit.
pub open spec fn within_stack_limit(s: StackState) -> bool {
    s.main.len() + s.alt.len() <= MAX_STACK_SIZE
}

/// The state after a checked push of `it`, if the item may be pushed.
pub open spec fn push_item(s: StackState, it: Item) -> Option<StackState> {
    if pushable(it) {
        Some(StackState { main: s.main.push(it), alt: s.alt })
    } else {
        None
    }
}

impl Default for Stack {
    fn default() -> (s: Self)
        ensures
            s@.main.len() == 0,
            s@.alt.len() == 0,
    {
        Stack::new()
    }
}

impl From<Vec<StackEntry>> for Stack {
    fn from(entries: Vec<StackEntry>) -> (s: Self)
        ensures
            s@.main == items(entries@),
            s@.alt.len() == 0,
    {
        Stack { main_stack: entries, alt_stack: Vec::new() }
    }
}

impl vstd::std_specs::convert::FromSpecImpl<Vec<StackEntry>> for Stack {
    open spec fn obeys_from_spec() -> bool {
        false
    }

    open spec fn from_spec(entries: Vec<StackEntry>) -> Self {
        arbitrary()
    }
}

impl Stack {
    /// Creates an empty stack.
    pub fn new() -> (s: Self)
        ensures
            s@.main.len() == 0,
            s@.alt.len() == 0,
    {
        Stack {
            main_stack: Vec::with_capacity(MAX_STACK_SIZE as usize),
            alt_stack: Vec::with_capacity(MAX_STACK_SIZE as usize),
        }
    }

    /// Checks that the two stacks together hold no more entries than allowed.
    pub fn is_valid(&self) -> (r: bool)
        ensures
            r == within_stack_limit(self@),
    {
        let main_len: usize = self.main_stack.len();
        let alt_len: usize = self.alt_stack.len();
        main_len <= MAX_STACK_SIZE as usize && alt_len <= MAX_STACK_SIZE as usize - main_len
    }

    /// Pops the top entry from the main stack.
    pub fn pop(&mut self) -> (r: Option<StackEntry>)
        ensures
            old(self)@.main.len() == 0 ==> r is None && final(self)@ == old(self)@,
            old(self)@.main.len() > 0 ==> r is Some && r->0@ == old(self)@.main.last()
                && final(self)@.main == old(self)@.main.drop_last() && final(self)@.alt == old(
                self,
            )@.alt,
    {
        let r = self.main_stack.pop();
        proof {
            if old(self)@.main.len() > 0 {
                assert(final(self)@.main =~= old(self)@.main.drop_last());
            } else {
                assert(final(self)@.main =~= old(self)@.main);
            }
        }
        r
    }

    /// Returns a copy of the top entry of the main stack.
    pub fn last(&self) -> (r: Option<StackEntry>)
        ensures
            self@.main.len() == 0 ==> r is None,
            self@.main.len() > 0 ==> r is Some && r->0@ == self@.main.last(),
    {
        let n: usize = self.main_stack.len();
        if n == 0 {
            None
        } else {
            Some(self.main_stack[n - 1].duplicate())
        }
    }

    /// Pushes an entry onto the main stack, unless it is an opcode or a text over the
    /// item size; says whether it was pushed.
    pub fn push(&mut self, stack_entry: StackEntry) -> (r: bool)
        ensures
            r == pushable(stack_entry@),
            r ==> Some(final(self)@) == push_item(old(self)@, stack_entry@),
            !r ==> final(self)@ == old(self)@,
    {
        if !stack_entry.is_pushable() {
            return false;
        }
        self.put(stack_entry);
        true
    }

    /// Puts an entry on top of the main stack without looking at it.
    pub(crate) fn put(&mut self, stack_entry: StackEntry)
        ensures
            final(self)@.main == old(self)@.main.push(stack_entry@),
            final(self)@.alt == old(self)@.alt,
    {
        self.main_stack.push(stack_entry);
        assert(final(self)@.main =~= old(self)@.main.push(stack_entry@));
    }

    /// The number of entries on the main stack.
    pub(crate) fn depth(&self) -> (n: usize)
        ensures
            n == self@.main.len(),
    {
        self.main_stack.len()
    }

    /// The number of entries on the alternative stack.
    pub(crate) fn alt_depth(&self) -> (n: usize)
        ensures
            n == self@.alt.len(),
    {
        self.alt_stack.len()
    }

    /// A copy of the entry `below` places under the top of the main stack.
    pub(crate) fn peek(&self, below: usize) -> (r: StackEntry)
        requires
            below < self@.main.len(),
        ensures
            r@ == self@.main[self@.main.len() - 1 - below],
    {
        let n: usize = self.main_stack.len();
        self.main_stack[n - 1 - below].duplicate()
    }

    /// Removes the entry `below` places under the top of the main stack and returns it.
    pub(crate) fn take(&mut self, below: usize) -> (r: StackEntry)
        requires
            below < old(self)@.main.len(),
        ensures
            r@ == old(self)@.main[old(self)@.main.len() - 1 - below],
            final(self)@.main == old(self)@.main.remove(old(self)@.main.len() - 1 - below),
            final(self)@.alt == old(self)@.alt,
    {
        let n: usize = self.main_stack.len();
        let r = self.main_stack.remove(n - 1 - below);
        assert(final(self)@.main =~= old(self)@.main.remove(n - 1 - below));
        r
    }

    /// Drops the top `count` entries of the main stack.
    pub(crate) fn drop_top(&mut self, count: usize)
        requires
            count <= old(self)@.main.len(),
        ensures
            final(self)@.main == old(self)@.main.subrange(0, old(self)@.main.len() - count),
            final(self)@.alt == old(self)@.alt,
    {
        let n: usize = self.main_stack.len();
        self.main_stack.truncate(n - count);
        assert(final(self)@.main =~= old(self)@.main.subrange(0, n - count));
    }

    /// Moves the top of the main stack to the alternative stack.
    pub(crate) fn to_alt(&mut self) -> (r: bool)
        ensures
            r == (old(self)@.main.len() > 0),
            r ==> final(self)@.main == old(self)@.main.drop_last() && final(self)@.alt == old(
                self,
            )@.alt.push(old(self)@.main.last()),
    {
        match self.main_stack.pop() {
            Some(e) => {
                self.alt_stack.push(e);
                assert(final(self)@.main =~= old(self)@.main.drop_last());
                assert(final(self)@.alt =~= old(self)@.alt.push(old(self)@.main.last()));
                true
            },
            None => false,
        }
    }

    /// Moves the top of the alternative stack to the main stack.
    pub(crate) fn from_alt(&mut self) -> (r: bool)
        ensures
            r == (old(self)@.alt.len() > 0),
            r ==> final(self)@.alt == old(self)@.alt.drop_last() && final(self)@.main == old(
                self,
            )@.main.push(old(self)@.alt.last()),
    {
        match self.alt_stack.pop() {
            Some(e) => {
                self.main_stack.push(e);
                assert(final(self)@.alt =~= old(self)@.alt.drop_last());
                assert(final(self)@.main =~= old(self)@.main.push(old(self)@.alt.last()));
                true
            },
            None => false,
        }
    }
}

/// Stack for conditionals: how many conditions are open, and the position of the first
/// one that is false, if any.
#[derive(Clone, Debug, PartialEq, Eq, PartialOrd)]
pub struct ConditionStack {
    pub size: usize,
    pub first_false_pos: Option<usize>,
}

/// The mathematical value of a `ConditionStack`.
pub struct CondState {
    pub size: nat,
    pub first_false_pos: Option<nat>,
}

impl View for ConditionStack {
    type V = CondState;

    open spec fn view(&self) -> CondState {
        CondState {
            size: self.size as nat,
            first_false_pos: match self.first_false_pos {
                Some(p) => Some(p as nat),
                None => None,
            },
        }
    }
}

impl CondState {
    /// No condition is open.
    pub open spec fn empty() -> CondState {
        CondState { size: 0, first_false_pos: None }
    }

    /// Every open condition is true: the branch is executing.
    pub open spec fn all_true(self) -> bool {
        self.first_false_pos is None
    }

    /// The position of the first false condition lies among the open ones.
    pub open spec fn wf(self) -> bool {
        self.first_false_pos is Some ==> self.first_false_pos->0 < self.size
    }

    /// The state after opening a condition with value `cond`.
    pub open spec fn push(self, cond: bool) -> CondState {
        CondState {
            size: self.size + 1,
            first_false_pos: if self.first_false_pos is None && !cond {
                Some(self.size)
            } else {
                self.first_false_pos
            },
        }
    }

    /// The state after closing the innermost condition.
    pub open spec fn pop(self) -> CondState
        recommends
            self.size > 0,
    {
        CondState {
            size: (self.size - 1) as nat,
            first_false_pos: if self.first_false_pos == Some((self.size - 1) as nat) {
                None
            } else {
                self.first_false_pos
            },
        }
    }

    /// The state after negating the innermost condition. Under an outer false condition
    /// nothing changes.
    pub open spec fn toggle(self) -> CondState
        recommends
            self.size > 0,
    {
        CondState {
            size: self.size,
            first_false_pos: match self.first_false_pos {
                None => Some((self.size - 1) as nat),
                Some(p) => if p == self.size - 1 {
                    None
                } else {
                    Some(p)
                },
            },
        }
    }
}

impl Default for ConditionStack {
    fn default() -> (s: Self)
        ensures
            s@ == CondState::empty(),
    {
        ConditionStack::new()
    }
}

impl ConditionStack {
    /// Creates an empty stack of conditions.
    pub fn new() -> (s: Self)
        ensures
            s@ == CondState::empty(),
            s@.wf(),
    {
        ConditionStack { size: 0, first_false_pos: None }
    }

    /// Checks that every open condition is true.
    pub fn all_true(&self) -> (r: bool)
        ensures
            r == self@.all_true(),
    {
        self.first_false_pos.is_none()
    }

    /// Checks that no condition is open.
    pub fn is_empty(&self) -> (r: bool)
        ensures
            r == (self@.size == 0),
    {
        self.size == 0
    }

    /// Opens a condition.
    pub fn push(&mut self, cond: bool)
        requires
            old(self).size < usize::MAX,
        ensures
            final(self)@ == old(self)@.push(cond),
            old(self)@.wf() ==> final(self)@.wf(),
    {
        if self.first_false_pos.is_none() && !cond {
            self.first_false_pos = Some(self.size);
        }
        self.size += 1;
    }

    /// Closes the innermost condition.
    pub fn pop(&mut self)
        requires
            old(self).size > 0,
        ensures
            final(self)@ == old(self)@.pop(),
            old(self)@.wf() ==> final(self)@.wf(),
    {
        self.size -= 1;
        if let Some(pos) = self.first_false_pos {
            if pos == self.size {
                self.first_false_pos = None;
            }
        }
    }

    /// Negates the innermost condition.
    pub fn toggle(&mut self)
        requires
            old(self).size > 0,
        ensures
            final(self)@ == old(self)@.toggle(),
            old(self)@.wf() ==> final(self)@.wf(),
    {
        match self.first_false_pos {
            Some(pos) => {
                if pos == self.size - 1 {
                    self.first_false_pos = None;
                }
            },
            None => {
                self.first_false_pos = Some(self.size - 1);
            },
        }
    }
}

} // verus!
