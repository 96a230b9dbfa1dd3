use vstd::prelude::*;

use crate::value::{truncated, Value};

verus! {

/// What a stack holds: its values from bottom to top, and its register,
/// which is either empty or holds one value.
pub struct StackView {
    pub values: Seq<Value>,
    pub register: Option<Value>,
}

/// The values bottom to top; the register holds `register` only while
/// `filled_register` is set.
pub struct Stack {
    s: Vec<Value>,
    register: Value,
    filled_register: bool,
}

/// The bytes that `get_bytes` hands out for values: each value truncated to
/// eight bits, in the order they stood on the stack.
pub open spec fn bytes_of(vals: Seq<Value>) -> Seq<u8> {
    vals.map_values(|v: Value| truncated(v, 0xFF) as u8)
}

/// The register toggle: stores the top value while the register is empty,
/// otherwise pushes the stored value back and empties the register.
pub open spec fn register_toggled(st: StackView) -> StackView {
    match st.register {
        Some(v) => StackView { values: st.values.push(v), register: None },
        None => StackView { values: st.values.drop_last(), register: Some(st.values.last()) },
    }
}

/// The top three values `(b, c, d)`, bottom to top, become `(d, b, c)`.
pub open spec fn rotated_three(s: Seq<Value>) -> Seq<Value> {
    let n = s.len() as int;
    s.subrange(0, n - 3).push(s[n - 1]).push(s[n - 3]).push(s[n - 2])
}

/// The top two values trade places.
pub open spec fn swapped_two(s: Seq<Value>) -> Seq<Value> {
    let n = s.len() as int;
    s.subrange(0, n - 2).push(s[n - 1]).push(s[n - 2])
}

/// Duplicating the top value and then popping leaves the stack as it was:
/// the popped value is the top, which stays present once.
pub proof fn lemma_duplicate_then_pop(st: StackView)
    requires
        st.values.len() > 0,
    ensures
        st.values.push(st.values.last()).last() == st.values.last(),
        st.values.push(st.values.last()).drop_last() == st.values,
{
    assert(st.values.push(st.values.last()).drop_last() =~= st.values);
}

/// Rotating the top three values three times restores their order.
pub proof fn lemma_rotate_three_times(s: Seq<Value>)
    requires
        s.len() >= 3,
    ensures
        rotated_three(rotated_three(rotated_three(s))) == s,
{
    assert(rotated_three(rotated_three(rotated_three(s))) =~= s);
}

/// Storing the top value in an empty register and retrieving it at once
/// gives back the stack it started from.
pub proof fn lemma_register_store_retrieve(st: StackView)
    requires
        st.register is None,
        st.values.len() > 0,
    ensures
        register_toggled(register_toggled(st)) == st,
{
    assert(register_toggled(register_toggled(st)).values =~= st.values);
}

impl View for Stack {
    type V = StackView;

    closed spec fn view(&self) -> StackView {
        StackView {
            values: self.s@,
            register: if self.filled_register {
                Some(self.register)
            } else {
                None
            },
        }
    }
}

impl Stack {
    /// A stack holding `s` (nothing when `None`), with an empty register.
    pub fn new(s: Option<Vec<Value>>) -> (r: Stack)
        ensures
            r@.values == (match s {
                Some(v) => v@,
                None => Seq::<Value>::empty(),
            }),
            r@.register is None,
    {
        let new_stack: Vec<Value> = match s {
            Some(inner) => inner,
            None => Vec::new(),
        };
        Stack { s: new_stack, register: Value { bits: 0 }, filled_register: false }
    }

    pub fn has_register(&self) -> (r: bool)
        ensures
            r == self@.register is Some,
    {
        self.filled_register
    }

    /// What the register holds, if it is filled.
    pub fn register_value(&self) -> (r: Option<Value>)
        ensures
            r == self@.register,
    {
        if self.filled_register {
            Some(self.register)
        } else {
            None
        }
    }

    pub fn len(&self) -> (r: usize)
        ensures
            r == self@.values.len(),
    {
        self.s.len()
    }

    /// A copy of the values, bottom to top.
    pub fn values(&self) -> (r: Vec<Value>)
        ensures
            r@ == self@.values,
    {
        self.s.clone()
    }

    /// Appends `r` on top.
    pub fn push(&mut self, r: Value)
        ensures
            final(self)@ == (StackView { values: old(self)@.values.push(r), ..old(self)@ }),
    {
        self.s.push(r);
    }

    /// Removes the top value and returns it.
    pub fn pop(&mut self) -> (r: Value)
        requires
            old(self)@.values.len() > 0,
        ensures
            r == old(self)@.values.last(),
            final(self)@ == (StackView { values: old(self)@.values.drop_last(), ..old(self)@ }),
    {
        self.s.pop().unwrap()
    }

    /// Stores the top value in the empty register, or pushes the stored one back.
    pub fn register(&mut self)
        requires
            old(self)@.register is Some || old(self)@.values.len() > 0,
        ensures
            final(self)@ == register_toggled(old(self)@),
    {
        if self.filled_register {
            self.s.push(self.register);
            self.filled_register = false;
        } else {
            self.register = self.s.pop().unwrap();
            self.filled_register = true;
        }
    }

    /// Duplicates the top value.
    pub fn extend(&mut self)
        requires
            old(self)@.values.len() > 0,
        ensures
            final(self)@ == (StackView {
                values: old(self)@.values.push(old(self)@.values.last()),
                ..old(self)@
            }),
    {
        let top = self.s[self.s.len() - 1];
        self.s.push(top);
    }

    /// Reverses the whole stack.
    pub fn reverse(&mut self)
        ensures
            final(self)@ == (StackView { values: old(self)@.values.reverse(), ..old(self)@ }),
    {
        let n = self.s.len();
        let mut out: Vec<Value> = Vec::new();
        let mut i: usize = 0;
        while i < n
            invariant
                n == self.s@.len(),
                i <= n,
                self@ == old(self)@,
                out@ =~= Seq::new(i as nat, |j: int| self.s@[n - 1 - j]),
            decreases n - i,
        {
            out.push(self.s[n - 1 - i]);
            i = i + 1;
        }
        self.s = out;
        proof {
            assert(self.s@ =~= old(self)@.values.reverse());
        }
    }

    /// Swaps the top two values.
    pub fn swap_two(&mut self)
        requires
            old(self)@.values.len() >= 2,
        ensures
            final(self)@ == (StackView { values: swapped_two(old(self)@.values), ..old(self)@ }),
    {
        let len = self.s.len();
        let a = self.s[len - 2];
        let b = self.s[len - 1];
        self.s.set(len - 2, b);
        self.s.set(len - 1, a);
        proof {
            assert(self.s@ =~= swapped_two(old(self)@.values));
        }
    }

    /// With `[1, 2, 3, 4]` the result is `[1, 4, 2, 3]`.
    pub fn swap_three(&mut self)
        requires
            old(self)@.values.len() >= 3,
        ensures
            final(self)@ == (StackView { values: rotated_three(old(self)@.values), ..old(self)@ }),
    {
        let len = self.s.len();
        let end = self.s[len - 1];
        let mid = self.s[len - 2];
        let low = self.s[len - 3];
        self.s.set(len - 1, mid);
        self.s.set(len - 2, low);
        self.s.set(len - 3, end);
        proof {
            assert(self.s@ =~= rotated_three(old(self)@.values));
        }
    }

    /// Moves the top value to the bottom.
    pub fn shift_right(&mut self)
        requires
            old(self)@.values.len() > 0,
        ensures
            final(self)@ == (StackView {
                values: seq![old(self)@.values.last()] + old(self)@.values.drop_last(),
                ..old(self)@
            }),
    {
        let end = self.s.pop().unwrap();
        self.s.insert(0, end);
        proof {
            assert(self.s@ =~= seq![old(self)@.values.last()] + old(self)@.values.drop_last());
        }
    }

    /// Moves the bottom value to the top.
    pub fn shift_left(&mut self)
        requires
            old(self)@.values.len() > 0,
        ensures
            final(self)@ == (StackView {
                values: old(self)@.values.subrange(1, old(self)@.values.len() as int).push(
                    old(self)@.values[0],
                ),
                ..old(self)@
            }),
    {
        let beg = self.s.remove(0);
        self.s.push(beg);
        proof {
            assert(self.s@ =~= old(self)@.values.subrange(1, old(self)@.values.len() as int).push(
                old(self)@.values[0],
            ));
        }
    }

    /// Removes the top `count` values and returns them as bytes, in stack order.
    pub fn get_bytes(&mut self, count: usize) -> (r: Vec<u8>)
        requires
            count <= old(self)@.values.len(),
        ensures
            ({
                let n = old(self)@.values.len() as int;
                &&& r@ == bytes_of(old(self)@.values.subrange(n - count, n))
                &&& final(self)@ == (StackView {
                    values: old(self)@.values.subrange(0, n - count),
                    ..old(self)@
                })
            }),
    {
        let len = self.s.len();
        let start = len - count;
        let mut out: Vec<u8> = Vec::new();
        let mut i: usize = start;
        while i < len
            invariant
                len == self.s@.len(),
                start <= i <= len,
                self@ == old(self)@,
                out@ =~= bytes_of(self.s@.subrange(start as int, i as int)),
            decreases len - i,
        {
            let b = self.s[i].to_u8();
            out.push(b);
            i = i + 1;
            proof {
                assert(self.s@.subrange(start as int, i as int) =~= self.s@.subrange(
                    start as int,
                    i - 1,
                ).push(self.s@[i - 1]));
            }
        }
        self.s.truncate(start);
        proof {
            assert(self.s@ =~= old(self)@.values.subrange(0, start as int));
        }
        out
    }

    /// Removes the top `count` values and returns them, in stack order.
    pub fn take_top(&mut self, count: usize) -> (r: Vec<Value>)
        requires
            count <= old(self)@.values.len(),
        ensures
            ({
                let n = old(self)@.values.len() as int;
                &&& r@ == old(self)@.values.subrange(n - count, n)
                &&& final(self)@ == (StackView {
                    values: old(self)@.values.subrange(0, n - count),
                    ..old(self)@
                })
            }),
    {
        let start = self.s.len() - count;
        let r = self.s.split_off(start);
        proof {
            assert(self.s@ =~= old(self)@.values.subrange(0, start as int));
        }
        r
    }

    /// Appends `vals` on top, in order.
    pub fn append(&mut self, vals: Vec<Value>)
        ensures
            final(self)@ == (StackView { values: old(self)@.values + vals@, ..old(self)@ }),
    {
        let mut v = vals;
        self.s.append(&mut v);
    }
}

} // verus!
