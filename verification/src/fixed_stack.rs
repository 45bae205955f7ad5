//! Fixed-capacity stacks for bounded evaluation scratch space.
//!
//! All operations are panic-free and report overflow as an explicit error.

use vstd::prelude::*;

use crate::error::PolicyError;

verus! {

/// A stack that never holds more than `N` items.
///
/// `push` on a full stack fails with `PolicyError::EvalStackOverflow` and
/// leaves the stack unchanged.
#[derive(Debug)]
pub struct FixedStack<T, const N: usize> {
    buf: Vec<T>,
}

impl<T, const N: usize> View for FixedStack<T, N> {
    type V = Seq<T>;

    closed spec fn view(&self) -> Seq<T> {
        self.buf@
    }
}

impl<T, const N: usize> FixedStack<T, N> {
    /// Create a new empty fixed stack.
    pub fn new() -> (s: Self)
        ensures
            s@ == Seq::<T>::empty(),
    {
        FixedStack { buf: Vec::new() }
    }

    /// Push an item onto the stack; fails (leaving the stack unchanged) when
    /// `N` items are already held.
    pub fn push(&mut self, value: T) -> (r: Result<(), PolicyError>)
        ensures
            old(self)@.len() < N ==> r == Ok::<(), PolicyError>(()) && final(self)@ == old(self)@.push(
                value,
            ),
            old(self)@.len() >= N ==> r == Err::<(), PolicyError>(
                PolicyError::EvalStackOverflow { max: N },
            ) && final(self)@ == old(self)@,
    {
        if self.buf.len() >= N {
            return Err(PolicyError::EvalStackOverflow { max: N });
        }
        self.buf.push(value);
        Ok(())
    }

    /// Pop the most recently pushed item, or `None` when empty.
    pub fn pop(&mut self) -> (r: Option<T>)
        ensures
            old(self)@.len() == 0 ==> r is None && final(self)@ == old(self)@,
            old(self)@.len() > 0 ==> r == Some(old(self)@.last()) && final(self)@ == old(
                self,
            )@.drop_last(),
    {
        if self.buf.len() == 0 {
            return None;
        }
        self.buf.pop()
    }

    /// The current number of items.
    pub fn len(&self) -> (l: usize)
        ensures
            l == self@.len(),
    {
        self.buf.len()
    }

    /// True iff no item is held.
    pub fn is_empty(&self) -> (r: bool)
        ensures
            r == (self@.len() == 0),
    {
        self.buf.len() == 0
    }
}

/// A fixed-capacity stack restricted to `Default + Copy` items.
///
/// It shares the contract of [`FixedStack`]; the extra bounds mirror uses
/// whose items are plain copyable scalars.
#[derive(Debug)]
pub struct SafeFixedStack<T: Default + Copy, const N: usize> {
    buf: Vec<T>,
}

impl<T: Default + Copy, const N: usize> View for SafeFixedStack<T, N> {
    type V = Seq<T>;

    closed spec fn view(&self) -> Seq<T> {
        self.buf@
    }
}

impl<T: Default + Copy, const N: usize> SafeFixedStack<T, N> {
    /// Create a new empty safe fixed stack.
    pub fn new() -> (s: Self)
        ensures
            s@ == Seq::<T>::empty(),
    {
        SafeFixedStack { buf: Vec::new() }
    }

    /// Push an item onto the stack; fails (leaving the stack unchanged) when
    /// `N` items are already held.
    pub fn push(&mut self, value: T) -> (r: Result<(), PolicyError>)
        ensures
            old(self)@.len() < N ==> r == Ok::<(), PolicyError>(()) && final(self)@ == old(self)@.push(
                value,
            ),
            old(self)@.len() >= N ==> r == Err::<(), PolicyError>(
                PolicyError::EvalStackOverflow { max: N },
            ) && final(self)@ == old(self)@,
    {
        if self.buf.len() >= N {
            return Err(PolicyError::EvalStackOverflow { max: N });
        }
        self.buf.push(value);
        Ok(())
    }

    /// Pop the most recently pushed item, or `None` when empty.
    pub fn pop(&mut self) -> (r: Option<T>)
        ensures
            old(self)@.len() == 0 ==> r is None && final(self)@ == old(self)@,
            old(self)@.len() > 0 ==> r == Some(old(self)@.last()) && final(self)@ == old(
                self,
            )@.drop_last(),
    {
        if self.buf.len() == 0 {
            return None;
        }
        self.buf.pop()
    }

    /// The current number of items.
    pub fn len(&self) -> (l: usize)
        ensures
            l == self@.len(),
    {
        self.buf.len()
    }

    /// True iff no item is held.
    pub fn is_empty(&self) -> (r: bool)
        ensures
            r == (self@.len() == 0),
    {
        self.buf.len() == 0
    }
}

impl<T: Default + Copy, const N: usize> Default for SafeFixedStack<T, N> {
    /// An empty stack.
    fn default() -> (s: Self)
        ensures
            s@ == Seq::<T>::empty(),
    {
        Self::new()
    }
}

} // verus!
