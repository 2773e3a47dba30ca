//! A stack: items are pushed and popped at the top.
use vstd::prelude::*;

verus! {

/// A last-in, first-out list.
pub struct List<T> {
    items: Vec<T>,
}

impl<T> View for List<T> {
    /// The items from the bottom of the stack to its top.
    type V = Seq<T>;

    closed spec fn view(&self) -> Seq<T> {
        self.items@
    }
}

impl<T> List<T> {
    /// An empty stack.
    pub fn new() -> (r: List<T>)
        ensures
            r@ == Seq::<T>::empty(),
    {
        List { items: Vec::new() }
    }

    /// Puts `elem` on top.
    pub fn push(&mut self, elem: T)
        ensures
            final(self)@ == old(self)@.push(elem),
    {
        self.items.push(elem);
    }

    /// Takes the top item off, if there is one.
    pub fn pop(&mut self) -> (r: Option<T>)
        ensures
            old(self)@.len() == 0 ==> r is None && final(self)@ == old(self)@,
            old(self)@.len() > 0 ==> r == Some(old(self)@.last()) && final(self)@
                == old(self)@.drop_last(),
    {
        self.items.pop()
    }

    /// The top item, if there is one.
    pub fn peek(&self) -> (r: Option<&T>)
        ensures
            self@.len() == 0 ==> r is None,
            self@.len() > 0 ==> r == Some(&self@.last()),
    {
        let n = self.items.len();
        if n == 0 {
            None
        } else {
            Some(&self.items[n - 1])
        }
    }

    /// The top item, to be changed in place, if there is one.
    pub fn peek_mut(&mut self) -> (r: Option<&mut T>)
        ensures
            old(self)@.len() == 0 ==> r is None && final(self)@ == old(self)@,
            old(self)@.len() > 0 ==> (r matches Some(x) && *x == old(self)@.last() && final(self)@
                == old(self)@.update(old(self)@.len() - 1, *final(x))),
    {
        let n = self.items.len();
        if n == 0 {
            None
        } else {
            Some(&mut self.items[n - 1])
        }
    }

    /// Turns the stack into a sequence that hands out its items from the top.
    pub fn into_iter(self) -> (r: IntoIter<T>)
        ensures
            r@ == self@,
    {
        IntoIter(self)
    }

    /// Walks the items from the top down without taking them.
    pub fn iter(&self) -> (r: Iter<'_, T>)
        ensures
            r.remaining() == self@,
    {
        Iter { items: &self.items, left: self.items.len() }
    }

    /// Walks the items from the top down, letting each be changed in place.
    pub fn iter_mut(&mut self) -> (r: IterMut<'_, T>)
        ensures
            r.remaining() == old(self)@,
    {
        IterMut { rest: self.items.as_mut_slice() }
    }
}

/// A walk over the items of a stack, from the top down, that lets each be
/// changed in place.
pub struct IterMut<'a, T> {
    rest: &'a mut [T],
}

impl<'a, T> IterMut<'a, T> {
    /// The items still to come, the next one last.
    pub closed spec fn remaining(&self) -> Seq<T> {
        self.rest@
    }

    /// The next item from the top, if any is left.
    pub fn next(&mut self) -> (r: Option<&'a mut T>)
        ensures
            old(self).remaining().len() == 0 ==> r is None,
            old(self).remaining().len() > 0 ==> (r matches Some(x) && *x == old(self).remaining().last()
                && final(self).remaining() == old(self).remaining().drop_last()),
    {
        let mut rest: &'a mut [T] = &mut [];
        std::mem::swap(&mut self.rest, &mut rest);
        let n = rest.len();
        if n == 0 {
            None
        } else {
            let (front, last) = rest.split_at_mut(n - 1);
            self.rest = front;
            last.first_mut()
        }
    }
}

/// The items of a stack, handed out from the top.
pub struct IntoIter<T>(List<T>);

impl<T> View for IntoIter<T> {
    /// The items still to come, the next one last.
    type V = Seq<T>;

    closed spec fn view(&self) -> Seq<T> {
        self.0@
    }
}

impl<T> IntoIter<T> {
    /// The next item from the top, if any is left.
    pub fn next(&mut self) -> (r: Option<T>)
        ensures
            old(self)@.len() == 0 ==> r is None && final(self)@ == old(self)@,
            old(self)@.len() > 0 ==> r == Some(old(self)@.last()) && final(self)@
                == old(self)@.drop_last(),
    {
        self.0.pop()
    }
}

/// A walk over the items of a stack, from the top down.
pub struct Iter<'a, T> {
    items: &'a Vec<T>,
    left: usize,
}

impl<'a, T> Iter<'a, T> {
    /// The items still to come, the next one last.
    pub closed spec fn remaining(&self) -> Seq<T> {
        if self.left <= self.items@.len() {
            self.items@.subrange(0, self.left as int)
        } else {
            self.items@
        }
    }

    /// The next item from the top, if any is left.
    pub fn next(&mut self) -> (r: Option<&'a T>)
        ensures
            old(self).remaining().len() == 0 ==> r is None && final(self).remaining()
                == old(self).remaining(),
            old(self).remaining().len() > 0 ==> r == Some(&old(self).remaining().last())
                && final(self).remaining() == old(self).remaining().drop_last(),
    {
        if self.left > self.items.len() {
            self.left = self.items.len();
        }
        if self.left == 0 {
            None
        } else {
            self.left = self.left - 1;
            let items: &'a Vec<T> = self.items;
            Some(&items[self.left])
        }
    }
}

} // verus!
