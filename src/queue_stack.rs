//! A first-in first-out queue, and a last-in first-out stack built from two
//! such queues.

use vstd::prelude::*;

verus! {

/// A first-in first-out queue; its view lists the items from front to back.
#[derive(Debug)]
pub struct Queue<T> {
    elements: Vec<T>,
}

impl<T> View for Queue<T> {
    type V = Seq<T>;

    closed spec fn view(&self) -> Seq<T> {
        self.elements@
    }
}

impl<T> Queue<T> {
    /// An empty queue.
    pub fn new() -> (q: Queue<T>)
        ensures
            q@ == Seq::<T>::empty(),
    {
        Queue { elements: Vec::new() }
    }

    /// Puts `value` at the back.
    pub fn enqueue(&mut self, value: T)
        ensures
            final(self)@ == old(self)@.push(value),
    {
        self.elements.push(value);
    }

    /// Takes the item at the front, or fails on an empty queue.
    pub fn dequeue(&mut self) -> (r: Result<T, &str>)
        ensures
            old(self)@.len() > 0 ==> r == Ok::<T, &str>(old(self)@[0]) && final(self)@ == old(self)@.drop_first(),
            old(self)@.len() == 0 ==> r.is_err() && r->Err_0@ == "Queue is empty"@ && final(self)@ == old(self)@,
    {
        if !self.elements.is_empty() {
            let r = self.elements.remove(0);
            assert(self.elements@ =~= old(self)@.drop_first());
            Ok(r)
        } else {
            Err("Queue is empty")
        }
    }

    /// The item at the front, or an error on an empty queue.
    pub fn peek(&self) -> (r: Result<&T, &str>)
        ensures
            self@.len() > 0 ==> r == Ok::<&T, &str>(&self@[0]),
            self@.len() == 0 ==> r.is_err() && r->Err_0@ == "Queue is empty"@,
    {
        self.elements.first().ok_or("Queue is empty")
    }

    /// The number of items.
    pub fn size(&self) -> (n: usize)
        ensures
            n == self@.len(),
    {
        self.elements.len()
    }

    /// Whether the queue holds no item.
    pub fn is_empty(&self) -> (b: bool)
        ensures
            b == (self@.len() == 0),
    {
        self.elements.is_empty()
    }
}

impl<T> Default for Queue<T> {
    fn default() -> (q: Queue<T>)
        ensures
            q@ == Seq::<T>::empty(),
    {
        Queue::new()
    }
}

/// A last-in first-out stack kept in two queues: the first holds the items
/// from the top down, the second is only used while pushing.
#[allow(non_camel_case_types)]
pub struct myStack<T> {
    q1: Queue<T>,
    q2: Queue<T>,
}

impl<T> View for myStack<T> {
    type V = Seq<T>;

    /// The items from the top of the stack down.
    closed spec fn view(&self) -> Seq<T> {
        self.q1@
    }
}

impl<T> myStack<T> {
    /// The spare queue is empty between operations.
    pub closed spec fn well_formed(&self) -> bool {
        self.q2@.len() == 0
    }

    /// An empty stack.
    pub fn new() -> (s: Self)
        ensures
            s.well_formed(),
            s@ == Seq::<T>::empty(),
    {
        Self { q1: Queue::new(), q2: Queue::new() }
    }

    /// Puts `elem` on top: it goes into the spare queue, the other items
    /// follow it there, and the two queues trade places.
    pub fn push(&mut self, elem: T)
        requires
            old(self).well_formed(),
        ensures
            final(self).well_formed(),
            final(self)@ == seq![elem] + old(self)@,
    {
        let ghost items = old(self)@;
        self.q2.enqueue(elem);
        while !self.q1.is_empty()
            invariant
                self.q2@ + self.q1@ == seq![elem] + items,
            decreases self.q1@.len(),
        {
            let ghost before1 = self.q1@;
            let ghost before2 = self.q2@;
            let item = self.q1.dequeue().unwrap();
            self.q2.enqueue(item);
            assert(self.q2@ + self.q1@ =~= before2 + before1);
        }
        assert(self.q2@ =~= seq![elem] + items);
        std::mem::swap(&mut self.q1, &mut self.q2);
    }

    /// Takes the top item, or fails on an empty stack.
    pub fn pop(&mut self) -> (r: Result<T, &str>)
        requires
            old(self).well_formed(),
        ensures
            final(self).well_formed(),
            old(self)@.len() > 0 ==> r == Ok::<T, &str>(old(self)@[0]) && final(self)@ == old(self)@.drop_first(),
            old(self)@.len() == 0 ==> r.is_err() && r->Err_0@ == "Stack is empty"@ && final(self)@ == old(self)@,
    {
        match self.q1.dequeue() {
            Ok(item) => Ok(item),
            Err(_) => Err("Stack is empty"),
        }
    }

    /// Whether the stack holds no item.
    pub fn is_empty(&self) -> (b: bool)
        ensures
            b == (self@.len() == 0),
    {
        self.q1.is_empty()
    }
}

} // verus!
