//! A first-in first-out queue of copyable items.
//!
//! The queue is a singly linked chain in which each push wraps the previous
//! chain, so the oldest item sits deepest. Its view is the sequence of items
//! in arrival order: the oldest item first.

use vstd::prelude::*;

verus! {

/// The chain of queue cells. A `Node` holds the newest item and the rest of
/// the chain.
pub enum InnerQueue<T> {
    Node(T, Box<InnerQueue<T>>),
    Null,
}

impl<T> InnerQueue<T> {
    /// The items of the chain in arrival order: the oldest first.
    pub open spec fn items(&self) -> Seq<T>
        decreases self,
    {
        match self {
            InnerQueue::Null => Seq::empty(),
            InnerQueue::Node(item, next) => (**next).items().push(*item),
        }
    }
}

impl<T> View for InnerQueue<T> {
    type V = Seq<T>;

    open spec fn view(&self) -> Seq<T> {
        self.items()
    }
}

impl<T: Copy> InnerQueue<T> {
    /// The empty chain.
    pub fn new() -> (r: Self)
        ensures
            r@ == Seq::<T>::empty(),
    {
        InnerQueue::Null
    }

    /// A chain of one item.
    pub fn from_item(i: T) -> (r: Self)
        ensures
            r@ == seq![i],
    {
        let r = InnerQueue::Node(i, Box::new(InnerQueue::Null));
        proof {
            assert(InnerQueue::<T>::Null.items() =~= Seq::<T>::empty());
            assert(r@ =~= seq![i]);
        }
        r
    }

    /// True exactly when the chain holds nothing.
    pub fn is_null(&self) -> (r: bool)
        ensures
            r == (self@.len() == 0),
    {
        match self {
            InnerQueue::Node(_, _) => false,
            InnerQueue::Null => true,
        }
    }

    /// Empties the chain.
    pub fn set_null(&mut self)
        ensures
            final(self)@ == Seq::<T>::empty(),
    {
        *self = InnerQueue::Null;
    }

    /// Returns some item of the chain accepted by `selector`, scanning from
    /// the newest item; `None` when the scan accepted none.
    pub fn find<F: Fn(&T) -> bool>(&self, selector: &F) -> (r: Option<T>)
        requires
            forall|t: &T| call_requires(*selector, (t,)),
        ensures
            r matches Some(x) ==> self@.contains(x) && call_ensures(*selector, (&x,), true),
        decreases self,
    {
        match self {
            InnerQueue::Node(item, next) => {
                if selector(item) {
                    proof {
                        assert(self@[self@.len() - 1] == *item);
                        assert(self@.contains(*item));
                    }
                    Some(*item)
                } else {
                    let r = next.find(selector);
                    proof {
                        if let Some(x) = r {
                            let i = choose|i: int| 0 <= i < next@.len() && next@[i] == x;
                            assert(self@[i] == x);
                            assert(self@.contains(x));
                        }
                    }
                    r
                }
            },
            InnerQueue::Null => None,
        }
    }

    /// Wraps a chain in a new newest item.
    pub fn push_ext(ext: Self, i: T) -> (r: Self)
        ensures
            r@ == ext@.push(i),
    {
        InnerQueue::Node(i, Box::new(ext))
    }

    /// Removes and returns the oldest item; `None` on an empty chain.
    pub fn pop(&mut self) -> (r: Option<T>)
        ensures
            old(self)@.len() == 0 ==> r is None && final(self)@ == old(self)@,
            old(self)@.len() > 0 ==> r == Some(old(self)@[0]) && final(self)@ == old(
                self,
            )@.drop_first(),
        decreases old(self)@.len(),
    {
        match self {
            InnerQueue::Node(it, next) => {
                if next.is_null() {
                    let copy = *it;
                    proof {
                        assert(old(self)@ =~= seq![copy]);
                    }
                    *self = InnerQueue::Null;
                    proof {
                        assert(final(self)@ =~= old(self)@.drop_first());
                    }
                    Some(copy)
                } else {
                    let r = next.pop();
                    proof {
                        assert(final(self)@ =~= old(self)@.drop_first());
                    }
                    r
                }
            },
            InnerQueue::Null => None,
        }
    }

    /// Returns the oldest item without removing it; `None` on an empty
    /// chain.
    pub fn watch(&self) -> (r: Option<T>)
        ensures
            self@.len() == 0 ==> r is None,
            self@.len() > 0 ==> r == Some(self@[0]),
        decreases self,
    {
        match self {
            InnerQueue::Node(it, next) => {
                if next.is_null() {
                    Some(*it)
                } else {
                    next.watch()
                }
            },
            InnerQueue::Null => None,
        }
    }
}

/// A first-in first-out queue; its view lists the items in arrival order,
/// the oldest first.
pub struct Queue<T> {
    inner: InnerQueue<T>,
}

impl<T> View for Queue<T> {
    type V = Seq<T>;

    closed spec fn view(&self) -> Seq<T> {
        self.inner@
    }
}

impl<T: Copy> Queue<T> {
    /// The empty queue.
    pub fn new() -> (r: Self)
        ensures
            r@ == Seq::<T>::empty(),
    {
        Queue { inner: InnerQueue::new() }
    }

    /// A queue of one item.
    pub fn from_item(i: T) -> (r: Self)
        ensures
            r@ == seq![i],
    {
        Queue { inner: InnerQueue::from_item(i) }
    }

    /// True exactly when the queue holds nothing.
    pub fn empty(&self) -> (r: bool)
        ensures
            r == (self@.len() == 0),
    {
        self.inner.is_null()
    }

    /// Removes every item.
    pub fn clear(&mut self)
        ensures
            final(self)@ == Seq::<T>::empty(),
    {
        self.inner.set_null();
    }

    /// Returns some item accepted by `selector`, scanning from the newest
    /// item; `None` when the scan accepted none.
    pub fn find<F: Fn(&T) -> bool>(&self, selector: &F) -> (r: Option<T>)
        requires
            forall|t: &T| call_requires(*selector, (t,)),
        ensures
            r matches Some(x) ==> self@.contains(x) && call_ensures(*selector, (&x,), true),
    {
        self.inner.find(selector)
    }

    /// Appends an item at the tail of the queue.
    pub fn push(&mut self, i: T)
        ensures
            final(self)@ == old(self)@.push(i),
    {
        let mut chain = InnerQueue::Null;
        core::mem::swap(&mut chain, &mut self.inner);
        self.inner = InnerQueue::push_ext(chain, i);
    }

    /// Removes and returns the item at the head of the queue; `None` when
    /// the queue is empty.
    pub fn consume(&mut self) -> (r: Option<T>)
        ensures
            old(self)@.len() == 0 ==> r is None && final(self)@ == old(self)@,
            old(self)@.len() > 0 ==> r == Some(old(self)@[0]) && final(self)@ == old(
                self,
            )@.drop_first(),
    {
        self.inner.pop()
    }

    /// Returns the item at the head of the queue without removing it;
    /// `None` when the queue is empty.
    pub fn watch(&self) -> (r: Option<T>)
        ensures
            self@.len() == 0 ==> r is None,
            self@.len() > 0 ==> r == Some(self@[0]),
    {
        self.inner.watch()
    }
}

} // verus!
