//! Pull-based sequences and a lookahead buffer in front of them.

use crate::helper::text::chars_of;
use std::collections::VecDeque;
use vstd::prelude::*;

verus! {

/// A finite sequence that hands out its items one at a time, front first.
///
/// `remaining` is the mathematical content: the views of the items that are
/// still to come, in order.
pub trait Source {
    type Item: View;

    /// The invariant that every operation keeps.
    spec fn wf(&self) -> bool;

    /// Views of the items not yet handed out.
    spec fn remaining(&self) -> Seq<<Self::Item as View>::V>;

    /// Hands out the front item, or `None` once the sequence is used up.
    fn next(&mut self) -> (r: Option<Self::Item>)
        requires
            old(self).wf(),
        ensures
            final(self).wf(),
            match r {
                Some(item) => {
                    &&& old(self).remaining().len() > 0
                    &&& item@ == old(self).remaining()[0]
                    &&& final(self).remaining() == old(self).remaining().drop_first()
                },
                None => {
                    &&& old(self).remaining().len() == 0
                    &&& final(self).remaining().len() == 0
                },
            },
    ;
}

/// The characters of a text, handed out in order.
pub struct CharSource {
    chars: Vec<char>,
    pos: usize,
}

impl CharSource {
    /// A source over the characters of `text`.
    pub fn new(text: &str) -> (r: Self)
        ensures
            r.wf(),
            r.remaining() == text@,
    {
        let chars = chars_of(text);
        let r = CharSource { chars, pos: 0 };
        assert(r.remaining() =~= text@);
        r
    }

    /// A source over the characters of `chars`.
    pub fn from_vec(chars: Vec<char>) -> (r: Self)
        ensures
            r.wf(),
            r.remaining() == chars@,
    {
        let r = CharSource { chars, pos: 0 };
        assert(r.remaining() =~= chars@);
        r
    }
}

impl Source for CharSource {
    type Item = char;

    open spec fn wf(&self) -> bool {
        self.position() <= self.all().len()
    }

    open spec fn remaining(&self) -> Seq<char> {
        self.all().skip(self.position() as int)
    }

    fn next(&mut self) -> (r: Option<char>) {
        if self.pos < self.chars.len() {
            let c = self.chars[self.pos];
            self.pos = self.pos + 1;
            assert(self.remaining() =~= old(self).remaining().drop_first());
            Some(c)
        } else {
            None
        }
    }
}

impl CharSource {
    /// Every character of the text, consumed or not.
    pub closed spec fn all(&self) -> Seq<char> {
        self.chars@
    }

    /// How many characters have been handed out.
    pub closed spec fn position(&self) -> nat {
        self.pos as nat
    }
}

/// A lookahead buffer in front of a source: items can be inspected before
/// they are taken, and taken items can be put back.
///
/// The view is the sequence still to be delivered: what is buffered, then
/// what the source still holds.
pub struct PeekIter<S: Source> {
    buffer: VecDeque<S::Item>,
    source: S,
}

impl<S: Source> View for PeekIter<S> {
    type V = Seq<<S::Item as View>::V>;

    closed spec fn view(&self) -> Self::V {
        self.buffer@.map_values(|item: S::Item| item@) + self.source.remaining()
    }
}

impl<S: Source> PeekIter<S> {
    /// The underlying source is well formed.
    pub closed spec fn wf(&self) -> bool {
        self.source.wf()
    }

    /// How many items have been pulled out of the source and are held here.
    pub closed spec fn buffered(&self) -> nat {
        self.buffer@.len()
    }

    /// A buffer in front of `iter`, with nothing pulled out of it yet.
    pub fn new(iter: S) -> (r: Self)
        requires
            iter.wf(),
        ensures
            r.wf(),
            r@ == iter.remaining(),
            r.buffered() == 0,
    {
        let r = PeekIter { buffer: VecDeque::new(), source: iter };
        assert(r@ =~= iter.remaining());
        r
    }

    /// Pulls items out of the source until `num_spots` of them are buffered,
    /// or the source is used up. Fails with the number of items that exist
    /// when there are fewer than `num_spots`. What is still to be delivered
    /// does not change.
    pub fn fill_buffer(&mut self, num_spots: usize) -> (r: Result<(), usize>)
        requires
            old(self).wf(),
        ensures
            final(self).wf(),
            final(self)@ == old(self)@,
            match r {
                Ok(_) => {
                    &&& num_spots <= old(self)@.len()
                    &&& final(self).buffered() == if old(self).buffered() >= num_spots {
                        old(self).buffered()
                    } else {
                        num_spots as nat
                    }
                },
                Err(n) => {
                    &&& n == old(self)@.len()
                    &&& n < num_spots
                    &&& final(self).buffered() == n
                },
            },
    {
        let mut n = self.buffer.len();
        while n < num_spots
            invariant
                self.wf(),
                self@ == old(self)@,
                n == self.buffer@.len(),
                n >= old(self).buffered(),
                n > old(self).buffered() ==> n <= num_spots,
            decreases num_spots - n,
        {
            match self.source.next() {
                Some(item) => {
                    self.buffer.push_back(item);
                    assert(self@ =~= old(self)@);
                },
                None => {
                    assert(self@ =~= old(self)@);
                    return Err(n);
                },
            }
            n = n + 1;
        }
        Ok(())
    }

    /// Looks at the item `index` places ahead (0 is the next one) without
    /// taking it. `None` when fewer than `index + 1` items are left.
    pub fn peek(&mut self, index: usize) -> (r: Option<&S::Item>)
        requires
            old(self).wf(),
            index < usize::MAX,
        ensures
            final(self).wf(),
            final(self)@ == old(self)@,
            match r {
                Some(item) => index < old(self)@.len() && item@ == old(self)@[index as int],
                None => index >= old(self)@.len(),
            },
            final(self).buffered() == if index < old(self).buffered() {
                old(self).buffered()
            } else if index < old(self)@.len() {
                (index + 1) as nat
            } else {
                old(self)@.len()
            },
    {
        match self.fill_buffer(index + 1) {
            Ok(_) => Some(&self.buffer[index]),
            Err(_) => None,
        }
    }

    /// Puts `item` in front of everything else.
    pub fn put_back(&mut self, item: S::Item)
        requires
            old(self).wf(),
        ensures
            final(self).wf(),
            final(self)@ == seq![item@] + old(self)@,
            final(self).buffered() == old(self).buffered() + 1,
    {
        self.buffer.push_front(item);
        assert(self@ =~= seq![item@] + old(self)@);
    }

    /// Takes the next item if `predicate` holds of it, and leaves everything
    /// in place otherwise.
    pub fn next_if<P>(&mut self, predicate: P) -> (r: Option<S::Item>) where
        P: FnOnce(&S::Item) -> bool,

        requires
            old(self).wf(),
            forall|item: &S::Item| #[trigger] predicate.requires((item,)),
        ensures
            final(self).wf(),
            match r {
                Some(item) => {
                    &&& old(self)@.len() > 0
                    &&& item@ == old(self)@[0]
                    &&& predicate.ensures((&item,), true)
                    &&& final(self)@ == old(self)@.drop_first()
                },
                None => {
                    &&& final(self)@ == old(self)@
                    &&& old(self)@.len() > 0 ==> exists|item: S::Item|
                        item@ == old(self)@[0] && #[trigger] predicate.ensures((&item,), false)
                },
            },
            final(self).buffered() == if r is Some {
                if old(self).buffered() > 0 {
                    (old(self).buffered() - 1) as nat
                } else {
                    0
                }
            } else if old(self).buffered() == 0 && old(self)@.len() > 0 {
                1
            } else {
                old(self).buffered()
            },
    {
        let wanted = match self.fill_buffer(1) {
            Ok(_) => predicate(&self.buffer[0]),
            Err(_) => false,
        };
        let ghost front = self.buffer@;
        if wanted {
            let r = self.buffer.pop_front();
            assert(self@ =~= old(self)@.drop_first());
            r
        } else {
            assert(old(self)@.len() > 0 ==> front[0]@ == old(self)@[0] && predicate.ensures(
                (&front[0],),
                false,
            ));
            None
        }
    }
}

impl<S: Source> Source for PeekIter<S> {
    type Item = S::Item;

    open spec fn wf(&self) -> bool {
        PeekIter::wf(self)
    }

    open spec fn remaining(&self) -> Seq<<S::Item as View>::V> {
        self@
    }

    /// Takes the next item: the front of the buffer where it holds any,
    /// else the next item of the source.
    fn next(&mut self) -> (r: Option<S::Item>)
        ensures
            final(self).buffered() == if old(self).buffered() > 0 {
                (old(self).buffered() - 1) as nat
            } else {
                0
            },
    {
        if self.buffer.len() > 0 {
            let r = self.buffer.pop_front();
            assert(self@ =~= old(self)@.drop_first());
            r
        } else {
            let r = self.source.next();
            assert(self@ =~= self.source.remaining());
            assert(old(self)@ =~= old(self).source.remaining());
            r
        }
    }
}

} // verus!
