//! Small helpers: items together with whether each is the last, and items
//! written one after the other with a separator between them.

use vstd::prelude::*;
use crate::text::push_slice;

verus! {

/// The items of a list, each together with whether it is the last.
pub struct IsLast<'a, T> {
    items: &'a Vec<T>,
    next: usize,
}

impl<'a, T> IsLast<'a, T> {
    /// The items that are still to come.
    pub closed spec fn remaining(self) -> Seq<T> {
        if self.next <= self.items@.len() {
            self.items@.skip(self.next as int)
        } else {
            Seq::empty()
        }
    }

    /// The items of `items`, from the first on.
    pub fn new(items: &'a Vec<T>) -> (res: Self)
        ensures
            res.remaining() == items@,
    {
        let res = IsLast { items, next: 0 };
        assert(res.remaining() =~= items@);
        res
    }

    /// The next item, and whether it is the last.
    pub fn next(&mut self) -> (res: Option<(&'a T, bool)>)
        ensures
            match res {
                Some((item, last)) => old(self).remaining().len() > 0 && *item == old(
                    self,
                ).remaining()[0] && last == (old(self).remaining().len() == 1)
                    && final(self).remaining() == old(self).remaining().skip(1),
                None => old(self).remaining().len() == 0 && final(self).remaining() == old(
                    self,
                ).remaining(),
            },
    {
        if self.next < self.items.len() {
            let item = &self.items[self.next];
            let last = self.next + 1 == self.items.len();
            self.next = self.next + 1;
            assert(self.remaining() =~= old(self).remaining().skip(1));
            Some((item, last))
        } else {
            None
        }
    }
}

/// The items with `sep` between each two of them.
pub open spec fn joined(items: Seq<Vec<u8>>, sep: Seq<u8>) -> Seq<u8>
    decreases items.len(),
{
    if items.len() == 0 {
        Seq::empty()
    } else if items.len() == 1 {
        items[0]@
    } else {
        joined(items.drop_last(), sep) + sep + items.last()@
    }
}

/// Items that are written one after the other with a separator between
/// them.
pub struct PrintIteratorSep {
    pub iter: Vec<Vec<u8>>,
    pub sep: Vec<u8>,
}

impl PrintIteratorSep {
    /// The items `iter`, to be written with `sep` between them.
    pub fn new(iter: Vec<Vec<u8>>, sep: Vec<u8>) -> (res: Self)
        ensures
            res.iter == iter,
            res.sep == sep,
    {
        Self { iter, sep }
    }

    /// The items with the separator between each two of them.
    pub fn render(&self) -> (out: Vec<u8>)
        ensures
            out@ == joined(self.iter@, self.sep@),
    {
        let mut out: Vec<u8> = Vec::new();
        let mut items = IsLast::new(&self.iter);
        let ghost mut done: int = 0;
        assert(self.iter@.take(0) =~= Seq::<Vec<u8>>::empty());
        loop
            invariant
                0 <= done <= self.iter@.len(),
                items.remaining() == self.iter@.skip(done),
                done < self.iter@.len() ==> out@ == joined(self.iter@.take(done), self.sep@) + (
                if done > 0 {
                    self.sep@
                } else {
                    Seq::empty()
                }),
                done == self.iter@.len() ==> out@ == joined(self.iter@, self.sep@),
            decreases self.iter@.len() - done,
        {
            match items.next() {
                None => {
                    return out;
                },
                Some((item, last)) => {
                    assert(*item == self.iter@[done]);
                    let ghost before = out@;
                    push_slice(&mut out, item.as_slice(), 0, item.len());
                    assert(item@.subrange(0, item@.len() as int) =~= item@);
                    assert(self.iter@.take(done + 1).drop_last() =~= self.iter@.take(done));
                    assert(out@ =~= joined(self.iter@.take(done + 1), self.sep@));
                    if !last {
                        push_slice(&mut out, self.sep.as_slice(), 0, self.sep.len());
                        assert(self.sep@.subrange(0, self.sep@.len() as int) =~= self.sep@);
                    } else {
                        assert(self.iter@.take(done + 1) =~= self.iter@);
                    }
                    proof {
                        assert(self.iter@.skip(done).skip(1) =~= self.iter@.skip(done + 1));
                        done = done + 1;
                    }
                },
            }
        }
    }
}

} // verus!
