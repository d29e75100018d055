//! Owned character iterators for the representation-stable string type.
//!
//! The string container itself is an outside collaborator; these
//! iterators hold the characters they still have to yield and walk them
//! from either end. A draining iterator's removal of its range from the
//! source string is performed by whoever creates it; the iterator itself
//! owns only the drained characters.

use vstd::prelude::*;

verus! {

/// Relies on String::push: appends exactly the one character.
#[verifier::external_body]
fn string_push_char(s: &mut String, c: char)
    ensures
        final(s)@ == old(s)@.push(c),
{
    s.push(c);
}

/// Builds the string holding exactly the given character range.
fn chars_to_string(buf: &Vec<char>, from: usize, to: usize) -> (r: String)
    requires
        from <= to <= buf@.len(),
    ensures
        r@ == buf@.subrange(from as int, to as int),
{
    let mut r = String::new();
    let mut i: usize = from;
    proof {
        assert(r@ =~= buf@.subrange(from as int, from as int));
    }
    while i < to
        invariant
            from <= i <= to <= buf@.len(),
            r@ == buf@.subrange(from as int, i as int),
        decreases to - i,
    {
        string_push_char(&mut r, buf[i]);
        proof {
            assert(buf@.subrange(from as int, i as int).push(buf@[i as int]) =~= buf@.subrange(
                from as int,
                i as int + 1,
            ));
        }
        i = i + 1;
    }
    r
}

/// An iterator over the characters a string owned by value still holds.
pub struct IntoIter {
    pub buf: Vec<char>,
    pub front: usize,
    pub back: usize,
}

impl IntoIter {
    /// The characters not yet yielded.
    pub open spec fn remaining(&self) -> Seq<char> {
        self.buf@.subrange(self.front as int, self.back as int)
    }

    /// The iterator's bounds lie within its buffer.
    pub open spec fn wf(&self) -> bool {
        self.front <= self.back <= self.buf@.len()
    }

    /// An iterator over all the given characters.
    pub fn from_chars(buf: Vec<char>) -> (r: IntoIter)
        ensures
            r.wf(),
            r.remaining() == buf@,
    {
        let n = buf.len();
        let r = IntoIter { buf, front: 0, back: n };
        proof {
            assert(r.remaining() =~= r.buf@);
        }
        r
    }

    /// The characters not yet yielded, as a string.
    pub fn as_str(&self) -> (r: String)
        requires
            self.wf(),
        ensures
            r@ == self.remaining(),
    {
        chars_to_string(&self.buf, self.front, self.back)
    }

    /// Yields the first remaining character, or nothing when none are
    /// left.
    pub fn next(&mut self) -> (r: Option<char>)
        requires
            old(self).wf(),
        ensures
            final(self).wf(),
            old(self).remaining().len() == 0 ==> (r is None && *final(self) == *old(self)),
            old(self).remaining().len() > 0 ==> {
                &&& r == Some(old(self).remaining()[0])
                &&& final(self).remaining() == old(self).remaining().drop_first()
            },
    {
        if self.front < self.back {
            let c = self.buf[self.front];
            self.front = self.front + 1;
            proof {
                assert(self.remaining() =~= old(self).remaining().drop_first());
            }
            Some(c)
        } else {
            None
        }
    }

    /// Yields the last remaining character, or nothing when none are
    /// left.
    pub fn next_back(&mut self) -> (r: Option<char>)
        requires
            old(self).wf(),
        ensures
            final(self).wf(),
            old(self).remaining().len() == 0 ==> (r is None && *final(self) == *old(self)),
            old(self).remaining().len() > 0 ==> {
                &&& r == Some(old(self).remaining().last())
                &&& final(self).remaining() == old(self).remaining().drop_last()
            },
    {
        if self.front < self.back {
            let c = self.buf[self.back - 1];
            self.back = self.back - 1;
            proof {
                assert(self.remaining() =~= old(self).remaining().drop_last());
            }
            Some(c)
        } else {
            None
        }
    }
}

/// An iterator over the characters drained out of a range of a string.
pub struct Drain {
    pub buf: Vec<char>,
    pub front: usize,
    pub back: usize,
}

impl Drain {
    /// The drained characters not yet yielded.
    pub open spec fn remaining(&self) -> Seq<char> {
        self.buf@.subrange(self.front as int, self.back as int)
    }

    /// The iterator's bounds lie within its buffer.
    pub open spec fn wf(&self) -> bool {
        self.front <= self.back <= self.buf@.len()
    }

    /// A draining iterator over the given removed characters.
    pub fn from_removed(buf: Vec<char>) -> (r: Drain)
        ensures
            r.wf(),
            r.remaining() == buf@,
    {
        let n = buf.len();
        let r = Drain { buf, front: 0, back: n };
        proof {
            assert(r.remaining() =~= r.buf@);
        }
        r
    }

    /// Yields the first remaining drained character.
    pub fn next(&mut self) -> (r: Option<char>)
        requires
            old(self).wf(),
        ensures
            final(self).wf(),
            old(self).remaining().len() == 0 ==> (r is None && *final(self) == *old(self)),
            old(self).remaining().len() > 0 ==> {
                &&& r == Some(old(self).remaining()[0])
                &&& final(self).remaining() == old(self).remaining().drop_first()
            },
    {
        if self.front < self.back {
            let c = self.buf[self.front];
            self.front = self.front + 1;
            proof {
                assert(self.remaining() =~= old(self).remaining().drop_first());
            }
            Some(c)
        } else {
            None
        }
    }

    /// Yields the last remaining drained character.
    pub fn next_back(&mut self) -> (r: Option<char>)
        requires
            old(self).wf(),
        ensures
            final(self).wf(),
            old(self).remaining().len() == 0 ==> (r is None && *final(self) == *old(self)),
            old(self).remaining().len() > 0 ==> {
                &&& r == Some(old(self).remaining().last())
                &&& final(self).remaining() == old(self).remaining().drop_last()
            },
    {
        if self.front < self.back {
            let c = self.buf[self.back - 1];
            self.back = self.back - 1;
            proof {
                assert(self.remaining() =~= old(self).remaining().drop_last());
            }
            Some(c)
        } else {
            None
        }
    }
}

} // verus!
