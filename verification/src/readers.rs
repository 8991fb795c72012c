//! Response bodies: readable sources that declare their exact length.

use vstd::prelude::*;
use vstd::slice::{slice_subrange, slice_to_vec};
use vstd::string::StringSliceAdditionalSpecFns;
use vstd::utf8::encode_utf8;

verus! {

/// A response body: it declares its length up front and then produces
/// exactly that many bytes, in order.
pub trait ContentLength {
    /// The bytes the body produces in total.
    spec fn content(&self) -> Seq<u8>;

    /// How many bytes have been produced so far.
    spec fn position(&self) -> nat;

    /// The declared length of the body.
    fn len(&self) -> (n: usize)
        ensures
            n == self.content().len(),
    ;

    /// Produces up to `max` more bytes from the current position.
    fn read_chunk(&mut self, max: usize) -> (out: Vec<u8>)
        requires
            old(self).position() <= old(self).content().len(),
        ensures
            final(self).content() == old(self).content(),
            out@ == old(self).content().subrange(
                old(self).position() as int,
                old(self).position() + out@.len() as int,
            ),
            final(self).position() == old(self).position() + out@.len(),
            out@.len() as int == if max as int <= old(self).content().len() - old(self).position() {
                max as int
            } else {
                old(self).content().len() - old(self).position()
            },
    ;
}

/// The empty body.
pub struct NoOp;

impl ContentLength for NoOp {
    open spec fn content(&self) -> Seq<u8> {
        Seq::empty()
    }

    open spec fn position(&self) -> nat {
        0
    }

    fn len(&self) -> (n: usize) {
        0
    }

    fn read_chunk(&mut self, max: usize) -> (out: Vec<u8>) {
        let out: Vec<u8> = Vec::new();
        proof {
            assert(out@ =~= self.content().subrange(0, 0));
        }
        out
    }
}

impl Default for NoOp {
    /// The empty body.
    fn default() -> (r: NoOp)
        ensures
            r.content() == Seq::<u8>::empty(),
            r.position() == 0,
    {
        NoOp
    }
}

/// A body over the bytes of a string, produced from the start.
pub struct Text {
    v: String,
    pos: usize,
}

impl Text {
    /// A body holding the bytes of `value`.
    pub fn from(value: String) -> (t: Text)
        ensures
            t.content() == encode_utf8(value@),
            t.position() == 0,
    {
        Text { v: value, pos: 0 }
    }
}

impl ContentLength for Text {
    closed spec fn content(&self) -> Seq<u8> {
        encode_utf8(self.v@)
    }

    closed spec fn position(&self) -> nat {
        self.pos as nat
    }

    fn len(&self) -> (n: usize) {
        let bytes = self.v.as_str().as_bytes();
        bytes.len()
    }

    fn read_chunk(&mut self, max: usize) -> (out: Vec<u8>) {
        let bytes = self.v.as_str().as_bytes();
        let total = bytes.len();
        let remaining = total - self.pos;
        let take = if max <= remaining {
            max
        } else {
            remaining
        };
        let chunk = slice_subrange(bytes, self.pos, self.pos + take);
        let out = slice_to_vec(chunk);
        self.pos = self.pos + take;
        out
    }
}

impl Default for Text {
    /// An empty text body.
    fn default() -> (r: Text)
        ensures
            r.content() == Seq::<u8>::empty(),
            r.position() == 0,
    {
        let t = Text { v: String::new(), pos: 0 };
        proof {
            assert(t.content() =~= Seq::<u8>::empty());
        }
        t
    }
}

} // verus!
