//! Objects, which hold bytes, and readers over them.

use vstd::prelude::*;

verus! {

/// An object: a sequence of bytes.
pub struct Object {
    data: Vec<u8>,
}

impl View for Object {
    type V = Seq<u8>;

    closed spec fn view(&self) -> Seq<u8> {
        self.data@
    }
}

impl Object {
    /// An empty object with room for `size` bytes.
    pub fn new(size: usize) -> (r: Object)
        ensures
            r@ == Seq::<u8>::empty(),
    {
        Object { data: Vec::with_capacity(size) }
    }

    /// An object holding `data`.
    pub fn from_bytes(data: Vec<u8>) -> (r: Object)
        ensures
            r@ == data@,
    {
        Object { data }
    }

    /// Appends `buf`; returns how many bytes were written, all of them.
    pub fn write(&mut self, buf: &[u8]) -> (r: usize)
        ensures
            final(self)@ == old(self)@ + buf@,
            r == buf@.len(),
    {
        let mut i: usize = 0;
        let ghost start = self.data@;
        while i < buf.len()
            invariant
                i <= buf@.len(),
                self.data@ == start + buf@.subrange(0, i as int),
            decreases buf.len() - i,
        {
            self.data.push(buf[i]);
            assert(buf@.subrange(0, i + 1) =~= buf@.subrange(0, i as int).push(buf@[i as int]));
            i = i + 1;
        }
        assert(buf@.subrange(0, i as int) =~= buf@);
        buf.len()
    }

    /// Nothing is buffered: a no-op.
    pub fn flush(&mut self)
        ensures
            final(self)@ == old(self)@,
    {
    }

    /// The object's bytes.
    pub fn data(&self) -> (r: &[u8])
        ensures
            r@ == self@,
    {
        self.data.as_slice()
    }
}

/// A reader over an object's bytes, which hands them out from the front.
pub struct ObjectReader<'a> {
    read: usize,
    data: &'a [u8],
}

impl<'a> ObjectReader<'a> {
    /// The bytes that the reader reads.
    pub closed spec fn contents(&self) -> Seq<u8> {
        self.data@
    }

    /// How many bytes have been handed out.
    pub closed spec fn position(&self) -> nat {
        self.read as nat
    }

    pub closed spec fn wf(&self) -> bool {
        self.read <= self.data@.len()
    }

    /// A reader at the start of `object`.
    pub fn new(object: &'a Object) -> (r: ObjectReader<'a>)
        ensures
            r.wf(),
            r.contents() == object@,
            r.position() == 0,
    {
        ObjectReader { read: 0, data: object.data.as_slice() }
    }

    /// A reader at the start of `data`.
    pub fn from_slice(data: &'a [u8]) -> (r: ObjectReader<'a>)
        ensures
            r.wf(),
            r.contents() == data@,
            r.position() == 0,
    {
        ObjectReader { read: 0, data }
    }

    /// Copies the next bytes, as many as fit, into the front of `buf`, and
    /// returns how many; 0 once every byte has been read.
    pub fn read(&mut self, buf: &mut [u8]) -> (r: usize)
        requires
            old(self).wf(),
        ensures
            final(self).wf(),
            final(self).contents() == old(self).contents(),
            ({
                let pos = old(self).position();
                let left = old(self).contents().len() - pos;
                &&& r == if left < old(buf)@.len() { left } else { old(buf)@.len() as int }
                &&& final(self).position() == pos + r
                &&& final(buf)@.len() == old(buf)@.len()
                &&& final(buf)@.subrange(0, r as int) == old(self).contents().subrange(
                    pos as int,
                    pos + r,
                )
                &&& final(buf)@.subrange(r as int, final(buf)@.len() as int) == old(buf)@.subrange(
                    r as int,
                    old(buf)@.len() as int,
                )
            }),
    {
        if self.data.len() <= self.read {
            assert(buf@.subrange(0, 0) =~= self.data@.subrange(self.read as int, self.read as int));
            assert(buf@.subrange(0, buf@.len() as int) =~= buf@);
            return 0;
        }
        let len = self.data.len();
        let left = len - self.read;
        let copy_size = if left < buf.len() { left } else { buf.len() };
        let ghost old_buf = buf@;
        let mut i: usize = 0;
        while i < copy_size
            invariant
                len == self.data@.len(),
                self.read + copy_size <= len,
                copy_size <= buf@.len(),
                buf@.len() == old_buf.len(),
                i <= copy_size,
                forall|j: int| 0 <= j < i ==> buf@[j] == self.data@[self.read + j],
                forall|j: int| i <= j < buf@.len() ==> buf@[j] == old_buf[j],
            decreases copy_size - i,
        {
            buf[i] = self.data[self.read + i];
            i = i + 1;
        }
        assert(buf@.subrange(0, copy_size as int) =~= self.data@.subrange(
            self.read as int,
            self.read + copy_size,
        ));
        assert(buf@.subrange(copy_size as int, buf@.len() as int) =~= old_buf.subrange(
            copy_size as int,
            old_buf.len() as int,
        ));
        self.read = self.read + copy_size;
        copy_size
    }
}

} // verus!
