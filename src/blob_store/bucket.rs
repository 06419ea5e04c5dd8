//! A bucket: objects keyed by name.

use vstd::prelude::*;
use crate::table::Table;
use crate::blob_store::object::{Object, ObjectReader};

verus! {

/// Objects keyed by name.
pub struct Bucket {
    objects: Table<Object>,
}

impl View for Bucket {
    type V = Map<Seq<char>, Seq<u8>>;

    closed spec fn view(&self) -> Map<Seq<char>, Seq<u8>> {
        self.objects.map()
    }
}

impl Bucket {
    #[verifier::type_invariant]
    spec fn inv(&self) -> bool {
        self.objects.wf()
    }

    /// An empty bucket.
    pub fn new() -> (r: Bucket)
        ensures
            r@ == Map::<Seq<char>, Seq<u8>>::empty(),
    {
        Bucket { objects: Table::new() }
    }

    /// The names of the objects, each once, in no particular order.
    pub fn names(&self) -> (r: Vec<String>)
        ensures
            r.deep_view().no_duplicates(),
            forall|k: Seq<char>| r.deep_view().contains(k) <==> self@.contains_key(k),
    {
        proof {
            use_type_invariant(self);
        }
        self.objects.names()
    }

    /// Whether the bucket holds an object called `name`.
    pub fn exist(&self, name: &str) -> (r: bool)
        ensures
            r == self@.contains_key(name@),
    {
        proof {
            use_type_invariant(self);
        }
        self.objects.contains(name)
    }

    /// Puts `object` under `name`, replacing any object there was.
    pub fn put(&mut self, name: &str, object: Object)
        ensures
            final(self)@ == old(self)@.insert(name@, object@),
    {
        proof {
            use_type_invariant(&*self);
        }
        let mut objects = Table::new();
        std::mem::swap(&mut objects, &mut self.objects);
        objects.insert(name, object);
        self.objects = objects;
    }

    /// A reader at the start of the object called `name`, if there is one.
    pub fn get(&self, name: &str) -> (r: Option<ObjectReader<'_>>)
        ensures
            match r {
                Some(reader) => self@.contains_key(name@) && reader.wf() && reader.contents()
                    == self@[name@] && reader.position() == 0,
                None => !self@.contains_key(name@),
            },
    {
        proof {
            use_type_invariant(self);
        }
        match self.objects.get(name) {
            None => None,
            Some(obj) => Some(ObjectReader::new(obj)),
        }
    }

    /// Takes the object called `name` out of the bucket.
    pub fn remove(&mut self, name: &str) -> (r: Option<Object>)
        ensures
            final(self)@ == old(self)@.remove(name@),
            match r {
                Some(obj) => old(self)@.contains_key(name@) && old(self)@[name@] == obj@,
                None => !old(self)@.contains_key(name@),
            },
    {
        proof {
            use_type_invariant(&*self);
        }
        let mut objects = Table::new();
        std::mem::swap(&mut objects, &mut self.objects);
        let r = objects.remove(name);
        self.objects = objects;
        r
    }
}

} // verus!
