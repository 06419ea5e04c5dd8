//! The store: buckets keyed by name, and the operations on them.

use vstd::prelude::*;
use crate::table::Table;
use crate::blob_store::bucket::Bucket;
use crate::blob_store::error::{Error, Kind};
use crate::blob_store::object::{Object, ObjectReader};

verus! {

/// The operations of a blob store.
pub trait Store {
    fn list_buckets(&self) -> Vec<String>;

    fn create_bucket(&mut self, name: &str);

    fn delete_bucket(&mut self, name: &str) -> Result<(), Error>;

    fn list_objects(&self, bucket: &str) -> Option<Vec<String>>;

    fn insert_object(&mut self, bucket: &str, name: &str, data: &[u8]) -> Result<(), Error>;

    fn put_object(&mut self, bucket: &str, name: &str, data: &[u8]) -> Result<(), Error>;

    fn get_object<'a>(&'a self, bucket: &str, name: &str) -> Option<ObjectReader<'a>>;

    fn remove_object(&mut self, bucket: &str, name: &str) -> Result<(), Error>;
}

/// The objects of bucket `bucket` in `store`; none where there is no such
/// bucket.
pub open spec fn bucket_or_empty(
    store: Map<Seq<char>, Map<Seq<char>, Seq<u8>>>,
    bucket: Seq<char>,
) -> Map<Seq<char>, Seq<u8>> {
    if store.contains_key(bucket) {
        store[bucket]
    } else {
        Map::empty()
    }
}

/// A store that keeps everything in memory.
pub struct InMemoryStore {
    buckets: Table<Bucket>,
}

impl View for InMemoryStore {
    type V = Map<Seq<char>, Map<Seq<char>, Seq<u8>>>;

    closed spec fn view(&self) -> Map<Seq<char>, Map<Seq<char>, Seq<u8>>> {
        self.buckets.map()
    }
}

impl InMemoryStore {
    #[verifier::type_invariant]
    spec fn inv(&self) -> bool {
        self.buckets.wf()
    }

    /// A store without buckets.
    pub fn new() -> (r: InMemoryStore)
        ensures
            r@ == Map::<Seq<char>, Map<Seq<char>, Seq<u8>>>::empty(),
    {
        InMemoryStore { buckets: Table::new() }
    }

    /// Stores the bytes of `data` as object `name` of bucket `bucket`,
    /// creating the bucket where it is missing. Where `replace` is false and
    /// the bucket holds `name` already, nothing is stored and the error is
    /// `ObjectAlreadyExist` (the bucket has been created all the same).
    pub fn insert_or_replace_object(
        &mut self,
        bucket: &str,
        name: &str,
        data: &[u8],
        replace: bool,
    ) -> (r: Result<(), Error>)
        ensures
            ({
                let before = bucket_or_empty(old(self)@, bucket@);
                if !replace && before.contains_key(name@) {
                    &&& r is Err
                    &&& r->Err_0.kind == Kind::ObjectAlreadyExist
                    &&& r->Err_0.bucket@ == bucket@
                    &&& r->Err_0.object@ == name@
                    &&& final(self)@ == old(self)@.insert(bucket@, before)
                } else {
                    &&& r is Ok
                    &&& final(self)@ == old(self)@.insert(bucket@, before.insert(name@, data@))
                }
            }),
    {
        self.create_bucket(bucket);
        let ghost created = self@;
        let mut buckets = Table::new();
        proof {
            use_type_invariant(&*self);
        }
        std::mem::swap(&mut buckets, &mut self.buckets);
        let mut container = match buckets.remove(bucket) {
            None => {
                self.buckets = buckets;
                return Err(Error::new(Kind::BucketNotFound, bucket, name));
            },
            Some(b) => b,
        };
        if !replace && container.exist(name) {
            buckets.insert(bucket, container);
            self.buckets = buckets;
            assert(self@ =~= old(self)@.insert(bucket@, created[bucket@]));
            return Err(Error::new(Kind::ObjectAlreadyExist, bucket, name));
        }
        let mut obj = Object::new(0);
        obj.write(data);
        container.put(name, obj);
        buckets.insert(bucket, container);
        self.buckets = buckets;
        assert(self@ =~= old(self)@.insert(bucket@, created[bucket@].insert(name@, data@)));
        Ok(())
    }

    /// The names of the buckets, each once, in no particular order.
    pub fn list_buckets(&self) -> (r: Vec<String>)
        ensures
            r.deep_view().no_duplicates(),
            forall|k: Seq<char>| r.deep_view().contains(k) <==> self@.contains_key(k),
    {
        proof {
            use_type_invariant(self);
        }
        self.buckets.names()
    }

    /// Creates an empty bucket `name`, unless there is one already.
    pub fn create_bucket(&mut self, name: &str)
        ensures
            final(self)@ == if old(self)@.contains_key(name@) {
                old(self)@
            } else {
                old(self)@.insert(name@, Map::empty())
            },
    {
        proof {
            use_type_invariant(&*self);
        }
        if !self.buckets.contains(name) {
            let mut buckets = Table::new();
            std::mem::swap(&mut buckets, &mut self.buckets);
            buckets.insert(name, Bucket::new());
            self.buckets = buckets;
        }
    }

    /// Deletes bucket `name` with its objects, if there is one.
    pub fn delete_bucket(&mut self, name: &str) -> (r: Result<(), Error>)
        ensures
            r is Ok,
            final(self)@ == old(self)@.remove(name@),
    {
        proof {
            use_type_invariant(&*self);
        }
        let mut buckets = Table::new();
        std::mem::swap(&mut buckets, &mut self.buckets);
        buckets.remove(name);
        self.buckets = buckets;
        Ok(())
    }

    /// The names of the objects of bucket `bucket`, each once, in no
    /// particular order; `None` where there is no such bucket.
    pub fn list_objects(&self, bucket: &str) -> (r: Option<Vec<String>>)
        ensures
            match r {
                Some(names) => self@.contains_key(bucket@) && names.deep_view().no_duplicates()
                    && forall|k: Seq<char>|
                    names.deep_view().contains(k) <==> self@[bucket@].contains_key(k),
                None => !self@.contains_key(bucket@),
            },
    {
        proof {
            use_type_invariant(self);
        }
        match self.buckets.get(bucket) {
            None => None,
            Some(b) => Some(b.names()),
        }
    }

    /// Stores `data` as a new object; fails where the object exists.
    pub fn insert_object(&mut self, bucket: &str, name: &str, data: &[u8]) -> (r: Result<(), Error>)
        ensures
            ({
                let before = bucket_or_empty(old(self)@, bucket@);
                if before.contains_key(name@) {
                    &&& r is Err
                    &&& r->Err_0.kind == Kind::ObjectAlreadyExist
                    &&& r->Err_0.bucket@ == bucket@
                    &&& r->Err_0.object@ == name@
                    &&& final(self)@ == old(self)@.insert(bucket@, before)
                } else {
                    &&& r is Ok
                    &&& final(self)@ == old(self)@.insert(bucket@, before.insert(name@, data@))
                }
            }),
    {
        self.insert_or_replace_object(bucket, name, data, false)
    }

    /// Stores `data` as object `name`, replacing any object there was.
    pub fn put_object(&mut self, bucket: &str, name: &str, data: &[u8]) -> (r: Result<(), Error>)
        ensures
            r is Ok,
            final(self)@ == old(self)@.insert(
                bucket@,
                bucket_or_empty(old(self)@, bucket@).insert(name@, data@),
            ),
    {
        self.insert_or_replace_object(bucket, name, data, true)
    }

    /// A reader at the start of object `name` of bucket `bucket`, if there is
    /// one.
    pub fn get_object<'a>(&'a self, bucket: &str, name: &str) -> (r: Option<ObjectReader<'a>>)
        ensures
            match r {
                Some(reader) => self@.contains_key(bucket@) && self@[bucket@].contains_key(name@)
                    && reader.wf() && reader.contents() == self@[bucket@][name@]
                    && reader.position() == 0,
                None => !(self@.contains_key(bucket@) && self@[bucket@].contains_key(name@)),
            },
    {
        proof {
            use_type_invariant(self);
        }
        match self.buckets.get(bucket) {
            None => None,
            Some(b) => b.get(name),
        }
    }

    /// Removes object `name` from bucket `bucket`; fails where there is no
    /// such bucket.
    pub fn remove_object(&mut self, bucket: &str, name: &str) -> (r: Result<(), Error>)
        ensures
            old(self)@.contains_key(bucket@) ==> r is Ok && final(self)@ == old(self)@.insert(
                bucket@,
                old(self)@[bucket@].remove(name@),
            ),
            !old(self)@.contains_key(bucket@) ==> r is Err && r->Err_0.kind == Kind::BucketNotFound
                && r->Err_0.bucket@ == bucket@ && r->Err_0.object@ == name@ && final(self)@ == old(
                self,
            )@,
    {
        proof {
            use_type_invariant(&*self);
        }
        let mut buckets = Table::new();
        std::mem::swap(&mut buckets, &mut self.buckets);
        match buckets.remove(bucket) {
            None => {
                self.buckets = buckets;
                assert(self@ =~= old(self)@);
                Err(Error::new(Kind::BucketNotFound, bucket, name))
            },
            Some(b) => {
                let mut b = b;
                b.remove(name);
                buckets.insert(bucket, b);
                self.buckets = buckets;
                assert(self@ =~= old(self)@.insert(bucket@, old(self)@[bucket@].remove(name@)));
                Ok(())
            },
        }
    }
}

impl Store for InMemoryStore {
    fn list_buckets(&self) -> Vec<String> {
        InMemoryStore::list_buckets(self)
    }

    fn create_bucket(&mut self, name: &str) {
        InMemoryStore::create_bucket(self, name)
    }

    fn delete_bucket(&mut self, name: &str) -> Result<(), Error> {
        InMemoryStore::delete_bucket(self, name)
    }

    fn list_objects(&self, bucket: &str) -> Option<Vec<String>> {
        InMemoryStore::list_objects(self, bucket)
    }

    fn insert_object(&mut self, bucket: &str, name: &str, data: &[u8]) -> Result<(), Error> {
        InMemoryStore::insert_object(self, bucket, name, data)
    }

    fn put_object(&mut self, bucket: &str, name: &str, data: &[u8]) -> Result<(), Error> {
        InMemoryStore::put_object(self, bucket, name, data)
    }

    fn get_object<'a>(&'a self, bucket: &str, name: &str) -> Option<ObjectReader<'a>> {
        InMemoryStore::get_object(self, bucket, name)
    }

    fn remove_object(&mut self, bucket: &str, name: &str) -> Result<(), Error> {
        InMemoryStore::remove_object(self, bucket, name)
    }
}

} // verus!
