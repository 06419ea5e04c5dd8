use web_crawler::blob_store::error::{Error, Kind};
use web_crawler::blob_store::object::ObjectReader;
use web_crawler::blob_store::store::{InMemoryStore, Store};

const EMPTY: &'static [u8] = b"";

fn get_bucket_names() -> Vec<&'static str> {
    vec!["Mars", "Jupiter", "Saturn", "Uranus", "Neptune", "Pluto"]
}

fn get_object_names() -> Vec<&'static str> {
    vec!["Io", "Europa", "Ganymede", "Callisto"]
}

fn get_store(buckets: &Vec<&str>) -> InMemoryStore {
    let mut store = InMemoryStore::new();
    for bucket in buckets {
        store.create_bucket(bucket);
    }
    store
}

fn get_populated_store(bucket: &str, objects: &Vec<&str>) -> InMemoryStore {
    let mut store = InMemoryStore::new();
    for object in objects {
        let _ = store.insert_object(bucket, object, EMPTY);
    }
    store
}

fn read_all(reader: &mut ObjectReader) -> Vec<u8> {
    let mut out = Vec::new();
    let mut buf = [0u8; 4];
    loop {
        let n = reader.read(&mut buf);
        if n == 0 {
            break;
        }
        out.extend_from_slice(&buf[..n]);
    }
    out
}

#[test]
fn store_list_buckets_should_return_all_bucket_names() {
    let mut buckets = get_bucket_names();
    let store = get_store(&buckets);
    let mut output = store.list_buckets();
    buckets.sort();
    output.sort();
    assert_eq!(
        buckets, output,
        "InMemoryStore failed to list all bucket names."
    );
}

#[test]
fn store_create_bucket_should_add_bucket_when_bucket_did_not_exist() {
    let mut store = InMemoryStore::new();
    let bucket = "Earth";
    store.create_bucket(bucket);
    assert!(
        store.list_buckets().iter().any(|b| b == bucket),
        "InMemoryStore failed to create new bucket."
    );
}

#[test]
fn store_delete_bucket_should_delete_existing_bucket() {
    let mut store = get_store(&get_bucket_names());
    let bucket = "Pluto";
    let _ = store.delete_bucket(bucket);
    assert!(
        !store.list_buckets().iter().any(|b| b == bucket),
        "InMemoryStore failed to delete bucket."
    );
}

#[test]
fn store_list_objects_should_list_all_object_names_in_bucket() {
    let bucket = "Jupiter";
    let mut objects = get_object_names();
    let store = get_populated_store(bucket, &objects);
    let mut output = store.list_objects(bucket).unwrap_or_default();
    objects.sort();
    output.sort();
    assert_eq!(
        objects, output,
        "InMemoryStore failed to list all object names in a bucket."
    );
}

#[test]
fn store_insert_object_should_add_object_when_object_did_not_exist() {
    let bucket = "Earth";
    let object = "Moon";
    let mut store = InMemoryStore::new();
    assert!(
        store.insert_object(bucket, object, EMPTY).is_ok(),
        "InMemoryStore failed to insert new object."
    );
}

#[test]
fn store_insert_object_should_not_add_object_when_object_already_exist() {
    let bucket = "Jupiter";
    let objects = get_object_names();
    let object = objects[0].clone();
    let mut store = get_populated_store(bucket, &objects);
    assert!(
        store.insert_object(bucket, object, EMPTY).is_err(),
        "InMemoryStore insert duplicated object."
    );
}

#[test]
fn store_put_object_should_replace_existing_object() {
    let bucket = "Jupiter";
    let objects = get_object_names();
    let object = objects[0].clone();
    let mut store = get_populated_store(bucket, &objects);
    assert!(
        store.put_object(bucket, object, EMPTY).is_ok(),
        "InMemoryStore failed to replace an existing object."
    );
}

#[test]
fn store_get_object_should_return_existing_object() {
    let bucket = "Earth";
    let object = "Moon";
    let mut store = InMemoryStore::new();
    let _ = store.put_object(bucket, object, EMPTY);
    assert!(
        store.get_object(bucket, object).is_some(),
        "InMemoryStore failed to return existing object."
    );
}

#[test]
fn store_remove_object_should_delete_existing_object() {
    let bucket = "Jupiter";
    let object = "Callisto";
    let mut store = get_populated_store(bucket, &get_object_names());
    let _ = store.remove_object(bucket, object);
    assert!(
        store.get_object(bucket, object).is_none(),
        "InMemoryStore failed to remove existing object."
    );
}

#[test]
fn store_insert_duplicate_reports_already_exist() {
    let mut store = InMemoryStore::new();
    store.insert_object("b", "o", b"one").unwrap();
    let err: Error = store.insert_object("b", "o", b"two").unwrap_err();
    assert_eq!(err.kind, Kind::ObjectAlreadyExist);
    assert_eq!(err.message(), "object o already exist in b bucket");
    let mut reader = store.get_object("b", "o").unwrap();
    assert_eq!(read_all(&mut reader), b"one".to_vec());
}

#[test]
fn store_put_replaces_the_bytes() {
    let mut store = InMemoryStore::new();
    store.put_object("b", "o", b"one").unwrap();
    store.put_object("b", "o", b"second").unwrap();
    let mut reader = store.get_object("b", "o").unwrap();
    assert_eq!(read_all(&mut reader), b"second".to_vec());
}

#[test]
fn store_remove_object_from_missing_bucket_is_bucket_not_found() {
    let mut store = InMemoryStore::new();
    let err = store.remove_object("nowhere", "o").unwrap_err();
    assert_eq!(err.kind, Kind::BucketNotFound);
    assert_eq!(err.message(), "bucket nowhere not found");
}

#[test]
fn store_list_objects_of_missing_bucket_is_none() {
    let store = InMemoryStore::new();
    assert!(store.list_objects("nowhere").is_none());
    assert!(store.get_object("nowhere", "o").is_none());
}

#[test]
fn store_through_the_trait() {
    let mut store = InMemoryStore::new();
    {
        let s: &mut dyn Store = &mut store;
        s.create_bucket("b");
        s.insert_object("b", "o", b"x").unwrap();
        assert_eq!(s.list_objects("b").unwrap(), vec!["o".to_string()]);
    }
    assert!(store.delete_bucket("b").is_ok());
    assert!(store.list_buckets().is_empty());
}

#[test]
fn error_messages_name_object_and_bucket() {
    let e = Error::new(Kind::ObjectNotFound, "b", "o");
    assert_eq!(e.message(), "object o is not found in b bucket");
    let e = Error::new(Kind::IO, "b", "o");
    assert_eq!(e.message(), "error writing object o into b bucket");
}
