use user_store::record::{encode_user, User};
use user_store::status::{create_status, delete_status, read_status, update_status};
use user_store::store::{
    read_outcome, remove_outcome, write_outcome, AccessError, UpdatePolicy, UserStore,
};

fn temp_db() -> sled::Db {
    sled::Config::new().temporary(true).open().unwrap()
}

fn store(policy: UpdatePolicy) -> UserStore {
    UserStore::new(temp_db(), policy)
}

fn user(id: &str, name: &str, email: &str) -> User {
    User { id: id.to_string(), name: name.to_string(), email: email.to_string() }
}

#[test]
fn ann_lifecycle() {
    let mut s = store(UpdatePolicy::Upsert);
    let created = s.create_user("Ann", "ann@x.com");
    assert_eq!(create_status(&created), 201);
    let created = created.unwrap();
    assert!(!created.id.is_empty());
    assert_eq!(created.name, "Ann");
    assert_eq!(created.email, "ann@x.com");

    let read = s.get_user(&created.id);
    assert_eq!(read_status(&read), 200);
    assert_eq!(read.unwrap(), created);

    let updated = s.update_user(&created.id, "Ann B.", "annb@x.com");
    assert_eq!(update_status(&updated), 200);
    assert_eq!(updated.unwrap(), user(&created.id, "Ann B.", "annb@x.com"));

    let deleted = s.delete_user(&created.id);
    assert_eq!(delete_status(&deleted), 204);

    let gone = s.get_user(&created.id);
    assert_eq!(read_status(&gone), 404);
    assert!(matches!(gone, Err(AccessError::NotFound)));
}

#[test]
fn created_id_is_a_hyphenated_uuid() {
    let mut s = store(UpdatePolicy::Upsert);
    let u = s.create_user("Bo", "bo@x.com").unwrap();
    assert_eq!(u.id.len(), 36);
    assert_eq!(u.id.matches('-').count(), 4);
    assert_ne!(u.id, "Bo");
}

#[test]
fn two_creates_give_distinct_readable_records() {
    let mut s = store(UpdatePolicy::Upsert);
    let a = s.create_user("Same", "same@x.com").unwrap();
    let b = s.create_user("Same", "same@x.com").unwrap();
    assert_ne!(a.id, b.id);
    assert_eq!(s.get_user(&a.id).unwrap(), a);
    assert_eq!(s.get_user(&b.id).unwrap(), b);
}

#[test]
fn read_after_create_is_exact() {
    let mut s = store(UpdatePolicy::Strict);
    let u = s.create_user("Zoë", "").unwrap();
    assert_eq!(s.get_user(&u.id).unwrap(), user(&u.id, "Zoë", ""));
}

#[test]
fn delete_then_read_is_not_found() {
    let mut s = store(UpdatePolicy::Upsert);
    let u = s.create_user("Cy", "cy@x.com").unwrap();
    assert!(s.delete_user(&u.id).unwrap());
    assert!(matches!(s.get_user(&u.id), Err(AccessError::NotFound)));
    assert!(!s.delete_user(&u.id).unwrap());
}

#[test]
fn delete_of_absent_id_removes_nothing() {
    let mut s = store(UpdatePolicy::Upsert);
    let r = s.delete_user("never-created");
    assert!(matches!(r, Ok(false)));
    assert_eq!(delete_status(&r), 404);
}

#[test]
fn update_replaces_all_fields() {
    let mut s = store(UpdatePolicy::Strict);
    let u = s.create_user("Old Name", "old@x.com").unwrap();
    let v = s.update_user(&u.id, "N", "e").unwrap();
    assert_eq!(v, user(&u.id, "N", "e"));
    assert_eq!(s.get_user(&u.id).unwrap(), user(&u.id, "N", "e"));
}

#[test]
fn upsert_update_creates_absent_record() {
    let mut s = store(UpdatePolicy::Upsert);
    assert_eq!(s.policy(), UpdatePolicy::Upsert);
    let v = s.update_user("chosen-id", "Di", "di@x.com").unwrap();
    assert_eq!(v, user("chosen-id", "Di", "di@x.com"));
    assert_eq!(s.get_user("chosen-id").unwrap(), v);
}

#[test]
fn strict_update_of_absent_record_is_not_found() {
    let mut s = store(UpdatePolicy::Strict);
    assert_eq!(s.policy(), UpdatePolicy::Strict);
    let r = s.update_user("chosen-id", "Di", "di@x.com");
    assert!(matches!(r, Err(AccessError::NotFound)));
    assert_eq!(update_status(&r), 404);
    assert!(matches!(s.get_user("chosen-id"), Err(AccessError::NotFound)));
}

#[test]
fn undecodable_value_is_not_absent() {
    let db = temp_db();
    db.insert("bad", b"not a record".to_vec()).unwrap();
    let s = UserStore::new(db, UpdatePolicy::Upsert);
    let r = s.get_user("bad");
    assert!(matches!(r, Err(AccessError::Decode)));
    assert_eq!(read_status(&r), 500);
}

#[test]
fn key_is_the_id_text() {
    let db = temp_db();
    let mut s = UserStore::new(db.clone(), UpdatePolicy::Upsert);
    let u = s.create_user("Ed", "ed@x.com").unwrap();
    let raw = db.get(u.id.as_bytes()).unwrap().unwrap();
    assert_eq!(raw.to_vec(), encode_user(&u));
}

#[test]
fn read_outcome_maps_each_engine_result() {
    let u = user("i", "n", "e");
    assert_eq!(read_outcome(Ok(Some(encode_user(&u)))).unwrap(), u);
    assert!(matches!(read_outcome(Ok(None)), Err(AccessError::NotFound)));
    assert!(matches!(read_outcome(Ok(Some(vec![1, 2]))), Err(AccessError::Decode)));
    let e = sled::Error::Unsupported("x".to_string());
    let r = read_outcome(Err(e));
    assert!(matches!(r, Err(AccessError::Engine(sled::Error::Unsupported(_)))));
    assert_eq!(read_status(&r), 500);
}

#[test]
fn write_outcome_maps_each_engine_result() {
    let u = user("i", "n", "e");
    assert_eq!(write_outcome(Ok(None), u.clone()).unwrap(), u);
    assert_eq!(write_outcome(Ok(Some(vec![9])), u.clone()).unwrap(), u);
    let r = write_outcome(Err(sled::Error::Unsupported("x".to_string())), u);
    assert!(matches!(r, Err(AccessError::Engine(_))));
    assert_eq!(create_status(&r), 500);
    assert_eq!(update_status(&r), 500);
}

#[test]
fn remove_outcome_maps_each_engine_result() {
    assert!(matches!(remove_outcome(Ok(Some(vec![1]))), Ok(true)));
    assert!(matches!(remove_outcome(Ok(None)), Ok(false)));
    let r = remove_outcome(Err(sled::Error::ReportableBug("x".to_string())));
    assert!(matches!(r, Err(AccessError::Engine(_))));
    assert_eq!(delete_status(&r), 500);
}

#[test]
fn decode_error_answers_server_error_on_update_status() {
    let r: Result<User, AccessError> = Err(AccessError::Decode);
    assert_eq!(update_status(&r), 500);
}
