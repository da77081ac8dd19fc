//! The access layer: user records kept in a sled database, one key per record.
//!
//! A record's key is the UTF-8 text of its id and its value is the record's
//! encoding (see `record`). Each operation makes one call into the database,
//! except a strict update, which first checks that the record exists. The store
//! is reached through `&mut self`, so callers that share it hold it behind a
//! lock, and each operation sees the database as the previous one left it.
use vstd::prelude::*;
use vstd::utf8::*;
use crate::record::{
    decode_user,
    encode_record,
    encode_user,
    fields_fit,
    lemma_round_trip,
    parse_record,
    User,
    UserView,
};

verus! {

#[verifier::external_type_specification]
#[verifier::external_body]
pub struct ExDb(sled::Db);

#[verifier::external_type_specification]
#[verifier::external_body]
pub struct ExSledError(sled::Error);

/// What the database holds: the value stored under each key.
pub uninterp spec fn db_contents(db: sled::Db) -> Map<Seq<u8>, Seq<u8>>;

/// Relies on `sled::Tree::get`: the value stored under `key`, or `None` where
/// there is none.
#[verifier::external_body]
fn db_get(db: &sled::Db, key: &[u8]) -> (r: Result<Option<Vec<u8>>, sled::Error>)
    ensures
        r matches Ok(Some(v)) ==> db_contents(*db).contains_key(key@) && db_contents(*db)[key@]
            == v@,
        r matches Ok(None) ==> !db_contents(*db).contains_key(key@),
{
    db.get(key).map(|o| o.map(|v| v.to_vec()))
}

/// Relies on `sled::Tree::insert`: stores `value` under `key` and returns the
/// value that was there before, if any.
#[verifier::external_body]
fn db_insert(db: &mut sled::Db, key: &[u8], value: Vec<u8>) -> (r: Result<
    Option<Vec<u8>>,
    sled::Error,
>)
    ensures
        r is Ok ==> db_contents(*final(db)) == db_contents(*old(db)).insert(key@, value@),
        r matches Ok(Some(v)) ==> db_contents(*old(db)).contains_key(key@) && db_contents(
            *old(db),
        )[key@] == v@,
        r matches Ok(None) ==> !db_contents(*old(db)).contains_key(key@),
{
    db.insert(key, value).map(|o| o.map(|v| v.to_vec()))
}

/// Relies on `sled::Tree::remove`: deletes `key` and returns the value that was
/// there before, if any.
#[verifier::external_body]
fn db_remove(db: &mut sled::Db, key: &[u8]) -> (r: Result<Option<Vec<u8>>, sled::Error>)
    ensures
        r is Ok ==> db_contents(*final(db)) == db_contents(*old(db)).remove(key@),
        r matches Ok(Some(v)) ==> db_contents(*old(db)).contains_key(key@) && db_contents(
            *old(db),
        )[key@] == v@,
        r matches Ok(None) ==> !db_contents(*old(db)).contains_key(key@),
{
    db.remove(key).map(|o| o.map(|v| v.to_vec()))
}

/// Relies on `uuid::Uuid::new_v4` and its `Display`: a random version-4 uuid
/// written in hyphenated form, which is 36 characters long.
#[verifier::external_body]
fn new_id() -> (r: String)
    ensures
        r@.len() == 36,
{
    uuid::Uuid::new_v4().to_string()
}

/// Why an operation did not give its result.
#[derive(Debug)]
pub enum AccessError {
    /// No record is stored under the id.
    NotFound,
    /// A value is stored under the id, but it is not the encoding of a record.
    Decode,
    /// The database failed.
    Engine(sled::Error),
}

/// What an update does where no record is stored under its id.
#[derive(Clone, Copy, Debug, PartialEq, Eq)]
pub enum UpdatePolicy {
    /// Store the record anyway, as a create with that id would.
    Upsert,
    /// Change nothing and report `NotFound`.
    Strict,
}

/// The key under which the record with this id is stored.
pub open spec fn key_of(id: Seq<char>) -> Seq<u8> {
    encode_utf8(id)
}

/// A value is stored under the id's key.
pub open spec fn holds(m: Map<Seq<u8>, Seq<u8>>, id: Seq<char>) -> bool {
    m.contains_key(key_of(id))
}

/// The record stored under the id, where there is one and it decodes.
pub open spec fn stored_user(m: Map<Seq<u8>, Seq<u8>>, id: Seq<char>) -> Option<UserView> {
    if holds(m, id) {
        parse_record(m[key_of(id)])
    } else {
        None
    }
}

/// The contents after `u` is written under its own id.
pub open spec fn put_user(m: Map<Seq<u8>, Seq<u8>>, u: UserView) -> Map<Seq<u8>, Seq<u8>> {
    m.insert(key_of(u.id), encode_record(u))
}

/// The contents after the record with this id is deleted.
pub open spec fn drop_user(m: Map<Seq<u8>, Seq<u8>>, id: Seq<char>) -> Map<Seq<u8>, Seq<u8>> {
    m.remove(key_of(id))
}

/// Distinct ids are stored under distinct keys.
pub proof fn lemma_key_of_injective(a: Seq<char>, b: Seq<char>)
    ensures
        key_of(a) == key_of(b) ==> a == b,
{
    encode_utf8_decode_utf8(a);
    encode_utf8_decode_utf8(b);
}

/// Once a user is written under its id, reading that id gives back the same
/// user, field for field.
pub proof fn lemma_read_after_write(m: Map<Seq<u8>, Seq<u8>>, u: UserView)
    requires
        fields_fit(u),
    ensures
        holds(put_user(m, u), u.id),
        stored_user(put_user(m, u), u.id) == Some(u),
{
    lemma_round_trip(u);
}

/// Writing two users with different ids, one after the other, leaves both
/// readable, each with its own fields.
pub proof fn lemma_distinct_writes_both_readable(
    m: Map<Seq<u8>, Seq<u8>>,
    u1: UserView,
    u2: UserView,
)
    requires
        fields_fit(u1),
        fields_fit(u2),
        u1.id != u2.id,
    ensures
        stored_user(put_user(put_user(m, u1), u2), u1.id) == Some(u1),
        stored_user(put_user(put_user(m, u1), u2), u2.id) == Some(u2),
{
    lemma_key_of_injective(u1.id, u2.id);
    lemma_round_trip(u1);
    lemma_round_trip(u2);
}

/// Once the record with an id is deleted, nothing is stored under that id.
pub proof fn lemma_delete_then_read(m: Map<Seq<u8>, Seq<u8>>, id: Seq<char>)
    ensures
        !holds(drop_user(m, id), id),
        stored_user(drop_user(m, id), id) is None,
{
}

/// An update of a stored user replaces all its fields: reading the id
/// afterwards gives the new name and email and nothing of the old ones.
pub proof fn lemma_update_replaces(
    m: Map<Seq<u8>, Seq<u8>>,
    id: Seq<char>,
    name: Seq<char>,
    email: Seq<char>,
)
    requires
        holds(m, id),
        fields_fit(UserView { id, name, email }),
    ensures
        stored_user(put_user(m, UserView { id, name, email }), id) == Some(
            UserView { id, name, email },
        ),
{
    lemma_round_trip(UserView { id, name, email });
}

/// The result of a read, from what the database returned for the key.
pub fn read_outcome(got: Result<Option<Vec<u8>>, sled::Error>) -> (r: Result<User, AccessError>)
    ensures
        got matches Err(e) ==> r == Err::<User, AccessError>(AccessError::Engine(e)),
        got matches Ok(None) ==> r matches Err(AccessError::NotFound),
        got matches Ok(Some(v)) ==> match parse_record(v@) {
            Some(u) => r matches Ok(x) && x@ == u,
            None => r matches Err(AccessError::Decode),
        },
{
    match got {
        Err(e) => Err(AccessError::Engine(e)),
        Ok(None) => Err(AccessError::NotFound),
        Ok(Some(v)) => match decode_user(v.as_slice()) {
            Some(u) => Ok(u),
            None => Err(AccessError::Decode),
        },
    }
}

/// The result of writing `u`, from what the database returned for the write.
pub fn write_outcome(got: Result<Option<Vec<u8>>, sled::Error>, u: User) -> (r: Result<
    User,
    AccessError,
>)
    ensures
        got matches Err(e) ==> r == Err::<User, AccessError>(AccessError::Engine(e)),
        got is Ok ==> r == Ok::<User, AccessError>(u),
{
    match got {
        Err(e) => Err(AccessError::Engine(e)),
        Ok(_) => Ok(u),
    }
}

/// The result of a delete, from what the database returned for the removal:
/// whether a record was there.
pub fn remove_outcome(got: Result<Option<Vec<u8>>, sled::Error>) -> (r: Result<bool, AccessError>)
    ensures
        got matches Err(e) ==> r == Err::<bool, AccessError>(AccessError::Engine(e)),
        got matches Ok(v) ==> r == Ok::<bool, AccessError>(v is Some),
{
    match got {
        Err(e) => Err(AccessError::Engine(e)),
        Ok(Some(_)) => Ok(true),
        Ok(None) => Ok(false),
    }
}

/// User records kept in one database handle.
pub struct UserStore {
    db: sled::Db,
    policy: UpdatePolicy,
}

impl UserStore {
    /// What the database holds.
    pub closed spec fn contents(&self) -> Map<Seq<u8>, Seq<u8>> {
        db_contents(self.db)
    }

    /// What an update does where no record is stored under its id.
    pub closed spec fn update_policy(&self) -> UpdatePolicy {
        self.policy
    }

    /// A store over `db`.
    pub fn new(db: sled::Db, policy: UpdatePolicy) -> (r: Self)
        ensures
            r.contents() == db_contents(db),
            r.update_policy() == policy,
    {
        UserStore { db, policy }
    }

    /// What an update does where no record is stored under its id.
    pub fn policy(&self) -> (r: UpdatePolicy)
        ensures
            r == self.update_policy(),
    {
        self.policy
    }

    /// Writes `u` under its own id.
    fn put(&mut self, u: User) -> (r: Result<User, AccessError>)
        ensures
            final(self).update_policy() == old(self).update_policy(),
            r matches Ok(x) ==> x@ == u@ && fields_fit(x@) && final(self).contents() == put_user(
                old(self).contents(),
                u@,
            ),
            r matches Err(e) ==> e is Engine,
    {
        let bytes = encode_user(&u);
        let got = db_insert(&mut self.db, u.id.as_str().as_bytes(), bytes);
        write_outcome(got, u)
    }

    /// Stores a new record with a freshly made id and the given name and email.
    pub fn create_user(&mut self, name: &str, email: &str) -> (r: Result<User, AccessError>)
        ensures
            final(self).update_policy() == old(self).update_policy(),
            r matches Ok(u) ==> u.name@ == name@ && u.email@ == email@ && u.id@.len() == 36
                && fields_fit(u@) && final(self).contents() == put_user(old(self).contents(), u@),
            r matches Err(e) ==> e is Engine,
    {
        let u = User { id: new_id(), name: name.to_owned(), email: email.to_owned() };
        self.put(u)
    }

    /// The record stored under `id`.
    pub fn get_user(&self, id: &str) -> (r: Result<User, AccessError>)
        ensures
            r matches Ok(u) ==> stored_user(self.contents(), id@) == Some(u@),
            r matches Err(AccessError::NotFound) ==> !holds(self.contents(), id@),
            r matches Err(AccessError::Decode) ==> holds(self.contents(), id@) && stored_user(
                self.contents(),
                id@,
            ) is None,
    {
        read_outcome(db_get(&self.db, id.as_bytes()))
    }

    /// Stores the record with this id, name and email in place of whatever
    /// was stored under `id`. Under `UpdatePolicy::Strict` it does so only
    /// where a value was stored under `id`, and otherwise reports `NotFound`.
    pub fn update_user(&mut self, id: &str, name: &str, email: &str) -> (r: Result<
        User,
        AccessError,
    >)
        ensures
            final(self).update_policy() == old(self).update_policy(),
            r matches Ok(u) ==> u@ == (UserView { id: id@, name: name@, email: email@ })
                && fields_fit(u@) && final(self).contents() == put_user(old(self).contents(), u@),
            r matches Ok(_) && old(self).update_policy() == UpdatePolicy::Strict ==> holds(
                old(self).contents(),
                id@,
            ),
            r matches Err(AccessError::NotFound) ==> old(self).update_policy()
                == UpdatePolicy::Strict && !holds(old(self).contents(), id@) && final(self).contents()
                == old(self).contents(),
            r matches Err(AccessError::Decode) ==> false,
    {
        let u = User { id: id.to_owned(), name: name.to_owned(), email: email.to_owned() };
        match self.policy {
            UpdatePolicy::Upsert => self.put(u),
            UpdatePolicy::Strict => match db_get(&self.db, id.as_bytes()) {
                Err(e) => Err(AccessError::Engine(e)),
                Ok(None) => Err(AccessError::NotFound),
                Ok(Some(_)) => self.put(u),
            },
        }
    }

    /// Deletes the record stored under `id`; the result tells whether there
    /// was one.
    pub fn delete_user(&mut self, id: &str) -> (r: Result<bool, AccessError>)
        ensures
            final(self).update_policy() == old(self).update_policy(),
            r matches Ok(removed) ==> (removed <==> holds(old(self).contents(), id@))
                && final(self).contents() == drop_user(old(self).contents(), id@),
            r matches Err(e) ==> e is Engine,
    {
        remove_outcome(db_remove(&mut self.db, id.as_bytes()))
    }
}

} // verus!
