//! The credential lifecycle and actor lookup: parsing an account reference,
//! building injection-safe queries, generating a salted memory-hard hash,
//! and interpreting the normalized query results.
//!
//! Every function that splices a value into query text requires that value to
//! have passed the matching character-exclusion gate, so an unvalidated
//! value cannot reach a query by construction.

use vstd::prelude::*;

use vstd::string::StrSliceExecFns;
use vstd::string::StringExecFns;
use vstd::string::StringSliceAdditionalSpecFns;

use crate::codec::{b64_encode, base64_encode, lemma_b64_text_safe};
use crate::db::{Database, QueryResponse};
use crate::err::Error;
use crate::json::{obj_get, obj_remove, Json, Row};
use crate::validate::{valid_literal, valid_name, validate_name, validate_str};

verus! {

/// The byte length of a generated salt.
pub const SALT_LEN: usize = 256;

/// The byte length of a derived password hash.
pub const HASH_LEN: usize = 256;

/// The name segment of `rest`: its prefix up to the first `@`, or all of it.
pub open spec fn name_segment(rest: Seq<char>) -> Seq<char>
    decreases rest.len(),
{
    if rest.len() == 0 {
        rest
    } else if rest[0] == '@' {
        Seq::empty()
    } else {
        seq![rest[0]] + name_segment(rest.drop_first())
    }
}

/// Whether the text holds an `@` separator.
pub open spec fn has_at(rest: Seq<char>) -> bool {
    exists|i: int| 0 <= i < rest.len() && rest[i] == '@'
}

/// The account name in an `acct:<name>@<domain>` reference: the text between
/// the `acct:` marker and the first `@`. A reference without the marker, or
/// with no `@`-delimited name segment, has no account name.
pub open spec fn acct_name(s: Seq<char>) -> Option<Seq<char>> {
    if s.len() >= 5 && s.subrange(0, 5) == "acct:"@ && has_at(s.skip(5)) {
        Some(name_segment(s.skip(5)))
    } else {
        None
    }
}

proof fn lemma_name_segment_take(rest: Seq<char>, i: int)
    requires
        0 <= i <= rest.len(),
        forall|j: int| 0 <= j < i ==> rest[j] != '@',
        i == rest.len() || rest[i] == '@',
    ensures
        name_segment(rest) == rest.take(i),
    decreases i,
{
    if i == 0 {
        assert(rest.take(0) =~= Seq::<char>::empty());
        if rest.len() == 0 {
            assert(rest.take(0) =~= rest);
        }
    } else {
        lemma_name_segment_take(rest.drop_first(), i - 1);
        assert(seq![rest[0]] + rest.drop_first().take(i - 1) =~= rest.take(i));
    }
}

/// Extracts and validates the local account name of an actor reference.
/// A reference without the `acct:` marker, or with no `@`-delimited name
/// segment, is `NoSuchEntity`; a name that fails the identifier gate is
/// `BadString` — no query can be built from either.
#[verifier::loop_isolation(false)]
pub fn local_actor_name(acct: &str) -> (r: Result<String, Error>)
    ensures
        match r {
            Ok(name) => acct_name(acct@) matches Some(n) && n == name@ && valid_name(n),
            Err(e) => match e {
                Error::NoSuchEntity => acct_name(acct@) is None,
                Error::BadString(t) => acct_name(acct@) matches Some(n) && n == t@ && !valid_name(
                    n,
                ),
                _ => false,
            },
        },
{
    let n = acct.unicode_len();
    proof {
        reveal_strlit("acct:");
    }
    if n < 5 || acct.get_char(0) != 'a' || acct.get_char(1) != 'c' || acct.get_char(2) != 'c'
        || acct.get_char(3) != 't' || acct.get_char(4) != ':' {
        proof {
            if acct@.len() >= 5 && acct@.subrange(0, 5) == "acct:"@ {
                assert(acct@.subrange(0, 5)[0] == acct@[0]);
                assert(acct@.subrange(0, 5)[1] == acct@[1]);
                assert(acct@.subrange(0, 5)[2] == acct@[2]);
                assert(acct@.subrange(0, 5)[3] == acct@[3]);
                assert(acct@.subrange(0, 5)[4] == acct@[4]);
                assert(false);
            }
            assert(acct_name(acct@) is None);
        }
        return Err(Error::NoSuchEntity);
    }
    proof {
        assert(acct@.subrange(0, 5) =~= "acct:"@);
    }
    let mut i: usize = 5;
    while i < n && acct.get_char(i) != '@'
        invariant
            5 <= i <= n,
            forall|j: int| 5 <= j < i ==> acct@[j] != '@',
        decreases n - i,
    {
        i += 1;
    }
    if i == n {
        proof {
            assert forall|k: int| 0 <= k < acct@.skip(5).len() implies acct@.skip(5)[k]
                != '@' by {
                assert(acct@.skip(5)[k] == acct@[k + 5]);
            }
            assert(!has_at(acct@.skip(5)));
        }
        return Err(Error::NoSuchEntity);
    }
    proof {
        assert(acct@.skip(5)[i - 5] == '@');
        assert(has_at(acct@.skip(5)));
    }
    let name = acct.substring_char(5, i).to_owned();
    proof {
        lemma_name_segment_take(acct@.skip(5), i - 5);
        assert(acct@.skip(5).take(i - 5) =~= acct@.subrange(5, i as int));
        assert(forall|j: int| 5 <= j < i ==> acct@.skip(5)[j - 5] == acct@[j]);
    }
    match validate_name(name.as_str()) {
        Ok(_) => Ok(name),
        Err(e) => Err(e),
    }
}

/// The existence-check query for a validated name.
pub open spec fn select_query(name: Seq<char>) -> Seq<char> {
    "SELECT id FROM user:`"@ + name + "`"@
}

/// The creation query: sets the encoded salt and hash on a new record named
/// by the identifier and asks the generated identifier back.
pub open spec fn create_query(name: Seq<char>, salt_text: Seq<char>, hash_text: Seq<char>) -> Seq<
    char,
> {
    "CREATE user:`"@ + name + "` SET salt = '"@ + salt_text + "', pwd_hash = '"@ + hash_text
        + "' RETURN id"@
}

/// Builds the existence-check query for a name that passed the identifier
/// gate.
pub fn actor_query(name: &str) -> (q: String)
    requires
        valid_name(name@),
    ensures
        q@ == select_query(name@),
{
    let mut q = "SELECT id FROM user:`".to_owned();
    q.append(name);
    q.append("`");
    q
}

/// A generated credential: the validated account name, a fresh salt, and the
/// memory-hard hash of the password under that salt.
#[derive(Debug, PartialEq)]
pub struct Credential {
    pub name: String,
    pub salt: Vec<u8>,
    pub hash: Vec<u8>,
}

impl Credential {
    /// The name passed the identifier gate and salt and hash have their
    /// fixed lengths.
    pub open spec fn wf(self) -> bool {
        valid_name(self.name@) && self.salt@.len() == SALT_LEN && self.hash@.len() == HASH_LEN
    }
}

/// What the memory-hard key-derivation function returns for a password and a
/// salt, at the fixed default cost parameters and output length: a function
/// of the two arguments alone.
pub uninterp spec fn argon2_hash(password: Seq<u8>, salt: Seq<u8>) -> Seq<u8>;

/// Relies on argon2's `Argon2::hash_password_into` with the crate's default
/// parameters and a 256-byte output: on success the buffer is filled
/// deterministically from exactly the password and the salt, and for that
/// output length the call fails exactly when the password is longer than
/// `u32::MAX` bytes or the salt is outside 8..=`u32::MAX` bytes.
#[verifier::external_body]
fn derive_hash(password: &[u8], salt: &[u8]) -> (r: Result<Vec<u8>, ()>)
    ensures
        r matches Ok(h) ==> h@ == argon2_hash(password@, salt@) && h@.len() == HASH_LEN,
        r is Ok <==> (password@.len() <= 0xFFFF_FFFF && 8 <= salt@.len() <= 0xFFFF_FFFF),
{
    let mut hash = [0u8; 256];
    match argon2::Argon2::default().hash_password_into(password, salt, &mut hash) {
        Ok(()) => Ok(hash.to_vec()),
        Err(_) => Err(()),
    }
}

/// Relies on rand's thread-local generator via `Rng::fill`: returns a fresh
/// salt of the fixed length; nothing is assumed about its values.
#[verifier::external_body]
fn random_salt() -> (r: Vec<u8>)
    ensures
        r@.len() == SALT_LEN,
{
    let mut salt = vec![0u8; 256];
    rand::Rng::fill(&mut rand::thread_rng(), salt.as_mut_slice());
    salt
}

/// Builds a credential for a new account: both inputs must pass their gates,
/// then a fresh salt is drawn and the password is hashed under it. Success is
/// owed for every gated pair whose password fits the derivation's length
/// bound; only a password over `u32::MAX` bytes surfaces as `HashFailure`.
pub fn make_credential(name: &str, password: &str) -> (r: Result<Credential, Error>)
    ensures
        match r {
            Ok(c) => c.wf() && c.name@ == name@ && valid_name(name@) && valid_literal(password@)
                && c.hash@ == argon2_hash(password.spec_bytes(), c.salt@),
            Err(e) => match e {
                Error::BadString(t) => (!valid_name(name@) && t@ == name@) || (valid_name(name@)
                    && !valid_literal(password@) && t@ == password@),
                Error::HashFailure => valid_name(name@) && valid_literal(password@)
                    && password.spec_bytes().len() > 0xFFFF_FFFF,
                _ => false,
            },
        },
        valid_name(name@) && valid_literal(password@) && password.spec_bytes().len()
            <= 0xFFFF_FFFF ==> r is Ok,
{
    match validate_name(name) {
        Ok(_) => {},
        Err(e) => {
            return Err(e);
        },
    }
    match validate_str(password) {
        Ok(_) => {},
        Err(e) => {
            return Err(e);
        },
    }
    let salt = random_salt();
    let hash = match derive_hash(password.as_bytes(), salt.as_slice()) {
        Ok(h) => h,
        Err(_) => {
            return Err(Error::HashFailure);
        },
    };
    Ok(Credential { name: name.to_owned(), salt, hash })
}

/// Builds the creation query for a credential. The encoded salt and hash are
/// proved safe for single-quoted interpolation, so together with the
/// validated name the query's structure cannot be changed by its inputs.
pub fn create_user_query(c: &Credential) -> (q: String)
    requires
        c.wf(),
    ensures
        q@ == create_query(c.name@, b64_encode(c.salt@), b64_encode(c.hash@)),
{
    proof {
        lemma_b64_text_safe(c.salt@);
        lemma_b64_text_safe(c.hash@);
    }
    let salt_text = base64_encode(c.salt.as_slice());
    let hash_text = base64_encode(c.hash.as_slice());
    let mut q = "CREATE user:`".to_owned();
    q.append(c.name.as_str());
    q.append("` SET salt = '");
    q.append(salt_text.as_str());
    q.append("', pwd_hash = '");
    q.append(hash_text.as_str());
    q.append("' RETURN id");
    q
}

/// Interprets the normalized result of the existence-check query: an empty
/// response is a malformed store answer, an empty row list means the actor
/// does not exist, and otherwise the canonical name is handed back.
pub fn local_actor_outcome(name: String, resp: QueryResponse) -> (r: Result<String, Error>)
    ensures
        match r {
            Ok(out) => resp@.len() > 0 && resp@.last()@.len() > 0 && out == name,
            Err(e) => match e {
                Error::BadQuery(j) => resp@.len() == 0 && (j matches Json::Str(m) && m@
                    == "empty response"@),
                Error::NoSuchEntity => resp@.len() > 0 && resp@.last()@.len() == 0,
                _ => false,
            },
        },
{
    let mut resp = resp;
    match resp.pop() {
        None => Err(Error::BadQuery(Json::Str("empty response".to_owned()))),
        Some(rows) => {
            if rows.len() == 0 {
                Err(Error::NoSuchEntity)
            } else {
                Ok(name)
            }
        },
    }
}

/// The row the generated identifier is read from: the first row of the first
/// statement result.
pub open spec fn first_row(resp: Seq<Vec<Row>>) -> Option<Row> {
    if resp.len() == 0 {
        None
    } else if resp[0]@.len() == 0 {
        None
    } else {
        Some(resp[0]@[0])
    }
}

/// Extracts the generated identifier from the normalized result of the
/// creation query: the string under `id` in the first row of the first
/// statement. A missing statement result, a missing row, and a missing or
/// non-string field are three distinct conditions.
pub fn created_id(resp: QueryResponse) -> (r: Result<String, Error>)
    ensures
        match r {
            Ok(id) => first_row(resp@) matches Some(row) && (obj_get(row@, "id"@) matches Some(
                Json::Str(s),
            ) && s == id),
            Err(e) => match e {
                Error::BadQuery(j) => j matches Json::Str(m) && ((resp@.len() == 0 && m@
                    == "empty response"@) || (resp@.len() > 0 && resp@[0]@.len() == 0 && m@
                    == "empty statement result"@)),
                Error::MissingData(f) => f@ == "id"@ && (first_row(resp@) matches Some(row) && !(
                obj_get(row@, "id"@) matches Some(Json::Str(_)))),
                _ => false,
            },
        },
{
    let mut resp = resp;
    if resp.len() == 0 {
        return Err(Error::BadQuery(Json::Str("empty response".to_owned())));
    }
    let mut rows = resp.remove(0);
    if rows.len() == 0 {
        return Err(Error::BadQuery(Json::Str("empty statement result".to_owned())));
    }
    let mut row = rows.remove(0);
    match obj_remove(&mut row, "id") {
        Some(Json::Str(s)) => Ok(s),
        _ => Err(Error::MissingData("id".to_owned())),
    }
}

/// The account-facing façade: holds the session configuration its callers
/// run queries through.
pub struct UserManager {
    pub db: Database,
}

impl UserManager {
    pub fn new(db: Database) -> (m: UserManager)
        ensures
            m.db == db,
    {
        UserManager { db }
    }
}

} // verus!
