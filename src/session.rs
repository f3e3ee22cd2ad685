//! Single-use, short-lived signed sessions that authorize one sensor write.
//!
//! A session record lives in the store under `session:<id>` and holds the
//! time it was issued, its lifetime, its secret and the sensor it is for. A
//! write carries the session id and a signature: the lower-case hexadecimal
//! HMAC-SHA256 tag, under the secret, of the text `<key length>:<key><value>`.
use vstd::prelude::*;
use hmac::Mac;
use rand::RngCore;
use vstd::utf8::{encode_utf8, encode_utf8_decode_utf8};
use crate::modifiers::StatusModifier;
use crate::sensors::SensorError;
use crate::server::{SpaceapiServer, is_registered};
use crate::store::{DataStore, DataStoreError};
use crate::text::{
    decimal, hex, hex_string, is_hex_char, lemma_decimal_parses, lemma_hex_chars, parse_decimal,
    parse_u64, push_decimal,
};

verus! {

/// How long a session may be used, in seconds.
pub const SESSION_TTL_SECS: u64 = 300;

/// The prefix of the store keys of session records.
pub const SESSION_KEY_PREFIX: &'static str = "session:";

/// Why a session could not authorize a write.
#[derive(Debug, Clone, Copy, PartialEq, Eq, Structural)]
pub enum SessionError {
    /// No sensor is registered under the key.
    UnknownSensor,
    /// No session under the id: consumed, expired, or never issued.
    NotFound,
    /// The session's lifetime is over.
    Expired,
    /// The signature does not match, or the session is for another sensor.
    Mismatch,
    /// The sensor's key lies in the space of session records, so a session
    /// write to it could forge or revive a session.
    ReservedKey,
    /// No random secret could be drawn from the operating system.
    NoRandomness,
    /// The store failed.
    Store(DataStoreError),
}

/// What a caller receives for a new session: its id and its secret.
pub struct SessionToken {
    pub session_id: String,
    pub secret: String,
}

/// A session as the store keeps it.
pub struct SessionRecord {
    pub sensor_key: String,
    pub secret: String,
    pub issued_at: u64,
    pub ttl: u64,
}

/// What a [`SessionRecord`] holds, as plain values.
pub struct SessionRecordView {
    pub sensor_key: Seq<char>,
    pub secret: Seq<char>,
    pub issued_at: u64,
    pub ttl: u64,
}

impl View for SessionRecord {
    type V = SessionRecordView;

    open spec fn view(&self) -> SessionRecordView {
        SessionRecordView {
            sensor_key: self.sensor_key@,
            secret: self.secret@,
            issued_at: self.issued_at,
            ttl: self.ttl,
        }
    }
}

/// The store key of the session `id`.
pub open spec fn session_key(id: Seq<char>) -> Seq<char> {
    SESSION_KEY_PREFIX@ + id
}

/// Whether a store key lies in the space of session records.
pub open spec fn is_session_key(k: Seq<char>) -> bool {
    k.len() >= SESSION_KEY_PREFIX@.len() && k.subrange(0, SESSION_KEY_PREFIX@.len() as int)
        == SESSION_KEY_PREFIX@
}

/// Every session's store key lies in the space of session records.
pub proof fn lemma_session_key_reserved(id: Seq<char>)
    ensures
        is_session_key(session_key(id)),
{
    assert(session_key(id).subrange(0, SESSION_KEY_PREFIX@.len() as int) =~= SESSION_KEY_PREFIX@);
}

/// Whether `key` lies in the space of session records.
pub fn has_session_prefix(key: &str) -> (r: bool)
    ensures
        r == is_session_key(key@),
{
    let p = SESSION_KEY_PREFIX;
    let n = p.unicode_len();
    if key.unicode_len() < n {
        return false;
    }
    let mut i: usize = 0;
    while i < n
        invariant
            i <= n,
            n == p@.len(),
            n <= key@.len(),
            p@ == SESSION_KEY_PREFIX@,
            forall|j: int| 0 <= j < i ==> #[trigger] key@[j] == p@[j],
        decreases n - i,
    {
        if key.get_char(i) != p.get_char(i) {
            assert(key@.subrange(0, n as int)[i as int] != p@[i as int]);
            return false;
        }
        i = i + 1;
    }
    assert(key@.subrange(0, n as int) =~= p@);
    true
}

pub open spec fn no_colon(s: Seq<char>) -> bool {
    forall|i: int| 0 <= i < s.len() ==> #[trigger] s[i] != ':'
}

/// The index of the first `:` in `s`, or its length.
pub open spec fn colon_index(s: Seq<char>) -> int
    decreases s.len(),
{
    if s.len() == 0 {
        0
    } else if s[0] == ':' {
        0
    } else {
        1 + colon_index(s.drop_first())
    }
}

/// The text of a session record: `<issued>:<ttl>:<secret>:<sensor key>`.
pub open spec fn record_text(r: SessionRecordView) -> Seq<char> {
    decimal(r.issued_at as nat) + seq![':'] + decimal(r.ttl as nat) + seq![':'] + r.secret + seq![
        ':',
    ] + r.sensor_key
}

/// The session record that a text spells, if any: three `:`-terminated
/// fields (two decimal numbers and the secret), then the sensor key.
pub open spec fn decode_text(t: Seq<char>) -> Option<SessionRecordView> {
    let a = colon_index(t);
    let t1 = t.subrange(a + 1, t.len() as int);
    let b = colon_index(t1);
    let t2 = t1.subrange(b + 1, t1.len() as int);
    let c = colon_index(t2);
    if a >= t.len() || b >= t1.len() || c >= t2.len() {
        None
    } else {
        match (parse_decimal(t.subrange(0, a)), parse_decimal(t1.subrange(0, b))) {
            (Some(issued_at), Some(ttl)) => Some(
                SessionRecordView {
                    issued_at,
                    ttl,
                    secret: t2.subrange(0, c),
                    sensor_key: t2.subrange(c + 1, t2.len() as int),
                },
            ),
            _ => None,
        }
    }
}

/// The text that a write's signature covers: the key's length, a `:`, the
/// key and the value, so that no two pairs share a text.
pub open spec fn signed_message(key: Seq<char>, value: Seq<char>) -> Seq<char> {
    decimal(key.len()) + seq![':'] + key + value
}

/// The HMAC-SHA256 tag of `msg` under `key`.
pub uninterp spec fn hmac_sha256(key: Seq<u8>, msg: Seq<u8>) -> Seq<u8>;

/// The signature that the holder of `secret` gives to writing `value` to `key`.
pub open spec fn expected_signature(secret: Seq<char>, key: Seq<char>, value: Seq<char>) -> Seq<
    char,
> {
    hex(hmac_sha256(encode_utf8(secret), encode_utf8(signed_message(key, value))))
}

/// The outcome of checking a write against a session record at time `now`.
pub open spec fn session_check(
    rec: SessionRecordView,
    key: Seq<char>,
    value: Seq<char>,
    signature: Seq<char>,
    now: u64,
) -> Result<(), SessionError> {
    if now >= rec.issued_at + rec.ttl {
        Err(SessionError::Expired)
    } else if rec.sensor_key != key || expected_signature(rec.secret, key, value) != signature {
        Err(SessionError::Mismatch)
    } else {
        Ok(())
    }
}

/// The outcome of a verification against a store of contents `m`.
pub open spec fn verify_outcome(
    m: Map<Seq<char>, Seq<char>>,
    id: Seq<char>,
    signature: Seq<char>,
    key: Seq<char>,
    value: Seq<char>,
    now: u64,
) -> Result<(), SessionError> {
    let k = session_key(id);
    if !m.contains_key(k) {
        Err(SessionError::NotFound)
    } else {
        match decode_text(m[k]) {
            None => Err(SessionError::NotFound),
            Some(rec) => session_check(rec, key, value, signature, now),
        }
    }
}

proof fn lemma_colon_index(s: Seq<char>, k: int)
    requires
        0 <= k <= s.len(),
        forall|i: int| 0 <= i < k ==> #[trigger] s[i] != ':',
        k == s.len() || s[k] == ':',
    ensures
        colon_index(s) == k,
    decreases k,
{
    if k > 0 {
        assert forall|i: int| 0 <= i < k - 1 implies #[trigger] s.drop_first()[i] != ':' by {
            assert(s.drop_first()[i] == s[i + 1]);
        };
        lemma_colon_index(s.drop_first(), k - 1);
    }
}

proof fn lemma_decimal_no_colon(n: nat)
    requires
        n <= u64::MAX,
    ensures
        no_colon(decimal(n)),
{
    lemma_decimal_parses(n);
    assert forall|i: int| 0 <= i < decimal(n).len() implies #[trigger] decimal(n)[i] != ':' by {
        assert(crate::text::is_digit(decimal(n)[i]));
    };
}

/// A record whose secret holds no `:` reads back from its text unchanged.
pub proof fn lemma_record_round_trip(r: SessionRecordView)
    requires
        no_colon(r.secret),
    ensures
        decode_text(record_text(r)) == Some(r),
{
    let d1 = decimal(r.issued_at as nat);
    let d2 = decimal(r.ttl as nat);
    lemma_decimal_parses(r.issued_at as nat);
    lemma_decimal_parses(r.ttl as nat);
    lemma_decimal_no_colon(r.issued_at as nat);
    lemma_decimal_no_colon(r.ttl as nat);
    let t = record_text(r);
    let rest1 = d2 + seq![':'] + r.secret + seq![':'] + r.sensor_key;
    let rest2 = r.secret + seq![':'] + r.sensor_key;
    assert(t =~= d1 + seq![':'] + rest1);
    assert forall|i: int| 0 <= i < d1.len() implies #[trigger] t[i] != ':' by {
        assert(t[i] == d1[i]);
    };
    lemma_colon_index(t, d1.len() as int);
    let t1 = t.subrange(d1.len() as int + 1, t.len() as int);
    assert(t1 =~= rest1);
    assert forall|i: int| 0 <= i < d2.len() implies #[trigger] t1[i] != ':' by {
        assert(t1[i] == d2[i]);
    };
    lemma_colon_index(t1, d2.len() as int);
    let t2 = t1.subrange(d2.len() as int + 1, t1.len() as int);
    assert(t2 =~= rest2);
    assert forall|i: int| 0 <= i < r.secret.len() implies #[trigger] t2[i] != ':' by {
        assert(t2[i] == r.secret[i]);
    };
    lemma_colon_index(t2, r.secret.len() as int);
    assert(t.subrange(0, d1.len() as int) =~= d1);
    assert(t1.subrange(0, d2.len() as int) =~= d2);
    assert(t2.subrange(0, r.secret.len() as int) =~= r.secret);
    assert(t2.subrange(r.secret.len() as int + 1, t2.len() as int) =~= r.sensor_key);
}

/// The text of a record, as the store keeps it.
pub fn encode_record(rec: &SessionRecord) -> (r: String)
    ensures
        r@ == record_text(rec@),
{
    let mut s = String::new();
    push_decimal(&mut s, rec.issued_at);
    s.append(":");
    push_decimal(&mut s, rec.ttl);
    s.append(":");
    s.append(rec.secret.as_str());
    s.append(":");
    s.append(rec.sensor_key.as_str());
    proof { reveal_strlit(":"); }
    assert(s@ =~= record_text(rec@));
    s
}

/// The index of the first `:` at or after `from`, or `n`.
fn next_colon(s: &str, from: usize, n: usize) -> (r: usize)
    requires
        from <= n,
        n == s@.len(),
    ensures
        from <= r <= n,
        r == from + colon_index(s@.subrange(from as int, n as int)),
{
    let mut i: usize = from;
    while i < n && s.get_char(i) != ':'
        invariant
            from <= i <= n,
            n == s@.len(),
            forall|j: int| from <= j < i ==> #[trigger] s@[j] != ':',
        decreases n - i,
    {
        i = i + 1;
    }
    proof {
        let x = s@.subrange(from as int, n as int);
        assert forall|j: int| 0 <= j < i - from implies #[trigger] x[j] != ':' by {
            assert(x[j] == s@[from + j]);
        };
        lemma_colon_index(x, i - from);
    }
    i
}

/// Read a session record from its text.
pub fn decode_record(text: &str) -> (r: Option<SessionRecord>)
    ensures
        match r {
            Some(rec) => decode_text(text@) == Some(rec@),
            None => decode_text(text@) is None,
        },
{
    let ghost t = text@;
    let n = text.unicode_len();
    let a = next_colon(text, 0, n);
    assert(t.subrange(0, n as int) =~= t);
    if a == n {
        return None;
    }
    let b = next_colon(text, a + 1, n);
    let ghost t1 = t.subrange(a + 1, t.len() as int);
    assert(t1 =~= t.subrange(a + 1, n as int));
    if b == n {
        return None;
    }
    let c = next_colon(text, b + 1, n);
    let ghost t2 = t1.subrange(b - a, t1.len() as int);
    assert(t2 =~= t.subrange(b + 1, n as int));
    if c == n {
        return None;
    }
    assert(t1.subrange(0, b - a - 1) =~= t.subrange(a + 1, b as int));
    assert(t2.subrange(0, c - b - 1) =~= t.subrange(b + 1, c as int));
    assert(t2.subrange(c - b, t2.len() as int) =~= t.subrange(c + 1, n as int));
    let issued = parse_u64(text.substring_char(0, a));
    let ttl = parse_u64(text.substring_char(a + 1, b));
    match (issued, ttl) {
        (Some(issued_at), Some(ttl)) => Some(
            SessionRecord {
                issued_at,
                ttl,
                secret: String::from_str(text.substring_char(b + 1, c)),
                sensor_key: String::from_str(text.substring_char(c + 1, n)),
            },
        ),
        _ => None,
    }
}

/// Relies on the hmac crate's `Hmac<Sha256>` (`new_from_slice`, `update`,
/// `finalize`): the HMAC-SHA256 tag of `msg` under `key`, which is 32 bytes.
/// HMAC takes keys of any length, so `new_from_slice` does not fail.
#[verifier::external_body]
fn hmac_tag(key: &[u8], msg: &[u8]) -> (r: Vec<u8>)
    ensures
        r@ == hmac_sha256(key@, msg@),
        r@.len() == 32,
{
    let mut mac = hmac::Hmac::<sha2::Sha256>::new_from_slice(key).expect("any key length");
    mac.update(msg);
    mac.finalize().into_bytes().to_vec()
}

/// The signature that the holder of `secret` gives to writing `value` to
/// the sensor `key`.
pub fn sign(secret: &str, key: &str, value: &str) -> (r: String)
    ensures
        r@ == expected_signature(secret@, key@, value@),
{
    let mut msg = String::new();
    let len = key.unicode_len();
    push_decimal(&mut msg, len as u64);
    msg.append(":");
    msg.append(key);
    msg.append(value);
    proof { reveal_strlit(":"); }
    assert(msg@ =~= signed_message(key@, value@));
    let tag = hmac_tag(secret.as_bytes(), msg.as_str().as_bytes());
    hex_string(tag.as_slice())
}

/// Whether two texts are equal, in time that depends on their lengths only.
pub fn constant_time_eq(a: &str, b: &str) -> (r: bool)
    ensures
        r == (a@ == b@),
{
    let x = a.as_bytes();
    let y = b.as_bytes();
    proof {
        encode_utf8_decode_utf8(a@);
        encode_utf8_decode_utf8(b@);
    }
    if x.len() != y.len() {
        return false;
    }
    let mut diff: u8 = 0;
    let mut i: usize = 0;
    assert(x@.subrange(0, 0) =~= y@.subrange(0, 0));
    while i < x.len()
        invariant
            i <= x@.len(),
            x@.len() == y@.len(),
            (diff == 0) == (x@.subrange(0, i as int) == y@.subrange(0, i as int)),
        decreases x@.len() - i,
    {
        let p = x[i];
        let q = y[i];
        let d = diff;
        assert((d | (p ^ q)) == 0 <==> (d == 0 && p == q)) by (bit_vector);
        diff = d | (p ^ q);
        proof {
            if x@.subrange(0, i + 1) == y@.subrange(0, i + 1) {
                assert(x@.subrange(0, i + 1)[i as int] == y@.subrange(0, i + 1)[i as int]);
                assert(x@.subrange(0, i as int) =~= x@.subrange(0, i + 1).subrange(0, i as int));
                assert(y@.subrange(0, i as int) =~= y@.subrange(0, i + 1).subrange(0, i as int));
            }
            if d == 0 && p == q {
                assert(x@.subrange(0, i + 1) =~= y@.subrange(0, i + 1));
            }
        }
        i = i + 1;
    }
    assert(x@.subrange(0, i as int) =~= x@);
    assert(y@.subrange(0, i as int) =~= y@);
    diff == 0
}

/// Check a write of `value` to `sensor_key` with `signature` against a
/// session record at time `now`.
pub fn check_session(
    rec: &SessionRecord,
    sensor_key: &str,
    value: &str,
    signature: &str,
    now: u64,
) -> (r: Result<(), SessionError>)
    ensures
        r == session_check(rec@, sensor_key@, value@, signature@, now),
{
    if now >= rec.issued_at && now - rec.issued_at >= rec.ttl {
        return Err(SessionError::Expired);
    }
    let expected = sign(rec.secret.as_str(), rec.sensor_key.as_str(), value);
    let same_key = constant_time_eq(rec.sensor_key.as_str(), sensor_key);
    let same_sig = constant_time_eq(expected.as_str(), signature);
    if same_key && same_sig {
        Ok(())
    } else {
        Err(SessionError::Mismatch)
    }
}

/// The store key of the session `id`.
pub fn session_key_string(id: &str) -> (r: String)
    ensures
        r@ == session_key(id@),
{
    let mut k = String::from_str(SESSION_KEY_PREFIX);
    k.append(id);
    k
}

/// What a store read answered, as plain values.
pub open spec fn read_view(r: Result<String, DataStoreError>) -> Result<Seq<char>, DataStoreError> {
    match r {
        Ok(v) => Ok(v@),
        Err(e) => Err(e),
    }
}

/// The outcome of a verification from what the store answered: the read of
/// the record and, where the read found it, its deletion. A failed read or
/// delete is the store being unavailable, never a success.
pub open spec fn consume_outcome(
    read: Result<Seq<char>, DataStoreError>,
    delete: Result<(), DataStoreError>,
    key: Seq<char>,
    value: Seq<char>,
    signature: Seq<char>,
    now: u64,
) -> Result<(), SessionError> {
    match read {
        Err(DataStoreError::NotFound) => Err(SessionError::NotFound),
        Err(_) => Err(SessionError::Store(DataStoreError::Unavailable)),
        Ok(text) => match delete {
            Err(_) => Err(SessionError::Store(DataStoreError::Unavailable)),
            Ok(()) => match decode_text(text) {
                None => Err(SessionError::NotFound),
                Some(rec) => session_check(rec, key, value, signature, now),
            },
        },
    }
}

/// Decide a verification from what the store answered for the session
/// record: its read, and its deletion (looked at only where the read found
/// the record).
pub fn session_outcome(
    read: &Result<String, DataStoreError>,
    delete: &Result<(), DataStoreError>,
    sensor_key: &str,
    value: &str,
    signature: &str,
    now: u64,
) -> (r: Result<(), SessionError>)
    ensures
        r == consume_outcome(read_view(*read), *delete, sensor_key@, value@, signature@, now),
{
    match read {
        Err(DataStoreError::NotFound) => Err(SessionError::NotFound),
        Err(_) => Err(SessionError::Store(DataStoreError::Unavailable)),
        Ok(text) => match delete {
            Err(_) => Err(SessionError::Store(DataStoreError::Unavailable)),
            Ok(()) => match decode_record(text.as_str()) {
                None => Err(SessionError::NotFound),
                Some(rec) => check_session(&rec, sensor_key, value, signature, now),
            },
        },
    }
}

/// Load the session `session_id`, end its usable life by deleting it from
/// the store, and check the write of `value` to `sensor_key` with
/// `signature` against it at time `now`. The record is deleted whether the
/// check succeeds or fails, so a session never authorizes twice.
///
/// Whatever the store answers, the outcome is the one decided from those
/// answers; a store that obeys its model answers what it holds.
pub fn verify_and_consume<S: DataStore>(
    store: &mut S,
    session_id: &str,
    signature: &str,
    sensor_key: &str,
    value: &str,
    now: u64,
) -> (r: Result<(), SessionError>)
    ensures
        exists|read: Result<Seq<char>, DataStoreError>, delete: Result<(), DataStoreError>|
            r == #[trigger] consume_outcome(read, delete, sensor_key@, value@, signature@, now),
        r is Ok ==> exists|rec: SessionRecordView|
            #[trigger] session_check(rec, sensor_key@, value@, signature@, now) == Ok::<
                (),
                SessionError,
            >(()),
        final(store).obeys_model() == old(store).obeys_model(),
        old(store).obeys_model() ==> r == verify_outcome(
            old(store).model(),
            session_id@,
            signature@,
            sensor_key@,
            value@,
            now,
        ) && final(store).model() == old(store).model().remove(session_key(session_id@)),
{
    let k = session_key_string(session_id);
    let read = store.retrieve(k.as_str());
    let delete = match &read {
        Ok(_) => store.delete(k.as_str()),
        Err(_) => {
            assert(store.obeys_model() ==> store.model().remove(k@) =~= store.model());
            Ok(())
        },
    };
    let r = session_outcome(&read, &delete, sensor_key, value, signature, now);
    proof {
        if r is Ok {
            let text = read_view(read)->Ok_0;
            let rec = decode_text(text)->Some_0;
            assert(session_check(rec, sensor_key@, value@, signature@, now) == Ok::<(), SessionError>(()));
        }
    }
    r
}

/// Relies on rand's `OsRng` and `RngCore::try_fill_bytes`: 32 bytes from the
/// operating system's random source, or `None` where it cannot be read.
#[verifier::external_body]
fn random_block() -> (r: Option<Vec<u8>>)
    ensures
        r matches Some(v) ==> v@.len() == 32,
{
    let mut b = [0u8; 32];
    match rand::rngs::OsRng.try_fill_bytes(&mut b) {
        Ok(()) => Some(b.to_vec()),
        Err(_) => None,
    }
}

/// The record that a new session for `key`, issued at `now` with the secret
/// `secret`, is stored as.
pub open spec fn new_record(key: Seq<char>, secret: Seq<char>, now: u64) -> SessionRecordView {
    SessionRecordView { sensor_key: key, secret, issued_at: now, ttl: SESSION_TTL_SECS }
}

impl<M: StatusModifier> SpaceapiServer<M> {
    /// Issue a session for a write to `sensor_key`, with the secret and id
    /// spelled in hexadecimal from the given random bytes, and store its
    /// record with the session lifetime. Leaves the store as it was, and
    /// fails with `UnknownSensor` where no sensor is registered under
    /// `sensor_key`, or with `ReservedKey` where its key lies in the space of
    /// session records. A store failure is `Unavailable`.
    pub fn create_session_with<S: DataStore>(
        &self,
        store: &mut S,
        sensor_key: &str,
        secret_bytes: &[u8],
        id_bytes: &[u8],
        now: u64,
    ) -> (r: Result<SessionToken, SessionError>)
        ensures
            !is_registered(self.spec_sensors(), sensor_key@) <==> r matches Err(
                SessionError::UnknownSensor,
            ),
            !is_registered(self.spec_sensors(), sensor_key@) ==> *final(store) == *old(store),
            is_registered(self.spec_sensors(), sensor_key@) ==> (is_session_key(sensor_key@) <==> r
                matches Err(SessionError::ReservedKey)),
            is_session_key(sensor_key@) ==> *final(store) == *old(store),
            r matches Err(e) ==> e matches SessionError::UnknownSensor || e matches SessionError::ReservedKey
                || e == SessionError::Store(DataStoreError::Unavailable),
            r matches Ok(t) ==> t.session_id@ == hex(id_bytes@) && t.secret@ == hex(secret_bytes@),
            final(store).obeys_model() == old(store).obeys_model(),
            is_registered(self.spec_sensors(), sensor_key@) && !is_session_key(sensor_key@)
                && old(store).obeys_model() ==> r is Ok && final(store).model() == old(store).model().insert(
                session_key(hex(id_bytes@)),
                record_text(new_record(sensor_key@, hex(secret_bytes@), now)),
            ),
    {
        if self.find_sensor(sensor_key).is_none() {
            return Err(SessionError::UnknownSensor);
        }
        if has_session_prefix(sensor_key) {
            return Err(SessionError::ReservedKey);
        }
        let secret = hex_string(secret_bytes);
        let id = hex_string(id_bytes);
        let rec = SessionRecord {
            sensor_key: String::from_str(sensor_key),
            secret: secret.clone(),
            issued_at: now,
            ttl: SESSION_TTL_SECS,
        };
        let text = encode_record(&rec);
        let k = session_key_string(id.as_str());
        match store.store_expiring(k.as_str(), text.as_str(), SESSION_TTL_SECS) {
            Ok(()) => Ok(SessionToken { session_id: id, secret }),
            Err(_) => Err(SessionError::Store(DataStoreError::Unavailable)),
        }
    }

    /// Issue a session for a write to `sensor_key`, with a fresh random
    /// secret and id from the operating system, and store its record with the
    /// session lifetime. Leaves the store as it was, and fails with
    /// `UnknownSensor` where no sensor is registered under `sensor_key`, with
    /// `ReservedKey` where its key lies in the space of session records, or
    /// with `NoRandomness` where no random bytes could be had. A store
    /// failure is `Unavailable`.
    pub fn create_session<S: DataStore>(&self, store: &mut S, sensor_key: &str, now: u64) -> (r:
        Result<SessionToken, SessionError>)
        ensures
            !is_registered(self.spec_sensors(), sensor_key@) <==> r matches Err(
                SessionError::UnknownSensor,
            ),
            !is_registered(self.spec_sensors(), sensor_key@) ==> *final(store) == *old(store),
            is_registered(self.spec_sensors(), sensor_key@) ==> (is_session_key(sensor_key@) <==> r
                matches Err(SessionError::ReservedKey)),
            is_session_key(sensor_key@) ==> *final(store) == *old(store),
            r matches Err(SessionError::NoRandomness) ==> *final(store) == *old(store),
            r matches Err(e) ==> e matches SessionError::UnknownSensor || e matches SessionError::ReservedKey
                || e matches SessionError::NoRandomness || e == SessionError::Store(
                DataStoreError::Unavailable,
            ),
            r matches Ok(t) ==> t.session_id@.len() == 64 && t.secret@.len() == 64 && no_colon(
                t.secret@,
            ) && exists|b: Seq<u8>| b.len() == 32 && #[trigger] hex(b) == t.secret@,
            final(store).obeys_model() == old(store).obeys_model(),
            is_registered(self.spec_sensors(), sensor_key@) && !is_session_key(sensor_key@)
                && old(store).obeys_model() && !(r matches Err(SessionError::NoRandomness)) ==> (
            r matches Ok(t) && final(store).model() == old(store).model().insert(
                session_key(t.session_id@),
                record_text(new_record(sensor_key@, t.secret@, now)),
            )),
    {
        if self.find_sensor(sensor_key).is_none() {
            return Err(SessionError::UnknownSensor);
        }
        if has_session_prefix(sensor_key) {
            return Err(SessionError::ReservedKey);
        }
        let (secret, id) = match (random_block(), random_block()) {
            (Some(secret), Some(id)) => (secret, id),
            _ => {
                return Err(SessionError::NoRandomness);
            },
        };
        proof {
            lemma_hex_chars(secret@);
            lemma_hex_chars(id@);
            lemma_hex_no_colon(secret@);
        }
        let r = self.create_session_with(store, sensor_key, secret.as_slice(), id.as_slice(), now);
        assert(r matches Ok(t) ==> secret@.len() == 32 && hex(secret@) == t.secret@);
        r
    }

    /// Write `value` to the sensor `sensor_key` where the session
    /// `session_id` authorizes it with `signature` at time `now`. The session
    /// is consumed by the attempt whatever its outcome. Leaves the store as it
    /// was, and fails with `UnknownSensor` where no sensor is registered under
    /// `sensor_key`, or with `ReservedKey` where its key lies in the space of
    /// session records.
    pub fn update_with_session<S: DataStore>(
        &self,
        store: &mut S,
        session_id: &str,
        signature: &str,
        sensor_key: &str,
        value: &str,
        now: u64,
    ) -> (r: Result<(), SessionError>)
        ensures
            !is_registered(self.spec_sensors(), sensor_key@) <==> r matches Err(
                SessionError::UnknownSensor,
            ),
            !is_registered(self.spec_sensors(), sensor_key@) ==> *final(store) == *old(store),
            is_registered(self.spec_sensors(), sensor_key@) ==> (is_session_key(sensor_key@) <==> r
                matches Err(SessionError::ReservedKey)),
            is_session_key(sensor_key@) ==> *final(store) == *old(store),
            r is Ok ==> exists|rec: SessionRecordView|
                #[trigger] session_check(rec, sensor_key@, value@, signature@, now) == Ok::<
                    (),
                    SessionError,
                >(()),
            is_registered(self.spec_sensors(), sensor_key@) && !is_session_key(sensor_key@) ==> exists|
                read: Result<Seq<char>, DataStoreError>,
                delete: Result<(), DataStoreError>,
            |
                {
                    let v = #[trigger] consume_outcome(read, delete, sensor_key@, value@, signature@, now);
                    if v is Ok {
                        r is Ok || r matches Err(SessionError::Store(_))
                    } else {
                        r == v
                    }
                },
            final(store).obeys_model() == old(store).obeys_model(),
            is_registered(self.spec_sensors(), sensor_key@) && !is_session_key(sensor_key@)
                && old(store).obeys_model() ==> !final(store).model().contains_key(
                session_key(session_id@),
            ),
            is_registered(self.spec_sensors(), sensor_key@) && !is_session_key(sensor_key@)
                && old(store).obeys_model() ==> {
                let outcome = verify_outcome(
                    old(store).model(),
                    session_id@,
                    signature@,
                    sensor_key@,
                    value@,
                    now,
                );
                let consumed = old(store).model().remove(session_key(session_id@));
                r == outcome && final(store).model() == (if outcome is Ok {
                    consumed.insert(sensor_key@, value@)
                } else {
                    consumed
                })
            },
    {
        proof {
            lemma_session_key_reserved(session_id@);
        }
        match self.find_sensor(sensor_key) {
            None => {
                return Err(SessionError::UnknownSensor);
            },
            Some(_) => {},
        }
        if has_session_prefix(sensor_key) {
            return Err(SessionError::ReservedKey);
        }
        assert(sensor_key@ != session_key(session_id@));
        match verify_and_consume(store, session_id, signature, sensor_key, value, now) {
            Err(e) => Err(e),
            Ok(()) => match self.update_sensor(store, sensor_key, value) {
                Ok(()) => Ok(()),
                Err(SensorError::UnknownSensor(_)) => Err(SessionError::UnknownSensor),
                Err(SensorError::Store(e)) => Err(SessionError::Store(e)),
            },
        }
    }
}

/// A session authorizes at most once: after a verification attempt, which
/// removes the record, every later attempt with the same id fails with
/// `NotFound`, whatever its signature, sensor, value or time.
pub proof fn lemma_session_single_use(
    m: Map<Seq<char>, Seq<char>>,
    id: Seq<char>,
    signature: Seq<char>,
    key: Seq<char>,
    value: Seq<char>,
    now: u64,
)
    ensures
        verify_outcome(m.remove(session_key(id)), id, signature, key, value, now) == Err::<
            (),
            SessionError,
        >(SessionError::NotFound),
{
}

/// A session verified once its lifetime is over fails with `Expired`, even
/// with the right signature for the right sensor.
pub proof fn lemma_session_expires(
    m: Map<Seq<char>, Seq<char>>,
    id: Seq<char>,
    key: Seq<char>,
    secret: Seq<char>,
    issued_at: u64,
    value: Seq<char>,
    now: u64,
)
    requires
        no_colon(secret),
        now >= issued_at + SESSION_TTL_SECS,
    ensures
        verify_outcome(
            m.insert(session_key(id), record_text(new_record(key, secret, issued_at))),
            id,
            expected_signature(secret, key, value),
            key,
            value,
            now,
        ) == Err::<(), SessionError>(SessionError::Expired),
{
    lemma_record_round_trip(new_record(key, secret, issued_at));
}

/// Secrets are hexadecimal, so they never hold the record separator.
pub proof fn lemma_hex_no_colon(b: Seq<u8>)
    ensures
        no_colon(hex(b)),
{
    lemma_hex_chars(b);
    assert forall|i: int| 0 <= i < hex(b).len() implies #[trigger] hex(b)[i] != ':' by {
        assert(is_hex_char(hex(b)[i]));
    };
}

} // verus!
