use spaceapi_server::modifiers::Modifier;
use spaceapi_server::response::ErrorResponse;
use spaceapi_server::sensors::{PeopleNowPresentSensorTemplate, SensorTemplate};
use spaceapi_server::server::{SpaceapiServer, SpaceapiServerBuilder};
use spaceapi_server::session::{
    check_session, constant_time_eq, decode_record, encode_record, session_outcome, sign,
    verify_and_consume, SessionError, SessionRecord, SESSION_TTL_SECS,
};
use spaceapi_server::status::Status;
use spaceapi_server::store::{DataStore, DataStoreError, MemoryStore};

const SECRET: &str = "1111111111111111111111111111111111111111111111111111111111111111";
const SIGNATURE_OF_3: &str = "83c9a69033a95ae6010f538d47e9d3a91233e1f3e694ffe17953ac2d979c1ad2";

fn server() -> SpaceapiServer<Modifier> {
    SpaceapiServerBuilder::new(Status::new())
        .add_sensor(
            SensorTemplate::PeopleNowPresent(PeopleNowPresentSensorTemplate {
                location: None,
                name: None,
                names: None,
                description: None,
            }),
            "people_now_present".to_string(),
        )
        .build()
        .unwrap_or_else(|_| panic!("sensor keys are distinct"))
}

fn session(srv: &SpaceapiServer<Modifier>, store: &mut MemoryStore, now: u64) -> String {
    let token = srv
        .create_session_with(store, "people_now_present", &[0x11; 32], &[0xab; 32], now)
        .unwrap_or_else(|_| panic!("registered"));
    assert_eq!(token.secret, SECRET);
    assert_eq!(token.session_id, "ab".repeat(32));
    token.session_id
}

#[test]
fn signature_is_hmac_sha256_hex() {
    assert_eq!(sign(SECRET, "people_now_present", "3"), SIGNATURE_OF_3);
    assert_ne!(sign(SECRET, "people_now_present", "4"), SIGNATURE_OF_3);
}

#[test]
fn signed_update_is_written() {
    let srv = server();
    let mut store = MemoryStore::new();
    let id = session(&srv, &mut store, 1000);
    let r = srv.update_with_session(&mut store, &id, SIGNATURE_OF_3, "people_now_present", "3", 1001);
    assert_eq!(r, Ok(()));
    assert_eq!(store.retrieve("people_now_present").unwrap(), "3");
}

#[test]
fn session_is_single_use() {
    let srv = server();
    let mut store = MemoryStore::new();
    let id = session(&srv, &mut store, 1000);
    let first = srv.update_with_session(&mut store, &id, SIGNATURE_OF_3, "people_now_present", "3", 1001);
    assert_eq!(first, Ok(()));
    let second = srv.update_with_session(&mut store, &id, SIGNATURE_OF_3, "people_now_present", "3", 1002);
    assert_eq!(second, Err(SessionError::NotFound));
}

#[test]
fn failed_attempt_consumes_session() {
    let srv = server();
    let mut store = MemoryStore::new();
    let id = session(&srv, &mut store, 1000);
    let bad = srv.update_with_session(&mut store, &id, "00", "people_now_present", "3", 1001);
    assert_eq!(bad, Err(SessionError::Mismatch));
    assert_eq!(store.retrieve("people_now_present").unwrap_err(), DataStoreError::NotFound);
    let good = srv.update_with_session(&mut store, &id, SIGNATURE_OF_3, "people_now_present", "3", 1002);
    assert_eq!(good, Err(SessionError::NotFound));
}

#[test]
fn expired_session_is_refused() {
    let srv = server();
    let mut store = MemoryStore::new();
    let id = session(&srv, &mut store, 1000);
    let r = srv.update_with_session(
        &mut store,
        &id,
        SIGNATURE_OF_3,
        "people_now_present",
        "3",
        1000 + SESSION_TTL_SECS,
    );
    assert_eq!(r, Err(SessionError::Expired));
    assert_eq!(store.retrieve("people_now_present").unwrap_err(), DataStoreError::NotFound);
}

#[test]
fn unknown_sensor_is_refused_without_writes() {
    let srv = server();
    let mut store = MemoryStore::new();
    let created = srv.create_session(&mut store, "nope", 5);
    assert!(matches!(created, Err(SessionError::UnknownSensor)));
    let id = session(&srv, &mut store, 1000);
    let r = srv.update_with_session(&mut store, &id, SIGNATURE_OF_3, "nope", "3", 1001);
    assert_eq!(r, Err(SessionError::UnknownSensor));
    assert!(store.retrieve(&format!("session:{}", id)).is_ok());
    assert_eq!(store.retrieve("nope").unwrap_err(), DataStoreError::NotFound);
}

#[test]
fn random_sessions_differ() {
    let srv = server();
    let mut store = MemoryStore::new();
    let a = srv.create_session(&mut store, "people_now_present", 1).unwrap_or_else(|_| panic!("registered"));
    let b = srv.create_session(&mut store, "people_now_present", 1).unwrap_or_else(|_| panic!("registered"));
    assert_eq!(a.session_id.len(), 64);
    assert_eq!(a.secret.len(), 64);
    assert_ne!(a.session_id, b.session_id);
    assert_ne!(a.secret, b.secret);
    let sig = sign(&a.secret, "people_now_present", "5");
    let r = srv.update_with_session(&mut store, &a.session_id, &sig, "people_now_present", "5", 2);
    assert_eq!(r, Ok(()));
}

#[test]
fn record_text_round_trip() {
    let rec = SessionRecord {
        sensor_key: "a:b".to_string(),
        secret: "beef".to_string(),
        issued_at: 17,
        ttl: 300,
    };
    let text = encode_record(&rec);
    assert_eq!(text, "17:300:beef:a:b");
    let back = decode_record(&text).unwrap();
    assert_eq!(back.sensor_key, "a:b");
    assert_eq!(back.secret, "beef");
    assert_eq!(back.issued_at, 17);
    assert_eq!(back.ttl, 300);
    assert!(decode_record("17:300").is_none());
    assert!(decode_record("x:300:s:k").is_none());
}

#[test]
fn check_session_outcomes() {
    let rec = SessionRecord {
        sensor_key: "people_now_present".to_string(),
        secret: SECRET.to_string(),
        issued_at: 100,
        ttl: 10,
    };
    assert_eq!(check_session(&rec, "people_now_present", "3", SIGNATURE_OF_3, 105), Ok(()));
    assert_eq!(check_session(&rec, "people_now_present", "3", SIGNATURE_OF_3, 110), Err(SessionError::Expired));
    assert_eq!(check_session(&rec, "other", "3", SIGNATURE_OF_3, 105), Err(SessionError::Mismatch));
    assert_eq!(check_session(&rec, "people_now_present", "4", SIGNATURE_OF_3, 105), Err(SessionError::Mismatch));
}

#[test]
fn verify_without_session_is_not_found() {
    let mut store = MemoryStore::new();
    let r = verify_and_consume(&mut store, "missing", "00", "k", "v", 0);
    assert_eq!(r, Err(SessionError::NotFound));
    store.store("session:junk", "not a record").unwrap();
    let r = verify_and_consume(&mut store, "junk", "00", "k", "v", 0);
    assert_eq!(r, Err(SessionError::NotFound));
    assert_eq!(store.retrieve("session:junk").unwrap_err(), DataStoreError::NotFound);
}

#[test]
fn constant_time_eq_compares_text() {
    assert!(constant_time_eq("abc", "abc"));
    assert!(!constant_time_eq("abc", "abd"));
    assert!(!constant_time_eq("abc", "ab"));
    assert!(constant_time_eq("", ""));
}

#[test]
fn test_serialize_error_response() {
    let error = ErrorResponse {
        reason: "foobared".into(),
    };
    let json = error.to_json();
    assert_eq!(json, r#"{"status":"error","reason":"foobared"}"#);
}

#[test]
fn error_response_escapes_reason() {
    let error = ErrorResponse {
        reason: "say \"hi\"\n".into(),
    };
    assert_eq!(error.to_json(), r#"{"status":"error","reason":"say \"hi\"\n"}"#);
}

#[test]
fn session_errors_map_to_http() {
    assert_eq!(SessionError::UnknownSensor.http_status(), 400);
    assert_eq!(SessionError::NotFound.http_status(), 401);
    assert_eq!(SessionError::Expired.http_status(), 401);
    assert_eq!(SessionError::Mismatch.http_status(), 401);
    assert_eq!(SessionError::Store(DataStoreError::Unavailable).http_status(), 500);
    assert_eq!(SessionError::Expired.reason(), SessionError::Mismatch.reason());
    assert_eq!(
        SessionError::Store(DataStoreError::Backend).response().to_json(),
        r#"{"status":"error","reason":"Updating values in datastore failed"}"#
    );
}

#[test]
fn error_response_escapes_control_characters() {
    let error = ErrorResponse {
        reason: "a\\b\u{1}\t/".into(),
    };
    assert_eq!(error.to_json(), r#"{"status":"error","reason":"a\\b\u0001\t/"}"#);
}

#[test]
fn session_space_sensor_keys_are_refused() {
    let srv = SpaceapiServerBuilder::<Modifier>::new(Status::new())
        .add_sensor(
            SensorTemplate::PeopleNowPresent(PeopleNowPresentSensorTemplate {
                location: None,
                name: None,
                names: None,
                description: None,
            }),
            "session:x".to_string(),
        )
        .build()
        .unwrap_or_else(|_| panic!("keys are distinct"));
    let mut store = MemoryStore::new();
    store.store("session:x", "1:300:aa:k").unwrap();
    let created = srv.create_session_with(&mut store, "session:x", &[1; 32], &[2; 32], 0);
    assert!(matches!(created, Err(SessionError::ReservedKey)));
    assert!(matches!(srv.create_session(&mut store, "session:x", 0), Err(SessionError::ReservedKey)));
    let r = srv.update_with_session(&mut store, "x", "00", "session:x", "v", 0);
    assert_eq!(r, Err(SessionError::ReservedKey));
    assert_eq!(store.retrieve("session:x").unwrap(), "1:300:aa:k");
    assert_eq!(SessionError::ReservedKey.http_status(), 400);
    assert_eq!(SessionError::NoRandomness.http_status(), 500);
}

#[test]
fn store_failures_during_verification_are_unavailable() {
    let ok_read: Result<String, DataStoreError> = Ok("100:10:beef:k".to_string());
    let failed_read: Result<String, DataStoreError> = Err(DataStoreError::Backend);
    let missing: Result<String, DataStoreError> = Err(DataStoreError::NotFound);
    let deleted: Result<(), DataStoreError> = Ok(());
    let not_deleted: Result<(), DataStoreError> = Err(DataStoreError::Backend);
    assert_eq!(
        session_outcome(&failed_read, &deleted, "k", "v", "00", 101),
        Err(SessionError::Store(DataStoreError::Unavailable))
    );
    assert_eq!(
        session_outcome(&ok_read, &not_deleted, "k", "v", "00", 101),
        Err(SessionError::Store(DataStoreError::Unavailable))
    );
    assert_eq!(session_outcome(&missing, &deleted, "k", "v", "00", 101), Err(SessionError::NotFound));
    assert_eq!(session_outcome(&ok_read, &deleted, "k", "v", "00", 101), Err(SessionError::Mismatch));
    let sig = sign("beef", "k", "v");
    assert_eq!(session_outcome(&ok_read, &deleted, "k", "v", &sig, 101), Ok(()));
    assert_eq!(session_outcome(&ok_read, &deleted, "k", "v", &sig, 110), Err(SessionError::Expired));
}
