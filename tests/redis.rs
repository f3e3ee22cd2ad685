use spaceapi_server::redis_store::{read_outcome, write_outcome, RedisStore};
use spaceapi_server::store::DataStoreError;

#[test]
fn redis_store_opens_without_connecting() {
    assert!(RedisStore::new().is_ok());
    assert!(RedisStore::open("redis://127.0.0.1:6390/3").is_ok());
}

#[test]
fn redis_store_refuses_malformed_url() {
    assert!(matches!(RedisStore::open("not a url"), Err(DataStoreError::Backend)));
}

#[test]
fn redis_outcomes_name_the_failure() {
    assert_eq!(read_outcome(false, Ok(Some("v".to_string()))), Err(DataStoreError::Unavailable));
    assert_eq!(read_outcome(true, Ok(Some("v".to_string()))), Ok("v".to_string()));
    assert_eq!(read_outcome(true, Ok(None)), Err(DataStoreError::NotFound));
    assert_eq!(read_outcome(true, Err(())), Err(DataStoreError::Backend));
    assert_eq!(write_outcome(false, Ok(())), Err(DataStoreError::Unavailable));
    assert_eq!(write_outcome(true, Ok(())), Ok(()));
    assert_eq!(write_outcome(true, Err(())), Err(DataStoreError::Backend));
}
