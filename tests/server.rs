use spaceapi_server::modifiers::{Modifier, StateFromPeopleNowPresent};
use spaceapi_server::sensors::{
    PeopleNowPresentSensorTemplate, SensorError, SensorTemplate, TemperatureSensorTemplate,
};
use spaceapi_server::server::{SpaceapiServer, SpaceapiServerBuilder, SpaceapiServerError};
use spaceapi_server::status::Status;
use spaceapi_server::store::{DataStore, DataStoreError, MemoryStore};
use spaceapi_server::sensors::SensorError as ReadError;

fn people_template() -> SensorTemplate {
    SensorTemplate::PeopleNowPresent(PeopleNowPresentSensorTemplate {
        location: Some("Hackerspace".to_string()),
        name: None,
        names: None,
        description: None,
    })
}

fn temperature_template(location: &str) -> SensorTemplate {
    SensorTemplate::Temperature(TemperatureSensorTemplate {
        unit: "°C".to_string(),
        location: location.to_string(),
        name: None,
        description: None,
    })
}

fn server() -> SpaceapiServer<Modifier> {
    SpaceapiServerBuilder::new(Status::new())
        .add_status_modifier(Modifier::StateFromPeopleNowPresent(StateFromPeopleNowPresent))
        .add_sensor(people_template(), "people_now_present".to_string())
        .add_sensor(temperature_template("Room 1"), "temp_room1".to_string())
        .add_sensor(temperature_template("Room 2"), "temp_room2".to_string())
        .build()
        .unwrap_or_else(|_| panic!("sensor keys are distinct"))
}

#[test]
fn no_readings_no_sensor_section() {
    let srv = server();
    let store = MemoryStore::new();
    let doc = srv.build_status(&store);
    assert!(doc.sensors.is_none());
    assert!(doc.state.is_none());
    assert_eq!(doc.versions.unwrap().server, "0.5.0");
}

#[test]
fn readings_in_registration_order() {
    let srv = server();
    let mut store = MemoryStore::new();
    store.store("temp_room2", "19.5").unwrap();
    store.store("people_now_present", "3").unwrap();
    store.store("unrelated", "9").unwrap();
    let doc = srv.build_status(&store);
    let sensors = doc.sensors.unwrap();
    assert_eq!(sensors.people_now_present.len(), 1);
    assert_eq!(sensors.people_now_present[0].value, 3);
    assert_eq!(sensors.people_now_present[0].location, Some("Hackerspace".to_string()));
    assert_eq!(sensors.temperature.len(), 1);
    assert_eq!(sensors.temperature[0].location, "Room 2");
    assert_eq!(sensors.temperature[0].value, "19.5");
    let state = doc.state.unwrap();
    assert_eq!(state.open, Some(true));
    assert_eq!(state.message, Some("3 people here right now".to_string()));

    store.store("temp_room1", "21").unwrap();
    let sensors = srv.build_status(&store).sensors.unwrap();
    assert_eq!(sensors.temperature.len(), 2);
    assert_eq!(sensors.temperature[0].location, "Room 1");
    assert_eq!(sensors.temperature[1].location, "Room 2");
}

#[test]
fn unparsable_reading_is_omitted() {
    let srv = server();
    let mut store = MemoryStore::new();
    store.store("people_now_present", "many").unwrap();
    store.store("temp_room1", "warm").unwrap();
    let sensors = srv.build_status(&store).sensors.unwrap();
    assert!(sensors.people_now_present.is_empty());
    assert!(sensors.temperature.is_empty());
}

#[test]
fn build_twice_gives_same_document() {
    let srv = server();
    let mut store = MemoryStore::new();
    store.store("people_now_present", "1").unwrap();
    store.store("temp_room1", "20.25").unwrap();
    let a = srv.build_status(&store);
    let b = srv.build_status(&store);
    let (sa, sb) = (a.sensors.unwrap(), b.sensors.unwrap());
    assert_eq!(sa.people_now_present.len(), sb.people_now_present.len());
    assert_eq!(sa.people_now_present[0].value, sb.people_now_present[0].value);
    assert_eq!(sa.temperature[0].value, sb.temperature[0].value);
    assert_eq!(a.state.unwrap().message, b.state.unwrap().message);
}

#[test]
fn many_builds_over_one_store_agree() {
    let srv = server();
    let mut store = MemoryStore::new();
    store.store("people_now_present", "2").unwrap();
    let shared = &store;
    for _ in 0..4 {
        let doc = srv.build_status(shared);
        assert_eq!(doc.sensors.unwrap().people_now_present[0].value, 2);
        assert_eq!(doc.state.unwrap().message, Some("2 people here right now".to_string()));
    }
}

#[test]
fn duplicate_sensor_keys_are_refused() {
    let r = SpaceapiServerBuilder::<Modifier>::new(Status::new())
        .add_sensor(people_template(), "k".to_string())
        .add_sensor(temperature_template("Room"), "k".to_string())
        .build();
    match r {
        Err(SpaceapiServerError::DuplicateSensor(k)) => assert_eq!(k, "k"),
        _ => panic!("expected a duplicate sensor error"),
    }
}

#[test]
fn update_sensor_writes_registered_keys_only() {
    let srv = server();
    let mut store = MemoryStore::new();
    srv.update_sensor(&mut store, "temp_room1", "22.5").unwrap_or_else(|_| panic!("registered"));
    assert_eq!(store.retrieve("temp_room1").unwrap(), "22.5");
    match srv.update_sensor(&mut store, "nope", "1") {
        Err(SensorError::UnknownSensor(k)) => assert_eq!(k, "nope"),
        _ => panic!("expected an unknown sensor error"),
    }
    assert_eq!(store.retrieve("nope").unwrap_err(), DataStoreError::NotFound);
}

#[test]
fn resolve_all_reads_each_sensor() {
    let srv = server();
    let mut store = MemoryStore::new();
    store.store("temp_room1", "18").unwrap();
    let results = srv.resolve_all(&store);
    assert_eq!(results.len(), 3);
    assert!(matches!(results[0], Err(ReadError::Store(DataStoreError::NotFound))));
    assert_eq!(results[1].as_ref().ok().map(|s| s.as_str()), Some("18"));
    assert!(matches!(results[2], Err(ReadError::Store(DataStoreError::NotFound))));
    assert_eq!(srv.data_keys(), vec!["people_now_present", "temp_room1", "temp_room2"]);
}

#[test]
fn assemble_from_skips_failed_reads() {
    let srv = server();
    let results = vec![
        Ok("0".to_string()),
        Err(ReadError::Store(DataStoreError::Unavailable)),
        Ok("-3.5".to_string()),
    ];
    let doc = srv.assemble_from(&results);
    let sensors = doc.sensors.unwrap();
    assert_eq!(sensors.people_now_present[0].value, 0);
    assert_eq!(sensors.temperature.len(), 1);
    assert_eq!(sensors.temperature[0].location, "Room 2");
    assert_eq!(sensors.temperature[0].value, "-3.5");
    let state = doc.state.unwrap();
    assert_eq!(state.open, Some(false));
    assert_eq!(state.message, None);

    let none = vec![
        Err(ReadError::Store(DataStoreError::Backend)),
        Err(ReadError::Store(DataStoreError::NotFound)),
        Err(ReadError::Store(DataStoreError::Unavailable)),
    ];
    assert!(srv.assemble_from(&none).sensors.is_none());
}

#[test]
fn any_distinct_keys_build() {
    let ok = SpaceapiServerBuilder::<Modifier>::new(Status::new())
        .add_sensor(people_template(), "people".to_string())
        .add_sensor(temperature_template("Room"), "session:abc".to_string())
        .build();
    assert!(ok.is_ok());
}
