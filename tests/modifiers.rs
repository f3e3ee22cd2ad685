use spaceapi_server::modifiers::{Modifier, StateFromPeopleNowPresent, StatusModifier, VersionsModifier};
use spaceapi_server::status::{PeopleNowPresentSensor, Sensors, State, Status, TemperatureSensor};

fn make_pnp_sensor(value: u64) -> PeopleNowPresentSensor {
    PeopleNowPresentSensor {
        location: None,
        name: None,
        names: None,
        description: None,
        value,
    }
}

fn sensors_with_people(values: &[u64]) -> Sensors {
    Sensors {
        people_now_present: values.iter().map(|v| make_pnp_sensor(*v)).collect(),
        temperature: vec![],
    }
}

#[test]
fn no_sensors() {
    let mut status = Status {
        sensors: None,
        ..Status::new()
    };
    assert!(status.state.is_none());
    StateFromPeopleNowPresent.modify(&mut status);
    assert!(status.sensors.is_none());
    assert!(status.state.is_none());
}

#[test]
fn no_people_present_sensor() {
    let mut status = Status {
        sensors: Some(Sensors {
            people_now_present: vec![],
            temperature: vec![],
        }),
        ..Status::new()
    };
    assert!(status.state.is_none());
    StateFromPeopleNowPresent.modify(&mut status);
    assert!(status.state.is_none());
}

#[test]
fn zero_people_present() {
    let mut status = Status {
        sensors: Some(sensors_with_people(&[0])),
        state: Some(State::new()),
        ..Status::new()
    };
    status.state.as_mut().unwrap().message = Some("This will remain unchanged.".to_string());
    assert_eq!(
        status.state.as_ref().unwrap().message,
        Some("This will remain unchanged.".to_string())
    );
    StateFromPeopleNowPresent.modify(&mut status);
    assert_eq!(
        status.state.unwrap().message,
        Some("This will remain unchanged.".to_string())
    );
}

#[test]
fn one_person_present() {
    let mut status = Status {
        sensors: Some(sensors_with_people(&[1])),
        ..Status::new()
    };
    assert!(status.state.is_none());
    StateFromPeopleNowPresent.modify(&mut status);
    assert_eq!(
        status.state.unwrap().message,
        Some("1 person here right now".to_string())
    );
}

#[test]
fn two_people_present() {
    let mut status = Status {
        sensors: Some(sensors_with_people(&[2])),
        ..Status::new()
    };
    assert!(status.state.is_none());
    StateFromPeopleNowPresent.modify(&mut status);
    assert_eq!(
        status.state.as_ref().unwrap().message,
        Some("2 people here right now".to_string())
    );
}

#[test]
fn zero_people_marks_closed() {
    let mut status = Status {
        sensors: Some(sensors_with_people(&[0])),
        ..Status::new()
    };
    StateFromPeopleNowPresent.modify(&mut status);
    let state = status.state.unwrap();
    assert_eq!(state.open, Some(false));
    assert_eq!(state.message, None);
}

#[test]
fn people_present_marks_open() {
    let mut status = Status {
        sensors: Some(sensors_with_people(&[12])),
        state: Some(State {
            open: Some(false),
            lastchange: Some(7),
            trigger_person: Some("door".to_string()),
            message: Some("old".to_string()),
        }),
        ..Status::new()
    };
    StateFromPeopleNowPresent.modify(&mut status);
    let state = status.state.unwrap();
    assert_eq!(state.open, Some(true));
    assert_eq!(state.message, Some("12 people here right now".to_string()));
    assert_eq!(state.lastchange, Some(7));
    assert_eq!(state.trigger_person, Some("door".to_string()));
}

#[test]
fn only_first_people_sensor_counts() {
    let mut status = Status {
        sensors: Some(sensors_with_people(&[1, 5])),
        ..Status::new()
    };
    StateFromPeopleNowPresent.modify(&mut status);
    assert_eq!(
        status.state.unwrap().message,
        Some("1 person here right now".to_string())
    );
}

#[test]
fn temperature_only_leaves_state_alone() {
    let mut status = Status {
        sensors: Some(Sensors {
            people_now_present: vec![],
            temperature: vec![TemperatureSensor {
                unit: "°C".to_string(),
                location: "Room 1".to_string(),
                name: None,
                description: None,
                value: "21.5".to_string(),
            }],
        }),
        ..Status::new()
    };
    StateFromPeopleNowPresent.modify(&mut status);
    assert!(status.state.is_none());
}

#[test]
fn versions_modifier_records_versions() {
    let m = VersionsModifier::new();
    assert_eq!(m.versions.server, "0.5.0");
    assert_eq!(m.versions.spaceapi, "0.8.1");
    let mut status = Status::new();
    Modifier::Versions(m).modify(&mut status);
    let v = status.versions.unwrap();
    assert_eq!(v.server, "0.5.0");
    assert_eq!(v.spaceapi.split('.').count(), 3);
}
