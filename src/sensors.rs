//! Sensor templates, and reading and writing sensor values in the store.
use vstd::prelude::*;
use crate::status::{
    PeopleNowPresentReading, PeopleNowPresentSensor, Sensors, SensorsView, TemperatureReading,
    TemperatureSensor, copy_opt_string, copy_opt_strings, opt_str_view, opt_strings_view,
};
use crate::store::{DataStore, DataStoreError};
use crate::text::{float_text, is_float_text, parse_decimal, parse_u64};

verus! {

/// The static data of a "people now present" sensor.
pub struct PeopleNowPresentSensorTemplate {
    pub location: Option<String>,
    pub name: Option<String>,
    pub names: Option<Vec<String>>,
    pub description: Option<String>,
}

/// The static data of a temperature sensor.
pub struct TemperatureSensorTemplate {
    pub unit: String,
    pub location: String,
    pub name: Option<String>,
    pub description: Option<String>,
}

/// The kinds of sensor this server knows, each with its static data.
pub enum SensorTemplate {
    PeopleNowPresent(PeopleNowPresentSensorTemplate),
    Temperature(TemperatureSensorTemplate),
}

pub open spec fn pnp_reading(t: PeopleNowPresentSensorTemplate, value: u64) -> PeopleNowPresentReading {
    PeopleNowPresentReading {
        location: opt_str_view(t.location),
        name: opt_str_view(t.name),
        names: opt_strings_view(t.names),
        description: opt_str_view(t.description),
        value,
    }
}

pub open spec fn temp_reading(t: TemperatureSensorTemplate, value: Seq<char>) -> TemperatureReading {
    TemperatureReading {
        unit: t.unit@,
        location: t.location@,
        name: opt_str_view(t.name),
        description: opt_str_view(t.description),
        value,
    }
}

/// The sensor section after a reading of `value` by a sensor of template `t`:
/// one more entry of its kind when the value parses, else unchanged.
pub open spec fn render(t: SensorTemplate, value: Seq<char>, s: SensorsView) -> SensorsView {
    match t {
        SensorTemplate::PeopleNowPresent(p) => match parse_decimal(value) {
            Some(v) => SensorsView { people_now_present: s.people_now_present.push(pnp_reading(p, v)), ..s },
            None => s,
        },
        SensorTemplate::Temperature(tt) => if float_text(value) {
            SensorsView { temperature: s.temperature.push(temp_reading(tt, value)), ..s }
        } else {
            s
        },
    }
}

impl SensorTemplate {
    /// Add the reading `value` of a sensor of this template to `sensors`.
    pub fn to_sensor(&self, value: &str, sensors: &mut Sensors)
        ensures
            final(sensors)@ == render(*self, value@, old(sensors)@),
    {
        match self {
            SensorTemplate::PeopleNowPresent(p) => {
                if let Some(v) = parse_u64(value) {
                    let sensor = PeopleNowPresentSensor {
                        location: copy_opt_string(&p.location),
                        name: copy_opt_string(&p.name),
                        names: copy_opt_strings(&p.names),
                        description: copy_opt_string(&p.description),
                        value: v,
                    };
                    sensors.people_now_present.push(sensor);
                    assert(final(sensors)@.people_now_present =~= render(*self, value@, old(sensors)@).people_now_present);
                }
            },
            SensorTemplate::Temperature(t) => {
                if is_float_text(value) {
                    let sensor = TemperatureSensor {
                        unit: t.unit.clone(),
                        location: t.location.clone(),
                        name: copy_opt_string(&t.name),
                        description: copy_opt_string(&t.description),
                        value: String::from_str(value),
                    };
                    sensors.temperature.push(sensor);
                    assert(final(sensors)@.temperature =~= render(*self, value@, old(sensors)@).temperature);
                }
            },
        }
    }
}

/// A specification of a sensor.
///
/// The ``template`` field contains the static data of a sensor and
/// the ``data_key`` says how to find the sensor value in the store.
pub struct SensorSpec {
    pub template: SensorTemplate,
    pub data_key: String,
}

/// A ``SensorError`` wraps problems that can occur when reading or updating
/// sensor values.
#[derive(Debug)]
pub enum SensorError {
    /// Sensor `data_key` not known.
    UnknownSensor(String),
    /// The store failed.
    Store(DataStoreError),
}

/// The value that a store of contents `m` holds under `key`.
pub open spec fn lookup(m: Map<Seq<char>, Seq<char>>, key: Seq<char>) -> Option<Seq<char>> {
    if m.contains_key(key) {
        Some(m[key])
    } else {
        None
    }
}

impl SensorSpec {
    /// Retrieve the sensor value from the store.
    pub fn get_sensor_value<S: DataStore>(&self, store: &S) -> (r: Result<String, SensorError>)
        ensures
            r matches Err(e) ==> e matches SensorError::Store(_),
            store.obeys_model() ==> match r {
                Ok(v) => lookup(store.model(), self.data_key@) == Some(v@),
                Err(e) => e == SensorError::Store(DataStoreError::NotFound) && lookup(
                    store.model(),
                    self.data_key@,
                ) is None,
            },
    {
        match store.retrieve(self.data_key.as_str()) {
            Ok(v) => Ok(v),
            Err(e) => Err(SensorError::Store(e)),
        }
    }

    /// Set the sensor value in the store.
    pub fn set_sensor_value<S: DataStore>(&self, store: &mut S, value: &str) -> (r: Result<
        (),
        SensorError,
    >)
        ensures
            r matches Err(e) ==> e matches SensorError::Store(_),
            r matches Err(SensorError::Store(e)) ==> e != DataStoreError::NotFound,
            final(store).obeys_model() == old(store).obeys_model(),
            old(store).obeys_model() ==> r is Ok && final(store).model() == old(store).model().insert(
                self.data_key@,
                value@,
            ),
    {
        match store.store(self.data_key.as_str(), value) {
            Ok(()) => Ok(()),
            Err(e) => Err(SensorError::Store(e)),
        }
    }
}

} // verus!
