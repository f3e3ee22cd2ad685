//! The dynamic part of a status document: sensor readings, the open state and
//! version metadata. The static part (name, logo, location, contact) is the
//! transport layer's and never passes through the pipeline.
use vstd::prelude::*;

verus! {

pub open spec fn opt_str_view(o: Option<String>) -> Option<Seq<char>> {
    match o {
        Some(s) => Some(s@),
        None => None,
    }
}

pub open spec fn strings_view(v: Seq<String>) -> Seq<Seq<char>> {
    v.map_values(|s: String| s@)
}

pub open spec fn opt_strings_view(o: Option<Vec<String>>) -> Option<Seq<Seq<char>>> {
    match o {
        Some(v) => Some(strings_view(v@)),
        None => None,
    }
}

/// A copy of an optional string.
pub fn copy_opt_string(o: &Option<String>) -> (r: Option<String>)
    ensures
        r == *o,
{
    match o {
        Some(s) => Some(s.clone()),
        None => None,
    }
}

/// A copy of a list of strings.
pub fn copy_strings(v: &Vec<String>) -> (r: Vec<String>)
    ensures
        strings_view(r@) == strings_view(v@),
{
    let mut r: Vec<String> = Vec::new();
    let mut i: usize = 0;
    while i < v.len()
        invariant
            i <= v@.len(),
            r@.len() == i,
            forall|j: int| 0 <= j < i ==> #[trigger] r@[j]@ == v@[j]@,
        decreases v@.len() - i,
    {
        r.push(v[i].clone());
        i = i + 1;
    }
    assert(strings_view(r@) =~= strings_view(v@));
    r
}

/// A copy of an optional list of strings.
pub fn copy_opt_strings(o: &Option<Vec<String>>) -> (r: Option<Vec<String>>)
    ensures
        opt_strings_view(r) == opt_strings_view(*o),
{
    match o {
        Some(v) => Some(copy_strings(v)),
        None => None,
    }
}

/// One reading of a "people now present" sensor.
pub struct PeopleNowPresentSensor {
    pub location: Option<String>,
    pub name: Option<String>,
    pub names: Option<Vec<String>>,
    pub description: Option<String>,
    pub value: u64,
}

/// What a [`PeopleNowPresentSensor`] holds, as plain values.
pub struct PeopleNowPresentReading {
    pub location: Option<Seq<char>>,
    pub name: Option<Seq<char>>,
    pub names: Option<Seq<Seq<char>>>,
    pub description: Option<Seq<char>>,
    pub value: u64,
}

impl View for PeopleNowPresentSensor {
    type V = PeopleNowPresentReading;

    open spec fn view(&self) -> PeopleNowPresentReading {
        PeopleNowPresentReading {
            location: opt_str_view(self.location),
            name: opt_str_view(self.name),
            names: opt_strings_view(self.names),
            description: opt_str_view(self.description),
            value: self.value,
        }
    }
}

impl PeopleNowPresentSensor {
    pub fn copy(&self) -> (r: Self)
        ensures
            r@ == self@,
    {
        PeopleNowPresentSensor {
            location: copy_opt_string(&self.location),
            name: copy_opt_string(&self.name),
            names: copy_opt_strings(&self.names),
            description: copy_opt_string(&self.description),
            value: self.value,
        }
    }
}

/// One reading of a temperature sensor. The value is the decimal text read
/// from the store, which parses as a floating-point number.
pub struct TemperatureSensor {
    pub unit: String,
    pub location: String,
    pub name: Option<String>,
    pub description: Option<String>,
    pub value: String,
}

/// What a [`TemperatureSensor`] holds, as plain values.
pub struct TemperatureReading {
    pub unit: Seq<char>,
    pub location: Seq<char>,
    pub name: Option<Seq<char>>,
    pub description: Option<Seq<char>>,
    pub value: Seq<char>,
}

impl View for TemperatureSensor {
    type V = TemperatureReading;

    open spec fn view(&self) -> TemperatureReading {
        TemperatureReading {
            unit: self.unit@,
            location: self.location@,
            name: opt_str_view(self.name),
            description: opt_str_view(self.description),
            value: self.value@,
        }
    }
}

impl TemperatureSensor {
    pub fn copy(&self) -> (r: Self)
        ensures
            r@ == self@,
    {
        TemperatureSensor {
            unit: self.unit.clone(),
            location: self.location.clone(),
            name: copy_opt_string(&self.name),
            description: copy_opt_string(&self.description),
            value: self.value.clone(),
        }
    }
}

pub open spec fn pnp_view(v: Seq<PeopleNowPresentSensor>) -> Seq<PeopleNowPresentReading> {
    v.map_values(|s: PeopleNowPresentSensor| s@)
}

pub open spec fn temp_view(v: Seq<TemperatureSensor>) -> Seq<TemperatureReading> {
    v.map_values(|s: TemperatureSensor| s@)
}

/// The sensor section of a status document.
pub struct Sensors {
    pub people_now_present: Vec<PeopleNowPresentSensor>,
    pub temperature: Vec<TemperatureSensor>,
}

/// What a [`Sensors`] section holds, as plain values.
pub struct SensorsView {
    pub people_now_present: Seq<PeopleNowPresentReading>,
    pub temperature: Seq<TemperatureReading>,
}

impl View for Sensors {
    type V = SensorsView;

    open spec fn view(&self) -> SensorsView {
        SensorsView {
            people_now_present: pnp_view(self.people_now_present@),
            temperature: temp_view(self.temperature@),
        }
    }
}

impl Sensors {
    /// An empty sensor section.
    pub fn new() -> (r: Self)
        ensures
            r@ == (SensorsView { people_now_present: Seq::empty(), temperature: Seq::empty() }),
    {
        let r = Sensors { people_now_present: Vec::new(), temperature: Vec::new() };
        assert(r@.people_now_present =~= Seq::empty());
        assert(r@.temperature =~= Seq::empty());
        r
    }

    pub fn copy(&self) -> (r: Self)
        ensures
            r@ == self@,
    {
        let mut p: Vec<PeopleNowPresentSensor> = Vec::new();
        let mut i: usize = 0;
        while i < self.people_now_present.len()
            invariant
                i <= self.people_now_present@.len(),
                p@.len() == i,
                forall|k: int| 0 <= k < i ==> #[trigger] p@[k]@ == self.people_now_present@[k]@,
            decreases self.people_now_present@.len() - i,
        {
            p.push(self.people_now_present[i].copy());
            i = i + 1;
        }
        assert(pnp_view(p@) =~= pnp_view(self.people_now_present@));
        let mut t: Vec<TemperatureSensor> = Vec::new();
        let mut j: usize = 0;
        while j < self.temperature.len()
            invariant
                j <= self.temperature@.len(),
                t@.len() == j,
                forall|k: int| 0 <= k < j ==> #[trigger] t@[k]@ == self.temperature@[k]@,
            decreases self.temperature@.len() - j,
        {
            t.push(self.temperature[j].copy());
            j = j + 1;
        }
        assert(temp_view(t@) =~= temp_view(self.temperature@));
        Sensors { people_now_present: p, temperature: t }
    }
}

/// Whether the space is open, and a message for visitors.
pub struct State {
    pub open: Option<bool>,
    pub lastchange: Option<u64>,
    pub trigger_person: Option<String>,
    pub message: Option<String>,
}

/// What a [`State`] holds, as plain values.
pub struct StateView {
    pub open: Option<bool>,
    pub lastchange: Option<u64>,
    pub trigger_person: Option<Seq<char>>,
    pub message: Option<Seq<char>>,
}

impl View for State {
    type V = StateView;

    open spec fn view(&self) -> StateView {
        StateView {
            open: self.open,
            lastchange: self.lastchange,
            trigger_person: opt_str_view(self.trigger_person),
            message: opt_str_view(self.message),
        }
    }
}

pub open spec fn empty_state() -> StateView {
    StateView { open: None, lastchange: None, trigger_person: None, message: None }
}

impl State {
    /// A state with nothing set.
    pub fn new() -> (r: Self)
        ensures
            r@ == empty_state(),
    {
        State { open: None, lastchange: None, trigger_person: None, message: None }
    }

    pub fn copy(&self) -> (r: Self)
        ensures
            r == *self,
    {
        State {
            open: self.open,
            lastchange: self.lastchange,
            trigger_person: copy_opt_string(&self.trigger_person),
            message: copy_opt_string(&self.message),
        }
    }
}

/// The versions of the libraries that serve the document.
pub struct Versions {
    pub spaceapi: String,
    pub server: String,
}

/// What a [`Versions`] holds, as plain values.
pub struct VersionsView {
    pub spaceapi: Seq<char>,
    pub server: Seq<char>,
}

impl View for Versions {
    type V = VersionsView;

    open spec fn view(&self) -> VersionsView {
        VersionsView { spaceapi: self.spaceapi@, server: self.server@ }
    }
}

impl Versions {
    pub fn copy(&self) -> (r: Self)
        ensures
            r == *self,
    {
        Versions { spaceapi: self.spaceapi.clone(), server: self.server.clone() }
    }
}

/// The dynamic part of a status document.
pub struct Status {
    pub sensors: Option<Sensors>,
    pub state: Option<State>,
    pub versions: Option<Versions>,
}

/// What a [`Status`] holds, as plain values.
pub struct StatusView {
    pub sensors: Option<SensorsView>,
    pub state: Option<StateView>,
    pub versions: Option<VersionsView>,
}

impl View for Status {
    type V = StatusView;

    open spec fn view(&self) -> StatusView {
        StatusView {
            sensors: match self.sensors {
                Some(s) => Some(s@),
                None => None,
            },
            state: match self.state {
                Some(s) => Some(s@),
                None => None,
            },
            versions: match self.versions {
                Some(v) => Some(v@),
                None => None,
            },
        }
    }
}

impl Status {
    /// A document with no sensors, no state and no version metadata.
    pub fn new() -> (r: Self)
        ensures
            r@ == (StatusView { sensors: None, state: None, versions: None }),
    {
        Status { sensors: None, state: None, versions: None }
    }

    pub fn copy(&self) -> (r: Self)
        ensures
            r@ == self@,
    {
        Status {
            sensors: match &self.sensors {
                Some(s) => Some(s.copy()),
                None => None,
            },
            state: match &self.state {
                Some(s) => Some(s.copy()),
                None => None,
            },
            versions: match &self.versions {
                Some(v) => Some(v.copy()),
                None => None,
            },
        }
    }
}

} // verus!
