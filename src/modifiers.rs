//! Modifiers which change the assembled status per request, after all sensors
//! have been read.
use vstd::prelude::*;
use crate::status::{State, StateView, Status, StatusView, Versions, empty_state};
use crate::text::{decimal, decimal_string};

verus! {

/// `StatusModifier`s are used to modify the status.
pub trait StatusModifier {
    /// What the modifier makes of a document.
    spec fn spec_modify(&self, s: StatusView) -> StatusView;

    /// Called after all registered sensors are read.
    fn modify(&self, status: &mut Status)
        ensures
            final(status)@ == self.spec_modify(old(status)@),
    ;
}

/// The value of the first "people now present" reading, if there is one.
pub open spec fn first_people_count(s: StatusView) -> Option<u64> {
    match s.sensors {
        Some(x) => if x.people_now_present.len() > 0 {
            Some(x.people_now_present[0].value)
        } else {
            None
        },
        None => None,
    }
}

/// The message shown for a count of people present: none for zero.
pub open spec fn presence_message(count: u64) -> Option<Seq<char>> {
    if count == 1 {
        Some(decimal(count as nat) + " person here right now"@)
    } else if count > 1 {
        Some(decimal(count as nat) + " people here right now"@)
    } else {
        None
    }
}

/// The state derived from the first "people now present" reading: open when
/// anyone is present, with a generated message; closed otherwise, with the
/// message left as it was. Without such a reading the document is unchanged.
pub open spec fn state_from_people(s: StatusView) -> StatusView {
    match first_people_count(s) {
        None => s,
        Some(count) => {
            let base = match s.state {
                Some(st) => st,
                None => empty_state(),
            };
            let message = match presence_message(count) {
                Some(m) => Some(m),
                None => base.message,
            };
            StatusView {
                state: Some(StateView { open: Some(count > 0), message, ..base }),
                ..s
            }
        },
    }
}

/// This modifier updates the opening state based on the
/// first people now present sensor (if present).
pub struct StateFromPeopleNowPresent;

impl StatusModifier for StateFromPeopleNowPresent {
    open spec fn spec_modify(&self, s: StatusView) -> StatusView {
        state_from_people(s)
    }

    fn modify(&self, status: &mut Status) {
        let count: Option<u64> = match &status.sensors {
            Some(sensors) => if sensors.people_now_present.len() > 0 {
                Some(sensors.people_now_present[0].value)
            } else {
                None
            },
            None => None,
        };
        if let Some(count) = count {
            let mut state = match &status.state {
                Some(st) => st.copy(),
                None => State::new(),
            };
            state.open = Some(count > 0);
            if count == 1 {
                let mut m = decimal_string(count);
                m.append(" person here right now");
                state.message = Some(m);
            } else if count > 1 {
                let mut m = decimal_string(count);
                m.append(" people here right now");
                state.message = Some(m);
            }
            status.state = Some(state);
        }
    }
}

/// The version of the SpaceAPI schema library this crate is built with.
pub const SPACEAPI_VERSION: &'static str = "0.8.1";

/// Relies on `spaceapi::get_version`: the schema library's own package
/// version.
#[verifier::external_body]
fn spaceapi_version() -> (r: &'static str)
    ensures
        r@ == SPACEAPI_VERSION@,
{
    spaceapi::get_version()
}

/// This modifier records the versions of the libraries that serve the
/// document, with no condition.
pub struct VersionsModifier {
    pub versions: Versions,
}

impl VersionsModifier {
    /// The versions of this library and of the SpaceAPI schema library.
    pub fn new() -> (r: Self)
        ensures
            r.versions.server@ == crate::VERSION@,
            r.versions.spaceapi@ == SPACEAPI_VERSION@,
    {
        let spaceapi = String::from_str(spaceapi_version());
        let server = String::from_str(crate::get_version());
        VersionsModifier { versions: Versions { spaceapi, server } }
    }
}

impl StatusModifier for VersionsModifier {
    open spec fn spec_modify(&self, s: StatusView) -> StatusView {
        StatusView { versions: Some(self.versions@), ..s }
    }

    fn modify(&self, status: &mut Status) {
        status.versions = Some(self.versions.copy());
    }
}

/// The modifiers that this library provides.
pub enum Modifier {
    StateFromPeopleNowPresent(StateFromPeopleNowPresent),
    Versions(VersionsModifier),
}

impl StatusModifier for Modifier {
    open spec fn spec_modify(&self, s: StatusView) -> StatusView {
        match self {
            Modifier::StateFromPeopleNowPresent(m) => m.spec_modify(s),
            Modifier::Versions(m) => m.spec_modify(s),
        }
    }

    fn modify(&self, status: &mut Status) {
        match self {
            Modifier::StateFromPeopleNowPresent(m) => m.modify(status),
            Modifier::Versions(m) => m.modify(status),
        }
    }
}

} // verus!
