//! The SpaceAPI server: its builder, the status assembler and sensor updates.
use vstd::prelude::*;
use crate::modifiers::{Modifier, StatusModifier, VersionsModifier};
use crate::sensors::{SensorError, SensorSpec, SensorTemplate, lookup, pnp_reading, render, temp_reading};
use crate::status::{
    PeopleNowPresentReading, Sensors, SensorsView, Status, StatusView, TemperatureReading,
};
use crate::text::{float_text, parse_decimal};
use crate::store::DataStore;

verus! {

/// A general problem of the server.
#[derive(Debug)]
pub enum SpaceapiServerError {
    /// Two sensors were registered under one data key.
    DuplicateSensor(String),
}

/// The sensor section before any reading: the baseline's, if it has one.
pub open spec fn section_or_empty(s: Option<SensorsView>) -> SensorsView {
    match s {
        Some(x) => x,
        None => SensorsView { people_now_present: Seq::empty(), temperature: Seq::empty() },
    }
}

/// The sensor section after the readings `answers` (one per sensor, `None`
/// where the read failed) were rendered in registration order. The section
/// comes into being with the first successful read.
pub open spec fn merge_sensors(
    specs: Seq<SensorSpec>,
    answers: Seq<Option<Seq<char>>>,
    base: Option<SensorsView>,
) -> Option<SensorsView>
    decreases specs.len(),
{
    if specs.len() == 0 || answers.len() != specs.len() {
        base
    } else {
        let prev = merge_sensors(specs.drop_last(), answers.drop_last(), base);
        match answers.last() {
            None => prev,
            Some(v) => Some(render(specs.last().template, v, section_or_empty(prev))),
        }
    }
}

/// The modifiers applied in order.
pub open spec fn apply_chain<M: StatusModifier>(mods: Seq<M>, s: StatusView) -> StatusView
    decreases mods.len(),
{
    if mods.len() == 0 {
        s
    } else {
        mods.last().spec_modify(apply_chain(mods.drop_last(), s))
    }
}

/// The document assembled from a baseline, the sensors' answers and the
/// modifier chain.
pub open spec fn assemble<M: StatusModifier>(
    status: StatusView,
    specs: Seq<SensorSpec>,
    mods: Seq<M>,
    answers: Seq<Option<Seq<char>>>,
) -> StatusView {
    apply_chain(mods, StatusView { sensors: merge_sensors(specs, answers, status.sensors), ..status })
}

/// What a store of contents `m` answers for each sensor.
pub open spec fn store_answers(specs: Seq<SensorSpec>, m: Map<Seq<char>, Seq<char>>) -> Seq<
    Option<Seq<char>>,
> {
    specs.map_values(|s: SensorSpec| lookup(m, s.data_key@))
}

/// The answers that a list of read results amounts to: the value where the
/// read succeeded, nothing where it failed.
pub open spec fn result_answers(results: Seq<Result<String, SensorError>>) -> Seq<Option<Seq<char>>> {
    results.map_values(
        |r: Result<String, SensorError>|
            match r {
                Ok(v) => Some(v@),
                Err(_) => None,
            },
    )
}

pub open spec fn keys_distinct(specs: Seq<SensorSpec>) -> bool {
    forall|i: int, j: int|
        0 <= i < j < specs.len() ==> #[trigger] specs[i].data_key@ != #[trigger] specs[j].data_key@
}

pub open spec fn is_registered(specs: Seq<SensorSpec>, key: Seq<char>) -> bool {
    exists|i: int| 0 <= i < specs.len() && #[trigger] specs[i].data_key@ == key
}


/// The "people now present" readings, in registration order, of the sensors
/// of that kind whose answer parses.
pub open spec fn pnp_entries(specs: Seq<SensorSpec>, answers: Seq<Option<Seq<char>>>) -> Seq<
    PeopleNowPresentReading,
>
    decreases specs.len(),
{
    if specs.len() == 0 || answers.len() != specs.len() {
        Seq::empty()
    } else {
        let prev = pnp_entries(specs.drop_last(), answers.drop_last());
        match (specs.last().template, answers.last()) {
            (SensorTemplate::PeopleNowPresent(p), Some(v)) => match parse_decimal(v) {
                Some(n) => prev.push(pnp_reading(p, n)),
                None => prev,
            },
            _ => prev,
        }
    }
}

/// The temperature readings, in registration order, of the sensors of that
/// kind whose answer is a number.
pub open spec fn temp_entries(specs: Seq<SensorSpec>, answers: Seq<Option<Seq<char>>>) -> Seq<
    TemperatureReading,
>
    decreases specs.len(),
{
    if specs.len() == 0 || answers.len() != specs.len() {
        Seq::empty()
    } else {
        let prev = temp_entries(specs.drop_last(), answers.drop_last());
        match (specs.last().template, answers.last()) {
            (SensorTemplate::Temperature(t), Some(v)) => if float_text(v) {
                prev.push(temp_reading(t, v))
            } else {
                prev
            },
            _ => prev,
        }
    }
}

pub open spec fn some_answer(answers: Seq<Option<Seq<char>>>) -> bool {
    exists|i: int| 0 <= i < answers.len() && #[trigger] answers[i] is Some
}

/// The built-in modifiers leave the sensor section alone.
pub proof fn lemma_chain_keeps_sensors(mods: Seq<Modifier>, s: StatusView)
    ensures
        apply_chain(mods, s).sensors == s.sensors,
    decreases mods.len(),
{
    if mods.len() > 0 {
        lemma_chain_keeps_sensors(mods.drop_last(), s);
    }
}

proof fn lemma_merge_entries(
    specs: Seq<SensorSpec>,
    answers: Seq<Option<Seq<char>>>,
)
    requires
        answers.len() == specs.len(),
    ensures
        some_answer(answers) ==> merge_sensors(specs, answers, None) == Some(
            SensorsView {
                people_now_present: pnp_entries(specs, answers),
                temperature: temp_entries(specs, answers),
            },
        ),
        !some_answer(answers) ==> merge_sensors(specs, answers, None) is None,
    decreases specs.len(),
{
    if specs.len() > 0 {
        let sp = specs.drop_last();
        let an = answers.drop_last();
        lemma_merge_entries(sp, an);
        if !some_answer(an) {
            lemma_entries_empty(sp, an);
        }
        if some_answer(an) {
            let i = choose|i: int| 0 <= i < an.len() && #[trigger] an[i] is Some;
            assert(answers[i] is Some);
        }
        match answers.last() {
            None => {
                if some_answer(answers) {
                    let i = choose|i: int| 0 <= i < answers.len() && #[trigger] answers[i] is Some;
                    assert(i < an.len());
                    assert(an[i] is Some);
                }
                if !some_answer(answers) {
                    assert(!some_answer(an)) by {
                        if some_answer(an) {
                            let i = choose|i: int| 0 <= i < an.len() && #[trigger] an[i] is Some;
                            assert(answers[i] is Some);
                        }
                    };
                }
            },
            Some(v) => {
                assert(answers[answers.len() - 1] is Some);
                assert(some_answer(answers));
                let prev = section_or_empty(merge_sensors(sp, an, None));
                assert(prev == SensorsView {
                    people_now_present: pnp_entries(sp, an),
                    temperature: temp_entries(sp, an),
                });
            },
        }
    }
}

proof fn lemma_entries_empty(specs: Seq<SensorSpec>, answers: Seq<Option<Seq<char>>>)
    requires
        answers.len() == specs.len(),
        !some_answer(answers),
    ensures
        pnp_entries(specs, answers) == Seq::<PeopleNowPresentReading>::empty(),
        temp_entries(specs, answers) == Seq::<TemperatureReading>::empty(),
    decreases specs.len(),
{
    if specs.len() > 0 {
        let an = answers.drop_last();
        assert(!some_answer(an)) by {
            if some_answer(an) {
                let i = choose|i: int| 0 <= i < an.len() && #[trigger] an[i] is Some;
                assert(answers[i] is Some);
            }
        };
        assert(answers.last() is None) by {
            if answers.last() is Some {
                assert(answers[answers.len() - 1] is Some);
            }
        };
        lemma_entries_empty(specs.drop_last(), an);
    }
}

/// Where no registered sensor could be read, the assembled document has no
/// sensor section at all (where the baseline has none), not an empty one.
pub proof fn lemma_no_readings_no_section(
    status: StatusView,
    specs: Seq<SensorSpec>,
    mods: Seq<Modifier>,
    answers: Seq<Option<Seq<char>>>,
)
    requires
        status.sensors is None,
        answers.len() == specs.len(),
        forall|i: int| 0 <= i < answers.len() ==> #[trigger] answers[i] is None,
    ensures
        assemble(status, specs, mods, answers).sensors is None,
{
    lemma_merge_entries(specs, answers);
    lemma_chain_keeps_sensors(
        mods,
        StatusView { sensors: merge_sensors(specs, answers, status.sensors), ..status },
    );
}

/// Where at least one registered sensor could be read, the sensor section
/// holds exactly the readings of the sensors that could be read (and whose
/// value parses), in registration order, and nothing of the others.
pub proof fn lemma_section_holds_readings(
    status: StatusView,
    specs: Seq<SensorSpec>,
    mods: Seq<Modifier>,
    answers: Seq<Option<Seq<char>>>,
)
    requires
        status.sensors is None,
        answers.len() == specs.len(),
        some_answer(answers),
    ensures
        assemble(status, specs, mods, answers).sensors == Some(
            SensorsView {
                people_now_present: pnp_entries(specs, answers),
                temperature: temp_entries(specs, answers),
            },
        ),
{
    lemma_merge_entries(specs, answers);
    lemma_chain_keeps_sensors(
        mods,
        StatusView { sensors: merge_sensors(specs, answers, status.sensors), ..status },
    );
}

/// The assembled document depends on the store only through the values
/// under the registered keys: two stores that agree there, or one store read
/// twice with no write in between, give the same document.
pub proof fn lemma_build_deterministic<M: StatusModifier>(
    status: StatusView,
    specs: Seq<SensorSpec>,
    mods: Seq<M>,
    m1: Map<Seq<char>, Seq<char>>,
    m2: Map<Seq<char>, Seq<char>>,
)
    requires
        forall|i: int|
            0 <= i < specs.len() ==> lookup(m1, #[trigger] specs[i].data_key@) == lookup(
                m2,
                specs[i].data_key@,
            ),
    ensures
        assemble(status, specs, mods, store_answers(specs, m1)) == assemble(
            status,
            specs,
            mods,
            store_answers(specs, m2),
        ),
{
    assert(store_answers(specs, m1) =~= store_answers(specs, m2));
}


/// A sensor whose read failed is simply absent from the document: the
/// document is the one that the other sensors alone would give, in the same
/// order.
pub proof fn lemma_failed_read_omitted<M: StatusModifier>(
    status: StatusView,
    specs: Seq<SensorSpec>,
    mods: Seq<M>,
    answers: Seq<Option<Seq<char>>>,
    j: int,
)
    requires
        answers.len() == specs.len(),
        0 <= j < specs.len(),
        answers[j] is None,
    ensures
        assemble(status, specs, mods, answers) == assemble(
            status,
            specs.remove(j),
            mods,
            answers.remove(j),
        ),
{
    lemma_merge_omits(specs, answers, j, status.sensors);
}

proof fn lemma_merge_omits(
    specs: Seq<SensorSpec>,
    answers: Seq<Option<Seq<char>>>,
    j: int,
    base: Option<SensorsView>,
)
    requires
        answers.len() == specs.len(),
        0 <= j < specs.len(),
        answers[j] is None,
    ensures
        merge_sensors(specs, answers, base) == merge_sensors(specs.remove(j), answers.remove(j), base),
    decreases specs.len(),
{
    let n = specs.len() - 1;
    if j == n {
        assert(specs.remove(j) =~= specs.drop_last());
        assert(answers.remove(j) =~= answers.drop_last());
    } else {
        lemma_merge_omits(specs.drop_last(), answers.drop_last(), j, base);
        assert(specs.remove(j).drop_last() =~= specs.drop_last().remove(j));
        assert(answers.remove(j).drop_last() =~= answers.drop_last().remove(j));
        assert(specs.remove(j).last() == specs.last());
        assert(answers.remove(j).last() == answers.last());
    }
}

/// Builder to create a new [`SpaceapiServer`] instance.
pub struct SpaceapiServerBuilder<M> {
    status: Status,
    sensor_specs: Vec<SensorSpec>,
    status_modifiers: Vec<M>,
}

impl<M: StatusModifier> SpaceapiServerBuilder<M> {
    pub closed spec fn spec_status(&self) -> StatusView {
        self.status@
    }

    pub closed spec fn spec_sensors(&self) -> Seq<SensorSpec> {
        self.sensor_specs@
    }

    pub closed spec fn spec_modifiers(&self) -> Seq<M> {
        self.status_modifiers@
    }

    /// Create a new builder instance based on the provided static status
    /// data, with the versions of the serving libraries recorded in it.
    pub fn new(status: Status) -> (r: Self)
        ensures
            r.spec_status() == (StatusView { versions: r.spec_status().versions, ..status@ }),
            r.spec_status().versions matches Some(v) && v.server == crate::VERSION@ && v.spaceapi
                == crate::modifiers::SPACEAPI_VERSION@,
            r.spec_sensors().len() == 0,
            r.spec_modifiers().len() == 0,
    {
        let mut status = status;
        let versions = VersionsModifier::new();
        versions.modify(&mut status);
        SpaceapiServerBuilder { status, sensor_specs: Vec::new(), status_modifiers: Vec::new() }
    }

    /// Add a status modifier, that modifies the status dynamically per
    /// request. Modifiers run in the order in which they were added.
    pub fn add_status_modifier(self, modifier: M) -> (r: Self)
        ensures
            r.spec_status() == self.spec_status(),
            r.spec_sensors() == self.spec_sensors(),
            r.spec_modifiers() == self.spec_modifiers().push(modifier),
    {
        let mut s = self;
        s.status_modifiers.push(modifier);
        s
    }

    /// Add a new sensor: its static data, and the key of its value in the
    /// store.
    pub fn add_sensor(self, template: SensorTemplate, data_key: String) -> (r: Self)
        ensures
            r.spec_status() == self.spec_status(),
            r.spec_sensors() == self.spec_sensors().push(SensorSpec { template, data_key }),
            r.spec_modifiers() == self.spec_modifiers(),
    {
        let mut s = self;
        s.sensor_specs.push(SensorSpec { template, data_key });
        s
    }

    /// Build a server instance. Fails where two sensors share a data key.
    pub fn build(self) -> (r: Result<SpaceapiServer<M>, SpaceapiServerError>)
        ensures
            r is Ok <==> keys_distinct(self.spec_sensors()),
            r matches Ok(srv) ==> srv.spec_status() == self.spec_status() && srv.spec_sensors()
                == self.spec_sensors() && srv.spec_modifiers() == self.spec_modifiers(),
            r matches Err(SpaceapiServerError::DuplicateSensor(k)) ==> exists|i: int, j: int|
                0 <= i < j < self.spec_sensors().len() && self.spec_sensors()[i].data_key@ == k@
                    && self.spec_sensors()[j].data_key@ == k@,
    {
        let n = self.sensor_specs.len();
        let mut j: usize = 0;
        while j < n
            invariant
                n == self.sensor_specs@.len(),
                j <= n,
                forall|a: int, b: int|
                    0 <= a < b < j ==> #[trigger] self.sensor_specs@[a].data_key@
                        != #[trigger] self.sensor_specs@[b].data_key@,
            decreases n - j,
        {
            let mut i: usize = 0;
            while i < j
                invariant
                    n == self.sensor_specs@.len(),
                    i <= j < n,
                    forall|a: int| 0 <= a < i ==> #[trigger] self.sensor_specs@[a].data_key@
                        != self.sensor_specs@[j as int].data_key@,
                decreases j - i,
            {
                if self.sensor_specs[i].data_key == self.sensor_specs[j].data_key {
                    let k = self.sensor_specs[j].data_key.clone();
                    assert(0 <= i < j < self.spec_sensors().len() && self.spec_sensors()[i as int].data_key@
                        == k@ && self.spec_sensors()[j as int].data_key@ == k@);
                    return Err(SpaceapiServerError::DuplicateSensor(k));
                }
                i = i + 1;
            }
            j = j + 1;
        }
        Ok(SpaceapiServer {
            status: self.status,
            sensor_specs: self.sensor_specs,
            status_modifiers: self.status_modifiers,
        })
    }
}

/// A SpaceAPI server instance: a static baseline, the registered sensors
/// and the modifier chain, all read-only once built.
pub struct SpaceapiServer<M> {
    status: Status,
    sensor_specs: Vec<SensorSpec>,
    status_modifiers: Vec<M>,
}

impl<M> SpaceapiServer<M> {
    #[verifier::type_invariant]
    closed spec fn wf(&self) -> bool {
        keys_distinct(self.sensor_specs@)
    }
}

impl<M: StatusModifier> SpaceapiServer<M> {
    pub closed spec fn spec_status(&self) -> StatusView {
        self.status@
    }

    pub closed spec fn spec_sensors(&self) -> Seq<SensorSpec> {
        self.sensor_specs@
    }

    pub closed spec fn spec_modifiers(&self) -> Seq<M> {
        self.status_modifiers@
    }

    /// The data keys of the registered sensors, in registration order.
    pub fn data_keys(&self) -> (r: Vec<String>)
        ensures
            r@.len() == self.spec_sensors().len(),
            forall|i: int| 0 <= i < r@.len() ==> #[trigger] r@[i]@ == self.spec_sensors()[i].data_key@,
    {
        let mut r: Vec<String> = Vec::new();
        let mut i: usize = 0;
        while i < self.sensor_specs.len()
            invariant
                i <= self.sensor_specs@.len(),
                r@.len() == i,
                forall|j: int| 0 <= j < i ==> #[trigger] r@[j]@ == self.sensor_specs@[j].data_key@,
            decreases self.sensor_specs@.len() - i,
        {
            r.push(self.sensor_specs[i].data_key.clone());
            i = i + 1;
        }
        r
    }

    /// Read every registered sensor's value, in registration order. A failed
    /// read stands in its place and does not stop the others.
    pub fn resolve_all<S: DataStore>(&self, store: &S) -> (r: Vec<Result<String, SensorError>>)
        ensures
            r@.len() == self.spec_sensors().len(),
            forall|i: int|
                0 <= i < r@.len() ==> (#[trigger] r@[i] matches Err(e) ==> e matches SensorError::Store(_)),
            store.obeys_model() ==> result_answers(r@) == store_answers(
                self.spec_sensors(),
                store.model(),
            ),
    {
        let specs = &self.sensor_specs;
        let mut results: Vec<Result<String, SensorError>> = Vec::new();
        let mut i: usize = 0;
        while i < specs.len()
            invariant
                i <= specs@.len(),
                results@.len() == i,
                forall|j: int|
                    0 <= j < i ==> (#[trigger] results@[j] matches Err(e) ==> e matches SensorError::Store(_)),
                store.obeys_model() ==> forall|j: int|
                    0 <= j < i ==> #[trigger] result_answers(results@)[j] == lookup(
                        store.model(),
                        specs@[j].data_key@,
                    ),
            decreases specs@.len() - i,
        {
            let ghost before = results@;
            let r = specs[i].get_sensor_value(store);
            results.push(r);
            proof {
                if store.obeys_model() {
                    assert forall|j: int| 0 <= j < i + 1 implies #[trigger] result_answers(results@)[j]
                        == lookup(store.model(), specs@[j].data_key@) by {
                        if j < i {
                            assert(results@[j] == before[j]);
                            assert(result_answers(before)[j] == lookup(store.model(), specs@[j].data_key@));
                        }
                    };
                }
            }
            i = i + 1;
        }
        proof {
            if store.obeys_model() {
                assert(result_answers(results@) =~= store_answers(specs@, store.model()));
            }
        }
        results
    }

    /// Assemble the current status document: a copy of the baseline, with
    /// every sensor whose value could be read rendered into it in
    /// registration order, then the modifiers applied in order.
    ///
    /// Whatever the store answers, the document is the one assembled from
    /// those answers; a store that obeys its model answers what it holds.
    pub fn build_status<S: DataStore>(&self, store: &S) -> (r: Status)
        ensures
            exists|answers: Seq<Option<Seq<char>>>|
                answers.len() == self.spec_sensors().len() && r@ == assemble(
                    self.spec_status(),
                    self.spec_sensors(),
                    self.spec_modifiers(),
                    answers,
                ) && (store.obeys_model() ==> answers == store_answers(self.spec_sensors(), store.model())),
    {
        let results = self.resolve_all(store);
        let ghost answers = result_answers(results@);
        let doc = self.assemble_from(&results);
        assert(answers.len() == self.spec_sensors().len());
        doc
    }

    /// Assemble the status document from the sensors' read results, one per
    /// registered sensor in registration order.
    pub fn assemble_from(&self, results: &Vec<Result<String, SensorError>>) -> (r: Status)
        requires
            results@.len() == self.spec_sensors().len(),
        ensures
            r@ == assemble(
                self.spec_status(),
                self.spec_sensors(),
                self.spec_modifiers(),
                result_answers(results@),
            ),
    {
        let specs = &self.sensor_specs;
        let ghost all = result_answers(results@);
        let mut sensors: Option<Sensors> = match &self.status.sensors {
            Some(s) => Some(s.copy()),
            None => None,
        };
        let mut i: usize = 0;
        while i < results.len()
            invariant
                i <= results@.len(),
                results@.len() == specs@.len(),
                all == result_answers(results@),
                (match sensors { Some(s) => Some(s@), None => None }) == merge_sensors(
                    specs@.subrange(0, i as int),
                    all.subrange(0, i as int),
                    self.status@.sensors,
                ),
            decreases results@.len() - i,
        {
            match &results[i] {
                Ok(value) => {
                    let mut section = match sensors {
                        Some(s) => s,
                        None => Sensors::new(),
                    };
                    specs[i].template.to_sensor(value.as_str(), &mut section);
                    sensors = Some(section);
                },
                Err(_) => {},
            }
            proof {
                assert(specs@.subrange(0, i + 1).drop_last() =~= specs@.subrange(0, i as int));
                assert(all.subrange(0, i + 1).drop_last() =~= all.subrange(0, i as int));
            }
            i = i + 1;
        }
        assert(specs@.subrange(0, i as int) =~= specs@);
        assert(all.subrange(0, i as int) =~= all);
        let mut doc = Status {
            sensors,
            state: match &self.status.state {
                Some(s) => Some(s.copy()),
                None => None,
            },
            versions: match &self.status.versions {
                Some(v) => Some(v.copy()),
                None => None,
            },
        };
        let ghost merged = doc@;
        assert(merged == (StatusView {
            sensors: merge_sensors(specs@, all, self.status@.sensors),
            ..self.status@
        }));
        let mods = &self.status_modifiers;
        let mut j: usize = 0;
        while j < mods.len()
            invariant
                j <= mods@.len(),
                doc@ == apply_chain(mods@.subrange(0, j as int), merged),
            decreases mods@.len() - j,
        {
            mods[j].modify(&mut doc);
            assert(mods@.subrange(0, j + 1).drop_last() =~= mods@.subrange(0, j as int));
            j = j + 1;
        }
        assert(mods@.subrange(0, j as int) =~= mods@);
        doc
    }

    /// Update a sensor value in the store. Fails with `UnknownSensor`, and
    /// leaves the store as it was, where no sensor is registered under
    /// `sensor`.
    pub fn update_sensor<S: DataStore>(&self, store: &mut S, sensor: &str, value: &str) -> (r:
        Result<(), SensorError>)
        ensures
            !is_registered(self.spec_sensors(), sensor@) <==> r matches Err(
                SensorError::UnknownSensor(_),
            ),
            r matches Err(SensorError::UnknownSensor(k)) ==> k@ == sensor@,
            !is_registered(self.spec_sensors(), sensor@) ==> *final(store) == *old(store),
            final(store).obeys_model() == old(store).obeys_model(),
            is_registered(self.spec_sensors(), sensor@) && old(store).obeys_model() ==> r is Ok
                && final(store).model() == old(store).model().insert(sensor@, value@),
    {
        match self.find_sensor(sensor) {
            Some(i) => self.sensor_specs[i].set_sensor_value(store, value),
            None => Err(SensorError::UnknownSensor(String::from_str(sensor))),
        }
    }

    /// The index of the sensor registered under `key`, if there is one.
    pub fn find_sensor(&self, key: &str) -> (r: Option<usize>)
        ensures
            match r {
                Some(i) => i < self.spec_sensors().len() && self.spec_sensors()[i as int].data_key@
                    == key@,
                None => !is_registered(self.spec_sensors(), key@),
            },
    {
        let k = String::from_str(key);
        let mut i: usize = 0;
        while i < self.sensor_specs.len()
            invariant
                i <= self.sensor_specs@.len(),
                k@ == key@,
                forall|j: int| 0 <= j < i ==> #[trigger] self.sensor_specs@[j].data_key@ != key@,
            decreases self.sensor_specs@.len() - i,
        {
            if self.sensor_specs[i].data_key == k {
                return Some(i);
            }
            i = i + 1;
        }
        None
    }
}

} // verus!
