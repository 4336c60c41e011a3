//! All inputs, by their aliases.

use crate::metrics::{updates_view, Update, UpdateView};
use crate::model::{
    DeviceConfig, Event, InputConfig, InputValueType, OutputConfig, TimestampedInputValue,
    UniverseConfig,
};
use crate::query::HistoryQuery;
use crate::sensor::{created_series, shown_history, spawn_single_metric_task, Message, Sensor, SensorView};
use vstd::hash_map::StringHashMap;
use vstd::prelude::*;

verus! {

/// The inputs that are known, each with what was told of it.
pub struct Monitor<H> {
    update_history_count: u32,
    index: StringHashMap<usize>,
    sensors: Vec<Sensor<H>>,
}

/// What a [`Monitor`] is.
#[verifier::ext_equal]
pub struct MonitorView<H> {
    /// How many events the history of an input holds at most.
    pub limit: nat,
    pub sensors: Map<Seq<char>, SensorView<H>>,
}

/// Something that is told of the input with the given alias.
pub enum Delivery<H> {
    /// An event, which names the type of the input.
    Event { alias: Seq<char>, input_type: InputValueType, event: Event<H> },
    /// The value that the input was last known to have.
    Initial { alias: Seq<char>, value: TimestampedInputValue },
}

impl<H> Delivery<H> {
    /// The alias of the input.
    pub open spec fn alias(self) -> Seq<char> {
        match self {
            Delivery::Event { alias, .. } => alias,
            Delivery::Initial { alias, .. } => alias,
        }
    }
}

/// Why there is no history to show.
#[derive(Clone, Copy, Debug, PartialEq, Eq)]
pub enum HistoryError {
    /// No input has that alias.
    UnknownAlias,
}

impl<H> MonitorView<H> {
    /// No inputs at all.
    pub open spec fn empty(limit: nat) -> Self {
        MonitorView { limit, sensors: Map::empty() }
    }

    /// Whether each input is found under its own alias, and keeps within the limit.
    pub open spec fn wf(self) -> bool {
        forall|alias: Seq<char>| #[trigger]
            self.sensors.contains_key(alias) ==> {
                &&& self.sensors[alias].wf()
                &&& self.sensors[alias].alias == alias
                &&& self.sensors[alias].limit == self.limit
            }
    }

    /// Whether there is an input with that alias.
    pub open spec fn knows(self, alias: Seq<char>) -> bool {
        self.sensors.contains_key(alias)
    }

    /// The history of an input; an input that is not known has none.
    pub open spec fn history_of(self, alias: Seq<char>) -> Seq<Event<H>> {
        if self.knows(alias) {
            self.sensors[alias].history
        } else {
            Seq::empty()
        }
    }

    /// With a new input of which nothing was told yet, in place of any other with its alias.
    pub open spec fn spawned(self, alias: Seq<char>, input_type: InputValueType) -> Self {
        MonitorView {
            sensors: self.sensors.insert(alias, SensorView::fresh(alias, input_type, self.limit)),
            ..self
        }
    }

    /// With new inputs, one after the other.
    pub open spec fn spawned_all(self, entries: Seq<(Seq<char>, InputValueType)>) -> Self
        decreases entries.len(),
    {
        if entries.len() == 0 {
            self
        } else {
            self.spawned_all(entries.drop_last()).spawned(entries.last().0, entries.last().1)
        }
    }

    /// With an input of that alias: a new one only where there is none yet.
    pub open spec fn opened(self, alias: Seq<char>, input_type: InputValueType) -> Self {
        if self.knows(alias) {
            self
        } else {
            self.spawned(alias, input_type)
        }
    }

    /// With inputs of those aliases, one after the other: new ones only where there are none yet.
    pub open spec fn opened_all(self, entries: Seq<(Seq<char>, InputValueType)>) -> Self
        decreases entries.len(),
    {
        if entries.len() == 0 {
            self
        } else {
            self.opened_all(entries.drop_last()).opened(entries.last().0, entries.last().1)
        }
    }

    /// What is published when there has to be an input of that alias: the series of a new one.
    pub open spec fn published_by_opening(
        self,
        alias: Seq<char>,
        input_type: InputValueType,
    ) -> Seq<UpdateView> {
        if self.knows(alias) {
            seq![]
        } else {
            created_series(alias, input_type)
        }
    }

    /// After a message was told of a known input.
    pub open spec fn told(self, alias: Seq<char>, message: Message<H>) -> Self {
        MonitorView {
            sensors: self.sensors.insert(alias, self.sensors[alias].told(message)),
            ..self
        }
    }

    /// After a delivery: an event makes its input known, an initial value is for known ones only.
    pub open spec fn delivered(self, delivery: Delivery<H>) -> Self {
        match delivery {
            Delivery::Event { alias, input_type, event } => self.opened(alias, input_type).told(
                alias,
                Message::Event(event),
            ),
            Delivery::Initial { alias, value } => if self.knows(alias) {
                self.told(alias, Message::Initial(value))
            } else {
                self
            },
        }
    }

    /// What a delivery publishes: the series of an input that it makes known, and what its message
    /// publishes.
    pub open spec fn published_by(self, delivery: Delivery<H>) -> Seq<UpdateView> {
        match delivery {
            Delivery::Event { alias, input_type, event } => {
                let opened = self.opened(alias, input_type);
                self.published_by_opening(alias, input_type) + opened.sensors[alias].published_by(
                    Message::Event(event),
                )
            },
            Delivery::Initial { alias, value } => if self.knows(alias) {
                self.sensors[alias].published_by(Message::Initial(value))
            } else {
                seq![]
            },
        }
    }

    /// After deliveries, one after the other.
    pub open spec fn after(self, deliveries: Seq<Delivery<H>>) -> Self
        decreases deliveries.len(),
    {
        if deliveries.len() == 0 {
            self
        } else {
            self.after(deliveries.drop_last()).delivered(deliveries.last())
        }
    }

    /// What deliveries publish, one after the other.
    pub open spec fn published_by_all(self, deliveries: Seq<Delivery<H>>) -> Seq<UpdateView>
        decreases deliveries.len(),
    {
        if deliveries.len() == 0 {
            seq![]
        } else {
            self.published_by_all(deliveries.drop_last()) + self.after(
                deliveries.drop_last(),
            ).published_by(deliveries.last())
        }
    }
}

/// What is published when inputs become known, one after the other.
pub open spec fn created_by_all(entries: Seq<(Seq<char>, InputValueType)>) -> Seq<UpdateView>
    decreases entries.len(),
{
    if entries.len() == 0 {
        seq![]
    } else {
        created_by_all(entries.drop_last()) + created_series(entries.last().0, entries.last().1)
    }
}

/// The inputs of a device, and its outputs, each of which passes for a continuous input.
pub open spec fn device_entries(device: DeviceConfig) -> Seq<(Seq<char>, InputValueType)> {
    device.inputs@.map_values(|input: InputConfig| (input.alias@, input.input_type))
        + device.outputs@.map_values(
        |output: OutputConfig| (output.alias@, InputValueType::Continuous),
    )
}

/// The inputs and outputs of all devices, in their order.
pub open spec fn universe_entries(devices: Seq<DeviceConfig>) -> Seq<(Seq<char>, InputValueType)>
    decreases devices.len(),
{
    if devices.len() == 0 {
        seq![]
    } else {
        universe_entries(devices.drop_last()) + device_entries(devices.last())
    }
}

/// The values, of those that were last known, that there is something to tell of.
pub open spec fn initial_deliveries<H>(
    values: Seq<(String, Option<TimestampedInputValue>)>,
) -> Seq<Delivery<H>>
    decreases values.len(),
{
    if values.len() == 0 {
        seq![]
    } else {
        let before = initial_deliveries(values.drop_last());
        match values.last().1 {
            Some(value) => before.push(Delivery::Initial { alias: values.last().0@, value }),
            None => before,
        }
    }
}

impl<H> View for Monitor<H> {
    type V = MonitorView<H>;

    closed spec fn view(&self) -> MonitorView<H> {
        MonitorView {
            limit: self.update_history_count as nat,
            sensors: self.index@.map_values(|i: usize| self.sensors@[i as int]@),
        }
    }
}

impl<H> Monitor<H> {
    /// Whether each alias leads to an input.
    pub closed spec fn indexed(&self) -> bool {
        forall|alias: Seq<char>| #[trigger]
            self.index@.contains_key(alias) ==> self.index@[alias] < self.sensors@.len()
    }

    /// Whether each alias leads to its own input, and no history outgrows its limit.
    pub open spec fn wf(&self) -> bool {
        &&& self@.wf()
        &&& self.indexed()
    }

    /// No other alias leads to the input of an alias.
    proof fn lemma_index_injective(&self, alias: Seq<char>)
        requires
            self.wf(),
            self.index@.contains_key(alias),
        ensures
            forall|other: Seq<char>| #[trigger]
                self.index@.contains_key(other) && other != alias ==> self.index@[other]
                    != self.index@[alias],
    {
        assert(self@.knows(alias));
        assert forall|other: Seq<char>| #[trigger]
            self.index@.contains_key(other) && other != alias implies self.index@[other]
            != self.index@[alias] by {
            assert(self@.knows(other));
        }
    }

    /// No inputs at all.
    pub fn new(update_history_count: u32) -> (r: Monitor<H>)
        ensures
            r.wf(),
            r@ == MonitorView::<H>::empty(update_history_count as nat),
    {
        let r = Monitor {
            update_history_count,
            index: StringHashMap::new(),
            sensors: Vec::new(),
        };
        proof {
            assert(r@ =~= MonitorView::<H>::empty(update_history_count as nat));
        }
        r
    }

    /// Whether there is an input with that alias.
    pub fn contains_alias(&self, alias: &str) -> (r: bool)
        requires
            self.wf(),
        ensures
            r == self@.knows(alias@),
    {
        self.index.contains_key(alias)
    }

    /// How many inputs there are.
    pub fn len(&self) -> (r: usize)
        requires
            self.wf(),
        ensures
            r == self@.sensors.len(),
    {
        proof {
            assert(self@.sensors.dom() =~= self.index@.dom());
        }
        self.index.len()
    }

    /// Makes an input known, in place of any other with its alias, and returns what that publishes.
    pub fn spawn(&mut self, input_type: InputValueType, alias: String) -> (updates: Vec<Update>)
        requires
            old(self).wf(),
        ensures
            final(self).wf(),
            final(self)@ == old(self)@.spawned(alias@, input_type),
            updates_view(updates@) == created_series(alias@, input_type),
    {
        let (sensor, updates) = spawn_single_metric_task(
            input_type,
            alias.clone(),
            self.update_history_count,
        );
        let known = match self.index.get(alias.as_str()) {
            Some(i) => Some(*i),
            None => None,
        };
        match known {
            Some(i) => {
                proof {
                    self.lemma_index_injective(alias@);
                }
                self.sensors[i] = sensor;
            },
            None => {
                let i = self.sensors.len();
                self.sensors.push(sensor);
                self.index.insert(alias, i);
            },
        }
        proof {
            assert(self@ =~= old(self)@.spawned(alias@, input_type));
        }
        updates
    }

    /// Makes an input known where none has its alias yet, and returns what that publishes.
    pub fn open(&mut self, input_type: InputValueType, alias: &str) -> (updates: Vec<Update>)
        requires
            old(self).wf(),
        ensures
            final(self).wf(),
            final(self)@ == old(self)@.opened(alias@, input_type),
            updates_view(updates@) == old(self)@.published_by_opening(alias@, input_type),
    {
        if self.contains_alias(alias) {
            let updates: Vec<Update> = Vec::new();
            proof {
                assert(updates_view(updates@) =~= seq![]);
            }
            updates
        } else {
            // New sensor?
            self.spawn(input_type, alias.to_owned())
        }
    }

    /// Tells a message of a known input, and returns what it publishes.
    fn tell(&mut self, alias: &str, message: Message<H>) -> (updates: Vec<Update>)
        requires
            old(self).wf(),
            old(self)@.knows(alias@),
            message is Event ==> old(self)@.limit > 0,
        ensures
            final(self).wf(),
            final(self)@ == old(self)@.told(alias@, message),
            updates_view(updates@) == old(self)@.sensors[alias@].published_by(message),
    {
        proof {
            self.lemma_index_injective(alias@);
        }
        let mut updates: Vec<Update> = Vec::new();
        if let Some(i) = self.index.get(alias) {
            let i: usize = *i;
            updates = self.sensors[i].handle(message);
        }
        proof {
            assert(self@ =~= old(self)@.told(alias@, message));
        }
        updates
    }

    /// Takes in an event, and returns what it publishes.
    ///
    /// The event makes its input known where it is not; the type that it names matters only then.
    /// There has to be room for one event at least in a history.
    pub fn handle_incoming_event(
        &mut self,
        alias: &str,
        input_type: InputValueType,
        event: Event<H>,
    ) -> (updates: Vec<Update>)
        requires
            old(self).wf(),
            old(self)@.limit > 0,
        ensures
            final(self).wf(),
            final(self)@ == old(self)@.delivered(
                Delivery::Event { alias: alias@, input_type, event },
            ),
            updates_view(updates@) == old(self)@.published_by(
                Delivery::Event { alias: alias@, input_type, event },
            ),
    {
        let mut updates = self.open(input_type, alias);
        let mut told = self.tell(alias, Message::Event(event));
        let ghost created = updates@;
        let ghost published = told@;
        updates.append(&mut told);
        proof {
            assert(updates_view(updates@) =~= updates_view(created) + updates_view(published));
            assert(updates_view(updates@) =~= old(self)@.published_by(
                Delivery::Event { alias: alias@, input_type, event },
            ));
        }
        updates
    }

    /// Takes in the value that an input was last known to have, and returns what it publishes.
    pub fn handle_initial_value(&mut self, alias: &str, value: TimestampedInputValue) -> (updates:
        Vec<Update>)
        requires
            old(self).wf(),
            old(self)@.knows(alias@),
        ensures
            final(self).wf(),
            final(self)@ == old(self)@.delivered(Delivery::Initial { alias: alias@, value }),
            updates_view(updates@) == old(self)@.published_by(
                Delivery::Initial { alias: alias@, value },
            ),
    {
        self.tell(alias, Message::Initial(value))
    }

    /// Takes in the values that inputs were last known to have, and returns what they publish.
    ///
    /// An input that had no value yet is passed over; the others have to be known.
    pub fn populate_metrics_with_initial_values(
        &mut self,
        values: &Vec<(String, Option<TimestampedInputValue>)>,
    ) -> (updates: Vec<Update>)
        requires
            old(self).wf(),
            forall|i: int|
                0 <= i < values@.len() && (#[trigger] values@[i]).1 is Some ==> old(self)@.knows(
                    values@[i].0@,
                ),
        ensures
            final(self).wf(),
            final(self)@ == old(self)@.after(initial_deliveries(values@)),
            updates_view(updates@) == old(self)@.published_by_all(initial_deliveries(values@)),
    {
        let ghost before = self@;
        let mut updates: Vec<Update> = Vec::new();
        let mut i: usize = 0;
        proof {
            assert(values@.take(0) =~= Seq::empty());
            assert(updates_view(updates@) =~= Seq::empty());
        }
        while i < values.len()
            invariant
                i <= values@.len(),
                self.wf(),
                self@ == before.after(initial_deliveries(values@.take(i as int))),
                updates_view(updates@) == before.published_by_all(
                    initial_deliveries(values@.take(i as int)),
                ),
                forall|alias: Seq<char>| #[trigger] before.knows(alias) ==> self@.knows(alias),
                forall|k: int|
                    0 <= k < values@.len() && (#[trigger] values@[k]).1 is Some ==> before.knows(
                        values@[k].0@,
                    ),
            decreases values@.len() - i,
        {
            proof {
                assert(values@.take(i + 1).drop_last() =~= values@.take(i as int));
                assert(values@.take(i + 1).last() == values@[i as int]);
            }
            if let Some(value) = values[i].1 {
                let ghost done = initial_deliveries::<H>(values@.take(i as int));
                let ghost delivery = Delivery::<H>::Initial { alias: values@[i as int].0@, value };
                let ghost held = updates@;
                let mut told = self.handle_initial_value(values[i].0.as_str(), value);
                let ghost published = told@;
                updates.append(&mut told);
                proof {
                    assert(done.push(delivery).drop_last() =~= done);
                    assert(updates_view(updates@) =~= updates_view(held) + updates_view(published));
                }
            }
            i = i + 1;
        }
        proof {
            assert(values@.take(i as int) =~= values@);
        }
        updates
    }

    /// The history of an input, with the details that are asked for.
    pub fn get_history_alias(&self, alias: &str, query: &HistoryQuery) -> (r: Result<
        Vec<Event<H>>,
        HistoryError,
    >) where H: Clone
        requires
            self.wf(),
        ensures
            match r {
                Ok(shown) => self@.knows(alias@) && shown_history(
                    self@.sensors[alias@].history,
                    shown@,
                    *query,
                ),
                Err(e) => !self@.knows(alias@) && e == HistoryError::UnknownAlias,
            },
    {
        match self.index.get(alias) {
            Some(i) => Ok(self.sensors[*i].history(query)),
            None => Err(HistoryError::UnknownAlias),
        }
    }
}

/// Makes the inputs and outputs of all devices known, each output as if it were a continuous
/// input, and returns what that publishes.
pub fn spawn_metrics_tasks<H>(universe_config: &UniverseConfig, update_history_count: u32) -> (r: (
    Monitor<H>,
    Vec<Update>,
))
    ensures
        r.0.wf(),
        r.0@ == MonitorView::<H>::empty(update_history_count as nat).spawned_all(
            universe_entries(universe_config.devices@),
        ),
        updates_view(r.1@) == created_by_all(universe_entries(universe_config.devices@)),
{
    let mut monitor: Monitor<H> = Monitor::new(update_history_count);
    let mut updates: Vec<Update> = Vec::new();
    let ghost devices = universe_config.devices@;
    let ghost empty = monitor@;
    let ghost mut done: Seq<(Seq<char>, InputValueType)> = seq![];
    let mut i: usize = 0;
    proof {
        assert(devices.take(0) =~= Seq::empty());
        assert(updates_view(updates@) =~= Seq::empty());
    }
    while i < universe_config.devices.len()
        invariant
            i <= devices.len(),
            devices == universe_config.devices@,
            empty.limit == update_history_count,
            done == universe_entries(devices.take(i as int)),
            monitor.wf(),
            monitor@ == empty.spawned_all(done),
            monitor@.limit == empty.limit,
            updates_view(updates@) == created_by_all(done),
        decreases devices.len() - i,
    {
        let device = &universe_config.devices[i];
        let ghost inputs = device.inputs@.map_values(
            |input: InputConfig| (input.alias@, input.input_type),
        );
        let ghost outputs = device.outputs@.map_values(
            |output: OutputConfig| (output.alias@, InputValueType::Continuous),
        );
        let ghost start = done;
        let mut j: usize = 0;
        proof {
            assert(start + inputs.take(0) =~= start);
        }
        while j < device.inputs.len()
            invariant
                j <= device.inputs@.len(),
                inputs == device.inputs@.map_values(
                    |input: InputConfig| (input.alias@, input.input_type),
                ),
                empty.limit == update_history_count,
                done == start + inputs.take(j as int),
                monitor.wf(),
                monitor@ == empty.spawned_all(done),
                monitor@.limit == empty.limit,
                updates_view(updates@) == created_by_all(done),
            decreases device.inputs@.len() - j,
        {
            let input = &device.inputs[j];
            let ghost held = updates@;
            let mut created = monitor.spawn(input.input_type, input.alias.clone());
            let ghost published = created@;
            updates.append(&mut created);
            proof {
                let entry = inputs[j as int];
                assert(done.push(entry).drop_last() =~= done);
                assert(start + inputs.take(j + 1) =~= done.push(entry));
                assert(updates_view(updates@) =~= updates_view(held) + updates_view(published));
                done = done.push(entry);
            }
            j = j + 1;
        }
        let mut k: usize = 0;
        proof {
            assert(inputs.take(j as int) =~= inputs);
            assert(start + inputs + outputs.take(0) =~= done);
        }
        while k < device.outputs.len()
            invariant
                k <= device.outputs@.len(),
                outputs == device.outputs@.map_values(
                    |output: OutputConfig| (output.alias@, InputValueType::Continuous),
                ),
                empty.limit == update_history_count,
                done == start + inputs + outputs.take(k as int),
                monitor.wf(),
                monitor@ == empty.spawned_all(done),
                monitor@.limit == empty.limit,
                updates_view(updates@) == created_by_all(done),
            decreases device.outputs@.len() - k,
        {
            // We fake an input for each of these.
            let output = &device.outputs[k];
            let ghost held = updates@;
            let mut created = monitor.spawn(InputValueType::Continuous, output.alias.clone());
            let ghost published = created@;
            updates.append(&mut created);
            proof {
                let entry = outputs[k as int];
                assert(done.push(entry).drop_last() =~= done);
                assert(start + inputs + outputs.take(k + 1) =~= done.push(entry));
                assert(updates_view(updates@) =~= updates_view(held) + updates_view(published));
                done = done.push(entry);
            }
            k = k + 1;
        }
        proof {
            assert(outputs.take(k as int) =~= outputs);
            assert(devices.take(i + 1).drop_last() =~= devices.take(i as int));
            assert(devices.take(i + 1).last() == device);
            assert(done =~= start + (inputs + outputs));
        }
        i = i + 1;
    }
    proof {
        assert(devices.take(i as int) =~= devices);
    }
    (monitor, updates)
}

} // verus!
