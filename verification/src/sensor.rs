//! One input: what its messages publish, and the history of its events.

use crate::metrics::{
    input_value_to_sample, sample_of, updates_view, Family, Sample, Series, SeriesView, Update,
    UpdateView,
};
use crate::model::{Event, EventKind, InputValueType, TimestampedInputValue};
use crate::query::HistoryQuery;
use std::collections::VecDeque;
use vstd::prelude::*;

verus! {

/// What is told of an input: an event, or the value that it was last known to have.
pub enum Message<H> {
    Event(Event<H>),
    Initial(TimestampedInputValue),
}

/// The last `n` elements of `s`, or all of them where there are fewer.
pub open spec fn recent<T>(s: Seq<T>, n: nat) -> Seq<T> {
    if s.len() <= n {
        s
    } else {
        s.skip(s.len() - n)
    }
}

/// Whether `shown` is a copy of `history`, event by event, with the details that are asked for.
pub open spec fn shown_history<H: Clone>(
    history: Seq<Event<H>>,
    shown: Seq<Event<H>>,
    query: HistoryQuery,
) -> bool {
    &&& shown.len() == history.len()
    &&& forall|i: int|
        0 <= i < history.len() ==> history[i].shown_as(
            #[trigger] shown[i],
            query.backtraces(),
            query.causes(),
        )
}

/// What is published when an input becomes known: its series.
pub open spec fn created_series(alias: Seq<char>, input_type: InputValueType) -> Seq<UpdateView> {
    seq![
        UpdateView::Create(SeriesView::single(Family::spec_of_input(input_type), alias)),
        UpdateView::Create(SeriesView::single(Family::InputValueOk, alias)),
        UpdateView::Create(SeriesView::pair(Family::InputUpdates, alias, "ok"@)),
        UpdateView::Create(SeriesView::pair(Family::InputUpdates, alias, "error"@)),
    ]
}

/// An input and what was told of it.
pub struct Sensor<H> {
    alias: String,
    input_type: InputValueType,
    update_history_count: u32,
    first: bool,
    queue: VecDeque<Event<H>>,
}

/// What a [`Sensor`] is.
#[verifier::ext_equal]
pub struct SensorView<H> {
    pub alias: Seq<char>,
    pub input_type: InputValueType,
    /// How many events the history holds at most.
    pub limit: nat,
    /// Whether nothing was told of the input yet.
    pub first: bool,
    /// The events that are kept, from the oldest to the newest.
    pub history: Seq<Event<H>>,
}

impl<H> View for Sensor<H> {
    type V = SensorView<H>;

    closed spec fn view(&self) -> SensorView<H> {
        SensorView {
            alias: self.alias@,
            input_type: self.input_type,
            limit: self.update_history_count as nat,
            first: self.first,
            history: self.queue@,
        }
    }
}

impl<H> SensorView<H> {
    /// An input of which nothing was told yet.
    pub open spec fn fresh(alias: Seq<char>, input_type: InputValueType, limit: nat) -> Self {
        SensorView { alias, input_type, limit, first: true, history: Seq::empty() }
    }

    /// Whether the history keeps within its limit.
    pub open spec fn wf(self) -> bool {
        self.history.len() <= self.limit
    }

    /// The gauge that shows the value of the input.
    pub open spec fn value_series(self) -> SeriesView {
        SeriesView::single(Family::spec_of_input(self.input_type), self.alias)
    }

    /// The gauge that shows whether the value of the input is ok.
    pub open spec fn ok_series(self) -> SeriesView {
        SeriesView::single(Family::InputValueOk, self.alias)
    }

    /// The counter of the updates that brought a value.
    pub open spec fn updates_ok_series(self) -> SeriesView {
        SeriesView::pair(Family::InputUpdates, self.alias, "ok"@)
    }

    /// The counter of the updates that brought an error.
    pub open spec fn updates_error_series(self) -> SeriesView {
        SeriesView::pair(Family::InputUpdates, self.alias, "error"@)
    }

    /// What a message publishes.
    ///
    /// An event with a new value shows it, an event with an error shows that the value is not ok,
    /// and both count; any other event publishes nothing. An initial value is shown, without
    /// being counted, only where nothing was told of the input before.
    pub open spec fn published_by(self, message: Message<H>) -> Seq<UpdateView> {
        match message {
            Message::Event(event) => match event.inner {
                Ok(EventKind::Update { new_value }) => seq![
                    UpdateView::SetGauge(self.value_series(), sample_of(new_value)),
                    UpdateView::SetGauge(self.ok_series(), Sample::Whole(1)),
                    UpdateView::Increment(self.updates_ok_series()),
                ],
                Ok(EventKind::Other) => seq![],
                Err(_) => seq![
                    UpdateView::SetGauge(self.ok_series(), Sample::Whole(0)),
                    UpdateView::Increment(self.updates_error_series()),
                ],
            },
            Message::Initial(initial) => if !self.first {
                seq![]
            } else {
                match initial.value {
                    Ok(value) => seq![
                        UpdateView::SetGauge(self.value_series(), sample_of(value)),
                        UpdateView::SetGauge(self.ok_series(), Sample::Whole(1)),
                    ],
                    Err(_) => seq![UpdateView::SetGauge(self.ok_series(), Sample::Whole(0))],
                }
            },
        }
    }

    /// The input once a message was told of it: events, and nothing else, enter the history, and
    /// push out the oldest ones where it is full.
    pub open spec fn told(self, message: Message<H>) -> Self {
        match message {
            Message::Event(event) => SensorView {
                first: false,
                history: recent(self.history.push(event), self.limit),
                ..self
            },
            Message::Initial(_) => SensorView { first: false, ..self },
        }
    }
}

/// An input of which nothing was told yet, and the series that it is published by.
pub fn spawn_single_metric_task<H>(
    input_type: InputValueType,
    alias: String,
    update_history_count: u32,
) -> (r: (Sensor<H>, Vec<Update>))
    ensures
        r.0@ == SensorView::<H>::fresh(alias@, input_type, update_history_count as nat),
        r.0@.wf(),
        updates_view(r.1@) == created_series(alias@, input_type),
{
    let mut updates: Vec<Update> = Vec::new();
    updates.push(Update::Create(Series::single(Family::of_input(input_type), alias.as_str())));
    updates.push(Update::Create(Series::single(Family::InputValueOk, alias.as_str())));
    updates.push(Update::Create(Series::pair(Family::InputUpdates, alias.as_str(), "ok")));
    updates.push(Update::Create(Series::pair(Family::InputUpdates, alias.as_str(), "error")));
    let sensor = Sensor {
        alias,
        input_type,
        update_history_count,
        first: true,
        queue: VecDeque::new(),
    };
    proof {
        assert(updates_view(updates@) =~= created_series(sensor.alias@, input_type));
    }
    (sensor, updates)
}

impl<H> Sensor<H> {
    fn set_value(&self, sample: Sample) -> (r: Update)
        ensures
            r@ == UpdateView::SetGauge(self@.value_series(), sample),
    {
        Update::SetGauge(
            Series::single(Family::of_input(self.input_type), self.alias.as_str()),
            sample,
        )
    }

    fn set_ok(&self, ok: bool) -> (r: Update)
        ensures
            r@ == UpdateView::SetGauge(
                self@.ok_series(),
                Sample::Whole(
                    if ok {
                        1
                    } else {
                        0
                    },
                ),
            ),
    {
        let sample = if ok {
            Sample::Whole(1)
        } else {
            Sample::Whole(0)
        };
        Update::SetGauge(Series::single(Family::InputValueOk, self.alias.as_str()), sample)
    }

    /// Pushes an event to the history, out of which the oldest ones drop where it is full.
    fn push(&mut self, event: Event<H>)
        requires
            old(self)@.limit > 0,
            old(self)@.wf(),
        ensures
            final(self)@ == (SensorView {
                history: recent(old(self)@.history.push(event), old(self)@.limit),
                ..old(self)@
            }),
            final(self)@.wf(),
    {
        let ghost before = self@;
        let count = self.update_history_count as usize;
        let ghost mut dropped: int = 0;
        while self.queue.len() >= count
            invariant
                count > 0,
                count == before.limit,
                before.wf(),
                0 <= dropped <= before.history.len(),
                dropped == 0 || before.history.len() - dropped >= count - 1,
                self@ == (SensorView { history: before.history.skip(dropped), ..before }),
            decreases self.queue@.len(),
        {
            let _ = self.queue.pop_front();
            proof {
                assert(before.history.skip(dropped).subrange(
                    1,
                    before.history.skip(dropped).len() as int,
                ) =~= before.history.skip(dropped + 1));
                dropped = dropped + 1;
            }
        }
        self.queue.push_back(event);
        proof {
            assert(self@.history =~= recent(before.history.push(event), before.limit));
        }
    }

    /// Takes in what is told of the input, and returns what it publishes.
    ///
    /// There has to be room for one event at least: a history that may hold none never gets
    /// short enough for the next.
    pub fn handle(&mut self, message: Message<H>) -> (updates: Vec<Update>)
        requires
            old(self)@.wf(),
            message is Event ==> old(self)@.limit > 0,
        ensures
            final(self)@ == old(self)@.told(message),
            final(self)@.wf(),
            updates_view(updates@) == old(self)@.published_by(message),
    {
        let mut updates: Vec<Update> = Vec::new();
        match message {
            Message::Event(event) => {
                match &event.inner {
                    Ok(EventKind::Update { new_value }) => {
                        updates.push(self.set_value(input_value_to_sample(new_value)));
                        updates.push(self.set_ok(true));
                        updates.push(
                            Update::Increment(
                                Series::pair(Family::InputUpdates, self.alias.as_str(), "ok"),
                            ),
                        );
                    },
                    Ok(EventKind::Other) => {},
                    Err(_) => {
                        updates.push(self.set_ok(false));
                        updates.push(
                            Update::Increment(
                                Series::pair(Family::InputUpdates, self.alias.as_str(), "error"),
                            ),
                        );
                    },
                }
                self.push(event);
            },
            Message::Initial(initial) => {
                if self.first {
                    match initial.value {
                        Ok(value) => {
                            updates.push(self.set_value(input_value_to_sample(&value)));
                            updates.push(self.set_ok(true));
                        },
                        Err(_) => {
                            updates.push(self.set_ok(false));
                        },
                    }
                }
            },
        }
        self.first = false;
        proof {
            assert(updates_view(updates@) =~= old(self)@.published_by(message));
        }
        updates
    }

    /// A copy of the history, with the details that are asked for.
    pub fn history(&self, query: &HistoryQuery) -> (r: Vec<Event<H>>) where H: Clone
        ensures
            shown_history(self@.history, r@, *query),
    {
        let backtraces = query.include_backtraces();
        let causes = query.include_causes();
        let mut r: Vec<Event<H>> = Vec::new();
        let mut i: usize = 0;
        while i < self.queue.len()
            invariant
                i <= self.queue@.len(),
                r@.len() == i,
                backtraces == query.backtraces(),
                causes == query.causes(),
                forall|k: int|
                    0 <= k < i ==> self.queue@[k].shown_as(#[trigger] r@[k], backtraces, causes),
            decreases self.queue@.len() - i,
        {
            r.push(self.queue[i].shown(backtraces, causes));
            i = i + 1;
        }
        r
    }
}

} // verus!
