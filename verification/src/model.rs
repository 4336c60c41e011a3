//! Inputs, their values, and the events that tell of them.

use vstd::prelude::*;

verus! {

/// What an input measures.
#[derive(Clone, Copy, Debug, PartialEq, Eq, Structural)]
pub enum InputValueType {
    Binary,
    Temperature,
    Humidity,
    Pressure,
    Gas,
    Continuous,
}

/// The value of an input.
///
/// A value that is a double-precision number is held by its bit pattern.
#[derive(Clone, Copy, Debug, PartialEq, Eq, Structural)]
pub enum InputValue {
    Binary(bool),
    Temperature(u64),
    Humidity(u64),
    Pressure(u64),
    Gas(u64),
    Continuous(u16),
}

/// A value that an input is known to have had, or that it could not be read.
#[derive(Clone, Copy, Debug, PartialEq, Eq)]
pub struct TimestampedInputValue {
    pub value: Result<InputValue, ()>,
}

/// What an event tells of its input.
#[derive(Clone, Copy, Debug, PartialEq, Eq, Structural)]
pub enum EventKind {
    /// The input has a new value.
    Update { new_value: InputValue },
    /// Anything else, which no metric depends on.
    Other,
}

/// The details of a failure that a reader of the history may want left out.
#[derive(Debug, PartialEq, Eq)]
pub struct EventError {
    /// What caused the failure, from the outside in.
    pub chain: Vec<String>,
    pub backtrace: Option<String>,
}

/// An event of an input.
///
/// The header is what nobody here looks at: the time of the event, and whatever else its sender
/// put beside its outcome.
#[derive(Debug, PartialEq, Eq)]
pub struct Event<H> {
    pub header: H,
    pub inner: Result<EventKind, EventError>,
}

impl EventError {
    /// Whether `shown` is this error with its backtrace and its causes where they are asked for,
    /// and without them where not.
    pub open spec fn shown_as(self, shown: EventError, backtraces: bool, causes: bool) -> bool {
        &&& shown.backtrace == if backtraces {
            self.backtrace
        } else {
            None
        }
        &&& shown.chain@ == if causes {
            self.chain@
        } else {
            Seq::empty()
        }
    }

    /// A copy of this error, with its backtrace and its causes where they are asked for.
    pub fn shown(&self, backtraces: bool, causes: bool) -> (r: EventError)
        ensures
            self.shown_as(r, backtraces, causes),
    {
        let backtrace = if backtraces {
            match &self.backtrace {
                Some(text) => Some(text.clone()),
                None => None,
            }
        } else {
            None
        };
        let chain = if causes {
            self.chain.clone()
        } else {
            Vec::new()
        };
        EventError { chain, backtrace }
    }
}

impl<H> Event<H> {
    /// Whether `shown` is a copy of this event, its error with its backtrace and its causes where
    /// they are asked for, and without them where not.
    pub open spec fn shown_as(self, shown: Event<H>, backtraces: bool, causes: bool) -> bool where
        H: Clone,
     {
        &&& cloned::<H>(self.header, shown.header)
        &&& match (self.inner, shown.inner) {
            (Ok(kind), Ok(shown_kind)) => shown_kind == kind,
            (Err(e), Err(shown_e)) => e.shown_as(shown_e, backtraces, causes),
            _ => false,
        }
    }

    /// A copy of this event, its error with its backtrace and its causes where they are asked for.
    pub fn shown(&self, backtraces: bool, causes: bool) -> (r: Event<H>) where H: Clone
        ensures
            self.shown_as(r, backtraces, causes),
    {
        let inner = match &self.inner {
            Ok(kind) => Ok(*kind),
            Err(e) => Err(e.shown(backtraces, causes)),
        };
        Event { header: self.header.clone(), inner }
    }
}

/// An input, as the configuration of the universe tells of it.
pub struct InputConfig {
    pub alias: String,
    pub input_type: InputValueType,
}

/// An output, as the configuration of the universe tells of it.
pub struct OutputConfig {
    pub alias: String,
}

/// A device, with its inputs and outputs.
pub struct DeviceConfig {
    pub inputs: Vec<InputConfig>,
    pub outputs: Vec<OutputConfig>,
}

/// The configuration of the universe.
pub struct UniverseConfig {
    pub devices: Vec<DeviceConfig>,
}

} // verus!
