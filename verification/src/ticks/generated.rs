use std::marker::PhantomData;
use vstd::prelude::*;
use vstd::string::StringExecFns;

verus! {

/// Formats a tick value into a string. The precise format is picked by the
/// tick generator.
pub trait Format {
    /// Our tick value.
    type Tick;

    /// Formats a tick into a string according to the tick generator used.
    fn format(&self, value: &Self::Tick) -> String;
}

/// The result of generating ticks: the ticks themselves and the format state
/// used to render them.
#[non_exhaustive]
pub struct GeneratedTicks<Tick, State> {
    /// Format state chosen by the generator.
    pub state: State,
    /// The generated tick values.
    pub ticks: Vec<Tick>,
}

impl<Tick, State> GeneratedTicks<Tick, State> {
    /// Creates a new `GeneratedTicks` from a format state and tick values.
    pub fn new(state: State, ticks: Vec<Tick>) -> (r: Self)
        ensures
            r.state == state,
            r.ticks@ == ticks@,
    {
        GeneratedTicks { state, ticks }
    }
}

impl<Tick> GeneratedTicks<Tick, NilState<Tick>> {
    /// Creates an empty `GeneratedTicks` with no ticks.
    pub fn none() -> (r: Self)
        ensures
            r.ticks@.len() == 0,
    {
        Self::new(NilState { _marker: PhantomData }, Vec::new())
    }
}

/// Format state used when there are no ticks to format.
pub struct NilState<Tick> {
    _marker: PhantomData<Tick>,
}

impl<Tick> Format for NilState<Tick> {
    type Tick = Tick;

    fn format(&self, value: &Self::Tick) -> (s: String)
        ensures
            s@ == seq!['-'],
    {
        proof {
            reveal_strlit("-");
        }
        String::from_str("-")
    }
}

} // verus!
