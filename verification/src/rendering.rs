//! What the renderers of all output formats share.

use crate::formatting::DecodeError;
use crate::metadata::Metadata;
use crate::output_cols::OutputColumn;
use vstd::prelude::*;

verus! {

/// How events are to be rendered.
#[derive(Debug, PartialEq, Eq)]
pub struct RenderingConfig {
    /// The format of calendar times.
    pub datefmt: String,
    /// The catalog in which the definitions of events are looked up.
    pub metadata: Metadata,
    /// The character between two columns of a text line.
    pub field_separator: char,
    /// Whether JSON output is spread over several lines.
    pub json_pretty: bool,
    /// The columns of a line, in order.
    pub columns: Vec<OutputColumn>,
}

/// Why an event could not be rendered.
#[derive(Clone, Copy, Debug, PartialEq, Eq, Structural)]
pub enum RenderError {
    /// The value at this index, counted from zero, could not be decoded.
    Decode(usize, DecodeError),
    /// The raw rendering of the event is not valid text.
    Encoding,
    /// There is no JSON text for the record of the event.
    Serialization,
}

/// Whether the wait for events of a live host goes on after a polling
/// interval: as long as there is a subscription, and either events came
/// in during the interval or the caller wants to wait for more.
pub fn keeps_waiting(subscriptions: usize, last: u64, current: u64, tail_follow: bool) -> (r: bool)
    ensures
        r == (subscriptions > 0 && (current != last || tail_follow)),
{
    subscriptions > 0 && (current != last || tail_follow)
}

} // verus!
