use vstd::prelude::*;

verus! {

/// Why a field set, a range or a date was rejected.
///
/// Every failure is reported by the call that detects it; nothing is retried
/// and nothing is swallowed.
#[derive(Clone, Copy, Debug, PartialEq, Eq, Structural)]
pub enum SchedulerError {
    /// A value lies outside the domain of its field.
    OutOfRange,
    /// A range whose first value, once its bounds are resolved, lies after its last.
    InvalidRange,
    /// No value was selected, so there is nothing to finalize.
    EmptySet,
    /// The calendar has no such date: the day does not exist in the month, or
    /// the year is past the last one that can be represented.
    CalendarOverflow,
}

impl SchedulerError {
    /// A short description, for messages.
    pub fn description(&self) -> (r: &'static str)
        ensures
            r@ == match *self {
                SchedulerError::OutOfRange => "value outside the field's domain"@,
                SchedulerError::InvalidRange => "range starts after its end"@,
                SchedulerError::EmptySet => "no value selected"@,
                SchedulerError::CalendarOverflow => "no such calendar date"@,
            },
    {
        match self {
            SchedulerError::OutOfRange => "value outside the field's domain",
            SchedulerError::InvalidRange => "range starts after its end",
            SchedulerError::EmptySet => "no value selected",
            SchedulerError::CalendarOverflow => "no such calendar date",
        }
    }
}

} // verus!
