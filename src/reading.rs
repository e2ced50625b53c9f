use vstd::prelude::*;

verus! {

/// An instant in UTC: whole seconds since the Unix epoch and the nanoseconds
/// past that second (at or above one billion only inside a leap second).
#[derive(Clone, Copy, Debug, PartialEq, Eq, Structural)]
pub struct Timestamp {
    pub seconds: i64,
    pub nanos: u32,
}

impl Timestamp {
    /// Strict chronological order: seconds first, then nanoseconds.
    pub open spec fn precedes(self, other: Timestamp) -> bool {
        self.seconds < other.seconds || (self.seconds == other.seconds && self.nanos
            < other.nanos)
    }

    pub fn is_before(&self, other: &Timestamp) -> (r: bool)
        ensures
            r == self.precedes(*other),
    {
        self.seconds < other.seconds || (self.seconds == other.seconds && self.nanos
            < other.nanos)
    }
}

/// A validated reading, before the store gives it an identifier.
/// `temperature` and `humidity` hold the IEEE-754 bit pattern of the
/// 64-bit float the device sent; `None` is a null or absent value.
#[derive(Clone, Copy, Debug, PartialEq, Eq, Structural)]
pub struct SensorReading {
    pub co: Option<i64>,
    pub no2: Option<i64>,
    pub temperature: Option<u64>,
    pub humidity: Option<u64>,
    pub timestamp: Timestamp,
}

/// A persisted row: the reading and the identifier the store assigned.
#[derive(Clone, Copy, Debug, PartialEq, Eq, Structural)]
pub struct SensorData {
    pub id: u64,
    pub reading: SensorReading,
}

} // verus!
