//! Urgency, close reasons, states and hint values of notifications.
use vstd::prelude::*;

verus! {

/// Urgency level of a notification.
#[derive(Debug, Clone, Copy, PartialEq, Eq, Structural)]
pub enum Urgency {
    Low,
    Normal,
    Critical,
}

/// The urgency of a hint byte: 0 is low, 2 critical, anything else normal.
pub open spec fn urgency_of(v: int) -> Urgency {
    if v == 0 {
        Urgency::Low
    } else if v == 2 {
        Urgency::Critical
    } else {
        Urgency::Normal
    }
}

/// The byte that carries an urgency.
pub open spec fn urgency_byte(u: Urgency) -> u8 {
    match u {
        Urgency::Low => 0,
        Urgency::Normal => 1,
        Urgency::Critical => 2,
    }
}

impl Urgency {
    /// The urgency of a byte.
    pub fn from_u8(value: u8) -> (u: Urgency)
        ensures
            u == urgency_of(value as int),
    {
        match value {
            0 => Urgency::Low,
            2 => Urgency::Critical,
            _ => Urgency::Normal,
        }
    }

    /// The urgency of an integer.
    pub fn from_i64(value: i64) -> (u: Urgency)
        ensures
            u == urgency_of(value as int),
    {
        match value {
            0 => Urgency::Low,
            2 => Urgency::Critical,
            _ => Urgency::Normal,
        }
    }

    /// The byte that carries this urgency.
    pub fn as_u8(self) -> (b: u8)
        ensures
            b == urgency_byte(self),
    {
        match self {
            Urgency::Low => 0,
            Urgency::Normal => 1,
            Urgency::Critical => 2,
        }
    }
}

impl Default for Urgency {
    fn default() -> (u: Self)
        ensures
            u == Urgency::Normal,
    {
        Urgency::Normal
    }
}

/// Why a notification was closed.
#[derive(Debug, Clone, Copy, PartialEq, Eq, Structural)]
pub enum ClosedReason {
    /// The notification expired.
    Expired,
    /// The user dismissed it.
    DismissedByUser,
    /// A `CloseNotification` call closed it.
    Closed,
    /// Undefined or reserved reason.
    Undefined,
}

/// The reason of a wire code: 1 expired, 2 dismissed, 3 closed, else
/// undefined.
pub open spec fn reason_of(code: u32) -> ClosedReason {
    if code == 1 {
        ClosedReason::Expired
    } else if code == 2 {
        ClosedReason::DismissedByUser
    } else if code == 3 {
        ClosedReason::Closed
    } else {
        ClosedReason::Undefined
    }
}

/// The wire code of a reason.
pub open spec fn reason_code(r: ClosedReason) -> u32 {
    match r {
        ClosedReason::Expired => 1,
        ClosedReason::DismissedByUser => 2,
        ClosedReason::Closed => 3,
        ClosedReason::Undefined => 4,
    }
}

impl ClosedReason {
    /// The reason of a wire code.
    pub fn from_u32(value: u32) -> (r: ClosedReason)
        ensures
            r == reason_of(value),
    {
        match value {
            1 => ClosedReason::Expired,
            2 => ClosedReason::DismissedByUser,
            3 => ClosedReason::Closed,
            _ => ClosedReason::Undefined,
        }
    }

    /// The wire code of this reason.
    pub fn code(self) -> (c: u32)
        ensures
            c == reason_code(self),
    {
        match self {
            ClosedReason::Expired => 1,
            ClosedReason::DismissedByUser => 2,
            ClosedReason::Closed => 3,
            ClosedReason::Undefined => 4,
        }
    }
}

/// Reading a reason's wire code gives the reason back.
pub proof fn law_reason_code_round_trip(r: ClosedReason)
    ensures
        reason_of(reason_code(r)) == r,
{
}

/// Reading an urgency's byte gives the urgency back.
pub proof fn law_urgency_byte_round_trip(u: Urgency)
    ensures
        urgency_of(urgency_byte(u) as int) == u,
{
}

/// The state of a notification.
#[derive(Debug, Clone, Copy, PartialEq, Eq, Structural)]
pub enum State {
    /// Being created; fields can still be set.
    Draft,
    /// Sent to a notification server.
    Sent,
    /// Received by the daemon.
    Received,
}

/// A hint value, as far as the notifications read one.
#[derive(Debug, Clone, PartialEq)]
pub enum HintValue {
    Str(String),
    Bool(bool),
    Int(i32),
    Byte(u8),
    Other,
}

} // verus!
