//! Spans and points of expiration, in blocks or in time.

use std::cmp::Ordering;
use vstd::prelude::*;
use vstd::std_specs::cmp::PartialOrdSpecImpl;

use crate::error::StdError;

verus! {

/// Nanoseconds in one second.
pub const NANOS_PER_SECOND: u64 = 1_000_000_000;

/// A point in time: nanoseconds since the epoch.
#[derive(Clone, Copy, Debug, PartialEq, Eq, Structural)]
pub struct Timestamp(pub u64);

/// The block in which an operation runs. All "now" comes from here.
#[derive(Clone, Copy, Debug, PartialEq, Eq, Structural)]
pub struct BlockInfo {
    pub height: u64,
    pub time: Timestamp,
}

/// A span, counted in blocks or in seconds.
#[derive(Clone, Copy, Debug, PartialEq, Eq, Structural)]
pub enum Duration {
    Height(u64),
    /// Seconds.
    Time(u64),
}

/// The point at which something expires.
#[derive(Clone, Copy, Debug, PartialEq, Eq, Structural)]
pub enum Expiration {
    /// Expired once the block height has reached this value.
    AtHeight(u64),
    /// Expired once the block time has reached this value.
    AtTime(Timestamp),
    Never {},
}

impl Timestamp {
    /// The point that lies so many nanoseconds after the epoch.
    pub fn from_nanos(nanos_since_epoch: u64) -> (t: Timestamp)
        ensures
            t == Timestamp(nanos_since_epoch),
    {
        Timestamp(nanos_since_epoch)
    }

    /// Nanoseconds since the epoch.
    pub fn nanos(&self) -> (n: u64)
        ensures
            n == self.0,
    {
        self.0
    }

    /// Whole seconds since the epoch.
    pub fn seconds(&self) -> (s: u64)
        ensures
            s == self.0 / NANOS_PER_SECOND,
    {
        self.0 / NANOS_PER_SECOND
    }

    /// This point moved `addition` seconds into the future, where that is
    /// still a timestamp.
    pub open spec fn later(self, addition: u64) -> Option<Timestamp> {
        if self.0 + addition * NANOS_PER_SECOND <= u64::MAX {
            Some(Timestamp((self.0 + addition * NANOS_PER_SECOND) as u64))
        } else {
            None
        }
    }

    /// This point moved `addition` seconds into the future. Nothing where
    /// that leaves 64 bits of nanoseconds.
    pub fn plus_seconds(&self, addition: u64) -> (t: Option<Timestamp>)
        ensures
            t == self.later(addition),
    {
        match addition.checked_mul(NANOS_PER_SECOND) {
            Some(nanos) => match self.0.checked_add(nanos) {
                Some(sum) => Some(Timestamp(sum)),
                None => None,
            },
            None => None,
        }
    }
}

impl Duration {
    /// The expiration that lies this span after `block`, where it fits in
    /// 64 bits.
    pub open spec fn end(self, block: BlockInfo) -> Option<Expiration> {
        match self {
            Duration::Height(h) => if block.height + h <= u64::MAX {
                Some(Expiration::AtHeight((block.height + h) as u64))
            } else {
                None
            },
            Duration::Time(t) => match block.time.later(t) {
                Some(at) => Some(Expiration::AtTime(at)),
                None => None,
            },
        }
    }

    /// The expiration that lies this span after `block`. Fails with
    /// `Overflow` where the sum leaves 64 bits.
    pub fn after(&self, block: &BlockInfo) -> (r: Result<Expiration, StdError>)
        ensures
            r == match self.end(*block) {
                Some(e) => Ok::<Expiration, StdError>(e),
                None => Err(StdError::Overflow {}),
            },
    {
        match self {
            Duration::Height(h) => match block.height.checked_add(*h) {
                Some(at) => Ok(Expiration::AtHeight(at)),
                None => Err(StdError::Overflow {}),
            },
            Duration::Time(t) => match block.time.plus_seconds(*t) {
                Some(at) => Ok(Expiration::AtTime(at)),
                None => Err(StdError::Overflow {}),
            },
        }
    }
}

impl Expiration {
    /// Whether this point has been reached in `block`.
    pub open spec fn expired_in(self, block: BlockInfo) -> bool {
        match self {
            Expiration::AtHeight(height) => block.height >= height,
            Expiration::AtTime(time) => block.time.0 >= time.0,
            Expiration::Never {} => false,
        }
    }

    /// Whether this point has been reached in `block`.
    pub fn is_expired(&self, block: &BlockInfo) -> (b: bool)
        ensures
            b == self.expired_in(*block),
    {
        match self {
            Expiration::AtHeight(height) => block.height >= *height,
            Expiration::AtTime(time) => block.time.0 >= time.0,
            Expiration::Never {} => false,
        }
    }

    /// How two expirations compare. Only two of the same kind compare; two
    /// `Never` are equal.
    pub open spec fn compare(self, other: Expiration) -> Option<Ordering> {
        match (self, other) {
            (Expiration::AtHeight(h1), Expiration::AtHeight(h2)) => Some(order_of(h1, h2)),
            (Expiration::AtTime(t1), Expiration::AtTime(t2)) => Some(order_of(t1.0, t2.0)),
            (Expiration::Never {}, Expiration::Never {}) => Some(Ordering::Equal),
            _ => None,
        }
    }
}

impl Expiration {
    /// This expiration where it is no later than `max`, `max` where it is
    /// later, and nothing where the two do not compare.
    pub open spec fn capped(self, max: Expiration) -> Option<Expiration> {
        match self.compare(max) {
            Some(Ordering::Greater) => Some(max),
            Some(_) => Some(self),
            None => None,
        }
    }

    /// Brings this expiration down to `max` where it is later. `None`
    /// where the two are of different kinds.
    pub fn cap_at(self, max: Expiration) -> (r: Option<Expiration>)
        ensures
            r == self.capped(max),
    {
        match self.partial_cmp(&max) {
            Some(Ordering::Greater) => Some(max),
            Some(_) => Some(self),
            None => None,
        }
    }
}

/// The order of two numbers.
pub open spec fn order_of(a: u64, b: u64) -> Ordering {
    if a < b {
        Ordering::Less
    } else if a == b {
        Ordering::Equal
    } else {
        Ordering::Greater
    }
}

fn order(a: u64, b: u64) -> (o: Ordering)
    ensures
        o == order_of(a, b),
{
    if a < b {
        Ordering::Less
    } else if a == b {
        Ordering::Equal
    } else {
        Ordering::Greater
    }
}

impl PartialOrdSpecImpl for Expiration {
    open spec fn obeys_partial_cmp_spec() -> bool {
        true
    }

    open spec fn partial_cmp_spec(&self, other: &Expiration) -> Option<Ordering> {
        self.compare(*other)
    }
}

impl PartialOrd for Expiration {
    fn partial_cmp(&self, other: &Expiration) -> (r: Option<Ordering>) {
        match (self, other) {
            (Expiration::AtHeight(h1), Expiration::AtHeight(h2)) => Some(order(*h1, *h2)),
            (Expiration::AtTime(t1), Expiration::AtTime(t2)) => Some(order(t1.0, t2.0)),
            (Expiration::Never {}, Expiration::Never {}) => Some(Ordering::Equal),
            _ => None,
        }
    }
}

} // verus!
