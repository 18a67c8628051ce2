//! Domain types describing port numbers and ranges.
use vstd::prelude::*;
use crate::domain::errors::AppError;
use crate::domain::text::{decimal, push_decimal};
use vstd::string::StringExecFns;

verus! {

/// A TCP/UDP port number.
pub type PortNumber = u16;

/// Half-open `[start, end)` port range used to configure the pool.
///
/// Built through [`PortRange::new`], `start` is at least `1024` (no
/// privileged ports) and `end` is strictly greater than `start`.
#[derive(Debug, Clone, Copy, PartialEq, Eq, Structural)]
pub struct PortRange {
    pub start: PortNumber,
    pub end: PortNumber,
}

/// The ranges that [`PortRange::new`] accepts.
pub open spec fn valid_range(start: u16, end: u16) -> bool {
    1024 <= start && start < end
}

/// The message of the error for a rejected range.
pub open spec fn range_error_text(start: u16, end: u16) -> Seq<char> {
    if start < 1024 {
        "port range start "@ + decimal(start as nat) + " must be >= 1024"@
    } else {
        "port range end "@ + decimal(end as nat) + " must be > start "@ + decimal(start as nat)
    }
}

impl PortRange {
    /// The set of port numbers the range holds.
    pub open spec fn ports(self) -> Set<u16> {
        Set::new(|p: u16| self.start <= p && p < self.end)
    }

    /// Construct a range, validating that:
    /// * `start >= 1024` (no privileged ports)
    /// * `end > start` (non-empty range; upper bound is exclusive)
    pub fn new(start: PortNumber, end: PortNumber) -> (r: Result<Self, AppError>)
        ensures
            valid_range(start, end) ==> r == Ok::<PortRange, AppError>(PortRange { start, end }),
            !valid_range(start, end) ==> (r matches Err(AppError::BadType(m)) && m@
                == range_error_text(start, end)),
    {
        if start < 1024 {
            let mut m = String::from_str("port range start ");
            push_decimal(&mut m, start as u64);
            m.append(" must be >= 1024");
            return Err(AppError::BadType(m));
        }
        if end <= start {
            let mut m = String::from_str("port range end ");
            push_decimal(&mut m, end as u64);
            m.append(" must be > start ");
            push_decimal(&mut m, start as u64);
            return Err(AppError::BadType(m));
        }
        Ok(Self { start, end })
    }

    /// Number of ports in the range.
    pub fn len(&self) -> (n: usize)
        requires
            self.start <= self.end,
        ensures
            n == self.end - self.start,
    {
        (self.end - self.start) as usize
    }

    /// True iff the range contains no ports.
    pub fn is_empty(&self) -> (b: bool)
        ensures
            b == (self.end <= self.start),
    {
        self.end <= self.start
    }

    /// Iterator over every port in the range, in increasing order.
    pub fn iter(&self) -> (r: core::ops::Range<PortNumber>)
        ensures
            r.start == self.start,
            r.end == self.end,
    {
        self.start..self.end
    }
}

/// The lifecycle state of a single port slot in the pool.
#[derive(Debug, Clone, Copy, PartialEq, Eq, Structural)]
pub enum PortState {
    /// The slot is free and may be allocated.
    Free,
    /// The slot is bound to the given entity.
    Bound(PortNumber),
}

} // verus!
