//! Tracks how much of a quota is used and warns a messenger as it fills up.
use vstd::prelude::*;

verus! {

/// Something that can pass a message on.
pub trait Messenger {
    fn send(&self, msg: &str);
}

/// How close a value has come to its maximum.
#[derive(Debug, PartialEq, Eq, Structural, Clone, Copy)]
pub enum Quota {
    /// At least 75% and under 90% of the maximum.
    Warning,
    /// At least 90% and under 100% of the maximum.
    Urgent,
    /// The maximum or more.
    Over,
}

/// The warning that `value` calls for against `max`, if any. A maximum of
/// zero is exceeded by any value above zero; a value of zero against it
/// calls for nothing.
pub open spec fn quota_of(value: usize, max: usize) -> Option<Quota> {
    if max == 0 {
        if value > 0 {
            Some(Quota::Over)
        } else {
            None
        }
    } else if value >= max {
        Some(Quota::Over)
    } else if 10 * value >= 9 * max {
        Some(Quota::Urgent)
    } else if 4 * value >= 3 * max {
        Some(Quota::Warning)
    } else {
        None
    }
}

/// The warning that `value` calls for against `max`, if any.
pub fn quota_level(value: usize, max: usize) -> (r: Option<Quota>)
    ensures
        r == quota_of(value, max),
{
    let v = value as u128;
    let m = max as u128;
    if max == 0 {
        if value > 0 {
            Some(Quota::Over)
        } else {
            None
        }
    } else if value >= max {
        Some(Quota::Over)
    } else if 10 * v >= 9 * m {
        Some(Quota::Urgent)
    } else if 4 * v >= 3 * m {
        Some(Quota::Warning)
    } else {
        None
    }
}

/// The text sent for a warning.
pub fn message(q: Quota) -> (r: &'static str)
    ensures
        q == Quota::Over ==> r@ == "Error: You are over your quota!"@,
        q == Quota::Urgent ==> r@ == "Urgent warning: You've used up over 90% of your quota!"@,
        q == Quota::Warning ==> r@ == "Warning: You've used up over 75% of your quota!"@,
{
    match q {
        Quota::Over => "Error: You are over your quota!",
        Quota::Urgent => "Urgent warning: You've used up over 90% of your quota!",
        Quota::Warning => "Warning: You've used up over 75% of your quota!",
    }
}

/// Keeps a value against a maximum and tells a messenger when the value
/// comes close to it or goes over.
pub struct LimitTracker<'a, T: Messenger> {
    messenger: &'a T,
    value: usize,
    max: usize,
}

impl<'a, T: Messenger> LimitTracker<'a, T> {
    /// The value last set.
    pub closed spec fn value(&self) -> usize {
        self.value
    }

    /// The maximum that the value is held against.
    pub closed spec fn max(&self) -> usize {
        self.max
    }

    /// A tracker at zero out of `max`, which reports to `messenger`.
    pub fn new(messenger: &'a T, max: usize) -> (r: LimitTracker<'a, T>)
        ensures
            r.value() == 0,
            r.max() == max,
    {
        LimitTracker { messenger, value: 0, max }
    }

    /// Sets the value, and sends the messenger the warning that it calls
    /// for (see `quota_of`), if any.
    pub fn set_value(&mut self, value: usize)
        ensures
            final(self).value() == value,
            final(self).max() == old(self).max(),
    {
        self.value = value;
        if let Some(q) = quota_level(self.value, self.max) {
            self.messenger.send(message(q));
        }
    }
}

} // verus!
