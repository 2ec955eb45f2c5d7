//! A tracker that tells a messenger when a quota runs out.
//!
//! The share of the quota in use decides the alert: from 75% a warning,
//! from 90% a critical notice, at 100% and over an error. The shares are
//! compared exactly, in whole numbers.

use vstd::prelude::*;

verus! {

/// Takes the text of an alert. How it delivers the text is its own matter.
pub trait Messenger {
    /// Delivers `msg`.
    fn send(&self, msg: &str);
}

/// How close to its end a quota is.
#[derive(Debug, Clone, Copy, PartialEq, Eq)]
pub enum Alert {
    /// At least 75% of the quota are in use, and less than 90%.
    Warning,
    /// At least 90% of the quota are in use, and less than all of it.
    Critical,
    /// All of the quota is in use, or more.
    Error,
}

/// The alert that `value` out of `max` calls for, if any. Nothing in use
/// out of a quota of nothing calls for none.
pub open spec fn alert_for(value: nat, max: nat) -> Option<Alert> {
    if max == 0 && value == 0 {
        None
    } else if value >= max {
        Some(Alert::Error)
    } else if 10 * value >= 9 * max {
        Some(Alert::Critical)
    } else if 4 * value >= 3 * max {
        Some(Alert::Warning)
    } else {
        None
    }
}

/// The text that goes with `alert`.
pub open spec fn alert_text(alert: Alert) -> Seq<char> {
    match alert {
        Alert::Warning => "Warning: You've used up over 75% of your quota!"@,
        Alert::Critical => "Critical: You've used up over 90% of your quota!"@,
        Alert::Error => "Error: You've maxed out your quota!"@,
    }
}

impl Alert {
    /// The text that goes with this alert.
    pub fn message(&self) -> (text: &'static str)
        ensures
            text@ == alert_text(*self),
    {
        match self {
            Alert::Warning => "Warning: You've used up over 75% of your quota!",
            Alert::Critical => "Critical: You've used up over 90% of your quota!",
            Alert::Error => "Error: You've maxed out your quota!",
        }
    }
}

/// The alert that `value` out of `max` calls for, if any.
pub fn alert_level(value: usize, max: usize) -> (alert: Option<Alert>)
    ensures
        alert == alert_for(value as nat, max as nat),
{
    let used: u128 = value as u128;
    let all: u128 = max as u128;
    if max == 0 && value == 0 {
        None
    } else if value >= max {
        Some(Alert::Error)
    } else if 10 * used >= 9 * all {
        Some(Alert::Critical)
    } else if 4 * used >= 3 * all {
        Some(Alert::Warning)
    } else {
        None
    }
}

/// Keeps the amount in use of a quota, and tells its messenger when the
/// amount comes close to the quota.
pub struct LimitTracker<'a, T: Messenger> {
    messenger: &'a T,
    value: usize,
    max: usize,
}

impl<'a, T: Messenger> LimitTracker<'a, T> {
    /// The amount in use.
    pub closed spec fn value(&self) -> nat {
        self.value as nat
    }

    /// The quota.
    pub closed spec fn max(&self) -> nat {
        self.max as nat
    }

    /// A tracker for a quota of `max` with nothing in use, which reports to
    /// `messenger`.
    pub fn new(messenger: &'a T, max: usize) -> (tracker: LimitTracker<'a, T>)
        ensures
            tracker.value() == 0,
            tracker.max() == max,
    {
        LimitTracker { messenger, value: 0, max }
    }

    /// Sets the amount in use to `value`. Where [`alert_for`] calls for an
    /// alert, the messenger is sent its text, once.
    pub fn set_value(&mut self, value: usize)
        ensures
            final(self).value() == value,
            final(self).max() == old(self).max(),
    {
        self.value = value;
        match alert_level(self.value, self.max) {
            Some(alert) => {
                self.messenger.send(alert.message());
            },
            None => {},
        }
    }
}

} // verus!
