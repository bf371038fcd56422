//! A single certificate in a chain, as parsed for display and validation.
use vstd::prelude::*;

verus! {

/// Nanoseconds in one day.
pub const NANOS_PER_DAY: i128 = 86_400_000_000_000;

/// A single certificate in a chain, as parsed for display and validation.
/// Instants are nanoseconds since the Unix epoch (UTC); a hop that stands
/// for a trust-store root has no validity window of its own.
#[derive(Debug, Clone)]
pub struct CertNode {
    pub subject: String,
    pub subject_dn: String,
    pub issuer: String,
    pub issuer_dn: String,
    pub serial: String,
    pub pubkey_algorithm: String,
    pub not_before: Option<i128>,
    pub not_after: Option<i128>,
}

/// The mathematical content of a [`CertNode`].
pub struct CertNodeView {
    pub subject: Seq<char>,
    pub subject_dn: Seq<char>,
    pub issuer: Seq<char>,
    pub issuer_dn: Seq<char>,
    pub serial: Seq<char>,
    pub pubkey_algorithm: Seq<char>,
    pub not_before: Option<i128>,
    pub not_after: Option<i128>,
}

impl View for CertNode {
    type V = CertNodeView;

    open spec fn view(&self) -> CertNodeView {
        CertNodeView {
            subject: self.subject@,
            subject_dn: self.subject_dn@,
            issuer: self.issuer@,
            issuer_dn: self.issuer_dn@,
            serial: self.serial@,
            pubkey_algorithm: self.pubkey_algorithm@,
            not_before: self.not_before,
            not_after: self.not_after,
        }
    }
}

/// `now` lies after the end of the window.
pub open spec fn expired_at(not_after: Option<i128>, now: int) -> bool {
    match not_after {
        Some(t) => now > t,
        None => false,
    }
}

/// `now` lies before the start of the window.
pub open spec fn not_yet_valid_at(not_before: Option<i128>, now: int) -> bool {
    match not_before {
        Some(t) => now < t,
        None => false,
    }
}

impl CertNode {
    pub fn is_expired(&self, now: i128) -> (r: bool)
        ensures
            r == expired_at(self.not_after, now as int),
    {
        match self.not_after {
            Some(t) => now > t,
            None => false,
        }
    }

    pub fn is_not_yet_valid(&self, now: i128) -> (r: bool)
        ensures
            r == not_yet_valid_at(self.not_before, now as int),
    {
        match self.not_before {
            Some(t) => now < t,
            None => false,
        }
    }

    pub fn is_currently_valid(&self, now: i128) -> (r: bool)
        ensures
            r == (!expired_at(self.not_after, now as int) && !not_yet_valid_at(
                self.not_before,
                now as int,
            )),
    {
        !self.is_expired(now) && !self.is_not_yet_valid(now)
    }

    /// The window ends no later than `days` days after `now` (an expired
    /// window counts as well).
    pub fn expires_within(&self, now: i128, days: i64) -> (r: bool)
        ensures
            r == match self.not_after {
                Some(t) => t <= now + days * NANOS_PER_DAY,
                None => false,
            },
    {
        match self.not_after {
            Some(t) => {
                let window: i128 = days as i128 * NANOS_PER_DAY;
                match now.checked_add(window) {
                    Some(limit) => t <= limit,
                    None => window > 0,
                }
            },
            None => false,
        }
    }
}

} // verus!
