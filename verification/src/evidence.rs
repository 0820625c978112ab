//! Classification of sonar tracks from the acoustic profiles heard on them.
use vstd::prelude::*;
use crate::protocol::TrackId;
use crate::submarine::{AcousticProfile, ContactClassification};

verus! {

/// Why a track operation is refused.
#[derive(Debug, Clone, Copy, PartialEq, Eq, Structural)]
pub enum TrackError {
    NotFound(TrackId),
    InvalidMerge,
}

/// Counts of observations that sounded like a merchant and like an escort.
#[derive(Debug, Clone, Copy, PartialEq, Eq, Structural)]
pub struct Evidence {
    pub merchant: u8,
    pub escort: u8,
}

/// `a + b`, stopping at 255.
pub open spec fn sat_add(a: u8, b: u8) -> u8 {
    if a + b > 255 { 255 } else { (a + b) as u8 }
}

/// A contact is a merchant once at least three observations say so and they
/// outnumber the escort ones; an escort likewise; unknown otherwise.
pub open spec fn classification_of(e: Evidence) -> ContactClassification {
    if e.merchant >= 3 && e.merchant > e.escort {
        ContactClassification::Merchant
    } else if e.escort >= 3 && e.escort > e.merchant {
        ContactClassification::Escort
    } else {
        ContactClassification::Unknown
    }
}

/// The evidence after one more observation with `profile`: low frequency
/// counts for a merchant, high frequency for an escort, a mixed profile for
/// both.
pub open spec fn with_profile(e: Evidence, profile: AcousticProfile) -> Evidence {
    match profile {
        AcousticProfile::LowFrequency => Evidence { merchant: sat_add(e.merchant, 1), ..e },
        AcousticProfile::HighFrequency => Evidence { escort: sat_add(e.escort, 1), ..e },
        AcousticProfile::Mixed => Evidence { merchant: sat_add(e.merchant, 1), escort: sat_add(e.escort, 1) },
    }
}

impl Evidence {
    /// No observation yet.
    pub fn new() -> (r: Evidence)
        ensures
            r == (Evidence { merchant: 0, escort: 0 }),
    {
        Evidence { merchant: 0, escort: 0 }
    }

    /// Counts one observation and returns the resulting classification.
    pub fn add(&mut self, profile: AcousticProfile) -> (r: ContactClassification)
        ensures
            *final(self) == with_profile(*old(self), profile),
            r == classification_of(*final(self)),
    {
        match profile {
            AcousticProfile::LowFrequency => self.merchant = self.merchant.saturating_add(1),
            AcousticProfile::HighFrequency => self.escort = self.escort.saturating_add(1),
            AcousticProfile::Mixed => {
                self.merchant = self.merchant.saturating_add(1);
                self.escort = self.escort.saturating_add(1);
            },
        }
        self.classify()
    }

    /// Pools the evidence of a track merged into this one.
    pub fn absorb(&mut self, other: &Evidence) -> (r: ContactClassification)
        ensures
            *final(self) == (Evidence {
                merchant: sat_add(old(self).merchant, other.merchant),
                escort: sat_add(old(self).escort, other.escort),
            }),
            r == classification_of(*final(self)),
    {
        self.merchant = self.merchant.saturating_add(other.merchant);
        self.escort = self.escort.saturating_add(other.escort);
        self.classify()
    }

    /// The classification this evidence supports.
    pub fn classify(&self) -> (r: ContactClassification)
        ensures
            r == classification_of(*self),
            r == ContactClassification::Merchant <==> (self.merchant >= 3 && self.merchant > self.escort),
            r == ContactClassification::Escort <==> (self.escort >= 3 && self.escort > self.merchant),
    {
        if self.merchant >= 3 && self.merchant > self.escort {
            ContactClassification::Merchant
        } else if self.escort >= 3 && self.escort > self.merchant {
            ContactClassification::Escort
        } else {
            ContactClassification::Unknown
        }
    }
}

/// Evidence only grows, and a mixed profile leaves the balance between the
/// two kinds where it was unless a count is saturated.
pub proof fn lemma_evidence_grows(e: Evidence, profile: AcousticProfile)
    ensures
        with_profile(e, profile).merchant >= e.merchant,
        with_profile(e, profile).escort >= e.escort,
        profile == AcousticProfile::Mixed && e.merchant < 255 && e.escort < 255 ==>
            with_profile(e, profile).merchant - with_profile(e, profile).escort == e.merchant - e.escort,
{
}

/// Fewer than three observations of either kind never classify a contact.
pub proof fn lemma_three_observations_needed(e: Evidence)
    requires
        e.merchant < 3,
        e.escort < 3,
    ensures
        classification_of(e) == ContactClassification::Unknown,
{
}

/// How evidence classifies a contact: a merchant once at least three
/// observations sounded like one and they outnumber the escort ones, an
/// escort likewise whatever the merchant count below it, unknown otherwise;
/// the two kinds are treated alike.
pub proof fn lemma_classification_rule(e: Evidence)
    ensures
        classification_of(e) == ContactClassification::Merchant <==> (e.merchant >= 3 && e.merchant > e.escort),
        classification_of(e) == ContactClassification::Escort <==> (e.escort >= 3 && e.escort > e.merchant),
        classification_of(e) == ContactClassification::Unknown <==> !(e.merchant >= 3 && e.merchant > e.escort)
            && !(e.escort >= 3 && e.escort > e.merchant),
        classification_of(Evidence { merchant: e.escort, escort: e.merchant }) == match classification_of(e) {
            ContactClassification::Merchant => ContactClassification::Escort,
            ContactClassification::Escort => ContactClassification::Merchant,
            ContactClassification::Unknown => ContactClassification::Unknown,
        },
{
}

/// One observation counts once: a low-frequency one for a merchant, a
/// high-frequency one for an escort, a mixed one for both (each count
/// stopping at its largest value); the other count is untouched.
pub proof fn lemma_one_observation_counts_once(e: Evidence, profile: AcousticProfile)
    ensures
        with_profile(e, profile).merchant == (match profile {
            AcousticProfile::HighFrequency => e.merchant as int,
            _ => if e.merchant == 255 { 255 } else { e.merchant + 1 },
        }),
        with_profile(e, profile).escort == (match profile {
            AcousticProfile::LowFrequency => e.escort as int,
            _ => if e.escort == 255 { 255 } else { e.escort + 1 },
        }),
{
}

} // verus!
