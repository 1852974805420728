//! Matches, the per-term result records they are counted into, and the
//! severity tier that a count amounts to.

use vstd::prelude::*;
pub use crate::vendor::{Vendor, VendorSet};

verus! {

/// One occurrence of a requested keyword.
#[derive(Debug, Clone)]
pub struct KeywordMatch {
    pub keyword: String,
    pub vendor: Vendor,
    pub is_hard: bool,
}

/// What a `KeywordMatch` says, with the keyword as a sequence of characters.
pub struct KeywordHit {
    pub keyword: Seq<char>,
    pub vendor: Vendor,
    pub is_hard: bool,
}

impl View for KeywordMatch {
    type V = KeywordHit;

    open spec fn view(&self) -> KeywordHit {
        KeywordHit { keyword: self.keyword@, vendor: self.vendor, is_hard: self.is_hard }
    }
}

/// One occurrence of a requested label.
#[derive(Debug, Clone)]
pub struct LabelMatch {
    pub label: String,
    pub vendor: Vendor,
}

/// What a `LabelMatch` says, with the label as a sequence of characters.
pub struct LabelHit {
    pub label: Seq<char>,
    pub vendor: Vendor,
}

impl View for LabelMatch {
    type V = LabelHit;

    open spec fn view(&self) -> LabelHit {
        LabelHit { label: self.label@, vendor: self.vendor }
    }
}

/// The severity tier of a match count, from `NoImpact` (no match at all) up to `Critical`.
#[derive(Debug, Clone, Copy, PartialEq, Eq, Structural, PartialOrd, Ord)]
pub enum ImpactLevel {
    NoImpact,
    Low,
    Medium,
    High,
    Critical,
}

impl ImpactLevel {
    /// The tier of a count: 0 is `NoImpact`, up to 25 `Low`, up to 100 `Medium`,
    /// up to 500 `High`, anything above `Critical`.
    pub open spec fn of(total: nat) -> ImpactLevel {
        if total == 0 {
            ImpactLevel::NoImpact
        } else if total <= 25 {
            ImpactLevel::Low
        } else if total <= 100 {
            ImpactLevel::Medium
        } else if total <= 500 {
            ImpactLevel::High
        } else {
            ImpactLevel::Critical
        }
    }

    /// The position of a tier in the order `NoImpact < Low < Medium < High < Critical`.
    pub open spec fn rank(self) -> nat {
        match self {
            ImpactLevel::NoImpact => 0,
            ImpactLevel::Low => 1,
            ImpactLevel::Medium => 2,
            ImpactLevel::High => 3,
            ImpactLevel::Critical => 4,
        }
    }

    /// The tier's name.
    pub open spec fn name(self) -> Seq<char> {
        match self {
            ImpactLevel::NoImpact => "None"@,
            ImpactLevel::Low => "Low"@,
            ImpactLevel::Medium => "Medium"@,
            ImpactLevel::High => "High"@,
            ImpactLevel::Critical => "Critical"@,
        }
    }

    /// The tier's name, as shown in a report.
    pub fn as_str(&self) -> (r: &'static str)
        ensures
            r@ == self.name(),
    {
        match self {
            ImpactLevel::NoImpact => "None",
            ImpactLevel::Low => "Low",
            ImpactLevel::Medium => "Medium",
            ImpactLevel::High => "High",
            ImpactLevel::Critical => "Critical",
        }
    }

    /// The tier that a match count amounts to.
    pub fn calculate(total: usize) -> (r: ImpactLevel)
        ensures
            r == ImpactLevel::of(total as nat),
    {
        match total {
            0 => ImpactLevel::NoImpact,
            1..=25 => ImpactLevel::Low,
            26..=100 => ImpactLevel::Medium,
            101..=500 => ImpactLevel::High,
            _ => ImpactLevel::Critical,
        }
    }

    /// The tier's position in the order, for sorting.
    pub fn severity(&self) -> (r: u8)
        ensures
            r == self.rank(),
    {
        match self {
            ImpactLevel::NoImpact => 0,
            ImpactLevel::Low => 1,
            ImpactLevel::Medium => 2,
            ImpactLevel::High => 3,
            ImpactLevel::Critical => 4,
        }
    }
}

/// A larger count never has a lower tier.
pub proof fn lemma_impact_monotonic(n: nat, m: nat)
    requires
        n <= m,
    ensures
        ImpactLevel::of(n).rank() <= ImpactLevel::of(m).rank(),
{
}

/// What a keyword record counts, in unbounded numbers.
#[verifier::ext_equal]
pub struct KeywordTally {
    pub soft: nat,
    pub hard: nat,
    pub vendors: Set<Vendor>,
}

/// What a label record counts, in unbounded numbers.
#[verifier::ext_equal]
pub struct LabelTally {
    pub count: nat,
    pub vendors: Set<Vendor>,
}

impl KeywordTally {
    /// The tally of a keyword that was not seen.
    pub open spec fn zero() -> KeywordTally {
        KeywordTally { soft: 0, hard: 0, vendors: Set::empty() }
    }

    /// Soft and hard matches together.
    pub open spec fn total(self) -> nat {
        self.soft + self.hard
    }

    /// The tier of the soft matches alone.
    pub open spec fn soft_tier(self) -> ImpactLevel {
        ImpactLevel::of(self.soft)
    }

    /// The tier of soft and hard matches together.
    pub open spec fn hard_tier(self) -> ImpactLevel {
        ImpactLevel::of(self.total())
    }

    /// The tally after one more match: a hard match counts as hard, any
    /// other as soft, and a well-known vendor joins the set.
    pub open spec fn with_hit(self, hit: KeywordHit) -> KeywordTally {
        KeywordTally {
            soft: if hit.is_hard {
                self.soft
            } else {
                self.soft + 1
            },
            hard: if hit.is_hard {
                self.hard + 1
            } else {
                self.hard
            },
            vendors: if hit.vendor.well_known() {
                self.vendors.insert(hit.vendor)
            } else {
                self.vendors
            },
        }
    }

    /// Two tallies taken together.
    pub open spec fn plus(self, other: KeywordTally) -> KeywordTally {
        KeywordTally {
            soft: self.soft + other.soft,
            hard: self.hard + other.hard,
            vendors: self.vendors.union(other.vendors),
        }
    }
}

impl LabelTally {
    /// The tally of a label that was not seen.
    pub open spec fn zero() -> LabelTally {
        LabelTally { count: 0, vendors: Set::empty() }
    }

    /// The tally after one more match.
    pub open spec fn with_hit(self, hit: LabelHit) -> LabelTally {
        LabelTally {
            count: self.count + 1,
            vendors: if hit.vendor.well_known() {
                self.vendors.insert(hit.vendor)
            } else {
                self.vendors
            },
        }
    }

    /// Two tallies taken together.
    pub open spec fn plus(self, other: LabelTally) -> LabelTally {
        LabelTally { count: self.count + other.count, vendors: self.vendors.union(other.vendors) }
    }
}

/// What has been counted for one keyword.
#[derive(Debug, Clone, Copy, PartialEq, Eq, Structural)]
pub struct KeywordResult {
    pub soft_count: usize,
    pub hard_count: usize,
    pub well_known_vendors: VendorSet,
}

impl View for KeywordResult {
    type V = KeywordTally;

    open spec fn view(&self) -> KeywordTally {
        KeywordTally {
            soft: self.soft_count as nat,
            hard: self.hard_count as nat,
            vendors: self.well_known_vendors@,
        }
    }
}

/// What has been counted for one label.
#[derive(Debug, Clone, Copy, PartialEq, Eq, Structural)]
pub struct LabelResult {
    pub count: usize,
    pub well_known_vendors: VendorSet,
}

impl View for LabelResult {
    type V = LabelTally;

    open spec fn view(&self) -> LabelTally {
        LabelTally { count: self.count as nat, vendors: self.well_known_vendors@ }
    }
}

impl KeywordResult {
    /// A record with no match in it.
    pub fn new() -> (r: KeywordResult)
        ensures
            r@ == KeywordTally::zero(),
    {
        KeywordResult { soft_count: 0, hard_count: 0, well_known_vendors: VendorSet::new() }
    }

    /// Soft and hard matches together.
    pub fn total_count(&self) -> (r: usize)
        requires
            self@.total() <= usize::MAX,
        ensures
            r == self@.total(),
    {
        self.soft_count + self.hard_count
    }

    /// The tier of the soft matches alone.
    pub fn soft_impact(&self) -> (r: ImpactLevel)
        ensures
            r == self@.soft_tier(),
    {
        ImpactLevel::calculate(self.soft_count)
    }

    /// The tier of soft and hard matches together.
    pub fn hard_impact(&self) -> (r: ImpactLevel)
        requires
            self@.total() <= usize::MAX,
        ensures
            r == self@.hard_tier(),
    {
        ImpactLevel::calculate(self.total_count())
    }

    /// Counts one match: a hard one in `hard_count`, a soft one in
    /// `soft_count`, and its vendor in the set if it is well known.
    pub fn add_match(&mut self, m: &KeywordMatch)
        requires
            old(self)@.total() < usize::MAX,
        ensures
            final(self)@ == old(self)@.with_hit(m@),
    {
        if m.is_hard {
            self.hard_count += 1;
        } else {
            self.soft_count += 1;
        }
        if m.vendor.is_well_known() {
            self.well_known_vendors.insert(m.vendor);
        }
    }
}

/// The tier of soft and hard matches together is never below the tier of the
/// soft matches alone.
pub proof fn lemma_hard_impact_covers_soft(tally: KeywordTally)
    ensures
        tally.hard_tier().rank() >= tally.soft_tier().rank(),
{
    lemma_impact_monotonic(tally.soft, tally.total());
}

impl LabelResult {
    /// A record with no match in it.
    pub fn new() -> (r: LabelResult)
        ensures
            r@ == LabelTally::zero(),
    {
        LabelResult { count: 0, well_known_vendors: VendorSet::new() }
    }

    /// Counts one match, and its vendor in the set if it is well known.
    pub fn add_match(&mut self, m: &LabelMatch)
        requires
            old(self).count < usize::MAX,
        ensures
            final(self)@ == old(self)@.with_hit(m@),
    {
        self.count += 1;
        if m.vendor.is_well_known() {
            self.well_known_vendors.insert(m.vendor);
        }
    }
}

} // verus!
