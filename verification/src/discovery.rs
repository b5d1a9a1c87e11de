//! Bookkeeping of a discovery scan: which advertisements are collected.

use vstd::prelude::*;

use crate::filter::ScanFilter;
use crate::properties::{PeripheralProperties, PropertiesView};
use crate::text::text_eq;

verus! {

/// The set of device identifiers already collected by a scan.
/// Held as a list compared text by text, so that membership is known
/// exactly for `String` identifiers.
pub struct SeenIds {
    ids: Vec<String>,
}

impl View for SeenIds {
    type V = Set<Seq<char>>;

    closed spec fn view(&self) -> Set<Seq<char>> {
        Set::new(|t: Seq<char>| exists|i: int| 0 <= i < self.ids@.len() && #[trigger] self.ids@[i]@ == t)
    }
}

impl SeenIds {
    /// An empty set.
    pub fn new() -> (r: SeenIds)
        ensures
            r@ == Set::<Seq<char>>::empty(),
    {
        let r = SeenIds { ids: Vec::new() };
        assert(r@ =~= Set::<Seq<char>>::empty());
        r
    }

    /// Whether `id` was seen.
    pub fn contains(&self, id: &str) -> (r: bool)
        ensures
            r == self@.contains(id@),
    {
        let mut i: usize = 0;
        while i < self.ids.len()
            invariant
                i <= self.ids@.len(),
                forall|j: int| 0 <= j < i ==> #[trigger] self.ids@[j]@ != id@,
            decreases self.ids@.len() - i,
        {
            if text_eq(self.ids[i].as_str(), id) {
                return true;
            }
            i += 1;
        }
        false
    }

    /// Whether nothing was seen.
    pub fn is_empty(&self) -> (r: bool)
        ensures
            r == (self@ == Set::<Seq<char>>::empty()),
    {
        let r = self.ids.len() == 0;
        if r {
            assert(self@ =~= Set::<Seq<char>>::empty());
        } else {
            assert(self@.contains(self.ids@[0]@));
        }
        r
    }

    /// Record `id`; true when it was not seen before.
    pub fn insert(&mut self, id: &str) -> (r: bool)
        ensures
            r == !old(self)@.contains(id@),
            final(self)@ == old(self)@.insert(id@),
    {
        if self.contains(id) {
            return false;
        }
        let ghost before = self.ids@;
        self.ids.push(id.to_owned());
        assert(self@ =~= old(self)@.insert(id@)) by {
            assert forall|t: Seq<char>| self@.contains(t) == old(self)@.insert(id@).contains(t) by {
                if old(self)@.contains(t) {
                    let i = choose|i: int| 0 <= i < before.len() && #[trigger] before[i]@ == t;
                    assert(self.ids@[i]@ == t);
                }
                if t == id@ {
                    assert(self.ids@[before.len() as int]@ == t);
                }
            }
        }
        true
    }
}

/// Whether a scan collects an advertisement, given the identifiers it has
/// seen: the advertisement passes the filter and its identifier is new.
pub open spec fn collects(filter: ScanFilter, p: PropertiesView, seen: Set<Seq<char>>) -> bool {
    filter.spec_matches(p) && !seen.contains(p.id)
}

/// The identifiers seen after looking at an advertisement: its identifier
/// joins them when it passes the filter.
pub open spec fn seen_after(filter: ScanFilter, p: PropertiesView, seen: Set<Seq<char>>) -> Set<Seq<char>> {
    if filter.spec_matches(p) {
        seen.insert(p.id)
    } else {
        seen
    }
}

/// Whether a scan should collect an advertisement: it passes the filter and
/// its device identifier was not collected before; a collected identifier
/// is recorded in `seen_ids`.
pub fn should_collect_discovered_properties(
    properties: &PeripheralProperties,
    filter: &ScanFilter,
    seen_ids: &mut SeenIds,
) -> (r: bool)
    ensures
        r == collects(*filter, properties@, old(seen_ids)@),
        final(seen_ids)@ == seen_after(*filter, properties@, old(seen_ids)@),
{
    if !filter.matches_properties(properties) {
        return false;
    }
    seen_ids.insert(properties.id.as_str())
}

/// The pause between scan iterations in seconds: the filter's interval,
/// at least one second.
pub fn scan_interval_secs(filter: &ScanFilter) -> (r: u64)
    ensures
        r == if filter.scan_interval_secs < 1 { 1 } else { filter.scan_interval_secs },
{
    if filter.scan_interval_secs < 1 { 1 } else { filter.scan_interval_secs }
}

/// How long a scan pauses before its next look, in milliseconds: the
/// shorter of the time left before the deadline and the scan interval.
pub fn scan_pause_ms(filter: &ScanFilter, remaining_ms: u64) -> (r: u64)
    ensures
        r == if remaining_ms < interval_ms(*filter) { remaining_ms } else { interval_ms(*filter) },
{
    let secs = scan_interval_secs(filter);
    let interval: u64 = if secs > u64::MAX / 1000 { u64::MAX } else { secs * 1000 };
    if remaining_ms < interval { remaining_ms } else { interval }
}

/// The scan interval in milliseconds, at least one second, saturating at
/// the largest `u64`.
pub open spec fn interval_ms(filter: ScanFilter) -> u64 {
    let secs: int = if filter.scan_interval_secs < 1 { 1 } else { filter.scan_interval_secs as int };
    if secs * 1000 > u64::MAX { u64::MAX } else { (secs * 1000) as u64 }
}

/// The identifiers seen after a scan looked at the first `n`
/// advertisements of `ads`, starting from none.
pub open spec fn seen_through(filter: ScanFilter, ads: Seq<PropertiesView>, n: int) -> Set<Seq<char>>
    decreases n,
{
    if n <= 0 {
        Set::empty()
    } else {
        seen_after(filter, ads[n - 1], seen_through(filter, ads, n - 1))
    }
}

/// Whether a scan over `ads` collects advertisement `k`.
pub open spec fn collected_at(filter: ScanFilter, ads: Seq<PropertiesView>, k: int) -> bool {
    collects(filter, ads[k], seen_through(filter, ads, k))
}

/// After the first `n` advertisements, the identifiers seen are exactly
/// those of the advertisements among them that passed the filter.
pub proof fn lemma_seen_through(filter: ScanFilter, ads: Seq<PropertiesView>, n: int)
    requires
        0 <= n <= ads.len(),
    ensures
        forall|t: Seq<char>| #[trigger] seen_through(filter, ads, n).contains(t)
            <==> exists|j: int| 0 <= j < n && filter.spec_matches(ads[j]) && ads[j].id == t,
    decreases n,
{
    if n > 0 {
        lemma_seen_through(filter, ads, n - 1);
        assert forall|t: Seq<char>| #[trigger] seen_through(filter, ads, n).contains(t)
            <==> exists|j: int| 0 <= j < n && filter.spec_matches(ads[j]) && ads[j].id == t by {
            if seen_through(filter, ads, n).contains(t) {
                if seen_through(filter, ads, n - 1).contains(t) {
                    let j = choose|j: int| 0 <= j < n - 1 && filter.spec_matches(ads[j]) && ads[j].id == t;
                    assert(0 <= j < n && filter.spec_matches(ads[j]) && ads[j].id == t);
                } else {
                    assert(filter.spec_matches(ads[n - 1]) && ads[n - 1].id == t);
                }
            }
            if exists|j: int| 0 <= j < n && filter.spec_matches(ads[j]) && ads[j].id == t {
                let j = choose|j: int| 0 <= j < n && filter.spec_matches(ads[j]) && ads[j].id == t;
                if j < n - 1 {
                    assert(seen_through(filter, ads, n - 1).contains(t));
                }
            }
        }
    }
}

/// Over a whole scan, an advertisement is collected exactly when it passes
/// the filter and no earlier advertisement that passed had its identifier;
/// so each device is collected once, at its first passing advertisement.
pub proof fn lemma_scan_collects_first_of_each_id(filter: ScanFilter, ads: Seq<PropertiesView>, k: int)
    requires
        0 <= k < ads.len(),
    ensures
        collected_at(filter, ads, k) <==> (filter.spec_matches(ads[k]) && forall|j: int|
            0 <= j < k && filter.spec_matches(ads[j]) ==> ads[j].id != ads[k].id),
{
    lemma_seen_through(filter, ads, k);
    assert(seen_through(filter, ads, k).contains(ads[k].id)
        <==> exists|j: int| 0 <= j < k && filter.spec_matches(ads[j]) && ads[j].id == ads[k].id);
}

/// A scan collects each device at most once: once an advertisement has
/// passed the filter, no later advertisement with the same identifier is
/// collected, whatever it holds.
pub proof fn lemma_collects_each_id_once(
    filter: ScanFilter,
    first: PropertiesView,
    later: PropertiesView,
    seen: Set<Seq<char>>,
)
    requires
        filter.spec_matches(first),
        later.id == first.id,
    ensures
        !collects(filter, later, seen_after(filter, first, seen)),
{
}

/// Looking at an advertisement never forgets an identifier.
pub proof fn lemma_seen_only_grows(filter: ScanFilter, p: PropertiesView, seen: Set<Seq<char>>)
    ensures
        seen.subset_of(seen_after(filter, p, seen)),
{
}

} // verus!
