//! The scan filter: the first-layer filter applied while scanning, before
//! the selector ranks what was collected.
//!
//! Within each category the conditions are alternatives; between categories
//! all must pass. Empty name and address pattern lists match every device,
//! and a pattern matches any text it is a prefix of.

use vstd::prelude::*;

use crate::properties::{
    name_or_empty, optional_manufacturer, present_and_satisfies, ManufacturerPredicate, PeripheralProperties,
    PropertiesPredicate, PropertiesView,
};
use crate::text::{starts_with, text_bytes, text_eq};
use crate::uuid::Uuid;

verus! {

/// Whether `pattern` matches `text`: its bytes are a prefix of the text's.
pub open spec fn pattern_matches(pattern: Seq<char>, text: Seq<char>) -> bool {
    text_bytes(pattern).is_prefix_of(text_bytes(text))
}

/// Whether some pattern of the list matches `text`.
pub open spec fn any_pattern_matches(patterns: Seq<String>, text: Seq<char>) -> bool {
    exists|i: int| 0 <= i < patterns.len() && pattern_matches(#[trigger] patterns[i]@, text)
}

/// Whether some pattern of `patterns` is a prefix of `text`.
pub fn any_prefix(patterns: &Vec<String>, text: &str) -> (r: bool)
    ensures
        r == any_pattern_matches(patterns@, text@),
{
    let mut i: usize = 0;
    while i < patterns.len()
        invariant
            i <= patterns@.len(),
            forall|j: int| 0 <= j < i ==> !pattern_matches(#[trigger] patterns@[j]@, text@),
        decreases patterns@.len() - i,
    {
        if starts_with(text, patterns[i].as_str()) {
            return true;
        }
        i += 1;
    }
    false
}

/// Copy a list of borrowed texts into owned strings, appending to `out`.
fn extend_texts(out: &mut Vec<String>, texts: &[&str])
    ensures
        final(out)@.len() == old(out)@.len() + texts@.len(),
        forall|i: int| 0 <= i < old(out)@.len() ==> #[trigger] final(out)@[i] == old(out)@[i],
        forall|i: int| 0 <= i < texts@.len() ==> #[trigger] final(out)@[old(out)@.len() + i]@ == texts@[i]@,
{
    let ghost start = out@;
    let mut i: usize = 0;
    while i < texts.len()
        invariant
            i <= texts@.len(),
            out@.len() == start.len() + i,
            forall|k: int| 0 <= k < start.len() ==> #[trigger] out@[k] == start[k],
            forall|k: int| 0 <= k < i ==> #[trigger] out@[start.len() + k]@ == texts@[k]@,
        decreases texts@.len() - i,
    {
        out.push(texts[i].to_owned());
        i += 1;
    }
}

/// Pause between scan iterations, in seconds, of a filter that does not
/// set one.
pub const DEFAULT_SCAN_INTERVAL_SECS: u64 = 2;

/// Scan filter for discovering peripherals.
pub struct ScanFilter {
    /// Name patterns (alternatives, prefix matching).
    pub name_patterns: Vec<String>,
    /// Address / device-id patterns (alternatives, prefix matching).
    pub addr_patterns: Vec<String>,
    /// Service UUIDs, used by the operating system's scan filter.
    pub service_uuids: Vec<Uuid>,
    /// Manufacturer company identifiers; when any is given, one must match.
    pub manufacturer_company_ids: Vec<u16>,
    /// Conditions that the manufacturer data must all satisfy.
    pub manufacturer_predicates: Vec<ManufacturerPredicate>,
    /// Conditions that the whole properties snapshot must all satisfy.
    pub property_predicates: Vec<PropertiesPredicate>,
    /// Pause between scan iterations in seconds (default: 2).
    pub scan_interval_secs: u64,
}

impl Default for ScanFilter {
    fn default() -> (r: Self)
        ensures
            r.name_patterns@.len() == 0,
            r.addr_patterns@.len() == 0,
            r.service_uuids@.len() == 0,
            r.manufacturer_company_ids@.len() == 0,
            r.manufacturer_predicates@.len() == 0,
            r.property_predicates@.len() == 0,
            r.scan_interval_secs == DEFAULT_SCAN_INTERVAL_SECS,
    {
        ScanFilter {
            name_patterns: Vec::new(),
            addr_patterns: Vec::new(),
            service_uuids: Vec::new(),
            manufacturer_company_ids: Vec::new(),
            manufacturer_predicates: Vec::new(),
            property_predicates: Vec::new(),
            scan_interval_secs: DEFAULT_SCAN_INTERVAL_SECS,
        }
    }
}

impl ScanFilter {
    /// The name and address categories: no patterns pass everything; with
    /// patterns of only one kind that kind must match; with both, either
    /// may.
    pub open spec fn spec_matches_name_or_address(&self, p: PropertiesView) -> bool {
        let name_ok = any_pattern_matches(self.name_patterns@, name_or_empty(p));
        let addr_ok = any_pattern_matches(self.addr_patterns@, p.id);
        let has_name = self.name_patterns@.len() > 0;
        let has_addr = self.addr_patterns@.len() > 0;
        if !has_name && !has_addr {
            true
        } else if has_name && !has_addr {
            name_ok
        } else if !has_name && has_addr {
            addr_ok
        } else {
            name_ok || addr_ok
        }
    }

    /// The manufacturer category: a listed company identifier must match
    /// when any is listed, and present manufacturer data must satisfy every
    /// manufacturer condition.
    pub open spec fn spec_matches_manufacturer(&self, m: Option<crate::properties::ManufacturerDataView>) -> bool {
        &&& self.manufacturer_company_ids@.len() > 0 ==> match m {
            Some(d) => self.manufacturer_company_ids@.contains(d.company_id),
            None => false,
        }
        &&& forall|i: int| 0 <= i < self.manufacturer_predicates@.len()
            ==> present_and_satisfies(#[trigger] self.manufacturer_predicates@[i], m)
    }

    /// Whether a properties snapshot passes every category of the filter.
    pub open spec fn spec_matches(&self, p: PropertiesView) -> bool {
        &&& self.spec_matches_name_or_address(p)
        &&& self.spec_matches_manufacturer(p.manufacturer_data)
        &&& forall|i: int| 0 <= i < self.property_predicates@.len() ==> #[trigger] self.property_predicates@[i].holds(p)
    }

    /// Add a name pattern.
    pub fn with_name_pattern(self, pattern: &str) -> (r: Self)
        ensures
            r.name_patterns@.len() == self.name_patterns@.len() + 1,
            r.name_patterns@.drop_last() == self.name_patterns@,
            r.name_patterns@.last()@ == pattern@,
            r.addr_patterns@ == self.addr_patterns@,
            r.service_uuids@ == self.service_uuids@,
            r.manufacturer_company_ids@ == self.manufacturer_company_ids@,
            r.manufacturer_predicates@ == self.manufacturer_predicates@,
            r.property_predicates@ == self.property_predicates@,
            r.scan_interval_secs == self.scan_interval_secs,
    {
        let mut s = self;
        s.name_patterns.push(pattern.to_owned());
        assert(s.name_patterns@.drop_last() =~= self.name_patterns@);
        s
    }

    /// Add several name patterns, in order.
    pub fn with_name_patterns(self, patterns: &[&str]) -> (r: Self)
        ensures
            r.name_patterns@.len() == self.name_patterns@.len() + patterns@.len(),
            forall|i: int| 0 <= i < self.name_patterns@.len() ==> #[trigger] r.name_patterns@[i] == self.name_patterns@[i],
            forall|i: int| 0 <= i < patterns@.len() ==> #[trigger] r.name_patterns@[self.name_patterns@.len() + i]@ == patterns@[i]@,
            r.addr_patterns@ == self.addr_patterns@,
            r.service_uuids@ == self.service_uuids@,
            r.manufacturer_company_ids@ == self.manufacturer_company_ids@,
            r.manufacturer_predicates@ == self.manufacturer_predicates@,
            r.property_predicates@ == self.property_predicates@,
            r.scan_interval_secs == self.scan_interval_secs,
    {
        let mut s = self;
        extend_texts(&mut s.name_patterns, patterns);
        s
    }

    /// Add an address / device-id pattern.
    pub fn with_addr_pattern(self, pattern: &str) -> (r: Self)
        ensures
            r.addr_patterns@.len() == self.addr_patterns@.len() + 1,
            r.addr_patterns@.drop_last() == self.addr_patterns@,
            r.addr_patterns@.last()@ == pattern@,
            r.name_patterns@ == self.name_patterns@,
            r.service_uuids@ == self.service_uuids@,
            r.manufacturer_company_ids@ == self.manufacturer_company_ids@,
            r.manufacturer_predicates@ == self.manufacturer_predicates@,
            r.property_predicates@ == self.property_predicates@,
            r.scan_interval_secs == self.scan_interval_secs,
    {
        let mut s = self;
        s.addr_patterns.push(pattern.to_owned());
        assert(s.addr_patterns@.drop_last() =~= self.addr_patterns@);
        s
    }

    /// Add several address / device-id patterns, in order.
    pub fn with_addr_patterns(self, patterns: &[&str]) -> (r: Self)
        ensures
            r.addr_patterns@.len() == self.addr_patterns@.len() + patterns@.len(),
            forall|i: int| 0 <= i < self.addr_patterns@.len() ==> #[trigger] r.addr_patterns@[i] == self.addr_patterns@[i],
            forall|i: int| 0 <= i < patterns@.len() ==> #[trigger] r.addr_patterns@[self.addr_patterns@.len() + i]@ == patterns@[i]@,
            r.name_patterns@ == self.name_patterns@,
            r.service_uuids@ == self.service_uuids@,
            r.manufacturer_company_ids@ == self.manufacturer_company_ids@,
            r.manufacturer_predicates@ == self.manufacturer_predicates@,
            r.property_predicates@ == self.property_predicates@,
            r.scan_interval_secs == self.scan_interval_secs,
    {
        let mut s = self;
        extend_texts(&mut s.addr_patterns, patterns);
        s
    }

    /// Add a service UUID (used by the operating system's scan).
    pub fn with_service_uuid(self, uuid: Uuid) -> (r: Self)
        ensures
            r.service_uuids@ == self.service_uuids@.push(uuid),
            r.name_patterns@ == self.name_patterns@,
            r.addr_patterns@ == self.addr_patterns@,
            r.manufacturer_company_ids@ == self.manufacturer_company_ids@,
            r.manufacturer_predicates@ == self.manufacturer_predicates@,
            r.property_predicates@ == self.property_predicates@,
            r.scan_interval_secs == self.scan_interval_secs,
    {
        let mut s = self;
        s.service_uuids.push(uuid);
        s
    }

    /// Add several service UUIDs, in order.
    pub fn with_service_uuids(self, uuids: &[Uuid]) -> (r: Self)
        ensures
            r.service_uuids@ == self.service_uuids@ + uuids@,
            r.name_patterns@ == self.name_patterns@,
            r.addr_patterns@ == self.addr_patterns@,
            r.manufacturer_company_ids@ == self.manufacturer_company_ids@,
            r.manufacturer_predicates@ == self.manufacturer_predicates@,
            r.property_predicates@ == self.property_predicates@,
            r.scan_interval_secs == self.scan_interval_secs,
    {
        let mut s = self;
        let mut i: usize = 0;
        while i < uuids.len()
            invariant
                i <= uuids@.len(),
                s.service_uuids@ == self.service_uuids@ + uuids@.subrange(0, i as int),
                s.name_patterns@ == self.name_patterns@,
                s.addr_patterns@ == self.addr_patterns@,
                s.manufacturer_company_ids@ == self.manufacturer_company_ids@,
                s.manufacturer_predicates@ == self.manufacturer_predicates@,
                s.property_predicates@ == self.property_predicates@,
                s.scan_interval_secs == self.scan_interval_secs,
            decreases uuids@.len() - i,
        {
            s.service_uuids.push(uuids[i]);
            assert(uuids@.subrange(0, i + 1) =~= uuids@.subrange(0, i as int).push(uuids@[i as int]));
            i += 1;
        }
        assert(uuids@.subrange(0, uuids@.len() as int) =~= uuids@);
        s
    }

    /// Add a manufacturer company identifier.
    pub fn with_manufacturer_company_id(self, company_id: u16) -> (r: Self)
        ensures
            r.manufacturer_company_ids@ == self.manufacturer_company_ids@.push(company_id),
            r.name_patterns@ == self.name_patterns@,
            r.addr_patterns@ == self.addr_patterns@,
            r.service_uuids@ == self.service_uuids@,
            r.manufacturer_predicates@ == self.manufacturer_predicates@,
            r.property_predicates@ == self.property_predicates@,
            r.scan_interval_secs == self.scan_interval_secs,
    {
        let mut s = self;
        s.manufacturer_company_ids.push(company_id);
        s
    }

    /// Add several manufacturer company identifiers, in order.
    pub fn with_manufacturer_company_ids(self, company_ids: &[u16]) -> (r: Self)
        ensures
            r.manufacturer_company_ids@ == self.manufacturer_company_ids@ + company_ids@,
            r.name_patterns@ == self.name_patterns@,
            r.addr_patterns@ == self.addr_patterns@,
            r.service_uuids@ == self.service_uuids@,
            r.manufacturer_predicates@ == self.manufacturer_predicates@,
            r.property_predicates@ == self.property_predicates@,
            r.scan_interval_secs == self.scan_interval_secs,
    {
        let mut s = self;
        let mut i: usize = 0;
        while i < company_ids.len()
            invariant
                i <= company_ids@.len(),
                s.manufacturer_company_ids@ == self.manufacturer_company_ids@ + company_ids@.subrange(0, i as int),
                s.name_patterns@ == self.name_patterns@,
                s.addr_patterns@ == self.addr_patterns@,
                s.service_uuids@ == self.service_uuids@,
                s.manufacturer_predicates@ == self.manufacturer_predicates@,
                s.property_predicates@ == self.property_predicates@,
                s.scan_interval_secs == self.scan_interval_secs,
            decreases company_ids@.len() - i,
        {
            s.manufacturer_company_ids.push(company_ids[i]);
            assert(company_ids@.subrange(0, i + 1) =~= company_ids@.subrange(0, i as int).push(company_ids@[i as int]));
            i += 1;
        }
        assert(company_ids@.subrange(0, company_ids@.len() as int) =~= company_ids@);
        s
    }

    /// Add a manufacturer-data condition.
    pub fn with_manufacturer_data(self, predicate: ManufacturerPredicate) -> (r: Self)
        ensures
            r.manufacturer_predicates@ == self.manufacturer_predicates@.push(predicate),
            r.name_patterns@ == self.name_patterns@,
            r.addr_patterns@ == self.addr_patterns@,
            r.service_uuids@ == self.service_uuids@,
            r.manufacturer_company_ids@ == self.manufacturer_company_ids@,
            r.property_predicates@ == self.property_predicates@,
            r.scan_interval_secs == self.scan_interval_secs,
    {
        let mut s = self;
        s.manufacturer_predicates.push(predicate);
        s
    }

    /// Add a condition on the whole properties snapshot.
    pub fn filter(self, predicate: PropertiesPredicate) -> (r: Self)
        ensures
            r.property_predicates@ == self.property_predicates@.push(predicate),
            r.name_patterns@ == self.name_patterns@,
            r.addr_patterns@ == self.addr_patterns@,
            r.service_uuids@ == self.service_uuids@,
            r.manufacturer_company_ids@ == self.manufacturer_company_ids@,
            r.manufacturer_predicates@ == self.manufacturer_predicates@,
            r.scan_interval_secs == self.scan_interval_secs,
    {
        let mut s = self;
        s.property_predicates.push(predicate);
        s
    }

    /// Set the pause between scan iterations.
    pub fn with_scan_interval_secs(self, secs: u64) -> (r: Self)
        ensures
            r.scan_interval_secs == secs,
            r.name_patterns@ == self.name_patterns@,
            r.addr_patterns@ == self.addr_patterns@,
            r.service_uuids@ == self.service_uuids@,
            r.manufacturer_company_ids@ == self.manufacturer_company_ids@,
            r.manufacturer_predicates@ == self.manufacturer_predicates@,
            r.property_predicates@ == self.property_predicates@,
    {
        let mut s = self;
        s.scan_interval_secs = secs;
        s
    }

    /// Check the name and address categories.
    pub fn matches_name_or_address(&self, properties: &PeripheralProperties) -> (r: bool)
        ensures
            r == self.spec_matches_name_or_address(properties@),
    {
        let name: &str = match &properties.local_name {
            Some(n) => n.as_str(),
            None => "",
        };
        proof {
            reveal_strlit("");
            assert(name@ == name_or_empty(properties@));
        }
        let has_name = self.name_patterns.len() > 0;
        let has_addr = self.addr_patterns.len() > 0;
        let name_ok = any_prefix(&self.name_patterns, name);
        let addr_ok = any_prefix(&self.addr_patterns, properties.id.as_str());
        if !has_name && !has_addr {
            true
        } else if has_name && !has_addr {
            name_ok
        } else if !has_name && has_addr {
            addr_ok
        } else {
            name_ok || addr_ok
        }
    }

    /// Check the manufacturer category.
    pub fn matches_manufacturer(&self, manufacturer: &Option<crate::properties::ManufacturerData>) -> (r: bool)
        ensures
            r == self.spec_matches_manufacturer(optional_manufacturer(*manufacturer)),
    {
        if self.manufacturer_company_ids.len() > 0 {
            match manufacturer {
                None => { return false; },
                Some(d) => {
                    let mut found = false;
                    let mut i: usize = 0;
                    while i < self.manufacturer_company_ids.len()
                        invariant
                            i <= self.manufacturer_company_ids@.len(),
                            found == exists|j: int| 0 <= j < i && #[trigger] self.manufacturer_company_ids@[j] == d.company_id,
                        decreases self.manufacturer_company_ids@.len() - i,
                    {
                        if d.is_company_id(self.manufacturer_company_ids[i]) {
                            found = true;
                        }
                        i += 1;
                    }
                    if !found {
                        return false;
                    }
                },
            }
        }
        let mut i: usize = 0;
        while i < self.manufacturer_predicates.len()
            invariant
                i <= self.manufacturer_predicates@.len(),
                self.manufacturer_company_ids@.len() > 0 ==> match optional_manufacturer(*manufacturer) {
                    Some(d) => self.manufacturer_company_ids@.contains(d.company_id),
                    None => false,
                },
                forall|j: int| 0 <= j < i
                    ==> present_and_satisfies(#[trigger] self.manufacturer_predicates@[j], optional_manufacturer(*manufacturer)),
            decreases self.manufacturer_predicates@.len() - i,
        {
            if !self.manufacturer_predicates[i].test_optional(manufacturer) {
                return false;
            }
            i += 1;
        }
        true
    }

    /// Whether a properties snapshot passes every category of the filter.
    pub fn matches_properties(&self, properties: &PeripheralProperties) -> (r: bool)
        ensures
            r == self.spec_matches(properties@),
    {
        if !self.matches_name_or_address(properties) {
            return false;
        }
        if !self.matches_manufacturer(&properties.manufacturer_data) {
            return false;
        }
        let mut i: usize = 0;
        while i < self.property_predicates.len()
            invariant
                i <= self.property_predicates@.len(),
                forall|j: int| 0 <= j < i ==> #[trigger] self.property_predicates@[j].holds(properties@),
            decreases self.property_predicates@.len() - i,
        {
            if !self.property_predicates[i].test(properties) {
                return false;
            }
            i += 1;
        }
        true
    }
}

/// A filter with no patterns, identifiers or conditions lets every
/// peripheral through: empty categories match everything.
pub proof fn lemma_empty_filter_matches_all(f: ScanFilter, p: PropertiesView)
    requires
        f.name_patterns@.len() == 0,
        f.addr_patterns@.len() == 0,
        f.manufacturer_company_ids@.len() == 0,
        f.manufacturer_predicates@.len() == 0,
        f.property_predicates@.len() == 0,
    ensures
        f.spec_matches(p),
{
}

/// Adding a name pattern never shuts out a peripheral that an existing
/// name pattern lets through: within the name category the patterns are
/// alternatives.
pub proof fn lemma_more_name_patterns_match_more(names: Seq<String>, extra: String, text: Seq<char>)
    requires
        any_pattern_matches(names, text),
    ensures
        any_pattern_matches(names.push(extra), text),
{
    let i = choose|i: int| 0 <= i < names.len() && pattern_matches(#[trigger] names[i]@, text);
    assert(names.push(extra)[i] == names[i]);
}

/// Listed company identifiers are alternatives: with identifiers listed and
/// no further manufacturer condition, the manufacturer category passes
/// exactly when manufacturer data is present and its company identifier is
/// one of those listed, whichever position it has in the list.
pub proof fn lemma_company_ids_are_alternatives(f: ScanFilter, m: Option<crate::properties::ManufacturerDataView>)
    requires
        f.manufacturer_company_ids@.len() > 0,
        f.manufacturer_predicates@.len() == 0,
    ensures
        f.spec_matches_manufacturer(m) <==> match m {
            Some(d) => exists|i: int| 0 <= i < f.manufacturer_company_ids@.len() && f.manufacturer_company_ids@[i] == d.company_id,
            None => false,
        },
{
    if let Some(d) = m {
        if exists|i: int| 0 <= i < f.manufacturer_company_ids@.len() && f.manufacturer_company_ids@[i] == d.company_id {
            let i = choose|i: int| 0 <= i < f.manufacturer_company_ids@.len() && f.manufacturer_company_ids@[i] == d.company_id;
            assert(f.manufacturer_company_ids@.contains(d.company_id));
        }
    }
}

/// A filter of company identifiers alone lets a peripheral through exactly
/// when it carries manufacturer data under one of those identifiers.
pub proof fn lemma_company_id_filter_matches(f: ScanFilter, p: PropertiesView)
    requires
        f.name_patterns@.len() == 0,
        f.addr_patterns@.len() == 0,
        f.manufacturer_company_ids@.len() > 0,
        f.manufacturer_predicates@.len() == 0,
        f.property_predicates@.len() == 0,
    ensures
        f.spec_matches(p) <==> match p.manufacturer_data {
            Some(d) => exists|i: int| 0 <= i < f.manufacturer_company_ids@.len() && f.manufacturer_company_ids@[i] == d.company_id,
            None => false,
        },
{
    lemma_company_ids_are_alternatives(f, p.manufacturer_data);
}

/// Every manufacturer condition and every property condition must hold: a
/// peripheral that fails any one of them is not let through.
pub proof fn lemma_every_condition_must_hold(f: ScanFilter, p: PropertiesView, i: int)
    ensures
        0 <= i < f.manufacturer_predicates@.len() && !(match p.manufacturer_data {
            Some(d) => f.manufacturer_predicates@[i].holds(d),
            None => false,
        }) ==> !f.spec_matches(p),
        0 <= i < f.property_predicates@.len() && !f.property_predicates@[i].holds(p) ==> !f.spec_matches(p),
{
    if 0 <= i < f.manufacturer_predicates@.len() {
        assert(present_and_satisfies(f.manufacturer_predicates@[i], p.manufacturer_data) == match p.manufacturer_data {
            Some(d) => f.manufacturer_predicates@[i].holds(d),
            None => false,
        });
    }
}

} // verus!
