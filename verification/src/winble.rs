//! The single-session BLE layer's scan filter: patterns of one kind are
//! alternatives, and a device passes when its name or its address matches;
//! a kind without patterns takes no part, and a filter without any passes
//! every device.

use vstd::prelude::*;

use crate::filter::{any_pattern_matches, any_prefix, DEFAULT_SCAN_INTERVAL_SECS};
use crate::uuid::Uuid;

verus! {

/// Scan filter of the single-session layer.
pub struct ScanFilter {
    /// Name patterns (alternatives, prefix matching).
    pub name_patterns: Vec<String>,
    /// Address patterns (alternatives, prefix matching).
    pub addr_patterns: Vec<String>,
    /// Service UUIDs, used by the operating system's scan filter.
    pub service_uuids: Vec<Uuid>,
    /// Pause between scan iterations in seconds.
    pub scan_interval_secs: u64,
}

impl Default for ScanFilter {
    fn default() -> (r: Self)
        ensures
            r.name_patterns@.len() == 0,
            r.addr_patterns@.len() == 0,
            r.service_uuids@.len() == 0,
            r.scan_interval_secs == DEFAULT_SCAN_INTERVAL_SECS,
    {
        ScanFilter {
            name_patterns: Vec::new(),
            addr_patterns: Vec::new(),
            service_uuids: Vec::new(),
            scan_interval_secs: DEFAULT_SCAN_INTERVAL_SECS,
        }
    }
}

impl ScanFilter {
    /// Whether a device with this name and address passes: with no
    /// patterns every device does; with patterns of one kind only, one of
    /// them must match; with both kinds, a name or an address pattern must.
    pub open spec fn spec_matches(&self, name: Seq<char>, address: Seq<char>) -> bool {
        let name_ok = any_pattern_matches(self.name_patterns@, name);
        let addr_ok = any_pattern_matches(self.addr_patterns@, address);
        let has_name = self.name_patterns@.len() > 0;
        let has_addr = self.addr_patterns@.len() > 0;
        if !has_name && !has_addr {
            true
        } else if has_name && !has_addr {
            name_ok
        } else if !has_name && has_addr {
            addr_ok
        } else {
            name_ok || addr_ok
        }
    }

    /// Add a name pattern.
    pub fn with_name_pattern(self, pattern: &str) -> (r: Self)
        ensures
            r.name_patterns@.len() == self.name_patterns@.len() + 1,
            r.name_patterns@.drop_last() == self.name_patterns@,
            r.name_patterns@.last()@ == pattern@,
            r.addr_patterns@ == self.addr_patterns@,
            r.service_uuids@ == self.service_uuids@,
            r.scan_interval_secs == self.scan_interval_secs,
    {
        let mut s = self;
        s.name_patterns.push(pattern.to_owned());
        assert(s.name_patterns@.drop_last() =~= self.name_patterns@);
        s
    }

    /// Add several name patterns, in order.
    pub fn with_name_patterns(self, patterns: &[&str]) -> (r: Self)
        ensures
            r.name_patterns@.len() == self.name_patterns@.len() + patterns@.len(),
            forall|i: int| 0 <= i < self.name_patterns@.len() ==> #[trigger] r.name_patterns@[i] == self.name_patterns@[i],
            forall|i: int| 0 <= i < patterns@.len() ==> #[trigger] r.name_patterns@[self.name_patterns@.len() + i]@ == patterns@[i]@,
            r.addr_patterns@ == self.addr_patterns@,
            r.service_uuids@ == self.service_uuids@,
            r.scan_interval_secs == self.scan_interval_secs,
    {
        let mut s = self;
        let ghost start = s.name_patterns@;
        let mut i: usize = 0;
        while i < patterns.len()
            invariant
                i <= patterns@.len(),
                s.name_patterns@.len() == start.len() + i,
                start == self.name_patterns@,
                forall|k: int| 0 <= k < start.len() ==> #[trigger] s.name_patterns@[k] == start[k],
                forall|k: int| 0 <= k < i ==> #[trigger] s.name_patterns@[start.len() + k]@ == patterns@[k]@,
                s.addr_patterns@ == self.addr_patterns@,
                s.service_uuids@ == self.service_uuids@,
                s.scan_interval_secs == self.scan_interval_secs,
            decreases patterns@.len() - i,
        {
            s.name_patterns.push(patterns[i].to_owned());
            i += 1;
        }
        s
    }

    /// Add an address pattern.
    pub fn with_addr_pattern(self, pattern: &str) -> (r: Self)
        ensures
            r.addr_patterns@.len() == self.addr_patterns@.len() + 1,
            r.addr_patterns@.drop_last() == self.addr_patterns@,
            r.addr_patterns@.last()@ == pattern@,
            r.name_patterns@ == self.name_patterns@,
            r.service_uuids@ == self.service_uuids@,
            r.scan_interval_secs == self.scan_interval_secs,
    {
        let mut s = self;
        s.addr_patterns.push(pattern.to_owned());
        assert(s.addr_patterns@.drop_last() =~= self.addr_patterns@);
        s
    }

    /// Add several address patterns, in order.
    pub fn with_addr_patterns(self, patterns: &[&str]) -> (r: Self)
        ensures
            r.addr_patterns@.len() == self.addr_patterns@.len() + patterns@.len(),
            forall|i: int| 0 <= i < self.addr_patterns@.len() ==> #[trigger] r.addr_patterns@[i] == self.addr_patterns@[i],
            forall|i: int| 0 <= i < patterns@.len() ==> #[trigger] r.addr_patterns@[self.addr_patterns@.len() + i]@ == patterns@[i]@,
            r.name_patterns@ == self.name_patterns@,
            r.service_uuids@ == self.service_uuids@,
            r.scan_interval_secs == self.scan_interval_secs,
    {
        let mut s = self;
        let ghost start = s.addr_patterns@;
        let mut i: usize = 0;
        while i < patterns.len()
            invariant
                i <= patterns@.len(),
                s.addr_patterns@.len() == start.len() + i,
                start == self.addr_patterns@,
                forall|k: int| 0 <= k < start.len() ==> #[trigger] s.addr_patterns@[k] == start[k],
                forall|k: int| 0 <= k < i ==> #[trigger] s.addr_patterns@[start.len() + k]@ == patterns@[k]@,
                s.name_patterns@ == self.name_patterns@,
                s.service_uuids@ == self.service_uuids@,
                s.scan_interval_secs == self.scan_interval_secs,
            decreases patterns@.len() - i,
        {
            s.addr_patterns.push(patterns[i].to_owned());
            i += 1;
        }
        s
    }

    /// Add a service UUID (used by the operating system's scan).
    pub fn with_service_uuid(self, uuid: Uuid) -> (r: Self)
        ensures
            r.service_uuids@ == self.service_uuids@.push(uuid),
            r.name_patterns@ == self.name_patterns@,
            r.addr_patterns@ == self.addr_patterns@,
            r.scan_interval_secs == self.scan_interval_secs,
    {
        let mut s = self;
        s.service_uuids.push(uuid);
        s
    }

    /// Add several service UUIDs, in order.
    pub fn with_service_uuids(self, uuids: &[Uuid]) -> (r: Self)
        ensures
            r.service_uuids@ == self.service_uuids@ + uuids@,
            r.name_patterns@ == self.name_patterns@,
            r.addr_patterns@ == self.addr_patterns@,
            r.scan_interval_secs == self.scan_interval_secs,
    {
        let mut s = self;
        let mut i: usize = 0;
        while i < uuids.len()
            invariant
                i <= uuids@.len(),
                s.service_uuids@ == self.service_uuids@ + uuids@.subrange(0, i as int),
                s.name_patterns@ == self.name_patterns@,
                s.addr_patterns@ == self.addr_patterns@,
                s.scan_interval_secs == self.scan_interval_secs,
            decreases uuids@.len() - i,
        {
            s.service_uuids.push(uuids[i]);
            assert(uuids@.subrange(0, i + 1) =~= uuids@.subrange(0, i as int).push(uuids@[i as int]));
            i += 1;
        }
        assert(uuids@.subrange(0, uuids@.len() as int) =~= uuids@);
        s
    }

    /// Set the pause between scan iterations.
    pub fn with_scan_interval_secs(self, secs: u64) -> (r: Self)
        ensures
            r.scan_interval_secs == secs,
            r.name_patterns@ == self.name_patterns@,
            r.addr_patterns@ == self.addr_patterns@,
            r.service_uuids@ == self.service_uuids@,
    {
        let mut s = self;
        s.scan_interval_secs = secs;
        s
    }

    /// Whether a device with this name and address passes the filter.
    pub fn matches(&self, name: &str, address: &str) -> (r: bool)
        ensures
            r == self.spec_matches(name@, address@),
    {
        let has_name = self.name_patterns.len() > 0;
        let has_addr = self.addr_patterns.len() > 0;
        let name_ok = any_prefix(&self.name_patterns, name);
        let addr_ok = any_prefix(&self.addr_patterns, address);
        if !has_name && !has_addr {
            true
        } else if has_name && !has_addr {
            name_ok
        } else if !has_name && has_addr {
            addr_ok
        } else {
            name_ok || addr_ok
        }
    }
}

} // verus!
