//! The selector: hard filters that a peripheral must pass, and ordered soft
//! preferences that rank the survivors. Earlier preferences take priority;
//! ties fall back to the device identifier, and equal candidates keep their
//! input order.

use vstd::prelude::*;

use crate::error::BtleplusError;
use crate::properties::{
    has_local_name, local_name_is, manufacturer_satisfies, ManufacturerPredicate, Peripheral,
    PeripheralProperties, PropertiesPredicate, PropertiesView,
};
use crate::text::{
    int_order, lemma_lex_order_antisym, lemma_lex_order_trans, lemma_lex_order_zero, lex_order, text_bytes, text_eq,
    text_order,
};

verus! {

/// One soft preference, used to compare two candidates.
#[derive(Clone, Debug)]
pub enum Preference {
    /// Prefer connectable devices.
    Connectable,
    /// Prefer the highest RSSI; a missing RSSI counts as the lowest value.
    StrongestSignal,
    /// Prefer the device whose identifier is exactly this one.
    Id(String),
    /// Prefer the device whose advertised local name is exactly this one.
    LocalName(String),
    /// Prefer devices whose manufacturer data satisfies the condition.
    Manufacturer(ManufacturerPredicate),
}

impl Preference {
    /// How strongly a candidate meets the preference; higher is better.
    pub open spec fn score(self, p: PropertiesView) -> int {
        match self {
            Preference::Connectable => if p.is_connectable { 1 } else { 0 },
            Preference::StrongestSignal => match p.rssi {
                Some(r) => r as int,
                None => i16::MIN as int,
            },
            Preference::Id(id) => if p.id == id@ { 1 } else { 0 },
            Preference::LocalName(name) => if has_local_name(p, name@) { 1 } else { 0 },
            Preference::Manufacturer(m) => if manufacturer_satisfies(p, m) { 1 } else { 0 },
        }
    }

    /// Comparison on this preference alone: -1 when `left` comes first, 1
    /// when `right` does, 0 when the preference does not tell them apart.
    pub open spec fn spec_order(self, left: PropertiesView, right: PropertiesView) -> int {
        int_order(self.score(right), self.score(left))
    }

    /// The candidate's score under this preference.
    fn score_of(&self, p: &PeripheralProperties) -> (s: i32)
        ensures
            s as int == self.score(p@),
    {
        match self {
            Preference::Connectable => if p.is_connectable { 1 } else { 0 },
            Preference::StrongestSignal => match p.rssi {
                Some(r) => r as i32,
                None => i16::MIN as i32,
            },
            Preference::Id(id) => if text_eq(p.id.as_str(), id.as_str()) { 1 } else { 0 },
            Preference::LocalName(name) => if local_name_is(p, name.as_str()) { 1 } else { 0 },
            Preference::Manufacturer(m) => if m.test_optional(&p.manufacturer_data) { 1 } else { 0 },
        }
    }

    /// Compare two candidates on this preference.
    pub fn compare(&self, left: &PeripheralProperties, right: &PeripheralProperties) -> (c: i8)
        ensures
            c as int == self.spec_order(left@, right@),
    {
        let l = self.score_of(left);
        let r = self.score_of(right);
        if r < l {
            -1
        } else if r > l {
            1
        } else {
            0
        }
    }
}

/// The comparison of two candidates from preference `i` on: the first
/// preference that tells them apart decides, else their identifiers do.
pub open spec fn order_from(prefs: Seq<Preference>, i: int, left: PropertiesView, right: PropertiesView) -> int
    decreases prefs.len() - i,
{
    if i < 0 || i >= prefs.len() {
        lex_order(text_bytes(left.id), text_bytes(right.id))
    } else {
        let c = prefs[i].spec_order(left, right);
        if c != 0 {
            c
        } else {
            order_from(prefs, i + 1, left, right)
        }
    }
}

/// Swapping the candidates negates the comparison.
pub proof fn lemma_order_antisym(prefs: Seq<Preference>, i: int, a: PropertiesView, b: PropertiesView)
    ensures
        order_from(prefs, i, a, b) == -order_from(prefs, i, b, a),
    decreases prefs.len() - i,
{
    if i < 0 || i >= prefs.len() {
        lemma_lex_order_antisym(text_bytes(a.id), text_bytes(b.id));
    } else {
        lemma_order_antisym(prefs, i + 1, a, b);
    }
}

/// "Comes no later than" is transitive.
pub proof fn lemma_order_trans(
    prefs: Seq<Preference>,
    i: int,
    a: PropertiesView,
    b: PropertiesView,
    c: PropertiesView,
)
    requires
        order_from(prefs, i, a, b) <= 0,
        order_from(prefs, i, b, c) <= 0,
    ensures
        order_from(prefs, i, a, c) <= 0,
    decreases prefs.len() - i,
{
    if i < 0 || i >= prefs.len() {
        lemma_lex_order_trans(text_bytes(a.id), text_bytes(b.id), text_bytes(c.id));
    } else {
        let p = prefs[i];
        if p.spec_order(a, b) == 0 && p.spec_order(b, c) == 0 {
            lemma_order_trans(prefs, i + 1, a, b, c);
        }
    }
}

/// The scan-time properties of a list of peripherals.
pub open spec fn views(s: Seq<Peripheral>) -> Seq<PropertiesView> {
    s.map_values(|p: Peripheral| p@)
}

/// Whether a candidate passes every filter of the list.
pub open spec fn passes_all(filters: Seq<PropertiesPredicate>, p: PropertiesView) -> bool {
    forall|i: int| 0 <= i < filters.len() ==> #[trigger] filters[i].holds(p)
}

/// `order` lists the indices of the candidates of `vs` that pass
/// `filters`, each once, best first by `prefs`; equally ranked candidates
/// keep their input order.
pub open spec fn ranking_by(
    prefs: Seq<Preference>,
    filters: Seq<PropertiesPredicate>,
    vs: Seq<PropertiesView>,
    order: Seq<usize>,
) -> bool {
    &&& forall|i: int| 0 <= i < order.len() ==> (#[trigger] order[i]) < vs.len() && passes_all(filters, vs[order[i] as int])
    &&& forall|k: int| 0 <= k < vs.len() && passes_all(filters, vs[k]) ==> order.contains(k as usize)
    &&& forall|i: int, j: int| 0 <= i < j < order.len() ==> #[trigger] order[i] != #[trigger] order[j]
    &&& forall|i: int, j: int| #![trigger order[i], order[j]]
        0 <= i < j < order.len() ==> order_from(prefs, 0, vs[order[i] as int], vs[order[j] as int]) <= 0
    &&& forall|i: int, j: int| #![trigger order[i], order[j]]
        0 <= i < j < order.len() && order_from(prefs, 0, vs[order[i] as int], vs[order[j] as int]) == 0
            ==> order[i] < order[j]
}

/// Ranks peripherals by ordered soft preferences after hard filters.
pub struct Selector {
    /// Ordered soft preferences; earlier entries have higher priority.
    pub preferences: Vec<Preference>,
    /// Hard filters, applied before ranking.
    pub filters: Vec<PropertiesPredicate>,
}

impl Default for Selector {
    fn default() -> (r: Self)
        ensures
            r.preferences@.len() == 0,
            r.filters@.len() == 0,
    {
        Selector { preferences: Vec::new(), filters: Vec::new() }
    }
}

impl Selector {
    /// Whether a candidate passes every hard filter.
    pub open spec fn passes(&self, p: PropertiesView) -> bool {
        passes_all(self.filters@, p)
    }

    /// The ranking comparison: -1 when `left` ranks first, 1 when `right`
    /// does, 0 when they are indistinguishable.
    pub open spec fn order_of(&self, left: PropertiesView, right: PropertiesView) -> int {
        order_from(self.preferences@, 0, left, right)
    }

    /// `order` lists the indices of the candidates of `vs` that pass the
    /// filters, each once, best first; equally ranked candidates keep their
    /// input order.
    pub open spec fn is_ranking(&self, vs: Seq<PropertiesView>, order: Seq<usize>) -> bool {
        ranking_by(self.preferences@, self.filters@, vs, order)
    }

    /// Soft-prefer connectable devices over non-connectable ones.
    pub fn prefer_connectable(self) -> (r: Self)
        ensures
            r.preferences@ == self.preferences@.push(Preference::Connectable),
            r.filters@ == self.filters@,
    {
        let mut s = self;
        s.preferences.push(Preference::Connectable);
        s
    }

    /// Soft-prefer the device with the strongest signal.
    pub fn prefer_strongest_signal(self) -> (r: Self)
        ensures
            r.preferences@ == self.preferences@.push(Preference::StrongestSignal),
            r.filters@ == self.filters@,
    {
        let mut s = self;
        s.preferences.push(Preference::StrongestSignal);
        s
    }

    /// Soft-prefer the device with exactly this platform identifier.
    pub fn prefer_id(self, id: String) -> (r: Self)
        ensures
            r.preferences@ == self.preferences@.push(Preference::Id(id)),
            r.filters@ == self.filters@,
    {
        let mut s = self;
        s.preferences.push(Preference::Id(id));
        s
    }

    /// Soft-prefer the device with exactly this advertised local name.
    pub fn prefer_local_name(self, name: String) -> (r: Self)
        ensures
            r.preferences@ == self.preferences@.push(Preference::LocalName(name)),
            r.filters@ == self.filters@,
    {
        let mut s = self;
        s.preferences.push(Preference::LocalName(name));
        s
    }

    /// Soft-prefer devices with the given manufacturer company identifier.
    pub fn prefer_manufacturer_company_id(self, company_id: u16) -> (r: Self)
        ensures
            r.preferences@ == self.preferences@.push(
                Preference::Manufacturer(ManufacturerPredicate::CompanyId(company_id)),
            ),
            r.filters@ == self.filters@,
    {
        self.prefer_manufacturer_data(ManufacturerPredicate::CompanyId(company_id))
    }

    /// Soft-prefer devices whose manufacturer data satisfies the condition.
    pub fn prefer_manufacturer_data(self, predicate: ManufacturerPredicate) -> (r: Self)
        ensures
            r.preferences@ == self.preferences@.push(Preference::Manufacturer(predicate)),
            r.filters@ == self.filters@,
    {
        let mut s = self;
        s.preferences.push(Preference::Manufacturer(predicate));
        s
    }

    /// Add a hard filter.
    pub fn filter(self, predicate: PropertiesPredicate) -> (r: Self)
        ensures
            r.filters@ == self.filters@.push(predicate),
            r.preferences@ == self.preferences@,
    {
        let mut s = self;
        s.filters.push(predicate);
        s
    }

    /// Whether a candidate passes every hard filter.
    pub fn matches_filters(&self, p: &PeripheralProperties) -> (r: bool)
        ensures
            r == self.passes(p@),
    {
        let mut i: usize = 0;
        while i < self.filters.len()
            invariant
                i <= self.filters@.len(),
                forall|j: int| 0 <= j < i ==> #[trigger] self.filters@[j].holds(p@),
            decreases self.filters@.len() - i,
        {
            if !self.filters[i].test(p) {
                return false;
            }
            i += 1;
        }
        true
    }

    /// Compare two candidates: the first preference that tells them apart
    /// decides, else the device identifiers do.
    pub fn compare(&self, left: &PeripheralProperties, right: &PeripheralProperties) -> (c: i8)
        ensures
            c as int == self.order_of(left@, right@),
    {
        let mut i: usize = 0;
        while i < self.preferences.len()
            invariant
                i <= self.preferences@.len(),
                order_from(self.preferences@, 0, left@, right@) == order_from(self.preferences@, i as int, left@, right@),
            decreases self.preferences@.len() - i,
        {
            let c = self.preferences[i].compare(left, right);
            if c != 0 {
                return c;
            }
            i += 1;
        }
        text_order(left.id.as_str(), right.id.as_str())
    }
}

impl Selector {
    /// Inserting `k` at `p` keeps a sorted, stable list sorted and stable,
    /// when everything before `p` ranks no later than `k`, everything from
    /// `p` on ranks after it, and `k` exceeds every listed index.
    proof fn lemma_insert_keeps_order(&self, vs: Seq<PropertiesView>, order: Seq<usize>, p: int, k: usize)
        requires
            0 <= p <= order.len(),
            k < vs.len(),
            forall|i: int| 0 <= i < order.len() ==> (#[trigger] order[i]) < k,
            forall|i: int, j: int| #![trigger order[i], order[j]]
                0 <= i < j < order.len() ==> self.order_of(vs[order[i] as int], vs[order[j] as int]) <= 0,
            forall|i: int, j: int| #![trigger order[i], order[j]]
                0 <= i < j < order.len() && self.order_of(vs[order[i] as int], vs[order[j] as int]) == 0
                    ==> order[i] < order[j],
            p > 0 ==> self.order_of(vs[order[p - 1] as int], vs[k as int]) <= 0,
            forall|q: int| p <= q < order.len() ==> self.order_of(vs[(#[trigger] order[q]) as int], vs[k as int]) > 0,
        ensures
            ({
                let n = order.insert(p, k);
                &&& forall|i: int, j: int| #![trigger n[i], n[j]]
                    0 <= i < j < n.len() ==> self.order_of(vs[n[i] as int], vs[n[j] as int]) <= 0
                &&& forall|i: int, j: int| #![trigger n[i], n[j]]
                    0 <= i < j < n.len() && self.order_of(vs[n[i] as int], vs[n[j] as int]) == 0
                        ==> n[i] < n[j]
            }),
    {
        let n = order.insert(p, k);
        assert forall|i: int| 0 <= i < n.len() implies #[trigger] n[i] == (if i < p {
            order[i]
        } else if i == p {
            k
        } else {
            order[i - 1]
        }) by {}
        let prefs = self.preferences@;
        assert forall|i: int, j: int| #![trigger n[i], n[j]]
            0 <= i < j < n.len() implies self.order_of(vs[n[i] as int], vs[n[j] as int]) <= 0
            && (self.order_of(vs[n[i] as int], vs[n[j] as int]) == 0 ==> n[i] < n[j]) by {
            if i == p {
                // k before a later entry, which ranks strictly after k
                let q = j - 1;
                assert(n[j] == order[q]);
                assert(self.order_of(vs[order[q] as int], vs[k as int]) > 0);
                lemma_order_antisym(prefs, 0, vs[order[q] as int], vs[k as int]);
            } else if j == p {
                // an earlier entry before k
                assert(n[i] == order[i]);
                if i < p - 1 {
                    assert(self.order_of(vs[order[i] as int], vs[order[p - 1] as int]) <= 0);
                    lemma_order_trans(prefs, 0, vs[order[i] as int], vs[order[p - 1] as int], vs[k as int]);
                }
            } else {
                let oi = if i < p { i } else { i - 1 };
                let oj = if j < p { j } else { j - 1 };
                assert(n[i] == order[oi]);
                assert(n[j] == order[oj]);
                assert(oi < oj);
            }
        }
    }

    /// The indices of `input` that pass the filters, ranked best first.
    #[verifier::rlimit(40)]
    fn rank_indices(&self, input: &[Peripheral]) -> (order: Vec<usize>)
        ensures
            self.is_ranking(views(input@), order@),
    {
        let ghost vs = views(input@);
        let mut order: Vec<usize> = Vec::new();
        let mut k: usize = 0;
        while k < input.len()
            invariant
                vs == views(input@),
                vs.len() == input@.len(),
                k <= input.len(),
                forall|i: int| 0 <= i < order@.len() ==> (#[trigger] order@[i]) < k && self.passes(vs[order@[i] as int]),
                forall|j: int| 0 <= j < k && self.passes(vs[j]) ==> order@.contains(j as usize),
                forall|i: int, j: int| 0 <= i < j < order@.len() ==> #[trigger] order@[i] != #[trigger] order@[j],
                forall|i: int, j: int| #![trigger order@[i], order@[j]]
                    0 <= i < j < order@.len() ==> self.order_of(vs[order@[i] as int], vs[order@[j] as int]) <= 0,
                forall|i: int, j: int| #![trigger order@[i], order@[j]]
                    0 <= i < j < order@.len() && self.order_of(vs[order@[i] as int], vs[order@[j] as int]) == 0
                        ==> order@[i] < order@[j],
            decreases input.len() - k,
        {
            assert(vs[k as int] == input@[k as int]@);
            if self.matches_filters(&input[k].properties) {
                let mut p: usize = order.len();
                while p > 0 && self.compare(&input[order[p - 1]].properties, &input[k].properties) > 0
                    invariant
                        vs == views(input@),
                        vs.len() == input@.len(),
                        k < input.len(),
                        p <= order@.len(),
                        forall|i: int| 0 <= i < order@.len() ==> (#[trigger] order@[i]) < k,
                        forall|q: int| p <= q < order@.len() ==> self.order_of(vs[(#[trigger] order@[q]) as int], vs[k as int]) > 0,
                    decreases p,
                {
                    assert(vs[order@[p - 1] as int] == input@[order@[p - 1] as int]@);
                    p -= 1;
                }
                proof {
                    if p > 0 {
                        assert(vs[order@[p - 1] as int] == input@[order@[p - 1] as int]@);
                    }
                    self.lemma_insert_keeps_order(vs, order@, p as int, k);
                }
                let ghost old_order = order@;
                order.insert(p, k);
                proof {
                    let n = order@;
                    assert(n == old_order.insert(p as int, k));
                    assert forall|i: int| 0 <= i < n.len() implies #[trigger] n[i] == (if i < p {
                        old_order[i]
                    } else if i == p {
                        k
                    } else {
                        old_order[i - 1]
                    }) by {}
                    assert forall|j: int| 0 <= j < k + 1 && self.passes(vs[j]) implies n.contains(j as usize) by {
                        if j == k {
                            assert(n[p as int] == k);
                        } else {
                            assert(old_order.contains(j as usize));
                            let q = choose|q: int| 0 <= q < old_order.len() && old_order[q] == j as usize;
                            if q < p {
                                assert(n[q] == j as usize);
                            } else {
                                assert(n[q + 1] == j as usize);
                            }
                        }
                    }
                    assert forall|i: int, j: int| 0 <= i < j < n.len() implies #[trigger] n[i] != #[trigger] n[j] by {
                        if i == p || j == p {
                        } else {
                            let oi = if i < p { i } else { i - 1 };
                            let oj = if j < p { j } else { j - 1 };
                            assert(n[i] == old_order[oi]);
                            assert(n[j] == old_order[oj]);
                        }
                    }
                }
            } else {
                proof {
                    assert forall|j: int| 0 <= j < k + 1 && self.passes(vs[j]) implies order@.contains(j as usize) by {}
                }
            }
            k += 1;
        }
        order
    }

    /// Rank the peripherals that pass the filters, returning their indices
    /// best first; fails when none passes.
    pub fn rank_ref(&self, input: &[Peripheral]) -> (r: Result<Vec<usize>, BtleplusError>)
        ensures
            r is Ok <==> exists|k: int| 0 <= k < input@.len() && self.passes(input@[k]@),
            match r {
                Ok(order) => self.is_ranking(views(input@), order@) && order@.len() > 0,
                Err(e) => e matches BtleplusError::SelectionFailed(m) && m@ == "no peripherals matched selector"@,
            },
    {
        let order = self.rank_indices(input);
        if order.len() == 0 {
            proof {
                assert forall|k: int| 0 <= k < input@.len() implies !self.passes(input@[k]@) by {
                    assert(views(input@)[k] == input@[k]@);
                    if self.passes(input@[k]@) {
                        assert(order@.contains(k as usize));
                    }
                }
            }
            return Err(BtleplusError::SelectionFailed("no peripherals matched selector".to_owned()));
        }
        proof {
            let k = order@[0] as int;
            assert(views(input@)[k] == input@[k]@);
        }
        Ok(order)
    }

    /// The index of the best-ranked peripheral among those that pass the
    /// filters; fails when none passes.
    pub fn select_ref(&self, input: &[Peripheral]) -> (r: Result<usize, BtleplusError>)
        ensures
            r is Ok <==> exists|k: int| 0 <= k < input@.len() && self.passes(input@[k]@),
            match r {
                Ok(best) => best < input@.len() && self.passes(input@[best as int]@)
                    && forall|k: int| 0 <= k < input@.len() && self.passes(#[trigger] input@[k]@) && k != best ==>
                        self.order_of(input@[best as int]@, input@[k]@) < 0
                        || (self.order_of(input@[best as int]@, input@[k]@) == 0 && best < k),
                Err(e) => e matches BtleplusError::SelectionFailed(m) && m@ == "no peripherals matched selector"@,
            },
    {
        let n = input.len();
        match self.rank_ref(input) {
            Ok(order) => {
                let best = order[0];
                proof {
                    let vs = views(input@);
                    assert(vs[best as int] == input@[best as int]@);
                    assert forall|k: int| 0 <= k < input@.len() && self.passes(#[trigger] input@[k]@) && k != best implies
                        self.order_of(input@[best as int]@, input@[k]@) < 0
                        || (self.order_of(input@[best as int]@, input@[k]@) == 0 && best < k) by {
                        assert(vs[k] == input@[k]@);
                        assert(input@.len() == n);
                        assert((k as usize) as int == k);
                        assert(order@.contains(k as usize));
                        let q = choose|q: int| 0 <= q < order@.len() && order@[q] == k as usize;
                        assert(order@[q] == k as usize);
                        assert(order@[0] == best);
                        assert(order@[q] != order@[0]);
                        assert(q != 0);
                        assert(self.order_of(vs[order@[0] as int], vs[order@[q] as int]) <= 0);
                    }
                }
                Ok(best)
            },
            Err(e) => Err(e),
        }
    }

    /// Rank the peripherals that pass the filters, best first; fails when
    /// none passes.
    pub fn rank(&self, peripherals: &[Peripheral]) -> (r: Result<Vec<Peripheral>, BtleplusError>)
        ensures
            r is Ok <==> exists|k: int| 0 <= k < peripherals@.len() && self.passes(peripherals@[k]@),
            match r {
                Ok(ranked) => exists|order: Seq<usize>| self.is_ranking(views(peripherals@), order)
                    && views(ranked@) == order.map_values(|i: usize| peripherals@[i as int]@),
                Err(e) => e matches BtleplusError::SelectionFailed(m) && m@ == "no peripherals matched selector"@,
            },
    {
        match self.rank_ref(peripherals) {
            Ok(order) => {
                let mut ranked: Vec<Peripheral> = Vec::new();
                let mut i: usize = 0;
                while i < order.len()
                    invariant
                        self.is_ranking(views(peripherals@), order@),
                        i <= order@.len(),
                        ranked@.len() == i,
                        forall|j: int| 0 <= j < i ==> #[trigger] ranked@[j]@ == peripherals@[order@[j] as int]@,
                    decreases order@.len() - i,
                {
                    let copy = peripherals[order[i]].duplicate();
                    ranked.push(copy);
                    i += 1;
                }
                assert(views(ranked@) =~= order@.map_values(|i: usize| peripherals@[i as int]@));
                Ok(ranked)
            },
            Err(e) => Err(e),
        }
    }

    /// The best-ranked peripheral among those that pass the filters; fails
    /// when none passes.
    pub fn select(&self, peripherals: &[Peripheral]) -> (r: Result<Peripheral, BtleplusError>)
        ensures
            r is Ok <==> exists|k: int| 0 <= k < peripherals@.len() && self.passes(peripherals@[k]@),
            match r {
                Ok(best) => exists|b: int| 0 <= b < peripherals@.len() && best@ == peripherals@[b]@
                    && self.passes(peripherals@[b]@)
                    && forall|k: int| 0 <= k < peripherals@.len() && self.passes(#[trigger] peripherals@[k]@) && k != b ==>
                        self.order_of(peripherals@[b]@, peripherals@[k]@) < 0
                        || (self.order_of(peripherals@[b]@, peripherals@[k]@) == 0 && b < k),
                Err(e) => e matches BtleplusError::SelectionFailed(m) && m@ == "no peripherals matched selector"@,
            },
    {
        match self.select_ref(peripherals) {
            Ok(best) => Ok(peripherals[best].duplicate()),
            Err(e) => Err(e),
        }
    }
}

impl Selector {
    /// Whether candidate `a` ranks before candidate `b`: it compares first,
    /// or they compare equal and `a` came first in the input.
    pub open spec fn precedes(&self, vs: Seq<PropertiesView>, a: usize, b: usize) -> bool {
        self.order_of(vs[a as int], vs[b as int]) < 0
            || (self.order_of(vs[a as int], vs[b as int]) == 0 && a < b)
    }

    /// In a ranking, every entry ranks before every later entry.
    proof fn lemma_ranking_precedes(&self, vs: Seq<PropertiesView>, order: Seq<usize>, i: int, j: int)
        requires
            self.is_ranking(vs, order),
            0 <= i < j < order.len(),
        ensures
            self.precedes(vs, order[i], order[j]),
    {
        assert(order[i] != order[j]);
        assert(self.order_of(vs[order[i] as int], vs[order[j] as int]) <= 0);
    }

    /// Two different candidates cannot each rank before the other.
    proof fn lemma_precedes_asym(&self, vs: Seq<PropertiesView>, a: usize, b: usize)
        requires
            self.precedes(vs, a, b),
        ensures
            !self.precedes(vs, b, a),
    {
        lemma_order_antisym(self.preferences@, 0, vs[a as int], vs[b as int]);
    }

    /// Two rankings of the same candidates agree position by position on
    /// their common length, given that they agree before position `i`.
    proof fn lemma_ranking_prefix_agree(&self, vs: Seq<PropertiesView>, o1: Seq<usize>, o2: Seq<usize>, i: int)
        requires
            self.is_ranking(vs, o1),
            self.is_ranking(vs, o2),
            0 <= i,
            i <= o1.len(),
            i <= o2.len(),
            forall|k: int| 0 <= k < i ==> o1[k] == o2[k],
        ensures
            forall|k: int| 0 <= k < o1.len() && k < o2.len() ==> o1[k] == o2[k],
        decreases o1.len() - i,
    {
        if i < o1.len() && i < o2.len() {
            let x = o1[i];
            let y = o2[i];
            if x != y {
                assert(self.passes(vs[y as int]));
                assert(o1.contains(y));
                let k1 = choose|k: int| 0 <= k < o1.len() && o1[k] == y;
                if k1 < i {
                    assert(o2[k1] == y);
                    assert(o2[k1] == o2[i]);
                }
                assert(self.passes(vs[x as int]));
                assert(o2.contains(x));
                let k2 = choose|k: int| 0 <= k < o2.len() && o2[k] == x;
                if k2 < i {
                    assert(o1[k2] == x);
                    assert(o1[k2] == o1[i]);
                }
                self.lemma_ranking_precedes(vs, o1, i, k1);
                self.lemma_ranking_precedes(vs, o2, i, k2);
                self.lemma_precedes_asym(vs, x, y);
            }
            self.lemma_ranking_prefix_agree(vs, o1, o2, i + 1);
        }
    }

    /// The ranking is unique: any two lists that satisfy `is_ranking` for the
    /// same candidates are equal, so `rank` has exactly one possible result.
    pub proof fn lemma_ranking_unique(&self, vs: Seq<PropertiesView>, o1: Seq<usize>, o2: Seq<usize>)
        requires
            self.is_ranking(vs, o1),
            self.is_ranking(vs, o2),
        ensures
            o1 == o2,
    {
        let m = if o1.len() < o2.len() { o1.len() } else { o2.len() };
        self.lemma_ranking_prefix_agree(vs, o1, o2, 0);
        if o1.len() < o2.len() {
            let y = o2[m as int];
            assert(o1.contains(y));
            let k = choose|k: int| 0 <= k < o1.len() && o1[k] == y;
            assert(o2[k] == y);
        } else if o2.len() < o1.len() {
            let x = o1[m as int];
            assert(o2.contains(x));
            let k = choose|k: int| 0 <= k < o2.len() && o2[k] == x;
            assert(o1[k] == x);
        }
        assert(o1 =~= o2);
    }

    /// Selection agrees with ranking: the candidate `select_ref` reports is
    /// the head of the ranking.
    pub proof fn lemma_select_is_first_of_rank(&self, vs: Seq<PropertiesView>, order: Seq<usize>, best: usize)
        requires
            self.is_ranking(vs, order),
            best < vs.len(),
            self.passes(vs[best as int]),
            forall|k: int| 0 <= k < vs.len() && self.passes(#[trigger] vs[k]) && k != best ==>
                self.order_of(vs[best as int], vs[k]) < 0
                || (self.order_of(vs[best as int], vs[k]) == 0 && best < k),
        ensures
            order.len() > 0,
            order[0] == best,
    {
        assert(order.contains(best));
        let q = choose|q: int| 0 <= q < order.len() && order[q] == best;
        if q != 0 {
            let first = order[0];
            assert(self.passes(vs[first as int]));
            assert(first != best);
            self.lemma_ranking_precedes(vs, order, 0, q);
            assert(self.precedes(vs, best, first));
            self.lemma_precedes_asym(vs, best, first);
        }
    }
}

/// An appended preference never overrides an earlier one: whenever one of
/// the existing preferences tells two candidates apart, adding a preference
/// at the end leaves their comparison unchanged. The order of the `prefer_*`
/// calls is the priority order.
pub proof fn lemma_earlier_preference_dominates(
    prefs: Seq<Preference>,
    extra: Preference,
    i: int,
    left: PropertiesView,
    right: PropertiesView,
)
    requires
        0 <= i,
        exists|k: int| i <= k < prefs.len() && (#[trigger] prefs[k]).spec_order(left, right) != 0,
    ensures
        order_from(prefs.push(extra), i, left, right) == order_from(prefs, i, left, right),
    decreases prefs.len() - i,
{
    let k = choose|k: int| i <= k < prefs.len() && (#[trigger] prefs[k]).spec_order(left, right) != 0;
    assert(prefs.push(extra)[i] == prefs[i]);
    if prefs[i].spec_order(left, right) == 0 {
        assert(k > i);
        lemma_earlier_preference_dominates(prefs, extra, i + 1, left, right);
    }
}

/// Ties go to the identifier: two candidates compare equal only when their
/// identifiers have the same bytes, so devices with distinct identifiers
/// are always ordered.
pub proof fn lemma_equal_only_for_same_id(prefs: Seq<Preference>, i: int, a: PropertiesView, b: PropertiesView)
    requires
        order_from(prefs, i, a, b) == 0,
    ensures
        text_bytes(a.id) == text_bytes(b.id),
    decreases prefs.len() - i,
{
    if i < 0 || i >= prefs.len() {
        lemma_lex_order_zero(text_bytes(a.id), text_bytes(b.id));
    } else {
        lemma_equal_only_for_same_id(prefs, i + 1, a, b);
    }
}

/// An appended preference decides among ties: when every existing
/// preference ties two candidates, the appended one orders them, and when
/// it ties them too their identifiers do.
pub proof fn lemma_appended_preference_breaks_ties(
    prefs: Seq<Preference>,
    extra: Preference,
    i: int,
    left: PropertiesView,
    right: PropertiesView,
)
    requires
        0 <= i <= prefs.len(),
        forall|k: int| i <= k < prefs.len() ==> (#[trigger] prefs[k]).spec_order(left, right) == 0,
    ensures
        order_from(prefs.push(extra), i, left, right) == if extra.spec_order(left, right) != 0 {
            extra.spec_order(left, right)
        } else {
            lex_order(text_bytes(left.id), text_bytes(right.id))
        },
    decreases prefs.len() - i,
{
    let pushed = prefs.push(extra);
    if i == prefs.len() {
        assert(pushed[i] == extra);
        assert(order_from(pushed, i + 1, left, right) == lex_order(text_bytes(left.id), text_bytes(right.id)));
    } else {
        assert(pushed[i] == prefs[i]);
        assert(prefs[i].spec_order(left, right) == 0);
        lemma_appended_preference_breaks_ties(prefs, extra, i + 1, left, right);
    }
}

/// Soft preferences only reorder: two rankings of the same candidates under
/// the same filters, whatever their preferences, list the same candidates.
pub proof fn lemma_preferences_only_reorder(
    p1: Seq<Preference>,
    p2: Seq<Preference>,
    filters: Seq<PropertiesPredicate>,
    vs: Seq<PropertiesView>,
    o1: Seq<usize>,
    o2: Seq<usize>,
)
    requires
        ranking_by(p1, filters, vs, o1),
        ranking_by(p2, filters, vs, o2),
    ensures
        o1.len() == o2.len(),
        forall|k: usize| o1.contains(k) <==> o2.contains(k),
{
    assert forall|k: usize| o1.contains(k) implies o2.contains(k) by {
        let i = choose|i: int| 0 <= i < o1.len() && o1[i] == k;
        assert(o1[i] < vs.len() && passes_all(filters, vs[o1[i] as int]));
    }
    assert forall|k: usize| o2.contains(k) implies o1.contains(k) by {
        let i = choose|i: int| 0 <= i < o2.len() && o2[i] == k;
        assert(o2[i] < vs.len() && passes_all(filters, vs[o2[i] as int]));
    }
    assert(o1.no_duplicates()) by {
        assert forall|i: int, j: int| 0 <= i < o1.len() && 0 <= j < o1.len() && i != j implies o1[i] != o1[j] by {
            if i < j { assert(o1[i] != o1[j]); } else { assert(o1[j] != o1[i]); }
        }
    }
    assert(o2.no_duplicates()) by {
        assert forall|i: int, j: int| 0 <= i < o2.len() && 0 <= j < o2.len() && i != j implies o2[i] != o2[j] by {
            if i < j { assert(o2[i] != o2[j]); } else { assert(o2[j] != o2[i]); }
        }
    }
    o1.unique_seq_to_set();
    o2.unique_seq_to_set();
    assert(o1.to_set() =~= o2.to_set());
}

/// A candidate passes the hard filters exactly when it passes each one of
/// them, whatever their number and order.
pub proof fn lemma_passes_all_means_each(filters: Seq<PropertiesPredicate>, p: PropertiesView)
    ensures
        passes_all(filters, p) <==> forall|i: int| 0 <= i < filters.len() ==> (#[trigger] filters[i]).holds(p),
        forall|i: int| 0 <= i < filters.len() && !(#[trigger] filters[i]).holds(p) ==> !passes_all(filters, p),
{
}

/// A candidate that fails any one hard filter never appears in a ranking.
pub proof fn lemma_failing_any_filter_excludes(
    prefs: Seq<Preference>,
    filters: Seq<PropertiesPredicate>,
    vs: Seq<PropertiesView>,
    order: Seq<usize>,
    i: int,
    k: usize,
)
    requires
        ranking_by(prefs, filters, vs, order),
        0 <= i < filters.len(),
        k < vs.len(),
        !filters[i].holds(vs[k as int]),
    ensures
        !order.contains(k),
{
    if order.contains(k) {
        let q = choose|q: int| 0 <= q < order.len() && order[q] == k;
        assert(passes_all(filters, vs[order[q] as int]));
        assert(filters[i].holds(vs[k as int]));
    }
}

/// What each hard filter condition means.
pub proof fn lemma_filter_conditions_meaning(c: PropertiesPredicate, p: PropertiesView)
    ensures
        c matches PropertiesPredicate::LocalNameIs(n) ==> (c.holds(p) <==> p.local_name == Some(n@)),
        c matches PropertiesPredicate::IdIs(id) ==> (c.holds(p) <==> p.id == id@),
        c matches PropertiesPredicate::Connectable ==> (c.holds(p) <==> p.is_connectable),
        c matches PropertiesPredicate::Manufacturer(m) ==> (c.holds(p) <==> match p.manufacturer_data {
            Some(d) => m.holds(d),
            None => false,
        }),
{
}

/// Under "strongest signal", a strictly stronger reported signal ranks
/// first, a reported signal ranks no later than a missing one, and equal
/// signals tie.
pub proof fn lemma_strongest_signal_order(p: PropertiesView, q: PropertiesView)
    ensures
        p.rssi matches Some(x) && q.rssi matches Some(y) && x > y ==> Preference::StrongestSignal.spec_order(p, q) < 0,
        p.rssi matches Some(x) && q.rssi matches Some(y) && x == y ==> Preference::StrongestSignal.spec_order(p, q) == 0,
        p.rssi matches Some(x) && q.rssi is None && x > i16::MIN ==> Preference::StrongestSignal.spec_order(p, q) < 0,
        p.rssi is Some && q.rssi is None ==> Preference::StrongestSignal.spec_order(p, q) <= 0,
{
}

/// Under "this identifier", the candidate with exactly that identifier
/// ranks first, and two candidates that both have it or both lack it tie.
pub proof fn lemma_id_preference_order(x: String, p: PropertiesView, q: PropertiesView)
    ensures
        p.id == x@ && q.id != x@ ==> Preference::Id(x).spec_order(p, q) < 0,
        (p.id == x@) == (q.id == x@) ==> Preference::Id(x).spec_order(p, q) == 0,
{
}

/// Under "this local name", the candidate advertising exactly that name
/// ranks first, and two that both do or both do not tie.
pub proof fn lemma_local_name_preference_order(n: String, p: PropertiesView, q: PropertiesView)
    ensures
        p.local_name == Some(n@) && q.local_name != Some(n@) ==> Preference::LocalName(n).spec_order(p, q) < 0,
        (p.local_name == Some(n@)) == (q.local_name == Some(n@)) ==> Preference::LocalName(n).spec_order(p, q) == 0,
{
}

/// Under "connectable", a connectable candidate ranks before one that is
/// not, and two alike tie.
pub proof fn lemma_connectable_preference_order(p: PropertiesView, q: PropertiesView)
    ensures
        p.is_connectable && !q.is_connectable ==> Preference::Connectable.spec_order(p, q) < 0,
        p.is_connectable == q.is_connectable ==> Preference::Connectable.spec_order(p, q) == 0,
{
}

/// Under a manufacturer condition, a candidate whose manufacturer data is
/// present and satisfies it ranks before one without such data.
pub proof fn lemma_manufacturer_preference_order(m: ManufacturerPredicate, p: PropertiesView, q: PropertiesView)
    ensures
        (match p.manufacturer_data {
            Some(d) => m.holds(d),
            None => false,
        }) && !(match q.manufacturer_data {
            Some(d) => m.holds(d),
            None => false,
        }) ==> Preference::Manufacturer(m).spec_order(p, q) < 0,
{
}

} // verus!
