//! The provider core: an in-process registry of workload units, addressed
//! by an identity key, together with the fixed node-level reports
//! (capacity, addresses, daemon endpoints, operating system).
//!
//! The registry is modelled as a finite map from identity key to unit
//! model (`Map<Seq<char>, UnitView>`); every operation's contract is
//! stated against that map.

use vstd::prelude::*;

use crate::clock::{current_timestamp, is_rfc3339_timestamp};
use crate::errors::ProviderError;
use crate::text::{dec_int, i32_dec, str_eq};
use crate::units::{
    created_unit, namespace_matches, unit_key, Phase, UnitStatus, UnitView, WorkloadUnit,
};
use crate::utils::Filter;

verus! {

/// A health signal reported about the node, consumed by the
/// orchestrator's scheduling and eviction logic.
#[derive(Debug)]
pub struct NodeCondition {
    pub condition_type: String,
    pub status: String,
    pub reason: String,
    pub message: String,
    pub last_heartbeat_time: String,
    pub last_transition_time: String,
}

/// A node address as reported to the orchestrator.
#[derive(Debug)]
pub struct NodeAddress {
    pub address_type: String,
    pub address: String,
}

/// Daemon endpoints of a node; never produced by this provider.
#[derive(Debug)]
pub struct NodeDaemonEndpoints {
    pub kubelet_port: i32,
}

/// The registry of workload units.
pub struct UnitProvider {
    units: Vec<WorkloadUnit>,
}

/// No two stored units share an identity key.
pub open spec fn unique_keys(s: Seq<WorkloadUnit>) -> bool {
    forall|i: int, j: int| 0 <= i < j < s.len() ==> unit_key(s[i]@) != unit_key(s[j]@)
}

/// The registry a sequence of stored units stands for: the map sending
/// each unit's identity key to the unit's model, later entries winning.
pub open spec fn units_map(s: Seq<WorkloadUnit>) -> Map<Seq<char>, UnitView>
    decreases s.len(),
{
    if s.len() == 0 {
        Map::empty()
    } else {
        units_map(s.drop_last()).insert(unit_key(s.last()@), s.last()@)
    }
}

/// What `create` does to the registry: install the derived unit under its
/// key, replacing any prior entry.
pub open spec fn create_effect(m: Map<Seq<char>, UnitView>, u: UnitView) -> Map<
    Seq<char>,
    UnitView,
> {
    m.insert(unit_key(u), created_unit(u))
}

/// What `update` does to the registry: replace the entry verbatim where
/// the key exists, change nothing where it does not.
pub open spec fn update_effect(m: Map<Seq<char>, UnitView>, u: UnitView) -> Map<
    Seq<char>,
    UnitView,
> {
    if m.contains_key(unit_key(u)) {
        m.insert(unit_key(u), u)
    } else {
        m
    }
}

/// What `delete` does to the registry: remove the entry if present.
pub open spec fn delete_effect(m: Map<Seq<char>, UnitView>, u: UnitView) -> Map<
    Seq<char>,
    UnitView,
> {
    m.remove(unit_key(u))
}

impl View for UnitProvider {
    type V = Map<Seq<char>, UnitView>;

    closed spec fn view(&self) -> Map<Seq<char>, UnitView> {
        units_map(self.units@)
    }
}

proof fn lemma_unique_drop_last(s: Seq<WorkloadUnit>)
    requires
        unique_keys(s),
        s.len() > 0,
    ensures
        unique_keys(s.drop_last()),
{
    assert forall|i: int, j: int| 0 <= i < j < s.drop_last().len() implies unit_key(
        s.drop_last()[i]@,
    ) != unit_key(s.drop_last()[j]@) by {
        assert(s.drop_last()[i] == s[i]);
        assert(s.drop_last()[j] == s[j]);
    }
}

proof fn lemma_unique_remove(s: Seq<WorkloadUnit>, i: int)
    requires
        unique_keys(s),
        0 <= i < s.len(),
    ensures
        unique_keys(s.remove(i)),
        forall|m: int|
            0 <= m < s.remove(i).len() ==> unit_key(#[trigger] s.remove(i)[m]@) != unit_key(s[i]@),
{
    s.remove_ensures(i);
    assert forall|m: int| 0 <= m < s.remove(i).len() implies unit_key(#[trigger] s.remove(i)[m]@)
        != unit_key(s[i]@) by {
        if m < i {
            assert(s.remove(i)[m] == s[m]);
        } else {
            assert(s.remove(i)[m] == s[m + 1]);
        }
    }
    assert forall|a: int, b: int| 0 <= a < b < s.remove(i).len() implies unit_key(
        #[trigger] s.remove(i)[a]@,
    ) != unit_key(#[trigger] s.remove(i)[b]@) by {
        if a < i {
            assert(s.remove(i)[a] == s[a]);
        } else {
            assert(s.remove(i)[a] == s[a + 1]);
        }
        if b < i {
            assert(s.remove(i)[b] == s[b]);
        } else {
            assert(s.remove(i)[b] == s[b + 1]);
        }
    }
}

proof fn lemma_units_map_contains(s: Seq<WorkloadUnit>, k: Seq<char>)
    ensures
        units_map(s).contains_key(k) <==> exists|m: int|
            0 <= m < s.len() && unit_key(#[trigger] s[m]@) == k,
    decreases s.len(),
{
    if s.len() > 0 {
        lemma_units_map_contains(s.drop_last(), k);
        if unit_key(s.last()@) == k {
            assert(unit_key(s[s.len() - 1]@) == k);
        } else {
            if units_map(s).contains_key(k) {
                let m = choose|m: int|
                    0 <= m < s.drop_last().len() && unit_key(#[trigger] s.drop_last()[m]@) == k;
                assert(s.drop_last()[m] == s[m]);
                assert(unit_key(s[m]@) == k);
            }
            if exists|m: int| 0 <= m < s.len() && unit_key(#[trigger] s[m]@) == k {
                let m = choose|m: int| 0 <= m < s.len() && unit_key(#[trigger] s[m]@) == k;
                assert(m < s.len() - 1);
                assert(s.drop_last()[m] == s[m]);
                assert(unit_key(s.drop_last()[m]@) == k);
            }
        }
    }
}

proof fn lemma_units_map_index(s: Seq<WorkloadUnit>, i: int)
    requires
        unique_keys(s),
        0 <= i < s.len(),
    ensures
        units_map(s).contains_key(unit_key(s[i]@)),
        units_map(s)[unit_key(s[i]@)] == s[i]@,
    decreases s.len(),
{
    if i == s.len() - 1 {
        assert(s.last() == s[i]);
    } else {
        lemma_unique_drop_last(s);
        lemma_units_map_index(s.drop_last(), i);
        assert(s.drop_last()[i] == s[i]);
        assert(unit_key(s.last()@) != unit_key(s[i]@));
    }
}

proof fn lemma_units_map_push(s: Seq<WorkloadUnit>, u: WorkloadUnit)
    ensures
        units_map(s.push(u)) == units_map(s).insert(unit_key(u@), u@),
{
    assert(s.push(u).drop_last() =~= s);
    assert(s.push(u).last() == u);
}

proof fn lemma_units_map_remove(s: Seq<WorkloadUnit>, i: int)
    requires
        unique_keys(s),
        0 <= i < s.len(),
    ensures
        units_map(s.remove(i)) == units_map(s).remove(unit_key(s[i]@)),
    decreases s.len(),
{
    s.remove_ensures(i);
    if i == s.len() - 1 {
        assert(s.remove(i) =~= s.drop_last());
        lemma_unique_drop_last(s);
        lemma_units_map_contains(s.drop_last(), unit_key(s[i]@));
        assert forall|m: int| 0 <= m < s.drop_last().len() implies unit_key(
            #[trigger] s.drop_last()[m]@,
        ) != unit_key(s[i]@) by {
            assert(s.drop_last()[m] == s[m]);
        }
        assert(!units_map(s.drop_last()).contains_key(unit_key(s[i]@)));
        assert(units_map(s).remove(unit_key(s[i]@)) =~= units_map(s.drop_last()));
    } else {
        lemma_unique_drop_last(s);
        lemma_units_map_remove(s.drop_last(), i);
        assert(s.drop_last()[i] == s[i]);
        assert(s.remove(i).drop_last() =~= s.drop_last().remove(i));
        assert(s.remove(i).last() == s[s.len() - 1]);
        assert(s.remove(i).len() > 0);
        assert(units_map(s.remove(i)) == units_map(s.drop_last().remove(i)).insert(
            unit_key(s.last()@),
            s.last()@,
        ));
        assert(unit_key(s.last()@) != unit_key(s[i]@));
        assert(units_map(s.drop_last()).remove(unit_key(s[i]@)).insert(
            unit_key(s.last()@),
            s.last()@,
        ) =~= units_map(s.drop_last()).insert(unit_key(s.last()@), s.last()@).remove(
            unit_key(s[i]@),
        ));
    }
}

fn find_index(units: &Vec<WorkloadUnit>, key: &str) -> (r: Option<usize>)
    ensures
        match r {
            Some(i) => i < units@.len() && unit_key(units@[i as int]@) == key@,
            None => forall|m: int|
                0 <= m < units@.len() ==> unit_key(#[trigger] units@[m]@) != key@,
        },
{
    let mut i: usize = 0;
    while i < units.len()
        invariant
            i <= units@.len(),
            forall|m: int| 0 <= m < i ==> unit_key(#[trigger] units@[m]@) != key@,
        decreases units@.len() - i,
    {
        let unit_id = make_unit_key(&units[i]);
        if str_eq(unit_id.as_str(), key) {
            return Some(i);
        }
        i = i + 1;
    }
    None
}

/// The identity key a unit is stored under: its name, or the empty string
/// where the name is absent.
fn make_unit_key(pod: &WorkloadUnit) -> (id: String)
    ensures
        id@ == unit_key(pod@),
{
    match &pod.name {
        Some(n) => n.clone(),
        None => String::new(),
    }
}

/// Whether a requested namespace accepts a unit: empty matches anything,
/// non-empty only an exact namespace.
fn namespace_ok(ns: &str, pod: &WorkloadUnit) -> (r: bool)
    ensures
        r == namespace_matches(ns@, pod@),
{
    if ns.is_empty() {
        true
    } else {
        let pod_ns: String = match &pod.namespace {
            Some(n) => n.clone(),
            None => String::new(),
        };
        str_eq(ns, pod_ns.as_str())
    }
}

impl UnitProvider {
    #[verifier::type_invariant]
    spec fn wf(&self) -> bool {
        unique_keys(self.units@)
    }

    /// An empty registry.
    pub fn new() -> (provider: UnitProvider)
        ensures
            provider@ == Map::<Seq<char>, UnitView>::empty(),
    {
        UnitProvider { units: Vec::new() }
    }

    fn make_pod_id(&self, pod: &WorkloadUnit) -> (id: String)
        ensures
            id@ == unit_key(pod@),
    {
        make_unit_key(pod)
    }

    /// The display name of a unit: its name, or the empty string where
    /// the name is absent.
    pub fn pod_name(&self, pod: &WorkloadUnit) -> (name: String)
        ensures
            name@ == unit_key(pod@),
    {
        make_unit_key(pod)
    }

    /// Install a unit under its identity key, replacing any prior entry;
    /// the stored status is the caller's (or a blank one) with the phase
    /// forced to `Running`. Never fails.
    pub fn create_pod(&mut self, pod: &WorkloadUnit) -> (r: Result<(), ProviderError>)
        ensures
            r is Ok,
            final(self)@ == create_effect(old(self)@, pod@),
    {
        proof {
            use_type_invariant(&*self);
        }
        let id = self.make_pod_id(pod);
        let new_status: UnitStatus = match &pod.status {
            Some(st) => {
                let c = st.clone();
                UnitStatus { phase: Some(Phase::Running), message: c.message, reason: c.reason }
            },
            None => UnitStatus { phase: Some(Phase::Running), message: None, reason: None },
        };
        let new_pod = WorkloadUnit {
            name: crate::units::clone_opt_string(&pod.name),
            namespace: crate::units::clone_opt_string(&pod.namespace),
            payload: pod.payload.clone(),
            status: Some(new_status),
        };
        proof {
            assert(new_pod@ == created_unit(pod@));
            assert(unit_key(new_pod@) == unit_key(pod@));
        }
        let mut units: Vec<WorkloadUnit> = Vec::new();
        core::mem::swap(&mut units, &mut self.units);
        let ghost s0: Seq<WorkloadUnit> = units@;
        match find_index(&units, id.as_str()) {
            Some(i) => {
                proof {
                    lemma_units_map_remove(s0, i as int);
                    lemma_unique_remove(s0, i as int);
                }
                units.remove(i);
            },
            None => {},
        }
        let ghost s1: Seq<WorkloadUnit> = units@;
        proof {
            lemma_units_map_push(s1, new_pod);
        }
        units.push(new_pod);
        proof {
            assert forall|a: int, b: int| 0 <= a < b < units@.len() implies unit_key(
                #[trigger] units@[a]@,
            ) != unit_key(#[trigger] units@[b]@) by {
                if b < units@.len() - 1 {
                    assert(units@[a] == s1[a]);
                    assert(units@[b] == s1[b]);
                } else {
                    assert(units@[a] == s1[a]);
                    assert(units@[b] == new_pod);
                    lemma_units_map_contains(s0, unit_key(new_pod@));
                }
            }
            assert(units_map(units@) =~= create_effect(units_map(s0), pod@));
        }
        self.units = units;
        Ok(())
    }

    /// Replace a unit verbatim where its key already exists; change
    /// nothing where it does not. Never fails either way.
    pub fn update_pod(&mut self, pod: &WorkloadUnit) -> (r: Result<(), ProviderError>)
        ensures
            r is Ok,
            final(self)@ == update_effect(old(self)@, pod@),
    {
        proof {
            use_type_invariant(&*self);
        }
        let id = self.make_pod_id(pod);
        let mut units: Vec<WorkloadUnit> = Vec::new();
        core::mem::swap(&mut units, &mut self.units);
        let ghost s0: Seq<WorkloadUnit> = units@;
        match find_index(&units, id.as_str()) {
            Some(i) => {
                proof {
                    lemma_units_map_index(s0, i as int);
                    lemma_units_map_remove(s0, i as int);
                    lemma_unique_remove(s0, i as int);
                }
                units.remove(i);
                let new_pod = pod.clone();
                let ghost s1: Seq<WorkloadUnit> = units@;
                proof {
                    lemma_units_map_push(s1, new_pod);
                }
                units.push(new_pod);
                proof {
                    assert forall|a: int, b: int| 0 <= a < b < units@.len() implies unit_key(
                        #[trigger] units@[a]@,
                    ) != unit_key(#[trigger] units@[b]@) by {
                        if b < units@.len() - 1 {
                            assert(units@[a] == s1[a]);
                            assert(units@[b] == s1[b]);
                        } else {
                            assert(units@[a] == s1[a]);
                            assert(units@[b] == new_pod);
                        }
                    }
                    assert(units_map(units@) =~= update_effect(units_map(s0), pod@));
                }
            },
            None => {
                proof {
                    lemma_units_map_contains(s0, id@);
                    assert(!units_map(s0).contains_key(unit_key(pod@)));
                }
            },
        }
        self.units = units;
        Ok(())
    }

    /// Remove the entry under the unit's key if present; a missing key is
    /// a silent no-op. Never fails either way.
    pub fn delete_pod(&mut self, pod: &WorkloadUnit) -> (r: Result<(), ProviderError>)
        ensures
            r is Ok,
            final(self)@ == delete_effect(old(self)@, pod@),
    {
        proof {
            use_type_invariant(&*self);
        }
        let id = self.make_pod_id(pod);
        let mut units: Vec<WorkloadUnit> = Vec::new();
        core::mem::swap(&mut units, &mut self.units);
        let ghost s0: Seq<WorkloadUnit> = units@;
        match find_index(&units, id.as_str()) {
            Some(i) => {
                proof {
                    lemma_units_map_remove(s0, i as int);
                    lemma_unique_remove(s0, i as int);
                }
                units.remove(i);
            },
            None => {
                proof {
                    lemma_units_map_contains(s0, id@);
                    assert(units_map(s0).remove(unit_key(pod@)) =~= units_map(s0));
                }
            },
        }
        self.units = units;
        Ok(())
    }

    /// Look a unit up by name, then apply the namespace filter: an absent
    /// key and a failed filter are observably identical, both `NotFound`.
    pub fn get_pod(&self, namespace: &str, name: &str) -> (r: Result<WorkloadUnit, ProviderError>)
        ensures
            r is Ok <==> (self@.contains_key(name@) && namespace_matches(
                namespace@,
                self@[name@],
            )),
            r matches Ok(pod) ==> pod@ == self@[name@],
            r matches Err(e) ==> e == ProviderError::NotFound,
    {
        proof {
            use_type_invariant(&*self);
        }
        let found: Option<WorkloadUnit> = match find_index(&self.units, name) {
            Some(i) => {
                proof {
                    lemma_units_map_index(self.units@, i as int);
                }
                Some(self.units[i].clone())
            },
            None => {
                proof {
                    lemma_units_map_contains(self.units@, name@);
                }
                None
            },
        };
        let accepts = |pod: &WorkloadUnit| -> (keep: bool)
            ensures
                keep == namespace_matches(namespace@, pod@),
            {
                namespace_ok(namespace, pod)
            };
        let filtered = found.xfilter(accepts);
        match filtered {
            Some(pod) => Ok(pod),
            None => Err(ProviderError::NotFound),
        }
    }

    /// Return a copy of the status of the unit stored under `name`; the
    /// namespace argument is accepted but not applied as a filter. Fails
    /// with `NotFound` where the unit is absent or has no status.
    pub fn get_pod_status(&self, _namespace: &str, name: &str) -> (r: Result<
        UnitStatus,
        ProviderError,
    >)
        ensures
            r is Ok <==> (self@.contains_key(name@) && self@[name@].status is Some),
            r matches Ok(status) ==> Some(status@) == self@[name@].status,
            r matches Err(e) ==> e == ProviderError::NotFound,
    {
        proof {
            use_type_invariant(&*self);
        }
        match find_index(&self.units, name) {
            Some(i) => {
                proof {
                    lemma_units_map_index(self.units@, i as int);
                }
                match &self.units[i].status {
                    Some(st) => Ok(st.clone()),
                    None => Err(ProviderError::NotFound),
                }
            },
            None => {
                proof {
                    lemma_units_map_contains(self.units@, name@);
                }
                Err(ProviderError::NotFound)
            },
        }
    }

    /// A snapshot copy of every stored unit, in unspecified order: each
    /// element is an entry of the registry, no key appears twice, and
    /// every key of the registry appears.
    pub fn get_pods(&self) -> (r: Result<Vec<WorkloadUnit>, ProviderError>)
        ensures
            r is Ok,
            forall|i: int|
                0 <= i < r->Ok_0@.len() ==> self@.contains_key(
                    unit_key(#[trigger] r->Ok_0@[i]@),
                ) && r->Ok_0@[i]@ == self@[unit_key(r->Ok_0@[i]@)],
            forall|i: int, j: int|
                0 <= i < j < r->Ok_0@.len() ==> unit_key(#[trigger] r->Ok_0@[i]@) != unit_key(
                    #[trigger] r->Ok_0@[j]@,
                ),
            forall|k: Seq<char>|
                self@.contains_key(k) ==> exists|i: int|
                    0 <= i < r->Ok_0@.len() && unit_key(#[trigger] r->Ok_0@[i]@) == k,
    {
        proof {
            use_type_invariant(&*self);
        }
        let mut out: Vec<WorkloadUnit> = Vec::new();
        let mut i: usize = 0;
        while i < self.units.len()
            invariant
                i <= self.units@.len(),
                out@.len() == i,
                forall|m: int| 0 <= m < i ==> #[trigger] out@[m] == self.units@[m],
            decreases self.units@.len() - i,
        {
            out.push(self.units[i].clone());
            i = i + 1;
        }
        proof {
            assert(out@ =~= self.units@);
            assert forall|m: int| 0 <= m < out@.len() implies self@.contains_key(
                unit_key(#[trigger] out@[m]@),
            ) && out@[m]@ == self@[unit_key(out@[m]@)] by {
                lemma_units_map_index(self.units@, m);
            }
        }
        let result: Result<Vec<WorkloadUnit>, ProviderError> = Ok(out);
        proof {
            assert forall|k: Seq<char>| self@.contains_key(k) implies exists|m: int|
                0 <= m < result->Ok_0@.len() && unit_key(#[trigger] result->Ok_0@[m]@) == k by {
                lemma_units_map_contains(self.units@, k);
                let m = choose|m: int| 0 <= m < self.units@.len() && unit_key(
                    #[trigger] self.units@[m]@,
                ) == k;
                assert(unit_key(result->Ok_0@[m]@) == k);
            }
        }
        result
    }

    /// The fixed advertised-capacity table: cpu 20, memory 100Gi, pods 20,
    /// regardless of registry contents.
    pub fn capacity(&self) -> (r: Result<Vec<(String, String)>, ProviderError>)
        ensures
            r is Ok,
            r->Ok_0@.len() == 3,
            r->Ok_0@[0].0@ == "cpu"@ && r->Ok_0@[0].1@ == "20"@,
            r->Ok_0@[1].0@ == "memory"@ && r->Ok_0@[1].1@ == "100Gi"@,
            r->Ok_0@[2].0@ == "pods"@ && r->Ok_0@[2].1@ == "20"@,
    {
        let mut table: Vec<(String, String)> = Vec::new();
        table.push(("cpu".to_owned(), "20".to_owned()));
        table.push(("memory".to_owned(), "100Gi".to_owned()));
        table.push(("pods".to_owned(), "20".to_owned()));
        Ok(table)
    }

    /// One synthetic condition: the node is `Ready`, with both timestamps
    /// set to the current time at call time, in RFC 3339 form.
    pub fn node_conditions(&self) -> (r: Result<Vec<NodeCondition>, ProviderError>)
        ensures
            r is Ok,
            r->Ok_0@.len() == 1,
            r->Ok_0@[0].condition_type@ == "Ready"@,
            r->Ok_0@[0].status@ == "True"@,
            r->Ok_0@[0].reason@ == "KubeletReady"@,
            r->Ok_0@[0].message@ == "Rusty times."@,
            is_rfc3339_timestamp(r->Ok_0@[0].last_heartbeat_time@),
            r->Ok_0@[0].last_transition_time@ == r->Ok_0@[0].last_heartbeat_time@,
    {
        let stamp = current_timestamp();
        let stamp_again = stamp.clone();
        let condition = NodeCondition {
            condition_type: "Ready".to_owned(),
            status: "True".to_owned(),
            reason: "KubeletReady".to_owned(),
            message: "Rusty times.".to_owned(),
            last_heartbeat_time: stamp,
            last_transition_time: stamp_again,
        };
        let mut out: Vec<NodeCondition> = Vec::new();
        out.push(condition);
        Ok(out)
    }

    /// A descriptive placeholder embedding the four inputs verbatim; not
    /// a real log stream. Always succeeds.
    pub fn get_container_logs(
        &self,
        namespace: &str,
        pod_name: &str,
        container_name: &str,
        tail: i32,
    ) -> (r: Result<String, ProviderError>)
        ensures
            r is Ok,
            r->Ok_0@ == "get_container_logs() - ns: "@ + namespace@ + ", pod_name: "@ + pod_name@
                + ", container_name: "@ + container_name@ + ", tail: "@ + dec_int(tail as int),
    {
        let mut s: String = "get_container_logs() - ns: ".to_owned();
        s.append(namespace);
        s.append(", pod_name: ");
        s.append(pod_name);
        s.append(", container_name: ");
        s.append(container_name);
        s.append(", tail: ");
        let tail_text = i32_dec(tail);
        s.append(tail_text.as_str());
        proof {
            assert(s@ =~= "get_container_logs() - ns: "@ + namespace@ + ", pod_name: "@
                + pod_name@ + ", container_name: "@ + container_name@ + ", tail: "@ + dec_int(
                tail as int,
            ));
        }
        Ok(s)
    }

    /// No addresses are ever reported.
    pub fn node_addresses(&self) -> (r: Result<Vec<NodeAddress>, ProviderError>)
        ensures
            r is Ok,
            r->Ok_0@.len() == 0,
    {
        Ok(Vec::new())
    }

    /// Daemon endpoints are permanently unsupported: every call fails
    /// with `Unimplemented`, regardless of registry state.
    pub fn node_daemon_endpoints(&self) -> (r: Result<NodeDaemonEndpoints, ProviderError>)
        ensures
            r matches Err(e) && e == ProviderError::Unimplemented,
    {
        Err(ProviderError::Unimplemented)
    }

    /// The operating system this provider reports; a fixed literal.
    pub fn operating_system(&self) -> (r: String)
        ensures
            r@ == "linux"@,
    {
        "linux".to_owned()
    }
}

/// Law: creating twice under one identity leaves exactly one entry under
/// that key; the second descriptor wins and its stored phase is `Running`.
pub proof fn lemma_create_idempotent_identity(
    m: Map<Seq<char>, UnitView>,
    u1: UnitView,
    u2: UnitView,
)
    requires
        unit_key(u1) == unit_key(u2),
    ensures
        create_effect(create_effect(m, u1), u2) == create_effect(m, u2),
        create_effect(m, u2)[unit_key(u2)].payload == u2.payload,
        create_effect(m, u2)[unit_key(u2)].status matches Some(st) && st.phase == Some(
            Phase::Running,
        ),
{
    assert(create_effect(create_effect(m, u1), u2) =~= create_effect(m, u2));
}

/// Law: updating a key never created succeeds without changing the
/// registry; the key is still absent afterwards.
pub proof fn lemma_update_missing_is_noop(m: Map<Seq<char>, UnitView>, u: UnitView)
    requires
        !m.contains_key(unit_key(u)),
    ensures
        update_effect(m, u) == m,
        !update_effect(m, u).contains_key(unit_key(u)),
{
}

/// Law: deleting twice in a row removes the key once; the second delete
/// has no observable effect.
pub proof fn lemma_delete_twice(m: Map<Seq<char>, UnitView>, u: UnitView)
    ensures
        delete_effect(delete_effect(m, u), u) == delete_effect(m, u),
        !delete_effect(m, u).contains_key(unit_key(u)),
{
    assert(delete_effect(delete_effect(m, u), u) =~= delete_effect(m, u));
}

/// Law: a unit carrying a namespace is accepted by a request for exactly
/// that namespace and by an empty request, and rejected by any other.
pub proof fn lemma_namespace_filter(ns_a: Seq<char>, ns_b: Seq<char>, u: UnitView)
    requires
        u.namespace == Some(ns_a),
        ns_b != ns_a,
        ns_b.len() != 0,
    ensures
        namespace_matches(ns_a, u),
        !namespace_matches(ns_b, u),
        namespace_matches(Seq::<char>::empty(), u),
{
}

} // verus!
