//! The data the registry stores: one workload unit per identity key,
//! each with an opaque payload and an optional observed status.

use vstd::prelude::*;

verus! {

/// Coarse lifecycle state of a workload unit.
#[derive(Clone, Copy, Debug, PartialEq, Eq, Structural)]
pub enum Phase {
    Pending,
    Running,
    Succeeded,
    Failed,
    Unknown,
}

/// Observed status of a workload unit: a phase plus free-form
/// condition fields.
#[derive(Debug)]
pub struct UnitStatus {
    pub phase: Option<Phase>,
    pub message: Option<String>,
    pub reason: Option<String>,
}

/// One orchestrator-managed workload unit: identity (`name`, `namespace`),
/// an opaque payload stored verbatim, and an optional status.
#[derive(Debug)]
pub struct WorkloadUnit {
    pub name: Option<String>,
    pub namespace: Option<String>,
    pub payload: String,
    pub status: Option<UnitStatus>,
}

/// Mathematical model of a status.
#[verifier::ext_equal]
pub ghost struct StatusView {
    pub phase: Option<Phase>,
    pub message: Option<Seq<char>>,
    pub reason: Option<Seq<char>>,
}

/// Mathematical model of a workload unit.
#[verifier::ext_equal]
pub ghost struct UnitView {
    pub name: Option<Seq<char>>,
    pub namespace: Option<Seq<char>>,
    pub payload: Seq<char>,
    pub status: Option<StatusView>,
}

impl View for UnitStatus {
    type V = StatusView;

    open spec fn view(&self) -> StatusView {
        StatusView {
            phase: self.phase,
            message: match self.message {
                Some(m) => Some(m@),
                None => None,
            },
            reason: match self.reason {
                Some(r) => Some(r@),
                None => None,
            },
        }
    }
}

impl View for WorkloadUnit {
    type V = UnitView;

    open spec fn view(&self) -> UnitView {
        UnitView {
            name: match self.name {
                Some(n) => Some(n@),
                None => None,
            },
            namespace: match self.namespace {
                Some(n) => Some(n@),
                None => None,
            },
            payload: self.payload@,
            status: match self.status {
                Some(s) => Some(s@),
                None => None,
            },
        }
    }
}

/// The identity key of a unit: its name, or the empty string where the
/// name is absent.
pub open spec fn unit_key(u: UnitView) -> Seq<char> {
    match u.name {
        Some(n) => n,
        None => Seq::empty(),
    }
}

/// The namespace a unit is filtered by: its namespace, or the empty
/// string where the namespace is absent.
pub open spec fn unit_namespace(u: UnitView) -> Seq<char> {
    match u.namespace {
        Some(n) => n,
        None => Seq::empty(),
    }
}

/// Whether a requested namespace accepts a unit: an empty request matches
/// anything, a non-empty request only an exact namespace.
pub open spec fn namespace_matches(ns: Seq<char>, u: UnitView) -> bool {
    ns.len() == 0 || ns == unit_namespace(u)
}

/// The status a freshly created unit is stored with: the caller's status
/// where one was supplied, else a blank one, with the phase unconditionally
/// forced to `Running`.
pub open spec fn running_status(s: Option<StatusView>) -> StatusView {
    match s {
        Some(st) => StatusView { phase: Some(Phase::Running), message: st.message, reason: st.reason },
        None => StatusView { phase: Some(Phase::Running), message: None, reason: None },
    }
}

/// The unit `create` stores for a given descriptor: the descriptor itself,
/// its status replaced by `running_status`.
pub open spec fn created_unit(u: UnitView) -> UnitView {
    UnitView { name: u.name, namespace: u.namespace, payload: u.payload, status: Some(running_status(u.status)) }
}

pub(crate) fn clone_opt_string(o: &Option<String>) -> (r: Option<String>)
    ensures
        r == *o,
{
    match o {
        Some(s) => Some(s.clone()),
        None => None,
    }
}

impl Clone for UnitStatus {
    fn clone(&self) -> (r: Self)
        ensures
            r == *self,
    {
        UnitStatus {
            phase: self.phase,
            message: clone_opt_string(&self.message),
            reason: clone_opt_string(&self.reason),
        }
    }
}

impl Clone for WorkloadUnit {
    fn clone(&self) -> (r: Self)
        ensures
            r == *self,
    {
        WorkloadUnit {
            name: clone_opt_string(&self.name),
            namespace: clone_opt_string(&self.namespace),
            payload: self.payload.clone(),
            status: match &self.status {
                Some(s) => Some(s.clone()),
                None => None,
            },
        }
    }
}

} // verus!
