//! Payloadless compatibility policy records: what runtime components do with
//! each kind of operation while two contract versions are live.

use vstd::prelude::*;
use crate::version::ComponentName;

verus! {

/// The kinds of operation a component serves.
#[derive(Debug, Clone, Copy, PartialEq, Eq, Structural, Hash)]
pub enum OperationKind {
    AppendWrite,
    MutateWrite,
    RetractWrite,
    Match,
    Subscribe,
    Tap,
}

/// The record head that names an operation kind on the wire.
pub open spec fn record_head(kind: OperationKind) -> Seq<char> {
    match kind {
        OperationKind::AppendWrite => "AppendWrite"@,
        OperationKind::MutateWrite => "MutateWrite"@,
        OperationKind::RetractWrite => "RetractWrite"@,
        OperationKind::Match => "Match"@,
        OperationKind::Subscribe => "Subscribe"@,
        OperationKind::Tap => "Tap"@,
    }
}

impl OperationKind {
    /// The record head that names this operation kind.
    pub fn as_record_head(self) -> (head: &'static str)
        ensures
            head@ == record_head(self),
    {
        match self {
            OperationKind::AppendWrite => "AppendWrite",
            OperationKind::MutateWrite => "MutateWrite",
            OperationKind::RetractWrite => "RetractWrite",
            OperationKind::Match => "Match",
            OperationKind::Subscribe => "Subscribe",
            OperationKind::Tap => "Tap",
        }
    }
}

/// A record head names exactly one operation kind: two kinds with the same
/// record head are the same kind.
pub proof fn lemma_record_head_names_one_kind(a: OperationKind, b: OperationKind)
    requires
        record_head(a) == record_head(b),
    ensures
        a == b,
{
    reveal_strlit("AppendWrite");
    reveal_strlit("MutateWrite");
    reveal_strlit("RetractWrite");
    reveal_strlit("Match");
    reveal_strlit("Subscribe");
    reveal_strlit("Tap");
    assert("AppendWrite"@.len() == 11 && "AppendWrite"@[0] == 'A');
    assert("MutateWrite"@.len() == 11 && "MutateWrite"@[0] == 'M');
    assert("RetractWrite"@.len() == 12);
    assert("Match"@.len() == 5);
    assert("Subscribe"@.len() == 9);
    assert("Tap"@.len() == 3);
}

/// What happens to a write while the next version is live.
#[derive(Debug, Clone, Copy, PartialEq, Eq, Structural, Hash)]
pub enum WritePolicy {
    /// The next version performs the write and projects it back to main.
    Mirror,
    /// The next version performs the write and records that main cannot
    /// represent it.
    DivergenceRecord,
    /// The next version refuses the write.
    Reject,
}

/// Where reads are answered from while the next version is live.
#[derive(Debug, Clone, Copy, PartialEq, Eq, Structural, Hash)]
pub enum ReadPolicy {
    ActiveProjectsResponse,
    DualQueryMerge,
    ActiveOnly,
}

/// What happens to a subscription at handover.
#[derive(Debug, Clone, Copy, PartialEq, Eq, Structural, Hash)]
pub enum SubscribePolicy {
    ResumeAgainstNext,
    TerminateAtHandover,
}

impl Default for SubscribePolicy {
    /// Subscriptions terminate at handover unless a policy says otherwise.
    fn default() -> (policy: Self)
        ensures
            policy == SubscribePolicy::TerminateAtHandover,
    {
        SubscribePolicy::TerminateAtHandover
    }
}

/// The write, read and subscribe policy of one operation.
#[derive(Debug, Clone, Copy, PartialEq, Eq, Structural, Hash)]
pub struct PerOperationPolicy {
    pub write_policy: WritePolicy,
    pub read_policy: ReadPolicy,
    pub subscribe_policy: SubscribePolicy,
}

impl PerOperationPolicy {
    /// A policy with the given parts.
    pub fn new(
        write_policy: WritePolicy,
        read_policy: ReadPolicy,
        subscribe_policy: SubscribePolicy,
    ) -> (policy: Self)
        ensures
            policy.write_policy == write_policy,
            policy.read_policy == read_policy,
            policy.subscribe_policy == subscribe_policy,
    {
        Self { write_policy, read_policy, subscribe_policy }
    }

    /// The policy of an append that is mirrored to main: writes mirror,
    /// reads are answered by the active version only, and subscriptions
    /// terminate at handover.
    pub fn mirror_append() -> (policy: Self)
        ensures
            policy.write_policy == WritePolicy::Mirror,
            policy.read_policy == ReadPolicy::ActiveOnly,
            policy.subscribe_policy == SubscribePolicy::TerminateAtHandover,
    {
        Self::new(WritePolicy::Mirror, ReadPolicy::ActiveOnly, SubscribePolicy::TerminateAtHandover)
    }
}

/// The policy that applies to one kind of operation.
#[derive(Debug, Clone, PartialEq, Eq, Structural)]
pub struct OperationPolicy {
    pub kind: OperationKind,
    pub policy: PerOperationPolicy,
}

impl OperationPolicy {
    /// The policy `policy` for operations of kind `kind`.
    pub fn new(kind: OperationKind, policy: PerOperationPolicy) -> (operation: Self)
        ensures
            operation.kind == kind,
            operation.policy == policy,
    {
        Self { kind, policy }
    }
}

/// The operation policies of one component.
#[derive(Debug, Clone, PartialEq, Eq)]
pub struct ComponentPolicy {
    pub component: ComponentName,
    pub operations: Vec<OperationPolicy>,
}

impl ComponentPolicy {
    /// The policies `operations` of component `component`.
    pub fn new(component: ComponentName, operations: Vec<OperationPolicy>) -> (policy: Self)
        ensures
            policy.component == component,
            policy.operations == operations,
    {
        Self { component, operations }
    }
}

} // verus!
