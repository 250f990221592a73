//! Protocol messages between control plane and node agent, and their exact
//! correspondence with the wire forms.

use vstd::prelude::*;

use crate::types::{
    AssignmentView, CapabilityAssignment, InstanceMetadata, InstanceStatus, MetadataView,
    RestartPolicy,
};
use crate::wire;
use crate::wire::{
    decode_policy_type, decode_provider, decode_status, encode_policy_type, encode_provider,
    encode_status, policy_type_code, policy_type_from_code, provider_code, provider_from_code,
    status_code, status_from_code,
};

verus! {

pub open spec fn opt_str_view(o: Option<String>) -> Option<Seq<char>> {
    match o {
        None => None,
        Some(s) => Some(s@),
    }
}

/// A status update carried in a heartbeat.
#[derive(Debug)]
pub struct InstanceStatusUpdate {
    pub instance_id: String,
    pub status: InstanceStatus,
    pub error_message: Option<String>,
}

/// Abstract value of a status update.
pub ghost struct UpdateView {
    pub instance_id: Seq<char>,
    pub status: InstanceStatus,
    pub error_message: Option<Seq<char>>,
}

impl View for InstanceStatusUpdate {
    type V = UpdateView;

    open spec fn view(&self) -> UpdateView {
        UpdateView {
            instance_id: self.instance_id@,
            status: self.status,
            error_message: opt_str_view(self.error_message),
        }
    }
}

impl DeepView for InstanceStatusUpdate {
    type V = UpdateView;

    open spec fn deep_view(&self) -> UpdateView {
        self@
    }
}

/// A heartbeat: per-instance status updates from one node.
#[derive(Debug)]
pub struct StatusReport {
    pub node_id: String,
    pub instance_updates: Vec<InstanceStatusUpdate>,
    pub timestamp: i64,
}

/// A request to start an instance, as routed to a node agent.
#[derive(Debug)]
pub struct StartInstanceRequest {
    pub instance_id: String,
    pub module_bytes: Vec<u8>,
    pub capabilities: Vec<CapabilityAssignment>,
    pub restart_policy: RestartPolicy,
}

#[derive(Debug)]
pub struct StopInstanceRequest {
    pub instance_id: String,
}

/// The internal policy corresponds to the wire policy: coded type, same
/// optional fields.
pub open spec fn policy_wire_rel(p: RestartPolicy, w: wire::RestartPolicy) -> bool {
    &&& w.policy_type == policy_type_code(p.policy_type)
    &&& w.max_retries == p.max_retries
    &&& w.backoff_seconds == p.backoff_seconds
}

/// The internal assignment corresponds to the wire assignment.
pub open spec fn assignment_wire_rel(a: AssignmentView, w: wire::CapabilityAssignment) -> bool {
    &&& w.instance_id@ == a.instance_id
    &&& w.capability_id@ == a.capability_id
    &&& w.provider_type == provider_code(a.provider_type)
    &&& w.permissions.deep_view() == a.permissions
}

/// The internal metadata corresponds to the wire metadata.
pub open spec fn metadata_wire_rel(m: MetadataView, w: wire::InstanceMetadata) -> bool {
    &&& w.instance_id@ == m.instance_id
    &&& w.node_id@ == m.node_id
    &&& w.module_hash@ == m.module_hash
    &&& w.created_at == m.created_at
    &&& w.status == status_code(m.status)
}

/// The internal update corresponds to the wire update.
pub open spec fn update_wire_rel(u: UpdateView, w: wire::InstanceStatusUpdate) -> bool {
    &&& w.instance_id@ == u.instance_id
    &&& w.status == status_code(u.status)
    &&& opt_str_view(w.error_message) == u.error_message
}

/// The internal report corresponds to the wire report.
pub open spec fn report_wire_rel(r: &StatusReport, w: &wire::StatusReport) -> bool {
    &&& w.node_id@ == r.node_id@
    &&& w.timestamp == r.timestamp
    &&& w.instance_updates.len() == r.instance_updates.len()
    &&& forall|i: int| 0 <= i < r.instance_updates.len() ==> update_wire_rel(
        (#[trigger] r.instance_updates@[i])@,
        w.instance_updates@[i],
    )
}

/// The internal start request corresponds to the wire start request; the
/// wire policy must be present.
pub open spec fn start_request_wire_rel(r: &StartInstanceRequest, w: &wire::StartInstanceRequest) -> bool {
    &&& w.instance_id@ == r.instance_id@
    &&& w.module_bytes@ == r.module_bytes@
    &&& w.capabilities.len() == r.capabilities.len()
    &&& forall|i: int| 0 <= i < r.capabilities.len() ==> assignment_wire_rel(
        (#[trigger] r.capabilities@[i])@,
        w.capabilities@[i],
    )
    &&& w.restart_policy matches Some(p) && policy_wire_rel(r.restart_policy, p)
}

/// The internal stop request corresponds to the wire stop request.
pub open spec fn stop_request_wire_rel(r: &StopInstanceRequest, w: &wire::StopInstanceRequest) -> bool {
    w.instance_id@ == r.instance_id@
}

pub fn stop_request_to_wire(r: &StopInstanceRequest) -> (w: wire::StopInstanceRequest)
    ensures
        stop_request_wire_rel(r, &w),
{
    wire::StopInstanceRequest { instance_id: r.instance_id.clone() }
}

pub fn stop_request_from_wire(w: &wire::StopInstanceRequest) -> (r: StopInstanceRequest)
    ensures
        stop_request_wire_rel(&r, w),
{
    StopInstanceRequest { instance_id: w.instance_id.clone() }
}

/// Wire round-trip for stop requests: the wire form determines the request.
pub proof fn lemma_stop_request_round_trip(
    r1: &StopInstanceRequest,
    r2: &StopInstanceRequest,
    w: &wire::StopInstanceRequest,
)
    requires
        stop_request_wire_rel(r1, w),
        stop_request_wire_rel(r2, w),
    ensures
        r1.instance_id@ == r2.instance_id@,
{
}

fn clone_strings(v: &Vec<String>) -> (r: Vec<String>)
    ensures
        r.deep_view() == v.deep_view(),
{
    let c = v.clone();
    proof {
        assert(c.deep_view() =~= v.deep_view());
    }
    c
}

pub fn policy_to_wire(p: &RestartPolicy) -> (r: wire::RestartPolicy)
    ensures
        policy_wire_rel(*p, r),
{
    wire::RestartPolicy {
        policy_type: encode_policy_type(p.policy_type),
        max_retries: p.max_retries,
        backoff_seconds: p.backoff_seconds,
    }
}

pub fn policy_from_wire(w: &wire::RestartPolicy) -> (r: Result<RestartPolicy, String>)
    ensures
        r is Ok <==> policy_type_from_code(w.policy_type) is Some,
        r matches Ok(p) ==> policy_wire_rel(p, *w),
{
    let policy_type = match decode_policy_type(w.policy_type) {
        Ok(t) => t,
        Err(e) => {
            return Err(e);
        },
    };
    Ok(RestartPolicy { policy_type, max_retries: w.max_retries, backoff_seconds: w.backoff_seconds })
}

pub fn assignment_to_wire(a: &CapabilityAssignment) -> (r: wire::CapabilityAssignment)
    ensures
        assignment_wire_rel(a@, r),
{
    wire::CapabilityAssignment {
        instance_id: a.instance_id.clone(),
        capability_id: a.capability_id.clone(),
        provider_type: encode_provider(a.provider_type),
        permissions: clone_strings(&a.permissions),
    }
}

pub fn assignment_from_wire(w: &wire::CapabilityAssignment) -> (r: Result<
    CapabilityAssignment,
    String,
>)
    ensures
        r is Ok <==> provider_from_code(w.provider_type) is Some,
        r matches Ok(a) ==> assignment_wire_rel(a@, *w),
{
    let provider_type = match decode_provider(w.provider_type) {
        Ok(p) => p,
        Err(e) => {
            return Err(e);
        },
    };
    Ok(
        CapabilityAssignment {
            instance_id: w.instance_id.clone(),
            capability_id: w.capability_id.clone(),
            provider_type,
            permissions: clone_strings(&w.permissions),
        },
    )
}

pub fn metadata_to_wire(m: &InstanceMetadata) -> (r: wire::InstanceMetadata)
    ensures
        metadata_wire_rel(m@, r),
{
    wire::InstanceMetadata {
        instance_id: m.instance_id.clone(),
        node_id: m.node_id.clone(),
        module_hash: m.module_hash.clone(),
        created_at: m.created_at,
        status: encode_status(m.status),
    }
}

pub fn metadata_from_wire(w: &wire::InstanceMetadata) -> (r: Result<InstanceMetadata, String>)
    ensures
        r is Ok <==> status_from_code(w.status) is Some,
        r matches Ok(m) ==> metadata_wire_rel(m@, *w),
{
    let status = match decode_status(w.status) {
        Ok(s) => s,
        Err(e) => {
            return Err(e);
        },
    };
    Ok(
        InstanceMetadata {
            instance_id: w.instance_id.clone(),
            node_id: w.node_id.clone(),
            module_hash: w.module_hash.clone(),
            created_at: w.created_at,
            status,
        },
    )
}

fn clone_opt_string(o: &Option<String>) -> (r: Option<String>)
    ensures
        opt_str_view(r) == opt_str_view(*o),
{
    match o {
        None => None,
        Some(s) => Some(s.clone()),
    }
}

pub fn update_to_wire(u: &InstanceStatusUpdate) -> (r: wire::InstanceStatusUpdate)
    ensures
        update_wire_rel(u@, r),
{
    wire::InstanceStatusUpdate {
        instance_id: u.instance_id.clone(),
        status: encode_status(u.status),
        error_message: clone_opt_string(&u.error_message),
    }
}

pub fn update_from_wire(w: &wire::InstanceStatusUpdate) -> (r: Result<InstanceStatusUpdate, String>)
    ensures
        r is Ok <==> status_from_code(w.status) is Some,
        r matches Ok(u) ==> update_wire_rel(u@, *w),
{
    let status = match decode_status(w.status) {
        Ok(s) => s,
        Err(e) => {
            return Err(e);
        },
    };
    Ok(
        InstanceStatusUpdate {
            instance_id: w.instance_id.clone(),
            status,
            error_message: clone_opt_string(&w.error_message),
        },
    )
}

pub fn report_to_wire(r: &StatusReport) -> (w: wire::StatusReport)
    ensures
        report_wire_rel(r, &w),
{
    let n = r.instance_updates.len();
    let mut updates: Vec<wire::InstanceStatusUpdate> = Vec::new();
    for i in 0..n
        invariant
            n == r.instance_updates@.len(),
            updates@.len() == i,
            forall|j: int| 0 <= j < i ==> update_wire_rel(
                (#[trigger] r.instance_updates@[j])@,
                updates@[j],
            ),
    {
        updates.push(update_to_wire(&r.instance_updates[i]));
    }
    wire::StatusReport {
        node_id: r.node_id.clone(),
        instance_updates: updates,
        timestamp: r.timestamp,
    }
}

pub fn report_from_wire(w: &wire::StatusReport) -> (r: Result<StatusReport, String>)
    ensures
        r is Ok <==> forall|i: int| 0 <= i < w.instance_updates@.len() ==> status_from_code(
            (#[trigger] w.instance_updates@[i]).status,
        ) is Some,
        r matches Ok(rep) ==> report_wire_rel(&rep, w),
{
    let n = w.instance_updates.len();
    let mut updates: Vec<InstanceStatusUpdate> = Vec::new();
    for i in 0..n
        invariant
            n == w.instance_updates@.len(),
            updates@.len() == i,
            forall|j: int| 0 <= j < i ==> status_from_code(
                (#[trigger] w.instance_updates@[j]).status,
            ) is Some,
            forall|j: int| 0 <= j < i ==> update_wire_rel(
                (#[trigger] updates@[j])@,
                w.instance_updates@[j],
            ),
    {
        match update_from_wire(&w.instance_updates[i]) {
            Ok(u) => {
                updates.push(u);
            },
            Err(e) => {
                proof {
                    assert(status_from_code(w.instance_updates@[i as int].status) is None);
                }
                return Err(e);
            },
        }
    }
    Ok(StatusReport { node_id: w.node_id.clone(), instance_updates: updates, timestamp: w.timestamp })
}

pub fn start_request_to_wire(r: &StartInstanceRequest) -> (w: wire::StartInstanceRequest)
    ensures
        start_request_wire_rel(r, &w),
{
    let n = r.capabilities.len();
    let mut capabilities: Vec<wire::CapabilityAssignment> = Vec::new();
    for i in 0..n
        invariant
            n == r.capabilities@.len(),
            capabilities@.len() == i,
            forall|j: int| 0 <= j < i ==> assignment_wire_rel(
                (#[trigger] r.capabilities@[j])@,
                capabilities@[j],
            ),
    {
        capabilities.push(assignment_to_wire(&r.capabilities[i]));
    }
    wire::StartInstanceRequest {
        instance_id: r.instance_id.clone(),
        module_bytes: r.module_bytes.clone(),
        capabilities,
        restart_policy: Some(policy_to_wire(&r.restart_policy)),
    }
}

pub fn start_request_from_wire(w: &wire::StartInstanceRequest) -> (r: Result<
    StartInstanceRequest,
    String,
>)
    ensures
        r is Ok <==> (w.restart_policy matches Some(p) && policy_type_from_code(
            p.policy_type,
        ) is Some) && forall|i: int| 0 <= i < w.capabilities@.len() ==> provider_from_code(
            (#[trigger] w.capabilities@[i]).provider_type,
        ) is Some,
        r matches Ok(req) ==> start_request_wire_rel(&req, w),
{
    let n = w.capabilities.len();
    let mut capabilities: Vec<CapabilityAssignment> = Vec::new();
    for i in 0..n
        invariant
            n == w.capabilities@.len(),
            capabilities@.len() == i,
            forall|j: int| 0 <= j < i ==> provider_from_code(
                (#[trigger] w.capabilities@[j]).provider_type,
            ) is Some,
            forall|j: int| 0 <= j < i ==> assignment_wire_rel(
                (#[trigger] capabilities@[j])@,
                w.capabilities@[j],
            ),
    {
        match assignment_from_wire(&w.capabilities[i]) {
            Ok(a) => {
                capabilities.push(a);
            },
            Err(e) => {
                proof {
                    assert(provider_from_code(w.capabilities@[i as int].provider_type) is None);
                }
                return Err(e);
            },
        }
    }
    let restart_policy = match &w.restart_policy {
        Some(p) => match policy_from_wire(p) {
            Ok(p) => p,
            Err(e) => {
                return Err(e);
            },
        },
        None => {
            return Err(String::from_str("restart_policy is missing"));
        },
    };
    let module_bytes = w.module_bytes.clone();
    proof {
        assert(module_bytes@ =~= w.module_bytes@);
    }
    Ok(
        StartInstanceRequest {
            instance_id: w.instance_id.clone(),
            module_bytes,
            capabilities,
            restart_policy,
        },
    )
}

/// Wire round-trip for restart policies: the wire form determines the
/// policy, so encoding then decoding returns an equal value; and an
/// unspecified wire policy type never decodes.
pub proof fn lemma_policy_round_trip(p1: RestartPolicy, p2: RestartPolicy, w: wire::RestartPolicy)
    requires
        policy_wire_rel(p1, w),
        policy_wire_rel(p2, w),
    ensures
        p1 == p2,
        policy_type_from_code(w.policy_type) == Some(p1.policy_type),
{
}

/// Wire round-trip for capability assignments.
pub proof fn lemma_assignment_round_trip(
    a1: AssignmentView,
    a2: AssignmentView,
    w: wire::CapabilityAssignment,
)
    requires
        assignment_wire_rel(a1, w),
        assignment_wire_rel(a2, w),
    ensures
        a1 == a2,
        provider_from_code(w.provider_type) == Some(a1.provider_type),
{
}

/// Wire round-trip for instance metadata.
pub proof fn lemma_metadata_round_trip(
    m1: MetadataView,
    m2: MetadataView,
    w: wire::InstanceMetadata,
)
    requires
        metadata_wire_rel(m1, w),
        metadata_wire_rel(m2, w),
    ensures
        m1 == m2,
        status_from_code(w.status) == Some(m1.status),
{
}

/// Wire round-trip for status updates.
pub proof fn lemma_update_round_trip(u1: UpdateView, u2: UpdateView, w: wire::InstanceStatusUpdate)
    requires
        update_wire_rel(u1, w),
        update_wire_rel(u2, w),
    ensures
        u1 == u2,
        status_from_code(w.status) == Some(u1.status),
{
}

/// Wire round-trip for status reports: two reports matching the same wire
/// form agree on node, timestamp and every update's abstract value.
pub proof fn lemma_report_round_trip(r1: &StatusReport, r2: &StatusReport, w: &wire::StatusReport)
    requires
        report_wire_rel(r1, w),
        report_wire_rel(r2, w),
    ensures
        r1.node_id@ == r2.node_id@,
        r1.timestamp == r2.timestamp,
        r1.instance_updates.len() == r2.instance_updates.len(),
        forall|i: int| 0 <= i < r1.instance_updates.len()
            ==> (#[trigger] r1.instance_updates@[i])@ == r2.instance_updates@[i]@,
{
    assert forall|i: int| 0 <= i < r1.instance_updates.len() implies (
    #[trigger] r1.instance_updates@[i])@ == r2.instance_updates@[i]@ by {
        lemma_update_round_trip(
            r1.instance_updates@[i]@,
            r2.instance_updates@[i]@,
            w.instance_updates@[i],
        );
    }
}

/// Wire round-trip for start requests: the wire form determines the
/// request's abstract value, and a present, specified policy is required.
pub proof fn lemma_start_request_round_trip(
    r1: &StartInstanceRequest,
    r2: &StartInstanceRequest,
    w: &wire::StartInstanceRequest,
)
    requires
        start_request_wire_rel(r1, w),
        start_request_wire_rel(r2, w),
    ensures
        r1.instance_id@ == r2.instance_id@,
        r1.module_bytes@ == r2.module_bytes@,
        r1.restart_policy == r2.restart_policy,
        r1.capabilities.len() == r2.capabilities.len(),
        forall|i: int| 0 <= i < r1.capabilities.len() ==> (#[trigger] r1.capabilities@[i])@
            == r2.capabilities@[i]@,
{
    let p = w.restart_policy->Some_0;
    lemma_policy_round_trip(r1.restart_policy, r2.restart_policy, p);
    assert forall|i: int| 0 <= i < r1.capabilities.len() implies (#[trigger] r1.capabilities@[i])@
        == r2.capabilities@[i]@ by {
        lemma_assignment_round_trip(
            r1.capabilities@[i]@,
            r2.capabilities@[i]@,
            w.capabilities@[i],
        );
    }
}

} // verus!
