//! Routing service: node registration, heartbeat ingestion, bookkeeping
//! around lifecycle dispatch, and state recovery when a node re-registers.
//!
//! The service decides and records; performing the RPCs themselves is the
//! caller's loop, which reports each outcome back through these functions.

use vstd::prelude::*;

use crate::control_plane::{with_status, ControlPlane};
use crate::error::ControlPlaneError;
use crate::etcd::EtcdMetadataRepository;
use crate::external::now_unix_seconds;
use crate::protocol::{metadata_from_wire, metadata_wire_rel, update_wire_rel};
use crate::routing::{
    normalize_endpoint, spec_normalize_endpoint, InMemoryNodeRoutingRepository, NodeAgentRecord,
    NodeRecordView, ProviderMetadata,
};
use crate::types::{InstanceMetadata, InstanceStatus, MetadataView};
use crate::wire;
use crate::wire::status_from_code;

verus! {

/// Apply recovered metadata records in order: each overwrites the entry
/// under its own id.
pub open spec fn restore_all(
    m: Map<Seq<char>, MetadataView>,
    metas: Seq<MetadataView>,
) -> Map<Seq<char>, MetadataView>
    decreases metas.len(),
{
    if metas.len() == 0 {
        m
    } else {
        restore_all(m, metas.drop_last()).insert(metas.last().instance_id, metas.last())
    }
}

/// Clear the capability bindings of every recovered id, in order.
pub open spec fn clear_all(
    m: Map<Seq<char>, Seq<crate::types::AssignmentView>>,
    metas: Seq<MetadataView>,
) -> Map<Seq<char>, Seq<crate::types::AssignmentView>>
    decreases metas.len(),
{
    if metas.len() == 0 {
        m
    } else {
        clear_all(m, metas.drop_last()).remove(metas.last().instance_id)
    }
}

/// Assign every recovered id to the node, in order.
pub open spec fn assign_all(
    m: Map<Seq<char>, Seq<char>>,
    metas: Seq<MetadataView>,
    node_id: Seq<char>,
) -> Map<Seq<char>, Seq<char>>
    decreases metas.len(),
{
    if metas.len() == 0 {
        m
    } else {
        assign_all(m, metas.drop_last(), node_id).insert(metas.last().instance_id, node_id)
    }
}

/// How many recovered instances count as active: those `Starting` or
/// `Running`.
pub open spec fn count_active(metas: Seq<MetadataView>) -> int
    decreases metas.len(),
{
    if metas.len() == 0 {
        0
    } else {
        count_active(metas.drop_last()) + if metas.last().status == InstanceStatus::Starting
            || metas.last().status == InstanceStatus::Running {
            1int
        } else {
            0int
        }
    }
}

/// Apply status updates in order: a known instance takes the reported
/// status, an unknown one is skipped.
pub open spec fn apply_updates(
    m: Map<Seq<char>, MetadataView>,
    us: Seq<crate::protocol::UpdateView>,
) -> Map<Seq<char>, MetadataView>
    decreases us.len(),
{
    if us.len() == 0 {
        m
    } else {
        let prev = apply_updates(m, us.drop_last());
        let u = us.last();
        if prev.contains_key(u.instance_id) {
            prev.insert(u.instance_id, with_status(prev[u.instance_id], u.status))
        } else {
            prev
        }
    }
}

pub struct NodeRoutingService {
    pub repo: InMemoryNodeRoutingRepository,
    pub etcd_metadata_repo: Option<EtcdMetadataRepository>,
}

impl NodeRoutingService {
    pub open spec fn wf(&self) -> bool {
        self.repo.wf() && match self.etcd_metadata_repo {
            Some(e) => e.wf(),
            None => true,
        }
    }

    pub fn new(repo: InMemoryNodeRoutingRepository) -> (r: Self)
        requires
            repo.wf(),
        ensures
            r.wf(),
            r.repo == repo,
            r.etcd_metadata_repo is None,
    {
        NodeRoutingService { repo, etcd_metadata_repo: None }
    }

    pub fn new_with_etcd(
        repo: InMemoryNodeRoutingRepository,
        etcd_metadata_repo: EtcdMetadataRepository,
    ) -> (r: Self)
        requires
            repo.wf(),
            etcd_metadata_repo.wf(),
        ensures
            r.wf(),
            r.repo == repo,
            r.etcd_metadata_repo matches Some(e) && e == etcd_metadata_repo,
    {
        NodeRoutingService { repo, etcd_metadata_repo: Some(etcd_metadata_repo) }
    }

    /// Register (or re-register) a node: its address is normalized, its
    /// active count reset, its heartbeat fresh, and it starts available.
    /// With the metadata store enabled, its presence is mirrored there.
    pub fn register_node(
        &mut self,
        node_id: String,
        node_address: String,
        capabilities: Vec<String>,
        max_instances: u32,
    ) -> (r: Result<(), ControlPlaneError>)
        requires
            old(self).wf(),
        ensures
            final(self).wf(),
            r is Ok,
            final(self).repo.assignments_map() == old(self).repo.assignments_map(),
            final(self).repo.providers_map() == old(self).repo.providers_map(),
            final(self).repo.nodes_map().contains_key(node_id@),
            final(self).repo.nodes_map() =~~= old(self).repo.nodes_map().insert(
                node_id@,
                final(self).repo.nodes_map()[node_id@],
            ),
            ({
                let n = final(self).repo.nodes_map()[node_id@];
                n.node_id == node_id@ && n.node_address == spec_normalize_endpoint(node_address@)
                    && n.capabilities == capabilities.deep_view() && n.max_instances
                    == max_instances && n.active_instances == 0 && n.available
                    && n.last_heartbeat is Some
            }),
            old(self).etcd_metadata_repo is None ==> final(self).etcd_metadata_repo is None,
            old(self).etcd_metadata_repo matches Some(e0) ==> (final(self).etcd_metadata_repo matches Some(e1) && e1.store() =~= e0.store().insert(
                "/wasmatrix/nodes/"@ + node_id@,
                e1.store()["/wasmatrix/nodes/"@ + node_id@],
            )),
    {
        let address = normalize_endpoint(node_address.as_str());
        let record = NodeAgentRecord {
            node_id: node_id.clone(),
            node_address: address.clone(),
            capabilities,
            max_instances,
            active_instances: 0,
            last_heartbeat: Some(now_unix_seconds()),
            available: true,
        };
        self.repo.upsert_node(record);
        if let Some(etcd_repo) = &mut self.etcd_metadata_repo {
            let _ = etcd_repo.put_node_presence(
                node_id.as_str(),
                address.as_str(),
                now_unix_seconds(),
            );
        }
        Ok(())
    }

    /// Record provider metadata, mirrored to the metadata store when
    /// enabled.
    pub fn register_provider_metadata(
        &mut self,
        provider_id: String,
        provider_type: String,
        node_id: String,
    ) -> (r: Result<(), ControlPlaneError>)
        requires
            old(self).wf(),
        ensures
            final(self).wf(),
            r is Ok,
            final(self).repo.nodes_map() == old(self).repo.nodes_map(),
            final(self).repo.assignments_map() == old(self).repo.assignments_map(),
            final(self).repo.providers_map().contains_key(provider_id@),
            final(self).repo.providers_map() =~~= old(self).repo.providers_map().insert(
                provider_id@,
                final(self).repo.providers_map()[provider_id@],
            ),
            ({
                let p = final(self).repo.providers_map()[provider_id@];
                p.provider_id == provider_id@ && p.provider_type == provider_type@ && p.node_id
                    == node_id@
            }),
            old(self).etcd_metadata_repo is None ==> final(self).etcd_metadata_repo is None,
            old(self).etcd_metadata_repo matches Some(e0) ==> (final(self).etcd_metadata_repo matches Some(e1) && e1.store() =~= e0.store().insert(
                "/wasmatrix/providers/"@ + provider_id@,
                e1.store()["/wasmatrix/providers/"@ + provider_id@],
            )),
    {
        let record = ProviderMetadata {
            provider_id: provider_id.clone(),
            provider_type: provider_type.clone(),
            node_id: node_id.clone(),
            last_updated: now_unix_seconds(),
        };
        self.repo.upsert_provider_metadata(record);
        if let Some(etcd_repo) = &mut self.etcd_metadata_repo {
            let _ = etcd_repo.put_provider_metadata(
                provider_id.as_str(),
                provider_type.as_str(),
                node_id.as_str(),
                now_unix_seconds(),
            );
        }
        Ok(())
    }

    /// Ingest a heartbeat timestamp from a node: negative timestamps are
    /// invalid, unknown nodes are not found; otherwise the node's heartbeat
    /// is set and it is marked available.
    pub fn record_status_report(&mut self, node_id: &str, timestamp: i64) -> (r: Result<
        (),
        ControlPlaneError,
    >)
        requires
            old(self).wf(),
        ensures
            final(self).wf(),
            final(self).repo.assignments_map() == old(self).repo.assignments_map(),
            final(self).repo.providers_map() == old(self).repo.providers_map(),
            r is Ok <==> timestamp >= 0 && old(self).repo.nodes_map().contains_key(node_id@),
            r matches Err(e) ==> final(self).repo.nodes_map() == old(self).repo.nodes_map() && (
            if timestamp < 0 {
                e is ValidationError
            } else {
                e is InstanceNotFound
            }),
            r is Ok ==> final(self).repo.nodes_map() =~~= old(self).repo.nodes_map().insert(
                node_id@,
                NodeRecordView {
                    last_heartbeat: Some(timestamp),
                    available: true,
                    ..old(self).repo.nodes_map()[node_id@]
                },
            ),
    {
        if timestamp < 0 {
            return Err(
                ControlPlaneError::ValidationError(
                    String::from_str("invalid status report timestamp"),
                ),
            );
        }
        self.repo.update_heartbeat(node_id, timestamp)
    }

    /// Record a successful start dispatch: the instance is assigned to the
    /// node, the node's load grows by one, and the node is marked
    /// available.
    pub fn apply_start_success(&mut self, instance_id: String, node_id: &str) -> (r: Result<
        (),
        ControlPlaneError,
    >)
        requires
            old(self).wf(),
        ensures
            final(self).wf(),
            final(self).repo.providers_map() == old(self).repo.providers_map(),
            r is Ok <==> old(self).repo.nodes_map().contains_key(node_id@),
            r is Ok ==> final(self).repo.assignments_map() =~= old(self).repo.assignments_map().insert(instance_id@, node_id@) && final(self).repo.nodes_map() =~~= old(self).repo.nodes_map().insert(
                node_id@,
                NodeRecordView {
                    active_instances: (if old(self).repo.nodes_map()[node_id@].active_instances
                        == u32::MAX {
                        u32::MAX
                    } else {
                        (old(self).repo.nodes_map()[node_id@].active_instances + 1) as u32
                    }),
                    available: true,
                    ..old(self).repo.nodes_map()[node_id@]
                },
            ),
            r matches Err(e) ==> e is InstanceNotFound,
    {
        self.repo.assign_instance(instance_id, String::from_str(node_id));
        if let Err(e) = self.repo.increment_active_instances(node_id) {
            return Err(e);
        }
        if let Err(e) = self.repo.set_availability(node_id, true) {
            return Err(e);
        }
        Ok(())
    }

    /// Record a transport failure while talking to a node: it is marked
    /// unavailable; an unknown node changes nothing.
    pub fn apply_transport_failure(&mut self, node_id: &str)
        requires
            old(self).wf(),
        ensures
            final(self).wf(),
            final(self).repo.assignments_map() == old(self).repo.assignments_map(),
            final(self).repo.providers_map() == old(self).repo.providers_map(),
            final(self).repo.nodes_map() =~~= if old(self).repo.nodes_map().contains_key(node_id@) {
                old(self).repo.nodes_map().insert(
                    node_id@,
                    NodeRecordView { available: false, ..old(self).repo.nodes_map()[node_id@] },
                )
            } else {
                old(self).repo.nodes_map()
            },
    {
        let _ = self.repo.set_availability(node_id, false);
    }

    /// Record a successful stop of an instance: its assignment is removed
    /// and the owning node's load shrinks by one (saturating at zero).
    pub fn apply_stop_success(&mut self, instance_id: &str) -> (r: Result<(), ControlPlaneError>)
        requires
            old(self).wf(),
        ensures
            final(self).wf(),
            final(self).repo.providers_map() == old(self).repo.providers_map(),
            r is Ok <==> old(self).repo.assignments_map().contains_key(instance_id@) && old(self).repo.nodes_map().contains_key(old(self).repo.assignments_map()[instance_id@]),
            r matches Err(e) ==> e is InstanceNotFound,
            r is Ok ==> {
                let node_id = old(self).repo.assignments_map()[instance_id@];
                final(self).repo.assignments_map() =~= old(self).repo.assignments_map().remove(
                    instance_id@,
                ) && final(self).repo.nodes_map() =~~= old(self).repo.nodes_map().insert(
                    node_id,
                    NodeRecordView {
                        active_instances: (if old(self).repo.nodes_map()[node_id].active_instances
                            == 0 {
                            0u32
                        } else {
                            (old(self).repo.nodes_map()[node_id].active_instances - 1) as u32
                        }),
                        ..old(self).repo.nodes_map()[node_id]
                    },
                )
            },
    {
        let node_id = match self.repo.lookup_instance_node(instance_id) {
            Some(n) => n,
            None => {
                return Err(ControlPlaneError::InstanceNotFound(String::from_str(instance_id)));
            },
        };
        if !self.repo.get_node(node_id.as_str()).is_some() {
            return Err(ControlPlaneError::InstanceNotFound(node_id));
        }
        let _ = self.repo.remove_instance_assignment(instance_id);
        if let Err(e) = self.repo.decrement_active_instances(node_id.as_str()) {
            return Err(e);
        }
        Ok(())
    }

    /// Apply the instance list a re-registering node reported: each record
    /// is decoded (rejecting unspecified statuses), restored into the
    /// control plane with its capability bindings cleared, and re-assigned
    /// to the node; the node's active count becomes the number of recovered
    /// instances that are `Starting` or `Running`. Returns how many records
    /// were recovered. An undecodable record rejects the whole list
    /// unchanged.
    pub fn apply_recovered_instances(
        &mut self,
        node_id: &str,
        instances: Vec<wire::InstanceMetadata>,
        control_plane: &mut ControlPlane,
    ) -> (r: Result<usize, ControlPlaneError>)
        requires
            old(self).wf(),
            old(control_plane).wf(),
        ensures
            final(self).wf(),
            final(control_plane).wf(),
            final(self).repo.providers_map() == old(self).repo.providers_map(),
            final(control_plane).crashed() == old(control_plane).crashed(),
            final(control_plane).crash_history_map() == old(control_plane).crash_history_map(),
            final(control_plane).log() == old(control_plane).log(),
            r is Ok <==> (forall|i: int| 0 <= i < instances@.len() ==> status_from_code(
                (#[trigger] instances@[i]).status,
            ) is Some) && old(self).repo.nodes_map().contains_key(node_id@),
            r matches Err(e) ==> (e is ValidationError || e is InstanceNotFound) && final(control_plane).instances_map() == old(control_plane).instances_map() && final(control_plane).capabilities_map() == old(control_plane).capabilities_map() && final(self).repo.assignments_map() == old(self).repo.assignments_map() && final(self).repo.nodes_map() == old(self).repo.nodes_map(),
            r matches Ok(count) ==> exists|metas: Seq<MetadataView>|
                {
                    &&& metas.len() == instances@.len()
                    &&& (forall|i: int| 0 <= i < metas.len() ==> metadata_wire_rel(
                        #[trigger] metas[i],
                        instances@[i],
                    ))
                    &&& count == instances@.len()
                    &&& final(control_plane).instances_map() =~= restore_all(
                        old(control_plane).instances_map(),
                        metas,
                    )
                    &&& final(control_plane).capabilities_map() =~~= clear_all(
                        old(control_plane).capabilities_map(),
                        metas,
                    )
                    &&& final(self).repo.assignments_map() =~= assign_all(
                        old(self).repo.assignments_map(),
                        metas,
                        node_id@,
                    )
                    &&& final(self).repo.nodes_map() =~~= old(self).repo.nodes_map().insert(
                        node_id@,
                        NodeRecordView {
                            active_instances: (if count_active(metas) > u32::MAX {
                                u32::MAX
                            } else {
                                count_active(metas) as u32
                            }),
                            ..old(self).repo.nodes_map()[node_id@]
                        },
                    )
                    &&& 0 <= count_active(metas) <= metas.len()
                },
    {
        // Decode everything first: a bad record rejects the whole list.
        let n = instances.len();
        let mut decoded: Vec<InstanceMetadata> = Vec::new();
        for i in 0..n
            invariant
                n == instances@.len(),
                decoded@.len() == i,
                *self == *old(self),
                *control_plane == *old(control_plane),
                old(self).wf(),
                old(control_plane).wf(),
                forall|j: int| 0 <= j < i ==> status_from_code(
                    (#[trigger] instances@[j]).status,
                ) is Some,
                forall|j: int| 0 <= j < i ==> metadata_wire_rel(
                    (#[trigger] decoded@[j])@,
                    instances@[j],
                ),
        {
            match metadata_from_wire(&instances[i]) {
                Ok(m) => {
                    decoded.push(m);
                },
                Err(_) => {
                    proof {
                        assert(status_from_code(instances@[i as int].status) is None);
                    }
                    return Err(
                        ControlPlaneError::ValidationError(
                            String::from_str("invalid instance status"),
                        ),
                    );
                },
            }
        }
        if !self.repo.get_node(node_id).is_some() {
            return Err(ControlPlaneError::InstanceNotFound(String::from_str(node_id)));
        }
        let ghost metas = decoded.deep_view();
        let mut active_count: u32 = 0;
        let mut recovered: usize = 0;
        for i in 0..n
            invariant
                n == instances@.len(),
                n == decoded@.len(),
                metas == decoded.deep_view(),
                self.wf(),
                control_plane.wf(),
                recovered == i,
                self.repo.providers_map() == old(self).repo.providers_map(),
                self.repo.nodes_map() == old(self).repo.nodes_map(),
                control_plane.crashed() == old(control_plane).crashed(),
                control_plane.crash_history_map() == old(control_plane).crash_history_map(),
                control_plane.log() == old(control_plane).log(),
                control_plane.instances_map() =~= restore_all(
                    old(control_plane).instances_map(),
                    metas.subrange(0, i as int),
                ),
                control_plane.capabilities_map() =~~= clear_all(
                    old(control_plane).capabilities_map(),
                    metas.subrange(0, i as int),
                ),
                self.repo.assignments_map() =~= assign_all(
                    old(self).repo.assignments_map(),
                    metas.subrange(0, i as int),
                    node_id@,
                ),
                active_count == count_active(metas.subrange(0, i as int)) || (active_count
                    == u32::MAX && count_active(metas.subrange(0, i as int)) >= u32::MAX),
                count_active(metas.subrange(0, i as int)) <= i,
                old(self).repo.nodes_map().contains_key(node_id@),
        {
            let ghost prefix = metas.subrange(0, i as int);
            proof {
                assert(metas.subrange(0, i + 1) =~= prefix.push(metas[i as int]));
                assert(metas.subrange(0, i + 1).drop_last() =~= prefix);
                lemma_count_active_bounds(prefix);
            }
            let meta = decoded[i].clone();
            proof {
                assert(meta@ == metas[i as int]);
            }
            let is_active = match meta.status {
                InstanceStatus::Starting => true,
                InstanceStatus::Running => true,
                _ => false,
            };
            if is_active && active_count < u32::MAX {
                active_count = active_count + 1;
            }
            let instance_id = meta.instance_id.clone();
            control_plane.restore_instance_state(meta, Vec::new());
            self.repo.assign_instance(instance_id, String::from_str(node_id));
            recovered = recovered + 1;
        }
        proof {
            assert(metas.subrange(0, n as int) =~= metas);
        }
        match self.repo.set_active_instances(node_id, active_count) {
            Ok(()) => {},
            Err(e) => {
                return Err(e);
            },
        }
        proof {
            lemma_count_active_bounds(metas);
            assert(forall|i: int| 0 <= i < metas.len() ==> metadata_wire_rel(
                #[trigger] metas[i],
                instances@[i],
            ));
        }
        Ok(recovered)
    }
}

proof fn lemma_count_active_bounds(metas: Seq<MetadataView>)
    ensures
        0 <= count_active(metas) <= metas.len(),
    decreases metas.len(),
{
    if metas.len() > 0 {
        lemma_count_active_bounds(metas.drop_last());
    }
}

/// Apply a heartbeat report on the control-plane side: the whole report is
/// rejected on any unrecognized status code or invalid timestamp or unknown
/// node; otherwise the node's heartbeat is refreshed and each known
/// instance takes its reported status, unknown ids being skipped.
pub fn apply_status_report(
    control_plane: &mut ControlPlane,
    routing: &mut NodeRoutingService,
    report: &wire::StatusReport,
) -> (r: Result<(), ControlPlaneError>)
    requires
        old(control_plane).wf(),
        old(routing).wf(),
    ensures
        final(control_plane).wf(),
        final(routing).wf(),
        final(control_plane).crashed() == old(control_plane).crashed(),
        final(control_plane).capabilities_map() == old(control_plane).capabilities_map(),
        final(control_plane).crash_history_map() == old(control_plane).crash_history_map(),
        final(control_plane).log() == old(control_plane).log(),
        final(routing).repo.assignments_map() == old(routing).repo.assignments_map(),
        final(routing).repo.providers_map() == old(routing).repo.providers_map(),
        r is Ok <==> (forall|i: int| 0 <= i < report.instance_updates@.len() ==> status_from_code(
            (#[trigger] report.instance_updates@[i]).status,
        ) is Some) && report.timestamp >= 0 && old(routing).repo.nodes_map().contains_key(
            report.node_id@,
        ),
        r is Err ==> final(control_plane).instances_map() == old(control_plane).instances_map()
            && final(routing).repo.nodes_map() == old(routing).repo.nodes_map(),
        r is Ok ==> exists|us: Seq<crate::protocol::UpdateView>|
            {
                &&& us.len() == report.instance_updates@.len()
                &&& (forall|i: int| 0 <= i < us.len() ==> update_wire_rel(
                    #[trigger] us[i],
                    report.instance_updates@[i],
                ))
                &&& final(control_plane).instances_map() =~= apply_updates(
                    old(control_plane).instances_map(),
                    us,
                )
                &&& final(routing).repo.nodes_map() =~~= old(routing).repo.nodes_map().insert(
                    report.node_id@,
                    NodeRecordView {
                        last_heartbeat: Some(report.timestamp),
                        available: true,
                        ..old(routing).repo.nodes_map()[report.node_id@]
                    },
                )
            },
{
    let decoded = match crate::protocol::report_from_wire(report) {
        Ok(d) => d,
        Err(_) => {
            return Err(
                ControlPlaneError::ValidationError(String::from_str("invalid instance status")),
            );
        },
    };
    match routing.record_status_report(decoded.node_id.as_str(), decoded.timestamp) {
        Ok(()) => {},
        Err(e) => {
            return Err(e);
        },
    }
    let ghost us = decoded.instance_updates.deep_view();
    proof {
        assert forall|i: int| 0 <= i < us.len() implies update_wire_rel(
            #[trigger] us[i],
            report.instance_updates@[i],
        ) by {
            assert(us[i] == decoded.instance_updates@[i]@);
        }
    }
    let n = decoded.instance_updates.len();
    for i in 0..n
        invariant
            n == decoded.instance_updates@.len(),
            us == decoded.instance_updates.deep_view(),
            control_plane.wf(),
            control_plane.crashed() == old(control_plane).crashed(),
            control_plane.capabilities_map() == old(control_plane).capabilities_map(),
            control_plane.crash_history_map() == old(control_plane).crash_history_map(),
            control_plane.log() == old(control_plane).log(),
            control_plane.instances_map() =~= apply_updates(
                old(control_plane).instances_map(),
                us.subrange(0, i as int),
            ),
    {
        let ghost prefix = us.subrange(0, i as int);
        proof {
            assert(us.subrange(0, i + 1) =~= prefix.push(us[i as int]));
            assert(us.subrange(0, i + 1).drop_last() =~= prefix);
            assert(decoded.instance_updates@[i as int]@ == us[i as int]);
        }
        let update = &decoded.instance_updates[i];
        let _ = control_plane.update_instance_status(update.instance_id.as_str(), update.status);
    }
    proof {
        assert(us.subrange(0, n as int) =~= us);
        assert(us.len() == report.instance_updates@.len());
    }
    Ok(())
}

/// Failure of the status-report client: the control plane could not be
/// reached, or it refused the report. The client is lossy by design; the
/// next tick retries with fresh state.
#[derive(Debug)]
pub enum StatusReportRepoError {
    Connection(String),
    Report(String),
}

impl StatusReportRepoError {
    pub open spec fn spec_describe(&self) -> Seq<char> {
        match self {
            StatusReportRepoError::Connection(m) => "failed to connect to control plane: "@ + m@,
            StatusReportRepoError::Report(m) => "failed to report status to control plane: "@ + m@,
        }
    }

    pub fn describe(&self) -> (r: String)
        ensures
            r@ == self.spec_describe(),
    {
        match self {
            StatusReportRepoError::Connection(m) => {
                String::from_str("failed to connect to control plane: ").concat(m.as_str())
            },
            StatusReportRepoError::Report(m) => {
                String::from_str("failed to report status to control plane: ").concat(m.as_str())
            },
        }
    }
}

/// Failure of the status-report service, wrapping the client's.
#[derive(Debug)]
pub enum StatusReportServiceError {
    Repo(StatusReportRepoError),
}

impl StatusReportServiceError {
    pub open spec fn spec_describe(&self) -> Seq<char> {
        match self {
            StatusReportServiceError::Repo(e) => "status report repository error: "@
                + e.spec_describe(),
        }
    }

    pub fn describe(&self) -> (r: String)
        ensures
            r@ == self.spec_describe(),
    {
        match self {
            StatusReportServiceError::Repo(e) => {
                let inner = e.describe();
                String::from_str("status report repository error: ").concat(inner.as_str())
            },
        }
    }
}

/// A wire metadata record the list path can take: a specified status and a
/// non-negative creation time.
pub open spec fn listable(w: wire::InstanceMetadata) -> bool {
    status_from_code(w.status) is Some && w.created_at >= 0
}

/// Keeps the records the list path can take.
pub open spec fn listable_filter() -> spec_fn(wire::InstanceMetadata) -> bool {
    |w: wire::InstanceMetadata| listable(w)
}

/// Decode the instance list one node answered: records with an unrecognized
/// status or a negative creation time are skipped, the rest decode in order.
pub fn decode_listed_instances(response: &wire::ListInstancesResponse) -> (r: Vec<
    InstanceMetadata,
>)
    ensures
        r@.len() == response.instances@.filter(listable_filter()).len(),
        forall|i: int| 0 <= i < r@.len() ==> metadata_wire_rel(
            (#[trigger] r@[i])@,
            response.instances@.filter(listable_filter())[i],
        ),
{
    let n = response.instances.len();
    let mut r: Vec<InstanceMetadata> = Vec::new();
    for i in 0..n
        invariant
            n == response.instances@.len(),
            r@.len() == response.instances@.subrange(0, i as int).filter(listable_filter()).len(),
            forall|j: int| 0 <= j < r@.len() ==> metadata_wire_rel(
                (#[trigger] r@[j])@,
                response.instances@.subrange(0, i as int).filter(listable_filter())[j],
            ),
    {
        let ghost prefix = response.instances@.subrange(0, i as int);
        let ghost wv = response.instances@[i as int];
        proof {
            assert(response.instances@.subrange(0, i + 1) =~= prefix.push(wv));
            crate::strmap::lemma_filter_push(prefix, wv, listable_filter());
        }
        let w = &response.instances[i];
        let decodable = match crate::wire::decode_status(w.status) {
            Ok(_) => w.created_at >= 0,
            Err(_) => false,
        };
        if decodable {
            match metadata_from_wire(w) {
                Ok(m) => {
                    proof {
                        assert(listable(wv));
                    }
                    r.push(m);
                },
                Err(_) => {
                    proof {
                        assert(false);
                    }
                },
            }
        } else {
            proof {
                assert(!listable(wv));
            }
        }
    }
    proof {
        assert(response.instances@.subrange(0, n as int) =~= response.instances@);
    }
    r
}

/// Decode a query response from the owning node: a logical failure keeps its
/// error code, a missing record is not found, an unrecognized status or a
/// negative creation time is a validation error.
pub fn decode_query_response(
    response: wire::QueryInstanceResponse,
    instance_id: &str,
) -> (r: Result<crate::types::InstanceStatusResponse, ControlPlaneError>)
    ensures
        r is Ok <==> response.success && (response.instance matches Some(w) && status_from_code(
            w.status,
        ) is Some && w.created_at >= 0),
        r matches Ok(resp) ==> response.instance matches Some(w) && resp.instance_id@
            == w.instance_id@ && resp.node_id@ == w.node_id@ && resp.created_at == w.created_at
            && status_from_code(w.status) == Some(resp.status),
        r matches Err(e) ==> (if !response.success {
            e is WasmRuntimeError
        } else if response.instance is None {
            e is InstanceNotFound
        } else {
            e is ValidationError
        }),
{
    if !response.success {
        let code = match response.error_code {
            Some(c) => c,
            None => String::from_str("QUERY_FAILED"),
        };
        return Err(ControlPlaneError::WasmRuntimeError(code));
    }
    let w = match response.instance {
        Some(w) => w,
        None => {
            return Err(ControlPlaneError::InstanceNotFound(String::from_str(instance_id)));
        },
    };
    let status = match crate::wire::decode_status(w.status) {
        Ok(s) => s,
        Err(_) => {
            return Err(
                ControlPlaneError::ValidationError(String::from_str("invalid instance status")),
            );
        },
    };
    if w.created_at < 0 {
        return Err(
            ControlPlaneError::ValidationError(
                String::from_str("invalid creation timestamp"),
            ),
        );
    }
    Ok(
        crate::types::InstanceStatusResponse {
            instance_id: w.instance_id,
            status,
            node_id: w.node_id,
            created_at: w.created_at,
        },
    )
}

} // verus!
