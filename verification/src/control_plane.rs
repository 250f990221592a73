//! Control-plane instance store: authoritative record of actual instance
//! state, capability bindings, crash markers and the event log.

use vstd::prelude::*;

use crate::capability::without_capability;
use crate::events::{by_instance, EventView, ExecutionEvent, ExecutionEventRecorder};
use crate::external::{md5_hex, md5_hex_of, now_unix_seconds};
use crate::policy::CrashInfo;
use crate::strmap::{lemma_filter_push, str_eq, StrMap};
use crate::types::{
    AssignmentView, CapabilityAssignment, CoreError, ErrorResponse, InstanceMetadata,
    InstanceStatus, MetadataView, QueryInstanceRequest, StartInstanceRequest, StopInstanceRequest,
    InstanceStatusResponse, valid_wasm_module, check_wasm_magic,
};

verus! {

/// The same metadata with another status.
pub open spec fn with_status(m: MetadataView, status: InstanceStatus) -> MetadataView {
    MetadataView {
        instance_id: m.instance_id,
        node_id: m.node_id,
        module_hash: m.module_hash,
        created_at: m.created_at,
        status,
    }
}

/// Error context for crash recovery logging.
#[derive(Debug)]
pub struct CrashContext {
    pub instance_id: String,
    pub error: String,
    /// Time the crash was observed, unix seconds.
    pub timestamp: i64,
}

impl CrashContext {
    pub fn new(instance_id: &str, error: &str) -> (r: Self)
        ensures
            r.instance_id@ == instance_id@,
            r.error@ == error@,
            r.timestamp >= 0,
    {
        CrashContext {
            instance_id: String::from_str(instance_id),
            error: String::from_str(error),
            timestamp: now_unix_seconds(),
        }
    }
}

pub struct ControlPlane {
    instances: StrMap<InstanceMetadata>,
    crashed_instances: StrMap<i64>,
    capabilities: StrMap<Vec<CapabilityAssignment>>,
    crash_history: StrMap<CrashInfo>,
    event_recorder: ExecutionEventRecorder,
    node_id: String,
}

impl ControlPlane {
    pub closed spec fn wf(&self) -> bool {
        &&& self.instances.wf()
        &&& self.crashed_instances.wf()
        &&& self.capabilities.wf()
        &&& self.crash_history.wf()
        &&& self.event_recorder.wf()
        &&& forall|k: Seq<char>| self.instances@.contains_key(k)
            ==> (#[trigger] self.instances@[k])@.instance_id == k
    }

    /// The stored instance metadata, keyed by instance id.
    pub closed spec fn instances_map(&self) -> Map<Seq<char>, MetadataView> {
        Map::new(
            |k: Seq<char>| self.instances@.contains_key(k),
            |k: Seq<char>| self.instances@[k]@,
        )
    }

    /// The ids currently marked crashed.
    pub closed spec fn crashed(&self) -> Set<Seq<char>> {
        self.crashed_instances@.dom()
    }

    /// The capability bindings, keyed by instance id.
    pub closed spec fn capabilities_map(&self) -> Map<Seq<char>, Seq<AssignmentView>> {
        Map::new(
            |k: Seq<char>| self.capabilities@.contains_key(k),
            |k: Seq<char>| self.capabilities@[k].deep_view(),
        )
    }

    /// The crash history, keyed by instance id.
    pub closed spec fn crash_history_map(&self) -> Map<Seq<char>, CrashInfo> {
        self.crash_history@
    }

    /// The event log.
    pub closed spec fn log(&self) -> Seq<EventView> {
        self.event_recorder.log()
    }

    pub closed spec fn node_id_view(&self) -> Seq<char> {
        self.node_id@
    }

    /// Every instance record is keyed by its own id.
    pub proof fn lemma_keyed_by_id(&self)
        requires
            self.wf(),
        ensures
            forall|k: Seq<char>| self.instances_map().contains_key(k)
                ==> (#[trigger] self.instances_map()[k]).instance_id == k,
    {
    }

    pub fn new(node_id: &str) -> (r: Self)
        ensures
            r.wf(),
            r.node_id_view() == node_id@,
            r.instances_map() =~= Map::<Seq<char>, MetadataView>::empty(),
            r.crashed() =~= Set::<Seq<char>>::empty(),
            r.capabilities_map() =~= Map::<Seq<char>, Seq<AssignmentView>>::empty(),
            r.crash_history_map() =~= Map::<Seq<char>, CrashInfo>::empty(),
            r.log() =~= Seq::<EventView>::empty(),
    {
        ControlPlane {
            instances: StrMap::new(),
            crashed_instances: StrMap::new(),
            capabilities: StrMap::new(),
            crash_history: StrMap::new(),
            event_recorder: ExecutionEventRecorder::new(),
            node_id: String::from_str(node_id),
        }
    }

    /// Validate the module bytes, create metadata with status `Starting`,
    /// store it, and store the capability bindings when any are given.
    pub fn start_instance(&mut self, request: StartInstanceRequest) -> (r: Result<
        String,
        ErrorResponse,
    >)
        requires
            old(self).wf(),
        ensures
            final(self).wf(),
            final(self).node_id_view() == old(self).node_id_view(),
            final(self).crashed() == old(self).crashed(),
            final(self).crash_history_map() == old(self).crash_history_map(),
            final(self).log() == old(self).log(),
            r is Ok <==> valid_wasm_module(request.module_bytes@),
            r matches Err(e) ==> e.error_code@ == "INVALID_REQUEST"@ && final(self).instances_map()
                == old(self).instances_map() && final(self).capabilities_map() == old(self).capabilities_map(),
            r matches Ok(id) ==> {
                &&& id@.len() == 36
                &&& final(self).instances_map() =~= old(self).instances_map().insert(
                    id@,
                    final(self).instances_map()[id@],
                )
                &&& final(self).instances_map().contains_key(id@)
                &&& final(self).instances_map()[id@].instance_id == id@
                &&& final(self).instances_map()[id@].node_id == old(self).node_id_view()
                &&& final(self).instances_map()[id@].module_hash == md5_hex_of(
                    request.module_bytes@,
                )
                &&& final(self).instances_map()[id@].status == InstanceStatus::Starting
                &&& final(self).capabilities_map() =~~= if request.capabilities@.len() > 0 {
                    old(self).capabilities_map().insert(id@, request.capabilities.deep_view())
                } else {
                    old(self).capabilities_map()
                }
            },
    {
        if request.module_bytes.is_empty() {
            return Err(ErrorResponse::new("INVALID_REQUEST", "Module bytes cannot be empty"));
        }
        if !check_wasm_magic(&request.module_bytes) {
            return Err(ErrorResponse::new("INVALID_REQUEST", "Invalid Wasm module format"));
        }
        let metadata = InstanceMetadata::new(self.node_id.clone(), md5_hex(&request.module_bytes));
        let instance_id = metadata.instance_id.clone();
        self.instances.insert(instance_id.clone(), metadata);
        proof {
            assert(self.instances_map() =~= old(self).instances_map().insert(
                instance_id@,
                self.instances_map()[instance_id@],
            ));
        }
        if !request.capabilities.is_empty() {
            let ghost caps_view = request.capabilities.deep_view();
            self.capabilities.insert(instance_id.clone(), request.capabilities);
            proof {
                assert(self.capabilities_map() =~~= old(self).capabilities_map().insert(
                    instance_id@,
                    caps_view,
                ));
            }
        } else {
            proof {
                assert(self.capabilities_map() =~~= old(self).capabilities_map());
            }
        }
        Ok(instance_id)
    }

    /// Set the stored status of a known instance.
    fn set_status(&mut self, instance_id: &str, status: InstanceStatus)
        requires
            old(self).wf(),
            old(self).instances_map().contains_key(instance_id@),
        ensures
            final(self).wf(),
            final(self).node_id_view() == old(self).node_id_view(),
            final(self).crashed() == old(self).crashed(),
            final(self).capabilities_map() == old(self).capabilities_map(),
            final(self).crash_history_map() == old(self).crash_history_map(),
            final(self).log() == old(self).log(),
            final(self).instances_map() =~= old(self).instances_map().insert(
                instance_id@,
                with_status(old(self).instances_map()[instance_id@], status),
            ),
    {
        let metadata = match self.instances.get(instance_id) {
            Some(m) => m.clone(),
            None => {
                proof {
                    assert(false);
                }
                unreached()
            },
        };
        let updated = InstanceMetadata {
            instance_id: metadata.instance_id,
            node_id: metadata.node_id,
            module_hash: metadata.module_hash,
            created_at: metadata.created_at,
            status,
        };
        self.instances.insert(String::from_str(instance_id), updated);
        proof {
            assert(self.instances_map() =~= old(self).instances_map().insert(
                instance_id@,
                with_status(old(self).instances_map()[instance_id@], status),
            ));
            assert(self.capabilities_map() =~= old(self).capabilities_map());
        }
    }

    /// Mark a known instance `Stopped`. The id must be non-empty and known.
    pub fn stop_instance(&mut self, request: StopInstanceRequest) -> (r: Result<(), ErrorResponse>)
        requires
            old(self).wf(),
        ensures
            final(self).wf(),
            final(self).node_id_view() == old(self).node_id_view(),
            final(self).crashed() == old(self).crashed(),
            final(self).capabilities_map() == old(self).capabilities_map(),
            final(self).crash_history_map() == old(self).crash_history_map(),
            final(self).log() == old(self).log(),
            r is Ok <==> request.instance_id@.len() > 0 && old(self).instances_map().contains_key(
                request.instance_id@,
            ),
            r is Ok ==> final(self).instances_map() =~= old(self).instances_map().insert(
                request.instance_id@,
                with_status(
                    old(self).instances_map()[request.instance_id@],
                    InstanceStatus::Stopped,
                ),
            ),
            r matches Err(e) ==> final(self).instances_map() == old(self).instances_map() && (
            if request.instance_id@.len() == 0 {
                e.error_code@ == "INVALID_REQUEST"@
            } else {
                e.error_code@ == "INSTANCE_NOT_FOUND"@
            }),
    {
        if request.instance_id.as_str().is_empty() {
            return Err(ErrorResponse::new("INVALID_REQUEST", "Instance ID cannot be empty"));
        }
        if !self.instances.contains_key(request.instance_id.as_str()) {
            return Err(ErrorResponse::new("INSTANCE_NOT_FOUND", "Instance not found"));
        }
        self.set_status(request.instance_id.as_str(), InstanceStatus::Stopped);
        Ok(())
    }

    /// The metadata view of a known instance.
    pub fn query_instance(&self, request: QueryInstanceRequest) -> (r: Result<
        InstanceStatusResponse,
        ErrorResponse,
    >)
        requires
            self.wf(),
        ensures
            r is Ok <==> request.instance_id@.len() > 0 && self.instances_map().contains_key(
                request.instance_id@,
            ),
            r matches Ok(resp) ==> {
                let m = self.instances_map()[request.instance_id@];
                resp.instance_id@ == m.instance_id && resp.status == m.status && resp.node_id@
                    == m.node_id && resp.created_at == m.created_at
            },
            r matches Err(e) ==> (if request.instance_id@.len() == 0 {
                e.error_code@ == "INVALID_REQUEST"@
            } else {
                e.error_code@ == "INSTANCE_NOT_FOUND"@
            }),
    {
        if request.instance_id.as_str().is_empty() {
            return Err(ErrorResponse::new("INVALID_REQUEST", "Instance ID cannot be empty"));
        }
        match self.instances.get(request.instance_id.as_str()) {
            Some(m) => Ok(
                InstanceStatusResponse {
                    instance_id: m.instance_id.clone(),
                    status: m.status,
                    node_id: m.node_id.clone(),
                    created_at: m.created_at,
                },
            ),
            None => Err(ErrorResponse::new("INSTANCE_NOT_FOUND", "Instance not found")),
        }
    }

    /// Bind a capability to a known instance: the assignment is appended to
    /// the instance's list.
    pub fn assign_capability(&mut self, assignment: CapabilityAssignment) -> (r: Result<
        (),
        ErrorResponse,
    >)
        requires
            old(self).wf(),
        ensures
            final(self).wf(),
            final(self).node_id_view() == old(self).node_id_view(),
            final(self).instances_map() == old(self).instances_map(),
            final(self).crashed() == old(self).crashed(),
            final(self).crash_history_map() == old(self).crash_history_map(),
            final(self).log() == old(self).log(),
            r is Ok <==> old(self).instances_map().contains_key(assignment@.instance_id)
                && assignment@.capability_id.len() > 0 && assignment@.permissions.len() > 0,
            r is Ok ==> final(self).capabilities_map() =~~= old(self).capabilities_map().insert(
                assignment@.instance_id,
                if old(self).capabilities_map().contains_key(assignment@.instance_id) {
                    old(self).capabilities_map()[assignment@.instance_id].push(assignment@)
                } else {
                    seq![assignment@]
                },
            ),
            r matches Err(e) ==> final(self).capabilities_map() == old(self).capabilities_map()
                && (if !old(self).instances_map().contains_key(assignment@.instance_id) {
                e.error_code@ == "INSTANCE_NOT_FOUND"@
            } else {
                e.error_code@ == "INVALID_REQUEST"@
            }),
    {
        if !self.instances.contains_key(assignment.instance_id.as_str()) {
            return Err(ErrorResponse::new("INSTANCE_NOT_FOUND", "Instance not found"));
        }
        if assignment.capability_id.as_str().is_empty() {
            return Err(ErrorResponse::new("INVALID_REQUEST", "Capability ID cannot be empty"));
        }
        if assignment.permissions.len() == 0 {
            return Err(
                ErrorResponse::new("INVALID_REQUEST", "At least one permission must be specified"),
            );
        }
        let key = assignment.instance_id.clone();
        let ghost a_view = assignment@;
        let mut list = match self.capabilities.remove(key.as_str()) {
            Some(v) => v,
            None => Vec::new(),
        };
        let ghost list0 = list.deep_view();
        list.push(assignment);
        proof {
            assert(list.deep_view() =~= list0.push(a_view));
        }
        self.capabilities.insert(key, list);
        proof {
            assert(self.capabilities_map() =~~= old(self).capabilities_map().insert(
                a_view.instance_id,
                if old(self).capabilities_map().contains_key(a_view.instance_id) {
                    old(self).capabilities_map()[a_view.instance_id].push(a_view)
                } else {
                    seq![a_view]
                },
            ));
            assert(self.instances_map() =~= old(self).instances_map());
        }
        Ok(())
    }

    /// Remove the instance's assignments with the given capability id; the
    /// entry disappears entirely when none are left.
    pub fn revoke_capability(&mut self, instance_id: &str, capability_id: &str) -> (r: Result<
        (),
        ErrorResponse,
    >)
        requires
            old(self).wf(),
        ensures
            final(self).wf(),
            final(self).node_id_view() == old(self).node_id_view(),
            final(self).instances_map() == old(self).instances_map(),
            final(self).crashed() == old(self).crashed(),
            final(self).crash_history_map() == old(self).crash_history_map(),
            final(self).log() == old(self).log(),
            r is Ok <==> instance_id@.len() > 0 && capability_id@.len() > 0 && old(self).capabilities_map().contains_key(instance_id@),
            r is Ok ==> final(self).capabilities_map() =~~= {
                let kept = old(self).capabilities_map()[instance_id@].filter(
                    without_capability(capability_id@),
                );
                if kept.len() == 0 {
                    old(self).capabilities_map().remove(instance_id@)
                } else {
                    old(self).capabilities_map().insert(instance_id@, kept)
                }
            },
            r matches Err(e) ==> final(self).capabilities_map() == old(self).capabilities_map()
                && (if instance_id@.len() == 0 || capability_id@.len() == 0 {
                e.error_code@ == "INVALID_REQUEST"@
            } else {
                e.error_code@ == "INSTANCE_NOT_FOUND"@
            }),
    {
        if instance_id.is_empty() {
            return Err(ErrorResponse::new("INVALID_REQUEST", "Instance ID cannot be empty"));
        }
        if capability_id.is_empty() {
            return Err(ErrorResponse::new("INVALID_REQUEST", "Capability ID cannot be empty"));
        }
        let list = match self.capabilities.remove(instance_id) {
            Some(v) => v,
            None => {
                proof {
                    assert(self.capabilities_map() =~~= old(self).capabilities_map());
                }
                return Err(
                    ErrorResponse::new(
                        "INSTANCE_NOT_FOUND",
                        "Instance has no capability assignments",
                    ),
                );
            },
        };
        let n = list.len();
        let mut kept: Vec<CapabilityAssignment> = Vec::new();
        for i in 0..n
            invariant
                n == list@.len(),
                kept.deep_view() =~= list.deep_view().subrange(0, i as int).filter(
                    without_capability(capability_id@),
                ),
        {
            let ghost prefix = list.deep_view().subrange(0, i as int);
            let ghost av = list.deep_view()[i as int];
            proof {
                assert(list.deep_view().subrange(0, i + 1) =~= prefix.push(av));
                lemma_filter_push(prefix, av, without_capability(capability_id@));
            }
            let ghost kept0 = kept.deep_view();
            let matched = str_eq(list[i].capability_id.as_str(), capability_id);
            if !matched {
                let a = list[i].clone();
                proof {
                    assert(a@ == av);
                }
                kept.push(a);
                proof {
                    assert(kept.deep_view() =~= kept0.push(av));
                }
            }
            proof {
                assert(matched == !without_capability(capability_id@)(av));
                assert(kept.deep_view() =~= list.deep_view().subrange(0, i + 1).filter(
                    without_capability(capability_id@),
                ));
            }
        }
        proof {
            assert(list.deep_view().subrange(0, n as int) =~= list.deep_view());
        }
        let kept_empty = kept.is_empty();
        if !kept_empty {
            let ghost kept_view = kept.deep_view();
            self.capabilities.insert(String::from_str(instance_id), kept);
            proof {
                assert(self.capabilities_map() =~~= old(self).capabilities_map().insert(
                    instance_id@,
                    kept_view,
                ));
            }
        } else {
            proof {
                assert(self.capabilities_map() =~~= old(self).capabilities_map().remove(
                    instance_id@,
                ));
            }
        }
        proof {
            assert(self.instances_map() =~= old(self).instances_map());
        }
        Ok(())
    }

    /// All stored instance records.
    pub fn list_instances(&self) -> (r: Vec<InstanceMetadata>)
        requires
            self.wf(),
        ensures
            r@.len() == self.instances_map().dom().len(),
            forall|i: int| 0 <= i < r@.len() ==> self.instances_map().contains_key(
                (#[trigger] r@[i])@.instance_id,
            ) && self.instances_map()[r@[i]@.instance_id] == r@[i]@,
            forall|k: Seq<char>| self.instances_map().contains_key(k) ==> exists|i: int|
                0 <= i < r@.len() && (#[trigger] r@[i])@.instance_id == k,
    {
        let vs = self.instances.values();
        proof {
            assert(self.instances_map().dom() =~= self.instances@.dom());
            assert forall|i: int| 0 <= i < vs@.len() implies self.instances_map().contains_key(
                (#[trigger] vs@[i])@.instance_id,
            ) && self.instances_map()[vs@[i]@.instance_id] == vs@[i]@ by {
                assert(cloned::<InstanceMetadata>(self.instances.val_seq()[i], vs@[i]));
                assert(vs@[i] == self.instances.val_seq()[i]);
                let k = self.instances.key_at(i);
                assert(self.instances@[k] == self.instances.val_seq()[i]);
                assert(self.instances@[k]@.instance_id == k);
            }
            assert forall|k: Seq<char>| self.instances_map().contains_key(k) implies exists|i: int|
                0 <= i < vs@.len() && (#[trigger] vs@[i])@.instance_id == k by {
                let i = choose|i: int|
                    0 <= i < vs@.len() && #[trigger] self.instances.key_at(i) == k;
                assert(cloned::<InstanceMetadata>(self.instances.val_seq()[i], vs@[i]));
                assert(vs@[i] == self.instances.val_seq()[i]);
                assert(vs@[i]@.instance_id == k);
            }
        }
        vs
    }

    /// The capability bindings of one instance, if any.
    pub fn get_capabilities(&self, instance_id: &str) -> (r: Option<&Vec<CapabilityAssignment>>)
        requires
            self.wf(),
        ensures
            match r {
                Some(v) => self.capabilities_map().contains_key(instance_id@) && v.deep_view()
                    == self.capabilities_map()[instance_id@],
                None => !self.capabilities_map().contains_key(instance_id@),
            },
    {
        self.capabilities.get(instance_id)
    }

    /// The stored metadata of one instance, if any.
    pub fn get_instance(&self, instance_id: &str) -> (r: Option<&InstanceMetadata>)
        requires
            self.wf(),
        ensures
            match r {
                Some(m) => self.instances_map().contains_key(instance_id@) && m@
                    == self.instances_map()[instance_id@],
                None => !self.instances_map().contains_key(instance_id@),
            },
    {
        self.instances.get(instance_id)
    }

    /// Overwrite an instance's record with recovered metadata. Empty
    /// capabilities clear any prior bindings for that id.
    pub fn restore_instance_state(
        &mut self,
        metadata: InstanceMetadata,
        capabilities: Vec<CapabilityAssignment>,
    )
        requires
            old(self).wf(),
        ensures
            final(self).wf(),
            final(self).node_id_view() == old(self).node_id_view(),
            final(self).crashed() == old(self).crashed(),
            final(self).crash_history_map() == old(self).crash_history_map(),
            final(self).log() == old(self).log(),
            final(self).instances_map() =~= old(self).instances_map().insert(
                metadata@.instance_id,
                metadata@,
            ),
            final(self).capabilities_map() =~~= if capabilities@.len() == 0 {
                old(self).capabilities_map().remove(metadata@.instance_id)
            } else {
                old(self).capabilities_map().insert(
                    metadata@.instance_id,
                    capabilities.deep_view(),
                )
            },
    {
        let ghost meta_view = metadata@;
        let instance_id = metadata.instance_id.clone();
        self.instances.insert(instance_id.clone(), metadata);
        if capabilities.is_empty() {
            let _ = self.capabilities.remove(instance_id.as_str());
            proof {
                assert(self.capabilities_map() =~~= old(self).capabilities_map().remove(
                    meta_view.instance_id,
                ));
            }
        } else {
            let ghost caps_view = capabilities.deep_view();
            self.capabilities.insert(instance_id, capabilities);
            proof {
                assert(self.capabilities_map() =~~= old(self).capabilities_map().insert(
                    meta_view.instance_id,
                    caps_view,
                ));
            }
        }
        proof {
            assert(self.instances_map() =~= old(self).instances_map().insert(
                meta_view.instance_id,
                meta_view,
            ));
        }
    }

    /// Set the stored status of a known instance, as reported by its node.
    pub fn update_instance_status(&mut self, instance_id: &str, status: InstanceStatus) -> (r:
        Result<(), CoreError>)
        requires
            old(self).wf(),
        ensures
            final(self).wf(),
            final(self).node_id_view() == old(self).node_id_view(),
            final(self).crashed() == old(self).crashed(),
            final(self).capabilities_map() == old(self).capabilities_map(),
            final(self).crash_history_map() == old(self).crash_history_map(),
            final(self).log() == old(self).log(),
            r is Ok <==> old(self).instances_map().contains_key(instance_id@),
            r is Ok ==> final(self).instances_map() =~= old(self).instances_map().insert(
                instance_id@,
                with_status(old(self).instances_map()[instance_id@], status),
            ),
            r matches Err(e) ==> e is InvalidInstanceId && final(self).instances_map() == old(self).instances_map(),
    {
        if !self.instances.contains_key(instance_id) {
            return Err(CoreError::InvalidInstanceId(String::from_str(instance_id)));
        }
        self.set_status(instance_id, status);
        Ok(())
    }

    /// Record a crash of a known instance: append `instance_crashed`, set
    /// the crash marker, count the crash, and mark the status `Crashed`.
    pub fn record_instance_crash(&mut self, instance_id: &str, error: &str) -> (r: Result<
        (),
        ErrorResponse,
    >)
        requires
            old(self).wf(),
        ensures
            final(self).wf(),
            final(self).node_id_view() == old(self).node_id_view(),
            final(self).capabilities_map() == old(self).capabilities_map(),
            r is Ok <==> old(self).instances_map().contains_key(instance_id@),
            r matches Err(e) ==> e.error_code@ == "INSTANCE_NOT_FOUND"@ && final(self).instances_map()
                == old(self).instances_map() && final(self).crashed() == old(self).crashed()
                && final(self).crash_history_map() == old(self).crash_history_map() && final(self).log() == old(self).log(),
            r is Ok ==> {
                &&& final(self).instances_map() =~= old(self).instances_map().insert(
                    instance_id@,
                    with_status(old(self).instances_map()[instance_id@], InstanceStatus::Crashed),
                )
                &&& final(self).crashed() =~= old(self).crashed().insert(instance_id@)
                &&& final(self).log().len() == old(self).log().len() + 1
                &&& final(self).log() =~= old(self).log().push(final(self).log().last())
                &&& final(self).log().last().event_type == "instance_crashed"@
                &&& final(self).log().last().instance_id == instance_id@
                &&& final(self).log().last().details matches Some(d) && d.dom() =~= set![
                    "error"@,
                ] && d["error"@] == error@
                &&& final(self).crash_history_map().contains_key(instance_id@)
                &&& final(self).crash_history_map()[instance_id@].crash_count == (if old(self).crash_history_map().contains_key(instance_id@) {
                    let c = old(self).crash_history_map()[instance_id@].crash_count;
                    if c == u32::MAX {
                        c as int
                    } else {
                        c + 1
                    }
                } else {
                    1int
                })
                &&& final(self).crash_history_map() =~= old(self).crash_history_map().insert(
                    instance_id@,
                    final(self).crash_history_map()[instance_id@],
                )
            },
    {
        if !self.instances.contains_key(instance_id) {
            return Err(ErrorResponse::new("INSTANCE_NOT_FOUND", "Instance not found"));
        }
        self.event_recorder.record_crash(instance_id, error);
        self.crashed_instances.insert(String::from_str(instance_id), now_unix_seconds());
        let mut info = match self.crash_history.get(instance_id) {
            Some(c) => *c,
            None => CrashInfo::new(),
        };
        info.record_crash();
        self.crash_history.insert(String::from_str(instance_id), info);
        self.set_status(instance_id, InstanceStatus::Crashed);
        Ok(())
    }

    /// Recover from a crash: clear the crash marker, append
    /// `instance_restarted`, set the status back to `Starting`. Capability
    /// bindings and crash history survive.
    pub fn handle_crash_recovery(&mut self, instance_id: &str) -> (r: Result<(), ErrorResponse>)
        requires
            old(self).wf(),
        ensures
            final(self).wf(),
            final(self).node_id_view() == old(self).node_id_view(),
            final(self).capabilities_map() == old(self).capabilities_map(),
            final(self).crash_history_map() == old(self).crash_history_map(),
            r is Ok <==> old(self).instances_map().contains_key(instance_id@),
            r matches Err(e) ==> e.error_code@ == "INSTANCE_NOT_FOUND"@ && final(self).instances_map()
                == old(self).instances_map() && final(self).crashed() == old(self).crashed()
                && final(self).log() == old(self).log(),
            r is Ok ==> {
                &&& final(self).instances_map() =~= old(self).instances_map().insert(
                    instance_id@,
                    with_status(old(self).instances_map()[instance_id@], InstanceStatus::Starting),
                )
                &&& final(self).instances_map()[instance_id@].instance_id == old(self).instances_map()[instance_id@].instance_id
                &&& final(self).crashed() =~= old(self).crashed().remove(instance_id@)
                &&& final(self).log().len() == old(self).log().len() + 1
                &&& final(self).log() =~= old(self).log().push(final(self).log().last())
                &&& final(self).log().last().event_type == "instance_restarted"@
                &&& final(self).log().last().instance_id == instance_id@
            },
    {
        if !self.instances.contains_key(instance_id) {
            return Err(ErrorResponse::new("INSTANCE_NOT_FOUND", "Instance not found for recovery"));
        }
        let _ = self.crashed_instances.remove(instance_id);
        self.event_recorder.record_restart(instance_id);
        self.set_status(instance_id, InstanceStatus::Starting);
        Ok(())
    }

    /// The crash history of an instance, if it ever crashed.
    pub fn get_crash_info(&self, instance_id: &str) -> (r: Option<CrashInfo>)
        requires
            self.wf(),
        ensures
            match r {
                Some(c) => self.crash_history_map().contains_key(instance_id@) && c
                    == self.crash_history_map()[instance_id@],
                None => !self.crash_history_map().contains_key(instance_id@),
            },
    {
        match self.crash_history.get(instance_id) {
            Some(c) => Some(*c),
            None => None,
        }
    }

    /// Whether the instance is currently marked crashed.
    pub fn is_instance_crashed(&self, instance_id: &str) -> (r: bool)
        requires
            self.wf(),
        ensures
            r == self.crashed().contains(instance_id@),
    {
        self.crashed_instances.contains_key(instance_id)
    }

    /// The full event log.
    pub fn get_execution_events(&self) -> (r: &Vec<ExecutionEvent>)
        ensures
            crate::events::events_view(r@) == self.log(),
    {
        self.event_recorder.get_events()
    }

    /// The events of one instance, in log order.
    pub fn get_execution_events_for_instance(&self, instance_id: &str) -> (r: Vec<ExecutionEvent>)
        ensures
            crate::events::events_view(r@) =~= self.log().filter(by_instance(instance_id@)),
    {
        self.event_recorder.get_events_for_instance(instance_id)
    }
}

/// Request to assign a capability.
#[derive(Debug)]
pub struct AssignCapabilityRequest {
    pub instance_id: String,
    pub capability: CapabilityAssignment,
}

/// Request to revoke a capability.
#[derive(Debug)]
pub struct RevokeCapabilityRequest {
    pub instance_id: String,
    pub capability_id: String,
}

} // verus!
