//! Instance-management service over a plain metadata repository: module
//! validation with the size cap, lifecycle status changes, queries.

use vstd::prelude::*;

use crate::error::ControlPlaneError;
use crate::external::{md5_hex, md5_hex_of};
use crate::strmap::StrMap;
use crate::types::{
    check_wasm_magic, valid_wasm_module, InstanceMetadata, InstanceStatus, InstanceStatusResponse,
    MetadataView, QueryInstanceRequest, StartInstanceRequest, StopInstanceRequest,
};

verus! {

/// The largest module the control plane accepts: 10 MiB.
pub const MAX_MODULE_BYTES: usize = 10485760;

/// A module the service accepts: well-formed Wasm within the size cap.
pub open spec fn acceptable_module(bytes: Seq<u8>) -> bool {
    valid_wasm_module(bytes) && bytes.len() <= MAX_MODULE_BYTES
}

/// In-memory instance metadata repository, keyed by instance id.
pub struct InMemoryInstanceRepository {
    storage: StrMap<InstanceMetadata>,
}

impl InMemoryInstanceRepository {
    pub closed spec fn wf(&self) -> bool {
        self.storage.wf() && forall|k: Seq<char>| self.storage@.contains_key(k)
            ==> (#[trigger] self.storage@[k])@.instance_id == k
    }

    pub closed spec fn store(&self) -> Map<Seq<char>, MetadataView> {
        Map::new(
            |k: Seq<char>| self.storage@.contains_key(k),
            |k: Seq<char>| self.storage@[k]@,
        )
    }

    pub fn new() -> (r: Self)
        ensures
            r.wf(),
            r.store() =~= Map::<Seq<char>, MetadataView>::empty(),
    {
        InMemoryInstanceRepository { storage: StrMap::new() }
    }

    /// Store metadata under its own instance id.
    pub fn create(&mut self, metadata: InstanceMetadata) -> (r: Result<(), ControlPlaneError>)
        requires
            old(self).wf(),
        ensures
            final(self).wf(),
            r is Ok,
            final(self).store() =~= old(self).store().insert(metadata@.instance_id, metadata@),
    {
        let key = metadata.instance_id.clone();
        self.storage.insert(key, metadata);
        Ok(())
    }

    pub fn get(&self, instance_id: &str) -> (r: Result<Option<InstanceMetadata>, ControlPlaneError>)
        requires
            self.wf(),
        ensures
            r matches Ok(o) && (match o {
                Some(m) => self.store().contains_key(instance_id@) && m@
                    == self.store()[instance_id@],
                None => !self.store().contains_key(instance_id@),
            }),
    {
        match self.storage.get(instance_id) {
            Some(m) => Ok(Some(m.clone())),
            None => Ok(None),
        }
    }

    /// Set the status of a known instance; unknown ids are not found.
    pub fn update_status(&mut self, instance_id: &str, status: InstanceStatus) -> (r: Result<
        (),
        ControlPlaneError,
    >)
        requires
            old(self).wf(),
        ensures
            final(self).wf(),
            r is Ok <==> old(self).store().contains_key(instance_id@),
            r matches Err(e) ==> e is InstanceNotFound && final(self).store() == old(self).store(),
            r is Ok ==> final(self).store() =~= old(self).store().insert(
                instance_id@,
                crate::control_plane::with_status(old(self).store()[instance_id@], status),
            ),
    {
        let metadata = match self.storage.get(instance_id) {
            Some(m) => m.clone(),
            None => {
                return Err(ControlPlaneError::InstanceNotFound(String::from_str(instance_id)));
            },
        };
        let updated = InstanceMetadata {
            instance_id: metadata.instance_id,
            node_id: metadata.node_id,
            module_hash: metadata.module_hash,
            created_at: metadata.created_at,
            status,
        };
        self.storage.insert(String::from_str(instance_id), updated);
        Ok(())
    }

    /// Drop the instance, returning whether it existed.
    pub fn delete(&mut self, instance_id: &str) -> (r: Result<bool, ControlPlaneError>)
        requires
            old(self).wf(),
        ensures
            final(self).wf(),
            r matches Ok(b) && b == old(self).store().contains_key(instance_id@),
            final(self).store() =~= old(self).store().remove(instance_id@),
    {
        match self.storage.remove(instance_id) {
            Some(_) => Ok(true),
            None => Ok(false),
        }
    }

    /// All stored records.
    pub fn list(&self) -> (r: Result<Vec<InstanceMetadata>, ControlPlaneError>)
        requires
            self.wf(),
        ensures
            r matches Ok(v) && {
                &&& v@.len() == self.store().dom().len()
                &&& forall|i: int| 0 <= i < v@.len() ==> self.store().contains_key(
                    (#[trigger] v@[i])@.instance_id,
                ) && self.store()[v@[i]@.instance_id] == v@[i]@
            },
    {
        let vs = self.storage.values();
        proof {
            assert(self.store().dom() =~= self.storage@.dom());
            assert forall|i: int| 0 <= i < vs@.len() implies self.store().contains_key(
                (#[trigger] vs@[i])@.instance_id,
            ) && self.store()[vs@[i]@.instance_id] == vs@[i]@ by {
                assert(cloned::<InstanceMetadata>(self.storage.val_seq()[i], vs@[i]));
                assert(vs@[i] == self.storage.val_seq()[i]);
                let k = self.storage.key_at(i);
                assert(self.storage@[k] == self.storage.val_seq()[i]);
                assert(self.storage@[k]@.instance_id == k);
            }
        }
        Ok(vs)
    }

    pub fn contains(&self, instance_id: &str) -> (r: Result<bool, ControlPlaneError>)
        requires
            self.wf(),
        ensures
            r matches Ok(b) && b == self.store().contains_key(instance_id@),
    {
        Ok(self.storage.contains_key(instance_id))
    }
}

/// Service for managing instances over the repository.
pub struct InstanceService {
    repo: InMemoryInstanceRepository,
    node_id: String,
}

impl InstanceService {
    pub closed spec fn wf(&self) -> bool {
        self.repo.wf()
    }

    pub closed spec fn store(&self) -> Map<Seq<char>, MetadataView> {
        self.repo.store()
    }

    pub closed spec fn node_id_view(&self) -> Seq<char> {
        self.node_id@
    }

    pub fn new(repo: InMemoryInstanceRepository, node_id: &str) -> (r: Self)
        requires
            repo.wf(),
        ensures
            r.wf(),
            r.store() == repo.store(),
            r.node_id_view() == node_id@,
    {
        InstanceService { repo, node_id: String::from_str(node_id) }
    }

    /// Accept exactly the modules that are well-formed Wasm within the
    /// 10 MiB cap; an oversized module is resource exhaustion, a malformed
    /// one a validation error.
    pub fn validate_wasm_module(module_bytes: &Vec<u8>) -> (r: Result<(), ControlPlaneError>)
        ensures
            r is Ok <==> acceptable_module(module_bytes@),
            r matches Err(e) ==> (if valid_wasm_module(module_bytes@) {
                e is ResourceExhausted
            } else {
                e is ValidationError
            }),
    {
        if module_bytes.is_empty() {
            return Err(
                ControlPlaneError::ValidationError(
                    String::from_str("Module bytes cannot be empty"),
                ),
            );
        }
        if !check_wasm_magic(module_bytes) {
            return Err(
                ControlPlaneError::ValidationError(String::from_str("Invalid Wasm module format")),
            );
        }
        if module_bytes.len() > MAX_MODULE_BYTES {
            return Err(
                ControlPlaneError::ResourceExhausted(
                    String::from_str("Module size exceeds 10MB limit"),
                ),
            );
        }
        Ok(())
    }

    /// Validate the module, create metadata with a fresh id and status
    /// `Starting`, and store it; returns the new id.
    pub fn start_instance(&mut self, request: StartInstanceRequest) -> (r: Result<
        String,
        ControlPlaneError,
    >)
        requires
            old(self).wf(),
        ensures
            final(self).wf(),
            final(self).node_id_view() == old(self).node_id_view(),
            r is Ok <==> acceptable_module(request.module_bytes@),
            r matches Err(e) ==> final(self).store() == old(self).store() && (
            e is ResourceExhausted || e is ValidationError),
            r matches Ok(id) ==> {
                &&& id@.len() == 36
                &&& final(self).store() =~= old(self).store().insert(
                    id@,
                    final(self).store()[id@],
                )
                &&& final(self).store().contains_key(id@)
                &&& final(self).store()[id@].instance_id == id@
                &&& final(self).store()[id@].node_id == old(self).node_id_view()
                &&& final(self).store()[id@].module_hash == md5_hex_of(request.module_bytes@)
                &&& final(self).store()[id@].status == InstanceStatus::Starting
            },
    {
        if let Err(e) = Self::validate_wasm_module(&request.module_bytes) {
            return Err(e);
        }
        let metadata = InstanceMetadata::new(self.node_id.clone(), md5_hex(&request.module_bytes));
        let instance_id = metadata.instance_id.clone();
        match self.repo.create(metadata) {
            Ok(()) => Ok(instance_id),
            Err(e) => Err(e),
        }
    }

    /// Mark a known instance `Stopped`; empty ids are invalid, unknown ones
    /// not found.
    pub fn stop_instance(&mut self, request: StopInstanceRequest) -> (r: Result<
        (),
        ControlPlaneError,
    >)
        requires
            old(self).wf(),
        ensures
            final(self).wf(),
            final(self).node_id_view() == old(self).node_id_view(),
            r is Ok <==> request.instance_id@.len() > 0 && old(self).store().contains_key(
                request.instance_id@,
            ),
            r matches Err(e) ==> final(self).store() == old(self).store() && (
            if request.instance_id@.len() == 0 {
                e is ValidationError
            } else {
                e is InstanceNotFound
            }),
            r is Ok ==> final(self).store() =~= old(self).store().insert(
                request.instance_id@,
                crate::control_plane::with_status(
                    old(self).store()[request.instance_id@],
                    InstanceStatus::Stopped,
                ),
            ),
    {
        if request.instance_id.as_str().is_empty() {
            return Err(
                ControlPlaneError::ValidationError(String::from_str("Instance ID cannot be empty")),
            );
        }
        self.repo.update_status(request.instance_id.as_str(), InstanceStatus::Stopped)
    }

    /// The status view of a known instance.
    pub fn query_instance(&self, request: QueryInstanceRequest) -> (r: Result<
        InstanceStatusResponse,
        ControlPlaneError,
    >)
        requires
            self.wf(),
        ensures
            r is Ok <==> request.instance_id@.len() > 0 && self.store().contains_key(
                request.instance_id@,
            ),
            r matches Ok(resp) ==> {
                let m = self.store()[request.instance_id@];
                resp.instance_id@ == m.instance_id && resp.status == m.status && resp.node_id@
                    == m.node_id && resp.created_at == m.created_at
            },
            r matches Err(e) ==> (if request.instance_id@.len() == 0 {
                e is ValidationError
            } else {
                e is InstanceNotFound
            }),
    {
        if request.instance_id.as_str().is_empty() {
            return Err(
                ControlPlaneError::ValidationError(String::from_str("Instance ID cannot be empty")),
            );
        }
        let metadata = match self.repo.get(request.instance_id.as_str()) {
            Ok(Some(m)) => m,
            Ok(None) => {
                return Err(
                    ControlPlaneError::InstanceNotFound(
                        String::from_str("instance not found"),
                    ),
                );
            },
            Err(e) => {
                return Err(e);
            },
        };
        Ok(
            InstanceStatusResponse {
                instance_id: metadata.instance_id,
                status: metadata.status,
                node_id: metadata.node_id,
                created_at: metadata.created_at,
            },
        )
    }

    /// All stored records.
    pub fn list_instances(&self) -> (r: Result<Vec<InstanceMetadata>, ControlPlaneError>)
        requires
            self.wf(),
        ensures
            r matches Ok(v) && {
                &&& v@.len() == self.store().dom().len()
                &&& forall|i: int| 0 <= i < v@.len() ==> self.store().contains_key(
                    (#[trigger] v@[i])@.instance_id,
                ) && self.store()[v@[i]@.instance_id] == v@[i]@
            },
    {
        self.repo.list()
    }

    /// Set a known instance's status, as reported by its node.
    pub fn update_status(&mut self, instance_id: &str, status: InstanceStatus) -> (r: Result<
        (),
        ControlPlaneError,
    >)
        requires
            old(self).wf(),
        ensures
            final(self).wf(),
            final(self).node_id_view() == old(self).node_id_view(),
            r is Ok <==> old(self).store().contains_key(instance_id@),
            r matches Err(e) ==> e is InstanceNotFound && final(self).store() == old(self).store(),
            r is Ok ==> final(self).store() =~= old(self).store().insert(
                instance_id@,
                crate::control_plane::with_status(old(self).store()[instance_id@], status),
            ),
    {
        self.repo.update_status(instance_id, status)
    }
}

} // verus!
