//! Statelessness guarantees: instances are restart-assumed, and the system
//! persists only minimal metadata, never application state.

use vstd::prelude::*;

use crate::external::now_unix_seconds;
use crate::strmap::str_eq;
use crate::types::{AssignmentView, CapabilityAssignment, CoreError, InstanceMetadata};

verus! {

/// The only fields the system may persist about an instance.
pub open spec fn allowed_field(f: Seq<char>) -> bool {
    f == "instance_id"@ || f == "node_id"@ || f == "module_hash"@ || f == "created_at"@ || f
        == "status"@
}

/// Audit record for verifying statelessness.
#[derive(Debug)]
pub struct StateAudit {
    pub instance_id: String,
    pub stored_fields: Vec<String>,
    pub excluded_fields: Vec<String>,
    /// Time the audit was taken, unix seconds.
    pub timestamp: i64,
}

impl StateAudit {
    pub fn new(instance_id: &str) -> (r: Self)
        ensures
            r.instance_id@ == instance_id@,
            r.stored_fields@.len() == 0,
            r.excluded_fields@.len() == 0,
            r.timestamp >= 0,
    {
        StateAudit {
            instance_id: String::from_str(instance_id),
            stored_fields: Vec::new(),
            excluded_fields: Vec::new(),
            timestamp: now_unix_seconds(),
        }
    }

    /// Accepts exactly the audits whose stored fields all lie in the allowed
    /// metadata vocabulary.
    pub fn verify_minimal_storage(&self) -> (r: Result<(), CoreError>)
        ensures
            r is Ok <==> forall|i: int|
                0 <= i < self.stored_fields.deep_view().len() ==> allowed_field(
                    #[trigger] self.stored_fields.deep_view()[i],
                ),
            r matches Err(e) ==> e is InvalidCapabilityAssignment,
    {
        let n = self.stored_fields.len();
        for i in 0..n
            invariant
                n == self.stored_fields@.len(),
                forall|j: int| 0 <= j < i ==> allowed_field(
                    #[trigger] self.stored_fields.deep_view()[j],
                ),
        {
            let f = self.stored_fields[i].as_str();
            let ok = str_eq(f, "instance_id") || str_eq(f, "node_id") || str_eq(f, "module_hash")
                || str_eq(f, "created_at") || str_eq(f, "status");
            if !ok {
                proof {
                    assert(!allowed_field(self.stored_fields.deep_view()[i as int]));
                }
                return Err(
                    CoreError::InvalidCapabilityAssignment(
                        String::from_str("state violation: field should not be persisted"),
                    ),
                );
            }
            proof {
                assert(allowed_field(self.stored_fields.deep_view()[i as int]));
            }
        }
        Ok(())
    }
}

/// A capability assignment carries no application data: its ids are
/// non-empty and it grants at least one permission.
pub open spec fn assignment_minimal(a: AssignmentView) -> bool {
    a.capability_id.len() > 0 && a.instance_id.len() > 0 && a.permissions.len() > 0
}

/// Policy enforcer for minimal state storage.
pub struct StatelessnessPolicy;

impl StatelessnessPolicy {
    /// Instance metadata holds only system-level fields; every closed-enum
    /// status is an actual runtime state, so any record is acceptable.
    pub fn verify_instance_metadata(metadata: &InstanceMetadata) -> (r: Result<(), CoreError>)
        ensures
            r is Ok,
    {
        let _ = metadata;
        Ok(())
    }

    /// Accepts exactly the lists whose every assignment is minimal.
    pub fn verify_capability_assignments(assignments: &Vec<CapabilityAssignment>) -> (r: Result<
        (),
        CoreError,
    >)
        ensures
            r is Ok <==> forall|i: int|
                0 <= i < assignments.deep_view().len() ==> assignment_minimal(
                    #[trigger] assignments.deep_view()[i],
                ),
            r matches Err(e) ==> e is InvalidCapabilityAssignment,
    {
        let n = assignments.len();
        for i in 0..n
            invariant
                n == assignments@.len(),
                forall|j: int| 0 <= j < i ==> assignment_minimal(
                    #[trigger] assignments.deep_view()[j],
                ),
        {
            let a = &assignments[i];
            if a.capability_id.as_str().is_empty() {
                proof {
                    assert(!assignment_minimal(assignments.deep_view()[i as int]));
                }
                return Err(
                    CoreError::InvalidCapabilityAssignment(
                        String::from_str("empty capability_id in assignment"),
                    ),
                );
            }
            if a.instance_id.as_str().is_empty() {
                proof {
                    assert(!assignment_minimal(assignments.deep_view()[i as int]));
                }
                return Err(
                    CoreError::InvalidCapabilityAssignment(
                        String::from_str("empty instance_id in assignment"),
                    ),
                );
            }
            if a.permissions.len() == 0 {
                proof {
                    assert(!assignment_minimal(assignments.deep_view()[i as int]));
                }
                return Err(
                    CoreError::InvalidCapabilityAssignment(
                        String::from_str("empty permissions in assignment"),
                    ),
                );
            }
            proof {
                assert(assignment_minimal(assignments.deep_view()[i as int]));
            }
        }
        Ok(())
    }

    /// A new-module restart clears instance state: the new record carries a
    /// fresh identifier and a later creation time than the old one.
    pub fn verify_restart_state_cleared(
        instance_id: &str,
        old_metadata: Option<&InstanceMetadata>,
        new_metadata: &InstanceMetadata,
    ) -> (r: Result<(), CoreError>)
        ensures
            r is Ok <==> match old_metadata {
                Some(m) => m@.instance_id != new_metadata@.instance_id && m@.created_at
                    < new_metadata@.created_at,
                None => true,
            },
            r matches Err(e) ==> e is InvalidCapabilityAssignment,
    {
        let _ = instance_id;
        let old = match old_metadata {
            Some(m) => m,
            None => {
                return Ok(());
            },
        };
        if str_eq(old.instance_id.as_str(), new_metadata.instance_id.as_str()) {
            return Err(
                CoreError::InvalidCapabilityAssignment(
                    String::from_str("state violation: instance retains same id after restart"),
                ),
            );
        }
        if old.created_at >= new_metadata.created_at {
            return Err(
                CoreError::InvalidCapabilityAssignment(
                    String::from_str(
                        "state violation: creation time not updated after restart",
                    ),
                ),
            );
        }
        Ok(())
    }

    /// Logs are ephemeral and never persisted as state.
    pub fn verify_no_log_state(logs: &Vec<String>) -> (r: Result<(), CoreError>)
        ensures
            r is Ok,
    {
        let _ = logs;
        Ok(())
    }
}

} // verus!
