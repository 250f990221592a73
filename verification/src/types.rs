//! Core data model: instance status, provider types, restart policies,
//! capability assignments, instance metadata and the error envelope.

use vstd::prelude::*;

use crate::external::{fresh_instance_id, now_unix_seconds};
use crate::strmap::{str_eq, StrMap};

verus! {

#[derive(Clone, Copy, Debug, PartialEq, Eq, Hash, Structural)]
pub enum InstanceStatus {
    Starting,
    Running,
    Stopped,
    Crashed,
}

#[derive(Clone, Copy, Debug, PartialEq, Eq, Hash, Structural)]
pub enum ProviderType {
    Kv,
    Http,
    Messaging,
}

#[derive(Clone, Copy, Debug, PartialEq, Eq, Hash, Structural)]
pub enum RestartPolicyType {
    Never,
    Always,
    OnFailure,
}

#[derive(Clone, Copy, Debug, PartialEq, Eq, Structural)]
pub struct RestartPolicy {
    pub policy_type: RestartPolicyType,
    pub max_retries: Option<u32>,
    pub backoff_seconds: Option<u64>,
}

impl RestartPolicy {
    pub fn never() -> (r: Self)
        ensures
            r == (RestartPolicy {
                policy_type: RestartPolicyType::Never,
                max_retries: None,
                backoff_seconds: None,
            }),
    {
        RestartPolicy { policy_type: RestartPolicyType::Never, max_retries: None, backoff_seconds: None }
    }

    pub fn always() -> (r: Self)
        ensures
            r == (RestartPolicy {
                policy_type: RestartPolicyType::Always,
                max_retries: None,
                backoff_seconds: None,
            }),
    {
        RestartPolicy { policy_type: RestartPolicyType::Always, max_retries: None, backoff_seconds: None }
    }

    pub fn on_failure(max_retries: u32, backoff_seconds: u64) -> (r: Self)
        ensures
            r == (RestartPolicy {
                policy_type: RestartPolicyType::OnFailure,
                max_retries: Some(max_retries),
                backoff_seconds: Some(backoff_seconds),
            }),
    {
        RestartPolicy {
            policy_type: RestartPolicyType::OnFailure,
            max_retries: Some(max_retries),
            backoff_seconds: Some(backoff_seconds),
        }
    }
}

impl Default for RestartPolicy {
    /// The default policy never restarts.
    fn default() -> (r: Self)
        ensures
            r == (RestartPolicy {
                policy_type: RestartPolicyType::Never,
                max_retries: None,
                backoff_seconds: None,
            }),
    {
        RestartPolicy::never()
    }
}

/// Abstract value of a capability assignment.
pub ghost struct AssignmentView {
    pub instance_id: Seq<char>,
    pub capability_id: Seq<char>,
    pub provider_type: ProviderType,
    pub permissions: Seq<Seq<char>>,
}

#[derive(Debug)]
pub struct CapabilityAssignment {
    pub instance_id: String,
    pub capability_id: String,
    pub provider_type: ProviderType,
    pub permissions: Vec<String>,
}

impl View for CapabilityAssignment {
    type V = AssignmentView;

    open spec fn view(&self) -> AssignmentView {
        AssignmentView {
            instance_id: self.instance_id@,
            capability_id: self.capability_id@,
            provider_type: self.provider_type,
            permissions: self.permissions.deep_view(),
        }
    }
}

impl Clone for CapabilityAssignment {
    /// Cloning preserves the abstract value.
    fn clone(&self) -> (res: Self)
        ensures
            res@ == self@,
    {
        let permissions = self.permissions.clone();
        proof {
            assert(permissions.deep_view() =~= self.permissions.deep_view());
        }
        CapabilityAssignment {
            instance_id: self.instance_id.clone(),
            capability_id: self.capability_id.clone(),
            provider_type: self.provider_type,
            permissions,
        }
    }
}

impl CapabilityAssignment {
    pub fn new(
        instance_id: String,
        capability_id: String,
        provider_type: ProviderType,
        permissions: Vec<String>,
    ) -> (r: Self)
        ensures
            r@ == (AssignmentView {
                instance_id: instance_id@,
                capability_id: capability_id@,
                provider_type,
                permissions: permissions.deep_view(),
            }),
    {
        CapabilityAssignment { instance_id, capability_id, provider_type, permissions }
    }

    /// Whether the permission string is among the assignment's permissions.
    pub open spec fn spec_has_permission(&self, p: Seq<char>) -> bool {
        self@.permissions.contains(p)
    }

    pub fn has_permission(&self, permission: &str) -> (r: bool)
        ensures
            r == self.spec_has_permission(permission@),
    {
        let n = self.permissions.len();
        for i in 0..n
            invariant
                n == self.permissions@.len(),
                forall|j: int| 0 <= j < i ==> self.permissions.deep_view()[j] != permission@,
        {
            if str_eq(self.permissions[i].as_str(), permission) {
                proof {
                    assert(self@.permissions[i as int] == permission@);
                }
                return true;
            }
        }
        proof {
            if self@.permissions.contains(permission@) {
                let i = choose|i: int|
                    0 <= i < self@.permissions.len() && self@.permissions[i] == permission@;
                assert(self.permissions.deep_view()[i] == permission@);
            }
        }
        false
    }
}

/// Abstract value of instance metadata.
pub ghost struct MetadataView {
    pub instance_id: Seq<char>,
    pub node_id: Seq<char>,
    pub module_hash: Seq<char>,
    pub created_at: i64,
    pub status: InstanceStatus,
}

#[derive(Debug)]
pub struct InstanceMetadata {
    pub instance_id: String,
    pub node_id: String,
    pub module_hash: String,
    /// Creation time in unix seconds.
    pub created_at: i64,
    pub status: InstanceStatus,
}

impl View for InstanceMetadata {
    type V = MetadataView;

    open spec fn view(&self) -> MetadataView {
        MetadataView {
            instance_id: self.instance_id@,
            node_id: self.node_id@,
            module_hash: self.module_hash@,
            created_at: self.created_at,
            status: self.status,
        }
    }
}

impl DeepView for InstanceMetadata {
    type V = MetadataView;

    open spec fn deep_view(&self) -> MetadataView {
        self@
    }
}

impl Clone for InstanceMetadata {
    /// Cloning yields an equal record.
    fn clone(&self) -> (res: Self)
        ensures
            res == *self,
    {
        InstanceMetadata {
            instance_id: self.instance_id.clone(),
            node_id: self.node_id.clone(),
            module_hash: self.module_hash.clone(),
            created_at: self.created_at,
            status: self.status,
        }
    }
}

impl InstanceMetadata {
    /// A fresh record: system-assigned identifier, current time, `Starting`.
    pub fn new(node_id: String, module_hash: String) -> (r: Self)
        ensures
            r@.node_id == node_id@,
            r@.module_hash == module_hash@,
            r@.status == InstanceStatus::Starting,
            r@.created_at >= 0,
            r@.instance_id.len() == 36,
    {
        InstanceMetadata {
            instance_id: fresh_instance_id(),
            node_id,
            module_hash,
            created_at: now_unix_seconds(),
            status: InstanceStatus::Starting,
        }
    }
}

#[derive(Clone, Debug)]
pub enum CoreError {
    InvalidInstanceId(String),
    InvalidCapabilityAssignment(String),
    SerializationError(String),
    WasmRuntimeError(String),
    ResourceExhausted(String),
    Timeout(String),
    CrashDetected(String),
    RestartPolicyViolation(String),
}

impl CoreError {
    /// The human-readable rendering: a fixed prefix per kind, then the message.
    pub open spec fn spec_describe(&self) -> Seq<char> {
        match self {
            CoreError::InvalidInstanceId(m) => "Invalid instance ID: "@ + m@,
            CoreError::InvalidCapabilityAssignment(m) => "Invalid capability assignment: "@ + m@,
            CoreError::SerializationError(m) => "Serialization error: "@ + m@,
            CoreError::WasmRuntimeError(m) => "Wasm runtime error: "@ + m@,
            CoreError::ResourceExhausted(m) => "Resource exhaustion: "@ + m@,
            CoreError::Timeout(m) => "Timeout: "@ + m@,
            CoreError::CrashDetected(m) => "Crash detected: "@ + m@,
            CoreError::RestartPolicyViolation(m) => "Restart policy violation: "@ + m@,
        }
    }

    pub fn describe(&self) -> (r: String)
        ensures
            r@ == self.spec_describe(),
    {
        match self {
            CoreError::InvalidInstanceId(m) => {
                String::from_str("Invalid instance ID: ").concat(m.as_str())
            },
            CoreError::InvalidCapabilityAssignment(m) => {
                String::from_str("Invalid capability assignment: ").concat(m.as_str())
            },
            CoreError::SerializationError(m) => {
                String::from_str("Serialization error: ").concat(m.as_str())
            },
            CoreError::WasmRuntimeError(m) => {
                String::from_str("Wasm runtime error: ").concat(m.as_str())
            },
            CoreError::ResourceExhausted(m) => {
                String::from_str("Resource exhaustion: ").concat(m.as_str())
            },
            CoreError::Timeout(m) => String::from_str("Timeout: ").concat(m.as_str()),
            CoreError::CrashDetected(m) => {
                String::from_str("Crash detected: ").concat(m.as_str())
            },
            CoreError::RestartPolicyViolation(m) => {
                String::from_str("Restart policy violation: ").concat(m.as_str())
            },
        }
    }
}

/// Error envelope surfaced at the API boundary.
#[derive(Debug)]
pub struct ErrorResponse {
    pub error_code: String,
    pub message: String,
    pub details: Option<StrMap<String>>,
    /// Time the error was raised, unix seconds.
    pub timestamp: i64,
}

impl ErrorResponse {
    pub fn new(error_code: &str, message: &str) -> (r: Self)
        ensures
            r.error_code@ == error_code@,
            r.message@ == message@,
            r.details is None,
            r.timestamp >= 0,
    {
        ErrorResponse {
            error_code: String::from_str(error_code),
            message: String::from_str(message),
            details: None,
            timestamp: now_unix_seconds(),
        }
    }

    pub fn with_details(self, details: StrMap<String>) -> (r: Self)
        ensures
            r.error_code@ == self.error_code@,
            r.message@ == self.message@,
            r.timestamp == self.timestamp,
            r.details matches Some(d) && d == details,
    {
        ErrorResponse {
            error_code: self.error_code,
            message: self.message,
            details: Some(details),
            timestamp: self.timestamp,
        }
    }
}

/// A well-formed module: non-empty and led by the Wasm magic bytes.
pub open spec fn valid_wasm_module(bytes: Seq<u8>) -> bool {
    bytes.len() >= 4 && bytes[0] == 0x00u8 && bytes[1] == 0x61u8 && bytes[2] == 0x73u8 && bytes[3]
        == 0x6du8
}

/// Check the Wasm magic at the head of the module bytes.
pub fn check_wasm_magic(bytes: &Vec<u8>) -> (r: bool)
    ensures
        r == valid_wasm_module(bytes@),
{
    bytes.len() >= 4 && bytes[0] == 0x00 && bytes[1] == 0x61 && bytes[2] == 0x73 && bytes[3]
        == 0x6d
}

/// Request to start a new instance.
#[derive(Debug)]
pub struct StartInstanceRequest {
    pub module_bytes: Vec<u8>,
    pub capabilities: Vec<CapabilityAssignment>,
    pub restart_policy: RestartPolicy,
}

/// Request to stop an instance.
#[derive(Debug)]
pub struct StopInstanceRequest {
    pub instance_id: String,
}

/// Request to query an instance.
#[derive(Debug)]
pub struct QueryInstanceRequest {
    pub instance_id: String,
}

/// Instance status response.
#[derive(Debug)]
pub struct InstanceStatusResponse {
    pub instance_id: String,
    pub status: InstanceStatus,
    pub node_id: String,
    /// Creation time in unix seconds.
    pub created_at: i64,
}

} // verus!
