//! Wire forms of the protocol messages: enums travel as integer codes with
//! 0 reserved for "unspecified", and nested messages are optional.

use vstd::prelude::*;

use crate::types::{InstanceStatus, ProviderType, RestartPolicyType};

verus! {

/// Wire code of an instance status; 0 is reserved for unspecified.
pub open spec fn status_code(s: InstanceStatus) -> i32 {
    match s {
        InstanceStatus::Starting => 1,
        InstanceStatus::Running => 2,
        InstanceStatus::Stopped => 3,
        InstanceStatus::Crashed => 4,
    }
}

pub open spec fn status_from_code(c: i32) -> Option<InstanceStatus> {
    if c == 1 {
        Some(InstanceStatus::Starting)
    } else if c == 2 {
        Some(InstanceStatus::Running)
    } else if c == 3 {
        Some(InstanceStatus::Stopped)
    } else if c == 4 {
        Some(InstanceStatus::Crashed)
    } else {
        None
    }
}

pub open spec fn provider_code(p: ProviderType) -> i32 {
    match p {
        ProviderType::Kv => 1,
        ProviderType::Http => 2,
        ProviderType::Messaging => 3,
    }
}

pub open spec fn provider_from_code(c: i32) -> Option<ProviderType> {
    if c == 1 {
        Some(ProviderType::Kv)
    } else if c == 2 {
        Some(ProviderType::Http)
    } else if c == 3 {
        Some(ProviderType::Messaging)
    } else {
        None
    }
}

pub open spec fn policy_type_code(t: RestartPolicyType) -> i32 {
    match t {
        RestartPolicyType::Never => 1,
        RestartPolicyType::Always => 2,
        RestartPolicyType::OnFailure => 3,
    }
}

pub open spec fn policy_type_from_code(c: i32) -> Option<RestartPolicyType> {
    if c == 1 {
        Some(RestartPolicyType::Never)
    } else if c == 2 {
        Some(RestartPolicyType::Always)
    } else if c == 3 {
        Some(RestartPolicyType::OnFailure)
    } else {
        None
    }
}

/// Encode a status for the wire.
pub fn encode_status(s: InstanceStatus) -> (r: i32)
    ensures
        r == status_code(s),
{
    match s {
        InstanceStatus::Starting => 1,
        InstanceStatus::Running => 2,
        InstanceStatus::Stopped => 3,
        InstanceStatus::Crashed => 4,
    }
}

/// Decode a status code; 0 (unspecified) and unknown codes are rejected.
pub fn decode_status(c: i32) -> (r: Result<InstanceStatus, String>)
    ensures
        r matches Ok(s) ==> status_from_code(c) == Some(s),
        r is Err <==> status_from_code(c) is None,
{
    if c == 1 {
        Ok(InstanceStatus::Starting)
    } else if c == 2 {
        Ok(InstanceStatus::Running)
    } else if c == 3 {
        Ok(InstanceStatus::Stopped)
    } else if c == 4 {
        Ok(InstanceStatus::Crashed)
    } else {
        Err(String::from_str("instance status code is unspecified or unknown"))
    }
}

pub fn encode_provider(p: ProviderType) -> (r: i32)
    ensures
        r == provider_code(p),
{
    match p {
        ProviderType::Kv => 1,
        ProviderType::Http => 2,
        ProviderType::Messaging => 3,
    }
}

pub fn decode_provider(c: i32) -> (r: Result<ProviderType, String>)
    ensures
        r matches Ok(p) ==> provider_from_code(c) == Some(p),
        r is Err <==> provider_from_code(c) is None,
{
    if c == 1 {
        Ok(ProviderType::Kv)
    } else if c == 2 {
        Ok(ProviderType::Http)
    } else if c == 3 {
        Ok(ProviderType::Messaging)
    } else {
        Err(String::from_str("provider type code is unspecified or unknown"))
    }
}

pub fn encode_policy_type(t: RestartPolicyType) -> (r: i32)
    ensures
        r == policy_type_code(t),
{
    match t {
        RestartPolicyType::Never => 1,
        RestartPolicyType::Always => 2,
        RestartPolicyType::OnFailure => 3,
    }
}

pub fn decode_policy_type(c: i32) -> (r: Result<RestartPolicyType, String>)
    ensures
        r matches Ok(t) ==> policy_type_from_code(c) == Some(t),
        r is Err <==> policy_type_from_code(c) is None,
{
    if c == 1 {
        Ok(RestartPolicyType::Never)
    } else if c == 2 {
        Ok(RestartPolicyType::Always)
    } else if c == 3 {
        Ok(RestartPolicyType::OnFailure)
    } else {
        Err(String::from_str("restart policy type code is unspecified or unknown"))
    }
}

/// Enum codes round-trip, and code 0 (unspecified) never decodes.
pub proof fn lemma_enum_codes_round_trip(
    s: InstanceStatus,
    p: ProviderType,
    t: RestartPolicyType,
)
    ensures
        status_from_code(status_code(s)) == Some(s),
        provider_from_code(provider_code(p)) == Some(p),
        policy_type_from_code(policy_type_code(t)) == Some(t),
        status_from_code(0) is None,
        provider_from_code(0) is None,
        policy_type_from_code(0) is None,
{
}

#[derive(Debug)]
pub struct CapabilityAssignment {
    pub instance_id: String,
    pub capability_id: String,
    pub provider_type: i32,
    pub permissions: Vec<String>,
}

#[derive(Debug)]
pub struct RestartPolicy {
    pub policy_type: i32,
    pub max_retries: Option<u32>,
    pub backoff_seconds: Option<u64>,
}

#[derive(Debug)]
pub struct InstanceMetadata {
    pub instance_id: String,
    pub node_id: String,
    pub module_hash: String,
    pub created_at: i64,
    pub status: i32,
}

#[derive(Debug)]
pub struct InstanceStatusUpdate {
    pub instance_id: String,
    pub status: i32,
    pub error_message: Option<String>,
}

#[derive(Debug)]
pub struct StartInstanceRequest {
    pub instance_id: String,
    pub module_bytes: Vec<u8>,
    pub capabilities: Vec<CapabilityAssignment>,
    pub restart_policy: Option<RestartPolicy>,
}

#[derive(Debug)]
pub struct StartInstanceResponse {
    pub success: bool,
    pub message: String,
    pub error_code: Option<String>,
}

#[derive(Debug)]
pub struct StopInstanceRequest {
    pub instance_id: String,
}

#[derive(Debug)]
pub struct StopInstanceResponse {
    pub success: bool,
    pub message: String,
    pub error_code: Option<String>,
}

#[derive(Debug)]
pub struct QueryInstanceRequest {
    pub instance_id: String,
}

#[derive(Debug)]
pub struct QueryInstanceResponse {
    pub success: bool,
    pub instance: Option<InstanceMetadata>,
    pub error_code: Option<String>,
}

#[derive(Debug)]
pub struct ListInstancesRequest {}

#[derive(Debug)]
pub struct ListInstancesResponse {
    pub success: bool,
    pub instances: Vec<InstanceMetadata>,
}

#[derive(Debug)]
pub struct InvokeCapabilityRequest {
    pub instance_id: String,
    pub capability_id: String,
    pub provider_type: i32,
    pub operation: String,
    pub params_json: String,
    pub permissions: Vec<String>,
}

#[derive(Debug)]
pub struct InvokeCapabilityResponse {
    pub success: bool,
    pub message: String,
    pub result_json: Option<String>,
    pub error_code: Option<String>,
}

#[derive(Debug)]
pub struct RegisterNodeRequest {
    pub node_id: String,
    pub node_address: String,
    pub capabilities: Vec<String>,
    pub max_instances: u32,
}

#[derive(Debug)]
pub struct RegisterNodeResponse {
    pub success: bool,
    pub message: String,
    pub error_code: Option<String>,
}

#[derive(Debug)]
pub struct StatusReport {
    pub node_id: String,
    pub instance_updates: Vec<InstanceStatusUpdate>,
    pub timestamp: i64,
}

#[derive(Debug)]
pub struct StatusReportResponse {
    pub success: bool,
    pub message: String,
}

} // verus!
