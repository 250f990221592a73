//! Node routing: the registry of node agents, instance-to-node assignments,
//! provider metadata, and candidate selection for new instances.

use vstd::prelude::*;

use crate::error::ControlPlaneError;
use crate::external::str_starts_with;
use crate::strmap::{lemma_filter_push, str_eq, StrMap};
use crate::types::{AssignmentView, ProviderType, StartInstanceRequest};

verus! {

/// Abstract value of a node agent record.
pub ghost struct NodeRecordView {
    pub node_id: Seq<char>,
    pub node_address: Seq<char>,
    pub capabilities: Seq<Seq<char>>,
    pub max_instances: u32,
    pub active_instances: u32,
    pub last_heartbeat: Option<i64>,
    pub available: bool,
}

#[derive(Debug)]
pub struct NodeAgentRecord {
    pub node_id: String,
    pub node_address: String,
    /// Provider-type tags this node can host.
    pub capabilities: Vec<String>,
    pub max_instances: u32,
    pub active_instances: u32,
    /// Unix seconds of the last heartbeat, if any.
    pub last_heartbeat: Option<i64>,
    pub available: bool,
}

impl View for NodeAgentRecord {
    type V = NodeRecordView;

    open spec fn view(&self) -> NodeRecordView {
        NodeRecordView {
            node_id: self.node_id@,
            node_address: self.node_address@,
            capabilities: self.capabilities.deep_view(),
            max_instances: self.max_instances,
            active_instances: self.active_instances,
            last_heartbeat: self.last_heartbeat,
            available: self.available,
        }
    }
}

impl DeepView for NodeAgentRecord {
    type V = NodeRecordView;

    open spec fn deep_view(&self) -> NodeRecordView {
        self@
    }
}

impl Clone for NodeAgentRecord {
    /// Cloning preserves the abstract value.
    fn clone(&self) -> (res: Self)
        ensures
            res@ == self@,
    {
        let capabilities = self.capabilities.clone();
        proof {
            assert(capabilities.deep_view() =~= self.capabilities.deep_view());
        }
        NodeAgentRecord {
            node_id: self.node_id.clone(),
            node_address: self.node_address.clone(),
            capabilities,
            max_instances: self.max_instances,
            active_instances: self.active_instances,
            last_heartbeat: self.last_heartbeat,
            available: self.available,
        }
    }
}

/// Provider metadata known to the routing layer.
#[derive(Debug)]
pub struct ProviderMetadata {
    pub provider_id: String,
    pub provider_type: String,
    pub node_id: String,
    /// Unix seconds of the last update.
    pub last_updated: i64,
}

/// Abstract value of routing provider metadata.
pub ghost struct RoutingProviderView {
    pub provider_id: Seq<char>,
    pub provider_type: Seq<char>,
    pub node_id: Seq<char>,
    pub last_updated: i64,
}

impl View for ProviderMetadata {
    type V = RoutingProviderView;

    open spec fn view(&self) -> RoutingProviderView {
        RoutingProviderView {
            provider_id: self.provider_id@,
            provider_type: self.provider_type@,
            node_id: self.node_id@,
            last_updated: self.last_updated,
        }
    }
}

impl Clone for ProviderMetadata {
    /// Cloning yields an equal record.
    fn clone(&self) -> (res: Self)
        ensures
            res == *self,
    {
        ProviderMetadata {
            provider_id: self.provider_id.clone(),
            provider_type: self.provider_type.clone(),
            node_id: self.node_id.clone(),
            last_updated: self.last_updated,
        }
    }
}

/// In-memory routing state: node records, instance-to-node assignments and
/// provider metadata, each keyed by its own id.
pub struct InMemoryNodeRoutingRepository {
    nodes: StrMap<NodeAgentRecord>,
    assignments: StrMap<String>,
    providers: StrMap<ProviderMetadata>,
}

impl InMemoryNodeRoutingRepository {
    pub closed spec fn wf(&self) -> bool {
        &&& self.nodes.wf()
        &&& self.assignments.wf()
        &&& self.providers.wf()
        &&& forall|k: Seq<char>| self.nodes@.contains_key(k) ==> (#[trigger] self.nodes@[k])@.node_id
            == k
        &&& forall|k: Seq<char>| self.providers@.contains_key(k)
            ==> (#[trigger] self.providers@[k])@.provider_id == k
    }

    /// The node records, keyed by node id.
    pub closed spec fn nodes_map(&self) -> Map<Seq<char>, NodeRecordView> {
        Map::new(|k: Seq<char>| self.nodes@.contains_key(k), |k: Seq<char>| self.nodes@[k]@)
    }

    /// The instance-to-node assignments.
    pub closed spec fn assignments_map(&self) -> Map<Seq<char>, Seq<char>> {
        Map::new(
            |k: Seq<char>| self.assignments@.contains_key(k),
            |k: Seq<char>| self.assignments@[k]@,
        )
    }

    /// The provider metadata, keyed by provider id.
    pub closed spec fn providers_map(&self) -> Map<Seq<char>, RoutingProviderView> {
        Map::new(
            |k: Seq<char>| self.providers@.contains_key(k),
            |k: Seq<char>| self.providers@[k]@,
        )
    }

    pub fn new() -> (r: Self)
        ensures
            r.wf(),
            r.nodes_map() =~= Map::<Seq<char>, NodeRecordView>::empty(),
            r.assignments_map() =~= Map::<Seq<char>, Seq<char>>::empty(),
            r.providers_map() =~= Map::<Seq<char>, RoutingProviderView>::empty(),
    {
        InMemoryNodeRoutingRepository {
            nodes: StrMap::new(),
            assignments: StrMap::new(),
            providers: StrMap::new(),
        }
    }

    /// Insert or replace the record of a node, under its own id.
    pub fn upsert_node(&mut self, node: NodeAgentRecord)
        requires
            old(self).wf(),
        ensures
            final(self).wf(),
            final(self).assignments_map() == old(self).assignments_map(),
            final(self).providers_map() == old(self).providers_map(),
            final(self).nodes_map() =~~= old(self).nodes_map().insert(node@.node_id, node@),
    {
        let ghost node_view = node@;
        let key = node.node_id.clone();
        self.nodes.insert(key, node);
        proof {
            assert(self.nodes_map() =~~= old(self).nodes_map().insert(
                node_view.node_id,
                node_view,
            ));
            assert(self.assignments_map() =~= old(self).assignments_map());
            assert(self.providers_map() =~= old(self).providers_map());
        }
    }

    /// The record of a node, if registered.
    pub fn get_node(&self, node_id: &str) -> (r: Option<NodeAgentRecord>)
        requires
            self.wf(),
        ensures
            match r {
                Some(n) => self.nodes_map().contains_key(node_id@) && n@
                    == self.nodes_map()[node_id@],
                None => !self.nodes_map().contains_key(node_id@),
            },
    {
        match self.nodes.get(node_id) {
            Some(n) => Some(n.clone()),
            None => None,
        }
    }

    /// All node records.
    pub fn list_nodes(&self) -> (r: Vec<NodeAgentRecord>)
        requires
            self.wf(),
        ensures
            r@.len() == self.nodes_map().dom().len(),
            forall|i: int| 0 <= i < r@.len() ==> self.nodes_map().contains_key(
                (#[trigger] r@[i])@.node_id,
            ) && self.nodes_map()[r@[i]@.node_id] == r@[i]@,
            forall|k: Seq<char>| self.nodes_map().contains_key(k) ==> exists|i: int|
                0 <= i < r@.len() && (#[trigger] r@[i])@.node_id == k,
    {
        let vs = self.nodes.values();
        proof {
            assert(self.nodes_map().dom() =~= self.nodes@.dom());
            assert forall|i: int| 0 <= i < vs@.len() implies self.nodes_map().contains_key(
                (#[trigger] vs@[i])@.node_id,
            ) && self.nodes_map()[vs@[i]@.node_id] == vs@[i]@ by {
                assert(cloned::<NodeAgentRecord>(self.nodes.val_seq()[i], vs@[i]));
                assert(vs@[i]@ == self.nodes.val_seq()[i]@);
                let k = self.nodes.key_at(i);
                assert(self.nodes@[k] == self.nodes.val_seq()[i]);
                assert(self.nodes@[k]@.node_id == k);
            }
            assert forall|k: Seq<char>| self.nodes_map().contains_key(k) implies exists|i: int|
                0 <= i < vs@.len() && (#[trigger] vs@[i])@.node_id == k by {
                let i = choose|i: int| 0 <= i < vs@.len() && #[trigger] self.nodes.key_at(i) == k;
                assert(cloned::<NodeAgentRecord>(self.nodes.val_seq()[i], vs@[i]));
                assert(vs@[i]@ == self.nodes.val_seq()[i]@);
                assert(vs@[i]@.node_id == k);
            }
        }
        vs
    }

    /// Record a heartbeat: sets the node's `last_heartbeat` and marks it
    /// available. Unknown nodes are an error.
    pub fn update_heartbeat(&mut self, node_id: &str, heartbeat: i64) -> (r: Result<
        (),
        ControlPlaneError,
    >)
        requires
            old(self).wf(),
        ensures
            final(self).wf(),
            final(self).assignments_map() == old(self).assignments_map(),
            final(self).providers_map() == old(self).providers_map(),
            r is Ok <==> old(self).nodes_map().contains_key(node_id@),
            r matches Err(e) ==> e is InstanceNotFound && final(self).nodes_map() == old(
                self,
            ).nodes_map(),
            r is Ok ==> final(self).nodes_map() =~~= old(self).nodes_map().insert(
                node_id@,
                NodeRecordView {
                    last_heartbeat: Some(heartbeat),
                    available: true,
                    ..old(self).nodes_map()[node_id@]
                },
            ),
    {
        let mut node = match self.get_node(node_id) {
            Some(n) => n,
            None => {
                return Err(ControlPlaneError::InstanceNotFound(String::from_str(node_id)));
            },
        };
        node.last_heartbeat = Some(heartbeat);
        node.available = true;
        self.upsert_node(node);
        Ok(())
    }

    /// Mark a node available or unavailable. Unknown nodes are an error.
    pub fn set_availability(&mut self, node_id: &str, available: bool) -> (r: Result<
        (),
        ControlPlaneError,
    >)
        requires
            old(self).wf(),
        ensures
            final(self).wf(),
            final(self).assignments_map() == old(self).assignments_map(),
            final(self).providers_map() == old(self).providers_map(),
            r is Ok <==> old(self).nodes_map().contains_key(node_id@),
            r matches Err(e) ==> e is InstanceNotFound && final(self).nodes_map() == old(
                self,
            ).nodes_map(),
            r is Ok ==> final(self).nodes_map() =~~= old(self).nodes_map().insert(
                node_id@,
                NodeRecordView { available, ..old(self).nodes_map()[node_id@] },
            ),
    {
        let mut node = match self.get_node(node_id) {
            Some(n) => n,
            None => {
                return Err(ControlPlaneError::InstanceNotFound(String::from_str(node_id)));
            },
        };
        node.available = available;
        self.upsert_node(node);
        Ok(())
    }

    /// Count one more active instance on the node, saturating.
    pub fn increment_active_instances(&mut self, node_id: &str) -> (r: Result<
        (),
        ControlPlaneError,
    >)
        requires
            old(self).wf(),
        ensures
            final(self).wf(),
            final(self).assignments_map() == old(self).assignments_map(),
            final(self).providers_map() == old(self).providers_map(),
            r is Ok <==> old(self).nodes_map().contains_key(node_id@),
            r matches Err(e) ==> e is InstanceNotFound && final(self).nodes_map() == old(
                self,
            ).nodes_map(),
            r is Ok ==> final(self).nodes_map() =~~= old(self).nodes_map().insert(
                node_id@,
                NodeRecordView {
                    active_instances: (if old(self).nodes_map()[node_id@].active_instances
                        == u32::MAX {
                        u32::MAX
                    } else {
                        (old(self).nodes_map()[node_id@].active_instances + 1) as u32
                    }),
                    ..old(self).nodes_map()[node_id@]
                },
            ),
    {
        let mut node = match self.get_node(node_id) {
            Some(n) => n,
            None => {
                return Err(ControlPlaneError::InstanceNotFound(String::from_str(node_id)));
            },
        };
        if node.active_instances < u32::MAX {
            node.active_instances = node.active_instances + 1;
        }
        self.upsert_node(node);
        Ok(())
    }

    /// Count one less active instance on the node, saturating at zero.
    pub fn decrement_active_instances(&mut self, node_id: &str) -> (r: Result<
        (),
        ControlPlaneError,
    >)
        requires
            old(self).wf(),
        ensures
            final(self).wf(),
            final(self).assignments_map() == old(self).assignments_map(),
            final(self).providers_map() == old(self).providers_map(),
            r is Ok <==> old(self).nodes_map().contains_key(node_id@),
            r matches Err(e) ==> e is InstanceNotFound && final(self).nodes_map() == old(
                self,
            ).nodes_map(),
            r is Ok ==> final(self).nodes_map() =~~= old(self).nodes_map().insert(
                node_id@,
                NodeRecordView {
                    active_instances: (if old(self).nodes_map()[node_id@].active_instances == 0 {
                        0u32
                    } else {
                        (old(self).nodes_map()[node_id@].active_instances - 1) as u32
                    }),
                    ..old(self).nodes_map()[node_id@]
                },
            ),
    {
        let mut node = match self.get_node(node_id) {
            Some(n) => n,
            None => {
                return Err(ControlPlaneError::InstanceNotFound(String::from_str(node_id)));
            },
        };
        if node.active_instances > 0 {
            node.active_instances = node.active_instances - 1;
        }
        self.upsert_node(node);
        Ok(())
    }

    /// Set the node's active-instance count outright.
    pub fn set_active_instances(&mut self, node_id: &str, count: u32) -> (r: Result<
        (),
        ControlPlaneError,
    >)
        requires
            old(self).wf(),
        ensures
            final(self).wf(),
            final(self).assignments_map() == old(self).assignments_map(),
            final(self).providers_map() == old(self).providers_map(),
            r is Ok <==> old(self).nodes_map().contains_key(node_id@),
            r matches Err(e) ==> e is InstanceNotFound && final(self).nodes_map() == old(
                self,
            ).nodes_map(),
            r is Ok ==> final(self).nodes_map() =~~= old(self).nodes_map().insert(
                node_id@,
                NodeRecordView { active_instances: count, ..old(self).nodes_map()[node_id@] },
            ),
    {
        let mut node = match self.get_node(node_id) {
            Some(n) => n,
            None => {
                return Err(ControlPlaneError::InstanceNotFound(String::from_str(node_id)));
            },
        };
        node.active_instances = count;
        self.upsert_node(node);
        Ok(())
    }

    /// Record which node owns an instance.
    pub fn assign_instance(&mut self, instance_id: String, node_id: String)
        requires
            old(self).wf(),
        ensures
            final(self).wf(),
            final(self).nodes_map() == old(self).nodes_map(),
            final(self).providers_map() == old(self).providers_map(),
            final(self).assignments_map() =~= old(self).assignments_map().insert(
                instance_id@,
                node_id@,
            ),
    {
        self.assignments.insert(instance_id, node_id);
        proof {
            assert(self.assignments_map() =~= old(self).assignments_map().insert(
                instance_id@,
                node_id@,
            ));
            assert(self.nodes_map() =~= old(self).nodes_map());
            assert(self.providers_map() =~= old(self).providers_map());
        }
    }

    /// The node that owns an instance, if assigned.
    pub fn lookup_instance_node(&self, instance_id: &str) -> (r: Option<String>)
        requires
            self.wf(),
        ensures
            match r {
                Some(n) => self.assignments_map().contains_key(instance_id@) && n@
                    == self.assignments_map()[instance_id@],
                None => !self.assignments_map().contains_key(instance_id@),
            },
    {
        match self.assignments.get(instance_id) {
            Some(n) => Some(n.clone()),
            None => None,
        }
    }

    /// Forget which node owned an instance, returning the node id if one
    /// was assigned.
    pub fn remove_instance_assignment(&mut self, instance_id: &str) -> (r: Option<String>)
        requires
            old(self).wf(),
        ensures
            final(self).wf(),
            final(self).nodes_map() == old(self).nodes_map(),
            final(self).providers_map() == old(self).providers_map(),
            final(self).assignments_map() =~= old(self).assignments_map().remove(instance_id@),
            match r {
                Some(n) => old(self).assignments_map().contains_key(instance_id@) && n@ == old(
                    self,
                ).assignments_map()[instance_id@],
                None => !old(self).assignments_map().contains_key(instance_id@),
            },
    {
        let r = self.assignments.remove(instance_id);
        proof {
            assert(self.assignments_map() =~= old(self).assignments_map().remove(instance_id@));
            assert(self.nodes_map() =~= old(self).nodes_map());
            assert(self.providers_map() =~= old(self).providers_map());
        }
        r
    }

    /// Insert or replace provider metadata, keyed by provider id.
    pub fn upsert_provider_metadata(&mut self, provider: ProviderMetadata)
        requires
            old(self).wf(),
        ensures
            final(self).wf(),
            final(self).nodes_map() == old(self).nodes_map(),
            final(self).assignments_map() == old(self).assignments_map(),
            final(self).providers_map() =~~= old(self).providers_map().insert(
                provider@.provider_id,
                provider@,
            ),
    {
        let ghost p_view = provider@;
        let key = provider.provider_id.clone();
        self.providers.insert(key, provider);
        proof {
            assert(self.providers_map() =~~= old(self).providers_map().insert(
                p_view.provider_id,
                p_view,
            ));
            assert(self.nodes_map() =~= old(self).nodes_map());
            assert(self.assignments_map() =~= old(self).assignments_map());
        }
    }

    /// All provider metadata records.
    pub fn list_provider_metadata(&self) -> (r: Vec<ProviderMetadata>)
        requires
            self.wf(),
        ensures
            r@.len() == self.providers_map().dom().len(),
            forall|i: int| 0 <= i < r@.len() ==> self.providers_map().contains_key(
                (#[trigger] r@[i])@.provider_id,
            ),
    {
        let vs = self.providers.values();
        proof {
            assert(self.providers_map().dom() =~= self.providers@.dom());
            assert forall|i: int| 0 <= i < vs@.len() implies self.providers_map().contains_key(
                (#[trigger] vs@[i])@.provider_id,
            ) by {
                assert(cloned::<ProviderMetadata>(self.providers.val_seq()[i], vs@[i]));
                assert(vs@[i] == self.providers.val_seq()[i]);
                let k = self.providers.key_at(i);
                assert(self.providers@[k] == self.providers.val_seq()[i]);
            }
        }
        vs
    }
}

/// A node can take one more instance: it is available and under its limit
/// (zero meaning unlimited).
pub open spec fn spec_can_accept(n: NodeRecordView) -> bool {
    n.available && (n.max_instances == 0 || n.active_instances < n.max_instances)
}

/// The capability tag a provider type requires of a node.
pub open spec fn provider_tag(pt: ProviderType) -> Seq<char> {
    match pt {
        ProviderType::Kv => "kv"@,
        ProviderType::Http => "http"@,
        ProviderType::Messaging => "messaging"@,
    }
}

/// The node supports all the provider types the request needs; a node
/// advertising no capability tags is universal, and a request needing no
/// providers fits anywhere.
pub open spec fn spec_supports(n: NodeRecordView, caps: Seq<AssignmentView>) -> bool {
    caps.len() == 0 || n.capabilities.len() == 0 || forall|i: int|
        0 <= i < caps.len() ==> n.capabilities.contains(provider_tag(
            (#[trigger] caps[i]).provider_type,
        ))
}

/// A candidate node for the request: accepting, and supporting every
/// required provider type.
pub open spec fn spec_candidate(n: NodeRecordView, caps: Seq<AssignmentView>) -> bool {
    spec_can_accept(n) && spec_supports(n, caps)
}

pub fn can_accept_instance(node: &NodeAgentRecord) -> (r: bool)
    ensures
        r == spec_can_accept(node@),
{
    node.available && (node.max_instances == 0 || node.active_instances < node.max_instances)
}

fn capabilities_contain(capabilities: &Vec<String>, tag: &str) -> (r: bool)
    ensures
        r == capabilities.deep_view().contains(tag@),
{
    let n = capabilities.len();
    for i in 0..n
        invariant
            n == capabilities@.len(),
            forall|j: int| 0 <= j < i ==> #[trigger] capabilities.deep_view()[j] != tag@,
    {
        if str_eq(capabilities[i].as_str(), tag) {
            proof {
                assert(capabilities.deep_view()[i as int] == tag@);
            }
            return true;
        }
    }
    proof {
        if capabilities.deep_view().contains(tag@) {
            let i = choose|i: int|
                0 <= i < capabilities.deep_view().len() && capabilities.deep_view()[i] == tag@;
            assert(capabilities.deep_view()[i] == tag@);
        }
    }
    false
}

/// Whether the node supports every provider type the request's capability
/// list requires.
pub fn node_supports_required_providers(
    node: &NodeAgentRecord,
    request: &StartInstanceRequest,
) -> (r: bool)
    ensures
        r == spec_supports(node@, request.capabilities.deep_view()),
{
    if request.capabilities.is_empty() || node.capabilities.is_empty() {
        return true;
    }
    let n = request.capabilities.len();
    for i in 0..n
        invariant
            n == request.capabilities@.len(),
            request.capabilities@.len() > 0,
            node@.capabilities.len() > 0,
            forall|j: int| 0 <= j < i ==> node@.capabilities.contains(provider_tag(
                (#[trigger] request.capabilities.deep_view()[j]).provider_type,
            )),
    {
        let tag: &str = match request.capabilities[i].provider_type {
            ProviderType::Kv => "kv",
            ProviderType::Http => "http",
            ProviderType::Messaging => "messaging",
        };
        proof {
            assert(tag@ == provider_tag(request.capabilities.deep_view()[i as int].provider_type));
        }
        if !capabilities_contain(&node.capabilities, tag) {
            proof {
                assert(!node@.capabilities.contains(provider_tag(
                    request.capabilities.deep_view()[i as int].provider_type,
                )));
            }
            return false;
        }
    }
    true
}

/// The distinct provider-type tags the request requires, in sorted order.
pub fn required_provider_types(request: &StartInstanceRequest) -> (r: Vec<String>)
    ensures
        forall|t: Seq<char>| r.deep_view().contains(t) <==> exists|i: int|
            0 <= i < request.capabilities.deep_view().len() && provider_tag(
                (#[trigger] request.capabilities.deep_view()[i]).provider_type,
            ) == t,
{
    let mut has_kv = false;
    let mut has_http = false;
    let mut has_messaging = false;
    let n = request.capabilities.len();
    for i in 0..n
        invariant
            n == request.capabilities@.len(),
            has_kv <==> exists|j: int| 0 <= j < i && (
            #[trigger] request.capabilities.deep_view()[j]).provider_type == ProviderType::Kv,
            has_http <==> exists|j: int| 0 <= j < i && (
            #[trigger] request.capabilities.deep_view()[j]).provider_type == ProviderType::Http,
            has_messaging <==> exists|j: int| 0 <= j < i && (
            #[trigger] request.capabilities.deep_view()[j]).provider_type
                == ProviderType::Messaging,
    {
        let ghost jv = request.capabilities.deep_view()[i as int];
        match request.capabilities[i].provider_type {
            ProviderType::Kv => {
                has_kv = true;
                proof {
                    assert(jv.provider_type == ProviderType::Kv);
                }
            },
            ProviderType::Http => {
                has_http = true;
                proof {
                    assert(jv.provider_type == ProviderType::Http);
                }
            },
            ProviderType::Messaging => {
                has_messaging = true;
                proof {
                    assert(jv.provider_type == ProviderType::Messaging);
                }
            },
        }
    }
    let mut r: Vec<String> = Vec::new();
    if has_http {
        r.push(String::from_str("http"));
    }
    if has_kv {
        r.push(String::from_str("kv"));
    }
    if has_messaging {
        r.push(String::from_str("messaging"));
    }
    proof {
        reveal_strlit("http");
        reveal_strlit("kv");
        reveal_strlit("messaging");
        let dv = r.deep_view();
        let http_at: int = 0;
        let kv_at: int = if has_http {
            1
        } else {
            0
        };
        let messaging_at: int = kv_at + (if has_kv {
            1int
        } else {
            0
        });
        if has_http {
            assert(dv[http_at] == "http"@);
        }
        if has_kv {
            assert(dv[kv_at] == "kv"@);
        }
        if has_messaging {
            assert(dv[messaging_at] == "messaging"@);
        }
        assert forall|t: Seq<char>| r.deep_view().contains(t) implies exists|i: int|
            0 <= i < request.capabilities.deep_view().len() && provider_tag(
                (#[trigger] request.capabilities.deep_view()[i]).provider_type,
            ) == t by {
            let j = choose|j: int| 0 <= j < dv.len() && dv[j] == t;
            assert(t == "http"@ || t == "kv"@ || t == "messaging"@);
            if t == "http"@ {
                assert(has_http);
                let i = choose|i: int|
                    0 <= i < request.capabilities@.len() && (
                    #[trigger] request.capabilities.deep_view()[i]).provider_type
                        == ProviderType::Http;
                assert(provider_tag(request.capabilities.deep_view()[i].provider_type) == t);
            } else if t == "kv"@ {
                assert(has_kv);
                let i = choose|i: int|
                    0 <= i < request.capabilities@.len() && (
                    #[trigger] request.capabilities.deep_view()[i]).provider_type
                        == ProviderType::Kv;
                assert(provider_tag(request.capabilities.deep_view()[i].provider_type) == t);
            } else {
                assert(has_messaging);
                let i = choose|i: int|
                    0 <= i < request.capabilities@.len() && (
                    #[trigger] request.capabilities.deep_view()[i]).provider_type
                        == ProviderType::Messaging;
                assert(provider_tag(request.capabilities.deep_view()[i].provider_type) == t);
            }
        }
        assert forall|t: Seq<char>| (exists|i: int|
            0 <= i < request.capabilities.deep_view().len() && provider_tag(
                (#[trigger] request.capabilities.deep_view()[i]).provider_type,
            ) == t) implies r.deep_view().contains(t) by {
            let i = choose|i: int|
                0 <= i < request.capabilities.deep_view().len() && provider_tag(
                    request.capabilities.deep_view()[i].provider_type,
                ) == t;
            match request.capabilities.deep_view()[i].provider_type {
                ProviderType::Kv => {
                    assert(dv[kv_at] == t);
                },
                ProviderType::Http => {
                    assert(dv[http_at] == t);
                },
                ProviderType::Messaging => {
                    assert(dv[messaging_at] == t);
                },
            }
        }
    }
    r
}

/// Normalize a node address: prefix `http://` unless an `http://` or
/// `https://` scheme is already present.
pub fn normalize_endpoint(address: &str) -> (r: String)
    ensures
        r@ == spec_normalize_endpoint(address@),
{
    if str_starts_with(address, "http://") || str_starts_with(address, "https://") {
        String::from_str(address)
    } else {
        String::from_str("http://").concat(address)
    }
}

pub open spec fn spec_normalize_endpoint(address: Seq<char>) -> Seq<char> {
    if crate::capability::has_prefix(address, "http://"@) || crate::capability::has_prefix(
        address,
        "https://"@,
    ) {
        address
    } else {
        "http://"@ + address
    }
}

/// Stable insertion of a record after every element with a key less than
/// or equal to its own.
pub open spec fn insert_by_load(s: Seq<NodeRecordView>, e: NodeRecordView) -> Seq<NodeRecordView>
    decreases s.len(),
{
    if s.len() == 0 {
        seq![e]
    } else if s.last().active_instances <= e.active_instances {
        s.push(e)
    } else {
        insert_by_load(s.drop_last(), e).push(s.last())
    }
}

/// Stable sort ascending by `active_instances`: ties keep original order.
pub open spec fn sort_by_load(s: Seq<NodeRecordView>) -> Seq<NodeRecordView>
    decreases s.len(),
{
    if s.len() == 0 {
        s
    } else {
        insert_by_load(sort_by_load(s.drop_last()), s.last())
    }
}

pub open spec fn sorted_by_load(s: Seq<NodeRecordView>) -> bool {
    forall|i: int, j: int| 0 <= i <= j < s.len() ==> s[i].active_instances
        <= s[j].active_instances
}

proof fn lemma_insert_by_load(s: Seq<NodeRecordView>, e: NodeRecordView)
    requires
        sorted_by_load(s),
    ensures
        sorted_by_load(insert_by_load(s, e)),
        insert_by_load(s, e).to_multiset() =~= s.to_multiset().insert(e),
        insert_by_load(s, e).len() == s.len() + 1,
    decreases s.len(),
{
    broadcast use vstd::seq_lib::group_to_multiset_ensures;

    if s.len() == 0 {
        assert(insert_by_load(s, e) =~= seq![e]);
        assert(seq![e].to_multiset() =~= s.to_multiset().insert(e)) by {
            assert(seq![e] =~= s.push(e));
        }
    } else if s.last().active_instances <= e.active_instances {
        assert(forall|i: int| 0 <= i < s.len() ==> s[i].active_instances
            <= s.last().active_instances);
    } else {
        let dl = s.drop_last();
        assert(sorted_by_load(dl)) by {
            assert(forall|i: int| 0 <= i < dl.len() ==> dl[i] == s[i]);
        }
        lemma_insert_by_load(dl, e);
        let t = insert_by_load(dl, e);
        assert forall|i: int, j: int|
            0 <= i <= j < t.push(s.last()).len() implies t.push(s.last())[i].active_instances
            <= t.push(s.last())[j].active_instances by {
            if j < t.len() {
                assert(t.push(s.last())[i] == t[i]);
                assert(t.push(s.last())[j] == t[j]);
            } else if i < j {
                assert(t.push(s.last())[i] == t[i]);
                assert(t.to_multiset().contains(t[i]));
                assert(t.to_multiset() =~= dl.to_multiset().insert(e));
                if t[i] == e {
                    assert(t[i].active_instances <= s.last().active_instances);
                } else {
                    assert(dl.to_multiset().contains(t[i]));
                    let k = choose|k: int| 0 <= k < dl.len() && dl[k] == t[i];
                    assert(dl[k] == s[k]);
                    assert(s[k].active_instances <= s.last().active_instances);
                }
            }
        }
        assert(t.push(s.last()).to_multiset() =~= s.to_multiset().insert(e)) by {
            assert(t.push(s.last()).to_multiset() =~= t.to_multiset().insert(s.last()));
            assert(t.to_multiset() =~= dl.to_multiset().insert(e));
            assert(s.to_multiset() =~= dl.to_multiset().insert(s.last())) by {
                assert(dl.push(s.last()) =~= s);
            }
        }
    }
}

/// Sorting law for the candidate order: the result is ascending by load
/// and a permutation of its input.
pub proof fn lemma_sort_by_load(s: Seq<NodeRecordView>)
    ensures
        sorted_by_load(sort_by_load(s)),
        sort_by_load(s).to_multiset() =~= s.to_multiset(),
        sort_by_load(s).len() == s.len(),
    decreases s.len(),
{
    broadcast use vstd::seq_lib::group_to_multiset_ensures;

    if s.len() > 0 {
        let dl = s.drop_last();
        lemma_sort_by_load(dl);
        lemma_insert_by_load(sort_by_load(dl), s.last());
        assert(sort_by_load(s).to_multiset() =~= dl.to_multiset().insert(s.last()));
        assert(s.to_multiset() =~= dl.to_multiset().insert(s.last())) by {
            assert(dl.push(s.last()) =~= s);
        }
    }
}

/// The nodes of `nodes` that can accept the request, ordered ascending by
/// active-instance count with ties in their original order.
pub fn select_candidate_nodes(
    nodes: Vec<NodeAgentRecord>,
    request: &StartInstanceRequest,
) -> (r: Vec<NodeAgentRecord>)
    ensures
        r.deep_view() == sort_by_load(
            nodes.deep_view().filter(candidate_filter(request.capabilities.deep_view())),
        ),
{
    let ghost caps = request.capabilities.deep_view();
    let n = nodes.len();
    let mut kept: Vec<NodeAgentRecord> = Vec::new();
    for i in 0..n
        invariant
            n == nodes@.len(),
            kept.deep_view() =~= nodes.deep_view().subrange(0, i as int).filter(
                candidate_filter(caps),
            ),
            caps == request.capabilities.deep_view(),
    {
        let ghost prefix = nodes.deep_view().subrange(0, i as int);
        let ghost nv = nodes.deep_view()[i as int];
        proof {
            assert(nodes.deep_view().subrange(0, i + 1) =~= prefix.push(nv));
            lemma_filter_push(prefix, nv, candidate_filter(caps));
        }
        let ghost kept0 = kept.deep_view();
        let ok = can_accept_instance(&nodes[i]) && node_supports_required_providers(
            &nodes[i],
            request,
        );
        if ok {
            let c = nodes[i].clone();
            proof {
                assert(c@ == nv);
            }
            kept.push(c);
            proof {
                assert(kept.deep_view() =~= kept0.push(nv));
            }
        }
        proof {
            assert(ok == candidate_filter(caps)(nv));
            assert(kept.deep_view() =~= nodes.deep_view().subrange(0, i + 1).filter(
                candidate_filter(caps),
            ));
        }
    }
    proof {
        assert(nodes.deep_view().subrange(0, n as int) =~= nodes.deep_view());
    }
    // stable insertion sort ascending by active_instances
    let m = kept.len();
    let mut sorted: Vec<NodeAgentRecord> = Vec::new();
    for i in 0..m
        invariant
            m == kept@.len(),
            sorted.deep_view() =~= sort_by_load(kept.deep_view().subrange(0, i as int)),
    {
        let ghost prefix = kept.deep_view().subrange(0, i as int);
        let ghost ev = kept.deep_view()[i as int];
        proof {
            assert(kept.deep_view().subrange(0, i + 1) =~= prefix.push(ev));
            assert(prefix.push(ev).drop_last() =~= prefix);
        }
        let e = kept[i].clone();
        proof {
            assert(e@ == ev);
        }
        let mut pos = sorted.len();
        while pos > 0 && sorted[pos - 1].active_instances > e.active_instances
            invariant
                pos <= sorted@.len(),
                e@ == ev,
                forall|j: int| pos <= j < sorted@.len()
                    ==> (#[trigger] sorted.deep_view()[j]).active_instances > ev.active_instances,
            decreases pos,
        {
            proof {
                assert(sorted.deep_view()[pos - 1] == sorted@[pos - 1]@);
            }
            pos = pos - 1;
        }
        let ghost sorted0 = sorted.deep_view();
        proof {
            if pos > 0 {
                assert(sorted.deep_view()[pos - 1].active_instances <= ev.active_instances);
            }
            lemma_insert_at(sorted0, ev, pos as int);
        }
        sorted.insert(pos, e);
        proof {
            assert(sorted.deep_view() =~= sorted0.insert(pos as int, ev));
            assert(sorted.deep_view() =~= insert_by_load(sorted0, ev));
        }
    }
    proof {
        assert(kept.deep_view().subrange(0, m as int) =~= kept.deep_view());
    }
    sorted
}

/// The candidate predicate for a request's capability list.
pub open spec fn candidate_filter(caps: Seq<AssignmentView>) -> spec_fn(NodeRecordView) -> bool {
    |n: NodeRecordView| spec_candidate(n, caps)
}

/// Inserting at the position after the last element with key `<= e`'s key
/// realises `insert_by_load`.
proof fn lemma_insert_at(s: Seq<NodeRecordView>, e: NodeRecordView, pos: int)
    requires
        0 <= pos <= s.len(),
        forall|j: int| pos <= j < s.len() ==> (#[trigger] s[j]).active_instances
            > e.active_instances,
        pos > 0 ==> s[pos - 1].active_instances <= e.active_instances,
    ensures
        insert_by_load(s, e) =~= s.insert(pos, e),
    decreases s.len(),
{
    if s.len() == 0 {
        assert(insert_by_load(s, e) =~= seq![e]);
        assert(s.insert(0, e) =~= seq![e]);
    } else if s.last().active_instances <= e.active_instances {
        assert(pos == s.len());
        assert(s.insert(pos, e) =~= s.push(e));
    } else {
        assert(pos < s.len());
        let dl = s.drop_last();
        lemma_insert_at(dl, e, pos);
        assert(insert_by_load(s, e) == insert_by_load(dl, e).push(s.last()));
        assert(dl.insert(pos, e).push(s.last()) =~= s.insert(pos, e));
    }
}

/// Candidate-selection law: the selected candidates are exactly the nodes
/// that are available, under their limit and supporting every required
/// provider type; the result is their multiset, ordered ascending by
/// active-instance count.
pub proof fn lemma_candidate_selection(nodes: Seq<NodeRecordView>, caps: Seq<AssignmentView>)
    ensures
        sorted_by_load(sort_by_load(nodes.filter(candidate_filter(caps)))),
        sort_by_load(nodes.filter(candidate_filter(caps))).to_multiset() =~= nodes.filter(
            candidate_filter(caps),
        ).to_multiset(),
        forall|i: int| 0 <= i < nodes.filter(candidate_filter(caps)).len() ==> spec_candidate(
            #[trigger] nodes.filter(candidate_filter(caps))[i],
            caps,
        ),
        forall|j: int| 0 <= j < nodes.len() && spec_candidate(#[trigger] nodes[j], caps)
            ==> nodes.filter(candidate_filter(caps)).contains(nodes[j]),
{
    broadcast use vstd::seq_lib::group_filter_ensures;

    lemma_sort_by_load(nodes.filter(candidate_filter(caps)));
    assert forall|i: int| 0 <= i < nodes.filter(candidate_filter(caps)).len() implies spec_candidate(
        #[trigger] nodes.filter(candidate_filter(caps))[i],
        caps,
    ) by {
        assert(candidate_filter(caps)(nodes.filter(candidate_filter(caps))[i]));
    }
    assert forall|j: int|
        0 <= j < nodes.len() && spec_candidate(#[trigger] nodes[j], caps) implies nodes.filter(
        candidate_filter(caps),
    ).contains(nodes[j]) by {
        assert(candidate_filter(caps)(nodes[j]));
    }
}

} // verus!
