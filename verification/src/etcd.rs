//! The optional external metadata store mirror: only node-presence and
//! provider-metadata keys may ever be written to it.

use vstd::prelude::*;

use crate::capability::has_prefix;
use crate::strmap::StrMap;
use crate::external::str_starts_with;

verus! {

#[derive(Clone, Copy, Debug, PartialEq, Eq, Structural)]
pub enum EtcdMetadataKind {
    Node,
    Provider,
}

/// The kind of metadata a key may carry, or `None` for a disallowed key.
pub open spec fn spec_classify_key(key: Seq<char>) -> Option<EtcdMetadataKind> {
    if has_prefix(key, "/wasmatrix/nodes/"@) {
        Some(EtcdMetadataKind::Node)
    } else if has_prefix(key, "/wasmatrix/providers/"@) {
        Some(EtcdMetadataKind::Provider)
    } else {
        None
    }
}

pub fn classify_key(key: &str) -> (r: Option<EtcdMetadataKind>)
    ensures
        r == spec_classify_key(key@),
{
    if str_starts_with(key, "/wasmatrix/nodes/") {
        Some(EtcdMetadataKind::Node)
    } else if str_starts_with(key, "/wasmatrix/providers/") {
        Some(EtcdMetadataKind::Provider)
    } else {
        None
    }
}

/// Mirror of what the external store would hold; every key in it is an
/// allowed metadata key.
pub struct EtcdMetadataRepository {
    storage: StrMap<String>,
}

impl EtcdMetadataRepository {
    pub closed spec fn wf(&self) -> bool {
        self.storage.wf() && forall|k: Seq<char>| self.storage@.contains_key(k)
            ==> spec_classify_key(k) is Some
    }

    /// The stored entries, key to value text.
    pub closed spec fn store(&self) -> Map<Seq<char>, Seq<char>> {
        Map::new(
            |k: Seq<char>| self.storage@.contains_key(k),
            |k: Seq<char>| self.storage@[k]@,
        )
    }

    pub fn new() -> (r: Self)
        ensures
            r.wf(),
            r.store() =~= Map::<Seq<char>, Seq<char>>::empty(),
    {
        EtcdMetadataRepository { storage: StrMap::new() }
    }

    /// Store a value under the key, but only if the key is an allowed node
    /// or provider metadata key; any other key is rejected unchanged.
    pub fn put_limited_metadata(&mut self, key: &str, value: String) -> (r: Result<(), String>)
        requires
            old(self).wf(),
        ensures
            final(self).wf(),
            r is Ok <==> spec_classify_key(key@) is Some,
            r is Ok ==> final(self).store() =~= old(self).store().insert(key@, value@),
            r is Err ==> final(self).store() == old(self).store(),
    {
        match classify_key(key) {
            Some(_) => {
                self.storage.insert(String::from_str(key), value);
                proof {
                    assert(self.store() =~= old(self).store().insert(key@, value@));
                }
                Ok(())
            },
            None => Err(String::from_str("disallowed etcd key")),
        }
    }

    /// Record a node's presence under `/wasmatrix/nodes/<node_id>`.
    ///
    /// The value is a small JSON rendering of the id, address and heartbeat;
    /// only the key is pinned down here.
    pub fn put_node_presence(&mut self, node_id: &str, node_address: &str, heartbeat: i64) -> (r:
        Result<(), String>)
        requires
            old(self).wf(),
        ensures
            final(self).wf(),
            r is Ok,
            final(self).store() =~= old(self).store().insert(
                "/wasmatrix/nodes/"@ + node_id@,
                final(self).store()["/wasmatrix/nodes/"@ + node_id@],
            ),
    {
        let _ = heartbeat;
        let key = String::from_str("/wasmatrix/nodes/").concat(node_id);
        let value = String::from_str("{\"node_id\":\"").concat(node_id).concat(
            "\",\"node_address\":\"",
        ).concat(node_address).concat("\"}");
        proof {
            assert(has_prefix(key@, "/wasmatrix/nodes/"@)) by {
                assert(key@.subrange(0, "/wasmatrix/nodes/"@.len() as int) =~= "/wasmatrix/nodes/"@);
            }
        }
        let r = self.put_limited_metadata(key.as_str(), value);
        proof {
            assert(r is Ok);
        }
        Ok(())
    }

    /// Record provider metadata under `/wasmatrix/providers/<provider_id>`.
    pub fn put_provider_metadata(
        &mut self,
        provider_id: &str,
        provider_type: &str,
        node_id: &str,
        updated_at: i64,
    ) -> (r: Result<(), String>)
        requires
            old(self).wf(),
        ensures
            final(self).wf(),
            r is Ok,
            final(self).store() =~= old(self).store().insert(
                "/wasmatrix/providers/"@ + provider_id@,
                final(self).store()["/wasmatrix/providers/"@ + provider_id@],
            ),
    {
        let _ = updated_at;
        let key = String::from_str("/wasmatrix/providers/").concat(provider_id);
        let value = String::from_str("{\"provider_id\":\"").concat(provider_id).concat(
            "\",\"provider_type\":\"",
        ).concat(provider_type).concat("\",\"node_id\":\"").concat(node_id).concat("\"}");
        proof {
            assert(has_prefix(key@, "/wasmatrix/providers/"@)) by {
                assert(key@.subrange(0, "/wasmatrix/providers/"@.len() as int)
                    =~= "/wasmatrix/providers/"@);
            }
        }
        let r = self.put_limited_metadata(key.as_str(), value);
        proof {
            assert(r is Ok);
        }
        Ok(())
    }

    /// The keys currently stored.
    pub fn keys(&self) -> (r: Vec<String>)
        requires
            self.wf(),
        ensures
            forall|i: int| 0 <= i < r@.len() ==> self.store().contains_key(#[trigger] r@[i]@),
            forall|k: Seq<char>| self.store().contains_key(k) ==> exists|i: int|
                0 <= i < r@.len() && #[trigger] r@[i]@ == k,
    {
        proof {
            assert(self.store().dom() =~= self.storage@.dom());
        }
        self.storage.keys()
    }
}

/// Key discipline: whatever was written, every key in the store lies under
/// the node or provider prefix.
pub proof fn lemma_etcd_key_discipline(repo: &EtcdMetadataRepository)
    requires
        repo.wf(),
    ensures
        forall|k: Seq<char>| repo.store().contains_key(k) ==> has_prefix(k, "/wasmatrix/nodes/"@)
            || has_prefix(k, "/wasmatrix/providers/"@),
{
}

/// Configuration for the external metadata store.
#[derive(Debug)]
pub struct EtcdConfig {
    pub endpoints: Vec<String>,
    pub username: Option<String>,
    pub password: Option<String>,
}

impl EtcdConfig {
    /// A configuration exists only with at least one endpoint.
    pub fn from_parts(
        endpoints: Vec<String>,
        username: Option<String>,
        password: Option<String>,
    ) -> (r: Option<Self>)
        ensures
            r is Some <==> endpoints@.len() > 0,
            r matches Some(c) ==> c.endpoints@ == endpoints@,
    {
        if endpoints.is_empty() {
            None
        } else {
            Some(EtcdConfig { endpoints, username, password })
        }
    }
}

} // verus!
