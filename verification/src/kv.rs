//! In-memory KV capability provider with permission validation.

use vstd::prelude::*;

use crate::capability::{has_prefix, spec_kv_permission};
use crate::external::str_starts_with;
use crate::strmap::StrMap;
use crate::types::{CapabilityAssignment, CoreError};

verus! {

/// The listing of a prefix: every returned key is a stored key with the
/// prefix, and every stored key with the prefix is returned.
pub open spec fn lists_prefix_keys(
    store: Map<Seq<char>, Seq<char>>,
    prefix: Seq<char>,
    ks: Seq<String>,
) -> bool {
    &&& forall|i: int| 0 <= i < ks.len() ==> store.contains_key((#[trigger] ks[i])@) && has_prefix(
        ks[i]@,
        prefix,
    )
    &&& forall|k: Seq<char>| store.contains_key(k) && has_prefix(k, prefix) ==> exists|i: int|
        0 <= i < ks.len() && (#[trigger] ks[i])@ == k
}

/// Thread-safe under the caller's lock: a string store scoped to one
/// provider id.
pub struct KvProvider {
    provider_id: String,
    storage: StrMap<String>,
}

impl KvProvider {
    pub closed spec fn wf(&self) -> bool {
        self.storage.wf()
    }

    /// The stored entries, key to value text.
    pub closed spec fn store(&self) -> Map<Seq<char>, Seq<char>> {
        Map::new(
            |k: Seq<char>| self.storage@.contains_key(k),
            |k: Seq<char>| self.storage@[k]@,
        )
    }

    pub closed spec fn provider_id_view(&self) -> Seq<char> {
        self.provider_id@
    }

    pub fn new(provider_id: String) -> (r: Self)
        ensures
            r.wf(),
            r.provider_id_view() == provider_id@,
            r.store() =~= Map::<Seq<char>, Seq<char>>::empty(),
    {
        KvProvider { provider_id, storage: StrMap::new() }
    }

    /// Exactly the operations whose required permission the assignment
    /// grants pass; unknown operations are refused.
    pub fn validate_permission(
        &self,
        assignment: &CapabilityAssignment,
        operation: &str,
    ) -> (r: Result<(), CoreError>)
        ensures
            r is Ok <==> (spec_kv_permission(operation@) matches Some(p)
                && assignment.spec_has_permission(p)),
            r matches Err(e) ==> e is InvalidCapabilityAssignment,
    {
        let required = match crate::capability::PermissionEnforcer::kv_permission(operation) {
            Some(p) => p,
            None => {
                return Err(
                    CoreError::InvalidCapabilityAssignment(String::from_str("unknown operation")),
                );
            },
        };
        if !assignment.has_permission(required) {
            return Err(
                CoreError::InvalidCapabilityAssignment(
                    String::from_str("permission denied: required permission missing"),
                ),
            );
        }
        Ok(())
    }

    /// The value under the key, if any.
    pub fn get(&self, key: &str) -> (r: Result<Option<String>, CoreError>)
        requires
            self.wf(),
        ensures
            r matches Ok(o) && (match o {
                Some(v) => self.store().contains_key(key@) && v@ == self.store()[key@],
                None => !self.store().contains_key(key@),
            }),
    {
        match self.storage.get(key) {
            Some(v) => Ok(Some(v.clone())),
            None => Ok(None),
        }
    }

    /// Store a value under the key.
    pub fn set(&mut self, key: String, value: String) -> (r: Result<(), CoreError>)
        requires
            old(self).wf(),
        ensures
            final(self).wf(),
            r is Ok,
            final(self).store() =~= old(self).store().insert(key@, value@),
    {
        self.storage.insert(key, value);
        Ok(())
    }

    /// Delete the key, returning whether it existed.
    pub fn delete(&mut self, key: &str) -> (r: Result<bool, CoreError>)
        requires
            old(self).wf(),
        ensures
            final(self).wf(),
            r matches Ok(b) && b == old(self).store().contains_key(key@),
            final(self).store() =~= old(self).store().remove(key@),
    {
        match self.storage.remove(key) {
            Some(_) => Ok(true),
            None => Ok(false),
        }
    }

    /// The keys that start with the prefix.
    pub fn list(&self, prefix: &str) -> (r: Result<Vec<String>, CoreError>)
        requires
            self.wf(),
        ensures
            r is Ok,
            r matches Ok(ks) ==> lists_prefix_keys(self.store(), prefix@, ks@),
    {
        let keys = self.storage.keys();
        let n = keys.len();
        let mut r: Vec<String> = Vec::new();
        for i in 0..n
            invariant
                n == keys@.len(),
                forall|j: int| 0 <= j < keys@.len() ==> self.store().contains_key(
                    (#[trigger] keys@[j])@,
                ),
                forall|j: int| 0 <= j < r@.len() ==> self.store().contains_key(
                    (#[trigger] r@[j])@,
                ) && has_prefix(r@[j]@, prefix@),
                forall|j: int| 0 <= j < i && has_prefix((#[trigger] keys@[j])@, prefix@)
                    ==> exists|l: int| 0 <= l < r@.len() && (#[trigger] r@[l])@ == keys@[j]@,
        {
            let ghost r0 = r@;
            if str_starts_with(keys[i].as_str(), prefix) {
                let k = keys[i].clone();
                r.push(k);
                proof {
                    assert((r@[r@.len() - 1])@ == keys@[i as int]@);
                    assert forall|j: int|
                        0 <= j < i + 1 && has_prefix((#[trigger] keys@[j])@, prefix@) implies exists|l: int|
                        0 <= l < r@.len() && (#[trigger] r@[l])@ == keys@[j]@ by {
                        if j < i {
                            let l = choose|l: int|
                                0 <= l < r0.len() && (#[trigger] r0[l])@ == keys@[j]@;
                            assert(r@[l] == r0[l]);
                            assert(r@[l]@ == keys@[j]@);
                        } else {
                            assert(r@[r@.len() - 1]@ == keys@[j]@);
                        }
                    }
                }
            }
        }
        proof {
            assert forall|k: Seq<char>|
                self.store().contains_key(k) && has_prefix(k, prefix@) implies exists|l: int|
                0 <= l < r@.len() && (#[trigger] r@[l])@ == k by {
                let j = choose|j: int| 0 <= j < keys@.len() && (#[trigger] keys@[j])@ == k;
                assert(has_prefix(keys@[j]@, prefix@));
                let l = choose|l: int| 0 <= l < r@.len() && (#[trigger] r@[l])@ == keys@[j]@;
                assert(r@[l]@ == k);
            }
            assert(lists_prefix_keys(self.store(), prefix@, r@));
        }
        Ok(r)
    }

    /// Whether the key is present.
    pub fn contains(&self, key: &str) -> (r: Result<bool, CoreError>)
        requires
            self.wf(),
        ensures
            r matches Ok(b) && b == self.store().contains_key(key@),
    {
        Ok(self.storage.contains_key(key))
    }

    /// Drop every entry.
    pub fn clear(&mut self) -> (r: Result<(), CoreError>)
        ensures
            final(self).wf(),
            r is Ok,
            final(self).store() =~= Map::<Seq<char>, Seq<char>>::empty(),
            final(self).provider_id_view() == old(self).provider_id_view(),
    {
        self.storage.clear();
        Ok(())
    }
}

} // verus!
