//! Capability assignments per instance and runtime permission enforcement.

use vstd::prelude::*;

use crate::external::str_starts_with;
use crate::strmap::{lemma_filter_push, str_eq, StrMap};
use crate::types::{AssignmentView, CapabilityAssignment, CoreError, ProviderType};

verus! {

impl DeepView for CapabilityAssignment {
    type V = AssignmentView;

    open spec fn deep_view(&self) -> AssignmentView {
        self@
    }
}

/// `p` is a prefix of `s`.
pub open spec fn has_prefix(s: Seq<char>, p: Seq<char>) -> bool {
    p.len() <= s.len() && s.subrange(0, p.len() as int) == p
}

/// The permission vocabulary of each provider type: fixed words, plus
/// domain scopes for HTTP and topic scopes for messaging.
pub open spec fn valid_permission(pt: ProviderType, p: Seq<char>) -> bool {
    match pt {
        ProviderType::Kv => p == "kv:read"@ || p == "kv:write"@ || p == "kv:delete"@,
        ProviderType::Http => p == "http:request"@ || has_prefix(p, "http:domain:"@),
        ProviderType::Messaging => p == "msg:publish"@ || p == "msg:subscribe"@ || has_prefix(
            p,
            "msg:publish:"@,
        ) || has_prefix(p, "msg:subscribe:"@),
    }
}

pub open spec fn valid_permissions(pt: ProviderType, perms: Seq<Seq<char>>) -> bool {
    forall|i: int| 0 <= i < perms.len() ==> valid_permission(pt, #[trigger] perms[i])
}

/// An assignment is accepted when its capability id names a registered
/// provider of the same type and every permission is in that type's
/// vocabulary.
pub open spec fn assignment_acceptable(
    providers: Map<Seq<char>, ProviderType>,
    a: AssignmentView,
) -> bool {
    &&& providers.contains_key(a.capability_id)
    &&& providers[a.capability_id] == a.provider_type
    &&& valid_permissions(a.provider_type, a.permissions)
}

/// The instance holds an assignment with the given capability id.
pub open spec fn spec_has_capability(
    m: Map<Seq<char>, Seq<AssignmentView>>,
    instance_id: Seq<char>,
    capability_id: Seq<char>,
) -> bool {
    m.contains_key(instance_id) && exists|i: int|
        0 <= i < m[instance_id].len() && (#[trigger] m[instance_id][i]).capability_id
            == capability_id
}

/// Some assignment of the instance with the given capability id carries the
/// permission.
pub open spec fn spec_has_permission(
    m: Map<Seq<char>, Seq<AssignmentView>>,
    instance_id: Seq<char>,
    capability_id: Seq<char>,
    permission: Seq<char>,
) -> bool {
    m.contains_key(instance_id) && exists|i: int|
        0 <= i < m[instance_id].len() && (#[trigger] m[instance_id][i]).capability_id
            == capability_id && m[instance_id][i].permissions.contains(permission)
}

/// Keeps the assignments whose capability id differs from `cap`.
pub open spec fn without_capability(cap: Seq<char>) -> spec_fn(AssignmentView) -> bool {
    |a: AssignmentView| a.capability_id != cap
}

/// Registry of capability assignments, keyed by instance id, with the known
/// providers used to validate new assignments.
pub struct CapabilityRegistry {
    assignments: StrMap<Vec<CapabilityAssignment>>,
    known_providers: StrMap<ProviderType>,
}

impl CapabilityRegistry {
    pub closed spec fn wf(&self) -> bool {
        self.assignments.wf() && self.known_providers.wf()
    }

    /// Abstract assignments: each instance id to its assignment list.
    pub closed spec fn assignments_map(&self) -> Map<Seq<char>, Seq<AssignmentView>> {
        Map::new(
            |k: Seq<char>| self.assignments@.contains_key(k),
            |k: Seq<char>| self.assignments@[k].deep_view(),
        )
    }

    /// Abstract provider registrations: provider id to its type.
    pub closed spec fn providers_map(&self) -> Map<Seq<char>, ProviderType> {
        self.known_providers@
    }

    pub fn new() -> (r: Self)
        ensures
            r.wf(),
            r.assignments_map() =~= Map::<Seq<char>, Seq<AssignmentView>>::empty(),
            r.providers_map() =~= Map::<Seq<char>, ProviderType>::empty(),
            r.total_assignments() == 0,
    {
        CapabilityRegistry { assignments: StrMap::new(), known_providers: StrMap::new() }
    }

    /// Register a known provider for validation.
    pub fn register_provider(&mut self, provider_id: &str, provider_type: ProviderType)
        requires
            old(self).wf(),
        ensures
            final(self).wf(),
            final(self).providers_map() =~= old(self).providers_map().insert(
                provider_id@,
                provider_type,
            ),
            final(self).assignments_map() == old(self).assignments_map(),
            final(self).total_assignments() == old(self).total_assignments(),
    {
        self.known_providers.insert(String::from_str(provider_id), provider_type);
        proof {
            assert(self.assignments_map() =~= old(self).assignments_map());
        }
    }

    /// Validate an assignment against the known providers.
    fn validate_assignment(&self, assignment: &CapabilityAssignment) -> (r: Result<(), CoreError>)
        requires
            self.wf(),
        ensures
            r is Ok <==> assignment_acceptable(self.providers_map(), assignment@),
            r matches Err(e) ==> e is InvalidCapabilityAssignment,
    {
        let provider_type = match self.known_providers.get(assignment.capability_id.as_str()) {
            Some(pt) => *pt,
            None => {
                return Err(
                    CoreError::InvalidCapabilityAssignment(
                        String::from_str("provider not found for capability id"),
                    ),
                );
            },
        };
        if provider_type != assignment.provider_type {
            return Err(
                CoreError::InvalidCapabilityAssignment(String::from_str("provider type mismatch")),
            );
        }
        self.validate_permissions(assignment, provider_type)
    }

    /// Validate the permission strings for the provider type's vocabulary.
    fn validate_permissions(
        &self,
        assignment: &CapabilityAssignment,
        provider_type: ProviderType,
    ) -> (r: Result<(), CoreError>)
        ensures
            r is Ok <==> valid_permissions(provider_type, assignment@.permissions),
            r matches Err(e) ==> e is InvalidCapabilityAssignment,
    {
        let n = assignment.permissions.len();
        for i in 0..n
            invariant
                n == assignment.permissions@.len(),
                forall|j: int| 0 <= j < i ==> valid_permission(
                    provider_type,
                    #[trigger] assignment@.permissions[j],
                ),
        {
            let p = assignment.permissions[i].as_str();
            let ok = match provider_type {
                ProviderType::Kv => {
                    str_eq(p, "kv:read") || str_eq(p, "kv:write") || str_eq(p, "kv:delete")
                },
                ProviderType::Http => {
                    str_eq(p, "http:request") || str_starts_with(p, "http:domain:")
                },
                ProviderType::Messaging => {
                    str_eq(p, "msg:publish") || str_eq(p, "msg:subscribe") || str_starts_with(
                        p,
                        "msg:publish:",
                    ) || str_starts_with(p, "msg:subscribe:")
                },
            };
            if !ok {
                proof {
                    assert(!valid_permission(provider_type, assignment@.permissions[i as int]));
                }
                return Err(
                    CoreError::InvalidCapabilityAssignment(
                        String::from_str("permission outside the provider type's vocabulary"),
                    ),
                );
            }
            proof {
                assert(valid_permission(provider_type, assignment@.permissions[i as int]));
            }
        }
        Ok(())
    }

    /// Store an assignment for its instance after validation.
    pub fn assign_capability(&mut self, assignment: CapabilityAssignment) -> (r: Result<
        (),
        CoreError,
    >)
        requires
            old(self).wf(),
        ensures
            final(self).wf(),
            final(self).providers_map() == old(self).providers_map(),
            r is Ok <==> assignment_acceptable(old(self).providers_map(), assignment@),
            r matches Err(e) ==> e is InvalidCapabilityAssignment && final(self).assignments_map()
                == old(self).assignments_map() && final(self).total_assignments() == old(
                self,
            ).total_assignments(),
            r is Ok ==> final(self).total_assignments() == old(self).total_assignments() + 1,
            r is Ok ==> final(self).assignments_map() =~~= old(self).assignments_map().insert(
                assignment@.instance_id,
                if old(self).assignments_map().contains_key(assignment@.instance_id) {
                    old(self).assignments_map()[assignment@.instance_id].push(assignment@)
                } else {
                    seq![assignment@]
                },
            ),
    {
        if let Err(e) = self.validate_assignment(&assignment) {
            return Err(e);
        }
        let key = assignment.instance_id.clone();
        let ghost a_view = assignment@;
        let ghost vs0 = self.assignments.val_seq();
        let ghost m0 = self.assignments@;
        let mut list = match self.assignments.remove(key.as_str()) {
            Some(v) => v,
            None => Vec::new(),
        };
        let ghost vs1 = self.assignments.val_seq();
        let ghost list_len0 = list@.len();
        proof {
            if m0.contains_key(key@) {
                let i = choose|i: int|
                    0 <= i < vs0.len() && #[trigger] vs0[i] == m0[key@] && vs1 =~= vs0.remove(i);
                lemma_total_len_remove(vs0, i);
                assert(total_len(vs1) == total_len(vs0) - list_len0);
            } else {
                assert(total_len(vs1) == total_len(vs0));
            }
        }
        let ghost list0 = list.deep_view();
        list.push(assignment);
        proof {
            assert(list.deep_view() =~= list0.push(a_view));
        }
        self.assignments.insert(key, list);
        proof {
            assert(self.assignments_map() =~~= old(self).assignments_map().insert(
                a_view.instance_id,
                if old(self).assignments_map().contains_key(a_view.instance_id) {
                    old(self).assignments_map()[a_view.instance_id].push(a_view)
                } else {
                    seq![a_view]
                },
            ));
            let pushed = self.assignments.val_seq().last();
            assert(self.assignments.val_seq() =~= vs1.push(pushed));
            lemma_total_len_push(vs1, pushed);
            assert(pushed.len() == list_len0 + 1);
        }
        Ok(())
    }

    /// Remove the assignments with the given capability id; the instance's
    /// entry disappears entirely when none are left. Returns whether any
    /// assignment was removed.
    pub fn revoke_capability(&mut self, instance_id: &str, capability_id: &str) -> (r: Result<
        bool,
        CoreError,
    >)
        requires
            old(self).wf(),
        ensures
            final(self).wf(),
            final(self).providers_map() == old(self).providers_map(),
            r matches Ok(b) && b == spec_has_capability(
                old(self).assignments_map(),
                instance_id@,
                capability_id@,
            ),
            final(self).total_assignments() == old(self).total_assignments() - (if old(
                self,
            ).assignments_map().contains_key(instance_id@) {
                old(self).assignments_map()[instance_id@].len() - old(
                    self,
                ).assignments_map()[instance_id@].filter(without_capability(capability_id@)).len()
            } else {
                0
            }),
            final(self).assignments_map() =~~= {
                let m = old(self).assignments_map();
                if !m.contains_key(instance_id@) {
                    m
                } else {
                    let kept = m[instance_id@].filter(without_capability(capability_id@));
                    if kept.len() == 0 {
                        m.remove(instance_id@)
                    } else {
                        m.insert(instance_id@, kept)
                    }
                }
            },
    {
        let ghost vs0 = self.assignments.val_seq();
        let ghost m0 = self.assignments@;
        let list = match self.assignments.remove(instance_id) {
            Some(v) => v,
            None => {
                proof {
                    assert(self.assignments_map() =~= old(self).assignments_map());
                }
                return Ok(false);
            },
        };
        let ghost vs1 = self.assignments.val_seq();
        proof {
            let i = choose|i: int|
                0 <= i < vs0.len() && #[trigger] vs0[i] == m0[instance_id@] && vs1 =~= vs0.remove(
                    i,
                );
            lemma_total_len_remove(vs0, i);
            assert(total_len(vs1) == total_len(vs0) - list@.len());
            assert(list.deep_view().len() == list@.len());
            assert(old(self).assignments_map()[instance_id@].len() == list@.len());
        }
        let n = list.len();
        let mut kept: Vec<CapabilityAssignment> = Vec::new();
        let mut removed = false;
        for i in 0..n
            invariant
                n == list@.len(),
                kept.deep_view() =~= list.deep_view().subrange(0, i as int).filter(
                    without_capability(capability_id@),
                ),
                removed == exists|j: int|
                    0 <= j < i && (#[trigger] list.deep_view()[j]).capability_id == capability_id@,
        {
            let ghost prefix = list.deep_view().subrange(0, i as int);
            let ghost av = list.deep_view()[i as int];
            proof {
                assert(list.deep_view().subrange(0, i + 1) =~= prefix.push(av));
                lemma_filter_push(prefix, av, without_capability(capability_id@));
            }
            let ghost kept0 = kept.deep_view();
            let matched = str_eq(list[i].capability_id.as_str(), capability_id);
            if matched {
                removed = true;
                proof {
                    assert(list.deep_view()[i as int].capability_id == capability_id@);
                }
            } else {
                let a = list[i].clone();
                proof {
                    assert(a@ == av);
                }
                kept.push(a);
                proof {
                    assert(kept.deep_view() =~= kept0.push(av));
                }
            }
            proof {
                assert(matched == !without_capability(capability_id@)(av));
                assert(kept.deep_view() =~= list.deep_view().subrange(0, i + 1).filter(
                    without_capability(capability_id@),
                ));
            }
        }
        proof {
            assert(list.deep_view().subrange(0, n as int) =~= list.deep_view());
        }
        let kept_empty = kept.is_empty();
        if !kept_empty {
            let ghost kept_view = kept.deep_view();
            let ghost kept_len = kept@.len();
            self.assignments.insert(String::from_str(instance_id), kept);
            proof {
                assert(self.assignments_map() =~~= old(self).assignments_map().insert(
                    instance_id@,
                    kept_view,
                ));
                let pushed = self.assignments.val_seq().last();
                assert(self.assignments.val_seq() =~= vs1.push(pushed));
                lemma_total_len_push(vs1, pushed);
                assert(pushed.len() == kept_len);
                assert(kept_view.len() == kept_len);
            }
        } else {
            proof {
                assert(self.assignments_map() =~= old(self).assignments_map().remove(
                    instance_id@,
                ));
                assert(total_len(self.assignments.val_seq()) == total_len(vs1));
            }
        }
        Ok(removed)
    }

    /// The assignments of one instance, if any.
    pub fn get_capabilities(&self, instance_id: &str) -> (r: Option<&Vec<CapabilityAssignment>>)
        requires
            self.wf(),
        ensures
            match r {
                Some(v) => self.assignments_map().contains_key(instance_id@) && v.deep_view()
                    == self.assignments_map()[instance_id@],
                None => !self.assignments_map().contains_key(instance_id@),
            },
    {
        self.assignments.get(instance_id)
    }

    pub fn has_capability(&self, instance_id: &str, capability_id: &str) -> (r: bool)
        requires
            self.wf(),
        ensures
            r == spec_has_capability(self.assignments_map(), instance_id@, capability_id@),
    {
        let list = match self.assignments.get(instance_id) {
            Some(v) => v,
            None => {
                return false;
            },
        };
        let n = list.len();
        for i in 0..n
            invariant
                n == list@.len(),
                list.deep_view() == self.assignments_map()[instance_id@],
                self.assignments_map().contains_key(instance_id@),
                forall|j: int| 0 <= j < i ==> (#[trigger] list.deep_view()[j]).capability_id
                    != capability_id@,
        {
            if str_eq(list[i].capability_id.as_str(), capability_id) {
                proof {
                    assert(list.deep_view()[i as int].capability_id == capability_id@);
                }
                return true;
            }
        }
        false
    }

    pub fn has_permission(&self, instance_id: &str, capability_id: &str, permission: &str) -> (r:
        bool)
        requires
            self.wf(),
        ensures
            r == spec_has_permission(
                self.assignments_map(),
                instance_id@,
                capability_id@,
                permission@,
            ),
    {
        let list = match self.assignments.get(instance_id) {
            Some(v) => v,
            None => {
                return false;
            },
        };
        let n = list.len();
        for i in 0..n
            invariant
                n == list@.len(),
                list.deep_view() == self.assignments_map()[instance_id@],
                self.assignments_map().contains_key(instance_id@),
                forall|j: int| 0 <= j < i ==> !((#[trigger] list.deep_view()[j]).capability_id
                    == capability_id@ && list.deep_view()[j].permissions.contains(permission@)),
        {
            if str_eq(list[i].capability_id.as_str(), capability_id) && list[i].has_permission(
                permission,
            ) {
                proof {
                    assert(list.deep_view()[i as int].capability_id == capability_id@
                        && list.deep_view()[i as int].permissions.contains(permission@));
                }
                return true;
            }
        }
        false
    }

    /// The instance ids that hold assignments.
    pub fn get_instances(&self) -> (r: Vec<String>)
        requires
            self.wf(),
        ensures
            r@.len() == self.assignments_map().dom().len(),
            forall|i: int| 0 <= i < r@.len() ==> self.assignments_map().contains_key(
                #[trigger] r@[i]@,
            ),
            forall|k: Seq<char>| self.assignments_map().contains_key(k) ==> exists|i: int|
                0 <= i < r@.len() && #[trigger] r@[i]@ == k,
    {
        proof {
            assert(self.assignments_map().dom() =~= self.assignments@.dom());
        }
        self.assignments.keys()
    }

    /// The total number of stored assignments, over all instances.
    pub closed spec fn total_assignments(&self) -> int {
        total_len(self.assignments.val_seq())
    }

    pub fn assignment_count(&self) -> (r: usize)
        requires
            self.wf(),
        ensures
            r == self.total_assignments() || (r == usize::MAX && self.total_assignments()
                >= usize::MAX),
    {
        let lists = self.assignments.values();
        let ghost vs = self.assignments.val_seq();
        let n = lists.len();
        let mut acc: usize = 0;
        for i in 0..n
            invariant
                n == lists@.len(),
                n == vs.len(),
                forall|j: int| 0 <= j < n ==> cloned::<Vec<CapabilityAssignment>>(
                    vs[j],
                    #[trigger] lists@[j],
                ),
                acc == total_len(vs.subrange(0, i as int)) || (acc == usize::MAX && total_len(
                    vs.subrange(0, i as int),
                ) >= usize::MAX),
        {
            proof {
                assert(vs.subrange(0, i + 1) =~= vs.subrange(0, i as int).push(vs[i as int]));
                lemma_total_len_push(vs.subrange(0, i as int), vs[i as int]);
                assert(lists@[i as int].len() == vs[i as int].len());
            }
            let l = lists[i].len();
            if acc > usize::MAX - l {
                acc = usize::MAX;
            } else {
                acc = acc + l;
            }
        }
        proof {
            assert(vs.subrange(0, n as int) =~= vs);
        }
        acc
    }

    /// Drop every assignment of the instance.
    pub fn clear_instance(&mut self, instance_id: &str)
        requires
            old(self).wf(),
        ensures
            final(self).wf(),
            final(self).providers_map() == old(self).providers_map(),
            final(self).assignments_map() =~= old(self).assignments_map().remove(instance_id@),
            final(self).total_assignments() == old(self).total_assignments() - (if old(
                self,
            ).assignments_map().contains_key(instance_id@) {
                old(self).assignments_map()[instance_id@].len() as int
            } else {
                0
            }),
    {
        match self.assignments.remove(instance_id) {
            Some(dropped) => {
                proof {
                    let i = choose|i: int|
                        0 <= i < old(self).assignments.val_seq().len() && #[trigger] old(
                            self,
                        ).assignments.val_seq()[i] == dropped && self.assignments.val_seq()
                            =~= old(self).assignments.val_seq().remove(i);
                    lemma_total_len_remove(old(self).assignments.val_seq(), i);
                    assert(dropped.deep_view() == old(
                        self,
                    ).assignments_map()[instance_id@]);
                }
            },
            None => {},
        }
    }
}

/// The summed length of a sequence of assignment lists.
pub open spec fn total_len(s: Seq<Vec<CapabilityAssignment>>) -> int
    decreases s.len(),
{
    if s.len() == 0 {
        0
    } else {
        total_len(s.drop_last()) + s.last().len()
    }
}

proof fn lemma_total_len_push(s: Seq<Vec<CapabilityAssignment>>, v: Vec<CapabilityAssignment>)
    ensures
        total_len(s.push(v)) == total_len(s) + v.len(),
        total_len(s) >= 0,
    decreases s.len(),
{
    assert(s.push(v).drop_last() =~= s);
    if s.len() > 0 {
        lemma_total_len_push(s.drop_last(), s.last());
        assert(s.drop_last().push(s.last()) =~= s);
    }
}

proof fn lemma_total_len_remove(s: Seq<Vec<CapabilityAssignment>>, i: int)
    requires
        0 <= i < s.len(),
    ensures
        total_len(s.remove(i)) == total_len(s) - s[i].len(),
    decreases s.len(),
{
    if i == s.len() - 1 {
        assert(s.remove(i) =~= s.drop_last());
    } else {
        let dl = s.drop_last();
        let t = s.remove(i);
        assert(t.last() == s.last());
        assert(t.drop_last() =~= dl.remove(i));
        lemma_total_len_remove(dl, i);
        assert(dl[i] == s[i]);
        assert(total_len(t) == total_len(dl.remove(i)) + s.last().len()) by {
            assert(t =~= dl.remove(i).push(s.last()));
            lemma_total_len_push(dl.remove(i), s.last());
        }
    }
}

/// The permission a KV operation requires, if the operation is known.
pub open spec fn spec_kv_permission(op: Seq<char>) -> Option<Seq<char>> {
    if op == "get"@ || op == "list"@ || op == "exists"@ {
        Some("kv:read"@)
    } else if op == "set"@ {
        Some("kv:write"@)
    } else if op == "delete"@ {
        Some("kv:delete"@)
    } else {
        None
    }
}

/// The permission an HTTP operation requires, if the operation is known.
pub open spec fn spec_http_permission(op: Seq<char>) -> Option<Seq<char>> {
    if op == "request"@ {
        Some("http:request"@)
    } else {
        None
    }
}

/// The permission a messaging operation requires, if the operation is
/// known. Subscribing and unsubscribing are gated alike.
pub open spec fn spec_messaging_permission(op: Seq<char>) -> Option<Seq<char>> {
    if op == "publish"@ {
        Some("msg:publish"@)
    } else if op == "subscribe"@ || op == "unsubscribe"@ {
        Some("msg:subscribe"@)
    } else {
        None
    }
}

pub open spec fn spec_required_permission(pt: ProviderType, op: Seq<char>) -> Option<Seq<char>> {
    match pt {
        ProviderType::Kv => spec_kv_permission(op),
        ProviderType::Http => spec_http_permission(op),
        ProviderType::Messaging => spec_messaging_permission(op),
    }
}

/// An invocation passes enforcement exactly when the instance holds the
/// capability, the operation is known, and the required permission is among
/// the instance's assignments for that capability.
pub open spec fn spec_enforce_ok(
    m: Map<Seq<char>, Seq<AssignmentView>>,
    instance_id: Seq<char>,
    capability_id: Seq<char>,
    pt: ProviderType,
    op: Seq<char>,
) -> bool {
    &&& spec_has_capability(m, instance_id, capability_id)
    &&& spec_required_permission(pt, op) is Some
    &&& spec_has_permission(m, instance_id, capability_id, spec_required_permission(pt, op)->Some_0)
}

/// Runtime permission enforcer for capability invocations.
pub struct PermissionEnforcer;

impl PermissionEnforcer {
    /// Required permission for a KV operation.
    pub fn kv_permission(operation: &str) -> (r: Option<&str>)
        ensures
            match r {
                Some(p) => spec_kv_permission(operation@) == Some(p@),
                None => spec_kv_permission(operation@) is None,
            },
    {
        if str_eq(operation, "get") || str_eq(operation, "list") || str_eq(operation, "exists") {
            Some("kv:read")
        } else if str_eq(operation, "set") {
            Some("kv:write")
        } else if str_eq(operation, "delete") {
            Some("kv:delete")
        } else {
            None
        }
    }

    /// Required permission for an HTTP operation.
    pub fn http_permission(operation: &str) -> (r: Option<&str>)
        ensures
            match r {
                Some(p) => spec_http_permission(operation@) == Some(p@),
                None => spec_http_permission(operation@) is None,
            },
    {
        if str_eq(operation, "request") {
            Some("http:request")
        } else {
            None
        }
    }

    /// Required permission for a messaging operation.
    pub fn messaging_permission(operation: &str) -> (r: Option<&str>)
        ensures
            match r {
                Some(p) => spec_messaging_permission(operation@) == Some(p@),
                None => spec_messaging_permission(operation@) is None,
            },
    {
        if str_eq(operation, "publish") {
            Some("msg:publish")
        } else if str_eq(operation, "subscribe") || str_eq(operation, "unsubscribe") {
            Some("msg:subscribe")
        } else {
            None
        }
    }

    /// Required permission for any operation.
    pub fn required_permission(provider_type: ProviderType, operation: &str) -> (r: Option<&str>)
        ensures
            match r {
                Some(p) => spec_required_permission(provider_type, operation@) == Some(p@),
                None => spec_required_permission(provider_type, operation@) is None,
            },
    {
        match provider_type {
            ProviderType::Kv => Self::kv_permission(operation),
            ProviderType::Http => Self::http_permission(operation),
            ProviderType::Messaging => Self::messaging_permission(operation),
        }
    }

    /// Enforce the permission check for a capability invocation. Each of
    /// the three refusals carries its own message, and a permission denial
    /// names the required permission.
    pub fn enforce(
        registry: &CapabilityRegistry,
        instance_id: &str,
        capability_id: &str,
        provider_type: ProviderType,
        operation: &str,
    ) -> (r: Result<(), CoreError>)
        requires
            registry.wf(),
        ensures
            r is Ok <==> spec_enforce_ok(
                registry.assignments_map(),
                instance_id@,
                capability_id@,
                provider_type,
                operation@,
            ),
            r matches Err(e) ==> e matches CoreError::InvalidCapabilityAssignment(m) && m@ == (
            if !spec_has_capability(registry.assignments_map(), instance_id@, capability_id@) {
                "instance does not have the capability assigned"@
            } else if spec_required_permission(provider_type, operation@) is None {
                "unknown operation for provider type"@
            } else {
                "Permission denied: missing '"@ + spec_required_permission(
                    provider_type,
                    operation@,
                )->Some_0 + "' permission"@
            }),
    {
        if !registry.has_capability(instance_id, capability_id) {
            return Err(
                CoreError::InvalidCapabilityAssignment(
                    String::from_str("instance does not have the capability assigned"),
                ),
            );
        }
        let required = match Self::required_permission(provider_type, operation) {
            Some(p) => p,
            None => {
                return Err(
                    CoreError::InvalidCapabilityAssignment(
                        String::from_str("unknown operation for provider type"),
                    ),
                );
            },
        };
        if !registry.has_permission(instance_id, capability_id, required) {
            let message = String::from_str("Permission denied: missing '").concat(required).concat(
                "' permission",
            );
            return Err(CoreError::InvalidCapabilityAssignment(message));
        }
        Ok(())
    }
}

impl CapabilityRegistry {
    /// A registry with no assignment entries counts zero assignments.
    pub proof fn lemma_assignment_count_of_empty(&self)
        requires
            self.wf(),
            self.assignments_map().dom() =~= Set::<Seq<char>>::empty(),
        ensures
            self.total_assignments() == 0,
    {
        assert(self.assignments@.dom() =~= Set::<Seq<char>>::empty()) by {
            assert(self.assignments_map().dom() =~= self.assignments@.dom());
        }
        self.assignments.lemma_dom_len_eq_val_len();
        assert(self.assignments.val_seq().len() == 0);
    }
}

/// Capability isolation: enforcement for an instance reads only that
/// instance's own assignments. Two registries that agree on instance `a`'s
/// entry decide every invocation of `a` alike, whatever the assignments of
/// any other instance.
pub proof fn lemma_capability_isolation(
    m1: Map<Seq<char>, Seq<AssignmentView>>,
    m2: Map<Seq<char>, Seq<AssignmentView>>,
    a: Seq<char>,
    capability_id: Seq<char>,
    pt: ProviderType,
    op: Seq<char>,
)
    requires
        m1.contains_key(a) == m2.contains_key(a),
        m1.contains_key(a) ==> m1[a] == m2[a],
    ensures
        spec_enforce_ok(m1, a, capability_id, pt, op) == spec_enforce_ok(
            m2,
            a,
            capability_id,
            pt,
            op,
        ),
{
}

} // verus!
