//! Isolation between instances: capability assignments are scoped per
//! instance and provider access is scoped to the requesting instance.

use vstd::prelude::*;

use crate::strmap::{str_eq, StrMap};
use crate::types::{AssignmentView, CapabilityAssignment, CoreError};

verus! {

/// Two assignment lists share an assignment: same capability id and the
/// same permission list.
pub open spec fn shares_assignment(a: Seq<AssignmentView>, b: Seq<AssignmentView>) -> bool {
    exists|i: int, j: int|
        0 <= i < a.len() && 0 <= j < b.len() && (#[trigger] a[i]).capability_id == (
        #[trigger] b[j]).capability_id && a[i].permissions == b[j].permissions
}

/// Every assignment in the list is scoped to the given instance.
pub open spec fn all_scoped(a: Seq<AssignmentView>, instance_id: Seq<char>) -> bool {
    forall|i: int| 0 <= i < a.len() ==> (#[trigger] a[i]).instance_id == instance_id
}

/// The first assignment in the list with the given capability id, if any.
pub open spec fn first_with_capability(s: Seq<AssignmentView>, cap: Seq<char>) -> Option<
    AssignmentView,
>
    decreases s.len(),
{
    if s.len() == 0 {
        None
    } else if s[0].capability_id == cap {
        Some(s[0])
    } else {
        first_with_capability(s.subrange(1, s.len() as int), cap)
    }
}

/// Compare two permission lists element by element.
fn perms_eq(x: &Vec<String>, y: &Vec<String>) -> (r: bool)
    ensures
        r == (x.deep_view() == y.deep_view()),
{
    if x.len() != y.len() {
        proof {
            assert(x.deep_view().len() == x@.len());
            assert(y.deep_view().len() == y@.len());
        }
        return false;
    }
    let n = x.len();
    for i in 0..n
        invariant
            n == x@.len(),
            n == y@.len(),
            forall|j: int| 0 <= j < i ==> #[trigger] x.deep_view()[j] == y.deep_view()[j],
    {
        if !str_eq(x[i].as_str(), y[i].as_str()) {
            proof {
                assert(x.deep_view()[i as int] != y.deep_view()[i as int]);
            }
            return false;
        }
        proof {
            assert(x.deep_view()[i as int] == y.deep_view()[i as int]);
        }
    }
    proof {
        assert(x.deep_view() =~= y.deep_view());
    }
    true
}

/// Isolation policy enforcer.
pub struct IsolationPolicy;

impl IsolationPolicy {
    /// Memory isolation between instances is the execution engine's own
    /// guarantee: separate linear memory per instance, no shared mutable
    /// state, enforced bounds.
    pub fn verify_wasmtime_isolation() -> (r: Result<(), CoreError>)
        ensures
            r is Ok,
    {
        Ok(())
    }

    /// Whether two instances share a capability assignment: the same
    /// capability id with the same permission set.
    pub fn verify_capability_isolation(
        _instance_a_id: &str,
        assignments_a: &Vec<CapabilityAssignment>,
        _instance_b_id: &str,
        assignments_b: &Vec<CapabilityAssignment>,
    ) -> (r: Result<bool, CoreError>)
        ensures
            r matches Ok(b) && b == shares_assignment(
                assignments_a.deep_view(),
                assignments_b.deep_view(),
            ),
    {
        let n = assignments_a.len();
        let m = assignments_b.len();
        for i in 0..n
            invariant
                n == assignments_a@.len(),
                m == assignments_b@.len(),
                forall|i0: int, j0: int|
                    0 <= i0 < i && 0 <= j0 < m ==> !((#[trigger] assignments_a.deep_view()[i0]).capability_id
                        == (#[trigger] assignments_b.deep_view()[j0]).capability_id
                        && assignments_a.deep_view()[i0].permissions
                        == assignments_b.deep_view()[j0].permissions),
        {
            for j in 0..m
                invariant
                    n == assignments_a@.len(),
                    m == assignments_b@.len(),
                    i < n,
                    forall|j0: int|
                        0 <= j0 < j ==> !((#[trigger] assignments_b.deep_view()[j0]).capability_id
                            == assignments_a.deep_view()[i as int].capability_id
                            && assignments_b.deep_view()[j0].permissions
                            == assignments_a.deep_view()[i as int].permissions),
            {
                if str_eq(
                    assignments_a[i].capability_id.as_str(),
                    assignments_b[j].capability_id.as_str(),
                ) && perms_eq(&assignments_a[i].permissions, &assignments_b[j].permissions) {
                    proof {
                        assert((assignments_a.deep_view()[i as int]).capability_id == (
                        assignments_b.deep_view()[j as int]).capability_id
                            && assignments_a.deep_view()[i as int].permissions
                            == assignments_b.deep_view()[j as int].permissions);
                    }
                    return Ok(true);
                }
            }
        }
        return Ok(false);
    }

    /// Whether every assignment in the list is scoped to the requesting
    /// instance.
    pub fn verify_provider_scoping(
        requesting_instance: &str,
        instance_assignments: &Vec<CapabilityAssignment>,
    ) -> (r: Result<bool, CoreError>)
        ensures
            r matches Ok(b) && b == all_scoped(
                instance_assignments.deep_view(),
                requesting_instance@,
            ),
    {
        let n = instance_assignments.len();
        for i in 0..n
            invariant
                n == instance_assignments@.len(),
                forall|j: int| 0 <= j < i ==> (#[trigger] instance_assignments.deep_view()[j]).instance_id
                    == requesting_instance@,
        {
            if !str_eq(instance_assignments[i].instance_id.as_str(), requesting_instance) {
                proof {
                    assert(instance_assignments.deep_view()[i as int].instance_id
                        != requesting_instance@);
                }
                return Ok(false);
            }
            proof {
                assert(instance_assignments.deep_view()[i as int].instance_id
                    == requesting_instance@);
            }
        }
        Ok(true)
    }
}

/// Sandbox tracking instance boundaries: per-instance memory and
/// capability assignments.
pub struct IsolationSandbox {
    instance_memory: StrMap<Vec<u8>>,
    instance_capabilities: StrMap<Vec<CapabilityAssignment>>,
}

impl IsolationSandbox {
    pub closed spec fn wf(&self) -> bool {
        self.instance_memory.wf() && self.instance_capabilities.wf()
            && self.instance_memory@.dom() =~= self.instance_capabilities@.dom()
    }

    /// The registered instance ids.
    pub closed spec fn registered(&self) -> Set<Seq<char>> {
        self.instance_memory@.dom()
    }

    /// The isolated memory per registered instance.
    pub closed spec fn memory_map(&self) -> Map<Seq<char>, Seq<u8>> {
        Map::new(
            |k: Seq<char>| self.instance_memory@.contains_key(k),
            |k: Seq<char>| self.instance_memory@[k]@,
        )
    }

    /// The capability assignments per registered instance.
    pub closed spec fn capabilities_map(&self) -> Map<Seq<char>, Seq<AssignmentView>> {
        Map::new(
            |k: Seq<char>| self.instance_capabilities@.contains_key(k),
            |k: Seq<char>| self.instance_capabilities@[k].deep_view(),
        )
    }

    pub fn new() -> (r: Self)
        ensures
            r.wf(),
            r.registered() =~= Set::<Seq<char>>::empty(),
    {
        IsolationSandbox { instance_memory: StrMap::new(), instance_capabilities: StrMap::new() }
    }

    /// Register an instance with isolated (initially empty) memory and its
    /// scoped capabilities.
    pub fn register_instance(
        &mut self,
        instance_id: String,
        capabilities: Vec<CapabilityAssignment>,
    ) -> (r: Result<(), CoreError>)
        requires
            old(self).wf(),
        ensures
            r is Ok,
            final(self).wf(),
            final(self).registered() =~= old(self).registered().insert(instance_id@),
            final(self).memory_map() =~~= old(self).memory_map().insert(
                instance_id@,
                Seq::<u8>::empty(),
            ),
            final(self).capabilities_map() =~~= old(self).capabilities_map().insert(
                instance_id@,
                capabilities.deep_view(),
            ),
    {
        let ghost caps_view = capabilities.deep_view();
        self.instance_memory.insert(instance_id.clone(), Vec::new());
        proof {
            assert(self.memory_map() =~~= old(self).memory_map().insert(
                instance_id@,
                Seq::<u8>::empty(),
            ));
        }
        self.instance_capabilities.insert(instance_id, capabilities);
        proof {
            assert(self.capabilities_map() =~~= old(self).capabilities_map().insert(
                instance_id@,
                caps_view,
            ));
        }
        Ok(())
    }

    /// Remove all of the instance's data from the sandbox. Unregistering an
    /// unknown instance succeeds and changes nothing.
    pub fn unregister_instance(&mut self, instance_id: &str) -> (r: Result<(), CoreError>)
        requires
            old(self).wf(),
        ensures
            r is Ok,
            final(self).wf(),
            final(self).registered() =~= old(self).registered().remove(instance_id@),
            final(self).memory_map() =~~= old(self).memory_map().remove(instance_id@),
            final(self).capabilities_map() =~~= old(self).capabilities_map().remove(instance_id@),
    {
        let _ = self.instance_memory.remove(instance_id);
        let _ = self.instance_capabilities.remove(instance_id);
        Ok(())
    }

    /// Distinct instances never share memory; an instance trivially shares
    /// memory with itself.
    pub fn verify_memory_isolation(&self, instance_id: &str, target_instance_id: &str) -> (r:
        Result<bool, CoreError>)
        ensures
            r matches Ok(b) && b == (instance_id@ != target_instance_id@),
    {
        Ok(!str_eq(instance_id, target_instance_id))
    }

    /// Whether the instance may use the capability: it must hold an
    /// assignment with that id, and the first such assignment must be scoped
    /// to the instance itself.
    pub fn verify_capability_isolation(
        &self,
        instance_id: &str,
        _target_instance_id: &str,
        capability_id: &str,
    ) -> (r: Result<bool, CoreError>)
        requires
            self.wf(),
        ensures
            r matches Ok(b) && b == (self.capabilities_map().contains_key(instance_id@) && match
                first_with_capability(
                self.capabilities_map()[instance_id@],
                capability_id@,
            ) {
                Some(a) => a.instance_id == instance_id@,
                None => false,
            }),
    {
        let caps = match self.instance_capabilities.get(instance_id) {
            Some(v) => v,
            None => {
                return Ok(false);
            },
        };
        let ghost s = self.capabilities_map()[instance_id@];
        let n = caps.len();
        proof {
            assert(s.subrange(0, s.len() as int) =~= s);
        }
        for i in 0..n
            invariant
                n == caps@.len(),
                caps.deep_view() == s,
                self.capabilities_map().contains_key(instance_id@),
                s == self.capabilities_map()[instance_id@],
                forall|j: int| 0 <= j < i ==> (#[trigger] s[j]).capability_id != capability_id@,
                first_with_capability(s, capability_id@) == first_with_capability(
                    s.subrange(i as int, s.len() as int),
                    capability_id@,
                ),
        {
            let ghost suffix = s.subrange(i as int, s.len() as int);
            proof {
                assert(suffix[0] == s[i as int]);
                assert(suffix.subrange(1, suffix.len() as int) =~= s.subrange(
                    i + 1,
                    s.len() as int,
                ));
            }
            if str_eq(caps[i].capability_id.as_str(), capability_id) {
                proof {
                    assert(first_with_capability(s, capability_id@) == Some(s[i as int]));
                    assert(s[i as int] == caps@[i as int]@);
                }
                let scoped = str_eq(caps[i].instance_id.as_str(), instance_id);
                proof {
                    assert(scoped == (s[i as int].instance_id == instance_id@));
                }
                return Ok(scoped);
            }
            proof {
                assert(s[i as int].capability_id != capability_id@);
            }
        }
        proof {
            assert(s.subrange(n as int, s.len() as int).len() == 0);
        }
        Ok(false)
    }

    /// Capabilities scoped to the instance, if registered.
    pub fn get_instance_capabilities(&self, instance_id: &str) -> (r: Option<
        &Vec<CapabilityAssignment>,
    >)
        requires
            self.wf(),
        ensures
            match r {
                Some(v) => self.capabilities_map().contains_key(instance_id@) && v.deep_view()
                    == self.capabilities_map()[instance_id@],
                None => !self.capabilities_map().contains_key(instance_id@),
            },
    {
        self.instance_capabilities.get(instance_id)
    }

    /// The instance's isolated memory, if registered.
    pub fn get_instance_memory(&self, instance_id: &str) -> (r: Option<&Vec<u8>>)
        requires
            self.wf(),
        ensures
            match r {
                Some(m) => self.registered().contains(instance_id@) && m@
                    == self.memory_map()[instance_id@],
                None => !self.registered().contains(instance_id@),
            },
    {
        self.instance_memory.get(instance_id)
    }

    pub fn is_instance_registered(&self, instance_id: &str) -> (r: bool)
        requires
            self.wf(),
        ensures
            r == self.registered().contains(instance_id@),
    {
        self.instance_memory.contains_key(instance_id)
    }

    pub fn instance_count(&self) -> (r: usize)
        requires
            self.wf(),
        ensures
            self.registered().finite(),
            r == self.registered().len(),
    {
        self.instance_memory.len()
    }
}

} // verus!
