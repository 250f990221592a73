//! Node agent: concurrent lifecycle of in-process Wasm instances with crash
//! detection, restart-policy evaluation and an immutable event history.

use vstd::prelude::*;

use crate::events::{by_instance, EventView, ExecutionEvent, ExecutionEventRecorder};
use crate::external::now_unix_seconds;
use crate::policy::{spec_should_restart, CrashInfo, RestartPolicyEvaluator};
use crate::strmap::StrMap;
use crate::types::{
    check_wasm_magic, valid_wasm_module, AssignmentView, CapabilityAssignment, CoreError,
    InstanceStatus, RestartPolicy,
};

verus! {

#[verifier::external_type_specification]
#[verifier::external_body]
pub struct ExEngine(wasmtime::Engine);

#[verifier::external_type_specification]
#[verifier::external_body]
pub struct ExModule(wasmtime::Module);

#[verifier::external_type_specification]
#[verifier::external_body]
pub struct ExInstance(wasmtime::Instance);

#[verifier::external_type_specification]
#[verifier::external_body]
#[verifier::reject_recursive_types(T)]
pub struct ExStore<T: 'static>(wasmtime::Store<T>);

/// Relies on wasmtime::Engine::new with the default configuration; the
/// engine is opaque to the library.
#[verifier::external_body]
fn engine_new() -> (r: Result<wasmtime::Engine, String>) {
    match wasmtime::Engine::new(&wasmtime::Config::default()) {
        Ok(e) => Ok(e),
        Err(e) => Err(e.to_string()),
    }
}

/// Relies on wasmtime::Module::new: compile the module bytes; whether the
/// engine accepts them is its own concern.
#[verifier::external_body]
fn module_new(engine: &wasmtime::Engine, bytes: &Vec<u8>) -> (r: Result<wasmtime::Module, String>) {
    match wasmtime::Module::new(engine, bytes.as_slice()) {
        Ok(m) => Ok(m),
        Err(e) => Err(e.to_string()),
    }
}

/// Relies on wasmtime::Store::new: a fresh store with unit data.
#[verifier::external_body]
fn store_new(engine: &wasmtime::Engine) -> (r: wasmtime::Store<()>) {
    wasmtime::Store::new(engine, ())
}

/// Relies on wasmtime::Instance::new with no imports; instantiation may
/// fail at the engine's discretion.
#[verifier::external_body]
fn instance_new(store: &mut wasmtime::Store<()>, module: &wasmtime::Module) -> (r: Result<
    wasmtime::Instance,
    String,
>) {
    match wasmtime::Instance::new(store, module, &[]) {
        Ok(i) => Ok(i),
        Err(e) => Err(e.to_string()),
    }
}

/// Abstract value of an instance handle: what the lifecycle logic reads.
pub ghost struct HandleView {
    pub instance_id: Seq<char>,
    pub module_bytes: Seq<u8>,
    pub capabilities: Seq<AssignmentView>,
    pub restart_policy: RestartPolicy,
}

/// Handle to a running Wasm instance. The compiled module, store and
/// instance are retained for the engine; the module bytes are retained so a
/// restart after a crash needs no external fetch.
pub struct InstanceHandle {
    pub instance_id: String,
    pub store: wasmtime::Store<()>,
    pub instance: wasmtime::Instance,
    pub module_bytes: Vec<u8>,
    pub capabilities: Vec<CapabilityAssignment>,
    pub restart_policy: RestartPolicy,
}

impl View for InstanceHandle {
    type V = HandleView;

    open spec fn view(&self) -> HandleView {
        HandleView {
            instance_id: self.instance_id@,
            module_bytes: self.module_bytes@,
            capabilities: self.capabilities.deep_view(),
            restart_policy: self.restart_policy,
        }
    }
}

/// What an instance's actual status is: the crashed marker wins, then the
/// live map, else `Stopped`. No intended state exists.
pub open spec fn spec_instance_status(
    crashed: Set<Seq<char>>,
    live: Set<Seq<char>>,
    instance_id: Seq<char>,
) -> InstanceStatus {
    if crashed.contains(instance_id) {
        InstanceStatus::Crashed
    } else if live.contains(instance_id) {
        InstanceStatus::Running
    } else {
        InstanceStatus::Stopped
    }
}

/// Node agent managing local Wasm instance execution.
pub struct NodeAgent {
    engine: wasmtime::Engine,
    instances: StrMap<InstanceHandle>,
    crash_history: StrMap<CrashInfo>,
    event_recorder: ExecutionEventRecorder,
    crashed_instances: StrMap<i64>,
    node_id: String,
}

impl NodeAgent {
    pub closed spec fn wf(&self) -> bool {
        &&& self.instances.wf()
        &&& self.crash_history.wf()
        &&& self.crashed_instances.wf()
        &&& self.event_recorder.wf()
        &&& forall|k: Seq<char>| self.instances@.contains_key(k)
            ==> (#[trigger] self.instances@[k])@.instance_id == k && valid_wasm_module(
            self.instances@[k]@.module_bytes,
        )
    }

    /// The live instances, keyed by instance id.
    pub closed spec fn instances_map(&self) -> Map<Seq<char>, HandleView> {
        Map::new(
            |k: Seq<char>| self.instances@.contains_key(k),
            |k: Seq<char>| self.instances@[k]@,
        )
    }

    /// The ids currently marked crashed.
    pub closed spec fn crashed(&self) -> Set<Seq<char>> {
        self.crashed_instances@.dom()
    }

    /// The crash history, keyed by instance id.
    pub closed spec fn crash_history_map(&self) -> Map<Seq<char>, CrashInfo> {
        self.crash_history@
    }

    /// The event log.
    pub closed spec fn log(&self) -> Seq<EventView> {
        self.event_recorder.log()
    }

    pub closed spec fn node_id_view(&self) -> Seq<char> {
        self.node_id@
    }

    pub fn new(node_id: &str) -> (r: Result<Self, CoreError>)
        ensures
            r matches Ok(a) ==> {
                &&& a.wf()
                &&& a.node_id_view() == node_id@
                &&& a.instances_map() =~= Map::<Seq<char>, HandleView>::empty()
                &&& a.crashed() =~= Set::<Seq<char>>::empty()
                &&& a.crash_history_map() =~= Map::<Seq<char>, CrashInfo>::empty()
                &&& a.log() =~= Seq::<EventView>::empty()
            },
            r matches Err(e) ==> e is InvalidInstanceId,
    {
        let engine = match engine_new() {
            Ok(e) => e,
            Err(_) => {
                return Err(
                    CoreError::InvalidInstanceId(
                        String::from_str("failed to create execution engine"),
                    ),
                );
            },
        };
        Ok(
            NodeAgent {
                engine,
                instances: StrMap::new(),
                crash_history: StrMap::new(),
                event_recorder: ExecutionEventRecorder::new(),
                crashed_instances: StrMap::new(),
                node_id: String::from_str(node_id),
            },
        )
    }

    pub fn node_id(&self) -> (r: &str)
        ensures
            r@ == self.node_id_view(),
    {
        self.node_id.as_str()
    }

    /// Start an instance locally: validate the module bytes, have the
    /// engine compile and instantiate them, record `instance_started`, and
    /// store the handle. A new handle for an existing id supersedes the old
    /// one. On any failure no partial state is stored.
    pub fn start_instance_local(
        &mut self,
        instance_id: String,
        module_bytes: Vec<u8>,
        capabilities: Vec<CapabilityAssignment>,
        restart_policy: RestartPolicy,
    ) -> (r: Result<(), CoreError>)
        requires
            old(self).wf(),
        ensures
            final(self).wf(),
            final(self).node_id_view() == old(self).node_id_view(),
            !valid_wasm_module(module_bytes@) ==> r is Err,
            r matches Err(e) ==> e is InvalidInstanceId && final(self).instances_map() == old(self).instances_map() && final(self).crashed() == old(self).crashed() && final(self).crash_history_map() == old(self).crash_history_map() && final(self).log() == old(self).log(),
            r is Ok ==> {
                &&& valid_wasm_module(module_bytes@)
                &&& final(self).instances_map() =~~= old(self).instances_map().insert(
                    instance_id@,
                    HandleView {
                        instance_id: instance_id@,
                        module_bytes: module_bytes@,
                        capabilities: capabilities.deep_view(),
                        restart_policy,
                    },
                )
                &&& final(self).crashed() == old(self).crashed()
                &&& final(self).crash_history_map() == old(self).crash_history_map()
                &&& final(self).log().len() == old(self).log().len() + 1
                &&& final(self).log() =~= old(self).log().push(final(self).log().last())
                &&& final(self).log().last().event_type == "instance_started"@
                &&& final(self).log().last().instance_id == instance_id@
            },
    {
        if !check_wasm_magic(&module_bytes) {
            return Err(CoreError::InvalidInstanceId(String::from_str("invalid Wasm module format")));
        }
        let module = match module_new(&self.engine, &module_bytes) {
            Ok(m) => m,
            Err(_) => {
                return Err(
                    CoreError::InvalidInstanceId(String::from_str("failed to compile Wasm module")),
                );
            },
        };
        let mut store = store_new(&self.engine);
        let instance = match instance_new(&mut store, &module) {
            Ok(i) => i,
            Err(_) => {
                return Err(
                    CoreError::InvalidInstanceId(
                        String::from_str("failed to instantiate Wasm module"),
                    ),
                );
            },
        };
        self.event_recorder.record_start(instance_id.as_str());
        let ghost handle_view = HandleView {
            instance_id: instance_id@,
            module_bytes: module_bytes@,
            capabilities: capabilities.deep_view(),
            restart_policy,
        };
        let handle = InstanceHandle {
            instance_id: instance_id.clone(),
            store,
            instance,
            module_bytes,
            capabilities,
            restart_policy,
        };
        proof {
            assert(handle@ == handle_view);
        }
        self.instances.insert(instance_id, handle);
        proof {
            assert(self.instances_map() =~~= old(self).instances_map().insert(
                handle_view.instance_id,
                handle_view,
            ));
        }
        Ok(())
    }

    /// Stop a running instance: remove the handle and any crash marker and
    /// record `instance_stopped`. Unknown instances are `InvalidInstanceId`.
    pub fn stop_instance_local(&mut self, instance_id: &str) -> (r: Result<(), CoreError>)
        requires
            old(self).wf(),
        ensures
            final(self).wf(),
            final(self).node_id_view() == old(self).node_id_view(),
            final(self).crash_history_map() == old(self).crash_history_map(),
            r is Ok <==> old(self).instances_map().contains_key(instance_id@),
            r matches Err(e) ==> e is InvalidInstanceId && final(self).instances_map() == old(self).instances_map() && final(self).crashed() == old(self).crashed() && final(self).log()
                == old(self).log(),
            r is Ok ==> {
                &&& final(self).instances_map() =~~= old(self).instances_map().remove(instance_id@)
                &&& final(self).crashed() =~= old(self).crashed().remove(instance_id@)
                &&& final(self).log().len() == old(self).log().len() + 1
                &&& final(self).log() =~= old(self).log().push(final(self).log().last())
                &&& final(self).log().last().event_type == "instance_stopped"@
                &&& final(self).log().last().instance_id == instance_id@
            },
    {
        match self.instances.remove(instance_id) {
            Some(_) => {
                let _ = self.crashed_instances.remove(instance_id);
                self.event_recorder.record_stop(instance_id);
                proof {
                    assert(self.instances_map() =~~= old(self).instances_map().remove(
                        instance_id@,
                    ));
                }
                Ok(())
            },
            None => {
                proof {
                    assert(self.instances_map() =~~= old(self).instances_map());
                }
                Err(CoreError::InvalidInstanceId(String::from_str("instance not found")))
            },
        }
    }

    /// Handle a detected crash: record `instance_crashed`, set the crash
    /// marker, count the crash, and evaluate the instance's restart policy.
    /// Returns the restart delay in seconds, or `None` for no restart (also
    /// when the handle is already gone).
    pub fn on_instance_crash(&mut self, instance_id: &str, error: &str) -> (r: Option<u64>)
        requires
            old(self).wf(),
        ensures
            final(self).wf(),
            final(self).node_id_view() == old(self).node_id_view(),
            final(self).instances_map() == old(self).instances_map(),
            final(self).crashed() =~= old(self).crashed().insert(instance_id@),
            final(self).log().len() == old(self).log().len() + 1,
            final(self).log() =~= old(self).log().push(final(self).log().last()),
            final(self).log().last().event_type == "instance_crashed"@,
            final(self).log().last().instance_id == instance_id@,
            final(self).log().last().details matches Some(d) && d.dom() =~= set!["error"@]
                && d["error"@] == error@,
            final(self).crash_history_map().contains_key(instance_id@),
            final(self).crash_history_map()[instance_id@].crash_count == (if old(self).crash_history_map().contains_key(instance_id@) {
                let c = old(self).crash_history_map()[instance_id@].crash_count;
                if c == u32::MAX {
                    c as int
                } else {
                    c + 1
                }
            } else {
                1int
            }),
            final(self).crash_history_map() =~= old(self).crash_history_map().insert(
                instance_id@,
                final(self).crash_history_map()[instance_id@],
            ),
            ({
                let outcome = if old(self).instances_map().contains_key(instance_id@) {
                    spec_should_restart(
                        old(self).instances_map()[instance_id@].restart_policy,
                        final(self).crash_history_map()[instance_id@].crash_count,
                    )
                } else {
                    None
                };
                match r {
                    Some(d) => outcome == Some(d as int),
                    None => outcome is None,
                }
            }),
    {
        self.event_recorder.record_crash(instance_id, error);
        self.crashed_instances.insert(String::from_str(instance_id), now_unix_seconds());
        let mut info = match self.crash_history.get(instance_id) {
            Some(c) => *c,
            None => CrashInfo::new(),
        };
        info.record_crash();
        self.crash_history.insert(String::from_str(instance_id), info);
        match self.instances.get(instance_id) {
            Some(handle) => RestartPolicyEvaluator::should_restart(&handle.restart_policy, &info),
            None => None,
        }
    }

    /// The instance's actual status: `Crashed` while a crash marker stands,
    /// else `Running` while a handle is live, else `Stopped`.
    pub fn get_instance_status(&self, instance_id: &str) -> (r: InstanceStatus)
        requires
            self.wf(),
        ensures
            r == spec_instance_status(
                self.crashed(),
                self.instances_map().dom(),
                instance_id@,
            ),
    {
        proof {
            assert(self.instances_map().dom() =~= self.instances@.dom());
        }
        if self.crashed_instances.contains_key(instance_id) {
            InstanceStatus::Crashed
        } else if self.instances.contains_key(instance_id) {
            InstanceStatus::Running
        } else {
            InstanceStatus::Stopped
        }
    }

    /// How many crashes the instance has accumulated; zero when none.
    pub fn get_crash_count(&self, instance_id: &str) -> (r: u32)
        requires
            self.wf(),
        ensures
            r == if self.crash_history_map().contains_key(instance_id@) {
                self.crash_history_map()[instance_id@].crash_count as int
            } else {
                0int
            },
    {
        match self.crash_history.get(instance_id) {
            Some(c) => c.crash_count,
            None => 0,
        }
    }

    /// Restart an instance from its retained handle: the identifier, module
    /// bytes, capabilities and policy carry over; the crash marker is
    /// cleared; the crash history is preserved; the log gains
    /// `instance_stopped`, `instance_started`, `instance_restarted`. On an
    /// engine failure nothing changes.
    pub fn restart_instance(&mut self, instance_id: &str) -> (r: Result<(), CoreError>)
        requires
            old(self).wf(),
        ensures
            final(self).wf(),
            final(self).node_id_view() == old(self).node_id_view(),
            final(self).crash_history_map() == old(self).crash_history_map(),
            !old(self).instances_map().contains_key(instance_id@) ==> r is Err,
            r matches Err(e) ==> e is InvalidInstanceId && final(self).instances_map() == old(self).instances_map() && final(self).crashed() == old(self).crashed() && final(self).log()
                == old(self).log(),
            r is Ok ==> {
                &&& old(self).instances_map().contains_key(instance_id@)
                &&& final(self).instances_map() =~~= old(self).instances_map().insert(
                    instance_id@,
                    old(self).instances_map()[instance_id@],
                )
                &&& final(self).crashed() =~= old(self).crashed().remove(instance_id@)
                &&& final(self).log().len() == old(self).log().len() + 3
                &&& final(self).log().subrange(0, old(self).log().len() as int) =~= old(self).log()
                &&& final(self).log()[old(self).log().len() as int].event_type
                    == "instance_stopped"@
                &&& final(self).log()[old(self).log().len() as int + 1].event_type
                    == "instance_started"@
                &&& final(self).log()[old(self).log().len() as int + 2].event_type
                    == "instance_restarted"@
                &&& forall|i: int| old(self).log().len() <= i < final(self).log().len()
                    ==> (#[trigger] final(self).log()[i]).instance_id == instance_id@
            },
    {
        let (module_bytes, capabilities, restart_policy) = match self.instances.get(instance_id) {
            Some(handle) => {
                let bytes = handle.module_bytes.clone();
                let caps = handle.capabilities.clone();
                proof {
                    assert(bytes@ =~= handle.module_bytes@);
                    assert(caps.deep_view() =~= handle.capabilities.deep_view());
                }
                (bytes, caps, handle.restart_policy)
            },
            None => {
                return Err(
                    CoreError::InvalidInstanceId(String::from_str("instance not found for restart")),
                );
            },
        };
        // The engine work happens before any state changes, so a failure
        // leaves the agent exactly as it was.
        let module = match module_new(&self.engine, &module_bytes) {
            Ok(m) => m,
            Err(_) => {
                return Err(
                    CoreError::InvalidInstanceId(String::from_str("failed to compile Wasm module")),
                );
            },
        };
        let mut store = store_new(&self.engine);
        let instance = match instance_new(&mut store, &module) {
            Ok(i) => i,
            Err(_) => {
                return Err(
                    CoreError::InvalidInstanceId(
                        String::from_str("failed to instantiate Wasm module"),
                    ),
                );
            },
        };
        let _ = self.crashed_instances.remove(instance_id);
        let _ = self.instances.remove(instance_id);
        self.event_recorder.record_stop(instance_id);
        self.event_recorder.record_start(instance_id);
        let handle = InstanceHandle {
            instance_id: String::from_str(instance_id),
            store,
            instance,
            module_bytes,
            capabilities,
            restart_policy,
        };
        self.instances.insert(String::from_str(instance_id), handle);
        self.event_recorder.record_restart(instance_id);
        proof {
            assert(self.instances_map() =~~= old(self).instances_map().insert(
                instance_id@,
                old(self).instances_map()[instance_id@],
            ));
            assert(self.log().subrange(0, old(self).log().len() as int) =~= old(self).log());
        }
        Ok(())
    }

    /// The ids of all live instances.
    pub fn list_instances(&self) -> (r: Vec<String>)
        requires
            self.wf(),
        ensures
            r@.len() == self.instances_map().dom().len(),
            forall|i: int| 0 <= i < r@.len() ==> self.instances_map().contains_key(
                #[trigger] r@[i]@,
            ),
            forall|k: Seq<char>| self.instances_map().contains_key(k) ==> exists|i: int|
                0 <= i < r@.len() && #[trigger] r@[i]@ == k,
    {
        proof {
            assert(self.instances_map().dom() =~= self.instances@.dom());
        }
        self.instances.keys()
    }

    /// The full event log.
    pub fn get_execution_events(&self) -> (r: &Vec<ExecutionEvent>)
        ensures
            crate::events::events_view(r@) == self.log(),
    {
        self.event_recorder.get_events()
    }

    /// The events of one instance, in log order.
    pub fn get_execution_events_for_instance(&self, instance_id: &str) -> (r: Vec<ExecutionEvent>)
        ensures
            crate::events::events_view(r@) =~= self.log().filter(by_instance(instance_id@)),
    {
        self.event_recorder.get_events_for_instance(instance_id)
    }
}

/// Actual-status law: what `get_instance_status` answers depends solely on
/// whether the id is in the crashed-marker set, then the live set; two
/// agents agreeing on those memberships answer alike.
pub proof fn lemma_actual_status(
    crashed1: Set<Seq<char>>,
    live1: Set<Seq<char>>,
    crashed2: Set<Seq<char>>,
    live2: Set<Seq<char>>,
    instance_id: Seq<char>,
)
    requires
        crashed1.contains(instance_id) == crashed2.contains(instance_id),
        live1.contains(instance_id) == live2.contains(instance_id),
    ensures
        spec_instance_status(crashed1, live1, instance_id) == spec_instance_status(
            crashed2,
            live2,
            instance_id,
        ),
{
}

impl NodeAgent {
    /// One status update per live instance, carrying each instance's actual
    /// status, ready for a heartbeat report. An instance still marked
    /// crashed reports `Crashed` even while its handle lives.
    pub fn heartbeat_updates(&self) -> (r: Vec<crate::protocol::InstanceStatusUpdate>)
        requires
            self.wf(),
        ensures
            r@.len() == self.instances_map().dom().len(),
            forall|i: int| 0 <= i < r@.len() ==> {
                let u = (#[trigger] r@[i])@;
                self.instances_map().contains_key(u.instance_id) && u.status
                    == spec_instance_status(
                    self.crashed(),
                    self.instances_map().dom(),
                    u.instance_id,
                ) && u.error_message is None
            },
            forall|k: Seq<char>| self.instances_map().contains_key(k) ==> exists|i: int|
                0 <= i < r@.len() && (#[trigger] r@[i])@.instance_id == k,
    {
        let ids = self.list_instances();
        let n = ids.len();
        let mut r: Vec<crate::protocol::InstanceStatusUpdate> = Vec::new();
        for i in 0..n
            invariant
                self.wf(),
                n == ids@.len(),
                r@.len() == i,
                forall|j: int| 0 <= j < n ==> self.instances_map().contains_key(
                    (#[trigger] ids@[j])@,
                ),
                forall|j: int| 0 <= j < i ==> {
                    let u = (#[trigger] r@[j])@;
                    u.instance_id == ids@[j]@ && u.status == spec_instance_status(
                        self.crashed(),
                        self.instances_map().dom(),
                        u.instance_id,
                    ) && u.error_message is None
                },
        {
            let status = self.get_instance_status(ids[i].as_str());
            let update = crate::protocol::InstanceStatusUpdate {
                instance_id: ids[i].clone(),
                status,
                error_message: None,
            };
            r.push(update);
        }
        proof {
            assert forall|k: Seq<char>| self.instances_map().contains_key(k) implies exists|i: int|
                0 <= i < r@.len() && (#[trigger] r@[i])@.instance_id == k by {
                let i = choose|i: int| 0 <= i < ids@.len() && (#[trigger] ids@[i])@ == k;
                assert(r@[i]@.instance_id == k);
            }
        }
        r
    }
}

} // verus!
