//! Capability providers: per-provider lifecycle states, the in-memory
//! pub/sub repository with its permission checks, the KV store, and the
//! HTTP provider's permission enforcement.

use vstd::prelude::*;

use crate::capability::has_prefix;
use crate::external::{str_starts_with, url_host, host_of};
use crate::strmap::{lemma_filter_push, str_eq, StrMap};
use crate::types::{CapabilityAssignment, CoreError, ProviderType};

verus! {

#[derive(Clone, Copy, Debug, PartialEq, Eq, Structural)]
pub enum ProviderState {
    Running,
    Stopped,
}

/// Per-provider lifecycle states, keyed by provider id.
pub struct InMemoryProviderLifecycleRepository {
    states: StrMap<ProviderState>,
}

impl InMemoryProviderLifecycleRepository {
    pub closed spec fn wf(&self) -> bool {
        self.states.wf()
    }

    pub closed spec fn states_map(&self) -> Map<Seq<char>, ProviderState> {
        self.states@
    }

    pub fn new() -> (r: Self)
        ensures
            r.wf(),
            r.states_map() =~= Map::<Seq<char>, ProviderState>::empty(),
    {
        InMemoryProviderLifecycleRepository { states: StrMap::new() }
    }

    pub fn upsert_state(&mut self, provider_id: &str, state: ProviderState) -> (r: Result<
        (),
        CoreError,
    >)
        requires
            old(self).wf(),
        ensures
            final(self).wf(),
            r is Ok,
            final(self).states_map() =~= old(self).states_map().insert(provider_id@, state),
    {
        self.states.insert(String::from_str(provider_id), state);
        Ok(())
    }

    pub fn get_state(&self, provider_id: &str) -> (r: Result<Option<ProviderState>, CoreError>)
        requires
            self.wf(),
        ensures
            r matches Ok(o) && o == (if self.states_map().contains_key(provider_id@) {
                Some(self.states_map()[provider_id@])
            } else {
                None::<ProviderState>
            }),
    {
        match self.states.get(provider_id) {
            Some(s) => Ok(Some(*s)),
            None => Ok(None),
        }
    }
}

/// Lifecycle service: providers are `Running` or `Stopped`; a provider never
/// seen before is auto-registered as `Running` on first use.
pub struct ProviderLifecycleService {
    repo: InMemoryProviderLifecycleRepository,
}

impl ProviderLifecycleService {
    pub closed spec fn wf(&self) -> bool {
        self.repo.wf()
    }

    pub closed spec fn states_map(&self) -> Map<Seq<char>, ProviderState> {
        self.repo.states_map()
    }

    pub fn new(repo: InMemoryProviderLifecycleRepository) -> (r: Self)
        requires
            repo.wf(),
        ensures
            r.wf(),
            r.states_map() == repo.states_map(),
    {
        ProviderLifecycleService { repo }
    }

    pub fn start_provider(&mut self, provider_id: &str) -> (r: Result<(), CoreError>)
        requires
            old(self).wf(),
        ensures
            final(self).wf(),
            r is Ok,
            final(self).states_map() =~= old(self).states_map().insert(
                provider_id@,
                ProviderState::Running,
            ),
    {
        self.repo.upsert_state(provider_id, ProviderState::Running)
    }

    pub fn stop_provider(&mut self, provider_id: &str) -> (r: Result<(), CoreError>)
        requires
            old(self).wf(),
        ensures
            final(self).wf(),
            r is Ok,
            final(self).states_map() =~= old(self).states_map().insert(
                provider_id@,
                ProviderState::Stopped,
            ),
    {
        self.repo.upsert_state(provider_id, ProviderState::Stopped)
    }

    /// Ok while the provider is `Running`; a stopped provider is an error;
    /// an unknown provider is auto-registered as `Running`.
    pub fn ensure_provider_available(&mut self, provider_id: &str) -> (r: Result<(), CoreError>)
        requires
            old(self).wf(),
        ensures
            final(self).wf(),
            r is Ok <==> !(old(self).states_map().contains_key(provider_id@) && old(self).states_map()[provider_id@] == ProviderState::Stopped),
            r matches Err(e) ==> e is InvalidCapabilityAssignment && final(self).states_map()
                == old(self).states_map(),
            r is Ok ==> final(self).states_map() =~= old(self).states_map().insert(
                provider_id@,
                ProviderState::Running,
            ),
    {
        let state = match self.repo.get_state(provider_id) {
            Ok(s) => s,
            Err(e) => {
                return Err(e);
            },
        };
        match state {
            Some(ProviderState::Stopped) => Err(
                CoreError::InvalidCapabilityAssignment(String::from_str("provider is stopped")),
            ),
            Some(ProviderState::Running) => {
                proof {
                    assert(old(self).states_map().insert(provider_id@, ProviderState::Running)
                        =~= old(self).states_map());
                }
                Ok(())
            },
            None => self.start_provider(provider_id),
        }
    }
}

/// Controller over the lifecycle service.
pub struct ProviderLifecycleController {
    service: ProviderLifecycleService,
}

impl ProviderLifecycleController {
    pub closed spec fn wf(&self) -> bool {
        self.service.wf()
    }

    pub closed spec fn states_map(&self) -> Map<Seq<char>, ProviderState> {
        self.service.states_map()
    }

    pub fn new(service: ProviderLifecycleService) -> (r: Self)
        requires
            service.wf(),
        ensures
            r.wf(),
            r.states_map() == service.states_map(),
    {
        ProviderLifecycleController { service }
    }

    pub fn start_provider(&mut self, provider_id: &str) -> (r: Result<(), CoreError>)
        requires
            old(self).wf(),
        ensures
            final(self).wf(),
            r is Ok,
            final(self).states_map() =~= old(self).states_map().insert(
                provider_id@,
                ProviderState::Running,
            ),
    {
        self.service.start_provider(provider_id)
    }

    pub fn stop_provider(&mut self, provider_id: &str) -> (r: Result<(), CoreError>)
        requires
            old(self).wf(),
        ensures
            final(self).wf(),
            r is Ok,
            final(self).states_map() =~= old(self).states_map().insert(
                provider_id@,
                ProviderState::Stopped,
            ),
    {
        self.service.stop_provider(provider_id)
    }

    pub fn ensure_provider_available(&mut self, provider_id: &str) -> (r: Result<(), CoreError>)
        requires
            old(self).wf(),
        ensures
            final(self).wf(),
            r is Ok <==> !(old(self).states_map().contains_key(provider_id@) && old(self).states_map()[provider_id@] == ProviderState::Stopped),
            r matches Err(e) ==> e is InvalidCapabilityAssignment && final(self).states_map()
                == old(self).states_map(),
            r is Ok ==> final(self).states_map() =~= old(self).states_map().insert(
                provider_id@,
                ProviderState::Running,
            ),
    {
        self.service.ensure_provider_available(provider_id)
    }
}

/// A message accepted by the in-memory pub/sub repository.
#[derive(Debug)]
pub struct PublishedMessage {
    pub topic: String,
    pub payload: String,
}

/// In-memory pub/sub: the published messages in order, and each instance's
/// subscribed topics.
pub struct InMemoryMessagingProviderRepository {
    subscriptions: StrMap<Vec<String>>,
    published_messages: Vec<PublishedMessage>,
}

impl InMemoryMessagingProviderRepository {
    pub closed spec fn wf(&self) -> bool {
        self.subscriptions.wf()
    }

    /// The published messages, as (topic, payload) pairs in order.
    pub closed spec fn published(&self) -> Seq<(Seq<char>, Seq<char>)> {
        self.published_messages@.map_values(|m: PublishedMessage| (m.topic@, m.payload@))
    }

    /// The topics each instance is subscribed to.
    pub closed spec fn subscriptions_map(&self) -> Map<Seq<char>, Seq<Seq<char>>> {
        Map::new(
            |k: Seq<char>| self.subscriptions@.contains_key(k),
            |k: Seq<char>| self.subscriptions@[k].deep_view(),
        )
    }

    /// Whether the instance is subscribed to the topic.
    pub open spec fn spec_is_subscribed(&self, instance_id: Seq<char>, topic: Seq<char>) -> bool {
        self.subscriptions_map().contains_key(instance_id)
            && self.subscriptions_map()[instance_id].contains(topic)
    }

    pub fn new() -> (r: Self)
        ensures
            r.wf(),
            r.published() =~= Seq::<(Seq<char>, Seq<char>)>::empty(),
            r.subscriptions_map() =~= Map::<Seq<char>, Seq<Seq<char>>>::empty(),
    {
        InMemoryMessagingProviderRepository {
            subscriptions: StrMap::new(),
            published_messages: Vec::new(),
        }
    }

    /// Record a published message.
    pub fn publish(&mut self, topic: &str, payload: &str) -> (r: Result<(), CoreError>)
        requires
            old(self).wf(),
        ensures
            final(self).wf(),
            r is Ok,
            final(self).subscriptions_map() == old(self).subscriptions_map(),
            final(self).published() =~= old(self).published().push((topic@, payload@)),
    {
        self.published_messages.push(
            PublishedMessage {
                topic: String::from_str(topic),
                payload: String::from_str(payload),
            },
        );
        proof {
            assert(self.subscriptions_map() =~= old(self).subscriptions_map());
        }
        Ok(())
    }

    /// Subscribe the instance to the topic; subscribing twice changes
    /// nothing.
    pub fn subscribe(&mut self, instance_id: &str, topic: &str) -> (r: Result<(), CoreError>)
        requires
            old(self).wf(),
        ensures
            final(self).wf(),
            r is Ok,
            final(self).published() == old(self).published(),
            final(self).subscriptions_map() =~~= old(self).subscriptions_map().insert(
                instance_id@,
                if old(self).spec_is_subscribed(instance_id@, topic@) {
                    old(self).subscriptions_map()[instance_id@]
                } else if old(self).subscriptions_map().contains_key(instance_id@) {
                    old(self).subscriptions_map()[instance_id@].push(topic@)
                } else {
                    seq![topic@]
                },
            ),
            final(self).spec_is_subscribed(instance_id@, topic@),
    {
        let mut topics = match self.subscriptions.remove(instance_id) {
            Some(v) => v,
            None => Vec::new(),
        };
        let ghost topics0 = topics.deep_view();
        let mut already = false;
        let n = topics.len();
        for i in 0..n
            invariant
                n == topics@.len(),
                topics.deep_view() == topics0,
                already == exists|j: int| 0 <= j < i && #[trigger] topics0[j] == topic@,
        {
            if str_eq(topics[i].as_str(), topic) {
                already = true;
                proof {
                    assert(topics0[i as int] == topic@);
                }
            }
        }
        if !already {
            topics.push(String::from_str(topic));
            proof {
                assert(topics.deep_view() =~= topics0.push(topic@));
            }
        }
        let ghost new_topics = topics.deep_view();
        self.subscriptions.insert(String::from_str(instance_id), topics);
        proof {
            assert(self.subscriptions_map() =~~= old(self).subscriptions_map().insert(
                instance_id@,
                new_topics,
            ));
            if already {
                assert(new_topics =~= topics0);
            }
            assert(new_topics.contains(topic@)) by {
                if already {
                    let j = choose|j: int| 0 <= j < topics0.len() && topics0[j] == topic@;
                    assert(new_topics[j] == topic@);
                } else {
                    assert(new_topics.last() == topic@);
                }
            }
        }
        Ok(())
    }

    /// Unsubscribe the instance from the topic; returns whether a
    /// subscription was removed. An emptied topic list disappears.
    pub fn unsubscribe(&mut self, instance_id: &str, topic: &str) -> (r: Result<bool, CoreError>)
        requires
            old(self).wf(),
        ensures
            final(self).wf(),
            final(self).published() == old(self).published(),
            r matches Ok(b) && b == old(self).spec_is_subscribed(instance_id@, topic@),
            final(self).subscriptions_map() =~~= {
                let m = old(self).subscriptions_map();
                if !m.contains_key(instance_id@) {
                    m
                } else {
                    let kept = m[instance_id@].filter(other_topics(topic@));
                    if kept.len() == 0 {
                        m.remove(instance_id@)
                    } else {
                        m.insert(instance_id@, kept)
                    }
                }
            },
    {
        let topics = match self.subscriptions.remove(instance_id) {
            Some(v) => v,
            None => {
                proof {
                    assert(self.subscriptions_map() =~~= old(self).subscriptions_map());
                }
                return Ok(false);
            },
        };
        let n = topics.len();
        let mut kept: Vec<String> = Vec::new();
        let mut removed = false;
        for i in 0..n
            invariant
                n == topics@.len(),
                kept.deep_view() =~= topics.deep_view().subrange(0, i as int).filter(
                    other_topics(topic@),
                ),
                removed == exists|j: int| 0 <= j < i && #[trigger] topics.deep_view()[j] == topic@,
        {
            let ghost prefix = topics.deep_view().subrange(0, i as int);
            let ghost tv = topics.deep_view()[i as int];
            proof {
                assert(topics.deep_view().subrange(0, i + 1) =~= prefix.push(tv));
                lemma_filter_push(prefix, tv, other_topics(topic@));
            }
            let ghost kept0 = kept.deep_view();
            let matched = str_eq(topics[i].as_str(), topic);
            if matched {
                removed = true;
                proof {
                    assert(topics.deep_view()[i as int] == topic@);
                }
            } else {
                let t = topics[i].clone();
                proof {
                    assert(t@ == tv);
                }
                kept.push(t);
                proof {
                    assert(kept.deep_view() =~= kept0.push(tv));
                }
            }
            proof {
                assert(matched == !other_topics(topic@)(tv));
                assert(kept.deep_view() =~= topics.deep_view().subrange(0, i + 1).filter(
                    other_topics(topic@),
                ));
            }
        }
        proof {
            assert(topics.deep_view().subrange(0, n as int) =~= topics.deep_view());
        }
        let kept_empty = kept.is_empty();
        if !kept_empty {
            let ghost kept_view = kept.deep_view();
            self.subscriptions.insert(String::from_str(instance_id), kept);
            proof {
                assert(self.subscriptions_map() =~~= old(self).subscriptions_map().insert(
                    instance_id@,
                    kept_view,
                ));
            }
        } else {
            proof {
                assert(self.subscriptions_map() =~~= old(self).subscriptions_map().remove(
                    instance_id@,
                ));
            }
        }
        Ok(removed)
    }

    /// How many messages were published.
    pub fn published_count(&self) -> (r: usize)
        ensures
            r == self.published().len(),
    {
        self.published_messages.len()
    }

    pub fn is_subscribed(&self, instance_id: &str, topic: &str) -> (r: bool)
        requires
            self.wf(),
        ensures
            r == self.spec_is_subscribed(instance_id@, topic@),
    {
        let topics = match self.subscriptions.get(instance_id) {
            Some(v) => v,
            None => {
                return false;
            },
        };
        let n = topics.len();
        for i in 0..n
            invariant
                n == topics@.len(),
                topics.deep_view() == self.subscriptions_map()[instance_id@],
                self.subscriptions_map().contains_key(instance_id@),
                forall|j: int| 0 <= j < i ==> #[trigger] topics.deep_view()[j] != topic@,
        {
            if str_eq(topics[i].as_str(), topic) {
                proof {
                    assert(topics.deep_view()[i as int] == topic@);
                }
                return true;
            }
        }
        false
    }
}

/// Keeps the topics different from `topic`.
pub open spec fn other_topics(topic: Seq<char>) -> spec_fn(Seq<char>) -> bool {
    |t: Seq<char>| t != topic
}

/// Whether a publish on the topic is authorized by the permission set: the
/// blanket permission or the topic-scoped one.
pub open spec fn publish_allowed(perms: Seq<Seq<char>>, topic: Seq<char>) -> bool {
    perms.contains("msg:publish"@) || perms.contains("msg:publish:"@ + topic)
}

/// Whether a subscribe or unsubscribe on the topic is authorized by the
/// permission set.
pub open spec fn subscribe_allowed(perms: Seq<Seq<char>>, topic: Seq<char>) -> bool {
    perms.contains("msg:subscribe"@) || perms.contains("msg:subscribe:"@ + topic)
}

/// Whether a publish on the topic is authorized for the assignment.
pub open spec fn spec_publish_allowed(a: &CapabilityAssignment, topic: Seq<char>) -> bool {
    publish_allowed(a@.permissions, topic)
}

/// Whether a subscribe or unsubscribe on the topic is authorized for the
/// assignment.
pub open spec fn spec_subscribe_allowed(a: &CapabilityAssignment, topic: Seq<char>) -> bool {
    subscribe_allowed(a@.permissions, topic)
}

/// Messaging provider: permission checks, then the pub/sub repository.
pub struct MessagingProviderService {
    repo: InMemoryMessagingProviderRepository,
}

impl MessagingProviderService {
    pub closed spec fn wf(&self) -> bool {
        self.repo.wf()
    }

    pub closed spec fn repo_view(&self) -> &InMemoryMessagingProviderRepository {
        &self.repo
    }

    pub fn new(repo: InMemoryMessagingProviderRepository) -> (r: Self)
        requires
            repo.wf(),
        ensures
            r.wf(),
            r.repo_view() == &repo,
    {
        MessagingProviderService { repo }
    }

    /// Exactly the publishes the assignment authorizes pass.
    pub fn validate_publish_permission(
        &self,
        assignment: &CapabilityAssignment,
        topic: &str,
    ) -> (r: Result<(), CoreError>)
        ensures
            r is Ok <==> spec_publish_allowed(assignment, topic@),
            r matches Err(e) ==> e is InvalidCapabilityAssignment,
    {
        let exact = String::from_str("msg:publish:").concat(topic);
        if assignment.has_permission("msg:publish") || assignment.has_permission(exact.as_str()) {
            Ok(())
        } else {
            Err(
                CoreError::InvalidCapabilityAssignment(
                    String::from_str("permission denied: publish not authorized for topic"),
                ),
            )
        }
    }

    /// Exactly the subscribes the assignment authorizes pass.
    pub fn validate_subscribe_permission(
        &self,
        assignment: &CapabilityAssignment,
        topic: &str,
    ) -> (r: Result<(), CoreError>)
        ensures
            r is Ok <==> spec_subscribe_allowed(assignment, topic@),
            r matches Err(e) ==> e is InvalidCapabilityAssignment,
    {
        let exact = String::from_str("msg:subscribe:").concat(topic);
        if assignment.has_permission("msg:subscribe") || assignment.has_permission(exact.as_str()) {
            Ok(())
        } else {
            Err(
                CoreError::InvalidCapabilityAssignment(
                    String::from_str("permission denied: subscribe not authorized for topic"),
                ),
            )
        }
    }

    /// Publish after the permission check.
    pub fn publish(
        &mut self,
        assignment: &CapabilityAssignment,
        topic: &str,
        payload: &str,
    ) -> (r: Result<(), CoreError>)
        requires
            old(self).wf(),
        ensures
            final(self).wf(),
            r is Ok <==> spec_publish_allowed(assignment, topic@),
            r is Ok ==> final(self).repo_view().published() =~= old(self).repo_view().published().push((topic@, payload@)) && final(self).repo_view().subscriptions_map() == old(self).repo_view().subscriptions_map(),
            r matches Err(e) ==> e is InvalidCapabilityAssignment && *final(self).repo_view() == *old(self).repo_view(),
    {
        if let Err(e) = self.validate_publish_permission(assignment, topic) {
            return Err(e);
        }
        self.repo.publish(topic, payload)
    }

    /// Subscribe the assignment's instance after the permission check.
    pub fn subscribe(&mut self, assignment: &CapabilityAssignment, topic: &str) -> (r: Result<
        (),
        CoreError,
    >)
        requires
            old(self).wf(),
        ensures
            final(self).wf(),
            r is Ok <==> spec_subscribe_allowed(assignment, topic@),
            r is Ok ==> final(self).repo_view().spec_is_subscribed(
                assignment.instance_id@,
                topic@,
            ) && final(self).repo_view().published() == old(self).repo_view().published(),
            r matches Err(e) ==> e is InvalidCapabilityAssignment && *final(self).repo_view()
                == *old(self).repo_view(),
    {
        if let Err(e) = self.validate_subscribe_permission(assignment, topic) {
            return Err(e);
        }
        self.repo.subscribe(assignment.instance_id.as_str(), topic)
    }

    /// Unsubscribe the assignment's instance after the permission check;
    /// returns whether a subscription was removed.
    pub fn unsubscribe(&mut self, assignment: &CapabilityAssignment, topic: &str) -> (r: Result<
        bool,
        CoreError,
    >)
        requires
            old(self).wf(),
        ensures
            final(self).wf(),
            r is Ok <==> spec_subscribe_allowed(assignment, topic@),
            r matches Ok(b) ==> b == old(self).repo_view().spec_is_subscribed(
                assignment.instance_id@,
                topic@,
            ) && !final(self).repo_view().spec_is_subscribed(assignment.instance_id@, topic@)
                && final(self).repo_view().published() == old(self).repo_view().published(),
            r matches Err(e) ==> e is InvalidCapabilityAssignment && *final(self).repo_view()
                == *old(self).repo_view(),
    {
        if let Err(e) = self.validate_subscribe_permission(assignment, topic) {
            return Err(e);
        }
        let ghost m0 = self.repo.subscriptions_map();
        let r = self.repo.unsubscribe(assignment.instance_id.as_str(), topic);
        proof {
            broadcast use vstd::seq_lib::group_filter_ensures;

            let id = assignment.instance_id@;
            if m0.contains_key(id) {
                let kept = m0[id].filter(other_topics(topic@));
                if self.repo.subscriptions_map().contains_key(id) {
                    assert forall|j: int|
                        0 <= j < self.repo.subscriptions_map()[id].len() implies (
                    #[trigger] self.repo.subscriptions_map()[id][j]) != topic@ by {
                        assert(other_topics(topic@)(kept[j]));
                    }
                    if self.repo.subscriptions_map()[id].contains(topic@) {
                        let j = choose|j: int|
                            0 <= j < self.repo.subscriptions_map()[id].len()
                                && self.repo.subscriptions_map()[id][j] == topic@;
                        assert(false);
                    }
                }
            }
        }
        r
    }
}

/// Messaging controller: dispatch a plain-value invocation to the service.
pub struct MessagingProviderController {
    service: MessagingProviderService,
}

impl MessagingProviderController {
    pub closed spec fn wf(&self) -> bool {
        self.service.wf()
    }

    /// The pub/sub repository behind the service.
    pub closed spec fn repo_view(&self) -> &InMemoryMessagingProviderRepository {
        self.service.repo_view()
    }

    pub fn new(service: MessagingProviderService) -> (r: Self)
        requires
            service.wf(),
        ensures
            r.wf(),
            r.repo_view() == service.repo_view(),
    {
        MessagingProviderController { service }
    }

    /// Dispatch `publish`, `subscribe` or `unsubscribe`; other operations
    /// are invalid. A publish needs its payload. Exactly the invocations the
    /// permission set authorizes reach the repository.
    pub fn handle_invoke(
        &mut self,
        instance_id: &str,
        operation: &str,
        topic: &str,
        payload: Option<&str>,
        permissions: Vec<String>,
    ) -> (r: Result<bool, CoreError>)
        requires
            old(self).wf(),
        ensures
            final(self).wf(),
            r matches Err(e) ==> e is InvalidCapabilityAssignment && *final(self).repo_view()
                == *old(self).repo_view(),
            r is Ok <==> (operation@ == "publish"@ && payload is Some && publish_allowed(
                permissions.deep_view(),
                topic@,
            )) || ((operation@ == "subscribe"@ || operation@ == "unsubscribe"@)
                && subscribe_allowed(permissions.deep_view(), topic@)),
            operation@ == "publish"@ && r is Ok ==> r == Ok::<bool, CoreError>(true) && final(self).repo_view().published() =~= old(self).repo_view().published().push(
                (topic@, payload->Some_0@),
            ) && final(self).repo_view().subscriptions_map() == old(self).repo_view().subscriptions_map(),
            operation@ == "subscribe"@ && r is Ok ==> r == Ok::<bool, CoreError>(true) && final(self).repo_view().spec_is_subscribed(instance_id@, topic@) && final(self).repo_view().published() == old(self).repo_view().published(),
            operation@ == "unsubscribe"@ && r is Ok ==> (r matches Ok(b) && b == old(self).repo_view().spec_is_subscribed(instance_id@, topic@)) && !final(self).repo_view().spec_is_subscribed(instance_id@, topic@) && final(self).repo_view().published() == old(self).repo_view().published(),
    {
        let ghost perms = permissions.deep_view();
        let assignment = CapabilityAssignment::new(
            String::from_str(instance_id),
            String::from_str("messaging-provider"),
            ProviderType::Messaging,
            permissions,
        );
        proof {
            // the three operation words are pairwise distinct
            reveal_strlit("publish");
            reveal_strlit("subscribe");
            reveal_strlit("unsubscribe");
            assert("publish"@.len() == 7);
            assert("subscribe"@.len() == 9);
            assert("unsubscribe"@.len() == 11);
            assert(assignment@.permissions == perms);
            assert(assignment.instance_id@ == instance_id@);
        }
        if str_eq(operation, "publish") {
            let payload = match payload {
                Some(p) => p,
                None => {
                    return Err(
                        CoreError::InvalidCapabilityAssignment(
                            String::from_str("missing payload parameter"),
                        ),
                    );
                },
            };
            match self.service.publish(&assignment, topic, payload) {
                Ok(()) => Ok(true),
                Err(e) => Err(e),
            }
        } else if str_eq(operation, "subscribe") {
            match self.service.subscribe(&assignment, topic) {
                Ok(()) => Ok(true),
                Err(e) => Err(e),
            }
        } else if str_eq(operation, "unsubscribe") {
            match self.service.unsubscribe(&assignment, topic) {
                Ok(b) => Ok(b),
                Err(e) => Err(e),
            }
        } else {
            Err(
                CoreError::InvalidCapabilityAssignment(
                    String::from_str("unknown messaging operation"),
                ),
            )
        }
    }
}

/// Whether an HTTP request to the URL is authorized: `http:request` must be
/// granted, and if any domain-scoped permission is present, the URL's host
/// must match one of them exactly.
pub open spec fn spec_http_allowed(a: &CapabilityAssignment, url: Seq<char>) -> bool {
    &&& a.spec_has_permission("http:request"@)
    &&& host_of(url) is Some
    &&& ((exists|i: int|
        0 <= i < a@.permissions.len() && has_prefix(#[trigger] a@.permissions[i], "http:domain:"@))
        ==> a.spec_has_permission("http:domain:"@ + host_of(url)->Some_0))
}

/// A plain HTTP request, ready for a transport to execute.
#[derive(Debug)]
pub struct HttpRequest {
    pub method: String,
    pub url: String,
    pub headers: Vec<(String, String)>,
    /// The request body, serialized, if any.
    pub body: Option<String>,
    pub timeout_ms: Option<u64>,
}

#[derive(Debug)]
pub struct HttpResponse {
    pub status: u16,
    pub headers: Vec<(String, String)>,
    pub body: String,
}

/// A transport that can execute HTTP requests; implementations live with
/// their I/O, outside the library.
pub trait HttpProviderRepository {
    fn execute(&self, request: &HttpRequest) -> Result<HttpResponse, CoreError>;
}

/// HTTP provider service: enforce the permission model, then hand the
/// request to the transport.
pub struct HttpProviderService<R> {
    repo: R,
}

impl<R: HttpProviderRepository> HttpProviderService<R> {
    /// The transport in use.
    pub closed spec fn transport(&self) -> &R {
        &self.repo
    }

    pub fn new(repo: R) -> (r: Self)
        ensures
            r.transport() == &repo,
    {
        HttpProviderService { repo }
    }

    /// Exactly the requests the assignment authorizes pass: `http:request`
    /// granted, a parseable host, and a matching domain scope where any
    /// domain scope is present.
    pub fn validate_permission(&self, assignment: &CapabilityAssignment, url: &str) -> (r: Result<
        (),
        CoreError,
    >)
        ensures
            r is Ok <==> spec_http_allowed(assignment, url@),
            r matches Err(e) ==> e is InvalidCapabilityAssignment,
    {
        if !assignment.has_permission("http:request") {
            return Err(
                CoreError::InvalidCapabilityAssignment(
                    String::from_str("permission denied: missing http:request permission"),
                ),
            );
        }
        let host = match url_host(url) {
            Some(h) => h,
            None => {
                return Err(
                    CoreError::InvalidCapabilityAssignment(
                        String::from_str("invalid URL: unable to extract host"),
                    ),
                );
            },
        };
        let mut any_scoped = false;
        let n = assignment.permissions.len();
        for i in 0..n
            invariant
                n == assignment.permissions@.len(),
                any_scoped == exists|j: int|
                    0 <= j < i && has_prefix(
                        #[trigger] assignment@.permissions[j],
                        "http:domain:"@,
                    ),
        {
            if str_starts_with(assignment.permissions[i].as_str(), "http:domain:") {
                any_scoped = true;
                proof {
                    assert(has_prefix(assignment@.permissions[i as int], "http:domain:"@));
                }
            }
        }
        if any_scoped {
            let domain_permission = String::from_str("http:domain:").concat(host.as_str());
            if !assignment.has_permission(domain_permission.as_str()) {
                return Err(
                    CoreError::InvalidCapabilityAssignment(
                        String::from_str("permission denied: missing domain-scoped permission"),
                    ),
                );
            }
        }
        Ok(())
    }

    /// Validate, then let the transport execute the request. What the
    /// transport answers is its own; an unauthorized request never reaches
    /// it.
    pub fn execute_request(
        &self,
        assignment: &CapabilityAssignment,
        request: &HttpRequest,
    ) -> (r: Result<HttpResponse, CoreError>)
        ensures
            !spec_http_allowed(assignment, request.url@) ==> (r matches Err(e)
                && e is InvalidCapabilityAssignment),
    {
        if let Err(e) = self.validate_permission(assignment, request.url.as_str()) {
            return Err(e);
        }
        self.repo.execute(request)
    }
}

} // verus!
