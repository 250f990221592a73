//! Execution events and the append-only lifecycle recorder.
//!
//! The recorder is the source of truth for the order in which operations
//! completed on an instance: events are appended in operation order and
//! their timestamps never decrease.

use vstd::prelude::*;

use crate::external::now_unix_seconds;
use crate::strmap::{lemma_filter_push, str_eq, StrMap};

verus! {

/// Abstract value of the optional details map: each key to its value text.
pub open spec fn details_view(d: Option<StrMap<String>>) -> Option<Map<Seq<char>, Seq<char>>> {
    match d {
        None => None,
        Some(m) => Some(Map::new(|k: Seq<char>| m@.contains_key(k), |k: Seq<char>| m@[k]@)),
    }
}

/// Abstract value of an execution event.
pub ghost struct EventView {
    pub event_type: Seq<char>,
    pub instance_id: Seq<char>,
    pub timestamp: i64,
    pub details: Option<Map<Seq<char>, Seq<char>>>,
}

#[derive(Debug)]
pub struct ExecutionEvent {
    pub event_type: String,
    pub instance_id: String,
    /// Time the event was recorded, unix seconds.
    pub timestamp: i64,
    pub details: Option<StrMap<String>>,
}

impl View for ExecutionEvent {
    type V = EventView;

    open spec fn view(&self) -> EventView {
        EventView {
            event_type: self.event_type@,
            instance_id: self.instance_id@,
            timestamp: self.timestamp,
            details: details_view(self.details),
        }
    }
}

impl Clone for ExecutionEvent {
    /// Cloning preserves the abstract value.
    fn clone(&self) -> (res: Self)
        ensures
            res@ == self@,
    {
        let details = match &self.details {
            None => None,
            Some(m) => Some(m.clone()),
        };
        ExecutionEvent {
            event_type: self.event_type.clone(),
            instance_id: self.instance_id.clone(),
            timestamp: self.timestamp,
            details,
        }
    }
}

impl ExecutionEvent {
    pub fn new(event_type: &str, instance_id: &str) -> (r: Self)
        ensures
            r@.event_type == event_type@,
            r@.instance_id == instance_id@,
            r@.details is None,
            r.timestamp >= 0,
    {
        ExecutionEvent {
            event_type: String::from_str(event_type),
            instance_id: String::from_str(instance_id),
            timestamp: now_unix_seconds(),
            details: None,
        }
    }

    pub fn with_details(self, details: StrMap<String>) -> (r: Self)
        ensures
            r@.event_type == self@.event_type,
            r@.instance_id == self@.instance_id,
            r.timestamp == self.timestamp,
            r@.details == details_view(Some(details)),
    {
        ExecutionEvent {
            event_type: self.event_type,
            instance_id: self.instance_id,
            timestamp: self.timestamp,
            details: Some(details),
        }
    }
}

/// The abstract log denoted by a sequence of events.
pub open spec fn events_view(s: Seq<ExecutionEvent>) -> Seq<EventView> {
    s.map_values(|e: ExecutionEvent| e@)
}

/// Timestamps never decrease along the log.
pub open spec fn log_monotone(s: Seq<EventView>) -> bool {
    forall|i: int, j: int| 0 <= i <= j < s.len() ==> s[i].timestamp <= s[j].timestamp
}

/// The events of one instance: the filter that selects them.
pub open spec fn by_instance(id: Seq<char>) -> spec_fn(EventView) -> bool {
    |e: EventView| e.instance_id == id
}

/// The event as it will be appended: its timestamp is raised to the last
/// recorded timestamp if it would otherwise go backwards.
pub open spec fn clamp_time(log: Seq<EventView>, e: EventView) -> EventView {
    if log.len() == 0 || e.timestamp >= log.last().timestamp {
        e
    } else {
        EventView {
            event_type: e.event_type,
            instance_id: e.instance_id,
            timestamp: log.last().timestamp,
            details: e.details,
        }
    }
}

/// Append-only log of lifecycle events.
#[derive(Debug)]
pub struct ExecutionEventRecorder {
    events: Vec<ExecutionEvent>,
}

impl ExecutionEventRecorder {
    /// The recorded events, oldest first.
    pub closed spec fn log(&self) -> Seq<EventView> {
        events_view(self.events@)
    }

    /// Timestamps along the log never decrease.
    pub closed spec fn wf(&self) -> bool {
        log_monotone(self.log())
    }

    pub fn new() -> (r: Self)
        ensures
            r.wf(),
            r.log() =~= Seq::<EventView>::empty(),
    {
        ExecutionEventRecorder { events: Vec::new() }
    }

    pub fn record_event(&mut self, event: ExecutionEvent)
        requires
            old(self).wf(),
        ensures
            final(self).wf(),
            final(self).log() =~= old(self).log().push(clamp_time(old(self).log(), event@)),
    {
        let mut event = event;
        let n = self.events.len();
        if n > 0 {
            let last_ts = self.events[n - 1].timestamp;
            if event.timestamp < last_ts {
                event.timestamp = last_ts;
            }
        }
        proof {
            assert(self.log().len() == n);
            if n > 0 {
                assert(self.log().last() == self.events@[n - 1]@);
            }
        }
        self.events.push(event);
        proof {
            assert(self.log() =~= old(self).log().push(clamp_time(old(self).log(), event@)));
            assert forall|i: int, j: int|
                0 <= i <= j < self.log().len() implies self.log()[i].timestamp
                <= self.log()[j].timestamp by {
                if j < self.log().len() - 1 {
                    assert(self.log()[i] == old(self).log()[i]);
                    assert(self.log()[j] == old(self).log()[j]);
                } else if i < j {
                    assert(self.log()[i] == old(self).log()[i]);
                    assert(old(self).log()[i].timestamp <= old(self).log().last().timestamp);
                }
            }
        }
    }

    /// Append an event of the given type for the instance, with no details.
    fn record_simple(&mut self, event_type: &str, instance_id: &str)
        requires
            old(self).wf(),
        ensures
            final(self).wf(),
            final(self).log().len() == old(self).log().len() + 1,
            final(self).log() =~= old(self).log().push(final(self).log().last()),
            final(self).log().last().event_type == event_type@,
            final(self).log().last().instance_id == instance_id@,
            final(self).log().last().details is None,
    {
        let event = ExecutionEvent::new(event_type, instance_id);
        self.record_event(event);
    }

    pub fn record_start(&mut self, instance_id: &str)
        requires
            old(self).wf(),
        ensures
            final(self).wf(),
            final(self).log().len() == old(self).log().len() + 1,
            final(self).log() =~= old(self).log().push(final(self).log().last()),
            final(self).log().last().event_type == "instance_started"@,
            final(self).log().last().instance_id == instance_id@,
            final(self).log().last().details is None,
    {
        self.record_simple("instance_started", instance_id);
    }

    pub fn record_stop(&mut self, instance_id: &str)
        requires
            old(self).wf(),
        ensures
            final(self).wf(),
            final(self).log().len() == old(self).log().len() + 1,
            final(self).log() =~= old(self).log().push(final(self).log().last()),
            final(self).log().last().event_type == "instance_stopped"@,
            final(self).log().last().instance_id == instance_id@,
            final(self).log().last().details is None,
    {
        self.record_simple("instance_stopped", instance_id);
    }

    pub fn record_restart(&mut self, instance_id: &str)
        requires
            old(self).wf(),
        ensures
            final(self).wf(),
            final(self).log().len() == old(self).log().len() + 1,
            final(self).log() =~= old(self).log().push(final(self).log().last()),
            final(self).log().last().event_type == "instance_restarted"@,
            final(self).log().last().instance_id == instance_id@,
            final(self).log().last().details is None,
    {
        self.record_simple("instance_restarted", instance_id);
    }

    /// Append `instance_crashed`, carrying the error message under the
    /// `error` details key.
    pub fn record_crash(&mut self, instance_id: &str, error: &str)
        requires
            old(self).wf(),
        ensures
            final(self).wf(),
            final(self).log().len() == old(self).log().len() + 1,
            final(self).log() =~= old(self).log().push(final(self).log().last()),
            final(self).log().last().event_type == "instance_crashed"@,
            final(self).log().last().instance_id == instance_id@,
            final(self).log().last().details matches Some(d) && d.dom() =~= set!["error"@]
                && d["error"@] == error@,
    {
        let mut details: StrMap<String> = StrMap::new();
        details.insert(String::from_str("error"), String::from_str(error));
        let event = ExecutionEvent::new("instance_crashed", instance_id).with_details(details);
        self.record_event(event);
    }

    pub fn get_events(&self) -> (r: &Vec<ExecutionEvent>)
        ensures
            events_view(r@) == self.log(),
    {
        &self.events
    }

    /// The events whose instance id equals `instance_id`, in log order.
    pub fn get_events_for_instance(&self, instance_id: &str) -> (r: Vec<ExecutionEvent>)
        ensures
            events_view(r@) =~= self.log().filter(by_instance(instance_id@)),
    {
        let n = self.events.len();
        let mut r: Vec<ExecutionEvent> = Vec::new();
        for i in 0..n
            invariant
                n == self.events@.len(),
                events_view(r@) =~= events_view(self.events@.subrange(0, i as int)).filter(by_instance(instance_id@)),
        {
            let ghost prefix = events_view(self.events@.subrange(0, i as int));
            let ghost ev = self.events@[i as int]@;
            proof {
                assert(self.events@.subrange(0, i + 1) =~= self.events@.subrange(0, i as int).push(
                    self.events@[i as int],
                ));
                assert(events_view(self.events@.subrange(0, i + 1)) =~= prefix.push(ev));
                lemma_filter_push(prefix, ev, by_instance(instance_id@));
            }
            let ghost r0 = r@;
            let matched = str_eq(self.events[i].instance_id.as_str(), instance_id);
            if matched {
                let e = self.events[i].clone();
                proof {
                    assert(e@ == ev);
                }
                r.push(e);
                proof {
                    assert(events_view(r@) =~= events_view(r0).push(ev));
                }
            }
            proof {
                assert(by_instance(instance_id@)(ev) == (ev.instance_id == instance_id@));
                assert(matched == by_instance(instance_id@)(ev));
                assert(events_view(r0) == prefix.filter(by_instance(instance_id@)));
                assert(events_view(self.events@.subrange(0, i + 1)) == prefix.push(ev));
                assert(events_view(self.events@.subrange(0, i + 1)).filter(by_instance(instance_id@)) == (
                if by_instance(instance_id@)(ev) {
                    prefix.filter(by_instance(instance_id@)).push(ev)
                } else {
                    prefix.filter(by_instance(instance_id@))
                }));
                if matched {
                    assert(events_view(r@) == prefix.filter(by_instance(instance_id@)).push(ev));
                } else {
                    assert(r@ == r0);
                    assert(events_view(r@) == prefix.filter(by_instance(instance_id@)));
                }
                assert(events_view(r@) =~= events_view(self.events@.subrange(0, i + 1)).filter(
                    by_instance(instance_id@),
                ));
            }
        }
        proof {
            assert(self.events@.subrange(0, n as int) =~= self.events@);
        }
        r
    }

    pub fn clear(&mut self)
        ensures
            final(self).wf(),
            final(self).log() =~= Seq::<EventView>::empty(),
    {
        self.events = Vec::new();
    }
}

proof fn lemma_log_monotone_filter(s: Seq<EventView>, p: spec_fn(EventView) -> bool)
    requires
        log_monotone(s),
    ensures
        log_monotone(s.filter(p)),
        forall|i: int| 0 <= i < s.filter(p).len() ==> s.len() > 0 && (#[trigger] s.filter(p)[i]).timestamp
            <= s.last().timestamp,
    decreases s.len(),
{
    reveal(Seq::filter);
    if s.len() > 0 {
        let dl = s.drop_last();
        assert(log_monotone(dl)) by {
            assert(forall|i: int| 0 <= i < dl.len() ==> dl[i] == s[i]);
        }
        lemma_log_monotone_filter(dl, p);
        if dl.len() > 0 {
            assert(dl.last() == s[s.len() - 2]);
            assert(dl.last().timestamp <= s.last().timestamp);
        }
        let out = s.filter(p);
        if p(s.last()) {
            assert(out == dl.filter(p).push(s.last()));
            assert forall|i: int, j: int| 0 <= i <= j < out.len() implies out[i].timestamp
                <= out[j].timestamp by {
                if j < out.len() - 1 {
                    assert(out[i] == dl.filter(p)[i]);
                    assert(out[j] == dl.filter(p)[j]);
                } else if i < j {
                    assert(out[i] == dl.filter(p)[i]);
                }
            }
        } else {
            assert(out == dl.filter(p));
        }
    }
}

/// Event-order law: for any instance, the subsequence of the log selected
/// by that instance's id keeps the log's order (it is the filter of the
/// log, which preserves relative positions) and its timestamps never
/// decrease.
pub proof fn lemma_event_order(recorder: &ExecutionEventRecorder, instance_id: Seq<char>)
    requires
        recorder.wf(),
    ensures
        log_monotone(recorder.log().filter(by_instance(instance_id))),
{
    lemma_log_monotone_filter(recorder.log(), by_instance(instance_id));
}

} // verus!
