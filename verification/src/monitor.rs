//! The monitor: the decision core of the read loop.  The shell around
//! it opens the log stream, waits for records and runs the launcher's
//! worker; every judgment — which filters are well formed, which rules
//! match a record, whether a rule is debounced, and what work item to
//! enqueue — is made here and verified.
//!
//! Time is handed in by the caller as a reading of a monotonic clock
//! in nanoseconds.

use vstd::prelude::*;

use crate::fields::{json_of_map, to_json, StrMap};
use crate::launcher::Launcher;
use crate::rules::{matching_indices, regex_match, regex_patterns_ok, ConfigError, RuleSet};
use crate::script::{EnvVar, Script};
use crate::settings::Event as EventConfig;
use crate::settings::Global;
use crate::text::{char_count, count_char, find_char, lemma_no_occurrence, lemma_single_occurrence};

verus! {

/// One watched event at run time: the configured rule plus its
/// debounce state.  `last_found` is absent until the rule first fires
/// and is only ever set by `record_last_found`.
pub struct Event {
    pub name: String,
    /// The pattern matched against record messages.
    pub msg_filter: String,
    /// Debounce window in nanoseconds; absent means "always fire".
    pub next_watch_delay: Option<u64>,
    /// Clock reading of the last admitted firing.
    pub last_found: Option<u64>,
    /// Path of the script to execute.
    pub script: String,
    /// Execution timeout in seconds; absent means fire and forget.
    pub script_timeout: Option<u64>,
}

/// The time elapsed from `earlier` to `now`, clamped below at zero.
pub open spec fn elapsed_since(now: u64, earlier: u64) -> int {
    if now >= earlier {
        now - earlier
    } else {
        0
    }
}

impl Event {
    /// Suppressed: a debounce window is configured, the rule has
    /// fired, and no more than the window has elapsed since.  Elapsed
    /// time exactly equal to the window still suppresses.
    pub open spec fn suppressed_at(self, now: u64) -> bool {
        match (self.next_watch_delay, self.last_found) {
            (Some(delay), Some(last)) => elapsed_since(now, last) <= delay,
            _ => false,
        }
    }

    /// This event after an admitted firing at `now`: the firing
    /// instant is recorded only when a debounce window is configured.
    pub open spec fn after_fired(self, now: u64) -> Event {
        if self.next_watch_delay is Some {
            Event { last_found: Some(now), ..self }
        } else {
            self
        }
    }

    /// Still inside the debounce window at `now`?
    pub fn in_watch_delay(&self, now: u64) -> (r: bool)
        ensures
            r == self.suppressed_at(now),
    {
        match (self.next_watch_delay, self.last_found) {
            (Some(delay), Some(last)) => {
                let elapsed = if now >= last {
                    now - last
                } else {
                    0
                };
                elapsed <= delay
            },
            _ => false,
        }
    }

    /// Record an admitted firing at `now`.  A rule with no debounce
    /// window keeps no state.
    pub fn record_last_found(&mut self, now: u64)
        ensures
            *final(self) == old(self).after_fired(now),
    {
        if self.next_watch_delay.is_some() {
            self.last_found = Some(now);
        }
    }
}

/// The debounce law.  After an admitted firing at `t0`, a second
/// attempt at `t0 + delta` is suppressed exactly when `delta` is no
/// more than the configured window, and admitted exactly when it
/// exceeds it.
pub proof fn lemma_debounce_window(ev: Event, t0: u64, delta: u64)
    requires
        ev.next_watch_delay is Some,
        t0 + delta <= u64::MAX,
    ensures
        ev.after_fired(t0).suppressed_at((t0 + delta) as u64) <==> delta
            <= ev.next_watch_delay.unwrap(),
{
}

/// A rule with no configured debounce window is never suppressed, no
/// matter how often and when it fires.
pub proof fn lemma_no_window_never_suppressed(ev: Event, fire_times: Seq<u64>, now: u64)
    requires
        ev.next_watch_delay is None,
    ensures
        !ev.suppressed_at(now),
        fire_times.fold_left(ev, |e: Event, t: u64| e.after_fired(t)).next_watch_delay is None,
        !fire_times.fold_left(ev, |e: Event, t: u64| e.after_fired(t)).suppressed_at(now),
    decreases fire_times.len(),
{
    if fire_times.len() > 0 {
        lemma_no_window_never_suppressed(ev, fire_times.drop_last(), now);
    }
}

/// A well-formed stream filter holds exactly one `=`, splitting it
/// into field name and value there.
pub open spec fn spec_split_filter(s: Seq<char>) -> Option<(Seq<char>, Seq<char>)> {
    if char_count(s, '=') == 1 {
        let i = choose|i: int| 0 <= i < s.len() && s[i] == '=';
        Some((s.subrange(0, i), s.subrange(i + 1, s.len() as int)))
    } else {
        None
    }
}

/// Split one configured filter string into its field/value pair, or
/// reject it as malformed when it does not hold exactly one `=`.
pub fn parse_filter(s: &str) -> (r: Option<(String, String)>)
    ensures
        match r {
            Some(kv) => spec_split_filter(s@) == Some((kv.0@, kv.1@)),
            None => spec_split_filter(s@) is None,
        },
{
    let count = count_char(s, '=');
    if count != 1 {
        return None;
    }
    let at = match find_char(s, '=') {
        Some(at) => at,
        None => {
            proof {
                lemma_no_occurrence(s@, '=');
            }
            return None;  // unreachable: the count is one
        },
    };
    proof {
        let w = choose|i: int| 0 <= i < s@.len() && s@[i] == '=';
        lemma_single_occurrence(s@, '=', w, at as int);
    }
    let len = s.unicode_len();
    let key = s.substring_char(0, at);
    let value = s.substring_char(at + 1, len);
    Some((String::from_str(key), String::from_str(value)))
}

/// The well-formed filters of a configured list, split, in order.
pub open spec fn spec_good_filters(fs: Seq<Seq<char>>) -> Seq<(Seq<char>, Seq<char>)>
    decreases fs.len(),
{
    if fs.len() == 0 {
        Seq::empty()
    } else {
        spec_good_filters(fs.drop_last()) + match spec_split_filter(fs.last()) {
            Some(kv) => seq![kv],
            None => Seq::empty(),
        }
    }
}

/// The malformed filters of a configured list, kept as given, in
/// order.
pub open spec fn spec_bad_filters(fs: Seq<Seq<char>>) -> Seq<Seq<char>>
    decreases fs.len(),
{
    if fs.len() == 0 {
        Seq::empty()
    } else {
        spec_bad_filters(fs.drop_last()) + if spec_split_filter(fs.last()) is None {
            seq![fs.last()]
        } else {
            Seq::empty()
        }
    }
}

/// Split all configured filter strings: the well-formed ones become
/// field/value pairs for the stream, the malformed ones are returned
/// for the caller to warn about and are skipped, never fatal.
pub fn parse_filters(filters: &Vec<String>) -> (r: (Vec<(String, String)>, Vec<String>))
    ensures
        r.0.deep_view() == spec_good_filters(filters.deep_view()),
        r.1.deep_view() == spec_bad_filters(filters.deep_view()),
{
    let mut good: Vec<(String, String)> = Vec::new();
    let mut bad: Vec<String> = Vec::new();
    for i in 0..filters.len()
        invariant
            good.deep_view() == spec_good_filters(filters.deep_view().take(i as int)),
            bad.deep_view() == spec_bad_filters(filters.deep_view().take(i as int)),
    {
        proof {
            assert(filters.deep_view().take(i + 1).drop_last() =~= filters.deep_view().take(
                i as int,
            ));
            assert(filters.deep_view().take(i + 1).last() == filters.deep_view()[i as int]);
        }
        match parse_filter(filters[i].as_str()) {
            Some(kv) => {
                good.push(kv);
                proof {
                    assert(good.deep_view() =~= spec_good_filters(
                        filters.deep_view().take(i + 1),
                    ));
                    assert(bad.deep_view() =~= spec_bad_filters(filters.deep_view().take(i + 1)));
                }
            },
            None => {
                bad.push(filters[i].clone());
                proof {
                    assert(good.deep_view() =~= spec_good_filters(
                        filters.deep_view().take(i + 1),
                    ));
                    assert(bad.deep_view() =~= spec_bad_filters(filters.deep_view().take(i + 1)));
                }
            },
        }
    }
    proof {
        assert(filters.deep_view().take(filters.deep_view().len() as int) =~= filters.deep_view());
    }
    (good, bad)
}

} // verus!

verus! {

/// The pattern texts of a sequence of events, in rule order.
pub open spec fn patterns_of(events: Seq<Event>) -> Seq<Seq<char>> {
    Seq::new(events.len(), |i: int| events[i].msg_filter@)
}

/// `sc` is the work item dispatched for `ev` on a record with message
/// `msg` and fields `rec`: the event's script and timeout, with the
/// message and the JSON-serialized record in the environment.
pub open spec fn is_dispatch_of(
    sc: Script,
    ev: Event,
    msg: Seq<char>,
    rec: Map<Seq<char>, Seq<char>>,
) -> bool {
    &&& sc.wf()
    &&& sc.spec_path() == ev.script@
    &&& sc.spec_timeout() == ev.script_timeout
    &&& sc.envs_map() == Map::<Seq<char>, Seq<char>>::empty().insert(
        "JNB_MESSAGE"@,
        msg,
    ).insert("JNB_JSON"@, rec_json(rec))
}

/// The JSON text carried for a record's fields.
pub open spec fn rec_json(rec: Map<Seq<char>, Seq<char>>) -> Seq<char> {
    json_of_map(rec)
}

/// The watcher over the log stream: the configured events with their
/// debounce state, the compiled rule matcher, and the dispatch queue.
pub struct Monitor {
    filters: Option<Vec<String>>,
    events: Vec<Event>,
    rules: RuleSet,
    launcher: Launcher,
}

impl Monitor {
    pub closed spec fn spec_events(self) -> Seq<Event> {
        self.events@
    }

    /// The configured raw filter strings (none configured reads as an
    /// empty list).
    pub closed spec fn spec_filters(self) -> Seq<Seq<char>> {
        match self.filters {
            Some(f) => f.deep_view(),
            None => Seq::empty(),
        }
    }

    pub closed spec fn spec_queue(self) -> Seq<Script> {
        self.launcher.pending()
    }

    /// The compiled matcher holds exactly the events' patterns.
    pub closed spec fn wf(self) -> bool {
        self.rules.patterns() == patterns_of(self.events@)
    }

    /// Build the monitor from the loaded configuration: one runtime
    /// event per definition, in the given order, and one matcher
    /// compiled from all patterns.  Fails exactly when the patterns do
    /// not compile.
    pub fn new(global: Option<Global>, events: Vec<(String, EventConfig)>) -> (r: Result<
        Monitor,
        ConfigError,
    >)
        ensures
            r is Ok <==> regex_patterns_ok(
                Seq::new(events@.len(), |i: int| events@[i].1.message@),
            ),
            r matches Ok(m) ==> m.wf() && m.spec_queue() == Seq::<Script>::empty()
                && m.spec_events().len() == events@.len() && m.spec_filters() == (match global {
                Some(g) => match g.filters {
                    Some(f) => f.deep_view(),
                    None => Seq::<Seq<char>>::empty(),
                },
                None => Seq::<Seq<char>>::empty(),
            }) && forall|i: int|
                0 <= i < events@.len() ==> (#[trigger] m.spec_events()[i]).name@ == events@[i].0@
                    && m.spec_events()[i].msg_filter@ == events@[i].1.message@
                    && m.spec_events()[i].next_watch_delay == events@[i].1.next_watch_delay
                    && m.spec_events()[i].last_found is None && m.spec_events()[i].script@
                    == events@[i].1.script@ && m.spec_events()[i].script_timeout == (
                if events@[i].1.script_wait == Some(false) {
                    Option::<u64>::None
                } else {
                    match global {
                        Some(g) => g.script_timeout,
                        None => None,
                    }
                }),
    {
        let global_timeout = match &global {
            Some(g) => g.script_timeout,
            None => None,
        };
        let mut evs: Vec<Event> = Vec::new();
        let mut patterns: Vec<String> = Vec::new();
        for i in 0..events.len()
            invariant
                evs@.len() == i,
                patterns@.len() == i,
                global_timeout == (match global {
                    Some(g) => g.script_timeout,
                    None => Option::<u64>::None,
                }),
                forall|j: int|
                    0 <= j < i ==> (#[trigger] evs@[j]).name@ == events@[j].0@
                        && evs@[j].msg_filter@ == events@[j].1.message@
                        && evs@[j].next_watch_delay == events@[j].1.next_watch_delay
                        && evs@[j].last_found is None && evs@[j].script@ == events@[j].1.script@
                        && evs@[j].script_timeout == (if events@[j].1.script_wait == Some(false) {
                        Option::<u64>::None
                    } else {
                        global_timeout
                    }),
                forall|j: int| 0 <= j < i ==> (#[trigger] patterns@[j])@ == events@[j].1.message@,
        {
            let name = events[i].0.clone();
            let cfg = &events[i].1;
            let timeout = cfg.effective_timeout(global_timeout);
            evs.push(
                Event {
                    name,
                    msg_filter: cfg.message.clone(),
                    next_watch_delay: cfg.next_watch_delay,
                    last_found: None,
                    script: cfg.script.clone(),
                    script_timeout: timeout,
                },
            );
            patterns.push(cfg.message.clone());
        }
        proof {
            assert forall|j: int| 0 <= j < events@.len() implies patterns.deep_view()[j]
                == events@[j].1.message@ by {
                assert(patterns.deep_view()[j] == patterns@[j]@);
            }
            assert(patterns.deep_view() =~= Seq::new(
                events@.len(),
                |i: int| events@[i].1.message@,
            ));
        }
        let rules = match RuleSet::compile(&patterns) {
            Ok(rules) => rules,
            Err(e) => {
                return Err(e);
            },
        };
        let filters = match global {
            Some(g) => g.filters,
            None => None,
        };
        let r = Monitor { filters, events: evs, rules, launcher: Launcher::new() };
        proof {
            assert(r.rules.patterns() =~= patterns_of(r.events@));
            assert(r.spec_queue() =~= Seq::<Script>::empty());
        }
        Ok(r)
    }

    /// The field/value pairs to apply to the stream, and the malformed
    /// filter strings to warn about.
    pub fn journal_filters(&self) -> (r: (Vec<(String, String)>, Vec<String>))
        ensures
            r.0.deep_view() == spec_good_filters(self.spec_filters()),
            r.1.deep_view() == spec_bad_filters(self.spec_filters()),
    {
        match &self.filters {
            Some(f) => parse_filters(f),
            None => {
                let r = (Vec::<(String, String)>::new(), Vec::<String>::new());
                proof {
                    assert(r.0.deep_view() =~= spec_good_filters(self.spec_filters()));
                    assert(r.1.deep_view() =~= spec_bad_filters(self.spec_filters()));
                }
                r
            },
        }
    }

    pub fn events_len(&self) -> (r: usize)
        ensures
            r == self.spec_events().len(),
    {
        self.events.len()
    }

    pub fn event_name<'a>(&'a self, i: usize) -> (r: &'a String)
        requires
            i < self.spec_events().len(),
        ensures
            r@ == self.spec_events()[i as int].name@,
    {
        &self.events[i].name
    }

    /// The indices of all rules whose pattern matches the message,
    /// ascending: every matching rule and no other.
    pub fn match_indices(&self, log_msg: &str) -> (r: Vec<usize>)
        requires
            self.wf(),
        ensures
            matching_indices(patterns_of(self.spec_events()), log_msg@, r@),
    {
        self.rules.find_all(log_msg)
    }

    /// Hand the worker the script that has waited longest, if any.
    pub fn take_pending(&mut self) -> (r: Option<Script>)
        ensures
            old(self).wf() ==> final(self).wf(),
            final(self).spec_events() == old(self).spec_events(),
            final(self).spec_filters() == old(self).spec_filters(),
            match r {
                Some(s) => old(self).spec_queue().len() > 0 && s == old(self).spec_queue()[0]
                    && final(self).spec_queue() == old(self).spec_queue().skip(1),
                None => old(self).spec_queue().len() == 0
                    && final(self).spec_queue() == old(self).spec_queue(),
            },
    {
        self.launcher.take_next()
    }

    pub fn pending_len(&self) -> (r: usize)
        ensures
            r == self.spec_queue().len(),
    {
        self.launcher.len()
    }
}

} // verus!

verus! {

/// What one record's processing did: `fired` is the ascending list of
/// the admitted rule indices; exactly the matching, unsuppressed rules
/// fired; each fired rule recorded the firing instant and enqueued its
/// work item, in rule order, behind the pending queue.
pub open spec fn record_outcome(
    pre: Monitor,
    post: Monitor,
    fired: Seq<usize>,
    msg: Seq<char>,
    rec: Map<Seq<char>, Seq<char>>,
    now: u64,
) -> bool {
    &&& post.spec_filters() == pre.spec_filters()
    &&& post.spec_events().len() == pre.spec_events().len()
    &&& forall|a: int, b: int| 0 <= a < b < fired.len() ==> fired[a] < fired[b]
    &&& forall|j: int| 0 <= j < fired.len() ==> (fired[j] as int) < pre.spec_events().len()
    &&& forall|i: usize|
        (i as int) < pre.spec_events().len() ==> (fired.contains(i) <==> regex_match(
            pre.spec_events()[i as int].msg_filter@,
            msg,
        ) && !pre.spec_events()[i as int].suppressed_at(now))
    &&& forall|i: int|
        0 <= i < pre.spec_events().len() ==> post.spec_events()[i] == (if fired.contains(
            i as usize,
        ) {
            pre.spec_events()[i].after_fired(now)
        } else {
            pre.spec_events()[i]
        })
    &&& post.spec_queue().len() == pre.spec_queue().len() + fired.len()
    &&& post.spec_queue().take(pre.spec_queue().len() as int) == pre.spec_queue()
    &&& forall|j: int|
        0 <= j < fired.len() ==> is_dispatch_of(
            post.spec_queue()[pre.spec_queue().len() + j],
            pre.spec_events()[fired[j] as int],
            msg,
            rec,
        )
}

impl Monitor {
    /// React to one matched rule: skip it while it is inside its
    /// debounce window; otherwise record the firing instant, build the
    /// work item carrying the message and the JSON-serialized record,
    /// and enqueue it.  Returns whether the rule was admitted.
    pub fn respond(&mut self, event_index: usize, log_msg: &str, entry: &StrMap, now: u64) -> (dispatched:
        bool)
        requires
            old(self).wf(),
            event_index < old(self).spec_events().len(),
            entry.wf(),
        ensures
            final(self).wf(),
            final(self).spec_filters() == old(self).spec_filters(),
            final(self).spec_events().len() == old(self).spec_events().len(),
            dispatched == !old(self).spec_events()[event_index as int].suppressed_at(now),
            !dispatched ==> *final(self) == *old(self),
            dispatched ==> final(self).spec_events() == old(self).spec_events().update(
                event_index as int,
                old(self).spec_events()[event_index as int].after_fired(now),
            ),
            dispatched ==> final(self).spec_queue().len() == old(self).spec_queue().len() + 1
                && final(self).spec_queue().take(old(self).spec_queue().len() as int) == old(
                self,
            ).spec_queue() && is_dispatch_of(
                final(self).spec_queue().last(),
                old(self).spec_events()[event_index as int],
                log_msg@,
                entry.as_map(),
            ),
    {
        if self.events[event_index].in_watch_delay(now) {
            return false;
        }
        let ghost old_ev = self.events@[event_index as int];
        let mut updated = Event {
            name: self.events[event_index].name.clone(),
            msg_filter: self.events[event_index].msg_filter.clone(),
            next_watch_delay: self.events[event_index].next_watch_delay,
            last_found: self.events[event_index].last_found,
            script: self.events[event_index].script.clone(),
            script_timeout: self.events[event_index].script_timeout,
        };
        proof {
            assert(updated == old_ev);
        }
        updated.record_last_found(now);
        self.events[event_index] = updated;
        proof {
            assert(self.events@ == old(self).spec_events().update(
                event_index as int,
                old_ev.after_fired(now),
            ));
            assert(patterns_of(self.events@) =~= patterns_of(old(self).spec_events()));
        }
        let mut script = Script::prepare(
            self.events[event_index].script.as_str(),
            self.events[event_index].script_timeout,
        );
        script.add_env(EnvVar::Message(String::from_str(log_msg)));
        script.add_env(EnvVar::Json(to_json(entry)));
        self.launcher.add(script);
        proof {
            assert(final(self).spec_queue().take(old(self).spec_queue().len() as int) =~= old(
                self,
            ).spec_queue());
        }
        true
    }

    /// Process one delivered record: take its message (records without
    /// one are skipped), find every matching rule, and for each — in
    /// rule order — admit it past the debouncer or skip it.  Returns
    /// the indices of the rules that fired.  One rule's suppression
    /// never affects another rule matching the same record.
    pub fn handle_record(&mut self, entry: &StrMap, now: u64) -> (fired: Vec<usize>)
        requires
            old(self).wf(),
            entry.wf(),
        ensures
            final(self).wf(),
            entry.as_map().contains_key("MESSAGE"@) ==> record_outcome(
                *old(self),
                *final(self),
                fired@,
                entry.as_map()["MESSAGE"@],
                entry.as_map(),
                now,
            ),
            !entry.as_map().contains_key("MESSAGE"@) ==> *final(self) == *old(self) && fired@
                == Seq::<usize>::empty(),
    {
        let msg = match entry.get("MESSAGE") {
            Some(m) => m,
            None => {
                let fired: Vec<usize> = Vec::new();
                proof {
                    assert(fired@ =~= Seq::<usize>::empty());
                }
                return fired;
            },
        };
        let ghost old_events = old(self).spec_events();
        let ghost old_queue = old(self).spec_queue();
        let ghost msgv = msg@;
        let ghost recm = entry.as_map();
        let matched = self.match_indices(msg.as_str());
        let ghost m = matched@;
        let n_events = self.events.len();
        let mut fired: Vec<usize> = Vec::new();
        let mut k: usize = 0;
        while k < matched.len()
            invariant
                self.wf(),
                entry.wf(),
                old(self).wf(),
                old_events == old(self).spec_events(),
                old_queue == old(self).spec_queue(),
                m == matched@,
                msgv == msg@,
                recm == entry.as_map(),
                matching_indices(patterns_of(old_events), msgv, m),
                k <= m.len(),
                n_events == old_events.len(),
                self.spec_filters() == old(self).spec_filters(),
                self.spec_events().len() == old_events.len(),
                forall|x: usize| fired@.contains(x) ==> exists|j: int| 0 <= j < k && m[j] == x,
                forall|j: int|
                    0 <= j < k ==> (fired@.contains(m[j]) <==> !old_events[m[j] as int].suppressed_at(
                        now,
                    )),
                forall|a: int, b: int| 0 <= a < b < fired@.len() ==> fired@[a] < fired@[b],
                forall|i: int|
                    0 <= i < old_events.len() ==> self.spec_events()[i] == (if fired@.contains(
                        i as usize,
                    ) {
                        old_events[i].after_fired(now)
                    } else {
                        old_events[i]
                    }),
                self.spec_queue().len() == old_queue.len() + fired@.len(),
                self.spec_queue().take(old_queue.len() as int) == old_queue,
                forall|j: int|
                    0 <= j < fired@.len() ==> is_dispatch_of(
                        self.spec_queue()[old_queue.len() + j],
                        old_events[fired@[j] as int],
                        msgv,
                        recm,
                    ),
            decreases m.len() - k,
        {
            let idx = matched[k];
            proof {
                // The matched indices ascend, so `idx` cannot have
                // been processed in an earlier iteration.
                if fired@.contains(idx) {
                    let j = choose|j: int| 0 <= j < k && m[j] == idx;
                    assert(m[j] < m[k as int]);
                    assert(false);
                }
                assert(self.spec_events()[idx as int] == old_events[idx as int]);
            }
            let ghost pre_loop_self = *self;
            let ghost pre_fired = fired@;
            let ghost pre_queue = self.spec_queue();
            if self.respond(idx, msg.as_str(), entry, now) {
                fired.push(idx);
                proof {
                    assert(fired@ == pre_fired.push(idx));
                    assert forall|x: usize| #[trigger] fired@.contains(x) == (pre_fired.contains(x)
                        || x == idx) by {
                        vstd::seq_lib::lemma_seq_contains_after_push(pre_fired, idx, x);
                    }
                    assert forall|a: int, b: int|
                        0 <= a < b < fired@.len() implies fired@[a] < fired@[b] by {
                        if b < fired@.len() - 1 {
                            assert(pre_fired[a] < pre_fired[b]);
                        } else {
                            assert(fired@[a] == pre_fired[a]);
                            assert(pre_fired.contains(pre_fired[a]));
                            let j = choose|j: int| 0 <= j < k && m[j] == fired@[a];
                            assert(m[j] < m[k as int]);
                        }
                    }
                    assert forall|j: int|
                        0 <= j < k + 1 implies (fired@.contains(m[j]) <==> !old_events[
                        m[j] as int
                    ].suppressed_at(now)) by {
                        if j < k {
                            assert(m[j] < m[k as int]);
                        } else {
                            assert(fired@.last() == idx);
                            assert(fired@.contains(idx));
                        }
                    }
                    assert forall|x: usize| fired@.contains(x) implies exists|j: int|
                        0 <= j < k + 1 && m[j] == x by {
                        if pre_fired.contains(x) {
                            let j = choose|j: int| 0 <= j < k && m[j] == x;
                        } else {
                            assert(x == idx && m[k as int] == x);
                        }
                    }
                    assert(self.spec_queue() =~= pre_queue.push(self.spec_queue().last()));
                    assert(self.spec_queue().take(old_queue.len() as int) =~= pre_queue.take(
                        old_queue.len() as int,
                    ));
                    assert forall|j: int|
                        0 <= j < fired@.len() implies is_dispatch_of(
                        self.spec_queue()[old_queue.len() + j],
                        old_events[fired@[j] as int],
                        msgv,
                        recm,
                    ) by {
                        if j < fired@.len() - 1 {
                            assert(fired@[j] == pre_fired[j]);
                            assert(self.spec_queue()[old_queue.len() + j] == pre_queue[old_queue.len()
                                + j]);
                        } else {
                            assert(fired@[j] == idx);
                            assert(old_queue.len() + j == self.spec_queue().len() - 1);
                            assert(self.spec_queue()[old_queue.len() + j] == self.spec_queue().last());
                            assert(pre_loop_self.spec_events()[idx as int] == old_events[
                                idx as int
                            ]);
                        }
                    }
                    assert forall|i: int|
                        0 <= i < old_events.len() implies self.spec_events()[i] == (
                    if fired@.contains(i as usize) {
                        old_events[i].after_fired(now)
                    } else {
                        old_events[i]
                    }) by {
                        assert(fired@.contains(i as usize) == (pre_fired.contains(i as usize) || i
                            as usize == idx));
                        if i == idx as int {
                            assert(fired@.contains(i as usize));
                            assert(self.spec_events()[i] == pre_loop_self.spec_events()[
                                i
                            ].after_fired(now));
                        } else {
                            assert(i as usize != idx);
                            assert(self.spec_events()[i] == pre_loop_self.spec_events()[i]);
                        }
                    }
                }
            } else {
                proof {
                    assert(*self == pre_loop_self);
                    assert forall|j: int|
                        0 <= j < k + 1 implies (fired@.contains(m[j]) <==> !old_events[
                        m[j] as int
                    ].suppressed_at(now)) by {
                        if j == k {
                            assert(old_events[idx as int].suppressed_at(now));
                            if fired@.contains(m[j]) {
                                let p = choose|p: int| 0 <= p < k && m[p] == idx;
                                assert(m[p] < m[k as int]);
                                assert(false);
                            }
                        }
                    }
                }
            }
            k = k + 1;
        }
        proof {
            assert(msgv == entry.as_map()["MESSAGE"@]);
            assert forall|j: int| 0 <= j < fired@.len() implies (fired@[j] as int)
                < old_events.len() by {
                assert(fired@.contains(fired@[j]));
                let jj = choose|jj: int| 0 <= jj < m.len() && m[jj] == fired@[j];
            }
            assert forall|i: usize| (i as int) < old_events.len() implies (fired@.contains(i)
                <==> regex_match(old_events[i as int].msg_filter@, msgv) && !old_events[
                i as int
            ].suppressed_at(now)) by {
                assert(patterns_of(old_events)[i as int] == old_events[i as int].msg_filter@);
                if fired@.contains(i) {
                    let j = choose|j: int| 0 <= j < m.len() && m[j] == i;
                    assert(fired@.contains(m[j]) <==> !old_events[m[j] as int].suppressed_at(now));
                }
                if regex_match(old_events[i as int].msg_filter@, msgv) {
                    assert(m.contains(i));
                    let j = choose|j: int| 0 <= j < m.len() && m[j] == i;
                    assert(fired@.contains(m[j]) <==> !old_events[m[j] as int].suppressed_at(now));
                }
            }
            assert(record_outcome(*old(self), *self, fired@, msgv, recm, now));
        }
        fired
    }
}

} // verus!
