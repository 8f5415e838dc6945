//! Privacy-first product feedback kept on the device: an opt-in switch and a
//! bounded list of sanitized installation events.
use vstd::prelude::*;
use crate::ids::{is_fresh_id, random_id};
use crate::sorting::{
    Keyed, lemma_sort_map, lemma_sort_multiset, lemma_sort_sorted, sort_keyed, sorted_keyed, stable_sort,
};
use crate::text::{concat_str, owned, seq_lt, str_eq, str_views, string_view_fn, views};
use crate::package_managers::apm::opt_str_view;

verus! {

/// The most events kept; older ones are dropped first.
pub const MAX_EVENTS: usize = 500;

/// One recorded installation event.
#[derive(Clone, Debug, PartialEq, Eq)]
pub struct ProductFeedbackEvent {
    pub id: String,
    pub event_name: String,
    pub timestamp_ms: u64,
    pub source_kind: String,
    pub target_agents: Vec<String>,
    pub failure_code: Option<String>,
}

/// Whether feedback is on, and how many events are kept.
#[derive(Clone, Debug, PartialEq, Eq)]
pub struct ProductFeedbackStatus {
    pub enabled: bool,
    pub event_count: usize,
}

/// The stored feedback settings: the raw value of the enabled switch, and
/// the decoded event list (empty when nothing is stored).
#[derive(Debug)]
pub struct ProductFeedbackStore {
    pub enabled_setting: Option<String>,
    pub events: Vec<ProductFeedbackEvent>,
}

/// Why an event was refused.
#[derive(Clone, Debug, PartialEq, Eq)]
pub struct FeedbackError {
    pub label: String,
    pub value: String,
}

impl FeedbackError {
    /// The text of the error.
    pub open spec fn message(self) -> Seq<char> {
        "unsupported product feedback "@ + self.label@ + ": "@ + self.value@
    }

    /// The text of the error.
    pub fn to_string(&self) -> (r: String)
        ensures
            r@ == self.message(),
    {
        let a = concat_str("unsupported product feedback ", self.label.as_str());
        let b = concat_str(a.as_str(), ": ");
        concat_str(b.as_str(), self.value.as_str())
    }
}

/// Feedback is on exactly when the switch holds `true`.
pub open spec fn is_enabled_spec(store: ProductFeedbackStore) -> bool {
    crate::text::opt_view(store.enabled_setting) == Some("true"@)
}

/// The event names that may be recorded.
pub open spec fn allowed_events() -> Seq<Seq<char>> {
    seq!["install_start"@, "install_success"@, "install_fail"@]
}

/// The source kinds that may be recorded.
pub open spec fn allowed_sources() -> Seq<Seq<char>> {
    seq!["github"@, "local"@]
}

/// The failure codes that may be recorded.
pub open spec fn allowed_failure_codes() -> Seq<Seq<char>> {
    seq![
        "network"@,
        "permission"@,
        "agent_unavailable"@,
        "target_exists"@,
        "invalid_skill"@,
        "duplicate"@,
        "cancelled"@,
        "unknown"@,
    ]
}

/// `sanitize_agent` for the given known Agents.
pub open spec fn sanitize_fn(known: Seq<Seq<char>>) -> spec_fn(Seq<char>) -> Seq<char> {
    |a: Seq<char>| sanitize_agent(a, known)
}

/// An Agent key kept as is when PilotHub knows it, else `other`.
pub open spec fn sanitize_agent(agent: Seq<char>, known: Seq<Seq<char>>) -> Seq<char> {
    if known.contains(agent) {
        agent
    } else {
        "other"@
    }
}

/// `s` without elements equal to the one before them.
pub open spec fn dedup_adjacent(s: Seq<Seq<char>>) -> Seq<Seq<char>>
    decreases s.len(),
{
    if s.len() == 0 {
        s
    } else if s.len() >= 2 && s[s.len() - 2] == s.last() {
        dedup_adjacent(s.drop_last())
    } else {
        dedup_adjacent(s.drop_last()).push(s.last())
    }
}

/// The stored Agent list: each Agent sanitized, then sorted and without
/// repeats.
pub open spec fn sanitized_agents(agents: Seq<Seq<char>>, known: Seq<Seq<char>>) -> Seq<Seq<char>> {
    dedup_adjacent(sort_keyed(agents.map_values(sanitize_fn(known))))
}

/// The events kept after appending to `events`: the newest `MAX_EVENTS`.
pub open spec fn capped<T>(events: Seq<T>) -> Seq<T> {
    if events.len() > 500 {
        events.skip(events.len() - 500)
    } else {
        events
    }
}

/// The status of the store.
pub fn get_product_feedback_status(store: &ProductFeedbackStore) -> (r: ProductFeedbackStatus)
    ensures
        r.enabled == is_enabled_spec(*store),
        r.event_count == store.events@.len(),
{
    ProductFeedbackStatus { enabled: is_enabled(store), event_count: store.events.len() }
}

/// Turns feedback on or off, keeping the events.
pub fn set_product_feedback_enabled(store: &mut ProductFeedbackStore, enabled: bool) -> (r:
    ProductFeedbackStatus)
    ensures
        crate::text::opt_view(final(store).enabled_setting) == Some(
            if enabled {
                "true"@
            } else {
                "false"@
            },
        ),
        final(store).events == old(store).events,
        r.enabled == enabled,
        r.event_count == old(store).events@.len(),
{
    store.enabled_setting = Some(
        if enabled {
            owned("true")
        } else {
            owned("false")
        },
    );
    proof {
        reveal_strlit("true");
        reveal_strlit("false");
        assert("false"@.len() == 5);
        assert("true"@.len() == 4);
        assert("false"@ != "true"@);
    }
    get_product_feedback_status(store)
}

/// Drops every event, keeping the switch.
pub fn clear_product_feedback(store: &mut ProductFeedbackStore) -> (r: ProductFeedbackStatus)
    ensures
        final(store).events@.len() == 0,
        final(store).enabled_setting == old(store).enabled_setting,
        r.enabled == is_enabled_spec(*old(store)),
        r.event_count == 0,
{
    store.events = Vec::new();
    get_product_feedback_status(store)
}

/// Whether feedback is on.
pub fn is_enabled(store: &ProductFeedbackStore) -> (r: bool)
    ensures
        r == is_enabled_spec(*store),
{
    match &store.enabled_setting {
        Some(v) => str_eq(v.as_str(), "true"),
        None => false,
    }
}

/// `value` when it is one of `allowed`, else the error for `label`.
pub fn allowed_value(value: &str, allowed: &[&str], label: &str) -> (r: Result<String, FeedbackError>)
    ensures
        match r {
            Ok(v) => v@ == value@ && str_views(allowed@).contains(value@),
            Err(e) => !str_views(allowed@).contains(value@) && e.label@ == label@
                && e.value@ == value@,
        },
{
    let ghost av = str_views(allowed@);
    let mut i: usize = 0;
    while i < allowed.len()
        invariant
            i <= allowed@.len(),
            av == str_views(allowed@),
            forall|j: int| 0 <= j < i ==> av[j] != value@,
        decreases allowed.len() - i,
    {
        if str_eq(allowed[i], value) {
            assert(av[i as int] == value@);
            return Ok(owned(value));
        }
        i = i + 1;
    }
    Err(FeedbackError { label: owned(label), value: owned(value) })
}


/// The first refused value of an event, with the label it is reported
/// under: the event name, then the source kind, then the failure code.
pub open spec fn refused_value(
    event_name: Seq<char>,
    source_kind: Seq<char>,
    failure_code: Option<Seq<char>>,
) -> Option<(Seq<char>, Seq<char>)> {
    if !allowed_events().contains(event_name) {
        Some(("event"@, event_name))
    } else if !allowed_sources().contains(source_kind) {
        Some(("source"@, source_kind))
    } else {
        match failure_code {
            Some(code) => if !allowed_failure_codes().contains(code) {
                Some(("failure code"@, code))
            } else {
                None
            },
            None => None,
        }
    }
}

/// What recording accepts: an event `install_start`, `install_success` or
/// `install_fail`, from a `github` or `local` source, with no failure code or
/// one of `network`, `permission`, `agent_unavailable`, `target_exists`,
/// `invalid_skill`, `duplicate`, `cancelled` and `unknown`; anything else is
/// refused.
pub proof fn law_accepted_values(event_name: Seq<char>, source_kind: Seq<char>, failure_code: Option<Seq<char>>)
    ensures
        refused_value(event_name, source_kind, failure_code) is None <==> {
            &&& (event_name == "install_start"@ || event_name == "install_success"@ || event_name == "install_fail"@)
            &&& (source_kind == "github"@ || source_kind == "local"@)
            &&& match failure_code {
                None => true,
                Some(c) => c == "network"@ || c == "permission"@ || c == "agent_unavailable"@ || c
                    == "target_exists"@ || c == "invalid_skill"@ || c == "duplicate"@ || c == "cancelled"@ || c
                    == "unknown"@,
            }
        },
{
    let ev = allowed_events();
    let so = allowed_sources();
    let fc = allowed_failure_codes();
    assert(ev.contains(event_name) <==> (event_name == ev[0] || event_name == ev[1] || event_name == ev[2]));
    assert(so.contains(source_kind) <==> (source_kind == so[0] || source_kind == so[1]));
    if let Some(c) = failure_code {
        assert(fc.contains(c) <==> (c == fc[0] || c == fc[1] || c == fc[2] || c == fc[3] || c == fc[4] || c == fc[5]
            || c == fc[6] || c == fc[7]));
    }
}

fn event_names() -> (r: Vec<&'static str>)
    ensures
        str_views(r@) == allowed_events(),
{
    let mut r: Vec<&'static str> = Vec::new();
    r.push("install_start");
    r.push("install_success");
    r.push("install_fail");
    assert(str_views(r@) =~= allowed_events());
    r
}

fn source_kinds() -> (r: Vec<&'static str>)
    ensures
        str_views(r@) == allowed_sources(),
{
    let mut r: Vec<&'static str> = Vec::new();
    r.push("github");
    r.push("local");
    assert(str_views(r@) =~= allowed_sources());
    r
}

fn failure_codes() -> (r: Vec<&'static str>)
    ensures
        str_views(r@) == allowed_failure_codes(),
{
    let mut r: Vec<&'static str> = Vec::new();
    r.push("network");
    r.push("permission");
    r.push("agent_unavailable");
    r.push("target_exists");
    r.push("invalid_skill");
    r.push("duplicate");
    r.push("cancelled");
    r.push("unknown");
    assert(str_views(r@) =~= allowed_failure_codes());
    r
}

/// Whether `known` holds `agent`.
fn knows(known: &[String], agent: &String) -> (r: bool)
    ensures
        r == views(known@).contains(agent@),
{
    let mut i: usize = 0;
    while i < known.len()
        invariant
            i <= known@.len(),
            forall|j: int| 0 <= j < i ==> views(known@)[j] != agent@,
        decreases known.len() - i,
    {
        if str_eq(known[i].as_str(), agent.as_str()) {
            assert(views(known@)[i as int] == agent@);
            return true;
        }
        i = i + 1;
    }
    false
}

/// The stored form of an event's Agent list.
pub fn sanitize_agents(target_agents: &[String], known: &[String]) -> (r: Vec<String>)
    ensures
        views(r@) == sanitized_agents(views(target_agents@), views(known@)),
{
    let ghost kv = views(known@);
    let mut agents: Vec<String> = Vec::new();
    let mut i: usize = 0;
    while i < target_agents.len()
        invariant
            i <= target_agents@.len(),
            kv == views(known@),
            views(agents@) == views(target_agents@.take(i as int)).map_values(sanitize_fn(kv)),
        decreases target_agents.len() - i,
    {
        let a = &target_agents[i];
        let kept = if knows(known, a) {
            a.clone()
        } else {
            owned("other")
        };
        let ghost before = agents@;
        agents.push(kept);
        assert(views(target_agents@.take(i + 1)) =~= views(target_agents@.take(i as int)).push(a@));
        assert(views(agents@) =~= views(before).push(sanitize_agent(a@, kv)));
        assert(views(target_agents@.take(i + 1)).map_values(sanitize_fn(kv)) =~= views(
            target_agents@.take(i as int),
        ).map_values(sanitize_fn(kv)).push(sanitize_agent(a@, kv)));
        i = i + 1;
    }
    assert(target_agents@.take(target_agents@.len() as int) =~= target_agents@);
    let sorted = stable_sort(agents);
    proof {
        lemma_sort_map(agents@, string_view_fn());
    }
    let ghost sv = views(sorted@);
    let mut out: Vec<String> = Vec::new();
    let mut k: usize = 0;
    while k < sorted.len()
        invariant
            k <= sorted@.len(),
            sv == views(sorted@),
            views(out@) == dedup_adjacent(sv.take(k as int)),
        decreases sorted.len() - k,
    {
        assert(sv.take(k + 1).drop_last() =~= sv.take(k as int));
        assert(sv.take(k + 1).last() == sv[k as int]);
        if k == 0 || !str_eq(sorted[k].as_str(), sorted[k - 1].as_str()) {
            let ghost before = out@;
            out.push(sorted[k].clone());
            assert(views(out@) =~= views(before).push(sv[k as int]));
        }
        k = k + 1;
    }
    assert(sv.take(sv.len() as int) =~= sv);
    out
}

/// What recording an event does, for an id that `id_ok` accepts: when
/// feedback is off, nothing, and no event is stored; a refused value leaves
/// the store unchanged and names its label and value; else the event keeps
/// only the event name, source kind, sanitized Agent list and failure code,
/// with such an id and the given time, and only the newest `MAX_EVENTS`
/// events are kept.
pub open spec fn event_recorded(
    before: ProductFeedbackStore,
    after: ProductFeedbackStore,
    r: Result<bool, FeedbackError>,
    event_name: Seq<char>,
    source_kind: Seq<char>,
    target_agents: Seq<Seq<char>>,
    failure_code: Option<Seq<char>>,
    known_agents: Seq<Seq<char>>,
    timestamp_ms: u64,
    id_ok: spec_fn(String) -> bool,
) -> bool {
    &&& !is_enabled_spec(before) ==> r == Ok::<bool, FeedbackError>(false) && after == before
    &&& is_enabled_spec(before) ==> match refused_value(event_name, source_kind, failure_code) {
        Some((label, value)) => after == before && (r matches Err(e) && e.label@ == label && e.value@
            == value),
        None => {
            let events = after.events@;
            let e = events.last();
            &&& r == Ok::<bool, FeedbackError>(true)
            &&& after.enabled_setting == before.enabled_setting
            &&& events.len() > 0
            &&& events == capped(before.events@.push(e))
            &&& id_ok(e.id)
            &&& e.event_name@ == event_name
            &&& e.timestamp_ms == timestamp_ms
            &&& e.source_kind@ == source_kind
            &&& views(e.target_agents@) == sanitized_agents(target_agents, known_agents)
            &&& crate::text::opt_view(e.failure_code) == failure_code
        },
    }
}

/// With feedback on, recording an installation event with a listed event
/// name, source and failure code stores it and answers `true`: the stored
/// event carries that name, source and failure code; with an unlisted
/// failure code nothing is stored and the code is named in the error.
pub proof fn law_recording_listed_events(
    before: ProductFeedbackStore,
    after: ProductFeedbackStore,
    r: Result<bool, FeedbackError>,
    event_name: Seq<char>,
    source_kind: Seq<char>,
    target_agents: Seq<Seq<char>>,
    failure_code: Option<Seq<char>>,
    known_agents: Seq<Seq<char>>,
    timestamp_ms: u64,
    id_ok: spec_fn(String) -> bool,
)
    requires
        event_recorded(before, after, r, event_name, source_kind, target_agents, failure_code, known_agents, timestamp_ms, id_ok),
        is_enabled_spec(before),
        event_name == "install_start"@ || event_name == "install_success"@ || event_name == "install_fail"@,
        source_kind == "github"@ || source_kind == "local"@,
    ensures
        (match failure_code {
            None => true,
            Some(c) => c == "network"@ || c == "permission"@ || c == "agent_unavailable"@ || c == "target_exists"@
                || c == "invalid_skill"@ || c == "duplicate"@ || c == "cancelled"@ || c == "unknown"@,
        }) ==> r == Ok::<bool, FeedbackError>(true) && after.events@.len() > 0 && after.events@.last().event_name@
            == event_name && after.events@.last().source_kind@ == source_kind && crate::text::opt_view(
            after.events@.last().failure_code,
        ) == failure_code,
        (match failure_code {
            None => false,
            Some(c) => !(c == "network"@ || c == "permission"@ || c == "agent_unavailable"@ || c == "target_exists"@
                || c == "invalid_skill"@ || c == "duplicate"@ || c == "cancelled"@ || c == "unknown"@),
        }) ==> (after == before && (r matches Err(e) && e.value@ == failure_code->0)),
{
    law_accepted_values(event_name, source_kind, failure_code);
}

/// Records one installation event when feedback is on, under a fresh
/// random id and the given time (see `event_recorded`). Returns whether an
/// event was stored.
pub fn record_product_feedback_event(
    store: &mut ProductFeedbackStore,
    event_name: &str,
    source_kind: &str,
    target_agents: &[String],
    failure_code: Option<&str>,
    known_agents: &[String],
    timestamp_ms: u64,
) -> (r: Result<bool, FeedbackError>)
    ensures
        event_recorded(
            *old(store),
            *final(store),
            r,
            event_name@,
            source_kind@,
            views(target_agents@),
            opt_str_view(failure_code),
            views(known_agents@),
            timestamp_ms,
            |i: String| is_fresh_id(i@),
        ),
{
    let id = random_id();
    let ghost fresh = id;
    let r = record_event_with_id(store, event_name, source_kind, target_agents, failure_code, known_agents, id, timestamp_ms);
    assert(is_fresh_id(fresh@));
    r
}

/// Records one installation event when feedback is on, under the given id
/// and time (see `event_recorded`). Returns whether an event was stored.
pub fn record_event_with_id(
    store: &mut ProductFeedbackStore,
    event_name: &str,
    source_kind: &str,
    target_agents: &[String],
    failure_code: Option<&str>,
    known_agents: &[String],
    id: String,
    timestamp_ms: u64,
) -> (r: Result<bool, FeedbackError>)
    ensures
        event_recorded(
            *old(store),
            *final(store),
            r,
            event_name@,
            source_kind@,
            views(target_agents@),
            opt_str_view(failure_code),
            views(known_agents@),
            timestamp_ms,
            |i: String| i == id,
        ),
{
    if !is_enabled(store) {
        return Ok(false);
    }
    proof {
        reveal_strlit("event");
        reveal_strlit("source");
        reveal_strlit("failure code");
    }
    let names = event_names();
    let name = allowed_value(event_name, names.as_slice(), "event")?;
    let sources = source_kinds();
    let source = allowed_value(source_kind, sources.as_slice(), "source")?;
    let code = match failure_code {
        Some(c) => {
            let codes = failure_codes();
            Some(allowed_value(c, codes.as_slice(), "failure code")?)
        },
        None => None,
    };
    let agents = sanitize_agents(target_agents, known_agents);
    let event = ProductFeedbackEvent {
        id,
        event_name: name,
        timestamp_ms,
        source_kind: source,
        target_agents: agents,
        failure_code: code,
    };
    let before_len = store.events.len();
    let ghost full = old(store).events@.push(event);
    store.events.push(event);
    let mut dropped: usize = 0;
    while store.events.len() > MAX_EVENTS
        invariant
            store.events@ == full.skip(dropped as int),
            dropped <= full.len(),
            dropped + store.events@.len() == full.len(),
            full.len() == before_len + 1,
            dropped > 0 ==> store.events@.len() >= 500,
            store.enabled_setting == old(store).enabled_setting,
        decreases store.events@.len(),
    {
        store.events.remove(0);
        assert(full.skip(dropped + 1) =~= full.skip(dropped as int).drop_first());
        dropped = dropped + 1;
    }
    assert(store.events@.last() == full.last());
    assert(store.events@ =~= capped(full));
    Ok(true)
}


/// The events kept after a record are at most `MAX_EVENTS`, and the newest
/// event is the last one.
pub proof fn law_feedback_events_capped<T>(events: Seq<T>, newest: T)
    ensures
        capped(events.push(newest)).len() <= 500,
        capped(events.push(newest)).last() == newest,
        events.len() < 500 ==> capped(events.push(newest)) == events.push(newest),
{
}

/// De-duplication keeps only elements of its input, and keeps the last one.
proof fn lemma_dedup_elements(s: Seq<Seq<char>>)
    ensures
        forall|x: Seq<char>| dedup_adjacent(s).contains(x) ==> s.contains(x),
        s.len() > 0 ==> dedup_adjacent(s).len() > 0 && dedup_adjacent(s).last() == s.last(),
    decreases s.len(),
{
    if s.len() > 0 {
        lemma_dedup_elements(s.drop_last());
        assert forall|x: Seq<char>| dedup_adjacent(s).contains(x) implies s.contains(x) by {
            let d = dedup_adjacent(s);
            let k = choose|k: int| 0 <= k < d.len() && d[k] == x;
            let r = dedup_adjacent(s.drop_last());
            if k < r.len() {
                assert(r[k] == x);
                assert(r.contains(x));
                assert(s.drop_last().contains(x));
                let m = choose|m: int| 0 <= m < s.drop_last().len() && s.drop_last()[m] == x;
                assert(s[m] == x);
            } else {
                assert(x == s.last());
                assert(s[s.len() - 1] == x);
            }
        }
        if s.len() >= 2 && s[s.len() - 2] == s.last() {
            assert(s.drop_last().last() == s[s.len() - 2]);
        }
    }
}

/// De-duplicating a sorted sequence gives a strictly increasing one.
proof fn lemma_dedup_increasing(s: Seq<Seq<char>>)
    requires
        sorted_keyed(s),
    ensures
        forall|i: int, j: int|
            0 <= i < j < dedup_adjacent(s).len() ==> seq_lt(
                #[trigger] dedup_adjacent(s)[i],
                #[trigger] dedup_adjacent(s)[j],
            ),
    decreases s.len(),
{
    if s.len() > 0 {
        let d = s.drop_last();
        assert(sorted_keyed(d)) by {
            assert forall|i: int, j: int| 0 <= i < j < d.len() implies crate::text::seq_le(
                #[trigger] d[i].key(),
                #[trigger] d[j].key(),
            ) by {
                assert(d[i] == s[i] && d[j] == s[j]);
            }
        }
        lemma_dedup_increasing(d);
        lemma_dedup_elements(d);
        let r = dedup_adjacent(d);
        if !(s.len() >= 2 && s[s.len() - 2] == s.last()) {
            let res = r.push(s.last());
            assert forall|i: int, j: int| 0 <= i < j < res.len() implies seq_lt(
                #[trigger] res[i],
                #[trigger] res[j],
            ) by {
                if j == res.len() - 1 {
                    assert(r.contains(r[i]));
                    assert(d.contains(r[i]));
                    let m = choose|m: int| 0 <= m < d.len() && d[m] == r[i];
                    assert(crate::text::seq_le(s[m].key(), s[s.len() - 1].key()));
                    if i < r.len() - 1 {
                        assert(seq_lt(r[i], r.last()));
                        assert(r.last() == d.last());
                        assert(crate::text::seq_le(s[s.len() - 2].key(), s[s.len() - 1].key()));
                        crate::sorting::lemma_le_transitive(r[i], r.last(), s.last());
                        if r[i] == s.last() {
                            crate::text::lemma_lt_asymmetric(r[i], r.last());
                            crate::text::lemma_lt_irreflexive(r[i]);
                        }
                    } else {
                        assert(r[i] == d.last());
                        assert(d.last() == s[s.len() - 2]);
                        assert(crate::text::seq_le(s[s.len() - 2].key(), s[s.len() - 1].key()));
                    }
                } else {
                    assert(res[i] == r[i] && res[j] == r[j]);
                }
            }
        }
    }
}

/// The stored Agent list holds only known Agents and `other`, each once, in
/// increasing order.
pub proof fn law_sanitized_agents(agents: Seq<Seq<char>>, known: Seq<Seq<char>>)
    ensures
        forall|x: Seq<char>|
            #[trigger] sanitized_agents(agents, known).contains(x) ==> known.contains(x) || x
                == "other"@,
        forall|i: int, j: int|
            0 <= i < j < sanitized_agents(agents, known).len() ==> seq_lt(
                #[trigger] sanitized_agents(agents, known)[i],
                #[trigger] sanitized_agents(agents, known)[j],
            ),
{
    broadcast use vstd::seq_lib::group_to_multiset_ensures;
    let mapped = agents.map_values(sanitize_fn(known));
    let sorted = sort_keyed(mapped);
    lemma_sort_sorted(mapped);
    lemma_sort_multiset(mapped);
    lemma_dedup_elements(sorted);
    lemma_dedup_increasing(sorted);
    assert forall|x: Seq<char>| #[trigger] sanitized_agents(agents, known).contains(x) implies known.contains(
        x,
    ) || x == "other"@ by {
        assert(sorted.contains(x));
        assert(sorted.to_multiset().count(x) > 0);
        assert(mapped.to_multiset().count(x) > 0);
        assert(mapped.contains(x));
        let k = choose|k: int| 0 <= k < mapped.len() && mapped[k] == x;
        assert(mapped[k] == sanitize_agent(agents[k], known));
    }
}

} // verus!
