use crate::action::Action;
use crate::error::FSMError;
use crate::event::Event;
use core::marker::PhantomData;
use vstd::prelude::*;

verus! {

/// A value that can stand for a state: it produces a stable canonical name,
/// and the engine compares states by that name alone.
pub trait FSMState {
    /// The canonical name, as a mathematical value.
    spec fn spec_name(&self) -> Seq<char>;

    /// Produces the canonical name.
    fn name(&self) -> (r: String)
        ensures
            r@ == self.spec_name(),
    ;
}

impl FSMState for String {
    open spec fn spec_name(&self) -> Seq<char> {
        self@
    }

    fn name(&self) -> (r: String) {
        self.clone()
    }
}

/// Where a hook is attached: one of the four untargeted variants fires on
/// every transition, the targeted ones only for the named event or state,
/// and `Custom` is resolved at construction time (a known state name becomes
/// an enter-state hook, a known event name an after-event hook, and any
/// other name is silently dropped).
#[derive(Debug, Clone)]
pub enum HookType {
    Before(String),
    After(String),
    Leave(String),
    Enter(String),
    Custom(String),
    BeforeEvent,
    AfterEvent,
    LeaveState,
    EnterState,
}

/// The four points in a transition's lifecycle where a callback can run.
#[derive(Debug, Clone, PartialEq, Eq, Structural)]
pub enum CallbackType {
    BeforeEvent,
    LeaveState,
    EnterState,
    AfterEvent,
}

/// One transition rule given to [`FSM::new`]: from any state in `src`, the
/// event named `name` moves the machine to `dst`.
#[derive(Debug, Clone)]
pub struct EventDesc {
    /// The event name used when calling for a transition.
    pub name: String,

    /// The source states the machine may be in for this rule to apply.
    pub src: Vec<String>,

    /// The destination state the machine ends in when the rule applies.
    pub dst: String,
}

/// One row of the transition table: `(event, src)` is the lookup key.
struct Transition {
    event: String,
    src: String,
    dst: String,
}

/// One row of the callback registry: `(target, phase)` is the lookup key,
/// with an empty target standing for an untargeted hook.
struct Callback<F> {
    target: String,
    phase: CallbackType,
    action: F,
}

/// The lookup key of one transition-table row.
spec fn t_key(t: Transition) -> (Seq<char>, Seq<char>) {
    (t.event@, t.src@)
}

/// The lookup key of one callback-registry row.
spec fn c_key<F>(c: Callback<F>) -> (Seq<char>, CallbackType) {
    (c.target@, c.phase)
}

/// The mapping from `(event, source)` to destination encoded by a sequence
/// of table rows, a later row overwriting an earlier one with the same key.
spec fn trans_map_of(ts: Seq<Transition>) -> Map<(Seq<char>, Seq<char>), Seq<char>>
    decreases ts.len(),
{
    if ts.len() == 0 {
        Map::empty()
    } else {
        trans_map_of(ts.drop_last()).insert(t_key(ts.last()), ts.last().dst@)
    }
}

/// The mapping from `(target, phase)` to callback encoded by a sequence of
/// registry rows, a later row overwriting an earlier one with the same key.
spec fn cb_map_of<F>(cs: Seq<Callback<F>>) -> Map<(Seq<char>, CallbackType), F>
    decreases cs.len(),
{
    if cs.len() == 0 {
        Map::empty()
    } else {
        cb_map_of(cs.drop_last()).insert(c_key(cs.last()), cs.last().action)
    }
}

/// The table rows contributed by one rule: every state in `srcs` maps, under
/// the event `name`, to `dst`.
pub open spec fn srcs_map(name: Seq<char>, srcs: Seq<String>, dst: Seq<char>) -> Map<
    (Seq<char>, Seq<char>),
    Seq<char>,
>
    decreases srcs.len(),
{
    if srcs.len() == 0 {
        Map::empty()
    } else {
        srcs_map(name, srcs.drop_last(), dst).insert((name, srcs.last()@), dst)
    }
}

/// The table rows contributed by one rule.
pub open spec fn desc_map(d: EventDesc) -> Map<(Seq<char>, Seq<char>), Seq<char>> {
    srcs_map(d.name@, d.src@, d.dst@)
}

/// The transition table built from a list of rules: the union of each rule's
/// rows, a later rule overwriting an earlier one with the same key.
pub open spec fn rule_map(ds: Seq<EventDesc>) -> Map<(Seq<char>, Seq<char>), Seq<char>>
    decreases ds.len(),
{
    if ds.len() == 0 {
        Map::empty()
    } else {
        rule_map(ds.drop_last()).union_prefer_right(desc_map(ds.last()))
    }
}

/// Whether `name` names an event of some rule.
pub open spec fn known_event(ds: Seq<EventDesc>, name: Seq<char>) -> bool {
    exists|i: int| 0 <= i < ds.len() && ds[i].name@ == name
}

/// Whether `name` names a state that some rule mentions: a source state, or
/// the destination of a rule that has at least one source.
pub open spec fn known_state(ds: Seq<EventDesc>, name: Seq<char>) -> bool {
    (exists|i: int, j: int|
        0 <= i < ds.len() && 0 <= j < ds[i].src@.len() && #[trigger] ds[i].src@[j]@ == name)
        || (exists|i: int| 0 <= i < ds.len() && ds[i].src@.len() > 0 && ds[i].dst@ == name)
}

/// The registry key a hook resolves to, or `None` for a custom hook whose
/// name matches neither a known state nor a known event: such a hook is
/// silently dropped.
pub open spec fn resolve_hook(h: HookType, ds: Seq<EventDesc>) -> Option<
    (Seq<char>, CallbackType),
> {
    match h {
        HookType::Before(t) => Some((t@, CallbackType::BeforeEvent)),
        HookType::After(t) => Some((t@, CallbackType::AfterEvent)),
        HookType::Leave(t) => Some((t@, CallbackType::LeaveState)),
        HookType::Enter(t) => Some((t@, CallbackType::EnterState)),
        HookType::Custom(t) => if known_state(ds, t@) {
            Some((t@, CallbackType::EnterState))
        } else if known_event(ds, t@) {
            Some((t@, CallbackType::AfterEvent))
        } else {
            None
        },
        HookType::BeforeEvent => Some((Seq::empty(), CallbackType::BeforeEvent)),
        HookType::AfterEvent => Some((Seq::empty(), CallbackType::AfterEvent)),
        HookType::LeaveState => Some((Seq::empty(), CallbackType::LeaveState)),
        HookType::EnterState => Some((Seq::empty(), CallbackType::EnterState)),
    }
}

/// The callback registry built from a list of hooks: each hook resolved
/// against the rules `ds`, a later hook overwriting an earlier one that
/// resolved to the same key, and unresolved hooks dropped.
pub open spec fn hook_map<F>(hs: Seq<(HookType, F)>, ds: Seq<EventDesc>) -> Map<
    (Seq<char>, CallbackType),
    F,
>
    decreases hs.len(),
{
    if hs.len() == 0 {
        Map::empty()
    } else {
        let m = hook_map(hs.drop_last(), ds);
        match resolve_hook(hs.last().0, ds) {
            Some(k) => m.insert(k, hs.last().1),
            None => m,
        }
    }
}

/// Whether a callback is registered for the given target and phase; the
/// empty target stands for an untargeted hook.
pub open spec fn has_callback<F>(
    cm: Map<(Seq<char>, CallbackType), F>,
    target: Seq<char>,
    phase: CallbackType,
) -> bool {
    cm.dom().contains((target, phase))
}

/// Whether the table holds a rule for this event from any source state.
pub open spec fn event_in_table(
    tm: Map<(Seq<char>, Seq<char>), Seq<char>>,
    ev: Seq<char>,
) -> bool {
    exists|s: Seq<char>| tm.dom().contains((ev, s))
}

/// The state a dispatch of `ev` from `cur` ends in, when no callback
/// interferes: the rule's destination if one applies, else `cur` unchanged.
pub open spec fn step(
    tm: Map<(Seq<char>, Seq<char>), Seq<char>>,
    cur: Seq<char>,
    ev: Seq<char>,
) -> Seq<char> {
    if tm.contains_key((ev, cur)) {
        tm[(ev, cur)]
    } else {
        cur
    }
}

/// The state reached by dispatching a whole sequence of events from `init`,
/// when no callback interferes.
pub open spec fn replay(
    tm: Map<(Seq<char>, Seq<char>), Seq<char>>,
    init: Seq<char>,
    evs: Seq<Seq<char>>,
) -> Seq<char>
    decreases evs.len(),
{
    if evs.len() == 0 {
        init
    } else {
        replay(tm, step(tm, init, evs[0]), evs.drop_first())
    }
}

/// Law: event dispatch is deterministic. Two replays of the same event
/// sequence from the same initial state over the same transition table end
/// in the same state. A machine none of whose before-event or leave-state
/// callbacks would run follows [`replay`] call by call, by the contract of
/// [`FSM::on_event`], so its final state depends on nothing but the table,
/// the initial state and the event names.
pub proof fn lemma_replay_deterministic(
    tm: Map<(Seq<char>, Seq<char>), Seq<char>>,
    init: Seq<char>,
    evs1: Seq<Seq<char>>,
    evs2: Seq<Seq<char>>,
)
    requires
        evs1 == evs2,
    ensures
        replay(tm, init, evs1) == replay(tm, init, evs2),
{
}

/// A key lies in the table of a row sequence exactly when some row carries it.
proof fn lemma_trans_map_dom(ts: Seq<Transition>, k: (Seq<char>, Seq<char>))
    ensures
        trans_map_of(ts).contains_key(k) <==> exists|i: int|
            0 <= i < ts.len() && t_key(ts[i]) == k,
    decreases ts.len(),
{
    if ts.len() > 0 {
        lemma_trans_map_dom(ts.drop_last(), k);
        let last = ts.len() - 1;
        if t_key(ts[last]) == k {
            assert(trans_map_of(ts).contains_key(k));
        } else {
            if trans_map_of(ts).contains_key(k) {
                let i = choose|i: int|
                    0 <= i < ts.drop_last().len() && t_key(ts.drop_last()[i]) == k;
                assert(ts.drop_last()[i] == ts[i]);
            }
            if exists|i: int| 0 <= i < ts.len() && t_key(ts[i]) == k {
                let i = choose|i: int| 0 <= i < ts.len() && t_key(ts[i]) == k;
                assert(t_key(ts.drop_last()[i]) == k);
            }
        }
    }
}

/// Extending the scanned prefix of the table rows by one inserts that row.
proof fn lemma_trans_map_take_step(ts: Seq<Transition>, i: int)
    requires
        0 <= i < ts.len(),
    ensures
        trans_map_of(ts.take(i + 1)) == trans_map_of(ts.take(i)).insert(t_key(ts[i]), ts[i].dst@),
{
    let a = ts.take(i + 1);
    assert(a.drop_last() =~= ts.take(i));
    assert(a.last() == ts[i]);
}

/// Extending the scanned prefix of the registry rows by one inserts that row.
proof fn lemma_cb_map_take_step<F>(cs: Seq<Callback<F>>, i: int)
    requires
        0 <= i < cs.len(),
    ensures
        cb_map_of(cs.take(i + 1)) == cb_map_of(cs.take(i)).insert(c_key(cs[i]), cs[i].action),
{
    let a = cs.take(i + 1);
    assert(a.drop_last() =~= cs.take(i));
    assert(a.last() == cs[i]);
}

/// Extending the handled prefix of one rule's sources by one inserts the row
/// for that source.
proof fn lemma_srcs_map_take_step(name: Seq<char>, srcs: Seq<String>, dst: Seq<char>, j: int)
    requires
        0 <= j < srcs.len(),
    ensures
        srcs_map(name, srcs.take(j + 1), dst) == srcs_map(name, srcs.take(j), dst).insert(
            (name, srcs[j]@),
            dst,
        ),
{
    let a = srcs.take(j + 1);
    assert(a.drop_last() =~= srcs.take(j));
    assert(a.last() == srcs[j]);
}

/// Extending the handled prefix of the rules by one unions in that rule's rows.
proof fn lemma_rule_map_take_step(ds: Seq<EventDesc>, i: int)
    requires
        0 <= i < ds.len(),
    ensures
        rule_map(ds.take(i + 1)) == rule_map(ds.take(i)).union_prefer_right(desc_map(ds[i])),
{
    let a = ds.take(i + 1);
    assert(a.drop_last() =~= ds.take(i));
    assert(a.last() == ds[i]);
}

/// Extending the handled prefix of the hooks by one inserts the hook's row,
/// or changes nothing when the hook does not resolve.
proof fn lemma_hook_map_take_step<F>(hs: Seq<(HookType, F)>, ds: Seq<EventDesc>, i: int)
    requires
        0 <= i < hs.len(),
    ensures
        hook_map(hs.take(i + 1), ds) == (match resolve_hook(hs[i].0, ds) {
            Some(k) => hook_map(hs.take(i), ds).insert(k, hs[i].1),
            None => hook_map(hs.take(i), ds),
        }),
{
    let a = hs.take(i + 1);
    assert(a.drop_last() =~= hs.take(i));
    assert(a.last() == hs[i]);
}

/// A finite state machine: a transition table and a callback registry, both
/// immutable after construction, and the name of the current state, which
/// only a successful [`FSM::on_event`] call changes.
///
/// `I` is the type of the optional arguments handed through to callbacks,
/// and `F` the callback type itself.
pub struct FSM<I, F> {
    current: String,
    transitions: Vec<Transition>,
    callbacks: Vec<Callback<F>>,
    marker: PhantomData<I>,
}

/// Whether some rule's event is named `name`.
#[verifier::loop_isolation(false)]
fn event_name_known(events: &Vec<EventDesc>, name: &String) -> (r: bool)
    ensures
        r == known_event(events@, name@),
{
    let mut i: usize = 0;
    while i < events.len()
        invariant
            i <= events.len(),
            forall|t: int| 0 <= t < i ==> events@[t].name@ != name@,
        decreases events.len() - i,
    {
        if events[i].name == *name {
            return true;
        }
        i += 1;
    }
    false
}

/// Whether some rule mentions a state named `name`.
#[verifier::loop_isolation(false)]
fn state_name_known(events: &Vec<EventDesc>, name: &String) -> (r: bool)
    ensures
        r == known_state(events@, name@),
{
    let mut i: usize = 0;
    while i < events.len()
        invariant
            i <= events.len(),
            forall|t: int, u: int|
                0 <= t < i && 0 <= u < events@[t].src@.len() ==> #[trigger] events@[t].src@[u]@
                    != name@,
            forall|t: int|
                0 <= t < i ==> !(#[trigger] events@[t].src@.len() > 0 && events@[t].dst@ == name@),
        decreases events.len() - i,
    {
        let d = &events[i];
        let mut j: usize = 0;
        while j < d.src.len()
            invariant
                j <= d.src.len(),
                forall|u: int| 0 <= u < j ==> #[trigger] d.src@[u]@ != name@,
            decreases d.src.len() - j,
        {
            if d.src[j] == *name {
                return true;
            }
            j += 1;
        }
        if d.src.len() > 0 && d.dst == *name {
            return true;
        }
        i += 1;
    }
    false
}

impl<I, F: Action<I>> FSM<I, F> {
    /// The canonical name of the current state.
    pub closed spec fn current_state(self) -> Seq<char> {
        self.current@
    }

    /// The transition table: `(event name, source name)` to destination name.
    pub closed spec fn transition_map(self) -> Map<(Seq<char>, Seq<char>), Seq<char>> {
        trans_map_of(self.transitions@)
    }

    /// The callback registry: `(target name, phase)` to callback, with an
    /// empty target standing for an untargeted hook.
    pub closed spec fn callback_map(self) -> Map<(Seq<char>, CallbackType), F> {
        cb_map_of(self.callbacks@)
    }

    /// Builds a machine: `initial` names the starting state, `events` the
    /// transition rules, and `hooks` the callbacks. Construction never
    /// fails: among rules with the same `(event, source)` key the last one
    /// wins, among hooks resolving to the same key the last one wins, and a
    /// custom hook matching neither a known state nor a known event is
    /// silently dropped.
    #[verifier::loop_isolation(false)]
    pub fn new(initial: String, events: Vec<EventDesc>, hooks: Vec<(HookType, F)>) -> (r: Self)
        ensures
            r.current_state() == initial@,
            r.transition_map() == rule_map(events@),
            r.callback_map() == hook_map(hooks@, events@),
    {
        let mut transitions: Vec<Transition> = Vec::new();
        let mut i: usize = 0;
        while i < events.len()
            invariant
                i <= events.len(),
                trans_map_of(transitions@) == rule_map(events@.take(i as int)),
            decreases events.len() - i,
        {
            let d = &events[i];
            proof {
                assert(rule_map(events@.take(i as int)).union_prefer_right(
                    srcs_map(d.name@, d.src@.take(0), d.dst@),
                ) =~= rule_map(events@.take(i as int)));
            }
            let mut j: usize = 0;
            while j < d.src.len()
                invariant
                    j <= d.src.len(),
                    trans_map_of(transitions@) == rule_map(events@.take(i as int)).union_prefer_right(
                        srcs_map(d.name@, d.src@.take(j as int), d.dst@),
                    ),
                decreases d.src.len() - j,
            {
                let ghost before = transitions@;
                transitions.push(
                    Transition { event: d.name.clone(), src: d.src[j].clone(), dst: d.dst.clone() },
                );
                proof {
                    assert(transitions@.drop_last() =~= before);
                    lemma_srcs_map_take_step(d.name@, d.src@, d.dst@, j as int);
                    vstd::map_lib::lemma_union_insert_right(
                        rule_map(events@.take(i as int)),
                        srcs_map(d.name@, d.src@.take(j as int), d.dst@),
                        (d.name@, d.src@[j as int]@),
                        d.dst@,
                    );
                }
                j += 1;
            }
            proof {
                assert(d.src@.take(d.src@.len() as int) =~= d.src@);
                lemma_rule_map_take_step(events@, i as int);
            }
            i += 1;
        }
        proof {
            assert(events@.take(events@.len() as int) =~= events@);
        }

        let mut callbacks: Vec<Callback<F>> = Vec::new();
        let mut rest = hooks;
        let ghost all_hooks = rest@;
        proof {
            assert(all_hooks.len() == rest.len());
        }
        let mut n: usize = 0;
        while rest.len() > 0
            invariant
                all_hooks.len() <= usize::MAX,
                n + rest.len() == all_hooks.len(),
                rest@ == all_hooks.skip(n as int),
                cb_map_of(callbacks@) == hook_map(all_hooks.take(n as int), events@),
            decreases rest.len(),
        {
            let hook = rest.remove(0);
            proof {
                assert(all_hooks.skip(n as int)[0] == all_hooks[n as int]);
                assert(all_hooks.skip(n as int).remove(0) =~= all_hooks.skip(n as int + 1));
            }
            let (h, f) = hook;
            let resolved: Option<(String, CallbackType)> = match h {
                HookType::Before(t) => Some((t, CallbackType::BeforeEvent)),
                HookType::After(t) => Some((t, CallbackType::AfterEvent)),
                HookType::Leave(t) => Some((t, CallbackType::LeaveState)),
                HookType::Enter(t) => Some((t, CallbackType::EnterState)),
                HookType::Custom(t) => {
                    if state_name_known(&events, &t) {
                        Some((t, CallbackType::EnterState))
                    } else if event_name_known(&events, &t) {
                        Some((t, CallbackType::AfterEvent))
                    } else {
                        None
                    }
                },
                HookType::BeforeEvent => Some((String::new(), CallbackType::BeforeEvent)),
                HookType::AfterEvent => Some((String::new(), CallbackType::AfterEvent)),
                HookType::LeaveState => Some((String::new(), CallbackType::LeaveState)),
                HookType::EnterState => Some((String::new(), CallbackType::EnterState)),
            };
            proof {
                lemma_hook_map_take_step(all_hooks, events@, n as int);
            }
            match resolved {
                Some((target, phase)) => {
                    let ghost before = callbacks@;
                    callbacks.push(Callback { target, phase, action: f });
                    proof {
                        assert(callbacks@.drop_last() =~= before);
                    }
                },
                None => {},
            }
            n += 1;
        }
        proof {
            assert(all_hooks.take(all_hooks.len() as int) =~= all_hooks);
        }

        FSM { current: initial, transitions, callbacks, marker: PhantomData }
    }

    /// Returns the canonical name of the current state.
    pub fn get_current(&self) -> (r: String)
        ensures
            r@ == self.current_state(),
    {
        self.current.clone()
    }

    /// Whether the table has a rule for `ev` from the current state.
    pub open spec fn dispatches(self, ev: Seq<char>) -> bool {
        self.transition_map().contains_key((ev, self.current_state()))
    }

    /// The destination of the rule for `ev` from the current state.
    pub open spec fn dest_of(self, ev: Seq<char>) -> Seq<char> {
        self.transition_map()[(ev, self.current_state())]
    }

    /// Whether a dispatch would run some callback at this phase: one
    /// targeted at `target`, or an untargeted one.
    pub open spec fn hook_would_run(self, target: Seq<char>, phase: CallbackType) -> bool {
        has_callback(self.callback_map(), target, phase) || has_callback(
            self.callback_map(),
            Seq::empty(),
            phase,
        )
    }

    /// Looks the destination for `(event, current)` up in the table; the
    /// last row with that key decides, as the table's map does.
    #[verifier::loop_isolation(false)]
    fn lookup_dst(&self, event: &String) -> (r: Option<String>)
        ensures
            match r {
                Some(d) => self.transition_map().contains_key((event@, self.current@)) && d@
                    == self.transition_map()[(event@, self.current@)],
                None => !self.transition_map().contains_key((event@, self.current@)),
            },
    {
        let ghost k = (event@, self.current@);
        let ghost full = self.transitions@;
        let mut i: usize = self.transitions.len();
        proof {
            assert(full.take(i as int) =~= full);
        }
        while i > 0
            invariant
                i <= self.transitions.len(),
                trans_map_of(full).contains_key(k) <==> trans_map_of(
                    full.take(i as int),
                ).contains_key(k),
                trans_map_of(full).contains_key(k) ==> trans_map_of(full)[k] == trans_map_of(
                    full.take(i as int),
                )[k],
            decreases i,
        {
            i -= 1;
            proof {
                lemma_trans_map_take_step(full, i as int);
            }
            let t = &self.transitions[i];
            if t.event == *event && t.src == self.current {
                return Some(t.dst.clone());
            }
        }
        None
    }

    /// Whether any table row at all carries this event name.
    #[verifier::loop_isolation(false)]
    fn event_exists(&self, event: &String) -> (r: bool)
        ensures
            r == event_in_table(self.transition_map(), event@),
    {
        let mut i: usize = 0;
        while i < self.transitions.len()
            invariant
                i <= self.transitions.len(),
                forall|t: int| 0 <= t < i ==> self.transitions@[t].event@ != event@,
            decreases self.transitions.len() - i,
        {
            if self.transitions[i].event == *event {
                proof {
                    lemma_trans_map_dom(self.transitions@, t_key(self.transitions@[i as int]));
                }
                return true;
            }
            i += 1;
        }
        proof {
            assert forall|s: Seq<char>| !trans_map_of(self.transitions@).dom().contains(
                (event@, s),
            ) by {
                lemma_trans_map_dom(self.transitions@, (event@, s));
            }
        }
        false
    }

    /// Looks the callback for `(target, phase)` up in the registry; the last
    /// row with that key decides, as the registry's map does.
    #[verifier::loop_isolation(false)]
    fn find_callback(&self, target: &String, phase: CallbackType) -> (r: Option<&F>)
        ensures
            match r {
                Some(f) => has_callback(self.callback_map(), target@, phase) && *f
                    == self.callback_map()[(target@, phase)],
                None => !has_callback(self.callback_map(), target@, phase),
            },
    {
        let ghost k = (target@, phase);
        let ghost full = self.callbacks@;
        let mut i: usize = self.callbacks.len();
        proof {
            assert(full.take(i as int) =~= full);
        }
        while i > 0
            invariant
                i <= self.callbacks.len(),
                cb_map_of(full).contains_key(k) <==> cb_map_of(full.take(i as int)).contains_key(
                    k,
                ),
                cb_map_of(full).contains_key(k) ==> cb_map_of(full)[k] == cb_map_of(
                    full.take(i as int),
                )[k],
            decreases i,
        {
            i -= 1;
            proof {
                lemma_cb_map_take_step(full, i as int);
            }
            let c = &self.callbacks[i];
            if c.target == *target && c.phase == phase {
                return Some(&c.action);
            }
        }
        None
    }

    /// Runs the before-event phase: the callback targeted at the event, then
    /// the untargeted one, stopping at the first failure.
    fn before_event_callbacks(&self, e: &Event<I>) -> (r: Result<(), String>)
        ensures
            !self.hook_would_run(e.event@, CallbackType::BeforeEvent) ==> r is Ok,
    {
        if let Some(f) = self.find_callback(&e.event, CallbackType::BeforeEvent) {
            f.call(e)?;
        }
        let untargeted = String::new();
        if let Some(f) = self.find_callback(&untargeted, CallbackType::BeforeEvent) {
            f.call(e)?;
        }
        Ok(())
    }

    /// Runs the after-event phase: the callback targeted at the event, then
    /// the untargeted one, stopping at the first failure.
    fn after_event_callbacks(&self, e: &Event<I>) -> (r: Result<(), String>)
        ensures
            !self.hook_would_run(e.event@, CallbackType::AfterEvent) ==> r is Ok,
    {
        if let Some(f) = self.find_callback(&e.event, CallbackType::AfterEvent) {
            f.call(e)?;
        }
        let untargeted = String::new();
        if let Some(f) = self.find_callback(&untargeted, CallbackType::AfterEvent) {
            f.call(e)?;
        }
        Ok(())
    }

    /// Runs the leave-state phase for the current state: the callback
    /// targeted at it, then the untargeted one, stopping at the first
    /// failure.
    fn leave_state_callbacks(&self, e: &Event<I>) -> (r: Result<(), String>)
        ensures
            !self.hook_would_run(self.current_state(), CallbackType::LeaveState) ==> r is Ok,
    {
        if let Some(f) = self.find_callback(&self.current, CallbackType::LeaveState) {
            f.call(e)?;
        }
        let untargeted = String::new();
        if let Some(f) = self.find_callback(&untargeted, CallbackType::LeaveState) {
            f.call(e)?;
        }
        Ok(())
    }

    /// Runs the enter-state phase for the current state: the callback
    /// targeted at it, then the untargeted one, stopping at the first
    /// failure.
    fn enter_state_callbacks(&self, e: &Event<I>) -> (r: Result<(), String>)
        ensures
            !self.hook_would_run(self.current_state(), CallbackType::EnterState) ==> r is Ok,
    {
        if let Some(f) = self.find_callback(&self.current, CallbackType::EnterState) {
            f.call(e)?;
        }
        let untargeted = String::new();
        if let Some(f) = self.find_callback(&untargeted, CallbackType::EnterState) {
            f.call(e)?;
        }
        Ok(())
    }

    /// Initiates a state transition with the named event, handing `args`
    /// through to every invoked callback.
    ///
    /// The phases run in a fixed order: the before-event callbacks, then —
    /// for a real transition — the leave-state callbacks, the commit of the
    /// new state, and best-effort the enter-state and after-event callbacks,
    /// whose failures are swallowed because the transition has already
    /// committed. A rule that maps the current state to itself runs only the
    /// before-event and after-event callbacks and reports `NoTransition` (or
    /// `NoTransitionWithError`). Within every phase the targeted callback
    /// runs before the untargeted one.
    ///
    /// The contract pins the outcome down: the table and the registry never
    /// change; every error leaves the current state unchanged; success moves
    /// it to the rule's destination; which error comes back is determined by
    /// the table and — only where a callback may actually run — by that
    /// callback's outcome.
    pub fn on_event(&mut self, event: &str, args: Option<I>) -> (r: Result<(), FSMError>)
        ensures
            final(self).transition_map() == old(self).transition_map(),
            final(self).callback_map() == old(self).callback_map(),
            r is Err ==> final(self).current_state() == old(self).current_state(),
            r is Ok ==> old(self).dispatches(event@) && old(self).dest_of(event@) != old(
                self,
            ).current_state() && final(self).current_state() == old(self).dest_of(event@),
            !old(self).dispatches(event@) && event_in_table(old(self).transition_map(), event@)
                ==> (r matches Err(FSMError::InvalidEvent(n, c)) && n@ == event@ && c@ == old(
                self,
            ).current_state()),
            !old(self).dispatches(event@) && !event_in_table(old(self).transition_map(), event@)
                ==> (r matches Err(FSMError::UnknownEvent(n)) && n@ == event@),
            old(self).dispatches(event@) && old(self).dest_of(event@) == old(self).current_state()
                ==> (r matches Err(e) && (e is NoTransition || e is NoTransitionWithError
                || e is InternalError)),
            old(self).dispatches(event@) && old(self).dest_of(event@) == old(self).current_state()
                && !old(self).hook_would_run(event@, CallbackType::BeforeEvent) ==> (r matches Err(
                e,
            ) && (e is NoTransition || e is NoTransitionWithError)),
            old(self).dispatches(event@) && old(self).dest_of(event@) == old(self).current_state()
                && !old(self).hook_would_run(event@, CallbackType::BeforeEvent) && !old(
                self,
            ).hook_would_run(event@, CallbackType::AfterEvent) ==> r == Err::<(), FSMError>(
                FSMError::NoTransition,
            ),
            old(self).dispatches(event@) && old(self).dest_of(event@) != old(self).current_state()
                ==> (r is Ok || (r matches Err(e) && e is InternalError)),
            old(self).dispatches(event@) && old(self).dest_of(event@) != old(self).current_state()
                && !old(self).hook_would_run(event@, CallbackType::BeforeEvent) && !old(
                self,
            ).hook_would_run(old(self).current_state(), CallbackType::LeaveState) ==> r is Ok,
            !old(self).hook_would_run(event@, CallbackType::BeforeEvent) && !old(
                self,
            ).hook_would_run(old(self).current_state(), CallbackType::LeaveState)
                ==> final(self).current_state() == step(
                old(self).transition_map(),
                old(self).current_state(),
                event@,
            ),
    {
        let ev: String = event.to_owned();
        let dst = match self.lookup_dst(&ev) {
            Some(d) => d,
            None => {
                if self.event_exists(&ev) {
                    return Err(FSMError::InvalidEvent(ev, self.current.clone()));
                }
                return Err(FSMError::UnknownEvent(ev));
            },
        };
        let e = Event { event: ev, src: self.current.clone(), dst, args };

        if let Err(msg) = self.before_event_callbacks(&e) {
            return Err(FSMError::InternalError(msg));
        }

        if self.current == e.dst {
            if let Err(msg) = self.after_event_callbacks(&e) {
                return Err(FSMError::NoTransitionWithError(msg));
            }
            return Err(FSMError::NoTransition);
        }

        if let Err(msg) = self.leave_state_callbacks(&e) {
            return Err(FSMError::InternalError(msg));
        }
        self.current = e.dst.clone();

        let _ = self.enter_state_callbacks(&e);
        let _ = self.after_event_callbacks(&e);
        Ok(())
    }

    /// Returns true when the given state's canonical name is the current
    /// state's name.
    pub fn is<S: FSMState>(&self, state: &S) -> (r: bool)
        ensures
            r == (state.spec_name() == self.current_state()),
    {
        let n = state.name();
        n == self.current
    }

    /// Returns true when the named event can occur in the current state; it
    /// invokes no callback.
    pub fn can(&self, event: &str) -> (r: bool)
        ensures
            r == self.dispatches(event@),
    {
        let ev: String = event.to_owned();
        self.lookup_dst(&ev).is_some()
    }
}

} // verus!
