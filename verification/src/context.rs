//! The central authority: the strong table of live proxies, the pending-call
//! table, and message routing.
//!
//! The context owns the only strong references to nodes, keyed by guid; the
//! table keeps creation order, so a node's parent always sits at a smaller
//! index. Calls are correlated by a monotonic id that is never reused.
//! `dispatch` consumes one decoded message and either resolves a pending
//! call, grows or shrinks the graph, or hands an event to the addressed
//! node's handler; everything the host must then do — wake a caller, run a
//! route callback — comes back as explicit actions.

use vstd::prelude::*;

use crate::error::{Error, ErrorMessage};
use crate::json::{JsonData, JsonValue};
use crate::protocol::{
    create_method, dispose_method, is_create_method, is_dispose_method, Message, RequestEnvelope,
};
use crate::remote::{kind_of_tag, ChannelOwner, RemoteKind, RemoteObject};

verus! {

/// One registered pending call: its id, and whether the caller's future is
/// still there to receive the result.
#[derive(Clone, Copy)]
pub struct PendingCall {
    pub id: u64,
    pub receiver_alive: bool,
}

/// What the host must carry out after one dispatch step.
pub enum HostAction {
    /// Deliver a call's result into its cell and wake the stored waker.
    Resolve { id: u64, body: Result<JsonValue, ErrorMessage> },
    /// The caller's future was dropped: the arriving result is discarded.
    DiscardResult { id: u64 },
    /// Hand the newly created context to the caller awaiting it.
    NotifyPendingContext { browser: String, context: String },
    /// Run the route callback held under this handle on this route node.
    RunRouteHandler { handler: u64, route: String },
    /// No route callback is registered: let the route fall through.
    FallBackRoute { route: String },
    /// Run the websocket-route callback held under this handle.
    RunWebSocketRouteHandler { handler: u64, route: String },
    /// No pattern matched: connect the routed websocket to the server.
    ConnectWebSocketToServer { route: String },
    /// A node handler failed; log it and keep reading. One bad event never
    /// halts the read loop.
    HandlerError { guid: String, method: String, error: Error },
}

/// No two nodes share a guid, and every node's parent is present at a
/// smaller index: parents enter the table before their children.
pub open spec fn objects_wf(s: Seq<RemoteObject>) -> bool {
    &&& forall|i: int, j: int|
        0 <= i < j < s.len() ==> (#[trigger] s[i].guid_data()) != (#[trigger] s[j].guid_data())
    &&& forall|i: int|
        0 <= i < s.len() ==> match (#[trigger] s[i].parent_data()) {
            Some(p) => exists|j: int| 0 <= j < i && (#[trigger] s[j].guid_data()) == p,
            None => true,
        }
}

/// Some node of the table carries this guid.
pub open spec fn has_guid(s: Seq<RemoteObject>, g: Seq<char>) -> bool {
    exists|i: int| 0 <= i < s.len() && (#[trigger] s[i].guid_data()) == g
}

/// The index of the node carrying this guid.
pub open spec fn index_of_guid(s: Seq<RemoteObject>, g: Seq<char>) -> int {
    choose|i: int| 0 <= i < s.len() && (#[trigger] s[i].guid_data()) == g
}

/// The node at index `i` belongs to the subtree rooted at the node with guid
/// `g`: it is that node, or its parent chain passes through it.
pub open spec fn in_subtree(s: Seq<RemoteObject>, i: int, g: Seq<char>) -> bool
    decreases i,
{
    if s[i].guid_data() == g {
        true
    } else {
        match s[i].parent_data() {
            Some(p) => exists|j: int|
                0 <= j < i && (#[trigger] s[j].guid_data()) == p && in_subtree(s, j, g),
            None => false,
        }
    }
}

/// The guids of the subtree rooted at the node with guid `g`.
pub open spec fn subtree_guids(s: Seq<RemoteObject>, g: Seq<char>) -> Set<Seq<char>> {
    Set::new(
        |gg: Seq<char>|
            exists|i: int|
                0 <= i < s.len() && (#[trigger] s[i].guid_data()) == gg && in_subtree(s, i, g),
    )
}

/// Membership in a subtree is decided by the table up to and including the
/// node itself: anything appended later cannot change it.
proof fn lemma_in_subtree_prefix(s1: Seq<RemoteObject>, s2: Seq<RemoteObject>, i: int, g: Seq<char>)
    requires
        0 <= i < s1.len(),
        i < s2.len(),
        forall|k: int| 0 <= k <= i ==> s1[k] == s2[k],
    ensures
        in_subtree(s1, i, g) == in_subtree(s2, i, g),
    decreases i,
{
    assert forall|j: int| 0 <= j < i implies in_subtree(s1, j, g) == in_subtree(s2, j, g) by {
        lemma_in_subtree_prefix(s1, s2, j, g);
    }
    assert(s1[i] == s2[i]);
    if in_subtree(s1, i, g) && s1[i].guid_data() != g {
        let j = choose|j: int|
            0 <= j < i && (#[trigger] s1[j].guid_data()) == s1[i].parent_data()->Some_0
                && in_subtree(s1, j, g);
        assert(0 <= j < i && s2[j].guid_data() == s2[i].parent_data()->Some_0 && in_subtree(
            s2,
            j,
            g,
        ));
        assert(in_subtree(s2, i, g));
    }
    if in_subtree(s2, i, g) && s2[i].guid_data() != g {
        let j = choose|j: int|
            0 <= j < i && (#[trigger] s2[j].guid_data()) == s2[i].parent_data()->Some_0
                && in_subtree(s2, j, g);
        assert(0 <= j < i && s1[j].guid_data() == s1[i].parent_data()->Some_0 && in_subtree(
            s1,
            j,
            g,
        ));
        assert(in_subtree(s1, i, g));
    }
}

proof fn lemma_filter_singleton<A>(x: A, pred: spec_fn(A) -> bool)
    ensures
        seq![x].filter(pred) == (if pred(x) {
            seq![x]
        } else {
            Seq::<A>::empty()
        }),
{
    reveal_with_fuel(Seq::filter, 2);
    assert(seq![x].drop_last() =~= Seq::<A>::empty());
    assert(Seq::<A>::empty().filter(pred) =~= Seq::<A>::empty());
    if pred(x) {
        assert(seq![x].filter(pred) =~= seq![x]);
    } else {
        assert(seq![x].filter(pred) =~= Seq::<A>::empty());
    }
}

/// Every element a filter keeps was an element of the sequence.
proof fn lemma_filter_from<A>(s: Seq<A>, pred: spec_fn(A) -> bool)
    ensures
        forall|k: int| 0 <= k < s.filter(pred).len() ==> s.contains(#[trigger] s.filter(pred)[k]),
    decreases s.len(),
{
    reveal_with_fuel(Seq::filter, 2);
    if s.len() > 0 {
        lemma_filter_from(s.drop_last(), pred);
        assert forall|k: int| 0 <= k < s.filter(pred).len() implies s.contains(
            #[trigger] s.filter(pred)[k],
        ) by {
            if k < s.drop_last().filter(pred).len() {
                assert(s.drop_last().contains(s.drop_last().filter(pred)[k]));
                let m = choose|m: int|
                    0 <= m < s.drop_last().len() && (#[trigger] s.drop_last()[m]) == s
                        .drop_last().filter(pred)[k];
                assert(s[m] == s.filter(pred)[k]);
            } else {
                assert(s.filter(pred)[k] == s.last());
                assert(s[s.len() - 1] == s.last());
            }
        }
    }
}

/// Removing a node that no later node names as its parent keeps the table
/// well formed.
proof fn lemma_wf_remove(s: Seq<RemoteObject>, i: int)
    requires
        objects_wf(s),
        0 <= i < s.len(),
        forall|k: int|
            i < k < s.len() ==> (#[trigger] s[k].parent_data()) != Some(s[i].guid_data()),
    ensures
        objects_wf(s.remove(i)),
{
    let t = s.remove(i);
    assert(t =~= s.subrange(0, i) + s.subrange(i + 1, s.len() as int));
    assert forall|a: int| 0 <= a < t.len() implies match (#[trigger] t[a].parent_data()) {
        Some(p) => exists|b: int| 0 <= b < a && (#[trigger] t[b].guid_data()) == p,
        None => true,
    } by {
        let oa = if a < i {
            a
        } else {
            a + 1
        };
        assert(t[a] == s[oa]);
        match s[oa].parent_data() {
            Some(p) => {
                let ob = choose|b: int| 0 <= b < oa && (#[trigger] s[b].guid_data()) == p;
                assert(p != s[i].guid_data());
                assert(ob != i);
                let b = if ob < i {
                    ob
                } else {
                    ob - 1
                };
                assert(t[b] == s[ob]);
                assert(0 <= b < a && t[b].guid_data() == p);
            },
            None => {},
        }
    }
    assert forall|a: int, b: int| 0 <= a < b < t.len() implies (#[trigger] t[a].guid_data()) != (
    #[trigger] t[b].guid_data()) by {
        let oa = if a < i {
            a
        } else {
            a + 1
        };
        let ob = if b < i {
            b
        } else {
            b + 1
        };
        assert(t[a] == s[oa] && t[b] == s[ob]);
        assert(s[oa].guid_data() != s[ob].guid_data());
    }
}

/// Everything outside the subtree rooted at the node with guid `g` stays, in
/// table order; the whole subtree goes.
pub open spec fn without_subtree(s: Seq<RemoteObject>, g: Seq<char>) -> Seq<RemoteObject> {
    s.filter(|o: RemoteObject| !subtree_guids(s, g).contains(o.guid_data()))
}

/// Walk the parent chain of the node at index `i`: does it pass through the
/// node carrying `guid`? Parents sit at smaller indices, so the walk ends.
fn is_descendant_at(objects: &Vec<RemoteObject>, i: usize, guid: &str) -> (r: bool)
    requires
        i < objects@.len(),
        forall|a: int, b: int|
            0 <= a < b < objects@.len() ==> (#[trigger] objects@[a].guid_data()) != (
            #[trigger] objects@[b].guid_data()),
        forall|k: int|
            0 <= k <= i ==> match (#[trigger] objects@[k].parent_data()) {
                Some(p) => exists|j: int| 0 <= j < k && (#[trigger] objects@[j].guid_data()) == p,
                None => true,
            },
    ensures
        r == in_subtree(objects@, i as int, guid@),
{
    let mut cur: usize = i;
    loop
        invariant
            cur <= i,
            i < objects@.len(),
            forall|a: int, b: int|
                0 <= a < b < objects@.len() ==> (#[trigger] objects@[a].guid_data()) != (
                #[trigger] objects@[b].guid_data()),
            forall|k: int|
                0 <= k <= i ==> match (#[trigger] objects@[k].parent_data()) {
                    Some(p) => exists|j: int|
                        0 <= j < k && (#[trigger] objects@[j].guid_data()) == p,
                    None => true,
                },
            in_subtree(objects@, i as int, guid@) == in_subtree(objects@, cur as int, guid@),
        decreases cur,
    {
        if crate::json::str_eq(objects[cur].guid().as_str(), guid) {
            return true;
        }
        let parent: Option<String> = match objects[cur].parent() {
            Some(p) => Some(p.clone()),
            None => None,
        };
        match parent {
            None => {
                return false;
            },
            Some(p) => {
                proof {
                    assert(objects@[cur as int].parent_data() == Some(p@));
                }
                let ghost pd = p@;
                let mut j: usize = 0;
                let mut found: usize = 0;
                let mut any = false;
                while j < cur && !any
                    invariant
                        j <= cur <= i < objects@.len(),
                        pd == p@,
                        any ==> found < cur && objects@[found as int].guid_data() == pd,
                        !any ==> forall|k: int|
                            0 <= k < j ==> (#[trigger] objects@[k].guid_data()) != pd,
                    decreases cur - j, (if any { 0int } else { 1int }),
                {
                    if crate::json::str_eq(objects[j].guid().as_str(), p.as_str()) {
                        found = j;
                        any = true;
                    } else {
                        j += 1;
                    }
                }
                if !any {
                    proof {
                        let w = choose|w: int|
                            0 <= w < cur && (#[trigger] objects@[w].guid_data()) == pd;
                        assert(objects@[w].guid_data() == pd);
                        assert(false);
                    }
                    return false;
                }
                proof {
                    let old_cur = cur as int;
                    assert(objects@[old_cur].guid_data() != guid@);
                    assert forall|w: int|
                        0 <= w < old_cur && (#[trigger] objects@[w].guid_data()) == pd implies w
                        == found as int by {
                        if w < found as int {
                            assert(objects@[w].guid_data() != objects@[
                                found as int
                            ].guid_data());
                        }
                        if (found as int) < w {
                            assert(objects@[found as int].guid_data() != objects@[
                                w
                            ].guid_data());
                        }
                    }
                    assert(in_subtree(objects@, old_cur, guid@) == in_subtree(
                        objects@,
                        found as int,
                        guid@,
                    ));
                }
                cur = found;
            },
        }
    }
}


/// Dropping the first occurrence is removing the first matching index.
proof fn lemma_remove_first_guid_at(s: Seq<String>, g: Seq<char>, i: int)
    requires
        0 <= i < s.len(),
        s[i]@ == g,
        forall|k: int| 0 <= k < i ==> (#[trigger] s[k])@ != g,
    ensures
        remove_first_guid(s, g) == s.remove(i),
    decreases i,
{
    if i == 0 {
        assert(s.remove(0) =~= s.drop_first());
    } else {
        assert(s.drop_first()[i - 1] == s[i]);
        assert(forall|k: int| 0 <= k < i - 1 ==> (#[trigger] s.drop_first()[k])@ != g);
        lemma_remove_first_guid_at(s.drop_first(), g, i - 1);
        assert(s.first()@ != g);
        assert(remove_first_guid(s, g) == seq![s.first()] + remove_first_guid(s.drop_first(), g));
        assert(seq![s.first()] + s.drop_first().remove(i - 1) =~= s.remove(i));
    }
}

/// With no occurrence, dropping the first occurrence changes nothing.
proof fn lemma_remove_first_guid_absent(s: Seq<String>, g: Seq<char>)
    requires
        forall|k: int| 0 <= k < s.len() ==> (#[trigger] s[k])@ != g,
    ensures
        remove_first_guid(s, g) == s,
    decreases s.len(),
{
    if s.len() > 0 {
        assert(forall|k: int|
            0 <= k < s.drop_first().len() ==> (#[trigger] s.drop_first()[k])@ != g);
        lemma_remove_first_guid_absent(s.drop_first(), g);
        assert(seq![s.first()] + s.drop_first() =~= s);
    }
}

/// The per-node event emitters a node carries are well formed.
pub open spec fn emitters_wf(o: RemoteObject) -> bool {
    match o {
        RemoteObject::BrowserContext { events, .. } => events.wf(),
        RemoteObject::Page { events, .. } => events.wf(),
        RemoteObject::WebSocketRoute { events, .. } => events.wf(),
        RemoteObject::CdpSession { events, .. } => events.wf(),
        _ => true,
    }
}

/// The engine's state: the strong table, the pending-call table, and the id
/// counter. Request ids are strictly increasing, so an id is never reused.
pub struct Context {
    pub objects: Vec<RemoteObject>,
    pub callbacks: Vec<PendingCall>,
    pub last_id: u64,
}

impl Context {
    /// The whole state is well formed: the table keeps its two invariants
    /// and the pending ids grow strictly, never past the counter.
    pub open spec fn wf(&self) -> bool {
        &&& objects_wf(self.objects@)
        &&& forall|i: int|
            0 <= i < self.objects@.len() ==> emitters_wf(#[trigger] self.objects@[i])
        &&& forall|i: int, j: int|
            0 <= i < j < self.callbacks@.len() ==> (#[trigger] self.callbacks@[i].id) < (
            #[trigger] self.callbacks@[j].id)
        &&& forall|i: int|
            0 <= i < self.callbacks@.len() ==> (#[trigger] self.callbacks@[i].id) <= self.last_id
    }

    /// Some call with this id is pending.
    pub open spec fn pending(&self, id: u64) -> bool {
        exists|i: int| 0 <= i < self.callbacks@.len() && (#[trigger] self.callbacks@[i].id) == id
    }

    /// The pending call with this id still has a live receiver.
    pub open spec fn pending_alive(&self, id: u64) -> bool {
        exists|i: int|
            0 <= i < self.callbacks@.len() && (#[trigger] self.callbacks@[i].id) == id
                && self.callbacks@[i].receiver_alive
    }

    /// A fresh context: the table holds only the root object, whose guid is
    /// the empty string; nothing is pending; no id has been handed out.
    pub fn new() -> (r: Context)
        ensures
            r.wf(),
            r.objects@.len() == 1,
            r.objects@[0].kind() == RemoteKind::Root,
            r.objects@[0].guid_data() == Seq::<char>::empty(),
            r.objects@[0].parent_data() is None,
            r.callbacks@.len() == 0,
            r.last_id == 0,
    {
        let root = RemoteObject::Root {
            channel: ChannelOwner { guid: String::new(), parent: None, initializer: JsonValue::Null },
        };
        let mut objects: Vec<RemoteObject> = Vec::new();
        objects.push(root);
        Context { objects, callbacks: Vec::new(), last_id: 0 }
    }

    /// Find the index of the node carrying a guid.
    pub fn find_index(&self, guid: &str) -> (r: Option<usize>)
        ensures
            match r {
                Some(i) => i < self.objects@.len() && self.objects@[i as int].guid_data() == guid@
                    && has_guid(self.objects@, guid@),
                None => !has_guid(self.objects@, guid@),
            },
    {
        let mut i: usize = 0;
        while i < self.objects.len()
            invariant
                i <= self.objects@.len(),
                forall|j: int| 0 <= j < i ==> (#[trigger] self.objects@[j].guid_data()) != guid@,
            decreases self.objects@.len() - i,
        {
            if crate::json::str_eq(self.objects[i].guid().as_str(), guid) {
                return Some(i);
            }
            i += 1;
        }
        None
    }

    /// Look a node up by guid: the upgrade every stale handle goes through.
    pub fn find_object(&self, guid: &str) -> (r: Option<&RemoteObject>)
        requires
            self.wf(),
        ensures
            match r {
                Some(o) => has_guid(self.objects@, guid@) && *o == self.objects@[index_of_guid(
                    self.objects@,
                    guid@,
                )] && o.guid_data() == guid@,
                None => !has_guid(self.objects@, guid@),
            },
    {
        match self.find_index(guid) {
            Some(i) => {
                let o = &self.objects[i];
                proof {
                    let k = index_of_guid(self.objects@, guid@);
                    assert(0 <= k < self.objects@.len() && self.objects@[k].guid_data() == guid@);
                    if k < i {
                        assert(self.objects@[k].guid_data() != self.objects@[i as int].guid_data());
                    }
                    if i < k {
                        assert(self.objects@[i as int].guid_data() != self.objects@[k].guid_data());
                    }
                    assert(k == i);
                }
                Some(o)
            },
            None => None,
        }
    }

    /// How many nodes are live.
    pub fn object_count(&self) -> (r: usize)
        ensures
            r == self.objects@.len(),
    {
        self.objects.len()
    }

    /// Register the next call: allocate the next id, record the pending
    /// call, and hand back the request envelope to frame and write. The
    /// target guid must resolve; a request for a gone node is refused
    /// without touching any state.
    pub fn send_message(&mut self, guid: &str, method: &str, params: JsonValue) -> (r: Result<
        RequestEnvelope,
        Error,
    >)
        requires
            old(self).wf(),
            old(self).last_id < u64::MAX,
        ensures
            final(self).wf(),
            final(self).objects@ == old(self).objects@,
            match r {
                Ok(env) => {
                    &&& has_guid(old(self).objects@, guid@)
                    &&& env.id == old(self).last_id + 1
                    &&& !old(self).pending(env.id)
                    &&& env.guid@ == guid@
                    &&& env.method@ == method@
                    &&& env.params == params
                    &&& env.metadata@ == JsonData::Obj(Seq::<(Seq<char>, JsonData)>::empty())
                    &&& final(self).last_id == env.id
                    &&& final(self).callbacks@ == old(self).callbacks@.push(
                        PendingCall { id: env.id, receiver_alive: true },
                    )
                },
                Err(e) => {
                    &&& e is ObjectNotFound
                    &&& !has_guid(old(self).objects@, guid@)
                    &&& final(self).callbacks@ == old(self).callbacks@
                    &&& final(self).last_id == old(self).last_id
                },
            },
    {
        if self.find_index(guid).is_none() {
            return Err(Error::ObjectNotFound);
        }
        let id = self.last_id + 1;
        proof {
            assert(forall|i: int|
                0 <= i < self.callbacks@.len() ==> (#[trigger] self.callbacks@[i].id) < id);
        }
        self.last_id = id;
        self.callbacks.push(PendingCall { id, receiver_alive: true });
        Ok(
            RequestEnvelope {
                guid: guid.to_owned(),
                method: method.to_owned(),
                params,
                metadata: JsonValue::obj_new(),
                id,
            },
        )
    }

    /// The caller's future was dropped before its response arrived: mark the
    /// record so the arriving result is discarded. Nothing else changes, and
    /// a response for the id keeps being accepted without error.
    pub fn abandon_call(&mut self, id: u64)
        requires
            old(self).wf(),
        ensures
            final(self).wf(),
            final(self).objects@ == old(self).objects@,
            final(self).last_id == old(self).last_id,
            final(self).callbacks@.len() == old(self).callbacks@.len(),
            forall|i: int|
                0 <= i < old(self).callbacks@.len() ==> (#[trigger] final(self).callbacks@[i])
                    == (if old(self).callbacks@[i].id == id {
                    PendingCall { id, receiver_alive: false }
                } else {
                    old(self).callbacks@[i]
                }),
    {
        let mut i: usize = 0;
        while i < self.callbacks.len()
            invariant
                i <= self.callbacks@.len(),
                self.callbacks@.len() == old(self).callbacks@.len(),
                self.objects@ == old(self).objects@,
                self.last_id == old(self).last_id,
                forall|j: int|
                    0 <= j < i ==> (#[trigger] self.callbacks@[j]) == (if old(self).callbacks@[j].id == id {
                        PendingCall { id, receiver_alive: false }
                    } else {
                        old(self).callbacks@[j]
                    }),
                forall|j: int|
                    i <= j < self.callbacks@.len() ==> (#[trigger] self.callbacks@[j]) == old(self).callbacks@[j],
            decreases self.callbacks@.len() - i,
        {
            if self.callbacks[i].id == id {
                self.callbacks[i] = PendingCall { id, receiver_alive: false };
            }
            i += 1;
        }
        proof {
            assert(forall|i: int, j: int|
                0 <= i < j < self.callbacks@.len() ==> (#[trigger] self.callbacks@[i].id) < (
                #[trigger] self.callbacks@[j].id));
        }
    }

    /// The connection is over: every still-pending call is taken out of the
    /// table to be failed with the same terminal error, and the strong table
    /// is cleared wholesale. Every weak handle thereafter resolves to gone.
    pub fn notify_closed(&mut self) -> (r: Vec<PendingCall>)
        requires
            old(self).wf(),
        ensures
            final(self).wf(),
            r@ == old(self).callbacks@,
            final(self).objects@.len() == 0,
            final(self).callbacks@.len() == 0,
            final(self).last_id == old(self).last_id,
    {
        let mut r: Vec<PendingCall> = Vec::new();
        let mut i: usize = 0;
        while i < self.callbacks.len()
            invariant
                i <= self.callbacks@.len(),
                self.callbacks@ == old(self).callbacks@,
                r@ == self.callbacks@.subrange(0, i as int),
            decreases self.callbacks@.len() - i,
        {
            r.push(self.callbacks[i]);
            i += 1;
            proof {
                assert(r@ =~= self.callbacks@.subrange(0, i as int));
            }
        }
        proof {
            assert(self.callbacks@.subrange(0, self.callbacks@.len() as int)
                =~= self.callbacks@);
        }
        self.callbacks.clear();
        self.objects.clear();
        r
    }

    /// Dispose the node carrying this guid: all of its currently known
    /// descendants are removed strictly bottom-up, then the node itself; a
    /// guid that no longer resolves disposes nothing. No other node moves,
    /// and pending calls are untouched.
    #[verifier::rlimit(100)]
    #[verifier::spinoff_prover]
    pub fn dispose(&mut self, guid: &str)
        requires
            old(self).wf(),
        ensures
            final(self).wf(),
            final(self).callbacks@ == old(self).callbacks@,
            final(self).last_id == old(self).last_id,
            final(self).objects@ == without_subtree(old(self).objects@, guid@),
            !has_guid(final(self).objects@, guid@),
    {
        let ghost s0 = self.objects@;
        let ghost pred = |o: RemoteObject| !subtree_guids(s0, guid@).contains(o.guid_data());
        let mut i: usize = self.objects.len();
        proof {
            reveal_with_fuel(Seq::filter, 2);
            assert(s0.subrange(i as int, s0.len() as int) =~= Seq::<RemoteObject>::empty());
            assert(s0.subrange(i as int, s0.len() as int).filter(pred)
                =~= Seq::<RemoteObject>::empty());
            assert(self.objects@ =~= s0.subrange(0, i as int) + s0.subrange(
                i as int,
                s0.len() as int,
            ).filter(pred));
        }
        while i > 0
            invariant
                i <= s0.len(),
                objects_wf(s0),
                self.wf(),
                self.callbacks@ == old(self).callbacks@,
                self.last_id == old(self).last_id,
                pred == (|o: RemoteObject| !subtree_guids(s0, guid@).contains(o.guid_data())),
                self.objects@ == s0.subrange(0, i as int) + s0.subrange(
                    i as int,
                    s0.len() as int,
                ).filter(pred),
            decreases i,
        {
            i = i - 1;
            let ghost scur = self.objects@;
            proof {
                assert forall|k: int| 0 <= k <= i as int implies scur[k] == s0[k] by {
                    assert(scur[k] == s0.subrange(0, i + 1)[k]);
                }
            }
            let descendant = is_descendant_at(&self.objects, i, guid);
            proof {
                lemma_in_subtree_prefix(scur, s0, i as int, guid@);
                assert(descendant == in_subtree(s0, i as int, guid@));
                assert(s0.subrange(i as int, s0.len() as int) =~= seq![s0[i as int]]
                    + s0.subrange(i + 1, s0.len() as int));
                Seq::filter_distributes_over_add(
                    seq![s0[i as int]],
                    s0.subrange(i + 1, s0.len() as int),
                    pred,
                );
                lemma_filter_singleton(s0[i as int], pred);
                if descendant {
                    assert(subtree_guids(s0, guid@).contains(s0[i as int].guid_data()));
                    assert(!pred(s0[i as int]));
                } else {
                    assert forall|k: int|
                        0 <= k < s0.len() && (#[trigger] s0[k].guid_data()) == s0[
                        i as int
                    ].guid_data() implies k == i as int by {
                        if k < i as int {
                            assert(s0[k].guid_data() != s0[i as int].guid_data());
                        }
                        if (i as int) < k {
                            assert(s0[i as int].guid_data() != s0[k].guid_data());
                        }
                    }
                    assert(!subtree_guids(s0, guid@).contains(s0[i as int].guid_data()));
                    assert(pred(s0[i as int]));
                }
            }
            if descendant {
                proof {
                    lemma_filter_from(s0.subrange(i + 1, s0.len() as int), pred);
                    assert forall|k: int|
                        (i as int) < k < scur.len() implies (#[trigger] scur[k].parent_data())
                        != Some(scur[i as int].guid_data()) by {
                        let tail = s0.subrange(i + 1, s0.len() as int).filter(pred);
                        assert(scur[k] == tail[k - i - 1]);
                        assert(pred(tail[k - i - 1]));
                        assert(s0.subrange(i + 1, s0.len() as int).contains(tail[k - i - 1]));
                        let sub = s0.subrange(i + 1, s0.len() as int);
                        let m = choose|m: int|
                            0 <= m < sub.len() && (#[trigger] sub[m]) == tail[k - i - 1];
                        assert(s0[m + i + 1] == scur[k]);
                        if scur[k].parent_data() == Some(scur[i as int].guid_data()) {
                            assert(in_subtree(s0, m + i + 1, guid@));
                            assert(subtree_guids(s0, guid@).contains(s0[m + i + 1].guid_data()));
                            assert(false);
                        }
                    }
                    lemma_wf_remove(scur, i as int);
                }
                let _ = self.objects.remove(i);
                proof {
                    assert(self.objects@ =~= s0.subrange(0, i as int) + s0.subrange(
                        i as int,
                        s0.len() as int,
                    ).filter(pred));
                }
            } else {
                proof {
                    assert(self.objects@ =~= s0.subrange(0, i as int) + s0.subrange(
                        i as int,
                        s0.len() as int,
                    ).filter(pred));
                }
            }
        }
        proof {
            assert(s0.subrange(0, 0) =~= Seq::<RemoteObject>::empty());
            assert(s0.subrange(0, s0.len() as int) =~= s0);
            assert(self.objects@ =~= without_subtree(s0, guid@));
            if has_guid(self.objects@, guid@) {
                let k = choose|k: int|
                    0 <= k < self.objects@.len() && (#[trigger] self.objects@[k].guid_data())
                        == guid@;
                Seq::lemma_filter_pred(s0, pred, k);
                lemma_filter_from(s0, pred);
                assert(s0.contains(self.objects@[k]));
                let m = choose|m: int| 0 <= m < s0.len() && (#[trigger] s0[m]) == self.objects@[k];
                assert(in_subtree(s0, m, guid@));
                assert(subtree_guids(s0, guid@).contains(s0[m].guid_data()));
                assert(false);
            }
        }
    }
}

/// The type tag a creation payload names.
pub open spec fn creation_tag(params: JsonData) -> Option<Seq<char>> {
    match crate::json::json_field(params, "type"@) {
        Some(JsonData::Str(t)) => Some(t),
        _ => None,
    }
}

/// The guid a creation payload assigns to the new node.
pub open spec fn creation_new_guid(params: JsonData) -> Option<Seq<char>> {
    match crate::json::json_field(params, "guid"@) {
        Some(JsonData::Str(g)) => Some(g),
        _ => None,
    }
}

/// The initializer a creation payload carries; null when none.
pub open spec fn creation_initializer(params: JsonData) -> JsonData {
    match crate::json::json_field(params, "initializer"@) {
        Some(v) => v,
        None => JsonData::Null,
    }
}

/// A browser node after one of its contexts was registered: the guid is
/// appended to its context list and its one-shot liaison is disarmed;
/// nothing else about it changes.
pub open spec fn browser_registered(o: RemoteObject, o2: RemoteObject, ctx_guid: Seq<char>) -> bool {
    &&& o2 is Browser
    &&& o2.br_core() == o.br_core()
    &&& o2.br_contexts().len() == o.br_contexts().len() + 1
    &&& forall|k: int| 0 <= k < o.br_contexts().len() ==> (#[trigger] o2.br_contexts()[k]) == o.br_contexts()[k]
    &&& o2.br_contexts().last()@ == ctx_guid
    &&& o2.br_pending() == false
}

/// What one creation message does: with a malformed payload, an unknown
/// parent, a tag outside the registry, a guid already live, or an
/// initializer the named type cannot read, nothing changes and the matching
/// error comes back; otherwise the new node is appended, under its parent,
/// and when a browsing context arrives under a browser that registration
/// runs — handing the new context to a caller whose liaison was armed.
pub open spec fn create_effect(
    pre: Seq<RemoteObject>,
    post: Seq<RemoteObject>,
    parent_guid: Seq<char>,
    params: JsonData,
    r: Result<Vec<HostAction>, Error>,
) -> bool {
    if creation_tag(params) is None || creation_new_guid(params) is None {
        r matches Err(e) && e is Decode && post == pre
    } else {
        let tag = creation_tag(params)->Some_0;
        let ng = creation_new_guid(params)->Some_0;
        if !has_guid(pre, parent_guid) {
            r matches Err(e) && e is ObjectNotFound && post == pre
        } else if crate::remote::kind_of_tag_data(tag) is None {
            r matches Err(e) && e is UnknownType && post == pre
        } else if has_guid(pre, ng) {
            r matches Err(e) && e is InvalidParams && post == pre
        } else {
            let kind = crate::remote::kind_of_tag_data(tag)->Some_0;
            let pidx = index_of_guid(pre, parent_guid);
            match r {
                Err(e) => e is Decode && post == pre && (kind == RemoteKind::Browser || kind
                    == RemoteKind::WebSocketRoute),
                Ok(acts) => {
                    &&& post.len() == pre.len() + 1
                    &&& post.last().kind() == kind
                    &&& post.last().guid_data() == ng
                    &&& post.last().parent_data() == Some(parent_guid)
                    &&& post.last().channel_spec().initializer@ == creation_initializer(params)
                    &&& (if kind == RemoteKind::BrowserContext && pre[pidx] is Browser {
                        &&& browser_registered(pre[pidx], post[pidx], ng)
                        &&& (forall|k: int|
                            0 <= k < pre.len() && k != pidx ==> post[k] == #[trigger] pre[k])
                        &&& (if pre[pidx].br_pending() {
                            acts@.len() == 1 && (acts@[0] matches
                                HostAction::NotifyPendingContext { browser, context }
                                && browser@ == parent_guid && context@ == ng)
                        } else {
                            acts@.len() == 0
                        })
                    } else {
                        &&& (forall|k: int|
                            0 <= k < pre.len() ==> post[k] == #[trigger] pre[k])
                        &&& acts@.len() == 0
                    })
                },
            }
        }
    }
}

impl Context {
    /// Arm the one-shot liaison on a browser: the next browsing context
    /// created under it is handed straight to the waiting caller, in case
    /// the creation event outruns the call's own response.
    pub fn set_pending_context(&mut self, browser_guid: &str) -> (r: Result<(), Error>)
        requires
            old(self).wf(),
        ensures
            final(self).wf(),
            final(self).callbacks@ == old(self).callbacks@,
            final(self).last_id == old(self).last_id,
            match r {
                Ok(_) => {
                    &&& has_guid(old(self).objects@, browser_guid@)
                    &&& ({
                        let i = index_of_guid(old(self).objects@, browser_guid@);
                        &&& old(self).objects@[i] is Browser
                        &&& final(self).objects@.len() == old(self).objects@.len()
                        &&& (forall|k: int|
                            0 <= k < old(self).objects@.len() && k != i ==> final(self).objects@[k] == #[trigger] old(self).objects@[k])
                        &&& final(self).objects@[i] is Browser
                        &&& final(self).objects@[i].br_core() == old(self).objects@[i].br_core()
                        &&& final(self).objects@[i].br_contexts() == old(self).objects@[i].br_contexts()
                        &&& final(self).objects@[i].br_pending() == true
                    })
                },
                Err(e) => {
                    &&& e is ObjectNotFound
                    &&& final(self).objects@ == old(self).objects@
                    &&& !(has_guid(old(self).objects@, browser_guid@) && old(self).objects@[
                        index_of_guid(old(self).objects@, browser_guid@)
                    ] is Browser)
                },
            },
    {
        let i = match self.find_index(browser_guid) {
            Some(i) => i,
            None => {
                return Err(Error::ObjectNotFound);
            },
        };
        proof {
            lemma_guid_index_unique(self.objects@, browser_guid@, i as int);
        }
        let o = self.objects.remove(i);
        match o {
            RemoteObject::Browser { channel, version, contexts, pending_context, is_remote } => {
                let o2 = RemoteObject::Browser {
                    channel,
                    version,
                    contexts,
                    pending_context: true,
                    is_remote,
                };
                self.objects.insert(i, o2);
                proof {
                    assert(self.objects@ =~= old(self).objects@.update(i as int, self.objects@[
                        i as int
                    ]));
                    lemma_wf_update_same_ids(old(self).objects@, i as int, self.objects@[i as int]);
                }
                Ok(())
            },
            other => {
                self.objects.insert(i, other);
                proof {
                    assert(self.objects@ =~= old(self).objects@);
                }
                Err(Error::ObjectNotFound)
            },
        }
    }

    /// Grow the graph for one creation message addressed to `parent_guid`.
    pub fn create_remote_object(&mut self, parent_guid: &str, params: JsonValue) -> (r: Result<
        Vec<HostAction>,
        Error,
    >)
        requires
            old(self).wf(),
        ensures
            final(self).wf(),
            final(self).callbacks@ == old(self).callbacks@,
            final(self).last_id == old(self).last_id,
            create_effect(old(self).objects@, final(self).objects@, parent_guid@, params@, r),
    {
        let tag: String = match params.get("type") {
            Some(v) => match v.as_str() {
                Some(s) => s.clone(),
                None => {
                    return Err(Error::Decode("creation type tag".to_owned()));
                },
            },
            None => {
                return Err(Error::Decode("creation type tag".to_owned()));
            },
        };
        let ng: String = match params.get("guid") {
            Some(v) => match v.as_str() {
                Some(s) => s.clone(),
                None => {
                    return Err(Error::Decode("creation guid".to_owned()));
                },
            },
            None => {
                return Err(Error::Decode("creation guid".to_owned()));
            },
        };
        let pidx = match self.find_index(parent_guid) {
            Some(i) => i,
            None => {
                return Err(Error::ObjectNotFound);
            },
        };
        proof {
            lemma_guid_index_unique(self.objects@, parent_guid@, pidx as int);
        }
        let kind = match kind_of_tag(tag.as_str()) {
            Some(k) => k,
            None => {
                return Err(Error::UnknownType(tag));
            },
        };
        if self.find_index(ng.as_str()).is_some() {
            return Err(Error::InvalidParams);
        }
        let initializer = match params.into_field("initializer") {
            Some(v) => v,
            None => JsonValue::Null,
        };
        let parent_kind = self.objects[pidx].kind_of();
        let channel = ChannelOwner {
            guid: ng.clone(),
            parent: Some(parent_guid.to_owned()),
            initializer,
        };
        let obj = match RemoteObject::try_new(kind, channel, parent_kind) {
            Ok(o) => o,
            Err(e) => {
                return Err(e);
            },
        };
        let mut actions: Vec<HostAction> = Vec::new();
        let hook = kind == RemoteKind::BrowserContext && self.objects[pidx].is_browser();
        if hook {
            let parent_obj = self.objects.remove(pidx);
            match parent_obj {
                RemoteObject::Browser {
                    channel,
                    version,
                    mut contexts,
                    pending_context,
                    is_remote,
                } => {
                    contexts.push(ng.clone());
                    if pending_context {
                        actions.push(
                            HostAction::NotifyPendingContext {
                                browser: parent_guid.to_owned(),
                                context: ng.clone(),
                            },
                        );
                    }
                    let o2 = RemoteObject::Browser {
                        channel,
                        version,
                        contexts,
                        pending_context: false,
                        is_remote,
                    };
                    self.objects.insert(pidx, o2);
                    proof {
                        assert(self.objects@ =~= old(self).objects@.update(
                            pidx as int,
                            self.objects@[pidx as int],
                        ));
                        lemma_wf_update_same_ids(
                            old(self).objects@,
                            pidx as int,
                            self.objects@[pidx as int],
                        );
                        assert(browser_registered(
                            old(self).objects@[pidx as int],
                            self.objects@[pidx as int],
                            ng@,
                        ));
                    }
                },
                other => {
                    self.objects.insert(pidx, other);
                    proof {
                        assert(false);
                    }
                },
            }
        }
        self.objects.push(obj);
        proof {
            let pre = old(self).objects@;
            let post = self.objects@;
            assert(post.last() == obj);
            assert(forall|k: int|
                0 <= k < pre.len() && k != pidx as int ==> post[k] == #[trigger] pre[k]);
            assert forall|a: int, b: int| 0 <= a < b < post.len() implies (
            #[trigger] post[a].guid_data()) != (#[trigger] post[b].guid_data()) by {
                if b < post.len() - 1 {
                    assert(post[a].guid_data() == pre[a].guid_data());
                    assert(post[b].guid_data() == pre[b].guid_data());
                } else {
                    assert(post[b].guid_data() == ng@);
                    assert(post[a].guid_data() == pre[a].guid_data());
                    assert(!has_guid(pre, ng@));
                }
            }
            assert forall|a: int| 0 <= a < post.len() implies match (
            #[trigger] post[a].parent_data()) {
                Some(p) => exists|j: int| 0 <= j < a && (#[trigger] post[j].guid_data()) == p,
                None => true,
            } by {
                if a < post.len() - 1 {
                    assert(post[a].parent_data() == pre[a].parent_data());
                    match pre[a].parent_data() {
                        Some(p) => {
                            let j = choose|j: int|
                                0 <= j < a && (#[trigger] pre[j].guid_data()) == p;
                            assert(post[j].guid_data() == pre[j].guid_data());
                        },
                        None => {},
                    }
                } else {
                    assert(post[a].parent_data() == Some(parent_guid@));
                    assert(post[pidx as int].guid_data() == parent_guid@);
                }
            }
        }
        Ok(actions)
    }
}

/// Updating a node in place without changing its guid or parent keeps the
/// table well formed.
pub proof fn lemma_wf_update_same_ids(s: Seq<RemoteObject>, i: int, o2: RemoteObject)
    requires
        objects_wf(s),
        0 <= i < s.len(),
        o2.guid_data() == s[i].guid_data(),
        o2.parent_data() == s[i].parent_data(),
    ensures
        objects_wf(s.update(i, o2)),
{
    let t = s.update(i, o2);
    assert forall|a: int| 0 <= a < t.len() implies (#[trigger] t[a].guid_data()) == s[
        a
    ].guid_data() && t[a].parent_data() == s[a].parent_data() by {}
    assert forall|a: int, b: int| 0 <= a < b < t.len() implies (#[trigger] t[a].guid_data()) != (
    #[trigger] t[b].guid_data()) by {
        assert(s[a].guid_data() != s[b].guid_data());
    }
    assert forall|a: int| 0 <= a < t.len() implies match (#[trigger] t[a].parent_data()) {
        Some(p) => exists|j: int| 0 <= j < a && (#[trigger] t[j].guid_data()) == p,
        None => true,
    } by {
        match s[a].parent_data() {
            Some(p) => {
                let j = choose|j: int| 0 <= j < a && (#[trigger] s[j].guid_data()) == p;
                assert(t[j].guid_data() == p);
            },
            None => {},
        }
    }
}

/// With well-formed guids, the index found for a guid is the only one.
pub proof fn lemma_guid_index_unique(s: Seq<RemoteObject>, g: Seq<char>, i: int)
    requires
        forall|a: int, b: int|
            0 <= a < b < s.len() ==> (#[trigger] s[a].guid_data()) != (#[trigger] s[b].guid_data()),
        0 <= i < s.len(),
        s[i].guid_data() == g,
    ensures
        forall|k: int| 0 <= k < s.len() && (#[trigger] s[k].guid_data()) == g ==> k == i,
        index_of_guid(s, g) == i,
{
    assert forall|k: int| 0 <= k < s.len() && (#[trigger] s[k].guid_data()) == g implies k == i by {
        if k < i {
            assert(s[k].guid_data() != s[i].guid_data());
        }
        if i < k {
            assert(s[i].guid_data() != s[k].guid_data());
        }
    }
    assert(has_guid(s, g));
    let w = index_of_guid(s, g);
    assert(0 <= w < s.len() && s[w].guid_data() == g);
}

/// The first occurrence of a guid dropped from a list of guids.
pub open spec fn remove_first_guid(s: Seq<String>, g: Seq<char>) -> Seq<String>
    decreases s.len(),
{
    if s.len() == 0 {
        s
    } else if s.first()@ == g {
        s.drop_first()
    } else {
        seq![s.first()] + remove_first_guid(s.drop_first(), g)
    }
}

/// A browsing context unchanged outside the given lists and its event log.
pub open spec fn bc_same_core(o: RemoteObject, o2: RemoteObject) -> bool {
    &&& o2 is BrowserContext
    &&& o2.bc_core() == o.bc_core()
}

/// A browsing context that emitted one event and changed nothing else but,
/// possibly, its page list and route lists as given.
pub open spec fn bc_stepped(
    o: RemoteObject,
    o2: RemoteObject,
    pages: Seq<String>,
    routes: Seq<crate::browser_context::RouteEntry>,
    ws_routes: Seq<crate::browser_context::WebSocketRouteEntry>,
    emitted: Option<crate::browser_context::ContextEventData>,
) -> bool {
    &&& bc_same_core(o, o2)
    &&& o2.bc_pages() == pages
    &&& o2.bc_routes() == routes
    &&& o2.bc_ws_routes() == ws_routes
    &&& o2.bc_subs() == o.bc_subs()
    &&& (match emitted {
        Some(e) => o2.bc_log().len() == o.bc_log().len() + 1 && o2.bc_log().last()@ == e
            && o2.bc_log().drop_last() == o.bc_log(),
        None => o2.bc_log() == o.bc_log(),
    })
}

/// The route list after one route was handled: the most recent entry counts
/// one use down, falling away at its last.
pub open spec fn route_step(rs: Seq<crate::browser_context::RouteEntry>) -> Seq<
    crate::browser_context::RouteEntry,
> {
    if rs.len() == 0 {
        rs
    } else {
        match rs.last().times {
            None => rs,
            Some(t) => if t <= 1 {
                rs.drop_last()
            } else {
                rs.update(
                    rs.len() - 1,
                    crate::browser_context::RouteEntry {
                        pattern: rs.last().pattern,
                        times: Some((t - 1) as u32),
                        handler: rs.last().handler,
                    },
                )
            },
        }
    }
}

/// The handler handle an incoming route is given: the most recent entry's.
pub open spec fn route_choice(rs: Seq<crate::browser_context::RouteEntry>) -> Option<u64> {
    if rs.len() == 0 {
        None
    } else {
        Some(rs.last().handler)
    }
}

/// The guid of an event payload under one key, as the strict readers use it.
pub open spec fn event_guid(params: JsonData, key: Seq<char>) -> Result<Seq<char>, ()> {
    crate::browser_context::guid_from_keys_data(params, seq![key])
}

/// What one event addressed to a browsing-context node does, by method name.
pub open spec fn bc_event_effect(
    pre: Seq<RemoteObject>,
    post: Seq<RemoteObject>,
    idx: int,
    method: Seq<char>,
    params: JsonData,
    r: Result<Vec<HostAction>, Error>,
) -> bool {
    let o = pre[idx];
    if method == "page"@ {
        match event_guid(params, "page"@) {
            Err(_) => r matches Err(e) && e is InvalidParams && post == pre,
            Ok(g) => if !has_guid(pre, g) || pre[index_of_guid(pre, g)].kind() != RemoteKind::Page {
                r matches Err(e) && e is ObjectNotFound && post == pre
            } else {
                r matches Ok(acts) && acts@.len() == 0 && post.len() == pre.len() && (forall|
                    k: int,
                |
                    0 <= k < pre.len() && k != idx ==> post[k] == #[trigger] pre[k]) && ({
                    &&& bc_same_core(o, post[idx])
                    &&& post[idx].bc_routes() == o.bc_routes()
                    &&& post[idx].bc_ws_routes() == o.bc_ws_routes()
                    &&& post[idx].bc_subs() == o.bc_subs()
                    &&& post[idx].bc_pages().len() == o.bc_pages().len() + 1
                    &&& post[idx].bc_pages().drop_last() == o.bc_pages()
                    &&& post[idx].bc_pages().last()@ == g
                    &&& post[idx].bc_log().len() == o.bc_log().len() + 1
                    &&& post[idx].bc_log().drop_last() == o.bc_log()
                    &&& post[idx].bc_log().last()@
                        == crate::browser_context::ContextEventData::Page(g)
                })
            },
        }
    } else if method == "close"@ {
        let b = o.bc_browser();
        if b is None || !has_guid(pre, b->Some_0@) || !(pre[index_of_guid(pre, b->Some_0@)]
            is Browser) {
            r matches Ok(acts) && acts@.len() == 0 && post == pre
        } else {
            let bidx = index_of_guid(pre, b->Some_0@);
            r matches Ok(acts) && acts@.len() == 0 && post.len() == pre.len() && (forall|k: int|
                0 <= k < pre.len() && k != idx && k != bidx ==> post[k] == #[trigger] pre[k]) && ({
                &&& bc_stepped(
                    o,
                    post[idx],
                    o.bc_pages(),
                    o.bc_routes(),
                    o.bc_ws_routes(),
                    Some(crate::browser_context::ContextEventData::Close),
                )
                &&& post[bidx] is Browser
                &&& post[bidx].br_core() == pre[bidx].br_core()
                &&& post[bidx].br_pending() == pre[bidx].br_pending()
                &&& post[bidx].br_contexts() == remove_first_guid(
                    pre[bidx].br_contexts(),
                    o.guid_data(),
                )
            })
        }
    } else if method == "route"@ {
        match event_guid(params, "route"@) {
            Err(_) => r matches Err(e) && e is InvalidParams && post == pre,
            Ok(g) => if !has_guid(pre, g) || pre[index_of_guid(pre, g)].kind()
                != RemoteKind::Route {
                r matches Err(e) && e is ObjectNotFound && post == pre
            } else {
                r matches Ok(acts) && acts@.len() == 1 && (match route_choice(o.bc_routes()) {
                    Some(h) => acts@[0] matches HostAction::RunRouteHandler { handler, route }
                        && handler == h && route@ == g,
                    None => acts@[0] matches HostAction::FallBackRoute { route } && route@ == g,
                }) && post.len() == pre.len() && (forall|k: int|
                    0 <= k < pre.len() && k != idx ==> post[k] == #[trigger] pre[k]) && bc_stepped(
                    o,
                    post[idx],
                    o.bc_pages(),
                    route_step(o.bc_routes()),
                    o.bc_ws_routes(),
                    Some(crate::browser_context::ContextEventData::Route(g)),
                )
            },
        }
    } else if method == "console"@ {
        match crate::browser_context::guid_from_keys_data(
            params,
            seq!["message"@, "console"@, "consoleMessage"@],
        ) {
            Err(_) => r matches Err(e) && e is InvalidParams && post == pre,
            Ok(g) => if !has_guid(pre, g) || pre[index_of_guid(pre, g)].kind()
                != RemoteKind::ConsoleMessage {
                r matches Err(e) && e is ObjectNotFound && post == pre
            } else {
                r matches Ok(acts) && acts@.len() == 0 && post.len() == pre.len() && (forall|
                    k: int,
                |
                    0 <= k < pre.len() && k != idx ==> post[k] == #[trigger] pre[k]) && bc_stepped(
                    o,
                    post[idx],
                    o.bc_pages(),
                    o.bc_routes(),
                    o.bc_ws_routes(),
                    Some(crate::browser_context::ContextEventData::Console(g)),
                )
            },
        }
    } else if method == "request"@ {
        match event_guid(params, "request"@) {
            Err(_) => r matches Err(e) && e is InvalidParams && post == pre,
            Ok(g) => if !has_guid(pre, g) || pre[index_of_guid(pre, g)].kind()
                != RemoteKind::Request {
                r matches Err(e) && e is ObjectNotFound && post == pre
            } else {
                r matches Ok(acts) && acts@.len() == 0 && post.len() == pre.len() && (forall|
                    k: int,
                |
                    0 <= k < pre.len() && k != idx ==> post[k] == #[trigger] pre[k]) && bc_stepped(
                    o,
                    post[idx],
                    o.bc_pages(),
                    o.bc_routes(),
                    o.bc_ws_routes(),
                    Some(crate::browser_context::ContextEventData::Request(g)),
                )
            },
        }
    } else if method == "response"@ {
        match event_guid(params, "response"@) {
            Err(_) => r matches Err(e) && e is InvalidParams && post == pre,
            Ok(g) => if !has_guid(pre, g) || pre[index_of_guid(pre, g)].kind()
                != RemoteKind::Response {
                r matches Err(e) && e is ObjectNotFound && post == pre
            } else {
                r matches Ok(acts) && acts@.len() == 0 && post.len() == pre.len() && (forall|
                    k: int,
                |
                    0 <= k < pre.len() && k != idx ==> post[k] == #[trigger] pre[k]) && bc_stepped(
                    o,
                    post[idx],
                    o.bc_pages(),
                    o.bc_routes(),
                    o.bc_ws_routes(),
                    Some(crate::browser_context::ContextEventData::Response(g)),
                )
            },
        }
    } else if method == "requestfailed"@ || method == "requestfinished"@ {
        let failed = method == "requestfailed"@;
        let timing = crate::json::json_field(params, "responseEndTiming"@);
        let ft = crate::json::json_field(params, "failureText"@);
        match event_guid(params, "request"@) {
            Err(_) => r matches Err(e) && e is InvalidParams && post == pre,
            Ok(g) => if !(timing matches Some(JsonData::Int(_)) || timing matches Some(
                JsonData::Float(_),
            )) || (failed && !(ft is None || ft matches Some(JsonData::Str(_)) || ft matches Some(
                JsonData::Null,
            ))) {
                r matches Err(e) && e is InvalidParams && post == pre
            } else if !has_guid(pre, g) || !(pre[index_of_guid(pre, g)] is Request) {
                r matches Err(e) && e is ObjectNotFound && post == pre
            } else {
                let ridx = index_of_guid(pre, g);
                r matches Ok(acts) && acts@.len() == 0 && post.len() == pre.len() && (forall|
                    k: int,
                |
                    0 <= k < pre.len() && k != idx && k != ridx ==> post[k] == #[trigger] pre[
                    k]) && bc_stepped(
                    o,
                    post[idx],
                    o.bc_pages(),
                    o.bc_routes(),
                    o.bc_ws_routes(),
                    Some(
                        if failed {
                            crate::browser_context::ContextEventData::RequestFailed(g)
                        } else {
                            crate::browser_context::ContextEventData::RequestFinished(g)
                        },
                    ),
                ) && ({
                    &&& post[ridx] is Request
                    &&& post[ridx].channel_spec() == pre[ridx].channel_spec()
                    &&& post[ridx].rq_response_end() matches Some(t) && t@ == timing->Some_0
                    &&& (if failed {
                        match crate::json::json_field(params, "failureText"@) {
                            Some(JsonData::Str(s)) => post[ridx].rq_failure() matches Some(f)
                                && f@ == s,
                            _ => post[ridx].rq_failure() is None,
                        }
                    } else {
                        post[ridx].rq_failure() == pre[ridx].rq_failure()
                    })
                })
            },
        }
    } else if method == "pageError"@ || method == "pageerror"@ {
        match crate::json::json_field(params, "error"@) {
            None => r matches Err(e) && e is InvalidParams && post == pre,
            Some(ev) => match crate::browser_context::error_text_data(ev) {
                Err(_) => r matches Err(e) && e is InvalidParams && post == pre,
                Ok(text) => {
                    let pg: Option<Seq<char>> = match crate::json::json_field(params, "page"@) {
                        Some(pv) => match crate::json::json_field(pv, "guid"@) {
                            Some(JsonData::Str(g)) => if has_guid(pre, g) && pre[index_of_guid(
                                pre,
                                g,
                            )] is Page {
                                Some(g)
                            } else {
                                None
                            },
                            _ => None,
                        },
                        None => None,
                    };
                    r matches Ok(acts) && acts@.len() == 0 && post.len() == pre.len() && (forall|
                        k: int,
                    |
                        0 <= k < pre.len() && k != idx && (pg is None || k != index_of_guid(
                            pre,
                            pg->Some_0,
                        )) ==> post[k] == #[trigger] pre[k]) && bc_stepped(
                        o,
                        post[idx],
                        o.bc_pages(),
                        o.bc_routes(),
                        o.bc_ws_routes(),
                        Some(
                            crate::browser_context::ContextEventData::WebError {
                                page: pg,
                                error: text,
                            },
                        ),
                    ) && (match pg {
                        Some(g) => {
                            let pix = index_of_guid(pre, g);
                            &&& post[pix] is Page
                            &&& post[pix].channel_spec() == pre[pix].channel_spec()
                            &&& post[pix].pg_subs() == pre[pix].pg_subs()
                            &&& post[pix].pg_log().len() == pre[pix].pg_log().len() + 1
                            &&& post[pix].pg_log().drop_last() == pre[pix].pg_log()
                            &&& (post[pix].pg_log().last() matches
                                crate::page::PageEvent::PageError(s) && s@ == text)
                        },
                        None => true,
                    })
                },
            },
        }
    } else if method == "webSocketRoute"@ {
        match event_guid(params, "route"@) {
            Err(_) => r matches Err(e) && e is InvalidParams && post == pre,
            Ok(g) => if !has_guid(pre, g) || !(pre[index_of_guid(pre, g)] is WebSocketRoute) {
                r matches Err(e) && e is ObjectNotFound && post == pre
            } else {
                let url = pre[index_of_guid(pre, g)].ws_url();
                r matches Ok(acts) && post == pre && acts@.len() == 1 && (match
                    crate::browser_context::last_ws_match(o.bc_ws_routes(), url) {
                    Some(h) => acts@[0] matches HostAction::RunWebSocketRouteHandler {
                        handler,
                        route,
                    } && handler == h && route@ == g,
                    None => acts@[0] matches HostAction::ConnectWebSocketToServer { route }
                        && route@ == g,
                })
            },
        }
    } else {
        r matches Ok(acts) && acts@.len() == 0 && post == pre
    }
}

impl Context {
    /// Apply one handler step to a browsing-context node: push a page, count
    /// a route use down, emit an event — whichever of those the step asks.
    /// Hands back the route handle picked when the routes were stepped.
    fn bc_apply(
        &mut self,
        idx: usize,
        push_page: Option<String>,
        step_routes: bool,
        ev: Option<crate::browser_context::ContextEvent>,
    ) -> (r: Option<u64>)
        requires
            old(self).wf(),
            idx < old(self).objects@.len(),
            old(self).objects@[idx as int] is BrowserContext,
        ensures
            final(self).wf(),
            final(self).callbacks@ == old(self).callbacks@,
            final(self).last_id == old(self).last_id,
            final(self).objects@.len() == old(self).objects@.len(),
            forall|k: int|
                0 <= k < old(self).objects@.len() && k != idx ==> final(self).objects@[k]
                    == #[trigger] old(self).objects@[k],
            ({
                let o = old(self).objects@[idx as int];
                let o2 = final(self).objects@[idx as int];
                &&& bc_same_core(o, o2)
                &&& o2.bc_subs() == o.bc_subs()
                &&& o2.bc_ws_routes() == o.bc_ws_routes()
                &&& (match push_page {
                    Some(g) => o2.bc_pages().len() == o.bc_pages().len() + 1 && o2
                        .bc_pages().drop_last() == o.bc_pages() && o2.bc_pages().last() == g,
                    None => o2.bc_pages() == o.bc_pages(),
                })
                &&& (if step_routes {
                    o2.bc_routes() == route_step(o.bc_routes()) && r == route_choice(
                        o.bc_routes(),
                    )
                } else {
                    o2.bc_routes() == o.bc_routes() && r is None
                })
                &&& (match ev {
                    Some(e) => o2.bc_log().len() == o.bc_log().len() + 1 && o2
                        .bc_log().drop_last() == o.bc_log() && o2.bc_log().last() == e,
                    None => o2.bc_log() == o.bc_log(),
                })
            }),
    {
        let o = self.objects.remove(idx);
        match o {
            RemoteObject::BrowserContext {
                channel,
                browser,
                mut pages,
                timeout,
                navigation_timeout,
                tracing,
                request_context,
                mut routes,
                websocket_routes,
                mut events,
            } => {
                let ghost pages0 = pages@;
                let ghost routes0 = routes@;
                let ghost log0 = events.log();
                match &push_page {
                    Some(g) => {
                        pages.push(g.clone());
                        proof {
                            assert(pages@.drop_last() =~= pages0);
                        }
                    },
                    None => {},
                }
                let sel: Option<u64> = if step_routes {
                    let s = crate::browser_context::select_route_handler(&mut routes);
                    proof {
                        assert(routes@ == route_step(routes0));
                        assert(s == route_choice(routes0));
                    }
                    s
                } else {
                    None
                };
                match ev {
                    Some(e) => {
                        events.emit(e);
                        proof {
                            assert(events.log().drop_last() =~= log0);
                        }
                    },
                    None => {},
                }
                let o2 = RemoteObject::BrowserContext {
                    channel,
                    browser,
                    pages,
                    timeout,
                    navigation_timeout,
                    tracing,
                    request_context,
                    routes,
                    websocket_routes,
                    events,
                };
                self.objects.insert(idx, o2);
                proof {
                    assert(self.objects@ =~= old(self).objects@.update(
                        idx as int,
                        self.objects@[idx as int],
                    ));
                    lemma_wf_update_same_ids(old(self).objects@, idx as int, self.objects@[
                        idx as int
                    ]);
                }
                sel
            },
            other => {
                self.objects.insert(idx, other);
                proof {
                    assert(false);
                }
                None
            },
        }
    }
}

impl Context {
    /// Drop one registration of a context guid from a browser's list.
    fn browser_drop_context(&mut self, bidx: usize, guid: &str)
        requires
            old(self).wf(),
            bidx < old(self).objects@.len(),
            old(self).objects@[bidx as int] is Browser,
        ensures
            final(self).wf(),
            final(self).callbacks@ == old(self).callbacks@,
            final(self).last_id == old(self).last_id,
            final(self).objects@.len() == old(self).objects@.len(),
            forall|k: int|
                0 <= k < old(self).objects@.len() && k != bidx ==> final(self).objects@[k]
                    == #[trigger] old(self).objects@[k],
            final(self).objects@[bidx as int] is Browser,
            final(self).objects@[bidx as int].br_core() == old(self).objects@[
                bidx as int
            ].br_core(),
            final(self).objects@[bidx as int].br_pending() == old(self).objects@[
                bidx as int
            ].br_pending(),
            final(self).objects@[bidx as int].br_contexts() == remove_first_guid(
                old(self).objects@[bidx as int].br_contexts(),
                guid@,
            ),
    {
        let o = self.objects.remove(bidx);
        match o {
            RemoteObject::Browser { channel, version, mut contexts, pending_context, is_remote } => {
                let ghost cs0 = contexts@;
                let mut i: usize = 0;
                let mut found: Option<usize> = None;
                while i < contexts.len() && found.is_none()
                    invariant
                        i <= cs0.len(),
                        contexts@ == cs0,
                        match found {
                            Some(f) => f == i && i < cs0.len() && cs0[f as int]@ == guid@
                                && forall|k: int| 0 <= k < f ==> (#[trigger] cs0[k])@ != guid@,
                            None => forall|k: int| 0 <= k < i ==> (#[trigger] cs0[k])@ != guid@,
                        },
                    decreases cs0.len() - i, (match found { Some(_) => 0int, None => 1int }),
                {
                    if crate::json::str_eq(contexts[i].as_str(), guid) {
                        found = Some(i);
                    } else {
                        i += 1;
                    }
                }
                match found {
                    Some(f) => {
                        let _ = contexts.remove(f);
                        proof {
                            lemma_remove_first_guid_at(cs0, guid@, f as int);
                        }
                    },
                    None => {
                        proof {
                            lemma_remove_first_guid_absent(cs0, guid@);
                        }
                    },
                }
                let out = contexts;
                let o2 = RemoteObject::Browser {
                    channel,
                    version,
                    contexts: out,
                    pending_context,
                    is_remote,
                };
                self.objects.insert(bidx, o2);
                proof {
                    assert(self.objects@ =~= old(self).objects@.update(
                        bidx as int,
                        self.objects@[bidx as int],
                    ));
                    lemma_wf_update_same_ids(old(self).objects@, bidx as int, self.objects@[
                        bidx as int
                    ]);
                }
            },
            other => {
                self.objects.insert(bidx, other);
                proof {
                    assert(false);
                }
            },
        }
    }

    /// Record the outcome fields an ending request carries.
    fn request_set(&mut self, ridx: usize, failure: Option<String>, set_failure: bool, timing: JsonValue)
        requires
            old(self).wf(),
            ridx < old(self).objects@.len(),
            old(self).objects@[ridx as int] is Request,
        ensures
            final(self).wf(),
            final(self).callbacks@ == old(self).callbacks@,
            final(self).last_id == old(self).last_id,
            final(self).objects@.len() == old(self).objects@.len(),
            forall|k: int|
                0 <= k < old(self).objects@.len() && k != ridx ==> final(self).objects@[k]
                    == #[trigger] old(self).objects@[k],
            final(self).objects@[ridx as int] is Request,
            final(self).objects@[ridx as int].channel_spec() == old(self).objects@[
                ridx as int
            ].channel_spec(),
            final(self).objects@[ridx as int].rq_response_end() == Some(timing),
            final(self).objects@[ridx as int].rq_failure() == (if set_failure {
                failure
            } else {
                old(self).objects@[ridx as int].rq_failure()
            }),
    {
        let o = self.objects.remove(ridx);
        match o {
            RemoteObject::Request { channel, failure: old_failure, response_end } => {
                let new_failure = if set_failure {
                    failure
                } else {
                    old_failure
                };
                let o2 = RemoteObject::Request {
                    channel,
                    failure: new_failure,
                    response_end: Some(timing),
                };
                self.objects.insert(ridx, o2);
                proof {
                    assert(self.objects@ =~= old(self).objects@.update(
                        ridx as int,
                        self.objects@[ridx as int],
                    ));
                    lemma_wf_update_same_ids(old(self).objects@, ridx as int, self.objects@[
                        ridx as int
                    ]);
                }
            },
            other => {
                self.objects.insert(ridx, other);
                proof {
                    assert(false);
                }
            },
        }
    }

    /// Forward an uncaught page error to the page node's subscribers.
    fn page_emit_error(&mut self, pix: usize, text: String)
        requires
            old(self).wf(),
            pix < old(self).objects@.len(),
            old(self).objects@[pix as int] is Page,
        ensures
            final(self).wf(),
            final(self).callbacks@ == old(self).callbacks@,
            final(self).last_id == old(self).last_id,
            final(self).objects@.len() == old(self).objects@.len(),
            forall|k: int|
                0 <= k < old(self).objects@.len() && k != pix ==> final(self).objects@[k]
                    == #[trigger] old(self).objects@[k],
            final(self).objects@[pix as int] is Page,
            final(self).objects@[pix as int].channel_spec() == old(self).objects@[
                pix as int
            ].channel_spec(),
            final(self).objects@[pix as int].pg_subs() == old(self).objects@[
                pix as int
            ].pg_subs(),
            final(self).objects@[pix as int].pg_log().len() == old(self).objects@[
                pix as int
            ].pg_log().len() + 1,
            final(self).objects@[pix as int].pg_log().drop_last() == old(self).objects@[
                pix as int
            ].pg_log(),
            final(self).objects@[pix as int].pg_log().last() == crate::page::PageEvent::PageError(
                text,
            ),
    {
        let o = self.objects.remove(pix);
        match o {
            RemoteObject::Page { channel, mut events } => {
                let ghost log0 = events.log();
                events.emit(crate::page::PageEvent::PageError(text));
                proof {
                    assert(events.log().drop_last() =~= log0);
                }
                let o2 = RemoteObject::Page { channel, events };
                self.objects.insert(pix, o2);
                proof {
                    assert(self.objects@ =~= old(self).objects@.update(
                        pix as int,
                        self.objects@[pix as int],
                    ));
                    lemma_wf_update_same_ids(old(self).objects@, pix as int, self.objects@[
                        pix as int
                    ]);
                }
            },
            other => {
                self.objects.insert(pix, other);
                proof {
                    assert(false);
                }
            },
        }
    }
}

impl Context {
    /// Handle one ordinary event addressed to a browsing-context node.
    #[verifier::rlimit(100)]
    #[verifier::spinoff_prover]
    pub fn on_context_event(&mut self, idx: usize, method: &str, params: JsonValue) -> (r: Result<
        Vec<HostAction>,
        Error,
    >)
        requires
            old(self).wf(),
            idx < old(self).objects@.len(),
            old(self).objects@[idx as int] is BrowserContext,
        ensures
            final(self).wf(),
            final(self).callbacks@ == old(self).callbacks@,
            final(self).last_id == old(self).last_id,
            bc_event_effect(
                old(self).objects@,
                final(self).objects@,
                idx as int,
                method@,
                params@,
                r,
            ),
    {
        if crate::json::str_eq(method, "page") {
            let g = match crate::browser_context::guid_from_key(&params, "page") {
                Ok(g) => g,
                Err(e) => {
                    return Err(e);
                },
            };
            let pi = match self.find_index(g.as_str()) {
                Some(pi) => pi,
                None => {
                    return Err(Error::ObjectNotFound);
                },
            };
            proof {
                lemma_guid_index_unique(self.objects@, g@, pi as int);
            }
            if !(self.objects[pi].kind_of() == RemoteKind::Page) {
                return Err(Error::ObjectNotFound);
            }
            let ev = crate::browser_context::ContextEvent::Page(g.clone());
            let _ = self.bc_apply(idx, Some(g), false, Some(ev));
            Ok(Vec::new())
        } else if crate::json::str_eq(method, "close") {
            let b: Option<String> = match self.objects[idx].bc_browser_ref() {
                Some(b) => Some(b.clone()),
                None => None,
            };
            match b {
                None => Ok(Vec::new()),
                Some(bg) => {
                    let bidx = match self.find_index(bg.as_str()) {
                        Some(bi) => bi,
                        None => {
                            return Ok(Vec::new());
                        },
                    };
                    proof {
                        lemma_guid_index_unique(self.objects@, bg@, bidx as int);
                    }
                    if !self.objects[bidx].is_browser() {
                        return Ok(Vec::new());
                    }
                    let own_guid = self.objects[idx].guid().clone();
                    self.browser_drop_context(bidx, own_guid.as_str());
                    let _ = self.bc_apply(idx, None, false, Some(crate::browser_context::ContextEvent::Close));
                    Ok(Vec::new())
                },
            }
        } else if crate::json::str_eq(method, "route") {
            let g = match crate::browser_context::guid_from_key(&params, "route") {
                Ok(g) => g,
                Err(e) => {
                    return Err(e);
                },
            };
            let ri = match self.find_index(g.as_str()) {
                Some(ri) => ri,
                None => {
                    return Err(Error::ObjectNotFound);
                },
            };
            proof {
                lemma_guid_index_unique(self.objects@, g@, ri as int);
            }
            if !(self.objects[ri].kind_of() == RemoteKind::Route) {
                return Err(Error::ObjectNotFound);
            }
            let ev = crate::browser_context::ContextEvent::Route(g.clone());
            let sel = self.bc_apply(idx, None, true, Some(ev));
            let mut acts: Vec<HostAction> = Vec::new();
            match sel {
                Some(h) => acts.push(HostAction::RunRouteHandler { handler: h, route: g }),
                None => acts.push(HostAction::FallBackRoute { route: g }),
            }
            Ok(acts)
        } else if crate::json::str_eq(method, "console") {
            let g = match crate::browser_context::guid_from_key3(&params, "message", "console", "consoleMessage") {
                Ok(g) => g,
                Err(e) => {
                    return Err(e);
                },
            };
            let ci = match self.find_index(g.as_str()) {
                Some(ci) => ci,
                None => {
                    return Err(Error::ObjectNotFound);
                },
            };
            proof {
                lemma_guid_index_unique(self.objects@, g@, ci as int);
            }
            if !(self.objects[ci].kind_of() == RemoteKind::ConsoleMessage) {
                return Err(Error::ObjectNotFound);
            }
            let ev = crate::browser_context::ContextEvent::Console(g);
            let _ = self.bc_apply(idx, None, false, Some(ev));
            Ok(Vec::new())
        } else if crate::json::str_eq(method, "request") {
            let g = match crate::browser_context::guid_from_key(&params, "request") {
                Ok(g) => g,
                Err(e) => {
                    return Err(e);
                },
            };
            let ci = match self.find_index(g.as_str()) {
                Some(ci) => ci,
                None => {
                    return Err(Error::ObjectNotFound);
                },
            };
            proof {
                lemma_guid_index_unique(self.objects@, g@, ci as int);
            }
            if !(self.objects[ci].kind_of() == RemoteKind::Request) {
                return Err(Error::ObjectNotFound);
            }
            let ev = crate::browser_context::ContextEvent::Request(g);
            let _ = self.bc_apply(idx, None, false, Some(ev));
            Ok(Vec::new())
        } else if crate::json::str_eq(method, "response") {
            let g = match crate::browser_context::guid_from_key(&params, "response") {
                Ok(g) => g,
                Err(e) => {
                    return Err(e);
                },
            };
            let ci = match self.find_index(g.as_str()) {
                Some(ci) => ci,
                None => {
                    return Err(Error::ObjectNotFound);
                },
            };
            proof {
                lemma_guid_index_unique(self.objects@, g@, ci as int);
            }
            if !(self.objects[ci].kind_of() == RemoteKind::Response) {
                return Err(Error::ObjectNotFound);
            }
            let ev = crate::browser_context::ContextEvent::Response(g);
            let _ = self.bc_apply(idx, None, false, Some(ev));
            Ok(Vec::new())
        } else if crate::json::str_eq(method, "requestfailed") || crate::json::str_eq(
            method,
            "requestfinished",
        ) {
            let failed = crate::json::str_eq(method, "requestfailed");
            let g = match crate::browser_context::guid_from_key(&params, "request") {
                Ok(g) => g,
                Err(e) => {
                    return Err(e);
                },
            };
            let timing: JsonValue = match params.get("responseEndTiming") {
                Some(v) => match v.as_i64() {
                    Some(n) => JsonValue::Int(n),
                    None => match v.as_float_bits() {
                        Some(bits) => JsonValue::Float(bits),
                        None => {
                            return Err(Error::InvalidParams);
                        },
                    },
                },
                None => {
                    return Err(Error::InvalidParams);
                },
            };
            let mut failure: Option<String> = None;
            if failed {
                match params.get("failureText") {
                    Some(v) => match v.as_str() {
                        Some(s) => {
                            failure = Some(s.clone());
                        },
                        None => {
                            if !v.is_null() {
                                return Err(Error::InvalidParams);
                            }
                        },
                    },
                    None => {},
                }
            }
            let ri = match self.find_index(g.as_str()) {
                Some(ri) => ri,
                None => {
                    return Err(Error::ObjectNotFound);
                },
            };
            proof {
                lemma_guid_index_unique(self.objects@, g@, ri as int);
            }
            if !self.objects[ri].is_request() {
                return Err(Error::ObjectNotFound);
            }
            self.request_set(ri, failure, failed, timing);
            let ev = if failed {
                crate::browser_context::ContextEvent::RequestFailed(g)
            } else {
                crate::browser_context::ContextEvent::RequestFinished(g)
            };
            let _ = self.bc_apply(idx, None, false, Some(ev));
            Ok(Vec::new())
        } else if crate::json::str_eq(method, "pageError") || crate::json::str_eq(
            method,
            "pageerror",
        ) {
            let text: String = match params.get("error") {
                None => {
                    return Err(Error::InvalidParams);
                },
                Some(ev) => match crate::browser_context::format_error_value(ev) {
                    Ok(t) => t,
                    Err(e) => {
                        return Err(e);
                    },
                },
            };
            let pg: Option<String> = match params.get("page") {
                Some(pv) => match pv.get("guid") {
                    Some(gv) => match gv.as_str() {
                        Some(s) => Some(s.clone()),
                        None => None,
                    },
                    None => None,
                },
                None => None,
            };
            let resolved: Option<(usize, String)> = match pg {
                Some(g) => match self.find_index(g.as_str()) {
                    Some(pi) => {
                        proof {
                            lemma_guid_index_unique(self.objects@, g@, pi as int);
                        }
                        if self.objects[pi].is_page() {
                            Some((pi, g))
                        } else {
                            None
                        }
                    },
                    None => None,
                },
                None => None,
            };
            match resolved {
                Some((pi, g)) => {
                    self.page_emit_error(pi, text.clone());
                    let ev = crate::browser_context::ContextEvent::WebError { page: Some(g), error: text };
                    let _ = self.bc_apply(idx, None, false, Some(ev));
                    Ok(Vec::new())
                },
                None => {
                    let ev = crate::browser_context::ContextEvent::WebError { page: None, error: text };
                    let _ = self.bc_apply(idx, None, false, Some(ev));
                    Ok(Vec::new())
                },
            }
        } else if crate::json::str_eq(method, "webSocketRoute") {
            let g = match crate::browser_context::guid_from_key(&params, "route") {
                Ok(g) => g,
                Err(e) => {
                    return Err(e);
                },
            };
            let wi = match self.find_index(g.as_str()) {
                Some(wi) => wi,
                None => {
                    return Err(Error::ObjectNotFound);
                },
            };
            proof {
                lemma_guid_index_unique(self.objects@, g@, wi as int);
            }
            let url: String = match self.objects[wi].ws_url_ref() {
                Some(u) => u.clone(),
                None => {
                    return Err(Error::ObjectNotFound);
                },
            };
            let sel = match &self.objects[idx] {
                RemoteObject::BrowserContext { websocket_routes, .. } => {
                    crate::browser_context::select_ws_route_handler(websocket_routes, url.as_str())
                },
                _ => None,
            };
            let mut acts: Vec<HostAction> = Vec::new();
            match sel {
                Some(h) => acts.push(
                    HostAction::RunWebSocketRouteHandler { handler: h, route: g },
                ),
                None => acts.push(HostAction::ConnectWebSocketToServer { route: g }),
            }
            Ok(acts)
        } else {
            Ok(Vec::new())
        }
    }
}

/// The position of the pending call with this id.
pub open spec fn pending_index(s: Seq<PendingCall>, id: u64) -> int {
    choose|i: int| 0 <= i < s.len() && (#[trigger] s[i].id) == id
}

/// What one ordinary event does to a session node.
pub open spec fn cdp_event_effect(
    o: RemoteObject,
    o2: RemoteObject,
    method: Seq<char>,
    params: JsonData,
    ok: bool,
) -> bool {
    &&& o2 is CdpSession
    &&& o2.channel_spec() == o.channel_spec()
    &&& o2.cdp_subs() == o.cdp_subs()
    &&& (if method != "event"@ {
        ok && o2.cdp_log() == o.cdp_log()
    } else {
        match crate::json::json_field(params, "method"@) {
            Some(JsonData::Str(m)) => {
                &&& ok
                &&& o2.cdp_log().len() == o.cdp_log().len() + 1
                &&& o2.cdp_log().drop_last() == o.cdp_log()
                &&& o2.cdp_log().last().method@ == m
                &&& o2.cdp_log().last().params@ == (match crate::json::json_field(
                    params,
                    "params"@,
                ) {
                    Some(p) => p,
                    None => JsonData::Null,
                })
            },
            _ => !ok && o2.cdp_log() == o.cdp_log(),
        }
    })
}

/// What one ordinary event does to a routed-websocket node.
pub open spec fn ws_event_effect(
    o: RemoteObject,
    o2: RemoteObject,
    method: Seq<char>,
    params: JsonData,
    ok: bool,
) -> bool {
    &&& o2 is WebSocketRoute
    &&& o2.channel_spec() == o.channel_spec()
    &&& o2.ws_url() == o.ws_url()
    &&& o2.ws_connected() == o.ws_connected()
    &&& o2.ws_subs() == o.ws_subs()
    &&& (o2.ws_log().len() > o.ws_log().len() ==> o2.ws_log().drop_last() == o.ws_log())
    &&& (!ok ==> o2.ws_log() == o.ws_log())
    &&& ({
        let m = method;
        if m == "messageFromPage"@ {
            match crate::websocket_route::ws_message_of(params) {
                Ok(b) => ok && o2.ws_log().len() == o.ws_log().len() + 1 && o2.ws_log().last()@
                    == crate::websocket_route::WsEventData::MessageFromPage(b),
                Err(_) => !ok,
            }
        } else if m == "messageFromServer"@ {
            match crate::websocket_route::ws_message_of(params) {
                Ok(b) => ok && o2.ws_log().len() == o.ws_log().len() + 1 && o2.ws_log().last()@
                    == crate::websocket_route::WsEventData::MessageFromServer(b),
                Err(_) => !ok,
            }
        } else if m == "closePage"@ {
            ok && o2.ws_log().len() == o.ws_log().len() + 1 && o2.ws_log().last()@ == (
            crate::websocket_route::WsEventData::CloseFromPage {
                code: crate::websocket_route::ws_close_code(params),
                reason: crate::websocket_route::ws_close_reason(params),
                was_clean: crate::websocket_route::ws_close_clean(params),
            })
        } else if m == "closeServer"@ {
            ok && o2.ws_log().len() == o.ws_log().len() + 1 && o2.ws_log().last()@ == (
            crate::websocket_route::WsEventData::CloseFromServer {
                code: crate::websocket_route::ws_close_code(params),
                reason: crate::websocket_route::ws_close_reason(params),
                was_clean: crate::websocket_route::ws_close_clean(params),
            })
        } else {
            ok && o2.ws_log() == o.ws_log()
        }
    })
}

impl Context {
    /// Route one decoded message: resolve the pending call it answers, grow
    /// or shrink the graph, or hand it to the addressed node's handler. A
    /// response naming an unknown id, an event naming a gone node, and a
    /// creation that cannot be decoded are protocol desyncs: they come back
    /// as errors and terminate the connection. A node handler's own failure
    /// is only reported as an action; it never halts dispatch.
    pub fn dispatch(&mut self, msg: Message) -> (r: Result<Vec<HostAction>, Error>)
        requires
            old(self).wf(),
        ensures
            final(self).wf(),
            final(self).last_id == old(self).last_id,
            msg is Response ==> ({
                let id = msg->Response_id;
                let body = msg->Response_body;
                if old(self).pending(id) {
                    &&& r matches Ok(acts)
                    &&& final(self).objects@ == old(self).objects@
                    &&& final(self).callbacks@ == old(self).callbacks@.remove(
                        pending_index(old(self).callbacks@, id),
                    )
                    &&& !final(self).pending(id)
                    &&& (r matches Ok(acts) ==> acts@.len() == 1 && (if old(self).pending_alive(
                        id,
                    ) {
                        acts@[0] matches HostAction::Resolve { id: rid, body: rbody } && rid == id
                            && rbody == body
                    } else {
                        acts@[0] matches HostAction::DiscardResult { id: rid } && rid == id
                    }))
                } else {
                    &&& r matches Err(e)
                    &&& e is CallbackNotFound
                    &&& final(self).objects@ == old(self).objects@
                    &&& final(self).callbacks@ == old(self).callbacks@
                }
            }),
            msg is Event ==> ({
                let guid = msg->Event_guid;
                let method = msg->Event_method;
                let params = msg->Event_params;
                if method@ == create_method() {
                    &&& final(self).callbacks@ == old(self).callbacks@
                    &&& create_effect(old(self).objects@, final(self).objects@, guid@, params@, r)
                } else if method@ == dispose_method() {
                    &&& (r matches Ok(acts) && acts@.len() == 0)
                    &&& final(self).callbacks@ == old(self).callbacks@
                    &&& final(self).objects@ == without_subtree(old(self).objects@, guid@)
                } else {
                    if !has_guid(old(self).objects@, guid@) {
                        &&& r matches Err(e)
                        &&& e is ObjectNotFound
                        &&& final(self).objects@ == old(self).objects@
                        &&& final(self).callbacks@ == old(self).callbacks@
                    } else {
                        let idx = index_of_guid(old(self).objects@, guid@);
                        let o = old(self).objects@[idx];
                        &&& final(self).callbacks@ == old(self).callbacks@
                        &&& (if o is BrowserContext {
                            r matches Ok(acts) && ((exists|acts0: Vec<HostAction>|
                                #[trigger] bc_event_effect(
                                    old(self).objects@,
                                    final(self).objects@,
                                    idx,
                                    method@,
                                    params@,
                                    Ok(acts0),
                                ) && acts == acts0) || (exists|e: Error|
                                #[trigger] bc_event_effect(
                                    old(self).objects@,
                                    final(self).objects@,
                                    idx,
                                    method@,
                                    params@,
                                    Err(e),
                                ) && final(self).objects@ == old(self).objects@ && acts@.len() == 1
                                && (acts@[0] matches HostAction::HandlerError {
                                    guid: hg,
                                    method: hm,
                                    error: he,
                                } && hg@ == guid@ && hm@ == method@ && he == e)))
                        } else if o is CdpSession || o is WebSocketRoute {
                            &&& r matches Ok(acts)
                            &&& final(self).objects@.len() == old(self).objects@.len()
                            &&& (forall|k: int|
                                0 <= k < old(self).objects@.len() && k != idx ==> final(self).objects@[k] == #[trigger] old(self).objects@[k])
                            &&& ({
                                let o2 = final(self).objects@[idx];
                                let ok = acts@.len() == 0;
                                &&& (if o is CdpSession {
                                    cdp_event_effect(o, o2, method@, params@, ok)
                                } else {
                                    ws_event_effect(o, o2, method@, params@, ok)
                                })
                                &&& (acts@.len() == 0 || (acts@.len() == 1 && (acts@[0] matches
                                    HostAction::HandlerError { guid: hg, method: hm, .. } && hg@
                                    == guid@ && hm@ == method@)))
                            })
                        } else {
                            r matches Ok(acts) && acts@.len() == 0 && final(self).objects@ == old(self).objects@
                        })
                    }
                }
            }),
    {
        match msg {
            Message::Response { id, body } => {
                proof {
                    assert(msg == Message::Response { id, body });
                }
                let mut i: usize = 0;
                let n = self.callbacks.len();
                while i < n
                    invariant
                        i <= n,
                        old(self).wf(),
                        msg == (Message::Response { id, body }),
                        n == self.callbacks@.len(),
                        self.callbacks@ == old(self).callbacks@,
                        self.objects@ == old(self).objects@,
                        self.last_id == old(self).last_id,
                        forall|k: int| 0 <= k < i ==> (#[trigger] self.callbacks@[k].id) != id,
                    decreases n - i,
                {
                    if self.callbacks[i].id == id {
                        proof {
                            assert forall|k: int|
                                0 <= k < self.callbacks@.len() && (#[trigger] self.callbacks@[
                                k].id) == id implies k == i as int by {
                                if k < i as int {
                                    assert(self.callbacks@[k].id != self.callbacks@[i as int].id);
                                }
                                if (i as int) < k {
                                    assert(self.callbacks@[i as int].id < self.callbacks@[k].id);
                                }
                            }
                            assert(old(self).callbacks@[i as int].id == id);
                            let w = pending_index(old(self).callbacks@, id);
                            assert(0 <= w < old(self).callbacks@.len() && old(self).callbacks@[
                                w
                            ].id == id);
                            assert(w == i as int);
                        }
                        let alive = self.callbacks[i].receiver_alive;
                        let _ = self.callbacks.remove(i);
                        proof {
                            assert forall|a: int, b: int|
                                0 <= a < b < self.callbacks@.len() implies (
                            #[trigger] self.callbacks@[a].id) < (
                            #[trigger] self.callbacks@[b].id) by {
                                let oa = if a < i as int {
                                    a
                                } else {
                                    a + 1
                                };
                                let ob = if b < i as int {
                                    b
                                } else {
                                    b + 1
                                };
                                assert(old(self).callbacks@[oa].id < old(self).callbacks@[ob].id);
                            }
                            assert forall|k: int|
                                0 <= k < self.callbacks@.len() implies (
                            #[trigger] self.callbacks@[k].id) != id by {
                                let ok0 = if k < i as int {
                                    k
                                } else {
                                    k + 1
                                };
                                if ok0 < i as int {
                                    assert(old(self).callbacks@[ok0].id < old(self).callbacks@[
                                        i as int
                                    ].id);
                                }
                                if (i as int) < ok0 {
                                    assert(old(self).callbacks@[i as int].id < old(self).callbacks@[ok0].id);
                                }
                            }
                        }
                        let mut acts: Vec<HostAction> = Vec::new();
                        if alive {
                            acts.push(HostAction::Resolve { id, body });
                        } else {
                            acts.push(HostAction::DiscardResult { id });
                        }
                        return Ok(acts);
                    }
                    i += 1;
                }
                Err(Error::CallbackNotFound)
            },
            Message::Event { guid, method, params } => {
                proof {
                    assert(msg == Message::Event { guid, method, params });
                }
                if is_create_method(method.as_str()) {
                    self.create_remote_object(guid.as_str(), params)
                } else if is_dispose_method(method.as_str()) {
                    self.dispose(guid.as_str());
                    Ok(Vec::new())
                } else {
                    let idx = match self.find_index(guid.as_str()) {
                        Some(i) => i,
                        None => {
                            return Err(Error::ObjectNotFound);
                        },
                    };
                    proof {
                        lemma_guid_index_unique(self.objects@, guid@, idx as int);
                    }
                    if self.objects[idx].is_bc() {
                        match self.on_context_event(idx, method.as_str(), params) {
                            Ok(acts) => Ok(acts),
                            Err(e) => {
                                let mut acts: Vec<HostAction> = Vec::new();
                                acts.push(
                                    HostAction::HandlerError { guid, method, error: e },
                                );
                                Ok(acts)
                            },
                        }
                    } else if self.objects[idx].is_cdp() {
                        let o = self.objects.remove(idx);
                        match o {
                            RemoteObject::CdpSession { channel, mut events } => {
                                let hr = crate::cdp_session::handle_event(
                                    &mut events,
                                    method.as_str(),
                                    params,
                                );
                                let o2 = RemoteObject::CdpSession { channel, events };
                                self.objects.insert(idx, o2);
                                proof {
                                    assert(self.objects@ =~= old(self).objects@.update(
                                        idx as int,
                                        self.objects@[idx as int],
                                    ));
                                    lemma_wf_update_same_ids(
                                        old(self).objects@,
                                        idx as int,
                                        self.objects@[idx as int],
                                    );
                                }
                                match hr {
                                    Ok(_) => Ok(Vec::new()),
                                    Err(e) => {
                                        let mut acts: Vec<HostAction> = Vec::new();
                                        acts.push(
                                            HostAction::HandlerError { guid, method, error: e },
                                        );
                                        Ok(acts)
                                    },
                                }
                            },
                            other => {
                                self.objects.insert(idx, other);
                                proof {
                                    assert(false);
                                }
                                Ok(Vec::new())
                            },
                        }
                    } else if self.objects[idx].is_ws_route() {
                        let o = self.objects.remove(idx);
                        match o {
                            RemoteObject::WebSocketRoute { channel, url, connected, mut events } => {
                                let hr = crate::websocket_route::handle_event(
                                    &mut events,
                                    method.as_str(),
                                    &params,
                                );
                                let o2 = RemoteObject::WebSocketRoute {
                                    channel,
                                    url,
                                    connected,
                                    events,
                                };
                                self.objects.insert(idx, o2);
                                proof {
                                    assert(self.objects@ =~= old(self).objects@.update(
                                        idx as int,
                                        self.objects@[idx as int],
                                    ));
                                    lemma_wf_update_same_ids(
                                        old(self).objects@,
                                        idx as int,
                                        self.objects@[idx as int],
                                    );
                                }
                                match hr {
                                    Ok(_) => Ok(Vec::new()),
                                    Err(e) => {
                                        let mut acts: Vec<HostAction> = Vec::new();
                                        acts.push(
                                            HostAction::HandlerError { guid, method, error: e },
                                        );
                                        Ok(acts)
                                    },
                                }
                            },
                            other => {
                                self.objects.insert(idx, other);
                                proof {
                                    assert(false);
                                }
                                Ok(Vec::new())
                            },
                        }
                    } else {
                        Ok(Vec::new())
                    }
                }
            },
        }
    }
}

} // verus!
