//! The engine's cross-cutting guarantees, stated and proved once.
//!
//! Each law here relates the contracts of several operations; the guarantees
//! that one operation gives by itself — every pending call failed uniformly
//! and the table left empty on `notify_closed`, a creation under an unknown
//! parent refused without mutation, a discarded result for a dropped future —
//! stand in those operations' own `ensures` in `context.rs`.

use vstd::prelude::*;

use crate::context::{
    browser_registered, create_effect, creation_new_guid, creation_tag, has_guid, in_subtree,
    index_of_guid, objects_wf, subtree_guids, without_subtree, HostAction, PendingCall,
};
use crate::remote::{kind_of_tag_data, RemoteKind, RemoteObject};

verus! {

/// Resolving one call touches no other: after the record of `id2` is taken
/// out of the pending table, every other call is still pending, with the
/// same liveness it had — so any number of concurrently issued calls with
/// distinct ids each get exactly their own payload, in whatever order the
/// responses arrive; `dispatch` delivers a response only to the record whose
/// id it names.
pub proof fn lemma_resolution_touches_one_call(s: Seq<PendingCall>, id1: u64, id2: u64)
    requires
        forall|i: int, j: int| 0 <= i < j < s.len() ==> (#[trigger] s[i].id) < (#[trigger] s[j].id),
        id1 != id2,
        exists|i: int| 0 <= i < s.len() && (#[trigger] s[i].id) == id1,
        exists|i: int| 0 <= i < s.len() && (#[trigger] s[i].id) == id2,
    ensures
        ({
            let t = s.remove(crate::context::pending_index(s, id2));
            &&& exists|i: int| 0 <= i < t.len() && (#[trigger] t[i].id) == id1
            &&& forall|i: int|
                0 <= i < t.len() ==> exists|j: int|
                    0 <= j < s.len() && (#[trigger] t[i]) == s[j] && s[j].id != id2
        }),
{
    let k = crate::context::pending_index(s, id2);
    assert(0 <= k < s.len() && s[k].id == id2);
    let t = s.remove(k);
    assert(t =~= s.subrange(0, k) + s.subrange(k + 1, s.len() as int));
    let i1 = choose|i: int| 0 <= i < s.len() && (#[trigger] s[i].id) == id1;
    assert(i1 != k);
    let ti = if i1 < k {
        i1
    } else {
        i1 - 1
    };
    assert(t[ti] == s[i1]);
    assert forall|i: int| 0 <= i < t.len() implies exists|j: int|
        0 <= j < s.len() && (#[trigger] t[i]) == s[j] && s[j].id != id2 by {
        let j = if i < k {
            i
        } else {
            i + 1
        };
        assert(t[i] == s[j]);
        if j < k {
            assert(s[j].id < s[k].id);
        }
        if k < j {
            assert(s[k].id < s[j].id);
        }
    }
}

/// Disposal removes the whole subtree and nothing else: after disposing the
/// node carrying `g`, a guid resolves exactly when it did before and its
/// node was not in the subtree — so a subtree of depth `d` loses all its
/// `d + 1` levels, and an event addressed to any of them afterwards finds
/// no node and fires no handler.
pub proof fn lemma_dispose_exact(s: Seq<RemoteObject>, g: Seq<char>)
    requires
        objects_wf(s),
    ensures
        forall|i: int|
            0 <= i < s.len() && in_subtree(s, i, g) ==> !has_guid(
                without_subtree(s, g),
                #[trigger] s[i].guid_data(),
            ),
        forall|i: int|
            0 <= i < s.len() && !in_subtree(s, i, g) ==> has_guid(
                without_subtree(s, g),
                #[trigger] s[i].guid_data(),
            ),
{
    let pred = |o: RemoteObject| !subtree_guids(s, g).contains(o.guid_data());
    let t = without_subtree(s, g);
    assert forall|i: int| 0 <= i < s.len() && in_subtree(s, i, g) implies !has_guid(
        t,
        #[trigger] s[i].guid_data(),
    ) by {
        assert(subtree_guids(s, g).contains(s[i].guid_data()));
        if has_guid(t, s[i].guid_data()) {
            let k = choose|k: int|
                0 <= k < t.len() && (#[trigger] t[k].guid_data()) == s[i].guid_data();
            Seq::lemma_filter_pred(s, pred, k);
            assert(false);
        }
    }
    assert forall|i: int| 0 <= i < s.len() && !in_subtree(s, i, g) implies has_guid(
        t,
        #[trigger] s[i].guid_data(),
    ) by {
        assert forall|k: int|
            0 <= k < s.len() && (#[trigger] s[k].guid_data()) == s[i].guid_data() implies k
            == i by {
            if k < i {
                assert(s[k].guid_data() != s[i].guid_data());
            }
            if i < k {
                assert(s[i].guid_data() != s[k].guid_data());
            }
        }
        assert(!subtree_guids(s, g).contains(s[i].guid_data()));
        assert(pred(s[i]));
        Seq::lemma_filter_contains(s, pred, i);
        assert(t.contains(s[i]));
        let k = choose|k: int| 0 <= k < t.len() && (#[trigger] t[k]) == s[i];
        assert(t[k].guid_data() == s[i].guid_data());
    }
}

/// The creation-race liaison settles the waiting caller exactly once: when a
/// creation event builds a browsing context under a browser whose liaison is
/// armed, the one dispatch step hands the new context's guid to the caller
/// and disarms the liaison, so no later creation can notify the same caller
/// again. The response that arrives after the caller already resolved this
/// way is then delivered to a call record whose future is gone and is
/// discarded, never an error: that is `dispatch`'s response contract.
pub proof fn lemma_creation_event_settles_caller(
    pre: Seq<RemoteObject>,
    post: Seq<RemoteObject>,
    parent: Seq<char>,
    params: crate::json::JsonData,
    acts: Vec<HostAction>,
)
    requires
        create_effect(pre, post, parent, params, Ok(acts)),
        creation_tag(params) == Some("BrowserContext"@),
        creation_new_guid(params) is Some,
        has_guid(pre, parent),
        pre[index_of_guid(pre, parent)] is Browser,
        pre[index_of_guid(pre, parent)].br_pending(),
        !has_guid(pre, creation_new_guid(params)->Some_0),
    ensures
        acts@.len() == 1,
        acts@[0] matches HostAction::NotifyPendingContext { browser, context } && browser@
            == parent && context@ == creation_new_guid(params)->Some_0,
        !post[index_of_guid(pre, parent)].br_pending(),
        browser_registered(
            pre[index_of_guid(pre, parent)],
            post[index_of_guid(pre, parent)],
            creation_new_guid(params)->Some_0,
        ),
{
    reveal_strlit("BrowserContext");
    assert(kind_of_tag_data("BrowserContext"@) == Some(RemoteKind::BrowserContext)) by {
        reveal_strlit("Playwright");
        reveal_strlit("BrowserType");
        reveal_strlit("Browser");
        reveal_strlit("BrowserContext");
        assert(("BrowserContext"@).len() == 14);
        assert(("Playwright"@).len() == 10);
        assert(("BrowserType"@).len() == 11);
        assert(("Browser"@).len() == 7);
        assert("BrowserContext"@ != "Playwright"@);
        assert("BrowserContext"@ != "BrowserType"@);
        assert("BrowserContext"@ != "Browser"@);
    }
}

} // verus!
