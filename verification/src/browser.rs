//! The browser node's side of opening a new browsing context, and the
//! bounded-deadline recovery when the call's response and the context's
//! creation event race or get lost.
//!
//! The call is settled by whichever arrives first: the correlated response,
//! or the creation event handed over through the one-shot liaison armed
//! before sending. If neither settles it before the deadline, a
//! deterministic three-tier fallback runs: take a context registered since
//! the call began; else scan the browser's children, newest first, for a
//! browsing context; else scan the whole table for a browsing context whose
//! parent is this browser. Only when all three fail does the call time out.

use vstd::prelude::*;

use crate::context::{has_guid, index_of_guid, Context};
use crate::error::{Error, ErrorMessage};
use crate::json::{json_field, JsonData, JsonValue};
use crate::remote::{RemoteKind, RemoteObject};

verus! {

/// How a pending new-context call was settled: by its response, by the
/// creation event through the liaison, by the liaison being dropped, or by
/// the deadline running out.
pub enum NewContextOutcome {
    Response(Result<JsonValue, ErrorMessage>),
    CreationEvent(String),
    LiaisonDropped,
    Deadline,
}

/// The context guid a new-context response names: under the `context` field,
/// or, failing that, under the response's only field.
pub open spec fn response_context_guid(body: JsonData) -> Result<Seq<char>, ()> {
    crate::browser_context::guid_from_keys_data(body, seq!["context"@])
}

/// The first context of a browser's list that was not there before the call.
pub open spec fn first_new_context(contexts: Seq<String>, existing: Seq<String>) -> Option<
    Seq<char>,
>
    decreases contexts.len(),
{
    if contexts.len() == 0 {
        None
    } else if !existing_holds(existing, contexts.first()@) {
        Some(contexts.first()@)
    } else {
        first_new_context(contexts.drop_first(), existing)
    }
}

/// Whether a guid is among the snapshot taken before the call.
pub open spec fn existing_holds(existing: Seq<String>, g: Seq<char>) -> bool {
    exists|i: int| 0 <= i < existing.len() && (#[trigger] existing[i])@ == g
}

/// The newest child of the browser that is a browsing context.
pub open spec fn last_bc_child(s: Seq<RemoteObject>, bg: Seq<char>) -> Option<Seq<char>>
    decreases s.len(),
{
    if s.len() == 0 {
        None
    } else if s.last().parent_data() == Some(bg) && s.last() is BrowserContext {
        Some(s.last().guid_data())
    } else {
        last_bc_child(s.drop_last(), bg)
    }
}

/// The first browsing context anywhere in the table whose parent is the
/// browser.
pub open spec fn first_bc_of_browser(s: Seq<RemoteObject>, bg: Seq<char>) -> Option<Seq<char>>
    decreases s.len(),
{
    if s.len() == 0 {
        None
    } else if s.first() is BrowserContext && s.first().parent_data() == Some(bg) {
        Some(s.first().guid_data())
    } else {
        first_bc_of_browser(s.drop_first(), bg)
    }
}

/// What the three-tier fallback decides on a given table.
pub open spec fn fallback_choice(
    s: Seq<RemoteObject>,
    bidx: int,
    bg: Seq<char>,
    existing: Seq<String>,
) -> Option<Seq<char>> {
    match first_new_context(s[bidx].br_contexts(), existing) {
        Some(g) => Some(g),
        None => match last_bc_child(s, bg) {
            Some(g) => Some(g),
            None => first_bc_of_browser(s, bg),
        },
    }
}


/// A browser after a new-context call settled: its one-shot liaison is
/// disarmed, the found context — when there was one — is appended to its
/// list, and nothing else anywhere moved.
pub open spec fn browser_settled(
    pre: Seq<RemoteObject>,
    post: Seq<RemoteObject>,
    bidx: int,
    registered: Option<Seq<char>>,
) -> bool {
    &&& post.len() == pre.len()
    &&& (forall|k: int| 0 <= k < pre.len() && k != bidx ==> post[k] == #[trigger] pre[k])
    &&& post[bidx] is Browser
    &&& post[bidx].br_core() == pre[bidx].br_core()
    &&& !post[bidx].br_pending()
    &&& (match registered {
        Some(g) => post[bidx].br_contexts().len() == pre[bidx].br_contexts().len() + 1 && post[
            bidx
        ].br_contexts().drop_last() == pre[bidx].br_contexts() && post[
            bidx
        ].br_contexts().last()@ == g,
        None => post[bidx].br_contexts() == pre[bidx].br_contexts(),
    })
}

/// The first context of the list that is not in the snapshot.
fn first_new_ctx(contexts: &Vec<String>, existing: &Vec<String>) -> (r: Option<String>)
    ensures
        match r {
            Some(g) => first_new_context(contexts@, existing@) == Some(g@),
            None => first_new_context(contexts@, existing@) is None,
        },
{
    let ghost cs = contexts@;
    proof {
        assert(cs.skip(0) =~= cs);
    }
    let mut i: usize = 0;
    while i < contexts.len()
        invariant
            i <= cs.len(),
            contexts@ == cs,
            first_new_context(cs, existing@) == first_new_context(cs.skip(i as int), existing@),
        decreases cs.len() - i,
    {
        proof {
            assert(cs.skip(i as int).first() == cs[i as int]);
            assert(cs.skip(i as int).drop_first() =~= cs.skip(i + 1));
        }
        let mut seen = false;
        let mut j: usize = 0;
        while j < existing.len()
            invariant
                j <= existing@.len(),
                i < cs.len(),
                contexts@ == cs,
                seen ==> existing_holds(existing@, cs[i as int]@),
                !seen ==> forall|k: int| 0 <= k < j ==> (#[trigger] existing@[k])@ != cs[
                    i as int
                ]@,
            decreases existing@.len() - j,
        {
            if crate::json::str_eq(existing[j].as_str(), contexts[i].as_str()) {
                seen = true;
            }
            j += 1;
        }
        if !seen {
            proof {
                assert(!existing_holds(existing@, cs[i as int]@));
            }
            return Some(contexts[i].clone());
        }
        i += 1;
    }
    proof {
        assert(cs.skip(cs.len() as int) =~= Seq::<String>::empty());
    }
    None
}

impl Context {
    /// Register one browsing context into its browser's list.
    pub fn register_new_context(&mut self, bidx: usize, ctx_guid: &str)
        requires
            old(self).wf(),
            bidx < old(self).objects@.len(),
            old(self).objects@[bidx as int] is Browser,
        ensures
            final(self).wf(),
            final(self).callbacks@ == old(self).callbacks@,
            final(self).last_id == old(self).last_id,
            final(self).objects@.len() == old(self).objects@.len(),
            forall|k: int|
                0 <= k < old(self).objects@.len() && k != bidx ==> final(self).objects@[k]
                    == #[trigger] old(self).objects@[k],
            final(self).objects@[bidx as int] is Browser,
            final(self).objects@[bidx as int].br_core() == old(self).objects@[
                bidx as int
            ].br_core(),
            final(self).objects@[bidx as int].br_pending() == old(self).objects@[
                bidx as int
            ].br_pending(),
            final(self).objects@[bidx as int].br_contexts().len() == old(self).objects@[
                bidx as int
            ].br_contexts().len() + 1,
            final(self).objects@[bidx as int].br_contexts().drop_last() == old(self).objects@[
                bidx as int
            ].br_contexts(),
            final(self).objects@[bidx as int].br_contexts().last()@ == ctx_guid@,
    {
        let o = self.objects.remove(bidx);
        match o {
            RemoteObject::Browser { channel, version, mut contexts, pending_context, is_remote } => {
                let ghost cs0 = contexts@;
                contexts.push(ctx_guid.to_owned());
                proof {
                    assert(contexts@.drop_last() =~= cs0);
                }
                let o2 = RemoteObject::Browser {
                    channel,
                    version,
                    contexts,
                    pending_context,
                    is_remote,
                };
                self.objects.insert(bidx, o2);
                proof {
                    assert(self.objects@ =~= old(self).objects@.update(
                        bidx as int,
                        self.objects@[bidx as int],
                    ));
                    crate::context::lemma_wf_update_same_ids(
                        old(self).objects@,
                        bidx as int,
                        self.objects@[bidx as int],
                    );
                }
            },
            other => {
                self.objects.insert(bidx, other);
                proof {
                    assert(false);
                }
            },
        }
    }

    /// Settle the browser's side of a finished new-context call: the
    /// one-shot liaison is disarmed, and when a context was found it is
    /// registered into the browser's list.
    fn settle_browser(&mut self, bidx: usize, register: Option<&str>)
        requires
            old(self).wf(),
            bidx < old(self).objects@.len(),
            old(self).objects@[bidx as int] is Browser,
        ensures
            final(self).wf(),
            final(self).callbacks@ == old(self).callbacks@,
            final(self).last_id == old(self).last_id,
            browser_settled(
                old(self).objects@,
                final(self).objects@,
                bidx as int,
                match register {
                    Some(g) => Some(g@),
                    None => None,
                },
            ),
    {
        let o = self.objects.remove(bidx);
        match o {
            RemoteObject::Browser { channel, version, mut contexts, pending_context, is_remote } => {
                let ghost cs0 = contexts@;
                match register {
                    Some(g) => {
                        contexts.push(g.to_owned());
                        proof {
                            assert(contexts@.drop_last() =~= cs0);
                        }
                    },
                    None => {},
                }
                let o2 = RemoteObject::Browser {
                    channel,
                    version,
                    contexts,
                    pending_context: false,
                    is_remote,
                };
                self.objects.insert(bidx, o2);
                proof {
                    assert(self.objects@ =~= old(self).objects@.update(
                        bidx as int,
                        self.objects@[bidx as int],
                    ));
                    crate::context::lemma_wf_update_same_ids(
                        old(self).objects@,
                        bidx as int,
                        self.objects@[bidx as int],
                    );
                }
            },
            other => {
                self.objects.insert(bidx, other);
                proof {
                    assert(false);
                }
            },
        }
    }

    /// The deterministic three-tier recovery: find the context the lost or
    /// reordered call must have created, and register it; with no candidate
    /// anywhere, the call has timed out.
    pub fn fallback_find_context(&mut self, browser_guid: &str, existing: &Vec<String>) -> (r:
        Result<String, Error>)
        requires
            old(self).wf(),
        ensures
            final(self).wf(),
            final(self).callbacks@ == old(self).callbacks@,
            final(self).last_id == old(self).last_id,
            match r {
                Ok(g) => ({
                    let bidx = index_of_guid(old(self).objects@, browser_guid@);
                    &&& has_guid(old(self).objects@, browser_guid@)
                    &&& old(self).objects@[bidx] is Browser
                    &&& fallback_choice(old(self).objects@, bidx, browser_guid@, existing@)
                        == Some(g@)
                    &&& final(self).objects@.len() == old(self).objects@.len()
                    &&& (forall|k: int|
                        0 <= k < old(self).objects@.len() && k != bidx ==> final(self).objects@[k]
                            == #[trigger] old(self).objects@[k])
                    &&& final(self).objects@[bidx] is Browser
                    &&& final(self).objects@[bidx].br_core() == old(self).objects@[bidx].br_core()
                    &&& final(self).objects@[bidx].br_pending() == old(self).objects@[
                        bidx
                    ].br_pending()
                    &&& final(self).objects@[bidx].br_contexts().len() == old(self).objects@[
                        bidx
                    ].br_contexts().len() + 1
                    &&& final(self).objects@[bidx].br_contexts().drop_last() == old(self).objects@[
                        bidx
                    ].br_contexts()
                    &&& final(self).objects@[bidx].br_contexts().last()@ == g@
                }),
                Err(e) => final(self).objects@ == old(self).objects@ && ((e is ObjectNotFound && !(
                has_guid(old(self).objects@, browser_guid@) && old(self).objects@[index_of_guid(
                    old(self).objects@,
                    browser_guid@,
                )] is Browser)) || (e is Timeout && has_guid(old(self).objects@, browser_guid@)
                    && fallback_choice(
                    old(self).objects@,
                    index_of_guid(old(self).objects@, browser_guid@),
                    browser_guid@,
                    existing@,
                ) is None)),
            },
    {
        let bidx = match self.find_index(browser_guid) {
            Some(i) => i,
            None => {
                return Err(Error::ObjectNotFound);
            },
        };
        proof {
            crate::context::lemma_guid_index_unique(self.objects@, browser_guid@, bidx as int);
        }
        if !self.objects[bidx].is_browser() {
            return Err(Error::ObjectNotFound);
        }
        let candidate = self.fallback_candidate(bidx, browser_guid, existing);
        match candidate {
            Some(g) => {
                self.register_new_context(bidx, g.as_str());
                Ok(g)
            },
            None => Err(Error::Timeout),
        }
    }

    /// The fallback's decision alone, without registration.
    fn fallback_candidate(&self, bidx: usize, browser_guid: &str, existing: &Vec<String>) -> (r:
        Option<String>)
        requires
            self.wf(),
            bidx < self.objects@.len(),
            self.objects@[bidx as int] is Browser,
            self.objects@[bidx as int].guid_data() == browser_guid@,
        ensures
            match r {
                Some(g) => fallback_choice(
                    self.objects@,
                    bidx as int,
                    browser_guid@,
                    existing@,
                ) == Some(g@),
                None => fallback_choice(
                    self.objects@,
                    bidx as int,
                    browser_guid@,
                    existing@,
                ) is None,
            },
    {
        let tier_a = match &self.objects[bidx] {
            RemoteObject::Browser { contexts, .. } => first_new_ctx(contexts, existing),
            _ => None,
        };
        proof {
            assert(self.objects@[bidx as int].br_contexts() == (match self.objects@[bidx as int] {
                RemoteObject::Browser { contexts, .. } => contexts@,
                _ => Seq::<String>::empty(),
            }));
        }
        if tier_a.is_some() {
            return tier_a;
        }
        let ghost tier_a_none = first_new_context(
            self.objects@[bidx as int].br_contexts(),
            existing@,
        ) is None;
        let ghost s = self.objects@;
        let mut i: usize = self.objects.len();
        proof {
            assert(s.subrange(0, s.len() as int) =~= s);
        }
        while i > 0
            invariant
                i <= s.len(),
                s == self.objects@,
                bidx < s.len(),
                tier_a_none,
                tier_a_none == (first_new_context(s[bidx as int].br_contexts(), existing@)
                    is None),
                last_bc_child(s, browser_guid@) == last_bc_child(
                    s.subrange(0, i as int),
                    browser_guid@,
                ),
            decreases i,
        {
            i = i - 1;
            proof {
                assert(s.subrange(0, i + 1).last() == s[i as int]);
                assert(s.subrange(0, i + 1).drop_last() =~= s.subrange(0, i as int));
            }
            let is_child = match self.objects[i].parent() {
                Some(p) => crate::json::str_eq(p.as_str(), browser_guid),
                None => false,
            };
            if is_child && self.objects[i].is_bc() {
                return Some(self.objects[i].guid().clone());
            }
        }
        proof {
            assert(s.subrange(0, 0) =~= Seq::<RemoteObject>::empty());
        }
        let mut k: usize = 0;
        proof {
            assert(s.skip(0) =~= s);
        }
        while k < self.objects.len()
            invariant
                k <= s.len(),
                s == self.objects@,
                bidx < s.len(),
                tier_a_none,
                tier_a_none == (first_new_context(s[bidx as int].br_contexts(), existing@)
                    is None),
                last_bc_child(s, browser_guid@) is None,
                first_bc_of_browser(s, browser_guid@) == first_bc_of_browser(
                    s.skip(k as int),
                    browser_guid@,
                ),
            decreases s.len() - k,
        {
            proof {
                assert(s.skip(k as int).first() == s[k as int]);
                assert(s.skip(k as int).drop_first() =~= s.skip(k + 1));
            }
            let is_child = match self.objects[k].parent() {
                Some(p) => crate::json::str_eq(p.as_str(), browser_guid),
                None => false,
            };
            if self.objects[k].is_bc() && is_child {
                return Some(self.objects[k].guid().clone());
            }
            k += 1;
        }
        proof {
            assert(s.skip(s.len() as int) =~= Seq::<RemoteObject>::empty());
        }
        None
    }

    /// Settle a pending new-context call with whatever arrived first. In
    /// every case the browser's one-shot liaison ends disarmed. A successful
    /// response or the creation event names the created context, which is
    /// registered into the browser's list; a response whose named guid does
    /// not resolve to a live browsing context fails the call; a remote error
    /// fails it with that error; a dropped liaison or the deadline runs the
    /// deterministic three-tier fallback, registering its find or timing the
    /// call out.
    pub fn new_context_settle(
        &mut self,
        browser_guid: &str,
        existing: &Vec<String>,
        outcome: NewContextOutcome,
    ) -> (r: Result<String, Error>)
        requires
            old(self).wf(),
        ensures
            final(self).wf(),
            final(self).callbacks@ == old(self).callbacks@,
            final(self).last_id == old(self).last_id,
            ({
                let bidx = index_of_guid(old(self).objects@, browser_guid@);
                let known = has_guid(old(self).objects@, browser_guid@) && old(self).objects@[
                    bidx
                ] is Browser;
                let settled = |registered: Option<Seq<char>>|
                    if known {
                        browser_settled(
                            old(self).objects@,
                            final(self).objects@,
                            bidx,
                            registered,
                        )
                    } else {
                        final(self).objects@ == old(self).objects@
                    };
                &&& ((outcome is Response && outcome->Response_0 is Err) ==> (r matches Err(e) && (
                e matches Error::ErrorResponded(em2) && em2 == outcome->Response_0->Err_0)
                    && settled(None)))
                &&& ((outcome is Response && outcome->Response_0 is Ok) ==> ({
                    let v = outcome->Response_0->Ok_0;
                    match response_context_guid(v@) {
                        Err(_) => r matches Err(e) && e is GuidNotFound && settled(None),
                        Ok(g) => if has_guid(old(self).objects@, g) && old(self).objects@[
                            index_of_guid(old(self).objects@, g)
                        ] is BrowserContext {
                            r matches Ok(rg) && rg@ == g && settled(Some(g))
                        } else {
                            r matches Err(e) && e is ObjectNotFound && settled(None)
                        },
                    }
                }))
                &&& (outcome is CreationEvent ==> (r matches Ok(rg) && rg@
                    == outcome->CreationEvent_0@ && settled(Some(outcome->CreationEvent_0@))))
                &&& ((outcome is Deadline || outcome is LiaisonDropped) ==> (if known {
                    match fallback_choice(old(self).objects@, bidx, browser_guid@, existing@) {
                        Some(g) => r matches Ok(rg) && rg@ == g && settled(Some(g)),
                        None => r matches Err(e) && e is Timeout && settled(None),
                    }
                } else {
                    r matches Err(e) && e is ObjectNotFound && final(self).objects@ == old(
                        self,
                    ).objects@
                }))
            }),
    {
        let bidx_opt: Option<usize> = match self.find_index(browser_guid) {
            Some(i) => {
                proof {
                    crate::context::lemma_guid_index_unique(
                        self.objects@,
                        browser_guid@,
                        i as int,
                    );
                }
                if self.objects[i].is_browser() {
                    Some(i)
                } else {
                    None
                }
            },
            None => None,
        };
        match outcome {
            NewContextOutcome::Response(body) => match body {
                Ok(v) => {
                    proof {
                        assert(outcome == NewContextOutcome::Response(Ok(v)));
                    }
                    let g = match crate::browser_context::guid_from_key(&v, "context") {
                        Ok(g) => g,
                        Err(_) => {
                            match bidx_opt {
                                Some(b) => self.settle_browser(b, None),
                                None => {},
                            }
                            return Err(Error::GuidNotFound);
                        },
                    };
                    let ctx_live = match self.find_index(g.as_str()) {
                        Some(ci) => {
                            proof {
                                crate::context::lemma_guid_index_unique(
                                    self.objects@,
                                    g@,
                                    ci as int,
                                );
                            }
                            self.objects[ci].is_bc()
                        },
                        None => false,
                    };
                    if !ctx_live {
                        match bidx_opt {
                            Some(b) => self.settle_browser(b, None),
                            None => {},
                        }
                        return Err(Error::ObjectNotFound);
                    }
                    match bidx_opt {
                        Some(b) => self.settle_browser(b, Some(g.as_str())),
                        None => {},
                    }
                    Ok(g)
                },
                Err(em) => {
                    proof {
                        assert(outcome == NewContextOutcome::Response(
                            Err::<JsonValue, ErrorMessage>(em),
                        ));
                    }
                    match bidx_opt {
                        Some(b) => self.settle_browser(b, None),
                        None => {},
                    }
                    Err(Error::ErrorResponded(em))
                },
            },
            NewContextOutcome::CreationEvent(g) => {
                proof {
                    assert(outcome == NewContextOutcome::CreationEvent(g));
                }
                match bidx_opt {
                    Some(b) => self.settle_browser(b, Some(g.as_str())),
                    None => {},
                }
                Ok(g)
            },
            NewContextOutcome::LiaisonDropped => self.settle_by_fallback(
                bidx_opt,
                browser_guid,
                existing,
            ),
            NewContextOutcome::Deadline => self.settle_by_fallback(
                bidx_opt,
                browser_guid,
                existing,
            ),
        }
    }

    /// The deadline and dropped-liaison paths: run the three-tier fallback
    /// on the untouched table, then settle the browser with its verdict.
    fn settle_by_fallback(
        &mut self,
        bidx_opt: Option<usize>,
        browser_guid: &str,
        existing: &Vec<String>,
    ) -> (r: Result<String, Error>)
        requires
            old(self).wf(),
            match bidx_opt {
                Some(b) => b < old(self).objects@.len() && old(self).objects@[b as int] is Browser
                    && old(self).objects@[b as int].guid_data() == browser_guid@,
                None => !(has_guid(old(self).objects@, browser_guid@) && old(self).objects@[
                    index_of_guid(old(self).objects@, browser_guid@)
                ] is Browser),
            },
        ensures
            final(self).wf(),
            final(self).callbacks@ == old(self).callbacks@,
            final(self).last_id == old(self).last_id,
            match bidx_opt {
                Some(b) => match fallback_choice(
                    old(self).objects@,
                    b as int,
                    browser_guid@,
                    existing@,
                ) {
                    Some(g) => r matches Ok(rg) && rg@ == g && browser_settled(
                        old(self).objects@,
                        final(self).objects@,
                        b as int,
                        Some(g),
                    ),
                    None => r matches Err(e) && e is Timeout && browser_settled(
                        old(self).objects@,
                        final(self).objects@,
                        b as int,
                        None,
                    ),
                },
                None => r matches Err(e) && e is ObjectNotFound && final(self).objects@ == old(
                    self,
                ).objects@,
            },
    {
        let b = match bidx_opt {
            Some(b) => b,
            None => {
                return Err(Error::ObjectNotFound);
            },
        };
        let candidate = self.fallback_candidate(b, browser_guid, existing);
        match candidate {
            Some(g) => {
                self.settle_browser(b, Some(g.as_str()));
                Ok(g)
            },
            None => {
                self.settle_browser(b, None);
                Err(Error::Timeout)
            },
        }
    }
}

} // verus!