//! A browsing context node: its pages, its network and websocket routes, its
//! default timeouts, and the events it surfaces.
//!
//! Route handlers themselves are host callbacks; the engine keeps each one
//! under a numeric handle and decides, verified, which handle an incoming
//! route is given to and how a bounded handler's remaining uses count down.

use vstd::prelude::*;

use crate::json::{str_eq, JsonData, JsonValue, json_field, obj_fields, arr_items};
use crate::rx::{regex_accepts, regex_compiles, regex_matches};
use vstd::string::StrSliceExecFns;
use vstd::string::StringExecFns;

verus! {

/// A url pattern a route was registered under.
pub enum RoutePattern {
    Glob(String),
    Regex(String, String),
}

/// Mathematical shape of a pattern: a glob, or a regex source with flags.
pub ghost enum RoutePatternData {
    Glob(Seq<char>),
    Regex(Seq<char>, Seq<char>),
}

impl View for RoutePattern {
    type V = RoutePatternData;

    open spec fn view(&self) -> RoutePatternData {
        match self {
            RoutePattern::Glob(g) => RoutePatternData::Glob(g@),
            RoutePattern::Regex(s, f) => RoutePatternData::Regex(s@, f@),
        }
    }
}

/// One registered network route: its pattern, how many more times its
/// handler may run (unbounded when none), and the handler's host handle.
pub struct RouteEntry {
    pub pattern: RoutePattern,
    pub times: Option<u32>,
    pub handler: u64,
}

/// One registered websocket route.
pub struct WebSocketRouteEntry {
    pub pattern: RoutePattern,
    pub handler: u64,
}

/// An event surfaced to subscribers of one browsing context.
pub enum ContextEvent {
    Close,
    Page(String),
    Route(String),
    Console(String),
    Request(String),
    RequestFailed(String),
    RequestFinished(String),
    Response(String),
    WebError { page: Option<String>, error: String },
}

/// Mathematical shape of a context event; node references are guids.
pub ghost enum ContextEventData {
    Close,
    Page(Seq<char>),
    Route(Seq<char>),
    Console(Seq<char>),
    Request(Seq<char>),
    RequestFailed(Seq<char>),
    RequestFinished(Seq<char>),
    Response(Seq<char>),
    WebError { page: Option<Seq<char>>, error: Seq<char> },
}

impl View for ContextEvent {
    type V = ContextEventData;

    open spec fn view(&self) -> ContextEventData {
        match self {
            ContextEvent::Close => ContextEventData::Close,
            ContextEvent::Page(g) => ContextEventData::Page(g@),
            ContextEvent::Route(g) => ContextEventData::Route(g@),
            ContextEvent::Console(g) => ContextEventData::Console(g@),
            ContextEvent::Request(g) => ContextEventData::Request(g@),
            ContextEvent::RequestFailed(g) => ContextEventData::RequestFailed(g@),
            ContextEvent::RequestFinished(g) => ContextEventData::RequestFinished(g@),
            ContextEvent::Response(g) => ContextEventData::Response(g@),
            ContextEvent::WebError { page, error } => ContextEventData::WebError {
                page: match page {
                    Some(p) => Some(p@),
                    None => None,
                },
                error: error@,
            },
        }
    }
}

/// The default for both timeouts when none was set: thirty seconds.
pub open spec fn default_timeout_millis() -> u32 {
    30000
}

/// The effective timeout: the one set, or the default.
pub fn effective_timeout(set: &Option<u32>) -> (r: u32)
    ensures
        r == (match set {
            Some(t) => *t,
            None => default_timeout_millis(),
        }),
{
    match set {
        Some(t) => *t,
        None => 30000,
    }
}

/// The `{timeout}` parameters of a default-timeout update.
pub fn timeout_params(timeout: u32) -> (r: JsonValue)
    ensures
        r@ == JsonData::Obj(seq![("timeout"@, JsonData::Int(timeout as i64))]),
{
    let r = JsonValue::obj_new().with_int_field("timeout", timeout as i64);
    proof {
        assert(obj_fields(r@) =~= seq![("timeout"@, JsonData::Int(timeout as i64))]);
    }
    r
}

/// The regular expression a glob pattern stands for: `*` matches anything,
/// `?` any one character, `.` itself; every other character stands for
/// itself, as the expression syntax reads it.
pub open spec fn glob_regex_of(g: Seq<char>) -> Seq<char>
    decreases g.len(),
{
    if g.len() == 0 {
        Seq::empty()
    } else {
        (if g[0] == '*' {
            seq!['.', '*']
        } else if g[0] == '.' {
            seq!['\\', '.']
        } else if g[0] == '?' {
            seq!['.']
        } else {
            seq![g[0]]
        }) + glob_regex_of(g.drop_first())
    }
}

proof fn lemma_glob_regex_snoc(g: Seq<char>, c: char)
    ensures
        glob_regex_of(g.push(c)) == glob_regex_of(g) + (if c == '*' {
            seq!['.', '*']
        } else if c == '.' {
            seq!['\\', '.']
        } else if c == '?' {
            seq!['.']
        } else {
            seq![c]
        }),
    decreases g.len(),
{
    let tail = if c == '*' {
        seq!['.', '*']
    } else if c == '.' {
        seq!['\\', '.']
    } else if c == '?' {
        seq!['.']
    } else {
        seq![c]
    };
    if g.len() == 0 {
        assert(g.push(c).drop_first() =~= Seq::<char>::empty());
        assert(g.push(c)[0] == c);
        assert(glob_regex_of(Seq::<char>::empty()) =~= Seq::<char>::empty());
        assert(glob_regex_of(g.push(c)) =~= tail);
        assert(glob_regex_of(g) + tail =~= tail);
    } else {
        lemma_glob_regex_snoc(g.drop_first(), c);
        assert(g.push(c).drop_first() =~= g.drop_first().push(c));
        assert(glob_regex_of(g.push(c)) =~= glob_regex_of(g) + tail);
    }
}

/// The anchored expression a glob is matched with: `^`, the translation, `$`.
pub open spec fn anchored_glob_regex(g: Seq<char>) -> Seq<char> {
    seq!['^'] + glob_regex_of(g) + seq!['$']
}

/// Translate a glob into its anchored regular expression.
pub fn glob_to_regex(g: &str) -> (r: String)
    ensures
        r@ == anchored_glob_regex(g@),
{
    let n = g.unicode_len();
    let mut out = String::new();
    out.append("^");
    proof {
        reveal_strlit("^");
        assert(g@.subrange(0, 0) =~= Seq::<char>::empty());
        assert(glob_regex_of(Seq::<char>::empty()) =~= Seq::<char>::empty());
        assert(out@ =~= seq!['^'] + glob_regex_of(g@.subrange(0, 0)));
    }
    let mut i: usize = 0;
    while i < n
        invariant
            i <= n,
            n == g@.len(),
            out@ == seq!['^'] + glob_regex_of(g@.subrange(0, i as int)),
        decreases n - i,
    {
        let c = g.get_char(i);
        if c == '*' {
            out.append(".*");
        } else if c == '.' {
            out.append("\\.");
        } else if c == '?' {
            out.append(".");
        } else {
            let piece = g.substring_char(i, i + 1);
            out.append(piece);
        }
        i += 1;
        proof {
            reveal_strlit("^");
            reveal_strlit(".*");
            reveal_strlit("\\.");
            reveal_strlit(".");
            lemma_glob_regex_snoc(g@.subrange(0, i - 1), g@[i - 1]);
            assert(g@.subrange(0, i as int) =~= g@.subrange(0, i - 1).push(g@[i - 1]));
            assert(g@.subrange(i - 1, i as int) =~= seq![g@[i - 1]]);
            assert(out@ =~= seq!['^'] + glob_regex_of(g@.subrange(0, i as int)));
        }
    }
    out.append("$");
    proof {
        reveal_strlit("^");
        reveal_strlit("$");
        assert(g@.subrange(0, g@.len() as int) =~= g@);
        assert(out@ =~= anchored_glob_regex(g@));
    }
    out
}

/// Whether the flags of a registered regex ask for case-insensitive matching.
pub fn flags_case_insensitive(flags: &str) -> (r: bool)
    ensures
        r == flags@.contains('i'),
{
    let n = flags.unicode_len();
    let mut i: usize = 0;
    while i < n
        invariant
            i <= n,
            n == flags@.len(),
            forall|j: int| 0 <= j < i ==> flags@[j] != 'i',
        decreases n - i,
    {
        if flags.get_char(i) == 'i' {
            return true;
        }
        i += 1;
    }
    proof {
        assert(!flags@.contains('i'));
    }
    false
}

/// Whether a registered pattern matches a url: a glob of `*` or `**` matches
/// everything, any other glob through its anchored translation, a regex
/// through the regex engine with its `i` flag honoured; a pattern that does
/// not compile matches nothing.
pub open spec fn pattern_matches(p: RoutePatternData, url: Seq<char>) -> bool {
    match p {
        RoutePatternData::Glob(g) => {
            if g == "*"@ || g == "**"@ {
                true
            } else {
                regex_compiles(anchored_glob_regex(g), false) && regex_accepts(
                    anchored_glob_regex(g),
                    false,
                    url,
                )
            }
        },
        RoutePatternData::Regex(s, f) => regex_compiles(s, f.contains('i')) && regex_accepts(
            s,
            f.contains('i'),
            url,
        ),
    }
}

/// Decide whether one registered pattern matches a url.
pub fn ws_matches(pattern: &RoutePattern, url: &str) -> (r: bool)
    ensures
        r == pattern_matches(pattern@, url@),
{
    match pattern {
        RoutePattern::Glob(g) => {
            if str_eq(g.as_str(), "*") || str_eq(g.as_str(), "**") {
                true
            } else {
                let re = glob_to_regex(g.as_str());
                match regex_matches(re.as_str(), false, url) {
                    Some(b) => b,
                    None => false,
                }
            }
        },
        RoutePattern::Regex(s, f) => {
            let ci = flags_case_insensitive(f.as_str());
            match regex_matches(s.as_str(), ci, url) {
                Some(b) => b,
                None => false,
            }
        },
    }
}

/// Whether two patterns are the same registration.
pub open spec fn pattern_eq_data(a: RoutePatternData, b: RoutePatternData) -> bool {
    a == b
}

/// Compare two patterns.
pub fn pattern_eq(a: &RoutePattern, b: &RoutePattern) -> (r: bool)
    ensures
        r == (a@ == b@),
{
    match (a, b) {
        (RoutePattern::Glob(x), RoutePattern::Glob(y)) => str_eq(x.as_str(), y.as_str()),
        (RoutePattern::Regex(xs, xf), RoutePattern::Regex(ys, yf)) => str_eq(
            xs.as_str(),
            ys.as_str(),
        ) && str_eq(xf.as_str(), yf.as_str()),
        _ => false,
    }
}

/// The patterns of a route list with repeats dropped, first occurrences kept,
/// in registration order.
pub open spec fn dedup_patterns(s: Seq<RoutePatternData>) -> Seq<RoutePatternData>
    decreases s.len(),
{
    if s.len() == 0 {
        s
    } else {
        let rest = dedup_patterns(s.drop_last());
        if rest.contains(s.last()) {
            rest
        } else {
            rest.push(s.last())
        }
    }
}

/// Collect the distinct patterns of the registered routes, in order.
pub fn route_patterns(routes: &Vec<RouteEntry>) -> (r: Vec<RoutePattern>)
    ensures
        Seq::new(r@.len(), |i: int| r@[i]@) == dedup_patterns(
            Seq::new(routes@.len(), |i: int| routes@[i].pattern@),
        ),
{
    let ghost all = Seq::new(routes@.len(), |i: int| routes@[i].pattern@);
    let mut r: Vec<RoutePattern> = Vec::new();
    let mut i: usize = 0;
    while i < routes.len()
        invariant
            i <= routes@.len(),
            all == Seq::new(routes@.len(), |k: int| routes@[k].pattern@),
            Seq::new(r@.len(), |k: int| r@[k]@) == dedup_patterns(all.subrange(0, i as int)),
        decreases routes@.len() - i,
    {
        let ghost rview = Seq::new(r@.len(), |k: int| r@[k]@);
        let p = &routes[i].pattern;
        let mut seen = false;
        let mut j: usize = 0;
        while j < r.len()
            invariant
                j <= r@.len(),
                rview == Seq::new(r@.len(), |k: int| r@[k]@),
                seen == exists|k: int| 0 <= k < j && rview[k] == p@,
            decreases r@.len() - j,
        {
            if pattern_eq(&r[j], p) {
                seen = true;
                proof {
                    assert(rview[j as int] == p@);
                }
            }
            j += 1;
        }
        proof {
            assert(seen == rview.contains(p@));
            assert(all.subrange(0, i + 1).drop_last() =~= all.subrange(0, i as int));
            assert(all.subrange(0, i + 1).last() == p@);
        }
        if !seen {
            let copied = match p {
                RoutePattern::Glob(g) => RoutePattern::Glob(g.clone()),
                RoutePattern::Regex(s, f) => RoutePattern::Regex(s.clone(), f.clone()),
            };
            r.push(copied);
        }
        i += 1;
        proof {
            assert(Seq::new(r@.len(), |k: int| r@[k]@) =~= dedup_patterns(
                all.subrange(0, i as int),
            ));
        }
    }
    proof {
        assert(all.subrange(0, all.len() as int) =~= all);
    }
    r
}

/// The JSON shape one pattern is sent as: `{glob}` or `{regexSource,
/// regexFlags}`.
pub open spec fn pattern_item(p: RoutePatternData) -> JsonData {
    match p {
        RoutePatternData::Glob(g) => JsonData::Obj(seq![("glob"@, JsonData::Str(g))]),
        RoutePatternData::Regex(s, f) => JsonData::Obj(
            seq![("regexSource"@, JsonData::Str(s)), ("regexFlags"@, JsonData::Str(f))],
        ),
    }
}

/// The `{patterns}` parameters announcing the registered patterns.
pub fn patterns_params(patterns: &Vec<RoutePattern>) -> (r: JsonValue)
    ensures
        r@ == JsonData::Obj(
            seq![
                (
                    "patterns"@,
                    JsonData::Arr(Seq::new(patterns@.len(), |i: int| pattern_item(patterns@[i]@))),
                ),
            ],
        ),
{
    let mut arr = JsonValue::arr_new();
    let mut i: usize = 0;
    while i < patterns.len()
        invariant
            i <= patterns@.len(),
            arr@ is Arr,
            arr_items(arr@) =~= Seq::new(i as nat, |k: int| pattern_item(patterns@[k]@)),
        decreases patterns@.len() - i,
    {
        let item = match &patterns[i] {
            RoutePattern::Glob(g) => {
                let o = JsonValue::obj_new().with_str_field("glob", g.as_str());
                proof {
                    assert(obj_fields(o@) =~= seq![("glob"@, JsonData::Str(g@))]);
                }
                o
            },
            RoutePattern::Regex(s, f) => {
                let o = JsonValue::obj_new().with_str_field("regexSource", s.as_str())
                    .with_str_field("regexFlags", f.as_str());
                proof {
                    assert(obj_fields(o@) =~= seq![
                        ("regexSource"@, JsonData::Str(s@)),
                        ("regexFlags"@, JsonData::Str(f@)),
                    ]);
                }
                o
            },
        };
        proof {
            assert(item@ == pattern_item(patterns@[i as int]@));
        }
        arr = arr.with_item(item);
        i += 1;
        proof {
            assert(arr_items(arr@) =~= Seq::new(i as nat, |k: int| pattern_item(patterns@[k]@)));
        }
    }
    let r = JsonValue::obj_new().with_field("patterns", arr);
    proof {
        assert(arr_items(arr@) =~= Seq::new(
            patterns@.len(),
            |i: int| pattern_item(patterns@[i]@),
        ));
        assert(obj_fields(r@) =~= seq![
            (
                "patterns"@,
                JsonData::Arr(Seq::new(patterns@.len(), |i: int| pattern_item(patterns@[i]@))),
            ),
        ]);
    }
    r
}

/// Pick the handler for an incoming route: the most recently registered
/// entry. A bounded entry counts down one use; at its last use it is
/// removed. With no entry registered, no handler runs.
pub fn select_route_handler(routes: &mut Vec<RouteEntry>) -> (r: Option<u64>)
    ensures
        old(routes)@.len() == 0 ==> r is None && final(routes)@ == old(routes)@,
        old(routes)@.len() > 0 ==> {
            let last = old(routes)@.last();
            &&& r == Some(last.handler)
            &&& (match last.times {
                None => final(routes)@ == old(routes)@,
                Some(t) => if t <= 1 {
                    final(routes)@ == old(routes)@.drop_last()
                } else {
                    final(routes)@ == old(routes)@.update(
                        old(routes)@.len() - 1,
                        RouteEntry {
                            pattern: old(routes)@.last().pattern,
                            times: Some((t - 1) as u32),
                            handler: old(routes)@.last().handler,
                        },
                    )
                },
            })
        },
{
    if routes.len() == 0 {
        return None;
    }
    let idx = routes.len() - 1;
    let handler = routes[idx].handler;
    let times = routes[idx].times;
    match times {
        None => Some(handler),
        Some(t) => {
            if t <= 1 {
                let _ = routes.pop();
                proof {
                    assert(routes@ =~= old(routes)@.drop_last());
                }
                Some(handler)
            } else {
                let entry = routes.remove(idx);
                let updated = RouteEntry {
                    pattern: entry.pattern,
                    times: Some(t - 1),
                    handler: entry.handler,
                };
                routes.insert(idx, updated);
                proof {
                    assert(routes@ =~= old(routes)@.update(
                        old(routes)@.len() - 1,
                        RouteEntry {
                            pattern: old(routes)@.last().pattern,
                            times: Some((t - 1) as u32),
                            handler: old(routes)@.last().handler,
                        },
                    ));
                }
                Some(handler)
            }
        },
    }
}

/// The most recently registered websocket route whose pattern matches the
/// url, if any.
pub open spec fn last_ws_match(s: Seq<WebSocketRouteEntry>, url: Seq<char>) -> Option<u64>
    decreases s.len(),
{
    if s.len() == 0 {
        None
    } else if pattern_matches(s.last().pattern@, url) {
        Some(s.last().handler)
    } else {
        last_ws_match(s.drop_last(), url)
    }
}

/// Pick the handler for an incoming websocket route: the most recently
/// registered entry whose pattern matches the url.
pub fn select_ws_route_handler(entries: &Vec<WebSocketRouteEntry>, url: &str) -> (r: Option<u64>)
    ensures
        r == last_ws_match(entries@, url@),
{
    let mut i: usize = entries.len();
    proof {
        assert(entries@.subrange(0, entries@.len() as int) =~= entries@);
    }
    while i > 0
        invariant
            i <= entries@.len(),
            last_ws_match(entries@, url@) == last_ws_match(
                entries@.subrange(0, i as int),
                url@,
            ),
        decreases i,
    {
        i = i - 1;
        proof {
            assert(entries@.subrange(0, i + 1).last() == entries@[i as int]);
            assert(entries@.subrange(0, i + 1).drop_last() =~= entries@.subrange(0, i as int));
        }
        if ws_matches(&entries[i].pattern, url) {
            return Some(entries[i].handler);
        }
    }
    proof {
        assert(entries@.subrange(0, 0) =~= Seq::<WebSocketRouteEntry>::empty());
    }
    None
}

/// The guid a node-bearing event payload points at: the first of the given
/// keys that is bound wins and must hold `{guid}`; with none bound, a payload
/// of exactly one field holds it; anything else is malformed.
pub open spec fn guid_from_keys_data(params: JsonData, keys: Seq<Seq<char>>) -> Result<
    Seq<char>,
    (),
>
    decreases keys.len(),
{
    if keys.len() > 0 {
        match json_field(params, keys.first()) {
            Some(v) => match json_field(v, "guid"@) {
                Some(JsonData::Str(g)) => Ok(g),
                _ => Err(()),
            },
            None => guid_from_keys_data(params, keys.drop_first()),
        }
    } else {
        if obj_fields(params).len() == 1 {
            match json_field(obj_fields(params)[0].1, "guid"@) {
                Some(JsonData::Str(g)) => Ok(g),
                _ => Err(()),
            }
        } else {
            Err(())
        }
    }
}

fn guid_of_value(v: &JsonValue) -> (r: Result<String, crate::error::Error>)
    ensures
        match r {
            Ok(g) => json_field(v@, "guid"@) == Some(JsonData::Str(g@)),
            Err(e) => !(json_field(v@, "guid"@) matches Some(JsonData::Str(_))) && e
                is InvalidParams,
        },
{
    match v.get("guid") {
        Some(g) => match g.as_str() {
            Some(s) => Ok(s.clone()),
            None => Err(crate::error::Error::InvalidParams),
        },
        None => Err(crate::error::Error::InvalidParams),
    }
}

/// Read the guid an event payload points at, trying one key.
pub fn guid_from_key(params: &JsonValue, key: &str) -> (r: Result<String, crate::error::Error>)
    ensures
        match r {
            Ok(g) => guid_from_keys_data(params@, seq![key@]) == Ok::<Seq<char>, ()>(g@),
            Err(e) => guid_from_keys_data(params@, seq![key@]) is Err && e is InvalidParams,
        },
{
    proof {
        assert(seq![key@].first() == key@);
    }
    match params.get(key) {
        Some(v) => guid_of_value(v),
        None => {
            proof {
                assert(seq![key@].drop_first() =~= Seq::<Seq<char>>::empty());
                assert(guid_from_keys_data(params@, seq![key@]) == guid_from_keys_data(
                    params@,
                    Seq::<Seq<char>>::empty(),
                ));
            }
            match params.first_field() {
                Some(v) => guid_of_value(v),
                None => Err(crate::error::Error::InvalidParams),
            }
        },
    }
}

/// The guid an event payload points at, trying up to three keys in order.
pub fn guid_from_key3(params: &JsonValue, k1: &str, k2: &str, k3: &str) -> (r: Result<
    String,
    crate::error::Error,
>)
    ensures
        match r {
            Ok(g) => guid_from_keys_data(params@, seq![k1@, k2@, k3@]) == Ok::<Seq<char>, ()>(g@),
            Err(e) => guid_from_keys_data(params@, seq![k1@, k2@, k3@]) is Err && e
                is InvalidParams,
        },
{
    proof {
        assert(seq![k1@, k2@, k3@].drop_first() =~= seq![k2@, k3@]);
        assert(seq![k2@, k3@].drop_first() =~= seq![k3@]);
        assert(seq![k3@].drop_first() =~= Seq::<Seq<char>>::empty());
        assert(seq![k1@, k2@, k3@].first() == k1@);
        assert(seq![k2@, k3@].first() == k2@);
        assert(seq![k3@].first() == k3@);
        if json_field(params@, k1@) is None {
            assert(guid_from_keys_data(params@, seq![k1@, k2@, k3@]) == guid_from_keys_data(
                params@,
                seq![k2@, k3@],
            ));
            if json_field(params@, k2@) is None {
                assert(guid_from_keys_data(params@, seq![k2@, k3@]) == guid_from_keys_data(
                    params@,
                    seq![k3@],
                ));
                if json_field(params@, k3@) is None {
                    assert(guid_from_keys_data(params@, seq![k3@]) == guid_from_keys_data(
                        params@,
                        Seq::<Seq<char>>::empty(),
                    ));
                }
            }
        }
    }
    match params.get(k1) {
        Some(v) => guid_of_value(v),
        None => match params.get(k2) {
            Some(v) => guid_of_value(v),
            None => match params.get(k3) {
                Some(v) => guid_of_value(v),
                None => match params.first_field() {
                    Some(v) => guid_of_value(v),
                    None => Err(crate::error::Error::InvalidParams),
                },
            },
        },
    }
}

/// What an error payload `{error: {name, message, stack}}` reads as: the
/// name, then `: ` and the message when both are there, then a line break
/// and the stack when one is there; an absent error field reads as empty;
/// a present field of the wrong shape is malformed.
pub open spec fn error_text_data(v: JsonData) -> Result<Seq<char>, ()> {
    match json_field(v, "error"@) {
        None => if v is Obj {
            Ok(Seq::empty())
        } else {
            Err(())
        },
        Some(e) => {
            if !(e is Obj) {
                Err(())
            } else {
                let name: Result<Option<Seq<char>>, ()> = match json_field(e, "name"@) {
                    Some(JsonData::Str(s)) => Ok(Some(s)),
                    Some(JsonData::Null) => Ok(None),
                    Some(_) => Err(()),
                    None => Ok(None),
                };
                let message: Result<Option<Seq<char>>, ()> = match json_field(e, "message"@) {
                    Some(JsonData::Str(s)) => Ok(Some(s)),
                    Some(JsonData::Null) => Ok(None),
                    Some(_) => Err(()),
                    None => Ok(None),
                };
                let stack: Result<Option<Seq<char>>, ()> = match json_field(e, "stack"@) {
                    Some(JsonData::Str(s)) => Ok(Some(s)),
                    Some(JsonData::Null) => Ok(None),
                    Some(_) => Err(()),
                    None => Ok(None),
                };
                match (name, message, stack) {
                    (Ok(n), Ok(m), Ok(st)) => Ok(composed_error_text(n, m, st)),
                    _ => Err(()),
                }
            }
        },
    }
}

/// Compose the printable text of a remote error.
pub open spec fn composed_error_text(
    name: Option<Seq<char>>,
    message: Option<Seq<char>>,
    stack: Option<Seq<char>>,
) -> Seq<char> {
    let s0: Seq<char> = match name {
        Some(n) => n,
        None => Seq::empty(),
    };
    let s1: Seq<char> = match message {
        Some(m) => if s0.len() > 0 {
            s0 + ": "@ + m
        } else {
            s0 + m
        },
        None => s0,
    };
    match stack {
        Some(st) => if st.len() > 0 {
            s1 + "\n"@ + st
        } else {
            s1
        },
        None => s1,
    }
}

fn opt_str_field(v: &JsonValue, key: &str) -> (r: Result<Option<String>, crate::error::Error>)
    ensures
        match r {
            Ok(Some(s)) => json_field(v@, key@) == Some(JsonData::Str(s@)),
            Ok(None) => json_field(v@, key@) is None || json_field(v@, key@) == Some(
                JsonData::Null,
            ),
            Err(e) => e is InvalidParams && (match json_field(v@, key@) {
                Some(JsonData::Str(_)) => false,
                Some(JsonData::Null) => false,
                Some(_) => true,
                None => false,
            }),
        },
{
    match v.get(key) {
        Some(f) => match f.as_str() {
            Some(s) => Ok(Some(s.clone())),
            None => {
                if f.is_null() {
                    Ok(None)
                } else {
                    Err(crate::error::Error::InvalidParams)
                }
            },
        },
        None => Ok(None),
    }
}

/// Read an error payload into its printable text.
pub fn format_error_value(v: &JsonValue) -> (r: Result<String, crate::error::Error>)
    ensures
        match r {
            Ok(s) => error_text_data(v@) == Ok::<Seq<char>, ()>(s@),
            Err(e) => error_text_data(v@) is Err && e is InvalidParams,
        },
{
    let inner = match v.get("error") {
        None => {
            if v.is_obj() {
                return Ok(String::new());
            } else {
                return Err(crate::error::Error::InvalidParams);
            }
        },
        Some(e) => e,
    };
    if !inner.is_obj() {
        return Err(crate::error::Error::InvalidParams);
    }
    let name = opt_str_field(inner, "name")?;
    let message = opt_str_field(inner, "message")?;
    let stack = opt_str_field(inner, "stack")?;
    let ghost nd: Option<Seq<char>> = match name {
        Some(ref s) => Some(s@),
        None => None,
    };
    let ghost md: Option<Seq<char>> = match message {
        Some(ref s) => Some(s@),
        None => None,
    };
    let ghost sd: Option<Seq<char>> = match stack {
        Some(ref s) => Some(s@),
        None => None,
    };
    let mut out = String::new();
    let mut has_name = false;
    match name {
        Some(n) => {
            out.append(n.as_str());
            has_name = n.unicode_len() > 0;
        },
        None => {},
    }
    proof {
        assert(has_name == (out@.len() > 0));
    }
    match message {
        Some(m) => {
            if has_name {
                out.append(": ");
            }
            out.append(m.as_str());
        },
        None => {},
    }
    match stack {
        Some(st) => {
            if st.unicode_len() > 0 {
                out.append("\n");
                out.append(st.as_str());
            }
        },
        None => {},
    }
    proof {
        reveal_strlit(": ");
        reveal_strlit("\n");
        assert(out@ =~= composed_error_text(nd, md, sd));
    }
    Ok(out)
}


/// The patterns of a route list, in registration order.
pub open spec fn route_pattern_views(routes: Seq<RouteEntry>) -> Seq<RoutePatternData> {
    Seq::new(routes.len(), |i: int| routes[i].pattern@)
}

/// The `{patterns}` message announcing a route list's distinct patterns.
pub open spec fn patterns_message(routes: Seq<RouteEntry>) -> JsonData {
    JsonData::Obj(
        seq![
            (
                "patterns"@,
                JsonData::Arr(
                    Seq::new(
                        dedup_patterns(route_pattern_views(routes)).len(),
                        |k: int| pattern_item(dedup_patterns(route_pattern_views(routes))[k]),
                    ),
                ),
            ),
        ],
    )
}

impl crate::context::Context {
    /// Find a browsing-context node by guid: its index when the guid names
    /// one, the gone error otherwise.
    fn bc_with(&self, guid: &str) -> (r: Result<usize, crate::error::Error>)
        requires
            self.wf(),
        ensures
            match r {
                Ok(i) => i < self.objects@.len() && self.objects@[i as int] is BrowserContext
                    && self.objects@[i as int].guid_data() == guid@ && crate::context::index_of_guid(
                    self.objects@,
                    guid@,
                ) == i as int,
                Err(e) => e is ObjectNotFound && !(crate::context::has_guid(self.objects@, guid@)
                    && self.objects@[crate::context::index_of_guid(self.objects@, guid@)]
                    is BrowserContext),
            },
    {
        let i = match self.find_index(guid) {
            Some(i) => i,
            None => {
                return Err(crate::error::Error::ObjectNotFound);
            },
        };
        proof {
            crate::context::lemma_guid_index_unique(self.objects@, guid@, i as int);
        }
        if self.objects[i].is_bc() {
            Ok(i)
        } else {
            Err(crate::error::Error::ObjectNotFound)
        }
    }

    /// Register one network route on a browsing context and hand back the
    /// interception patterns the driver must now be told: the distinct
    /// patterns of all registered routes, in registration order.
    pub fn bc_add_route(
        &mut self,
        guid: &str,
        pattern: RoutePattern,
        times: Option<u32>,
        handler: u64,
    ) -> (r: Result<JsonValue, crate::error::Error>)
        requires
            old(self).wf(),
        ensures
            final(self).wf(),
            final(self).callbacks@ == old(self).callbacks@,
            final(self).last_id == old(self).last_id,
            match r {
                Ok(msg) => ({
                    let i = crate::context::index_of_guid(old(self).objects@, guid@);
                    &&& crate::context::has_guid(old(self).objects@, guid@)
                    &&& old(self).objects@[i] is BrowserContext
                    &&& final(self).objects@.len() == old(self).objects@.len()
                    &&& (forall|k: int|
                        0 <= k < old(self).objects@.len() && k != i ==> final(self).objects@[k]
                            == #[trigger] old(self).objects@[k])
                    &&& crate::context::bc_stepped(
                        old(self).objects@[i],
                        final(self).objects@[i],
                        old(self).objects@[i].bc_pages(),
                        old(self).objects@[i].bc_routes().push(
                            RouteEntry { pattern, times, handler },
                        ),
                        old(self).objects@[i].bc_ws_routes(),
                        None,
                    )
                    &&& msg@ == patterns_message(final(self).objects@[i].bc_routes())
                }),
                Err(e) => e is ObjectNotFound && final(self).objects@ == old(self).objects@,
            },
    {
        let i = self.bc_with(guid)?;
        let o = self.objects.remove(i);
        match o {
            crate::remote::RemoteObject::BrowserContext {
                channel,
                browser,
                pages,
                timeout,
                navigation_timeout,
                tracing,
                request_context,
                mut routes,
                websocket_routes,
                events,
            } => {
                routes.push(RouteEntry { pattern, times, handler });
                let ps = route_patterns(&routes);
                let msg = patterns_params(&ps);
                proof {
                    let dd = dedup_patterns(route_pattern_views(routes@));
                    assert(route_pattern_views(routes@) =~= Seq::new(
                        routes@.len(),
                        |k: int| routes@[k].pattern@,
                    ));
                    assert(Seq::new(ps@.len(), |k: int| pattern_item(ps@[k]@)) =~= Seq::new(
                        dd.len(),
                        |k: int| pattern_item(dd[k]),
                    ));
                    assert(obj_fields(msg@) =~= obj_fields(patterns_message(routes@)));
                    assert(msg@ == patterns_message(routes@));
                }
                let o2 = crate::remote::RemoteObject::BrowserContext {
                    channel,
                    browser,
                    pages,
                    timeout,
                    navigation_timeout,
                    tracing,
                    request_context,
                    routes,
                    websocket_routes,
                    events,
                };
                self.objects.insert(i, o2);
                proof {
                    assert(self.objects@ =~= old(self).objects@.update(
                        i as int,
                        self.objects@[i as int],
                    ));
                    crate::context::lemma_wf_update_same_ids(
                        old(self).objects@,
                        i as int,
                        self.objects@[i as int],
                    );
                }
                Ok(msg)
            },
            other => {
                self.objects.insert(i, other);
                proof {
                    assert(false);
                }
                Err(crate::error::Error::ObjectNotFound)
            },
        }
    }

    /// Register one websocket route on a browsing context and hand back the
    /// websocket interception patterns the driver must now be told.
    pub fn bc_add_ws_route(&mut self, guid: &str, pattern: RoutePattern, handler: u64) -> (r:
        Result<JsonValue, crate::error::Error>)
        requires
            old(self).wf(),
        ensures
            final(self).wf(),
            final(self).callbacks@ == old(self).callbacks@,
            final(self).last_id == old(self).last_id,
            match r {
                Ok(msg) => ({
                    let i = crate::context::index_of_guid(old(self).objects@, guid@);
                    &&& crate::context::has_guid(old(self).objects@, guid@)
                    &&& old(self).objects@[i] is BrowserContext
                    &&& final(self).objects@.len() == old(self).objects@.len()
                    &&& (forall|k: int|
                        0 <= k < old(self).objects@.len() && k != i ==> final(self).objects@[k]
                            == #[trigger] old(self).objects@[k])
                    &&& crate::context::bc_stepped(
                        old(self).objects@[i],
                        final(self).objects@[i],
                        old(self).objects@[i].bc_pages(),
                        old(self).objects@[i].bc_routes(),
                        old(self).objects@[i].bc_ws_routes().push(
                            WebSocketRouteEntry { pattern, handler },
                        ),
                        None,
                    )
                }),
                Err(e) => e is ObjectNotFound && final(self).objects@ == old(self).objects@,
            },
    {
        let i = self.bc_with(guid)?;
        let o = self.objects.remove(i);
        match o {
            crate::remote::RemoteObject::BrowserContext {
                channel,
                browser,
                pages,
                timeout,
                navigation_timeout,
                tracing,
                request_context,
                routes,
                mut websocket_routes,
                events,
            } => {
                websocket_routes.push(WebSocketRouteEntry { pattern, handler });
                let mut ps: Vec<RoutePattern> = Vec::new();
                let mut k: usize = 0;
                while k < websocket_routes.len()
                    invariant
                        k <= websocket_routes@.len(),
                    decreases websocket_routes@.len() - k,
                {
                    ps.push(
                        match &websocket_routes[k].pattern {
                            RoutePattern::Glob(g) => RoutePattern::Glob(g.clone()),
                            RoutePattern::Regex(s, f) => RoutePattern::Regex(s.clone(), f.clone()),
                        },
                    );
                    k += 1;
                }
                let msg = patterns_params(&ps);
                let o2 = crate::remote::RemoteObject::BrowserContext {
                    channel,
                    browser,
                    pages,
                    timeout,
                    navigation_timeout,
                    tracing,
                    request_context,
                    routes,
                    websocket_routes,
                    events,
                };
                self.objects.insert(i, o2);
                proof {
                    assert(self.objects@ =~= old(self).objects@.update(
                        i as int,
                        self.objects@[i as int],
                    ));
                    crate::context::lemma_wf_update_same_ids(
                        old(self).objects@,
                        i as int,
                        self.objects@[i as int],
                    );
                }
                Ok(msg)
            },
            other => {
                self.objects.insert(i, other);
                proof {
                    assert(false);
                }
                Err(crate::error::Error::ObjectNotFound)
            },
        }
    }

    /// Subscribe to a browsing context's events: a subscriber created now
    /// sees only events emitted after this call.
    pub fn bc_subscribe(&mut self, guid: &str, capacity: usize) -> (r: Result<
        usize,
        crate::error::Error,
    >)
        requires
            old(self).wf(),
            capacity >= 1,
        ensures
            final(self).wf(),
            final(self).callbacks@ == old(self).callbacks@,
            final(self).last_id == old(self).last_id,
            match r {
                Ok(sub) => ({
                    let i = crate::context::index_of_guid(old(self).objects@, guid@);
                    &&& crate::context::has_guid(old(self).objects@, guid@)
                    &&& old(self).objects@[i] is BrowserContext
                    &&& final(self).objects@.len() == old(self).objects@.len()
                    &&& (forall|k: int|
                        0 <= k < old(self).objects@.len() && k != i ==> final(self).objects@[k]
                            == #[trigger] old(self).objects@[k])
                    &&& final(self).objects@[i] is BrowserContext
                    &&& final(self).objects@[i].bc_core() == old(self).objects@[i].bc_core()
                    &&& final(self).objects@[i].bc_log() == old(self).objects@[i].bc_log()
                    &&& final(self).objects@[i].bc_subs() == old(self).objects@[i].bc_subs().push(
                        crate::emitter::Subscriber {
                            cursor: old(self).objects@[i].bc_log().len() as usize,
                            capacity,
                        },
                    )
                    &&& sub == old(self).objects@[i].bc_subs().len()
                }),
                Err(e) => e is ObjectNotFound && final(self).objects@ == old(self).objects@,
            },
    {
        let i = self.bc_with(guid)?;
        let o = self.objects.remove(i);
        match o {
            crate::remote::RemoteObject::BrowserContext {
                channel,
                browser,
                pages,
                timeout,
                navigation_timeout,
                tracing,
                request_context,
                routes,
                websocket_routes,
                mut events,
            } => {
                let sub = events.subscribe(capacity);
                let o2 = crate::remote::RemoteObject::BrowserContext {
                    channel,
                    browser,
                    pages,
                    timeout,
                    navigation_timeout,
                    tracing,
                    request_context,
                    routes,
                    websocket_routes,
                    events,
                };
                self.objects.insert(i, o2);
                proof {
                    assert(self.objects@ =~= old(self).objects@.update(
                        i as int,
                        self.objects@[i as int],
                    ));
                    crate::context::lemma_wf_update_same_ids(
                        old(self).objects@,
                        i as int,
                        self.objects@[i as int],
                    );
                }
                Ok(sub)
            },
            other => {
                self.objects.insert(i, other);
                proof {
                    assert(false);
                }
                Err(crate::error::Error::ObjectNotFound)
            },
        }
    }

    /// Take one subscriber's next event index on a browsing context, if an
    /// event is waiting.
    pub fn bc_poll(&mut self, guid: &str, sub: usize) -> (r: Result<
        Option<usize>,
        crate::error::Error,
    >)
        requires
            old(self).wf(),
        ensures
            final(self).wf(),
            final(self).callbacks@ == old(self).callbacks@,
            final(self).last_id == old(self).last_id,
            match r {
                Ok(got) => ({
                    let i = crate::context::index_of_guid(old(self).objects@, guid@);
                    &&& crate::context::has_guid(old(self).objects@, guid@)
                    &&& old(self).objects@[i] is BrowserContext
                    &&& sub < old(self).objects@[i].bc_subs().len()
                    &&& final(self).objects@.len() == old(self).objects@.len()
                    &&& (forall|k: int|
                        0 <= k < old(self).objects@.len() && k != i ==> final(self).objects@[k]
                            == #[trigger] old(self).objects@[k])
                    &&& final(self).objects@[i] is BrowserContext
                    &&& final(self).objects@[i].bc_log() == old(self).objects@[i].bc_log()
                    &&& ({
                        let c = crate::emitter::catch_up(
                            old(self).objects@[i].bc_subs()[sub as int],
                            old(self).objects@[i].bc_log().len(),
                        );
                        if c < old(self).objects@[i].bc_log().len() {
                            got == Some(c as usize)
                        } else {
                            got is None
                        }
                    })
                }),
                Err(e) => e is ObjectNotFound && final(self).objects@ == old(self).objects@,
            },
    {
        let i = self.bc_with(guid)?;
        let o = self.objects.remove(i);
        match o {
            crate::remote::RemoteObject::BrowserContext {
                channel,
                browser,
                pages,
                timeout,
                navigation_timeout,
                tracing,
                request_context,
                routes,
                websocket_routes,
                mut events,
            } => {
                if sub >= events.subscriber_count() {
                    let o2 = crate::remote::RemoteObject::BrowserContext {
                        channel,
                        browser,
                        pages,
                        timeout,
                        navigation_timeout,
                        tracing,
                        request_context,
                        routes,
                        websocket_routes,
                        events,
                    };
                    self.objects.insert(i, o2);
                    proof {
                        assert(self.objects@ =~= old(self).objects@);
                    }
                    return Err(crate::error::Error::ObjectNotFound);
                }
                let got = events.try_recv(sub);
                let o2 = crate::remote::RemoteObject::BrowserContext {
                    channel,
                    browser,
                    pages,
                    timeout,
                    navigation_timeout,
                    tracing,
                    request_context,
                    routes,
                    websocket_routes,
                    events,
                };
                self.objects.insert(i, o2);
                proof {
                    assert(self.objects@ =~= old(self).objects@.update(
                        i as int,
                        self.objects@[i as int],
                    ));
                    crate::context::lemma_wf_update_same_ids(
                        old(self).objects@,
                        i as int,
                        self.objects@[i as int],
                    );
                }
                Ok(got)
            },
            other => {
                self.objects.insert(i, other);
                proof {
                    assert(false);
                }
                Err(crate::error::Error::ObjectNotFound)
            },
        }
    }
}

/// The kind of a context event, without its payload.
#[derive(Clone, Copy, PartialEq, Eq, Structural, Debug)]
pub enum EventType {
    Close,
    Page,
    Route,
    Console,
    Request,
    RequestFailed,
    RequestFinished,
    Response,
    WebError,
}

impl ContextEvent {
    /// The event's kind.
    pub fn event_type(&self) -> (r: EventType)
        ensures
            r == (match self {
                ContextEvent::Close => EventType::Close,
                ContextEvent::Page(_) => EventType::Page,
                ContextEvent::Route(_) => EventType::Route,
                ContextEvent::Console(_) => EventType::Console,
                ContextEvent::Request(_) => EventType::Request,
                ContextEvent::RequestFailed(_) => EventType::RequestFailed,
                ContextEvent::RequestFinished(_) => EventType::RequestFinished,
                ContextEvent::Response(_) => EventType::Response,
                ContextEvent::WebError { .. } => EventType::WebError,
            }),
    {
        match self {
            ContextEvent::Close => EventType::Close,
            ContextEvent::Page(_) => EventType::Page,
            ContextEvent::Route(_) => EventType::Route,
            ContextEvent::Console(_) => EventType::Console,
            ContextEvent::Request(_) => EventType::Request,
            ContextEvent::RequestFailed(_) => EventType::RequestFailed,
            ContextEvent::RequestFinished(_) => EventType::RequestFinished,
            ContextEvent::Response(_) => EventType::Response,
            ContextEvent::WebError { .. } => EventType::WebError,
        }
    }
}

} // verus!
