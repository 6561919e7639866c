//! The tool bridge offered to the chat page: which pages get it, how its
//! requests are routed, and how each asynchronous result finds the call it
//! answers.
use crate::settings_path::{find_member, lemma_find_member, JsonValue, JsonView};
use crate::text::{chars_of, str_eq, string_of_range};
use std::collections::HashMap;
use vstd::prelude::*;
use vstd::string::*;

verus! {

broadcast use vstd::std_specs::hash::group_hash_axioms;

/// The index of the first of '/', '?' and '#' in `s` at or after `i`, or its length.
pub open spec fn authority_end(s: Seq<char>, i: int) -> int
    decreases s.len() - i,
{
    if i < 0 || i >= s.len() {
        s.len() as int
    } else if s[i] == '/' || s[i] == '?' || s[i] == '#' {
        i
    } else {
        authority_end(s, i + 1)
    }
}

/// Whether `url` is the chat page: an `https://` URL whose authority (up to
/// the first '/', '?' or '#') is the production host or the local one with its port.
pub open spec fn spec_is_chat_origin(url: Seq<char>) -> bool {
    let p = "https://"@;
    if url.len() >= p.len() && url.subrange(0, p.len() as int) == p {
        let rest = url.subrange(p.len() as int, url.len() as int);
        let a = rest.subrange(0, authority_end(rest, 0));
        a == "chat.mistral.ai"@ || a == "chat.local.mistral.ai:8443"@
    } else {
        false
    }
}

/// Whether `url` is the chat page (see `spec_is_chat_origin`).
pub fn is_chat_origin(url: &str) -> (r: bool)
    ensures
        r == spec_is_chat_origin(url@),
{
    let cs = chars_of(url);
    let p = chars_of("https://");
    proof {
        reveal_strlit("https://");
    }
    if cs.len() < 8 {
        return false;
    }
    let mut k: usize = 0;
    while k < 8
        invariant
            cs@ == url@,
            p@ == "https://"@,
            p@.len() == 8,
            cs@.len() >= 8,
            k <= 8,
            forall|j: int| 0 <= j < k ==> cs@[j] == p@[j],
        decreases 8 - k,
    {
        if cs[k] != p[k] {
            assert(cs@.subrange(0, 8)[k as int] != p@[k as int]);
            return false;
        }
        k = k + 1;
    }
    assert(url@.subrange(0, 8) =~= p@);
    let ghost rest = url@.subrange(8, url@.len() as int);
    let mut e: usize = 8;
    while e < cs.len() && cs[e] != '/' && cs[e] != '?' && cs[e] != '#'
        invariant
            cs@ == url@,
            8 <= e <= cs@.len(),
            rest == url@.subrange(8, url@.len() as int),
            authority_end(rest, 0) == authority_end(rest, e - 8),
        decreases cs@.len() - e,
    {
        e = e + 1;
    }
    let a = string_of_range(&cs, 8, e);
    assert(a@ =~= rest.subrange(0, authority_end(rest, 0)));
    str_eq(a.as_str(), "chat.mistral.ai") || str_eq(a.as_str(), "chat.local.mistral.ai:8443")
}

/// The channel the chat page's bridge requests come on.
pub open spec fn bridge_channel() -> Seq<char> {
    "le-chat-mcp"@
}

/// What a request from the chat page asks for.
#[derive(Clone, Debug, PartialEq, Eq)]
pub enum BridgeAction {
    /// A request on another channel, not the bridge's.
    Ignore,
    /// The list of tools.
    ListTools,
    /// A tool call.
    CallTool,
    /// A method the bridge does not know, answered with this error.
    Unknown(String),
}

/// What a request on `channel` for `method` asks for: nothing off the
/// bridge's channel; `listTools` and `callTool`; any other method an
/// `unknown method` error.
pub fn bridge_request_action(channel: &str, method: &str) -> (a: BridgeAction)
    ensures
        channel@ != bridge_channel() ==> a == BridgeAction::Ignore,
        channel@ == bridge_channel() ==> if method@ == "listTools"@ {
            a == BridgeAction::ListTools
        } else if method@ == "callTool"@ {
            a == BridgeAction::CallTool
        } else {
            a matches BridgeAction::Unknown(m) && m@ == "unknown method: "@ + method@
        },
{
    if !str_eq(channel, "le-chat-mcp") {
        return BridgeAction::Ignore;
    }
    if str_eq(method, "listTools") {
        BridgeAction::ListTools
    } else if str_eq(method, "callTool") {
        BridgeAction::CallTool
    } else {
        BridgeAction::Unknown("unknown method: ".to_owned().concat(method))
    }
}

/// The payload that resolves the page's call `id` with `result`.
pub fn delivery_result(id: &str, result: JsonValue) -> (v: JsonValue)
    ensures
        v.view() == JsonView::Object(seq![("id"@, JsonView::Str(id@)), ("result"@, result.view())]),
{
    let ghost rv = result.view();
    let mut es: Vec<(String, JsonValue)> = Vec::new();
    es.push(("id".to_owned(), JsonValue::Str(id.to_owned())));
    es.push(("result".to_owned(), result));
    proof {
        crate::settings_path::lemma_object_view_pub(es);
        assert(crate::settings_path::members_view(es@) =~= seq![
            ("id"@, JsonView::Str(id@)),
            ("result"@, rv),
        ]);
    }
    JsonValue::Object(es)
}

/// The payload that rejects the page's call `id` with `message`.
pub fn delivery_error(id: &str, message: String) -> (v: JsonValue)
    ensures
        v.view() == JsonView::Object(
            seq![("id"@, JsonView::Str(id@)), ("error"@, JsonView::Str(message@))],
        ),
{
    let ghost mv = message@;
    let mut es: Vec<(String, JsonValue)> = Vec::new();
    es.push(("id".to_owned(), JsonValue::Str(id.to_owned())));
    es.push(("error".to_owned(), JsonValue::Str(message)));
    proof {
        crate::settings_path::lemma_object_view_pub(es);
        assert(crate::settings_path::members_view(es@) =~= seq![
            ("id"@, JsonView::Str(id@)),
            ("error"@, JsonView::Str(mv)),
        ]);
    }
    JsonValue::Object(es)
}

/// The member `name` of an object view, if it has one.
pub open spec fn member(v: JsonView, name: Seq<char>) -> Option<JsonView> {
    match v {
        JsonView::Object(es) => match find_member(es, name) {
            Some(i) => Some(es[i].1),
            None => None,
        },
        _ => None,
    }
}

/// The tool name and arguments of a `callTool` request: `name` must be a
/// string; `arguments` is taken as given, or an empty object when missing.
pub open spec fn spec_call_tool_params(params: JsonView) -> Result<(Seq<char>, JsonView), Seq<char>> {
    match member(params, "name"@) {
        Some(JsonView::Str(name)) => Ok(
            (
                name,
                match member(params, "arguments"@) {
                    Some(a) => a,
                    None => JsonView::Object(Seq::empty()),
                },
            ),
        ),
        _ => Err("callTool missing name"@),
    }
}

/// The tool name and arguments of a `callTool` request (see `spec_call_tool_params`).
pub fn call_tool_params(params: JsonValue) -> (r: Result<(String, JsonValue), String>)
    ensures
        match r {
            Ok((rn, ra)) => spec_call_tool_params(params.view()) == Ok::<
                (Seq<char>, JsonView),
                Seq<char>,
            >((rn@, ra.view())),
            Err(m) => spec_call_tool_params(params.view()) == Err::<(Seq<char>, JsonView), Seq<char>>(
                m@,
            ),
        },
{
    let name = match params.get_field("name") {
        Some(JsonValue::Str(n)) => n.clone(),
        _ => {
            proof {
                match params.view() {
                    JsonView::Object(es) => {
                        lemma_find_member(es, "name"@);
                    },
                    _ => {},
                }
            }
            return Err("callTool missing name".to_owned());
        },
    };
    proof {
        match params.view() {
            JsonView::Object(es) => {
                lemma_find_member(es, "name"@);
                lemma_find_member(es, "arguments"@);
            },
            _ => {},
        }
    }
    let ghost pv = params.view();
    match params {
        JsonValue::Object(mut es) => {
            proof {
                crate::settings_path::lemma_object_view_pub(es);
            }
            let ghost m = crate::settings_path::members_view(es@);
            assert(pv == JsonView::Object(m));
            let mut i: usize = 0;
            let mut found: Option<usize> = None;
            while i < es.len() && found.is_none()
                invariant
                    i <= es@.len(),
                    m == crate::settings_path::members_view(es@),
                    found is None ==> forall|j: int| 0 <= j < i ==> #[trigger] m[j].0 != "arguments"@,
                    found matches Some(k) ==> k < es@.len() && m[k as int].0 == "arguments"@
                        && forall|j: int| 0 <= j < k ==> #[trigger] m[j].0 != "arguments"@,
                decreases es@.len() - i + (if found is None {
                    1int
                } else {
                    0int
                }),
            {
                if str_eq(es[i].0.as_str(), "arguments") {
                    assert(m[i as int].0 == "arguments"@);
                    found = Some(i);
                } else {
                    assert(m[i as int].0 != "arguments"@);
                    i = i + 1;
                }
            }
            proof {
                lemma_find_member(m, "arguments"@);
            }
            if let Some(k) = found {
                let ghost old_es = es@;
                let (_, a) = es.remove(k);
                proof {
                    let f = find_member(m, "arguments"@);
                    match f {
                        Some(x) => {
                            if x < k {
                                assert(m[x].0 != "arguments"@);
                            } else if x > k {
                                assert(m[k as int].0 != "arguments"@);
                            }
                        },
                        None => {
                            assert(m[k as int].0 != "arguments"@);
                        },
                    }
                    assert(a == old_es[k as int].1);
                    assert(m[k as int].1 == a.view());
                }
                return Ok((name, a));
            }
            let no_members: Vec<(String, JsonValue)> = Vec::new();
            proof {
                crate::settings_path::lemma_object_view_pub(no_members);
                assert(crate::settings_path::members_view(no_members@)
                    =~= Seq::<(Seq<char>, JsonView)>::empty());
            }
            let empty = JsonValue::Object(no_members);
            Ok((name, empty))
        },
        _ => {
            assert(false);
            Err("callTool missing name".to_owned())
        },
    }
}

/// The `callTool` calls awaiting their results: for each request id sent to
/// the service, the page view that asked and the id of its call.
#[derive(Debug)]
pub struct PendingBridgeCalls {
    pub calls: HashMap<u128, (u64, String)>,
}

impl PendingBridgeCalls {
    /// Nothing awaited.
    pub fn new() -> (p: Self)
        ensures
            p.calls@ == Map::<u128, (u64, String)>::empty(),
    {
        PendingBridgeCalls { calls: HashMap::new() }
    }

    /// Records that the call `bridge_id` of `webview` awaits the result of `request_id`.
    pub fn register(&mut self, request_id: u128, webview: u64, bridge_id: String)
        ensures
            final(self).calls@ == old(self).calls@.insert(request_id, (webview, bridge_id)),
    {
        self.calls.insert(request_id, (webview, bridge_id));
    }

    /// The call a result of `request_id` answers, which no longer awaits;
    /// nothing for a result no call awaits.
    pub fn take(&mut self, request_id: u128) -> (r: Option<(u64, String)>)
        ensures
            final(self).calls@ == old(self).calls@.remove(request_id),
            r == (if old(self).calls@.contains_key(request_id) {
                Some(old(self).calls@[request_id])
            } else {
                None
            }),
    {
        self.calls.remove(&request_id)
    }
}

/// A result is delivered to the call that registered its request id, and
/// only once: after it is taken, a second result with the same id finds no call.
pub proof fn law_result_delivered_once(
    calls: Map<u128, (u64, String)>,
    request_id: u128,
    webview: u64,
    bridge_id: String,
)
    ensures
        ({
            let after = calls.insert(request_id, (webview, bridge_id));
            &&& after.contains_key(request_id)
            &&& after[request_id] == (webview, bridge_id)
            &&& !after.remove(request_id).contains_key(request_id)
        }),
{
}

} // verus!
