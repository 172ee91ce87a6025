//! The `session/new.mcpServers` rewrite: by default the field is stripped;
//! a peer on the `allow_mcp` whitelist may only name servers that the host
//! predefined, and the bridge substitutes the host's definitions (the
//! command bytes stay with the host); any other reference rejects the whole
//! request. Lines other than `session/new` pass untouched.
//!
//! [`rewrite`] reads the line with `serde_json` into an [`McpLine`], decides
//! the [`McpPlan`] and carries it out on the parsed document.

use vstd::prelude::*;
use vstd::string::*;

use crate::agents::contains_string;
use crate::config::{has_mcp_definition, McpDefinition};
use crate::json::{
    array_value, insert_member, json_array, json_at, json_bytes, json_inserted,
    json_items, json_parse, json_parse_text, json_removed, json_str, json_text, parse_json, parse_json_text,
    remove_member, value_at, value_bytes, value_items, value_str, value_text,
};
use crate::permission::opt_chars;
use crate::text::{decimal, push_decimal, push_str, str_eq};

verus! {

broadcast use vstd::string::group_string_axioms;

/// Error message of a rejected request.
pub const MCP_REJECT_MESSAGE: &'static str = "mcp-servers-rejected";
/// JSON-RPC `invalid params`.
pub const MCP_REJECT_CODE: i64 = -32_602;

/// One entry of `mcpServers`: its `name` when it is a string, and its JSON text.
#[derive(Debug, Clone, PartialEq, Eq)]
pub struct McpServerRef {
    pub name: Option<String>,
    pub text: String,
}

/// The `mcpServers` member of a `session/new` request.
#[derive(Debug, Clone, PartialEq, Eq)]
pub enum McpServers {
    /// Not an array: its JSON text.
    NotArray { text: String },
    /// An array of entries.
    Entries(Vec<McpServerRef>),
}

/// What the rewrite reads of one line towards the child.
#[derive(Debug, Clone, PartialEq, Eq)]
pub struct McpLine {
    /// `method`, when the line is a JSON object whose `method` is a string.
    pub method: Option<String>,
    /// `params.mcpServers`, when `params` is an object holding that member.
    pub servers: Option<McpServers>,
    /// JSON text of `id`, when present.
    pub id: Option<String>,
}

/// Abstract entry of `mcpServers`.
pub struct McpServerRefView {
    pub name: Option<Seq<char>>,
    pub text: Seq<char>,
}

impl View for McpServerRef {
    type V = McpServerRefView;

    open spec fn view(&self) -> McpServerRefView {
        McpServerRefView { name: opt_chars(self.name), text: self.text@ }
    }
}

/// Abstract `mcpServers` member.
pub enum McpServersView {
    NotArray { text: Seq<char> },
    Entries(Seq<McpServerRefView>),
}

/// The entries, each by its view.
pub open spec fn refs_view(v: Seq<McpServerRef>) -> Seq<McpServerRefView> {
    v.map_values(|e: McpServerRef| e@)
}

impl View for McpServers {
    type V = McpServersView;

    open spec fn view(&self) -> McpServersView {
        match self {
            McpServers::NotArray { text } => McpServersView::NotArray { text: text@ },
            McpServers::Entries(v) => McpServersView::Entries(refs_view(v@)),
        }
    }
}

/// Abstract line.
pub struct McpLineView {
    pub method: Option<Seq<char>>,
    pub servers: Option<McpServersView>,
    pub id: Option<Seq<char>>,
}

impl View for McpLine {
    type V = McpLineView;

    open spec fn view(&self) -> McpLineView {
        McpLineView {
            method: opt_chars(self.method),
            servers: match self.servers {
                Some(s) => Some(s@),
                None => None,
            },
            id: opt_chars(self.id),
        }
    }
}

/// What to do with the line.
#[derive(Debug, Clone, PartialEq, Eq)]
pub enum McpPlan {
    /// Forward the original bytes.
    Untouched,
    /// Remove `params.mcpServers` (an array of `entries` entries, or 0).
    Strip { entries: usize },
    /// Replace `params.mcpServers` with these host definitions (JSON texts),
    /// substituted for these names.
    Replace { names: Vec<String>, definitions: Vec<String> },
    /// Drop the request; answer `wire_error` to the client when it has an id.
    Reject { detail: String, wire_error: Option<String> },
}

/// The rewrite's verdict, as audited: the action, its detail, the line for
/// the child (None = not forwarded) and the answer for the client.
#[derive(Debug, Clone, PartialEq, Eq)]
pub struct McpOutcome {
    pub action: &'static str,
    pub detail: String,
    pub child_line: Option<Vec<u8>>,
    pub wire_error: Option<String>,
}

/// Index of the first host definition named `name`.
pub open spec fn first_def(defs: Seq<McpDefinition>, name: Seq<char>, i: int) -> bool {
    &&& 0 <= i < defs.len()
    &&& defs[i].name@ == name
    &&& forall|k: int| 0 <= k < i ==> (#[trigger] defs[k]).name@ != name
}

/// Some host definition is named `name`.
pub open spec fn defined(defs: Seq<McpDefinition>, name: Seq<char>) -> bool {
    exists|i: int| 0 <= i < defs.len() && defs[i].name@ == name
}

/// The host definition (JSON text) for `name`.
pub open spec fn definition_of(defs: Seq<McpDefinition>, name: Seq<char>) -> Seq<char> {
    defs[choose|i: int| first_def(defs, name, i)].definition@
}

/// Why an entry cannot stand, if it cannot.
pub open spec fn entry_error(e: McpServerRefView, allow: Seq<Seq<char>>, defs: Seq<McpDefinition>) -> Option<Seq<char>> {
    match e.name {
        None => Some("mcpServers entry must reference by name, got "@ + e.text),
        Some(n) => if !allow.contains(n) {
            Some("mcp name '"@ + n + "' not in allow_mcp whitelist"@)
        } else if !defined(defs, n) {
            Some("mcp name '"@ + n + "' allowed but not predefined on host"@)
        } else {
            None
        },
    }
}

/// Index of the first entry that cannot stand.
pub open spec fn first_bad(v: Seq<McpServerRefView>, allow: Seq<Seq<char>>, defs: Seq<McpDefinition>, i: int) -> bool {
    &&& 0 <= i < v.len()
    &&& entry_error(v[i], allow, defs) is Some
    &&& forall|k: int| 0 <= k < i ==> entry_error(#[trigger] v[k], allow, defs) is None
}

/// Some entry cannot stand.
pub open spec fn has_bad(v: Seq<McpServerRefView>, allow: Seq<Seq<char>>, defs: Seq<McpDefinition>) -> bool {
    exists|i: int| 0 <= i < v.len() && entry_error(v[i], allow, defs) is Some
}

/// Text of the JSON-RPC error answering a rejected request.
pub open spec fn reject_text(id: Seq<char>) -> Seq<char> {
    "{\"error\":{\"code\":-32602,\"message\":\""@ + MCP_REJECT_MESSAGE@ + "\"},\"id\":"@ + id + ",\"jsonrpc\":\"2.0\"}"@
}

/// Abstract plan.
pub enum McpPlanView {
    Untouched,
    Strip { entries: nat },
    Replace { names: Seq<Seq<char>>, definitions: Seq<Seq<char>> },
    Reject { detail: Seq<char>, wire_error: Option<Seq<char>> },
}

impl View for McpPlan {
    type V = McpPlanView;

    open spec fn view(&self) -> McpPlanView {
        match self {
            McpPlan::Untouched => McpPlanView::Untouched,
            McpPlan::Strip { entries } => McpPlanView::Strip { entries: *entries as nat },
            McpPlan::Replace { names, definitions } => McpPlanView::Replace {
                names: names@.map_values(|s: String| s@),
                definitions: definitions@.map_values(|s: String| s@),
            },
            McpPlan::Reject { detail, wire_error } => McpPlanView::Reject {
                detail: detail@,
                wire_error: match wire_error {
                    Some(w) => Some(w@),
                    None => None,
                },
            },
        }
    }
}

/// The answer to a rejected request: an error for a request with an id, none
/// for a notification.
pub open spec fn wire_error_spec(id: Option<Seq<char>>) -> Option<Seq<char>> {
    match id {
        Some(i) => if i != "null"@ {
            Some(reject_text(i))
        } else {
            None
        },
        None => None,
    }
}

/// The rewrite of a line.
pub open spec fn plan_spec(line: McpLineView, allow: Seq<Seq<char>>, defs: Seq<McpDefinition>) -> McpPlanView {
    if line.method != Some("session/new"@) || line.servers is None {
        McpPlanView::Untouched
    } else if allow.len() == 0 {
        McpPlanView::Strip {
            entries: match line.servers->0 {
                McpServersView::Entries(v) => v.len(),
                McpServersView::NotArray { .. } => 0,
            },
        }
    } else {
        match line.servers->0 {
            McpServersView::NotArray { text } => McpPlanView::Reject {
                detail: "mcpServers must be an array, got "@ + text,
                wire_error: wire_error_spec(line.id),
            },
            McpServersView::Entries(v) => if has_bad(v, allow, defs) {
                McpPlanView::Reject {
                    detail: entry_error(v[choose|i: int| first_bad(v, allow, defs, i)], allow, defs)->0,
                    wire_error: wire_error_spec(line.id),
                }
            } else {
                McpPlanView::Replace {
                    names: v.map_values(|e: McpServerRefView| e.name->0),
                    definitions: v.map_values(|e: McpServerRefView| definition_of(defs, e.name->0)),
                }
            },
        }
    }
}

fn reject_response(id: &str) -> (s: String)
    ensures
        s@ == reject_text(id@),
{
    let mut s = String::new();
    push_str(&mut s, "{\"error\":{\"code\":-32602,\"message\":\"");
    push_str(&mut s, MCP_REJECT_MESSAGE);
    push_str(&mut s, "\"},\"id\":");
    push_str(&mut s, id);
    push_str(&mut s, ",\"jsonrpc\":\"2.0\"}");
    s
}

fn wire_error(id: &Option<String>) -> (r: Option<String>)
    ensures
        match r {
            Some(w) => wire_error_spec(opt_chars(*id)) == Some(w@),
            None => wire_error_spec(opt_chars(*id)) is None,
        },
{
    match id {
        Some(i) => if str_eq(i.as_str(), "null") {
            None
        } else {
            Some(reject_response(i.as_str()))
        },
        None => None,
    }
}

proof fn lemma_first_def_unique(defs: Seq<McpDefinition>, name: Seq<char>, i: int, j: int)
    requires
        first_def(defs, name, i),
        first_def(defs, name, j),
    ensures
        i == j,
{
    if i < j {
        assert(defs[i].name@ != name);
    }
    if j < i {
        assert(defs[j].name@ != name);
    }
}

proof fn lemma_first_bad_unique(v: Seq<McpServerRefView>, allow: Seq<Seq<char>>, defs: Seq<McpDefinition>, i: int, j: int)
    requires
        first_bad(v, allow, defs, i),
        first_bad(v, allow, defs, j),
    ensures
        i == j,
{
    if i < j {
        assert(entry_error(v[i], allow, defs) is None);
    }
    if j < i {
        assert(entry_error(v[j], allow, defs) is None);
    }
}

fn replace_servers(entries: &Vec<McpServerRef>, allow_mcp: &Vec<String>, definitions: &Vec<McpDefinition>) -> (r: Result<
    (Vec<String>, Vec<String>),
    String,
>)
    ensures
        match r {
            Ok((names, defs)) => !has_bad(refs_view(entries@), allow_mcp@.map_values(|s: String| s@), definitions@)
                && names@.map_values(|s: String| s@) == refs_view(entries@).map_values(
                |e: McpServerRefView| e.name->0,
            ) && defs@.map_values(|s: String| s@) == refs_view(entries@).map_values(
                |e: McpServerRefView| definition_of(definitions@, e.name->0),
            ),
            Err(m) => exists|i: int|
                first_bad(refs_view(entries@), allow_mcp@.map_values(|s: String| s@), definitions@, i) && Some(m@)
                    == entry_error(refs_view(entries@)[i], allow_mcp@.map_values(|s: String| s@), definitions@),
        },
{
    let ghost allow = allow_mcp@.map_values(|s: String| s@);
    let ghost defs = definitions@;
    let ghost ev = refs_view(entries@);
    let mut names: Vec<String> = Vec::new();
    let mut texts: Vec<String> = Vec::new();
    let mut i: usize = 0;
    while i < entries.len()
        invariant
            allow == allow_mcp@.map_values(|s: String| s@),
            defs == definitions@,
            ev == refs_view(entries@),
            i <= entries@.len(),
            forall|k: int| 0 <= k < i ==> entry_error(#[trigger] ev[k], allow, defs) is None,
            names@.map_values(|s: String| s@) == ev.take(i as int).map_values(|e: McpServerRefView| e.name->0),
            texts@.map_values(|s: String| s@) == ev.take(i as int).map_values(
                |e: McpServerRefView| definition_of(defs, e.name->0),
            ),
        decreases entries@.len() - i,
    {
        let e = &entries[i];
        assert(ev[i as int] == e@);
        let name = match &e.name {
            Some(n) => n,
            None => {
                let mut m = String::new();
                push_str(&mut m, "mcpServers entry must reference by name, got ");
                push_str(&mut m, e.text.as_str());
                assert(first_bad(ev, allow, defs, i as int));
                return Err(m);
            },
        };
        let allowed = contains_string(allow_mcp, name);
        proof {
            assert(allowed == allow.contains(name@)) by {
                if allow.contains(name@) {
                    let k = choose|k: int| 0 <= k < allow.len() && allow[k] == name@;
                    assert(allow_mcp@[k]@ == name@);
                }
                if allowed {
                    let k = choose|k: int| 0 <= k < allow_mcp@.len() && allow_mcp@[k]@ == name@;
                    assert(allow[k] == name@);
                }
            }
        }
        if !allowed {
            let mut m = String::new();
            push_str(&mut m, "mcp name '");
            push_str(&mut m, name.as_str());
            push_str(&mut m, "' not in allow_mcp whitelist");
            assert(first_bad(ev, allow, defs, i as int));
            return Err(m);
        }
        match has_mcp_definition(definitions, name.as_str()) {
            None => {
                let mut m = String::new();
                push_str(&mut m, "mcp name '");
                push_str(&mut m, name.as_str());
                push_str(&mut m, "' allowed but not predefined on host");
                assert(!defined(defs, name@));
                assert(first_bad(ev, allow, defs, i as int));
                return Err(m);
            },
            Some(j) => {
                proof {
                    assert(first_def(defs, name@, j as int));
                    let c = choose|k: int| first_def(defs, name@, k);
                    lemma_first_def_unique(defs, name@, c, j as int);
                    assert(ev.take(i + 1) =~= ev.take(i as int).push(ev[i as int]));
                }
                let ghost nb = names@.map_values(|s: String| s@);
                let ghost tb = texts@.map_values(|s: String| s@);
                let n = name.clone();
                let t = definitions[j].definition.clone();
                names.push(n);
                texts.push(t);
                assert(names@.map_values(|s: String| s@) =~= nb.push(name@));
                assert(texts@.map_values(|s: String| s@) =~= tb.push(definitions@[j as int].definition@));
                assert(ev.take(i + 1).map_values(|e: McpServerRefView| e.name->0) =~= ev.take(
                    i as int,
                ).map_values(|e: McpServerRefView| e.name->0).push(name@));
                assert(ev.take(i + 1).map_values(|e: McpServerRefView| definition_of(defs, e.name->0)) =~= ev.take(
                    i as int,
                ).map_values(|e: McpServerRefView| definition_of(defs, e.name->0)).push(definition_of(defs, name@)));
            },
        }
        i = i + 1;
    }
    assert(ev.take(entries@.len() as int) =~= ev);
    assert(!has_bad(ev, allow, defs));
    Ok((names, texts))
}

/// Decides the rewrite of a line towards the child.
pub fn plan(line: &McpLine, allow_mcp: &Vec<String>, definitions: &Vec<McpDefinition>) -> (p: McpPlan)
    ensures
        p@ == plan_spec(line@, allow_mcp@.map_values(|s: String| s@), definitions@),
{
    proof {
        reveal_strlit("session/new");
        reveal_strlit("null");
    }
    let is_new = match &line.method {
        Some(m) => str_eq(m.as_str(), "session/new"),
        None => false,
    };
    if !is_new {
        return McpPlan::Untouched;
    }
    let servers = match &line.servers {
        Some(s) => s,
        None => return McpPlan::Untouched,
    };
    if allow_mcp.len() == 0 {
        let entries = match servers {
            McpServers::Entries(v) => v.len(),
            McpServers::NotArray { .. } => 0,
        };
        return McpPlan::Strip { entries };
    }
    match servers {
        McpServers::NotArray { text } => {
            let mut detail = String::new();
            push_str(&mut detail, "mcpServers must be an array, got ");
            push_str(&mut detail, text.as_str());
            McpPlan::Reject { detail, wire_error: wire_error(&line.id) }
        },
        McpServers::Entries(v) => match replace_servers(v, allow_mcp, definitions) {
            Ok((names, defs)) => McpPlan::Replace { names, definitions: defs },
            Err(detail) => {
                proof {
                    let ghost allow = allow_mcp@.map_values(|s: String| s@);
                    let ghost ev = refs_view(v@);
                    let i = choose|i: int| first_bad(ev, allow, definitions@, i) && Some(detail@) == entry_error(
                        ev[i],
                        allow,
                        definitions@,
                    );
                    let c = choose|k: int| first_bad(ev, allow, definitions@, k);
                    lemma_first_bad_unique(ev, allow, definitions@, c, i);
                }
                McpPlan::Reject { detail, wire_error: wire_error(&line.id) }
            },
        },
    }
}

/// The command bytes of an MCP server always stay with the host: a replaced
/// `mcpServers` holds, for each entry, the host's own definition of a name
/// that is both whitelisted and predefined.
pub proof fn replaced_servers_come_from_the_host(line: McpLineView, allow: Seq<Seq<char>>, defs: Seq<McpDefinition>)
    ensures
        plan_spec(line, allow, defs) matches McpPlanView::Replace { names, definitions } ==> {
            &&& names.len() == definitions.len()
            &&& forall|i: int| 0 <= i < names.len() ==> allow.contains(#[trigger] names[i]) && defined(defs, names[i])
                && definitions[i] == definition_of(defs, names[i])
        },
{
    if plan_spec(line, allow, defs) is Replace {
        let v = match line.servers->0 {
            McpServersView::Entries(v) => v,
            McpServersView::NotArray { .. } => Seq::empty(),
        };
        assert forall|i: int| 0 <= i < v.len() implies entry_error(#[trigger] v[i], allow, defs) is None by {
            if entry_error(v[i], allow, defs) is Some {
                assert(has_bad(v, allow, defs));
            }
        }
    }
}

/// A peer without an MCP whitelist never gets a server through: the field of
/// its `session/new` is stripped, whatever it holds.
pub proof fn default_peer_gets_no_servers(line: McpLineView, defs: Seq<McpDefinition>)
    requires
        line.method == Some("session/new"@),
        line.servers is Some,
    ensures
        plan_spec(line, Seq::empty(), defs) is Strip,
{
}

/// An entry of `mcpServers` as read from the document: its `name` when that
/// is a string, and its JSON text.
pub open spec fn entry_of(e: serde_json::Value) -> McpServerRefView {
    McpServerRefView {
        name: match json_at(e, "/name"@) {
            Some(n) => json_str(n),
            None => None,
        },
        text: json_text(e),
    }
}

/// What the rewrite reads of a parsed line (nothing when it is not JSON).
pub open spec fn line_of(doc: Option<serde_json::Value>) -> McpLineView {
    match doc {
        None => McpLineView { method: None, servers: None, id: None },
        Some(r) => McpLineView {
            method: match json_at(r, "/method"@) {
                Some(m) => json_str(m),
                None => None,
            },
            servers: match json_at(r, "/params/mcpServers"@) {
                Some(s) => Some(
                    match json_items(s) {
                        Some(items) => McpServersView::Entries(items.map_values(|e: serde_json::Value| entry_of(e))),
                        None => McpServersView::NotArray { text: json_text(s) },
                    },
                ),
                None => None,
            },
            id: match json_at(r, "/id"@) {
                Some(i) => Some(json_text(i)),
                None => None,
            },
        },
    }
}

/// The document with `params.mcpServers` set to `servers`, or removed when
/// that is None.
pub open spec fn with_servers(root: serde_json::Value, servers: Option<serde_json::Value>) -> serde_json::Value {
    match json_at(root, "/params"@) {
        Some(p) => json_inserted(
            root,
            "params"@,
            match servers {
                Some(v) => json_inserted(p, "mcpServers"@, v),
                None => json_removed(p, "mcpServers"@),
            },
        ),
        None => root,
    }
}

/// A rewritten line: the document's compact text and a newline (stdin is a
/// line protocol).
pub open spec fn line_bytes(v: serde_json::Value) -> Seq<u8> {
    json_bytes(v).push(10u8)
}

/// The host definitions as documents, when every text parses.
pub open spec fn parsed_defs(texts: Seq<Seq<char>>) -> Option<Seq<serde_json::Value>> {
    if forall|i: int| 0 <= i < texts.len() ==> (#[trigger] json_parse_text(texts[i])) is Some {
        Some(texts.map_values(|t: Seq<char>| json_parse_text(t)->0))
    } else {
        None
    }
}

/// Detail of a request refused because a host definition is not JSON.
pub open spec fn bad_definition_detail() -> Seq<char> {
    "host mcp definition is not JSON"@
}

/// Abstract outcome.
pub struct McpOutcomeView {
    pub action: Seq<char>,
    pub detail: Seq<char>,
    pub child_line: Option<Seq<u8>>,
    pub wire_error: Option<Seq<char>>,
}

impl View for McpOutcome {
    type V = McpOutcomeView;

    open spec fn view(&self) -> McpOutcomeView {
        McpOutcomeView {
            action: self.action@,
            detail: self.detail@,
            child_line: match self.child_line {
                Some(b) => Some(b@),
                None => None,
            },
            wire_error: opt_chars(self.wire_error),
        }
    }
}

/// The rewrite of a line towards the child: the plan for what the line
/// reads as, carried out on its document.
pub open spec fn outcome_spec(bytes: Seq<u8>, allow: Seq<Seq<char>>, defs: Seq<McpDefinition>) -> McpOutcomeView {
    let doc = json_parse(bytes);
    let line = line_of(doc);
    match plan_spec(line, allow, defs) {
        McpPlanView::Untouched => McpOutcomeView {
            action: "untouched"@,
            detail: Seq::empty(),
            child_line: Some(bytes),
            wire_error: None,
        },
        McpPlanView::Strip { entries } => McpOutcomeView {
            action: "stripped"@,
            detail: "removed mcpServers with "@ + decimal(entries) + " entries"@,
            child_line: Some(line_bytes(with_servers(doc->0, None))),
            wire_error: None,
        },
        McpPlanView::Replace { names, definitions } => match parsed_defs(definitions) {
            Some(values) => McpOutcomeView {
                action: "replaced"@,
                detail: "substituted host definitions for "@ + debug_names_text(names),
                child_line: Some(line_bytes(with_servers(doc->0, Some(json_array(values))))),
                wire_error: None,
            },
            None => McpOutcomeView {
                action: "rejected"@,
                detail: bad_definition_detail(),
                child_line: None,
                wire_error: wire_error_spec(line.id),
            },
        },
        McpPlanView::Reject { detail, wire_error } => McpOutcomeView {
            action: "rejected"@,
            detail,
            child_line: None,
            wire_error,
        },
    }
}

/// Reads what the rewrite needs of a parsed line.
fn read_line(doc: &Option<serde_json::Value>) -> (l: McpLine)
    ensures
        l@ == line_of(*doc),
{
    let r = match doc {
        None => return McpLine { method: None, servers: None, id: None },
        Some(r) => r,
    };
    let method = match value_at(r, "/method") {
        Some(m) => value_str(&m),
        None => None,
    };
    let servers = match value_at(r, "/params/mcpServers") {
        Some(s) => match value_items(&s) {
            Some(items) => {
                let ghost pick = |e: serde_json::Value| entry_of(e);
                let mut refs: Vec<McpServerRef> = Vec::new();
                let mut i: usize = 0;
                while i < items.len()
                    invariant
                        i <= items@.len(),
                        pick == (|e: serde_json::Value| entry_of(e)),
                        refs_view(refs@) == items@.take(i as int).map_values(pick),
                    decreases items@.len() - i,
                {
                    let e = &items[i];
                    let name = match value_at(e, "/name") {
                        Some(n) => value_str(&n),
                        None => None,
                    };
                    let text = value_text(e);
                    let entry = McpServerRef { name, text };
                    let ghost before = refs@;
                    refs.push(entry);
                    assert(refs_view(refs@) =~= refs_view(before).push(entry@));
                    assert(items@.take(i + 1) =~= items@.take(i as int).push(items@[i as int]));
                    assert(items@.take(i + 1).map_values(pick) =~= items@.take(i as int).map_values(pick).push(
                        pick(items@[i as int]),
                    ));
                    i = i + 1;
                }
                assert(items@.take(items@.len() as int) =~= items@);
                Some(McpServers::Entries(refs))
            },
            None => Some(McpServers::NotArray { text: value_text(&s) }),
        },
        None => None,
    };
    let id = match value_at(r, "/id") {
        Some(i) => Some(value_text(&i)),
        None => None,
    };
    McpLine { method, servers, id }
}

/// Sets or removes `params.mcpServers` in the document.
fn set_servers(root: &mut serde_json::Value, servers: Option<serde_json::Value>)
    ensures
        *final(root) == with_servers(*old(root), servers),
{
    match value_at(root, "/params") {
        Some(p) => {
            let mut p = p;
            match servers {
                Some(v) => insert_member(&mut p, "mcpServers", v),
                None => remove_member(&mut p, "mcpServers"),
            }
            insert_member(root, "params", p);
        },
        None => {},
    }
}

/// The document's compact text and a newline.
fn serialize_line(root: &serde_json::Value) -> (b: Vec<u8>)
    ensures
        b@ == line_bytes(*root),
{
    let mut b = value_bytes(root);
    b.push(10u8);
    b
}

/// Parses the host definition texts.
fn parse_definitions(texts: &Vec<String>) -> (r: Option<Vec<serde_json::Value>>)
    ensures
        match r {
            Some(v) => parsed_defs(texts@.map_values(|t: String| t@)) == Some(v@),
            None => parsed_defs(texts@.map_values(|t: String| t@)) is None,
        },
{
    let ghost tv = texts@.map_values(|t: String| t@);
    let mut out: Vec<serde_json::Value> = Vec::new();
    let mut i: usize = 0;
    while i < texts.len()
        invariant
            i <= texts@.len(),
            tv == texts@.map_values(|t: String| t@),
            out@.len() == i,
            forall|k: int| 0 <= k < i ==> json_parse_text(#[trigger] tv[k]) == Some(out@[k]),
        decreases texts@.len() - i,
    {
        match parse_json_text(texts[i].as_str()) {
            Some(v) => out.push(v),
            None => {
                assert(json_parse_text(tv[i as int]) is None);
                return None;
            },
        }
        i = i + 1;
    }
    assert(out@ =~= tv.map_values(|t: Seq<char>| json_parse_text(t)->0));
    Some(out)
}

/// The `Debug` text of a list of names, as `format!("{:?}")` writes it.
pub uninterp spec fn debug_names_text(names: Seq<Seq<char>>) -> Seq<char>;

/// Formats a list of names with `Debug` (`["a", "b"]`).
#[verifier::external_body]
fn debug_names(names: &Vec<String>) -> (r: String)
    ensures
        r@ == debug_names_text(names@.map_values(|s: String| s@)),
{
    format!("{:?}", names)
}

/// The line forwarded byte for byte.
fn untouched(line: &Vec<u8>) -> (o: McpOutcome)
    ensures
        o@ == (McpOutcomeView { action: "untouched"@, detail: Seq::empty(), child_line: Some(line@), wire_error: None }),
{
    let mut copy: Vec<u8> = Vec::new();
    copy.extend_from_slice(line.as_slice());
    assert(copy@ == line@);
    McpOutcome { action: "untouched", detail: String::new(), child_line: Some(copy), wire_error: None }
}

/// Rewrites one line towards the child: non-`session/new` lines (and lines
/// that are not JSON) pass byte for byte; a default peer's `mcpServers` is
/// stripped; a whitelisted peer's named servers are replaced by the host's
/// definitions; anything else rejects the whole request.
pub fn rewrite(line: &Vec<u8>, allow_mcp: &Vec<String>, definitions: &Vec<McpDefinition>) -> (o: McpOutcome)
    ensures
        o@ == outcome_spec(line@, allow_mcp@.map_values(|s: String| s@), definitions@),
{
    let doc = parse_json(line);
    let l = read_line(&doc);
    let p = plan(&l, allow_mcp, definitions);
    match p {
        McpPlan::Untouched => untouched(line),
        McpPlan::Strip { entries } => {
            let mut root = match doc {
                Some(r) => r,
                None => return untouched(line),
            };
            set_servers(&mut root, None);
            let mut detail = String::new();
            push_str(&mut detail, "removed mcpServers with ");
            push_decimal(&mut detail, entries as u64);
            push_str(&mut detail, " entries");
            McpOutcome { action: "stripped", detail, child_line: Some(serialize_line(&root)), wire_error: None }
        },
        McpPlan::Replace { names, definitions: texts } => {
            let mut root = match doc {
                Some(r) => r,
                None => return untouched(line),
            };
            match parse_definitions(&texts) {
                Some(values) => {
                    set_servers(&mut root, Some(array_value(values)));
                    let mut detail = String::new();
                    push_str(&mut detail, "substituted host definitions for ");
                    let listed = debug_names(&names);
                    push_str(&mut detail, listed.as_str());
                    McpOutcome { action: "replaced", detail, child_line: Some(serialize_line(&root)), wire_error: None }
                },
                None => {
                    let mut detail = String::new();
                    push_str(&mut detail, "host mcp definition is not JSON");
                    McpOutcome { action: "rejected", detail, child_line: None, wire_error: wire_error(&l.id) }
                },
            }
        },
        McpPlan::Reject { detail, wire_error } => McpOutcome {
            action: "rejected",
            detail,
            child_line: None,
            wire_error,
        },
    }
}

/// Lines other than `session/new` (and lines that are not JSON) reach the
/// child byte for byte, whatever the peer's whitelist.
pub proof fn other_lines_pass_unchanged(bytes: Seq<u8>, allow: Seq<Seq<char>>, defs: Seq<McpDefinition>)
    requires
        line_of(json_parse(bytes)).method != Some("session/new"@),
    ensures
        outcome_spec(bytes, allow, defs).child_line == Some(bytes),
        outcome_spec(bytes, allow, defs).action == "untouched"@,
        outcome_spec(bytes, allow, defs).wire_error is None,
{
}

/// A peer without a whitelist never hands the child an `mcpServers` of its
/// own: its `session/new` goes on with the member removed.
pub proof fn default_peer_line_loses_servers(bytes: Seq<u8>, defs: Seq<McpDefinition>)
    requires
        line_of(json_parse(bytes)).method == Some("session/new"@),
        line_of(json_parse(bytes)).servers is Some,
    ensures
        outcome_spec(bytes, Seq::empty(), defs).child_line == Some(line_bytes(with_servers(json_parse(bytes)->0, None))),
        outcome_spec(bytes, Seq::empty(), defs).action == "stripped"@,
{
}

proof fn lemma_first_def_exists(defs: Seq<McpDefinition>, name: Seq<char>)
    requires
        defined(defs, name),
    ensures
        exists|j: int| first_def(defs, name, j),
    decreases defs.len(),
{
    if defs[0].name@ == name {
        assert(first_def(defs, name, 0));
    } else {
        let rest = defs.drop_first();
        let w = choose|i: int| 0 <= i < defs.len() && defs[i].name@ == name;
        assert(rest[w - 1].name@ == name);
        lemma_first_def_exists(rest, name);
        let j = choose|j: int| first_def(rest, name, j);
        assert forall|k: int| 0 <= k < j + 1 implies (#[trigger] defs[k]).name@ != name by {
            if k > 0 {
                assert(defs[k] == rest[k - 1]);
            }
        }
        assert(first_def(defs, name, j + 1));
    }
}

/// A replaced `mcpServers` keeps every entry, in order: one name and one
/// host definition per entry the peer sent, the name being the entry's own
/// and the definition the first host definition of that name.
pub proof fn replace_keeps_every_entry(line: McpLineView, allow: Seq<Seq<char>>, defs: Seq<McpDefinition>)
    ensures
        plan_spec(line, allow, defs) matches McpPlanView::Replace { names, definitions } ==> {
            &&& line.servers matches Some(McpServersView::Entries(v))
            &&& names.len() == v.len()
            &&& definitions.len() == v.len()
            &&& forall|i: int|
                #![trigger names[i]]
                0 <= i < v.len() ==> v[i].name == Some(names[i]) && exists|j: int|
                    0 <= j < defs.len() && defs[j].name@ == names[i] && definitions[i] == defs[j].definition@
                        && forall|k: int| 0 <= k < j ==> (#[trigger] defs[k]).name@ != names[i]
        },
{
    if plan_spec(line, allow, defs) is Replace {
        let v = match line.servers->0 {
            McpServersView::Entries(v) => v,
            McpServersView::NotArray { .. } => Seq::empty(),
        };
        let names = v.map_values(|e: McpServerRefView| e.name->0);
        let definitions = v.map_values(|e: McpServerRefView| definition_of(defs, e.name->0));
        assert forall|i: int| 0 <= i < v.len() implies v[i].name == Some(names[i]) && exists|j: int|
            0 <= j < defs.len() && defs[j].name@ == names[i] && definitions[i] == defs[j].definition@ && forall|k: int|
                0 <= k < j ==> (#[trigger] defs[k]).name@ != names[i] by {
            if entry_error(v[i], allow, defs) is Some {
                assert(has_bad(v, allow, defs));
            }
            lemma_first_def_exists(defs, names[i]);
            let j = choose|j: int| first_def(defs, names[i], j);
            assert(definitions[i] == defs[j].definition@);
        }
    }
}

/// A whitelisted peer whose `session/new` names only servers that are both
/// whitelisted and predefined gets them all replaced, never a rejection.
pub proof fn allowed_names_are_replaced(line: McpLineView, allow: Seq<Seq<char>>, defs: Seq<McpDefinition>)
    requires
        line.method == Some("session/new"@),
        allow.len() > 0,
        line.servers matches Some(McpServersView::Entries(v)) && forall|i: int|
            0 <= i < v.len() ==> ((#[trigger] v[i]).name matches Some(n) && allow.contains(n) && exists|j: int|
                0 <= j < defs.len() && defs[j].name@ == n),
    ensures
        plan_spec(line, allow, defs) is Replace,
{
    let v = match line.servers->0 {
        McpServersView::Entries(v) => v,
        McpServersView::NotArray { .. } => Seq::empty(),
    };
    assert forall|i: int| 0 <= i < v.len() implies entry_error(#[trigger] v[i], allow, defs) is None by {
        let n = v[i].name->0;
        let j = choose|j: int| 0 <= j < defs.len() && defs[j].name@ == n;
        assert(defined(defs, n));
    }
}

/// What a default peer's stripped `mcpServers` held is audited as the number
/// of entries it sent (none when the member is not an array).
pub proof fn strip_counts_the_entries_sent(line: McpLineView, defs: Seq<McpDefinition>)
    requires
        line.method == Some("session/new"@),
        line.servers is Some,
    ensures
        line.servers matches Some(McpServersView::Entries(v)) ==> plan_spec(line, Seq::empty(), defs) == (
        McpPlanView::Strip { entries: v.len() }),
        line.servers matches Some(McpServersView::NotArray { .. }) ==> plan_spec(line, Seq::empty(), defs) == (
        McpPlanView::Strip { entries: 0 }),
{
}

} // verus!
