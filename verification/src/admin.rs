//! The owner's local admin face: a minimal HTTP/1.1 pipe bound to loopback
//! with a bearer token, and the frozen `ready` line announcing it. The
//! token's text never reaches a log.

use vstd::prelude::*;
use vstd::string::*;

use crate::permission::opt_chars;
use crate::agents::{agent_path_id, agent_path_id_spec};
use crate::text::{decimal, json_escape, push_char, push_decimal, push_json_escaped, push_str, seq_starts_with, str_eq, str_starts_with, strip_all, trim_start_matches};
use crate::text::{split_words, trim_text, trimmed_text, words_text};

verus! {

broadcast use vstd::string::group_string_axioms;

/// Longest request head accepted, in bytes.
pub const HEAD_CAP: usize = 8 * 1024;
/// Longest request body accepted, in bytes.
pub const BODY_CAP: usize = 64 * 1024;

/// The bearer credential: its value and the private file that holds it.
#[derive(Debug, Clone, PartialEq, Eq)]
pub struct AdminToken {
    pub value: String,
    pub file: String,
}

/// What a share link is made of: this node's peer id and its listening
/// addresses (relays included).
#[derive(Debug, Clone, PartialEq, Eq)]
pub struct LinkContext {
    pub peer: String,
    pub addrs: Vec<String>,
}

/// Outcome of revoking a share.
#[derive(Debug, Clone, PartialEq, Eq)]
pub struct RevokeReport {
    pub share_id: String,
    pub already_revoked: bool,
    pub policy_removed: bool,
}

/// Text of the `ready` line: one JSON object, the token path escaped as a
/// JSON string.
pub open spec fn ready_text(port: u16, token_file: Seq<char>) -> Seq<char> {
    "{\"kind\":\"ready\",\"admin\":{\"port\":"@ + decimal(port as nat) + ",\"token_file\":\""@ + json_escape(token_file) + "\"}}"@
}

/// The start-up line on stdout (frozen shape) that tells the owner's tools
/// where the admin face listens and where its token lies.
pub fn ready_line(port: u16, token_file: &str) -> (line: String)
    ensures
        line@ == ready_text(port, token_file@),
{
    let mut s = String::new();
    push_str(&mut s, "{\"kind\":\"ready\",\"admin\":{\"port\":");
    push_decimal(&mut s, port as u64);
    push_str(&mut s, ",\"token_file\":\"");
    push_json_escaped(&mut s, token_file);
    push_str(&mut s, "\"}}");
    s
}

/// The four bytes that end a request head.
pub open spec fn head_end_at(buf: Seq<u8>, i: int) -> bool {
    0 <= i && i + 4 <= buf.len() && buf[i] == 13u8 && buf[i + 1] == 10u8 && buf[i + 2] == 13u8 && buf[i + 3] == 10u8
}

/// Offset of the first `\r\n\r\n` in `buf`.
pub fn find_head_end(buf: &[u8]) -> (r: Option<usize>)
    ensures
        match r {
            Some(i) => head_end_at(buf@, i as int) && forall|k: int| 0 <= k < i ==> !head_end_at(buf@, k),
            None => forall|k: int| 0 <= k < buf@.len() ==> !head_end_at(buf@, k),
        },
{
    let n = buf.len();
    if n < 4 {
        return None;
    }
    let mut i: usize = 0;
    while i <= n - 4
        invariant
            n == buf@.len(),
            n >= 4,
            i <= n - 3,
            forall|k: int| 0 <= k < i ==> !head_end_at(buf@, k),
        decreases n - i,
    {
        if buf[i] == 13u8 && buf[i + 1] == 10u8 && buf[i + 2] == 13u8 && buf[i + 3] == 10u8 {
            return Some(i);
        }
        i = i + 1;
    }
    None
}


/// The lines of a head, split at each `\r\n` (the text after the last one
/// is a line too).
pub open spec fn split_crlf(s: Seq<char>) -> Seq<Seq<char>>
    decreases s.len(),
{
    if s.len() < 2 {
        seq![s]
    } else if s[0] == '\r' && s[1] == '\n' {
        seq![Seq::<char>::empty()] + split_crlf(s.skip(2))
    } else {
        let rest = split_crlf(s.drop_first());
        rest.update(0, seq![s[0]] + rest[0])
    }
}

proof fn lemma_split_crlf_nonempty(s: Seq<char>)
    ensures
        split_crlf(s).len() >= 1,
    decreases s.len(),
{
    if s.len() >= 2 {
        if s[0] == '\r' && s[1] == '\n' {
            lemma_split_crlf_nonempty(s.skip(2));
        } else {
            lemma_split_crlf_nonempty(s.drop_first());
        }
    }
}

/// ASCII lower case of a character.
pub open spec fn ascii_lower(c: char) -> char {
    if 'A' <= c && c <= 'Z' {
        ((c as u32) + 32) as char
    } else {
        c
    }
}

/// Equal ignoring ASCII case.
pub open spec fn eq_ignore_case(a: Seq<char>, b: Seq<char>) -> bool {
    a.len() == b.len() && forall|i: int| 0 <= i < a.len() ==> ascii_lower(#[trigger] a[i]) == ascii_lower(b[i])
}

/// Index of the first `:` in a line.
pub open spec fn first_colon(l: Seq<char>, k: int) -> bool {
    &&& 0 <= k < l.len()
    &&& l[k] == ':'
    &&& forall|j: int| 0 <= j < k ==> l[j] != ':'
}

/// The value of a decimal digit string with an optional leading `+` (the
/// grammar of `usize::from_str`), if it is one.
pub open spec fn digits_value(s: Seq<char>) -> nat
    decreases s.len(),
{
    if s.len() == 0 {
        0
    } else {
        digits_value(s.drop_last()) * 10 + ((s.last() as u32) - ('0' as u32)) as nat
    }
}

pub open spec fn all_digits(s: Seq<char>) -> bool {
    forall|i: int| 0 <= i < s.len() ==> '0' <= #[trigger] s[i] && s[i] <= '9'
}

/// `usize::from_str` on a text: optional `+`, then at least one digit, and
/// a value that fits.
pub open spec fn parse_usize_spec(s: Seq<char>) -> Option<usize> {
    let d = if s.len() > 0 && s[0] == '+' { s.drop_first() } else { s };
    if d.len() > 0 && all_digits(d) && digits_value(d) <= usize::MAX {
        Some(digits_value(d) as usize)
    } else {
        None
    }
}

/// The bearer and the body length the header lines give, read up to the
/// first blank line; a later header of the same name wins.
pub open spec fn header_fold(lines: Seq<Seq<char>>, bearer: Option<Seq<char>>, len: Option<usize>) -> (
    Option<Seq<char>>,
    Option<usize>,
)
    decreases lines.len(),
{
    if lines.len() == 0 || lines[0].len() == 0 {
        (bearer, len)
    } else {
        let l = lines[0];
        if exists|k: int| first_colon(l, k) {
            let k = choose|k: int| first_colon(l, k);
            let name = l.take(k);
            let value = trimmed_text(l.skip(k + 1));
            let b2 = if eq_ignore_case(name, "authorization"@) {
                if seq_starts_with(value, "Bearer "@) {
                    Some(value.skip(7))
                } else {
                    None
                }
            } else {
                bearer
            };
            let n2 = if eq_ignore_case(name, "content-length"@) {
                parse_usize_spec(value)
            } else {
                len
            };
            header_fold(lines.drop_first(), b2, n2)
        } else {
            header_fold(lines.drop_first(), bearer, len)
        }
    }
}

/// The request head as parsed: method, path, bearer token, body length.
pub open spec fn parse_head_spec(head: Seq<char>) -> (Seq<char>, Seq<char>, Option<Seq<char>>, Option<usize>) {
    let lines = split_crlf(head);
    let words = words_text(lines[0]);
    let headers = header_fold(lines.drop_first(), None, None);
    (
        if words.len() > 0 { words[0] } else { Seq::empty() },
        if words.len() > 1 { words[1] } else { Seq::empty() },
        headers.0,
        headers.1,
    )
}

fn lines_of(head: &str) -> (r: Vec<String>)
    ensures
        r@.map_values(|l: String| l@) == split_crlf(head@),
{
    let n = head.unicode_len();
    let mut done: Vec<String> = Vec::new();
    let mut cur = String::new();
    let mut i: usize = 0;
    proof {
        lemma_split_crlf_nonempty(head@);
        assert(head@.skip(0) =~= head@);
        assert(done@.map_values(|l: String| l@) + seq![cur@ + split_crlf(head@.skip(0))[0]] + split_crlf(
            head@.skip(0),
        ).drop_first() =~= split_crlf(head@));
    }
    while i < n
        invariant
            n == head@.len(),
            i <= n,
            done@.map_values(|l: String| l@) + seq![cur@ + split_crlf(head@.skip(i as int))[0]] + split_crlf(
                head@.skip(i as int),
            ).drop_first() == split_crlf(head@),
        decreases n - i,
    {
        let ghost t = head@.skip(i as int);
        let ghost dv = done@.map_values(|l: String| l@);
        let c = head.get_char(i);
        assert(t[0] == c);
        proof {
            lemma_split_crlf_nonempty(t);
        }
        if c == '\r' && i + 1 < n && head.get_char(i + 1) == '\n' {
            proof {
                assert(t[1] == head@[i + 1]);
                assert(t.skip(2) =~= head@.skip(i + 2));
                lemma_split_crlf_nonempty(t.skip(2));
                let r = split_crlf(t.skip(2));
                assert(split_crlf(t) == seq![Seq::<char>::empty()] + r);
                assert(split_crlf(t)[0] =~= Seq::<char>::empty());
                assert(cur@ + Seq::<char>::empty() =~= cur@);
                assert(split_crlf(t).drop_first() =~= r);
                assert(r =~= seq![r[0]] + r.drop_first());
            }
            let ghost cv = cur@;
            done.push(cur);
            cur = String::new();
            proof {
                let r = split_crlf(t.skip(2));
                assert(done@.map_values(|l: String| l@) =~= dv.push(cv));
                assert(Seq::<char>::empty() + r[0] =~= r[0]);
                assert(dv.push(cv) + seq![cur@ + r[0]] + r.drop_first() =~= dv + seq![cv] + (seq![r[0]]
                    + r.drop_first()));
            }
            i = i + 2;
        } else {
            proof {
                if t.len() >= 2 {
                    assert(!(t[0] == '\r' && t[1] == '\n')) by {
                        if t[0] == '\r' && t[1] == '\n' {
                            assert(t[1] == head@[i + 1]);
                        }
                    }
                    assert(t.drop_first() =~= head@.skip(i + 1));
                    let r = split_crlf(t.drop_first());
                    lemma_split_crlf_nonempty(t.drop_first());
                    assert(split_crlf(t) == r.update(0, seq![t[0]] + r[0]));
                    assert(split_crlf(t).drop_first() =~= r.drop_first());
                } else {
                    assert(split_crlf(t) == seq![t]);
                    assert(head@.skip(i + 1) =~= Seq::<char>::empty());
                    assert(split_crlf(head@.skip(i + 1)) == seq![Seq::<char>::empty()]);
                    assert(t =~= seq![c]);
                }
            }
            let ghost cv = cur@;
            push_char(&mut cur, c);
            proof {
                if t.len() >= 2 {
                    let r = split_crlf(t.drop_first());
                    assert(cur@ + r[0] =~= cv + (seq![c] + r[0]));
                } else {
                    assert(cur@ + Seq::<char>::empty() =~= cv + seq![c]);
                }
            }
            i = i + 1;
        }
    }
    proof {
        assert(head@.skip(n as int) =~= Seq::<char>::empty());
        assert(split_crlf(Seq::<char>::empty()) == seq![Seq::<char>::empty()]);
        assert(cur@ + Seq::<char>::empty() =~= cur@);
        assert(split_crlf(Seq::<char>::empty()).drop_first() =~= Seq::<Seq<char>>::empty());
    }
    let ghost dv = done@.map_values(|l: String| l@);
    let ghost cv = cur@;
    done.push(cur);
    assert(done@.map_values(|l: String| l@) =~= dv + seq![cv] + Seq::<Seq<char>>::empty());
    done
}

fn eq_ignore_case_exec(a: &str, b: &str) -> (r: bool)
    ensures
        r == eq_ignore_case(a@, b@),
{
    let n = a.unicode_len();
    if n != b.unicode_len() {
        return false;
    }
    let mut i: usize = 0;
    while i < n
        invariant
            n == a@.len(),
            n == b@.len(),
            i <= n,
            forall|k: int| 0 <= k < i ==> ascii_lower(#[trigger] a@[k]) == ascii_lower(b@[k]),
        decreases n - i,
    {
        let x = a.get_char(i);
        let y = b.get_char(i);
        let lx = if 'A' <= x && x <= 'Z' { ((x as u32) + 32) as u8 as char } else { x };
        let ly = if 'A' <= y && y <= 'Z' { ((y as u32) + 32) as u8 as char } else { y };
        assert(lx == ascii_lower(x)) by {
            if 'A' <= x && x <= 'Z' {
                assert((((x as u32) + 32) as u8 as char) == (((x as u32) + 32) as char));
            }
        }
        assert(ly == ascii_lower(y)) by {
            if 'A' <= y && y <= 'Z' {
                assert((((y as u32) + 32) as u8 as char) == (((y as u32) + 32) as char));
            }
        }
        if lx != ly {
            return false;
        }
        i = i + 1;
    }
    true
}

pub(crate) fn parse_usize(s: &str) -> (r: Option<usize>)
    ensures
        r == parse_usize_spec(s@),
{
    let n = s.unicode_len();
    let start: usize = if n > 0 && s.get_char(0) == '+' { 1 } else { 0 };
    let ghost d = if s@.len() > 0 && s@[0] == '+' { s@.drop_first() } else { s@ };
    assert(d =~= s@.skip(start as int));
    if start >= n {
        return None;
    }
    let mut value: usize = 0;
    let mut i: usize = start;
    assert(d.take(0) =~= Seq::<char>::empty());
    while i < n
        invariant
            n == s@.len(),
            start < n,
            start <= i <= n,
            d == s@.skip(start as int),
            d == (if s@.len() > 0 && s@[0] == '+' { s@.drop_first() } else { s@ }),
            all_digits(d.take(i - start)),
            value == digits_value(d.take(i - start)),
        decreases n - i,
    {
        let c = s.get_char(i);
        assert(d[i - start] == c);
        assert(d.take(i - start + 1).drop_last() =~= d.take(i - start));
        if !('0' <= c && c <= '9') {
            assert(!all_digits(d)) by {
                assert(!('0' <= d[i - start] && d[i - start] <= '9'));
            }
            return None;
        }
        let digit = (c as u32 - '0' as u32) as usize;
        if value > (usize::MAX - digit) / 10 {
            proof {
                assert(digits_value(d.take(i - start + 1)) == value * 10 + digit);
                assert(value * 10 + digit > usize::MAX) by (nonlinear_arith)
                    requires
                        value > (usize::MAX - digit) / 10,
                        digit <= 9,
                ;
                if all_digits(d) {
                    lemma_digits_value_prefix(d, i - start + 1);
                }
            }
            return None;
        }
        assert(value * 10 + digit <= usize::MAX) by (nonlinear_arith)
            requires
                value <= (usize::MAX - digit) / 10,
                digit <= 9,
        ;
        value = value * 10 + digit;
        assert(all_digits(d.take(i - start + 1)));
        i = i + 1;
    }
    assert(d.take(n - start) =~= d);
    Some(value)
}

pub(crate) proof fn lemma_digits_value_prefix(d: Seq<char>, k: int)
    requires
        0 <= k <= d.len(),
        all_digits(d),
    ensures
        digits_value(d.take(k)) <= digits_value(d),
    decreases d.len() - k,
{
    if k < d.len() {
        lemma_digits_value_prefix(d, k + 1);
        assert(d.take(k + 1).drop_last() =~= d.take(k));
        assert('0' <= d[k] && d[k] <= '9');
        assert(digits_value(d.take(k + 1)) == digits_value(d.take(k)) * 10 + ((d[k] as u32) - ('0' as u32)) as nat);
        assert(digits_value(d.take(k)) <= digits_value(d.take(k)) * 10 + ((d[k] as u32) - ('0' as u32)) as nat)
            by (nonlinear_arith);
    } else {
        assert(d.take(k) =~= d);
    }
}

/// Parses a request head: the request line's method and path, the bearer
/// token of `Authorization: Bearer ..`, and `Content-Length`; only the
/// header lines before the first blank one count, header names ignore ASCII
/// case, and a later header overrides an earlier one.
pub fn parse_head(head: &str) -> (r: (String, String, Option<String>, Option<usize>))
    ensures
        (r.0@, r.1@, opt_chars(r.2), r.3) == parse_head_spec(head@),
{
    let lines = lines_of(head);
    let ghost lv = lines@.map_values(|l: String| l@);
    proof {
        lemma_split_crlf_nonempty(head@);
    }
    let words = split_words(lines[0].as_str());
    let method = if words.len() > 0 { words[0].clone() } else { String::new() };
    let path = if words.len() > 1 { words[1].clone() } else { String::new() };
    let mut bearer: Option<String> = None;
    let mut content_length: Option<usize> = None;
    let mut i: usize = 1;
    proof {
        reveal_strlit("authorization");
        reveal_strlit("content-length");
        reveal_strlit("Bearer ");
        assert(lv.skip(1) =~= lv.drop_first());
    }
    while i < lines.len()
        invariant_except_break
            i == lines@.len() ==> lv.skip(i as int) =~= Seq::<Seq<char>>::empty(),
        invariant
            lv == lines@.map_values(|l: String| l@),
            1 <= i <= lines@.len(),
            header_fold(lv.drop_first(), None, None) == header_fold(lv.skip(i as int), opt_chars(bearer), content_length),
        ensures
            header_fold(lv.drop_first(), None, None) == (opt_chars(bearer), content_length),
        decreases lines@.len() - i,
    {
        proof {
            reveal_strlit("authorization");
            reveal_strlit("content-length");
            reveal_strlit("Bearer ");
        }
        let line = lines[i].as_str();
        let ghost l = lv[i as int];
        let ghost bv = opt_chars(bearer);
        assert(l == line@);
        assert(lv.skip(i as int)[0] == l);
        assert(lv.skip(i as int).drop_first() =~= lv.skip(i + 1));
        if line.unicode_len() == 0 {
            proof {
                assert(header_fold(lv.skip(i as int), bv, content_length) == (bv, content_length));
            }
            break;
        }
        let m = line.unicode_len();
        let mut k: usize = 0;
        while k < m && line.get_char(k) != ':'
            invariant
                m == line@.len(),
                k <= m,
                forall|j: int| 0 <= j < k ==> line@[j] != ':',
            decreases m - k,
        {
            k = k + 1;
        }
        if k < m {
            assert(first_colon(l, k as int));
            proof {
                let c = choose|c: int| first_colon(l, c);
                if c < k {
                    assert(l[c] != ':');
                }
                if k < c {
                    assert(l[k as int] != ':');
                }
            }
            let name = line.substring_char(0, k);
            let rest = line.substring_char(k + 1, m);
            assert(name@ =~= l.take(k as int));
            assert(rest@ =~= l.skip(k + 1));
            let value = trim_text(rest);
            if eq_ignore_case_exec(name, "authorization") {
                if str_starts_with(value, "Bearer ") {
                    let vn = value.unicode_len();
                    let token = value.substring_char(7, vn);
                    assert(token@ =~= value@.skip(7));
                    bearer = Some(token.to_owned());
                } else {
                    bearer = None;
                }
            }
            if eq_ignore_case_exec(name, "content-length") {
                content_length = parse_usize(value);
            }
        } else {
            assert(!exists|c: int| first_colon(l, c));
        }
        i = i + 1;
    }
    (method, path, bearer, content_length)
}

} // verus!

verus! {

/// Where an admin request goes.
#[derive(Debug, Clone, PartialEq, Eq)]
pub enum AdminRoute {
    CreateShare,
    ListShares,
    RevokeShare { share_id: String },
    ListWorkspaces,
    AddWorkspace,
    RemoveWorkspace { id: String },
    ListAgents,
    CreateAgent,
    UpdateAgent { agent_id: String },
    RemoveAgent { agent_id: String },
    NotFound,
}

/// Abstract route.
pub enum AdminRouteView {
    CreateShare,
    ListShares,
    RevokeShare { share_id: Seq<char> },
    ListWorkspaces,
    AddWorkspace,
    RemoveWorkspace { id: Seq<char> },
    ListAgents,
    CreateAgent,
    UpdateAgent { agent_id: Seq<char> },
    RemoveAgent { agent_id: Seq<char> },
    NotFound,
}

impl View for AdminRoute {
    type V = AdminRouteView;

    open spec fn view(&self) -> AdminRouteView {
        match self {
            AdminRoute::CreateShare => AdminRouteView::CreateShare,
            AdminRoute::ListShares => AdminRouteView::ListShares,
            AdminRoute::RevokeShare { share_id } => AdminRouteView::RevokeShare { share_id: share_id@ },
            AdminRoute::ListWorkspaces => AdminRouteView::ListWorkspaces,
            AdminRoute::AddWorkspace => AdminRouteView::AddWorkspace,
            AdminRoute::RemoveWorkspace { id } => AdminRouteView::RemoveWorkspace { id: id@ },
            AdminRoute::ListAgents => AdminRouteView::ListAgents,
            AdminRoute::CreateAgent => AdminRouteView::CreateAgent,
            AdminRoute::UpdateAgent { agent_id } => AdminRouteView::UpdateAgent { agent_id: agent_id@ },
            AdminRoute::RemoveAgent { agent_id } => AdminRouteView::RemoveAgent { agent_id: agent_id@ },
            AdminRoute::NotFound => AdminRouteView::NotFound,
        }
    }
}

/// The route of a request: shares (`POST`/`GET /shares`, `DELETE
/// /shares/<id>`), workspaces (`GET`/`POST /workspaces`, `DELETE
/// /workspaces/<id>`), agents (`GET`/`POST /a2a/agents`, `PUT`/`DELETE
/// /a2a/agents/<id>`); ids are the target with every leading copy of the
/// prefix removed. Anything else is not found.
pub open spec fn admin_route_spec(method: Seq<char>, target: Seq<char>) -> AdminRouteView {
    if method == "POST"@ && target == "/shares"@ {
        AdminRouteView::CreateShare
    } else if method == "GET"@ && target == "/shares"@ {
        AdminRouteView::ListShares
    } else if method == "DELETE"@ && seq_starts_with(target, "/shares/"@) {
        AdminRouteView::RevokeShare { share_id: strip_all(target, "/shares/"@) }
    } else if method == "GET"@ && target == "/workspaces"@ {
        AdminRouteView::ListWorkspaces
    } else if method == "POST"@ && target == "/workspaces"@ {
        AdminRouteView::AddWorkspace
    } else if method == "DELETE"@ && seq_starts_with(target, "/workspaces/"@) {
        AdminRouteView::RemoveWorkspace { id: strip_all(target, "/workspaces/"@) }
    } else if method == "GET"@ && target == "/a2a/agents"@ {
        AdminRouteView::ListAgents
    } else if method == "POST"@ && target == "/a2a/agents"@ {
        AdminRouteView::CreateAgent
    } else if method == "PUT"@ && agent_path_id_spec(target) is Some {
        AdminRouteView::UpdateAgent { agent_id: agent_path_id_spec(target)->0 }
    } else if method == "DELETE"@ && agent_path_id_spec(target) is Some {
        AdminRouteView::RemoveAgent { agent_id: agent_path_id_spec(target)->0 }
    } else {
        AdminRouteView::NotFound
    }
}

/// Routes an admin request.
pub fn admin_route(method: &str, target: &str) -> (r: AdminRoute)
    ensures
        r@ == admin_route_spec(method@, target@),
{
    let post = str_eq(method, "POST");
    let get = str_eq(method, "GET");
    let delete = str_eq(method, "DELETE");
    let put = str_eq(method, "PUT");
    if post && str_eq(target, "/shares") {
        return AdminRoute::CreateShare;
    }
    if get && str_eq(target, "/shares") {
        return AdminRoute::ListShares;
    }
    if delete && str_starts_with(target, "/shares/") {
        return AdminRoute::RevokeShare { share_id: trim_start_matches(target, "/shares/").to_owned() };
    }
    if get && str_eq(target, "/workspaces") {
        return AdminRoute::ListWorkspaces;
    }
    if post && str_eq(target, "/workspaces") {
        return AdminRoute::AddWorkspace;
    }
    if delete && str_starts_with(target, "/workspaces/") {
        return AdminRoute::RemoveWorkspace { id: trim_start_matches(target, "/workspaces/").to_owned() };
    }
    if get && str_eq(target, "/a2a/agents") {
        return AdminRoute::ListAgents;
    }
    if post && str_eq(target, "/a2a/agents") {
        return AdminRoute::CreateAgent;
    }
    if put || delete {
        if let Some(agent_id) = agent_path_id(target) {
            return if put {
                AdminRoute::UpdateAgent { agent_id }
            } else {
                AdminRoute::RemoveAgent { agent_id }
            };
        }
    }
    AdminRoute::NotFound
}

} // verus!
