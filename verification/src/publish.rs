//! Bootstrap addresses of the presence publisher: `ip/u<port>` names a QUIC
//! rendezvous point, `ip/t<port>` a TCP one. The text splits at its first
//! `/`; the port follows the grammar of `u16::from_str`. The host reads the
//! IP text as an address.

use vstd::prelude::*;
use vstd::string::*;

use crate::admin::{parse_usize, parse_usize_spec};
use crate::agents::{defs_view, AgentDef, AgentDefView, AgentStore, Visibility};

verus! {

broadcast use vstd::string::group_string_axioms;

/// Transport of a bootstrap address.
#[derive(Debug, Clone, Copy, PartialEq, Eq, Structural)]
pub enum Transport {
    Quic,
    Tcp,
}

/// Index of the first `/`.
pub open spec fn first_slash(s: Seq<char>, k: int) -> bool {
    &&& 0 <= k < s.len()
    &&& s[k] == '/'
    &&& forall|j: int| 0 <= j < k ==> s[j] != '/'
}

/// `u16::from_str` on a text.
pub open spec fn parse_u16_spec(s: Seq<char>) -> Option<u16> {
    match parse_usize_spec(s) {
        Some(v) => if v <= 65535 {
            Some(v as u16)
        } else {
            None
        },
        None => None,
    }
}

/// The transport a tag character names.
pub open spec fn transport_of(c: char) -> Option<Transport> {
    if c == 'u' {
        Some(Transport::Quic)
    } else if c == 't' {
        Some(Transport::Tcp)
    } else {
        None
    }
}

/// The parts of a bootstrap address: the IP text before the first `/`, the
/// transport its tag names and the port after the tag.
pub open spec fn bootstrap_spec(s: Seq<char>) -> Option<(Seq<char>, Transport, u16)> {
    if exists|k: int| first_slash(s, k) {
        let k = choose|k: int| first_slash(s, k);
        let tail = s.skip(k + 1);
        if tail.len() == 0 {
            None
        } else {
            match (transport_of(tail[0]), parse_u16_spec(tail.skip(1))) {
                (Some(t), Some(p)) => Some((s.take(k), t, p)),
                _ => None,
            }
        }
    } else {
        None
    }
}

proof fn lemma_first_slash_unique(s: Seq<char>, k: int, m: int)
    requires
        first_slash(s, k),
        first_slash(s, m),
    ensures
        k == m,
{
    if k < m {
        assert(s[k] != '/');
    } else if m < k {
        assert(s[m] != '/');
    }
}

/// Splits a bootstrap address into its IP text, transport and port.
pub fn bootstrap_parts(s: &str) -> (r: Option<(String, Transport, u16)>)
    ensures
        match r {
            Some((ip, t, p)) => bootstrap_spec(s@) == Some((ip@, t, p)),
            None => bootstrap_spec(s@) is None,
        },
{
    let n = s.unicode_len();
    let mut k: usize = 0;
    while k < n && s.get_char(k) != '/'
        invariant
            n == s@.len(),
            k <= n,
            forall|j: int| 0 <= j < k ==> s@[j] != '/',
        decreases n - k,
    {
        k = k + 1;
    }
    if k >= n {
        assert forall|m: int| !first_slash(s@, m) by {
            if first_slash(s@, m) {
                assert(s@[m] != '/');
            }
        }
        return None;
    }
    assert(first_slash(s@, k as int));
    proof {
        let c = choose|m: int| first_slash(s@, m);
        lemma_first_slash_unique(s@, k as int, c);
    }
    let tail = s.substring_char(k + 1, n);
    assert(tail@ =~= s@.skip(k + 1));
    let t = tail.unicode_len();
    if t == 0 {
        return None;
    }
    let tag = tail.get_char(0);
    let kind = if tag == 'u' {
        Transport::Quic
    } else if tag == 't' {
        Transport::Tcp
    } else {
        return None;
    };
    let digits = tail.substring_char(1, t);
    assert(digits@ =~= tail@.skip(1));
    match parse_usize(digits) {
        Some(v) => {
            if v <= 65535 {
                let ip = s.substring_char(0, k);
                assert(ip@ =~= s@.take(k as int));
                Some((ip.to_owned(), kind, v as u16))
            } else {
                None
            }
        },
        None => None,
    }
}

/// The rendezvous points a publisher dials: none when publishing is off,
/// when no bootstrap address is configured, or when any one of them is
/// malformed; else every address split into its parts, in order.
pub fn publisher_addrs(disabled: bool, bootstrap: &Vec<String>) -> (r: Option<Vec<(String, Transport, u16)>>)
    ensures
        match r {
            None => disabled || bootstrap@.len() == 0 || exists|i: int|
                0 <= i < bootstrap@.len() && (#[trigger] bootstrap_spec(bootstrap@[i]@)) is None,
            Some(v) => {
                &&& !disabled
                &&& bootstrap@.len() > 0
                &&& v@.len() == bootstrap@.len()
                &&& forall|i: int|
                    0 <= i < v@.len() ==> bootstrap_spec(bootstrap@[i]@) == Some(
                        (v@[i].0@, v@[i].1, v@[i].2),
                    )
            },
        },
{
    if disabled || bootstrap.len() == 0 {
        return None;
    }
    let mut out: Vec<(String, Transport, u16)> = Vec::new();
    let mut i: usize = 0;
    while i < bootstrap.len()
        invariant
            i <= bootstrap@.len(),
            out@.len() == i,
            forall|j: int|
                0 <= j < i ==> bootstrap_spec(bootstrap@[j]@) == Some((out@[j].0@, out@[j].1, out@[j].2)),
        decreases bootstrap@.len() - i,
    {
        match bootstrap_parts(bootstrap[i].as_str()) {
            Some(parts) => {
                out.push(parts);
            },
            None => {
                assert(bootstrap_spec(bootstrap@[i as int]@) is None);
                return None;
            },
        }
        i = i + 1;
    }
    Some(out)
}

/// Whether a definition's card goes to the card subscribers on each
/// heartbeat: enabled and public (private cards travel only by invite).
pub open spec fn heartbeat_card(d: AgentDefView) -> bool {
    d.enabled && d.visibility == Visibility::Public
}

/// The definitions whose cards each heartbeat pushes, in book order.
pub fn heartbeat_defs(agents: &AgentStore) -> (r: Vec<AgentDef>)
    ensures
        defs_view(r@) == agents@.filter(|d: AgentDefView| heartbeat_card(d)),
{
    let none: Vec<String> = Vec::new();
    let r = agents.visible_defs(false, &none);
    proof {
        let gv = none@.map_values(|g: String| g@);
        assert(gv =~= Seq::<Seq<char>>::empty());
        let p1 = |d: AgentDefView| crate::agents::is_visible(d, false, gv);
        let p2 = |d: AgentDefView| heartbeat_card(d);
        assert(p1 =~= p2);
    }
    r
}

} // verus!
