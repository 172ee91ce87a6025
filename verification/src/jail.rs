//! The cwd jail: the scope of a grant decides the child's working directory,
//! and a remote peer can never name an arbitrary path. Sandbox = a per-peer
//! jail `<sandbox root>/<peer id>/` (created when missing); workspace = the
//! locked directory of a configured workspace; owner = the bridge's own cwd
//! (loopback grants only). Leaving the jail is refused.
//!
//! The host creates and canonicalizes the directories a [`JailPlan`] names.

use vstd::prelude::*;
use vstd::string::*;

use crate::text::{push_char, str_eq};
use crate::workspaces::{resolve_spec, WorkspaceStore};

verus! {

broadcast use vstd::string::group_string_axioms;

/// The scope of a grant.
#[derive(Debug, Clone, Copy, PartialEq, Eq, Structural)]
pub enum Scope {
    /// Full access from the bridge's own directory (loopback only).
    Owner,
    /// A private per-peer jail.
    Sandbox,
    /// A locked, configured workspace directory.
    Workspace,
}

/// Jail errors.
#[derive(Debug, Clone, PartialEq, Eq)]
pub enum JailError {
    /// A workspace scope was granted but no default workspace is configured.
    WorkspaceUnconfigured,
    /// The named workspace is not configured.
    WorkspaceUnknown { id: String },
    /// A jail directory could not be created or resolved.
    Io { path: String, detail: String },
    /// The resolved directory lies outside its jail.
    Escape { resolved: String, jail: String },
}

/// Where the child's working directory is to be made.
#[derive(Debug, Clone, PartialEq, Eq)]
pub enum JailPlan {
    /// Inherit the bridge's working directory.
    Inherit,
    /// The per-peer jail: directory `peer_dir` under `root`; both are
    /// created, and the jail must stay inside the root.
    Sandbox { root: String, peer_dir: String },
    /// The workspace directory, created when missing.
    Workspace { dir: String },
}

/// A character kept in a peer id: ASCII letter or digit, `-` or `_`.
pub open spec fn kept_char(c: char) -> bool {
    ('0' <= c && c <= '9') || ('a' <= c && c <= 'z') || ('A' <= c && c <= 'Z') || c == '-' || c == '_'
}

/// A peer id with every other character replaced by `_`.
pub open spec fn sanitized(peer_id: Seq<char>) -> Seq<char> {
    Seq::new(peer_id.len(), |i: int| if kept_char(peer_id[i]) { peer_id[i] } else { '_' })
}

/// Makes a peer id safe as one path segment: every character outside
/// `[A-Za-z0-9_-]` becomes `_`, so no separator or `..` survives.
pub fn sanitize(peer_id: &str) -> (s: String)
    ensures
        s@ == sanitized(peer_id@),
{
    let n = peer_id.unicode_len();
    let mut out = String::new();
    let mut i: usize = 0;
    while i < n
        invariant
            n == peer_id@.len(),
            i <= n,
            out@ == sanitized(peer_id@).subrange(0, i as int),
        decreases n - i,
    {
        let c = peer_id.get_char(i);
        let keep = ('0' <= c && c <= '9') || ('a' <= c && c <= 'z') || ('A' <= c && c <= 'Z') || c == '-' || c == '_';
        if keep {
            push_char(&mut out, c);
        } else {
            push_char(&mut out, '_');
        }
        assert(sanitized(peer_id@).subrange(0, i + 1) =~= sanitized(peer_id@).subrange(0, i as int).push(
            if keep { c } else { '_' },
        ));
        i = i + 1;
    }
    assert(sanitized(peer_id@).subrange(0, n as int) =~= sanitized(peer_id@));
    out
}

/// The text between separators: `/a//b` gives `""`, `a`, `""`, `b`.
pub open spec fn split_segments(p: Seq<char>) -> Seq<Seq<char>>
    decreases p.len(),
{
    if p.len() == 0 {
        seq![Seq::<char>::empty()]
    } else {
        let prev = split_segments(p.drop_last());
        if p.last() == '/' {
            prev.push(Seq::<char>::empty())
        } else {
            prev.update(prev.len() - 1, prev.last().push(p.last()))
        }
    }
}

proof fn lemma_split_nonempty(p: Seq<char>)
    ensures
        split_segments(p).len() >= 1,
    decreases p.len(),
{
    if p.len() > 0 {
        lemma_split_nonempty(p.drop_last());
    }
}

/// A segment that is a normal component: not empty and not `.`.
pub open spec fn is_normal(s: Seq<char>) -> bool {
    s.len() > 0 && s != "."@
}

/// The normal components among segments, in order.
pub open spec fn normal_parts(segs: Seq<Seq<char>>) -> Seq<Seq<char>>
    decreases segs.len(),
{
    if segs.len() == 0 {
        Seq::empty()
    } else {
        let sub = normal_parts(segs.drop_last());
        if is_normal(segs.last()) {
            sub.push(segs.last())
        } else {
            sub
        }
    }
}

/// The path is absolute.
pub open spec fn is_rooted(p: Seq<char>) -> bool {
    p.len() > 0 && p[0] == '/'
}

/// The leading component: the root of an absolute path, or the `.` that
/// begins a relative path; none otherwise.
pub open spec fn lead_part(p: Seq<char>) -> Seq<Seq<char>> {
    if is_rooted(p) {
        seq!["/"@]
    } else if split_segments(p)[0] == "."@ {
        seq!["."@]
    } else {
        Seq::empty()
    }
}

/// The components of a path (the model of `std::path::Path::components` on
/// Unix): repeated separators and `.` inside the path are ignored, a root
/// or a leading `.` is a component of its own.
pub open spec fn components(p: Seq<char>) -> Seq<Seq<char>> {
    let segs = split_segments(p);
    lead_part(p) + normal_parts(segs.subrange(if lead_part(p).len() > 0 { 1int } else { 0int }, segs.len() as int))
}

/// `path` lies within `base`, component by component.
pub open spec fn within(path: Seq<char>, base: Seq<char>) -> bool {
    let cp = components(path);
    let cb = components(base);
    cb.len() <= cp.len() && cp.subrange(0, cb.len() as int) == cb
}

fn segments(p: &str) -> (r: Vec<String>)
    ensures
        r@.map_values(|s: String| s@) == split_segments(p@),
{
    let n = p.unicode_len();
    let mut parts: Vec<String> = Vec::new();
    let mut cur = String::new();
    let mut i: usize = 0;
    assert(p@.take(0) =~= Seq::<char>::empty());
    while i < n
        invariant
            n == p@.len(),
            i <= n,
            parts@.map_values(|s: String| s@).push(cur@) == split_segments(p@.take(i as int)),
        decreases n - i,
    {
        let c = p.get_char(i);
        let ghost before = parts@.map_values(|s: String| s@);
        assert(p@.take(i + 1).drop_last() =~= p@.take(i as int));
        assert(p@.take(i + 1).last() == c);
        if c == '/' {
            let done = cur;
            parts.push(done);
            cur = String::new();
            assert(parts@.map_values(|s: String| s@) =~= before.push(done@));
            assert(parts@.map_values(|s: String| s@).push(cur@) =~= before.push(done@).push(Seq::<char>::empty()));
        } else {
            let ghost old_cur = cur@;
            push_char(&mut cur, c);
            assert(parts@.map_values(|s: String| s@) =~= before);
            assert(before.push(cur@) =~= before.push(old_cur).update(before.len() as int, old_cur.push(c)));
        }
        i = i + 1;
    }
    let ghost before = parts@.map_values(|s: String| s@);
    parts.push(cur);
    assert(p@.take(n as int) =~= p@);
    assert(parts@.map_values(|s: String| s@) =~= before.push(cur@));
    parts
}

fn components_of(p: &str) -> (r: Vec<String>)
    ensures
        r@.map_values(|s: String| s@) == components(p@),
{
    let segs = segments(p);
    let ghost sv = segs@.map_values(|s: String| s@);
    proof {
        lemma_split_nonempty(p@);
        reveal_strlit("/");
        reveal_strlit(".");
    }
    let mut out: Vec<String> = Vec::new();
    let rooted = p.unicode_len() > 0 && p.get_char(0) == '/';
    let start: usize = if rooted {
        out.push("/".to_owned());
        1
    } else if str_eq(segs[0].as_str(), ".") {
        out.push(".".to_owned());
        1
    } else {
        0
    };
    let ghost lead = out@.map_values(|s: String| s@);
    assert(lead =~= lead_part(p@));
    let mut j: usize = start;
    assert(sv.subrange(start as int, start as int) =~= Seq::<Seq<char>>::empty());
    assert(lead + normal_parts(Seq::<Seq<char>>::empty()) =~= lead);
    while j < segs.len()
        invariant
            sv == segs@.map_values(|s: String| s@),
            start <= j <= segs@.len(),
            out@.map_values(|s: String| s@) == lead + normal_parts(sv.subrange(start as int, j as int)),
        decreases segs@.len() - j,
    {
        let ghost before = out@.map_values(|s: String| s@);
        let seg = &segs[j];
        assert(sv.subrange(start as int, j + 1).drop_last() =~= sv.subrange(start as int, j as int));
        assert(sv.subrange(start as int, j + 1).last() == seg@);
        if seg.as_str().unicode_len() > 0 && !str_eq(seg.as_str(), ".") {
            out.push(seg.clone());
            assert(out@.map_values(|s: String| s@) =~= before.push(seg@));
            assert(lead + normal_parts(sv.subrange(start as int, j + 1)) =~= (lead + normal_parts(
                sv.subrange(start as int, j as int),
            )).push(seg@));
        } else {
            assert(out@.map_values(|s: String| s@) =~= before);
        }
        j = j + 1;
    }
    out
}

/// Whether `path` lies within `base` component by component (a sibling
/// such as `/jail-twin` does not lie within `/jail`).
pub fn is_within(path: &str, base: &str) -> (r: bool)
    ensures
        r == within(path@, base@),
{
    let cp = components_of(path);
    let cb = components_of(base);
    let ghost vp = cp@.map_values(|s: String| s@);
    let ghost vb = cb@.map_values(|s: String| s@);
    if cb.len() > cp.len() {
        return false;
    }
    let mut i: usize = 0;
    while i < cb.len()
        invariant
            vp == cp@.map_values(|s: String| s@),
            vb == cb@.map_values(|s: String| s@),
            vp == components(path@),
            vb == components(base@),
            cb@.len() <= cp@.len(),
            i <= cb@.len(),
            forall|k: int| 0 <= k < i ==> vp[k] == vb[k],
        decreases cb@.len() - i,
    {
        assert(vp[i as int] == cp@[i as int]@);
        assert(vb[i as int] == cb@[i as int]@);
        if !str_eq(cp[i].as_str(), cb[i].as_str()) {
            assert(vp[i as int] == cp@[i as int]@);
            assert(vb[i as int] == cb@[i as int]@);
            assert(vp.subrange(0, vb.len() as int)[i as int] != vb[i as int]);
            assert(vp.subrange(0, vb.len() as int) != vb);
            return false;
        }
        i = i + 1;
    }
    assert(vp.subrange(0, vb.len() as int) =~= vb);
    true
}

/// Refuses a resolved directory outside its jail.
pub fn require_prefix(resolved: &str, jail: &str) -> (r: Result<(), JailError>)
    ensures
        within(resolved@, jail@) ==> r is Ok,
        !within(resolved@, jail@) ==> (r matches Err(JailError::Escape { resolved: x, jail: y }) && x@ == resolved@
            && y@ == jail@),
{
    if is_within(resolved, jail) {
        Ok(())
    } else {
        Err(JailError::Escape { resolved: resolved.to_owned(), jail: jail.to_owned() })
    }
}

/// Abstract jail plan.
pub enum JailPlanView {
    Inherit,
    Sandbox { root: Seq<char>, peer_dir: Seq<char> },
    Workspace { dir: Seq<char> },
}

impl View for JailPlan {
    type V = JailPlanView;

    open spec fn view(&self) -> JailPlanView {
        match self {
            JailPlan::Inherit => JailPlanView::Inherit,
            JailPlan::Sandbox { root, peer_dir } => JailPlanView::Sandbox { root: root@, peer_dir: peer_dir@ },
            JailPlan::Workspace { dir } => JailPlanView::Workspace { dir: dir@ },
        }
    }
}

/// Decides the child's working directory from the grant's scope: the owner
/// inherits; a sandbox peer gets its sanitized jail under the sandbox root;
/// a workspace share gets the named workspace (no id = `default`), and an
/// unknown one is refused.
pub fn resolve(
    sandbox_root: &str,
    workspaces: &WorkspaceStore,
    scope: Scope,
    peer_id: &str,
    workspace: Option<&str>,
) -> (r: Result<JailPlan, JailError>)
    ensures
        scope == Scope::Owner ==> (r matches Ok(p) && p@ == JailPlanView::Inherit),
        scope == Scope::Sandbox ==> (r matches Ok(p) && p@ == (JailPlanView::Sandbox {
            root: sandbox_root@,
            peer_dir: sanitized(peer_id@),
        })),
        scope == Scope::Workspace ==> match resolve_spec(workspaces@, workspaces.legacy(), match workspace {
            Some(s) => s@,
            None => "default"@,
        }) {
            Some(w) => r matches Ok(p) && p@ == (JailPlanView::Workspace { dir: w.2 }),
            None => match workspace {
                Some(id) => r matches Err(JailError::WorkspaceUnknown { id: x }) && x@ == id@,
                None => r == Err::<JailPlan, JailError>(JailError::WorkspaceUnconfigured),
            },
        },
{
    match scope {
        Scope::Owner => Ok(JailPlan::Inherit),
        Scope::Sandbox => Ok(JailPlan::Sandbox { root: sandbox_root.to_owned(), peer_dir: sanitize(peer_id) }),
        Scope::Workspace => match workspaces.resolve(workspace) {
            None => Err(match workspace {
                Some(id) => JailError::WorkspaceUnknown { id: id.to_owned() },
                None => JailError::WorkspaceUnconfigured,
            }),
            Some(ws) => Ok(JailPlan::Workspace { dir: ws.dir }),
        },
    }
}

/// A sanitized peer id holds only `[A-Za-z0-9_-]`: no separator and no dot
/// survive, so it names exactly one directory below the sandbox root.
pub proof fn sanitized_is_one_segment(peer_id: Seq<char>)
    ensures
        forall|i: int| 0 <= i < sanitized(peer_id).len() ==> kept_char(#[trigger] sanitized(peer_id)[i]),
        !sanitized(peer_id).contains('/'),
        !sanitized(peer_id).contains('.'),
{
    if sanitized(peer_id).contains('/') {
        let i = choose|i: int| 0 <= i < sanitized(peer_id).len() && sanitized(peer_id)[i] == '/';
        assert(kept_char(sanitized(peer_id)[i]));
    }
    if sanitized(peer_id).contains('.') {
        let i = choose|i: int| 0 <= i < sanitized(peer_id).len() && sanitized(peer_id)[i] == '.';
        assert(kept_char(sanitized(peer_id)[i]));
    }
}

} // verus!
