//! Local agent definition book: the owner adds, edits and removes agent
//! declarations; enabled non-local ones are offered on the network, and
//! each requester sees the public ones plus the private ones granted to it.

use vstd::prelude::*;
use vstd::string::*;

use crate::text::{decimal, push_decimal, push_str, seq_starts_with, str_starts_with, strip_all, trim_start_matches};

verus! {

broadcast use vstd::string::group_string_axioms;

/// Book file name (relative to the data directory).
pub const AGENTS_FILE: &'static str = "a2a-agents.json";
/// Most definitions the book holds.
pub const AGENTS_MAX: usize = 32;
/// Lifetime of an agent card in seconds.
pub const TTL_DEFAULT_SECS: u64 = 300;

/// Who may see an agent: anyone, granted peers, or the owner only.
#[derive(Debug, Clone, Copy, PartialEq, Eq, Structural)]
pub enum Visibility {
    Public,
    Private,
    Local,
}

/// One skill advertised on an agent card.
#[derive(Debug, Clone, PartialEq, Eq)]
pub struct AgentSkill {
    pub id: String,
    pub name: String,
    pub description: String,
}

/// Abstract skill: (id, name, description).
pub type SkillView = (Seq<char>, Seq<char>, Seq<char>);

impl View for AgentSkill {
    type V = SkillView;

    open spec fn view(&self) -> SkillView {
        (self.id@, self.name@, self.description@)
    }
}

/// Abstract skills of a list.
pub open spec fn skills_view(v: Seq<AgentSkill>) -> Seq<SkillView> {
    v.map_values(|s: AgentSkill| s@)
}

impl AgentSkill {
    /// A field-by-field copy.
    pub fn copy(&self) -> (r: Self)
        ensures
            r@ == self@,
    {
        AgentSkill { id: self.id.clone(), name: self.name.clone(), description: self.description.clone() }
    }
}

fn copy_skills(v: &Vec<AgentSkill>) -> (r: Vec<AgentSkill>)
    ensures
        skills_view(r@) == skills_view(v@),
{
    let mut r: Vec<AgentSkill> = Vec::new();
    let mut i: usize = 0;
    while i < v.len()
        invariant
            i <= v@.len(),
            skills_view(r@) == skills_view(v@.take(i as int)),
        decreases v@.len() - i,
    {
        let s = v[i].copy();
        let ghost before = r@;
        r.push(s);
        assert(skills_view(r@) =~= skills_view(before).push(s@));
        assert(skills_view(v@.take(i + 1)) =~= skills_view(v@.take(i as int)).push(v@[i as int]@));
        i = i + 1;
    }
    assert(v@.take(v@.len() as int) =~= v@);
    r
}

/// One local agent declaration.
#[derive(Debug, Clone, PartialEq, Eq)]
pub struct AgentDef {
    pub agent_id: String,
    pub name: String,
    pub description: String,
    pub skills: Vec<AgentSkill>,
    pub visibility: Visibility,
    /// A disabled agent keeps its definition but is offered nowhere.
    pub enabled: bool,
    pub created_at: u64,
}

/// Abstract agent declaration.
pub struct AgentDefView {
    pub agent_id: Seq<char>,
    pub name: Seq<char>,
    pub description: Seq<char>,
    pub skills: Seq<SkillView>,
    pub visibility: Visibility,
    pub enabled: bool,
    pub created_at: u64,
}

impl View for AgentDef {
    type V = AgentDefView;

    open spec fn view(&self) -> AgentDefView {
        AgentDefView {
            agent_id: self.agent_id@,
            name: self.name@,
            description: self.description@,
            skills: skills_view(self.skills@),
            visibility: self.visibility,
            enabled: self.enabled,
            created_at: self.created_at,
        }
    }
}

impl AgentDef {
    /// A field-by-field copy.
    pub fn copy(&self) -> (r: Self)
        ensures
            r@ == self@,
    {
        AgentDef {
            agent_id: self.agent_id.clone(),
            name: self.name.clone(),
            description: self.description.clone(),
            skills: copy_skills(&self.skills),
            visibility: self.visibility,
            enabled: self.enabled,
            created_at: self.created_at,
        }
    }
}

/// Abstract definitions of a list.
pub open spec fn defs_view(v: Seq<AgentDef>) -> Seq<AgentDefView> {
    v.map_values(|d: AgentDef| d@)
}

fn copy_defs(v: &Vec<AgentDef>) -> (r: Vec<AgentDef>)
    ensures
        defs_view(r@) == defs_view(v@),
{
    let mut r: Vec<AgentDef> = Vec::new();
    let mut i: usize = 0;
    while i < v.len()
        invariant
            i <= v@.len(),
            defs_view(r@) == defs_view(v@.take(i as int)),
        decreases v@.len() - i,
    {
        let d = v[i].copy();
        let ghost before = r@;
        r.push(d);
        assert(defs_view(r@) =~= defs_view(before).push(d@));
        assert(defs_view(v@.take(i + 1)) =~= defs_view(v@.take(i as int)).push(v@[i as int]@));
        i = i + 1;
    }
    assert(v@.take(v@.len() as int) =~= v@);
    r
}

/// Book errors.
#[derive(Debug, Clone, PartialEq, Eq)]
pub enum StoreError {
    /// The agent id is already taken.
    Duplicate(String),
    /// No agent has this id.
    Unknown(String),
    /// The book already holds the most definitions it may.
    Full,
    /// The definition cannot be turned into a card.
    Invalid(String),
    /// Reading or writing the book failed.
    Io(String),
}

/// Capabilities advertised on a card.
#[derive(Debug, Clone, Copy, PartialEq, Eq)]
pub struct AgentCapabilities {
    pub streaming: bool,
}

/// The card body published for an agent (signed before it leaves the host).
#[derive(Debug, Clone, PartialEq, Eq)]
pub struct AgentCard {
    pub agent_id: String,
    pub name: String,
    pub description: String,
    pub url: String,
    pub host_peer: String,
    pub visibility: Visibility,
    pub capabilities: AgentCapabilities,
    pub skills: Vec<AgentSkill>,
    pub ttl_secs: u64,
    pub version: u32,
}

/// Address of an agent: `a2a://<host peer>/<agent id>`.
pub open spec fn agent_url(host_peer: Seq<char>, agent_id: Seq<char>) -> Seq<char> {
    "a2a://"@ + host_peer + "/"@ + agent_id
}

/// A lowercase hexadecimal digit.
pub open spec fn is_lower_hex(c: char) -> bool {
    ('0' <= c && c <= '9') || ('a' <= c && c <= 'f')
}

/// `uuid::Uuid::new_v4().simple()` rendered as text: a random UUID as 32
/// lowercase hexadecimal digits.
#[verifier::external_body]
fn new_uuid_simple() -> (s: String)
    ensures
        s@.len() == 32,
        forall|i: int| 0 <= i < 32 ==> is_lower_hex(#[trigger] s@[i]),
{
    uuid::Uuid::new_v4().simple().to_string()
}

/// Index of the first definition with this id.
pub open spec fn first_with_id(s: Seq<AgentDefView>, id: Seq<char>, i: int) -> bool {
    &&& 0 <= i < s.len()
    &&& s[i].agent_id == id
    &&& forall|k: int| 0 <= k < i ==> s[k].agent_id != id
}

/// Some definition carries this id.
pub open spec fn has_id(s: Seq<AgentDefView>, id: Seq<char>) -> bool {
    exists|i: int| 0 <= i < s.len() && s[i].agent_id == id
}

/// Offered on the network: enabled and not local.
pub open spec fn is_network(d: AgentDefView) -> bool {
    d.enabled && d.visibility != Visibility::Local
}

/// Visible to a requester: enabled, and the requester is the owner, or the
/// agent is public, or it is private and its id is among the ids granted to
/// the requester. A local agent never leaves the owner's side.
pub open spec fn is_visible(d: AgentDefView, requester_is_owner: bool, granted: Seq<Seq<char>>) -> bool {
    d.enabled && (requester_is_owner || d.visibility == Visibility::Public || (d.visibility == Visibility::Private
        && granted.contains(d.agent_id)))
}

/// Local agent definitions in creation order.
pub struct AgentStore {
    defs: Vec<AgentDef>,
}

impl View for AgentStore {
    type V = Seq<AgentDefView>;

    closed spec fn view(&self) -> Seq<AgentDefView> {
        defs_view(self.defs@)
    }
}

impl AgentStore {
    /// An empty book.
    pub fn new() -> (s: Self)
        ensures
            s@ == Seq::<AgentDefView>::empty(),
    {
        let s = AgentStore { defs: Vec::new() };
        assert(s@ =~= Seq::<AgentDefView>::empty());
        s
    }

    /// A book holding the given definitions (as loaded from disk).
    pub fn from_defs(defs: Vec<AgentDef>) -> (s: Self)
        ensures
            s@ == defs_view(defs@),
    {
        AgentStore { defs }
    }

    fn find(&self, agent_id: &str) -> (r: Option<usize>)
        ensures
            match r {
                Some(i) => first_with_id(self@, agent_id@, i as int),
                None => !has_id(self@, agent_id@),
            },
    {
        let key = agent_id.to_owned();
        let mut i: usize = 0;
        while i < self.defs.len()
            invariant
                i <= self.defs@.len(),
                key@ == agent_id@,
                forall|k: int| 0 <= k < i ==> #[trigger] self@[k].agent_id != agent_id@,
            decreases self.defs@.len() - i,
        {
            if self.defs[i].agent_id == key {
                return Some(i);
            }
            i = i + 1;
        }
        None
    }

    /// Adds a definition (enabled, created at `now`). Without an id, one of
    /// 16 random lowercase hex digits is drawn. Refused when the book is full
    /// (checked first) or the id is taken.
    pub fn create(
        &mut self,
        agent_id: Option<String>,
        name: String,
        description: String,
        skills: Vec<AgentSkill>,
        visibility: Visibility,
        now: u64,
    ) -> (r: Result<AgentDef, StoreError>)
        ensures
            old(self)@.len() >= AGENTS_MAX ==> r == Err::<AgentDef, StoreError>(StoreError::Full),
            r == Err::<AgentDef, StoreError>(StoreError::Full) ==> old(self)@.len() >= AGENTS_MAX,
            old(self)@.len() < AGENTS_MAX ==> (r is Ok || r matches Err(StoreError::Duplicate(_))),
            r matches Ok(d) ==> {
                &&& old(self)@.len() < AGENTS_MAX
                &&& !has_id(old(self)@, d.agent_id@)
                &&& final(self)@ == old(self)@.push(d@)
                &&& d.name@ == name@ && d.description@ == description@
                &&& d@.skills == skills_view(skills@)
                &&& d.visibility == visibility && d.enabled && d.created_at == now
            },
            r matches Err(StoreError::Duplicate(id)) ==> old(self)@.len() < AGENTS_MAX && has_id(old(self)@, id@),
            r matches Err(e) ==> final(self)@ == old(self)@ && (e == StoreError::Full || e is Duplicate),
            agent_id matches Some(id) ==> {
                &&& r matches Ok(d) ==> d.agent_id@ == id@
                &&& r matches Err(StoreError::Duplicate(x)) ==> x@ == id@
                &&& old(self)@.len() < AGENTS_MAX ==> (r is Ok <==> !has_id(old(self)@, id@))
            },
            agent_id is None ==> {
                &&& r matches Ok(d) ==> d.agent_id@.len() == 16
                    && forall|i: int| 0 <= i < 16 ==> is_lower_hex(#[trigger] d.agent_id@[i])
                &&& r matches Err(StoreError::Duplicate(x)) ==> x@.len() == 16
            },
    {
        let agent_id = match agent_id {
            Some(id) => id,
            None => {
                let full = new_uuid_simple();
                full.as_str().substring_char(0, 16).to_owned()
            },
        };
        if self.defs.len() >= AGENTS_MAX {
            return Err(StoreError::Full);
        }
        if let Some(_) = self.find(agent_id.as_str()) {
            return Err(StoreError::Duplicate(agent_id));
        }
        let def = AgentDef {
            agent_id,
            name,
            description,
            skills,
            visibility,
            enabled: true,
            created_at: now,
        };
        let out = def.copy();
        self.defs.push(def);
        assert(self@ =~= old(self)@.push(out@));
        Ok(out)
    }

    /// All definitions in creation order.
    pub fn list(&self) -> (r: Vec<AgentDef>)
        ensures
            defs_view(r@) == self@,
    {
        copy_defs(&self.defs)
    }

    /// The first definition with this id.
    pub fn get(&self, agent_id: &str) -> (r: Option<AgentDef>)
        ensures
            r matches Some(d) ==> exists|i: int| first_with_id(self@, agent_id@, i) && d@ == self@[i],
            r is None <==> !has_id(self@, agent_id@),
    {
        match self.find(agent_id) {
            Some(i) => Some(self.defs[i].copy()),
            None => None,
        }
    }

    fn update_at(&mut self, i: usize, visibility: Visibility, enabled: bool) -> (r: AgentDef)
        requires
            i < old(self)@.len(),
        ensures
            r@ == (AgentDefView { visibility, enabled, ..old(self)@[i as int] }),
            final(self)@ == old(self)@.update(i as int, r@),
    {
        let mut def = self.defs.remove(i);
        def.visibility = visibility;
        def.enabled = enabled;
        let out = def.copy();
        self.defs.insert(i, def);
        assert(self@ =~= old(self)@.update(i as int, out@));
        out
    }

    /// Changes the visibility of the first definition with this id.
    pub fn set_visibility(&mut self, agent_id: &str, visibility: Visibility) -> (r: Result<AgentDef, StoreError>)
        ensures
            !has_id(old(self)@, agent_id@) ==> (r matches Err(StoreError::Unknown(x)) && x@ == agent_id@)
                && final(self)@ == old(self)@,
            has_id(old(self)@, agent_id@) ==> exists|i: int| first_with_id(old(self)@, agent_id@, i) && (r matches Ok(d)
                && d@ == (AgentDefView { visibility, ..old(self)@[i] })
                && final(self)@ == old(self)@.update(i, d@)),
    {
        match self.find(agent_id) {
            Some(i) => {
                let enabled = self.defs[i].enabled;
                Ok(self.update_at(i, visibility, enabled))
            },
            None => Err(StoreError::Unknown(agent_id.to_owned())),
        }
    }

    /// Disables or re-enables the first definition with this id.
    pub fn set_enabled(&mut self, agent_id: &str, enabled: bool) -> (r: Result<AgentDef, StoreError>)
        ensures
            !has_id(old(self)@, agent_id@) ==> (r matches Err(StoreError::Unknown(x)) && x@ == agent_id@)
                && final(self)@ == old(self)@,
            has_id(old(self)@, agent_id@) ==> exists|i: int| first_with_id(old(self)@, agent_id@, i) && (r matches Ok(d)
                && d@ == (AgentDefView { enabled, ..old(self)@[i] })
                && final(self)@ == old(self)@.update(i, d@)),
    {
        match self.find(agent_id) {
            Some(i) => {
                let visibility = self.defs[i].visibility;
                Ok(self.update_at(i, visibility, enabled))
            },
            None => Err(StoreError::Unknown(agent_id.to_owned())),
        }
    }

    /// Removes the first definition with this id and hands it back.
    pub fn remove(&mut self, agent_id: &str) -> (r: Result<AgentDef, StoreError>)
        ensures
            !has_id(old(self)@, agent_id@) ==> (r matches Err(StoreError::Unknown(x)) && x@ == agent_id@)
                && final(self)@ == old(self)@,
            has_id(old(self)@, agent_id@) ==> exists|i: int| first_with_id(old(self)@, agent_id@, i) && (r matches Ok(d)
                && d@ == old(self)@[i] && final(self)@ == old(self)@.remove(i)),
    {
        match self.find(agent_id) {
            Some(i) => {
                let d = self.defs.remove(i);
                assert(self@ =~= old(self)@.remove(i as int));
                Ok(d)
            },
            None => Err(StoreError::Unknown(agent_id.to_owned())),
        }
    }

    /// Definitions offered on the network (enabled, not local), in book order.
    pub fn network_defs(&self) -> (r: Vec<AgentDef>)
        ensures
            defs_view(r@) == self@.filter(|d: AgentDefView| is_network(d)),
    {
        let ghost pred = |d: AgentDefView| is_network(d);
        let mut r: Vec<AgentDef> = Vec::new();
        let mut i: usize = 0;
        while i < self.defs.len()
            invariant
                i <= self.defs@.len(),
                pred == (|d: AgentDefView| is_network(d)),
                defs_view(r@) == self@.take(i as int).filter(pred),
            decreases self.defs@.len() - i,
        {
            proof {
                assert(self@.take(i + 1) =~= self@.take(i as int).push(self@[i as int]));
                self@.take(i as int).lemma_filter_push(self@[i as int], pred);
                assert(self@[i as int] == self.defs@[i as int]@);
            }
            if self.defs[i].enabled && self.defs[i].visibility != Visibility::Local {
                let d = self.defs[i].copy();
                let ghost before = r@;
                r.push(d);
                assert(defs_view(r@) =~= defs_view(before).push(d@));
            }
            i = i + 1;
        }
        assert(self@.take(self.defs@.len() as int) =~= self@);
        r
    }

    /// Definitions a requester may see (owner: all enabled; others: enabled
    /// public ones plus enabled private ones whose id is in `granted`), in
    /// book order.
    pub fn visible_defs(&self, requester_is_owner: bool, granted: &Vec<String>) -> (r: Vec<AgentDef>)
        ensures
            defs_view(r@) == self@.filter(
                |d: AgentDefView| is_visible(d, requester_is_owner, granted@.map_values(|g: String| g@)),
            ),
    {
        let ghost gv = granted@.map_values(|g: String| g@);
        let ghost pred = |d: AgentDefView| is_visible(d, requester_is_owner, gv);
        let mut r: Vec<AgentDef> = Vec::new();
        let mut i: usize = 0;
        while i < self.defs.len()
            invariant
                i <= self.defs@.len(),
                gv == granted@.map_values(|g: String| g@),
                pred == (|d: AgentDefView| is_visible(d, requester_is_owner, gv)),
                defs_view(r@) == self@.take(i as int).filter(pred),
            decreases self.defs@.len() - i,
        {
            proof {
                assert(self@.take(i + 1) =~= self@.take(i as int).push(self@[i as int]));
                self@.take(i as int).lemma_filter_push(self@[i as int], pred);
            }
            let d = &self.defs[i];
            assert(self@[i as int] == d@);
            let shown = d.enabled && (requester_is_owner || d.visibility == Visibility::Public || (d.visibility
                == Visibility::Private && contains_string(granted, &d.agent_id)));
            if shown {
                let c = d.copy();
                let ghost before = r@;
                r.push(c);
                assert(defs_view(r@) =~= defs_view(before).push(c@));
            }
            i = i + 1;
        }
        assert(self@.take(self.defs@.len() as int) =~= self@);
        r
    }

    /// The card body of a definition, addressed under `host_peer`.
    pub fn card_of(def: &AgentDef, host_peer: &str) -> (r: Option<AgentCard>)
        ensures
            r matches Some(c) && c.agent_id@ == def.agent_id@ && c.name@ == def.name@
                && c.description@ == def.description@ && c.url@ == agent_url(host_peer@, def.agent_id@)
                && c.host_peer@ == host_peer@ && c.visibility == def.visibility && c.capabilities.streaming
                && skills_view(c.skills@) == skills_view(def.skills@) && c.ttl_secs == TTL_DEFAULT_SECS
                && c.version == 1,
    {
        let mut url = String::new();
        push_str(&mut url, "a2a://");
        push_str(&mut url, host_peer);
        push_str(&mut url, "/");
        push_str(&mut url, def.agent_id.as_str());
        Some(AgentCard {
            agent_id: def.agent_id.clone(),
            name: def.name.clone(),
            description: def.description.clone(),
            url,
            host_peer: host_peer.to_owned(),
            visibility: def.visibility,
            capabilities: AgentCapabilities { streaming: true },
            skills: copy_skills(&def.skills),
            ttl_secs: TTL_DEFAULT_SECS,
            version: 1,
        })
    }
}

/// True when some string of `v` equals `s`.
pub fn contains_string(v: &Vec<String>, s: &String) -> (r: bool)
    ensures
        r == v@.map_values(|g: String| g@).contains(s@),
{
    let mut i: usize = 0;
    while i < v.len()
        invariant
            i <= v@.len(),
            forall|k: int| 0 <= k < i ==> (#[trigger] v@[k])@ != s@,
        decreases v@.len() - i,
    {
        if v[i] == *s {
            assert(v@.map_values(|g: String| g@)[i as int] == s@);
            return true;
        }
        i = i + 1;
    }
    proof {
        if v@.map_values(|g: String| g@).contains(s@) {
            let m = v@.map_values(|g: String| g@);
            let k = choose|k: int| 0 <= k < m.len() && #[trigger] m[k] == s@;
            assert(v@[k]@ == s@);
        }
    }
    false
}


/// Text of a book error.
pub open spec fn store_error_text(e: StoreError) -> Seq<char> {
    match e {
        StoreError::Duplicate(id) => "agent_id 已存在: "@ + id@,
        StoreError::Unknown(id) => "agent_id 不存在: "@ + id@,
        StoreError::Full => "簿条目已达上限 "@ + decimal(AGENTS_MAX as nat),
        StoreError::Invalid(d) => "agent 定义非法: "@ + d@,
        StoreError::Io(d) => "簿读写失败: "@ + d@,
    }
}

impl StoreError {
    /// The error's text.
    pub fn message(&self) -> (s: String)
        ensures
            s@ == store_error_text(*self),
    {
        let mut s = String::new();
        match self {
            StoreError::Duplicate(id) => {
                push_str(&mut s, "agent_id 已存在: ");
                push_str(&mut s, id.as_str());
            },
            StoreError::Unknown(id) => {
                push_str(&mut s, "agent_id 不存在: ");
                push_str(&mut s, id.as_str());
            },
            StoreError::Full => {
                push_str(&mut s, "簿条目已达上限 ");
                push_decimal(&mut s, AGENTS_MAX as u64);
            },
            StoreError::Invalid(d) => {
                push_str(&mut s, "agent 定义非法: ");
                push_str(&mut s, d.as_str());
            },
            StoreError::Io(d) => {
                push_str(&mut s, "簿读写失败: ");
                push_str(&mut s, d.as_str());
            },
        }
        s
    }

    /// HTTP status of the error on the admin face: 404 for an unknown agent,
    /// 422 otherwise.
    pub fn status(&self) -> (code: u16)
        ensures
            code == if *self is Unknown { 404u16 } else { 422u16 },
    {
        match self {
            StoreError::Unknown(_) => 404,
            _ => 422,
        }
    }
}

/// The agent id a `PUT`/`DELETE` target names: every leading
/// `/a2a/agents` removed, then every leading `/`; None for a target that
/// does not begin with `/a2a/agents`.
pub open spec fn agent_path_id_spec(target: Seq<char>) -> Option<Seq<char>> {
    if seq_starts_with(target, "/a2a/agents"@) {
        Some(strip_all(strip_all(target, "/a2a/agents"@), "/"@))
    } else {
        None
    }
}

/// The agent id an admin target names.
pub fn agent_path_id(target: &str) -> (r: Option<String>)
    ensures
        match r {
            Some(id) => agent_path_id_spec(target@) == Some(id@),
            None => agent_path_id_spec(target@) is None,
        },
{
    if !str_starts_with(target, "/a2a/agents") {
        return None;
    }
    let rest = trim_start_matches(trim_start_matches(target, "/a2a/agents"), "/");
    Some(rest.to_owned())
}

impl AgentStore {
    /// The admin update of an agent: a new visibility when given, else the
    /// enabled flag when given; with neither the agent counts as unknown.
    pub fn update(&mut self, agent_id: &str, visibility: Option<Visibility>, enabled: Option<bool>) -> (r: Result<
        AgentDef,
        StoreError,
    >)
        ensures
            visibility is None && enabled is None ==> (r matches Err(StoreError::Unknown(x)) && x@ == agent_id@)
                && final(self)@ == old(self)@,
            !has_id(old(self)@, agent_id@) ==> (r matches Err(StoreError::Unknown(x)) && x@ == agent_id@)
                && final(self)@ == old(self)@,
            has_id(old(self)@, agent_id@) && (visibility is Some || enabled is Some) ==> exists|i: int|
                first_with_id(old(self)@, agent_id@, i) && (r matches Ok(d) && d@ == match visibility {
                    Some(v) => AgentDefView { visibility: v, ..old(self)@[i] },
                    None => AgentDefView { enabled: enabled->0, ..old(self)@[i] },
                } && final(self)@ == old(self)@.update(i, d@)),
    {
        match visibility {
            Some(v) => self.set_visibility(agent_id, v),
            None => match enabled {
                Some(e) => self.set_enabled(agent_id, e),
                None => Err(StoreError::Unknown(agent_id.to_owned())),
            },
        }
    }
}

/// A local agent never leaves the host: no remote peer sees it, whatever it
/// was granted.
pub proof fn local_agents_never_leave_the_host(d: AgentDefView, granted: Seq<Seq<char>>)
    requires
        d.visibility == Visibility::Local,
    ensures
        !is_visible(d, false, granted),
{
}

/// Visibility fails closed: a remote peer without grants sees exactly the
/// enabled public agents, and a grant only ever opens a private one.
pub proof fn remote_view_fails_closed(d: AgentDefView, granted: Seq<Seq<char>>)
    ensures
        is_visible(d, false, Seq::empty()) <==> d.enabled && d.visibility == Visibility::Public,
        is_visible(d, false, granted) && !is_visible(d, false, Seq::empty()) ==> d.visibility == Visibility::Private,
{
}

} // verus!
