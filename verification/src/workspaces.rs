//! Workspace table: named workspaces the owner can share. Loaded at start
//! (missing file = seeded from configuration and written; corrupt file =
//! refusal to start), changed at runtime through the admin face. The legacy
//! single workspace directory only backs the `default` row: it is never
//! written to the file and cannot be removed.

use vstd::prelude::*;
use vstd::string::*;

use crate::config::AgentConfig;
use crate::text::{decimal, push_decimal, push_str, str_eq, trim_text, trimmed_text};

verus! {

broadcast use vstd::string::group_string_axioms;

/// Version of the table file envelope.
pub const WORKSPACES_FILE_VERSION: u32 = 1;
/// Id of the implicit workspace backed by the legacy directory.
pub const DEFAULT_WORKSPACE_ID: &'static str = "default";
/// Longest workspace id.
pub const WORKSPACE_ID_MAX: usize = 64;

/// A named workspace: the target of a workspace share.
#[derive(Debug, Clone, PartialEq, Eq)]
pub struct WorkspaceDef {
    /// Stable id (share target, jail lookup key).
    pub id: String,
    /// Display name.
    pub name: String,
    /// Locked directory (absolute path).
    pub dir: String,
}

/// Abstract workspace: (id, name, dir).
pub type WorkspaceView = (Seq<char>, Seq<char>, Seq<char>);

impl View for WorkspaceDef {
    type V = WorkspaceView;

    open spec fn view(&self) -> WorkspaceView {
        (self.id@, self.name@, self.dir@)
    }
}

impl WorkspaceDef {
    /// A field-by-field copy.
    pub fn copy(&self) -> (r: Self)
        ensures
            r@ == self@,
    {
        WorkspaceDef { id: self.id.clone(), name: self.name.clone(), dir: self.dir.clone() }
    }
}

/// Abstract workspaces of a list.
pub open spec fn workspaces_view(v: Seq<WorkspaceDef>) -> Seq<WorkspaceView> {
    v.map_values(|w: WorkspaceDef| w@)
}

/// Copies a list of workspaces.
pub fn copy_workspaces(v: &Vec<WorkspaceDef>) -> (r: Vec<WorkspaceDef>)
    ensures
        workspaces_view(r@) == workspaces_view(v@),
{
    let mut r: Vec<WorkspaceDef> = Vec::new();
    let mut i: usize = 0;
    while i < v.len()
        invariant
            i <= v@.len(),
            workspaces_view(r@) == workspaces_view(v@.take(i as int)),
        decreases v@.len() - i,
    {
        let w = v[i].copy();
        let ghost before = r@;
        r.push(w);
        assert(workspaces_view(r@) =~= workspaces_view(before).push(w@));
        assert(workspaces_view(v@.take(i + 1)) =~= workspaces_view(v@.take(i as int)).push(v@[i as int]@));
        i = i + 1;
    }
    assert(v@.take(v@.len() as int) =~= v@);
    r
}

/// Workspace table errors: configuration errors map to 4xx on the admin
/// face, storage errors to 5xx.
#[derive(Debug, Clone, PartialEq, Eq)]
pub enum WorkspaceStoreError {
    Io(String),
    Json(String),
    Corrupt { path: String, detail: String },
    EmptyField,
    BadId,
    DuplicateId(String),
    Unknown(String),
    LegacyDefault,
    InvalidDir(String),
}

/// What reading the table file gave.
pub enum WorkspacesLoad {
    /// No file yet.
    Missing,
    /// The file parsed, with this envelope version and these rows.
    Parsed { version: u32, workspaces: Vec<WorkspaceDef> },
    /// The file did not parse; the parser's message.
    Unparsable { detail: String },
    /// The file could not be read; the reader's message.
    Unreadable { detail: String },
}

/// A character allowed in a workspace id: ASCII letter, digit, `-` or `_`.
pub open spec fn id_char_ok(c: char) -> bool {
    ('0' <= c && c <= '9') || ('a' <= c && c <= 'z') || ('A' <= c && c <= 'Z') || c == '-' || c == '_'
}

/// A well-formed workspace id: 1 to 64 allowed characters.
pub open spec fn id_ok(id: Seq<char>) -> bool {
    id.len() <= WORKSPACE_ID_MAX && forall|i: int| 0 <= i < id.len() ==> id_char_ok(#[trigger] id[i])
}

/// An absolute path (Unix: starts at the root).
pub open spec fn is_absolute(dir: Seq<char>) -> bool {
    dir.len() > 0 && dir[0] == '/'
}

/// Some row carries this id.
pub open spec fn has_workspace(s: Seq<WorkspaceView>, id: Seq<char>) -> bool {
    exists|i: int| 0 <= i < s.len() && s[i].0 == id
}

/// Index of the first row with this id.
pub open spec fn first_workspace(s: Seq<WorkspaceView>, id: Seq<char>, i: int) -> bool {
    &&& 0 <= i < s.len()
    &&& s[i].0 == id
    &&& forall|k: int| 0 <= k < i ==> s[k].0 != id
}

/// The row a lookup of `want` gives: the first explicit row with that id;
/// else, for `default`, the legacy directory row; else none.
pub open spec fn resolve_spec(rows: Seq<WorkspaceView>, legacy: Option<Seq<char>>, want: Seq<char>) -> Option<WorkspaceView> {
    if has_workspace(rows, want) {
        Some(rows[choose|i: int| first_workspace(rows, want, i)])
    } else if want == "default"@ {
        match legacy {
            Some(dir) => Some(("default"@, "default"@, dir)),
            None => None,
        }
    } else {
        None
    }
}

proof fn lemma_first_workspace_unique(s: Seq<WorkspaceView>, id: Seq<char>, i: int, j: int)
    requires
        first_workspace(s, id, i),
        first_workspace(s, id, j),
    ensures
        i == j,
{
}

/// The workspace rows, and the legacy directory that backs `default`.
pub struct WorkspaceStore {
    entries: Vec<WorkspaceDef>,
    legacy_dir: Option<String>,
}

impl View for WorkspaceStore {
    type V = Seq<WorkspaceView>;

    closed spec fn view(&self) -> Seq<WorkspaceView> {
        workspaces_view(self.entries@)
    }
}

impl WorkspaceStore {
    /// The legacy directory backing `default`, if configured.
    pub closed spec fn legacy(&self) -> Option<Seq<char>> {
        match self.legacy_dir {
            Some(d) => Some(d@),
            None => None,
        }
    }

    /// Opens the table from what reading its file gave: a missing file
    /// yields the seed rows and asks for them to be written (the `bool`);
    /// a parsed file of the current version yields its rows; anything else
    /// is a refusal (never an empty table in silence).
    pub fn open(
        seed: &Vec<WorkspaceDef>,
        legacy_dir: Option<String>,
        path: &str,
        load: WorkspacesLoad,
    ) -> (r: Result<(WorkspaceStore, bool), WorkspaceStoreError>)
        ensures
            load is Missing ==> (r matches Ok((s, write)) && write && s@ == workspaces_view(seed@)
                && s.legacy() == opt_text(legacy_dir)),
            load matches WorkspacesLoad::Parsed { version, workspaces } ==> if version == WORKSPACES_FILE_VERSION {
                r matches Ok((s, write)) && !write && s@ == workspaces_view(workspaces@) && s.legacy() == opt_text(legacy_dir)
            } else {
                r matches Err(WorkspaceStoreError::Corrupt { path: p, detail }) && p@ == path@
                    && detail@ == "version "@ + decimal(version as nat)
            },
            load matches WorkspacesLoad::Unparsable { detail } ==> (r matches Err(WorkspaceStoreError::Corrupt { path: p, detail: d })
                && p@ == path@ && d@ == detail@),
            load matches WorkspacesLoad::Unreadable { detail } ==> (r matches Err(WorkspaceStoreError::Io(d)) && d@ == detail@),
    {
        match load {
            WorkspacesLoad::Missing => Ok((WorkspaceStore { entries: copy_workspaces(seed), legacy_dir }, true)),
            WorkspacesLoad::Parsed { version, workspaces } => {
                if version != WORKSPACES_FILE_VERSION {
                    let mut detail = String::new();
                    push_str(&mut detail, "version ");
                    push_decimal(&mut detail, version as u64);
                    return Err(WorkspaceStoreError::Corrupt { path: path.to_owned(), detail });
                }
                Ok((WorkspaceStore { entries: workspaces, legacy_dir }, false))
            },
            WorkspacesLoad::Unparsable { detail } => Err(WorkspaceStoreError::Corrupt { path: path.to_owned(), detail }),
            WorkspacesLoad::Unreadable { detail } => Err(WorkspaceStoreError::Io(detail)),
        }
    }

    /// Opens the workspace table of a configuration (seed rows and legacy
    /// directory from it) from what reading the table file at `path` gave.
    pub fn open_for_config(config: &AgentConfig, path: &str, load: WorkspacesLoad) -> (r: Result<
        (WorkspaceStore, bool),
        WorkspaceStoreError,
    >)
        ensures
            load is Missing ==> (r matches Ok((s, write)) && write && s@ == workspaces_view(config.workspaces@)
                && s.legacy() == opt_text(config.workspace_dir)),
            load matches WorkspacesLoad::Parsed { version, workspaces } ==> if version == WORKSPACES_FILE_VERSION {
                r matches Ok((s, write)) && !write && s@ == workspaces_view(workspaces@) && s.legacy() == opt_text(
                    config.workspace_dir,
                )
            } else {
                r matches Err(WorkspaceStoreError::Corrupt { path: p, detail }) && p@ == path@
                    && detail@ == "version "@ + decimal(version as nat)
            },
            load matches WorkspacesLoad::Unparsable { detail } ==> (r matches Err(WorkspaceStoreError::Corrupt { path: p, detail: d })
                && p@ == path@ && d@ == detail@),
            load matches WorkspacesLoad::Unreadable { detail } ==> (r matches Err(WorkspaceStoreError::Io(d)) && d@ == detail@),
    {
        WorkspaceStore::open(&config.workspaces, config.workspace_dir.clone(), path, load)
    }

    fn find(&self, id: &str) -> (r: Option<usize>)
        ensures
            match r {
                Some(i) => first_workspace(self@, id@, i as int),
                None => !has_workspace(self@, id@),
            },
    {
        let key = id.to_owned();
        let mut i: usize = 0;
        while i < self.entries.len()
            invariant
                i <= self.entries@.len(),
                key@ == id@,
                forall|k: int| 0 <= k < i ==> #[trigger] self@[k].0 != id@,
            decreases self.entries@.len() - i,
        {
            if self.entries[i].id == key {
                return Some(i);
            }
            i = i + 1;
        }
        None
    }

    /// Looks a workspace up: no id means `default`; explicit rows come first,
    /// then the legacy directory for `default`.
    pub fn resolve(&self, id: Option<&str>) -> (r: Option<WorkspaceDef>)
        ensures
            opt_workspace(r) == resolve_spec(self@, self.legacy(), match id {
                Some(s) => s@,
                None => "default"@,
            }),
    {
        let want: &str = match id {
            Some(s) => s,
            None => DEFAULT_WORKSPACE_ID,
        };
        let ghost wv = want@;
        proof {
            reveal_strlit("default");
        }
        match self.find(want) {
            Some(i) => {
                proof {
                    let c = choose|k: int| first_workspace(self@, wv, k);
                    lemma_first_workspace_unique(self@, wv, c, i as int);
                }
                Some(self.entries[i].copy())
            },
            None => {
                if str_eq(want, DEFAULT_WORKSPACE_ID) {
                    match &self.legacy_dir {
                        Some(dir) => Some(WorkspaceDef {
                            id: DEFAULT_WORKSPACE_ID.to_owned(),
                            name: DEFAULT_WORKSPACE_ID.to_owned(),
                            dir: dir.clone(),
                        }),
                        None => None,
                    }
                } else {
                    None
                }
            },
        }
    }

    /// The explicit rows, in order (what the table file holds).
    pub fn entries(&self) -> (r: Vec<WorkspaceDef>)
        ensures
            workspaces_view(r@) == self@,
    {
        copy_workspaces(&self.entries)
    }

    /// All rows: the explicit ones, then the legacy `default` row when the
    /// legacy directory is set and no explicit row is called `default`.
    pub fn rows(&self) -> (r: Vec<WorkspaceDef>)
        ensures
            workspaces_view(r@) == if self.legacy() is Some && !has_workspace(self@, "default"@) {
                self@.push(("default"@, "default"@, self.legacy()->0))
            } else {
                self@
            },
    {
        let mut rows = copy_workspaces(&self.entries);
        proof {
            reveal_strlit("default");
        }
        if self.find(DEFAULT_WORKSPACE_ID).is_none() {
            match &self.legacy_dir {
                Some(dir) => {
                    let w = WorkspaceDef {
                        id: DEFAULT_WORKSPACE_ID.to_owned(),
                        name: DEFAULT_WORKSPACE_ID.to_owned(),
                        dir: dir.clone(),
                    };
                    let ghost before = rows@;
                    let ghost wv = w@;
                    rows.push(w);
                    assert(workspaces_view(rows@) =~= workspaces_view(before).push(wv));
                },
                None => {},
            }
        }
        rows
    }

    /// Adds a workspace after trimming the three fields (std `str::trim`);
    /// `dir_is_directory` tells whether the trimmed directory exists as a
    /// directory. See `add_trimmed` for the checks.
    pub fn add(&mut self, id: &str, name: &str, dir: &str, dir_is_directory: bool) -> (r: Result<
        WorkspaceDef,
        WorkspaceStoreError,
    >)
        ensures
            add_outcome(old(self)@, trimmed_text(id@), trimmed_text(name@), trimmed_text(dir@), dir_is_directory, r,
                final(self)@),
            final(self).legacy() == old(self).legacy(),
    {
        let id = trim_text(id);
        let name = trim_text(name);
        let dir = trim_text(dir);
        self.add_trimmed(id, name, dir, dir_is_directory)
    }

    /// Adds a workspace: every field must be non-empty, the id well formed,
    /// the directory absolute and existing, and the id new.
    pub fn add_trimmed(&mut self, id: &str, name: &str, dir: &str, dir_is_directory: bool) -> (r: Result<
        WorkspaceDef,
        WorkspaceStoreError,
    >)
        ensures
            add_outcome(old(self)@, id@, name@, dir@, dir_is_directory, r, final(self)@),
            final(self).legacy() == old(self).legacy(),
    {
        if id.unicode_len() == 0 || name.unicode_len() == 0 || dir.unicode_len() == 0 {
            return Err(WorkspaceStoreError::EmptyField);
        }
        if !id_well_formed(id) {
            return Err(WorkspaceStoreError::BadId);
        }
        if !(dir.get_char(0) == '/') || !dir_is_directory {
            return Err(WorkspaceStoreError::InvalidDir(dir.to_owned()));
        }
        if self.find(id).is_some() {
            return Err(WorkspaceStoreError::DuplicateId(id.to_owned()));
        }
        let def = WorkspaceDef { id: id.to_owned(), name: name.to_owned(), dir: dir.to_owned() };
        let out = def.copy();
        self.entries.push(def);
        assert(self@ =~= old(self)@.push(out@));
        Ok(out)
    }

    /// Takes back the row the last successful add appended (when writing
    /// the table failed).
    pub fn undo_add(&mut self)
        ensures
            final(self)@ == if old(self)@.len() > 0 {
                old(self)@.drop_last()
            } else {
                old(self)@
            },
            final(self).legacy() == old(self).legacy(),
    {
        let _ = self.entries.pop();
        assert(self@ =~= if old(self)@.len() > 0 {
            old(self)@.drop_last()
        } else {
            old(self)@
        });
    }

    /// Removes the first row with this id and hands it back with the index
    /// it had. Without such a row: `default` backed by the legacy directory
    /// cannot be removed; anything else is unknown.
    pub fn remove(&mut self, id: &str) -> (r: Result<(usize, WorkspaceDef), WorkspaceStoreError>)
        ensures
            final(self).legacy() == old(self).legacy(),
            has_workspace(old(self)@, id@) ==> (r matches Ok((i, w)) && first_workspace(old(self)@, id@, i as int)
                && w@ == old(self)@[i as int] && final(self)@ == old(self)@.remove(i as int)),
            !has_workspace(old(self)@, id@) ==> final(self)@ == old(self)@ && if id@ == "default"@
                && old(self).legacy() is Some {
                r == Err::<(usize, WorkspaceDef), WorkspaceStoreError>(WorkspaceStoreError::LegacyDefault)
            } else {
                r matches Err(WorkspaceStoreError::Unknown(x)) && x@ == id@
            },
    {
        proof {
            reveal_strlit("default");
        }
        match self.find(id) {
            Some(i) => {
                let w = self.entries.remove(i);
                Ok((i, w))
            },
            None => {
                if str_eq(id, DEFAULT_WORKSPACE_ID) && self.legacy_dir.is_some() {
                    return Err(WorkspaceStoreError::LegacyDefault);
                }
                Err(WorkspaceStoreError::Unknown(id.to_owned()))
            },
        }
    }

    /// Puts back a row whose removal could not be written, at the index it
    /// had: the table is as before the removal.
    pub fn undo_remove(&mut self, at: usize, w: WorkspaceDef)
        requires
            at <= old(self)@.len(),
        ensures
            final(self)@ == old(self)@.insert(at as int, w@),
            final(self).legacy() == old(self).legacy(),
    {
        let ghost wv = w@;
        self.entries.insert(at, w);
        assert(self@ =~= old(self)@.insert(at as int, wv));
    }
}

/// Abstract optional string.
pub open spec fn opt_text(o: Option<String>) -> Option<Seq<char>> {
    match o {
        Some(s) => Some(s@),
        None => None,
    }
}

/// Abstract optional workspace.
pub open spec fn opt_workspace(o: Option<WorkspaceDef>) -> Option<WorkspaceView> {
    match o {
        Some(w) => Some(w@),
        None => None,
    }
}

/// What adding (id, name, dir) to `rows` gives, checks in order: an empty
/// field, a malformed id, a relative or missing directory, a taken id.
pub open spec fn add_outcome(
    rows: Seq<WorkspaceView>,
    id: Seq<char>,
    name: Seq<char>,
    dir: Seq<char>,
    dir_is_directory: bool,
    r: Result<WorkspaceDef, WorkspaceStoreError>,
    after: Seq<WorkspaceView>,
) -> bool {
    if id.len() == 0 || name.len() == 0 || dir.len() == 0 {
        r == Err::<WorkspaceDef, WorkspaceStoreError>(WorkspaceStoreError::EmptyField) && after == rows
    } else if !id_ok(id) {
        r == Err::<WorkspaceDef, WorkspaceStoreError>(WorkspaceStoreError::BadId) && after == rows
    } else if !is_absolute(dir) || !dir_is_directory {
        (r matches Err(WorkspaceStoreError::InvalidDir(d)) && d@ == dir) && after == rows
    } else if has_workspace(rows, id) {
        (r matches Err(WorkspaceStoreError::DuplicateId(d)) && d@ == id) && after == rows
    } else {
        (r matches Ok(w) && w@ == (id, name, dir)) && after == rows.push((id, name, dir))
    }
}

/// Whether a trimmed id is 1..=64 allowed characters (the caller checked non-empty).
fn id_well_formed(id: &str) -> (r: bool)
    ensures
        r == id_ok(id@),
{
    let n = id.unicode_len();
    if n > WORKSPACE_ID_MAX {
        return false;
    }
    let mut i: usize = 0;
    while i < n
        invariant
            n == id@.len(),
            n <= WORKSPACE_ID_MAX,
            i <= n,
            forall|k: int| 0 <= k < i ==> id_char_ok(#[trigger] id@[k]),
        decreases n - i,
    {
        let c = id.get_char(i);
        let ok = ('0' <= c && c <= '9') || ('a' <= c && c <= 'z') || ('A' <= c && c <= 'Z') || c == '-' || c == '_';
        if !ok {
            return false;
        }
        i = i + 1;
    }
    true
}


/// No two rows share an id.
pub open spec fn ids_distinct(rows: Seq<WorkspaceView>) -> bool {
    forall|i: int, j: int| 0 <= i < j < rows.len() ==> #[trigger] rows[i].0 != #[trigger] rows[j].0
}

/// A workspace just added is what a lookup of its id gives, and the ids of
/// the table stay distinct.
pub proof fn added_workspace_resolves(
    rows: Seq<WorkspaceView>,
    legacy: Option<Seq<char>>,
    id: Seq<char>,
    name: Seq<char>,
    dir: Seq<char>,
)
    requires
        !has_workspace(rows, id),
    ensures
        resolve_spec(rows.push((id, name, dir)), legacy, id) == Some((id, name, dir)),
        ids_distinct(rows) ==> ids_distinct(rows.push((id, name, dir))),
{
    let t = rows.push((id, name, dir));
    assert(first_workspace(t, id, rows.len() as int));
    let c = choose|i: int| first_workspace(t, id, i);
    lemma_first_workspace_unique(t, id, c, rows.len() as int);
    if ids_distinct(rows) {
        assert forall|i: int, j: int| 0 <= i < j < t.len() implies #[trigger] t[i].0 != #[trigger] t[j].0 by {
            assert(t[i] == rows[i]);
            if j < rows.len() {
                assert(t[j] == rows[j]);
            }
        }
    }
}

/// Removing the row of an id from a table with distinct ids leaves only
/// what the legacy directory gives for that id (nothing, unless it is
/// `default` and a legacy directory is set).
pub proof fn removed_workspace_gone(rows: Seq<WorkspaceView>, legacy: Option<Seq<char>>, id: Seq<char>, i: int)
    requires
        ids_distinct(rows),
        first_workspace(rows, id, i),
    ensures
        !has_workspace(rows.remove(i), id),
        resolve_spec(rows.remove(i), legacy, id) == resolve_spec(Seq::<WorkspaceView>::empty(), legacy, id),
{
    let t = rows.remove(i);
    if has_workspace(t, id) {
        let k = choose|k: int| 0 <= k < t.len() && t[k].0 == id;
        if k < i {
            assert(t[k] == rows[k]);
        } else {
            assert(t[k] == rows[k + 1]);
        }
    }
}

/// Taking back the last add restores the table.
pub proof fn undo_add_restores(rows: Seq<WorkspaceView>, row: WorkspaceView)
    ensures
        rows.push(row).drop_last() == rows,
{
    assert(rows.push(row).drop_last() =~= rows);
}

/// Undoing a removal restores the table exactly, order included.
pub proof fn undo_remove_restores(rows: Seq<WorkspaceView>, i: int)
    requires
        0 <= i < rows.len(),
    ensures
        rows.remove(i).insert(i, rows[i]) == rows,
{
    assert(rows.remove(i).insert(i, rows[i]) =~= rows);
}

/// Workspace ids are 1 to 64 characters among ASCII letters, digits, `-`
/// and `_`: such an id is never refused as malformed, and a non-empty id with
/// any other character is, once the other fields are given.
pub proof fn workspace_ids_are_letters_digits_dash_underscore(
    rows: Seq<WorkspaceView>,
    id: Seq<char>,
    name: Seq<char>,
    dir: Seq<char>,
    dir_is_directory: bool,
    r: Result<WorkspaceDef, WorkspaceStoreError>,
    after: Seq<WorkspaceView>,
)
    requires
        add_outcome(rows, id, name, dir, dir_is_directory, r, after),
    ensures
        (1 <= id.len() <= 64 && forall|i: int|
            0 <= i < id.len() ==> ('0' <= #[trigger] id[i] <= '9') || ('a' <= id[i] <= 'z') || ('A' <= id[i] <= 'Z')
                || id[i] == '-' || id[i] == '_') ==> r != Err::<WorkspaceDef, WorkspaceStoreError>(
            WorkspaceStoreError::BadId,
        ),
        (name.len() > 0 && dir.len() > 0 && (id.len() > 64 || exists|i: int|
            0 <= i < id.len() && !(('0' <= #[trigger] id[i] <= '9') || ('a' <= id[i] <= 'z') || ('A' <= id[i] <= 'Z')
                || id[i] == '-' || id[i] == '_'))) ==> r == Err::<WorkspaceDef, WorkspaceStoreError>(
            WorkspaceStoreError::BadId,
        ) || r == Err::<WorkspaceDef, WorkspaceStoreError>(WorkspaceStoreError::EmptyField),
{
}

} // verus!
