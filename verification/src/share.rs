//! Share creation rules: the owner scope can never be produced by a share;
//! a workspace share must name a configured workspace (no id = `default`)
//! and is refused at creation otherwise; the admin face refuses a zero
//! lifetime and a zero activation cap, and answers each refusal with its
//! status and error code.

use vstd::prelude::*;
use vstd::string::*;

use crate::jail::Scope;
use crate::permission::AskRoute;
use crate::workspaces::{resolve_spec, WorkspaceStore, WorkspaceStoreError};

verus! {

broadcast use vstd::string::group_string_axioms;

/// Why a share is not created.
#[derive(Debug, Clone, PartialEq, Eq)]
pub enum ShareCreateError {
    /// The owner scope is never shared.
    OwnerScope,
    /// A workspace share without a default workspace configured.
    WorkspaceUnconfigured,
    /// A workspace share naming a workspace that is not configured.
    WorkspaceUnknown(String),
    /// Writing the share ledger failed.
    Store(String),
}

/// What a share grants, as requested on the admin face.
#[derive(Debug, Clone, PartialEq, Eq)]
pub struct CreateRequest {
    pub scope: Scope,
    pub workspace: Option<String>,
    pub allow_mcp: Vec<String>,
    pub ask_route: Option<AskRoute>,
    pub ttl_secs: u64,
    pub max_activations: Option<u32>,
    pub note: Option<String>,
}

/// A share to create, with every default filled in.
#[derive(Debug, Clone, PartialEq, Eq)]
pub struct ShareSpec {
    pub scope: Scope,
    pub workspace: Option<String>,
    pub allow_mcp: Vec<String>,
    pub ask_route: AskRoute,
    pub max_activations: u32,
    pub note: String,
    pub ttl_secs: u64,
}

/// A refusal on the admin face: HTTP status and error code.
#[derive(Debug, Clone, Copy, PartialEq, Eq)]
pub struct AdminRefusal {
    pub status: u16,
    pub code: &'static str,
}

/// Checks a request body: the lifetime must be positive and an explicit
/// activation cap too; the ask route defaults to the remote GUI, the cap to
/// `default_max_activations`, the note to empty.
pub fn check_create_request(req: CreateRequest, default_max_activations: u32) -> (r: Result<ShareSpec, AdminRefusal>)
    ensures
        req.ttl_secs == 0 ==> r == Err::<ShareSpec, AdminRefusal>(AdminRefusal { status: 400, code: "invalid-ttl" }),
        req.ttl_secs != 0 && req.max_activations == Some(0u32) ==> r == Err::<ShareSpec, AdminRefusal>(
            AdminRefusal { status: 400, code: "invalid-max-activations" },
        ),
        req.ttl_secs != 0 && req.max_activations != Some(0u32) ==> (r matches Ok(spec) && {
            &&& spec.scope == req.scope
            &&& spec.workspace == req.workspace
            &&& spec.allow_mcp == req.allow_mcp
            &&& spec.ask_route == match req.ask_route {
                Some(a) => a,
                None => AskRoute::RemoteGui,
            }
            &&& spec.max_activations == match req.max_activations {
                Some(m) => m,
                None => default_max_activations,
            }
            &&& spec.note@ == match req.note {
                Some(n) => n@,
                None => Seq::<char>::empty(),
            }
            &&& spec.ttl_secs == req.ttl_secs
        }),
{
    if req.ttl_secs == 0 {
        return Err(AdminRefusal { status: 400, code: "invalid-ttl" });
    }
    if let Some(m) = req.max_activations {
        if m == 0 {
            return Err(AdminRefusal { status: 400, code: "invalid-max-activations" });
        }
    }
    let ask_route = match req.ask_route {
        Some(a) => a,
        None => AskRoute::RemoteGui,
    };
    let max_activations = match req.max_activations {
        Some(m) => m,
        None => default_max_activations,
    };
    let note = match req.note {
        Some(n) => n,
        None => String::new(),
    };
    Ok(ShareSpec {
        scope: req.scope,
        workspace: req.workspace,
        allow_mcp: req.allow_mcp,
        ask_route,
        max_activations,
        note,
        ttl_secs: req.ttl_secs,
    })
}

/// The scope a share may grant: never the owner's; a workspace share must
/// name a configured workspace.
pub fn check_target(workspaces: &WorkspaceStore, scope: Scope, workspace: Option<&str>) -> (r: Result<
    (),
    ShareCreateError,
>)
    ensures
        scope == Scope::Owner ==> r == Err::<(), ShareCreateError>(ShareCreateError::OwnerScope),
        scope == Scope::Sandbox ==> r is Ok,
        scope == Scope::Workspace ==> match resolve_spec(workspaces@, workspaces.legacy(), match workspace {
            Some(s) => s@,
            None => "default"@,
        }) {
            Some(_) => r is Ok,
            None => match workspace {
                None => r == Err::<(), ShareCreateError>(ShareCreateError::WorkspaceUnconfigured),
                Some(id) => r matches Err(ShareCreateError::WorkspaceUnknown(x)) && x@ == id@,
            },
        },
{
    match scope {
        Scope::Owner => Err(ShareCreateError::OwnerScope),
        Scope::Sandbox => Ok(()),
        Scope::Workspace => match workspaces.resolve(workspace) {
            Some(_) => Ok(()),
            None => match workspace {
                None => Err(ShareCreateError::WorkspaceUnconfigured),
                Some(id) => Err(ShareCreateError::WorkspaceUnknown(id.to_owned())),
            },
        },
    }
}

/// The admin face's answer to a refused creation.
pub fn create_refusal(e: &ShareCreateError) -> (r: AdminRefusal)
    ensures
        r == match e {
            ShareCreateError::OwnerScope => AdminRefusal { status: 400, code: "owner-scope-not-shareable" },
            ShareCreateError::WorkspaceUnconfigured => AdminRefusal { status: 422, code: "workspace-unconfigured" },
            ShareCreateError::WorkspaceUnknown(_) => AdminRefusal { status: 422, code: "workspace-unknown" },
            ShareCreateError::Store(_) => AdminRefusal { status: 500, code: "store" },
        },
{
    match e {
        ShareCreateError::OwnerScope => AdminRefusal { status: 400, code: "owner-scope-not-shareable" },
        ShareCreateError::WorkspaceUnconfigured => AdminRefusal { status: 422, code: "workspace-unconfigured" },
        ShareCreateError::WorkspaceUnknown(_) => AdminRefusal { status: 422, code: "workspace-unknown" },
        ShareCreateError::Store(_) => AdminRefusal { status: 500, code: "store" },
    }
}

/// The admin face's answer to a refused workspace change: a taken id is a
/// conflict, an unknown one is not found, a storage failure is a server
/// error, and any other invalid request is unprocessable.
pub fn workspace_refusal(e: &WorkspaceStoreError) -> (r: AdminRefusal)
    ensures
        r == match e {
            WorkspaceStoreError::DuplicateId(_) => AdminRefusal { status: 409, code: "duplicate-id" },
            WorkspaceStoreError::Unknown(_) => AdminRefusal { status: 404, code: "unknown-workspace" },
            WorkspaceStoreError::InvalidDir(_) => AdminRefusal { status: 422, code: "invalid-dir" },
            WorkspaceStoreError::EmptyField => AdminRefusal { status: 422, code: "empty-field" },
            WorkspaceStoreError::BadId => AdminRefusal { status: 422, code: "bad-id" },
            WorkspaceStoreError::LegacyDefault => AdminRefusal { status: 422, code: "legacy-default" },
            _ => AdminRefusal { status: 500, code: "store" },
        },
{
    match e {
        WorkspaceStoreError::DuplicateId(_) => AdminRefusal { status: 409, code: "duplicate-id" },
        WorkspaceStoreError::Unknown(_) => AdminRefusal { status: 404, code: "unknown-workspace" },
        WorkspaceStoreError::InvalidDir(_) => AdminRefusal { status: 422, code: "invalid-dir" },
        WorkspaceStoreError::EmptyField => AdminRefusal { status: 422, code: "empty-field" },
        WorkspaceStoreError::BadId => AdminRefusal { status: 422, code: "bad-id" },
        WorkspaceStoreError::LegacyDefault => AdminRefusal { status: 422, code: "legacy-default" },
        WorkspaceStoreError::Io(_) | WorkspaceStoreError::Json(_) | WorkspaceStoreError::Corrupt { .. } => {
            AdminRefusal { status: 500, code: "store" }
        },
    }
}

} // verus!
