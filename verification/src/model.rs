//! Shared command-line model types: output formats, identifiers, roles and
//! actions, and the error type every pipeline stage reports through.

use vstd::prelude::*;

verus! {

use crate::text::str_eq;

/// A pipeline error carrying a fully rendered, user-visible message.
pub struct GolemError(pub String);

impl GolemError {
    /// The rendered message of this error.
    pub fn message(&self) -> (r: &String)
        ensures
            r@ == self.0@,
    {
        &self.0
    }
}

/// Output format selector for printed results.
#[derive(Copy, Clone, PartialEq, Eq, Debug)]
pub enum Format {
    Json,
    Yaml,
}

impl Format {
    /// The canonical textual name of the format.
    pub fn name(&self) -> (r: &'static str)
        ensures
            self is Json ==> r@ == "json"@,
            self is Yaml ==> r@ == "yaml"@,
    {
        match self {
            Format::Json => "json",
            Format::Yaml => "yaml",
        }
    }

    /// Parses a format name; accepts exactly the strings `name` produces.
    pub fn from_str(s: &str) -> (r: Result<Format, String>)
        ensures
            s@ == "json"@ ==> r == Result::<Format, String>::Ok(Format::Json),
            s@ == "yaml"@ ==> r == Result::<Format, String>::Ok(Format::Yaml),
            s@ != "json"@ && s@ != "yaml"@ ==> (r matches Err(m) && m@ == format_unknown_message(
                s@,
            )),
    {
        proof {
            reveal_strlit("json");
            reveal_strlit("yaml");
            assert("json"@[0] == 'j');
            assert("yaml"@[0] == 'y');
            assert("json"@ != "yaml"@);
        }
        if str_eq(s, "json") {
            Ok(Format::Json)
        } else if str_eq(s, "yaml") {
            Ok(Format::Yaml)
        } else {
            let mut m = String::from_str("Unknown format: ");
            m.append(s);
            m.append(". Expected one of \"json\", \"yaml\"");
            proof {
                assert(m@ =~= format_unknown_message(s@));
            }
            Err(m)
        }
    }
}

/// The message `Format::from_str` reports for an unknown format name.
pub open spec fn format_unknown_message(s: Seq<char>) -> Seq<char> {
    "Unknown format: "@ + s + ". Expected one of \"json\", \"yaml\""@
}

/// Round trip: parsing a format's own name yields the format back.
pub proof fn lemma_format_name_round_trip(f: Format, r: Result<Format, String>, n: &'static str)
    requires
        f is Json ==> n@ == "json"@,
        f is Yaml ==> n@ == "yaml"@,
        n@ == "json"@ ==> r == Result::<Format, String>::Ok(Format::Json),
        n@ == "yaml"@ ==> r == Result::<Format, String>::Ok(Format::Yaml),
    ensures
        r == Result::<Format, String>::Ok(f),
{
    reveal_strlit("json");
    reveal_strlit("yaml");
}

/// A role a token or account can hold on the control plane.
#[derive(Copy, Clone, PartialEq, Eq, Structural, Debug)]
pub enum Role {
    Admin,
    MarketingAdmin,
    ViewProject,
    DeleteProject,
    CreateProject,
    InstanceServer,
}

/// The canonical name of a role.
pub open spec fn role_name(r: Role) -> Seq<char> {
    match r {
        Role::Admin => "Admin"@,
        Role::MarketingAdmin => "MarketingAdmin"@,
        Role::ViewProject => "ViewProject"@,
        Role::DeleteProject => "DeleteProject"@,
        Role::CreateProject => "CreateProject"@,
        Role::InstanceServer => "InstanceServer"@,
    }
}

/// The role a name denotes, if any.
pub open spec fn role_of_str(s: Seq<char>) -> Option<Role> {
    if s == "Admin"@ {
        Some(Role::Admin)
    } else if s == "MarketingAdmin"@ {
        Some(Role::MarketingAdmin)
    } else if s == "ViewProject"@ {
        Some(Role::ViewProject)
    } else if s == "DeleteProject"@ {
        Some(Role::DeleteProject)
    } else if s == "CreateProject"@ {
        Some(Role::CreateProject)
    } else if s == "InstanceServer"@ {
        Some(Role::InstanceServer)
    } else {
        None
    }
}

/// The message reported for an unknown role name.
pub open spec fn role_unknown_message(s: Seq<char>) -> Seq<char> {
    "Unknown role: "@ + s
        + ". Expected one of \"Admin\", \"MarketingAdmin\", \"ViewProject\", \"DeleteProject\", \"CreateProject\", \"InstanceServer\""@
}

impl Role {
    /// The canonical textual name of the role.
    pub fn name(&self) -> (r: &'static str)
        ensures
            r@ == role_name(*self),
    {
        match self {
            Role::Admin => "Admin",
            Role::MarketingAdmin => "MarketingAdmin",
            Role::ViewProject => "ViewProject",
            Role::DeleteProject => "DeleteProject",
            Role::CreateProject => "CreateProject",
            Role::InstanceServer => "InstanceServer",
        }
    }

    /// Parses a role name; accepts exactly the strings `name` produces.
    pub fn from_str(s: &str) -> (r: Result<Role, String>)
        ensures
            r matches Ok(role) ==> role_of_str(s@) == Some(role),
            r matches Err(m) ==> role_of_str(s@) is None && m@ == role_unknown_message(s@),
    {
        if str_eq(s, "Admin") {
            Ok(Role::Admin)
        } else if str_eq(s, "MarketingAdmin") {
            Ok(Role::MarketingAdmin)
        } else if str_eq(s, "ViewProject") {
            Ok(Role::ViewProject)
        } else if str_eq(s, "DeleteProject") {
            Ok(Role::DeleteProject)
        } else if str_eq(s, "CreateProject") {
            Ok(Role::CreateProject)
        } else if str_eq(s, "InstanceServer") {
            Ok(Role::InstanceServer)
        } else {
            let mut m = String::from_str("Unknown role: ");
            m.append(s);
            m.append(
                ". Expected one of \"Admin\", \"MarketingAdmin\", \"ViewProject\", \"DeleteProject\", \"CreateProject\", \"InstanceServer\"",
            );
            proof {
                assert(m@ =~= role_unknown_message(s@));
            }
            Err(m)
        }
    }
}

/// Round trip: parsing a role's own name yields the role back.
pub proof fn lemma_role_round_trip(r: Role)
    ensures
        role_of_str(role_name(r)) == Some(r),
{
    reveal_strlit("Admin");
    reveal_strlit("MarketingAdmin");
    reveal_strlit("ViewProject");
    reveal_strlit("DeleteProject");
    reveal_strlit("CreateProject");
    reveal_strlit("InstanceServer");
    assert("Admin"@[0] == 'A');
    assert("MarketingAdmin"@[0] == 'M');
    assert("ViewProject"@[0] == 'V');
    assert("DeleteProject"@[0] == 'D');
    assert("CreateProject"@[0] == 'C');
    assert("InstanceServer"@[0] == 'I');
}

/// An action a project grant can allow.
#[derive(Copy, Clone, PartialEq, Eq, Structural, Debug)]
pub enum ProjectAction {
    ViewTemplate,
    CreateTemplate,
    UpdateTemplate,
    DeleteTemplate,
    ViewWorker,
    CreateWorker,
    UpdateWorker,
    DeleteWorker,
    ViewProjectGrants,
    CreateProjectGrants,
    DeleteProjectGrants,
}

/// The canonical name of a project action.
pub open spec fn action_name(a: ProjectAction) -> Seq<char> {
    match a {
        ProjectAction::ViewTemplate => "ViewTemplate"@,
        ProjectAction::CreateTemplate => "CreateTemplate"@,
        ProjectAction::UpdateTemplate => "UpdateTemplate"@,
        ProjectAction::DeleteTemplate => "DeleteTemplate"@,
        ProjectAction::ViewWorker => "ViewWorker"@,
        ProjectAction::CreateWorker => "CreateWorker"@,
        ProjectAction::UpdateWorker => "UpdateWorker"@,
        ProjectAction::DeleteWorker => "DeleteWorker"@,
        ProjectAction::ViewProjectGrants => "ViewProjectGrants"@,
        ProjectAction::CreateProjectGrants => "CreateProjectGrants"@,
        ProjectAction::DeleteProjectGrants => "DeleteProjectGrants"@,
    }
}

/// The project action a name denotes, if any.
pub open spec fn action_of_str(s: Seq<char>) -> Option<ProjectAction> {
    if s == "ViewTemplate"@ {
        Some(ProjectAction::ViewTemplate)
    } else if s == "CreateTemplate"@ {
        Some(ProjectAction::CreateTemplate)
    } else if s == "UpdateTemplate"@ {
        Some(ProjectAction::UpdateTemplate)
    } else if s == "DeleteTemplate"@ {
        Some(ProjectAction::DeleteTemplate)
    } else if s == "ViewWorker"@ {
        Some(ProjectAction::ViewWorker)
    } else if s == "CreateWorker"@ {
        Some(ProjectAction::CreateWorker)
    } else if s == "UpdateWorker"@ {
        Some(ProjectAction::UpdateWorker)
    } else if s == "DeleteWorker"@ {
        Some(ProjectAction::DeleteWorker)
    } else if s == "ViewProjectGrants"@ {
        Some(ProjectAction::ViewProjectGrants)
    } else if s == "CreateProjectGrants"@ {
        Some(ProjectAction::CreateProjectGrants)
    } else if s == "DeleteProjectGrants"@ {
        Some(ProjectAction::DeleteProjectGrants)
    } else {
        None
    }
}

/// The message reported for an unknown action name.
pub open spec fn action_unknown_message(s: Seq<char>) -> Seq<char> {
    "Unknown action: "@ + s
        + ". Expected one of \"ViewTemplate\", \"CreateTemplate\", \"UpdateTemplate\", \"DeleteTemplate\", \"ViewWorker\", \"CreateWorker\", \"UpdateWorker\", \"DeleteWorker\", \"ViewProjectGrants\", \"CreateProjectGrants\", \"DeleteProjectGrants\""@
}

impl ProjectAction {
    /// The canonical textual name of the action.
    pub fn name(&self) -> (r: &'static str)
        ensures
            r@ == action_name(*self),
    {
        match self {
            ProjectAction::ViewTemplate => "ViewTemplate",
            ProjectAction::CreateTemplate => "CreateTemplate",
            ProjectAction::UpdateTemplate => "UpdateTemplate",
            ProjectAction::DeleteTemplate => "DeleteTemplate",
            ProjectAction::ViewWorker => "ViewWorker",
            ProjectAction::CreateWorker => "CreateWorker",
            ProjectAction::UpdateWorker => "UpdateWorker",
            ProjectAction::DeleteWorker => "DeleteWorker",
            ProjectAction::ViewProjectGrants => "ViewProjectGrants",
            ProjectAction::CreateProjectGrants => "CreateProjectGrants",
            ProjectAction::DeleteProjectGrants => "DeleteProjectGrants",
        }
    }

    /// Parses an action name; accepts exactly the strings `name` produces.
    pub fn from_str(s: &str) -> (r: Result<ProjectAction, String>)
        ensures
            r matches Ok(a) ==> action_of_str(s@) == Some(a),
            r matches Err(m) ==> action_of_str(s@) is None && m@ == action_unknown_message(s@),
    {
        if str_eq(s, "ViewTemplate") {
            Ok(ProjectAction::ViewTemplate)
        } else if str_eq(s, "CreateTemplate") {
            Ok(ProjectAction::CreateTemplate)
        } else if str_eq(s, "UpdateTemplate") {
            Ok(ProjectAction::UpdateTemplate)
        } else if str_eq(s, "DeleteTemplate") {
            Ok(ProjectAction::DeleteTemplate)
        } else if str_eq(s, "ViewWorker") {
            Ok(ProjectAction::ViewWorker)
        } else if str_eq(s, "CreateWorker") {
            Ok(ProjectAction::CreateWorker)
        } else if str_eq(s, "UpdateWorker") {
            Ok(ProjectAction::UpdateWorker)
        } else if str_eq(s, "DeleteWorker") {
            Ok(ProjectAction::DeleteWorker)
        } else if str_eq(s, "ViewProjectGrants") {
            Ok(ProjectAction::ViewProjectGrants)
        } else if str_eq(s, "CreateProjectGrants") {
            Ok(ProjectAction::CreateProjectGrants)
        } else if str_eq(s, "DeleteProjectGrants") {
            Ok(ProjectAction::DeleteProjectGrants)
        } else {
            let mut m = String::from_str("Unknown action: ");
            m.append(s);
            m.append(
                ". Expected one of \"ViewTemplate\", \"CreateTemplate\", \"UpdateTemplate\", \"DeleteTemplate\", \"ViewWorker\", \"CreateWorker\", \"UpdateWorker\", \"DeleteWorker\", \"ViewProjectGrants\", \"CreateProjectGrants\", \"DeleteProjectGrants\"",
            );
            proof {
                assert(m@ =~= action_unknown_message(s@));
            }
            Err(m)
        }
    }
}

/// Round trip: parsing an action's own name yields the action back.
pub proof fn lemma_action_round_trip(a: ProjectAction)
    ensures
        action_of_str(action_name(a)) == Some(a),
{
    reveal_strlit("ViewTemplate");
    reveal_strlit("CreateTemplate");
    reveal_strlit("UpdateTemplate");
    reveal_strlit("DeleteTemplate");
    reveal_strlit("ViewWorker");
    reveal_strlit("CreateWorker");
    reveal_strlit("UpdateWorker");
    reveal_strlit("DeleteWorker");
    reveal_strlit("ViewProjectGrants");
    reveal_strlit("CreateProjectGrants");
    reveal_strlit("DeleteProjectGrants");
    assert("ViewTemplate"@[0] == 'V' && "ViewTemplate"@.len() == 12);
    assert("CreateTemplate"@[0] == 'C' && "CreateTemplate"@.len() == 14);
    assert("UpdateTemplate"@[0] == 'U' && "UpdateTemplate"@.len() == 14);
    assert("DeleteTemplate"@[0] == 'D' && "DeleteTemplate"@.len() == 14);
    assert("ViewWorker"@[0] == 'V' && "ViewWorker"@.len() == 10);
    assert("CreateWorker"@[0] == 'C' && "CreateWorker"@.len() == 12);
    assert("UpdateWorker"@[0] == 'U' && "UpdateWorker"@.len() == 12);
    assert("DeleteWorker"@[0] == 'D' && "DeleteWorker"@.len() == 12);
    assert("ViewProjectGrants"@[0] == 'V' && "ViewProjectGrants"@.len() == 17);
    assert("CreateProjectGrants"@[0] == 'C' && "CreateProjectGrants"@.len() == 19);
    assert("DeleteProjectGrants"@[0] == 'D' && "DeleteProjectGrants"@.len() == 19);
}

/// An account identity on the control plane.
#[derive(Clone, Debug)]
pub struct AccountId {
    pub id: String,
}

impl AccountId {
    /// Wraps a raw account identifier.
    pub fn new(id: String) -> (r: AccountId)
        ensures
            r.id@ == id@,
    {
        AccountId { id }
    }
}

/// A template's name.
#[derive(Clone, Debug)]
pub struct TemplateName(pub String);

/// A worker's name.
#[derive(Clone, Debug)]
pub struct WorkerName(pub String);

/// A pre-generated key achieving at-most-once invocation across retries.
#[derive(Clone, Debug)]
pub struct InvocationKey(pub String);

/// A file argument: either a path or the standard input, written `-`.
pub enum PathBufOrStdin {
    Path(String),
    Stdin,
}

impl PathBufOrStdin {
    /// Parses a file argument: `-` selects the standard input, anything else
    /// is a path.
    pub fn from_str(s: &str) -> (r: PathBufOrStdin)
        ensures
            s@ == "-"@ ==> r is Stdin,
            s@ != "-"@ ==> (r matches PathBufOrStdin::Path(p) && p@ == s@),
    {
        if str_eq(s, "-") {
            PathBufOrStdin::Stdin
        } else {
            PathBufOrStdin::Path(s.to_owned())
        }
    }
}

} // verus!
