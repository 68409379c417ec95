//! Who is asking, and what they may do.
use vstd::prelude::*;

use crate::api_error::{refusal, ApiError, ErrorView};
use crate::identity::{is_slug, UserId};

verus! {

/// What an account may do. Each role includes those before it.
#[derive(Clone, Copy, Debug, PartialEq, Eq, Structural)]
pub enum Role {
    Viewer,
    Picker,
    Operator,
    Admin,
}

impl Role {
    /// How far up the ladder the role is.
    pub open spec fn level(self) -> int {
        match self {
            Role::Viewer => 0,
            Role::Picker => 1,
            Role::Operator => 2,
            Role::Admin => 3,
        }
    }

    fn rung(self) -> (rung: u8)
        ensures
            rung == self.level(),
    {
        match self {
            Role::Viewer => 0,
            Role::Picker => 1,
            Role::Operator => 2,
            Role::Admin => 3,
        }
    }

    /// Whether this role includes `other`.
    pub fn includes(self, other: Role) -> (included: bool)
        ensures
            included == (self.level() >= other.level()),
    {
        self.rung() >= other.rung()
    }

    /// The role as text.
    pub open spec fn label(self) -> Seq<char> {
        match self {
            Role::Viewer => "viewer"@,
            Role::Picker => "picker"@,
            Role::Operator => "operator"@,
            Role::Admin => "admin"@,
        }
    }

    /// The role as it is written in settings and messages.
    pub fn as_str(self) -> (text: &'static str)
        ensures
            text@ == self.label(),
    {
        match self {
            Role::Viewer => "viewer",
            Role::Picker => "picker",
            Role::Operator => "operator",
            Role::Admin => "admin",
        }
    }
}

/// What an account may take away with it. Each scope includes those before it.
#[derive(Clone, Copy, Debug, PartialEq, Eq, Structural)]
pub enum DownloadScope {
    Nothing,
    Results,
    Picks,
    Derived,
    All,
}

impl DownloadScope {
    /// How far up the ladder the scope is.
    pub open spec fn level(self) -> int {
        match self {
            DownloadScope::Nothing => 0,
            DownloadScope::Results => 1,
            DownloadScope::Picks => 2,
            DownloadScope::Derived => 3,
            DownloadScope::All => 4,
        }
    }

    fn rung(self) -> (rung: u8)
        ensures
            rung == self.level(),
    {
        match self {
            DownloadScope::Nothing => 0,
            DownloadScope::Results => 1,
            DownloadScope::Picks => 2,
            DownloadScope::Derived => 3,
            DownloadScope::All => 4,
        }
    }

    /// Whether this scope includes `other`.
    pub fn includes(self, other: DownloadScope) -> (included: bool)
        ensures
            included == (self.level() >= other.level()),
    {
        self.rung() >= other.rung()
    }
}

/// What a server permits, independent of who is asking.
#[derive(Clone, Copy, Debug, PartialEq, Eq, Structural)]
pub struct AccessOptions {
    /// Cap every caller at `viewer`, whatever their account says.
    pub read_only: bool,
    /// Whether a password may be sent to this server at all.
    pub allow_password_login: bool,
    /// Whether the key that signs sessions is kept with the project, so that a
    /// session outlives the process.
    pub persist_sessions: bool,
}

impl Default for AccessOptions {
    /// Writable, logins permitted, sessions kept: a bind that is either
    /// genuinely local or behind a proxy.
    fn default() -> (options: Self)
        ensures
            !options.read_only,
            options.allow_password_login,
            options.persist_sessions,
    {
        AccessOptions { read_only: false, allow_password_login: true, persist_sessions: true }
    }
}

/// Who is asking, as one request sees them.
#[derive(Debug, PartialEq, Eq)]
pub struct Caller {
    /// The account, where one is signed in.
    pub user: Option<UserId>,
    /// The account's role, or the one the project gives whoever is not
    /// signed in.
    pub role: Role,
    /// What the caller may download.
    pub download: DownloadScope,
    /// Whether the server caps everybody at `viewer`.
    pub read_only: bool,
    /// Whether the project has accounts at all.
    pub authentication_configured: bool,
}

/// The name shown for whoever is not signed in. It is not a slug, so it is
/// nobody's account.
pub open spec fn anonymous_name() -> Seq<char> {
    "(anonymous)"@
}

/// No account is called what an anonymous caller is called.
pub proof fn nobody_is_called_anonymous()
    ensures
        !is_slug(anonymous_name()),
{
    reveal_strlit("(anonymous)");
    assert(!crate::identity::is_slug_char(anonymous_name()[0]));
}

impl Caller {
    /// The local user of a project without accounts: an operator who may
    /// download everything.
    pub fn local(read_only: bool) -> (caller: Caller)
        ensures
            caller.user.deep_view() == Some("default"@),
            caller.role == Role::Operator,
            caller.download == DownloadScope::All,
            caller.read_only == read_only,
            !caller.authentication_configured,
    {
        proof {
            reveal_strlit("default");
        }
        let user = match UserId::new("default") {
            Ok(id) => Some(id),
            Err(_) => {
                proof {
                    let s = "default"@;
                    assert(s.len() == 7);
                    assert(s[0] == 'd' && s[1] == 'e' && s[2] == 'f' && s[3] == 'a' && s[4] == 'u'
                        && s[5] == 'l' && s[6] == 't');
                    assert(is_slug(s));
                }
                None
            },
        };
        Caller {
            user,
            role: Role::Operator,
            download: DownloadScope::All,
            read_only,
            authentication_configured: false,
        }
    }

    /// The role that counts: the account's, capped at `viewer` on a read-only
    /// server.
    pub open spec fn effective_role(self) -> Role {
        if self.read_only {
            Role::Viewer
        } else {
            self.role
        }
    }

    /// Whether the caller may do what `role` may.
    pub open spec fn allowed(self, role: Role) -> bool {
        self.effective_role().level() >= role.level()
    }

    /// Whether the caller may do what `role` may.
    pub fn may(&self, role: Role) -> (allowed: bool)
        ensures
            allowed == self.allowed(role),
    {
        if self.read_only {
            Role::Viewer.includes(role)
        } else {
            self.role.includes(role)
        }
    }

    /// Whether the caller may download what `scope` covers.
    pub open spec fn allowed_download(self, scope: DownloadScope) -> bool {
        self.download.level() >= scope.level()
    }

    /// Whether the caller may download what `scope` covers.
    pub fn may_download(&self, scope: DownloadScope) -> (allowed: bool)
        ensures
            allowed == self.allowed_download(scope),
    {
        self.download.includes(scope)
    }

    /// How a caller who may not do what `role` may is answered.
    pub open spec fn role_refusal(self, role: Role, action: Seq<char>) -> ErrorView {
        if self.read_only {
            refusal(
                403,
                "read_only"@,
                "This server is read-only, so nobody can "@ + action + " here."@,
            )
        } else if self.user is None {
            refusal(401, "authentication_required"@, "Sign in to "@ + action + "."@)
        } else {
            refusal(
                403,
                "insufficient_role"@,
                "You need the "@ + role.label() + " role to "@ + action + "."@,
            )
        }
    }

    /// Refuses a caller who may not do what `role` may.
    pub fn require(&self, role: Role, action: &str) -> (verdict: Result<(), ApiError>)
        ensures
            match verdict {
                Ok(_) => self.allowed(role),
                Err(error) => !self.allowed(role) && error@ == self.role_refusal(role, action@),
            },
    {
        if self.may(role) {
            return Ok(());
        }
        if self.read_only {
            let mut message = "This server is read-only, so nobody can ".to_owned();
            message.append(action);
            message.append(" here.");
            return Err(ApiError::forbidden("read_only", message));
        }
        match &self.user {
            None => {
                let mut message = "Sign in to ".to_owned();
                message.append(action);
                message.append(".");
                Err(ApiError::unauthorized("authentication_required", message))
            },
            Some(_) => {
                let mut message = "You need the ".to_owned();
                message.append(role.as_str());
                message.append(" role to ");
                message.append(action);
                message.append(".");
                Err(ApiError::forbidden("insufficient_role", message))
            },
        }
    }

    /// How a caller whose scope does not reach is answered.
    pub open spec fn download_refusal(self, what: Seq<char>) -> ErrorView {
        if self.user is None {
            refusal(401, "authentication_required"@, "Sign in to download "@ + what + "."@)
        } else {
            refusal(
                403,
                "insufficient_download_scope"@,
                "Your account may not download "@ + what + "."@,
            )
        }
    }

    /// Refuses a caller who may not download what `scope` covers.
    pub fn require_download(&self, scope: DownloadScope, what: &str) -> (verdict: Result<
        (),
        ApiError,
    >)
        ensures
            match verdict {
                Ok(_) => self.allowed_download(scope),
                Err(error) => !self.allowed_download(scope) && error@ == self.download_refusal(
                    what@,
                ),
            },
    {
        if self.may_download(scope) {
            return Ok(());
        }
        match &self.user {
            None => {
                let mut message = "Sign in to download ".to_owned();
                message.append(what);
                message.append(".");
                Err(ApiError::unauthorized("authentication_required", message))
            },
            Some(_) => {
                let mut message = "Your account may not download ".to_owned();
                message.append(what);
                message.append(".");
                Err(ApiError::forbidden("insufficient_download_scope", message))
            },
        }
    }

    /// What the caller is called in listings and in the log.
    pub open spec fn shown_name(self) -> Seq<char> {
        match self.user {
            Some(id) => id@,
            None => anonymous_name(),
        }
    }

    /// What the caller is called in listings and in the log.
    pub fn display_name(&self) -> (name: &str)
        ensures
            name@ == self.shown_name(),
    {
        match &self.user {
            Some(id) => id.as_str(),
            None => "(anonymous)",
        }
    }
}

/// How a caller who may not change a project, or has none to change, is
/// answered.
pub open spec fn project_refusal(
    caller: Caller,
    has_project: bool,
    action: Seq<char>,
    without_project: Seq<char>,
) -> Option<ErrorView> {
    if !caller.allowed(Role::Operator) {
        Some(caller.role_refusal(Role::Operator, action))
    } else if !has_project {
        Some(refusal(409, "not_a_project"@, without_project))
    } else {
        None
    }
}

/// Refuses a caller who is no operator, and a catalog that is no project.
pub fn require_project(
    caller: &Caller,
    has_project: bool,
    action: &str,
    without_project: &str,
) -> (verdict: Result<(), ApiError>)
    ensures
        match verdict {
            Ok(_) => project_refusal(*caller, has_project, action@, without_project@) is None,
            Err(error) => project_refusal(*caller, has_project, action@, without_project@) == Some(
                error@,
            ),
        },
{
    match caller.require(Role::Operator, action) {
        Ok(_) => {},
        Err(error) => {
            return Err(error);
        },
    }
    if has_project {
        Ok(())
    } else {
        Err(ApiError::conflict("not_a_project", without_project.to_owned()))
    }
}

/// On a read-only server nobody may do what needs more than `viewer`, whatever
/// their account says.
pub proof fn read_only_caps_everybody(caller: Caller, role: Role)
    requires
        caller.read_only,
        role != Role::Viewer,
    ensures
        !caller.allowed(role),
{
}

/// A caller who may do what one role may do, may do what every lesser role may.
pub proof fn roles_include_lesser_roles(caller: Caller, role: Role, lesser: Role)
    requires
        caller.allowed(role),
        lesser.level() <= role.level(),
    ensures
        caller.allowed(lesser),
{
}

/// A scope that permits one kind of download permits every lesser kind: raw
/// picks imply results.
pub proof fn scopes_include_lesser_scopes(
    caller: Caller,
    scope: DownloadScope,
    lesser: DownloadScope,
)
    requires
        caller.allowed_download(scope),
        lesser.level() <= scope.level(),
    ensures
        caller.allowed_download(lesser),
{
}

} // verus!
