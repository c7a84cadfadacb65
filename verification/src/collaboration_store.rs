//! Status and role vocabularies of collaboration sessions.

use vstd::prelude::*;

verus! {

/// State of a collaboration session.
#[derive(Debug, Clone, Copy, PartialEq, Eq, Structural)]
pub enum SessionStatus {
    Active,
    Completed,
    Stale,
}

impl Default for SessionStatus {
    fn default() -> (r: Self)
        ensures
            r == SessionStatus::Active,
    {
        SessionStatus::Active
    }
}

pub open spec fn session_status_name(s: SessionStatus) -> Seq<char> {
    match s {
        SessionStatus::Active => "active"@,
        SessionStatus::Completed => "completed"@,
        SessionStatus::Stale => "stale"@,
    }
}

/// The status a lower-cased name denotes.
pub open spec fn session_status_named(l: Seq<char>) -> Option<SessionStatus> {
    if l == "active"@ {
        Some(SessionStatus::Active)
    } else if l == "completed"@ {
        Some(SessionStatus::Completed)
    } else if l == "stale"@ {
        Some(SessionStatus::Stale)
    } else {
        None
    }
}

impl SessionStatus {
    /// The stored name of the status.
    pub fn as_str(&self) -> (r: &'static str)
        ensures
            r@ == session_status_name(*self),
    {
        match self {
            SessionStatus::Active => "active",
            SessionStatus::Completed => "completed",
            SessionStatus::Stale => "stale",
        }
    }

    /// The status a name denotes, compared after Unicode lower-casing.
    pub fn parse(s: &str) -> (r: Result<SessionStatus, String>)
        ensures
            match session_status_named(crate::google_workspace_poller::unicode_lower(s@)) {
                Some(st) => r == Ok::<SessionStatus, String>(st),
                None => r matches Err(e) && e@ == "unknown session status: "@ + s@,
            },
    {
        let l = crate::google_workspace_poller::lowercase(s);
        let l = l.as_str();
        if crate::text::str_eq(l, "active") {
            Ok(SessionStatus::Active)
        } else if crate::text::str_eq(l, "completed") {
            Ok(SessionStatus::Completed)
        } else if crate::text::str_eq(l, "stale") {
            Ok(SessionStatus::Stale)
        } else {
            Err(crate::text::concat2("unknown session status: ", s))
        }
    }
}

/// Role of an artifact in a session.
#[derive(Debug, Clone, Copy, PartialEq, Eq, Structural)]
pub enum ArtifactRole {
    Target,
    Reference,
}

impl Default for ArtifactRole {
    fn default() -> (r: Self)
        ensures
            r == ArtifactRole::Target,
    {
        ArtifactRole::Target
    }
}

pub open spec fn artifact_role_name(r: ArtifactRole) -> Seq<char> {
    match r {
        ArtifactRole::Target => "target"@,
        ArtifactRole::Reference => "reference"@,
    }
}

impl ArtifactRole {
    /// The stored name of the role.
    pub fn as_str(&self) -> (r: &'static str)
        ensures
            r@ == artifact_role_name(*self),
    {
        match self {
            ArtifactRole::Target => "target",
            ArtifactRole::Reference => "reference",
        }
    }

    /// The role a name denotes, compared after Unicode lower-casing.
    pub fn parse(s: &str) -> (r: Result<ArtifactRole, String>)
        ensures
            crate::google_workspace_poller::unicode_lower(s@) == "target"@ ==> r == Ok::<ArtifactRole, String>(ArtifactRole::Target),
            crate::google_workspace_poller::unicode_lower(s@) == "reference"@ ==> r == Ok::<ArtifactRole, String>(ArtifactRole::Reference),
            crate::google_workspace_poller::unicode_lower(s@) != "target"@ && crate::google_workspace_poller::unicode_lower(s@) != "reference"@
                ==> (r matches Err(e) && e@ == "unknown artifact role: "@ + s@),
    {
        let l = crate::google_workspace_poller::lowercase(s);
        proof {
            reveal_strlit("target");
            reveal_strlit("reference");
            assert("target"@.len() != "reference"@.len());
        }
        if crate::text::str_eq(l.as_str(), "target") {
            Ok(ArtifactRole::Target)
        } else if crate::text::str_eq(l.as_str(), "reference") {
            Ok(ArtifactRole::Reference)
        } else {
            Err(crate::text::concat2("unknown artifact role: ", s))
        }
    }
}

} // verus!
