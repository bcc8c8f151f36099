//! Fetch policy for cloning a remote source into a temporary
//! directory: the fetch reference, the credential-resolution chain,
//! the shallow-clone rule, failure classification, and resolution of
//! the effective root inside the cloned tree.
//!
//! The clone itself is network work done by the caller, which feeds
//! the decisions taken here into its clone primitive and hands the
//! outcome back for classification.

use vstd::prelude::*;
use vstd::string::{StrSliceExecFns, StringExecFns};

use crate::text::{str_contains, sub_at};

verus! {

/// A source to fetch: a URL with an optional branch or tag to check
/// out and an optional subdirectory restricting the usable root.
/// At most one of branch and tag is meaningful; branch wins.
#[derive(Debug, Clone)]
pub struct GitSource {
    /// The remote URL, in HTTPS or SSH form.
    pub url: String,
    /// Branch to fetch, if any.
    pub branch: Option<String>,
    /// Tag to fetch, if any; used only when no branch is given.
    pub tag: Option<String>,
    /// Subdirectory of the cloned tree to use as the root, if any.
    pub subdir: Option<String>,
}

impl GitSource {
    /// The reference to fetch: the branch if one is given, else the
    /// tag, else none (the remote's default branch).
    pub fn reference(&self) -> (r: Option<String>)
        ensures
            r == (match self.branch {
                Some(b) => Some(b),
                None => self.tag,
            }),
    {
        match &self.branch {
            Some(b) => Some(b.clone()),
            None => match &self.tag {
                Some(t) => Some(t.clone()),
                None => None,
            },
        }
    }
}

/// A classified fetch failure.
#[derive(Debug)]
pub enum FetchError {
    /// Host resolution or connection trouble; worth retrying.
    Network { message: String },
    /// The remote explicitly reports that the repository is absent.
    RepoNotFound { url: String },
    /// Any other clone-time failure, message preserved.
    Git { message: String },
    /// The requested subdirectory is absent from the cloned tree.
    InvalidSource { url: String, message: String },
    /// A filesystem failure around the clone, message preserved.
    Io { message: String },
}

/// The credential to offer for one connection attempt.
#[derive(Debug)]
pub enum CredentialChoice {
    /// An SSH-agent-backed identity for this user name.
    SshAgent { username: String },
    /// The operating system's configured credential helper.
    Helper,
    /// The anonymous/default credential.
    Anonymous,
    /// No provider applies; the attempt fails.
    Unavailable,
}

/// Resolves the credential to offer, given which authentication
/// methods the server allows and the user name from the URL, if any.
/// The chain is fixed: an SSH-agent identity when SSH-key
/// authentication is allowed and a user name is known; else the
/// credential helper when plaintext user/password is allowed; else
/// the default credential when the server allows it; else nothing.
pub fn choose_credential(
    allows_ssh_key: bool,
    allows_user_pass: bool,
    allows_default: bool,
    username_from_url: Option<String>,
) -> (r: CredentialChoice)
    ensures
        (allows_ssh_key && username_from_url is Some) ==> r == (CredentialChoice::SshAgent {
            username: username_from_url->0,
        }),
        (!(allows_ssh_key && username_from_url is Some) && allows_user_pass) ==> r
            == (CredentialChoice::Helper {  }),
        (!(allows_ssh_key && username_from_url is Some) && !allows_user_pass && allows_default)
            ==> r == (CredentialChoice::Anonymous {  }),
        (!(allows_ssh_key && username_from_url is Some) && !allows_user_pass && !allows_default)
            ==> r == (CredentialChoice::Unavailable {  }),
{
    if allows_ssh_key {
        if let Some(username) = username_from_url {
            return CredentialChoice::SshAgent { username };
        }
    }
    if allows_user_pass {
        return CredentialChoice::Helper;
    }
    if allows_default {
        return CredentialChoice::Anonymous;
    }
    CredentialChoice::Unavailable
}

/// The clone depth to request: a shallow, depth-1 transfer only when
/// no explicit reference was requested; a branch or tag always gets a
/// full-history-capable clone.
pub fn shallow_depth(reference: &Option<String>) -> (d: Option<u32>)
    ensures
        reference is None ==> d == Some(1u32),
        reference is Some ==> d is None,
{
    match reference {
        None => Some(1),
        Some(_) => None,
    }
}

/// Whether a clone failure message indicates network trouble: it
/// mentions host resolution, the network, or connections.
pub open spec fn is_network_message(m: Seq<char>) -> bool {
    (exists|j: int| sub_at(m, "Could not resolve host"@, j)) || (exists|j: int|
        sub_at(m, "network"@, j)) || (exists|j: int| sub_at(m, "connection"@, j))
}

/// Classifies a clone failure: network trouble when the message says
/// so; otherwise repository-not-found when the remote reported
/// absence; otherwise a generic failure carrying the message.
pub fn classify_clone_error(url: &str, message: String, remote_not_found: bool) -> (r: FetchError)
    ensures
        is_network_message(message@) ==> (r matches FetchError::Network { message: m } && m@
            == message@),
        (!is_network_message(message@) && remote_not_found) ==> (r matches
            FetchError::RepoNotFound { url: u } && u@ == url@),
        (!is_network_message(message@) && !remote_not_found) ==> (r matches FetchError::Git {
            message: m,
        } && m@ == message@),
{
    proof {
        reveal_strlit("Could not resolve host");
        reveal_strlit("network");
        reveal_strlit("connection");
    }
    let network = str_contains(message.as_str(), "Could not resolve host") || str_contains(
        message.as_str(),
        "network",
    ) || str_contains(message.as_str(), "connection");
    if network {
        FetchError::Network { message }
    } else if remote_not_found {
        FetchError::RepoNotFound { url: String::from_str(url) }
    } else {
        FetchError::Git { message }
    }
}

/// The effective root of a fetched tree: the temporary directory
/// itself, or its `subdir` sub-path when one was requested.
pub fn resolve_root(temp_path: &str, subdir: &Option<String>) -> (r: String)
    ensures
        subdir is None ==> r@ == temp_path@,
        subdir matches Some(d) ==> r@ == temp_path@ + "/"@ + d@,
{
    match subdir {
        None => String::from_str(temp_path),
        Some(d) => {
            let mut s = String::from_str(temp_path);
            s.append("/");
            s.append(d.as_str());
            s
        },
    }
}

/// The failure reported when a requested subdirectory is absent from
/// the cloned tree.
pub open spec fn missing_subdir_message(subdir: Option<String>) -> Seq<char> {
    "Subdirectory '"@ + (match subdir {
        Some(d) => d@,
        None => Seq::<char>::empty(),
    }) + "' not found in repository"@
}

/// Checks the resolved root after a successful clone: accepts when it
/// exists, and otherwise reports an invalid source naming the missing
/// subdirectory.  Whether the root exists is the caller's filesystem
/// observation.
pub fn validate_root(url: &str, subdir: &Option<String>, root_exists: bool) -> (r: Result<
    (),
    FetchError,
>)
    ensures
        root_exists ==> r is Ok,
        !root_exists ==> (r matches Err(FetchError::InvalidSource { url: u, message: m }) && u@
            == url@ && m@ == missing_subdir_message(*subdir)),
{
    if root_exists {
        Ok(())
    } else {
        let mut m = String::from_str("Subdirectory '");
        match subdir {
            Some(d) => m.append(d.as_str()),
            None => (),
        }
        m.append("' not found in repository");
        proof {
            assert(m@ =~= missing_subdir_message(*subdir));
        }
        Err(FetchError::InvalidSource { url: String::from_str(url), message: m })
    }
}

} // verus!
