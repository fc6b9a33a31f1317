use crate::text::contains_str;
use crate::text::seq_contains;
use vstd::prelude::*;

verus! {

/// What can go wrong in the backup service.
#[derive(Debug)]
pub enum BackupServiceError {
    AuthenticationFailed,
    NetworkError,
    RepositoryNotFound(String),
    CommandFailed(String),
    CredentialValidationFailed(Box<BackupServiceError>),
    CommandNotFound(String),
    ConfigurationError(String),
}

/// A failure that makes every further call to the store pointless.
pub open spec fn is_fatal_spec(e: BackupServiceError) -> bool {
    e is AuthenticationFailed || e is NetworkError
}

/// The lowered text names an access or credential failure.
pub open spec fn is_auth_text(l: Seq<char>) -> bool {
    seq_contains(l, "access denied"@) || seq_contains(l, "invalid credentials"@) || seq_contains(
        l,
        "authorization"@,
    ) || seq_contains(l, "forbidden"@) || seq_contains(l, "access key"@) || seq_contains(
        l,
        "secret key"@,
    )
}

/// The lowered text names a connectivity failure.
pub open spec fn is_network_text(l: Seq<char>) -> bool {
    seq_contains(l, "network"@) || seq_contains(l, "connection"@) || seq_contains(l, "timeout"@)
        || seq_contains(l, "unreachable"@) || seq_contains(l, "dns"@)
}

/// The lowered text says that a repository is missing.
pub open spec fn is_not_found_text(l: Seq<char>) -> bool {
    seq_contains(l, "repository"@) && seq_contains(l, "not found"@)
}

/// `e` is the error that a tool's diagnostic `raw`, lowered to `l`, stands for;
/// `ctx` names what was being done.
pub open spec fn diagnosed_as(l: Seq<char>, raw: Seq<char>, ctx: Seq<char>, e: BackupServiceError) -> bool {
    if is_auth_text(l) {
        e is AuthenticationFailed
    } else if is_network_text(l) {
        e is NetworkError
    } else if is_not_found_text(l) {
        e matches BackupServiceError::RepositoryNotFound(c) && c@ == ctx
    } else {
        e matches BackupServiceError::CommandFailed(m) && m@ == raw
    }
}

/// What `str::to_lowercase` makes of a text.
pub uninterp spec fn lowercase_of(s: Seq<char>) -> Seq<char>;

/// Relies on `str::to_lowercase`: the lowered text depends on the characters alone.
#[verifier::external_body]
fn lowercase(s: &str) -> (r: String)
    ensures
        r@ == lowercase_of(s@),
{
    s.to_lowercase()
}

impl BackupServiceError {
    /// Whether this failure must stop a whole multi-repository operation.
    pub fn is_fatal(&self) -> (b: bool)
        ensures
            b == is_fatal_spec(*self),
    {
        match self {
            BackupServiceError::AuthenticationFailed => true,
            BackupServiceError::NetworkError => true,
            _ => false,
        }
    }

    /// This error, marked as raised while checking credentials.
    pub fn with_validation_context(self) -> (r: BackupServiceError)
        ensures
            r matches BackupServiceError::CredentialValidationFailed(b) && *b == self,
    {
        BackupServiceError::CredentialValidationFailed(Box::new(self))
    }

    /// The error that a diagnostic stands for, given the diagnostic already lowered.
    pub fn from_lowered(lowered: &str, stderr: &str, context: &str) -> (r: Self)
        ensures
            diagnosed_as(lowered@, stderr@, context@, r),
    {
        if contains_str(lowered, "access denied") || contains_str(lowered, "invalid credentials")
            || contains_str(lowered, "authorization") || contains_str(lowered, "forbidden")
            || contains_str(lowered, "access key") || contains_str(lowered, "secret key") {
            BackupServiceError::AuthenticationFailed
        } else if contains_str(lowered, "network") || contains_str(lowered, "connection")
            || contains_str(lowered, "timeout") || contains_str(lowered, "unreachable")
            || contains_str(lowered, "dns") {
            BackupServiceError::NetworkError
        } else if contains_str(lowered, "repository") && contains_str(lowered, "not found") {
            BackupServiceError::RepositoryNotFound(String::from_str(context))
        } else {
            BackupServiceError::CommandFailed(String::from_str(stderr))
        }
    }

    /// The error that a tool's diagnostic output stands for, matched without regard to case.
    pub fn from_stderr(stderr: &str, context: &str) -> (r: Self)
        ensures
            diagnosed_as(lowercase_of(stderr@), stderr@, context@, r),
    {
        let lowered = lowercase(stderr);
        Self::from_lowered(lowered.as_str(), stderr, context)
    }
}

} // verus!
