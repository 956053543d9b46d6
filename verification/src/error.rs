use vstd::prelude::*;

verus! {

/// What can go wrong while answering a tool call.
pub enum McpGitError {
    /// The repository could not be read.
    Git(String),
    /// No connected repository has the requested name.
    RepoNotFound(String),
    /// Several repositories are connected and none was named.
    AmbiguousRepo,
    /// A revision could not be resolved.
    InvalidRef(String),
    /// Anything else, shown as it is.
    Other(String),
}

/// An error as it is answered to the client: a JSON-RPC error code and a message.
pub struct McpErrorData {
    pub code: i32,
    pub message: String,
}

/// The text shown for an error.
pub open spec fn error_text(e: McpGitError) -> Seq<char> {
    match e {
        McpGitError::Git(s) => "Git error: "@ + s@,
        McpGitError::RepoNotFound(s) => "Repository not found: "@ + s@,
        McpGitError::AmbiguousRepo =>
            "Ambiguous repository: multiple repos connected, specify the 'repo' parameter"@,
        McpGitError::InvalidRef(s) => "Invalid ref: "@ + s@,
        McpGitError::Other(s) => s@,
    }
}

/// Whether an error is the caller's fault (a bad parameter) rather than the server's.
pub open spec fn is_caller_error(e: McpGitError) -> bool {
    match e {
        McpGitError::RepoNotFound(_) | McpGitError::AmbiguousRepo | McpGitError::InvalidRef(_) => true,
        McpGitError::Git(_) | McpGitError::Other(_) => false,
    }
}

/// The JSON-RPC code for invalid parameters.
pub open spec fn invalid_params_code_value() -> i32 {
    -32602i32
}

/// The JSON-RPC code for an internal error.
pub open spec fn internal_error_code_value() -> i32 {
    -32603i32
}

/// `rmcp::model::ErrorCode::INVALID_PARAMS`, the code that
/// `ErrorData::invalid_params` gives its error; rmcp defines it as -32602.
#[verifier::external_body]
fn invalid_params_code() -> (c: i32)
    ensures
        c == invalid_params_code_value(),
{
    rmcp::model::ErrorCode::INVALID_PARAMS.0
}

/// `rmcp::model::ErrorCode::INTERNAL_ERROR`, the code that
/// `ErrorData::internal_error` gives its error; rmcp defines it as -32603.
#[verifier::external_body]
fn internal_error_code() -> (c: i32)
    ensures
        c == internal_error_code_value(),
{
    rmcp::model::ErrorCode::INTERNAL_ERROR.0
}

impl McpGitError {
    /// The text shown for this error.
    pub fn message(&self) -> (s: String)
        ensures
            s@ == error_text(*self),
    {
        match self {
            McpGitError::Git(s) => String::from_str("Git error: ").concat(s.as_str()),
            McpGitError::RepoNotFound(s) => String::from_str("Repository not found: ").concat(
                s.as_str(),
            ),
            McpGitError::AmbiguousRepo => String::from_str(
                "Ambiguous repository: multiple repos connected, specify the 'repo' parameter",
            ),
            McpGitError::InvalidRef(s) => String::from_str("Invalid ref: ").concat(s.as_str()),
            McpGitError::Other(s) => s.clone(),
        }
    }

    /// The answer to the client: an invalid-params error for a missing,
    /// ambiguous or unresolvable reference, an internal error otherwise,
    /// carrying the error's text.
    pub fn to_mcp_error(&self) -> (e: McpErrorData)
        ensures
            e.message@ == error_text(*self),
            e.code == (if is_caller_error(*self) {
                invalid_params_code_value()
            } else {
                internal_error_code_value()
            }),
    {
        let code = match self {
            McpGitError::RepoNotFound(_) | McpGitError::AmbiguousRepo => invalid_params_code(),
            McpGitError::InvalidRef(_) => invalid_params_code(),
            McpGitError::Git(_) | McpGitError::Other(_) => internal_error_code(),
        };
        McpErrorData { code, message: self.message() }
    }
}


/// Errors that come from the request (a repository name that matches no
/// repository, a missing name where several repositories are connected, a
/// revision that does not resolve) are answered as invalid parameters, code
/// -32602; repository failures and other errors as internal errors, code
/// -32603. The message of an error that carries a detail ends with it.
pub proof fn law_error_codes(e: McpGitError)
    ensures
        (if is_caller_error(e) {
            invalid_params_code_value()
        } else {
            internal_error_code_value()
        }) == (match e {
            McpGitError::RepoNotFound(_) => -32602i32,
            McpGitError::AmbiguousRepo => -32602i32,
            McpGitError::InvalidRef(_) => -32602i32,
            McpGitError::Git(_) => -32603i32,
            McpGitError::Other(_) => -32603i32,
        }),
        e matches McpGitError::Git(s) ==> error_text(e).skip(error_text(e).len() - s@.len()) == s@,
        e matches McpGitError::RepoNotFound(s) ==> error_text(e).skip(error_text(e).len() - s@.len())
            == s@,
        e matches McpGitError::InvalidRef(s) ==> error_text(e).skip(error_text(e).len() - s@.len())
            == s@,
        e matches McpGitError::Other(s) ==> error_text(e) == s@,
{
    match e {
        McpGitError::Git(s) => {
            assert(("Git error: "@ + s@).skip(("Git error: "@ + s@).len() - s@.len()) =~= s@);
        },
        McpGitError::RepoNotFound(s) => {
            assert(("Repository not found: "@ + s@).skip(("Repository not found: "@ + s@).len() - s@.len())
                =~= s@);
        },
        McpGitError::InvalidRef(s) => {
            assert(("Invalid ref: "@ + s@).skip(("Invalid ref: "@ + s@).len() - s@.len()) =~= s@);
        },
        _ => {},
    }
}

} // verus!
