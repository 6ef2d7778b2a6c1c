//! Errors of the control methods.

use vstd::prelude::*;

use crate::rpc::{RpcCode, RpcError};

verus! {

/// Why a control method failed.
#[derive(Debug, Clone)]
pub enum ControlError {
    /// What the request is about does not exist.
    NotFound(String),
    /// The request makes no sense.
    InvalidRequest(String),
    /// The caller may not do this.
    PermissionDenied(String),
    /// The daemon, or something it needs, is not available for now.
    Unavailable(String),
    /// The method is known and not offered.
    NotSupported(String),
    /// Something stands against it, such as that a run has ended already.
    Conflict(String),
    /// Anything else.
    Internal(String),
}

impl ControlError {
    /// What the error says about the case at hand.
    pub open spec fn detail(self) -> Seq<char> {
        match self {
            ControlError::NotFound(detail) => detail@,
            ControlError::InvalidRequest(detail) => detail@,
            ControlError::PermissionDenied(detail) => detail@,
            ControlError::Unavailable(detail) => detail@,
            ControlError::NotSupported(detail) => detail@,
            ControlError::Conflict(detail) => detail@,
            ControlError::Internal(detail) => detail@,
        }
    }

    /// What stands before the detail in the error's text.
    pub open spec fn heading(self) -> Seq<char> {
        match self {
            ControlError::NotFound(_) => "not found: "@,
            ControlError::InvalidRequest(_) => "invalid request: "@,
            ControlError::PermissionDenied(_) => "permission denied: "@,
            ControlError::Unavailable(_) => "unavailable: "@,
            ControlError::NotSupported(_) => "not supported: "@,
            ControlError::Conflict(_) => "conflict: "@,
            ControlError::Internal(_) => "internal: "@,
        }
    }

    /// The category on the wire.
    pub open spec fn category_word(self) -> Seq<char> {
        match self {
            ControlError::NotFound(_) => "not_found"@,
            ControlError::InvalidRequest(_) => "invalid_request"@,
            ControlError::PermissionDenied(_) => "permission_denied"@,
            ControlError::Unavailable(_) => "unavailable"@,
            ControlError::NotSupported(_) => "not_supported"@,
            ControlError::Conflict(_) => "conflict"@,
            ControlError::Internal(_) => "internal"@,
        }
    }

    /// The code of an answer with this error.
    pub open spec fn code(self) -> RpcCode {
        match self {
            ControlError::NotFound(_) => RpcCode::InvalidParams,
            ControlError::InvalidRequest(_) => RpcCode::InvalidParams,
            ControlError::PermissionDenied(_) => RpcCode::InvalidRequest,
            ControlError::Unavailable(_) => RpcCode::InternalError,
            ControlError::NotSupported(_) => RpcCode::MethodNotSupported,
            ControlError::Conflict(_) => RpcCode::InvalidRequest,
            ControlError::Internal(_) => RpcCode::InternalError,
        }
    }

    /// The category on the wire.
    pub fn category(&self) -> (r: &'static str)
        ensures
            r@ == self.category_word(),
    {
        match self {
            ControlError::NotFound(_) => "not_found",
            ControlError::InvalidRequest(_) => "invalid_request",
            ControlError::PermissionDenied(_) => "permission_denied",
            ControlError::Unavailable(_) => "unavailable",
            ControlError::NotSupported(_) => "not_supported",
            ControlError::Conflict(_) => "conflict",
            ControlError::Internal(_) => "internal",
        }
    }

    /// The error as one line of text.
    pub fn message(&self) -> (r: String)
        ensures
            r@ == self.heading() + self.detail(),
    {
        let (heading, detail) = match self {
            ControlError::NotFound(detail) => ("not found: ", detail),
            ControlError::InvalidRequest(detail) => ("invalid request: ", detail),
            ControlError::PermissionDenied(detail) => ("permission denied: ", detail),
            ControlError::Unavailable(detail) => ("unavailable: ", detail),
            ControlError::NotSupported(detail) => ("not supported: ", detail),
            ControlError::Conflict(detail) => ("conflict: ", detail),
            ControlError::Internal(detail) => ("internal: ", detail),
        };
        let mut out = heading.to_owned();
        out.append(detail.as_str());
        out
    }

    /// The error as an answer. Its message is the error's whole text.
    pub fn into_rpc_error(self) -> (r: RpcError)
        ensures
            r.says(self.code(), self.heading() + self.detail(), self.category_word()),
    {
        let code = match &self {
            ControlError::NotFound(_) => RpcCode::InvalidParams,
            ControlError::InvalidRequest(_) => RpcCode::InvalidParams,
            ControlError::PermissionDenied(_) => RpcCode::InvalidRequest,
            ControlError::Unavailable(_) => RpcCode::InternalError,
            ControlError::NotSupported(_) => RpcCode::MethodNotSupported,
            ControlError::Conflict(_) => RpcCode::InvalidRequest,
            ControlError::Internal(_) => RpcCode::InternalError,
        };
        RpcError::with_category(code, self.message(), self.category())
    }
}

/// The category tells what kind of error it is: errors of one category have
/// one code and one heading.
pub proof fn categories_tell_errors_apart(a: ControlError, b: ControlError)
    requires
        a.category_word() == b.category_word(),
    ensures
        a.code() == b.code(),
        a.heading() == b.heading(),
{
    reveal_strlit("not_found");
    reveal_strlit("invalid_request");
    reveal_strlit("permission_denied");
    reveal_strlit("unavailable");
    reveal_strlit("not_supported");
    reveal_strlit("conflict");
    reveal_strlit("internal");
    assert("not_found"@.len() == 9 && "invalid_request"@.len() == 15);
    assert("permission_denied"@.len() == 17 && "unavailable"@.len() == 11);
    assert("not_supported"@.len() == 13 && "conflict"@.len() == 8 && "internal"@.len() == 8);
    assert("conflict"@[0] == 'c' && "internal"@[0] == 'i');
}

/// Each kind of error has its category, its code and its heading, and keeps what
/// it was given to say.
pub proof fn errors_are_answered_by_their_kind(error: ControlError)
    ensures
        error matches ControlError::NotFound(detail) ==> error.category_word() == "not_found"@ && error.heading()
            == "not found: "@ && error.code() == RpcCode::InvalidParams && error.detail() == detail@,
        error matches ControlError::InvalidRequest(detail) ==> error.category_word() == "invalid_request"@ && error.heading()
            == "invalid request: "@ && error.code() == RpcCode::InvalidParams && error.detail() == detail@,
        error matches ControlError::PermissionDenied(detail) ==> error.category_word() == "permission_denied"@ && error.heading()
            == "permission denied: "@ && error.code() == RpcCode::InvalidRequest && error.detail() == detail@,
        error matches ControlError::Unavailable(detail) ==> error.category_word() == "unavailable"@ && error.heading()
            == "unavailable: "@ && error.code() == RpcCode::InternalError && error.detail() == detail@,
        error matches ControlError::NotSupported(detail) ==> error.category_word() == "not_supported"@ && error.heading()
            == "not supported: "@ && error.code() == RpcCode::MethodNotSupported && error.detail() == detail@,
        error matches ControlError::Conflict(detail) ==> error.category_word() == "conflict"@ && error.heading()
            == "conflict: "@ && error.code() == RpcCode::InvalidRequest && error.detail() == detail@,
        error matches ControlError::Internal(detail) ==> error.category_word() == "internal"@ && error.heading()
            == "internal: "@ && error.code() == RpcCode::InternalError && error.detail() == detail@,
{
}

} // verus!
