//! Errors as JSON-RPC answers carry them.

use vstd::prelude::*;

use crate::json::{
    json_content, make_value, new_members, put_member, JsonContent, JsonParts,
};

verus! {

/// What an error's code says.
#[derive(Debug, Clone, Copy, PartialEq, Eq, Structural)]
pub enum RpcCode {
    /// The request is not one that may be made.
    InvalidRequest,
    /// The parameters do not fit the method.
    InvalidParams,
    /// The method failed.
    InternalError,
    /// The method is known and not offered. Its number is one of the plugin
    /// protocol, not of JSON-RPC.
    MethodNotSupported,
    /// A number out of the range of one kind of plugin.
    Kind(i32),
}

impl RpcCode {
    /// The number on the wire, given the one that the plugin protocol has for
    /// a method that is not supported.
    pub open spec fn on_wire(self, method_not_supported: i32) -> int {
        match self {
            RpcCode::InvalidRequest => -32600,
            RpcCode::InvalidParams => -32602,
            RpcCode::InternalError => -32603,
            RpcCode::MethodNotSupported => method_not_supported as int,
            RpcCode::Kind(number) => number as int,
        }
    }

    /// The number on the wire, given the one that the plugin protocol has for
    /// a method that is not supported.
    pub fn number(self, method_not_supported: i32) -> (r: i32)
        ensures
            r == self.on_wire(method_not_supported),
    {
        match self {
            RpcCode::InvalidRequest => -32600,
            RpcCode::InvalidParams => -32602,
            RpcCode::InternalError => -32603,
            RpcCode::MethodNotSupported => method_not_supported,
            RpcCode::Kind(number) => number,
        }
    }
}

/// An error of a JSON-RPC answer.
#[derive(Debug, Clone)]
pub struct RpcError {
    /// What the error's code says.
    pub code: RpcCode,
    /// What went wrong.
    pub message: String,
    /// More about it.
    pub data: Option<serde_json::Value>,
}

/// Whether a JSON value is an object whose one member `category` is this text.
pub open spec fn is_category(data: serde_json::Value, category: Seq<char>) -> bool {
    &&& json_content(data) is Object
    &&& json_content(data)->Object_0.dom() == set!["category"@]
    &&& json_content(json_content(data)->Object_0["category"@]) == JsonContent::Text(category)
}

impl RpcError {
    /// Whether the error has this code, message and category.
    pub open spec fn says(self, code: RpcCode, message: Seq<char>, category: Seq<char>) -> bool {
        &&& self.code == code
        &&& self.message@ == message
        &&& self.data is Some
        &&& is_category(self.data->0, category)
    }

    /// The error with this code, message and category.
    pub fn with_category(code: RpcCode, message: String, category: &str) -> (r: Self)
        ensures
            r.says(code, message@, category@),
    {
        let mut members = new_members();
        put_member(
            &mut members,
            "category".to_owned(),
            make_value(JsonParts::Text(category.to_owned())),
        );
        let data = make_value(JsonParts::Object(members));
        proof {
            assert(json_content(data)->Object_0.dom() =~= set!["category"@]);
        }
        RpcError { code, message, data: Some(data) }
    }
}

/// Codes of JSON-RPC have the numbers that it gives them; a method that is not
/// supported has the number of the plugin protocol, and a code of a kind its own.
pub proof fn codes_have_their_numbers(code: RpcCode, method_not_supported: i32)
    ensures
        code == RpcCode::InvalidRequest ==> code.on_wire(method_not_supported) == -32600,
        code == RpcCode::InvalidParams ==> code.on_wire(method_not_supported) == -32602,
        code == RpcCode::InternalError ==> code.on_wire(method_not_supported) == -32603,
        code == RpcCode::MethodNotSupported ==> code.on_wire(method_not_supported)
            == method_not_supported,
        code matches RpcCode::Kind(number) ==> code.on_wire(method_not_supported) == number,
{
}

/// An error that says a category holds it as text under `category`, and nothing
/// else beside it.
pub proof fn errors_hold_their_category(
    error: RpcError,
    code: RpcCode,
    message: Seq<char>,
    category: Seq<char>,
)
    requires
        error.says(code, message, category),
    ensures
        error.code == code,
        error.message@ == message,
        error.data matches Some(data) && json_content(data) is Object && json_content(
            data,
        )->Object_0.contains_key("category"@) && json_content(
            json_content(data)->Object_0["category"@],
        ) == JsonContent::Text(category) && forall|k: Seq<char>| #[trigger]
            json_content(data)->Object_0.contains_key(k) ==> k == "category"@,
{
    let members = json_content(error.data->0)->Object_0;
    let keys = set!["category"@];
    assert(members.dom() == keys);
    assert(keys.contains("category"@));
    assert forall|k: Seq<char>| #[trigger] members.contains_key(k) implies k == "category"@ by {
        assert(keys.contains(k));
    }
}

} // verus!
