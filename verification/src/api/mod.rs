//! The HTTP API: the searches that requests stand for, and the answers that
//! are made of what was found.

use crate::json;
use crate::json::{put, string, FieldsModel, Json, JsonModel};
use crate::lists::{no_items, push_item};
use vstd::prelude::*;
use vstd::string::*;

pub mod found;
pub mod health;
pub mod history;
pub mod query;
pub mod replies;
pub mod searches;
pub mod state;
pub mod v1;

verus! {

/// Uniform API error: a status code and a message.
#[derive(Debug)]
pub struct ApiError(pub u16, pub String);

/// The status of a request that makes no sense.
pub const BAD_REQUEST: u16 = 400;

/// The status of a request for what is not there.
pub const NOT_FOUND: u16 = 404;

/// The status of a request that could not be answered.
pub const INTERNAL_ERROR: u16 = 500;

/// What an error says.
pub struct ErrorModel {
    pub status: u16,
    pub message: Seq<char>,
}

impl DeepView for ApiError {
    type V = ErrorModel;

    open spec fn deep_view(&self) -> ErrorModel {
        ErrorModel { status: self.0, message: self.1@ }
    }
}

impl ApiError {
    pub fn bad_request(message: String) -> (r: Self)
        ensures
            r.0 == BAD_REQUEST,
            r.1 == message,
    {
        ApiError(BAD_REQUEST, message)
    }

    pub fn internal(message: String) -> (r: Self)
        ensures
            r.0 == INTERNAL_ERROR,
            r.1 == message,
    {
        ApiError(INTERNAL_ERROR, message)
    }

    pub fn not_found(message: String) -> (r: Self)
        ensures
            r.0 == NOT_FOUND,
            r.1 == message,
    {
        ApiError(NOT_FOUND, message)
    }

    /// The body of the answer.
    pub fn body(&self) -> (r: Json)
        ensures
            r.deep_view() == JsonModel::Object(seq![("error"@, JsonModel::Str(self.1@))]),
    {
        json::single("error", string(self.1.as_str()))
    }
}

/// A text behind another.
fn message(what: &str, about: &str) -> (r: String)
    ensures
        r@ == what@ + about@,
{
    let mut out: String = what.to_owned();
    out.append(about);
    out
}

/// The paths that can be asked.
pub open spec fn endpoints() -> Seq<JsonModel> {
    seq![
        JsonModel::Str("/v2/health"@),
        JsonModel::Str("/v2/history/get_actions"@),
        JsonModel::Str("/v2/history/get_transaction"@),
        JsonModel::Str("/v2/history/get_deltas"@),
        JsonModel::Str("/v2/history/get_abi_snapshot"@),
        JsonModel::Str("/v2/history/get_created_accounts"@),
        JsonModel::Str("/v2/history/get_creator"@),
        JsonModel::Str("/v2/state/get_key_accounts"@),
        JsonModel::Str("/v2/state/get_tokens"@),
        JsonModel::Str("/v2/state/get_account"@),
        JsonModel::Str("/v1/history/get_actions"@),
        JsonModel::Str("/v1/history/get_transaction"@),
        JsonModel::Str("/v1/history/get_key_accounts"@),
        JsonModel::Str("/v1/history/get_controlled_accounts"@),
    ]
}

/// What the API tells of itself.
pub open spec fn root_fields(version: Seq<char>, chain: Seq<char>) -> FieldsModel {
    seq![
        ("name"@, JsonModel::Str("hyperion-rs"@)),
        ("version"@, JsonModel::Str(version)),
        ("chain"@, JsonModel::Str(chain)),
        ("endpoints"@, JsonModel::Array(endpoints())),
    ]
}

/// What the API tells of itself.
pub fn root(version: &str, chain: &str) -> (r: Json)
    ensures
        r.deep_view() == JsonModel::Object(root_fields(version@, chain@)),
{
    let mut paths: Vec<Json> = no_items();
    push_item(&mut paths, string("/v2/health"));
    push_item(&mut paths, string("/v2/history/get_actions"));
    push_item(&mut paths, string("/v2/history/get_transaction"));
    push_item(&mut paths, string("/v2/history/get_deltas"));
    push_item(&mut paths, string("/v2/history/get_abi_snapshot"));
    push_item(&mut paths, string("/v2/history/get_created_accounts"));
    push_item(&mut paths, string("/v2/history/get_creator"));
    push_item(&mut paths, string("/v2/state/get_key_accounts"));
    push_item(&mut paths, string("/v2/state/get_tokens"));
    push_item(&mut paths, string("/v2/state/get_account"));
    push_item(&mut paths, string("/v1/history/get_actions"));
    push_item(&mut paths, string("/v1/history/get_transaction"));
    push_item(&mut paths, string("/v1/history/get_key_accounts"));
    push_item(&mut paths, string("/v1/history/get_controlled_accounts"));
    assert(paths.deep_view() == endpoints());
    let mut f: Vec<(String, Json)> = no_items();
    put(&mut f, "name", string("hyperion-rs"));
    put(&mut f, "version", string(version));
    put(&mut f, "chain", string(chain));
    put(&mut f, "endpoints", json::array(paths));
    assert(f.deep_view() == root_fields(version@, chain@));
    json::object(f)
}

} // verus!
