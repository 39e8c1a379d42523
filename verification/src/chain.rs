//! Chain API requests and replies, in two dialects:
//!
//! - `antelope`: the classic nodeos REST API (`/v1/chain/get_info`,
//!   `/v1/chain/get_abi`).
//! - `pulsevm`: PulseVM's JSON-RPC 2.0 API (`pulsevm.getInfo`,
//!   `pulsevm.getABI`), POSTed to the base URL.

use crate::antelope::name;
use crate::antelope::name::Name;
use crate::json;
use crate::json::{put, string, FieldsModel, Json, JsonModel};
use crate::lists::no_items;
use crate::text;
use vstd::prelude::*;
use vstd::string::*;

verus! {

/// The dialect of a chain API.
#[derive(Debug, Clone, Copy, PartialEq, Eq, Structural)]
pub enum ChainApiKind {
    Antelope,
    PulseVm,
}

impl Default for ChainApiKind {
    fn default() -> (r: Self)
        ensures
            r == ChainApiKind::Antelope,
    {
        ChainApiKind::Antelope
    }
}

/// A chain API: where it is, and which dialect it speaks.
#[derive(Debug, Clone)]
pub struct ChainClient {
    base: String,
    kind: ChainApiKind,
}

/// An HTTP request.
pub enum ApiRequest {
    Get(String),
    Post(String, Json),
}

pub enum ApiRequestModel {
    Get(Seq<char>),
    Post(Seq<char>, JsonModel),
}

impl DeepView for ApiRequest {
    type V = ApiRequestModel;

    open spec fn deep_view(&self) -> ApiRequestModel {
        match self {
            ApiRequest::Get(url) => ApiRequestModel::Get(url@),
            ApiRequest::Post(url, body) => ApiRequestModel::Post(url@, body.deep_view()),
        }
    }
}

/// What is wrong with a JSON-RPC reply.
pub enum RpcFailure {
    /// The server reports an error.
    Error(Json),
    /// There is neither an error nor a result.
    MissingResult,
}

/// The body of a JSON-RPC request.
pub open spec fn rpc_fields(id: u64, method: Seq<char>, params: JsonModel) -> FieldsModel {
    seq![
        ("jsonrpc"@, JsonModel::Str("2.0"@)),
        ("id"@, JsonModel::Int(id as int)),
        ("method"@, JsonModel::Str(method)),
        ("params"@, params),
    ]
}

/// The parameters of a request for the ABI of an account.
pub open spec fn account_params(account: Name) -> JsonModel {
    JsonModel::Object(seq![("account_name"@, JsonModel::Str(name::name_text(account.0)))])
}

/// The request for chain info. `id` numbers JSON-RPC requests.
pub open spec fn info_request_of(base: Seq<char>, kind: ChainApiKind, id: u64) -> ApiRequestModel {
    match kind {
        ChainApiKind::Antelope => ApiRequestModel::Get(base + "/v1/chain/get_info"@),
        ChainApiKind::PulseVm => ApiRequestModel::Post(
            base,
            JsonModel::Object(rpc_fields(id, "pulsevm.getInfo"@, JsonModel::Null)),
        ),
    }
}

/// The request for the ABI of an account.
pub open spec fn abi_request_of(
    base: Seq<char>,
    kind: ChainApiKind,
    account: Name,
    id: u64,
) -> ApiRequestModel {
    match kind {
        ChainApiKind::Antelope => ApiRequestModel::Post(
            base + "/v1/chain/get_abi"@,
            account_params(account),
        ),
        ChainApiKind::PulseVm => ApiRequestModel::Post(
            base,
            JsonModel::Object(rpc_fields(id, "pulsevm.getABI"@, account_params(account))),
        ),
    }
}

/// The result in a JSON-RPC reply: none if an error is reported (even beside
/// a result), or there is no result.
pub open spec fn rpc_result_of(envelope: JsonModel) -> Option<JsonModel> {
    match json::field_of(envelope, "error"@) {
        Some(JsonModel::Null) | None => json::field_of(envelope, "result"@),
        Some(_) => None,
    }
}

/// The ABI in a reply, as JSON; none if the account has none. The classic API
/// has it in a field; PulseVM's result is the ABI itself, and a missing account
/// or ABI surfaces as an error.
pub open spec fn abi_of_reply(kind: ChainApiKind, body: JsonModel) -> Option<JsonModel> {
    let found = match kind {
        ChainApiKind::Antelope => json::field_of(body, "abi"@),
        ChainApiKind::PulseVm => rpc_result_of(body),
    };
    match found {
        Some(JsonModel::Null) | None => None,
        Some(abi) => Some(abi),
    }
}

fn make_rpc(id: u64, method: &str, params: Json) -> (r: Json)
    ensures
        r.deep_view() == JsonModel::Object(rpc_fields(id, method@, params.deep_view())),
{
    let mut f: Vec<(String, Json)> = no_items();
    put(&mut f, "jsonrpc", string("2.0"));
    put(&mut f, "id", Json::Int(id as i128));
    put(&mut f, "method", string(method));
    put(&mut f, "params", params);
    assert(f.deep_view() == rpc_fields(id, method@, params.deep_view()));
    json::object(f)
}

fn make_account_params(account: Name) -> (r: Json)
    ensures
        r.deep_view() == account_params(account),
{
    json::single("account_name", Json::Str(account.to_string()))
}

impl ChainClient {
    /// Where the API is, without a slash at the end.
    pub closed spec fn base(&self) -> Seq<char> {
        self.base@
    }

    pub closed spec fn dialect(&self) -> ChainApiKind {
        self.kind
    }

    pub fn new(base_url: &str, kind: ChainApiKind) -> (r: Self)
        ensures
            r.base() == text::trimmed_end(base_url@, '/'),
            r.dialect() == kind,
    {
        ChainClient { base: text::trim_end(base_url, '/'), kind }
    }

    pub fn kind(&self) -> (r: ChainApiKind)
        ensures
            r == self.dialect(),
    {
        self.kind
    }

    /// Human-readable service label for health reporting.
    pub fn service_name(&self) -> (r: &'static str)
        ensures
            r@ == match self.dialect() {
                ChainApiKind::Antelope => "NodeosRPC"@,
                ChainApiKind::PulseVm => "PulseVM-RPC"@,
            },
    {
        match self.kind {
            ChainApiKind::Antelope => "NodeosRPC",
            ChainApiKind::PulseVm => "PulseVM-RPC",
        }
    }

    /// The request for chain info.
    pub fn info_request(&self, id: u64) -> (r: ApiRequest)
        ensures
            r.deep_view() == info_request_of(self.base(), self.dialect(), id),
    {
        match self.kind {
            ChainApiKind::Antelope => {
                let mut url: String = self.base.clone();
                url.append("/v1/chain/get_info");
                ApiRequest::Get(url)
            },
            ChainApiKind::PulseVm => ApiRequest::Post(
                self.base.clone(),
                make_rpc(id, "pulsevm.getInfo", Json::Null),
            ),
        }
    }

    /// The request for the ABI of an account.
    pub fn abi_request(&self, account: Name, id: u64) -> (r: ApiRequest)
        ensures
            r.deep_view() == abi_request_of(self.base(), self.dialect(), account, id),
    {
        match self.kind {
            ChainApiKind::Antelope => {
                let mut url: String = self.base.clone();
                url.append("/v1/chain/get_abi");
                ApiRequest::Post(url, make_account_params(account))
            },
            ChainApiKind::PulseVm => ApiRequest::Post(
                self.base.clone(),
                make_rpc(id, "pulsevm.getABI", make_account_params(account)),
            ),
        }
    }

    /// The chain info in a reply: the reply itself, or the JSON-RPC result in
    /// it.
    pub fn info_reply(&self, body: Json) -> (res: Result<Json, RpcFailure>)
        ensures
            match self.dialect() {
                ChainApiKind::Antelope => res matches Ok(v) && v.deep_view() == body.deep_view(),
                ChainApiKind::PulseVm => match res {
                    Ok(v) => rpc_result_of(body.deep_view()) == Some(v.deep_view()),
                    Err(_) => rpc_result_of(body.deep_view()) is None,
                },
            },
    {
        match self.kind {
            ChainApiKind::Antelope => Ok(body),
            ChainApiKind::PulseVm => rpc_result(&body),
        }
    }

    /// What a request for an ABI gives: a transport failure is an error, and a
    /// reply that has no ABI gives none.
    pub fn abi_outcome<E>(&self, received: Result<Json, E>) -> (res: Result<Option<Json>, E>)
        ensures
            match received {
                Err(e) => res == Err::<Option<Json>, E>(e),
                Ok(body) => res matches Ok(found) && match found {
                    Some(v) => abi_of_reply(self.dialect(), body.deep_view()) == Some(
                        v.deep_view(),
                    ),
                    None => abi_of_reply(self.dialect(), body.deep_view()) is None,
                },
            },
    {
        match received {
            Ok(body) => Ok(self.abi_reply(&body)),
            Err(e) => Err(e),
        }
    }

    /// The ABI in a reply, as JSON; none if the account has none.
    pub fn abi_reply(&self, body: &Json) -> (r: Option<Json>)
        ensures
            match r {
                Some(v) => abi_of_reply(self.dialect(), body.deep_view()) == Some(v.deep_view()),
                None => abi_of_reply(self.dialect(), body.deep_view()) is None,
            },
    {
        let found = match self.kind {
            ChainApiKind::Antelope => match body.field("abi") {
                Some(v) => Some(v.copy()),
                None => None,
            },
            ChainApiKind::PulseVm => match rpc_result(body) {
                Ok(v) => Some(v),
                Err(_) => None,
            },
        };
        match found {
            Some(v) => if v.is_null() {
                None
            } else {
                Some(v)
            },
            None => None,
        }
    }
}

/// The result in a JSON-RPC reply.
pub fn rpc_result(envelope: &Json) -> (res: Result<Json, RpcFailure>)
    ensures
        match res {
            Ok(v) => rpc_result_of(envelope.deep_view()) == Some(v.deep_view()),
            Err(RpcFailure::Error(e)) => json::field_of(envelope.deep_view(), "error"@) == Some(
                e.deep_view(),
            ) && e.deep_view() !is Null,
            Err(RpcFailure::MissingResult) => json::field_of(
                envelope.deep_view(),
                "result"@,
            ) is None && (json::field_of(envelope.deep_view(), "error"@) is None
                || json::field_of(envelope.deep_view(), "error"@) == Some(JsonModel::Null)),
        },
{
    if let Some(error) = envelope.field("error") {
        if !error.is_null() {
            return Err(RpcFailure::Error(error.copy()));
        }
    }
    match envelope.field("result") {
        Some(v) => Ok(v.copy()),
        None => Err(RpcFailure::MissingResult),
    }
}

} // verus!
