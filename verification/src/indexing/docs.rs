//! The documents that are indexed: their kinds, ids and bodies.

use crate::antelope::abi::{
    Abi, AbiModel, ActionDef, FieldDef, StructDef, TableDef, TypeDef, VariantDef,
};
use crate::antelope::abi::{
    ActionDefModel, FieldDefModel, StructDefModel, TableDefModel, TypeDefModel, VariantDefModel,
};
use crate::antelope::asset;
use crate::antelope::asset::Asset;
use crate::antelope::name;
use crate::antelope::name::Name;
use crate::antelope::time;
use crate::foreign;
use crate::json;
use crate::json::{put, string, FieldsModel, Json, JsonModel};
use crate::lists::{no_items, push_item};
use crate::ship::deltas::{
    ContractRow, ContractRowModel, PermissionRow, PermissionRowModel,
};
use crate::ship::header::{BlockHeader, BlockHeaderModel};
use crate::ship::traces::{
    Action, ActionModel, ActionReceipt, ActionReceiptModel, ActionTrace, ActionTraceModel,
    PermissionLevel, PermissionLevelModel, TransactionTrace, TransactionTraceModel,
};
use crate::text;
use vstd::prelude::*;
use vstd::string::*;

verus! {

/// What is done with a document.
#[derive(Debug, Clone, Copy, PartialEq, Eq, Structural)]
pub enum Op {
    Index,
    Delete,
}

/// A document to index or to delete.
#[derive(Debug)]
pub struct Doc {
    /// Index kind suffix: `action`, `block`, `delta`, `abi`, `perm`, `token`.
    pub kind: &'static str,
    pub id: Option<String>,
    pub body: Json,
    pub op: Op,
}

#[verifier::ext_equal]
pub struct DocModel {
    pub kind: Seq<char>,
    pub id: Option<Seq<char>>,
    pub body: JsonModel,
    pub op: Op,
}

impl DeepView for Doc {
    type V = DocModel;

    open spec fn deep_view(&self) -> DocModel {
        DocModel {
            kind: self.kind@,
            id: self.id.deep_view(),
            body: self.body.deep_view(),
            op: self.op,
        }
    }
}

pub open spec fn index_doc(kind: Seq<char>, id: Seq<char>, body: JsonModel) -> DocModel {
    DocModel { kind, id: Some(id), body, op: Op::Index }
}

pub open spec fn delete_doc(kind: Seq<char>, id: Seq<char>) -> DocModel {
    DocModel { kind, id: Some(id), body: JsonModel::Null, op: Op::Delete }
}

impl Doc {
    fn index(kind: &'static str, id: String, body: Json) -> (r: Self)
        ensures
            r.deep_view() == index_doc(kind@, id@, body.deep_view()),
    {
        Doc { kind, id: Some(id), body, op: Op::Index }
    }

    fn delete(kind: &'static str, id: String) -> (r: Self)
        ensures
            r.deep_view() == delete_doc(kind@, id@),
    {
        Doc { kind, id: Some(id), body: Json::Null, op: Op::Delete }
    }
}

/// The block that documents belong to. Time and producer are known if its
/// header is.
pub struct BlockContext {
    pub block_num: u32,
    pub block_id: String,
    pub timestamp: Option<String>,
    pub producer: Option<String>,
}

#[verifier::ext_equal]
pub struct ContextModel {
    pub block_num: u32,
    pub block_id: Seq<char>,
    pub timestamp: Option<Seq<char>>,
    pub producer: Option<Seq<char>>,
}

impl DeepView for BlockContext {
    type V = ContextModel;

    open spec fn deep_view(&self) -> ContextModel {
        ContextModel {
            block_num: self.block_num,
            block_id: self.block_id@,
            timestamp: self.timestamp.deep_view(),
            producer: self.producer.deep_view(),
        }
    }
}

/// A name as a string value.
pub open spec fn name_json(n: Name) -> JsonModel {
    JsonModel::Str(name::name_text(n.0))
}

/// Two texts with a hyphen between.
pub open spec fn joined(a: Seq<char>, b: Seq<char>) -> Seq<char> {
    a + seq!['-'] + b
}

fn join(a: &str, b: &str) -> (r: String)
    ensures
        r@ == joined(a@, b@),
{
    let mut out: String = a.to_owned();
    out.push('-');
    out.append(b);
    assert(out@ == joined(a@, b@));
    out
}

// ---------------------------------------------------------------------------
// Blocks
// ---------------------------------------------------------------------------

/// The fields of a block.
pub open spec fn block_fields(ctx: ContextModel, h: BlockHeaderModel) -> FieldsModel {
    seq![
        ("@timestamp"@, json::optional_text(ctx.timestamp)),
        ("block_num"@, JsonModel::Int(ctx.block_num as int)),
        ("block_id"@, JsonModel::Str(ctx.block_id)),
        ("prev_id"@, JsonModel::Str(h.previous)),
        ("producer"@, name_json(h.producer)),
        ("schedule_version"@, JsonModel::Int(h.schedule_version as int)),
        ("trx_count"@, JsonModel::Int(h.trx_count as int)),
        ("cpu_usage_us"@, JsonModel::Int(h.cpu_usage_us as int)),
        ("net_usage_words"@, JsonModel::Int(h.net_usage_words as int)),
    ]
}

fn make_block_fields(ctx: &BlockContext, h: &BlockHeader) -> (r: Json)
    ensures
        r.deep_view() == JsonModel::Object(block_fields(ctx.deep_view(), h.deep_view())),
{
    let mut f: Vec<(String, Json)> = no_items();
    put(&mut f, "@timestamp", json::optional(&ctx.timestamp));
    put(&mut f, "block_num", Json::Int(ctx.block_num as i128));
    put(&mut f, "block_id", string(ctx.block_id.as_str()));
    put(&mut f, "prev_id", string(h.previous.as_str()));
    put(&mut f, "producer", Json::Str(h.producer.to_string()));
    put(&mut f, "schedule_version", Json::Int(h.schedule_version as i128));
    put(&mut f, "trx_count", Json::Int(h.trx_count as i128));
    put(&mut f, "cpu_usage_us", Json::Int(h.cpu_usage_us as i128));
    put(&mut f, "net_usage_words", Json::Int(h.net_usage_words as i128));
    assert(f.deep_view() == block_fields(ctx.deep_view(), h.deep_view()));
    json::object(f)
}

/// The document of a block, under its number.
pub open spec fn block_doc(ctx: ContextModel, h: BlockHeaderModel) -> DocModel {
    index_doc(
        "block"@,
        text::decimal(ctx.block_num as nat),
        JsonModel::Object(block_fields(ctx, h)),
    )
}

pub fn make_block_doc(ctx: &BlockContext, h: &BlockHeader) -> (r: Doc)
    ensures
        r.deep_view() == block_doc(ctx.deep_view(), h.deep_view()),
{
    Doc::index("block", text::decimal_text(ctx.block_num as u128), make_block_fields(ctx, h))
}

// ---------------------------------------------------------------------------
// Actions
// ---------------------------------------------------------------------------

/// The fields of a permission that authorized an action.
pub open spec fn level_fields(l: PermissionLevelModel) -> FieldsModel {
    seq![
        ("actor"@, name_json(l.actor)),
        ("permission"@, name_json(l.permission)),
    ]
}

fn make_level_fields(l: &PermissionLevel) -> (r: Json)
    ensures
        r.deep_view() == JsonModel::Object(level_fields(l.deep_view())),
{
    let mut f: Vec<(String, Json)> = no_items();
    put(&mut f, "actor", Json::Str(l.actor.to_string()));
    put(&mut f, "permission", Json::Str(l.permission.to_string()));
    assert(f.deep_view() == level_fields(l.deep_view()));
    json::object(f)
}

/// The permissions that authorized an action.
pub open spec fn level_list(items: Seq<PermissionLevelModel>) -> Seq<JsonModel> {
    Seq::new(items.len(), |i: int| JsonModel::Object(level_fields(items[i])))
}

fn make_level_list(items: &Vec<PermissionLevel>) -> (r: Json)
    ensures
        r.deep_view() == JsonModel::Array(level_list(items.deep_view())),
{
    let ghost all = level_list(items.deep_view());
    let mut out: Vec<Json> = no_items();
    let mut i: usize = 0;
    assert(out.deep_view() == all.take(0));
    while i < items.len()
        invariant
            i <= items@.len(),
            all == level_list(items.deep_view()),
            out.deep_view() == all.take(i as int),
        decreases items@.len() - i,
    {
        let item = &items[i];
        push_item(&mut out, make_level_fields(item));
        i = i + 1;
        assert(out.deep_view() =~= all.take(i as int));
    }
    assert(all.take(i as int) =~= all);
    json::array(out)
}

/// The fields of an account's authorization count.
pub open spec fn auth_fields(a: (Name, u64)) -> FieldsModel {
    seq![
        ("account"@, name_json(a.0)),
        ("sequence"@, JsonModel::Int(a.1 as int)),
    ]
}

fn make_auth_fields(a: &(Name, u64)) -> (r: Json)
    ensures
        r.deep_view() == JsonModel::Object(auth_fields(*a)),
{
    let mut f: Vec<(String, Json)> = no_items();
    put(&mut f, "account", Json::Str(a.0.to_string()));
    put(&mut f, "sequence", Json::Int(a.1 as i128));
    assert(f.deep_view() == auth_fields(*a));
    json::object(f)
}

/// The authorization counts of a receipt.
pub open spec fn auth_list(items: Seq<(Name, u64)>) -> Seq<JsonModel> {
    Seq::new(items.len(), |i: int| JsonModel::Object(auth_fields(items[i])))
}

fn make_auth_list(items: &Vec<(Name, u64)>) -> (r: Json)
    ensures
        r.deep_view() == JsonModel::Array(auth_list(items.deep_view())),
{
    let ghost all = auth_list(items.deep_view());
    let mut out: Vec<Json> = no_items();
    let mut i: usize = 0;
    assert(out.deep_view() == all.take(0));
    while i < items.len()
        invariant
            i <= items@.len(),
            all == auth_list(items.deep_view()),
            out.deep_view() == all.take(i as int),
        decreases items@.len() - i,
    {
        let item = &items[i];
        push_item(&mut out, make_auth_fields(item));
        i = i + 1;
        assert(out.deep_view() =~= all.take(i as int));
    }
    assert(all.take(i as int) =~= all);
    json::array(out)
}

/// The fields of a receipt.
pub open spec fn receipt_fields(r: ActionReceiptModel) -> FieldsModel {
    seq![
        ("receiver"@, name_json(r.receiver)),
        ("global_sequence"@, JsonModel::Int(r.global_sequence as int)),
        ("recv_sequence"@, JsonModel::Int(r.recv_sequence as int)),
        ("auth_sequence"@, JsonModel::Array(auth_list(r.auth_sequence))),
    ]
}

fn make_receipt_fields(receipt: &ActionReceipt) -> (r: Json)
    ensures
        r.deep_view() == JsonModel::Object(receipt_fields(receipt.deep_view())),
{
    let mut f: Vec<(String, Json)> = no_items();
    put(&mut f, "receiver", Json::Str(receipt.receiver.to_string()));
    put(&mut f, "global_sequence", Json::Int(receipt.global_sequence as i128));
    put(&mut f, "recv_sequence", Json::Int(receipt.recv_sequence as i128));
    put(&mut f, "auth_sequence", make_auth_list(&receipt.auth_sequence));
    assert(f.deep_view() == receipt_fields(receipt.deep_view()));
    json::object(f)
}

/// The receivers of an action and its notifications.
pub open spec fn notified_list(members: Seq<ActionTraceModel>) -> Seq<JsonModel> {
    Seq::new(members.len(), |i: int| name_json(members[i].receiver))
}

/// The receipts of an action and its notifications.
pub open spec fn receipt_list(members: Seq<ActionTraceModel>) -> Seq<JsonModel> {
    Seq::new(members.len(), |i: int| JsonModel::Object(receipt_fields(members[i].receipt->0)))
}

/// Whether every one of some action traces has a receipt.
pub open spec fn all_receipts(members: Seq<ActionTraceModel>) -> bool {
    forall|i: int| 0 <= i < members.len() ==> (#[trigger] members[i]).receipt is Some
}

fn make_notified_list(members: &Vec<&ActionTrace>) -> (r: Json)
    ensures
        r.deep_view() == JsonModel::Array(notified_list(members.deep_view())),
{
    let ghost all = notified_list(members.deep_view());
    let mut out: Vec<Json> = no_items();
    let mut i: usize = 0;
    assert(out.deep_view() == all.take(0));
    while i < members.len()
        invariant
            i <= members@.len(),
            all == notified_list(members.deep_view()),
            out.deep_view() == all.take(i as int),
        decreases members@.len() - i,
    {
        push_item(&mut out, Json::Str(members[i].receiver.to_string()));
        i = i + 1;
        assert(out.deep_view() =~= all.take(i as int));
    }
    assert(all.take(i as int) =~= all);
    json::array(out)
}

fn make_receipt_list(members: &Vec<&ActionTrace>) -> (r: Json)
    requires
        all_receipts(members.deep_view()),
    ensures
        r.deep_view() == JsonModel::Array(receipt_list(members.deep_view())),
{
    let ghost all = receipt_list(members.deep_view());
    let mut out: Vec<Json> = no_items();
    let mut i: usize = 0;
    assert(out.deep_view() == all.take(0));
    while i < members.len()
        invariant
            i <= members@.len(),
            all_receipts(members.deep_view()),
            all == receipt_list(members.deep_view()),
            out.deep_view() == all.take(i as int),
        decreases members@.len() - i,
    {
        assert(members.deep_view()[i as int].receipt is Some);
        if let Some(receipt) = &members[i].receipt {
            push_item(&mut out, make_receipt_fields(receipt));
        }
        i = i + 1;
        assert(out.deep_view() =~= all.take(i as int));
    }
    assert(all.take(i as int) =~= all);
    json::array(out)
}

/// The data of an action: decoded, or in hexadecimal where it could not be.
pub enum Payload {
    Data(Json),
    Hex(String),
}

pub enum PayloadModel {
    Data(JsonModel),
    Hex(Seq<char>),
}

impl DeepView for Payload {
    type V = PayloadModel;

    open spec fn deep_view(&self) -> PayloadModel {
        match self {
            Payload::Data(v) => PayloadModel::Data(v.deep_view()),
            Payload::Hex(s) => PayloadModel::Hex(s@),
        }
    }
}

/// The fields of an action.
pub open spec fn act_fields(act: ActionModel, payload: PayloadModel) -> FieldsModel {
    seq![
        ("account"@, name_json(act.account)),
        ("name"@, name_json(act.name)),
        ("authorization"@, JsonModel::Array(level_list(act.authorization))),
        match payload {
            PayloadModel::Data(v) => ("data"@, v),
            PayloadModel::Hex(s) => ("hex_data"@, JsonModel::Str(s)),
        },
    ]
}

fn make_act_fields(act: &Action, payload: Payload) -> (r: Json)
    ensures
        r.deep_view() == JsonModel::Object(act_fields(act.deep_view(), payload.deep_view())),
{
    let mut f: Vec<(String, Json)> = no_items();
    put(&mut f, "account", Json::Str(act.account.to_string()));
    put(&mut f, "name", Json::Str(act.name.to_string()));
    put(&mut f, "authorization", make_level_list(&act.authorization));
    match payload {
        Payload::Data(v) => put(&mut f, "data", v),
        Payload::Hex(s) => put(&mut f, "hex_data", Json::Str(s)),
    }
    assert(f.deep_view() == act_fields(act.deep_view(), payload.deep_view()));
    json::object(f)
}

/// The signatures of a transaction, if its trace has them.
pub open spec fn signatures_of(trace: TransactionTraceModel) -> Seq<Seq<char>> {
    match trace.partial {
        Some(p) => p.signatures,
        None => seq![],
    }
}

/// The fields that the document of every action has.
pub open spec fn common_fields(
    ctx: ContextModel,
    trace: TransactionTraceModel,
    members: Seq<ActionTraceModel>,
    primary: ActionTraceModel,
    payload: PayloadModel,
) -> FieldsModel {
    let receipt = primary.receipt->0;
    seq![
        ("@timestamp"@, json::optional_text(ctx.timestamp)),
        ("global_sequence"@, JsonModel::Int(receipt.global_sequence as int)),
        ("block_num"@, JsonModel::Int(ctx.block_num as int)),
        ("block_id"@, JsonModel::Str(ctx.block_id)),
        ("trx_id"@, JsonModel::Str(trace.id)),
        ("producer"@, json::optional_text(ctx.producer)),
        ("act"@, JsonModel::Object(act_fields(primary.act, payload))),
        ("notified"@, JsonModel::Array(notified_list(members))),
        ("receipts"@, JsonModel::Array(receipt_list(members))),
        ("action_ordinal"@, JsonModel::Int(primary.action_ordinal as int)),
        ("creator_action_ordinal"@, JsonModel::Int(primary.creator_action_ordinal as int)),
        ("cpu_usage_us"@, JsonModel::Int(trace.cpu_usage_us as int)),
        ("net_usage_words"@, JsonModel::Int(trace.net_usage_words as int)),
        ("code_sequence"@, JsonModel::Int(receipt.code_sequence as int)),
        ("abi_sequence"@, JsonModel::Int(receipt.abi_sequence as int)),
        ("act_digest"@, JsonModel::Str(receipt.act_digest)),
    ]
}

/// The fields of an action's document. Signatures only on root actions, to
/// avoid duplicating them across every inline action.
pub open spec fn action_fields(
    ctx: ContextModel,
    trace: TransactionTraceModel,
    members: Seq<ActionTraceModel>,
    primary: ActionTraceModel,
    payload: PayloadModel,
) -> FieldsModel {
    let common = common_fields(ctx, trace, members, primary, payload);
    let signatures = signatures_of(trace);
    if primary.creator_action_ordinal == 0 && signatures.len() > 0 {
        common.push(("signatures"@, JsonModel::Array(json::string_models(signatures))))
    } else {
        common
    }
}

/// The document of an action, under its global sequence number.
pub open spec fn action_doc(
    ctx: ContextModel,
    trace: TransactionTraceModel,
    members: Seq<ActionTraceModel>,
    primary: ActionTraceModel,
    payload: PayloadModel,
) -> DocModel {
    index_doc(
        "action"@,
        text::decimal((primary.receipt->0).global_sequence as nat),
        JsonModel::Object(action_fields(ctx, trace, members, primary, payload)),
    )
}

pub fn make_action_doc(
    ctx: &BlockContext,
    trace: &TransactionTrace,
    members: &Vec<&ActionTrace>,
    primary: &ActionTrace,
    receipt: &ActionReceipt,
    payload: Payload,
) -> (r: Doc)
    requires
        primary.receipt == Some(*receipt),
        all_receipts(members.deep_view()),
    ensures
        r.deep_view() == action_doc(
            ctx.deep_view(),
            trace.deep_view(),
            members.deep_view(),
            primary.deep_view(),
            payload.deep_view(),
        ),
{
    let ghost shown = payload.deep_view();
    let mut f: Vec<(String, Json)> = no_items();
    put(&mut f, "@timestamp", json::optional(&ctx.timestamp));
    put(&mut f, "global_sequence", Json::Int(receipt.global_sequence as i128));
    put(&mut f, "block_num", Json::Int(ctx.block_num as i128));
    put(&mut f, "block_id", string(ctx.block_id.as_str()));
    put(&mut f, "trx_id", string(trace.id.as_str()));
    put(&mut f, "producer", json::optional(&ctx.producer));
    put(&mut f, "act", make_act_fields(&primary.act, payload));
    put(&mut f, "notified", make_notified_list(members));
    put(&mut f, "receipts", make_receipt_list(members));
    put(&mut f, "action_ordinal", Json::Int(primary.action_ordinal as i128));
    put(&mut f, "creator_action_ordinal", Json::Int(primary.creator_action_ordinal as i128));
    put(&mut f, "cpu_usage_us", Json::Int(trace.cpu_usage_us as i128));
    put(&mut f, "net_usage_words", Json::Int(trace.net_usage_words as i128));
    put(&mut f, "code_sequence", Json::Int(receipt.code_sequence as i128));
    put(&mut f, "abi_sequence", Json::Int(receipt.abi_sequence as i128));
    put(&mut f, "act_digest", string(receipt.act_digest.as_str()));
    assert(f.deep_view() == common_fields(
        ctx.deep_view(),
        trace.deep_view(),
        members.deep_view(),
        primary.deep_view(),
        shown,
    ));
    if let Some(partial) = &trace.partial {
        if primary.creator_action_ordinal == 0 && partial.signatures.len() > 0 {
            put(&mut f, "signatures", json::strings(&partial.signatures));
        }
    }
    Doc::index(
        "action",
        text::decimal_text(receipt.global_sequence as u128),
        json::object(f),
    )
}

// ---------------------------------------------------------------------------
// ABIs
// ---------------------------------------------------------------------------

/// The fields of an alias.
pub open spec fn type_fields(t: TypeDefModel) -> FieldsModel {
    seq![
        ("new_type_name"@, JsonModel::Str(t.new_type_name)),
        ("type"@, JsonModel::Str(t.type_)),
    ]
}

fn make_type_fields(t: &TypeDef) -> (r: Json)
    ensures
        r.deep_view() == JsonModel::Object(type_fields(t.deep_view())),
{
    let mut f: Vec<(String, Json)> = no_items();
    put(&mut f, "new_type_name", string(t.new_type_name.as_str()));
    put(&mut f, "type", string(t.type_.as_str()));
    assert(f.deep_view() == type_fields(t.deep_view()));
    json::object(f)
}

/// The aliases of an ABI.
pub open spec fn type_list(items: Seq<TypeDefModel>) -> Seq<JsonModel> {
    Seq::new(items.len(), |i: int| JsonModel::Object(type_fields(items[i])))
}

fn make_type_list(items: &Vec<TypeDef>) -> (r: Json)
    ensures
        r.deep_view() == JsonModel::Array(type_list(items.deep_view())),
{
    let ghost all = type_list(items.deep_view());
    let mut out: Vec<Json> = no_items();
    let mut i: usize = 0;
    assert(out.deep_view() == all.take(0));
    while i < items.len()
        invariant
            i <= items@.len(),
            all == type_list(items.deep_view()),
            out.deep_view() == all.take(i as int),
        decreases items@.len() - i,
    {
        let item = &items[i];
        push_item(&mut out, make_type_fields(item));
        i = i + 1;
        assert(out.deep_view() =~= all.take(i as int));
    }
    assert(all.take(i as int) =~= all);
    json::array(out)
}

/// The fields of a struct's field.
pub open spec fn field_fields(d: FieldDefModel) -> FieldsModel {
    seq![
        ("name"@, JsonModel::Str(d.name)),
        ("type"@, JsonModel::Str(d.type_)),
    ]
}

fn make_field_fields(d: &FieldDef) -> (r: Json)
    ensures
        r.deep_view() == JsonModel::Object(field_fields(d.deep_view())),
{
    let mut f: Vec<(String, Json)> = no_items();
    put(&mut f, "name", string(d.name.as_str()));
    put(&mut f, "type", string(d.type_.as_str()));
    assert(f.deep_view() == field_fields(d.deep_view()));
    json::object(f)
}

/// The fields of a struct.
pub open spec fn field_list(items: Seq<FieldDefModel>) -> Seq<JsonModel> {
    Seq::new(items.len(), |i: int| JsonModel::Object(field_fields(items[i])))
}

fn make_field_list(items: &Vec<FieldDef>) -> (r: Json)
    ensures
        r.deep_view() == JsonModel::Array(field_list(items.deep_view())),
{
    let ghost all = field_list(items.deep_view());
    let mut out: Vec<Json> = no_items();
    let mut i: usize = 0;
    assert(out.deep_view() == all.take(0));
    while i < items.len()
        invariant
            i <= items@.len(),
            all == field_list(items.deep_view()),
            out.deep_view() == all.take(i as int),
        decreases items@.len() - i,
    {
        let item = &items[i];
        push_item(&mut out, make_field_fields(item));
        i = i + 1;
        assert(out.deep_view() =~= all.take(i as int));
    }
    assert(all.take(i as int) =~= all);
    json::array(out)
}

/// The fields of a struct definition.
pub open spec fn struct_fields(d: StructDefModel) -> FieldsModel {
    seq![
        ("name"@, JsonModel::Str(d.name)),
        ("base"@, JsonModel::Str(d.base)),
        ("fields"@, JsonModel::Array(field_list(d.fields))),
    ]
}

fn make_struct_fields(d: &StructDef) -> (r: Json)
    ensures
        r.deep_view() == JsonModel::Object(struct_fields(d.deep_view())),
{
    let mut f: Vec<(String, Json)> = no_items();
    put(&mut f, "name", string(d.name.as_str()));
    put(&mut f, "base", string(d.base.as_str()));
    put(&mut f, "fields", make_field_list(&d.fields));
    assert(f.deep_view() == struct_fields(d.deep_view()));
    json::object(f)
}

/// The structs of an ABI.
pub open spec fn struct_list(items: Seq<StructDefModel>) -> Seq<JsonModel> {
    Seq::new(items.len(), |i: int| JsonModel::Object(struct_fields(items[i])))
}

fn make_struct_list(items: &Vec<StructDef>) -> (r: Json)
    ensures
        r.deep_view() == JsonModel::Array(struct_list(items.deep_view())),
{
    let ghost all = struct_list(items.deep_view());
    let mut out: Vec<Json> = no_items();
    let mut i: usize = 0;
    assert(out.deep_view() == all.take(0));
    while i < items.len()
        invariant
            i <= items@.len(),
            all == struct_list(items.deep_view()),
            out.deep_view() == all.take(i as int),
        decreases items@.len() - i,
    {
        let item = &items[i];
        push_item(&mut out, make_struct_fields(item));
        i = i + 1;
        assert(out.deep_view() =~= all.take(i as int));
    }
    assert(all.take(i as int) =~= all);
    json::array(out)
}

/// The fields of an action definition.
pub open spec fn action_def_fields(d: ActionDefModel) -> FieldsModel {
    seq![
        ("name"@, name_json(d.name)),
        ("type"@, JsonModel::Str(d.type_)),
        ("ricardian_contract"@, JsonModel::Str(d.ricardian_contract)),
    ]
}

fn make_action_def_fields(d: &ActionDef) -> (r: Json)
    ensures
        r.deep_view() == JsonModel::Object(action_def_fields(d.deep_view())),
{
    let mut f: Vec<(String, Json)> = no_items();
    put(&mut f, "name", Json::Str(d.name.to_string()));
    put(&mut f, "type", string(d.type_.as_str()));
    put(&mut f, "ricardian_contract", string(d.ricardian_contract.as_str()));
    assert(f.deep_view() == action_def_fields(d.deep_view()));
    json::object(f)
}

/// The actions of an ABI.
pub open spec fn action_def_list(items: Seq<ActionDefModel>) -> Seq<JsonModel> {
    Seq::new(items.len(), |i: int| JsonModel::Object(action_def_fields(items[i])))
}

fn make_action_def_list(items: &Vec<ActionDef>) -> (r: Json)
    ensures
        r.deep_view() == JsonModel::Array(action_def_list(items.deep_view())),
{
    let ghost all = action_def_list(items.deep_view());
    let mut out: Vec<Json> = no_items();
    let mut i: usize = 0;
    assert(out.deep_view() == all.take(0));
    while i < items.len()
        invariant
            i <= items@.len(),
            all == action_def_list(items.deep_view()),
            out.deep_view() == all.take(i as int),
        decreases items@.len() - i,
    {
        let item = &items[i];
        push_item(&mut out, make_action_def_fields(item));
        i = i + 1;
        assert(out.deep_view() =~= all.take(i as int));
    }
    assert(all.take(i as int) =~= all);
    json::array(out)
}

/// The fields of a table definition.
pub open spec fn table_def_fields(d: TableDefModel) -> FieldsModel {
    seq![
        ("name"@, name_json(d.name)),
        ("index_type"@, JsonModel::Str(d.index_type)),
        ("key_names"@, JsonModel::Array(json::string_models(d.key_names))),
        ("key_types"@, JsonModel::Array(json::string_models(d.key_types))),
        ("type"@, JsonModel::Str(d.type_)),
    ]
}

fn make_table_def_fields(d: &TableDef) -> (r: Json)
    ensures
        r.deep_view() == JsonModel::Object(table_def_fields(d.deep_view())),
{
    let mut f: Vec<(String, Json)> = no_items();
    put(&mut f, "name", Json::Str(d.name.to_string()));
    put(&mut f, "index_type", string(d.index_type.as_str()));
    put(&mut f, "key_names", json::strings(&d.key_names));
    put(&mut f, "key_types", json::strings(&d.key_types));
    put(&mut f, "type", string(d.type_.as_str()));
    assert(f.deep_view() == table_def_fields(d.deep_view()));
    json::object(f)
}

/// The tables of an ABI.
pub open spec fn table_def_list(items: Seq<TableDefModel>) -> Seq<JsonModel> {
    Seq::new(items.len(), |i: int| JsonModel::Object(table_def_fields(items[i])))
}

fn make_table_def_list(items: &Vec<TableDef>) -> (r: Json)
    ensures
        r.deep_view() == JsonModel::Array(table_def_list(items.deep_view())),
{
    let ghost all = table_def_list(items.deep_view());
    let mut out: Vec<Json> = no_items();
    let mut i: usize = 0;
    assert(out.deep_view() == all.take(0));
    while i < items.len()
        invariant
            i <= items@.len(),
            all == table_def_list(items.deep_view()),
            out.deep_view() == all.take(i as int),
        decreases items@.len() - i,
    {
        let item = &items[i];
        push_item(&mut out, make_table_def_fields(item));
        i = i + 1;
        assert(out.deep_view() =~= all.take(i as int));
    }
    assert(all.take(i as int) =~= all);
    json::array(out)
}

/// The fields of a variant definition.
pub open spec fn variant_fields(d: VariantDefModel) -> FieldsModel {
    seq![
        ("name"@, JsonModel::Str(d.name)),
        ("types"@, JsonModel::Array(json::string_models(d.types))),
    ]
}

fn make_variant_fields(d: &VariantDef) -> (r: Json)
    ensures
        r.deep_view() == JsonModel::Object(variant_fields(d.deep_view())),
{
    let mut f: Vec<(String, Json)> = no_items();
    put(&mut f, "name", string(d.name.as_str()));
    put(&mut f, "types", json::strings(&d.types));
    assert(f.deep_view() == variant_fields(d.deep_view()));
    json::object(f)
}

/// The variants of an ABI.
pub open spec fn variant_list(items: Seq<VariantDefModel>) -> Seq<JsonModel> {
    Seq::new(items.len(), |i: int| JsonModel::Object(variant_fields(items[i])))
}

fn make_variant_list(items: &Vec<VariantDef>) -> (r: Json)
    ensures
        r.deep_view() == JsonModel::Array(variant_list(items.deep_view())),
{
    let ghost all = variant_list(items.deep_view());
    let mut out: Vec<Json> = no_items();
    let mut i: usize = 0;
    assert(out.deep_view() == all.take(0));
    while i < items.len()
        invariant
            i <= items@.len(),
            all == variant_list(items.deep_view()),
            out.deep_view() == all.take(i as int),
        decreases items@.len() - i,
    {
        let item = &items[i];
        push_item(&mut out, make_variant_fields(item));
        i = i + 1;
        assert(out.deep_view() =~= all.take(i as int));
    }
    assert(all.take(i as int) =~= all);
    json::array(out)
}

/// The fields of an ABI.
pub open spec fn interface_fields(a: AbiModel) -> FieldsModel {
    seq![
        ("version"@, JsonModel::Str(a.version)),
        ("types"@, JsonModel::Array(type_list(a.types))),
        ("structs"@, JsonModel::Array(struct_list(a.structs))),
        ("actions"@, JsonModel::Array(action_def_list(a.actions))),
        ("tables"@, JsonModel::Array(table_def_list(a.tables))),
        ("variants"@, JsonModel::Array(variant_list(a.variants))),
    ]
}

fn make_interface_fields(a: &Abi) -> (r: Json)
    ensures
        r.deep_view() == JsonModel::Object(interface_fields(a.deep_view())),
{
    let mut f: Vec<(String, Json)> = no_items();
    put(&mut f, "version", string(a.version.as_str()));
    put(&mut f, "types", make_type_list(&a.types));
    put(&mut f, "structs", make_struct_list(&a.structs));
    put(&mut f, "actions", make_action_def_list(&a.actions));
    put(&mut f, "tables", make_table_def_list(&a.tables));
    put(&mut f, "variants", make_variant_list(&a.variants));
    assert(f.deep_view() == interface_fields(a.deep_view()));
    json::object(f)
}

/// The names of the actions of an ABI.
pub open spec fn action_names(items: Seq<ActionDefModel>) -> Seq<JsonModel> {
    Seq::new(items.len(), |i: int| name_json(items[i].name))
}

fn make_action_names(items: &Vec<ActionDef>) -> (r: Json)
    ensures
        r.deep_view() == JsonModel::Array(action_names(items.deep_view())),
{
    let ghost all = action_names(items.deep_view());
    let mut out: Vec<Json> = no_items();
    let mut i: usize = 0;
    assert(out.deep_view() == all.take(0));
    while i < items.len()
        invariant
            i <= items@.len(),
            all == action_names(items.deep_view()),
            out.deep_view() == all.take(i as int),
        decreases items@.len() - i,
    {
        let item = &items[i];
        push_item(&mut out, Json::Str(item.name.to_string()));
        i = i + 1;
        assert(out.deep_view() =~= all.take(i as int));
    }
    assert(all.take(i as int) =~= all);
    json::array(out)
}

/// The names of the tables of an ABI.
pub open spec fn table_names(items: Seq<TableDefModel>) -> Seq<JsonModel> {
    Seq::new(items.len(), |i: int| name_json(items[i].name))
}

fn make_table_names(items: &Vec<TableDef>) -> (r: Json)
    ensures
        r.deep_view() == JsonModel::Array(table_names(items.deep_view())),
{
    let ghost all = table_names(items.deep_view());
    let mut out: Vec<Json> = no_items();
    let mut i: usize = 0;
    assert(out.deep_view() == all.take(0));
    while i < items.len()
        invariant
            i <= items@.len(),
            all == table_names(items.deep_view()),
            out.deep_view() == all.take(i as int),
        decreases items@.len() - i,
    {
        let item = &items[i];
        push_item(&mut out, Json::Str(item.name.to_string()));
        i = i + 1;
        assert(out.deep_view() =~= all.take(i as int));
    }
    assert(all.take(i as int) =~= all);
    json::array(out)
}

/// The fields of an ABI's document: the ABI itself stands in it as text.
pub open spec fn abi_fields(ctx: ContextModel, account: Name, a: AbiModel) -> FieldsModel {
    seq![
        ("@timestamp"@, json::optional_text(ctx.timestamp)),
        ("block_num"@, JsonModel::Int(ctx.block_num as int)),
        ("account"@, name_json(account)),
        ("abi"@, JsonModel::Encoded(Box::new(JsonModel::Object(interface_fields(a))))),
        ("actions"@, JsonModel::Array(action_names(a.actions))),
        ("tables"@, JsonModel::Array(table_names(a.tables))),
    ]
}

fn make_abi_fields(ctx: &BlockContext, account: Name, a: &Abi) -> (r: Json)
    ensures
        r.deep_view() == JsonModel::Object(abi_fields(ctx.deep_view(), account, a.deep_view())),
{
    let mut f: Vec<(String, Json)> = no_items();
    put(&mut f, "@timestamp", json::optional(&ctx.timestamp));
    put(&mut f, "block_num", Json::Int(ctx.block_num as i128));
    put(&mut f, "account", Json::Str(account.to_string()));
    put(&mut f, "abi", Json::Encoded(Box::new(make_interface_fields(a))));
    put(&mut f, "actions", make_action_names(&a.actions));
    put(&mut f, "tables", make_table_names(&a.tables));
    assert(f.deep_view() == abi_fields(ctx.deep_view(), account, a.deep_view()));
    json::object(f)
}

/// The document of an ABI, under the block and the account.
pub open spec fn abi_doc(ctx: ContextModel, account: Name, a: AbiModel) -> DocModel {
    index_doc(
        "abi"@,
        joined(text::decimal(ctx.block_num as nat), name::name_text(account.0)),
        JsonModel::Object(abi_fields(ctx, account, a)),
    )
}

pub fn make_abi_doc(ctx: &BlockContext, account: Name, a: &Abi) -> (r: Doc)
    ensures
        r.deep_view() == abi_doc(ctx.deep_view(), account, a.deep_view()),
{
    let id = join(
        text::decimal_text(ctx.block_num as u128).as_str(),
        account.to_string().as_str(),
    );
    Doc::index("abi", id, make_abi_fields(ctx, account, a))
}

// ---------------------------------------------------------------------------
// Permissions
// ---------------------------------------------------------------------------

/// The fields of a permission.
pub open spec fn perm_fields(ctx: ContextModel, p: PermissionRowModel) -> FieldsModel {
    seq![
        ("block_num"@, JsonModel::Int(ctx.block_num as int)),
        ("owner"@, name_json(p.owner)),
        ("name"@, name_json(p.name)),
        ("parent"@, name_json(p.parent)),
        ("last_updated"@, JsonModel::Str(time::instant_text(p.last_updated as int))),
        ("threshold"@, JsonModel::Int(p.threshold as int)),
        ("keys"@, JsonModel::Array(json::string_models(p.keys))),
        ("accounts"@, JsonModel::Array(json::string_models(p.accounts))),
    ]
}

fn make_perm_fields(ctx: &BlockContext, p: &PermissionRow) -> (r: Json)
    ensures
        r.deep_view() == JsonModel::Object(perm_fields(ctx.deep_view(), p.deep_view())),
{
    let mut f: Vec<(String, Json)> = no_items();
    put(&mut f, "block_num", Json::Int(ctx.block_num as i128));
    put(&mut f, "owner", Json::Str(p.owner.to_string()));
    put(&mut f, "name", Json::Str(p.name.to_string()));
    put(&mut f, "parent", Json::Str(p.parent.to_string()));
    put(&mut f, "last_updated", Json::Str(time::time_point_to_string(p.last_updated)));
    put(&mut f, "threshold", Json::Int(p.threshold as i128));
    put(&mut f, "keys", json::strings(&p.keys));
    put(&mut f, "accounts", json::strings(&p.accounts));
    assert(f.deep_view() == perm_fields(ctx.deep_view(), p.deep_view()));
    json::object(f)
}

/// The document of a permission, under its owner and name: indexed if the
/// permission was written, deleted if it was removed.
pub open spec fn perm_doc(ctx: ContextModel, p: PermissionRowModel, present: bool) -> DocModel {
    let id = joined(name::name_text(p.owner.0), name::name_text(p.name.0));
    if present {
        index_doc("perm"@, id, JsonModel::Object(perm_fields(ctx, p)))
    } else {
        delete_doc("perm"@, id)
    }
}

pub fn make_perm_doc(ctx: &BlockContext, p: &PermissionRow, present: bool) -> (r: Doc)
    ensures
        r.deep_view() == perm_doc(ctx.deep_view(), p.deep_view(), present),
{
    let id = join(p.owner.to_string().as_str(), p.name.to_string().as_str());
    if present {
        Doc::index("perm", id, make_perm_fields(ctx, p))
    } else {
        Doc::delete("perm", id)
    }
}

// ---------------------------------------------------------------------------
// Table rows and token balances
// ---------------------------------------------------------------------------

/// The fields of a table row: its value decoded, or in hexadecimal where it
/// could not be.
pub open spec fn delta_fields(
    ctx: ContextModel,
    row: ContractRowModel,
    present: bool,
    decoded: Option<JsonModel>,
) -> FieldsModel {
    seq![
        ("@timestamp"@, json::optional_text(ctx.timestamp)),
        ("block_num"@, JsonModel::Int(ctx.block_num as int)),
        ("block_id"@, JsonModel::Str(ctx.block_id)),
        ("code"@, name_json(row.code)),
        ("scope"@, name_json(row.scope)),
        ("table"@, name_json(row.table)),
        ("primary_key"@, JsonModel::Str(text::decimal(row.primary_key as nat))),
        ("payer"@, name_json(row.payer)),
        ("present"@, JsonModel::Bool(present)),
    ].push(
        match decoded {
            Some(v) => ("data"@, v),
            None => ("value_hex"@, JsonModel::Str(foreign::hex_text(row.value))),
        },
    )
}

/// The document of a table row, under the block and its place among the rows
/// of the block.
pub open spec fn delta_doc(
    ctx: ContextModel,
    row: ContractRowModel,
    present: bool,
    ordinal: nat,
    decoded: Option<JsonModel>,
) -> DocModel {
    index_doc(
        "delta"@,
        joined(text::decimal(ctx.block_num as nat), text::decimal(ordinal)),
        JsonModel::Object(delta_fields(ctx, row, present, decoded)),
    )
}

pub fn make_delta_doc(
    ctx: &BlockContext,
    row: &ContractRow,
    present: bool,
    ordinal: u64,
    decoded: Option<Json>,
) -> (r: Doc)
    ensures
        r.deep_view() == delta_doc(
            ctx.deep_view(),
            row.deep_view(),
            present,
            ordinal as nat,
            decoded.deep_view(),
        ),
{
    let ghost shown = decoded.deep_view();
    let mut f: Vec<(String, Json)> = no_items();
    put(&mut f, "@timestamp", json::optional(&ctx.timestamp));
    put(&mut f, "block_num", Json::Int(ctx.block_num as i128));
    put(&mut f, "block_id", string(ctx.block_id.as_str()));
    put(&mut f, "code", Json::Str(row.code.to_string()));
    put(&mut f, "scope", Json::Str(row.scope.to_string()));
    put(&mut f, "table", Json::Str(row.table.to_string()));
    put(&mut f, "primary_key", Json::Str(text::decimal_text(row.primary_key as u128)));
    put(&mut f, "payer", Json::Str(row.payer.to_string()));
    put(&mut f, "present", Json::Bool(present));
    match decoded {
        Some(v) => put(&mut f, "data", v),
        None => put(&mut f, "value_hex", Json::Str(foreign::hex_encode(row.value.as_slice()))),
    }
    assert(f.deep_view() == delta_fields(ctx.deep_view(), row.deep_view(), present, shown));
    let id = join(
        text::decimal_text(ctx.block_num as u128).as_str(),
        text::decimal_text(ordinal as u128).as_str(),
    );
    Doc::index("delta", id, json::object(f))
}

/// The balance that a decoded row holds: an amount in its field `balance`.
pub open spec fn balance_of(decoded: Option<JsonModel>) -> Option<(int, nat)> {
    match decoded {
        Some(v) => match json::field_of(v, "balance"@) {
            Some(JsonModel::Str(s)) => asset::parsed_asset(s),
            _ => None,
        },
        None => None,
    }
}

/// The balance that a decoded row holds.
pub fn find_balance(decoded: &Option<Json>) -> (r: Option<Asset>)
    ensures
        match r {
            Some(a) => balance_of(decoded.deep_view()) == Some(
                (a.amount as int, a.symbol.0 as nat),
            ) && asset::is_ascii_code((a.symbol.0 / 256) as nat),
            None => balance_of(decoded.deep_view()) is None,
        },
{
    match decoded {
        Some(value) => match value.field("balance") {
            Some(balance) => match balance.as_str() {
                Some(s) => {
                    proof {
                        asset::lemma_parsed_code(s@);
                    }
                    asset::parse_asset(s)
                },
                None => None,
            },
            None => None,
        },
        None => None,
    }
}

/// The fields of a token balance.
pub open spec fn token_fields(
    ctx: ContextModel,
    row: ContractRowModel,
    amount: int,
    symbol: nat,
) -> FieldsModel {
    seq![
        ("block_num"@, JsonModel::Int(ctx.block_num as int)),
        ("code"@, name_json(row.code)),
        ("scope"@, name_json(row.scope)),
        ("symbol"@, JsonModel::Str(asset::code_text(symbol / 256))),
        ("precision"@, JsonModel::Int((symbol % 256) as int)),
        ("amount"@, JsonModel::Scaled(amount, symbol % 256)),
    ]
}

/// The document of a token balance, under the contract, the holder and the
/// symbol code: indexed if the row was written, deleted if it was removed.
pub open spec fn token_doc(
    ctx: ContextModel,
    row: ContractRowModel,
    present: bool,
    amount: int,
    symbol: nat,
) -> DocModel {
    let id = joined(
        joined(name::name_text(row.code.0), name::name_text(row.scope.0)),
        asset::code_text(symbol / 256),
    );
    if present {
        index_doc("token"@, id, JsonModel::Object(token_fields(ctx, row, amount, symbol)))
    } else {
        delete_doc("token"@, id)
    }
}

pub fn make_token_doc(
    ctx: &BlockContext,
    row: &ContractRow,
    present: bool,
    balance: Asset,
) -> (r: Doc)
    requires
        asset::is_ascii_code((balance.symbol.0 / 256) as nat),
    ensures
        r.deep_view() == token_doc(
            ctx.deep_view(),
            row.deep_view(),
            present,
            balance.amount as int,
            balance.symbol.0 as nat,
        ),
{
    let holder = join(row.code.to_string().as_str(), row.scope.to_string().as_str());
    let id = join(holder.as_str(), balance.symbol.code().to_string().as_str());
    if !present {
        return Doc::delete("token", id);
    }
    let mut f: Vec<(String, Json)> = no_items();
    put(&mut f, "block_num", Json::Int(ctx.block_num as i128));
    put(&mut f, "code", Json::Str(row.code.to_string()));
    put(&mut f, "scope", Json::Str(row.scope.to_string()));
    put(&mut f, "symbol", Json::Str(balance.symbol.code().to_string()));
    put(&mut f, "precision", Json::Int(balance.symbol.precision() as i128));
    put(&mut f, "amount", Json::Scaled(balance.amount, balance.symbol.precision()));
    assert(f.deep_view() == token_fields(
        ctx.deep_view(),
        row.deep_view(),
        balance.amount as int,
        balance.symbol.0 as nat,
    ));
    Doc::index("token", id, json::object(f))
}

// ---------------------------------------------------------------------------
// Ids
// ---------------------------------------------------------------------------

/// Texts that are joined can be told apart, if the first ones hold no hyphen.
proof fn lemma_joined(a: Seq<char>, b: Seq<char>, c: Seq<char>, d: Seq<char>)
    requires
        !a.contains('-'),
        !c.contains('-'),
    ensures
        joined(a, b) == joined(c, d) <==> a == c && b == d,
{
    let left = joined(a, b);
    let right = joined(c, d);
    if left == right {
        if a.len() < c.len() {
            assert(left[a.len() as int] == '-');
            assert(right[a.len() as int] == c[a.len() as int]);
            assert(c.contains(c[a.len() as int]));
        } else if c.len() < a.len() {
            assert(right[c.len() as int] == '-');
            assert(left[c.len() as int] == a[c.len() as int]);
            assert(a.contains(a[c.len() as int]));
        }
        let n = a.len() as int;
        assert(a =~= left.take(n));
        assert(c =~= right.take(n));
        assert(b =~= left.skip(n + 1));
        assert(d =~= right.skip(n + 1));
    }
}

proof fn lemma_numeral(a: nat, b: nat)
    ensures
        text::decimal(a) == text::decimal(b) <==> a == b,
        !text::decimal(a).contains('-'),
{
    text::lemma_decimal_value(a);
    text::lemma_decimal_value(b);
    let s = text::decimal(a);
    if s.contains('-') {
        let i = choose|i: int| 0 <= i < s.len() && s[i] == '-';
        assert(text::is_digit(s[i]));
    }
}

proof fn lemma_name(a: Name, b: Name)
    ensures
        name::name_text(a.0) == name::name_text(b.0) <==> a == b,
        !name::name_text(a.0).contains('-'),
{
    name::law_name_reads_back(a.0);
    name::law_name_reads_back(b.0);
    let s = name::name_text(a.0);
    if s.contains('-') {
        let i = choose|i: int| 0 <= i < s.len() && s[i] == '-';
        assert(name::is_name_char(s[i]));
    }
}

/// A block has one document, whichever fork it is of: the document of the same
/// block number takes the place of an earlier one.
pub proof fn law_one_document_per_block(
    c1: ContextModel,
    h1: BlockHeaderModel,
    c2: ContextModel,
    h2: BlockHeaderModel,
)
    ensures
        block_doc(c1, h1).id == block_doc(c2, h2).id <==> c1.block_num == c2.block_num,
{
    lemma_numeral(c1.block_num as nat, c2.block_num as nat);
}

/// An action has one document: its global sequence number tells it.
pub proof fn law_one_document_per_action(
    c1: ContextModel,
    g1: (TransactionTraceModel, Seq<ActionTraceModel>, ActionTraceModel, PayloadModel),
    c2: ContextModel,
    g2: (TransactionTraceModel, Seq<ActionTraceModel>, ActionTraceModel, PayloadModel),
)
    ensures
        action_doc(c1, g1.0, g1.1, g1.2, g1.3).id == action_doc(c2, g2.0, g2.1, g2.2, g2.3).id
            <==> (g1.2.receipt->0).global_sequence == (g2.2.receipt->0).global_sequence,
{
    lemma_numeral(
        (g1.2.receipt->0).global_sequence as nat,
        (g2.2.receipt->0).global_sequence as nat,
    );
}

/// An ABI has one document for each block in which it was set.
pub proof fn law_one_document_per_abi(
    c1: ContextModel,
    account1: Name,
    abi1: AbiModel,
    c2: ContextModel,
    account2: Name,
    abi2: AbiModel,
)
    ensures
        abi_doc(c1, account1, abi1).id == abi_doc(c2, account2, abi2).id <==> c1.block_num
            == c2.block_num && account1 == account2,
{
    lemma_numeral(c1.block_num as nat, c2.block_num as nat);
    lemma_numeral(c2.block_num as nat, c1.block_num as nat);
    lemma_name(account1, account2);
    lemma_joined(
        text::decimal(c1.block_num as nat),
        name::name_text(account1.0),
        text::decimal(c2.block_num as nat),
        name::name_text(account2.0),
    );
}

/// A permission has one document, which every change of it writes or deletes.
pub proof fn law_one_document_per_permission(
    c1: ContextModel,
    p1: PermissionRowModel,
    present1: bool,
    c2: ContextModel,
    p2: PermissionRowModel,
    present2: bool,
)
    ensures
        perm_doc(c1, p1, present1).id == perm_doc(c2, p2, present2).id <==> p1.owner == p2.owner
            && p1.name == p2.name,
{
    lemma_name(p1.owner, p2.owner);
    lemma_name(p2.owner, p1.owner);
    lemma_name(p1.name, p2.name);
    lemma_joined(
        name::name_text(p1.owner.0),
        name::name_text(p1.name.0),
        name::name_text(p2.owner.0),
        name::name_text(p2.name.0),
    );
}

/// A table row that changed has one document for each change.
pub proof fn law_one_document_per_change(
    c1: ContextModel,
    ordinal1: nat,
    d1: (ContractRowModel, bool, Option<JsonModel>),
    c2: ContextModel,
    ordinal2: nat,
    d2: (ContractRowModel, bool, Option<JsonModel>),
)
    ensures
        delta_doc(c1, d1.0, d1.1, ordinal1, d1.2).id == delta_doc(
            c2,
            d2.0,
            d2.1,
            ordinal2,
            d2.2,
        ).id <==> c1.block_num == c2.block_num && ordinal1 == ordinal2,
{
    lemma_numeral(c1.block_num as nat, c2.block_num as nat);
    lemma_numeral(c2.block_num as nat, c1.block_num as nat);
    lemma_numeral(ordinal1, ordinal2);
    lemma_joined(
        text::decimal(c1.block_num as nat),
        text::decimal(ordinal1),
        text::decimal(c2.block_num as nat),
        text::decimal(ordinal2),
    );
}

/// What the balance of a row is of: an amount with a code of one to seven
/// capital letters.
pub open spec fn is_balance_symbol(symbol: nat) -> bool {
    256 <= symbol <= u64::MAX && asset::code_letters(symbol / 256)
}

/// The balance of a token that an account holds has one document, which every
/// change of it writes or deletes.
pub proof fn law_one_document_per_balance(
    c1: ContextModel,
    r1: ContractRowModel,
    b1: (bool, int, nat),
    c2: ContextModel,
    r2: ContractRowModel,
    b2: (bool, int, nat),
)
    requires
        is_balance_symbol(b1.2),
        is_balance_symbol(b2.2),
    ensures
        token_doc(c1, r1, b1.0, b1.1, b1.2).id == token_doc(c2, r2, b2.0, b2.1, b2.2).id
            <==> r1.code == r2.code && r1.scope == r2.scope && b1.2 / 256 == b2.2 / 256,
{
    lemma_name(r1.code, r2.code);
    lemma_name(r2.code, r1.code);
    lemma_name(r1.scope, r2.scope);
    lemma_name(r2.scope, r1.scope);
    asset::law_code_reads_back(b1.2 / 256);
    asset::law_code_reads_back(b2.2 / 256);
    let (code1, scope1) = (name::name_text(r1.code.0), name::name_text(r1.scope.0));
    let (code2, scope2) = (name::name_text(r2.code.0), name::name_text(r2.scope.0));
    let (symbol1, symbol2) = (asset::code_text(b1.2 / 256), asset::code_text(b2.2 / 256));
    assert(joined(joined(code1, scope1), symbol1) =~= joined(code1, joined(scope1, symbol1)));
    assert(joined(joined(code2, scope2), symbol2) =~= joined(code2, joined(scope2, symbol2)));
    lemma_joined(code1, joined(scope1, symbol1), code2, joined(scope2, symbol2));
    lemma_joined(scope1, symbol1, scope2, symbol2);
}

// ---------------------------------------------------------------------------
// Documents in an index
// ---------------------------------------------------------------------------

/// What is indexed, by kind and identifier.
pub type Indexed = Map<(Seq<char>, Seq<char>), JsonModel>;

/// What is indexed after the first `n` documents are written.
pub open spec fn written(index: Indexed, made: Seq<DocModel>, n: nat) -> Indexed
    decreases n,
{
    if n == 0 {
        index
    } else {
        let before = written(index, made, (n - 1) as nat);
        let doc = made[n - 1];
        match (doc.id, doc.op) {
            (Some(id), Op::Index) => before.insert((doc.kind, id), doc.body),
            (Some(id), Op::Delete) => before.remove((doc.kind, id)),
            (None, _) => before,
        }
    }
}

/// Whether one of the first `n` documents has a kind and an identifier.
spec fn touched(made: Seq<DocModel>, n: nat, key: (Seq<char>, Seq<char>)) -> bool
    decreases n,
{
    n > 0 && (touched(made, (n - 1) as nat, key) || (made[n - 1].kind == key.0
        && made[n - 1].id == Some(key.1)))
}

proof fn lemma_written_at(
    a: Indexed,
    b: Indexed,
    made: Seq<DocModel>,
    n: nat,
    key: (Seq<char>, Seq<char>),
)
    ensures
        touched(made, n, key) ==> written(a, made, n).contains_key(key) == written(
            b,
            made,
            n,
        ).contains_key(key) && (written(a, made, n).contains_key(key) ==> written(
            a,
            made,
            n,
        )[key] == written(b, made, n)[key]),
        !touched(made, n, key) ==> written(a, made, n).contains_key(key) == a.contains_key(key)
            && (a.contains_key(key) ==> written(a, made, n)[key] == a[key]),
    decreases n,
{
    if n > 0 {
        lemma_written_at(a, b, made, (n - 1) as nat, key);
    }
}

/// Writing documents that all have an identifier a second time changes
/// nothing.
pub proof fn law_writing_again_changes_nothing(index: Indexed, made: Seq<DocModel>)
    requires
        forall|i: int| 0 <= i < made.len() ==> (#[trigger] made[i]).id is Some,
    ensures
        written(written(index, made, made.len()), made, made.len()) == written(
            index,
            made,
            made.len(),
        ),
{
    let n = made.len();
    let once = written(index, made, n);
    let twice = written(once, made, n);
    assert forall|key: (Seq<char>, Seq<char>)| #[trigger]
        twice.dom().contains(key) == once.dom().contains(key) by {
        lemma_written_at(once, index, made, n, key);
    }
    assert(twice.dom() =~= once.dom());
    assert forall|key: (Seq<char>, Seq<char>)| #[trigger]
        twice.dom().contains(key) implies twice[key] == once[key] by {
        lemma_written_at(once, index, made, n, key);
    }
    assert(twice =~= once);
}

} // verus!
