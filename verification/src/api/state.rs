//! The current state: accounts by key, token balances, accounts.

use crate::antelope::keys;
use crate::api::history;
use crate::api::history::make_stamped_all;
use crate::api::query;
use crate::api::query::{filtered_by, sorted, text_term};
use crate::foreign;
use crate::json;
use crate::json::{put, string, FieldsModel, Json, JsonModel};
use crate::lists::{no_items, push_item};
use crate::text;
use vstd::prelude::*;

verus! {

/// A request for the accounts of a key.
#[derive(Debug)]
pub struct KeyParams {
    pub public_key: String,
}

/// A request about an account.
#[derive(Debug)]
pub struct AccountParams {
    pub account: String,
}

/// The form in which a key is indexed.
pub open spec fn indexed_key(key: Seq<char>) -> Seq<char> {
    keys::normalized(foreign::stripped(key))
}

/// The search for the permissions that a key can give, by the key as it is
/// indexed.
pub open spec fn key_search(indexed: Seq<char>) -> FieldsModel {
    seq![
        ("size"@, JsonModel::Int(1000)),
        (
            "query"@,
            query::filtered_of(seq![query::term_of("keys"@, JsonModel::Str(indexed))]),
        ),
        ("sort"@, query::sorted_of("owner"@, "asc"@)),
    ]
}

pub fn make_key_search(indexed: &str) -> (r: Json)
    ensures
        r.deep_view() == JsonModel::Object(key_search(indexed@)),
{
    let mut f: Vec<(String, Json)> = no_items();
    put(&mut f, "size", Json::Int(1000));
    put(&mut f, "query", filtered_by(text_term("keys", indexed)));
    put(&mut f, "sort", sorted("owner", "asc"));
    assert(f.deep_view() == key_search(indexed@));
    json::object(f)
}

/// The search that a request for the accounts of a key stands for: white space
/// around the key does not count, and it can be given in the older form.
pub fn key_query(p: &KeyParams) -> (r: Json)
    ensures
        r.deep_view() == JsonModel::Object(key_search(indexed_key(p.public_key@))),
{
    search_by_key(p.public_key.as_str())
}

/// The search for the permissions that a key can give, in whatever form the
/// key is given.
pub fn search_by_key(key: &str) -> (r: Json)
    ensures
        r.deep_view() == JsonModel::Object(key_search(indexed_key(key@))),
{
    make_key_search(keys::normalize_public_key(foreign::trim_text(key).as_str()).as_str())
}

/// The owners of the first `n` permissions, without one that is the same as
/// the one before.
pub open spec fn owners(perms: Seq<JsonModel>, n: nat) -> Seq<Seq<char>>
    decreases n,
{
    if n == 0 {
        seq![]
    } else {
        let before = owners(perms, (n - 1) as nat);
        match json::field_or_null(perms[n - 1], "owner"@) {
            JsonModel::Str(s) => if before.len() > 0 && before.last() == s {
                before
            } else {
                before.push(s)
            },
            _ => before,
        }
    }
}

/// The owners of permissions, without one that is the same as the one before.
pub fn find_owners(perms: &Vec<Json>) -> (r: Vec<String>)
    ensures
        r.deep_view() == owners(perms.deep_view(), perms.deep_view().len()),
{
    let ghost all = perms.deep_view();
    let mut out: Vec<String> = no_items();
    let mut i: usize = 0;
    while i < perms.len()
        invariant
            i <= perms@.len(),
            all == perms.deep_view(),
            out.deep_view() == owners(all, i as nat),
        decreases perms@.len() - i,
    {
        assert(all[i as int] == perms@[i as int].deep_view());
        if let Json::Str(owner) = perms[i].field_copy("owner") {
            let repeated: bool = if out.len() > 0 {
                assert(out.deep_view().last() == out@[out@.len() - 1]@);
                text::same_text(out[out.len() - 1].as_str(), owner.as_str())
            } else {
                false
            };
            if !repeated {
                push_item(&mut out, owner);
            }
        }
        i = i + 1;
    }
    out
}

/// The owners of permissions that are in the order of their owners occur once
/// each: no owner is the same as the one before.
pub proof fn law_owners_differ(perms: Seq<JsonModel>, n: nat)
    ensures
        forall|i: int|
            0 < i < owners(perms, n).len() ==> #[trigger] owners(perms, n)[i] != owners(
                perms,
                n,
            )[i - 1],
    decreases n,
{
    if n > 0 {
        law_owners_differ(perms, (n - 1) as nat);
        let before = owners(perms, (n - 1) as nat);
        let after = owners(perms, n);
        assert forall|i: int| 0 < i < after.len() implies #[trigger] after[i] != after[i - 1] by {
            if i < before.len() {
                assert(after[i] == before[i]);
                assert(after[i - 1] == before[i - 1]);
            } else {
                assert(after[i - 1] == before.last());
            }
        }
    }
}

/// The answer to a request for the accounts of a key.
pub open spec fn key_fields(found: Seq<JsonModel>, took_ms: u64) -> FieldsModel {
    seq![
        ("query_time_ms"@, JsonModel::Int(took_ms as int)),
        (
            "account_names"@,
            JsonModel::Array(json::string_models(owners(found, found.len()))),
        ),
        ("permissions"@, JsonModel::Array(found)),
    ]
}

/// The answer to a request for the accounts of a key.
pub fn key_reply(found: Vec<Json>, took_ms: u64) -> (r: Json)
    ensures
        r.deep_view() == JsonModel::Object(key_fields(found.deep_view(), took_ms)),
{
    let ghost due = key_fields(found.deep_view(), took_ms);
    let mut f: Vec<(String, Json)> = no_items();
    put(&mut f, "query_time_ms", Json::Int(took_ms as i128));
    put(&mut f, "account_names", json::strings(&find_owners(&found)));
    put(&mut f, "permissions", json::array(found));
    assert(f.deep_view() == due);
    json::object(f)
}

/// The search for the token balances of an account.
pub open spec fn tokens_search(account: Seq<char>) -> FieldsModel {
    seq![
        ("size"@, JsonModel::Int(1000)),
        ("query"@, query::filtered_of(seq![query::term_of("scope"@, JsonModel::Str(account))])),
        ("sort"@, query::sorted_of("amount"@, "desc"@)),
    ]
}

/// The search for the token balances of an account.
pub fn tokens_query(p: &AccountParams) -> (r: Json)
    ensures
        r.deep_view() == JsonModel::Object(tokens_search(p.account@)),
{
    let account: &str = p.account.as_str();
    let mut f: Vec<(String, Json)> = no_items();
    put(&mut f, "size", Json::Int(1000));
    put(&mut f, "query", filtered_by(text_term("scope", account)));
    put(&mut f, "sort", sorted("amount", "desc"));
    assert(f.deep_view() == tokens_search(account@));
    json::object(f)
}

/// A token balance.
pub open spec fn token_fields(t: JsonModel) -> FieldsModel {
    seq![
        ("symbol"@, json::field_or_null(t, "symbol"@)),
        ("precision"@, json::field_or_null(t, "precision"@)),
        ("amount"@, json::field_or_null(t, "amount"@)),
        ("contract"@, json::field_or_null(t, "code"@)),
    ]
}

fn make_token_fields(t: &Json) -> (r: Json)
    ensures
        r.deep_view() == JsonModel::Object(token_fields(t.deep_view())),
{
    let mut f: Vec<(String, Json)> = no_items();
    put(&mut f, "symbol", t.field_copy("symbol"));
    put(&mut f, "precision", t.field_copy("precision"));
    put(&mut f, "amount", t.field_copy("amount"));
    put(&mut f, "contract", t.field_copy("code"));
    assert(f.deep_view() == token_fields(t.deep_view()));
    json::object(f)
}

/// Token balances.
pub open spec fn token_list(docs: Seq<JsonModel>) -> Seq<JsonModel> {
    Seq::new(docs.len(), |i: int| JsonModel::Object(token_fields(docs[i])))
}

fn make_token_list(docs: &Vec<Json>) -> (r: Vec<Json>)
    ensures
        r.deep_view() == token_list(docs.deep_view()),
{
    let ghost all = token_list(docs.deep_view());
    let mut out: Vec<Json> = no_items();
    let mut i: usize = 0;
    assert(out.deep_view() =~= all.take(0));
    while i < docs.len()
        invariant
            i <= docs@.len(),
            all == token_list(docs.deep_view()),
            out.deep_view() == all.take(i as int),
        decreases docs@.len() - i,
    {
        push_item(&mut out, make_token_fields(&docs[i]));
        i = i + 1;
        assert(out.deep_view() =~= all.take(i as int));
    }
    assert(all.take(i as int) =~= all);
    out
}

/// The answer to a request for token balances.
pub open spec fn tokens_fields(account: Seq<char>, found: Seq<JsonModel>) -> FieldsModel {
    seq![
        ("account"@, JsonModel::Str(account)),
        ("tokens"@, JsonModel::Array(token_list(found))),
    ]
}

/// The answer to a request for token balances.
pub fn tokens_reply(p: &AccountParams, found: &Vec<Json>) -> (r: Json)
    ensures
        r.deep_view() == JsonModel::Object(tokens_fields(p.account@, found.deep_view())),
{
    let account: &str = p.account.as_str();
    let mut f: Vec<(String, Json)> = no_items();
    put(&mut f, "account", string(account));
    put(&mut f, "tokens", json::array(make_token_list(found)));
    assert(f.deep_view() == tokens_fields(account@, found.deep_view()));
    json::object(f)
}

/// The search for the last actions of an account.
pub open spec fn account_actions_search(account: Seq<char>) -> FieldsModel {
    seq![
        ("track_total_hits"@, JsonModel::Bool(true)),
        ("size"@, JsonModel::Int(20)),
        ("query"@, query::filtered_of(seq![query::term_of("notified"@, JsonModel::Str(account))])),
        ("sort"@, query::sorted_of("global_sequence"@, "desc"@)),
    ]
}

/// The search for the last actions of an account.
pub fn account_actions_query(p: &AccountParams) -> (r: Json)
    ensures
        r.deep_view() == JsonModel::Object(account_actions_search(p.account@)),
{
    let account: &str = p.account.as_str();
    let mut f: Vec<(String, Json)> = no_items();
    put(&mut f, "track_total_hits", Json::Bool(true));
    put(&mut f, "size", Json::Int(20));
    put(&mut f, "query", filtered_by(text_term("notified", account)));
    put(&mut f, "sort", sorted("global_sequence", "desc"));
    assert(f.deep_view() == account_actions_search(account@));
    json::object(f)
}

/// The search for the permissions of an account.
pub open spec fn account_permissions_search(account: Seq<char>) -> FieldsModel {
    seq![
        ("size"@, JsonModel::Int(100)),
        ("query"@, query::filtered_of(seq![query::term_of("owner"@, JsonModel::Str(account))])),
    ]
}

/// The search for the permissions of an account.
pub fn account_permissions_query(p: &AccountParams) -> (r: Json)
    ensures
        r.deep_view() == JsonModel::Object(account_permissions_search(p.account@)),
{
    let account: &str = p.account.as_str();
    let mut f: Vec<(String, Json)> = no_items();
    put(&mut f, "size", Json::Int(100));
    put(&mut f, "query", filtered_by(text_term("owner", account)));
    assert(f.deep_view() == account_permissions_search(account@));
    json::object(f)
}

/// The answer to a request for an account.
pub open spec fn account_fields(
    account: Seq<char>,
    tokens: Seq<JsonModel>,
    permissions: Seq<JsonModel>,
    actions: Seq<JsonModel>,
    total: JsonModel,
    took_ms: u64,
    lib: u64,
) -> FieldsModel {
    seq![
        ("query_time_ms"@, JsonModel::Int(took_ms as int)),
        ("account"@, JsonModel::Str(account)),
        ("lib"@, JsonModel::Int(lib as int)),
        ("tokens"@, JsonModel::Array(token_list(tokens))),
        ("permissions"@, JsonModel::Array(permissions)),
        ("total_actions"@, json::field_or_null(total, "value"@)),
        ("actions"@, JsonModel::Array(history::stamped_all(actions))),
    ]
}

/// The answer to a request for an account.
pub fn account_reply(
    p: &AccountParams,
    tokens: &Vec<Json>,
    permissions: Vec<Json>,
    actions: &Vec<Json>,
    total: &Json,
    took_ms: u64,
    lib: u64,
) -> (r: Json)
    ensures
        r.deep_view() == JsonModel::Object(
            account_fields(
                p.account@,
                tokens.deep_view(),
                permissions.deep_view(),
                actions.deep_view(),
                total.deep_view(),
                took_ms,
                lib,
            ),
        ),
{
    let ghost due = account_fields(
        p.account@,
        tokens.deep_view(),
        permissions.deep_view(),
        actions.deep_view(),
        total.deep_view(),
        took_ms,
        lib,
    );
    let mut f: Vec<(String, Json)> = no_items();
    put(&mut f, "query_time_ms", Json::Int(took_ms as i128));
    put(&mut f, "account", string(p.account.as_str()));
    put(&mut f, "lib", Json::Int(lib as i128));
    put(&mut f, "tokens", json::array(make_token_list(tokens)));
    put(&mut f, "permissions", json::array(permissions));
    put(&mut f, "total_actions", total.field_copy("value"));
    put(&mut f, "actions", json::array(make_stamped_all(actions)));
    assert(f.deep_view() == due);
    json::object(f)
}

} // verus!
