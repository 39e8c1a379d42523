//! ABI-driven binary decoding: given an [`Abi`] and a type name, decode an
//! Antelope-serialized buffer into JSON, following the usual conventions
//! (names/checksums/assets as strings, integers up to 64 bits as JSON numbers,
//! 128-bit integers as decimal strings).

use crate::antelope::abi;
use crate::antelope::abi::{
    Abi, AbiModel, FieldDefModel, StructDef, StructDefModel, TypeDefModel, VariantDefModel,
};
use crate::antelope::builtin;
use crate::antelope::name;
use crate::antelope::name::Name;
use crate::antelope::reader::ByteReader;
use crate::antelope::wire;
use crate::antelope::wire::{Cursor, Fault};
use crate::antelope::AntelopeError;
use crate::json;
use crate::json::{Json, JsonModel};
use crate::lists::{no_items, push_item};
use crate::text;
use std::collections::HashMap;
use std::sync::Arc;
use vstd::hash_map::StringHashMap;
use vstd::prelude::*;
use vstd::string::*;

verus! {

broadcast use {vstd::std_specs::hash::group_hash_axioms, wire::group_latch};

/// How deep types may be nested.
pub const MAX_DEPTH: u32 = 64;

// ---------------------------------------------------------------------------
// Definitions by name
// ---------------------------------------------------------------------------

/// The place of the last struct with a name among the first `n`.
pub open spec fn struct_named(structs: Seq<StructDefModel>, t: Seq<char>, n: nat) -> Option<nat>
    decreases n,
{
    if n == 0 {
        None
    } else if structs[n - 1].name == t {
        Some((n - 1) as nat)
    } else {
        struct_named(structs, t, (n - 1) as nat)
    }
}

/// The place of the last variant with a name among the first `n`.
pub open spec fn variant_named(variants: Seq<VariantDefModel>, t: Seq<char>, n: nat) -> Option<nat>
    decreases n,
{
    if n == 0 {
        None
    } else if variants[n - 1].name == t {
        Some((n - 1) as nat)
    } else {
        variant_named(variants, t, (n - 1) as nat)
    }
}

/// The place of the last alias with a name among the first `n`.
pub open spec fn alias_named(types: Seq<TypeDefModel>, t: Seq<char>, n: nat) -> Option<nat>
    decreases n,
{
    if n == 0 {
        None
    } else if types[n - 1].new_type_name == t {
        Some((n - 1) as nat)
    } else {
        alias_named(types, t, (n - 1) as nat)
    }
}

// ---------------------------------------------------------------------------
// What a type says of a buffer
// ---------------------------------------------------------------------------

/// The value of a type at a place, and the place behind it, where the type is
/// nested `depth` levels deep.
///
/// A suffix says more of the type before it: `$` that it is absent where the
/// buffer ends, `?` that a byte says whether it is there, `[]` that there is a
/// list of it. A type without suffix is built in, a struct, a variant or
/// another name for a type.
pub open spec fn get_value(abi: AbiModel, t: Seq<char>, depth: nat, c: Cursor) -> (
    JsonModel,
    Cursor,
)
    decreases (MAX_DEPTH + 1) - depth, 2int, 0nat,
{
    let extension = text::without_suffix(t, "$"@);
    let optional = text::without_suffix(t, "?"@);
    let list = text::without_suffix(t, "[]"@);
    if !c.sound() {
        (JsonModel::Null, c)
    } else if depth > MAX_DEPTH {
        (JsonModel::Null, c.failed(Fault::BadAbi("type nesting too deep"@)))
    } else if extension is Some {
        if c.rest.len() == 0 {
            (JsonModel::Null, c)
        } else {
            get_value(abi, extension->0, depth + 1, c)
        }
    } else if optional is Some {
        let (present, c1) = wire::get_bool(c);
        if c1.sound() && present {
            get_value(abi, optional->0, depth + 1, c1)
        } else {
            (JsonModel::Null, c1)
        }
    } else if list is Some {
        let (items, c1) = wire::get_list(value_at(abi, list->0, depth + 1), c);
        (JsonModel::Array(items), c1)
    } else {
        get_named(abi, t, depth, c)
    }
}

/// The values of a type at each place.
pub open spec fn value_at(abi: AbiModel, t: Seq<char>, depth: nat) -> spec_fn(Cursor) -> (
    JsonModel,
    Cursor,
)
    decreases (MAX_DEPTH + 1) - depth, 3int, 0nat,
{
    |d: Cursor| get_value(abi, t, depth, d)
}

/// The value of a type without suffix at a place, and the place behind it.
pub open spec fn get_named(abi: AbiModel, t: Seq<char>, depth: nat, c: Cursor) -> (
    JsonModel,
    Cursor,
)
    decreases (MAX_DEPTH + 1) - depth, 1int, 0nat,
{
    let found_struct = struct_named(abi.structs, t, abi.structs.len());
    let found_variant = variant_named(abi.variants, t, abi.variants.len());
    let found_alias = alias_named(abi.types, t, abi.types.len());
    if depth > MAX_DEPTH {
        (JsonModel::Null, c)
    } else if builtin::get_builtin(t, c) is Some {
        builtin::get_builtin(t, c)->0
    } else if found_struct is Some {
        let def = abi.structs[found_struct->0 as int];
        let (base, c1) = base_of(abi, def, depth, c);
        let (fields, c2) = get_fields(
            abi,
            def.fields,
            def.fields.len(),
            depth,
            base_fields(base),
            c1,
        );
        (JsonModel::Object(fields), c2)
    } else if found_variant is Some {
        let def = abi.variants[found_variant->0 as int];
        let (index, c1) = wire::get_varuint32(c);
        if !c1.sound() {
            (JsonModel::Null, c1)
        } else if index >= def.types.len() {
            (JsonModel::Null, c1.failed(Fault::BadVariantIndex { variant: def.name, index }))
        } else {
            let (v, c2) = get_value(abi, def.types[index as int], depth + 1, c1);
            (JsonModel::Array(seq![JsonModel::Str(def.types[index as int]), v]), c2)
        }
    } else if found_alias is Some {
        get_value(abi, abi.types[found_alias->0 as int].type_, depth + 1, c)
    } else {
        (JsonModel::Null, c.failed(Fault::UnknownType(t)))
    }
}

/// The value of the base of a struct, and the place behind it; null if there
/// is no base.
pub open spec fn base_of(abi: AbiModel, def: StructDefModel, depth: nat, c: Cursor) -> (
    JsonModel,
    Cursor,
)
    decreases (MAX_DEPTH + 1) - depth, 0int, 0nat,
{
    if def.base.len() == 0 || depth > MAX_DEPTH {
        (JsonModel::Null, c)
    } else {
        get_value(abi, def.base, depth + 1, c)
    }
}

/// The fields that a struct takes over from its base.
pub open spec fn base_fields(base: JsonModel) -> json::FieldsModel {
    match base {
        JsonModel::Object(fields) => fields,
        _ => seq![],
    }
}

/// What the first `n` fields of a struct add to the fields `before`.
pub open spec fn get_fields(
    abi: AbiModel,
    defs: Seq<FieldDefModel>,
    n: nat,
    depth: nat,
    before: json::FieldsModel,
    c: Cursor,
) -> (json::FieldsModel, Cursor)
    decreases (MAX_DEPTH + 1) - depth, 0int, n,
{
    if n == 0 {
        (before, c)
    } else {
        let (fields, c1) = get_fields(abi, defs, (n - 1) as nat, depth, before, c);
        if c1.sound() && depth <= MAX_DEPTH {
            let (v, c2) = get_value(abi, defs[n - 1].type_, depth + 1, c1);
            (json::set_field(fields, defs[n - 1].name, v), c2)
        } else {
            (fields, c1)
        }
    }
}

// ---------------------------------------------------------------------------
// The decoder
// ---------------------------------------------------------------------------

enum AbiSource<'a> {
    Borrowed(&'a Abi),
    Shared(Arc<Abi>),
}

impl<'a> AbiSource<'a> {
    spec fn model(&self) -> AbiModel {
        match self {
            AbiSource::Borrowed(abi) => abi.deep_view(),
            AbiSource::Shared(abi) => abi.deep_view(),
        }
    }

    fn get(&self) -> (r: &Abi)
        ensures
            r.deep_view() == self.model(),
    {
        match self {
            AbiSource::Borrowed(abi) => abi,
            AbiSource::Shared(abi) => &**abi,
        }
    }
}

/// Decodes buffers by the types of one ABI.
pub struct AbiDecoder<'a> {
    abi: AbiSource<'a>,
    aliases: StringHashMap<usize>,
    structs: StringHashMap<usize>,
    variants: StringHashMap<usize>,
    actions: HashMap<u64, usize>,
    tables: HashMap<u64, usize>,
}

/// What a lookup table holds for a type name.
spec fn in_table(m: Map<Seq<char>, usize>, t: Seq<char>) -> Option<nat> {
    if m.contains_key(t) {
        Some(m[t] as nat)
    } else {
        None
    }
}

/// What a lookup table holds for a name.
spec fn in_index(m: Map<u64, usize>, n: u64) -> Option<nat> {
    if m.contains_key(n) {
        Some(m[n] as nat)
    } else {
        None
    }
}

/// A place in a list of `len`, if it is one.
spec fn place(at: nat, len: nat) -> Option<nat> {
    if at < len {
        Some(at)
    } else {
        None
    }
}

proof fn lemma_struct_named(structs: Seq<StructDefModel>, t: Seq<char>, n: nat)
    ensures
        struct_named(structs, t, n) matches Some(k) ==> k < n,
    decreases n,
{
    if n > 0 {
        lemma_struct_named(structs, t, (n - 1) as nat);
    }
}

proof fn lemma_variant_named(variants: Seq<VariantDefModel>, t: Seq<char>, n: nat)
    ensures
        variant_named(variants, t, n) matches Some(k) ==> k < n,
    decreases n,
{
    if n > 0 {
        lemma_variant_named(variants, t, (n - 1) as nat);
    }
}

proof fn lemma_alias_named(types: Seq<TypeDefModel>, t: Seq<char>, n: nat)
    ensures
        alias_named(types, t, n) matches Some(k) ==> k < n,
    decreases n,
{
    if n > 0 {
        lemma_alias_named(types, t, (n - 1) as nat);
    }
}

/// Lookup table of the structs, where the last of a name counts.
fn structs_by_name(abi: &Abi) -> (m: StringHashMap<usize>)
    ensures
        forall|t: Seq<char>| #[trigger]
            in_table(m@, t) == struct_named(
                abi.deep_view().structs,
                t,
                abi.deep_view().structs.len(),
            ),
{
    let mut m: StringHashMap<usize> = StringHashMap::new();
    let ghost defs = abi.deep_view().structs;
    let mut i: usize = 0;
    while i < abi.structs.len()
        invariant
            i <= abi.structs@.len(),
            defs == abi.deep_view().structs,
            forall|t: Seq<char>| #[trigger] in_table(m@, t) == struct_named(defs, t, i as nat),
        decreases abi.structs@.len() - i,
    {
        let ghost before = m@;
        m.insert(abi.structs[i].name.clone(), i);
        i = i + 1;
        assert forall|t: Seq<char>| #[trigger] in_table(m@, t) == struct_named(
            defs,
            t,
            i as nat,
        ) by {
            assert(in_table(before, t) == struct_named(defs, t, (i - 1) as nat));
        }
    }
    m
}

/// Lookup table of the variants, where the last of a name counts.
fn variants_by_name(abi: &Abi) -> (m: StringHashMap<usize>)
    ensures
        forall|t: Seq<char>| #[trigger]
            in_table(m@, t) == variant_named(
                abi.deep_view().variants,
                t,
                abi.deep_view().variants.len(),
            ),
{
    let mut m: StringHashMap<usize> = StringHashMap::new();
    let ghost defs = abi.deep_view().variants;
    let mut i: usize = 0;
    while i < abi.variants.len()
        invariant
            i <= abi.variants@.len(),
            defs == abi.deep_view().variants,
            forall|t: Seq<char>| #[trigger] in_table(m@, t) == variant_named(defs, t, i as nat),
        decreases abi.variants@.len() - i,
    {
        let ghost before = m@;
        m.insert(abi.variants[i].name.clone(), i);
        i = i + 1;
        assert forall|t: Seq<char>| #[trigger] in_table(m@, t) == variant_named(
            defs,
            t,
            i as nat,
        ) by {
            assert(in_table(before, t) == variant_named(defs, t, (i - 1) as nat));
        }
    }
    m
}

/// Lookup table of the aliases, where the last of a name counts.
fn aliases_by_name(abi: &Abi) -> (m: StringHashMap<usize>)
    ensures
        forall|t: Seq<char>| #[trigger]
            in_table(m@, t) == alias_named(abi.deep_view().types, t, abi.deep_view().types.len()),
{
    let mut m: StringHashMap<usize> = StringHashMap::new();
    let ghost defs = abi.deep_view().types;
    let mut i: usize = 0;
    while i < abi.types.len()
        invariant
            i <= abi.types@.len(),
            defs == abi.deep_view().types,
            forall|t: Seq<char>| #[trigger] in_table(m@, t) == alias_named(defs, t, i as nat),
        decreases abi.types@.len() - i,
    {
        let ghost before = m@;
        m.insert(abi.types[i].new_type_name.clone(), i);
        i = i + 1;
        assert forall|t: Seq<char>| #[trigger] in_table(m@, t) == alias_named(
            defs,
            t,
            i as nat,
        ) by {
            assert(in_table(before, t) == alias_named(defs, t, (i - 1) as nat));
        }
    }
    m
}

/// Lookup table of the actions. Going backwards, the first of a name counts.
fn actions_by_name(abi: &Abi) -> (m: HashMap<u64, usize>)
    ensures
        forall|n: u64| #[trigger]
            in_index(m@, n) == place(
                abi::action_from(abi.deep_view().actions, Name(n), 0),
                abi.deep_view().actions.len(),
            ),
{
    let mut m: HashMap<u64, usize> = HashMap::new();
    let ghost defs = abi.deep_view().actions;
    let mut i: usize = abi.actions.len();
    while i > 0
        invariant
            i <= abi.actions@.len(),
            defs == abi.deep_view().actions,
            forall|n: u64| #[trigger]
                in_index(m@, n) == place(abi::action_from(defs, Name(n), i as nat), defs.len()),
        decreases i,
    {
        i = i - 1;
        let ghost before = m@;
        m.insert(abi.actions[i].name.0, i);
        assert forall|n: u64| #[trigger] in_index(m@, n) == place(
            abi::action_from(defs, Name(n), i as nat),
            defs.len(),
        ) by {
            assert(in_index(before, n) == place(
                abi::action_from(defs, Name(n), (i + 1) as nat),
                defs.len(),
            ));
        }
    }
    m
}

/// Lookup table of the tables. Going backwards, the first of a name counts.
fn tables_by_name(abi: &Abi) -> (m: HashMap<u64, usize>)
    ensures
        forall|n: u64| #[trigger]
            in_index(m@, n) == place(
                abi::table_from(abi.deep_view().tables, Name(n), 0),
                abi.deep_view().tables.len(),
            ),
{
    let mut m: HashMap<u64, usize> = HashMap::new();
    let ghost defs = abi.deep_view().tables;
    let mut i: usize = abi.tables.len();
    while i > 0
        invariant
            i <= abi.tables@.len(),
            defs == abi.deep_view().tables,
            forall|n: u64| #[trigger]
                in_index(m@, n) == place(abi::table_from(defs, Name(n), i as nat), defs.len()),
        decreases i,
    {
        i = i - 1;
        let ghost before = m@;
        m.insert(abi.tables[i].name.0, i);
        assert forall|n: u64| #[trigger] in_index(m@, n) == place(
            abi::table_from(defs, Name(n), i as nat),
            defs.len(),
        ) by {
            assert(in_index(before, n) == place(
                abi::table_from(defs, Name(n), (i + 1) as nat),
                defs.len(),
            ));
        }
    }
    m
}

/// The data of an action: of the type that the first action of that name has.
pub open spec fn action_value(abi: AbiModel, action: Name, data: Seq<u8>) -> (JsonModel, Cursor) {
    let at = abi::action_from(abi.actions, action, 0);
    if at < abi.actions.len() {
        get_value(abi, abi.actions[at as int].type_, 0, wire::at(data))
    } else {
        (
            JsonModel::Null,
            wire::at(data).failed(Fault::UnknownType("action "@ + name::name_text(action.0))),
        )
    }
}

/// A table row: of the type that the first table of that name has.
pub open spec fn row_value(abi: AbiModel, table: Name, data: Seq<u8>) -> (JsonModel, Cursor) {
    let at = abi::table_from(abi.tables, table, 0);
    if at < abi.tables.len() {
        get_value(abi, abi.tables[at as int].type_, 0, wire::at(data))
    } else {
        (
            JsonModel::Null,
            wire::at(data).failed(Fault::UnknownType("table "@ + name::name_text(table.0))),
        )
    }
}

impl<'a> AbiDecoder<'a> {
    /// The lookup tables lead to the definitions that count.
    #[verifier::type_invariant]
    spec fn indexed(self) -> bool {
        let m = self.abi.model();
        &&& forall|t: Seq<char>| #[trigger]
            in_table(self.aliases@, t) == alias_named(m.types, t, m.types.len())
        &&& forall|t: Seq<char>| #[trigger]
            in_table(self.structs@, t) == struct_named(m.structs, t, m.structs.len())
        &&& forall|t: Seq<char>| #[trigger]
            in_table(self.variants@, t) == variant_named(m.variants, t, m.variants.len())
        &&& forall|n: u64| #[trigger]
            in_index(self.actions@, n) == place(
                abi::action_from(m.actions, Name(n), 0),
                m.actions.len(),
            )
        &&& forall|n: u64| #[trigger]
            in_index(self.tables@, n) == place(
                abi::table_from(m.tables, Name(n), 0),
                m.tables.len(),
            )
    }

    /// The ABI that it decodes by.
    pub closed spec fn interface(&self) -> AbiModel {
        self.abi.model()
    }

    pub fn new(abi: &'a Abi) -> (r: Self)
        ensures
            r.interface() == abi.deep_view(),
    {
        Self::build(AbiSource::Borrowed(abi))
    }

    /// Prepare a reusable decoder that owns a shared ABI. Lookup tables are
    /// built once and reused across actions, rows, and blocks.
    pub fn from_shared(abi: Arc<Abi>) -> (r: AbiDecoder<'static>)
        ensures
            r.interface() == abi.deep_view(),
    {
        AbiDecoder::build(AbiSource::Shared(abi))
    }

    fn build(abi: AbiSource<'a>) -> (r: Self)
        ensures
            r.interface() == abi.model(),
    {
        let aliases = aliases_by_name(abi.get());
        let structs = structs_by_name(abi.get());
        let variants = variants_by_name(abi.get());
        let actions = actions_by_name(abi.get());
        let tables = tables_by_name(abi.get());
        AbiDecoder { abi, aliases, structs, variants, actions, tables }
    }

    /// Decode `data` as the given ABI type. Fails if the type is unknown or
    /// the buffer is malformed; trailing bytes are tolerated (some contracts
    /// over-serialize).
    pub fn decode(&self, of_type: &str, data: &[u8]) -> (res: Result<Json, AntelopeError>)
        ensures
            super::reader::decodes(
                get_value(self.interface(), of_type@, 0, wire::at(data@)),
                res,
            ),
    {
        let mut reader = ByteReader::new(data);
        self.decode_type(of_type, &mut reader, 0)
    }

    /// Decode the data payload of an action, resolving the action's struct
    /// type from the ABI.
    pub fn decode_action(&self, action: Name, data: &[u8]) -> (res: Result<Json, AntelopeError>)
        ensures
            super::reader::decodes(action_value(self.interface(), action, data@), res),
    {
        proof {
            use_type_invariant(self);
            assert(in_index(self.actions@, action.0) == place(
                abi::action_from(self.interface().actions, action, 0),
                self.interface().actions.len(),
            ));
        }
        match self.actions.get(&action.0) {
            Some(index) => {
                let def = &self.abi.get().actions[*index];
                self.decode(def.type_.as_str(), data)
            },
            None => {
                let mut what: String = "action ".to_owned();
                what.append(action.to_string().as_str());
                Err(AntelopeError::UnknownType(what))
            },
        }
    }

    /// Decode a table row, resolving the row struct type from the ABI.
    pub fn decode_table_row(&self, table: Name, data: &[u8]) -> (res: Result<Json, AntelopeError>)
        ensures
            super::reader::decodes(row_value(self.interface(), table, data@), res),
    {
        proof {
            use_type_invariant(self);
            assert(in_index(self.tables@, table.0) == place(
                abi::table_from(self.interface().tables, table, 0),
                self.interface().tables.len(),
            ));
        }
        match self.tables.get(&table.0) {
            Some(index) => {
                let def = &self.abi.get().tables[*index];
                self.decode(def.type_.as_str(), data)
            },
            None => {
                let mut what: String = "table ".to_owned();
                what.append(table.to_string().as_str());
                Err(AntelopeError::UnknownType(what))
            },
        }
    }

    fn decode_type(&self, of_type: &str, r: &mut ByteReader, depth: u32) -> (res: Result<
        Json,
        AntelopeError,
    >)
        requires
            depth <= MAX_DEPTH + 1,
        ensures
            super::reader::reads(
                get_value(self.interface(), of_type@, depth as nat, old(r).cursor()),
                res,
                *old(r),
                *final(r),
            ),
        decreases MAX_DEPTH + 1 - depth, 2int,
    {
        if depth > MAX_DEPTH {
            return Err(AntelopeError::BadAbi("type nesting too deep".to_owned()));
        }
        // Suffix modifiers bind tightest-last: `foo[]?` is optional-array.
        if let Some(inner) = text::strip_suffix(of_type, "$") {
            // Binary extension: absent iff the buffer is exhausted.
            if r.is_empty() {
                return Ok(Json::Null);
            }
            return self.decode_type(inner.as_str(), r, depth + 1);
        }
        if let Some(inner) = text::strip_suffix(of_type, "?") {
            if !r.read_bool()? {
                return Ok(Json::Null);
            }
            return self.decode_type(inner.as_str(), r, depth + 1);
        }
        if let Some(inner) = text::strip_suffix(of_type, "[]") {
            return self.decode_list(inner.as_str(), r, depth);
        }
        self.decode_named(of_type, r, depth)
    }

    fn decode_named(&self, of_type: &str, r: &mut ByteReader, depth: u32) -> (res: Result<
        Json,
        AntelopeError,
    >)
        requires
            depth <= MAX_DEPTH,
        ensures
            super::reader::reads(
                get_named(self.interface(), of_type@, depth as nat, old(r).cursor()),
                res,
                *old(r),
                *final(r),
            ),
        decreases MAX_DEPTH + 1 - depth, 1int,
    {
        if let Some(value) = builtin::decode_builtin(of_type, r)? {
            return Ok(value);
        }
        proof {
            use_type_invariant(self);
            lemma_struct_named(
                self.interface().structs,
                of_type@,
                self.interface().structs.len(),
            );
            lemma_variant_named(
                self.interface().variants,
                of_type@,
                self.interface().variants.len(),
            );
            lemma_alias_named(self.interface().types, of_type@, self.interface().types.len());
            assert(in_table(self.structs@, of_type@) == struct_named(
                self.interface().structs,
                of_type@,
                self.interface().structs.len(),
            ));
            assert(in_table(self.variants@, of_type@) == variant_named(
                self.interface().variants,
                of_type@,
                self.interface().variants.len(),
            ));
            assert(in_table(self.aliases@, of_type@) == alias_named(
                self.interface().types,
                of_type@,
                self.interface().types.len(),
            ));
        }
        if let Some(index) = self.structs.get(of_type) {
            return self.decode_struct(&self.abi.get().structs[*index], r, depth);
        }
        if let Some(index) = self.variants.get(of_type) {
            let def = &self.abi.get().variants[*index];
            let choice: u32 = r.read_varuint32()?;
            if choice as usize >= def.types.len() {
                return Err(
                    AntelopeError::BadVariantIndex { variant: def.name.clone(), index: choice },
                );
            }
            let inner: &str = def.types[choice as usize].as_str();
            let value = self.decode_type(inner, r, depth + 1)?;
            let mut pair: Vec<Json> = no_items();
            push_item(&mut pair, json::string(inner));
            push_item(&mut pair, value);
            assert(pair.deep_view() == seq![JsonModel::Str(inner@), value.deep_view()]);
            return Ok(json::array(pair));
        }
        // Aliases may point at modified types (e.g. `permission[]`), so
        // resolve one step and re-enter; the depth guard breaks cycles.
        if let Some(index) = self.aliases.get(of_type) {
            return self.decode_type(self.abi.get().types[*index].type_.as_str(), r, depth + 1);
        }
        Err(AntelopeError::UnknownType(of_type.to_owned()))
    }

    fn decode_list(&self, inner: &str, r: &mut ByteReader, depth: u32) -> (res: Result<
        Json,
        AntelopeError,
    >)
        requires
            depth <= MAX_DEPTH,
        ensures
            ({
                let (items, c) = wire::get_list(
                    value_at(self.interface(), inner@, (depth + 1) as nat),
                    old(r).cursor(),
                );
                super::reader::reads((JsonModel::Array(items), c), res, *old(r), *final(r))
            }),
        decreases MAX_DEPTH + 1 - depth, 0int,
    {
        let ghost p = value_at(self.interface(), inner@, (depth + 1) as nat);
        let n: u32 = r.read_varuint32()?;
        let ghost c1 = r.cursor();
        let mut items: Vec<Json> = no_items();
        let mut i: u32 = 0;
        while i < n
            invariant
                i <= n,
                depth <= MAX_DEPTH,
                p == value_at(self.interface(), inner@, (depth + 1) as nat),
                r.bytes() == old(r).bytes(),
                wire::get_many(p, i as nat, c1) == (items.deep_view(), r.cursor()),
                wire::get_list(p, old(r).cursor()) == wire::get_many(p, n as nat, c1),
            decreases n - i,
        {
            match self.decode_type(inner, r, depth + 1) {
                Ok(v) => push_item(&mut items, v),
                Err(e) => {
                    proof {
                        wire::lemma_many_stuck(p, (i + 1) as nat, n as nat, c1);
                    }
                    return Err(e);
                },
            }
            i = i + 1;
        }
        Ok(json::array(items))
    }

    fn decode_struct(&self, def: &StructDef, r: &mut ByteReader, depth: u32) -> (res: Result<
        Json,
        AntelopeError,
    >)
        requires
            depth <= MAX_DEPTH,
        ensures
            ({
                let m = def.deep_view();
                let (base, c1) = base_of(self.interface(), m, depth as nat, old(r).cursor());
                let (fields, c2) = get_fields(
                    self.interface(),
                    m.fields,
                    m.fields.len(),
                    depth as nat,
                    base_fields(base),
                    c1,
                );
                super::reader::reads((JsonModel::Object(fields), c2), res, *old(r), *final(r))
            }),
        decreases MAX_DEPTH + 1 - depth, 0int,
    {
        let ghost abi = self.interface();
        let ghost defs = def.deep_view().fields;
        let ghost len = defs.len();
        let mut fields: Vec<(String, Json)> = no_items();
        let ghost base_value = base_of(abi, def.deep_view(), depth as nat, old(r).cursor());
        if !def.base.as_str().is_empty() {
            match self.decode_type(def.base.as_str(), r, depth + 1) {
                Ok(base) => {
                    if let Json::Object(inherited) = base {
                        assert(base.model()->Object_0 == inherited.deep_view());
                        fields = inherited;
                    }
                },
                Err(e) => {
                    proof {
                        lemma_fields_stuck(
                            abi,
                            defs,
                            0,
                            len,
                            depth as nat,
                            base_fields(base_value.0),
                            base_value.1,
                        );
                    }
                    return Err(e);
                },
            }
        }
        let ghost before = fields.deep_view();
        let ghost c1 = r.cursor();
        let mut i: usize = 0;
        while i < def.fields.len()
            invariant
                i <= def.fields@.len(),
                depth <= MAX_DEPTH,
                abi == self.interface(),
                defs == def.deep_view().fields,
                len == defs.len(),
                r.bytes() == old(r).bytes(),
                get_fields(abi, defs, i as nat, depth as nat, before, c1) == (
                    fields.deep_view(),
                    r.cursor(),
                ),
                base_fields(base_value.0) == before,
                base_value.1 == c1,
                base_value == base_of(abi, def.deep_view(), depth as nat, old(r).cursor()),
            decreases def.fields@.len() - i,
        {
            let field = &def.fields[i];
            match self.decode_type(field.type_.as_str(), r, depth + 1) {
                Ok(value) => json::set(&mut fields, field.name.as_str(), value),
                Err(e) => {
                    proof {
                        lemma_fields_stuck(
                            abi,
                            defs,
                            (i + 1) as nat,
                            len,
                            depth as nat,
                            before,
                            c1,
                        );
                    }
                    return Err(e);
                },
            }
            i = i + 1;
        }
        Ok(json::object(fields))
    }
}

/// A fault among the first fields stays: no further field is read.
pub proof fn lemma_fields_stuck(
    abi: AbiModel,
    defs: Seq<FieldDefModel>,
    k: nat,
    n: nat,
    depth: nat,
    before: json::FieldsModel,
    c: Cursor,
)
    requires
        k <= n,
    ensures
        !get_fields(abi, defs, k, depth, before, c).1.sound() ==> get_fields(
            abi,
            defs,
            n,
            depth,
            before,
            c,
        ) == get_fields(abi, defs, k, depth, before, c),
    decreases n,
{
    if k < n {
        lemma_fields_stuck(abi, defs, k, (n - 1) as nat, depth, before, c);
    }
}

proof fn lemma_fields_distinct(
    abi: AbiModel,
    defs: Seq<FieldDefModel>,
    n: nat,
    depth: nat,
    before: json::FieldsModel,
    c: Cursor,
)
    requires
        json::distinct_names(before),
    ensures
        json::distinct_names(get_fields(abi, defs, n, depth, before, c).0),
    decreases n,
{
    if n > 0 {
        lemma_fields_distinct(abi, defs, (n - 1) as nat, depth, before, c);
        let (fields, c1) = get_fields(abi, defs, (n - 1) as nat, depth, before, c);
        let (v, c2) = get_value(abi, defs[n - 1].type_, depth + 1, c1);
        json::law_set_field(fields, defs[n - 1].name, v);
    }
}

proof fn lemma_builtin_distinct(t: Seq<char>, c: Cursor)
    ensures
        builtin::get_builtin(t, c) matches Some((JsonModel::Object(fields), _))
            ==> json::distinct_names(fields),
{
    reveal(builtin::get_builtin);
    reveal_strlit("quantity");
    reveal_strlit("contract");
    assert("quantity"@[0] != "contract"@[0]);
}

/// An object that is decoded has no field twice.
pub proof fn law_decoded_fields_distinct(abi: AbiModel, t: Seq<char>, depth: nat, c: Cursor)
    ensures
        get_value(abi, t, depth, c).0 matches JsonModel::Object(fields) ==> json::distinct_names(
            fields,
        ),
    decreases (MAX_DEPTH + 1) - depth,
{
    if c.sound() && depth <= MAX_DEPTH {
        let extension = text::without_suffix(t, "$"@);
        let optional = text::without_suffix(t, "?"@);
        let list = text::without_suffix(t, "[]"@);
        if extension is Some {
            law_decoded_fields_distinct(abi, extension->0, depth + 1, c);
        } else if optional is Some {
            law_decoded_fields_distinct(abi, optional->0, depth + 1, wire::get_bool(c).1);
        } else if list is None {
            assert(get_value(abi, t, depth, c) == get_named(abi, t, depth, c));
            lemma_builtin_distinct(t, c);
            let found_struct = struct_named(abi.structs, t, abi.structs.len());
            let found_alias = alias_named(abi.types, t, abi.types.len());
            if builtin::get_builtin(t, c) is Some {
            } else if found_struct is Some {
                let def = abi.structs[found_struct->0 as int];
                let (base, c1) = base_of(abi, def, depth, c);
                law_decoded_fields_distinct(abi, def.base, depth + 1, c);
                lemma_fields_distinct(
                    abi,
                    def.fields,
                    def.fields.len(),
                    depth,
                    base_fields(base),
                    c1,
                );
            } else if found_alias is Some {
                law_decoded_fields_distinct(
                    abi,
                    abi.types[found_alias->0 as int].type_,
                    depth + 1,
                    c,
                );
            }
        }
    }
}

} // verus!
