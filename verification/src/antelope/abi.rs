//! The Antelope `abi_def` model, loadable from the packed binary form carried
//! in `setabi` actions and state-history `account` table deltas.

use crate::antelope::codec;
use crate::antelope::codec::{read_list, Codec};
use crate::antelope::name::Name;
use crate::antelope::packing;
use crate::antelope::packing::Packed;
use crate::antelope::reader::ByteReader;
use crate::antelope::wire;
use crate::antelope::wire::Cursor;
use crate::antelope::AntelopeError;
use vstd::prelude::*;

verus! {

broadcast use {wire::group_latch, codec::lemma_list_latch};

/// Another name for a type.
#[derive(Debug, Clone, Default)]
pub struct TypeDef {
    pub new_type_name: String,
    pub type_: String,
}

/// A field of a struct.
#[derive(Debug, Clone, Default)]
pub struct FieldDef {
    pub name: String,
    pub type_: String,
}

/// A struct: the fields of its base, if it has one, then its own.
#[derive(Debug, Clone, Default)]
pub struct StructDef {
    pub name: String,
    pub base: String,
    pub fields: Vec<FieldDef>,
}

/// An action and the struct that its data is.
#[derive(Debug, Clone, Default)]
pub struct ActionDef {
    pub name: Name,
    pub type_: String,
    pub ricardian_contract: String,
}

/// A table and the struct that its rows are.
#[derive(Debug, Clone, Default)]
pub struct TableDef {
    pub name: Name,
    pub index_type: String,
    pub key_names: Vec<String>,
    pub key_types: Vec<String>,
    pub type_: String,
}

/// A choice between types.
#[derive(Debug, Clone, Default)]
pub struct VariantDef {
    pub name: String,
    pub types: Vec<String>,
}

/// A contract's interface: its types, actions and tables.
#[derive(Debug, Clone, Default)]
pub struct Abi {
    pub version: String,
    pub types: Vec<TypeDef>,
    pub structs: Vec<StructDef>,
    pub actions: Vec<ActionDef>,
    pub tables: Vec<TableDef>,
    pub variants: Vec<VariantDef>,
}

// ---------------------------------------------------------------------------
// What the definitions hold
// ---------------------------------------------------------------------------

#[verifier::ext_equal]
pub struct TypeDefModel {
    pub new_type_name: Seq<char>,
    pub type_: Seq<char>,
}

impl DeepView for TypeDef {
    type V = TypeDefModel;

    open spec fn deep_view(&self) -> TypeDefModel {
        TypeDefModel {
            new_type_name: self.new_type_name@,
            type_: self.type_@,
        }
    }
}

#[verifier::ext_equal]
pub struct FieldDefModel {
    pub name: Seq<char>,
    pub type_: Seq<char>,
}

impl DeepView for FieldDef {
    type V = FieldDefModel;

    open spec fn deep_view(&self) -> FieldDefModel {
        FieldDefModel {
            name: self.name@,
            type_: self.type_@,
        }
    }
}

#[verifier::ext_equal]
pub struct StructDefModel {
    pub name: Seq<char>,
    pub base: Seq<char>,
    pub fields: Seq<FieldDefModel>,
}

impl DeepView for StructDef {
    type V = StructDefModel;

    open spec fn deep_view(&self) -> StructDefModel {
        StructDefModel {
            name: self.name@,
            base: self.base@,
            fields: self.fields.deep_view(),
        }
    }
}

#[verifier::ext_equal]
pub struct ActionDefModel {
    pub name: Name,
    pub type_: Seq<char>,
    pub ricardian_contract: Seq<char>,
}

impl DeepView for ActionDef {
    type V = ActionDefModel;

    open spec fn deep_view(&self) -> ActionDefModel {
        ActionDefModel {
            name: self.name,
            type_: self.type_@,
            ricardian_contract: self.ricardian_contract@,
        }
    }
}

#[verifier::ext_equal]
pub struct TableDefModel {
    pub name: Name,
    pub index_type: Seq<char>,
    pub key_names: Seq<Seq<char>>,
    pub key_types: Seq<Seq<char>>,
    pub type_: Seq<char>,
}

impl DeepView for TableDef {
    type V = TableDefModel;

    open spec fn deep_view(&self) -> TableDefModel {
        TableDefModel {
            name: self.name,
            index_type: self.index_type@,
            key_names: self.key_names.deep_view(),
            key_types: self.key_types.deep_view(),
            type_: self.type_@,
        }
    }
}

#[verifier::ext_equal]
pub struct VariantDefModel {
    pub name: Seq<char>,
    pub types: Seq<Seq<char>>,
}

impl DeepView for VariantDef {
    type V = VariantDefModel;

    open spec fn deep_view(&self) -> VariantDefModel {
        VariantDefModel {
            name: self.name@,
            types: self.types.deep_view(),
        }
    }
}

#[verifier::ext_equal]
pub struct AbiModel {
    pub version: Seq<char>,
    pub types: Seq<TypeDefModel>,
    pub structs: Seq<StructDefModel>,
    pub actions: Seq<ActionDefModel>,
    pub tables: Seq<TableDefModel>,
    pub variants: Seq<VariantDefModel>,
}

impl DeepView for Abi {
    type V = AbiModel;

    open spec fn deep_view(&self) -> AbiModel {
        AbiModel {
            version: self.version@,
            types: self.types.deep_view(),
            structs: self.structs.deep_view(),
            actions: self.actions.deep_view(),
            tables: self.tables.deep_view(),
            variants: self.variants.deep_view(),
        }
    }
}

// ---------------------------------------------------------------------------
// The packed form
// ---------------------------------------------------------------------------

/// A string.
pub struct Text;

impl Codec for Text {
    type Item = String;

    type Error = AntelopeError;

    open spec fn get(c: Cursor) -> (Seq<char>, Cursor) {
        wire::get_string(c)
    }

    proof fn shrinks(c: Cursor) {
        broadcast use wire::group_shrinks;

    }

    proof fn extends(c: Cursor, extra: Seq<u8>) {
        broadcast use wire::group_extends;

    }

    fn take(r: &mut ByteReader) -> Result<String, AntelopeError> {
        r.read_string()
    }
}

impl Codec for TypeDef {
    type Item = TypeDef;

    type Error = AntelopeError;

    open spec fn get(c: Cursor) -> (TypeDefModel, Cursor) {
        let (new_type_name, c1) = wire::get_string(c);
        let (type_, c2) = wire::get_string(c1);
        (TypeDefModel { new_type_name, type_ }, c2)
    }

    proof fn shrinks(c: Cursor) {
        broadcast use wire::group_shrinks;

    }

    proof fn extends(c: Cursor, extra: Seq<u8>) {
        broadcast use wire::group_extends;

    }

    fn take(r: &mut ByteReader) -> Result<TypeDef, AntelopeError> {
        let new_type_name = r.read_string()?;
        let type_ = r.read_string()?;
        Ok(TypeDef { new_type_name, type_ })
    }
}

impl Codec for FieldDef {
    type Item = FieldDef;

    type Error = AntelopeError;

    open spec fn get(c: Cursor) -> (FieldDefModel, Cursor) {
        let (name, c1) = wire::get_string(c);
        let (type_, c2) = wire::get_string(c1);
        (FieldDefModel { name, type_ }, c2)
    }

    proof fn shrinks(c: Cursor) {
        broadcast use wire::group_shrinks;

    }

    proof fn extends(c: Cursor, extra: Seq<u8>) {
        broadcast use wire::group_extends;

    }

    fn take(r: &mut ByteReader) -> Result<FieldDef, AntelopeError> {
        let name = r.read_string()?;
        let type_ = r.read_string()?;
        Ok(FieldDef { name, type_ })
    }
}

impl Codec for StructDef {
    type Item = StructDef;

    type Error = AntelopeError;

    open spec fn get(c: Cursor) -> (StructDefModel, Cursor) {
        let (name, c1) = wire::get_string(c);
        let (base, c2) = wire::get_string(c1);
        let (fields, c3) = codec::list_of::<FieldDef>(c2);
        (StructDefModel { name, base, fields }, c3)
    }

    proof fn shrinks(c: Cursor) {
        broadcast use wire::group_shrinks;
        broadcast use codec::lemma_list_shrinks;

    }

    proof fn extends(c: Cursor, extra: Seq<u8>) {
        broadcast use wire::group_extends;
        broadcast use codec::lemma_list_extends;

    }

    fn take(r: &mut ByteReader) -> Result<StructDef, AntelopeError> {
        let name = r.read_string()?;
        let base = r.read_string()?;
        let fields = read_list::<FieldDef>(r)?;
        Ok(StructDef { name, base, fields })
    }
}

impl Codec for ActionDef {
    type Item = ActionDef;

    type Error = AntelopeError;

    open spec fn get(c: Cursor) -> (ActionDefModel, Cursor) {
        let (name, c1) = wire::get_name(c);
        let (type_, c2) = wire::get_string(c1);
        let (ricardian_contract, c3) = wire::get_string(c2);
        (ActionDefModel { name, type_, ricardian_contract }, c3)
    }

    proof fn shrinks(c: Cursor) {
        broadcast use wire::group_shrinks;

    }

    proof fn extends(c: Cursor, extra: Seq<u8>) {
        broadcast use wire::group_extends;

    }

    fn take(r: &mut ByteReader) -> Result<ActionDef, AntelopeError> {
        let name = r.read_name()?;
        let type_ = r.read_string()?;
        let ricardian_contract = r.read_string()?;
        Ok(ActionDef { name, type_, ricardian_contract })
    }
}

impl Codec for TableDef {
    type Item = TableDef;

    type Error = AntelopeError;

    open spec fn get(c: Cursor) -> (TableDefModel, Cursor) {
        let (name, c1) = wire::get_name(c);
        let (index_type, c2) = wire::get_string(c1);
        let (key_names, c3) = codec::list_of::<Text>(c2);
        let (key_types, c4) = codec::list_of::<Text>(c3);
        let (type_, c5) = wire::get_string(c4);
        (TableDefModel { name, index_type, key_names, key_types, type_ }, c5)
    }

    proof fn shrinks(c: Cursor) {
        broadcast use wire::group_shrinks;
        broadcast use codec::lemma_list_shrinks;

    }

    proof fn extends(c: Cursor, extra: Seq<u8>) {
        broadcast use wire::group_extends;
        broadcast use codec::lemma_list_extends;

    }

    fn take(r: &mut ByteReader) -> Result<TableDef, AntelopeError> {
        let name = r.read_name()?;
        let index_type = r.read_string()?;
        let key_names = read_list::<Text>(r)?;
        let key_types = read_list::<Text>(r)?;
        let type_ = r.read_string()?;
        Ok(TableDef { name, index_type, key_names, key_types, type_ })
    }
}

impl Codec for VariantDef {
    type Item = VariantDef;

    type Error = AntelopeError;

    open spec fn get(c: Cursor) -> (VariantDefModel, Cursor) {
        let (name, c1) = wire::get_string(c);
        let (types, c2) = codec::list_of::<Text>(c1);
        (VariantDefModel { name, types }, c2)
    }

    proof fn shrinks(c: Cursor) {
        broadcast use wire::group_shrinks;
        broadcast use codec::lemma_list_shrinks;

    }

    proof fn extends(c: Cursor, extra: Seq<u8>) {
        broadcast use wire::group_extends;
        broadcast use codec::lemma_list_extends;

    }

    fn take(r: &mut ByteReader) -> Result<VariantDef, AntelopeError> {
        let name = r.read_string()?;
        let types = read_list::<Text>(r)?;
        Ok(VariantDef { name, types })
    }
}

/// A ricardian clause: two strings, which are not kept.
pub struct ClausePair;

impl Codec for ClausePair {
    type Item = ();

    type Error = AntelopeError;

    open spec fn get(c: Cursor) -> ((), Cursor) {
        let (_, c1) = wire::get_string(c);
        let (_, c2) = wire::get_string(c1);
        ((), c2)
    }

    proof fn shrinks(c: Cursor) {
        broadcast use wire::group_shrinks;

    }

    proof fn extends(c: Cursor, extra: Seq<u8>) {
        broadcast use wire::group_extends;

    }

    fn take(r: &mut ByteReader) -> Result<(), AntelopeError> {
        r.read_string()?;
        r.read_string()?;
        Ok(())
    }
}

/// An error message: a code and a string, which are not kept.
pub struct ErrorMessage;

impl Codec for ErrorMessage {
    type Item = ();

    type Error = AntelopeError;

    open spec fn get(c: Cursor) -> ((), Cursor) {
        let (_, c1) = wire::get_u64(c);
        let (_, c2) = wire::get_string(c1);
        ((), c2)
    }

    proof fn shrinks(c: Cursor) {
        broadcast use wire::group_shrinks;

    }

    proof fn extends(c: Cursor, extra: Seq<u8>) {
        broadcast use wire::group_extends;

    }

    fn take(r: &mut ByteReader) -> Result<(), AntelopeError> {
        r.read_u64()?;
        r.read_string()?;
        Ok(())
    }
}

/// An extension: a number and a byte string, which are not kept.
pub struct Extension;

impl Codec for Extension {
    type Item = ();

    type Error = AntelopeError;

    open spec fn get(c: Cursor) -> ((), Cursor) {
        let (_, c1) = wire::get_u16(c);
        let (_, c2) = wire::get_blob(c1);
        ((), c2)
    }

    proof fn shrinks(c: Cursor) {
        broadcast use wire::group_shrinks;

    }

    proof fn extends(c: Cursor, extra: Seq<u8>) {
        broadcast use wire::group_extends;

    }

    fn take(r: &mut ByteReader) -> Result<(), AntelopeError> {
        r.read_u16()?;
        r.read_bytes()?;
        Ok(())
    }
}

/// The interface that stands at a place, and the end of what is read of it.
/// The variants are absent where the buffer ends before them; what follows
/// them is not read.
pub open spec fn get_abi(c: Cursor) -> (AbiModel, Cursor) {
    let (version, c1) = wire::get_string(c);
    let (types, c2) = codec::list_of::<TypeDef>(c1);
    let (structs, c3) = codec::list_of::<StructDef>(c2);
    let (actions, c4) = codec::list_of::<ActionDef>(c3);
    let (tables, c5) = codec::list_of::<TableDef>(c4);
    let (_, c6) = codec::list_of::<ClausePair>(c5);
    let (_, c7) = codec::list_of::<ErrorMessage>(c6);
    let (_, c8) = codec::list_of::<Extension>(c7);
    let (variants, c9) = if c8.sound() && c8.rest.len() > 0 {
        codec::list_of::<VariantDef>(c8)
    } else {
        (seq![], c8)
    };
    (AbiModel { version, types, structs, actions, tables, variants }, c9)
}

/// The place of the first action with a name among the actions from `from`
/// on, or the number of actions if there is none.
pub open spec fn action_from(actions: Seq<ActionDefModel>, name: Name, from: nat) -> nat
    decreases actions.len() - from,
{
    if from >= actions.len() {
        actions.len()
    } else if actions[from as int].name == name {
        from
    } else {
        action_from(actions, name, from + 1)
    }
}

/// The place of the first table with a name among the tables from `from` on,
/// or the number of tables if there is none.
pub open spec fn table_from(tables: Seq<TableDefModel>, name: Name, from: nat) -> nat
    decreases tables.len() - from,
{
    if from >= tables.len() {
        tables.len()
    } else if tables[from as int].name == name {
        from
    } else {
        table_from(tables, name, from + 1)
    }
}

impl Abi {
    /// Decode a packed (binary) `abi_def`, as found in `setabi` action data
    /// and in the state-history `account` table.
    pub fn from_bin(data: &[u8]) -> (res: Result<Abi, AntelopeError>)
        ensures
            super::reader::decodes(get_abi(wire::at(data@)), res),
    {
        let mut reader = ByteReader::new(data);
        let r = &mut reader;
        let version = r.read_string()?;
        let types = read_list::<TypeDef>(r)?;
        let structs = read_list::<StructDef>(r)?;
        let actions = read_list::<ActionDef>(r)?;
        let tables = read_list::<TableDef>(r)?;
        // ricardian_clauses
        read_list::<ClausePair>(r)?;
        // error_messages
        read_list::<ErrorMessage>(r)?;
        // abi_extensions
        read_list::<Extension>(r)?;
        // variants (binary extension, abi/1.1+)
        let variants = if r.is_empty() {
            Vec::new()
        } else {
            read_list::<VariantDef>(r)?
        };
        // action_results (abi/1.2+) are not read.
        let abi = Abi { version, types, structs, actions, tables, variants };
        assert(abi.deep_view() == get_abi(wire::at(data@)).0);
        Ok(abi)
    }

    /// The struct type name for a given action, if declared.
    pub fn action_type(&self, action: Name) -> (res: Option<&str>)
        ensures
            ({
                let actions = self.deep_view().actions;
                let at = action_from(actions, action, 0);
                match res {
                    Some(t) => at < actions.len() && t@ == actions[at as int].type_,
                    None => at == actions.len(),
                }
            }),
    {
        let ghost actions = self.deep_view().actions;
        let mut i: usize = 0;
        while i < self.actions.len()
            invariant
                i <= self.actions@.len(),
                actions == self.deep_view().actions,
                action_from(actions, action, 0) == action_from(actions, action, i as nat),
            decreases self.actions@.len() - i,
        {
            if self.actions[i].name == action {
                return Some(self.actions[i].type_.as_str());
            }
            i = i + 1;
        }
        None
    }

    /// The row struct type name for a given table, if declared.
    pub fn table_type(&self, table: Name) -> (res: Option<&str>)
        ensures
            ({
                let tables = self.deep_view().tables;
                let at = table_from(tables, table, 0);
                match res {
                    Some(t) => at < tables.len() && t@ == tables[at as int].type_,
                    None => at == tables.len(),
                }
            }),
    {
        let ghost tables = self.deep_view().tables;
        let mut i: usize = 0;
        while i < self.tables.len()
            invariant
                i <= self.tables@.len(),
                tables == self.deep_view().tables,
                table_from(tables, table, 0) == table_from(tables, table, i as nat),
            decreases self.tables@.len() - i,
        {
            if self.tables[i].name == table {
                return Some(self.tables[i].type_.as_str());
            }
            i = i + 1;
        }
        None
    }
}

// ---------------------------------------------------------------------------
// A packed interface is read back
// ---------------------------------------------------------------------------

impl Packed for Text {
    open spec fn bytes(v: Seq<char>) -> Seq<u8> {
        packing::string_bytes(v)
    }

    open spec fn fits(v: Seq<char>) -> bool {
        packing::string_fits(v)
    }

    proof fn reads_back(v: Seq<char>, rest: Seq<u8>) {
        packing::law_string_reads_back(v, rest);
    }
}

impl Packed for TypeDef {
    open spec fn bytes(v: TypeDefModel) -> Seq<u8> {
        packing::string_bytes(v.new_type_name) + packing::string_bytes(v.type_)
    }

    open spec fn fits(v: TypeDefModel) -> bool {
        &&& packing::string_fits(v.new_type_name)
        &&& packing::string_fits(v.type_)
    }

    proof fn reads_back(v: TypeDefModel, rest: Seq<u8>) {
        let r1 = packing::string_bytes(v.type_) + rest;
        assert(Self::bytes(v) + rest == packing::string_bytes(v.new_type_name) + r1);
        packing::law_string_reads_back(v.new_type_name, r1);
        packing::law_string_reads_back(v.type_, rest);
    }
}

impl Packed for FieldDef {
    open spec fn bytes(v: FieldDefModel) -> Seq<u8> {
        packing::string_bytes(v.name) + packing::string_bytes(v.type_)
    }

    open spec fn fits(v: FieldDefModel) -> bool {
        &&& packing::string_fits(v.name)
        &&& packing::string_fits(v.type_)
    }

    proof fn reads_back(v: FieldDefModel, rest: Seq<u8>) {
        let r1 = packing::string_bytes(v.type_) + rest;
        assert(Self::bytes(v) + rest == packing::string_bytes(v.name) + r1);
        packing::law_string_reads_back(v.name, r1);
        packing::law_string_reads_back(v.type_, rest);
    }
}

impl Packed for StructDef {
    open spec fn bytes(v: StructDefModel) -> Seq<u8> {
        packing::string_bytes(v.name) + packing::string_bytes(v.base) + packing::list_bytes::<
            FieldDef,
        >(v.fields)
    }

    open spec fn fits(v: StructDefModel) -> bool {
        &&& packing::string_fits(v.name)
        &&& packing::string_fits(v.base)
        &&& packing::list_fits::<FieldDef>(v.fields)
    }

    proof fn reads_back(v: StructDefModel, rest: Seq<u8>) {
        let r2 = packing::list_bytes::<FieldDef>(v.fields) + rest;
        let r1 = packing::string_bytes(v.base) + r2;
        assert(Self::bytes(v) + rest == packing::string_bytes(v.name) + r1);
        packing::law_string_reads_back(v.name, r1);
        packing::law_string_reads_back(v.base, r2);
        packing::law_list_reads_back::<FieldDef>(v.fields, rest);
    }
}

impl Packed for ActionDef {
    open spec fn bytes(v: ActionDefModel) -> Seq<u8> {
        packing::name_bytes(v.name) + packing::string_bytes(v.type_) + packing::string_bytes(
            v.ricardian_contract,
        )
    }

    open spec fn fits(v: ActionDefModel) -> bool {
        &&& packing::string_fits(v.type_)
        &&& packing::string_fits(v.ricardian_contract)
    }

    proof fn reads_back(v: ActionDefModel, rest: Seq<u8>) {
        let r2 = packing::string_bytes(v.ricardian_contract) + rest;
        let r1 = packing::string_bytes(v.type_) + r2;
        assert(Self::bytes(v) + rest == packing::name_bytes(v.name) + r1);
        packing::law_u64_reads_back(v.name.0, r1);
        packing::law_string_reads_back(v.type_, r2);
        packing::law_string_reads_back(v.ricardian_contract, rest);
    }
}

impl Packed for TableDef {
    open spec fn bytes(v: TableDefModel) -> Seq<u8> {
        packing::name_bytes(v.name) + packing::string_bytes(v.index_type) + packing::list_bytes::<
            Text,
        >(v.key_names) + packing::list_bytes::<Text>(v.key_types) + packing::string_bytes(v.type_)
    }

    open spec fn fits(v: TableDefModel) -> bool {
        &&& packing::string_fits(v.index_type)
        &&& packing::list_fits::<Text>(v.key_names)
        &&& packing::list_fits::<Text>(v.key_types)
        &&& packing::string_fits(v.type_)
    }

    proof fn reads_back(v: TableDefModel, rest: Seq<u8>) {
        let r4 = packing::string_bytes(v.type_) + rest;
        let r3 = packing::list_bytes::<Text>(v.key_types) + r4;
        let r2 = packing::list_bytes::<Text>(v.key_names) + r3;
        let r1 = packing::string_bytes(v.index_type) + r2;
        assert(Self::bytes(v) + rest == packing::name_bytes(v.name) + r1);
        packing::law_u64_reads_back(v.name.0, r1);
        packing::law_string_reads_back(v.index_type, r2);
        packing::law_list_reads_back::<Text>(v.key_names, r3);
        packing::law_list_reads_back::<Text>(v.key_types, r4);
        packing::law_string_reads_back(v.type_, rest);
    }
}

impl Packed for VariantDef {
    open spec fn bytes(v: VariantDefModel) -> Seq<u8> {
        packing::string_bytes(v.name) + packing::list_bytes::<Text>(v.types)
    }

    open spec fn fits(v: VariantDefModel) -> bool {
        &&& packing::string_fits(v.name)
        &&& packing::list_fits::<Text>(v.types)
    }

    proof fn reads_back(v: VariantDefModel, rest: Seq<u8>) {
        let r1 = packing::list_bytes::<Text>(v.types) + rest;
        assert(Self::bytes(v) + rest == packing::string_bytes(v.name) + r1);
        packing::law_string_reads_back(v.name, r1);
        packing::law_list_reads_back::<Text>(v.types, rest);
    }
}

/// A packed interface up to its variants: the version, the types, structs,
/// actions and tables, and no clauses, error messages or extensions.
pub open spec fn head_bytes(a: AbiModel) -> Seq<u8> {
    packing::string_bytes(a.version) + packing::list_bytes::<TypeDef>(a.types)
        + packing::list_bytes::<StructDef>(a.structs) + packing::list_bytes::<ActionDef>(a.actions)
        + packing::list_bytes::<TableDef>(a.tables) + seq![0u8, 0u8, 0u8]
}

/// A packed interface.
pub open spec fn abi_bytes(a: AbiModel) -> Seq<u8> {
    head_bytes(a) + packing::list_bytes::<VariantDef>(a.variants)
}

/// Whether every length in an interface can be written.
pub open spec fn abi_fits(a: AbiModel) -> bool {
    &&& packing::string_fits(a.version)
    &&& packing::list_fits::<TypeDef>(a.types)
    &&& packing::list_fits::<StructDef>(a.structs)
    &&& packing::list_fits::<ActionDef>(a.actions)
    &&& packing::list_fits::<TableDef>(a.tables)
    &&& packing::list_fits::<VariantDef>(a.variants)
}

/// An empty list is one byte.
proof fn lemma_no_items<C: Codec>(rest: Seq<u8>)
    ensures
        codec::list_of::<C>(wire::at(seq![0u8] + rest)) == (
            Seq::<<C::Item as DeepView>::V>::empty(),
            wire::at(rest),
        ),
{
    reveal(codec::list_of);
    packing::law_varuint_reads_back(0, rest);
}

/// What is read of a packed interface before the variants.
proof fn lemma_head_reads_back(a: AbiModel, rest: Seq<u8>)
    requires
        abi_fits(a),
    ensures
        ({
            let (variants, end) = if rest.len() > 0 {
                codec::list_of::<VariantDef>(wire::at(rest))
            } else {
                (Seq::<VariantDefModel>::empty(), wire::at(rest))
            };
            get_abi(wire::at(head_bytes(a) + rest)) == (AbiModel { variants, ..a }, end)
        }),
{
    let z = seq![0u8];
    let r7 = z + rest;
    let r6 = z + r7;
    let r5 = z + r6;
    let r4 = packing::list_bytes::<TableDef>(a.tables) + r5;
    let r3 = packing::list_bytes::<ActionDef>(a.actions) + r4;
    let r2 = packing::list_bytes::<StructDef>(a.structs) + r3;
    let r1 = packing::list_bytes::<TypeDef>(a.types) + r2;
    assert(head_bytes(a) + rest == packing::string_bytes(a.version) + r1);
    packing::law_string_reads_back(a.version, r1);
    packing::law_list_reads_back::<TypeDef>(a.types, r2);
    packing::law_list_reads_back::<StructDef>(a.structs, r3);
    packing::law_list_reads_back::<ActionDef>(a.actions, r4);
    packing::law_list_reads_back::<TableDef>(a.tables, r5);
    lemma_no_items::<ClausePair>(r6);
    lemma_no_items::<ErrorMessage>(r7);
    lemma_no_items::<Extension>(rest);
}

/// A packed interface is read back whole, whatever follows it. The variants may
/// be left out where there are none.
pub proof fn law_abi_reads_back(a: AbiModel, extra: Seq<u8>)
    requires
        abi_fits(a),
    ensures
        get_abi(wire::at(abi_bytes(a) + extra)) == (a, wire::at(extra)),
        a.variants.len() == 0 ==> get_abi(wire::at(head_bytes(a))) == (a, wire::at(seq![])),
{
    let tail = packing::list_bytes::<VariantDef>(a.variants) + extra;
    assert(abi_bytes(a) + extra == head_bytes(a) + tail);
    packing::law_list_reads_back::<VariantDef>(a.variants, extra);
    lemma_head_reads_back(a, tail);
    assert(packing::varuint_bytes(a.variants.len()).len() > 0);
    if a.variants.len() == 0 {
        lemma_head_reads_back(a, Seq::empty());
        assert(head_bytes(a) + Seq::<u8>::empty() == head_bytes(a));
        assert(a.variants == Seq::<VariantDefModel>::empty());
    }
}

} // verus!
