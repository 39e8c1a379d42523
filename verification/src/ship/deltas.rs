//! Table deltas and the rows in them.

use crate::antelope::codec;
use crate::antelope::codec::{read_list, Codec};
use crate::antelope::keys;
use crate::antelope::name;
use crate::antelope::name::Name;
use crate::antelope::reader::ByteReader;
use crate::antelope::wire;
use crate::antelope::wire::Cursor;
use crate::antelope::AntelopeError;
use crate::bytes::owned;
use crate::ship::{expect_version, ship, ShipError};
use vstd::prelude::*;
use vstd::string::*;

verus! {

broadcast use {wire::group_latch, codec::lemma_list_latch};

/// A row that was written or removed.
#[derive(Debug, Clone)]
pub struct TableDeltaRow {
    pub present: bool,
    pub data: Vec<u8>,
}

/// The rows of one table that changed.
#[derive(Debug, Clone)]
pub struct TableDelta {
    pub name: String,
    pub rows: Vec<TableDeltaRow>,
}

/// A `contract_row_v0` from the `contract_row` table.
#[derive(Debug, Clone)]
pub struct ContractRow {
    pub code: Name,
    pub scope: Name,
    pub table: Name,
    pub primary_key: u64,
    pub payer: Name,
    pub value: Vec<u8>,
}

/// An `account_v0` from the `account` table: carries contract ABI updates.
#[derive(Debug, Clone)]
pub struct AccountRow {
    pub name: Name,
    pub creation_date_slot: u32,
    pub abi: Vec<u8>,
}

/// A `permission_v0` from the `permission` table: feeds the lookup of accounts
/// by key.
#[derive(Debug, Clone)]
pub struct PermissionRow {
    pub owner: Name,
    pub name: Name,
    pub parent: Name,
    /// time_point (microseconds since epoch).
    pub last_updated: i64,
    pub threshold: u32,
    pub keys: Vec<String>,
    /// Controlling accounts as `actor@permission`.
    pub accounts: Vec<String>,
}

// ---------------------------------------------------------------------------
// What the rows hold
// ---------------------------------------------------------------------------

#[verifier::ext_equal]
pub struct TableDeltaRowModel {
    pub present: bool,
    pub data: Seq<u8>,
}

impl DeepView for TableDeltaRow {
    type V = TableDeltaRowModel;

    open spec fn deep_view(&self) -> TableDeltaRowModel {
        TableDeltaRowModel {
            present: self.present,
            data: self.data@,
        }
    }
}

#[verifier::ext_equal]
pub struct TableDeltaModel {
    pub name: Seq<char>,
    pub rows: Seq<TableDeltaRowModel>,
}

impl DeepView for TableDelta {
    type V = TableDeltaModel;

    open spec fn deep_view(&self) -> TableDeltaModel {
        TableDeltaModel {
            name: self.name@,
            rows: self.rows.deep_view(),
        }
    }
}

#[verifier::ext_equal]
pub struct ContractRowModel {
    pub code: Name,
    pub scope: Name,
    pub table: Name,
    pub primary_key: u64,
    pub payer: Name,
    pub value: Seq<u8>,
}

impl DeepView for ContractRow {
    type V = ContractRowModel;

    open spec fn deep_view(&self) -> ContractRowModel {
        ContractRowModel {
            code: self.code,
            scope: self.scope,
            table: self.table,
            primary_key: self.primary_key,
            payer: self.payer,
            value: self.value@,
        }
    }
}

#[verifier::ext_equal]
pub struct AccountRowModel {
    pub name: Name,
    pub creation_date_slot: u32,
    pub abi: Seq<u8>,
}

impl DeepView for AccountRow {
    type V = AccountRowModel;

    open spec fn deep_view(&self) -> AccountRowModel {
        AccountRowModel {
            name: self.name,
            creation_date_slot: self.creation_date_slot,
            abi: self.abi@,
        }
    }
}

#[verifier::ext_equal]
pub struct PermissionRowModel {
    pub owner: Name,
    pub name: Name,
    pub parent: Name,
    pub last_updated: i64,
    pub threshold: u32,
    pub keys: Seq<Seq<char>>,
    pub accounts: Seq<Seq<char>>,
}

impl DeepView for PermissionRow {
    type V = PermissionRowModel;

    open spec fn deep_view(&self) -> PermissionRowModel {
        PermissionRowModel {
            owner: self.owner,
            name: self.name,
            parent: self.parent,
            last_updated: self.last_updated,
            threshold: self.threshold,
            keys: self.keys.deep_view(),
            accounts: self.accounts.deep_view(),
        }
    }
}

// ---------------------------------------------------------------------------
// The layouts
// ---------------------------------------------------------------------------

impl Codec for TableDeltaRow {
    type Item = TableDeltaRow;

    type Error = AntelopeError;

    open spec fn get(c: Cursor) -> (TableDeltaRowModel, Cursor) {
        let (present, c1) = wire::get_bool(c);
        let (data, c2) = wire::get_blob(c1);
        (TableDeltaRowModel { present, data }, c2)
    }

    proof fn shrinks(c: Cursor) {
        broadcast use wire::group_shrinks;

    }

    proof fn extends(c: Cursor, extra: Seq<u8>) {
        broadcast use wire::group_extends;

    }

    fn take(r: &mut ByteReader) -> Result<TableDeltaRow, AntelopeError> {
        let present: bool = r.read_bool()?;
        let data: Vec<u8> = owned(r.read_bytes()?);
        Ok(TableDeltaRow { present, data })
    }
}

impl Codec for TableDelta {
    type Item = TableDelta;

    type Error = ShipError;

    open spec fn get(c: Cursor) -> (TableDeltaModel, Cursor) {
        let (index, c0) = wire::get_varuint32(c);
        let c1 = c0.checked(index == 0, wire::unsupported("table_delta"@, index));
        let (name, c2) = wire::get_string(c1);
        let (rows, c3) = codec::list_of::<TableDeltaRow>(c2);
        (TableDeltaModel { name, rows }, c3)
    }

    proof fn shrinks(c: Cursor) {
        broadcast use wire::group_shrinks;
        broadcast use codec::lemma_list_shrinks;

    }

    proof fn extends(c: Cursor, extra: Seq<u8>) {
        broadcast use wire::group_extends;
        broadcast use codec::lemma_list_extends;

    }

    fn take(r: &mut ByteReader) -> Result<TableDelta, ShipError> {
        let index: u32 = ship(r.read_varuint32())?;
        expect_version("table_delta", index, 0)?;
        let name = ship(r.read_string())?;
        let rows = ship(read_list::<TableDeltaRow>(r))?;
        Ok(TableDelta { name, rows })
    }
}

/// A public key with a weight, of which the key is kept.
pub struct WeightedKey;

impl Codec for WeightedKey {
    type Item = String;

    type Error = AntelopeError;

    open spec fn get(c: Cursor) -> (Seq<char>, Cursor) {
        let (key, c1) = keys::get_public_key(c);
        let (_, c2) = wire::get_u16(c1);
        (key, c2)
    }

    proof fn shrinks(c: Cursor) {
        broadcast use wire::group_shrinks;
        broadcast use keys::lemma_public_key_shrinks;

    }

    proof fn extends(c: Cursor, extra: Seq<u8>) {
        broadcast use wire::group_extends;
        broadcast use keys::lemma_public_key_extends;

    }

    fn take(r: &mut ByteReader) -> Result<String, AntelopeError> {
        let key = keys::read_public_key(r)?;
        // weight
        r.read_u16()?;
        Ok(key)
    }
}

/// A permission as text: `actor@permission`.
pub open spec fn level_text(actor: Name, permission: Name) -> Seq<char> {
    name::name_text(actor.0) + seq!['@'] + name::name_text(permission.0)
}

/// A permission with a weight, of which the permission is kept as text.
pub struct WeightedAccount;

impl Codec for WeightedAccount {
    type Item = String;

    type Error = AntelopeError;

    open spec fn get(c: Cursor) -> (Seq<char>, Cursor) {
        let (actor, c1) = wire::get_name(c);
        let (permission, c2) = wire::get_name(c1);
        let (_, c3) = wire::get_u16(c2);
        (level_text(actor, permission), c3)
    }

    proof fn shrinks(c: Cursor) {
        broadcast use wire::group_shrinks;

    }

    proof fn extends(c: Cursor, extra: Seq<u8>) {
        broadcast use wire::group_extends;

    }

    fn take(r: &mut ByteReader) -> Result<String, AntelopeError> {
        let actor = r.read_name()?;
        let permission = r.read_name()?;
        // weight
        r.read_u16()?;
        let mut out: String = actor.to_string();
        out.push('@');
        out.append(permission.to_string().as_str());
        assert(out@ == level_text(actor, permission));
        Ok(out)
    }
}

/// A delay with a weight, which is not kept.
pub struct WeightedWait;

impl Codec for WeightedWait {
    type Item = ();

    type Error = AntelopeError;

    open spec fn get(c: Cursor) -> ((), Cursor) {
        let (_, c1) = wire::get_u32(c);
        let (_, c2) = wire::get_u16(c1);
        ((), c2)
    }

    proof fn shrinks(c: Cursor) {
        broadcast use wire::group_shrinks;

    }

    proof fn extends(c: Cursor, extra: Seq<u8>) {
        broadcast use wire::group_extends;

    }

    fn take(r: &mut ByteReader) -> Result<(), AntelopeError> {
        r.read_u32()?;
        r.read_u16()?;
        Ok(())
    }
}

/// A contract row.
pub open spec fn get_contract_row(c: Cursor) -> (ContractRowModel, Cursor) {
    let (index, c0) = wire::get_varuint32(c);
    let c1 = c0.checked(index == 0, wire::unsupported("contract_row"@, index));
    let (code, c2) = wire::get_name(c1);
    let (scope, c3) = wire::get_name(c2);
    let (table, c4) = wire::get_name(c3);
    let (primary_key, c5) = wire::get_u64(c4);
    let (payer, c6) = wire::get_name(c5);
    let (value, c7) = wire::get_blob(c6);
    (
        ContractRowModel {
            code,
            scope,
            table,
            primary_key,
            payer,
            value,
        },
        c7,
    )
}

/// An account row.
pub open spec fn get_account_row(c: Cursor) -> (AccountRowModel, Cursor) {
    let (index, c0) = wire::get_varuint32(c);
    let c1 = c0.checked(index == 0, wire::unsupported("account"@, index));
    let (name, c2) = wire::get_name(c1);
    let (creation_date_slot, c3) = wire::get_u32(c2);
    let (abi, c4) = wire::get_blob(c3);
    (
        AccountRowModel {
            name,
            creation_date_slot,
            abi,
        },
        c4,
    )
}

/// A permission row, with the authority's keys and accounts.
pub open spec fn get_permission_row(c: Cursor) -> (PermissionRowModel, Cursor) {
    let (index, c0) = wire::get_varuint32(c);
    let c1 = c0.checked(index == 0, wire::unsupported("permission"@, index));
    let (owner, c2) = wire::get_name(c1);
    let (name, c3) = wire::get_name(c2);
    let (parent, c4) = wire::get_name(c3);
    let (last_updated, c5) = wire::get_i64(c4);
    let (threshold, c6) = wire::get_u32(c5);
    let (keys, c7) = codec::list_of::<WeightedKey>(c6);
    let (accounts, c8) = codec::list_of::<WeightedAccount>(c7);
    let (_, c9) = codec::list_of::<WeightedWait>(c8);
    (
        PermissionRowModel {
            owner,
            name,
            parent,
            last_updated,
            threshold,
            keys,
            accounts,
        },
        c9,
    )
}

// ---------------------------------------------------------------------------
// Decoding
// ---------------------------------------------------------------------------

impl TableDelta {
    /// Decode the `deltas` payload of a `get_blocks_result`.
    pub fn decode_deltas(data: &[u8]) -> (res: Result<Vec<TableDelta>, ShipError>)
        ensures
            crate::antelope::reader::decodes(codec::list_of::<TableDelta>(wire::at(data@)), res),
    {
        let mut r = ByteReader::new(data);
        read_list::<TableDelta>(&mut r)
    }
}

impl ContractRow {
    pub fn decode(data: &[u8]) -> (res: Result<Self, ShipError>)
        ensures
            crate::antelope::reader::decodes(get_contract_row(wire::at(data@)), res),
    {
        let mut reader = ByteReader::new(data);
        let r = &mut reader;
        let index: u32 = ship(r.read_varuint32())?;
        expect_version("contract_row", index, 0)?;
        let code = ship(r.read_name())?;
        let scope = ship(r.read_name())?;
        let table = ship(r.read_name())?;
        let primary_key: u64 = ship(r.read_u64())?;
        let payer = ship(r.read_name())?;
        let value = owned(ship(r.read_bytes())?);
        Ok(ContractRow {
            code,
            scope,
            table,
            primary_key,
            payer,
            value,
        })
    }
}

impl AccountRow {
    pub fn decode(data: &[u8]) -> (res: Result<Self, ShipError>)
        ensures
            crate::antelope::reader::decodes(get_account_row(wire::at(data@)), res),
    {
        let mut reader = ByteReader::new(data);
        let r = &mut reader;
        let index: u32 = ship(r.read_varuint32())?;
        expect_version("account", index, 0)?;
        let name = ship(r.read_name())?;
        let creation_date_slot: u32 = ship(r.read_u32())?;
        let abi = owned(ship(r.read_bytes())?);
        Ok(AccountRow {
            name,
            creation_date_slot,
            abi,
        })
    }
}

impl PermissionRow {
    pub fn decode(data: &[u8]) -> (res: Result<Self, ShipError>)
        ensures
            crate::antelope::reader::decodes(get_permission_row(wire::at(data@)), res),
    {
        let mut reader = ByteReader::new(data);
        let r = &mut reader;
        let index: u32 = ship(r.read_varuint32())?;
        expect_version("permission", index, 0)?;
        let owner = ship(r.read_name())?;
        let name = ship(r.read_name())?;
        let parent = ship(r.read_name())?;
        let last_updated: i64 = ship(r.read_i64())?;
        let threshold: u32 = ship(r.read_u32())?;
        let keys = ship(read_list::<WeightedKey>(r))?;
        let accounts = ship(read_list::<WeightedAccount>(r))?;
        // waits
        ship(read_list::<WeightedWait>(r))?;
        Ok(PermissionRow {
            owner,
            name,
            parent,
            last_updated,
            threshold,
            keys,
            accounts,
        })
    }
}

} // verus!
