//! Bytes behind a value: they do not change what is decoded.

use crate::antelope::abi::{AbiModel, FieldDefModel};
use crate::antelope::builtin;
use crate::antelope::decoder;
use crate::antelope::keys;
use crate::antelope::wire;
use crate::antelope::wire::Cursor;
use crate::json::FieldsModel;
use crate::text;
use vstd::prelude::*;

verus! {

broadcast use wire::group_latch;

/// Whether an extension is absent in a value: the buffer ends where one would
/// start.
pub open spec fn meets_end(abi: AbiModel, t: Seq<char>, depth: nat, c: Cursor) -> bool
    decreases (decoder::MAX_DEPTH + 1) - depth,
{
    let extension = text::without_suffix(t, "$"@);
    let optional = text::without_suffix(t, "?"@);
    let list = text::without_suffix(t, "[]"@);
    let found_struct = decoder::struct_named(abi.structs, t, abi.structs.len());
    let found_variant = decoder::variant_named(abi.variants, t, abi.variants.len());
    let found_alias = decoder::alias_named(abi.types, t, abi.types.len());
    if !c.sound() || depth > decoder::MAX_DEPTH {
        false
    } else if extension is Some {
        c.rest.len() == 0 || meets_end(abi, extension->0, depth + 1, c)
    } else if optional is Some {
        let (present, c1) = wire::get_bool(c);
        c1.sound() && present && meets_end(abi, optional->0, depth + 1, c1)
    } else if list is Some {
        let (n, c1) = wire::get_varuint32(c);
        exists|i: nat|
            i < n && meets_end(abi, list->0, depth + 1, #[trigger] item_place(
                abi,
                list->0,
                depth,
                i,
                c1,
            ))
    } else if builtin::get_builtin(t, c) is Some {
        false
    } else if found_struct is Some {
        let def = abi.structs[found_struct->0 as int];
        let base = decoder::base_of(abi, def, depth, c);
        ||| def.base.len() > 0 && meets_end(abi, def.base, depth + 1, c)
        ||| exists|i: nat|
            i < def.fields.len() && meets_end(
                abi,
                def.fields[i as int].type_,
                depth + 1,
                #[trigger] field_place(
                    abi,
                    def.fields,
                    i,
                    depth,
                    decoder::base_fields(base.0),
                    base.1,
                ),
            )
    } else if found_variant is Some {
        let def = abi.variants[found_variant->0 as int];
        let (index, c1) = wire::get_varuint32(c);
        index < def.types.len() && meets_end(abi, def.types[index as int], depth + 1, c1)
    } else if found_alias is Some {
        meets_end(abi, abi.types[found_alias->0 as int].type_, depth + 1, c)
    } else {
        false
    }
}

/// The place of an item of a list whose items start at a place.
pub open spec fn item_place(abi: AbiModel, t: Seq<char>, depth: nat, i: nat, c: Cursor) -> Cursor {
    wire::get_many(decoder::value_at(abi, t, depth + 1), i, c).1
}

/// The place of a field of a struct whose fields start at a place.
pub open spec fn field_place(
    abi: AbiModel,
    defs: Seq<FieldDefModel>,
    i: nat,
    depth: nat,
    before: FieldsModel,
    c: Cursor,
) -> Cursor {
    decoder::get_fields(abi, defs, i, depth, before, c).1
}

// ---------------------------------------------------------------------------
// Built-in types
// ---------------------------------------------------------------------------

/// The value of a built-in type does not depend on the bytes behind it.
proof fn lemma_builtin_extends(t: Seq<char>, c: Cursor, extra: Seq<u8>)
    ensures
        builtin::get_builtin(t, c) is Some <==> builtin::get_builtin(
            t,
            wire::extended(c, extra),
        ) is Some,
        builtin::get_builtin(t, c) matches Some((v, c1)) ==> c1.sound() ==> builtin::get_builtin(
            t,
            wire::extended(c, extra),
        ) == Some((v, wire::extended(c1, extra))),
{
    broadcast use wire::group_extends;
    broadcast use {keys::lemma_public_key_extends, keys::lemma_signature_extends};

    reveal(builtin::get_builtin);
}

// ---------------------------------------------------------------------------
// Values
// ---------------------------------------------------------------------------

proof fn lemma_many_extends(
    abi: AbiModel,
    t: Seq<char>,
    depth: nat,
    n: nat,
    c: Cursor,
    extra: Seq<u8>,
)
    requires
        depth <= decoder::MAX_DEPTH,
        c.sound(),
        wire::get_many(decoder::value_at(abi, t, depth + 1), n, c).1.sound(),
        forall|i: nat|
            i < n ==> !meets_end(abi, t, depth + 1, #[trigger] item_place(abi, t, depth, i, c)),
    ensures
        ({
            let p = decoder::value_at(abi, t, depth + 1);
            wire::get_many(p, n, wire::extended(c, extra)) == (
                wire::get_many(p, n, c).0,
                wire::extended(wire::get_many(p, n, c).1, extra),
            )
        }),
    decreases (decoder::MAX_DEPTH + 1) - depth, 0int, n,
{
    let p = decoder::value_at(abi, t, depth + 1);
    if n > 0 {
        lemma_many_extends(abi, t, depth, (n - 1) as nat, c, extra);
        let c1 = wire::get_many(p, (n - 1) as nat, c).1;
        assert(item_place(abi, t, depth, (n - 1) as nat, c) == c1);
        lemma_value_extends(abi, t, depth + 1, c1, extra);
        assert(p(c1) == decoder::get_value(abi, t, depth + 1, c1));
        assert(p(wire::extended(c1, extra)) == decoder::get_value(
            abi,
            t,
            depth + 1,
            wire::extended(c1, extra),
        ));
    }
}

proof fn lemma_fields_extend(
    abi: AbiModel,
    defs: Seq<FieldDefModel>,
    n: nat,
    depth: nat,
    before: FieldsModel,
    c: Cursor,
    extra: Seq<u8>,
)
    requires
        n <= defs.len(),
        depth <= decoder::MAX_DEPTH,
        c.sound(),
        decoder::get_fields(abi, defs, n, depth, before, c).1.sound(),
        forall|i: nat|
            i < n ==> !meets_end(
                abi,
                defs[i as int].type_,
                depth + 1,
                #[trigger] field_place(abi, defs, i, depth, before, c),
            ),
    ensures
        decoder::get_fields(abi, defs, n, depth, before, wire::extended(c, extra)) == (
            decoder::get_fields(abi, defs, n, depth, before, c).0,
            wire::extended(decoder::get_fields(abi, defs, n, depth, before, c).1, extra),
        ),
    decreases (decoder::MAX_DEPTH + 1) - depth, 0int, n,
{
    if n > 0 {
        lemma_fields_extend(abi, defs, (n - 1) as nat, depth, before, c, extra);
        let c1 = decoder::get_fields(abi, defs, (n - 1) as nat, depth, before, c).1;
        assert(field_place(abi, defs, (n - 1) as nat, depth, before, c) == c1);
        lemma_value_extends(abi, defs[n - 1].type_, depth + 1, c1, extra);
    }
}

proof fn lemma_value_extends(
    abi: AbiModel,
    t: Seq<char>,
    depth: nat,
    c: Cursor,
    extra: Seq<u8>,
)
    requires
        c.sound(),
        decoder::get_value(abi, t, depth, c).1.sound(),
        !meets_end(abi, t, depth, c),
    ensures
        decoder::get_value(abi, t, depth, wire::extended(c, extra)) == (
            decoder::get_value(abi, t, depth, c).0,
            wire::extended(decoder::get_value(abi, t, depth, c).1, extra),
        ),
    decreases (decoder::MAX_DEPTH + 1) - depth, 2int, 0nat,
{
    let extension = text::without_suffix(t, "$"@);
    let optional = text::without_suffix(t, "?"@);
    let list = text::without_suffix(t, "[]"@);
    assert(depth <= decoder::MAX_DEPTH);
    if extension is Some {
        lemma_value_extends(abi, extension->0, depth + 1, c, extra);
    } else if optional is Some {
        wire::lemma_u8_extends(c, extra);
        let (present, c1) = wire::get_bool(c);
        if present {
            lemma_value_extends(abi, optional->0, depth + 1, c1, extra);
        }
    } else if list is Some {
        wire::lemma_varuint32_extends(c, extra);
        let (n, c1) = wire::get_varuint32(c);
        lemma_many_extends(abi, list->0, depth, n as nat, c1, extra);
    } else {
        lemma_named_extends(abi, t, depth, c, extra);
        assert(decoder::get_value(abi, t, depth, c) == decoder::get_named(abi, t, depth, c));
        assert(decoder::get_value(abi, t, depth, wire::extended(c, extra)) == decoder::get_named(
            abi,
            t,
            depth,
            wire::extended(c, extra),
        ));
    }
}

proof fn lemma_named_extends(
    abi: AbiModel,
    t: Seq<char>,
    depth: nat,
    c: Cursor,
    extra: Seq<u8>,
)
    requires
        c.sound(),
        depth <= decoder::MAX_DEPTH,
        text::without_suffix(t, "$"@) is None,
        text::without_suffix(t, "?"@) is None,
        text::without_suffix(t, "[]"@) is None,
        decoder::get_named(abi, t, depth, c).1.sound(),
        !meets_end(abi, t, depth, c),
    ensures
        decoder::get_named(abi, t, depth, wire::extended(c, extra)) == (
            decoder::get_named(abi, t, depth, c).0,
            wire::extended(decoder::get_named(abi, t, depth, c).1, extra),
        ),
    decreases (decoder::MAX_DEPTH + 1) - depth, 1int, 0nat,
{
    lemma_builtin_extends(t, c, extra);
    let found_struct = decoder::struct_named(abi.structs, t, abi.structs.len());
    let found_variant = decoder::variant_named(abi.variants, t, abi.variants.len());
    let found_alias = decoder::alias_named(abi.types, t, abi.types.len());
    if builtin::get_builtin(t, c) is Some {
    } else if found_struct is Some {
        let def = abi.structs[found_struct->0 as int];
        let (base, c1) = decoder::base_of(abi, def, depth, c);
        let before = decoder::base_fields(base);
        if !c1.sound() {
            decoder::lemma_fields_stuck(abi, def.fields, 0, def.fields.len(), depth, before, c1);
        }
        if def.base.len() > 0 {
            lemma_value_extends(abi, def.base, depth + 1, c, extra);
        }
        lemma_fields_extend(abi, def.fields, def.fields.len(), depth, before, c1, extra);
    } else if found_variant is Some {
        wire::lemma_varuint32_extends(c, extra);
        let def = abi.variants[found_variant->0 as int];
        let (index, c1) = wire::get_varuint32(c);
        lemma_value_extends(abi, def.types[index as int], depth + 1, c1, extra);
    } else if found_alias is Some {
        lemma_value_extends(
            abi,
            abi.types[found_alias->0 as int].type_,
            depth + 1,
            c,
            extra,
        );
    }
}

/// Trailing bytes are tolerated: a buffer that can be decoded is decoded as
/// the same value with more bytes behind it, which are left unread. Only an
/// extension that is absent because the buffer ends is another matter: it
/// would be read from those bytes.
pub proof fn law_trailing_bytes_are_tolerated(
    abi: AbiModel,
    t: Seq<char>,
    data: Seq<u8>,
    extra: Seq<u8>,
)
    requires
        decoder::get_value(abi, t, 0, wire::at(data)).1.sound(),
        !meets_end(abi, t, 0, wire::at(data)),
    ensures
        decoder::get_value(abi, t, 0, wire::at(data + extra)) == (
            decoder::get_value(abi, t, 0, wire::at(data)).0,
            wire::extended(decoder::get_value(abi, t, 0, wire::at(data)).1, extra),
        ),
{
    lemma_value_extends(abi, t, 0, wire::at(data), extra);
    assert(wire::extended(wire::at(data), extra) == wire::at(data + extra));
}

} // verus!
