//! Types that are made of others, and how their values are packed: what is
//! decoded of a whole follows from what is decoded of its parts.

use crate::antelope::abi;
use crate::antelope::abi::{AbiModel, ActionDefModel, FieldDefModel, TableDefModel};
use crate::antelope::decoder;
use crate::antelope::name;
use crate::antelope::name::Name;
use crate::antelope::packing;
use crate::antelope::plain;
use crate::antelope::wire;
use crate::antelope::wire::Fault;
use crate::json;
use crate::json::{FieldsModel, JsonModel};
use crate::text;
use vstd::prelude::*;

verus! {

/// Whether bytes are decoded as a value of a type, whatever follows them.
pub open spec fn decodes_as(
    abi: AbiModel,
    t: Seq<char>,
    depth: nat,
    b: Seq<u8>,
    v: JsonModel,
) -> bool {
    forall|rest: Seq<u8>| #[trigger]
        decoder::get_value(abi, t, depth, wire::at(b + rest)) == (v, wire::at(rest))
}

/// Whether a type is written without a suffix.
pub open spec fn is_bare(t: Seq<char>) -> bool {
    t.len() == 0 || (t.last() != '$' && t.last() != '?' && t.last() != ']')
}

proof fn lemma_suffixes(t: Seq<char>)
    ensures
        is_bare(t) ==> text::without_suffix(t, "$"@) is None && text::without_suffix(t, "?"@)
            is None && text::without_suffix(t, "[]"@) is None,
        text::without_suffix(t.push('$'), "$"@) == Some(t),
        text::without_suffix(t.push('?'), "$"@) is None,
        text::without_suffix(t.push('?'), "?"@) == Some(t),
        text::without_suffix(t + seq!['[', ']'], "$"@) is None,
        text::without_suffix(t + seq!['[', ']'], "?"@) is None,
        text::without_suffix(t + seq!['[', ']'], "[]"@) == Some(t),
{
    reveal_strlit("$");
    reveal_strlit("?");
    reveal_strlit("[]");
    let e = t.push('$');
    let o = t.push('?');
    let l = t + seq!['[', ']'];
    assert(e.skip(t.len() as int) == "$"@);
    assert(e.take(t.len() as int) == t);
    assert(o.skip(t.len() as int) == "?"@);
    assert(o.take(t.len() as int) == t);
    assert(l.skip(t.len() as int) == "[]"@);
    assert(l.take(t.len() as int) == t);
    assert(o.skip(o.len() - 1)[0] == '?');
    assert(l.skip(l.len() - 1)[0] == ']');
    if is_bare(t) && t.len() > 0 {
        assert(t.skip(t.len() - 1)[0] == t.last());
        if t.len() > 1 {
            assert(t.skip(t.len() - 2)[1] == t.last());
        }
    }
}

proof fn lemma_bare(abi: AbiModel, t: Seq<char>, depth: nat, data: Seq<u8>)
    requires
        is_bare(t),
        depth <= 64,
    ensures
        decoder::get_value(abi, t, depth, wire::at(data)) == decoder::get_named(
            abi,
            t,
            depth,
            wire::at(data),
        ),
{
    lemma_suffixes(t);
}

// ---------------------------------------------------------------------------
// Built-in types and suffixes
// ---------------------------------------------------------------------------

/// A value of a built-in type is decoded as itself, whatever the ABI says.
pub proof fn law_plain_values_decode(abi: AbiModel, value: plain::Plain, depth: nat)
    requires
        plain::is_proper(value),
        depth <= 64,
    ensures
        decodes_as(abi, plain::type_of(value), depth, plain::packed(value), plain::shown(value)),
{
    let t = plain::type_of(value);
    plain::lemma_plain_names_end(t);
    lemma_suffixes(t);
    assert forall|rest: Seq<u8>| #[trigger]
        decoder::get_value(abi, t, depth, wire::at(plain::packed(value) + rest)) == (
        plain::shown(value),
        wire::at(rest),
    ) by {
        lemma_bare(abi, t, depth, plain::packed(value) + rest);
        plain::law_plain_reads_back(value, rest);
    }
}

/// An optional value is what a byte before it says: null if the byte is zero,
/// else the value.
pub proof fn law_optional_values_decode(
    abi: AbiModel,
    t: Seq<char>,
    depth: nat,
    flag: u8,
    b: Seq<u8>,
    v: JsonModel,
)
    requires
        decodes_as(abi, t, depth + 1, b, v),
        flag != 0,
        depth <= 64,
    ensures
        decodes_as(abi, t.push('?'), depth, seq![flag] + b, v),
        decodes_as(abi, t.push('?'), depth, seq![0u8], JsonModel::Null),
{
    lemma_suffixes(t);
    let o = t.push('?');
    assert forall|rest: Seq<u8>| #[trigger]
        decoder::get_value(abi, o, depth, wire::at(seq![flag] + b + rest)) == (
        v,
        wire::at(rest),
    ) by {
        assert(seq![flag] + b + rest == seq![flag] + (b + rest));
        packing::law_byte_is_truth(flag, b + rest);
        assert(decoder::get_value(abi, t, depth + 1, wire::at(b + rest)) == (v, wire::at(rest)));
    }
    assert forall|rest: Seq<u8>| #[trigger]
        decoder::get_value(abi, o, depth, wire::at(seq![0u8] + rest)) == (
        JsonModel::Null,
        wire::at(rest),
    ) by {
        packing::law_byte_is_truth(0, rest);
    }
}

/// A binary extension is null where the buffer ends, else the value.
pub proof fn law_extensions_decode(
    abi: AbiModel,
    t: Seq<char>,
    depth: nat,
    b: Seq<u8>,
    v: JsonModel,
)
    requires
        decodes_as(abi, t, depth + 1, b, v),
        b.len() > 0,
        depth <= 64,
    ensures
        decodes_as(abi, t.push('$'), depth, b, v),
        decoder::get_value(abi, t.push('$'), depth, wire::at(seq![])) == (
            JsonModel::Null,
            wire::at(seq![]),
        ),
{
    lemma_suffixes(t);
    let e = t.push('$');
    assert forall|rest: Seq<u8>| #[trigger]
        decoder::get_value(abi, e, depth, wire::at(b + rest)) == (v, wire::at(rest)) by {
        assert(decoder::get_value(abi, t, depth + 1, wire::at(b + rest)) == (v, wire::at(rest)));
    }
}

/// A list is decoded item by item: every item, in its order, and nothing else.
pub proof fn law_lists_decode(
    abi: AbiModel,
    t: Seq<char>,
    depth: nat,
    pieces: Seq<Seq<u8>>,
    vs: Seq<JsonModel>,
)
    requires
        pieces.len() == vs.len(),
        vs.len() <= u32::MAX,
        forall|i: int|
            0 <= i < vs.len() ==> decodes_as(abi, t, depth + 1, #[trigger] pieces[i], vs[i]),
        depth <= 64,
    ensures
        decodes_as(
            abi,
            t + seq!['[', ']'],
            depth,
            packing::varuint_bytes(vs.len()) + packing::joined(pieces),
            JsonModel::Array(vs),
        ),
{
    lemma_suffixes(t);
    let l = t + seq!['[', ']'];
    let p = decoder::value_at(abi, t, depth + 1);
    assert forall|i: int| 0 <= i < vs.len() implies packing::reads_as(
        p,
        #[trigger] pieces[i],
        vs[i],
    ) by {
        assert(decodes_as(abi, t, depth + 1, pieces[i], vs[i]));
        assert forall|rest: Seq<u8>| #[trigger] p(wire::at(pieces[i] + rest)) == (
            vs[i],
            wire::at(rest),
        ) by {
            assert(decoder::get_value(abi, t, depth + 1, wire::at(pieces[i] + rest)) == (
                vs[i],
                wire::at(rest),
            ));
        }
    }
    let b = packing::varuint_bytes(vs.len()) + packing::joined(pieces);
    assert forall|rest: Seq<u8>| #[trigger]
        decoder::get_value(abi, l, depth, wire::at(b + rest)) == (
        JsonModel::Array(vs),
        wire::at(rest),
    ) by {
        packing::law_pieces_make_a_list(p, pieces, vs, rest);
    }
}

// ---------------------------------------------------------------------------
// Types that an ABI names
// ---------------------------------------------------------------------------

/// Whether a struct is the last one of its name, so that the name stands for
/// it.
pub open spec fn is_struct(abi: AbiModel, t: Seq<char>, k: int) -> bool {
    &&& is_bare(t) && !plain::is_plain_name(t)
    &&& 0 <= k < abi.structs.len() && abi.structs[k].name == t
    &&& forall|j: int| k < j < abi.structs.len() ==> (#[trigger] abi.structs[j]).name != t
}

/// The same of a variant; structs go before variants.
pub open spec fn is_variant(abi: AbiModel, t: Seq<char>, k: int) -> bool {
    &&& is_bare(t) && !plain::is_plain_name(t)
    &&& forall|j: int| 0 <= j < abi.structs.len() ==> (#[trigger] abi.structs[j]).name != t
    &&& 0 <= k < abi.variants.len() && abi.variants[k].name == t
    &&& forall|j: int| k < j < abi.variants.len() ==> (#[trigger] abi.variants[j]).name != t
}

/// The same of another name for a type; structs and variants go before it.
pub open spec fn is_alias(abi: AbiModel, t: Seq<char>, k: int) -> bool {
    &&& is_bare(t) && !plain::is_plain_name(t)
    &&& forall|j: int| 0 <= j < abi.structs.len() ==> (#[trigger] abi.structs[j]).name != t
    &&& forall|j: int| 0 <= j < abi.variants.len() ==> (#[trigger] abi.variants[j]).name != t
    &&& 0 <= k < abi.types.len() && abi.types[k].new_type_name == t
    &&& forall|j: int|
        k < j < abi.types.len() ==> (#[trigger] abi.types[j]).new_type_name != t
}

/// Whether a name stands for nothing.
pub open spec fn is_unknown(abi: AbiModel, t: Seq<char>) -> bool {
    &&& is_bare(t) && !plain::is_plain_name(t)
    &&& forall|j: int| 0 <= j < abi.structs.len() ==> (#[trigger] abi.structs[j]).name != t
    &&& forall|j: int| 0 <= j < abi.variants.len() ==> (#[trigger] abi.variants[j]).name != t
    &&& forall|j: int| 0 <= j < abi.types.len() ==> (#[trigger] abi.types[j]).new_type_name != t
}

proof fn lemma_last_struct(abi: AbiModel, t: Seq<char>, n: nat)
    requires
        n <= abi.structs.len(),
    ensures
        match decoder::struct_named(abi.structs, t, n) {
            Some(k) => k < n && abi.structs[k as int].name == t && forall|j: int|
                k < j < n ==> (#[trigger] abi.structs[j]).name != t,
            None => forall|j: int| 0 <= j < n ==> (#[trigger] abi.structs[j]).name != t,
        },
    decreases n,
{
    if n > 0 {
        lemma_last_struct(abi, t, (n - 1) as nat);
    }
}

proof fn lemma_last_variant(abi: AbiModel, t: Seq<char>, n: nat)
    requires
        n <= abi.variants.len(),
    ensures
        match decoder::variant_named(abi.variants, t, n) {
            Some(k) => k < n && abi.variants[k as int].name == t && forall|j: int|
                k < j < n ==> (#[trigger] abi.variants[j]).name != t,
            None => forall|j: int| 0 <= j < n ==> (#[trigger] abi.variants[j]).name != t,
        },
    decreases n,
{
    if n > 0 {
        lemma_last_variant(abi, t, (n - 1) as nat);
    }
}

proof fn lemma_last_alias(abi: AbiModel, t: Seq<char>, n: nat)
    requires
        n <= abi.types.len(),
    ensures
        match decoder::alias_named(abi.types, t, n) {
            Some(k) => k < n && abi.types[k as int].new_type_name == t && forall|j: int|
                k < j < n ==> (#[trigger] abi.types[j]).new_type_name != t,
            None => forall|j: int| 0 <= j < n ==> (#[trigger] abi.types[j]).new_type_name != t,
        },
    decreases n,
{
    if n > 0 {
        lemma_last_alias(abi, t, (n - 1) as nat);
    }
}

proof fn lemma_named(abi: AbiModel, t: Seq<char>)
    ensures
        forall|k: int| #[trigger]
            is_struct(abi, t, k) ==> decoder::struct_named(abi.structs, t, abi.structs.len())
                == Some(k as nat),
        forall|k: int| #[trigger]
            is_variant(abi, t, k) ==> decoder::struct_named(abi.structs, t, abi.structs.len())
                is None && decoder::variant_named(abi.variants, t, abi.variants.len()) == Some(
                k as nat,
            ),
        forall|k: int| #[trigger]
            is_alias(abi, t, k) ==> decoder::struct_named(abi.structs, t, abi.structs.len())
                is None && decoder::variant_named(abi.variants, t, abi.variants.len()) is None
                && decoder::alias_named(abi.types, t, abi.types.len()) == Some(k as nat),
        is_unknown(abi, t) ==> decoder::struct_named(abi.structs, t, abi.structs.len()) is None
            && decoder::variant_named(abi.variants, t, abi.variants.len()) is None
            && decoder::alias_named(abi.types, t, abi.types.len()) is None,
{
    lemma_last_struct(abi, t, abi.structs.len());
    lemma_last_variant(abi, t, abi.variants.len());
    lemma_last_alias(abi, t, abi.types.len());
}

/// Another name for a type is decoded as that type.
pub proof fn law_aliases_decode(
    abi: AbiModel,
    t: Seq<char>,
    k: int,
    depth: nat,
    b: Seq<u8>,
    v: JsonModel,
)
    requires
        is_alias(abi, t, k),
        decodes_as(abi, abi.types[k].type_, depth + 1, b, v),
        depth <= 64,
    ensures
        decodes_as(abi, t, depth, b, v),
{
    lemma_suffixes(t);
    lemma_named(abi, t);
    assert forall|rest: Seq<u8>| #[trigger]
        decoder::get_value(abi, t, depth, wire::at(b + rest)) == (v, wire::at(rest)) by {
        lemma_bare(abi, t, depth, b + rest);
        plain::law_plain_names(t, wire::at(b + rest));
        assert(decoder::get_value(abi, abi.types[k].type_, depth + 1, wire::at(b + rest)) == (
            v,
            wire::at(rest),
        ));
    }
}

/// A variant is decoded as the name of the type that its number says, and the
/// value.
pub proof fn law_variants_decode(
    abi: AbiModel,
    t: Seq<char>,
    k: int,
    depth: nat,
    index: u32,
    b: Seq<u8>,
    v: JsonModel,
)
    requires
        is_variant(abi, t, k),
        index < abi.variants[k].types.len(),
        decodes_as(abi, abi.variants[k].types[index as int], depth + 1, b, v),
        depth <= 64,
    ensures
        decodes_as(
            abi,
            t,
            depth,
            packing::varuint_bytes(index as nat) + b,
            JsonModel::Array(
                seq![JsonModel::Str(abi.variants[k].types[index as int]), v],
            ),
        ),
{
    lemma_suffixes(t);
    lemma_named(abi, t);
    let head = packing::varuint_bytes(index as nat);
    let chosen = abi.variants[k].types[index as int];
    assert forall|rest: Seq<u8>| #[trigger]
        decoder::get_value(abi, t, depth, wire::at(head + b + rest)) == (
        JsonModel::Array(seq![JsonModel::Str(chosen), v]),
        wire::at(rest),
    ) by {
        lemma_bare(abi, t, depth, head + b + rest);
        plain::law_plain_names(t, wire::at(head + b + rest));
        assert(head + b + rest == head + (b + rest));
        packing::law_varuint_reads_back(index, b + rest);
        assert(decoder::get_value(abi, chosen, depth + 1, wire::at(b + rest)) == (
            v,
            wire::at(rest),
        ));
    }
}

/// A variant whose number stands for no type cannot be decoded.
pub proof fn law_other_variants_fail(
    abi: AbiModel,
    t: Seq<char>,
    k: int,
    depth: nat,
    index: u32,
    rest: Seq<u8>,
)
    requires
        is_variant(abi, t, k),
        index >= abi.variants[k].types.len(),
        depth <= 64,
    ensures
        decoder::get_value(
            abi,
            t,
            depth,
            wire::at(packing::varuint_bytes(index as nat) + rest),
        ).1.fault == Some(Fault::BadVariantIndex { variant: t, index }),
{
    lemma_suffixes(t);
    lemma_named(abi, t);
    let c = wire::at(packing::varuint_bytes(index as nat) + rest);
    lemma_bare(abi, t, depth, packing::varuint_bytes(index as nat) + rest);
    plain::law_plain_names(t, c);
    packing::law_varuint_reads_back(index, rest);
}

/// A type that is not known cannot be decoded.
pub proof fn law_unknown_types_fail(abi: AbiModel, t: Seq<char>, depth: nat, data: Seq<u8>)
    requires
        is_unknown(abi, t),
        depth <= 64,
    ensures
        decoder::get_value(abi, t, depth, wire::at(data)).1.fault == Some(Fault::UnknownType(t)),
{
    lemma_suffixes(t);
    lemma_named(abi, t);
    lemma_bare(abi, t, depth, data);
    plain::law_plain_names(t, wire::at(data));
}

/// Types that are nested too deep cannot be decoded.
pub proof fn law_deep_types_fail(abi: AbiModel, t: Seq<char>, depth: nat, data: Seq<u8>)
    requires
        depth > 64,
    ensures
        !decoder::get_value(abi, t, depth, wire::at(data)).1.sound(),
{
}

// ---------------------------------------------------------------------------
// Structs
// ---------------------------------------------------------------------------

/// Fields with their names.
pub open spec fn labelled(defs: Seq<FieldDefModel>, vs: Seq<JsonModel>) -> FieldsModel {
    Seq::new(vs.len(), |i: int| (defs[i].name, vs[i]))
}

/// Whether no name occurs twice among fields and the fields that are already
/// there.
pub open spec fn all_new(before: FieldsModel, defs: Seq<FieldDefModel>) -> bool {
    &&& forall|i: int, j: int|
        0 <= i < j < defs.len() ==> (#[trigger] defs[i]).name != (#[trigger] defs[j]).name
    &&& forall|i: int, j: int|
        0 <= i < before.len() && 0 <= j < defs.len() ==> (#[trigger] before[i]).0 != (
        #[trigger] defs[j]).name
}

proof fn lemma_absent(fields: FieldsModel, key: Seq<char>, from: nat)
    requires
        from <= fields.len(),
        forall|i: int| from <= i < fields.len() ==> (#[trigger] fields[i]).0 != key,
    ensures
        json::field_from(fields, key, from) == fields.len(),
    decreases fields.len() - from,
{
    if from < fields.len() {
        lemma_absent(fields, key, from + 1);
    }
}

proof fn lemma_fields(
    abi: AbiModel,
    defs: Seq<FieldDefModel>,
    depth: nat,
    before: FieldsModel,
    pieces: Seq<Seq<u8>>,
    vs: Seq<JsonModel>,
    n: nat,
    rest: Seq<u8>,
)
    requires
        n <= defs.len(),
        pieces.len() == vs.len() == defs.len(),
        all_new(before, defs),
        forall|i: int|
            0 <= i < vs.len() ==> decodes_as(
                abi,
                defs[i].type_,
                depth + 1,
                #[trigger] pieces[i],
                vs[i],
            ),
        depth <= 64,
    ensures
        decoder::get_fields(
            abi,
            defs,
            n,
            depth,
            before,
            wire::at(packing::joined(pieces.take(n as int)) + rest),
        ) == (before + labelled(defs, vs.take(n as int)), wire::at(rest)),
    decreases n,
{
    if n == 0 {
        assert(packing::joined(pieces.take(0)) + rest == rest);
        assert(before + labelled(defs, vs.take(0)) == before);
    } else {
        let m = (n - 1) as nat;
        let piece = pieces[m as int];
        assert(pieces.take(n as int).drop_last() == pieces.take(m as int));
        assert(packing::joined(pieces.take(n as int)) + rest == packing::joined(
            pieces.take(m as int),
        ) + (piece + rest));
        lemma_fields(abi, defs, depth, before, pieces, vs, m, piece + rest);
        assert(decodes_as(abi, defs[m as int].type_, depth + 1, piece, vs[m as int]));
        assert(decoder::get_value(abi, defs[m as int].type_, depth + 1, wire::at(piece + rest))
            == (vs[m as int], wire::at(rest)));
        let so_far = before + labelled(defs, vs.take(m as int));
        assert forall|i: int| 0 <= i < so_far.len() implies (#[trigger] so_far[i]).0
            != defs[m as int].name by {
            if i < before.len() {
                assert(so_far[i] == before[i]);
            } else {
                assert(so_far[i].0 == defs[i - before.len()].name);
            }
        }
        lemma_absent(so_far, defs[m as int].name, 0);
        assert(so_far.push((defs[m as int].name, vs[m as int])) == before + labelled(
            defs,
            vs.take(n as int),
        ));
    }
}

/// A struct is decoded field by field: every field under its name, in the
/// order of the definition, and nothing else.
#[verifier::rlimit(40)]
pub proof fn law_structs_decode(
    abi: AbiModel,
    t: Seq<char>,
    k: int,
    depth: nat,
    pieces: Seq<Seq<u8>>,
    vs: Seq<JsonModel>,
)
    requires
        is_struct(abi, t, k),
        abi.structs[k].base.len() == 0,
        pieces.len() == vs.len() == abi.structs[k].fields.len(),
        all_new(seq![], abi.structs[k].fields),
        forall|i: int|
            0 <= i < vs.len() ==> decodes_as(
                abi,
                abi.structs[k].fields[i].type_,
                depth + 1,
                #[trigger] pieces[i],
                vs[i],
            ),
        depth <= 64,
    ensures
        decodes_as(
            abi,
            t,
            depth,
            packing::joined(pieces),
            JsonModel::Object(labelled(abi.structs[k].fields, vs)),
        ),
{
    lemma_suffixes(t);
    lemma_named(abi, t);
    let defs = abi.structs[k].fields;
    let b = packing::joined(pieces);
    assert forall|rest: Seq<u8>| #[trigger]
        decoder::get_value(abi, t, depth, wire::at(b + rest)) == (
        JsonModel::Object(labelled(defs, vs)),
        wire::at(rest),
    ) by {
        lemma_bare(abi, t, depth, b + rest);
        plain::law_plain_names(t, wire::at(b + rest));
        assert(decoder::base_of(abi, abi.structs[k], depth, wire::at(b + rest)).1 == wire::at(
            b + rest,
        ));
        lemma_fields(abi, defs, depth, seq![], pieces, vs, vs.len(), rest);
        assert(pieces.take(vs.len() as int) == pieces);
        assert(vs.take(vs.len() as int) == vs);
        assert(Seq::<(Seq<char>, JsonModel)>::empty() + labelled(defs, vs) == labelled(defs, vs));
    }
}

/// A struct with a base is decoded as the fields of the base, then its own.
#[verifier::rlimit(40)]
pub proof fn law_derived_structs_decode(
    abi: AbiModel,
    t: Seq<char>,
    k: int,
    depth: nat,
    base_piece: Seq<u8>,
    base: FieldsModel,
    pieces: Seq<Seq<u8>>,
    vs: Seq<JsonModel>,
)
    requires
        is_struct(abi, t, k),
        abi.structs[k].base.len() > 0,
        decodes_as(abi, abi.structs[k].base, depth + 1, base_piece, JsonModel::Object(base)),
        pieces.len() == vs.len() == abi.structs[k].fields.len(),
        all_new(base, abi.structs[k].fields),
        forall|i: int|
            0 <= i < vs.len() ==> decodes_as(
                abi,
                abi.structs[k].fields[i].type_,
                depth + 1,
                #[trigger] pieces[i],
                vs[i],
            ),
        depth <= 64,
    ensures
        decodes_as(
            abi,
            t,
            depth,
            base_piece + packing::joined(pieces),
            JsonModel::Object(base + labelled(abi.structs[k].fields, vs)),
        ),
{
    lemma_suffixes(t);
    lemma_named(abi, t);
    let defs = abi.structs[k].fields;
    let own = packing::joined(pieces);
    assert forall|rest: Seq<u8>| #[trigger]
        decoder::get_value(abi, t, depth, wire::at(base_piece + own + rest)) == (
        JsonModel::Object(base + labelled(defs, vs)),
        wire::at(rest),
    ) by {
        lemma_bare(abi, t, depth, base_piece + own + rest);
        plain::law_plain_names(t, wire::at(base_piece + own + rest));
        assert(base_piece + own + rest == base_piece + (own + rest));
        assert(decoder::get_value(
            abi,
            abi.structs[k].base,
            depth + 1,
            wire::at(base_piece + (own + rest)),
        ) == (JsonModel::Object(base), wire::at(own + rest)));
        assert(decoder::base_of(
            abi,
            abi.structs[k],
            depth,
            wire::at(base_piece + (own + rest)),
        ) == (JsonModel::Object(base), wire::at(own + rest)));
        lemma_fields(abi, defs, depth, base, pieces, vs, vs.len(), rest);
        assert(pieces.take(vs.len() as int) == pieces);
        assert(vs.take(vs.len() as int) == vs);
    }
}

// ---------------------------------------------------------------------------
// Actions and tables
// ---------------------------------------------------------------------------

proof fn lemma_first_action(actions: Seq<ActionDefModel>, name: Name, from: nat, k: int)
    requires
        from <= k < actions.len(),
        actions[k].name == name,
        forall|j: int| from <= j < k ==> (#[trigger] actions[j]).name != name,
    ensures
        abi::action_from(actions, name, from) == k,
    decreases k - from,
{
    if from < k {
        lemma_first_action(actions, name, from + 1, k);
    }
}

proof fn lemma_first_table(tables: Seq<TableDefModel>, name: Name, from: nat, k: int)
    requires
        from <= k < tables.len(),
        tables[k].name == name,
        forall|j: int| from <= j < k ==> (#[trigger] tables[j]).name != name,
    ensures
        abi::table_from(tables, name, from) == k,
    decreases k - from,
{
    if from < k {
        lemma_first_table(tables, name, from + 1, k);
    }
}

/// The data of an action is decoded as the type that the ABI gives the first
/// action of that name.
pub proof fn law_actions_decode(
    abi: AbiModel,
    action: Name,
    k: int,
    data: Seq<u8>,
    v: JsonModel,
)
    requires
        0 <= k < abi.actions.len(),
        abi.actions[k].name == action,
        forall|j: int| 0 <= j < k ==> (#[trigger] abi.actions[j]).name != action,
        decodes_as(abi, abi.actions[k].type_, 0, data, v),
    ensures
        decoder::action_value(abi, action, data) == (v, wire::at(seq![])),
{
    lemma_first_action(abi.actions, action, 0, k);
    assert(data + Seq::<u8>::empty() == data);
    assert(decoder::get_value(abi, abi.actions[k].type_, 0, wire::at(data + Seq::<u8>::empty()))
        == (v, wire::at(seq![])));
}

/// A table row is decoded as the type that the ABI gives the first table of
/// that name.
pub proof fn law_rows_decode(abi: AbiModel, table: Name, k: int, data: Seq<u8>, v: JsonModel)
    requires
        0 <= k < abi.tables.len(),
        abi.tables[k].name == table,
        forall|j: int| 0 <= j < k ==> (#[trigger] abi.tables[j]).name != table,
        decodes_as(abi, abi.tables[k].type_, 0, data, v),
    ensures
        decoder::row_value(abi, table, data) == (v, wire::at(seq![])),
{
    lemma_first_table(abi.tables, table, 0, k);
    assert(data + Seq::<u8>::empty() == data);
    assert(decoder::get_value(abi, abi.tables[k].type_, 0, wire::at(data + Seq::<u8>::empty()))
        == (v, wire::at(seq![])));
}

proof fn lemma_no_action(actions: Seq<ActionDefModel>, name: Name, from: nat)
    requires
        from <= actions.len(),
        forall|j: int| from <= j < actions.len() ==> (#[trigger] actions[j]).name != name,
    ensures
        abi::action_from(actions, name, from) == actions.len(),
    decreases actions.len() - from,
{
    if from < actions.len() {
        lemma_no_action(actions, name, from + 1);
    }
}

proof fn lemma_no_table(tables: Seq<TableDefModel>, name: Name, from: nat)
    requires
        from <= tables.len(),
        forall|j: int| from <= j < tables.len() ==> (#[trigger] tables[j]).name != name,
    ensures
        abi::table_from(tables, name, from) == tables.len(),
    decreases tables.len() - from,
{
    if from < tables.len() {
        lemma_no_table(tables, name, from + 1);
    }
}

/// The data of an action or a row that the ABI does not know cannot be decoded.
pub proof fn law_unknown_names_fail(abi: AbiModel, name: Name, data: Seq<u8>)
    ensures
        (forall|j: int| 0 <= j < abi.actions.len() ==> (#[trigger] abi.actions[j]).name != name)
            ==> !decoder::action_value(abi, name, data).1.sound(),
        (forall|j: int| 0 <= j < abi.tables.len() ==> (#[trigger] abi.tables[j]).name != name)
            ==> !decoder::row_value(abi, name, data).1.sound(),
{
    if forall|j: int| 0 <= j < abi.actions.len() ==> (#[trigger] abi.actions[j]).name != name {
        lemma_no_action(abi.actions, name, 0);
    }
    if forall|j: int| 0 <= j < abi.tables.len() ==> (#[trigger] abi.tables[j]).name != name {
        lemma_no_table(abi.tables, name, 0);
    }
}

} // verus!
