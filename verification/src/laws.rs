//! What holds of the grammar and of the transform, whatever the input.

use vstd::prelude::*;
use crate::model::{DeclModel, StmtModel, Text, TypeModel};
use crate::outcome::{Parsed, Problem};
use crate::stmt_grammar::stmt_at;
use crate::text::{CharClass, has_keyword, in_class, lemma_run_members, skip_space};
use crate::transformer::transformed;
use crate::transformer::dollar::{chain_root, chain_segments, ChainModel, is_dollar, linearized};
use crate::type_grammar::{plain_at, scalar_at, type_at};
use crate::unit_grammar::type_of;

verus! {

/// Whether `t` is one of the sixteen scalar types.
pub open spec fn is_scalar(t: TypeModel) -> bool {
    ||| t is Int8
    ||| t is Int16
    ||| t is Int32
    ||| t is Int64
    ||| t is Int128
    ||| t is UInt8
    ||| t is UInt16
    ||| t is UInt32
    ||| t is UInt64
    ||| t is UInt128
    ||| t is Float16
    ||| t is Float32
    ||| t is Float64
    ||| t is Float128
    ||| t is Bool
    ||| t is Void
}

/// The keyword that writes the scalar type `t`.
pub open spec fn scalar_keyword(t: TypeModel) -> Text {
    match t {
        TypeModel::Int8 => "i8"@,
        TypeModel::Int16 => "i16"@,
        TypeModel::Int32 => "i32"@,
        TypeModel::Int64 => "i64"@,
        TypeModel::Int128 => "i128"@,
        TypeModel::UInt8 => "u8"@,
        TypeModel::UInt16 => "u16"@,
        TypeModel::UInt32 => "u32"@,
        TypeModel::UInt64 => "u64"@,
        TypeModel::UInt128 => "u128"@,
        TypeModel::Float16 => "f16"@,
        TypeModel::Float32 => "f32"@,
        TypeModel::Float64 => "f64"@,
        TypeModel::Float128 => "f128"@,
        TypeModel::Bool => "bool"@,
        _ => "void"@,
    }
}

/// Whether `c` is a small letter or a digit of ASCII.
pub open spec fn is_plain(c: char) -> bool {
    'a' <= c <= 'z' || '0' <= c <= '9'
}

proof fn lemma_plain_is_word(c: char)
    requires
        is_plain(c),
    ensures
        in_class(c, CharClass::Word),
        !in_class(c, CharClass::Space),
{
    reveal(in_class);
}

/// In a text of letters and digits, a keyword stands at the start only if it
/// is the whole text, and no whitespace stands at either end.
proof fn lemma_word_alone(w: Text)
    requires
        w.len() > 0,
        forall|i: int| 0 <= i < w.len() ==> is_plain(#[trigger] w[i]),
    ensures
        skip_space(w, 0) == 0,
        skip_space(w, w.len()) == w.len(),
        has_keyword(w, 0, w),
        forall|k: Text| #[trigger] has_keyword(w, 0, k) ==> k == w,
{
    lemma_plain_is_word(w[0]);
    assert(w.subrange(0, w.len() as int) =~= w);
    assert forall|k: Text| #[trigger] has_keyword(w, 0, k) implies k == w by {
        if k.len() < w.len() {
            lemma_plain_is_word(w[k.len() as int]);
        }
        assert(w.subrange(0, w.len() as int) =~= w);
    }
}

/// A scalar keyword by itself is its scalar type.
pub proof fn law_scalar_keyword(t: TypeModel)
    requires
        is_scalar(t),
    ensures
        type_of(scalar_keyword(t)) == Ok::<TypeModel, Problem>(t),
{
    reveal_strlit("i8");
    reveal_strlit("i16");
    reveal_strlit("i32");
    reveal_strlit("i64");
    reveal_strlit("i128");
    reveal_strlit("u8");
    reveal_strlit("u16");
    reveal_strlit("u32");
    reveal_strlit("u64");
    reveal_strlit("u128");
    reveal_strlit("f16");
    reveal_strlit("f32");
    reveal_strlit("f64");
    reveal_strlit("f128");
    reveal_strlit("bool");
    reveal_strlit("void");
    let w = scalar_keyword(t);
    lemma_word_alone(w);
    match t {
        TypeModel::Int8 => {},
        TypeModel::Int16 => {},
        TypeModel::Int32 => {
            assert("i16"@[1] != "i32"@[1]);
        },
        TypeModel::Int64 => {
            assert("i16"@[1] != "i64"@[1]);
            assert("i32"@[1] != "i64"@[1]);
        },
        TypeModel::Int128 => {},
        TypeModel::UInt8 => {
            assert("i8"@[0] != "u8"@[0]);
        },
        TypeModel::UInt16 => {
            assert("i16"@[0] != "u16"@[0]);
            assert("i32"@[0] != "u16"@[0]);
            assert("i64"@[0] != "u16"@[0]);
        },
        TypeModel::UInt32 => {
            assert("i16"@[0] != "u32"@[0]);
            assert("i32"@[0] != "u32"@[0]);
            assert("i64"@[0] != "u32"@[0]);
            assert("u16"@[1] != "u32"@[1]);
        },
        TypeModel::UInt64 => {
            assert("i16"@[0] != "u64"@[0]);
            assert("i32"@[0] != "u64"@[0]);
            assert("i64"@[0] != "u64"@[0]);
            assert("u16"@[1] != "u64"@[1]);
            assert("u32"@[1] != "u64"@[1]);
        },
        TypeModel::UInt128 => {
            assert("i128"@[0] != "u128"@[0]);
        },
        TypeModel::Float16 => {
            assert("i16"@[0] != "f16"@[0]);
            assert("i32"@[0] != "f16"@[0]);
            assert("i64"@[0] != "f16"@[0]);
            assert("u16"@[0] != "f16"@[0]);
            assert("u32"@[0] != "f16"@[0]);
            assert("u64"@[0] != "f16"@[0]);
        },
        TypeModel::Float32 => {
            assert("i16"@[0] != "f32"@[0]);
            assert("i32"@[0] != "f32"@[0]);
            assert("i64"@[0] != "f32"@[0]);
            assert("u16"@[0] != "f32"@[0]);
            assert("u32"@[0] != "f32"@[0]);
            assert("u64"@[0] != "f32"@[0]);
            assert("f16"@[1] != "f32"@[1]);
        },
        TypeModel::Float64 => {
            assert("i16"@[0] != "f64"@[0]);
            assert("i32"@[0] != "f64"@[0]);
            assert("i64"@[0] != "f64"@[0]);
            assert("u16"@[0] != "f64"@[0]);
            assert("u32"@[0] != "f64"@[0]);
            assert("u64"@[0] != "f64"@[0]);
            assert("f16"@[1] != "f64"@[1]);
            assert("f32"@[1] != "f64"@[1]);
        },
        TypeModel::Float128 => {
            assert("i128"@[0] != "f128"@[0]);
            assert("u128"@[0] != "f128"@[0]);
        },
        TypeModel::Bool => {
            assert("i128"@[0] != "bool"@[0]);
            assert("u128"@[0] != "bool"@[0]);
            assert("f128"@[0] != "bool"@[0]);
        },
        TypeModel::Void => {
            assert("i128"@[0] != "void"@[0]);
            assert("u128"@[0] != "void"@[0]);
            assert("f128"@[0] != "void"@[0]);
            assert("bool"@[0] != "void"@[0]);
        },
        _ => {},
    }
    assert(scalar_at(w, 0) == Parsed::Done { value: t, len: w.len() }) by {
        reveal(scalar_at);
    }
    assert(type_at(w, 0) == Parsed::Done { value: t, len: w.len() }) by {
        reveal(type_at);
        reveal(plain_at);
    }
}

/// Whitespace before a type counts for nothing: a type tried anywhere in the
/// whitespace before it is the type tried at the start of that whitespace.
pub proof fn law_space_before_type(s: Text, pos: nat, k: nat)
    requires
        pos <= k <= skip_space(s, pos),
    ensures
        type_at(s, pos) == type_at(s, k).after((k - pos) as nat),
{
    lemma_run_members(s, pos, CharClass::Space, k);
    reveal(type_at);
}

/// Whitespace before a statement counts for nothing: a statement tried
/// anywhere in the whitespace before it is the statement tried at the start
/// of that whitespace.
pub proof fn law_space_before_stmt(s: Text, pos: nat, k: nat)
    requires
        pos <= k <= skip_space(s, pos),
    ensures
        stmt_at(s, pos) == stmt_at(s, k).after((k - pos) as nat),
{
    lemma_run_members(s, pos, CharClass::Space, k);
    reveal(stmt_at);
}

/// A statement that is no form of `$` is no chain.
pub proof fn law_chain_only_of_dollar(t: StmtModel)
    ensures
        linearized(t) is Some <==> is_dollar(t),
{
}

/// The root of a chain is no access, and the chain has as many segments as
/// there are accesses on the way to the root.
pub proof fn law_chain_root(t: StmtModel)
    ensures
        !(chain_root(t) is GetField),
        !(chain_root(t) is GetIndexed),
        chain_segments(chain_root(t)).len() == 0,
    decreases t,
{
    match t {
        StmtModel::GetField(_, target) => law_chain_root(*target),
        StmtModel::GetIndexed(_, target) => law_chain_root(*target),
        _ => {},
    }
}

/// A chain has one segment at least, and an access and an assignment round
/// the same target have the same root and the same segments.
pub proof fn law_chain_shape(t: StmtModel)
    requires
        is_dollar(t),
    ensures
        match linearized(t) {
            Some(ChainModel::Access { root, segments }) => segments.len() >= 1 && (t is GetField
                || t is GetIndexed),
            Some(ChainModel::Assign { root, segments, value }) => segments.len() >= 1 && (t
                is SetField || t is SetIndexed),
            None => false,
        },
{
}

/// The module-level transform, applied twice, gives what it gives applied
/// once.
pub proof fn law_transform_twice(items: Seq<DeclModel>)
    ensures
        transformed(transformed(items)) == transformed(items),
{
}

} // verus!
