//! What every tree that the grammar yields satisfies: no struct has two fields
//! of one name and no data type two variants of one tag, however deep they
//! lie; and what is matched is not empty and lies inside the text.

use vstd::prelude::*;
use crate::model::{DeclModel, FnModel, LiteralModel, PayloadModel, StmtModel, Text, TypeModel};
use crate::outcome::Parsed;
use crate::stmt_grammar::{
    access_at, array_literal_at, atom_at, atomic_at, bool_at, call_at, calling_at, char_at,
    collection_at, data_literal_at, def_at, do_at, dollar_at, field_access_at, fn_at, fn_literal_at,
    generic_call_at, ident_at, if_at, index_access_at, keyword_form_at, literal_at, number_at,
    paren_at, quoted_at, stmt_at, stmt_choice_at, stmts_at, string_at, tuple_literal_at,
};
use crate::text::{
    CharClass, has_char, has_keyword, has_text, lemma_run_bound, name_len, run, skip_space,
};
use crate::type_grammar::{
    array_at, brace_tuple_at, bracket_array_at, composite_at, data_at, field_at, fields_at, firsts,
    fn_type_at, generic_array_at, generic_ptr_at, generics_at, head_at, long_array_at,
    long_tuple_at, named_type_at, names_at, opt_generics_at, piece, plain_at, pointer_at, ptr_at,
    rest, scalar_at, struct_at, tag_at, tuple_at, type_at, types_at, variant_at, variants_at,
};
use crate::unit_grammar::{
    alias_at, binding_at, decl_at, export_at, import_at, payload_at, stmt_of, type_of, unit_at,
    unit_of,
};

verus! {

/// Whether the names of the fields of every struct in `t`, and the tags of
/// the variants of every data type in `t`, are distinct.
pub open spec fn names_unique(t: TypeModel) -> bool
    decreases t,
{
    match t {
        TypeModel::ArraySized(item, _) => names_unique(*item),
        TypeModel::ArrayUnsized(item) => names_unique(*item),
        TypeModel::Ptr(target) => names_unique(*target),
        TypeModel::Tuple(items) => all_unique(items),
        TypeModel::GenericTuple(_, items) => all_unique(items),
        TypeModel::Fn(params, ret) => all_unique(params) && names_unique(*ret),
        TypeModel::FnWithVarArgs(params, ret) => all_unique(params) && names_unique(*ret),
        TypeModel::GenericFn(_, params, ret) => all_unique(params) && names_unique(*ret),
        TypeModel::GenericFnWithVarArgs(_, params, ret) => all_unique(params) && names_unique(
            *ret,
        ),
        TypeModel::Struct(fields) => firsts(fields).no_duplicates() && fields_unique(fields),
        TypeModel::GenericStruct(_, fields) => firsts(fields).no_duplicates() && fields_unique(
            fields,
        ),
        TypeModel::Data(variants) => firsts(variants).no_duplicates() && variants_unique(variants),
        TypeModel::GenericData(_, variants) => firsts(variants).no_duplicates() && variants_unique(
            variants,
        ),
        _ => true,
    }
}

/// [`names_unique`] of every type of a row.
pub open spec fn all_unique(items: Seq<TypeModel>) -> bool
    decreases items,
{
    forall|i: int| 0 <= i < items.len() ==> names_unique(#[trigger] items[i])
}

/// [`names_unique`] of the type of every field of a row.
pub open spec fn fields_unique(fields: Seq<(Text, TypeModel)>) -> bool
    decreases fields,
{
    forall|i: int| 0 <= i < fields.len() ==> names_unique((#[trigger] fields[i]).1)
}

/// [`names_unique`] of every type of every variant of a row.
pub open spec fn variants_unique(variants: Seq<(Text, Seq<TypeModel>)>) -> bool
    decreases variants,
{
    forall|i: int| 0 <= i < variants.len() ==> all_unique((#[trigger] variants[i]).1)
}

/// Whether a match of `r` at `pos` is not empty, lies inside `s` and holds a
/// type with distinct names.
pub open spec fn sound(r: Parsed<TypeModel>, s: Text, pos: nat) -> bool {
    r matches Parsed::Done { value, len } ==> 0 < len && pos + len <= s.len() && names_unique(
        value,
    )
}

/// Whitespace is skipped inside the text.
pub(crate) proof fn lemma_skip(s: Text, pos: nat)
    requires
        pos <= s.len(),
    ensures
        pos <= skip_space(s, pos) <= s.len(),
{
    lemma_run_bound(s, pos, CharClass::Space);
}

proof fn lemma_head(s: Text, pos: nat, word: Text)
    ensures
        head_at(s, pos, word) matches Ok(a) ==> pos < a <= s.len(),
{
}

#[verifier::spinoff_prover]
proof fn lemma_names(s: Text, pos: nat, class: CharClass)
    requires
        pos <= s.len(),
    ensures
        pos + names_at(s, pos, class).1 <= s.len(),
    decreases rest(s, pos),
{
    lemma_skip(s, pos);
    let p = skip_space(s, pos);
    lemma_run_bound(s, p, class);
    if let Some(n) = name_len(s, p, class) {
        lemma_names(s, p + n, class);
    }
}

/// A list of generic parameters that matches is not empty and lies inside the
/// text.
pub(crate) proof fn lemma_generics(s: Text, pos: nat)
    ensures
        generics_at(s, pos) matches Parsed::Done { value, len } ==> 0 < len && pos + len
            <= s.len(),
{
    reveal(generics_at);
}

/// An optional list of generic parameters ends inside the text.
pub(crate) proof fn lemma_opt_generics(s: Text, pos: nat)
    requires
        pos <= s.len(),
    ensures
        pos <= opt_generics_at(s, pos).1 <= s.len(),
{
    lemma_generics(s, skip_space(s, pos));
}

/// A tag that matches has a name and lies inside the text.
pub(crate) proof fn lemma_tag(s: Text, pos: nat)
    ensures
        tag_at(s, pos) matches Some(n) ==> 0 < n && pos + 1 + n <= s.len(),
{
    lemma_run_bound(s, pos + 1, CharClass::Ident);
}

/// A type that the grammar yields is sound.
#[verifier::spinoff_prover]
pub(crate) proof fn lemma_type(s: Text, pos: nat)
    ensures
        sound(type_at(s, pos), s, pos),
    decreases rest(s, pos), 4nat,
{
    reveal(type_at);
    reveal(plain_at);
    reveal(composite_at);
    reveal(named_type_at);
    let p = skip_space(s, pos);
    lemma_plain(s, p);
    lemma_composite(s, p);
    lemma_run_bound(s, p, CharClass::Ident);
}

#[verifier::spinoff_prover]
proof fn lemma_plain(s: Text, pos: nat)
    ensures
        sound(plain_at(s, pos), s, pos),
    decreases rest(s, pos), 2nat,
{
    reveal(plain_at);
    reveal(array_at);
    reveal(pointer_at);
    reveal(tuple_at);
    lemma_scalar(s, pos);
    lemma_array(s, pos);
    lemma_pointer(s, pos);
    lemma_tuple(s, pos);
}

proof fn lemma_scalar(s: Text, pos: nat)
    ensures
        sound(scalar_at(s, pos), s, pos),
{
    reveal(scalar_at);
    reveal_strlit("i8");
    reveal_strlit("i16");
    reveal_strlit("i32");
    reveal_strlit("i64");
    reveal_strlit("i128");
    reveal_strlit("u8");
    reveal_strlit("u16");
    reveal_strlit("u32");
    reveal_strlit("u64");
    reveal_strlit("u128");
    reveal_strlit("f16");
    reveal_strlit("f32");
    reveal_strlit("f64");
    reveal_strlit("f128");
    reveal_strlit("bool");
    reveal_strlit("void");
}

#[verifier::spinoff_prover]
proof fn lemma_array(s: Text, pos: nat)
    ensures
        sound(array_at(s, pos), s, pos),
    decreases rest(s, pos), 1nat,
{
    reveal(array_at);
    reveal(bracket_array_at);
    reveal(long_array_at);
    reveal(generic_array_at);
    lemma_bracket_array(s, pos);
    lemma_long_array(s, pos);
}

#[verifier::spinoff_prover]
proof fn lemma_bracket_array(s: Text, pos: nat)
    ensures
        sound(bracket_array_at(s, pos), s, pos),
    decreases rest(s, pos), 0nat,
{
    reveal(bracket_array_at);
    reveal(type_at);
    if has_char(s, pos, '[') {
        lemma_type(s, pos + 1);
    }
}

#[verifier::spinoff_prover]
proof fn lemma_long_array(s: Text, pos: nat)
    ensures
        sound(long_array_at(s, pos), s, pos),
    decreases rest(s, pos), 0nat,
{
    reveal(long_array_at);
    reveal(type_at);
    if let Ok(a) = head_at(s, pos, "array"@) {
        lemma_type(s, a);
    }
}

#[verifier::spinoff_prover]
proof fn lemma_pointer(s: Text, pos: nat)
    ensures
        sound(pointer_at(s, pos), s, pos),
    decreases rest(s, pos), 1nat,
{
    reveal(pointer_at);
    reveal(generic_ptr_at);
    reveal(ptr_at);
    reveal(type_at);
    if let Ok(a) = head_at(s, pos, "ptr"@) {
        lemma_type(s, a);
    }
}

#[verifier::spinoff_prover]
proof fn lemma_tuple(s: Text, pos: nat)
    ensures
        sound(tuple_at(s, pos), s, pos),
    decreases rest(s, pos), 1nat,
{
    reveal(tuple_at);
    reveal(brace_tuple_at);
    reveal(long_tuple_at);
    reveal(types_at);
    if has_char(s, pos, '{') {
        lemma_types(s, pos + 1);
    }
    if let Ok(a) = head_at(s, pos, "tuple"@) {
        lemma_opt_generics(s, a);
        lemma_types(s, opt_generics_at(s, a).1);
    }
}

/// The types of a row that the grammar yields are sound.
#[verifier::spinoff_prover]
pub(crate) proof fn lemma_types(s: Text, pos: nat)
    requires
        pos <= s.len(),
    ensures
        types_at(s, pos) matches Parsed::Done { value, len } ==> pos + len <= s.len()
            && all_unique(value),
    decreases rest(s, pos), 5nat,
{
    reveal(types_at);
    reveal(type_at);
    if pos < s.len() {
        lemma_type(s, pos);
        if let Parsed::Done { value, len } = type_at(s, pos) {
            if len > 0 {
                lemma_types(s, pos + len);
            }
        }
    }
}

#[verifier::spinoff_prover]
proof fn lemma_composite(s: Text, pos: nat)
    ensures
        sound(composite_at(s, pos), s, pos),
    decreases rest(s, pos), 1nat,
{
    reveal(composite_at);
    reveal(fn_type_at);
    reveal(data_at);
    reveal(struct_at);
    lemma_fn_type(s, pos);
    lemma_data(s, pos);
    lemma_struct(s, pos);
}

#[verifier::spinoff_prover]
proof fn lemma_fn_type(s: Text, pos: nat)
    ensures
        sound(fn_type_at(s, pos), s, pos),
    decreases rest(s, pos), 0nat,
{
    reveal(fn_type_at);
    reveal(types_at);
    reveal(type_at);
    reveal_strlit("fn");
    reveal_strlit("...");
    if has_keyword(s, pos, "fn"@) {
        let a = pos + "fn"@.len();
        lemma_opt_generics(s, a);
        let o = skip_space(s, opt_generics_at(s, a).1);
        if has_char(s, o, '[') {
            lemma_types(s, o + 1);
            if let Parsed::Done { value, len } = types_at(s, o + 1) {
                let d = skip_space(s, o + 1 + len);
                lemma_skip(s, o + 1 + len);
                let c = if has_text(s, d, "..."@) {
                    skip_space(s, d + "..."@.len())
                } else {
                    d
                };
                if has_char(s, c, ']') {
                    lemma_type(s, c + 1);
                }
            }
        }
    }
}

#[verifier::spinoff_prover]
proof fn lemma_variant(s: Text, pos: nat)
    ensures
        variant_at(s, pos) matches Parsed::Done { value, len } ==> 0 < len && pos + len
            <= s.len() && all_unique(value.1),
    decreases rest(s, pos), 0nat,
{
    reveal(variant_at);
    reveal(types_at);
    if has_char(s, pos, '[') {
        let t = skip_space(s, pos + 1);
        lemma_tag(s, t);
        if let Some(n) = tag_at(s, t) {
            lemma_types(s, t + 1 + n);
        }
    }
}

#[verifier::spinoff_prover]
proof fn lemma_variants(s: Text, pos: nat)
    requires
        pos <= s.len(),
    ensures
        variants_at(s, pos) matches Parsed::Done { value, len } ==> pos + len <= s.len()
            && variants_unique(value),
    decreases rest(s, pos), 4nat,
{
    reveal(variants_at);
    reveal(variant_at);
    let p = skip_space(s, pos);
    lemma_skip(s, pos);
    lemma_variant(s, p);
    if let Parsed::Done { value, len } = variant_at(s, p) {
        if len > 0 && p < s.len() {
            lemma_variants(s, p + len);
        }
    }
}

#[verifier::spinoff_prover]
proof fn lemma_data(s: Text, pos: nat)
    ensures
        sound(data_at(s, pos), s, pos),
    decreases rest(s, pos), 0nat,
{
    reveal(data_at);
    reveal(variants_at);
    if let Ok(a) = head_at(s, pos, "data"@) {
        lemma_opt_generics(s, a);
        lemma_variants(s, opt_generics_at(s, a).1);
    }
}

/// A field that the grammar yields is sound.
#[verifier::spinoff_prover]
pub(crate) proof fn lemma_field(s: Text, pos: nat)
    ensures
        field_at(s, pos) matches Parsed::Done { value, len } ==> 0 < len && pos + len <= s.len()
            && names_unique(value.1),
    decreases rest(s, pos), 0nat,
{
    reveal(field_at);
    reveal(type_at);
    if has_char(s, pos, '(') {
        let t = skip_space(s, pos + 1);
        lemma_tag(s, t);
        if let Some(n) = tag_at(s, t) {
            lemma_type(s, t + 1 + n);
        }
    }
}

/// The fields of a row that the grammar yields are sound.
#[verifier::spinoff_prover]
pub(crate) proof fn lemma_fields(s: Text, pos: nat)
    requires
        pos <= s.len(),
    ensures
        fields_at(s, pos) matches Parsed::Done { value, len } ==> pos + len <= s.len()
            && fields_unique(value),
    decreases rest(s, pos), 4nat,
{
    reveal(fields_at);
    reveal(field_at);
    let p = skip_space(s, pos);
    lemma_skip(s, pos);
    lemma_field(s, p);
    if let Parsed::Done { value, len } = field_at(s, p) {
        if len > 0 && p < s.len() {
            lemma_fields(s, p + len);
        }
    }
}

#[verifier::spinoff_prover]
proof fn lemma_struct(s: Text, pos: nat)
    ensures
        sound(struct_at(s, pos), s, pos),
    decreases rest(s, pos), 0nat,
{
    reveal(struct_at);
    reveal(fields_at);
    if let Ok(a) = head_at(s, pos, "struct"@) {
        lemma_opt_generics(s, a);
        lemma_fields(s, opt_generics_at(s, a).1);
    }
}

/// In a type that a whole text is, the fields of every struct have distinct
/// names and the variants of every data type distinct tags.
pub proof fn law_type_names_unique(text: Text)
    ensures
        type_of(text) matches Ok(t) ==> names_unique(t),
{
    lemma_type(text, 0);
}

/// Whether every type in `t` has distinct names.
pub open spec fn stmt_unique(t: StmtModel) -> bool
    decreases t,
{
    match t {
        StmtModel::Ident(_) => true,
        StmtModel::Literal(l) => literal_unique(l),
        StmtModel::DoBlock(items) => stmts_unique(items),
        StmtModel::Call(_, items) => stmts_unique(items),
        StmtModel::DefVar(_, value) => stmt_unique(*value),
        StmtModel::If(c, t) => stmt_unique(*c) && stmt_unique(*t),
        StmtModel::IfElse(c, t, e) => stmt_unique(*c) && stmt_unique(*t) && stmt_unique(*e),
        StmtModel::For(c, b) => stmt_unique(*c) && stmt_unique(*b),
        StmtModel::ForRange(_, r, b) => stmt_unique(*r) && stmt_unique(*b),
        StmtModel::GenericCall(_, _, items) => stmts_unique(items),
        StmtModel::GetField(_, t) => stmt_unique(*t),
        StmtModel::SetField(_, t, v) => stmt_unique(*t) && stmt_unique(*v),
        StmtModel::GetIndexed(i, t) => stmt_unique(*i) && stmt_unique(*t),
        StmtModel::SetIndexed(i, t, v) => stmt_unique(*i) && stmt_unique(*t) && stmt_unique(*v),
    }
}

/// [`stmt_unique`] of every statement of a row.
pub open spec fn stmts_unique(items: Seq<StmtModel>) -> bool
    decreases items,
{
    forall|i: int| 0 <= i < items.len() ==> stmt_unique(#[trigger] items[i])
}

/// Whether every type in `l` has distinct names.
pub open spec fn literal_unique(l: LiteralModel) -> bool
    decreases l,
{
    match l {
        LiteralModel::Tuple(items) => stmts_unique(items),
        LiteralModel::Data(_, items) => stmts_unique(items),
        LiteralModel::Array(items) => stmts_unique(items),
        LiteralModel::Fn(f) => fn_unique(*f),
        _ => true,
    }
}

/// Whether every type in `f` has distinct names.
pub open spec fn fn_unique(f: FnModel) -> bool
    decreases f,
{
    fields_unique(f.parameters) && names_unique(f.return_type) && stmt_unique(f.statement)
}

/// Whether every type in `d` has distinct names.
pub open spec fn decl_unique(d: DeclModel) -> bool {
    match d {
        DeclModel::TypeAlias(_, t) => names_unique(t),
        DeclModel::TopLevelDef(_, PayloadModel::Literal(l)) => literal_unique(l),
        DeclModel::TopLevelDef(_, PayloadModel::Typed(t)) => names_unique(t),
        DeclModel::TopLevelDef(_, PayloadModel::FnDef(f)) => fn_unique(f),
        _ => true,
    }
}

/// Whether a match of `r` at `pos` is not empty, lies inside `s` and holds a
/// statement whose types have distinct names.
pub open spec fn stmt_sound(r: Parsed<StmtModel>, s: Text, pos: nat) -> bool {
    r matches Parsed::Done { value, len } ==> 0 < len && pos + len <= s.len() && stmt_unique(
        value,
    )
}

/// A scalar literal that the grammar yields is sound.
pub(crate) proof fn lemma_literal(s: Text, pos: nat)
    ensures
        literal_at(s, pos) matches Parsed::Done { value, len } ==> 0 < len && pos + len
            <= s.len() && literal_unique(value),
{
    reveal(literal_at);
    reveal(number_at);
    reveal(bool_at);
    reveal(atom_at);
    reveal(quoted_at);
    reveal(char_at);
    reveal(string_at);
    reveal_strlit("true");
    reveal_strlit("false");
    lemma_run_bound(s, pos, CharClass::Digit);
    lemma_run_bound(s, pos + run(s, pos, CharClass::Digit) + 1, CharClass::Digit);
    lemma_tag(s, pos);
}

/// A statement that the grammar yields is sound.
#[verifier::spinoff_prover]
pub(crate) proof fn lemma_stmt(s: Text, pos: nat)
    ensures
        stmt_sound(stmt_at(s, pos), s, pos),
    decreases rest(s, pos), 4nat,
{
    reveal(stmt_at);
    reveal(stmt_choice_at);
    lemma_stmt_choice(s, skip_space(s, pos));
}

#[verifier::spinoff_prover]
proof fn lemma_stmt_choice(s: Text, pos: nat)
    ensures
        stmt_sound(stmt_choice_at(s, pos), s, pos),
    decreases rest(s, pos), 3nat,
{
    reveal(stmt_choice_at);
    reveal(paren_at);
    reveal(collection_at);
    reveal(atomic_at);
    reveal(ident_at);
    lemma_paren(s, pos);
    lemma_collection(s, pos);
    lemma_literal(s, pos);
    lemma_run_bound(s, pos, CharClass::Ident);
}

/// The statements of a row that the grammar yields are sound.
#[verifier::spinoff_prover]
pub(crate) proof fn lemma_stmts(s: Text, pos: nat)
    requires
        pos <= s.len(),
    ensures
        stmts_at(s, pos) matches Parsed::Done { value, len } ==> pos + len <= s.len()
            && stmts_unique(value),
    decreases rest(s, pos), 5nat,
{
    reveal(stmts_at);
    reveal(stmt_at);
    if pos < s.len() {
        lemma_stmt(s, pos);
        if let Parsed::Done { value, len } = stmt_at(s, pos) {
            if len > 0 {
                lemma_stmts(s, pos + len);
            }
        }
    }
}

#[verifier::spinoff_prover]
proof fn lemma_paren(s: Text, pos: nat)
    ensures
        stmt_sound(paren_at(s, pos), s, pos),
    decreases rest(s, pos), 2nat,
{
    reveal(paren_at);
    reveal(keyword_form_at);
    reveal(access_at);
    reveal(fn_literal_at);
    reveal(calling_at);
    lemma_keyword_form(s, pos);
    lemma_access(s, pos);
    lemma_fn_literal(s, pos);
    lemma_calling(s, pos);
}

#[verifier::spinoff_prover]
proof fn lemma_keyword_form(s: Text, pos: nat)
    ensures
        stmt_sound(keyword_form_at(s, pos), s, pos),
    decreases rest(s, pos), 1nat,
{
    reveal(keyword_form_at);
    reveal(if_at);
    reveal(do_at);
    reveal(def_at);
    lemma_if(s, pos);
    lemma_do(s, pos);
    lemma_def(s, pos);
}

#[verifier::spinoff_prover]
proof fn lemma_if(s: Text, pos: nat)
    ensures
        stmt_sound(if_at(s, pos), s, pos),
    decreases rest(s, pos), 0nat,
{
    reveal(if_at);
    reveal(stmt_at);
    if let Ok(a) = head_at(s, pos, "if"@) {
        lemma_stmt(s, a);
        if let Parsed::Done { value, len: l1 } = stmt_at(s, a) {
            lemma_stmt(s, a + l1);
            if let Parsed::Done { value, len: l2 } = stmt_at(s, a + l1) {
                lemma_stmt(s, a + l1 + l2);
            }
        }
    }
}

#[verifier::spinoff_prover]
proof fn lemma_do(s: Text, pos: nat)
    ensures
        stmt_sound(do_at(s, pos), s, pos),
    decreases rest(s, pos), 0nat,
{
    reveal(do_at);
    reveal(stmts_at);
    if let Ok(a) = head_at(s, pos, "do"@) {
        lemma_stmts(s, a);
    }
}

#[verifier::spinoff_prover]
proof fn lemma_def(s: Text, pos: nat)
    ensures
        stmt_sound(def_at(s, pos), s, pos),
    decreases rest(s, pos), 0nat,
{
    reveal(def_at);
    reveal(stmt_at);
    if let Ok(a) = head_at(s, pos, "def"@) {
        let n = skip_space(s, a);
        if let Some(len) = name_len(s, n, CharClass::Ident) {
            lemma_stmt(s, n + len);
        }
    }
}

#[verifier::spinoff_prover]
proof fn lemma_access(s: Text, pos: nat)
    ensures
        stmt_sound(access_at(s, pos), s, pos),
    decreases rest(s, pos), 1nat,
{
    reveal(access_at);
    reveal(field_access_at);
    reveal(index_access_at);
    lemma_field_access(s, pos);
    lemma_index_access(s, pos);
}

#[verifier::spinoff_prover]
proof fn lemma_field_access(s: Text, pos: nat)
    ensures
        stmt_sound(field_access_at(s, pos), s, pos),
    decreases rest(s, pos), 0nat,
{
    reveal(field_access_at);
    reveal(stmt_at);
    if let Ok(a) = dollar_at(s, pos) {
        let t = skip_space(s, a);
        if let Some(n) = tag_at(s, t) {
            lemma_stmt(s, t + 1 + n);
            if let Parsed::Done { value, len: l1 } = stmt_at(s, t + 1 + n) {
                lemma_stmt(s, t + 1 + n + l1);
            }
        }
    }
}

#[verifier::spinoff_prover]
proof fn lemma_index_access(s: Text, pos: nat)
    ensures
        stmt_sound(index_access_at(s, pos), s, pos),
    decreases rest(s, pos), 0nat,
{
    reveal(index_access_at);
    reveal(stmt_at);
    if let Ok(a) = dollar_at(s, pos) {
        let o = skip_space(s, a);
        if has_char(s, o, '[') {
            lemma_stmt(s, o + 1);
            if let Parsed::Done { value, len: l0 } = stmt_at(s, o + 1) {
                let c = skip_space(s, o + 1 + l0);
                if has_char(s, c, ']') {
                    lemma_stmt(s, c + 1);
                    if let Parsed::Done { value, len: l1 } = stmt_at(s, c + 1) {
                        lemma_stmt(s, c + 1 + l1);
                    }
                }
            }
        }
    }
}

/// A function definition that the grammar yields is sound.
#[verifier::spinoff_prover]
pub(crate) proof fn lemma_fn(s: Text, pos: nat)
    ensures
        fn_at(s, pos) matches Parsed::Done { value, len } ==> 0 < len && pos + len <= s.len()
            && fn_unique(value),
    decreases rest(s, pos), 0nat,
{
    reveal(fn_at);
    reveal(stmt_at);
    if let Ok(a) = head_at(s, pos, "fn"@) {
        lemma_opt_generics(s, a);
        let o = skip_space(s, opt_generics_at(s, a).1);
        if has_char(s, o, '[') {
            lemma_fields(s, o + 1);
            if let Parsed::Done { value, len: l0 } = fields_at(s, o + 1) {
                let c = skip_space(s, o + 1 + l0);
                if has_char(s, c, ']') {
                    lemma_type(s, c + 1);
                    if let Parsed::Done { value, len: l1 } = type_at(s, c + 1) {
                        lemma_stmt(s, c + 1 + l1);
                    }
                }
            }
        }
    }
}

#[verifier::spinoff_prover]
proof fn lemma_fn_literal(s: Text, pos: nat)
    ensures
        stmt_sound(fn_literal_at(s, pos), s, pos),
    decreases rest(s, pos), 1nat,
{
    reveal(fn_literal_at);
    reveal(fn_at);
    lemma_fn(s, pos);
    if let Parsed::Done { value, len } = fn_at(s, pos) {
        assert(literal_unique(LiteralModel::Fn(Box::new(value))) == fn_unique(value));
    }
}

#[verifier::spinoff_prover]
proof fn lemma_calling(s: Text, pos: nat)
    ensures
        stmt_sound(calling_at(s, pos), s, pos),
    decreases rest(s, pos), 1nat,
{
    reveal(calling_at);
    reveal(generic_call_at);
    reveal(call_at);
    reveal(stmts_at);
    if has_char(s, pos, '(') {
        let n = skip_space(s, pos + 1);
        lemma_skip(s, pos + 1);
        lemma_run_bound(s, n, CharClass::Ident);
        lemma_run_bound(s, n, CharClass::Word);
        if let Some(len) = name_len(s, n, CharClass::Ident) {
            lemma_stmts(s, n + len);
        }
        if let Some(len) = name_len(s, n, CharClass::Word) {
            lemma_generics(s, n + len);
            if let Parsed::Done { value, len: l0 } = generics_at(s, n + len) {
                lemma_stmts(s, n + len + l0);
            }
        }
    }
}

#[verifier::spinoff_prover]
proof fn lemma_collection(s: Text, pos: nat)
    ensures
        stmt_sound(collection_at(s, pos), s, pos),
    decreases rest(s, pos), 1nat,
{
    reveal(collection_at);
    reveal(tuple_literal_at);
    reveal(data_literal_at);
    reveal(array_literal_at);
    reveal(stmts_at);
    if has_char(s, pos, '{') || has_char(s, pos, '[') {
        lemma_stmts(s, pos + 1);
        if let Parsed::Done { value, len } = stmts_at(s, pos + 1) {
            assert(literal_unique(LiteralModel::Tuple(value)) == stmts_unique(value));
            assert(literal_unique(LiteralModel::Array(value)) == stmts_unique(value));
        }
    }
    if has_char(s, pos, '[') {
        let t = skip_space(s, pos + 1);
        lemma_tag(s, t);
        if let Some(n) = tag_at(s, t) {
            lemma_stmts(s, t + 1 + n);
            if let Parsed::Done { value, len } = stmts_at(s, t + 1 + n) {
                assert(literal_unique(
                    LiteralModel::Data(piece(s, t + 1, n), value),
                ) == stmts_unique(value));
            }
        }
    }
}

/// A declaration that the grammar yields is sound.
pub(crate) proof fn lemma_decl(s: Text, pos: nat)
    ensures
        decl_at(s, pos) matches Parsed::Done { value, len } ==> 0 < len && pos + len <= s.len()
            && decl_unique(value),
{
    reveal(decl_at);
    reveal(binding_at);
    reveal(payload_at);
    reveal(import_at);
    reveal(alias_at);
    reveal(export_at);
    if let Ok(a) = head_at(s, pos, "def"@) {
        let n = skip_space(s, a);
        if let Some(len) = name_len(s, n, CharClass::Ident) {
            let v = skip_space(s, n + len);
            lemma_literal(s, v);
            lemma_type(s, v);
            lemma_fn(s, v);
        }
    }
    if let Ok(a) = head_at(s, pos, "type"@) {
        let n = skip_space(s, a);
        if let Some(len) = name_len(s, n, CharClass::Ident) {
            lemma_type(s, n + len);
        }
    }
}

#[verifier::spinoff_prover]
proof fn lemma_unit(s: Text, pos: nat)
    ensures
        unit_at(s, pos) matches Ok(decls) ==> forall|i: int|
            0 <= i < decls.len() ==> decl_unique(#[trigger] decls[i]),
    decreases rest(s, pos),
{
    reveal(unit_at);
    let p = skip_space(s, pos);
    if p < s.len() {
        lemma_decl(s, p);
        if let Parsed::Done { value, len } = decl_at(s, p) {
            if len > 0 {
                lemma_unit(s, p + len);
            }
        }
    }
}

/// In a statement that a whole text is, the fields of every struct have
/// distinct names and the variants of every data type distinct tags.
pub proof fn law_stmt_names_unique(text: Text)
    ensures
        stmt_of(text) matches Ok(t) ==> stmt_unique(t),
{
    lemma_stmt(text, 0);
}

/// In the declarations that a whole text is, the fields of every struct have
/// distinct names and the variants of every data type distinct tags.
pub proof fn law_unit_names_unique(text: Text)
    ensures
        unit_of(text) matches Ok(decls) ==> forall|i: int|
            0 <= i < decls.len() ==> decl_unique(#[trigger] decls[i]),
{
    lemma_unit(text, 0);
}

} // verus!
