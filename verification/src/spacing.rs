//! Whitespace between tokens counts for nothing.
//!
//! One more whitespace character, put where whitespace or a bracket stands or
//! at either end of a text, changes nothing of what the text is. The text
//! must hold no quote: inside a character or a string whitespace is content.
//! Put in again and again, any amount of whitespace is covered.

use vstd::prelude::*;
use crate::model::{DeclModel, FnModel, LiteralModel, PayloadModel, StmtModel, Text, TypeModel};
use crate::outcome::{closed, Parsed, Problem};
use crate::stmt_grammar::{
    access_at, array_literal_at, atom_at, atomic_at, bool_at, call_at, calling_at, char_at,
    collection_at, data_literal_at, def_at, do_at, dollar_at, field_access_at, fn_at, fn_literal_at,
    generic_call_at, ident_at, if_at, index_access_at, keyword_form_at, literal_at, number_at,
    paren_at, quoted_at, stmt_at, stmt_choice_at, stmts_at, string_at, tuple_literal_at,
};
use crate::text::{
    CharClass, has_char, has_keyword, has_text, in_class, is_space, lemma_run_bound,
    lemma_run_members, name_len, run, skip_space,
};
use crate::type_grammar::{
    array_at, brace_tuple_at, bracket_array_at, composite_at, data_at, field_at, fields_at,
    fn_type_at, generic_array_at, generic_ptr_at, generics_at, head_at, long_array_at,
    long_tuple_at, named_type_at, names_at, opt_generics_at, piece, plain_at, pointer_at, ptr_at,
    rest, scalar_at, size_at, struct_at, tag_at, tuple_at, type_at, types_at, variant_at,
    variants_at,
};
use crate::unit_grammar::{
    alias_at, binding_at, decl_at, export_at, import_at, literal_of, payload_at, stmt_of, type_of,
    unit_at, unit_of,
};
use crate::well_formed::{
    lemma_decl, lemma_generics, lemma_literal, lemma_opt_generics, lemma_skip, lemma_stmt,
    lemma_type,
};

verus! {

/// Whether `c` is a bracket of one of the three kinds.
pub open spec fn is_bracket(c: char) -> bool {
    c == '(' || c == ')' || c == '[' || c == ']' || c == '{' || c == '}'
}

/// Whether `c` is whitespace or a bracket: a character that is no part of a
/// longer token.
pub open spec fn is_edge(c: char) -> bool {
    is_space(c) || is_bracket(c)
}

/// Whether position `i` of `s` lies at an end of the text, or next to
/// whitespace or to a bracket.
pub open spec fn is_gap(s: Text, i: nat) -> bool {
    i <= s.len() && (i == 0 || i == s.len() || is_edge(s[i - 1]) || is_edge(s[i as int]))
}

/// Whether `s` holds neither a single nor a double quote.
pub open spec fn quote_free(s: Text) -> bool {
    forall|k: int| 0 <= k < s.len() ==> s[k] != '"' && s[k] != '\''
}

/// Whether the whitespace character `c` may be put into `s` at `i`.
pub open spec fn fits(s: Text, i: nat, c: char) -> bool {
    is_space(c) && is_gap(s, i) && quote_free(s)
}

/// The text `s` with `c` put in at `i`.
pub open spec fn widened(s: Text, i: nat, c: char) -> Text {
    s.insert(i as int, c)
}

/// Where position `p` of a text lies once a character is put in at `i`, if
/// `p` is where something ends.
pub open spec fn lo(i: nat, p: nat) -> nat {
    if p <= i {
        p
    } else {
        p + 1
    }
}

/// Where position `p` of a text lies once a character is put in at `i`, if
/// `p` is where a token starts.
pub open spec fn hi(i: nat, p: nat) -> nat {
    if p < i {
        p
    } else {
        p + 1
    }
}

/// Whether `class` is one of the classes that tokens are made of.
pub open spec fn is_token_class(class: CharClass) -> bool {
    class == CharClass::Ident || class == CharClass::Word || class == CharClass::Digit
}

/// Whether a token ends at `e`, if `e` is where the character goes in.
pub open spec fn token_ends(s: Text, i: nat, e: nat) -> bool {
    e == i ==> i > 0 && !is_edge(s[i - 1])
}

proof fn lemma_classes(c: char, class: CharClass)
    ensures
        is_token_class(class) && in_class(c, class) ==> !is_edge(c) && c != '"' && c != '\'',
        in_class(c, CharClass::Space) == is_space(c),
{
    reveal(in_class);
}

/// What stands where in the widened text.
pub(crate) proof fn lemma_widened(s: Text, i: nat, c: char)
    requires
        i <= s.len(),
    ensures
        widened(s, i, c).len() == s.len() + 1,
        widened(s, i, c)[i as int] == c,
        forall|k: int| 0 <= k < i ==> widened(s, i, c)[k] == s[k],
        forall|k: int| i < k <= s.len() ==> widened(s, i, c)[k] == s[k - 1],
{
}

proof fn lemma_run_shift(s: Text, i: nat, c: char, p: nat, class: CharClass)
    requires
        i <= p,
        i <= s.len(),
    ensures
        run(widened(s, i, c), p + 1, class) == run(s, p, class),
    decreases s.len() - p,
{
    lemma_widened(s, i, c);
    if p < s.len() {
        lemma_run_shift(s, i, c, p + 1, class);
    }
}

proof fn lemma_run_token(s: Text, i: nat, c: char, p: nat, class: CharClass)
    requires
        fits(s, i, c),
        is_token_class(class),
    ensures
        run(widened(s, i, c), hi(i, p), class) == run(s, p, class),
        p < i ==> p + run(s, p, class) <= i,
    decreases i - p,
{
    lemma_widened(s, i, c);
    lemma_classes(c, class);
    if p >= i {
        lemma_run_shift(s, i, c, p, class);
    } else {
        let t = widened(s, i, c);
        lemma_classes(s[p as int], class);
        assert(t[p as int] == s[p as int]);
        if in_class(s[p as int], class) {
            assert(run(t, p, class) == 1 + run(t, p + 1, class));
            if p + 1 < i {
                lemma_run_token(s, i, c, p + 1, class);
            } else {
                assert(t[i as int] == c);
                assert(run(t, i, class) == 0);
                if i < s.len() {
                    lemma_classes(s[i as int], class);
                }
                assert(run(s, i, class) == 0);
            }
        }
    }
}

proof fn lemma_run_end(s: Text, i: nat, c: char, e: nat, class: CharClass)
    requires
        fits(s, i, c),
        is_token_class(class),
        token_ends(s, i, e),
    ensures
        run(widened(s, i, c), lo(i, e), class) == run(s, e, class),
{
    lemma_widened(s, i, c);
    lemma_classes(c, class);
    if e != i {
        lemma_run_token(s, i, c, e, class);
    } else {
        let t = widened(s, i, c);
        assert(t[i as int] == c);
        assert(run(t, i, class) == 0);
        if i < s.len() {
            lemma_classes(s[i as int], class);
        }
        assert(run(s, i, class) == 0);
    }
}

proof fn lemma_space(s: Text, i: nat, c: char, p: nat)
    requires
        fits(s, i, c),
    ensures
        skip_space(widened(s, i, c), lo(i, p)) == hi(i, skip_space(s, p)),
        skip_space(widened(s, i, c), hi(i, p)) == hi(i, skip_space(s, p)),
    decreases i - p,
{
    lemma_widened(s, i, c);
    lemma_classes(c, CharClass::Space);
    let t = widened(s, i, c);
    if p >= i {
        lemma_run_shift(s, i, c, p, CharClass::Space);
        if p == i {
            assert(run(t, i, CharClass::Space) == 1 + run(t, i + 1, CharClass::Space));
        }
    } else {
        lemma_classes(s[p as int], CharClass::Space);
        if in_class(s[p as int], CharClass::Space) {
            lemma_space(s, i, c, p + 1);
            assert(run(t, p, CharClass::Space) == 1 + run(t, p + 1, CharClass::Space));
        }
    }
}

proof fn lemma_char(s: Text, i: nat, c: char, p: nat, ch: char)
    requires
        i <= s.len(),
    ensures
        has_char(widened(s, i, c), hi(i, p), ch) == has_char(s, p, ch),
{
    lemma_widened(s, i, c);
}

proof fn lemma_char_end(s: Text, i: nat, c: char, e: nat, ch: char)
    requires
        fits(s, i, c),
        token_ends(s, i, e),
        !is_edge(ch),
    ensures
        has_char(widened(s, i, c), lo(i, e), ch) == has_char(s, e, ch),
{
    lemma_widened(s, i, c);
}

proof fn lemma_piece(s: Text, i: nat, c: char, p: nat, n: nat)
    requires
        i <= s.len(),
        p + n <= s.len(),
        p >= i || p + n <= i,
    ensures
        piece(widened(s, i, c), hi(i, p), n) == piece(s, p, n),
{
    lemma_widened(s, i, c);
    assert(piece(widened(s, i, c), hi(i, p), n) =~= piece(s, p, n));
}

/// Whether no character of `w` is whitespace or a bracket.
pub open spec fn is_solid(w: Text) -> bool {
    forall|k: int| 0 <= k < w.len() ==> !is_edge(#[trigger] w[k])
}

proof fn lemma_text(s: Text, i: nat, c: char, p: nat, w: Text)
    requires
        fits(s, i, c),
        is_solid(w),
    ensures
        has_text(widened(s, i, c), hi(i, p), w) == has_text(s, p, w),
        has_text(s, p, w) && p < i ==> p + w.len() <= i,
{
    lemma_widened(s, i, c);
    let t = widened(s, i, c);
    if p >= i {
        if p + w.len() <= s.len() {
            assert(piece(t, p + 1, w.len()) =~= piece(s, p, w.len()));
        }
    } else if p + w.len() <= i {
        assert(piece(t, p, w.len()) =~= piece(s, p, w.len()));
    } else {
        if has_text(s, p, w) {
            assert(piece(s, p, w.len())[i - 1 - p] == w[i - 1 - p]);
            assert(piece(s, p, w.len())[i - p] == w[i - p]);
        }
        if has_text(t, p, w) {
            assert(piece(t, p, w.len())[i - p] == w[i - p]);
        }
    }
}

proof fn lemma_keyword(s: Text, i: nat, c: char, p: nat, w: Text)
    requires
        fits(s, i, c),
        is_solid(w),
        w.len() > 0,
    ensures
        has_keyword(widened(s, i, c), hi(i, p), w) == has_keyword(s, p, w),
        has_keyword(s, p, w) ==> hi(i, p) + w.len() == lo(i, p + w.len()),
{
    lemma_text(s, i, c, p, w);
    if has_text(s, p, w) {
        assert(piece(s, p, w.len())[w.len() - 1] == w[w.len() - 1]);
        lemma_run_end(s, i, c, p + w.len(), CharClass::Word);
    }
}

proof fn lemma_name(s: Text, i: nat, c: char, p: nat, class: CharClass)
    requires
        fits(s, i, c),
        is_token_class(class),
    ensures
        name_len(widened(s, i, c), hi(i, p), class) == name_len(s, p, class),
        name_len(s, p, class) matches Some(n) ==> 0 < n && p + n <= s.len() && hi(i, p) + n
            == lo(i, p + n) && token_ends(s, i, p + n) && piece(widened(s, i, c), hi(i, p), n)
            == piece(s, p, n),
{
    lemma_run_token(s, i, c, p, class);
    lemma_run_bound(s, p, class);
    let n = run(s, p, class);
    if n > 0 {
        lemma_piece(s, i, c, p, n);
        lemma_run_members(s, p, class, (p + n - 1) as nat);
        lemma_classes(s[p + n - 1], class);
    }
}

proof fn lemma_name_end(s: Text, i: nat, c: char, e: nat, class: CharClass)
    requires
        fits(s, i, c),
        is_token_class(class),
        token_ends(s, i, e),
    ensures
        name_len(widened(s, i, c), lo(i, e), class) == name_len(s, e, class),
        name_len(s, e, class) matches Some(n) ==> 0 < n && e + n <= s.len() && lo(i, e) + n
            == lo(i, e + n) && token_ends(s, i, e + n) && piece(widened(s, i, c), lo(i, e), n)
            == piece(s, e, n),
{
    lemma_run_end(s, i, c, e, class);
    if e != i {
        assert(lo(i, e) == hi(i, e));
        lemma_name(s, i, c, e, class);
    } else {
        lemma_widened(s, i, c);
        lemma_classes(c, class);
        assert(widened(s, i, c)[i as int] == c);
        assert(run(widened(s, i, c), i, class) == 0);
    }
}

/// Whether `b`, found at `q` in the widened text, is what `a` is, found at
/// `p` in the text itself: the same value over the same characters, a miss
/// for a miss, a failure of the same kind for a failure.
pub open spec fn same<V>(a: Parsed<V>, b: Parsed<V>, i: nat, p: nat, q: nat) -> bool {
    match a {
        Parsed::Done { value, len } => b matches Parsed::Done { value: other, len: other_len }
            && other == value && q + other_len == lo(i, p + len),
        Parsed::Miss { at } => b is Miss,
        Parsed::Fail { kind, at } => b matches Parsed::Fail { kind: other, at } && other == kind,
    }
}

proof fn lemma_same_or<V>(
    a1: Parsed<V>,
    a2: Parsed<V>,
    b1: Parsed<V>,
    b2: Parsed<V>,
    i: nat,
    p: nat,
    q: nat,
)
    requires
        same(a1, b1, i, p, q),
        same(a2, b2, i, p, q),
    ensures
        same(a1.or(a2), b1.or(b2), i, p, q),
{
}

proof fn space_head(s: Text, i: nat, c: char, p: nat, w: Text)
    requires
        fits(s, i, c),
        is_solid(w),
        w.len() > 0,
    ensures
        match head_at(s, p, w) {
            Ok(a) => head_at(widened(s, i, c), hi(i, p), w) == Ok::<nat, nat>(lo(i, a)) && p < a
                <= s.len(),
            Err(_) => head_at(widened(s, i, c), hi(i, p), w) is Err,
        },
{
    lemma_char(s, i, c, p, '(');
    lemma_space(s, i, c, p + 1);
    lemma_keyword(s, i, c, skip_space(s, p + 1), w);
}

proof fn space_dollar(s: Text, i: nat, c: char, p: nat)
    requires
        fits(s, i, c),
    ensures
        match dollar_at(s, p) {
            Ok(a) => dollar_at(widened(s, i, c), hi(i, p)) == Ok::<nat, nat>(lo(i, a)) && p < a
                <= s.len(),
            Err(_) => dollar_at(widened(s, i, c), hi(i, p)) is Err,
        },
{
    lemma_char(s, i, c, p, '(');
    lemma_space(s, i, c, p + 1);
    lemma_char(s, i, c, skip_space(s, p + 1), '$');
}

proof fn space_tag(s: Text, i: nat, c: char, p: nat)
    requires
        fits(s, i, c),
    ensures
        tag_at(widened(s, i, c), hi(i, p)) == tag_at(s, p),
        tag_at(s, p) matches Some(n) ==> 0 < n && p + 1 + n <= s.len() && hi(i, p) + 1 + n == lo(
            i,
            p + 1 + n,
        ) && piece(widened(s, i, c), hi(i, p) + 1, n) == piece(s, p + 1, n),
{
    lemma_char(s, i, c, p, ':');
    if has_char(s, p, ':') {
        lemma_name_end(s, i, c, p + 1, CharClass::Ident);
    }
}

proof fn space_names(s: Text, i: nat, c: char, p: nat, class: CharClass)
    requires
        fits(s, i, c),
        is_token_class(class),
        p <= s.len(),
    ensures
        names_at(widened(s, i, c), lo(i, p), class).0 == names_at(s, p, class).0,
        lo(i, p) + names_at(widened(s, i, c), lo(i, p), class).1 == lo(
            i,
            p + names_at(s, p, class).1,
        ),
    decreases rest(s, p),
{
    lemma_space(s, i, c, p);
    let n = skip_space(s, p);
    lemma_name(s, i, c, n, class);
    lemma_skip(s, p);
    if let Some(len) = name_len(s, n, class) {
        space_names(s, i, c, n + len, class);
    }
}

proof fn space_generics(s: Text, i: nat, c: char, p: nat, q: nat)
    requires
        fits(s, i, c),
        q == hi(i, p) || (q == lo(i, p) && token_ends(s, i, p)),
    ensures
        same(generics_at(s, p), generics_at(widened(s, i, c), q), i, p, q),
{
    reveal(generics_at);
    if q == hi(i, p) {
        lemma_char(s, i, c, p, '<');
    } else {
        lemma_char_end(s, i, c, p, '<');
    }
    if has_char(s, p, '<') {
        space_names(s, i, c, p + 1, CharClass::Word);
        let len = names_at(s, p + 1, CharClass::Word).1;
        lemma_space(s, i, c, p + 1 + len);
        lemma_char(s, i, c, skip_space(s, p + 1 + len), '>');
    }
}

proof fn space_opt_generics(s: Text, i: nat, c: char, p: nat)
    requires
        fits(s, i, c),
        p <= s.len(),
    ensures
        opt_generics_at(widened(s, i, c), lo(i, p)).0 == opt_generics_at(s, p).0,
        opt_generics_at(widened(s, i, c), lo(i, p)).1 == lo(i, opt_generics_at(s, p).1),
        p <= opt_generics_at(s, p).1 <= s.len(),
{
    lemma_space(s, i, c, p);
    let g = skip_space(s, p);
    space_generics(s, i, c, g, hi(i, g));
    lemma_opt_generics(s, p);
}

proof fn space_size(s: Text, i: nat, c: char, p: nat)
    requires
        fits(s, i, c),
        p <= s.len(),
    ensures
        size_at(widened(s, i, c), lo(i, p)) == (hi(i, size_at(s, p).0), size_at(s, p).1),
        skip_space(widened(s, i, c), hi(i, size_at(s, p).0) + size_at(s, p).1) == hi(
            i,
            skip_space(s, size_at(s, p).0 + size_at(s, p).1),
        ),
        piece(widened(s, i, c), hi(i, size_at(s, p).0), size_at(s, p).1) == piece(
            s,
            size_at(s, p).0,
            size_at(s, p).1,
        ),
{
    lemma_space(s, i, c, p);
    let q = skip_space(s, p);
    lemma_skip(s, p);
    lemma_run_token(s, i, c, q, CharClass::Digit);
    lemma_run_bound(s, q, CharClass::Digit);
    let d = run(s, q, CharClass::Digit);
    lemma_space(s, i, c, q + d);
    lemma_piece(s, i, c, q, d);
}

proof fn space_scalar(s: Text, i: nat, c: char, p: nat)
    requires
        fits(s, i, c),
    ensures
        same(scalar_at(s, p), scalar_at(widened(s, i, c), hi(i, p)), i, p, hi(i, p)),
{
    reveal(scalar_at);
    reveal_strlit("i8");
    lemma_keyword(s, i, c, p, "i8"@);
    reveal_strlit("i16");
    lemma_keyword(s, i, c, p, "i16"@);
    reveal_strlit("i32");
    lemma_keyword(s, i, c, p, "i32"@);
    reveal_strlit("i64");
    lemma_keyword(s, i, c, p, "i64"@);
    reveal_strlit("i128");
    lemma_keyword(s, i, c, p, "i128"@);
    reveal_strlit("u8");
    lemma_keyword(s, i, c, p, "u8"@);
    reveal_strlit("u16");
    lemma_keyword(s, i, c, p, "u16"@);
    reveal_strlit("u32");
    lemma_keyword(s, i, c, p, "u32"@);
    reveal_strlit("u64");
    lemma_keyword(s, i, c, p, "u64"@);
    reveal_strlit("u128");
    lemma_keyword(s, i, c, p, "u128"@);
    reveal_strlit("f16");
    lemma_keyword(s, i, c, p, "f16"@);
    reveal_strlit("f32");
    lemma_keyword(s, i, c, p, "f32"@);
    reveal_strlit("f64");
    lemma_keyword(s, i, c, p, "f64"@);
    reveal_strlit("f128");
    lemma_keyword(s, i, c, p, "f128"@);
    reveal_strlit("bool");
    lemma_keyword(s, i, c, p, "bool"@);
    reveal_strlit("void");
    lemma_keyword(s, i, c, p, "void"@);
}

/// A type is the same with more whitespace.
#[verifier::spinoff_prover]
pub(crate) proof fn space_type(s: Text, i: nat, c: char, p: nat, q: nat)
    requires
        fits(s, i, c),
        q == lo(i, p) || q == hi(i, p),
    ensures
        same(type_at(s, p), type_at(widened(s, i, c), q), i, p, q),
    decreases rest(s, p), 4nat,
{
    reveal(type_at);
    reveal(plain_at);
    reveal(composite_at);
    reveal(named_type_at);
    let t = widened(s, i, c);
    lemma_space(s, i, c, p);
    let ps = skip_space(s, p);
    space_plain(s, i, c, ps);
    space_composite(s, i, c, ps);
    lemma_name(s, i, c, ps, CharClass::Ident);
    lemma_same_or(
        plain_at(s, ps),
        composite_at(s, ps),
        plain_at(t, hi(i, ps)),
        composite_at(t, hi(i, ps)),
        i,
        ps,
        hi(i, ps),
    );
    lemma_same_or(
        plain_at(s, ps).or(composite_at(s, ps)),
        named_type_at(s, ps),
        plain_at(t, hi(i, ps)).or(composite_at(t, hi(i, ps))),
        named_type_at(t, hi(i, ps)),
        i,
        ps,
        hi(i, ps),
    );
}

#[verifier::spinoff_prover]
proof fn space_plain(s: Text, i: nat, c: char, p: nat)
    requires
        fits(s, i, c),
    ensures
        same(plain_at(s, p), plain_at(widened(s, i, c), hi(i, p)), i, p, hi(i, p)),
    decreases rest(s, p), 2nat,
{
    reveal(plain_at);
    reveal(array_at);
    reveal(pointer_at);
    reveal(tuple_at);
    let t = widened(s, i, c);
    let q = hi(i, p);
    space_scalar(s, i, c, p);
    space_array(s, i, c, p);
    space_pointer(s, i, c, p);
    space_tuple(s, i, c, p);
    lemma_same_or(scalar_at(s, p), array_at(s, p), scalar_at(t, q), array_at(t, q), i, p, q);
    lemma_same_or(
        scalar_at(s, p).or(array_at(s, p)),
        pointer_at(s, p),
        scalar_at(t, q).or(array_at(t, q)),
        pointer_at(t, q),
        i,
        p,
        q,
    );
    lemma_same_or(
        scalar_at(s, p).or(array_at(s, p)).or(pointer_at(s, p)),
        tuple_at(s, p),
        scalar_at(t, q).or(array_at(t, q)).or(pointer_at(t, q)),
        tuple_at(t, q),
        i,
        p,
        q,
    );
}

#[verifier::spinoff_prover]
proof fn space_array(s: Text, i: nat, c: char, p: nat)
    requires
        fits(s, i, c),
    ensures
        same(array_at(s, p), array_at(widened(s, i, c), hi(i, p)), i, p, hi(i, p)),
    decreases rest(s, p), 1nat,
{
    reveal(array_at);
    reveal(bracket_array_at);
    reveal(long_array_at);
    let t = widened(s, i, c);
    let q = hi(i, p);
    space_bracket_array(s, i, c, p);
    space_generic_array(s, i, c, p);
    space_long_array(s, i, c, p);
    lemma_same_or(
        bracket_array_at(s, p),
        generic_array_at(s, p),
        bracket_array_at(t, q),
        generic_array_at(t, q),
        i,
        p,
        q,
    );
    lemma_same_or(
        bracket_array_at(s, p).or(generic_array_at(s, p)),
        long_array_at(s, p),
        bracket_array_at(t, q).or(generic_array_at(t, q)),
        long_array_at(t, q),
        i,
        p,
        q,
    );
}

#[verifier::spinoff_prover]
proof fn space_bracket_array(s: Text, i: nat, c: char, p: nat)
    requires
        fits(s, i, c),
    ensures
        same(bracket_array_at(s, p), bracket_array_at(widened(s, i, c), hi(i, p)), i, p, hi(i, p)),
    decreases rest(s, p), 0nat,
{
    reveal(bracket_array_at);
    reveal(type_at);
    lemma_char(s, i, c, p, '[');
    if has_char(s, p, '[') {
        space_type(s, i, c, p + 1, lo(i, p + 1));
        lemma_type(s, p + 1);
        if let Parsed::Done { value, len } = type_at(s, p + 1) {
            space_size(s, i, c, p + 1 + len);
            let (q, d) = size_at(s, p + 1 + len);
            lemma_char(s, i, c, skip_space(s, q + d), ']');
        }
    }
}

proof fn space_generic_array(s: Text, i: nat, c: char, p: nat)
    requires
        fits(s, i, c),
    ensures
        same(generic_array_at(s, p), generic_array_at(widened(s, i, c), hi(i, p)), i, p, hi(i, p)),
{
    reveal(generic_array_at);
    reveal_strlit("array");
    space_head(s, i, c, p, "array"@);
    if let Ok(a) = head_at(s, p, "array"@) {
        lemma_space(s, i, c, a);
        let g = skip_space(s, a);
        space_generics(s, i, c, g, hi(i, g));
        lemma_skip(s, a);
        lemma_generics(s, g);
        if let Parsed::Done { value, len } = generics_at(s, g) {
            space_size(s, i, c, g + len);
            let (q, d) = size_at(s, g + len);
            lemma_char(s, i, c, skip_space(s, q + d), ')');
        }
    }
}

#[verifier::spinoff_prover]
proof fn space_long_array(s: Text, i: nat, c: char, p: nat)
    requires
        fits(s, i, c),
    ensures
        same(long_array_at(s, p), long_array_at(widened(s, i, c), hi(i, p)), i, p, hi(i, p)),
    decreases rest(s, p), 0nat,
{
    reveal(long_array_at);
    reveal(type_at);
    reveal_strlit("array");
    space_head(s, i, c, p, "array"@);
    if let Ok(a) = head_at(s, p, "array"@) {
        space_type(s, i, c, a, lo(i, a));
        lemma_type(s, a);
        if let Parsed::Done { value, len } = type_at(s, a) {
            space_size(s, i, c, a + len);
            let (q, d) = size_at(s, a + len);
            lemma_char(s, i, c, skip_space(s, q + d), ')');
        }
    }
}

#[verifier::spinoff_prover]
proof fn space_pointer(s: Text, i: nat, c: char, p: nat)
    requires
        fits(s, i, c),
    ensures
        same(pointer_at(s, p), pointer_at(widened(s, i, c), hi(i, p)), i, p, hi(i, p)),
    decreases rest(s, p), 1nat,
{
    reveal(pointer_at);
    reveal(generic_ptr_at);
    reveal(ptr_at);
    reveal(type_at);
    reveal_strlit("ptr");
    space_head(s, i, c, p, "ptr"@);
    if let Ok(a) = head_at(s, p, "ptr"@) {
        lemma_space(s, i, c, a);
        let g = skip_space(s, a);
        space_generics(s, i, c, g, hi(i, g));
        lemma_skip(s, a);
        lemma_generics(s, g);
        if let Parsed::Done { value, len } = generics_at(s, g) {
            lemma_space(s, i, c, g + len);
            lemma_char(s, i, c, skip_space(s, g + len), ')');
        }
        space_type(s, i, c, a, lo(i, a));
        lemma_type(s, a);
        if let Parsed::Done { value, len } = type_at(s, a) {
            lemma_space(s, i, c, a + len);
            lemma_char(s, i, c, skip_space(s, a + len), ')');
        }
    }
}

#[verifier::spinoff_prover]
proof fn space_tuple(s: Text, i: nat, c: char, p: nat)
    requires
        fits(s, i, c),
    ensures
        same(tuple_at(s, p), tuple_at(widened(s, i, c), hi(i, p)), i, p, hi(i, p)),
    decreases rest(s, p), 1nat,
{
    reveal(tuple_at);
    reveal(brace_tuple_at);
    reveal(long_tuple_at);
    reveal(types_at);
    reveal_strlit("tuple");
    lemma_char(s, i, c, p, '{');
    if has_char(s, p, '{') {
        space_types(s, i, c, p + 1);
        if let Parsed::Done { value, len } = types_at(s, p + 1) {
            lemma_space(s, i, c, p + 1 + len);
            lemma_char(s, i, c, skip_space(s, p + 1 + len), '}');
        }
    }
    space_head(s, i, c, p, "tuple"@);
    if let Ok(a) = head_at(s, p, "tuple"@) {
        space_opt_generics(s, i, c, a);
        let b = opt_generics_at(s, a).1;
        space_types(s, i, c, b);
        if let Parsed::Done { value, len } = types_at(s, b) {
            lemma_space(s, i, c, b + len);
            lemma_char(s, i, c, skip_space(s, b + len), ')');
        }
    }
}

/// No type starts where the text has ended.
#[verifier::spinoff_prover]
pub(crate) proof fn lemma_no_type_at_end(s: Text, p: nat)
    requires
        skip_space(s, p) >= s.len(),
    ensures
        type_at(s, p) is Miss,
{
    let q = skip_space(s, p);
    assert(scalar_at(s, q) is Miss) by {
        reveal(scalar_at);
        reveal_strlit("i8");
        reveal_strlit("i16");
        reveal_strlit("i32");
        reveal_strlit("i64");
        reveal_strlit("i128");
        reveal_strlit("u8");
        reveal_strlit("u16");
        reveal_strlit("u32");
        reveal_strlit("u64");
        reveal_strlit("u128");
        reveal_strlit("f16");
        reveal_strlit("f32");
        reveal_strlit("f64");
        reveal_strlit("f128");
        reveal_strlit("bool");
        reveal_strlit("void");
    }
    assert(array_at(s, q) is Miss) by {
        reveal(array_at);
        reveal(bracket_array_at);
        reveal(generic_array_at);
        reveal(long_array_at);
    }
    assert(pointer_at(s, q) is Miss) by {
        reveal(pointer_at);
        reveal(generic_ptr_at);
        reveal(ptr_at);
    }
    assert(tuple_at(s, q) is Miss) by {
        reveal(tuple_at);
        reveal(brace_tuple_at);
        reveal(long_tuple_at);
    }
    assert(composite_at(s, q) is Miss) by {
        reveal(composite_at);
        reveal(fn_type_at);
        reveal(data_at);
        reveal(struct_at);
        reveal_strlit("fn");
    }
    assert(named_type_at(s, q) is Miss) by {
        reveal(named_type_at);
        lemma_run_bound(s, q, CharClass::Ident);
    }
    reveal(type_at);
    reveal(plain_at);
    reveal(array_at);
    reveal(pointer_at);
    reveal(tuple_at);
    reveal(composite_at);
}

/// A row of types is the same with more whitespace.
#[verifier::spinoff_prover]
pub(crate) proof fn space_types(s: Text, i: nat, c: char, p: nat)
    requires
        fits(s, i, c),
        p <= s.len(),
    ensures
        same(types_at(s, p), types_at(widened(s, i, c), lo(i, p)), i, p, lo(i, p)),
    decreases rest(s, p), 5nat,
{
    reveal(types_at);
    reveal(type_at);
    let t = widened(s, i, c);
    lemma_widened(s, i, c);
    if p < s.len() {
        space_type(s, i, c, p, lo(i, p));
        lemma_type(s, p);
        if let Parsed::Done { value, len } = type_at(s, p) {
            if len > 0 {
                space_types(s, i, c, p + len);
            }
        }
    } else if lo(i, p) < t.len() {
        lemma_space(s, i, c, p);
        lemma_run_bound(s, p, CharClass::Space);
        lemma_no_type_at_end(t, lo(i, p));
    }
}

#[verifier::spinoff_prover]
proof fn space_composite(s: Text, i: nat, c: char, p: nat)
    requires
        fits(s, i, c),
    ensures
        same(composite_at(s, p), composite_at(widened(s, i, c), hi(i, p)), i, p, hi(i, p)),
    decreases rest(s, p), 1nat,
{
    reveal(composite_at);
    reveal(fn_type_at);
    reveal(data_at);
    reveal(struct_at);
    let t = widened(s, i, c);
    let q = hi(i, p);
    space_fn_type(s, i, c, p);
    space_data(s, i, c, p);
    space_struct(s, i, c, p);
    lemma_same_or(fn_type_at(s, p), data_at(s, p), fn_type_at(t, q), data_at(t, q), i, p, q);
    lemma_same_or(
        fn_type_at(s, p).or(data_at(s, p)),
        struct_at(s, p),
        fn_type_at(t, q).or(data_at(t, q)),
        struct_at(t, q),
        i,
        p,
        q,
    );
}

/// Where the closing bracket of a parameter list is due, after the variadic
/// marker if there is one.
proof fn space_marker(s: Text, i: nat, c: char, e: nat)
    requires
        fits(s, i, c),
    ensures
        has_text(widened(s, i, c), skip_space(widened(s, i, c), lo(i, e)), "..."@) == has_text(
            s,
            skip_space(s, e),
            "..."@,
        ),
        skip_space(widened(s, i, c), lo(i, e)) == hi(i, skip_space(s, e)),
        skip_space(widened(s, i, c), skip_space(widened(s, i, c), lo(i, e)) + "..."@.len()) == hi(
            i,
            skip_space(s, skip_space(s, e) + "..."@.len()),
        ) || !has_text(s, skip_space(s, e), "..."@),
{
    reveal_strlit("...");
    lemma_space(s, i, c, e);
    let d = skip_space(s, e);
    lemma_text(s, i, c, d, "..."@);
    lemma_space(s, i, c, d + "..."@.len());
}

#[verifier::spinoff_prover]
proof fn space_fn_type(s: Text, i: nat, c: char, p: nat)
    requires
        fits(s, i, c),
    ensures
        same(fn_type_at(s, p), fn_type_at(widened(s, i, c), hi(i, p)), i, p, hi(i, p)),
    decreases rest(s, p), 0nat,
{
    reveal(fn_type_at);
    reveal(types_at);
    reveal(type_at);
    reveal_strlit("fn");
    lemma_keyword(s, i, c, p, "fn"@);
    if has_keyword(s, p, "fn"@) {
        let a = p + "fn"@.len();
        space_opt_generics(s, i, c, a);
        let b = opt_generics_at(s, a).1;
        lemma_space(s, i, c, b);
        let o = skip_space(s, b);
        lemma_char(s, i, c, o, '[');
        if has_char(s, o, '[') {
            space_types(s, i, c, o + 1);
            if let Parsed::Done { value, len } = types_at(s, o + 1) {
                space_marker(s, i, c, o + 1 + len);
                let d = skip_space(s, o + 1 + len);
                let close = if has_text(s, d, "..."@) {
                    skip_space(s, d + "..."@.len())
                } else {
                    d
                };
                lemma_char(s, i, c, close, ']');
                if has_char(s, close, ']') {
                    space_type(s, i, c, close + 1, lo(i, close + 1));
                }
            }
        }
    }
}

#[verifier::spinoff_prover]
proof fn space_variant(s: Text, i: nat, c: char, p: nat)
    requires
        fits(s, i, c),
    ensures
        same(variant_at(s, p), variant_at(widened(s, i, c), hi(i, p)), i, p, hi(i, p)),
    decreases rest(s, p), 0nat,
{
    reveal(variant_at);
    reveal(types_at);
    lemma_char(s, i, c, p, '[');
    if has_char(s, p, '[') {
        lemma_space(s, i, c, p + 1);
        let t = skip_space(s, p + 1);
        space_tag(s, i, c, t);
        if let Some(n) = tag_at(s, t) {
            space_types(s, i, c, t + 1 + n);
            if let Parsed::Done { value, len } = types_at(s, t + 1 + n) {
                lemma_space(s, i, c, t + 1 + n + len);
                lemma_char(s, i, c, skip_space(s, t + 1 + n + len), ']');
            }
        }
    }
}

#[verifier::spinoff_prover]
proof fn space_variants(s: Text, i: nat, c: char, p: nat)
    requires
        fits(s, i, c),
        p <= s.len(),
    ensures
        same(variants_at(s, p), variants_at(widened(s, i, c), lo(i, p)), i, p, lo(i, p)),
    decreases rest(s, p), 4nat,
{
    reveal(variants_at);
    reveal(variant_at);
    lemma_widened(s, i, c);
    lemma_space(s, i, c, p);
    lemma_skip(s, p);
    let ps = skip_space(s, p);
    space_variant(s, i, c, ps);
    if let Parsed::Done { value, len } = variant_at(s, ps) {
        if len > 0 && ps < s.len() {
            space_variants(s, i, c, ps + len);
        }
    }
}

#[verifier::spinoff_prover]
proof fn space_data(s: Text, i: nat, c: char, p: nat)
    requires
        fits(s, i, c),
    ensures
        same(data_at(s, p), data_at(widened(s, i, c), hi(i, p)), i, p, hi(i, p)),
    decreases rest(s, p), 0nat,
{
    reveal(data_at);
    reveal(variants_at);
    reveal_strlit("data");
    space_head(s, i, c, p, "data"@);
    if let Ok(a) = head_at(s, p, "data"@) {
        space_opt_generics(s, i, c, a);
        let b = opt_generics_at(s, a).1;
        space_variants(s, i, c, b);
        if let Parsed::Done { value, len } = variants_at(s, b) {
            lemma_space(s, i, c, b + len);
            lemma_char(s, i, c, skip_space(s, b + len), ')');
        }
    }
}

/// A field is the same with more whitespace.
#[verifier::spinoff_prover]
pub(crate) proof fn space_field(s: Text, i: nat, c: char, p: nat)
    requires
        fits(s, i, c),
    ensures
        same(field_at(s, p), field_at(widened(s, i, c), hi(i, p)), i, p, hi(i, p)),
    decreases rest(s, p), 0nat,
{
    reveal(field_at);
    reveal(type_at);
    lemma_char(s, i, c, p, '(');
    if has_char(s, p, '(') {
        lemma_space(s, i, c, p + 1);
        let t = skip_space(s, p + 1);
        space_tag(s, i, c, t);
        if let Some(n) = tag_at(s, t) {
            space_type(s, i, c, t + 1 + n, lo(i, t + 1 + n));
            if let Parsed::Done { value, len } = type_at(s, t + 1 + n) {
                lemma_space(s, i, c, t + 1 + n + len);
                lemma_char(s, i, c, skip_space(s, t + 1 + n + len), ')');
            }
        }
    }
}

/// A row of fields is the same with more whitespace.
#[verifier::spinoff_prover]
pub(crate) proof fn space_fields(s: Text, i: nat, c: char, p: nat)
    requires
        fits(s, i, c),
        p <= s.len(),
    ensures
        same(fields_at(s, p), fields_at(widened(s, i, c), lo(i, p)), i, p, lo(i, p)),
    decreases rest(s, p), 4nat,
{
    reveal(fields_at);
    reveal(field_at);
    lemma_widened(s, i, c);
    lemma_space(s, i, c, p);
    lemma_skip(s, p);
    let ps = skip_space(s, p);
    space_field(s, i, c, ps);
    if let Parsed::Done { value, len } = field_at(s, ps) {
        if len > 0 && ps < s.len() {
            space_fields(s, i, c, ps + len);
        }
    }
}

#[verifier::spinoff_prover]
proof fn space_struct(s: Text, i: nat, c: char, p: nat)
    requires
        fits(s, i, c),
    ensures
        same(struct_at(s, p), struct_at(widened(s, i, c), hi(i, p)), i, p, hi(i, p)),
    decreases rest(s, p), 0nat,
{
    reveal(struct_at);
    reveal(fields_at);
    reveal_strlit("struct");
    space_head(s, i, c, p, "struct"@);
    if let Ok(a) = head_at(s, p, "struct"@) {
        space_opt_generics(s, i, c, a);
        let b = opt_generics_at(s, a).1;
        space_fields(s, i, c, b);
        if let Parsed::Done { value, len } = fields_at(s, b) {
            lemma_space(s, i, c, b + len);
            lemma_char(s, i, c, skip_space(s, b + len), ')');
        }
    }
}

proof fn lemma_same_with<V, W>(
    a: Parsed<V>,
    b: Parsed<V>,
    f: spec_fn(V) -> W,
    i: nat,
    p: nat,
    q: nat,
)
    requires
        same(a, b, i, p, q),
    ensures
        same(a.with(f), b.with(f), i, p, q),
{
}

proof fn space_closed<V>(s: Text, i: nat, c: char, p: nat, end: nat, ch: char, value: V)
    requires
        fits(s, i, c),
        p <= end,
    ensures
        same(
            closed(s, p, end, ch, value),
            closed(widened(s, i, c), hi(i, p), lo(i, end), ch, value),
            i,
            p,
            hi(i, p),
        ),
{
    lemma_space(s, i, c, end);
    lemma_char(s, i, c, skip_space(s, end), ch);
}

proof fn space_number(s: Text, i: nat, c: char, p: nat)
    requires
        fits(s, i, c),
    ensures
        same(number_at(s, p), number_at(widened(s, i, c), hi(i, p)), i, p, hi(i, p)),
{
    reveal(number_at);
    let t = widened(s, i, c);
    lemma_run_token(s, i, c, p, CharClass::Digit);
    lemma_run_bound(s, p, CharClass::Digit);
    lemma_widened(s, i, c);
    let whole = run(s, p, CharClass::Digit);
    if whole > 0 {
        lemma_run_members(s, p, CharClass::Digit, (p + whole - 1) as nat);
        lemma_classes(s[p + whole - 1], CharClass::Digit);
        lemma_piece(s, i, c, p, whole);
        lemma_char_end(s, i, c, p + whole, '.');
        if has_char(s, p + whole, '.') {
            let after = p + whole + 1;
            lemma_run_end(s, i, c, after, CharClass::Digit);
            lemma_run_bound(s, after, CharClass::Digit);
            let fraction = run(s, after, CharClass::Digit);
            if fraction > 0 {
                lemma_run_token(s, i, c, after, CharClass::Digit);
                lemma_piece(s, i, c, p, whole + 1 + fraction);
            }
        }
    }
}

proof fn space_literal(s: Text, i: nat, c: char, p: nat)
    requires
        fits(s, i, c),
    ensures
        same(literal_at(s, p), literal_at(widened(s, i, c), hi(i, p)), i, p, hi(i, p)),
{
    let t = widened(s, i, c);
    let q = hi(i, p);
    space_number(s, i, c, p);
    assert(same(bool_at(s, p), bool_at(t, q), i, p, q)) by {
        reveal(bool_at);
        reveal_strlit("true");
        reveal_strlit("false");
        lemma_keyword(s, i, c, p, "true"@);
        lemma_keyword(s, i, c, p, "false"@);
    }
    assert(same(atom_at(s, p), atom_at(t, q), i, p, q)) by {
        reveal(atom_at);
        space_tag(s, i, c, p);
    }
    assert(quoted_at(s, p) is Miss && quoted_at(t, q) is Miss) by {
        reveal(quoted_at);
        reveal(char_at);
        reveal(string_at);
        lemma_char(s, i, c, p, '\'');
        lemma_char(s, i, c, p, '"');
    }
    reveal(literal_at);
    lemma_same_or(number_at(s, p), bool_at(s, p), number_at(t, q), bool_at(t, q), i, p, q);
    lemma_same_or(
        number_at(s, p).or(bool_at(s, p)),
        atom_at(s, p),
        number_at(t, q).or(bool_at(t, q)),
        atom_at(t, q),
        i,
        p,
        q,
    );
}

/// A statement is the same with more whitespace.
#[verifier::spinoff_prover]
pub(crate) proof fn space_stmt(s: Text, i: nat, c: char, p: nat, q: nat)
    requires
        fits(s, i, c),
        q == lo(i, p) || q == hi(i, p),
    ensures
        same(stmt_at(s, p), stmt_at(widened(s, i, c), q), i, p, q),
    decreases rest(s, p), 4nat,
{
    reveal(stmt_at);
    reveal(stmt_choice_at);
    lemma_space(s, i, c, p);
    space_stmt_choice(s, i, c, skip_space(s, p));
}

#[verifier::spinoff_prover]
proof fn space_stmt_choice(s: Text, i: nat, c: char, p: nat)
    requires
        fits(s, i, c),
    ensures
        same(stmt_choice_at(s, p), stmt_choice_at(widened(s, i, c), hi(i, p)), i, p, hi(i, p)),
    decreases rest(s, p), 3nat,
{
    let t = widened(s, i, c);
    let q = hi(i, p);
    space_paren(s, i, c, p);
    space_collection(s, i, c, p);
    assert(same(atomic_at(s, p), atomic_at(t, q), i, p, q)) by {
        reveal(atomic_at);
        reveal(ident_at);
        lemma_name(s, i, c, p, CharClass::Ident);
        space_literal(s, i, c, p);
        lemma_same_with(
            literal_at(s, p),
            literal_at(t, q),
            |l: LiteralModel| StmtModel::Literal(l),
            i,
            p,
            q,
        );
    }
    reveal(stmt_choice_at);
    reveal(paren_at);
    reveal(collection_at);
    lemma_same_or(
        paren_at(s, p),
        collection_at(s, p),
        paren_at(t, q),
        collection_at(t, q),
        i,
        p,
        q,
    );
}

/// No statement starts where the text has ended.
#[verifier::spinoff_prover]
pub(crate) proof fn lemma_no_stmt_at_end(s: Text, p: nat)
    requires
        skip_space(s, p) >= s.len(),
    ensures
        stmt_at(s, p) is Miss,
{
    let q = skip_space(s, p);
    assert(keyword_form_at(s, q) is Miss) by {
        reveal(keyword_form_at);
        reveal(if_at);
        reveal(do_at);
        reveal(def_at);
    }
    assert(access_at(s, q) is Miss) by {
        reveal(access_at);
        reveal(field_access_at);
        reveal(index_access_at);
    }
    assert(fn_literal_at(s, q) is Miss) by {
        reveal(fn_literal_at);
        reveal(fn_at);
    }
    assert(calling_at(s, q) is Miss) by {
        reveal(calling_at);
        reveal(generic_call_at);
        reveal(call_at);
    }
    assert(collection_at(s, q) is Miss) by {
        reveal(collection_at);
        reveal(tuple_literal_at);
        reveal(data_literal_at);
        reveal(array_literal_at);
    }
    assert(atomic_at(s, q) is Miss) by {
        reveal(atomic_at);
        reveal(ident_at);
        reveal(literal_at);
        reveal(number_at);
        reveal(bool_at);
        reveal(atom_at);
        reveal(quoted_at);
        reveal(char_at);
        reveal(string_at);
        reveal_strlit("true");
        reveal_strlit("false");
        lemma_run_bound(s, q, CharClass::Ident);
        lemma_run_bound(s, q, CharClass::Digit);
    }
    reveal(stmt_at);
    reveal(stmt_choice_at);
    reveal(paren_at);
    reveal(keyword_form_at);
    reveal(access_at);
    reveal(fn_literal_at);
    reveal(calling_at);
    reveal(collection_at);
}

/// A row of statements is the same with more whitespace.
#[verifier::spinoff_prover]
pub(crate) proof fn space_stmts(s: Text, i: nat, c: char, p: nat)
    requires
        fits(s, i, c),
        p <= s.len(),
    ensures
        same(stmts_at(s, p), stmts_at(widened(s, i, c), lo(i, p)), i, p, lo(i, p)),
    decreases rest(s, p), 5nat,
{
    reveal(stmts_at);
    reveal(stmt_at);
    let t = widened(s, i, c);
    lemma_widened(s, i, c);
    if p < s.len() {
        space_stmt(s, i, c, p, lo(i, p));
        lemma_stmt(s, p);
        if let Parsed::Done { value, len } = stmt_at(s, p) {
            if len > 0 {
                space_stmts(s, i, c, p + len);
            }
        }
    } else if lo(i, p) < t.len() {
        lemma_space(s, i, c, p);
        lemma_run_bound(s, p, CharClass::Space);
        lemma_no_stmt_at_end(t, lo(i, p));
    }
}

#[verifier::spinoff_prover]
proof fn space_paren(s: Text, i: nat, c: char, p: nat)
    requires
        fits(s, i, c),
    ensures
        same(paren_at(s, p), paren_at(widened(s, i, c), hi(i, p)), i, p, hi(i, p)),
    decreases rest(s, p), 2nat,
{
    reveal(paren_at);
    reveal(keyword_form_at);
    reveal(access_at);
    reveal(fn_literal_at);
    reveal(calling_at);
    let t = widened(s, i, c);
    let q = hi(i, p);
    space_keyword_form(s, i, c, p);
    space_access(s, i, c, p);
    space_fn_literal(s, i, c, p);
    space_calling(s, i, c, p);
    lemma_same_or(
        keyword_form_at(s, p),
        access_at(s, p),
        keyword_form_at(t, q),
        access_at(t, q),
        i,
        p,
        q,
    );
    lemma_same_or(
        keyword_form_at(s, p).or(access_at(s, p)),
        fn_literal_at(s, p),
        keyword_form_at(t, q).or(access_at(t, q)),
        fn_literal_at(t, q),
        i,
        p,
        q,
    );
    lemma_same_or(
        keyword_form_at(s, p).or(access_at(s, p)).or(fn_literal_at(s, p)),
        calling_at(s, p),
        keyword_form_at(t, q).or(access_at(t, q)).or(fn_literal_at(t, q)),
        calling_at(t, q),
        i,
        p,
        q,
    );
}

#[verifier::spinoff_prover]
proof fn space_keyword_form(s: Text, i: nat, c: char, p: nat)
    requires
        fits(s, i, c),
    ensures
        same(keyword_form_at(s, p), keyword_form_at(widened(s, i, c), hi(i, p)), i, p, hi(i, p)),
    decreases rest(s, p), 1nat,
{
    reveal(keyword_form_at);
    reveal(if_at);
    reveal(do_at);
    reveal(def_at);
    let t = widened(s, i, c);
    let q = hi(i, p);
    space_if(s, i, c, p);
    space_do(s, i, c, p);
    space_def(s, i, c, p);
    lemma_same_or(if_at(s, p), do_at(s, p), if_at(t, q), do_at(t, q), i, p, q);
    lemma_same_or(
        if_at(s, p).or(do_at(s, p)),
        def_at(s, p),
        if_at(t, q).or(do_at(t, q)),
        def_at(t, q),
        i,
        p,
        q,
    );
}

#[verifier::spinoff_prover]
proof fn space_if(s: Text, i: nat, c: char, p: nat)
    requires
        fits(s, i, c),
    ensures
        same(if_at(s, p), if_at(widened(s, i, c), hi(i, p)), i, p, hi(i, p)),
    decreases rest(s, p), 0nat,
{
    reveal(if_at);
    reveal(stmt_at);
    reveal_strlit("if");
    space_head(s, i, c, p, "if"@);
    if let Ok(a) = head_at(s, p, "if"@) {
        space_stmt(s, i, c, a, lo(i, a));
        if let Parsed::Done { value: condition, len: l1 } = stmt_at(s, a) {
            space_stmt(s, i, c, a + l1, lo(i, a + l1));
            if let Parsed::Done { value: then, len: l2 } = stmt_at(s, a + l1) {
                space_stmt(s, i, c, a + l1 + l2, lo(i, a + l1 + l2));
                match stmt_at(s, a + l1 + l2) {
                    Parsed::Done { value: otherwise, len: l3 } => {
                        space_closed(
                            s,
                            i,
                            c,
                            p,
                            a + l1 + l2 + l3,
                            ')',
                            StmtModel::IfElse(
                                Box::new(condition),
                                Box::new(then),
                                Box::new(otherwise),
                            ),
                        );
                    },
                    _ => {
                        space_closed(
                            s,
                            i,
                            c,
                            p,
                            a + l1 + l2,
                            ')',
                            StmtModel::If(Box::new(condition), Box::new(then)),
                        );
                    },
                }
            }
        }
    }
}

#[verifier::spinoff_prover]
proof fn space_do(s: Text, i: nat, c: char, p: nat)
    requires
        fits(s, i, c),
    ensures
        same(do_at(s, p), do_at(widened(s, i, c), hi(i, p)), i, p, hi(i, p)),
    decreases rest(s, p), 0nat,
{
    reveal(do_at);
    reveal(stmts_at);
    reveal_strlit("do");
    space_head(s, i, c, p, "do"@);
    if let Ok(a) = head_at(s, p, "do"@) {
        space_stmts(s, i, c, a);
        if let Parsed::Done { value, len } = stmts_at(s, a) {
            space_closed(s, i, c, p, a + len, ')', StmtModel::DoBlock(value));
        }
    }
}

#[verifier::spinoff_prover]
proof fn space_def(s: Text, i: nat, c: char, p: nat)
    requires
        fits(s, i, c),
    ensures
        same(def_at(s, p), def_at(widened(s, i, c), hi(i, p)), i, p, hi(i, p)),
    decreases rest(s, p), 0nat,
{
    reveal(def_at);
    reveal(stmt_at);
    reveal_strlit("def");
    space_head(s, i, c, p, "def"@);
    if let Ok(a) = head_at(s, p, "def"@) {
        lemma_space(s, i, c, a);
        let n = skip_space(s, a);
        lemma_name(s, i, c, n, CharClass::Ident);
        if let Some(len) = name_len(s, n, CharClass::Ident) {
            space_stmt(s, i, c, n + len, lo(i, n + len));
            if let Parsed::Done { value, len: used } = stmt_at(s, n + len) {
                space_closed(
                    s,
                    i,
                    c,
                    p,
                    n + len + used,
                    ')',
                    StmtModel::DefVar(piece(s, n, len), Box::new(value)),
                );
            }
        }
    }
}

#[verifier::spinoff_prover]
proof fn space_access(s: Text, i: nat, c: char, p: nat)
    requires
        fits(s, i, c),
    ensures
        same(access_at(s, p), access_at(widened(s, i, c), hi(i, p)), i, p, hi(i, p)),
    decreases rest(s, p), 1nat,
{
    reveal(access_at);
    reveal(field_access_at);
    reveal(index_access_at);
    let t = widened(s, i, c);
    let q = hi(i, p);
    space_field_access(s, i, c, p);
    space_index_access(s, i, c, p);
    lemma_same_or(
        field_access_at(s, p),
        index_access_at(s, p),
        field_access_at(t, q),
        index_access_at(t, q),
        i,
        p,
        q,
    );
}

#[verifier::spinoff_prover]
proof fn space_field_access(s: Text, i: nat, c: char, p: nat)
    requires
        fits(s, i, c),
    ensures
        same(field_access_at(s, p), field_access_at(widened(s, i, c), hi(i, p)), i, p, hi(i, p)),
    decreases rest(s, p), 0nat,
{
    reveal(field_access_at);
    reveal(stmt_at);
    space_dollar(s, i, c, p);
    if let Ok(a) = dollar_at(s, p) {
        lemma_space(s, i, c, a);
        let t = skip_space(s, a);
        space_tag(s, i, c, t);
        if let Some(n) = tag_at(s, t) {
            let b = t + 1 + n;
            space_stmt(s, i, c, b, lo(i, b));
            if let Parsed::Done { value: target, len: l1 } = stmt_at(s, b) {
                space_stmt(s, i, c, b + l1, lo(i, b + l1));
                match stmt_at(s, b + l1) {
                    Parsed::Done { value, len: l2 } => {
                        space_closed(
                            s,
                            i,
                            c,
                            p,
                            b + l1 + l2,
                            ')',
                            StmtModel::SetField(
                                piece(s, t + 1, n),
                                Box::new(target),
                                Box::new(value),
                            ),
                        );
                    },
                    _ => {
                        space_closed(
                            s,
                            i,
                            c,
                            p,
                            b + l1,
                            ')',
                            StmtModel::GetField(piece(s, t + 1, n), Box::new(target)),
                        );
                    },
                }
            }
        }
    }
}

#[verifier::spinoff_prover]
proof fn space_index_access(s: Text, i: nat, c: char, p: nat)
    requires
        fits(s, i, c),
    ensures
        same(index_access_at(s, p), index_access_at(widened(s, i, c), hi(i, p)), i, p, hi(i, p)),
    decreases rest(s, p), 0nat,
{
    reveal(index_access_at);
    reveal(stmt_at);
    space_dollar(s, i, c, p);
    if let Ok(a) = dollar_at(s, p) {
        lemma_space(s, i, c, a);
        let o = skip_space(s, a);
        lemma_char(s, i, c, o, '[');
        if has_char(s, o, '[') {
            space_stmt(s, i, c, o + 1, lo(i, o + 1));
            if let Parsed::Done { value: index, len: l0 } = stmt_at(s, o + 1) {
                lemma_space(s, i, c, o + 1 + l0);
                let close = skip_space(s, o + 1 + l0);
                lemma_char(s, i, c, close, ']');
                if has_char(s, close, ']') {
                    let b = close + 1;
                    space_stmt(s, i, c, b, lo(i, b));
                    if let Parsed::Done { value: target, len: l1 } = stmt_at(s, b) {
                        space_stmt(s, i, c, b + l1, lo(i, b + l1));
                        match stmt_at(s, b + l1) {
                            Parsed::Done { value, len: l2 } => {
                                space_closed(
                                    s,
                                    i,
                                    c,
                                    p,
                                    b + l1 + l2,
                                    ')',
                                    StmtModel::SetIndexed(
                                        Box::new(index),
                                        Box::new(target),
                                        Box::new(value),
                                    ),
                                );
                            },
                            _ => {
                                space_closed(
                                    s,
                                    i,
                                    c,
                                    p,
                                    b + l1,
                                    ')',
                                    StmtModel::GetIndexed(Box::new(index), Box::new(target)),
                                );
                            },
                        }
                    }
                }
            }
        }
    }
}

/// A function definition is the same with more whitespace.
#[verifier::spinoff_prover]
pub(crate) proof fn space_fn(s: Text, i: nat, c: char, p: nat)
    requires
        fits(s, i, c),
    ensures
        same(fn_at(s, p), fn_at(widened(s, i, c), hi(i, p)), i, p, hi(i, p)),
    decreases rest(s, p), 0nat,
{
    reveal(fn_at);
    reveal(stmt_at);
    reveal_strlit("fn");
    space_head(s, i, c, p, "fn"@);
    if let Ok(a) = head_at(s, p, "fn"@) {
        space_opt_generics(s, i, c, a);
        let (generics, b) = opt_generics_at(s, a);
        lemma_space(s, i, c, b);
        let o = skip_space(s, b);
        lemma_char(s, i, c, o, '[');
        if has_char(s, o, '[') {
            space_fields(s, i, c, o + 1);
            if let Parsed::Done { value: parameters, len: l0 } = fields_at(s, o + 1) {
                lemma_space(s, i, c, o + 1 + l0);
                let close = skip_space(s, o + 1 + l0);
                lemma_char(s, i, c, close, ']');
                if has_char(s, close, ']') {
                    space_type(s, i, c, close + 1, lo(i, close + 1));
                    if let Parsed::Done { value: return_type, len: l1 } = type_at(s, close + 1) {
                        space_stmt(s, i, c, close + 1 + l1, lo(i, close + 1 + l1));
                        if let Parsed::Done { value: statement, len: l2 } = stmt_at(
                            s,
                            close + 1 + l1,
                        ) {
                            space_closed(
                                s,
                                i,
                                c,
                                p,
                                close + 1 + l1 + l2,
                                ')',
                                FnModel {
                                    generic_types: generics,
                                    parameters,
                                    return_type,
                                    statement,
                                },
                            );
                        }
                    }
                }
            }
        }
    }
}

#[verifier::spinoff_prover]
proof fn space_fn_literal(s: Text, i: nat, c: char, p: nat)
    requires
        fits(s, i, c),
    ensures
        same(fn_literal_at(s, p), fn_literal_at(widened(s, i, c), hi(i, p)), i, p, hi(i, p)),
    decreases rest(s, p), 1nat,
{
    reveal(fn_literal_at);
    reveal(fn_at);
    space_fn(s, i, c, p);
    lemma_same_with(
        fn_at(s, p),
        fn_at(widened(s, i, c), hi(i, p)),
        |f: FnModel| StmtModel::Literal(LiteralModel::Fn(Box::new(f))),
        i,
        p,
        hi(i, p),
    );
}

#[verifier::spinoff_prover]
proof fn space_calling(s: Text, i: nat, c: char, p: nat)
    requires
        fits(s, i, c),
    ensures
        same(calling_at(s, p), calling_at(widened(s, i, c), hi(i, p)), i, p, hi(i, p)),
    decreases rest(s, p), 1nat,
{
    reveal(calling_at);
    reveal(generic_call_at);
    reveal(call_at);
    let t = widened(s, i, c);
    let q = hi(i, p);
    space_generic_call(s, i, c, p);
    space_call(s, i, c, p);
    lemma_same_or(
        generic_call_at(s, p),
        call_at(s, p),
        generic_call_at(t, q),
        call_at(t, q),
        i,
        p,
        q,
    );
}

#[verifier::spinoff_prover]
proof fn space_generic_call(s: Text, i: nat, c: char, p: nat)
    requires
        fits(s, i, c),
    ensures
        same(generic_call_at(s, p), generic_call_at(widened(s, i, c), hi(i, p)), i, p, hi(i, p)),
    decreases rest(s, p), 0nat,
{
    reveal(generic_call_at);
    reveal(stmts_at);
    lemma_char(s, i, c, p, '(');
    if has_char(s, p, '(') {
        lemma_space(s, i, c, p + 1);
        let n = skip_space(s, p + 1);
        lemma_name(s, i, c, n, CharClass::Word);
        if let Some(len) = name_len(s, n, CharClass::Word) {
            space_generics(s, i, c, n + len, lo(i, n + len));
            lemma_generics(s, n + len);
            if let Parsed::Done { value: generics, len: l0 } = generics_at(s, n + len) {
                space_stmts(s, i, c, n + len + l0);
                if let Parsed::Done { value, len: l1 } = stmts_at(s, n + len + l0) {
                    space_closed(
                        s,
                        i,
                        c,
                        p,
                        n + len + l0 + l1,
                        ')',
                        StmtModel::GenericCall(piece(s, n, len), generics, value),
                    );
                }
            }
        }
    }
}

#[verifier::spinoff_prover]
proof fn space_call(s: Text, i: nat, c: char, p: nat)
    requires
        fits(s, i, c),
    ensures
        same(call_at(s, p), call_at(widened(s, i, c), hi(i, p)), i, p, hi(i, p)),
    decreases rest(s, p), 0nat,
{
    reveal(call_at);
    reveal(stmts_at);
    lemma_char(s, i, c, p, '(');
    if has_char(s, p, '(') {
        lemma_space(s, i, c, p + 1);
        let n = skip_space(s, p + 1);
        lemma_name(s, i, c, n, CharClass::Ident);
        if let Some(len) = name_len(s, n, CharClass::Ident) {
            space_stmts(s, i, c, n + len);
            if let Parsed::Done { value, len: l1 } = stmts_at(s, n + len) {
                space_closed(
                    s,
                    i,
                    c,
                    p,
                    n + len + l1,
                    ')',
                    StmtModel::Call(piece(s, n, len), value),
                );
            }
        }
    }
}

#[verifier::spinoff_prover]
proof fn space_collection(s: Text, i: nat, c: char, p: nat)
    requires
        fits(s, i, c),
    ensures
        same(collection_at(s, p), collection_at(widened(s, i, c), hi(i, p)), i, p, hi(i, p)),
    decreases rest(s, p), 1nat,
{
    reveal(collection_at);
    reveal(tuple_literal_at);
    reveal(data_literal_at);
    reveal(array_literal_at);
    let t = widened(s, i, c);
    let q = hi(i, p);
    space_bracketed(s, i, c, p);
    space_data_literal(s, i, c, p);
    lemma_same_or(
        tuple_literal_at(s, p),
        data_literal_at(s, p),
        tuple_literal_at(t, q),
        data_literal_at(t, q),
        i,
        p,
        q,
    );
    lemma_same_or(
        tuple_literal_at(s, p).or(data_literal_at(s, p)),
        array_literal_at(s, p),
        tuple_literal_at(t, q).or(data_literal_at(t, q)),
        array_literal_at(t, q),
        i,
        p,
        q,
    );
}

#[verifier::spinoff_prover]
proof fn space_bracketed(s: Text, i: nat, c: char, p: nat)
    requires
        fits(s, i, c),
    ensures
        same(tuple_literal_at(s, p), tuple_literal_at(widened(s, i, c), hi(i, p)), i, p, hi(i, p)),
        same(array_literal_at(s, p), array_literal_at(widened(s, i, c), hi(i, p)), i, p, hi(i, p)),
    decreases rest(s, p), 0nat,
{
    reveal(tuple_literal_at);
    reveal(array_literal_at);
    reveal(stmts_at);
    lemma_char(s, i, c, p, '{');
    lemma_char(s, i, c, p, '[');
    if has_char(s, p, '{') || has_char(s, p, '[') {
        space_stmts(s, i, c, p + 1);
        if let Parsed::Done { value, len } = stmts_at(s, p + 1) {
            space_closed(
                s,
                i,
                c,
                p,
                p + 1 + len,
                '}',
                StmtModel::Literal(LiteralModel::Tuple(value)),
            );
            space_closed(
                s,
                i,
                c,
                p,
                p + 1 + len,
                ']',
                StmtModel::Literal(LiteralModel::Array(value)),
            );
        }
    }
}

#[verifier::spinoff_prover]
proof fn space_data_literal(s: Text, i: nat, c: char, p: nat)
    requires
        fits(s, i, c),
    ensures
        same(data_literal_at(s, p), data_literal_at(widened(s, i, c), hi(i, p)), i, p, hi(i, p)),
    decreases rest(s, p), 0nat,
{
    reveal(data_literal_at);
    reveal(stmts_at);
    lemma_char(s, i, c, p, '[');
    if has_char(s, p, '[') {
        lemma_space(s, i, c, p + 1);
        let t = skip_space(s, p + 1);
        space_tag(s, i, c, t);
        if let Some(n) = tag_at(s, t) {
            space_stmts(s, i, c, t + 1 + n);
            if let Parsed::Done { value, len } = stmts_at(s, t + 1 + n) {
                space_closed(
                    s,
                    i,
                    c,
                    p,
                    t + 1 + n + len,
                    ']',
                    StmtModel::Literal(LiteralModel::Data(piece(s, t + 1, n), value)),
                );
            }
        }
    }
}

proof fn space_import(s: Text, i: nat, c: char, p: nat)
    requires
        fits(s, i, c),
    ensures
        import_at(s, p) is Miss,
        import_at(widened(s, i, c), hi(i, p)) is Miss,
{
    reveal(import_at);
    reveal(string_at);
    reveal_strlit("use");
    reveal_strlit(":header");
    let t = widened(s, i, c);
    space_head(s, i, c, p, "use"@);
    if let Ok(a) = head_at(s, p, "use"@) {
        lemma_space(s, i, c, a);
        let h = skip_space(s, a);
        lemma_keyword(s, i, c, h, ":header"@);
        lemma_space(s, i, c, h + ":header"@.len());
        let q = if has_keyword(s, h, ":header"@) {
            skip_space(s, h + ":header"@.len())
        } else {
            h
        };
        lemma_char(s, i, c, q, '"');
    }
}

#[verifier::spinoff_prover]
proof fn space_payload(s: Text, i: nat, c: char, p: nat, name: Text)
    requires
        fits(s, i, c),
    ensures
        same(payload_at(s, p, name), payload_at(widened(s, i, c), hi(i, p), name), i, p, hi(i, p)),
{
    reveal(payload_at);
    let t = widened(s, i, c);
    let q = hi(i, p);
    space_import(s, i, c, p);
    space_literal(s, i, c, p);
    space_type(s, i, c, p, q);
    space_fn(s, i, c, p);
    let as_literal = |l: LiteralModel| DeclModel::TopLevelDef(name, PayloadModel::Literal(l));
    let as_type = |t: TypeModel| DeclModel::TopLevelDef(name, PayloadModel::Typed(t));
    let as_fn = |f: FnModel| DeclModel::TopLevelDef(name, PayloadModel::FnDef(f));
    lemma_same_with(literal_at(s, p), literal_at(t, q), as_literal, i, p, q);
    lemma_same_with(type_at(s, p), type_at(t, q), as_type, i, p, q);
    lemma_same_with(fn_at(s, p), fn_at(t, q), as_fn, i, p, q);
    lemma_same_or(
        literal_at(s, p).with(as_literal),
        type_at(s, p).with(as_type),
        literal_at(t, q).with(as_literal),
        type_at(t, q).with(as_type),
        i,
        p,
        q,
    );
    lemma_same_or(
        literal_at(s, p).with(as_literal).or(type_at(s, p).with(as_type)),
        fn_at(s, p).with(as_fn),
        literal_at(t, q).with(as_literal).or(type_at(t, q).with(as_type)),
        fn_at(t, q).with(as_fn),
        i,
        p,
        q,
    );
}

#[verifier::spinoff_prover]
proof fn space_binding(s: Text, i: nat, c: char, p: nat)
    requires
        fits(s, i, c),
    ensures
        same(binding_at(s, p), binding_at(widened(s, i, c), hi(i, p)), i, p, hi(i, p)),
{
    reveal(binding_at);
    reveal_strlit("def");
    space_head(s, i, c, p, "def"@);
    if let Ok(a) = head_at(s, p, "def"@) {
        lemma_space(s, i, c, a);
        let n = skip_space(s, a);
        lemma_name(s, i, c, n, CharClass::Ident);
        if let Some(len) = name_len(s, n, CharClass::Ident) {
            lemma_space(s, i, c, n + len);
            let v = skip_space(s, n + len);
            space_payload(s, i, c, v, piece(s, n, len));
            if let Parsed::Done { value, len: used } = payload_at(s, v, piece(s, n, len)) {
                space_closed(s, i, c, p, v + used, ')', value);
            }
        }
    }
}

#[verifier::spinoff_prover]
proof fn space_alias(s: Text, i: nat, c: char, p: nat)
    requires
        fits(s, i, c),
    ensures
        same(alias_at(s, p), alias_at(widened(s, i, c), hi(i, p)), i, p, hi(i, p)),
{
    reveal(alias_at);
    reveal_strlit("type");
    space_head(s, i, c, p, "type"@);
    if let Ok(a) = head_at(s, p, "type"@) {
        lemma_space(s, i, c, a);
        let n = skip_space(s, a);
        lemma_name(s, i, c, n, CharClass::Ident);
        if let Some(len) = name_len(s, n, CharClass::Ident) {
            space_type(s, i, c, n + len, lo(i, n + len));
            if let Parsed::Done { value, len: used } = type_at(s, n + len) {
                space_closed(
                    s,
                    i,
                    c,
                    p,
                    n + len + used,
                    ')',
                    DeclModel::TypeAlias(piece(s, n, len), value),
                );
            }
        }
    }
}

/// The names of an export list, and where its closing bracket is due.
proof fn space_export_list(s: Text, i: nat, c: char, e: nat)
    requires
        fits(s, i, c),
        e < s.len(),
    ensures
        names_at(widened(s, i, c), hi(i, e) + 1, CharClass::Ident).0 == names_at(
            s,
            e + 1,
            CharClass::Ident,
        ).0,
        skip_space(
            widened(s, i, c),
            hi(i, e) + 1 + names_at(widened(s, i, c), hi(i, e) + 1, CharClass::Ident).1,
        ) == hi(i, skip_space(s, e + 1 + names_at(s, e + 1, CharClass::Ident).1)),
        e + 1 <= skip_space(s, e + 1 + names_at(s, e + 1, CharClass::Ident).1),
{
    space_names(s, i, c, e + 1, CharClass::Ident);
    lemma_space(s, i, c, e + 1 + names_at(s, e + 1, CharClass::Ident).1);
}

#[verifier::spinoff_prover]
proof fn space_export(s: Text, i: nat, c: char, p: nat)
    requires
        fits(s, i, c),
    ensures
        same(export_at(s, p), export_at(widened(s, i, c), hi(i, p)), i, p, hi(i, p)),
{
    reveal(export_at);
    reveal_strlit("export");
    reveal_strlit(":all");
    space_head(s, i, c, p, "export"@);
    if let Ok(a) = head_at(s, p, "export"@) {
        lemma_space(s, i, c, a);
        let e = skip_space(s, a);
        lemma_keyword(s, i, c, e, ":all"@);
        lemma_char(s, i, c, e, '[');
        if has_keyword(s, e, ":all"@) {
            space_closed(s, i, c, p, e + ":all"@.len(), ')', DeclModel::ExportAll);
        } else if has_char(s, e, '[') {
            space_export_list(s, i, c, e);
            let (found, len) = names_at(s, e + 1, CharClass::Ident);
            let close = skip_space(s, e + 1 + len);
            lemma_char(s, i, c, close, ']');
            if has_char(s, close, ']') {
                space_closed(s, i, c, p, close + 1, ')', DeclModel::Export(found));
            }
        }
    }
}

proof fn space_decl(s: Text, i: nat, c: char, p: nat)
    requires
        fits(s, i, c),
    ensures
        same(decl_at(s, p), decl_at(widened(s, i, c), hi(i, p)), i, p, hi(i, p)),
{
    reveal(decl_at);
    let t = widened(s, i, c);
    let q = hi(i, p);
    space_binding(s, i, c, p);
    space_alias(s, i, c, p);
    space_export(s, i, c, p);
    lemma_same_or(binding_at(s, p), alias_at(s, p), binding_at(t, q), alias_at(t, q), i, p, q);
    lemma_same_or(
        binding_at(s, p).or(alias_at(s, p)),
        export_at(s, p),
        binding_at(t, q).or(alias_at(t, q)),
        export_at(t, q),
        i,
        p,
        q,
    );
}

/// Whether `b` is what `a` is: the same value, or a refusal of the same kind.
pub open spec fn alike<V>(a: Result<V, Problem>, b: Result<V, Problem>) -> bool {
    match a {
        Ok(value) => b == Ok::<V, Problem>(value),
        Err(e) => b matches Err(f) && f.kind == e.kind,
    }
}

#[verifier::spinoff_prover]
proof fn space_unit(s: Text, i: nat, c: char, p: nat)
    requires
        fits(s, i, c),
        p <= s.len(),
    ensures
        alike(unit_at(s, p), unit_at(widened(s, i, c), lo(i, p))),
    decreases rest(s, p),
{
    reveal(unit_at);
    lemma_widened(s, i, c);
    lemma_space(s, i, c, p);
    lemma_skip(s, p);
    let ps = skip_space(s, p);
    if ps < s.len() {
        space_decl(s, i, c, ps);
        if let Parsed::Done { value, len } = decl_at(s, ps) {
            if len > 0 {
                lemma_decl(s, ps);
                space_unit(s, i, c, ps + len);
            }
        }
    }
}

proof fn space_whole<V>(s: Text, i: nat, c: char, a: Parsed<V>, b: Parsed<V>)
    requires
        fits(s, i, c),
        same(a, b, i, 0, 0),
        a matches Parsed::Done { value, len } ==> len <= s.len(),
    ensures
        alike(a.whole(s), b.whole(widened(s, i, c))),
{
    lemma_widened(s, i, c);
    if let Parsed::Done { value, len } = a {
        lemma_space(s, i, c, len);
        lemma_skip(s, len);
    }
}

/// One more whitespace character, put where whitespace or a bracket stands or
/// at an end of a text without quotes, leaves the type that the text is as it
/// was, or the text refused for the same reason.
pub proof fn law_space_in_type(s: Text, i: nat, c: char)
    requires
        fits(s, i, c),
    ensures
        alike(type_of(s), type_of(widened(s, i, c))),
{
    space_type(s, i, c, 0, 0);
    lemma_type(s, 0);
    space_whole(s, i, c, type_at(s, 0), type_at(widened(s, i, c), 0));
}

/// One more whitespace character, put where whitespace or a bracket stands or
/// at an end of a text without quotes, leaves the statement that the text is
/// as it was, or the text refused for the same reason.
pub proof fn law_space_in_stmt(s: Text, i: nat, c: char)
    requires
        fits(s, i, c),
    ensures
        alike(stmt_of(s), stmt_of(widened(s, i, c))),
{
    space_stmt(s, i, c, 0, 0);
    lemma_stmt(s, 0);
    space_whole(s, i, c, stmt_at(s, 0), stmt_at(widened(s, i, c), 0));
}

/// One more whitespace character, put where whitespace or a bracket stands or
/// at an end of a text without quotes, leaves the scalar literal that the
/// text is as it was, or the text refused for the same reason.
pub proof fn law_space_in_literal(s: Text, i: nat, c: char)
    requires
        fits(s, i, c),
    ensures
        alike(literal_of(s), literal_of(widened(s, i, c))),
{
    let t = widened(s, i, c);
    lemma_space(s, i, c, 0);
    let p = skip_space(s, 0);
    space_literal(s, i, c, p);
    lemma_literal(s, p);
    space_whole(
        s,
        i,
        c,
        literal_at(s, p).after(run(s, 0, CharClass::Space)),
        literal_at(t, hi(i, p)).after(run(t, 0, CharClass::Space)),
    );
}

/// One more whitespace character, put where whitespace or a bracket stands or
/// at an end of a text without quotes, leaves the declarations that the text
/// is as they were, or the text refused for the same reason.
pub proof fn law_space_in_unit(s: Text, i: nat, c: char)
    requires
        fits(s, i, c),
    ensures
        alike(unit_of(s), unit_of(widened(s, i, c))),
{
    space_unit(s, i, c, 0);
}

/// The text `s` with the characters of `w` put in at `i`.
pub open spec fn spaced(s: Text, i: nat, w: Text) -> Text {
    s.subrange(0, i as int) + w + s.subrange(i as int, s.len() as int)
}

/// Whether every character of `w` is whitespace.
pub open spec fn is_blank(w: Text) -> bool {
    forall|k: int| 0 <= k < w.len() ==> is_space(#[trigger] w[k])
}

proof fn lemma_alike_chain<V>(a: Result<V, Problem>, b: Result<V, Problem>, c: Result<V, Problem>)
    requires
        alike(a, b),
        alike(b, c),
    ensures
        alike(a, c),
{
}

/// Whitespace put in one character after the other: the text with all but
/// the last character of `w` put in is ready for the last, and with it is
/// the text with all of `w` put in.
proof fn lemma_spaced_step(s: Text, i: nat, w: Text)
    requires
        is_blank(w),
        w.len() > 0,
        is_gap(s, i),
        quote_free(s),
    ensures
        fits(spaced(s, i, w.drop_last()), (i + w.len() - 1) as nat, w.last()),
        widened(spaced(s, i, w.drop_last()), (i + w.len() - 1) as nat, w.last()) == spaced(s, i, w),
{
    let before = spaced(s, i, w.drop_last());
    let at = (i + w.len() - 1) as nat;
    assert(widened(before, at, w.last()) =~= spaced(s, i, w));
    assert(quote_free(before)) by {
        assert forall|k: int| 0 <= k < before.len() implies before[k] != '"' && before[k]
            != '\'' by {
            if i <= k < i + w.len() - 1 {
                assert(is_space(w[k - i]));
            }
        }
    }
    if w.len() > 1 {
        assert(before[at - 1] == w[w.len() - 2]);
    } else {
        assert(w.drop_last() =~= Seq::<char>::empty());
        assert(before =~= s);
    }
}

/// Any run of whitespace, put where whitespace or a bracket stands or at an
/// end of a text without quotes, leaves the type that the text is as it was,
/// or the text refused for the same reason.
pub proof fn law_spaces_in_type(s: Text, i: nat, w: Text)
    requires
        is_blank(w),
        is_gap(s, i),
        quote_free(s),
    ensures
        alike(type_of(s), type_of(spaced(s, i, w))),
    decreases w.len(),
{
    if w.len() == 0 {
        assert(spaced(s, i, w) =~= s);
    } else {
        law_spaces_in_type(s, i, w.drop_last());
        lemma_spaced_step(s, i, w);
        law_space_in_type(spaced(s, i, w.drop_last()), (i + w.len() - 1) as nat, w.last());
        lemma_alike_chain(
            type_of(s),
            type_of(spaced(s, i, w.drop_last())),
            type_of(spaced(s, i, w)),
        );
    }
}

/// Any run of whitespace, put where whitespace or a bracket stands or at an
/// end of a text without quotes, leaves the statement that the text is as it
/// was, or the text refused for the same reason.
pub proof fn law_spaces_in_stmt(s: Text, i: nat, w: Text)
    requires
        is_blank(w),
        is_gap(s, i),
        quote_free(s),
    ensures
        alike(stmt_of(s), stmt_of(spaced(s, i, w))),
    decreases w.len(),
{
    if w.len() == 0 {
        assert(spaced(s, i, w) =~= s);
    } else {
        law_spaces_in_stmt(s, i, w.drop_last());
        lemma_spaced_step(s, i, w);
        law_space_in_stmt(spaced(s, i, w.drop_last()), (i + w.len() - 1) as nat, w.last());
        lemma_alike_chain(
            stmt_of(s),
            stmt_of(spaced(s, i, w.drop_last())),
            stmt_of(spaced(s, i, w)),
        );
    }
}

/// Any run of whitespace, put where whitespace or a bracket stands or at an
/// end of a text without quotes, leaves the scalar literal that the text is
/// as it was, or the text refused for the same reason.
pub proof fn law_spaces_in_literal(s: Text, i: nat, w: Text)
    requires
        is_blank(w),
        is_gap(s, i),
        quote_free(s),
    ensures
        alike(literal_of(s), literal_of(spaced(s, i, w))),
    decreases w.len(),
{
    if w.len() == 0 {
        assert(spaced(s, i, w) =~= s);
    } else {
        law_spaces_in_literal(s, i, w.drop_last());
        lemma_spaced_step(s, i, w);
        law_space_in_literal(spaced(s, i, w.drop_last()), (i + w.len() - 1) as nat, w.last());
        lemma_alike_chain(
            literal_of(s),
            literal_of(spaced(s, i, w.drop_last())),
            literal_of(spaced(s, i, w)),
        );
    }
}

/// Any run of whitespace, put where whitespace or a bracket stands or at an
/// end of a text without quotes, leaves the declarations that the text is as
/// they were, or the text refused for the same reason.
pub proof fn law_spaces_in_unit(s: Text, i: nat, w: Text)
    requires
        is_blank(w),
        is_gap(s, i),
        quote_free(s),
    ensures
        alike(unit_of(s), unit_of(spaced(s, i, w))),
    decreases w.len(),
{
    if w.len() == 0 {
        assert(spaced(s, i, w) =~= s);
    } else {
        law_spaces_in_unit(s, i, w.drop_last());
        lemma_spaced_step(s, i, w);
        law_space_in_unit(spaced(s, i, w.drop_last()), (i + w.len() - 1) as nat, w.last());
        lemma_alike_chain(
            unit_of(s),
            unit_of(spaced(s, i, w.drop_last())),
            unit_of(spaced(s, i, w)),
        );
    }
}

} // verus!
