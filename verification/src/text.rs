//! Characters and tokens: the lexical layer under the grammar.
//!
//! Source text is a sequence of characters; a position is an index into it.
//! Nothing here skips whitespace by itself: the grammar says where it may
//! stand.

use vstd::prelude::*;
use crate::model::Text;

verus! {

/// The classes of characters that the grammar scans runs of.
#[derive(Clone, Copy, Debug, PartialEq, Eq)]
pub enum CharClass {
    /// Whitespace.
    Space,
    /// What a name is made of.
    Ident,
    /// What a name between angle brackets is made of, and what must not follow
    /// a keyword.
    Word,
    /// The decimal digits.
    Digit,
    /// What may stand inside a string: all but the double quote.
    Quoted,
}

/// Whether `c` is whitespace: a character with the Unicode property
/// `White_Space`.
pub open spec fn is_space(c: char) -> bool {
    let n = c as u32;
    ||| 0x09 <= n <= 0x0d
    ||| n == 0x20
    ||| n == 0x85
    ||| n == 0xa0
    ||| n == 0x1680
    ||| 0x2000 <= n <= 0x200a
    ||| n == 0x2028
    ||| n == 0x2029
    ||| n == 0x202f
    ||| n == 0x205f
    ||| n == 0x3000
}

/// Whether `c` is one of the characters that end a name wherever they stand:
/// brackets of the three kinds, colon, comma and the two quotes.
pub open spec fn is_delimiter(c: char) -> bool {
    ||| c == '('
    ||| c == ')'
    ||| c == '['
    ||| c == ']'
    ||| c == '{'
    ||| c == '}'
    ||| c == ':'
    ||| c == ','
    ||| c == '"'
    ||| c == '\''
}

/// Whether `c` is numeric in the sense of Unicode: a character of one of the
/// general categories `Nd`, `Nl` and `No`.
pub uninterp spec fn is_numeric(c: char) -> bool;

/// `char::is_numeric` tells whether a character is numeric in the sense of
/// Unicode.
pub assume_specification[ char::is_numeric ](c: char) -> (r: bool)
    ensures
        r == is_numeric(c),
;

/// `String::push` appends one character to the text.
pub assume_specification[ std::string::String::push ](s: &mut std::string::String, c: char)
    ensures
        final(s)@ == old(s)@.push(c),
;

/// Whether `c` is a decimal digit.
pub open spec fn is_digit(c: char) -> bool {
    '0' <= c <= '9'
}

/// Whether `c` belongs to `class`.
#[verifier::opaque]
pub open spec fn in_class(c: char, class: CharClass) -> bool {
    match class {
        CharClass::Space => is_space(c),
        CharClass::Ident => !is_space(c) && !is_delimiter(c) && !is_numeric(c),
        CharClass::Word => !is_space(c) && !is_delimiter(c) && c != '<' && c != '>',
        CharClass::Digit => is_digit(c),
        CharClass::Quoted => c != '"',
    }
}

/// The number of characters of `class` that stand in a row from `pos` on.
pub open spec fn run(s: Text, pos: nat, class: CharClass) -> nat
    decreases s.len() - pos,
{
    if pos < s.len() && in_class(s[pos as int], class) {
        1 + run(s, pos + 1, class)
    } else {
        0
    }
}

/// The first position from `pos` on that holds no whitespace.
pub open spec fn skip_space(s: Text, pos: nat) -> nat {
    pos + run(s, pos, CharClass::Space)
}

/// Whether the characters of `w` stand at `pos`.
pub open spec fn has_text(s: Text, pos: nat, w: Text) -> bool {
    pos + w.len() <= s.len() && s.subrange(pos as int, (pos + w.len()) as int) == w
}

/// Whether `c` stands at `pos`.
pub open spec fn has_char(s: Text, pos: nat, c: char) -> bool {
    pos < s.len() && s[pos as int] == c
}

/// Whether the keyword `w` stands at `pos`: its characters, and after them no
/// character that could continue a word.
pub open spec fn has_keyword(s: Text, pos: nat, w: Text) -> bool {
    has_text(s, pos, w) && run(s, pos + w.len(), CharClass::Word) == 0
}

/// Whether `t` is one of the words that no name may be.
#[verifier::opaque]
pub open spec fn is_reserved(t: Text) -> bool {
    ||| t == "def"@
    ||| t == "fn"@
    ||| t == "if"@
    ||| t == "do"@
    ||| t == "use"@
    ||| t == "array"@
    ||| t == "ptr"@
    ||| t == "data"@
    ||| t == "struct"@
    ||| t == "tuple"@
    ||| t == "..."@
    ||| t == "true"@
    ||| t == "false"@
}

/// The length of the name at `pos`, if one stands there: the longest run of
/// characters of `class`, which is not empty and not a reserved word.
pub open spec fn name_len(s: Text, pos: nat, class: CharClass) -> Option<nat> {
    let n = run(s, pos, class);
    if n > 0 && !is_reserved(s.subrange(pos as int, (pos + n) as int)) {
        Some(n)
    } else {
        None
    }
}

/// The number that the decimal digits `digits` write.
pub open spec fn decimal(digits: Text) -> nat
    decreases digits.len(),
{
    if digits.len() == 0 {
        0
    } else {
        10 * decimal(digits.drop_last()) + (digits.last() as u32 - '0' as u32) as nat
    }
}

/// A run ends inside the text, and is empty where the text has ended.
pub(crate) proof fn lemma_run_bound(s: Text, pos: nat, class: CharClass)
    ensures
        pos <= s.len() ==> pos + run(s, pos, class) <= s.len(),
        pos >= s.len() ==> run(s, pos, class) == 0,
    decreases s.len() - pos,
{
    if pos < s.len() && in_class(s[pos as int], class) {
        lemma_run_bound(s, pos + 1, class);
    }
}

/// A run holds characters of its class only, and none follows it.
pub(crate) proof fn lemma_run_members(s: Text, pos: nat, class: CharClass, i: nat)
    requires
        pos <= i <= pos + run(s, pos, class),
    ensures
        run(s, pos, class) == (i - pos) + run(s, i, class),
        i < pos + run(s, pos, class) ==> i < s.len() && in_class(s[i as int], class),
    decreases i - pos,
{
    if i > pos {
        lemma_run_members(s, pos + 1, class, i);
    }
}

/// Writing one more digit multiplies by ten and adds the digit.
pub(crate) proof fn lemma_decimal_push(digits: Text, c: char)
    ensures
        decimal(digits.push(c)) == 10 * decimal(digits) + (c as u32 - '0' as u32) as nat,
{
    assert(digits.push(c).drop_last() =~= digits);
}

/// More digits never write a smaller number.
pub(crate) proof fn lemma_decimal_grows(digits: Text, n: nat)
    requires
        n <= digits.len(),
        forall|i: int| 0 <= i < digits.len() ==> is_digit(#[trigger] digits[i]),
    ensures
        decimal(digits.take(n as int)) <= decimal(digits),
    decreases digits.len() - n,
{
    if n < digits.len() {
        lemma_decimal_grows(digits, n + 1);
        assert(digits.take(n as int + 1) =~= digits.take(n as int).push(digits[n as int]));
        lemma_decimal_push(digits.take(n as int), digits[n as int]);
    } else {
        assert(digits.take(n as int) =~= digits);
    }
}

/// Tells whether `c` is whitespace.
pub fn space(c: char) -> (r: bool)
    ensures
        r == is_space(c),
{
    let n: u32 = c as u32;
    (0x09 <= n && n <= 0x0d) || n == 0x20 || n == 0x85 || n == 0xa0 || n == 0x1680 || (0x2000
        <= n && n <= 0x200a) || n == 0x2028 || n == 0x2029 || n == 0x202f || n == 0x205f || n
        == 0x3000
}

fn delimiter(c: char) -> (r: bool)
    ensures
        r == is_delimiter(c),
{
    c == '(' || c == ')' || c == '[' || c == ']' || c == '{' || c == '}' || c == ':' || c == ','
        || c == '"' || c == '\''
}

/// Tells whether `c` belongs to `class`.
pub(crate) fn member(c: char, class: CharClass) -> (r: bool)
    ensures
        r == in_class(c, class),
{
    reveal(in_class);
    match class {
        CharClass::Space => space(c),
        CharClass::Ident => !space(c) && !delimiter(c) && !c.is_numeric(),
        CharClass::Word => !space(c) && !delimiter(c) && c != '<' && c != '>',
        CharClass::Digit => '0' <= c && c <= '9',
        CharClass::Quoted => c != '"',
    }
}

/// The position after the run of `class` that starts at `pos`.
pub(crate) fn scan(s: &[char], pos: usize, class: CharClass) -> (end: usize)
    requires
        pos <= s.len(),
    ensures
        end == pos + run(s@, pos as nat, class),
        end <= s.len(),
        forall|i: int| pos <= i < end ==> in_class(#[trigger] s@[i], class),
{
    let mut end: usize = pos;
    while end < s.len() && member(s[end], class)
        invariant
            pos <= end <= s.len(),
            pos + run(s@, pos as nat, class) == end + run(s@, end as nat, class),
            forall|i: int| pos <= i < end ==> in_class(#[trigger] s@[i], class),
        decreases s.len() - end,
    {
        end += 1;
    }
    end
}

/// The position after the whitespace that starts at `pos`.
pub(crate) fn skip(s: &[char], pos: usize) -> (end: usize)
    requires
        pos <= s.len(),
    ensures
        end == skip_space(s@, pos as nat),
        pos <= end <= s.len(),
{
    scan(s, pos, CharClass::Space)
}

/// Tells whether `c` stands at `pos`.
pub(crate) fn at_char(s: &[char], pos: usize, c: char) -> (r: bool)
    ensures
        r == has_char(s@, pos as nat, c),
{
    pos < s.len() && s[pos] == c
}

/// Tells whether the characters of `w` stand at `pos`.
pub(crate) fn at_text(s: &[char], pos: usize, w: &str) -> (r: bool)
    requires
        pos <= s.len(),
    ensures
        r == has_text(s@, pos as nat, w@),
{
    let n = w.unicode_len();
    if n > s.len() - pos {
        return false;
    }
    let mut i: usize = 0;
    while i < n
        invariant
            i <= n,
            n == w@.len(),
            pos + n <= s.len(),
            s@.subrange(pos as int, pos + i) == w@.take(i as int),
        decreases n - i,
    {
        if s[pos + i] != w.get_char(i) {
            assert(s@.subrange(pos as int, pos + n)[i as int] != w@[i as int]);
            return false;
        }
        assert(s@.subrange(pos as int, pos + i + 1) =~= s@.subrange(pos as int, pos + i).push(
            s@[pos + i],
        ));
        assert(w@.take(i + 1) =~= w@.take(i as int).push(w@[i as int]));
        i += 1;
    }
    assert(w@.take(n as int) =~= w@);
    true
}

/// The position after the keyword `w`, if it stands at `pos`.
pub(crate) fn at_keyword(s: &[char], pos: usize, w: &str) -> (r: Option<usize>)
    requires
        pos <= s.len(),
    ensures
        r is Some == has_keyword(s@, pos as nat, w@),
        r matches Some(end) ==> end == pos + w@.len() && end <= s.len(),
{
    if at_text(s, pos, w) {
        let end = pos + w.unicode_len();
        if end < s.len() && member(s[end], CharClass::Word) {
            None
        } else {
            Some(end)
        }
    } else {
        None
    }
}

fn same_text(s: &[char], pos: usize, end: usize, w: &str) -> (r: bool)
    requires
        pos <= end <= s.len(),
    ensures
        r == (s@.subrange(pos as int, end as int) == w@),
{
    if w.unicode_len() == end - pos {
        at_text(s, pos, w)
    } else {
        false
    }
}

/// Tells whether the characters from `pos` up to `end` are a reserved word.
pub(crate) fn reserved(s: &[char], pos: usize, end: usize) -> (r: bool)
    requires
        pos <= end <= s.len(),
    ensures
        r == is_reserved(s@.subrange(pos as int, end as int)),
{
    reveal(is_reserved);
    same_text(s, pos, end, "def") || same_text(s, pos, end, "fn") || same_text(s, pos, end, "if")
        || same_text(s, pos, end, "do") || same_text(s, pos, end, "use") || same_text(
        s,
        pos,
        end,
        "array",
    ) || same_text(s, pos, end, "ptr") || same_text(s, pos, end, "data") || same_text(
        s,
        pos,
        end,
        "struct",
    ) || same_text(s, pos, end, "tuple") || same_text(s, pos, end, "...") || same_text(
        s,
        pos,
        end,
        "true",
    ) || same_text(s, pos, end, "false")
}

/// The position after the name of `class` at `pos`, if one stands there.
pub(crate) fn name_end(s: &[char], pos: usize, class: CharClass) -> (r: Option<usize>)
    requires
        pos <= s.len(),
    ensures
        r matches Some(end) ==> name_len(s@, pos as nat, class) == Some((end - pos) as nat) && pos
            < end <= s.len(),
        r is None ==> name_len(s@, pos as nat, class) is None,
{
    let end = scan(s, pos, class);
    if end > pos && !reserved(s, pos, end) {
        Some(end)
    } else {
        None
    }
}

/// The characters from `from` up to `to`, as a string.
pub(crate) fn slice_text(s: &[char], from: usize, to: usize) -> (out: String)
    requires
        from <= to <= s.len(),
    ensures
        out@ == s@.subrange(from as int, to as int),
{
    let mut out = String::new();
    let mut i: usize = from;
    while i < to
        invariant
            from <= i <= to <= s.len(),
            out@ == s@.subrange(from as int, i as int),
        decreases to - i,
    {
        out.push(s[i]);
        assert(s@.subrange(from as int, i + 1) =~= s@.subrange(from as int, i as int).push(
            s@[i as int],
        ));
        i += 1;
    }
    out
}

/// The number that the digits from `from` up to `to` write, if it is at most
/// `max`.
pub(crate) fn number(s: &[char], from: usize, to: usize, max: u64) -> (r: Option<u64>)
    requires
        from <= to <= s.len(),
        forall|i: int| from <= i < to ==> is_digit(#[trigger] s@[i]),
    ensures
        r == if decimal(s@.subrange(from as int, to as int)) <= max {
            Some(decimal(s@.subrange(from as int, to as int)) as u64)
        } else {
            None
        },
{
    let ghost digits = s@.subrange(from as int, to as int);
    let mut acc: u64 = 0;
    let mut i: usize = from;
    while i < to
        invariant
            from <= i <= to <= s.len(),
            digits == s@.subrange(from as int, to as int),
            forall|j: int| 0 <= j < digits.len() ==> is_digit(#[trigger] digits[j]),
            acc == decimal(digits.take(i - from)),
            acc <= max,
        decreases to - i,
    {
        assert(digits[i - from] == s@[i as int]);
        assert(is_digit(s@[i as int]));
        let d: u64 = (s[i] as u32 - '0' as u32) as u64;
        proof {
            assert(digits.take(i - from + 1) =~= digits.take(i - from).push(digits[i - from]));
            lemma_decimal_push(digits.take(i - from), digits[i - from]);
            lemma_decimal_grows(digits, (i - from + 1) as nat);
        }
        if d > max || acc > (max - d) / 10 {
            return None;
        }
        acc = acc * 10 + d;
        i += 1;
    }
    assert(digits.take(to - from) =~= digits);
    Some(acc)
}

/// The characters of `text`, one by one.
pub(crate) fn chars_of(text: &str) -> (out: Vec<char>)
    ensures
        out@ == text@,
{
    let mut out: Vec<char> = Vec::new();
    for c in it: text.chars()
        invariant
            out@ == it.seq().take(it.index()),
    {
        out.push(c);
    }
    out
}

} // verus!
