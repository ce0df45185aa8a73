//! How a parse ends.
//!
//! A production of the grammar, tried at a position, matches, misses or
//! fails. A miss lets the next alternative try; a failure ends the whole
//! parse.

use vstd::prelude::*;
use crate::text::{has_char, skip_space};

verus! {

/// Why a text was refused.
#[derive(Clone, Copy, Debug, PartialEq, Eq)]
pub enum ErrorKind {
    /// The text fits no alternative of the grammar.
    Syntax,
    /// Two fields of one struct, or two variants of one data type, share a
    /// name.
    DuplicateName,
    /// A generic pointer or array does not have exactly one type parameter.
    GenericArity,
    /// A number is too large for an integer literal or for an array size.
    NumberRange,
}

/// A refusal, and how many characters into the text it lies. For a syntax
/// error that is a point where the text stops fitting the grammar: of the
/// alternatives that were tried last, the one that got farthest gave up
/// there. For the others it is where the offending form, list or number
/// starts.
#[derive(Clone, Copy, Debug, PartialEq, Eq)]
pub struct ParseError {
    pub kind: ErrorKind,
    pub position: usize,
}

/// Model of a [`ParseError`].
pub struct Problem {
    pub kind: ErrorKind,
    pub at: nat,
}

impl View for ParseError {
    type V = Problem;

    open spec fn view(&self) -> Problem {
        Problem { kind: self.kind, at: self.position as nat }
    }
}

/// What the grammar says of one production at one position.
pub enum Parsed<V> {
    /// The production matches `len` characters, which stand for `value`.
    Done { value: V, len: nat },
    /// The production does not match; `at` is how far it got.
    Miss { at: nat },
    /// The production matches text that breaks a rule of the language.
    Fail { kind: ErrorKind, at: nat },
}

impl<V> Parsed<V> {
    /// A result without a value, as a result of another production.
    pub open spec fn carry<W>(self) -> Parsed<W> {
        match self {
            Parsed::Done { value, len } => Parsed::Miss { at: 0 },
            Parsed::Miss { at } => Parsed::Miss { at },
            Parsed::Fail { kind, at } => Parsed::Fail { kind, at },
        }
    }

    /// This result, or `next` where this one is a miss. Two misses make one,
    /// at the farther of the two positions.
    pub open spec fn or(self, next: Parsed<V>) -> Parsed<V> {
        match self {
            Parsed::Miss { at } => match next {
                Parsed::Miss { at: other } => Parsed::Miss {
                    at: if at >= other {
                        at
                    } else {
                        other
                    },
                },
                _ => next,
            },
            _ => self,
        }
    }

    /// This result with `f` applied to its value.
    pub open spec fn with<W>(self, f: spec_fn(V) -> W) -> Parsed<W> {
        match self {
            Parsed::Done { value, len } => Parsed::Done { value: f(value), len },
            Parsed::Miss { at } => Parsed::Miss { at },
            Parsed::Fail { kind, at } => Parsed::Fail { kind, at },
        }
    }

    /// This result for a production that starts `n` characters earlier.
    pub open spec fn after(self, n: nat) -> Parsed<V> {
        match self {
            Parsed::Done { value, len } => Parsed::Done { value, len: n + len },
            _ => self,
        }
    }

    /// The value of a production that must match the text `s` up to
    /// whitespace at its end.
    pub open spec fn whole(self, s: Seq<char>) -> Result<V, Problem> {
        match self {
            Parsed::Done { value, len } => {
                let end = skip_space(s, len);
                if end == s.len() {
                    Ok(value)
                } else {
                    Err(Problem { kind: ErrorKind::Syntax, at: end })
                }
            },
            Parsed::Miss { at } => Err(Problem { kind: ErrorKind::Syntax, at }),
            Parsed::Fail { kind, at } => Err(Problem { kind, at }),
        }
    }
}

impl<V> Parsed<Seq<V>> {
    /// This result for a row of `first` and what this result holds, which
    /// starts `n` characters earlier.
    pub open spec fn behind(self, first: Seq<V>, n: nat) -> Parsed<Seq<V>> {
        match self {
            Parsed::Done { value, len } => Parsed::Done { value: first + value, len: n + len },
            _ => self,
        }
    }
}

/// A production that matches from `pos` up to `end`.
pub open spec fn done<V>(value: V, pos: nat, end: nat) -> Parsed<V> {
    Parsed::Done { value, len: (end - pos) as nat }
}

/// A production that starts at `pos`, stands for `value` and ends with the
/// character `c`, which is due after optional whitespace from `end` on.
pub open spec fn closed<V>(s: Seq<char>, pos: nat, end: nat, c: char, value: V) -> Parsed<V> {
    let e = skip_space(s, end);
    if has_char(s, e, c) {
        done(value, pos, e + 1)
    } else {
        Parsed::Miss { at: e }
    }
}

/// What a parser found at one position.
pub enum Step<T> {
    /// A match that ends before `next`.
    Done { value: T, next: usize },
    Miss { at: usize },
    Fail { kind: ErrorKind, at: usize },
}

impl<T> Step<T> {
    /// Whether this is what `spec` says of a production tried at `pos` in a
    /// text of `limit` characters, where `view` gives the model of a value.
    pub open spec fn agrees<V>(
        self,
        pos: usize,
        limit: usize,
        view: spec_fn(T) -> V,
        spec: Parsed<V>,
    ) -> bool {
        match self {
            Step::Done { value, next } => pos <= next <= limit && spec == (Parsed::Done {
                value: view(value),
                len: (next - pos) as nat,
            }),
            Step::Miss { at } => spec == Parsed::<V>::Miss { at: at as nat },
            Step::Fail { kind, at } => spec == Parsed::<V>::Fail { kind, at: at as nat },
        }
    }
}

impl<T: View> Step<T> {
    /// Whether this is what `spec` says of a production tried at `pos` in a
    /// text of `limit` characters.
    pub open spec fn matches(self, pos: usize, limit: usize, spec: Parsed<T::V>) -> bool {
        match self {
            Step::Done { value, next } => pos <= next <= limit && spec == (Parsed::Done {
                value: value@,
                len: (next - pos) as nat,
            }),
            Step::Miss { at } => spec == Parsed::<T::V>::Miss { at: at as nat },
            Step::Fail { kind, at } => spec == Parsed::<T::V>::Fail { kind, at: at as nat },
        }
    }
}

} // verus!
