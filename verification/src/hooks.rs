//! Lists of named hooks: `name: value` fields separated by commas, where
//! each name is one of a given set and each value a path or a literal.
//!
//! ```text
//! hooks := ( hook ( "," hook )* ","? )?
//! hook  := IDENT ":" value
//! ```
//!
//! A value reaches to the next comma that stands in no group and within no
//! angle brackets of a path (`a::<B, C>`). A name
//! that is given twice keeps its last value.

use crate::model::text_view;
use crate::parser::{
    find_value_end, is_punct, lemma_value_end_bounds, render, rendered, token_is_punct, value_end,
};
use crate::text::str_eq;
use crate::tokens::{lex, path_text, reads_as_path, tokens_view, Token, TokenView};
use vstd::prelude::*;

verus! {

/// What the value of a hook must be.
#[derive(Debug, Clone, Copy, PartialEq, Eq, Structural)]
pub enum HookKind {
    /// A path; its text is kept.
    Path,
    /// One literal; it is kept as it is written.
    Literal,
}

/// What is wrong with a list of hooks.
#[derive(Debug, Clone, Copy, PartialEq, Eq, Structural)]
pub enum HookErrorKind {
    /// The text is no sequence of tokens.
    NotTokens,
    /// A name was expected.
    ExpectedIdent,
    /// A colon was expected after a name.
    ExpectedColon,
    /// A name that is not in the set.
    UnknownField,
    /// The value is not of the kind asked for.
    UnexpectedValue,
}

/// An error in a list of hooks, with the position of the offending token.
#[derive(Debug, Clone, Copy, PartialEq, Eq, Structural)]
pub struct HookError {
    pub span: usize,
    pub kind: HookErrorKind,
}

/// The error that names the token at a position.
pub open spec fn hook_error(pos: int, kind: HookErrorKind) -> HookError {
    HookError { span: pos as usize, kind }
}

/// The characters of each name.
pub open spec fn names_view(names: Seq<String>) -> Seq<Seq<char>> {
    Seq::new(names.len(), |i: int| names[i]@)
}

/// The characters of each value that is set.
pub open spec fn slots_view(slots: Seq<Option<String>>) -> Seq<Option<Seq<char>>> {
    Seq::new(slots.len(), |i: int| text_view(slots[i]))
}

/// As many slots as there are names, none of them set.
pub open spec fn unset(n: nat) -> Seq<Option<Seq<char>>> {
    Seq::new(n, |i: int| None)
}

/// The first position, from `from` on, at which the name stands.
pub open spec fn name_position(names: Seq<Seq<char>>, from: int, name: Seq<char>) -> Option<int>
    decreases names.len() - from,
{
    if from < 0 || from >= names.len() {
        None
    } else if names[from] == name {
        Some(from)
    } else {
        name_position(names, from + 1, name)
    }
}

/// The value that the tokens from `from` to `to` give to a hook.
pub open spec fn hook_value(ts: Seq<TokenView>, kind: HookKind, from: int, to: int) -> Option<
    Seq<char>,
> {
    match kind {
        HookKind::Path => if reads_as_path(rendered(ts, from, to)) {
            Some(rendered(ts, from, to))
        } else {
            None
        },
        HookKind::Literal => if 0 <= from && to == from + 1 && to <= ts.len()
            && ts[from] is Literal {
            Some(ts[from]->Literal_0)
        } else {
            None
        },
    }
}

#[via_fn]
proof fn hooks_from_decreases(
    ts: Seq<TokenView>,
    pos: int,
    end: int,
    names: Seq<Seq<char>>,
    kind: HookKind,
    slots: Seq<Option<Seq<char>>>,
) {
    if 0 <= pos && pos + 1 < end <= ts.len() {
        lemma_value_end_bounds(ts, pos + 2, end, 0, 0);
    }
}

/// The slots after the hooks from `pos` to `end` have been set.
pub open spec fn hooks_from(
    ts: Seq<TokenView>,
    pos: int,
    end: int,
    names: Seq<Seq<char>>,
    kind: HookKind,
    slots: Seq<Option<Seq<char>>>,
) -> Result<Seq<Option<Seq<char>>>, HookError>
    decreases end - pos,
    via hooks_from_decreases
{
    if pos >= end || pos < 0 || end > ts.len() {
        Ok(slots)
    } else {
        match ts[pos] {
            TokenView::Ident(name) => if pos + 1 < end && is_punct(ts[pos + 1], ':') {
                let stop = value_end(ts, pos + 2, end, 0, 0);
                match name_position(names, 0, name) {
                    Some(slot) => match hook_value(ts, kind, pos + 2, stop) {
                        Some(value) => if stop >= end {
                            Ok(slots.update(slot, Some(value)))
                        } else {
                            hooks_from(
                                ts,
                                stop + 1,
                                end,
                                names,
                                kind,
                                slots.update(slot, Some(value)),
                            )
                        },
                        None => Err(hook_error(pos + 2, HookErrorKind::UnexpectedValue)),
                    },
                    None => Err(hook_error(pos, HookErrorKind::UnknownField)),
                }
            } else {
                Err(hook_error(pos + 1, HookErrorKind::ExpectedColon))
            },
            _ => Err(hook_error(pos, HookErrorKind::ExpectedIdent)),
        }
    }
}

/// Whether `r` is what a whole sequence of tokens sets: an error, or
/// one slot for each name.
pub open spec fn hooks_read(
    ts: Seq<TokenView>,
    names: Seq<Seq<char>>,
    kind: HookKind,
    r: Result<Vec<Option<String>>, HookError>,
) -> bool {
    let set = hooks_from(ts, 0, ts.len() as int, names, kind, unset(names.len()));
    match r {
        Ok(slots) => slots.len() == names.len() && set == Ok::<
            Seq<Option<Seq<char>>>,
            HookError,
        >(slots_view(slots@)),
        Err(e) => set == Err::<Seq<Option<Seq<char>>>, HookError>(e),
    }
}

/// Finds the first position at which a name stands.
pub fn find_name(names: &Vec<String>, name: &str) -> (r: Option<usize>)
    ensures
        match r {
            Some(i) => i < names.len() && name_position(names_view(names@), 0, name@) == Some(
                i as int,
            ),
            None => name_position(names_view(names@), 0, name@).is_none(),
        },
{
    let mut i: usize = 0;
    while i < names.len()
        invariant
            0 <= i <= names.len(),
            name_position(names_view(names@), 0, name@) == name_position(
                names_view(names@),
                i as int,
                name@,
            ),
        decreases names.len() - i,
    {
        if str_eq(names[i].as_str(), name) {
            return Some(i);
        }
        i += 1;
    }
    None
}

/// Reads the tokens from `from` to `to` as the value of a hook.
pub fn read_hook_value(tokens: &Vec<Token>, kind: HookKind, from: usize, to: usize) -> (r: Option<
    String,
>)
    requires
        from <= to <= tokens.len(),
    ensures
        text_view(r) == hook_value(tokens_view(tokens@), kind, from as int, to as int),
{
    match kind {
        HookKind::Path => {
            let text = render(tokens, from, to);
            if path_text(text.as_str()) {
                Some(text)
            } else {
                None
            }
        },
        HookKind::Literal => {
            if to - from != 1 {
                return None;
            }
            assert(tokens_view(tokens@)[from as int] == tokens[from as int]@);
            match &tokens[from] {
                Token::Literal(text) => Some(text.clone()),
                _ => None,
            }
        },
    }
}

/// Reads a whole sequence of tokens as a list of hooks, and gives the
/// value of each name, in the order of the names.
pub fn parse_hooks(tokens: &Vec<Token>, names: &Vec<String>, kind: HookKind) -> (r: Result<
    Vec<Option<String>>,
    HookError,
>)
    ensures
        match r {
            Ok(slots) => slots.len() == names.len() && hooks_from(
                tokens_view(tokens@),
                0,
                tokens@.len() as int,
                names_view(names@),
                kind,
                unset(names@.len()),
            ) == Ok::<Seq<Option<Seq<char>>>, HookError>(slots_view(slots@)),
            Err(e) => hooks_from(
                tokens_view(tokens@),
                0,
                tokens@.len() as int,
                names_view(names@),
                kind,
                unset(names@.len()),
            ) == Err::<Seq<Option<Seq<char>>>, HookError>(e),
        },
{
    let ghost ts = tokens_view(tokens@);
    let ghost ns = names_view(names@);
    let end = tokens.len();
    let mut slots: Vec<Option<String>> = Vec::new();
    let mut k: usize = 0;
    while k < names.len()
        invariant
            0 <= k <= names.len(),
            slots.len() == k,
            forall|i: int| 0 <= i < k ==> slots[i].is_none(),
        decreases names.len() - k,
    {
        slots.push(None);
        k += 1;
    }
    assert(slots_view(slots@) =~= unset(names@.len()));
    let mut pos: usize = 0;
    while pos < end
        invariant
            ts == tokens_view(tokens@),
            ns == names_view(names@),
            end == tokens.len(),
            slots.len() == names.len(),
            hooks_from(ts, 0, end as int, ns, kind, unset(names@.len())) == hooks_from(
                ts,
                pos as int,
                end as int,
                ns,
                kind,
                slots_view(slots@),
            ),
        decreases end - pos,
    {
        assert(ts[pos as int] == tokens[pos as int]@);
        match &tokens[pos] {
            Token::Ident(name) => {
                if pos + 1 >= end {
                    return Err(HookError { span: pos + 1, kind: HookErrorKind::ExpectedColon });
                }
                assert(ts[pos + 1] == tokens[pos + 1]@);
                if !token_is_punct(&tokens[pos + 1], ':') {
                    return Err(HookError { span: pos + 1, kind: HookErrorKind::ExpectedColon });
                }
                let stop = find_value_end(tokens, pos + 2, end);
                let slot = match find_name(names, name.as_str()) {
                    Some(slot) => slot,
                    None => {
                        return Err(HookError { span: pos, kind: HookErrorKind::UnknownField });
                    },
                };
                let value = match read_hook_value(tokens, kind, pos + 2, stop) {
                    Some(value) => value,
                    None => {
                        return Err(
                            HookError { span: pos + 2, kind: HookErrorKind::UnexpectedValue },
                        );
                    },
                };
                let ghost before = slots_view(slots@);
                slots.set(slot, Some(value));
                assert(slots_view(slots@) =~= before.update(slot as int, Some(value@)));
                if stop >= end {
                    return Ok(slots);
                }
                pos = stop + 1;
            },
            _ => {
                return Err(HookError { span: pos, kind: HookErrorKind::ExpectedIdent });
            },
        }
    }
    Ok(slots)
}

/// Reads a text as a list of hooks: fails where the text is no sequence
/// of tokens, and else gives what `parse_hooks` makes of its tokens.
pub fn hooks_of_text(text: &str, names: &Vec<String>, kind: HookKind) -> (r: Result<
    Vec<Option<String>>,
    HookError,
>)
    ensures
        r == Err::<Vec<Option<String>>, HookError>(hook_error(0, HookErrorKind::NotTokens))
            || exists|ts: Seq<TokenView>| #[trigger] hooks_read(ts, names_view(names@), kind, r),
{
    match lex(text) {
        Some(tokens) => {
            let r = parse_hooks(&tokens, names, kind);
            assert(hooks_read(tokens_view(tokens@), names_view(names@), kind, r));
            r
        },
        None => Err(HookError { span: 0, kind: HookErrorKind::NotTokens }),
    }
}

/// A name that is set holds the value that was given to it last; the
/// other slots stay as they were.
pub proof fn lemma_hook_set(
    name: Seq<char>,
    joint: bool,
    literal: Seq<char>,
    names: Seq<Seq<char>>,
    slots: Seq<Option<Seq<char>>>,
)
    requires
        slots.len() == names.len(),
        name_position(names, 0, name).is_some(),
    ensures
        ({
            let ts = seq![
                TokenView::Ident(name),
                TokenView::Punct(':', joint),
                TokenView::Literal(literal),
            ];
            hooks_from(ts, 0, 3, names, HookKind::Literal, slots) == Ok::<
                Seq<Option<Seq<char>>>,
                HookError,
            >(slots.update(name_position(names, 0, name).unwrap(), Some(literal)))
        }),
{
    let ts = seq![TokenView::Ident(name), TokenView::Punct(':', joint), TokenView::Literal(literal)];
    assert(value_end(ts, 3, 3, 0, 0) == 3);
    assert(value_end(ts, 2, 3, 0, 0) == 3);
}

} // verus!
