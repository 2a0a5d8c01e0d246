//! Tokens of the description language, as a flat sequence in which a
//! bracketed group stands between its opening and its closing token.

use proc_macro2::Delimiter as Outer;
use proc_macro2::{Spacing, TokenStream, TokenTree};
use crate::text::{
    is_number_text, is_plain_text, is_string_text, number_text, plain_text, string_text,
};
use vstd::prelude::*;

verus! {

/// The brackets of a group.
#[derive(Debug, Clone, Copy, PartialEq, Eq, Structural)]
pub enum Delimiter {
    Parenthesis,
    Brace,
    Bracket,
    /// No brackets: a group that only a macro expansion makes.
    Invisible,
}

/// One token.
#[derive(Debug, Clone, PartialEq, Eq)]
pub enum Token {
    /// An identifier or keyword.
    Ident(String),
    /// One punctuation character, and whether the next token follows it
    /// without a gap.
    Punct(char, bool),
    /// A literal, as it is written.
    Literal(String),
    /// The opening bracket of a group.
    Open(Delimiter),
    /// The closing bracket of a group.
    Close(Delimiter),
}

/// One token, with its text as characters.
pub enum TokenView {
    Ident(Seq<char>),
    Punct(char, bool),
    Literal(Seq<char>),
    Open(Delimiter),
    Close(Delimiter),
}

impl View for Token {
    type V = TokenView;

    open spec fn view(&self) -> TokenView {
        match self {
            Token::Ident(s) => TokenView::Ident(s@),
            Token::Punct(c, joint) => TokenView::Punct(*c, *joint),
            Token::Literal(s) => TokenView::Literal(s@),
            Token::Open(d) => TokenView::Open(*d),
            Token::Close(d) => TokenView::Close(*d),
        }
    }
}

/// The views of a sequence of tokens, in order.
pub open spec fn tokens_view(tokens: Seq<Token>) -> Seq<TokenView> {
    Seq::new(tokens.len(), |i: int| tokens[i]@)
}

/// `proc_macro2::TokenStream`, carried through as an opaque value.
#[verifier::external_type_specification]
#[verifier::external_body]
pub struct ExTokenStream(TokenStream);

/// The tokens of a token stream, each group as its opening token, its
/// tokens and its closing token.
pub uninterp spec fn stream_tokens(stream: TokenStream) -> Seq<TokenView>;

/// The base-10 digits of the integer literal that a text is; `None` for a
/// text that is no integer literal. As `syn` reads the text over
/// `proc_macro2`'s own lexer.
pub uninterp spec fn int_literal_digits(text: Seq<char>) -> Option<Seq<char>>;

/// The string that the string literal denotes that a text is; `None` for
/// a text that is no string literal. As `syn` reads the text over
/// `proc_macro2`'s own lexer.
pub uninterp spec fn str_literal_value(text: Seq<char>) -> Option<Seq<char>>;

/// Whether a text is a path, as `syn` reads it over `proc_macro2`'s own
/// lexer.
pub uninterp spec fn is_path_text(text: Seq<char>) -> bool;

/// Whether a text is an expression, as `syn` reads it over
/// `proc_macro2`'s own lexer.
pub uninterp spec fn is_expr_text(text: Seq<char>) -> bool;

/// `proc_macro2::fallback::force` and `str::parse::<TokenStream>`:
/// splits a text into tokens with `proc_macro2`'s own lexer, or fails
/// where the text is no sequence of tokens. Nothing is claimed of which
/// tokens a text gives.
#[verifier::external_body]
pub(crate) fn stream_of(text: &str) -> (r: Option<TokenStream>) {
    proc_macro2::fallback::force();
    text.parse::<TokenStream>().ok()
}

/// Iteration over a `proc_macro2::TokenStream`: appends its tokens to
/// `out`, in order. An identifier and a literal are taken by their
/// `to_string`, a punctuation character by `Punct::as_char` and
/// `Punct::spacing`, and a group, by `Group::delimiter` and
/// `Group::stream`, as its opening token, its tokens and its closing
/// token.
#[verifier::external_body]
pub(crate) fn flatten(stream: TokenStream, out: &mut Vec<Token>)
    ensures
        tokens_view(final(out)@) == tokens_view(old(out)@) + stream_tokens(stream),
{
    for tree in stream {
        match tree {
            TokenTree::Ident(i) => out.push(Token::Ident(i.to_string())),
            TokenTree::Punct(p) => out.push(Token::Punct(p.as_char(), p.spacing() == Spacing::Joint)),
            TokenTree::Literal(l) => out.push(Token::Literal(l.to_string())),
            TokenTree::Group(g) => {
                let d = match g.delimiter() { Outer::Parenthesis => Delimiter::Parenthesis,
                    Outer::Brace => Delimiter::Brace, Outer::Bracket => Delimiter::Bracket, Outer::None => Delimiter::Invisible };
                out.push(Token::Open(d));
                flatten(g.stream(), out);
                out.push(Token::Close(d));
            },
        }
    }
}

/// Splits a text into tokens; `None` where the text is no sequence of
/// tokens. Which tokens a text gives is left to the lexer: what is made
/// of them is stated by the functions that take tokens.
pub fn lex(text: &str) -> (r: Option<Vec<Token>>) {
    match stream_of(text) {
        Some(stream) => {
            let mut out: Vec<Token> = Vec::new();
            flatten(stream, &mut out);
            Some(out)
        },
        None => None,
    }
}

/// `proc_macro2::fallback::force`, `syn::parse_str::<syn::LitInt>` and
/// `LitInt::base10_digits`: reads a text as one integer literal and gives
/// its digits in base 10. The text is lexed by `proc_macro2`'s own lexer,
/// so the result depends on the text alone. `syn` panics on a literal
/// that it does not know; a text of letters, digits and underscores that
/// begins with a digit holds none.
#[verifier::external_body]
pub(crate) fn int_digits(text: &str) -> (r: Option<String>)
    requires
        is_number_text(text@),
    ensures
        match r {
            Some(digits) => int_literal_digits(text@) == Some(digits@),
            None => int_literal_digits(text@).is_none(),
        },
{
    proc_macro2::fallback::force();
    match syn::parse_str::<syn::LitInt>(text) {
        Ok(literal) => Some(literal.base10_digits().to_string()),
        Err(_) => None,
    }
}

/// `proc_macro2::fallback::force`, `syn::parse_str::<syn::LitStr>` and
/// `LitStr::value`: reads a text as one string literal and gives the
/// string that it denotes. The text is lexed by `proc_macro2`'s own
/// lexer, so the result depends on the text alone. `syn` panics on a
/// literal that it does not know; it looks at the first token only, and
/// a text that begins with a double quote or an `r` begins with none.
#[verifier::external_body]
pub(crate) fn str_value(text: &str) -> (r: Option<String>)
    requires
        is_string_text(text@),
    ensures
        match r {
            Some(value) => str_literal_value(text@) == Some(value@),
            None => str_literal_value(text@).is_none(),
        },
{
    proc_macro2::fallback::force();
    match syn::parse_str::<syn::LitStr>(text) {
        Ok(literal) => Some(literal.value()),
        Err(_) => None,
    }
}

/// `proc_macro2::fallback::force` and `syn::parse_str::<syn::Path>`:
/// whether a text reads as one path. The text is lexed by
/// `proc_macro2`'s own lexer, so the result depends on the text alone.
/// `syn` panics on a literal that it does not know: a C string, and the
/// marker that stands for an expansion error and holds a block comment.
/// A plain text holds neither.
#[verifier::external_body]
pub(crate) fn is_path(text: &str) -> (r: bool)
    requires
        is_plain_text(text@),
    ensures
        r == is_path_text(text@),
{
    proc_macro2::fallback::force();
    syn::parse_str::<syn::Path>(text).is_ok()
}

/// `proc_macro2::fallback::force` and `syn::parse_str::<syn::Expr>`:
/// whether a text reads as one expression. The text is lexed by
/// `proc_macro2`'s own lexer, so the result depends on the text alone.
/// `syn` panics on a literal that it does not know: a C string, and the
/// marker that stands for an expansion error and holds a block comment.
/// A plain text holds neither.
#[verifier::external_body]
pub(crate) fn is_expr(text: &str) -> (r: bool)
    requires
        is_plain_text(text@),
    ensures
        r == is_expr_text(text@),
{
    proc_macro2::fallback::force();
    syn::parse_str::<syn::Expr>(text).is_ok()
}

/// `String::from_iter` over characters: the string made of them.
#[verifier::external_body]
pub(crate) fn string_of(chars: &Vec<char>) -> (r: String)
    ensures
        r@ == chars@,
{
    chars.iter().collect()
}

/// The base-10 digits of a text that is an integer literal.
pub open spec fn integer_of(text: Seq<char>) -> Option<Seq<char>> {
    if is_number_text(text) {
        int_literal_digits(text)
    } else {
        None
    }
}

/// The string that a text denotes that is a string literal.
pub open spec fn string_denoted(text: Seq<char>) -> Option<Seq<char>> {
    if is_string_text(text) {
        str_literal_value(text)
    } else {
        None
    }
}

/// Whether a plain text reads as one path.
pub open spec fn reads_as_path(text: Seq<char>) -> bool {
    is_plain_text(text) && is_path_text(text)
}

/// Whether a plain text reads as one expression.
pub open spec fn reads_as_expr(text: Seq<char>) -> bool {
    is_plain_text(text) && is_expr_text(text)
}

/// The characters of an optional string.
pub open spec fn chars_of(s: Option<String>) -> Option<Seq<char>> {
    match s {
        Some(s) => Some(s@),
        None => None,
    }
}

/// Reads a text as one integer literal and gives its digits in base 10;
/// `None` for a text that cannot be a number or is none.
pub fn read_integer(text: &str) -> (r: Option<String>)
    ensures
        chars_of(r) == integer_of(text@),
{
    if number_text(text) {
        int_digits(text)
    } else {
        None
    }
}

/// Reads a text as one string literal and gives the string that it
/// denotes; `None` for a text that cannot be a string or is none.
pub fn read_string(text: &str) -> (r: Option<String>)
    ensures
        chars_of(r) == string_denoted(text@),
{
    if string_text(text) {
        str_value(text)
    } else {
        None
    }
}

/// Whether a text is plain and reads as one path.
pub fn path_text(text: &str) -> (r: bool)
    ensures
        r == reads_as_path(text@),
{
    plain_text(text) && is_path(text)
}

/// Whether a text is plain and reads as one expression.
pub fn expr_text(text: &str) -> (r: bool)
    ensures
        r == reads_as_expr(text@),
{
    plain_text(text) && is_expr(text)
}

} // verus!
