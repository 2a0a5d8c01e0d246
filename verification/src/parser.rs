//! The nested-record grammar over tokens.
//!
//! ```text
//! records := ( record ( "," record )* ","? )?
//! record  := IDENT ":" value
//! value   := group of records | integer literal | string literal
//!          | group of flags | path
//! flags   := IDENT ( "|" IDENT )* "|"?
//! ```
//!
//! A value reaches to the next comma that stands in no group and within no
//! angle brackets of a path (`a::<B, C>`). Whether a
//! literal is an integer or a string, and whether tokens form a path, is
//! decided by `syn`.

use crate::flags::Flags;
use crate::records::{
    distinct_keys, has_key, inserted, lemma_inserted_distinct, DataModel, Record, RecordKey, RecordValue, RecordValueData, Records, RecordsModel,
    ValueModel,
};
use crate::tokens::{
    chars_of, integer_of, path_text, read_integer, read_string, reads_as_path, string_denoted,
    string_of, tokens_view, Delimiter, Token, TokenView,
};
use vstd::prelude::*;

verus! {

/// What the parser expected and did not find.
#[derive(Debug, Clone, Copy, PartialEq, Eq, Structural)]
pub enum ParseErrorKind {
    /// The text is no sequence of tokens.
    NotTokens,
    /// A key was expected.
    ExpectedIdent,
    /// A colon was expected after a key.
    ExpectedColon,
    /// The tokens of a value are none of the five kinds of value.
    UnexpectedInput,
}

/// A syntax error, with the position of the offending token.
#[derive(Debug, Clone, Copy, PartialEq, Eq, Structural)]
pub struct ParseError {
    pub span: usize,
    pub kind: ParseErrorKind,
}

/// The position of the closing token that brings the depth to zero.
pub open spec fn close_from(ts: Seq<TokenView>, pos: int, end: int, depth: nat) -> Option<int>
    decreases end - pos,
{
    if pos >= end || pos < 0 || end > ts.len() {
        None
    } else {
        match ts[pos] {
            TokenView::Open(_) => close_from(ts, pos + 1, end, depth + 1),
            TokenView::Close(_) => if depth <= 1 {
                Some(pos)
            } else {
                close_from(ts, pos + 1, end, (depth - 1) as nat)
            },
            _ => close_from(ts, pos + 1, end, depth),
        }
    }
}

/// The position of the closing token of the group that opens at `open`.
pub open spec fn group_close(ts: Seq<TokenView>, open: int, end: int) -> Option<int> {
    close_from(ts, open + 1, end, 1)
}

/// Whether a token is the given punctuation character.
pub open spec fn is_punct(t: TokenView, c: char) -> bool {
    match t {
        TokenView::Punct(p, _) => p == c,
        _ => false,
    }
}

/// Whether the token at `pos` follows a `::`.
pub open spec fn after_separator(ts: Seq<TokenView>, pos: int) -> bool {
    2 <= pos <= ts.len() && is_punct(ts[pos - 1], ':') && ts[pos - 2] == TokenView::Punct(
        ':',
        true,
    )
}

/// Whether the token at `pos` follows a `-` without a gap, as the `>` of
/// an arrow does.
pub open spec fn after_minus(ts: Seq<TokenView>, pos: int) -> bool {
    1 <= pos <= ts.len() && ts[pos - 1] == TokenView::Punct('-', true)
}

/// The nesting after the token at `pos`: how many groups are open, and
/// how many angle brackets outside any group. An angle bracket opens at
/// a `<` that follows a `::` or stands within angle brackets, and closes
/// at a `>` that is not the end of an arrow.
pub open spec fn nesting_after(ts: Seq<TokenView>, pos: int, depth: nat, angles: nat) -> (nat, nat)
    recommends
        0 <= pos < ts.len(),
{
    match ts[pos] {
        TokenView::Open(_) => (depth + 1, angles),
        TokenView::Close(_) => (
            if depth > 0 {
                (depth - 1) as nat
            } else {
                0
            },
            angles,
        ),
        TokenView::Punct(c, _) => if depth == 0 && c == '<' && (angles > 0 || after_separator(
            ts,
            pos,
        )) {
            (depth, angles + 1)
        } else if depth == 0 && c == '>' && angles > 0 && !after_minus(ts, pos) {
            (depth, (angles - 1) as nat)
        } else {
            (depth, angles)
        },
        _ => (depth, angles),
    }
}

/// The end of a value: the position of the first comma that stands in no
/// group and within no angle brackets, or `end`.
pub open spec fn value_end(ts: Seq<TokenView>, pos: int, end: int, depth: nat, angles: nat) -> int
    decreases end - pos,
{
    if pos >= end || pos < 0 || end > ts.len() {
        end
    } else if depth == 0 && angles == 0 && is_punct(ts[pos], ',') {
        pos
    } else {
        value_end(
            ts,
            pos + 1,
            end,
            nesting_after(ts, pos, depth, angles).0,
            nesting_after(ts, pos, depth, angles).1,
        )
    }
}

/// The end of a value lies between its start and the end of the range.
pub proof fn lemma_value_end_bounds(
    ts: Seq<TokenView>,
    pos: int,
    end: int,
    depth: nat,
    angles: nat,
)
    requires
        0 <= pos <= end <= ts.len(),
    ensures
        pos <= value_end(ts, pos, end, depth, angles) <= end,
    decreases end - pos,
{
    if pos < end && !(depth == 0 && angles == 0 && is_punct(ts[pos], ',')) {
        lemma_value_end_bounds(
            ts,
            pos + 1,
            end,
            nesting_after(ts, pos, depth, angles).0,
            nesting_after(ts, pos, depth, angles).1,
        );
    }
}

/// A set of names with one more name.
pub open spec fn with_name(names: Seq<Seq<char>>, name: Seq<char>) -> Seq<Seq<char>> {
    if names.contains(name) {
        names
    } else {
        names.push(name)
    }
}

/// The flag-set that the tokens from `pos` to `end` add to `names`.
pub open spec fn flags_from(ts: Seq<TokenView>, pos: int, end: int, names: Seq<Seq<char>>) -> Option<
    Seq<Seq<char>>,
>
    decreases end - pos,
{
    if pos >= end || pos < 0 || end > ts.len() {
        Some(names)
    } else {
        match ts[pos] {
            TokenView::Ident(name) => if pos + 1 >= end {
                Some(with_name(names, name))
            } else if is_punct(ts[pos + 1], '|') {
                flags_from(ts, pos + 2, end, with_name(names, name))
            } else {
                None
            },
            _ => None,
        }
    }
}

/// The character that opens a group.
pub open spec fn open_char(d: Delimiter) -> char {
    match d {
        Delimiter::Parenthesis => '(',
        Delimiter::Brace => '{',
        Delimiter::Bracket => '[',
        Delimiter::Invisible => ' ',
    }
}

/// The character that closes a group.
pub open spec fn close_char(d: Delimiter) -> char {
    match d {
        Delimiter::Parenthesis => ')',
        Delimiter::Brace => '}',
        Delimiter::Bracket => ']',
        Delimiter::Invisible => ' ',
    }
}

/// The text of one token.
pub open spec fn token_text(t: TokenView) -> Seq<char> {
    match t {
        TokenView::Ident(s) => s,
        TokenView::Literal(s) => s,
        TokenView::Punct(c, _) => seq![c],
        TokenView::Open(d) => seq![open_char(d)],
        TokenView::Close(d) => seq![close_char(d)],
    }
}

/// Whether the next token follows this one without a gap.
pub open spec fn glued(t: TokenView) -> bool {
    match t {
        TokenView::Punct(_, joint) => joint,
        _ => false,
    }
}

/// The text of a run of tokens: one space between two tokens, and none
/// after a punctuation character that the next token follows directly.
pub open spec fn rendered(ts: Seq<TokenView>, from: int, to: int) -> Seq<char>
    decreases to - from,
{
    if from >= to || from < 0 || to > ts.len() {
        Seq::empty()
    } else if to - 1 > from && !glued(ts[to - 2]) {
        rendered(ts, from, to - 1) + seq![' '] + token_text(ts[to - 1])
    } else {
        rendered(ts, from, to - 1) + token_text(ts[to - 1])
    }
}

/// The error that names the token at a position.
pub open spec fn error_at(pos: int, kind: ParseErrorKind) -> ParseError {
    ParseError { span: pos as usize, kind }
}

/// Whether the tokens from `from` to `to` are one group.
pub open spec fn is_group(ts: Seq<TokenView>, from: int, to: int) -> bool {
    &&& 0 <= from < to <= ts.len()
    &&& ts[from] is Open
    &&& group_close(ts, from, to) == Some(to - 1)
}

/// The digits, with the sign before them, of a minus sign that one
/// integer literal follows.
pub open spec fn negative_integer(ts: Seq<TokenView>, from: int, to: int) -> Option<Seq<char>> {
    if 0 <= from && to == from + 2 && to <= ts.len() && is_punct(ts[from], '-')
        && ts[from + 1] is Literal {
        match integer_of(ts[from + 1]->Literal_0) {
            Some(digits) => Some(seq!['-'] + digits),
            None => None,
        }
    } else {
        None
    }
}

/// The value that the tokens from `from` to `to` denote: a group of
/// records, else one integer literal, else one string literal, else a
/// minus sign and one integer literal, else a group of flags, else a
/// path.
pub open spec fn value_of(ts: Seq<TokenView>, from: int, to: int) -> Result<ValueModel, ParseError>
    decreases to - from, 0nat,
{
    if from >= to || from < 0 || to > ts.len() {
        Err(error_at(from, ParseErrorKind::UnexpectedInput))
    } else if is_group(ts, from, to) {
        match records_from(ts, from + 1, to - 1, Seq::empty()) {
            Ok(fields) => Ok(
                ValueModel {
                    span: from,
                    data: DataModel::Records(RecordsModel { span: from, fields }),
                },
            ),
            Err(_) => match flags_from(ts, from + 1, to - 1, Seq::empty()) {
                Some(names) => Ok(ValueModel { span: from, data: DataModel::Flags(names) }),
                None => Err(error_at(from, ParseErrorKind::UnexpectedInput)),
            },
        }
    } else if to == from + 1 && ts[from] is Literal {
        let text = ts[from]->Literal_0;
        match integer_of(text) {
            Some(digits) => Ok(ValueModel { span: from, data: DataModel::LitInt(digits) }),
            None => match string_denoted(text) {
                Some(value) => Ok(ValueModel { span: from, data: DataModel::LitStr(value) }),
                None => Err(error_at(from, ParseErrorKind::UnexpectedInput)),
            },
        }
    } else if negative_integer(ts, from, to).is_some() {
        Ok(
            ValueModel {
                span: from,
                data: DataModel::LitInt(negative_integer(ts, from, to).unwrap()),
            },
        )
    } else if reads_as_path(rendered(ts, from, to)) {
        Ok(ValueModel { span: from, data: DataModel::Path(rendered(ts, from, to)) })
    } else {
        Err(error_at(from, ParseErrorKind::UnexpectedInput))
    }
}

#[via_fn]
proof fn records_from_decreases(
    ts: Seq<TokenView>,
    pos: int,
    end: int,
    fields: Seq<(Seq<char>, ValueModel)>,
) {
    if 0 <= pos && pos + 1 < end <= ts.len() {
        lemma_value_end_bounds(ts, pos + 2, end, 0, 0);
    }
}

/// The fields that the records from `pos` to `end` add to `fields`.
pub open spec fn records_from(
    ts: Seq<TokenView>,
    pos: int,
    end: int,
    fields: Seq<(Seq<char>, ValueModel)>,
) -> Result<Seq<(Seq<char>, ValueModel)>, ParseError>
    decreases end - pos, 1nat,
    via records_from_decreases
{
    if pos >= end || pos < 0 || end > ts.len() {
        Ok(fields)
    } else {
        match ts[pos] {
            TokenView::Ident(key) => if pos + 1 < end && is_punct(ts[pos + 1], ':') {
                let stop = value_end(ts, pos + 2, end, 0, 0);
                match value_of(ts, pos + 2, stop) {
                    Ok(value) => if stop >= end {
                        Ok(inserted(fields, key, value))
                    } else {
                        records_from(ts, stop + 1, end, inserted(fields, key, value))
                    },
                    Err(e) => Err(e),
                }
            } else {
                Err(error_at(pos + 1, ParseErrorKind::ExpectedColon))
            },
            _ => Err(error_at(pos, ParseErrorKind::ExpectedIdent)),
        }
    }
}

/// Finds the closing token of the group that opens at `open`.
pub fn find_close(tokens: &Vec<Token>, open: usize, end: usize) -> (r: Option<usize>)
    requires
        open < end <= tokens.len(),
    ensures
        match r {
            Some(p) => group_close(tokens_view(tokens@), open as int, end as int) == Some(
                p as int,
            ) && open < p < end,
            None => group_close(tokens_view(tokens@), open as int, end as int).is_none(),
        },
{
    let ghost ts = tokens_view(tokens@);
    let mut pos: usize = open + 1;
    let mut depth: usize = 1;
    while pos < end
        invariant
            ts == tokens_view(tokens@),
            open < pos <= end <= tokens.len(),
            1 <= depth <= pos - open,
            group_close(ts, open as int, end as int) == close_from(
                ts,
                pos as int,
                end as int,
                depth as nat,
            ),
        decreases end - pos,
    {
        assert(ts[pos as int] == tokens[pos as int]@);
        match &tokens[pos] {
            Token::Open(_) => {
                depth += 1;
            },
            Token::Close(_) => {
                if depth <= 1 {
                    return Some(pos);
                }
                depth -= 1;
            },
            _ => {},
        }
        pos += 1;
    }
    None
}

/// Whether a token is the given punctuation character.
pub fn token_is_punct(token: &Token, c: char) -> (r: bool)
    ensures
        r == is_punct(token@, c),
{
    match token {
        Token::Punct(p, _) => *p == c,
        _ => false,
    }
}

/// Finds the end of the value that starts at `start`.
pub fn find_value_end(tokens: &Vec<Token>, start: usize, end: usize) -> (r: usize)
    requires
        start <= end <= tokens.len(),
    ensures
        r == value_end(tokens_view(tokens@), start as int, end as int, 0, 0),
        start <= r <= end,
{
    let ghost ts = tokens_view(tokens@);
    let mut pos: usize = start;
    let mut depth: usize = 0;
    let mut angles: usize = 0;
    while pos < end
        invariant
            ts == tokens_view(tokens@),
            start <= pos <= end <= tokens.len(),
            depth + angles <= pos - start,
            value_end(ts, start as int, end as int, 0, 0) == value_end(
                ts,
                pos as int,
                end as int,
                depth as nat,
                angles as nat,
            ),
        decreases end - pos,
    {
        assert(ts[pos as int] == tokens[pos as int]@);
        if depth == 0 && angles == 0 && token_is_punct(&tokens[pos], ',') {
            return pos;
        }
        match &tokens[pos] {
            Token::Open(_) => {
                depth += 1;
            },
            Token::Close(_) => {
                if depth > 0 {
                    depth -= 1;
                }
            },
            Token::Punct(c, _) => {
                if depth == 0 && *c == '<' {
                    let mut opens = angles > 0;
                    if !opens && pos >= 2 {
                        assert(ts[pos - 1] == tokens[pos - 1]@);
                        assert(ts[pos - 2] == tokens[pos - 2]@);
                        let joint = match &tokens[pos - 2] {
                            Token::Punct(p, joint) => *p == ':' && *joint,
                            _ => false,
                        };
                        opens = joint && token_is_punct(&tokens[pos - 1], ':');
                    }
                    if opens {
                        angles += 1;
                    }
                } else if depth == 0 && *c == '>' && angles > 0 {
                    assert(ts[pos - 1] == tokens[pos - 1]@);
                    let arrow = match &tokens[pos - 1] {
                        Token::Punct(p, joint) => *p == '-' && *joint,
                        _ => false,
                    };
                    if !arrow {
                        angles -= 1;
                    }
                }
            },
            _ => {},
        }
        pos += 1;
    }
    end
}

impl Flags {
    /// Reads the tokens from `from` to `to` as names separated by `|`.
    pub fn parse(tokens: &Vec<Token>, from: usize, to: usize) -> (r: Option<Flags>)
        requires
            from <= to <= tokens.len(),
        ensures
            match r {
                Some(flags) => flags.wf() && flags_from(
                    tokens_view(tokens@),
                    from as int,
                    to as int,
                    Seq::empty(),
                ) == Some(flags@),
                None => flags_from(
                    tokens_view(tokens@),
                    from as int,
                    to as int,
                    Seq::empty(),
                ).is_none(),
            },
    {
        let ghost ts = tokens_view(tokens@);
        let mut flags = Flags::new();
        let mut pos: usize = from;
        while pos < to
            invariant
                ts == tokens_view(tokens@),
                from <= pos <= to <= tokens.len(),
                flags.wf(),
                flags_from(ts, from as int, to as int, Seq::empty()) == flags_from(
                    ts,
                    pos as int,
                    to as int,
                    flags@,
                ),
            decreases to - pos,
        {
            assert(ts[pos as int] == tokens[pos as int]@);
            match &tokens[pos] {
                Token::Ident(name) => {
                    let _ = flags.insert(name.clone());
                    if pos + 1 >= to {
                        return Some(flags);
                    }
                    assert(ts[pos + 1] == tokens[pos + 1]@);
                    if !token_is_punct(&tokens[pos + 1], '|') {
                        return None;
                    }
                    pos += 2;
                },
                _ => {
                    return None;
                },
            }
        }
        Some(flags)
    }
}

/// The character that opens a group.
pub fn opening(d: Delimiter) -> (c: char)
    ensures
        c == open_char(d),
{
    match d {
        Delimiter::Parenthesis => '(',
        Delimiter::Brace => '{',
        Delimiter::Bracket => '[',
        Delimiter::Invisible => ' ',
    }
}

/// The character that closes a group.
pub fn closing(d: Delimiter) -> (c: char)
    ensures
        c == close_char(d),
{
    match d {
        Delimiter::Parenthesis => ')',
        Delimiter::Brace => '}',
        Delimiter::Bracket => ']',
        Delimiter::Invisible => ' ',
    }
}

/// Appends the characters of a string.
fn push_text(out: &mut Vec<char>, text: &str)
    ensures
        final(out)@ == old(out)@ + text@,
{
    let n = text.unicode_len();
    let mut i: usize = 0;
    while i < n
        invariant
            n == text@.len(),
            0 <= i <= n,
            out@ =~= old(out)@ + text@.take(i as int),
        decreases n - i,
    {
        out.push(text.get_char(i));
        i += 1;
    }
    assert(text@.take(n as int) =~= text@);
}

/// Writes a run of tokens as text.
pub fn render(tokens: &Vec<Token>, from: usize, to: usize) -> (r: String)
    requires
        from <= to <= tokens.len(),
    ensures
        r@ == rendered(tokens_view(tokens@), from as int, to as int),
{
    let ghost ts = tokens_view(tokens@);
    let mut out: Vec<char> = Vec::new();
    let mut pos: usize = from;
    while pos < to
        invariant
            ts == tokens_view(tokens@),
            from <= pos <= to <= tokens.len(),
            out@ == rendered(ts, from as int, pos as int),
        decreases to - pos,
    {
        assert(ts[pos as int] == tokens[pos as int]@);
        let ghost before = out@;
        if pos > from {
            assert(ts[pos - 1] == tokens[pos - 1]@);
            let glued = match &tokens[pos - 1] {
                Token::Punct(_, joint) => *joint,
                _ => false,
            };
            if !glued {
                out.push(' ');
            }
        }
        let ghost spaced = out@;
        match &tokens[pos] {
            Token::Ident(s) => {
                push_text(&mut out, s.as_str());
            },
            Token::Literal(s) => {
                push_text(&mut out, s.as_str());
            },
            Token::Punct(c, _) => {
                out.push(*c);
            },
            Token::Open(d) => {
                out.push(opening(*d));
            },
            Token::Close(d) => {
                out.push(closing(*d));
            },
        }
        assert(out@ =~= spaced + token_text(ts[pos as int]));
        assert(out@ =~= rendered(ts, from as int, pos + 1));
        pos += 1;
    }
    string_of(&out)
}

/// Reads the tokens from `from` to `to` as a minus sign and one integer
/// literal, and gives the digits with the sign before them.
pub fn read_negative_integer(tokens: &Vec<Token>, from: usize, to: usize) -> (r: Option<String>)
    requires
        from <= to <= tokens.len(),
    ensures
        chars_of(r) == negative_integer(tokens_view(tokens@), from as int, to as int),
{
    if to - from != 2 {
        return None;
    }
    assert(tokens_view(tokens@)[from as int] == tokens[from as int]@);
    assert(tokens_view(tokens@)[from + 1] == tokens[from + 1]@);
    if !token_is_punct(&tokens[from], '-') {
        return None;
    }
    match &tokens[from + 1] {
        Token::Literal(text) => match read_integer(text.as_str()) {
            Some(digits) => {
                let mut out: Vec<char> = Vec::new();
                out.push('-');
                push_text(&mut out, digits.as_str());
                assert(out@ =~= seq!['-'] + digits@);
                Some(string_of(&out))
            },
            None => None,
        },
        _ => None,
    }
}

impl RecordValue {
    /// Reads the tokens from `from` to `to` as one value.
    pub fn parse(tokens: &Vec<Token>, from: usize, to: usize) -> (r: Result<
        RecordValue,
        ParseError,
    >)
        requires
            from <= to <= tokens.len(),
        ensures
            match r {
                Ok(value) => value.wf() && value_of(tokens_view(tokens@), from as int, to as int)
                    == Ok::<ValueModel, ParseError>(value.model()),
                Err(e) => value_of(tokens_view(tokens@), from as int, to as int) == Err::<
                    ValueModel,
                    ParseError,
                >(e),
            },
        decreases to - from, 0nat,
    {
        let ghost ts = tokens_view(tokens@);
        let unexpected = ParseError { span: from, kind: ParseErrorKind::UnexpectedInput };
        if from >= to {
            return Err(unexpected);
        }
        assert(ts[from as int] == tokens[from as int]@);
        let whole_group = match &tokens[from] {
            Token::Open(_) => match find_close(tokens, from, to) {
                Some(close) => close == to - 1,
                None => false,
            },
            _ => false,
        };
        assert(whole_group == is_group(ts, from as int, to as int));
        if whole_group {
            match parse_records(tokens, from + 1, to - 1, from) {
                Ok(records) => {
                    return Ok(RecordValue { span: from, data: RecordValueData::Records(records) });
                },
                Err(_) => {},
            }
            return match Flags::parse(tokens, from + 1, to - 1) {
                Some(flags) => Ok(RecordValue { span: from, data: RecordValueData::Flags(flags) }),
                None => Err(unexpected),
            };
        }
        if to == from + 1 {
            match &tokens[from] {
                Token::Literal(text) => {
                    match read_integer(text.as_str()) {
                        Some(digits) => {
                            return Ok(
                                RecordValue { span: from, data: RecordValueData::LitInt(digits) },
                            );
                        },
                        None => {},
                    }
                    return match read_string(text.as_str()) {
                        Some(value) => Ok(
                            RecordValue { span: from, data: RecordValueData::LitStr(value) },
                        ),
                        None => Err(unexpected),
                    };
                },
                _ => {},
            }
        }
        match read_negative_integer(tokens, from, to) {
            Some(digits) => {
                return Ok(RecordValue { span: from, data: RecordValueData::LitInt(digits) });
            },
            None => {},
        }
        let text = render(tokens, from, to);
        if path_text(text.as_str()) {
            Ok(RecordValue { span: from, data: RecordValueData::Path(text) })
        } else {
            Err(unexpected)
        }
    }
}

/// Reads the tokens from `from` to `end` as records separated by commas.
pub fn parse_records(tokens: &Vec<Token>, from: usize, end: usize, span: usize) -> (r: Result<
    Records,
    ParseError,
>)
    requires
        from <= end <= tokens.len(),
    ensures
        match r {
            Ok(records) => {
                &&& records.wf()
                &&& records.model().span == span
                &&& records_from(tokens_view(tokens@), from as int, end as int, Seq::empty())
                    == Ok::<Seq<(Seq<char>, ValueModel)>, ParseError>(records.model().fields)
            },
            Err(e) => records_from(tokens_view(tokens@), from as int, end as int, Seq::empty())
                == Err::<Seq<(Seq<char>, ValueModel)>, ParseError>(e),
        },
    decreases end - from, 1nat,
{
    let ghost ts = tokens_view(tokens@);
    let mut records = Records::new(span);
    let mut pos: usize = from;
    while pos < end
        invariant
            ts == tokens_view(tokens@),
            from <= pos,
            end <= tokens.len(),
            records.wf(),
            records.model().span == span,
            records_from(ts, from as int, end as int, Seq::empty()) == records_from(
                ts,
                pos as int,
                end as int,
                records.model().fields,
            ),
        decreases end - pos,
    {
        assert(ts[pos as int] == tokens[pos as int]@);
        match &tokens[pos] {
            Token::Ident(key) => {
                if pos + 1 >= end {
                    return Err(ParseError { span: pos + 1, kind: ParseErrorKind::ExpectedColon });
                }
                assert(ts[pos + 1] == tokens[pos + 1]@);
                if !token_is_punct(&tokens[pos + 1], ':') {
                    return Err(ParseError { span: pos + 1, kind: ParseErrorKind::ExpectedColon });
                }
                let stop = find_value_end(tokens, pos + 2, end);
                match RecordValue::parse(tokens, pos + 2, stop) {
                    Ok(value) => {
                        let record = Record {
                            span: pos,
                            key: RecordKey { span: pos, key: key.clone() },
                            value,
                        };
                        records.insert(record.key.key, record.value);
                    },
                    Err(e) => {
                        return Err(e);
                    },
                }
                if stop >= end {
                    return Ok(records);
                }
                pos = stop + 1;
            },
            _ => {
                return Err(ParseError { span: pos, kind: ParseErrorKind::ExpectedIdent });
            },
        }
    }
    Ok(records)
}

impl Records {
    /// Reads a whole sequence of tokens as records separated by commas.
    pub fn parse(tokens: &Vec<Token>) -> (r: Result<Records, ParseError>)
        ensures
            match r {
                Ok(records) => {
                    &&& records.wf()
                    &&& records.model().span == 0
                    &&& records_from(tokens_view(tokens@), 0, tokens@.len() as int, Seq::empty())
                        == Ok::<Seq<(Seq<char>, ValueModel)>, ParseError>(records.model().fields)
                },
                Err(e) => records_from(tokens_view(tokens@), 0, tokens@.len() as int, Seq::empty())
                    == Err::<Seq<(Seq<char>, ValueModel)>, ParseError>(e),
            },
    {
        parse_records(tokens, 0, tokens.len(), 0)
    }
}

/// A key, a colon and one literal are one record: an integer where the
/// literal is one, else a string where it is one, else an error.
pub proof fn lemma_literal_record(key: Seq<char>, joint: bool, literal: Seq<char>)
    ensures
        ({
            let ts = seq![
                TokenView::Ident(key),
                TokenView::Punct(':', joint),
                TokenView::Literal(literal),
            ];
            records_from(ts, 0, 3, Seq::empty()) == match integer_of(literal) {
                Some(digits) => Ok::<Seq<(Seq<char>, ValueModel)>, ParseError>(
                    seq![(key, ValueModel { span: 2, data: DataModel::LitInt(digits) })],
                ),
                None => match string_denoted(literal) {
                    Some(value) => Ok(
                        seq![(key, ValueModel { span: 2, data: DataModel::LitStr(value) })],
                    ),
                    None => Err(error_at(2, ParseErrorKind::UnexpectedInput)),
                },
            }
        }),
{
    let ts = seq![TokenView::Ident(key), TokenView::Punct(':', joint), TokenView::Literal(literal)];
    assert(value_end(ts, 3, 3, 0, 0) == 3);
    assert(value_end(ts, 2, 3, 0, 0) == 3);
    assert(!is_group(ts, 2, 3));
    let empty = Seq::<(Seq<char>, ValueModel)>::empty();
    match value_of(ts, 2, 3) {
        Ok(value) => {
            assert(!has_key(empty, key));
            assert(inserted(empty, key, value) =~= seq![(key, value)]);
        },
        Err(_) => {},
    }
}

/// A key, a colon, a minus sign and one integer literal are one record:
/// an integer whose digits are those of the literal with the sign before
/// them.
pub proof fn lemma_negative_record(
    key: Seq<char>,
    joint: bool,
    literal: Seq<char>,
    digits: Seq<char>,
)
    requires
        integer_of(literal) == Some(digits),
    ensures
        ({
            let ts = seq![
                TokenView::Ident(key),
                TokenView::Punct(':', false),
                TokenView::Punct('-', joint),
                TokenView::Literal(literal),
            ];
            records_from(ts, 0, 4, Seq::empty()) == Ok::<
                Seq<(Seq<char>, ValueModel)>,
                ParseError,
            >(seq![(key, ValueModel { span: 2, data: DataModel::LitInt(seq!['-'] + digits) })])
        }),
{
    let ts = seq![
        TokenView::Ident(key),
        TokenView::Punct(':', false),
        TokenView::Punct('-', joint),
        TokenView::Literal(literal),
    ];
    assert(value_end(ts, 4, 4, 0, 0) == 4);
    assert(nesting_after(ts, 3, 0, 0) == (0nat, 0nat));
    assert(value_end(ts, 3, 4, 0, 0) == 4);
    assert(nesting_after(ts, 2, 0, 0) == (0nat, 0nat));
    assert(value_end(ts, 2, 4, 0, 0) == 4);
    assert(!is_group(ts, 2, 4));
    assert(negative_integer(ts, 2, 4) == Some(seq!['-'] + digits));
    let empty = Seq::<(Seq<char>, ValueModel)>::empty();
    let value = ValueModel { span: 2, data: DataModel::LitInt(seq!['-'] + digits) };
    assert(value_of(ts, 2, 4) == Ok::<ValueModel, ParseError>(value));
    assert(!has_key(empty, key));
    assert(inserted(empty, key, value) =~= seq![(key, value)]);
}

/// No name occurs twice.
pub open spec fn distinct_names(names: Seq<Seq<char>>) -> bool {
    forall|i: int, j: int| 0 <= i < j < names.len() ==> names[i] != names[j]
}

/// A flag-set that is read from tokens holds each name once.
pub proof fn lemma_flags_distinct(ts: Seq<TokenView>, pos: int, end: int, names: Seq<Seq<char>>)
    requires
        distinct_names(names),
    ensures
        flags_from(ts, pos, end, names) matches Some(all) ==> distinct_names(all),
    decreases end - pos,
{
    if !(pos >= end || pos < 0 || end > ts.len()) {
        match ts[pos] {
            TokenView::Ident(name) => {
                let next = with_name(names, name);
                assert(distinct_names(next)) by {
                    if !names.contains(name) {
                        assert forall|i: int, j: int| 0 <= i < j < next.len() implies next[i]
                            != next[j] by {
                            if j == names.len() {
                                assert(names[i] == next[i]);
                                assert(names.contains(next[i]));
                            }
                        }
                    }
                }
                if pos + 1 < end && is_punct(ts[pos + 1], '|') {
                    lemma_flags_distinct(ts, pos + 2, end, next);
                }
            },
            _ => {},
        }
    }
}

/// A record map that is read from tokens holds each key once.
pub proof fn lemma_records_distinct(
    ts: Seq<TokenView>,
    pos: int,
    end: int,
    fields: Seq<(Seq<char>, ValueModel)>,
)
    requires
        distinct_keys(fields),
    ensures
        records_from(ts, pos, end, fields) matches Ok(all) ==> distinct_keys(all),
    decreases end - pos,
{
    if !(pos >= end || pos < 0 || end > ts.len()) {
        match ts[pos] {
            TokenView::Ident(key) => {
                if pos + 1 < end && is_punct(ts[pos + 1], ':') {
                    let stop = value_end(ts, pos + 2, end, 0, 0);
                    lemma_value_end_bounds(ts, pos + 2, end, 0, 0);
                    match value_of(ts, pos + 2, stop) {
                        Ok(value) => {
                            lemma_inserted_distinct(fields, key, value);
                            if stop < end {
                                lemma_records_distinct(
                                    ts,
                                    stop + 1,
                                    end,
                                    inserted(fields, key, value),
                                );
                            }
                        },
                        Err(_) => {},
                    }
                }
            },
            _ => {},
        }
    }
}

} // verus!
