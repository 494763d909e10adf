//! Syntax analysis: a recursive-descent parser from the token sequence to
//! an ordered statement list, with precedence-climbing expressions.
//!
//! The grammar is specified by a mathematical parser over token models; the
//! executable parser is proved to return exactly what the mathematical one
//! does, so parsing the same token sequence twice yields structurally
//! identical syntax trees.

use vstd::prelude::*;
use crate::tokenizer::{Token, TokenV, token_view, tokens_view, lemma_tokens_view_all, Keyword,
    Symbol, ParseError};
use crate::interpreter::{Value, ValueV, value_view, Expression, ExpressionV, expr_view,
    exprs_view, Statement, StatementV, stmt_view, stmts_view, Function, FunctionV, param_view,
    params_view, BinaryOperator, UnaryOperator, lemma_stmts_view_all, lemma_exprs_view_all,
    lemma_params_view_all};

verus! {

// ==========================================================================
// Literal classification
// ==========================================================================

pub open spec fn is_digit(c: char) -> bool {
    '0' as u32 <= c as u32 && c as u32 <= '9' as u32
}

/// Decimal value of a digit run, folded left with 64-bit overflow checks:
/// the reading that a machine integer parse performs.
pub open spec fn spec_parse_int_from(s: Seq<char>, i: int, acc: i64) -> Option<i64>
    decreases s.len() - i,
{
    if i < 0 || i >= s.len() {
        Option::Some(acc)
    } else if !is_digit(s[i]) {
        Option::None
    } else {
        let d = (s[i] as u32 - '0' as u32) as i64;
        match acc.checked_mul(10) {
            Option::None => Option::None,
            Option::Some(m) => match m.checked_add(d) {
                Option::None => Option::None,
                Option::Some(a) => spec_parse_int_from(s, i + 1, a),
            },
        }
    }
}

/// The 64-bit integer a nonempty digit run denotes, if it fits.
pub open spec fn spec_parse_int(s: Seq<char>) -> Option<i64> {
    if s.len() == 0 {
        Option::None
    } else {
        spec_parse_int_from(s, 0, 0)
    }
}

/// Parse a bare text as a decimal 64-bit integer.
pub fn parse_int_text(s: &str) -> (r: Option<i64>)
    ensures
        r == spec_parse_int(s@),
{
    let n = s.unicode_len();
    if n == 0 {
        return Option::None;
    }
    let mut acc: i64 = 0;
    let mut i: usize = 0;
    while i < n
        invariant
            n == s@.len(),
            i <= n,
            spec_parse_int_from(s@, 0, 0) == spec_parse_int_from(s@, i as int, acc),
        decreases n - i,
    {
        let c = s.get_char(i);
        if !(('0' as u32) <= (c as u32) && (c as u32) <= ('9' as u32)) {
            return Option::None;
        }
        let d = ((c as u32) - ('0' as u32)) as i64;
        match acc.checked_mul(10) {
            Option::None => {
                return Option::None;
            },
            Option::Some(m) => match m.checked_add(d) {
                Option::None => {
                    return Option::None;
                },
                Option::Some(a) => {
                    acc = a;
                },
            },
        }
        i += 1;
    }
    Option::Some(acc)
}

/// The literal value a token denotes: a string literal is a string; bare
/// text reads as an integer first, a boolean next, and a string otherwise.
pub open spec fn spec_as_value(t: TokenV) -> Option<ValueV> {
    match t {
        TokenV::FString(text) => Option::Some(ValueV::Str(text)),
        TokenV::Text(text) => match spec_parse_int(text) {
            Option::Some(n) => Option::Some(ValueV::Integer(n)),
            Option::None => if text == "true"@ {
                Option::Some(ValueV::Boolean(true))
            } else if text == "false"@ {
                Option::Some(ValueV::Boolean(false))
            } else {
                Option::Some(ValueV::Str(text))
            },
        },
        _ => Option::None,
    }
}

impl Token {
    /// The literal value this token denotes, if it is a literal token.
    pub fn as_value(&self) -> (r: Option<Value>)
        ensures
            (match r {
                Option::Some(v) => Option::Some(value_view(v)),
                Option::None => Option::None,
            }) == spec_as_value(self@),
    {
        match self {
            Token::FString(text) => Option::Some(Value::Str(text.clone())),
            Token::Text(text) => match parse_int_text(text.as_str()) {
                Option::Some(n) => Option::Some(Value::Integer(n)),
                Option::None => if crate::tokenizer::str_eq(text.as_str(), "true") {
                    Option::Some(Value::Boolean(true))
                } else if crate::tokenizer::str_eq(text.as_str(), "false") {
                    Option::Some(Value::Boolean(false))
                } else {
                    Option::Some(Value::Str(text.clone()))
                },
            },
            _ => Option::None,
        }
    }
}

} // verus!

verus! {

// ==========================================================================
// The mathematical parser
// ==========================================================================

/// Model of a parse failure.
pub enum ParseErrV {
    UnexpectedToken(TokenV, int),
    UnexpectedEndOfInput,
    RecursionLimitExceeded,
}

pub open spec fn perr_view(e: ParseError) -> ParseErrV {
    match e {
        ParseError::UnexpectedToken(t, p) => ParseErrV::UnexpectedToken(token_view(t), p as int),
        ParseError::UnexpectedEndOfInput => ParseErrV::UnexpectedEndOfInput,
        ParseError::RecursionLimitExceeded => ParseErrV::RecursionLimitExceeded,
    }
}

/// First position at or after `pos` that is not a space or carriage return.
pub open spec fn spec_skip_sp(toks: Seq<TokenV>, pos: int) -> int
    decreases toks.len() - pos,
{
    if pos < 0 || pos >= toks.len() {
        pos
    } else if (toks[pos] matches TokenV::Space) || (toks[pos] matches TokenV::CarriageReturn) {
        spec_skip_sp(toks, pos + 1)
    } else {
        pos
    }
}

/// First position at or after `pos` past spaces, carriage returns and line
/// breaks.
pub open spec fn spec_skip_blank(toks: Seq<TokenV>, pos: int) -> int
    decreases toks.len() - pos,
{
    if pos < 0 || pos >= toks.len() {
        pos
    } else if (toks[pos] matches TokenV::Space) || (toks[pos] matches TokenV::CarriageReturn) || (
    toks[pos] matches TokenV::LineBreak) {
        spec_skip_blank(toks, pos + 1)
    } else {
        pos
    }
}

/// Number of consecutive indent tokens at `pos`: the nesting depth of the
/// line that starts there.
pub open spec fn spec_count_indent(toks: Seq<TokenV>, pos: int) -> int
    decreases toks.len() - pos,
{
    if pos < 0 || pos >= toks.len() {
        0
    } else if (toks[pos] matches TokenV::IncrementIdent) {
        1 + spec_count_indent(toks, pos + 1)
    } else {
        0
    }
}

pub proof fn lemma_skip_sp_bounds(toks: Seq<TokenV>, pos: int)
    requires
        0 <= pos <= toks.len(),
    ensures
        pos <= spec_skip_sp(toks, pos) <= toks.len(),
    decreases toks.len() - pos,
{
    if pos < toks.len() && ((toks[pos] matches TokenV::Space) || (toks[pos]
        matches TokenV::CarriageReturn)) {
        lemma_skip_sp_bounds(toks, pos + 1);
    }
}

pub proof fn lemma_skip_blank_bounds(toks: Seq<TokenV>, pos: int)
    requires
        0 <= pos <= toks.len(),
    ensures
        pos <= spec_skip_blank(toks, pos) <= toks.len(),
    decreases toks.len() - pos,
{
    if pos < toks.len() && ((toks[pos] matches TokenV::Space) || (toks[pos]
        matches TokenV::CarriageReturn) || (toks[pos] matches TokenV::LineBreak)) {
        lemma_skip_blank_bounds(toks, pos + 1);
    }
}

pub proof fn lemma_count_indent_bounds(toks: Seq<TokenV>, pos: int)
    requires
        0 <= pos <= toks.len(),
    ensures
        0 <= spec_count_indent(toks, pos),
        pos + spec_count_indent(toks, pos) <= toks.len(),
    decreases toks.len() - pos,
{
    if pos < toks.len() && ((toks[pos] matches TokenV::IncrementIdent)) {
        lemma_count_indent_bounds(toks, pos + 1);
    }
}

/// The binary operator a token spells, with its binding power: the higher,
/// the tighter.  Multiplicative over additive over relational over equality
/// over logical-and over logical-or.
pub open spec fn spec_bin_op(t: TokenV) -> Option<(BinaryOperator, int)> {
    match t {
        TokenV::Symbol(Symbol::Multiply) => Option::Some((BinaryOperator::Multiply, 60)),
        TokenV::Symbol(Symbol::Divide) => Option::Some((BinaryOperator::Divide, 60)),
        TokenV::Symbol(Symbol::Modulo) => Option::Some((BinaryOperator::Modulo, 60)),
        TokenV::Symbol(Symbol::Plus) => Option::Some((BinaryOperator::Add, 50)),
        TokenV::Symbol(Symbol::Minus) => Option::Some((BinaryOperator::Subtract, 50)),
        TokenV::Symbol(Symbol::LessThan) => Option::Some((BinaryOperator::LessThan, 40)),
        TokenV::Symbol(Symbol::GreaterThan) => Option::Some((BinaryOperator::GreaterThan, 40)),
        TokenV::Symbol(Symbol::LessThanOrEqual) => Option::Some(
            (BinaryOperator::LessThanOrEqual, 40),
        ),
        TokenV::Symbol(Symbol::GreaterThanOrEqual) => Option::Some(
            (BinaryOperator::GreaterThanOrEqual, 40),
        ),
        TokenV::Symbol(Symbol::Equal) => Option::Some((BinaryOperator::Equal, 30)),
        TokenV::Symbol(Symbol::NotEqual) => Option::Some((BinaryOperator::NotEqual, 30)),
        TokenV::Symbol(Symbol::LogicalAnd) => Option::Some((BinaryOperator::And, 20)),
        TokenV::Keyword(Keyword::And) => Option::Some((BinaryOperator::And, 20)),
        TokenV::Symbol(Symbol::LogicalOr) => Option::Some((BinaryOperator::Or, 10)),
        TokenV::Keyword(Keyword::Or) => Option::Some((BinaryOperator::Or, 10)),
        _ => Option::None,
    }
}

/// A primary expression: a literal token, a boolean or unit keyword, a
/// variable or call, or a parenthesized expression.
pub open spec fn s_parse_primary(toks: Seq<TokenV>, pos: int, fuel: nat) -> Result<
    (ExpressionV, int),
    ParseErrV,
>
    decreases fuel,
{
    if fuel == 0 {
        Result::Err(ParseErrV::RecursionLimitExceeded)
    } else {
        let p = spec_skip_sp(toks, pos);
        if p >= toks.len() {
            Result::Err(ParseErrV::UnexpectedEndOfInput)
        } else {
            match toks[p] {
                TokenV::Text(_) => Result::Ok(
                    (ExpressionV::Literal(spec_as_value(toks[p])->0), p + 1),
                ),
                TokenV::FString(_) => Result::Ok(
                    (ExpressionV::Literal(spec_as_value(toks[p])->0), p + 1),
                ),
                TokenV::Keyword(Keyword::True) => Result::Ok(
                    (ExpressionV::Literal(ValueV::Boolean(true)), p + 1),
                ),
                TokenV::Keyword(Keyword::False) => Result::Ok(
                    (ExpressionV::Literal(ValueV::Boolean(false)), p + 1),
                ),
                TokenV::Keyword(Keyword::NoneLit) => Result::Ok(
                    (ExpressionV::Literal(ValueV::NoneVal), p + 1),
                ),
                TokenV::Identifier(name) => {
                    let q = spec_skip_sp(toks, p + 1);
                    if q < toks.len() && (toks[q] matches TokenV::Symbol(Symbol::LeftParen)) {
                        match s_parse_args(toks, q + 1, (fuel - 1) as nat) {
                            Result::Ok((args, p2)) => Result::Ok(
                                (ExpressionV::FunctionCall(name, args), p2),
                            ),
                            Result::Err(e) => Result::Err(e),
                        }
                    } else {
                        Result::Ok((ExpressionV::Variable(name), p + 1))
                    }
                },
                TokenV::Symbol(Symbol::LeftParen) => match s_parse_expr(
                    toks,
                    p + 1,
                    0,
                    (fuel - 1) as nat,
                ) {
                    Result::Err(e) => Result::Err(e),
                    Result::Ok((e, p2)) => {
                        let q2 = spec_skip_sp(toks, p2);
                        if q2 >= toks.len() {
                            Result::Err(ParseErrV::UnexpectedEndOfInput)
                        } else if (toks[q2] matches TokenV::Symbol(Symbol::RightParen)) {
                            Result::Ok((e, q2 + 1))
                        } else {
                            Result::Err(ParseErrV::UnexpectedToken(toks[q2], q2))
                        }
                    },
                },
                t => Result::Err(ParseErrV::UnexpectedToken(t, p)),
            }
        }
    }
}

/// A comma-separated argument list, up to and past the closing parenthesis.
pub open spec fn s_parse_args(toks: Seq<TokenV>, pos: int, fuel: nat) -> Result<
    (Seq<ExpressionV>, int),
    ParseErrV,
>
    decreases fuel,
{
    if fuel == 0 {
        Result::Err(ParseErrV::RecursionLimitExceeded)
    } else {
        let p = spec_skip_sp(toks, pos);
        if p >= toks.len() {
            Result::Err(ParseErrV::UnexpectedEndOfInput)
        } else if (toks[p] matches TokenV::Symbol(Symbol::RightParen)) {
            Result::Ok((Seq::empty(), p + 1))
        } else {
            match s_parse_expr(toks, p, 0, (fuel - 1) as nat) {
                Result::Err(e) => Result::Err(e),
                Result::Ok((e, p2)) => {
                    let q = spec_skip_sp(toks, p2);
                    if q >= toks.len() {
                        Result::Err(ParseErrV::UnexpectedEndOfInput)
                    } else if (toks[q] matches TokenV::Symbol(Symbol::RightParen)) {
                        Result::Ok((seq![e], q + 1))
                    } else if (toks[q] matches TokenV::Symbol(Symbol::Comma)) {
                        match s_parse_args(toks, q + 1, (fuel - 1) as nat) {
                            Result::Err(e2) => Result::Err(e2),
                            Result::Ok((rest, p3)) => Result::Ok((seq![e] + rest, p3)),
                        }
                    } else {
                        Result::Err(ParseErrV::UnexpectedToken(toks[q], q))
                    }
                },
            }
        }
    }
}

/// A unary expression: `not` and unary minus bind tighter than any binary
/// operator.
pub open spec fn s_parse_unary(toks: Seq<TokenV>, pos: int, fuel: nat) -> Result<
    (ExpressionV, int),
    ParseErrV,
>
    decreases fuel,
{
    if fuel == 0 {
        Result::Err(ParseErrV::RecursionLimitExceeded)
    } else {
        let p = spec_skip_sp(toks, pos);
        if p >= toks.len() {
            Result::Err(ParseErrV::UnexpectedEndOfInput)
        } else if (toks[p] matches TokenV::Keyword(Keyword::Not)) {
            match s_parse_unary(toks, p + 1, (fuel - 1) as nat) {
                Result::Ok((e, p2)) => Result::Ok(
                    (ExpressionV::Unary(UnaryOperator::Not, Box::new(e)), p2),
                ),
                Result::Err(e) => Result::Err(e),
            }
        } else if (toks[p] matches TokenV::Symbol(Symbol::Minus)) {
            match s_parse_unary(toks, p + 1, (fuel - 1) as nat) {
                Result::Ok((e, p2)) => Result::Ok(
                    (ExpressionV::Unary(UnaryOperator::Minus, Box::new(e)), p2),
                ),
                Result::Err(e) => Result::Err(e),
            }
        } else {
            s_parse_primary(toks, p, (fuel - 1) as nat)
        }
    }
}

/// Climb binary operators of binding power at least `min_prec` onto `lhs`.
pub open spec fn s_parse_expr_rest(
    toks: Seq<TokenV>,
    lhs: ExpressionV,
    pos: int,
    min_prec: int,
    fuel: nat,
) -> Result<(ExpressionV, int), ParseErrV>
    decreases fuel, toks.len() - pos,
{
    if fuel == 0 {
        Result::Err(ParseErrV::RecursionLimitExceeded)
    } else {
        let p = spec_skip_sp(toks, pos);
        if p >= toks.len() {
            Result::Ok((lhs, p))
        } else {
            match spec_bin_op(toks[p]) {
                Option::Some((op, prec)) => if prec >= min_prec {
                    match s_parse_expr(toks, p + 1, prec + 1, (fuel - 1) as nat) {
                        Result::Err(e) => Result::Err(e),
                        Result::Ok((rhs, p2)) => if p2 <= pos || p2 > toks.len() {
                            Result::Err(ParseErrV::RecursionLimitExceeded)
                        } else {
                            s_parse_expr_rest(
                                toks,
                                ExpressionV::Binary(Box::new(lhs), op, Box::new(rhs)),
                                p2,
                                min_prec,
                                fuel,
                            )
                        },
                    }
                } else {
                    Result::Ok((lhs, p))
                },
                Option::None => Result::Ok((lhs, p)),
            }
        }
    }
}

/// A full expression at binding power `min_prec` or tighter.
pub open spec fn s_parse_expr(toks: Seq<TokenV>, pos: int, min_prec: int, fuel: nat) -> Result<
    (ExpressionV, int),
    ParseErrV,
>
    decreases fuel, 0int,
{
    if fuel == 0 {
        Result::Err(ParseErrV::RecursionLimitExceeded)
    } else {
        match s_parse_unary(toks, pos, (fuel - 1) as nat) {
            Result::Err(e) => Result::Err(e),
            Result::Ok((lhs, p)) => s_parse_expr_rest(toks, lhs, p, min_prec, (fuel - 1) as nat),
        }
    }
}

} // verus!

verus! {

/// Import lines: every identifier up to the line break becomes one import,
/// other separators are ignored.
pub open spec fn s_parse_import(toks: Seq<TokenV>, pos: int) -> (Seq<StatementV>, int)
    decreases toks.len() - pos,
{
    if pos < 0 || pos >= toks.len() {
        (Seq::empty(), pos)
    } else {
        match toks[pos] {
            TokenV::LineBreak => (Seq::empty(), pos + 1),
            TokenV::Identifier(n) => {
                let r = s_parse_import(toks, pos + 1);
                (seq![StatementV::Import(n)] + r.0, r.1)
            },
            _ => s_parse_import(toks, pos + 1),
        }
    }
}

/// A function header after its name: scan forward to the colon; inside the
/// parentheses every identifier is a parameter, and an assignment sign
/// attaches the following literal token as the previous parameter's
/// default.
pub open spec fn s_parse_params(
    toks: Seq<TokenV>,
    pos: int,
    in_args: bool,
    acc: Seq<(Seq<char>, Option<ValueV>)>,
) -> Result<(Seq<(Seq<char>, Option<ValueV>)>, int), ParseErrV>
    decreases toks.len() - pos,
{
    if pos < 0 || pos >= toks.len() {
        Result::Err(ParseErrV::UnexpectedEndOfInput)
    } else {
        match toks[pos] {
            TokenV::Symbol(Symbol::Colon) => Result::Ok((acc, pos + 1)),
            TokenV::Symbol(Symbol::LeftParen) => s_parse_params(toks, pos + 1, true, acc),
            TokenV::Symbol(Symbol::RightParen) => s_parse_params(toks, pos + 1, false, acc),
            TokenV::Symbol(Symbol::Assign) => if pos + 1 >= toks.len() {
                Result::Err(ParseErrV::UnexpectedEndOfInput)
            } else {
                match spec_as_value(toks[pos + 1]) {
                    Option::Some(v) => {
                        let acc2 = if acc.len() > 0 {
                            acc.update(acc.len() - 1, (acc.last().0, Option::Some(v)))
                        } else {
                            acc
                        };
                        s_parse_params(toks, pos + 2, in_args, acc2)
                    },
                    Option::None => Result::Err(
                        ParseErrV::UnexpectedToken(toks[pos + 1], pos + 1),
                    ),
                }
            },
            TokenV::Identifier(n) => if in_args {
                s_parse_params(toks, pos + 1, in_args, acc.push((n, Option::None::<ValueV>)))
            } else {
                s_parse_params(toks, pos + 1, in_args, acc)
            },
            _ => s_parse_params(toks, pos + 1, in_args, acc),
        }
    }
}

/// One statement at a line start; yields the statements it contributes,
/// the next position, and whether a `return` ended the enclosing block.
pub open spec fn s_parse_statement(toks: Seq<TokenV>, pos: int, depth: int, fuel: nat) -> Result<
    (Seq<StatementV>, int, bool),
    ParseErrV,
>
    decreases fuel, 0int,
{
    if fuel == 0 {
        Result::Err(ParseErrV::RecursionLimitExceeded)
    } else if pos < 0 || pos >= toks.len() {
        Result::Err(ParseErrV::UnexpectedEndOfInput)
    } else {
        match toks[pos] {
            TokenV::Keyword(Keyword::Import) => {
                let r = s_parse_import(toks, pos + 1);
                Result::Ok((r.0, r.1, false))
            },
            TokenV::Keyword(Keyword::Def) => {
                let p = spec_skip_sp(toks, pos + 1);
                if p >= toks.len() {
                    Result::Err(ParseErrV::UnexpectedEndOfInput)
                } else {
                    match toks[p] {
                        TokenV::Identifier(name) => match s_parse_params(
                            toks,
                            p + 1,
                            false,
                            Seq::empty(),
                        ) {
                            Result::Err(e) => Result::Err(e),
                            Result::Ok((params, p2)) => match s_parse_block(
                                toks,
                                p2,
                                depth + 1,
                                (fuel - 1) as nat,
                            ) {
                                Result::Err(e) => Result::Err(e),
                                Result::Ok((body, p3)) => Result::Ok(
                                    (
                                        seq![
                                            StatementV::Function(
                                                FunctionV { name, params, body },
                                            ),
                                        ],
                                        p3,
                                        false,
                                    ),
                                ),
                            },
                        },
                        t => Result::Err(ParseErrV::UnexpectedToken(t, p)),
                    }
                }
            },
            TokenV::Keyword(Keyword::Return) => {
                let p = spec_skip_sp(toks, pos + 1);
                if p >= toks.len() {
                    Result::Ok(
                        (seq![StatementV::Return(ExpressionV::Literal(ValueV::NoneVal))], p, true),
                    )
                } else if (toks[p] matches TokenV::LineBreak) {
                    Result::Ok(
                        (
                            seq![StatementV::Return(ExpressionV::Literal(ValueV::NoneVal))],
                            p + 1,
                            true,
                        ),
                    )
                } else {
                    match s_parse_expr(toks, p, 0, (fuel - 1) as nat) {
                        Result::Err(e) => Result::Err(e),
                        Result::Ok((e, p2)) => Result::Ok(
                            (seq![StatementV::Return(e)], p2, true),
                        ),
                    }
                }
            },
            TokenV::Identifier(name) => {
                let q = spec_skip_sp(toks, pos + 1);
                if q < toks.len() && (toks[q] matches TokenV::Symbol(Symbol::Assign)) {
                    match s_parse_expr(toks, q + 1, 0, (fuel - 1) as nat) {
                        Result::Err(e) => Result::Err(e),
                        Result::Ok((e, p2)) => Result::Ok(
                            (seq![StatementV::Assignment(name, e)], p2, false),
                        ),
                    }
                } else {
                    match s_parse_expr(toks, pos, 0, (fuel - 1) as nat) {
                        Result::Err(e) => Result::Err(e),
                        Result::Ok((e, p2)) => Result::Ok(
                            (seq![StatementV::Expression(e)], p2, false),
                        ),
                    }
                }
            },
            t => Result::Err(ParseErrV::UnexpectedToken(t, pos)),
        }
    }
}

/// A statement list at nesting depth `depth`: lines indented at least that
/// deep belong to it; a shallower line or a `return` ends it.
pub open spec fn s_parse_block(toks: Seq<TokenV>, pos: int, depth: int, fuel: nat) -> Result<
    (Seq<StatementV>, int),
    ParseErrV,
>
    decreases fuel, toks.len() - pos + 1,
{
    if fuel == 0 {
        Result::Err(ParseErrV::RecursionLimitExceeded)
    } else if pos < 0 || pos > toks.len() {
        Result::Err(ParseErrV::RecursionLimitExceeded)
    } else {
        let p = spec_skip_blank(toks, pos);
        let k = spec_count_indent(toks, p);
        let p2 = spec_skip_sp(toks, p + k);
        if p2 >= toks.len() {
            Result::Ok((Seq::empty(), p2))
        } else if (toks[p2] matches TokenV::LineBreak) {
            if p2 + 1 <= pos || p2 + 1 > toks.len() {
                Result::Err(ParseErrV::RecursionLimitExceeded)
            } else {
                s_parse_block(toks, p2 + 1, depth, fuel)
            }
        } else if k < depth {
            Result::Ok((Seq::empty(), p))
        } else {
            match s_parse_statement(toks, p2, depth, (fuel - 1) as nat) {
                Result::Err(e) => Result::Err(e),
                Result::Ok((stmts, p3, ended)) => if ended {
                    Result::Ok((stmts, p3))
                } else if p3 <= pos || p3 > toks.len() {
                    Result::Err(ParseErrV::RecursionLimitExceeded)
                } else {
                    match s_parse_block(toks, p3, depth, fuel) {
                        Result::Err(e) => Result::Err(e),
                        Result::Ok((rest, p4)) => Result::Ok((stmts + rest, p4)),
                    }
                },
            }
        }
    }
}

/// The whole token sequence as an ordered statement list.
/// The recursion budget a parse of `n` tokens starts with: ample for any
/// grammar nesting the tokens can spell.
pub open spec fn spec_parse_fuel(n: nat) -> nat {
    if n + 64 <= usize::MAX as int {
        (n + 64) as nat
    } else {
        usize::MAX as nat
    }
}

pub open spec fn spec_parse_tokens(toks: Seq<TokenV>) -> Result<Seq<StatementV>, ParseErrV> {
    match s_parse_block(toks, 0, 0, spec_parse_fuel(toks.len())) {
        Result::Ok(r) => Result::Ok(r.0),
        Result::Err(e) => Result::Err(e),
    }
}

/// Parsing is a function of the token sequence alone: two parses of the
/// same tokens yield structurally identical syntax trees.
pub proof fn lemma_parse_deterministic(
    toks: Seq<TokenV>,
    r1: Result<Seq<StatementV>, ParseErrV>,
    r2: Result<Seq<StatementV>, ParseErrV>,
)
    requires
        r1 == spec_parse_tokens(toks),
        r2 == spec_parse_tokens(toks),
    ensures
        r1 == r2,
{
}

} // verus!

verus! {

fn skip_sp(toks: &Vec<Token>, pos: usize) -> (r: usize)
    requires
        pos <= toks@.len(),
    ensures
        r as int == spec_skip_sp(tokens_view(toks@), pos as int),
        pos <= r <= toks@.len(),
    decreases toks@.len() - pos,
{
    proof {
        lemma_tokens_view_all(toks@);
    }
    if pos >= toks.len() {
        return pos;
    }
    match &toks[pos] {
        Token::Space | Token::CarriageReturn => skip_sp(toks, pos + 1),
        _ => pos,
    }
}

fn skip_blank(toks: &Vec<Token>, pos: usize) -> (r: usize)
    requires
        pos <= toks@.len(),
    ensures
        r as int == spec_skip_blank(tokens_view(toks@), pos as int),
        pos <= r <= toks@.len(),
    decreases toks@.len() - pos,
{
    proof {
        lemma_tokens_view_all(toks@);
    }
    if pos >= toks.len() {
        return pos;
    }
    match &toks[pos] {
        Token::Space | Token::CarriageReturn | Token::LineBreak => skip_blank(toks, pos + 1),
        _ => pos,
    }
}

fn count_indent(toks: &Vec<Token>, pos: usize) -> (r: usize)
    requires
        pos <= toks@.len(),
    ensures
        r as int == spec_count_indent(tokens_view(toks@), pos as int),
        pos + r <= toks@.len(),
    decreases toks@.len() - pos,
{
    proof {
        lemma_tokens_view_all(toks@);
    }
    if pos >= toks.len() {
        return 0;
    }
    match &toks[pos] {
        Token::IncrementIdent => 1 + count_indent(toks, pos + 1),
        _ => 0,
    }
}

fn bin_op(t: &Token) -> (r: Option<(BinaryOperator, u32)>)
    ensures
        (match r {
            Option::Some(p) => Option::Some((p.0, p.1 as int)),
            Option::None => Option::None,
        }) == spec_bin_op(t@),
{
    match t {
        Token::Symbol(Symbol::Multiply) => Option::Some((BinaryOperator::Multiply, 60)),
        Token::Symbol(Symbol::Divide) => Option::Some((BinaryOperator::Divide, 60)),
        Token::Symbol(Symbol::Modulo) => Option::Some((BinaryOperator::Modulo, 60)),
        Token::Symbol(Symbol::Plus) => Option::Some((BinaryOperator::Add, 50)),
        Token::Symbol(Symbol::Minus) => Option::Some((BinaryOperator::Subtract, 50)),
        Token::Symbol(Symbol::LessThan) => Option::Some((BinaryOperator::LessThan, 40)),
        Token::Symbol(Symbol::GreaterThan) => Option::Some((BinaryOperator::GreaterThan, 40)),
        Token::Symbol(Symbol::LessThanOrEqual) => Option::Some(
            (BinaryOperator::LessThanOrEqual, 40),
        ),
        Token::Symbol(Symbol::GreaterThanOrEqual) => Option::Some(
            (BinaryOperator::GreaterThanOrEqual, 40),
        ),
        Token::Symbol(Symbol::Equal) => Option::Some((BinaryOperator::Equal, 30)),
        Token::Symbol(Symbol::NotEqual) => Option::Some((BinaryOperator::NotEqual, 30)),
        Token::Symbol(Symbol::LogicalAnd) => Option::Some((BinaryOperator::And, 20)),
        Token::Keyword(Keyword::And) => Option::Some((BinaryOperator::And, 20)),
        Token::Symbol(Symbol::LogicalOr) => Option::Some((BinaryOperator::Or, 10)),
        Token::Keyword(Keyword::Or) => Option::Some((BinaryOperator::Or, 10)),
        _ => Option::None,
    }
}

/// Model of an expression-parse outcome.
pub open spec fn expr_res_view(r: Result<(Expression, usize), ParseError>) -> Result<
    (ExpressionV, int),
    ParseErrV,
> {
    match r {
        Result::Ok(p) => Result::Ok((expr_view(p.0), p.1 as int)),
        Result::Err(e) => Result::Err(perr_view(e)),
    }
}

fn parse_primary(toks: &Vec<Token>, pos: usize, fuel: u64) -> (res: Result<
    (Expression, usize),
    ParseError,
>)
    requires
        pos <= toks@.len(),
    ensures
        expr_res_view(res) == s_parse_primary(tokens_view(toks@), pos as int, fuel as nat),
        match res {
            Result::Ok(pr) => pr.1 <= toks@.len(),
            Result::Err(_) => true,
        },
    decreases fuel,
{
    proof {
        lemma_tokens_view_all(toks@);
    }
    if fuel == 0 {
        return Result::Err(ParseError::RecursionLimitExceeded);
    }
    let p = skip_sp(toks, pos);
    if p >= toks.len() {
        return Result::Err(ParseError::UnexpectedEndOfInput);
    }
    match &toks[p] {
        Token::Text(_) | Token::FString(_) => match toks[p].as_value() {
            Option::Some(v) => Result::Ok((Expression::Literal(v), p + 1)),
            Option::None => {
                proof {
                    assert(false);
                }
                Result::Err(ParseError::UnexpectedEndOfInput)
            },
        },
        Token::Keyword(Keyword::True) => Result::Ok(
            (Expression::Literal(Value::Boolean(true)), p + 1),
        ),
        Token::Keyword(Keyword::False) => Result::Ok(
            (Expression::Literal(Value::Boolean(false)), p + 1),
        ),
        Token::Keyword(Keyword::NoneLit) => Result::Ok(
            (Expression::Literal(Value::NoneVal), p + 1),
        ),
        Token::Identifier(name) => {
            let q = skip_sp(toks, p + 1);
            if q < toks.len() && matches!(&toks[q], Token::Symbol(Symbol::LeftParen)) {
                match parse_args(toks, q + 1, fuel - 1) {
                    Result::Ok((args, p2)) => Result::Ok(
                        (Expression::FunctionCall(name.clone(), args), p2),
                    ),
                    Result::Err(e) => Result::Err(e),
                }
            } else {
                Result::Ok((Expression::Variable(name.clone()), p + 1))
            }
        },
        Token::Symbol(Symbol::LeftParen) => match parse_expr(toks, p + 1, 0, fuel - 1) {
            Result::Err(e) => Result::Err(e),
            Result::Ok((e, p2)) => {
                let q2 = skip_sp(toks, p2);
                if q2 >= toks.len() {
                    Result::Err(ParseError::UnexpectedEndOfInput)
                } else if matches!(&toks[q2], Token::Symbol(Symbol::RightParen)) {
                    Result::Ok((e, q2 + 1))
                } else {
                    Result::Err(ParseError::UnexpectedToken(toks[q2].clone_token(), q2))
                }
            },
        },
        _ => Result::Err(ParseError::UnexpectedToken(toks[p].clone_token(), p)),
    }
}

fn parse_args(toks: &Vec<Token>, pos: usize, fuel: u64) -> (res: Result<
    (Vec<Expression>, usize),
    ParseError,
>)
    requires
        pos <= toks@.len(),
    ensures
        (match res {
            Result::Ok(p) => Result::<(Seq<ExpressionV>, int), ParseErrV>::Ok(
                (exprs_view(p.0@), p.1 as int),
            ),
            Result::Err(e) => Result::Err(perr_view(e)),
        }) == s_parse_args(tokens_view(toks@), pos as int, fuel as nat),
        match res {
            Result::Ok(pr) => pr.1 <= toks@.len(),
            Result::Err(_) => true,
        },
    decreases fuel,
{
    proof {
        lemma_tokens_view_all(toks@);
    }
    if fuel == 0 {
        return Result::Err(ParseError::RecursionLimitExceeded);
    }
    let p = skip_sp(toks, pos);
    if p >= toks.len() {
        return Result::Err(ParseError::UnexpectedEndOfInput);
    }
    if matches!(&toks[p], Token::Symbol(Symbol::RightParen)) {
        let out: Vec<Expression> = Vec::new();
        proof {
            assert(exprs_view(out@) =~= Seq::<ExpressionV>::empty());
        }
        return Result::Ok((out, p + 1));
    }
    match parse_expr(toks, p, 0, fuel - 1) {
        Result::Err(e) => Result::Err(e),
        Result::Ok((e, p2)) => {
            let q = skip_sp(toks, p2);
            if q >= toks.len() {
                return Result::Err(ParseError::UnexpectedEndOfInput);
            }
            if matches!(&toks[q], Token::Symbol(Symbol::RightParen)) {
                let mut out: Vec<Expression> = Vec::new();
                out.push(e);
                proof {
                    lemma_exprs_view_all(out@);
                    assert(exprs_view(out@) =~= seq![expr_view(out@[0])]);
                }
                return Result::Ok((out, q + 1));
            }
            if matches!(&toks[q], Token::Symbol(Symbol::Comma)) {
                match parse_args(toks, q + 1, fuel - 1) {
                    Result::Err(e2) => Result::Err(e2),
                    Result::Ok((rest, p3)) => {
                        let ghost pre = rest@;
                        let mut out = rest;
                        out.insert(0, e);
                        proof {
                            lemma_exprs_view_all(out@);
                            lemma_exprs_view_all(pre);
                            assert(out@ =~= seq![e] + pre);
                            assert(exprs_view(out@) =~= seq![expr_view(e)] + exprs_view(pre));
                        }
                        Result::Ok((out, p3))
                    },
                }
            } else {
                Result::Err(ParseError::UnexpectedToken(toks[q].clone_token(), q))
            }
        },
    }
}

fn parse_unary(toks: &Vec<Token>, pos: usize, fuel: u64) -> (res: Result<
    (Expression, usize),
    ParseError,
>)
    requires
        pos <= toks@.len(),
    ensures
        expr_res_view(res) == s_parse_unary(tokens_view(toks@), pos as int, fuel as nat),
        match res {
            Result::Ok(pr) => pr.1 <= toks@.len(),
            Result::Err(_) => true,
        },
    decreases fuel,
{
    proof {
        lemma_tokens_view_all(toks@);
    }
    if fuel == 0 {
        return Result::Err(ParseError::RecursionLimitExceeded);
    }
    let p = skip_sp(toks, pos);
    if p >= toks.len() {
        return Result::Err(ParseError::UnexpectedEndOfInput);
    }
    if matches!(&toks[p], Token::Keyword(Keyword::Not)) {
        match parse_unary(toks, p + 1, fuel - 1) {
            Result::Ok((e, p2)) => Result::Ok(
                (Expression::Unary(UnaryOperator::Not, Box::new(e)), p2),
            ),
            Result::Err(e) => Result::Err(e),
        }
    } else if matches!(&toks[p], Token::Symbol(Symbol::Minus)) {
        match parse_unary(toks, p + 1, fuel - 1) {
            Result::Ok((e, p2)) => Result::Ok(
                (Expression::Unary(UnaryOperator::Minus, Box::new(e)), p2),
            ),
            Result::Err(e) => Result::Err(e),
        }
    } else {
        parse_primary(toks, p, fuel - 1)
    }
}

fn parse_expr_rest(
    toks: &Vec<Token>,
    lhs: Expression,
    pos: usize,
    min_prec: u32,
    fuel: u64,
) -> (res: Result<(Expression, usize), ParseError>)
    requires
        pos <= toks@.len(),
    ensures
        expr_res_view(res) == s_parse_expr_rest(
            tokens_view(toks@),
            expr_view(lhs),
            pos as int,
            min_prec as int,
            fuel as nat,
        ),
        match res {
            Result::Ok(pr) => pr.1 <= toks@.len(),
            Result::Err(_) => true,
        },
    decreases fuel, toks@.len() - pos,
{
    proof {
        lemma_tokens_view_all(toks@);
    }
    if fuel == 0 {
        return Result::Err(ParseError::RecursionLimitExceeded);
    }
    let p = skip_sp(toks, pos);
    if p >= toks.len() {
        return Result::Ok((lhs, p));
    }
    match bin_op(&toks[p]) {
        Option::Some((op, prec)) => if prec >= min_prec {
            match parse_expr(toks, p + 1, prec + 1, fuel - 1) {
                Result::Err(e) => Result::Err(e),
                Result::Ok((rhs, p2)) => if p2 <= pos || p2 > toks.len() {
                    Result::Err(ParseError::RecursionLimitExceeded)
                } else {
                    parse_expr_rest(
                        toks,
                        Expression::Binary(Box::new(lhs), op, Box::new(rhs)),
                        p2,
                        min_prec,
                        fuel,
                    )
                },
            }
        } else {
            Result::Ok((lhs, p))
        },
        Option::None => Result::Ok((lhs, p)),
    }
}

fn parse_expr(toks: &Vec<Token>, pos: usize, min_prec: u32, fuel: u64) -> (res: Result<
    (Expression, usize),
    ParseError,
>)
    requires
        pos <= toks@.len(),
    ensures
        expr_res_view(res) == s_parse_expr(
            tokens_view(toks@),
            pos as int,
            min_prec as int,
            fuel as nat,
        ),
        match res {
            Result::Ok(pr) => pr.1 <= toks@.len(),
            Result::Err(_) => true,
        },
    decreases fuel, 0int,
{
    if fuel == 0 {
        return Result::Err(ParseError::RecursionLimitExceeded);
    }
    match parse_unary(toks, pos, fuel - 1) {
        Result::Err(e) => Result::Err(e),
        Result::Ok((lhs, p)) => {
            proof {
                lemma_skip_sp_bounds(tokens_view(toks@), pos as int);
                lemma_tokens_view_all(toks@);
            }
            parse_expr_rest(toks, lhs, p, min_prec, fuel - 1)
        },
    }
}

impl Token {
    /// An identical token, for error reports.
    pub fn clone_token(&self) -> (r: Token)
        ensures
            r@ == self@,
    {
        match self {
            Token::Identifier(s) => Token::Identifier(s.clone()),
            Token::Keyword(k) => Token::Keyword(*k),
            Token::Symbol(s) => Token::Symbol(*s),
            Token::Text(s) => Token::Text(s.clone()),
            Token::FString(s) => Token::FString(s.clone()),
            Token::LineBreak => Token::LineBreak,
            Token::Space => Token::Space,
            Token::IncrementIdent => Token::IncrementIdent,
            Token::CarriageReturn => Token::CarriageReturn,
            Token::Slash => Token::Slash,
            Token::IdentationTab => Token::IdentationTab,
        }
    }
}

} // verus!

verus! {

fn parse_import(toks: &Vec<Token>, pos: usize) -> (res: (Vec<Statement>, usize))
    requires
        pos <= toks@.len(),
    ensures
        (stmts_view(res.0@), res.1 as int) == s_parse_import(tokens_view(toks@), pos as int),
        res.1 <= toks@.len(),
    decreases toks@.len() - pos,
{
    proof {
        lemma_tokens_view_all(toks@);
    }
    if pos >= toks.len() {
        let out: Vec<Statement> = Vec::new();
        proof {
            assert(stmts_view(out@) =~= Seq::<StatementV>::empty());
        }
        return (out, pos);
    }
    match &toks[pos] {
        Token::LineBreak => {
            let out: Vec<Statement> = Vec::new();
            proof {
                assert(stmts_view(out@) =~= Seq::<StatementV>::empty());
            }
            (out, pos + 1)
        },
        Token::Identifier(n) => {
            let (rest, p) = parse_import(toks, pos + 1);
            let stmt = Statement::Import(n.clone());
            let ghost sv = stmt_view(stmt);
            let ghost pre = rest@;
            let mut out = rest;
            out.insert(0, stmt);
            proof {
                lemma_stmts_view_all(out@);
                lemma_stmts_view_all(pre);
                assert(stmts_view(out@) =~= seq![sv] + stmts_view(pre));
            }
            (out, p)
        },
        _ => parse_import(toks, pos + 1),
    }
}

fn parse_params(
    toks: &Vec<Token>,
    pos: usize,
    in_args: bool,
    acc: Vec<(String, Option<Value>)>,
) -> (res: Result<(Vec<(String, Option<Value>)>, usize), ParseError>)
    requires
        pos <= toks@.len(),
    ensures
        (match res {
            Result::Ok(p) => Result::<(Seq<(Seq<char>, Option<ValueV>)>, int), ParseErrV>::Ok(
                (params_view(p.0@), p.1 as int),
            ),
            Result::Err(e) => Result::Err(perr_view(e)),
        }) == s_parse_params(tokens_view(toks@), pos as int, in_args, params_view(acc@)),
        match res {
            Result::Ok(pr) => pr.1 <= toks@.len(),
            Result::Err(_) => true,
        },
    decreases toks@.len() - pos,
{
    proof {
        lemma_tokens_view_all(toks@);
        lemma_params_view_all(acc@);
    }
    if pos >= toks.len() {
        return Result::Err(ParseError::UnexpectedEndOfInput);
    }
    match &toks[pos] {
        Token::Symbol(Symbol::Colon) => Result::Ok((acc, pos + 1)),
        Token::Symbol(Symbol::LeftParen) => parse_params(toks, pos + 1, true, acc),
        Token::Symbol(Symbol::RightParen) => parse_params(toks, pos + 1, false, acc),
        Token::Symbol(Symbol::Assign) => {
            if pos + 1 >= toks.len() {
                return Result::Err(ParseError::UnexpectedEndOfInput);
            }
            match toks[pos + 1].as_value() {
                Option::Some(v) => {
                    let ghost pre = acc@;
                    let mut acc2 = acc;
                    if acc2.len() > 0 {
                        let last = acc2.len() - 1;
                        let name = acc2[last].0.clone();
                        acc2[last] = (name, Option::Some(v));
                        proof {
                            lemma_params_view_all(acc2@);
                            assert(params_view(acc2@) =~= params_view(pre).update(
                                pre.len() - 1,
                                (params_view(pre).last().0, Option::Some(value_view(v))),
                            ));
                        }
                    }
                    parse_params(toks, pos + 2, in_args, acc2)
                },
                Option::None => Result::Err(
                    ParseError::UnexpectedToken(toks[pos + 1].clone_token(), pos + 1),
                ),
            }
        },
        Token::Identifier(n) => if in_args {
            let ghost pre = acc@;
            let mut acc2 = acc;
            acc2.push((n.clone(), Option::None));
            proof {
                lemma_params_view_all(acc2@);
                assert(params_view(acc2@) =~= params_view(pre).push(
                    (n@, Option::None::<ValueV>),
                ));
            }
            parse_params(toks, pos + 1, in_args, acc2)
        } else {
            parse_params(toks, pos + 1, in_args, acc)
        },
        _ => parse_params(toks, pos + 1, in_args, acc),
    }
}

fn parse_statement(toks: &Vec<Token>, pos: usize, depth: usize, fuel: u64) -> (res: Result<
    (Vec<Statement>, usize, bool),
    ParseError,
>)
    requires
        pos <= toks@.len(),
        depth as int + fuel as int <= usize::MAX as int,
    ensures
        (match res {
            Result::Ok(p) => Result::<(Seq<StatementV>, int, bool), ParseErrV>::Ok(
                (stmts_view(p.0@), p.1 as int, p.2),
            ),
            Result::Err(e) => Result::Err(perr_view(e)),
        }) == s_parse_statement(tokens_view(toks@), pos as int, depth as int, fuel as nat),
        match res {
            Result::Ok(pr) => pr.1 <= toks@.len(),
            Result::Err(_) => true,
        },
    decreases fuel, 0int,
{
    proof {
        lemma_tokens_view_all(toks@);
    }
    if fuel == 0 {
        return Result::Err(ParseError::RecursionLimitExceeded);
    }
    if pos >= toks.len() {
        return Result::Err(ParseError::UnexpectedEndOfInput);
    }
    match &toks[pos] {
        Token::Keyword(Keyword::Import) => {
            let (ss, p) = parse_import(toks, pos + 1);
            Result::Ok((ss, p, false))
        },
        Token::Keyword(Keyword::Def) => {
            let p = skip_sp(toks, pos + 1);
            if p >= toks.len() {
                return Result::Err(ParseError::UnexpectedEndOfInput);
            }
            match &toks[p] {
                Token::Identifier(name) => {
                    let empty_params: Vec<(String, Option<Value>)> = Vec::new();
                    proof {
                        assert(params_view(empty_params@) =~= Seq::<
                            (Seq<char>, Option<ValueV>),
                        >::empty());
                    }
                    match parse_params(toks, p + 1, false, empty_params) {
                        Result::Err(e) => Result::Err(e),
                        Result::Ok((params, p2)) => match parse_block(
                            toks,
                            p2,
                            depth + 1,
                            fuel - 1,
                        ) {
                            Result::Err(e) => Result::Err(e),
                            Result::Ok((body, p3)) => {
                                let f = Function { name: name.clone(), params, body };
                                let mut out: Vec<Statement> = Vec::new();
                                out.push(Statement::Function(f));
                                proof {
                                    lemma_stmts_view_all(out@);
                                    assert(stmts_view(out@) =~= seq![stmt_view(out@[0])]);
                                }
                                Result::Ok((out, p3, false))
                            },
                        },
                    }
                },
                _ => Result::Err(ParseError::UnexpectedToken(toks[p].clone_token(), p)),
            }
        },
        Token::Keyword(Keyword::Return) => {
            let p = skip_sp(toks, pos + 1);
            if p >= toks.len() || matches!(&toks[p], Token::LineBreak) {
                let mut out: Vec<Statement> = Vec::new();
                out.push(Statement::Return(Expression::Literal(Value::NoneVal)));
                proof {
                    lemma_stmts_view_all(out@);
                    assert(stmts_view(out@) =~= seq![stmt_view(out@[0])]);
                }
                if p >= toks.len() {
                    Result::Ok((out, p, true))
                } else {
                    Result::Ok((out, p + 1, true))
                }
            } else {
                match parse_expr(toks, p, 0, fuel - 1) {
                    Result::Err(e) => Result::Err(e),
                    Result::Ok((e, p2)) => {
                        let mut out: Vec<Statement> = Vec::new();
                        out.push(Statement::Return(e));
                        proof {
                            lemma_stmts_view_all(out@);
                            assert(stmts_view(out@) =~= seq![stmt_view(out@[0])]);
                        }
                        Result::Ok((out, p2, true))
                    },
                }
            }
        },
        Token::Identifier(name) => {
            let q = skip_sp(toks, pos + 1);
            if q < toks.len() && matches!(&toks[q], Token::Symbol(Symbol::Assign)) {
                match parse_expr(toks, q + 1, 0, fuel - 1) {
                    Result::Err(e) => Result::Err(e),
                    Result::Ok((e, p2)) => {
                        let mut out: Vec<Statement> = Vec::new();
                        out.push(Statement::Assignment(name.clone(), e));
                        proof {
                            lemma_stmts_view_all(out@);
                            assert(stmts_view(out@) =~= seq![stmt_view(out@[0])]);
                        }
                        Result::Ok((out, p2, false))
                    },
                }
            } else {
                match parse_expr(toks, pos, 0, fuel - 1) {
                    Result::Err(e) => Result::Err(e),
                    Result::Ok((e, p2)) => {
                        let mut out: Vec<Statement> = Vec::new();
                        out.push(Statement::Expression(e));
                        proof {
                            lemma_stmts_view_all(out@);
                            assert(stmts_view(out@) =~= seq![stmt_view(out@[0])]);
                        }
                        Result::Ok((out, p2, false))
                    },
                }
            }
        },
        _ => Result::Err(ParseError::UnexpectedToken(toks[pos].clone_token(), pos)),
    }
}

fn parse_block(toks: &Vec<Token>, pos: usize, depth: usize, fuel: u64) -> (res: Result<
    (Vec<Statement>, usize),
    ParseError,
>)
    requires
        pos <= toks@.len(),
        depth as int + fuel as int <= usize::MAX as int,
    ensures
        (match res {
            Result::Ok(p) => Result::<(Seq<StatementV>, int), ParseErrV>::Ok(
                (stmts_view(p.0@), p.1 as int),
            ),
            Result::Err(e) => Result::Err(perr_view(e)),
        }) == s_parse_block(tokens_view(toks@), pos as int, depth as int, fuel as nat),
        match res {
            Result::Ok(pr) => pr.1 <= toks@.len(),
            Result::Err(_) => true,
        },
    decreases fuel, toks@.len() - pos + 1,
{
    proof {
        lemma_tokens_view_all(toks@);
    }
    if fuel == 0 {
        return Result::Err(ParseError::RecursionLimitExceeded);
    }
    let n = toks.len();
    let p = skip_blank(toks, pos);
    let k = count_indent(toks, p);
    let p2 = skip_sp(toks, p + k);
    if p2 >= n {
        let out: Vec<Statement> = Vec::new();
        proof {
            assert(stmts_view(out@) =~= Seq::<StatementV>::empty());
        }
        return Result::Ok((out, p2));
    }
    if matches!(&toks[p2], Token::LineBreak) {
        if p2 + 1 <= pos {
            return Result::Err(ParseError::RecursionLimitExceeded);
        }
        return parse_block(toks, p2 + 1, depth, fuel);
    }
    if k < depth {
        let out: Vec<Statement> = Vec::new();
        proof {
            assert(stmts_view(out@) =~= Seq::<StatementV>::empty());
        }
        return Result::Ok((out, p));
    }
    match parse_statement(toks, p2, depth, fuel - 1) {
        Result::Err(e) => Result::Err(e),
        Result::Ok((stmts, p3, ended)) => {
            if ended {
                return Result::Ok((stmts, p3));
            }
            if p3 <= pos {
                return Result::Err(ParseError::RecursionLimitExceeded);
            }
            match parse_block(toks, p3, depth, fuel) {
                Result::Err(e) => Result::Err(e),
                Result::Ok((rest, p4)) => {
                    let ghost a = stmts@;
                    let ghost b = rest@;
                    let mut out = stmts;
                    let mut tail = rest;
                    out.append(&mut tail);
                    proof {
                        lemma_stmts_view_all(out@);
                        lemma_stmts_view_all(a);
                        lemma_stmts_view_all(b);
                        assert(out@ =~= a + b);
                        assert(stmts_view(out@) =~= stmts_view(a) + stmts_view(b));
                    }
                    Result::Ok((out, p4))
                },
            }
        },
    }
}

/// A cursor over a token sequence, driving the recursive-descent grammar.
#[derive(Debug)]
pub struct Parser {
    pub tokens: Vec<Token>,
    pub current_token: usize,
}

impl Parser {
    /// A parser over this token sequence, cursor at the start.
    pub fn new(tokens: Vec<Token>) -> (r: Parser)
        ensures
            tokens_view(r.tokens@) == tokens_view(tokens@),
            r.current_token == 0,
    {
        Parser { tokens, current_token: 0 }
    }

    /// Consume the token sequence and produce the ordered statement list,
    /// or the first positioned parse error.  The result is a function of
    /// the token sequence alone.
    pub fn parse_tokens(&mut self) -> (res: Result<Vec<Statement>, ParseError>)
        ensures
            (match res {
                Result::Ok(ss) => Result::<Seq<StatementV>, ParseErrV>::Ok(stmts_view(ss@)),
                Result::Err(e) => Result::Err(perr_view(e)),
            }) == spec_parse_tokens(tokens_view(old(self).tokens@)),
            final(self).tokens@ == old(self).tokens@,
    {
        proof {
            lemma_tokens_view_all(self.tokens@);
        }
        let n = self.tokens.len();
        let fuel: u64 = if n <= usize::MAX - 64 {
            (n as u64) + 64
        } else {
            usize::MAX as u64
        };
        match parse_block(&self.tokens, 0, 0, fuel) {
            Result::Ok((ss, p)) => {
                self.current_token = p;
                Result::Ok(ss)
            },
            Result::Err(e) => Result::Err(e),
        }
    }
}

} // verus!
