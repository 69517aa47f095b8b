//! The parser: a flat token stream to an ordered sequence of AST elements.
//!
//! A cursor walks the stream once; each token at the cursor dispatches to
//! a production that consumes what it needs and appends elements. Nested
//! brace spans are parsed by a fresh parser over the balanced sub-span.
//! The behaviour is given by the spec functions [`check_spec`] (one
//! dispatch) and [`parse_loop`] (the whole stream); [`parse`] is the
//! contract of [`Parser::run`].
//!
//! Where the token stream is malformed the parse fails with a
//! [`ParseError`] instead of producing elements: a bracket span with no
//! matching close, an array length that is not a decimal number, a
//! binary operator with no token before it, and a stream that ends where
//! one more token is required are all fatal for the file.

use vstd::prelude::*;

use crate::elements::{clone_elements, lemma_expression_model, Element, ElementModel};
use crate::function::{Function, FunctionModel};
use crate::operation::{Operation, OperationModel};
use crate::tokens::{spelling, Token, TokenModel};
use crate::types::{Type, TypeModel};
use crate::variable::{Variable, VariableModel};
use crate::views::{lemma_deep_view_index, push_deep};
use crate::tokenizer::str_to_chars;

verus! {

/// Why a parse failed; fatal for the file being parsed.
#[derive(Clone, Copy, Debug, PartialEq, Eq, Structural)]
pub enum ParseError {
    /// The stream ends where one more token is required.
    UnexpectedEnd,
    /// A binary operator stands first, with no token before it to serve
    /// as its first operand.
    MissingOperand,
    /// An opening bracket has no matching closing bracket.
    UnbalancedBrackets,
    /// An array length token is not a decimal number that fits `usize`.
    InvalidArraySize,
}

/// The index of the close bracket matching position `i`, scanning from
/// `i` at the given nesting depth: nested opens raise the depth, closes
/// at positive depth lower it, and the first close met at depth zero is
/// the match. `None` when the stream ends first.
pub open spec fn matching_close(
    ts: Seq<TokenModel>,
    i: int,
    open: TokenModel,
    close: TokenModel,
    depth: int,
) -> Option<int>
    decreases ts.len() - i,
{
    if i < 0 || i >= ts.len() {
        None
    } else if ts[i] == open {
        matching_close(ts, i + 1, open, close, depth + 1)
    } else if ts[i] == close {
        if depth == 0 {
            Some(i)
        } else {
            matching_close(ts, i + 1, open, close, depth - 1)
        }
    } else {
        matching_close(ts, i + 1, open, close, depth)
    }
}

/// A found matching close lies between the scan start and the stream's
/// end, and is the close token.
pub proof fn lemma_matching_close_bounds(
    ts: Seq<TokenModel>,
    i: int,
    open: TokenModel,
    close: TokenModel,
    depth: int,
)
    ensures
        match matching_close(ts, i, open, close, depth) {
            Some(k) => i <= k < ts.len() && ts[k] == close,
            None => true,
        },
    decreases ts.len() - i,
{
    if i < 0 || i >= ts.len() {
    } else {
        lemma_matching_close_bounds(ts, i + 1, open, close, depth + 1);
        lemma_matching_close_bounds(ts, i + 1, open, close, depth - 1);
        lemma_matching_close_bounds(ts, i + 1, open, close, depth);
    }
}

/// How many tokens equal to `t` stand in the stream.
pub open spec fn count_token(ts: Seq<TokenModel>, t: TokenModel) -> int
    decreases ts.len(),
{
    if ts.len() == 0 {
        0
    } else {
        (if ts[0] == t {
            1int
        } else {
            0int
        }) + count_token(ts.skip(1), t)
    }
}

/// Law (balanced extraction): the span handed to a bracket production
/// is exactly the content between the opener and its matching close:
/// in the extracted span, opening and closing tokens of that kind come
/// in matching numbers, and no prefix of it ever closes more brackets
/// than were opened before or inside it — the extraction never ends
/// inside a deeper nesting than it started at.
pub proof fn lemma_matching_close_balanced(
    ts: Seq<TokenModel>,
    i: int,
    open: TokenModel,
    close: TokenModel,
    depth: int,
)
    requires
        0 <= i,
        open != close,
        depth >= 0,
    ensures
        match matching_close(ts, i, open, close, depth) {
            Some(k) => {
                &&& i <= k < ts.len()
                &&& ts[k] == close
                &&& count_token(ts.subrange(i, k), close) - count_token(
                    ts.subrange(i, k),
                    open,
                ) == depth
                &&& forall|p: int|
                    i <= p <= k ==> count_token(#[trigger] ts.subrange(i, p), close)
                        - count_token(ts.subrange(i, p), open) <= depth
            },
            None => true,
        },
    decreases ts.len() - i,
{
    lemma_matching_close_bounds(ts, i, open, close, depth);
    if i < ts.len() {
        let mc = matching_close(ts, i, open, close, depth);
        if ts[i] == close && depth == 0 {
            assert(ts.subrange(i, i) =~= Seq::<TokenModel>::empty());
        } else if mc is Some {
            let k = mc->0;
            let d2 = if ts[i] == open {
                depth + 1
            } else if ts[i] == close {
                depth - 1
            } else {
                depth
            };
            lemma_matching_close_balanced(ts, i + 1, open, close, d2);
            assert(matching_close(ts, i + 1, open, close, d2) == Some(k));
            assert forall|p: int|
                i <= p <= k implies count_token(#[trigger] ts.subrange(i, p), close)
                - count_token(ts.subrange(i, p), open) <= depth by {
                if p == i {
                    assert(ts.subrange(i, p) =~= Seq::<TokenModel>::empty());
                } else {
                    assert(ts.subrange(i, p).skip(1) =~= ts.subrange(i + 1, p));
                    assert(ts.subrange(i, p)[0] == ts[i]);
                    assert(count_token(ts.subrange(i + 1, p), close) - count_token(
                        ts.subrange(i + 1, p),
                        open,
                    ) <= d2);
                }
            }
            assert(ts.subrange(i, k).skip(1) =~= ts.subrange(i + 1, k));
            assert(ts.subrange(i, k)[0] == ts[i]);
        }
    }
}

/// Law (one element per bracket pair): each successful bracket
/// production moves the cursor from just past the opener to just past
/// the matching close, and appends exactly one element, built from the
/// tokens of that span alone; with no matching close it fails instead.
pub proof fn lemma_one_element_per_pair(ts: Seq<TokenModel>, i: int, acc: Seq<ElementModel>)
    ensures
        match (
            array_spec(ts, i, acc),
            matching_close(ts, i, TokenModel::SquareBracketOpen, TokenModel::SquareBracketClose, 0),
        ) {
            (Ok(jout), Some(k)) => jout.0 == k + 1 && jout.1 == acc.push(
                ElementModel::Array(non_comma(ts.subrange(i, k))),
            ),
            (Err(e), Option::None) => e == ParseError::UnbalancedBrackets,
            _ => false,
        },
        match (
            params_spec(ts, i, acc),
            matching_close(ts, i, TokenModel::ParenOpen, TokenModel::ParenClose, 0),
        ) {
            (Ok(jout), Some(k)) => jout.0 == k + 1 && jout.1 == acc.push(
                ElementModel::Parameters(ts.subrange(i, k)),
            ),
            (Err(e), Option::None) => e == ParseError::UnbalancedBrackets,
            _ => false,
        },
        match (
            expr_spec(ts, i, acc),
            matching_close(ts, i, TokenModel::BracketOpen, TokenModel::BracketClose, 0),
        ) {
            (Ok(jout), Some(k)) => jout.0 == k + 1 && (exists|sub: Seq<ElementModel>|
                parse_loop(ts.subrange(i, k), 0, Seq::empty()) == Ok::<_, ParseError>(sub)
                    && jout.1 == acc.push(ElementModel::Expression(sub))),
            (Err(_), Option::None) => true,
            (Err(_), Some(_)) => parse_loop(ts.subrange(i, mc_expr(ts, i)), 0, Seq::empty())
                is Err,
            _ => false,
        },
{
}

/// The matching close of a brace span, when one exists.
pub open spec fn mc_expr(ts: Seq<TokenModel>, i: int) -> int {
    matching_close(ts, i, TokenModel::BracketOpen, TokenModel::BracketClose, 0)->0
}

/// Whether a character is a decimal digit.
pub open spec fn is_digit(c: char) -> bool {
    48 <= c as u32 && c as u32 <= 57
}

/// The value of a decimal digit.
pub open spec fn digit_val(c: char) -> int {
    c as u32 - 48
}

/// Whether a spelling is all decimal digits.
pub open spec fn all_digits(s: Seq<char>) -> bool {
    forall|i: int| 0 <= i < s.len() ==> is_digit(#[trigger] s[i])
}

/// The number a digit string denotes.
pub open spec fn digits_val(s: Seq<char>) -> int
    decreases s.len(),
{
    if s.len() == 0 {
        0
    } else {
        digits_val(s.drop_last()) * 10 + digit_val(s.last())
    }
}

/// The `usize` a spelling denotes: defined exactly for non-empty strings
/// of decimal digits whose value fits.
pub open spec fn parse_usize(s: Seq<char>) -> Option<usize> {
    if s.len() > 0 && all_digits(s) && digits_val(s) <= usize::MAX {
        Some(digits_val(s) as usize)
    } else {
        None
    }
}

/// A digit string's value is at least zero.
proof fn lemma_digits_val_nonneg(s: Seq<char>)
    requires
        all_digits(s),
    ensures
        digits_val(s) >= 0,
    decreases s.len(),
{
    if s.len() > 0 {
        assert(all_digits(s.drop_last())) by {
            assert(forall|i: int|
                0 <= i < s.len() - 1 ==> is_digit(#[trigger] s.drop_last()[i]));
        }
        lemma_digits_val_nonneg(s.drop_last());
    }
}

/// A digit string is worth at least any of its prefixes.
proof fn lemma_digits_val_prefix(s: Seq<char>, j: int)
    requires
        all_digits(s),
        0 <= j <= s.len(),
    ensures
        digits_val(s.take(j)) <= digits_val(s),
    decreases s.len(),
{
    if j == s.len() {
        assert(s.take(j) =~= s);
    } else {
        assert(all_digits(s.drop_last())) by {
            assert(forall|i: int|
                0 <= i < s.len() - 1 ==> is_digit(#[trigger] s.drop_last()[i]));
        }
        lemma_digits_val_prefix(s.drop_last(), j);
        assert(s.take(j) =~= s.drop_last().take(j));
        lemma_digits_val_nonneg(s.drop_last());
        assert(digits_val(s) >= digits_val(s.drop_last()));
    }
}

/// Parses a spelling as a `usize`, accepting exactly non-empty strings
/// of decimal digits whose value fits.
fn parse_usize_chars(v: &Vec<char>) -> (r: Option<usize>)
    ensures
        r == parse_usize(v@),
{
    if v.len() == 0 {
        return None;
    }
    let mut acc: usize = 0;
    let mut overflow = false;
    let mut i: usize = 0;
    while i < v.len()
        invariant
            0 < v@.len(),
            i <= v@.len(),
            all_digits(v@.take(i as int)),
            !overflow ==> acc == digits_val(v@.take(i as int)),
            overflow ==> digits_val(v@.take(i as int)) > usize::MAX,
        decreases v@.len() - i,
    {
        let c = v[i];
        let cu = c as u32;
        if !(48 <= cu && cu <= 57) {
            proof {
                assert(!is_digit(v@[i as int]));
            }
            return None;
        }
        let d = (cu - 48) as usize;
        proof {
            assert(v@.take(i + 1).drop_last() =~= v@.take(i as int));
            assert(v@.take(i + 1).last() == v@[i as int]);
            assert(all_digits(v@.take(i + 1)));
        }
        if overflow {
            proof {
                lemma_digits_val_nonneg(v@.take(i as int));
                assert(digits_val(v@.take(i + 1)) > usize::MAX);
            }
        } else if acc <= (usize::MAX - d) / 10 {
            acc = acc * 10 + d;
        } else {
            overflow = true;
            proof {
                assert(acc * 10 + d > usize::MAX) by {
                    let q = ((usize::MAX - d) / 10) as int;
                    assert(acc >= q + 1);
                    assert(q * 10 <= usize::MAX - d < (q + 1) * 10) by (nonlinear_arith)
                        requires q == ((usize::MAX - d) as int) / 10 && 0 <= d <= 9;
                    assert(acc * 10 >= (q + 1) * 10) by (nonlinear_arith)
                        requires acc >= q + 1;
                }
                assert(digits_val(v@.take(i + 1)) > usize::MAX);
            }
        }
        i = i + 1;
    }
    proof {
        assert(v@.take(i as int) =~= v@);
    }
    if overflow {
        None
    } else {
        Some(acc)
    }
}

/// The value tokens of an array span: the span with the commas dropped.
pub open spec fn non_comma(ts: Seq<TokenModel>) -> Seq<TokenModel> {
    ts.filter(|t: TokenModel| t != TokenModel::Comma)
}

/// One production's outcome: the new cursor and the whole new output.
pub type StepResult = Result<(int, Seq<ElementModel>), ParseError>;

/// The array production, entered just past the opening square bracket:
/// the balanced span up to the matching close becomes one `Array`
/// element holding the span's tokens with the comma separators dropped;
/// the cursor moves past the closing bracket.
pub open spec fn array_spec(ts: Seq<TokenModel>, i: int, acc: Seq<ElementModel>) -> StepResult {
    match matching_close(
        ts,
        i,
        TokenModel::SquareBracketOpen,
        TokenModel::SquareBracketClose,
        0,
    ) {
        Option::None => Err(ParseError::UnbalancedBrackets),
        Option::Some(k) => Ok(
            (k + 1, acc.push(ElementModel::Array(non_comma(ts.subrange(i, k))))),
        ),
    }
}

/// The parameters production, entered just past the opening parenthesis:
/// the balanced span is kept raw as one `Parameters` element.
pub open spec fn params_spec(ts: Seq<TokenModel>, i: int, acc: Seq<ElementModel>) -> StepResult {
    match matching_close(ts, i, TokenModel::ParenOpen, TokenModel::ParenClose, 0) {
        Option::None => Err(ParseError::UnbalancedBrackets),
        Option::Some(k) => Ok((k + 1, acc.push(ElementModel::Parameters(ts.subrange(i, k))))),
    }
}

/// The assembly production, entered just past the sentinel: exactly one
/// following raw token is wrapped in an `Assembly` element.
pub open spec fn assembly_spec(ts: Seq<TokenModel>, i: int, acc: Seq<ElementModel>) -> StepResult {
    if i >= ts.len() {
        Err(ParseError::UnexpectedEnd)
    } else {
        Ok((i + 1, acc.push(ElementModel::Assembly(ts[i]))))
    }
}

/// The shared value-or-expression reader: an expression or array opener
/// is returned unconsumed as a marker, an `Other` token is consumed and
/// returned, and anything else yields the `Absent` marker.
pub open spec fn value_or_expr_spec(ts: Seq<TokenModel>, i: int) -> (int, TokenModel) {
    if i >= ts.len() {
        (i, TokenModel::Absent)
    } else if ts[i] == TokenModel::BracketOpen || ts[i] == TokenModel::SquareBracketOpen {
        (i, ts[i])
    } else if ts[i] is Other {
        (i + 1, ts[i])
    } else {
        (i, TokenModel::Absent)
    }
}

/// The shared type-suffix reader: a type-annotation colon followed by a
/// type-name token yields a scalar type of that name; when an opening
/// square bracket follows the name, a literal length token and the
/// closing bracket are consumed too and the type is an array type; with
/// no colon present the type is absent. A length spelling that is not a
/// decimal number is fatal.
pub open spec fn type_spec(ts: Seq<TokenModel>, i: int) -> Result<(int, TypeModel), ParseError> {
    if 0 <= i < ts.len() && ts[i] == TokenModel::TypeDef {
        if i + 1 >= ts.len() {
            Err(ParseError::UnexpectedEnd)
        } else {
            let name = spelling(ts[i + 1]);
            if i + 2 < ts.len() && ts[i + 2] == TokenModel::SquareBracketOpen {
                if i + 3 >= ts.len() {
                    Err(ParseError::UnexpectedEnd)
                } else {
                    match parse_usize(spelling(ts[i + 3])) {
                        Option::None => Err(ParseError::InvalidArraySize),
                        Option::Some(size) => Ok(
                            (
                                if i + 5 <= ts.len() {
                                    i + 5
                                } else {
                                    ts.len() as int
                                },
                                TypeModel::Array(name, size),
                            ),
                        ),
                    }
                }
            } else {
                Ok((i + 2, TypeModel::Scalar(name)))
            }
        }
    } else {
        Ok((i, TypeModel::Absent))
    }
}

/// A successful type-suffix read never moves the cursor backwards nor
/// past the stream's end.
pub proof fn lemma_type_spec_bounds(ts: Seq<TokenModel>, i: int)
    requires
        0 <= i <= ts.len(),
    ensures
        match type_spec(ts, i) {
            Ok(jt) => i <= jt.0 <= ts.len(),
            Err(_) => true,
        },
{
}

/// The function production, entered just past the `fun` keyword: one
/// identifier token, the type suffix, then the parameter span when an
/// opening parenthesis follows, else an empty parameter placeholder.
pub open spec fn function_spec(ts: Seq<TokenModel>, i: int, acc: Seq<ElementModel>) -> StepResult {
    if i >= ts.len() {
        Err(ParseError::UnexpectedEnd)
    } else {
        let id = ts[i];
        match type_spec(ts, i + 1) {
            Err(e) => Err(e),
            Ok((j, return_type)) => {
                if j < ts.len() && ts[j] == TokenModel::ParenOpen {
                    match matching_close(
                        ts,
                        j + 1,
                        TokenModel::ParenOpen,
                        TokenModel::ParenClose,
                        0,
                    ) {
                        Option::None => Err(ParseError::UnbalancedBrackets),
                        Option::Some(k) => Ok(
                            (
                                k + 1,
                                acc.push(
                                    ElementModel::Function(
                                        FunctionModel {
                                            id,
                                            params: Box::new(
                                                ElementModel::Parameters(ts.subrange(j + 1, k)),
                                            ),
                                            return_type,
                                        },
                                    ),
                                ),
                            ),
                        ),
                    }
                } else {
                    Ok(
                        (
                            j,
                            acc.push(
                                ElementModel::Function(
                                    FunctionModel {
                                        id,
                                        params: Box::new(
                                            ElementModel::Parameters(Seq::empty()),
                                        ),
                                        return_type,
                                    },
                                ),
                            ),
                        ),
                    )
                }
            },
        }
    }
}

/// The variable production, entered just past the `let` or `static`
/// keyword: one identifier token, the type suffix, then the initializer
/// read by the value-or-expression reader when an assign token follows,
/// else the `Absent` marker.
pub open spec fn variable_spec(ts: Seq<TokenModel>, i: int, acc: Seq<ElementModel>) -> StepResult {
    if i >= ts.len() {
        Err(ParseError::UnexpectedEnd)
    } else {
        let id = ts[i];
        match type_spec(ts, i + 1) {
            Err(e) => Err(e),
            Ok((j, type_)) => {
                if j < ts.len() && ts[j] == TokenModel::Assign {
                    let (j2, value) = value_or_expr_spec(ts, j + 1);
                    Ok(
                        (
                            j2,
                            acc.push(
                                ElementModel::Variable(
                                    VariableModel { id, type_, value, stack_pos: 0 },
                                ),
                            ),
                        ),
                    )
                } else {
                    Ok(
                        (
                            j,
                            acc.push(
                                ElementModel::Variable(
                                    VariableModel {
                                        id,
                                        type_,
                                        value: TokenModel::Absent,
                                        stack_pos: 0,
                                    },
                                ),
                            ),
                        ),
                    )
                }
            },
        }
    }
}

/// The return production, entered just past the `ret` keyword: one
/// `Return` element wrapping the value-or-expression reader's token.
pub open spec fn return_spec(ts: Seq<TokenModel>, i: int, acc: Seq<ElementModel>) -> StepResult {
    let (j, value) = value_or_expr_spec(ts, i);
    Ok((j, acc.push(ElementModel::Return(value))))
}

/// The operation production, at the operator's own position `i`: the
/// element emitted just before is removed (it is the first operand,
/// already recorded as the token before the operator), and the token
/// after the operator is the second operand; when that token opens an
/// expression or array, the corresponding production runs right after,
/// so its element follows the operation in the output and the stored
/// token is a marker for it.
pub open spec fn operation_spec(ts: Seq<TokenModel>, i: int, acc: Seq<ElementModel>) -> StepResult
    decreases ts.len(), ts.len() - i, 1int,
{
    if i < 1 {
        Err(ParseError::MissingOperand)
    } else if i + 1 >= ts.len() {
        Err(ParseError::UnexpectedEnd)
    } else {
        let popped = if acc.len() > 0 {
            acc.drop_last()
        } else {
            acc
        };
        let with_op = popped.push(
            ElementModel::Operation(
                OperationModel { operator: ts[i], arg1: ts[i - 1], arg2: ts[i + 1] },
            ),
        );
        if ts[i + 1] == TokenModel::BracketOpen {
            expr_spec(ts, i + 2, with_op)
        } else if ts[i + 1] == TokenModel::SquareBracketOpen {
            array_spec(ts, i + 2, with_op)
        } else {
            Ok((i + 2, with_op))
        }
    }
}

/// The expression production, entered just past the opening brace: the
/// balanced span up to the matching close is parsed to completion by a
/// fresh parse, and its elements form one `Expression` element; the
/// cursor moves past the closing brace.
pub open spec fn expr_spec(ts: Seq<TokenModel>, i: int, acc: Seq<ElementModel>) -> StepResult
    decreases ts.len(), ts.len() - i, 0int,
    via expr_spec_decreases
{
    match matching_close(ts, i, TokenModel::BracketOpen, TokenModel::BracketClose, 0) {
        Option::None => Err(ParseError::UnbalancedBrackets),
        Option::Some(k) => match parse_loop(ts.subrange(i, k), 0, Seq::empty()) {
            Err(e) => Err(e),
            Ok(sub) => Ok((k + 1, acc.push(ElementModel::Expression(sub)))),
        },
    }
}

#[via_fn]
proof fn expr_spec_decreases(ts: Seq<TokenModel>, i: int, acc: Seq<ElementModel>) {
    if i < 0 {
        assert(matching_close(ts, i, TokenModel::BracketOpen, TokenModel::BracketClose, 0)
            is None);
    }
    lemma_matching_close_bounds(ts, i, TokenModel::BracketOpen, TokenModel::BracketClose, 0);
}

/// One dispatch of the parse loop: the token at the cursor picks the
/// production; a `NewLine` produces nothing, and any unrecognized token
/// becomes one `Other` element.
pub open spec fn check_spec(ts: Seq<TokenModel>, i: int, acc: Seq<ElementModel>) -> StepResult
    decreases ts.len(), ts.len() - i, 2int,
    when 0 <= i < ts.len()
{
    match ts[i] {
        TokenModel::SquareBracketOpen => array_spec(ts, i + 1, acc),
        TokenModel::Assembly => assembly_spec(ts, i + 1, acc),
        TokenModel::BracketOpen => expr_spec(ts, i + 1, acc),
        TokenModel::Function => function_spec(ts, i + 1, acc),
        TokenModel::ParenOpen => params_spec(ts, i + 1, acc),
        TokenModel::Variable => variable_spec(ts, i + 1, acc),
        TokenModel::Static => variable_spec(ts, i + 1, acc),
        TokenModel::Return => return_spec(ts, i + 1, acc),
        TokenModel::Plus => operation_spec(ts, i, acc),
        TokenModel::Minus => operation_spec(ts, i, acc),
        TokenModel::Multiply => operation_spec(ts, i, acc),
        TokenModel::Divide => operation_spec(ts, i, acc),
        TokenModel::Assign => operation_spec(ts, i, acc),
        TokenModel::Equal => operation_spec(ts, i, acc),
        TokenModel::LessThan => operation_spec(ts, i, acc),
        TokenModel::LessThanOrEqual => operation_spec(ts, i, acc),
        TokenModel::MoreThan => operation_spec(ts, i, acc),
        TokenModel::MoreThanOrEqual => operation_spec(ts, i, acc),
        TokenModel::NewLine => Ok((i + 1, acc)),
        t => Ok((i + 1, acc.push(ElementModel::Other(t)))),
    }
}

/// The parse loop from cursor `i` with output `acc` so far: dispatch on
/// the token at the cursor until the stream is consumed or a production
/// fails.
pub open spec fn parse_loop(
    ts: Seq<TokenModel>,
    i: int,
    acc: Seq<ElementModel>,
) -> Result<Seq<ElementModel>, ParseError>
    decreases ts.len(), ts.len() - i, 3int,
{
    if i < 0 || i >= ts.len() {
        Ok(acc)
    } else {
        match check_spec(ts, i, acc) {
            Err(e) => Err(e),
            Ok((j, acc2)) => if i < j && j <= ts.len() {
                parse_loop(ts, j, acc2)
            } else {
                Ok(acc2)
            },
        }
    }
}

/// The elements of a token stream: the parse loop run from the start,
/// or the error that stopped it.
pub open spec fn parse(ts: Seq<TokenModel>) -> Result<Seq<ElementModel>, ParseError> {
    parse_loop(ts, 0, Seq::empty())
}

/// A successful dispatch always advances the cursor, and never past the
/// stream's end.
pub proof fn lemma_check_advances(ts: Seq<TokenModel>, i: int, acc: Seq<ElementModel>)
    requires
        0 <= i < ts.len(),
    ensures
        match check_spec(ts, i, acc) {
            Ok(jacc) => i < jacc.0 <= ts.len(),
            Err(_) => true,
        },
{
    lemma_matching_close_bounds(
        ts,
        i + 1,
        TokenModel::SquareBracketOpen,
        TokenModel::SquareBracketClose,
        0,
    );
    lemma_matching_close_bounds(ts, i + 1, TokenModel::BracketOpen, TokenModel::BracketClose, 0);
    lemma_matching_close_bounds(ts, i + 1, TokenModel::ParenOpen, TokenModel::ParenClose, 0);
    lemma_matching_close_bounds(ts, i + 2, TokenModel::BracketOpen, TokenModel::BracketClose, 0);
    lemma_matching_close_bounds(
        ts,
        i + 2,
        TokenModel::SquareBracketOpen,
        TokenModel::SquareBracketClose,
        0,
    );
    if ts[i] == TokenModel::Function || ts[i] == TokenModel::Variable || ts[i]
        == TokenModel::Static {
        if i + 1 < ts.len() {
            lemma_type_spec_bounds(ts, i + 2);
            match type_spec(ts, i + 2) {
                Ok((j, _)) => {
                    lemma_matching_close_bounds(
                        ts,
                        j + 1,
                        TokenModel::ParenOpen,
                        TokenModel::ParenClose,
                        0,
                    );
                },
                Err(_) => {},
            }
        }
    }
}

/// Transforms a token stream into a collection of [`Element`]s for the
/// later stages of the compiler.
pub struct Parser {
    tokenized: Vec<Token>,
    parsed: Vec<Element>,
    n_token: usize,
}

impl Parser {
    /// The models of the tokens this parser walks.
    pub closed spec fn tokens_model(&self) -> Seq<TokenModel> {
        self.tokenized.deep_view()
    }

    /// The models of the elements produced so far.
    pub closed spec fn parsed_model(&self) -> Seq<ElementModel> {
        self.parsed.deep_view()
    }

    /// The next unconsumed token's position.
    pub closed spec fn cursor(&self) -> int {
        self.n_token as int
    }

    /// Whether this parser has not run yet.
    pub open spec fn is_fresh(&self) -> bool {
        self.cursor() == 0 && self.parsed_model() == Seq::<ElementModel>::empty()
    }

    /// A fresh parser over a tokenized file, as built by the tokenizer.
    pub fn new(tokenized: Vec<Token>) -> (p: Self)
        ensures
            p.tokens_model() == tokenized.deep_view(),
            p.is_fresh(),
    {
        let p = Parser { tokenized, parsed: Vec::new(), n_token: 0 };
        proof {
            assert(p.parsed_model() =~= Seq::<ElementModel>::empty());
        }
        p
    }

    /// The elements produced by [`Parser::run`].
    pub fn parsed(&self) -> (r: &Vec<Element>)
        ensures
            r.deep_view() == self.parsed_model(),
    {
        &self.parsed
    }

    /// All tokens from the cursor up to the close token matching the
    /// one just consumed, skipping balanced sub-spans; the cursor is not
    /// moved. Fails when the stream ends with the span still open.
    fn retrieve_token_into(&self, start_token: Token, end_token: Token) -> (r: Result<
        Vec<Token>,
        ParseError,
    >)
        requires
            self.cursor() <= self.tokens_model().len(),
        ensures
            match (
                r,
                matching_close(self.tokens_model(), self.cursor(), start_token@, end_token@, 0),
            ) {
                (Ok(v), Option::Some(k)) => v.deep_view() == self.tokens_model().subrange(
                    self.cursor(),
                    k,
                ),
                (Err(e), Option::None) => e == ParseError::UnbalancedBrackets,
                _ => false,
            },
    {
        let ghost ts = self.tokens_model();
        let ghost n0 = self.cursor();
        let mut out: Vec<Token> = Vec::new();
        let mut j: usize = self.n_token;
        let mut depth: usize = 0;
        proof {
            assert(out.deep_view() =~= ts.subrange(n0, n0 as int));
        }
        while j < self.tokenized.len()
            invariant
                n0 <= j as int <= ts.len(),
                ts == self.tokens_model(),
                n0 == self.cursor(),
                out.deep_view() == ts.subrange(n0, j as int),
                depth as int <= j as int - n0,
                matching_close(ts, n0, start_token@, end_token@, 0) == matching_close(
                    ts,
                    j as int,
                    start_token@,
                    end_token@,
                    depth as int,
                ),
            decreases ts.len() - j,
        {
            proof {
                lemma_deep_view_index(self.tokenized, j as int);
            }
            let is_open = self.tokenized[j] == start_token;
            let is_close = self.tokenized[j] == end_token;
            if is_open {
                depth = depth + 1;
            } else if is_close {
                if depth == 0 {
                    return Ok(out);
                }
                depth = depth - 1;
            }
            let t = self.tokenized[j].clone();
            push_deep(&mut out, t);
            proof {
                assert(out.deep_view() =~= ts.subrange(n0, j + 1));
            }
            j = j + 1;
        }
        Err(ParseError::UnbalancedBrackets)
    }

    /// Consumes and returns the token at the cursor, to serve as a
    /// declaration's identifier.
    fn retrieve_id(&mut self) -> (r: Result<Token, ParseError>)
        ensures
            final(self).tokens_model() == old(self).tokens_model(),
            final(self).parsed_model() == old(self).parsed_model(),
            match r {
                Ok(t) => old(self).cursor() < old(self).tokens_model().len() && t@ == old(
                    self,
                ).tokens_model()[old(self).cursor()] && final(self).cursor() == old(self).cursor()
                    + 1,
                Err(e) => old(self).cursor() >= old(self).tokens_model().len() && e
                    == ParseError::UnexpectedEnd && final(self).cursor() == old(self).cursor(),
            },
    {
        let n = self.n_token;
        if n >= self.tokenized.len() {
            return Err(ParseError::UnexpectedEnd);
        }
        proof {
            lemma_deep_view_index(self.tokenized, n as int);
        }
        let t = self.tokenized[n].clone();
        self.n_token = n + 1;
        Ok(t)
    }

    /// The shared type-suffix reader; see [`type_spec`].
    fn retrieve_type_token(&mut self) -> (r: Result<Type, ParseError>)
        ensures
            final(self).tokens_model() == old(self).tokens_model(),
            final(self).parsed_model() == old(self).parsed_model(),
            match (r, type_spec(old(self).tokens_model(), old(self).cursor())) {
                (Ok(ty), Ok(jt)) => ty@ == jt.1 && final(self).cursor() == jt.0,
                (Err(e1), Err(e2)) => e1 == e2,
                _ => false,
            },
    {
        let n = self.n_token;
        let len = self.tokenized.len();
        let is_typedef = if n < len {
            proof {
                lemma_deep_view_index(self.tokenized, n as int);
            }
            matches!(&self.tokenized[n], Token::TypeDef)
        } else {
            false
        };
        if !is_typedef {
            return Ok(Type::Absent);
        }
        if n + 1 >= len {
            return Err(ParseError::UnexpectedEnd);
        }
        proof {
            lemma_deep_view_index(self.tokenized, (n + 1) as int);
        }
        let name = self.tokenized[n + 1].to_string();
        let is_array = if n + 2 < len {
            proof {
                lemma_deep_view_index(self.tokenized, (n + 2) as int);
            }
            matches!(&self.tokenized[n + 2], Token::SquareBracketOpen)
        } else {
            false
        };
        if is_array {
            if n + 3 >= len {
                return Err(ParseError::UnexpectedEnd);
            }
            proof {
                lemma_deep_view_index(self.tokenized, (n + 3) as int);
            }
            let size_str = self.tokenized[n + 3].to_string();
            let size_chars = str_to_chars(size_str.as_str());
            match parse_usize_chars(&size_chars) {
                Option::None => Err(ParseError::InvalidArraySize),
                Option::Some(size) => {
                    if len - n >= 5 {
                        self.n_token = n + 5;
                    } else {
                        self.n_token = len;
                    }
                    Ok(Type::array_from_string(name, size))
                },
            }
        } else {
            self.n_token = n + 2;
            Ok(Type::from_string(name))
        }
    }

    /// The shared value-or-expression reader; see [`value_or_expr_spec`].
    fn retrieve_value_or_expr(&mut self) -> (r: Token)
        ensures
            final(self).tokens_model() == old(self).tokens_model(),
            final(self).parsed_model() == old(self).parsed_model(),
            ({
                let jv = value_or_expr_spec(old(self).tokens_model(), old(self).cursor());
                final(self).cursor() == jv.0 && r@ == jv.1
            }),
    {
        let n = self.n_token;
        if n >= self.tokenized.len() {
            return Token::Absent;
        }
        proof {
            lemma_deep_view_index(self.tokenized, n as int);
        }
        let next = self.tokenized[n].clone();
        if matches!(&next, Token::BracketOpen) || matches!(&next, Token::SquareBracketOpen) {
            next
        } else if matches!(&next, Token::Other(_)) {
            self.n_token = n + 1;
            next
        } else {
            Token::Absent
        }
    }

    /// The array production; see [`array_spec`].
    fn when_array(&mut self) -> (r: Result<(), ParseError>)
        requires
            old(self).cursor() <= old(self).tokens_model().len(),
        ensures
            final(self).tokens_model() == old(self).tokens_model(),
            match (
                r,
                array_spec(old(self).tokens_model(), old(self).cursor(), old(self).parsed_model()),
            ) {
                (Ok(()), Ok(jacc)) => final(self).cursor() == jacc.0 && final(self).parsed_model()
                    == jacc.1,
                (Err(e1), Err(e2)) => e1 == e2,
                _ => false,
            },
    {
        let ghost ts = self.tokens_model();
        let ghost n0 = self.cursor();
        proof {
            lemma_matching_close_bounds(
                ts,
                n0,
                TokenModel::SquareBracketOpen,
                TokenModel::SquareBracketClose,
                0,
            );
        }
        let inner = match self.retrieve_token_into(
            Token::SquareBracketOpen,
            Token::SquareBracketClose,
        ) {
            Ok(v) => v,
            Err(e) => {
                return Err(e);
            },
        };
        let inner_len = inner.len();
        let total = self.tokenized.len();
        proof {
            let mc = matching_close(
                ts,
                n0,
                TokenModel::SquareBracketOpen,
                TokenModel::SquareBracketClose,
                0,
            );
            assert(mc is Some);
            let k = mc->0;
            assert(inner.deep_view() == ts.subrange(n0, k));
            assert(n0 <= k < ts.len());
            assert(inner.deep_view().len() == k - n0);
            assert(inner@.len() == inner.deep_view().len());
            assert(self.n_token + inner_len + 1 == k + 1 <= total);
        }
        self.n_token = self.n_token + inner_len + 1;

        // the array's values: the span with the comma separators dropped
        let ghost innerd = inner.deep_view();
        let mut values: Vec<Token> = Vec::new();
        let mut i: usize = 0;
        proof {
            reveal(Seq::filter);
            assert(innerd.take(0) =~= Seq::<TokenModel>::empty());
            assert(values.deep_view() =~= non_comma(innerd.take(0)));
        }
        while i < inner.len()
            invariant
                i <= inner@.len(),
                innerd == inner.deep_view(),
                innerd.len() == inner@.len(),
                values.deep_view() == non_comma(innerd.take(i as int)),
            decreases inner@.len() - i,
        {
            proof {
                reveal(Seq::filter);
                lemma_deep_view_index(inner, i as int);
                assert(innerd.take(i + 1).drop_last() =~= innerd.take(i as int));
                assert(innerd.take(i + 1).last() == innerd[i as int]);
            }
            if !matches!(&inner[i], Token::Comma) {
                let t = inner[i].clone();
                push_deep(&mut values, t);
            }
            i = i + 1;
        }
        proof {
            assert(innerd.take(i as int) =~= innerd);
        }
        push_deep(&mut self.parsed, Element::Array(values));
        Ok(())
    }

    /// The assembly production: exactly one following raw token is
    /// wrapped in an `Assembly` element; see [`assembly_spec`].
    fn when_assembly(&mut self) -> (r: Result<(), ParseError>)
        ensures
            final(self).tokens_model() == old(self).tokens_model(),
            match (
                r,
                assembly_spec(
                    old(self).tokens_model(),
                    old(self).cursor(),
                    old(self).parsed_model(),
                ),
            ) {
                (Ok(()), Ok(jacc)) => final(self).cursor() == jacc.0 && final(self).parsed_model()
                    == jacc.1,
                (Err(e1), Err(e2)) => e1 == e2,
                _ => false,
            },
    {
        let n = self.n_token;
        if n >= self.tokenized.len() {
            return Err(ParseError::UnexpectedEnd);
        }
        proof {
            lemma_deep_view_index(self.tokenized, n as int);
        }
        let code = self.tokenized[n].clone();
        self.n_token = n + 1;
        push_deep(&mut self.parsed, Element::Assembly(code));
        Ok(())
    }

    /// The expression production: the balanced brace span is parsed by a
    /// fresh parser run to completion; see [`expr_spec`].
    fn when_expression(&mut self) -> (r: Result<(), ParseError>)
        requires
            old(self).cursor() <= old(self).tokens_model().len(),
        ensures
            final(self).tokens_model() == old(self).tokens_model(),
            match (
                r,
                expr_spec(old(self).tokens_model(), old(self).cursor(), old(self).parsed_model()),
            ) {
                (Ok(()), Ok(jacc)) => final(self).cursor() == jacc.0 && final(self).parsed_model()
                    == jacc.1,
                (Err(e1), Err(e2)) => e1 == e2,
                _ => false,
            },
        decreases self.tokens_model().len(), self.tokens_model().len() - self.cursor(), 1int,
    {
        let ghost ts = self.tokens_model();
        let ghost n0 = self.cursor();
        proof {
            lemma_matching_close_bounds(
                ts,
                n0,
                TokenModel::BracketOpen,
                TokenModel::BracketClose,
                0,
            );
        }
        let inner = match self.retrieve_token_into(Token::BracketOpen, Token::BracketClose) {
            Ok(v) => v,
            Err(e) => {
                return Err(e);
            },
        };
        let inner_len = inner.len();
        let total = self.tokenized.len();
        let ghost innerd = inner.deep_view();
        proof {
            let k = matching_close(
                ts,
                n0,
                TokenModel::BracketOpen,
                TokenModel::BracketClose,
                0,
            )->0;
            assert(inner@.len() == k - n0);
            assert(self.n_token + inner_len + 1 == k + 1 <= total);
        }

        // parse the span with a fresh parser over it alone
        let mut expr_parser = Parser::new(inner);
        match expr_parser.run() {
            Err(e) => {
                return Err(e);
            },
            Ok(()) => {},
        }
        self.n_token = self.n_token + inner_len + 1;
        let sub_elements = clone_elements(expr_parser.parsed());
        proof {
            lemma_expression_model(sub_elements);
        }
        push_deep(&mut self.parsed, Element::Expression(sub_elements));
        Ok(())
    }

    /// The function production; see [`function_spec`].
    fn when_function(&mut self) -> (r: Result<(), ParseError>)
        ensures
            final(self).tokens_model() == old(self).tokens_model(),
            match (
                r,
                function_spec(
                    old(self).tokens_model(),
                    old(self).cursor(),
                    old(self).parsed_model(),
                ),
            ) {
                (Ok(()), Ok(jacc)) => final(self).cursor() == jacc.0 && final(self).parsed_model()
                    == jacc.1,
                (Err(e1), Err(e2)) => e1 == e2,
                _ => false,
            },
    {
        let ghost ts = self.tokens_model();
        let id = match self.retrieve_id() {
            Ok(t) => t,
            Err(e) => {
                return Err(e);
            },
        };
        let return_type = match self.retrieve_type_token() {
            Ok(t) => t,
            Err(e) => {
                return Err(e);
            },
        };
        let j = self.n_token;
        let has_params = if j < self.tokenized.len() {
            proof {
                lemma_deep_view_index(self.tokenized, j as int);
            }
            matches!(&self.tokenized[j], Token::ParenOpen)
        } else {
            false
        };
        let params = if has_params {
            self.n_token = j + 1;
            proof {
                lemma_matching_close_bounds(
                    ts,
                    j + 1,
                    TokenModel::ParenOpen,
                    TokenModel::ParenClose,
                    0,
                );
            }
            let inner = match self.retrieve_token_into(Token::ParenOpen, Token::ParenClose) {
                Ok(v) => v,
                Err(e) => {
                    return Err(e);
                },
            };
            let inner_len = inner.len();
            let total = self.tokenized.len();
            proof {
                let mc = matching_close(
                    ts,
                    j + 1,
                    TokenModel::ParenOpen,
                    TokenModel::ParenClose,
                    0,
                );
                assert(mc is Some);
                let k = mc->0;
                assert(inner.deep_view() == ts.subrange(j + 1, k));
                assert(j + 1 <= k < ts.len());
                assert(inner.deep_view().len() == k - (j + 1));
                assert(inner@.len() == inner.deep_view().len());
                assert(self.n_token + inner_len + 1 == k + 1 <= total);
            }
            self.n_token = self.n_token + inner_len + 1;
            Element::Parameters(inner)
        } else {
            let empty: Vec<Token> = Vec::new();
            proof {
                assert(empty.deep_view() =~= Seq::<TokenModel>::empty());
            }
            Element::Parameters(empty)
        };
        push_deep(&mut self.parsed, Element::Function(Function::new(id, params, return_type)));
        Ok(())
    }

    /// The parameters production: the balanced parenthesis span is kept
    /// raw as one `Parameters` element; see [`params_spec`].
    fn when_parameters(&mut self) -> (r: Result<(), ParseError>)
        requires
            old(self).cursor() <= old(self).tokens_model().len(),
        ensures
            final(self).tokens_model() == old(self).tokens_model(),
            match (
                r,
                params_spec(old(self).tokens_model(), old(self).cursor(), old(self).parsed_model()),
            ) {
                (Ok(()), Ok(jacc)) => final(self).cursor() == jacc.0 && final(self).parsed_model()
                    == jacc.1,
                (Err(e1), Err(e2)) => e1 == e2,
                _ => false,
            },
    {
        let ghost ts = self.tokens_model();
        let ghost n0 = self.cursor();
        proof {
            lemma_matching_close_bounds(ts, n0, TokenModel::ParenOpen, TokenModel::ParenClose, 0);
        }
        let params = match self.retrieve_token_into(Token::ParenOpen, Token::ParenClose) {
            Ok(v) => v,
            Err(e) => {
                return Err(e);
            },
        };
        let params_len = params.len();
        let total = self.tokenized.len();
        proof {
            let mc = matching_close(ts, n0, TokenModel::ParenOpen, TokenModel::ParenClose, 0);
            assert(mc is Some);
            let k = mc->0;
            assert(params.deep_view() == ts.subrange(n0, k));
            assert(n0 <= k < ts.len());
            assert(params.deep_view().len() == k - n0);
            assert(params@.len() == params.deep_view().len());
            assert(self.n_token + params_len + 1 == k + 1 <= total);
        }
        self.n_token = self.n_token + params_len + 1;
        push_deep(&mut self.parsed, Element::Parameters(params));
        Ok(())
    }

    /// The variable production; see [`variable_spec`].
    fn when_variable(&mut self) -> (r: Result<(), ParseError>)
        ensures
            final(self).tokens_model() == old(self).tokens_model(),
            match (
                r,
                variable_spec(
                    old(self).tokens_model(),
                    old(self).cursor(),
                    old(self).parsed_model(),
                ),
            ) {
                (Ok(()), Ok(jacc)) => final(self).cursor() == jacc.0 && final(self).parsed_model()
                    == jacc.1,
                (Err(e1), Err(e2)) => e1 == e2,
                _ => false,
            },
    {
        let id = match self.retrieve_id() {
            Ok(t) => t,
            Err(e) => {
                return Err(e);
            },
        };
        let type_ = match self.retrieve_type_token() {
            Ok(t) => t,
            Err(e) => {
                return Err(e);
            },
        };
        let j = self.n_token;
        let has_assign = if j < self.tokenized.len() {
            proof {
                lemma_deep_view_index(self.tokenized, j as int);
            }
            matches!(&self.tokenized[j], Token::Assign)
        } else {
            false
        };
        let value = if has_assign {
            self.n_token = j + 1;
            self.retrieve_value_or_expr()
        } else {
            Token::Absent
        };
        push_deep(&mut self.parsed, Element::Variable(Variable::new(id, type_, value)));
        Ok(())
    }

    /// The return production; see [`return_spec`].
    fn when_return(&mut self) -> (r: Result<(), ParseError>)
        ensures
            final(self).tokens_model() == old(self).tokens_model(),
            match (
                r,
                return_spec(old(self).tokens_model(), old(self).cursor(), old(self).parsed_model()),
            ) {
                (Ok(()), Ok(jacc)) => final(self).cursor() == jacc.0 && final(self).parsed_model()
                    == jacc.1,
                (Err(e1), Err(e2)) => e1 == e2,
                _ => false,
            },
    {
        let value = self.retrieve_value_or_expr();
        push_deep(&mut self.parsed, Element::Return(value));
        Ok(())
    }

    /// The operation production: the element emitted just before is
    /// removed, the surrounding tokens become the operands, and an
    /// opening bracket as second operand runs its production right
    /// after; see [`operation_spec`].
    fn when_operation(&mut self) -> (r: Result<(), ParseError>)
        ensures
            final(self).tokens_model() == old(self).tokens_model(),
            match (
                r,
                operation_spec(
                    old(self).tokens_model(),
                    old(self).cursor() - 1,
                    old(self).parsed_model(),
                ),
            ) {
                (Ok(()), Ok(jacc)) => final(self).cursor() == jacc.0 && final(self).parsed_model()
                    == jacc.1,
                (Err(e1), Err(e2)) => e1 == e2,
                _ => false,
            },
        decreases self.tokens_model().len(), self.tokens_model().len() - self.cursor() + 1, 1int,
    {
        let n = self.n_token;
        if n < 2 {
            return Err(ParseError::MissingOperand);
        }
        if n >= self.tokenized.len() {
            return Err(ParseError::UnexpectedEnd);
        }
        proof {
            lemma_deep_view_index(self.tokenized, (n - 1) as int);
            lemma_deep_view_index(self.tokenized, (n - 2) as int);
            lemma_deep_view_index(self.tokenized, n as int);
        }
        let operator = self.tokenized[n - 1].clone();
        let arg1 = self.tokenized[n - 2].clone();
        let arg2 = self.tokenized[n].clone();

        // the element emitted just before is the first operand
        let ghost acc0 = self.parsed_model();
        if self.parsed.len() > 0 {
            self.parsed.pop();
            proof {
                assert(self.parsed.deep_view() =~= acc0.drop_last());
            }
        }
        let arg2_is_expr = matches!(&arg2, Token::BracketOpen);
        let arg2_is_array = matches!(&arg2, Token::SquareBracketOpen);
        push_deep(&mut self.parsed, Element::Operation(Operation::new(operator, arg1, arg2)));
        if arg2_is_expr {
            self.n_token = n + 1;
            self.when_expression()
        } else if arg2_is_array {
            self.n_token = n + 1;
            self.when_array()
        } else {
            self.n_token = n + 1;
            Ok(())
        }
    }

    /// One dispatch of the parse loop; see [`check_spec`].
    fn check(&mut self) -> (r: Result<(), ParseError>)
        requires
            0 <= old(self).cursor() < old(self).tokens_model().len(),
        ensures
            final(self).tokens_model() == old(self).tokens_model(),
            match (
                r,
                check_spec(old(self).tokens_model(), old(self).cursor(), old(self).parsed_model()),
            ) {
                (Ok(()), Ok(jacc)) => final(self).cursor() == jacc.0 && final(self).parsed_model()
                    == jacc.1,
                (Err(e1), Err(e2)) => e1 == e2,
                _ => false,
            },
        decreases self.tokens_model().len(), self.tokens_model().len() - self.cursor(), 2int,
    {
        let idx = self.n_token;
        let total = self.tokenized.len();
        proof {
            lemma_deep_view_index(self.tokenized, idx as int);
            assert(idx < total);
        }
        self.n_token = idx + 1;
        let t = self.tokenized[idx].clone();
        match t {
            Token::SquareBracketOpen => self.when_array(),
            Token::Assembly => self.when_assembly(),
            Token::BracketOpen => self.when_expression(),
            Token::Function => self.when_function(),
            Token::ParenOpen => self.when_parameters(),
            Token::Variable | Token::Static => self.when_variable(),
            Token::Return => self.when_return(),
            Token::Plus | Token::Minus | Token::Multiply | Token::Divide | Token::Assign
                | Token::Equal | Token::LessThan | Token::LessThanOrEqual | Token::MoreThan
                | Token::MoreThanOrEqual => self.when_operation(),
            Token::NewLine => Ok(()),
            other => {
                push_deep(&mut self.parsed, Element::Other(other));
                Ok(())
            },
        }
    }

    /// Walks the whole token stream; the elements are read through
    /// [`Parser::parsed`]. A malformed stream yields the error that
    /// stopped the parse instead, fatal for the file.
    pub fn run(&mut self) -> (r: Result<(), ParseError>)
        requires
            old(self).is_fresh(),
        ensures
            final(self).tokens_model() == old(self).tokens_model(),
            match r {
                Ok(()) => parse(old(self).tokens_model()) == Ok::<_, ParseError>(
                    final(self).parsed_model(),
                ),
                Err(e) => parse(old(self).tokens_model()) == Err::<Seq<ElementModel>, _>(e),
            },
        decreases self.tokens_model().len(), self.tokens_model().len() + 1, 3int,
    {
        let ghost ts0 = self.tokens_model();
        while self.n_token < self.tokenized.len()
            invariant
                ts0 == old(self).tokens_model(),
                self.tokens_model() == ts0,
                0 <= self.cursor() <= ts0.len(),
                parse_loop(ts0, self.cursor(), self.parsed_model()) == parse(ts0),
            decreases ts0.len() - self.cursor(),
        {
            proof {
                lemma_check_advances(ts0, self.cursor(), self.parsed_model());
            }
            match self.check() {
                Err(e) => {
                    return Err(e);
                },
                Ok(()) => {},
            }
        }
        Ok(())
    }
}

} // verus!
