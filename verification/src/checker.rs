//! The syntax checker: a diagnostic pass over the token stream.
//!
//! The checker walks the tokens once and validates the leading token of
//! every instruction: a recognized leader silences the rest of its
//! physical line, structural tokens are legal anywhere, and anything
//! else where a leader was expected is reported as a diagnostic. It
//! never fails: all violations of one run are collected in order. Its
//! behaviour is given by the spec functions [`checker_step`] (one
//! token), [`checker_scan`] (the whole stream) and [`checker_final`]
//! (the closing check against the last token), the contract of
//! [`SyntaxChecker::run`].

use vstd::prelude::*;

use crate::tokens::{spelling, Token, TokenModel};
use crate::views::{lemma_deep_view_index, push_deep};
use vstd::string::StringExecFns;

verus! {

/// Mathematical model of a [`Diagnostic`].
#[verifier::ext_equal]
pub struct DiagnosticModel {
    /// The line the offending token stands on, counted from one.
    pub line: int,
    /// The offending token.
    pub token: TokenModel,
    /// The token's index on its line, as counted by the checker.
    pub column: int,
    /// The tokens of that line, for rendering the source excerpt.
    pub line_tokens: Seq<TokenModel>,
}

/// One reported violation: a token found where an instruction leader
/// was expected. Its severity is always an error.
#[derive(Debug)]
pub struct Diagnostic {
    line: usize,
    token: Token,
    column: usize,
    line_tokens: Vec<Token>,
}

impl View for Diagnostic {
    type V = DiagnosticModel;

    closed spec fn view(&self) -> DiagnosticModel {
        DiagnosticModel {
            line: self.line as int,
            token: self.token@,
            column: self.column as int,
            line_tokens: self.line_tokens.deep_view(),
        }
    }
}

impl DeepView for Diagnostic {
    type V = DiagnosticModel;

    open spec fn deep_view(&self) -> DiagnosticModel {
        self.view()
    }
}

impl Diagnostic {
    /// The line the offending token stands on, counted from one.
    pub fn line(&self) -> (r: usize)
        ensures
            r as int == self@.line,
    {
        self.line
    }

    /// The offending token.
    pub fn token(&self) -> (r: &Token)
        ensures
            r@ == self@.token,
    {
        &self.token
    }

    /// The token's index on its line.
    pub fn column(&self) -> (r: usize)
        ensures
            r as int == self@.column,
    {
        self.column
    }

    /// The tokens of the offending line, for rendering.
    pub fn line_tokens(&self) -> (r: &Vec<Token>)
        ensures
            r.deep_view() == self@.line_tokens,
    {
        &self.line_tokens
    }

    /// The diagnostic's short title.
    pub fn title(&self) -> (r: String)
        ensures
            r@ == "Invalid token"@,
    {
        "Invalid token".to_owned()
    }

    /// The diagnostic's detailed message, naming the offending token's
    /// spelling.
    pub fn message(&self) -> (r: String)
        ensures
            r@ == "No valid instruction found for token '"@ + spelling(self@.token) + "'"@,
    {
        let mut m = "No valid instruction found for token '".to_owned();
        let t = self.token.to_string();
        m.append(t.as_str());
        m.append("'");
        m
    }
}

/// Whether a token may begin an instruction.
pub open spec fn leader_token(t: TokenModel) -> bool {
    ||| t == TokenModel::Assembly
    ||| t == TokenModel::Function
    ||| t == TokenModel::Return
    ||| t == TokenModel::Variable
    ||| t == TokenModel::Static
    ||| t == TokenModel::Print
    ||| t == TokenModel::Exit
}

/// Whether a token is legal anywhere in a line without being a leader.
pub open spec fn structural_token(t: TokenModel) -> bool {
    ||| t == TokenModel::Assign
    ||| t == TokenModel::BracketOpen
    ||| t == TokenModel::BracketClose
    ||| t == TokenModel::Comma
    ||| t == TokenModel::ParenOpen
    ||| t == TokenModel::ParenClose
    ||| t == TokenModel::Point
    ||| t == TokenModel::StringDot
    ||| t == TokenModel::TypeDef
}

/// Whether a token passes the per-token validation on its own: leaders,
/// structural tokens, the line boundary, and the initial sentinel.
pub open spec fn accepted_token(t: TokenModel) -> bool {
    leader_token(t) || structural_token(t) || t == TokenModel::NewLine || t == TokenModel::Absent
}

/// The positions of the `NewLine` tokens, in order.
pub open spec fn nl_positions(ts: Seq<TokenModel>) -> Seq<int>
    decreases ts.len(),
{
    if ts.len() == 0 {
        Seq::empty()
    } else if ts.last() == TokenModel::NewLine {
        nl_positions(ts.drop_last()).push(ts.len() - 1)
    } else {
        nl_positions(ts.drop_last())
    }
}

/// Where the tokens of the given line start: just after the previous
/// line's `NewLine`, or at the stream's start for the first line.
pub open spec fn line_start(ts: Seq<TokenModel>, line: int) -> int {
    if line <= 0 {
        0
    } else if line - 1 < nl_positions(ts).len() {
        nl_positions(ts)[line - 1] + 1
    } else {
        ts.len() as int
    }
}

/// Where the tokens of the given line end: at the line's own `NewLine`,
/// or at the stream's end for the last line.
pub open spec fn line_end(ts: Seq<TokenModel>, line: int) -> int {
    if 0 <= line < nl_positions(ts).len() {
        nl_positions(ts)[line]
    } else {
        ts.len() as int
    }
}

/// The tokens of the given line, `NewLine` excluded.
pub open spec fn line_slice(ts: Seq<TokenModel>, line: int) -> Seq<TokenModel> {
    let s = line_start(ts, line);
    let e = line_end(ts, line);
    if 0 <= s <= e <= ts.len() {
        ts.subrange(s, e)
    } else {
        Seq::empty()
    }
}

/// The `NewLine` positions lie in the stream, in strictly increasing
/// order, and each holds a `NewLine` token.
pub proof fn lemma_nl_positions(ts: Seq<TokenModel>)
    ensures
        forall|l: int|
            0 <= l < nl_positions(ts).len() ==> 0 <= #[trigger] nl_positions(ts)[l] < ts.len(),
        forall|a: int, b: int|
            0 <= a < b < nl_positions(ts).len() ==> #[trigger] nl_positions(ts)[a]
                < #[trigger] nl_positions(ts)[b],
    decreases ts.len(),
{
    if ts.len() > 0 {
        lemma_nl_positions(ts.drop_last());
        let rest = nl_positions(ts.drop_last());
        if ts.last() == TokenModel::NewLine {
            assert(nl_positions(ts) == rest.push(ts.len() - 1));
            assert forall|l: int| 0 <= l < nl_positions(ts).len() implies 0
                <= #[trigger] nl_positions(ts)[l] < ts.len() by {
                if l < rest.len() {
                    assert(nl_positions(ts)[l] == rest[l]);
                }
            }
            assert forall|a: int, b: int| 0 <= a < b < nl_positions(ts).len() implies #[trigger] nl_positions(
                ts,
            )[a] < #[trigger] nl_positions(ts)[b] by {
                if b < rest.len() {
                    assert(nl_positions(ts)[a] == rest[a]);
                    assert(nl_positions(ts)[b] == rest[b]);
                } else {
                    assert(nl_positions(ts)[a] == rest[a]);
                    assert(nl_positions(ts)[b] == ts.len() - 1);
                    assert(rest[a] < ts.drop_last().len());
                }
            }
        } else {
            assert(nl_positions(ts) == rest);
        }
    }
}

/// The state carried across the checker's pass.
#[verifier::ext_equal]
pub struct CheckerState {
    pub previous: TokenModel,
    pub current: TokenModel,
    /// The current line, counted from zero.
    pub line_i: int,
    /// The global token counter.
    pub token_i: int,
    /// The token counter within the current line.
    pub token_i_on_line: int,
    /// Whether the rest of the current line is skipped.
    pub break_line: bool,
    pub diags: Seq<DiagnosticModel>,
}

/// The checker state before any token has been seen.
pub open spec fn checker_init() -> CheckerState {
    CheckerState {
        previous: TokenModel::Absent,
        current: TokenModel::Absent,
        line_i: 0,
        token_i: 0,
        token_i_on_line: 0,
        break_line: false,
        diags: Seq::empty(),
    }
}

/// Moving to the next token bumps both token counters.
pub open spec fn increment_spec(st: CheckerState) -> CheckerState {
    CheckerState { token_i: st.token_i + 1, token_i_on_line: st.token_i_on_line + 1, ..st }
}

/// The per-token validation, applied to the previous token: a leader
/// silences the rest of its line; structural tokens pass; a `NewLine`
/// starts the next line; the initial sentinel passes; anything else is
/// reported once, anchored to the current line, and the rest of that
/// instruction is skipped — the checker recovers at the next line.
pub open spec fn check_token_spec(all: Seq<TokenModel>, st: CheckerState) -> CheckerState {
    if leader_token(st.previous) {
        CheckerState { break_line: true, ..st }
    } else if structural_token(st.previous) {
        st
    } else if st.previous == TokenModel::NewLine {
        CheckerState { token_i_on_line: 0, line_i: st.line_i + 1, ..st }
    } else if st.previous == TokenModel::Absent {
        st
    } else {
        CheckerState {
            diags: st.diags.push(
                DiagnosticModel {
                    line: st.line_i + 1,
                    token: st.previous,
                    column: st.token_i_on_line,
                    line_tokens: line_slice(all, st.line_i),
                },
            ),
            break_line: true,
            ..st
        }
    }
}

/// One token of the checker's pass: the window shifts, the counters
/// advance, and the previous token is validated unless the line is
/// being skipped; the skip ends when the line boundary goes by.
pub open spec fn checker_step(all: Seq<TokenModel>, st: CheckerState, t: TokenModel) -> CheckerState {
    let shifted = CheckerState { previous: st.current, current: t, ..st };
    if shifted.break_line {
        let bumped = increment_spec(shifted);
        if bumped.previous != TokenModel::NewLine {
            bumped
        } else {
            check_token_spec(all, CheckerState { break_line: false, ..bumped })
        }
    } else {
        check_token_spec(all, increment_spec(shifted))
    }
}

/// The checker state after the tokens of `all` from position `i` on.
pub open spec fn checker_scan(all: Seq<TokenModel>, i: int, st: CheckerState) -> CheckerState
    decreases all.len() - i,
{
    if i < 0 || i >= all.len() {
        st
    } else {
        checker_scan(all, i + 1, checker_step(all, st, all[i]))
    }
}

/// The whole pass: every token, then one final validation against the
/// last-seen token, which covers a trailing instruction with no
/// `NewLine` after it.
pub open spec fn checker_final(all: Seq<TokenModel>) -> CheckerState {
    let st = checker_scan(all, 0, checker_init());
    check_token_spec(all, CheckerState { previous: st.current, ..st })
}

/// Validates the leading token of every instruction of a tokenized
/// file, collecting diagnostics; see [`SyntaxChecker::run`].
pub struct SyntaxChecker {
    source: String,
    tokens: Vec<Token>,
    diagnostics: Vec<Diagnostic>,
    previous_token: Token,
    current_token: Token,
    line_i: usize,
    token_i: usize,
    token_i_on_line: usize,
    break_line: bool,
    /// Positions of the `NewLine` tokens, precomputed for the line
    /// reconstruction in diagnostics.
    new_lines: Vec<usize>,
}

impl SyntaxChecker {
    /// The source text, kept for rendering.
    pub closed spec fn source_model(&self) -> Seq<char> {
        self.source@
    }

    /// The models of the tokens this checker walks.
    pub closed spec fn tokens_model(&self) -> Seq<TokenModel> {
        self.tokens.deep_view()
    }

    /// The models of the diagnostics collected so far.
    pub closed spec fn diagnostics_model(&self) -> Seq<DiagnosticModel> {
        self.diagnostics.deep_view()
    }

    /// The checker state held in the fields.
    pub closed spec fn state_model(&self) -> CheckerState {
        CheckerState {
            previous: self.previous_token@,
            current: self.current_token@,
            line_i: self.line_i as int,
            token_i: self.token_i as int,
            token_i_on_line: self.token_i_on_line as int,
            break_line: self.break_line,
            diags: self.diagnostics.deep_view(),
        }
    }

    /// The precomputed `NewLine` positions match the token stream.
    pub closed spec fn wf(&self) -> bool {
        self.new_lines@.map_values(|u: usize| u as int) == nl_positions(self.tokens_model())
    }

    /// Whether this checker has not run yet.
    pub open spec fn is_fresh(&self) -> bool {
        self.state_model() == checker_init()
    }

    /// A fresh checker over a source text and its token stream.
    pub fn new(source: String, parsed: Vec<Token>) -> (c: Self)
        ensures
            c.source_model() == source@,
            c.tokens_model() == parsed.deep_view(),
            c.is_fresh(),
            c.wf(),
    {
        let ghost dts = parsed.deep_view();

        // precompute the NewLine positions for line reconstruction
        let mut new_lines: Vec<usize> = Vec::new();
        let mut i: usize = 0;
        proof {
            assert(dts.take(0) =~= Seq::<TokenModel>::empty());
            assert(new_lines@.map_values(|u: usize| u as int) =~= nl_positions(dts.take(0)));
        }
        while i < parsed.len()
            invariant
                i <= parsed@.len(),
                dts == parsed.deep_view(),
                dts.len() == parsed@.len(),
                new_lines@.map_values(|u: usize| u as int) == nl_positions(dts.take(i as int)),
            decreases parsed@.len() - i,
        {
            proof {
                lemma_deep_view_index(parsed, i as int);
                assert(dts.take(i + 1).drop_last() =~= dts.take(i as int));
                assert(dts.take(i + 1).last() == dts[i as int]);
            }
            if matches!(&parsed[i], Token::NewLine) {
                new_lines.push(i);
            }
            i = i + 1;
            proof {
                assert(new_lines@.map_values(|u: usize| u as int) =~= nl_positions(
                    dts.take(i as int),
                ));
            }
        }
        proof {
            assert(dts.take(i as int) =~= dts);
        }

        let c = SyntaxChecker {
            source,
            tokens: parsed,
            diagnostics: Vec::new(),
            previous_token: Token::Absent,
            current_token: Token::Absent,
            line_i: 0,
            token_i: 0,
            token_i_on_line: 0,
            break_line: false,
            new_lines,
        };
        proof {
            assert(c.state_model() =~= checker_init());
        }
        c
    }

    /// The diagnostics collected by [`SyntaxChecker::run`].
    pub fn diagnostics(&self) -> (r: &Vec<Diagnostic>)
        ensures
            r.deep_view() == self.diagnostics_model(),
    {
        &self.diagnostics
    }

    /// Moves both token counters to the next token.
    pub fn increment(&mut self)
        requires
            old(self).state_model().token_i < usize::MAX as int,
            old(self).state_model().token_i_on_line < usize::MAX as int,
        ensures
            final(self).state_model() == increment_spec(old(self).state_model()),
            final(self).tokens_model() == old(self).tokens_model(),
            final(self).source_model() == old(self).source_model(),
            final(self).wf() == old(self).wf(),
    {
        self.token_i = self.token_i + 1;
        self.token_i_on_line = self.token_i_on_line + 1;
        proof {
            assert(self.state_model() =~= increment_spec(old(self).state_model()));
        }
    }

    /// The tokens of the current line, reconstructed from the stream
    /// between the surrounding `NewLine` positions.
    fn generate_line(&self) -> (r: Vec<Token>)
        requires
            self.wf(),
        ensures
            r.deep_view() == line_slice(self.tokens_model(), self.state_model().line_i),
    {
        let ghost dts = self.tokens_model();
        proof {
            lemma_nl_positions(dts);
            let nl = nl_positions(dts);
            assert(self.new_lines@.len() == nl.len());
            assert forall|k: int| 0 <= k < nl.len() implies (#[trigger] self.new_lines@[k]) as int
                == nl[k] by {
                assert(self.new_lines@.map_values(|u: usize| u as int)[k] == self.new_lines@[k]
                    as int);
            }
        }
        let line = self.line_i;
        let total = self.tokens.len();
        let start = if line == 0 {
            0
        } else if line - 1 < self.new_lines.len() {
            self.new_lines[line - 1] + 1
        } else {
            total
        };
        let end = if line < self.new_lines.len() {
            self.new_lines[line]
        } else {
            total
        };
        let mut r: Vec<Token> = Vec::new();
        if start > end {
            proof {
                assert(r.deep_view() =~= line_slice(dts, line as int));
            }
            return r;
        }
        let mut j = start;
        proof {
            assert(r.deep_view() =~= dts.subrange(start as int, start as int));
        }
        while j < end
            invariant
                start <= j <= end <= total,
                total == self.tokens@.len(),
                dts == self.tokens_model(),
                dts.len() == self.tokens@.len(),
                r.deep_view() == dts.subrange(start as int, j as int),
            decreases end - j,
        {
            proof {
                lemma_deep_view_index(self.tokens, j as int);
            }
            let t = self.tokens[j].clone();
            push_deep(&mut r, t);
            proof {
                assert(r.deep_view() =~= dts.subrange(start as int, j + 1));
            }
            j = j + 1;
        }
        proof {
            assert(r.deep_view() =~= line_slice(dts, line as int));
        }
        r
    }

    /// Validates the previous token; see [`check_token_spec`].
    pub fn check_token(&mut self)
        requires
            old(self).wf(),
            old(self).state_model().line_i < usize::MAX as int,
        ensures
            final(self).state_model() == check_token_spec(
                old(self).tokens_model(),
                old(self).state_model(),
            ),
            final(self).tokens_model() == old(self).tokens_model(),
            final(self).source_model() == old(self).source_model(),
            final(self).wf(),
    {
        let is_leader = matches!(
            &self.previous_token,
            Token::Assembly | Token::Function | Token::Return | Token::Variable | Token::Static
                | Token::Print | Token::Exit
        );
        let is_structural = matches!(
            &self.previous_token,
            Token::Assign | Token::BracketOpen | Token::BracketClose | Token::Comma
                | Token::ParenOpen | Token::ParenClose | Token::Point | Token::StringDot
                | Token::TypeDef
        );
        if is_leader {
            self.break_line = true;
        } else if is_structural {
            // legal mid-line anywhere
        } else if matches!(&self.previous_token, Token::NewLine) {
            self.token_i_on_line = 0;
            self.line_i = self.line_i + 1;
        } else if matches!(&self.previous_token, Token::Absent) {
            // the initial sentinel, before any token has been seen
        } else {
            let line_tokens = self.generate_line();
            let d = Diagnostic {
                line: self.line_i + 1,
                token: self.previous_token.clone(),
                column: self.token_i_on_line,
                line_tokens,
            };
            push_deep(&mut self.diagnostics, d);
            self.break_line = true;
        }
        proof {
            assert(self.state_model() =~= check_token_spec(
                old(self).tokens_model(),
                old(self).state_model(),
            ));
        }
    }

    /// Walks the whole token stream, then validates the last-seen token
    /// once more; the diagnostics are read through
    /// [`SyntaxChecker::diagnostics`].
    pub fn run(&mut self)
        requires
            old(self).is_fresh(),
            old(self).wf(),
        ensures
            final(self).tokens_model() == old(self).tokens_model(),
            final(self).source_model() == old(self).source_model(),
            final(self).diagnostics_model() == checker_final(old(self).tokens_model()).diags,
    {
        let ghost dts = self.tokens_model();
        let n = self.tokens.len();
        let mut i: usize = 0;
        while i < n
            invariant
                n == self.tokens@.len(),
                i <= n,
                dts == self.tokens_model(),
                dts.len() == n as int,
                self.source_model() == old(self).source_model(),
                self.wf(),
                i == 0 ==> self.state_model() == checker_init(),
                checker_scan(dts, i as int, self.state_model()) == checker_scan(
                    dts,
                    0,
                    checker_init(),
                ),
                self.token_i <= i,
                self.token_i_on_line <= i,
                self.line_i as int <= if i == 0 {
                    0int
                } else {
                    i - 1
                },
            decreases n - i,
        {
            proof {
                lemma_deep_view_index(self.tokens, i as int);
            }
            let ghost st0 = self.state_model();
            self.previous_token = self.current_token.clone();
            let t = self.tokens[i].clone();
            self.current_token = t;
            proof {
                assert(self.state_model() =~= (CheckerState {
                    previous: st0.current,
                    current: dts[i as int],
                    ..st0
                }));
            }
            if self.break_line {
                self.increment();
                if !matches!(&self.previous_token, Token::NewLine) {
                    // the rest of this line is the parser's concern
                } else {
                    self.break_line = false;
                    self.check_token();
                }
            } else {
                self.increment();
                self.check_token();
            }
            proof {
                assert(self.state_model() =~= checker_step(dts, st0, dts[i as int]));
            }
            i = i + 1;
        }

        // the closing check, against the last-seen token
        self.previous_token = self.current_token.clone();
        self.check_token();
    }
}

/// Whether every instruction of the stream leads correctly: each token
/// either passes the per-token validation on its own, or stands after
/// a recognized leader on its own physical line.
pub open spec fn all_instructions_lead(ts: Seq<TokenModel>) -> bool {
    forall|k: int|
        0 <= k < ts.len() ==> accepted_token(#[trigger] ts[k]) || exists|j: int|
            0 <= j < k && leader_token(#[trigger] ts[j]) && (forall|m: int|
                j < m < k ==> #[trigger] ts[m] != TokenModel::NewLine)
}

/// Whether, about to read position `i`, the checker is still skipping
/// the rest of a line: a leader was validated and no line boundary has
/// been validated since. The last two positions are not yet validated,
/// hence the offset.
pub open spec fn skip_active(ts: Seq<TokenModel>, i: int) -> bool {
    exists|j: int|
        0 <= j <= i - 2 && leader_token(#[trigger] ts[j]) && (forall|m: int|
            j < m <= i - 2 ==> #[trigger] ts[m] != TokenModel::NewLine)
}

/// The scan of a stream whose instructions all lead correctly reports
/// nothing, from any position whose state matches the scan so far.
proof fn lemma_checker_scan_clean(ts: Seq<TokenModel>, i: int, st: CheckerState)
    requires
        all_instructions_lead(ts),
        0 <= i <= ts.len(),
        st.diags == Seq::<DiagnosticModel>::empty(),
        st.current == if i == 0 {
            TokenModel::Absent
        } else {
            ts[i - 1]
        },
        st.break_line == skip_active(ts, i),
    ensures
        checker_scan(ts, i, st).diags == Seq::<DiagnosticModel>::empty(),
        checker_scan(ts, i, st).current == if i < ts.len() {
            ts[ts.len() - 1]
        } else {
            st.current
        },
    decreases ts.len() - i,
{
    if i < ts.len() {
        let st2 = checker_step(ts, st, ts[i]);
        assert(st2.diags == Seq::<DiagnosticModel>::empty() && st2.current == ts[i]
            && st2.break_line == skip_active(ts, i + 1)) by {
            if st.break_line {
                let j = choose|j: int|
                    0 <= j <= i - 2 && leader_token(#[trigger] ts[j]) && (forall|m: int|
                        j < m <= i - 2 ==> #[trigger] ts[m] != TokenModel::NewLine);
                if st.current != TokenModel::NewLine {
                    // still inside the skipped line
                    assert(ts[i - 1] != TokenModel::NewLine);
                    assert(0 <= j <= i - 1 && leader_token(ts[j]) && (forall|m: int|
                        j < m <= i - 1 ==> #[trigger] ts[m] != TokenModel::NewLine));
                    assert(skip_active(ts, i + 1));
                } else {
                    // the line boundary ends the skip
                    assert(!skip_active(ts, i + 1)) by {
                        if skip_active(ts, i + 1) {
                            let j2 = choose|j2: int|
                                0 <= j2 <= i - 1 && leader_token(#[trigger] ts[j2]) && (
                                forall|m: int|
                                    j2 < m <= i - 1 ==> #[trigger] ts[m] != TokenModel::NewLine);
                            if j2 == i - 1 {
                                assert(leader_token(ts[i - 1]));
                            } else {
                                assert(ts[i - 1] != TokenModel::NewLine);
                            }
                        }
                    }
                }
            } else {
                if i == 0 {
                    assert(!skip_active(ts, 1)) by {
                        if skip_active(ts, 1) {
                            let j2 = choose|j2: int|
                                0 <= j2 <= -1 && leader_token(#[trigger] ts[j2]) && (forall|
                                    m: int,
                                |
                                    j2 < m <= -1 ==> #[trigger] ts[m] != TokenModel::NewLine);
                        }
                    }
                } else {
                    let prev = ts[i - 1];
                    if leader_token(prev) {
                        assert(0 <= i - 1 <= i - 1 && leader_token(ts[i - 1]) && (forall|m: int|
                            i - 1 < m <= i - 1 ==> #[trigger] ts[m] != TokenModel::NewLine));
                        assert(skip_active(ts, i + 1));
                    } else if accepted_token(prev) {
                        assert(!skip_active(ts, i + 1)) by {
                            if skip_active(ts, i + 1) {
                                let j2 = choose|j2: int|
                                    0 <= j2 <= i - 1 && leader_token(#[trigger] ts[j2]) && (
                                    forall|m: int|
                                        j2 < m <= i - 1 ==> #[trigger] ts[m]
                                            != TokenModel::NewLine);
                                if j2 == i - 1 {
                                    assert(leader_token(ts[i - 1]));
                                } else {
                                    assert(0 <= j2 <= i - 2 && leader_token(ts[j2]) && (forall|
                                        m: int,
                                    |
                                        j2 < m <= i - 2 ==> #[trigger] ts[m]
                                            != TokenModel::NewLine));
                                    assert(skip_active(ts, i));
                                }
                            }
                        }
                    } else {
                        // a token that would be reported stands after a
                        // leader on its line, so the skip was active
                        assert(accepted_token(ts[i - 1]) || exists|j: int|
                            0 <= j < i - 1 && leader_token(#[trigger] ts[j]) && (forall|m: int|
                                j < m < i - 1 ==> #[trigger] ts[m] != TokenModel::NewLine));
                        let j = choose|j: int|
                            0 <= j < i - 1 && leader_token(#[trigger] ts[j]) && (forall|m: int|
                                j < m < i - 1 ==> #[trigger] ts[m] != TokenModel::NewLine);
                        assert(0 <= j <= i - 2 && leader_token(ts[j]) && (forall|m: int|
                            j < m <= i - 2 ==> #[trigger] ts[m] != TokenModel::NewLine));
                        assert(skip_active(ts, i));
                        assert(false);
                    }
                }
            }
        }
        lemma_checker_scan_clean(ts, i + 1, st2);
    }
}

/// Law (checker completeness): on a stream whose instructions all lead
/// correctly — every physical line's first non-structural token is a
/// recognized leader — and which does not end in the middle of a
/// skipped line, the checker reports nothing.
pub proof fn lemma_checker_completeness(ts: Seq<TokenModel>)
    requires
        all_instructions_lead(ts),
        ts.len() > 0 ==> accepted_token(ts[ts.len() - 1]),
    ensures
        checker_final(ts).diags == Seq::<DiagnosticModel>::empty(),
{
    assert(!skip_active(ts, 0)) by {
        if skip_active(ts, 0) {
            let j = choose|j: int|
                0 <= j <= -2 && leader_token(#[trigger] ts[j]) && (forall|m: int|
                    j < m <= -2 ==> #[trigger] ts[m] != TokenModel::NewLine);
        }
    }
    lemma_checker_scan_clean(ts, 0, checker_init());
}

} // verus!
