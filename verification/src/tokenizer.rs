//! The tokenizer: raw source text to an ordered token stream.
//!
//! The scan is a single left-to-right pass over the characters, with one
//! character of lookahead for double-character tokens. Its behaviour is
//! given by the spec functions [`tok_step`] (one character), [`scan`]
//! (the whole text), [`finish_state`] (the final flush and the trailing
//! `NewLine` guarantee) and [`merge_spec`] (the post-pass that collapses
//! `<` `=` and `>` `=` into single relational tokens); [`tokenize`] is
//! their composition and the contract of [`Tokenizer::run`].

use vstd::prelude::*;

use crate::tokens::{spelling, token_of, Token, TokenModel};
use crate::views::push_deep;

verus! {

/// Verdict of `char::is_alphanumeric` past ASCII: a function of the
/// character alone.
pub uninterp spec fn alphanumeric_ext(c: char) -> bool;

/// Whether a character is alphanumeric: on ASCII exactly the digits and
/// letters, past ASCII whatever `char::is_alphanumeric` answers.
pub open spec fn char_is_alnum(c: char) -> bool {
    if (c as u32) < 128 {
        (48 <= c as u32 && c as u32 <= 57) || (65 <= c as u32 && c as u32 <= 90) || (97 <= c
            as u32 && c as u32 <= 122)
    } else {
        alphanumeric_ext(c)
    }
}

/// Whether a character continues an identifier, keyword or number lexeme.
pub open spec fn word_char(c: char) -> bool {
    char_is_alnum(c) || c == '_'
}

/// Relies on char::is_alphanumeric: for ASCII characters it is true
/// exactly of the digits and letters; past ASCII its verdict depends on
/// the character alone and is named [`alphanumeric_ext`].
#[verifier::external_body]
fn is_alphanumeric_char(c: char) -> (r: bool)
    ensures
        r == char_is_alnum(c),
        (c as u32) >= 128 ==> r == alphanumeric_ext(c),
{
    c.is_alphanumeric()
}

/// Relies on str::chars: the characters of the slice, in order.
#[verifier::external_body]
pub(crate) fn str_to_chars(s: &str) -> (r: Vec<char>)
    ensures
        r@ == s@,
{
    s.chars().collect()
}

/// Relies on String's FromIterator over char: collecting yields exactly
/// the characters of the vector, in order.
#[verifier::external_body]
pub(crate) fn chars_to_string(v: &Vec<char>) -> (r: String)
    ensures
        r@ == v@,
{
    v.iter().collect()
}

/// The token a lexeme buffer denotes.
pub(crate) fn token_from_chars(v: &Vec<char>) -> (t: Token)
    ensures
        t@ == token_of(v@),
{
    let s = chars_to_string(v);
    Token::from_string(s.as_str())
}

/// The state carried across the character scan: the tokens emitted so
/// far, the pending lexeme buffer, and the mode flags.
#[verifier::ext_equal]
pub struct ScanState {
    pub out: Seq<TokenModel>,
    pub buf: Seq<char>,
    pub was_double: bool,
    pub in_asm: bool,
    pub in_comment: bool,
    pub in_string: bool,
    pub str_content: Seq<char>,
}

/// The scan state before any character has been read.
pub open spec fn initial_state() -> ScanState {
    ScanState {
        out: Seq::empty(),
        buf: Seq::empty(),
        was_double: false,
        in_asm: false,
        in_comment: false,
        in_string: false,
        str_content: Seq::empty(),
    }
}

/// Flushes the pending lexeme, if any, as one token. Inside an assembly
/// line the lexeme is kept verbatim as an `Other` token (assembly text is
/// opaque); anywhere else it is matched against the fixed spellings.
pub open spec fn flush_state(st: ScanState) -> ScanState {
    if st.buf.len() == 0 {
        st
    } else {
        ScanState {
            out: st.out.push(
                if st.in_asm {
                    TokenModel::Other(st.buf)
                } else {
                    token_of(st.buf)
                },
            ),
            buf: Seq::empty(),
            ..st
        }
    }
}

/// One step of the scan: dispatch on the current character `c`, with one
/// character of lookahead `next`, in priority order: an open comment
/// swallows everything up to the line's end; an open string swallows
/// every character up to the closing quote, which emits the quoted text
/// as one `Other` token; a line feed flushes the lexeme, emits `NewLine`
/// and resets the line modes; an open assembly line accumulates opaque
/// text but still recognizes the comma; a quote opens a string; the
/// assembly sentinel is emitted and opens an assembly line; alphanumeric
/// characters and underscores grow the lexeme; any other character ends
/// the lexeme and is looked up as a double- or single-character token,
/// where the double `//` opens a comment instead.
pub open spec fn tok_step(st: ScanState, c: char, next: Option<char>) -> ScanState {
    if st.in_comment && c != '\n' {
        st
    } else if st.in_string {
        if c == '\'' {
            ScanState {
                out: st.out.push(TokenModel::Other(seq!['\''] + st.str_content + seq!['\''])),
                in_string: false,
                str_content: Seq::empty(),
                ..st
            }
        } else {
            ScanState { str_content: st.str_content.push(c), ..st }
        }
    } else if c == '\n' {
        let f = flush_state(st);
        ScanState { out: f.out.push(TokenModel::NewLine), in_asm: false, in_comment: false, ..f }
    } else if st.in_asm {
        if c == ',' {
            let f = flush_state(st);
            ScanState { out: f.out.push(TokenModel::Comma), ..f }
        } else {
            ScanState { buf: st.buf.push(c), ..st }
        }
    } else if c == '\'' {
        let f = flush_state(st);
        ScanState { in_string: true, ..f }
    } else if c == '@' {
        let f = flush_state(st);
        ScanState { out: f.out.push(TokenModel::Assembly), in_asm: true, ..f }
    } else if word_char(c) {
        ScanState { buf: st.buf.push(c), ..st }
    } else {
        let f = flush_state(st);
        if st.was_double {
            ScanState { was_double: false, ..f }
        } else if c == ' ' {
            f
        } else if next == Some(c) {
            let d = token_of(seq![c, c]);
            if d == TokenModel::Comment {
                ScanState { in_comment: true, ..f }
            } else {
                ScanState { out: f.out.push(d), was_double: true, ..f }
            }
        } else {
            ScanState { out: f.out.push(token_of(seq![c])), ..f }
        }
    }
}

/// The scan state after reading the characters of `s` from position `i`
/// on, starting in state `st`.
pub open spec fn scan(s: Seq<char>, i: int, st: ScanState) -> ScanState
    decreases s.len() - i,
{
    if i < 0 || i >= s.len() {
        st
    } else {
        scan(
            s,
            i + 1,
            tok_step(
                st,
                s[i],
                if i + 1 < s.len() {
                    Some(s[i + 1])
                } else {
                    None
                },
            ),
        )
    }
}

/// After the scan: the pending lexeme is flushed, and one trailing
/// `NewLine` is appended unless the stream already ends with one.
pub open spec fn finish_state(st: ScanState) -> Seq<TokenModel> {
    let f = flush_state(st);
    if f.out.len() == 0 || f.out.last() != TokenModel::NewLine {
        f.out.push(TokenModel::NewLine)
    } else {
        f.out
    }
}

/// Whether a token is one of the two single-character relational tokens.
pub open spec fn is_relational(t: TokenModel) -> bool {
    t == TokenModel::LessThan || t == TokenModel::MoreThan
}

/// The merged form of a relational token followed by `=`.
pub open spec fn or_equal(t: TokenModel) -> TokenModel {
    if t == TokenModel::LessThan {
        TokenModel::LessThanOrEqual
    } else {
        TokenModel::MoreThanOrEqual
    }
}

/// The post-pass over the emitted tokens: every `LessThan` or `MoreThan`
/// immediately followed by `Assign` collapses into the single
/// `LessThanOrEqual` or `MoreThanOrEqual` token.
pub open spec fn merge_spec(ts: Seq<TokenModel>) -> Seq<TokenModel>
    decreases ts.len(),
{
    if ts.len() >= 2 && is_relational(ts[0]) && ts[1] == TokenModel::Assign {
        seq![or_equal(ts[0])] + merge_spec(ts.skip(2))
    } else if ts.len() >= 1 {
        seq![ts[0]] + merge_spec(ts.skip(1))
    } else {
        Seq::empty()
    }
}

/// Tabs are normalized to spaces before the scan.
pub open spec fn normalize(s: Seq<char>) -> Seq<char> {
    s.map_values(
        |c: char|
            if c == '\t' {
                ' '
            } else {
                c
            },
    )
}

/// The token stream of a source text: normalize tabs, scan every
/// character, flush and guarantee the trailing `NewLine`, then collapse
/// split relational operators.
pub open spec fn tokenize(s: Seq<char>) -> Seq<TokenModel> {
    merge_spec(finish_state(scan(normalize(s), 0, initial_state())))
}

/// Turns a source text into its token stream, by [`Tokenizer::run`].
pub struct Tokenizer {
    content: String,
    tokenized: Vec<Token>,
    /// The pending lexeme, as characters.
    token: Vec<char>,
    was_double_char: bool,
    is_asm_code: bool,
    is_comment: bool,
    is_string: bool,
    string_content: Vec<char>,
}

impl Tokenizer {
    /// The source text this tokenizer was built over.
    pub closed spec fn source_model(&self) -> Seq<char> {
        self.content@
    }

    /// The scan state held in the tokenizer's fields.
    pub closed spec fn scan_model(&self) -> ScanState {
        ScanState {
            out: self.tokenized.deep_view(),
            buf: self.token@,
            was_double: self.was_double_char,
            in_asm: self.is_asm_code,
            in_comment: self.is_comment,
            in_string: self.is_string,
            str_content: self.string_content@,
        }
    }

    /// Whether this tokenizer has not run yet.
    pub open spec fn is_fresh(&self) -> bool {
        self.scan_model() == initial_state()
    }

    /// A fresh tokenizer over the given source text.
    pub fn from_source_code(source_code: &str) -> (t: Self)
        ensures
            t.source_model() == source_code@,
            t.is_fresh(),
    {
        let t = Tokenizer {
            content: source_code.to_owned(),
            tokenized: Vec::new(),
            token: Vec::new(),
            was_double_char: false,
            is_asm_code: false,
            is_comment: false,
            is_string: false,
            string_content: Vec::new(),
        };
        proof {
            assert(t.scan_model() =~= initial_state());
        }
        t
    }

    /// Flushes the pending lexeme, if any, as one token.
    fn push_token(&mut self)
        ensures
            final(self).scan_model() == flush_state(old(self).scan_model()),
            final(self).content == old(self).content,
    {
        if self.token.len() > 0 {
            let t = if self.is_asm_code {
                Token::Other(chars_to_string(&self.token))
            } else {
                token_from_chars(&self.token)
            };
            push_deep(&mut self.tokenized, t);
            self.token = Vec::new();
            proof {
                assert(self.scan_model() =~= flush_state(old(self).scan_model()));
            }
        } else {
            proof {
                assert(self.scan_model() =~= flush_state(old(self).scan_model()));
            }
        }
    }

    /// Processes one character of the normalized source, with one
    /// character of lookahead.
    fn step_char(&mut self, c: char, next: Option<char>)
        ensures
            final(self).scan_model() == tok_step(old(self).scan_model(), c, next),
            final(self).content == old(self).content,
    {
        if self.is_comment && c != '\n' {
            // comments are discarded up to the line's end
        } else if self.is_string {
            if c == '\'' {
                // end of the string: emit the quoted text, delimiters kept
                let mut text: Vec<char> = Vec::new();
                text.push('\'');
                text.append(&mut self.string_content);
                text.push('\'');
                proof {
                    assert(text@ =~= seq!['\''] + old(self).scan_model().str_content
                        + seq!['\'']);
                }
                let t = Token::Other(chars_to_string(&text));
                push_deep(&mut self.tokenized, t);
                self.is_string = false;
            } else {
                self.string_content.push(c);
            }
        } else if c == '\n' {
            self.push_token();
            push_deep(&mut self.tokenized, Token::NewLine);
            self.is_asm_code = false;
            self.is_comment = false;
        } else if self.is_asm_code {
            if c == ',' {
                self.push_token();
                push_deep(&mut self.tokenized, Token::Comma);
            } else {
                self.token.push(c);
            }
        } else if c == '\'' {
            self.push_token();
            self.is_string = true;
        } else if c == '@' {
            self.push_token();
            push_deep(&mut self.tokenized, Token::Assembly);
            self.is_asm_code = true;
        } else if is_alphanumeric_char(c) || c == '_' {
            self.token.push(c);
        } else {
            self.push_token();
            if self.was_double_char {
                self.was_double_char = false;
            } else if c == ' ' {
                // spaces only end the lexeme
            } else {
                let mut is_double = false;
                if let Some(d) = next {
                    if d == c {
                        is_double = true;
                    }
                }
                if is_double {
                    let mut pair: Vec<char> = Vec::new();
                    pair.push(c);
                    pair.push(c);
                    proof {
                        assert(pair@ =~= seq![c, c]);
                    }
                    let t = token_from_chars(&pair);
                    match t {
                        Token::Comment => {
                            self.is_comment = true;
                        },
                        _ => {
                            push_deep(&mut self.tokenized, t);
                            self.was_double_char = true;
                        },
                    }
                } else {
                    let mut one: Vec<char> = Vec::new();
                    one.push(c);
                    proof {
                        assert(one@ =~= seq![c]);
                    }
                    let t = token_from_chars(&one);
                    push_deep(&mut self.tokenized, t);
                }
            }
        }
        proof {
            assert(self.scan_model() =~= tok_step(old(self).scan_model(), c, next));
        }
    }

    /// Runs the whole scan; the result is read through
    /// [`Tokenizer::tokenized`].
    pub fn run(&mut self)
        requires
            old(self).is_fresh(),
        ensures
            final(self).scan_model().out == tokenize(old(self).source_model()),
            final(self).source_model() == old(self).source_model(),
    {
        let ghost src0 = self.content@;

        // normalize tabs to spaces on a character copy of the source
        let mut chars = str_to_chars(self.content.as_str());
        let n = chars.len();
        let mut i: usize = 0;
        while i < n
            invariant
                n == chars@.len(),
                i <= n,
                chars@.len() == src0.len(),
                forall|j: int| 0 <= j < i ==> chars@[j] == normalize(src0)[j],
                forall|j: int| i <= j < n ==> chars@[j] == src0[j],
            decreases n - i,
        {
            if chars[i] == '\t' {
                chars.set(i, ' ');
            }
            i = i + 1;
        }
        proof {
            assert(chars@ =~= normalize(src0));
        }

        // the scan itself, one character at a time with one of lookahead
        let ghost norm = chars@;
        let mut i: usize = 0;
        while i < n
            invariant
                n == chars@.len(),
                chars@ == norm,
                i <= n,
                self.content@ == src0,
                scan(norm, i as int, self.scan_model()) == scan(norm, 0, initial_state()),
            decreases n - i,
        {
            let c = chars[i];
            let next = if i + 1 < n {
                Some(chars[i + 1])
            } else {
                None
            };
            self.step_char(c, next);
            i = i + 1;
        }

        // flush the last lexeme and guarantee the trailing NewLine
        self.push_token();
        let len = self.tokenized.len();
        let needs_newline = if len == 0 {
            true
        } else {
            proof {
                crate::views::lemma_deep_view_index(self.tokenized, len - 1);
            }
            match self.tokenized[len - 1] {
                Token::NewLine => false,
                _ => true,
            }
        };
        if needs_newline {
            push_deep(&mut self.tokenized, Token::NewLine);
        }
        proof {
            assert(self.tokenized.deep_view() == finish_state(scan(norm, 0, initial_state())));
        }

        // collapse `<` `=` and `>` `=` into single relational tokens
        let merged = merge_relational(&self.tokenized);
        self.tokenized = merged;
    }

    /// The token stream built by [`Tokenizer::run`].
    pub fn tokenized(&self) -> (r: &Vec<Token>)
        ensures
            r.deep_view() == self.scan_model().out,
    {
        &self.tokenized
    }
}

/// The post-pass over the emitted tokens, as executable code: a fresh
/// vector built left to right, collapsing each relational-plus-assign
/// pair into one token.
fn merge_relational(v: &Vec<Token>) -> (r: Vec<Token>)
    ensures
        r.deep_view() == merge_spec(v.deep_view()),
{
    let ghost dv = v.deep_view();
    let mut r: Vec<Token> = Vec::new();
    let mut i: usize = 0;
    proof {
        assert(dv.skip(0) =~= dv);
        assert(r.deep_view() =~= Seq::<TokenModel>::empty());
        assert(r.deep_view() + merge_spec(dv.skip(0)) =~= merge_spec(dv));
    }
    while i < v.len()
        invariant
            i <= v@.len(),
            dv == v.deep_view(),
            dv.len() == v@.len(),
            merge_spec(dv) == r.deep_view() + merge_spec(dv.skip(i as int)),
        decreases v@.len() - i,
    {
        proof {
            crate::views::lemma_deep_view_index(*v, i as int);
            if i + 1 < v@.len() {
                crate::views::lemma_deep_view_index(*v, i + 1 as int);
            }
        }
        let is_rel = match v[i] {
            Token::LessThan => true,
            Token::MoreThan => true,
            _ => false,
        };
        let next_is_assign = if i + 1 < v.len() {
            match v[i + 1] {
                Token::Assign => true,
                _ => false,
            }
        } else {
            false
        };
        if is_rel && next_is_assign {
            let merged = match v[i] {
                Token::LessThan => Token::LessThanOrEqual,
                _ => Token::MoreThanOrEqual,
            };
            proof {
                assert(dv.skip(i as int).skip(2) =~= dv.skip(i + 2));
                assert(seq![or_equal(dv[i as int])] + merge_spec(dv.skip(i + 2)) == merge_spec(
                    dv.skip(i as int),
                ));
            }
            push_deep(&mut r, merged);
            i = i + 2;
        } else {
            proof {
                assert(dv.skip(i as int).skip(1) =~= dv.skip(i + 1));
                assert(seq![dv[i as int]] + merge_spec(dv.skip(i + 1)) == merge_spec(
                    dv.skip(i as int),
                ));
            }
            let t = v[i].clone();
            push_deep(&mut r, t);
            i = i + 1;
        }
        proof {
            assert(merge_spec(dv) =~= r.deep_view() + merge_spec(dv.skip(i as int)));
        }
    }
    proof {
        assert(dv.skip(i as int) =~= Seq::empty());
        assert(r.deep_view() =~= merge_spec(dv));
    }
    r
}

/// The merged stream starts with the input's first token, or with its
/// collapsed relational form.
proof fn lemma_merge_head(ts: Seq<TokenModel>)
    ensures
        merge_spec(ts).len() > 0 ==> ts.len() > 0,
        merge_spec(ts).len() > 0 ==> (merge_spec(ts)[0] == ts[0] || merge_spec(ts)[0] == or_equal(
            ts[0],
        )),
{
}

/// Law (relational-operator merge): after the post-pass, a `LessThan`
/// or `MoreThan` token is never immediately followed by an `Assign`
/// token anywhere in the stream: every such pair has been collapsed
/// into the single `LessThanOrEqual` or `MoreThanOrEqual` token.
pub proof fn lemma_merge_no_split_relational(ts: Seq<TokenModel>)
    ensures
        forall|i: int|
            0 <= i && i + 1 < merge_spec(ts).len() ==> !(is_relational(
                #[trigger] merge_spec(ts)[i],
            ) && merge_spec(ts)[i + 1] == TokenModel::Assign),
    decreases ts.len(),
{
    let out = merge_spec(ts);
    if ts.len() >= 2 && is_relational(ts[0]) && ts[1] == TokenModel::Assign {
        let rest = ts.skip(2);
        lemma_merge_no_split_relational(rest);
        assert forall|i: int|
            0 <= i && i + 1 < out.len() implies !(is_relational(#[trigger] out[i]) && out[i + 1]
            == TokenModel::Assign) by {
            if i == 0 {
                assert(out[0] == or_equal(ts[0]));
                assert(!is_relational(out[0]));
            } else {
                assert(out[i] == merge_spec(rest)[i - 1]);
                assert(out[i + 1] == merge_spec(rest)[i]);
            }
        }
    } else if ts.len() >= 1 {
        let rest = ts.skip(1);
        lemma_merge_no_split_relational(rest);
        lemma_merge_head(rest);
        assert forall|i: int|
            0 <= i && i + 1 < out.len() implies !(is_relational(#[trigger] out[i]) && out[i + 1]
            == TokenModel::Assign) by {
            if i == 0 {
                assert(out[0] == ts[0]);
                assert(out[1] == merge_spec(rest)[0]);
                if is_relational(ts[0]) && out[1] == TokenModel::Assign {
                    // the head of the merged rest is rest's own head or a
                    // collapsed relational token, never a fresh Assign
                    assert(merge_spec(rest)[0] == rest[0] || merge_spec(rest)[0] == or_equal(
                        rest[0],
                    ));
                    assert(rest[0] == ts[1]);
                    assert(ts[1] == TokenModel::Assign);
                    assert(false);
                }
            } else {
                assert(out[i] == merge_spec(rest)[i - 1]);
                assert(out[i + 1] == merge_spec(rest)[i]);
            }
        }
    }
}

/// Law (relational-operator merge), stated of whole source texts.
pub proof fn lemma_tokenize_no_split_relational(s: Seq<char>)
    ensures
        forall|i: int|
            0 <= i && i + 1 < tokenize(s).len() ==> !(is_relational(#[trigger] tokenize(s)[i])
                && tokenize(s)[i + 1] == TokenModel::Assign),
{
    lemma_merge_no_split_relational(finish_state(scan(normalize(s), 0, initial_state())));
}

/// Merging leaves a token followed by the line boundary alone.
proof fn lemma_merge_two(t: TokenModel)
    ensures
        merge_spec(seq![t, TokenModel::NewLine]) == seq![t, TokenModel::NewLine],
{
    reveal_with_fuel(merge_spec, 3);
    let s = seq![t, TokenModel::NewLine];
    assert(s.skip(1) =~= seq![TokenModel::NewLine]);
    assert(seq![TokenModel::NewLine].skip(1) =~= Seq::<TokenModel>::empty());
    assert(merge_spec(seq![TokenModel::NewLine]) =~= seq![TokenModel::NewLine]);
    assert(merge_spec(s) =~= seq![t, TokenModel::NewLine]);
}

/// Scanning a text of word characters only accumulates it in the
/// lexeme buffer.
proof fn lemma_scan_word(s: Seq<char>, i: int)
    requires
        0 <= i <= s.len(),
        forall|j: int| 0 <= j < s.len() ==> word_char(#[trigger] s[j]),
    ensures
        scan(s, i, ScanState { buf: s.take(i), ..initial_state() }) == (ScanState {
            buf: s,
            ..initial_state()
        }),
    decreases s.len() - i,
{
    if i == s.len() {
        assert(s.take(i) =~= s);
    } else {
        let st = ScanState { buf: s.take(i), ..initial_state() };
        let c = s[i];
        let next = if i + 1 < s.len() {
            Some(s[i + 1])
        } else {
            None
        };
        assert(word_char(c));
        assert(tok_step(st, c, next) =~= (ScanState { buf: s.take(i + 1), ..initial_state() }))
            by {
            assert(s.take(i).push(c) =~= s.take(i + 1));
        }
        lemma_scan_word(s, i + 1);
    }
}

/// A text of word characters only tokenizes to its own token and the
/// trailing line boundary.
proof fn lemma_tokenize_word(s: Seq<char>)
    requires
        s.len() > 0,
        forall|j: int| 0 <= j < s.len() ==> word_char(#[trigger] s[j]),
        token_of(s) != TokenModel::NewLine,
    ensures
        tokenize(s) == seq![token_of(s), TokenModel::NewLine],
{
    assert(normalize(s) =~= s) by {
        assert(forall|j: int| 0 <= j < s.len() ==> #[trigger] s[j] != '\t');
    }
    assert((ScanState { buf: s.take(0), ..initial_state() }) =~= initial_state()) by {
        assert(s.take(0) =~= Seq::<char>::empty());
    }
    lemma_scan_word(s, 0);
    let st = ScanState { buf: s, ..initial_state() };
    assert(scan(s, 0, initial_state()) == st);
    assert(flush_state(st).out =~= seq![token_of(s)]);
    assert(finish_state(st) =~= seq![token_of(s), TokenModel::NewLine]);
    lemma_merge_two(token_of(s));
}

/// A lone separator character tokenizes to its own token and the
/// trailing line boundary.
proof fn lemma_tokenize_single(c: char)
    requires
        !word_char(c),
        c != ' ',
        c != '\n',
        c != '\t',
        c != '\'',
        c != '@',
    ensures
        tokenize(seq![c]) == seq![token_of(seq![c]), TokenModel::NewLine],
{
    reveal_strlit("\n");
    reveal_with_fuel(scan, 3);
    let s = seq![c];
    assert(normalize(s) =~= s);
    let st1 = tok_step(initial_state(), c, None);
    assert(scan(s, 0, initial_state()) == st1);
    assert(st1.out =~= seq![token_of(seq![c])]);
    assert(st1.buf.len() == 0);
    assert(seq![c][0] == c && "\n"@[0] == '\n');
    assert(token_of(seq![c]) != TokenModel::NewLine);
    assert(finish_state(st1) =~= seq![token_of(seq![c]), TokenModel::NewLine]);
    lemma_merge_two(token_of(seq![c]));
}

/// A doubled separator character that does not open a comment
/// tokenizes to its double-character token and the trailing line
/// boundary.
proof fn lemma_tokenize_double(c: char)
    requires
        !word_char(c),
        c != ' ',
        c != '\n',
        c != '\t',
        c != '\'',
        c != '@',
        token_of(seq![c, c]) != TokenModel::Comment,
        token_of(seq![c, c]) != TokenModel::NewLine,
    ensures
        tokenize(seq![c, c]) == seq![token_of(seq![c, c]), TokenModel::NewLine],
{
    reveal_with_fuel(scan, 4);
    let s = seq![c, c];
    assert(normalize(s) =~= s);
    let st1 = tok_step(initial_state(), c, Some(c));
    let st2 = tok_step(st1, c, None);
    assert(scan(s, 0, initial_state()) == st2);
    assert(st1.out =~= seq![token_of(seq![c, c])]);
    assert(st1.was_double);
    assert(st2.out == st1.out && st2.buf.len() == 0);
    assert(finish_state(st2) =~= seq![token_of(seq![c, c]), TokenModel::NewLine]);
    lemma_merge_two(token_of(seq![c, c]));
}

/// A relational character followed by the assign character tokenizes,
/// through the post-pass, to the single merged relational token.
#[verifier::rlimit(60)]
proof fn lemma_tokenize_rel_assign(c: char)
    requires
        c == '<' || c == '>',
    ensures
        tokenize(seq![c, '=']) == seq![
            if c == '<' {
                TokenModel::LessThanOrEqual
            } else {
                TokenModel::MoreThanOrEqual
            },
            TokenModel::NewLine,
        ],
{
    reveal_strlit("<");
    reveal_strlit(">");
    reveal_strlit("=");
        reveal_with_fuel(scan, 4);
    reveal_with_fuel(merge_spec, 4);
    let s = seq![c, '='];
    assert(normalize(s) =~= s);
    if c == '<' {
        assert(seq![c] =~= "<"@);
    } else {
        assert(seq![c] =~= ">"@);
    }
    assert(seq!['='] =~= "="@);
    let st1 = tok_step(initial_state(), c, Some('='));
    let st2 = tok_step(st1, '=', None);
    assert(scan(s, 0, initial_state()) == st2);
    let rel = if c == '<' {
        TokenModel::LessThan
    } else {
        TokenModel::MoreThan
    };
    crate::tokens::lemma_token_of_spelling(TokenModel::LessThan);
    crate::tokens::lemma_token_of_spelling(TokenModel::MoreThan);
    crate::tokens::lemma_token_of_spelling(TokenModel::Assign);
    assert(token_of(seq![c]) == rel);
    assert(token_of(seq!['=']) == TokenModel::Assign);
    assert(st1.out =~= seq![rel]);
    assert(st2.out =~= seq![rel, TokenModel::Assign]);
    assert(st2.buf.len() == 0);
    let out = finish_state(st2);
    assert(out =~= seq![rel, TokenModel::Assign, TokenModel::NewLine]);
    assert(out.skip(2) =~= seq![TokenModel::NewLine]);
    assert(seq![TokenModel::NewLine].skip(1) =~= Seq::<TokenModel>::empty());
    assert(merge_spec(seq![TokenModel::NewLine]) =~= seq![TokenModel::NewLine]);
    assert(merge_spec(out) =~= seq![or_equal(rel), TokenModel::NewLine]);
}

/// The assembly sentinel tokenizes to its own token and the trailing
/// line boundary.
proof fn lemma_tokenize_sentinel()
    ensures
        tokenize(seq!['@']) == seq![TokenModel::Assembly, TokenModel::NewLine],
{
    reveal_with_fuel(scan, 3);
    reveal_strlit("@");
    let s = seq!['@'];
    assert(normalize(s) =~= s);
    assert(seq!['@'] =~= "@"@);
    let st1 = tok_step(initial_state(), '@', None);
    assert(scan(s, 0, initial_state()) == st1);
    assert(st1.out =~= seq![TokenModel::Assembly]);
    assert(st1.buf.len() == 0);
    assert(finish_state(st1) =~= seq![TokenModel::Assembly, TokenModel::NewLine]);
    lemma_merge_two(TokenModel::Assembly);
}

/// One scan step does not depend on the lookahead beyond whether it
/// repeats the current character; a line feed ignores it entirely.
proof fn lemma_step_lookahead(st: ScanState, c: char, n1: Option<char>, n2: Option<char>)
    requires
        c == '\n' || ((n1 == Some(c)) <==> (n2 == Some(c))),
    ensures
        tok_step(st, c, n1) == tok_step(st, c, n2),
{
}

/// Appending a line feed to the text appends one scan step.
proof fn lemma_scan_push_newline(s: Seq<char>, i: int, st: ScanState)
    requires
        0 <= i <= s.len(),
    ensures
        scan(s.push('\n'), i, st) == tok_step(scan(s, i, st), '\n', None),
    decreases s.len() - i,
{
    let s2 = s.push('\n');
    if i == s.len() {
        assert(scan(s, i, st) == st);
        assert(s2[i] == '\n');
        assert(scan(s2, i, st) == scan(s2, i + 1, tok_step(st, '\n', None)));
        assert(scan(s2, i + 1, tok_step(st, '\n', None)) == tok_step(st, '\n', None));
    } else {
        let n1 = if i + 1 < s.len() {
            Some(s[i + 1])
        } else {
            None
        };
        let n2 = if i + 1 < s2.len() {
            Some(s2[i + 1])
        } else {
            None
        };
        assert(s2[i] == s[i]);
        if i + 1 == s.len() {
            assert(n2 == Some('\n'));
        }
        lemma_step_lookahead(st, s[i], n1, n2);
        lemma_scan_push_newline(s, i + 1, tok_step(st, s[i], n1));
    }
}

/// Whether a final line feed appended to the source text would be
/// absorbed: either the scan ends inside a line — something was
/// emitted or is pending since the last line boundary, so the line
/// feed only ends that line where the final flush would have — or it
/// ends inside an open string, which swallows the line feed and is
/// discarded either way. Only a text whose effective output already
/// ends on a `NewLine` token — one ending in a line feed, possibly
/// followed by nothing but spaces, tabs or a comment — falls outside:
/// there the appended line feed adds a real empty line.
pub open spec fn newline_absorbed(s: Seq<char>) -> bool {
    let st = scan(normalize(s), 0, initial_state());
    let out = flush_state(st).out;
    st.in_string || out.len() == 0 || out.last() != TokenModel::NewLine
}

/// Law (idempotent trailing newline): appending a final line feed to a
/// source text that would absorb it does not change the token stream;
/// the guaranteed trailing `NewLine` already accounts for it.
pub proof fn lemma_trailing_newline_idempotent(s: Seq<char>)
    requires
        newline_absorbed(s),
    ensures
        tokenize(s.push('\n')) == tokenize(s),
{
    assert(normalize(s.push('\n')) =~= normalize(s).push('\n'));
    lemma_scan_push_newline(normalize(s), 0, initial_state());
    let st = scan(normalize(s), 0, initial_state());
    let st2 = tok_step(st, '\n', None);
    if st.in_string {
        // the line feed is swallowed into the open string, which the
        // final flush discards either way
        assert(flush_state(st2).out == flush_state(st).out);
        assert(finish_state(st2) =~= finish_state(st));
    } else {
        // the line feed flushes the pending lexeme and emits the same
        // NewLine that the final guarantee would add
        assert(st2.out == flush_state(st).out.push(TokenModel::NewLine));
        assert(st2.buf.len() == 0);
        assert(flush_state(st2) == st2);
        assert(finish_state(st2) =~= finish_state(st));
    }
}

/// Merging keeps a trailing line boundary in place.
proof fn lemma_merge_keeps_last_newline(ts: Seq<TokenModel>)
    requires
        ts.len() > 0,
        ts.last() == TokenModel::NewLine,
    ensures
        merge_spec(ts).len() > 0,
        merge_spec(ts).last() == TokenModel::NewLine,
    decreases ts.len(),
{
    if ts.len() >= 2 && is_relational(ts[0]) && ts[1] == TokenModel::Assign {
        let rest = ts.skip(2);
        // the collapsed pair cannot reach the trailing NewLine: its
        // second token is an Assign
        assert(rest.len() > 0);
        assert(rest.last() == ts.last());
        lemma_merge_keeps_last_newline(rest);
        assert(merge_spec(ts).last() == merge_spec(rest).last());
    } else {
        let rest = ts.skip(1);
        if rest.len() == 0 {
            assert(merge_spec(rest) =~= Seq::<TokenModel>::empty());
            assert(merge_spec(ts) =~= seq![ts[0]]);
        } else {
            assert(rest.last() == ts.last());
            lemma_merge_keeps_last_newline(rest);
            assert(merge_spec(ts).last() == merge_spec(rest).last());
        }
    }
}

/// Invariant: the token stream of any source text is non-empty and
/// ends with a trailing `NewLine`, whether or not the source ended
/// with a line feed.
pub proof fn lemma_tokenize_ends_with_newline(s: Seq<char>)
    ensures
        tokenize(s).len() > 0,
        tokenize(s).last() == TokenModel::NewLine,
{
    let out = finish_state(scan(normalize(s), 0, initial_state()));
    assert(out.len() > 0 && out.last() == TokenModel::NewLine);
    lemma_merge_keeps_last_newline(out);
}

/// Law (round-trip): tokenizing the spelling of any token with a
/// non-empty fixed spelling yields exactly that token followed by the
/// trailing `NewLine`. The three exceptions are left out by the
/// preconditions: the comment marker opens a comment and is discarded,
/// the string quote opens a string that never closes, and the line
/// feed is itself the line boundary, so no second one is appended.
#[verifier::rlimit(60)]
pub proof fn lemma_spelling_round_trip(t: TokenModel)
    requires
        !(t is Other),
        t != TokenModel::Absent,
        t != TokenModel::NewLine,
        t != TokenModel::Comment,
        t != TokenModel::StringDot,
    ensures
        tokenize(spelling(t)) == seq![t, TokenModel::NewLine],
{
    reveal_strlit("@");
    reveal_strlit("=");
    reveal_strlit("{");
    reveal_strlit("}");
    reveal_strlit(",");
    reveal_strlit("//");
    reveal_strlit("else");
    reveal_strlit("if");
    reveal_strlit("/");
    reveal_strlit("==");
    reveal_strlit("exit");
    reveal_strlit("fun");
    reveal_strlit("<");
    reveal_strlit("<=");
    reveal_strlit("loop");
    reveal_strlit("break");
    reveal_strlit("continue");
    reveal_strlit("-");
    reveal_strlit(">");
    reveal_strlit(">=");
    reveal_strlit("*");
    reveal_strlit("(");
    reveal_strlit(")");
    reveal_strlit(".");
    reveal_strlit("+");
    reveal_strlit("print");
    reveal_strlit("ret");
    reveal_strlit(";");
    reveal_strlit("[");
    reveal_strlit("]");
    reveal_strlit("static");
    reveal_strlit("'");
    reveal_strlit(":");
    reveal_strlit("let");
    reveal_strlit("\n");
    crate::tokens::lemma_token_of_spelling(t);
    let s = spelling(t);
    match t {
        TokenModel::Assembly => {
            assert(s =~= seq!['@']);
            lemma_tokenize_sentinel();
        },
        TokenModel::Assign => {
            assert(s =~= seq!['=']);
            lemma_tokenize_single('=');
            assert(token_of(seq!['=']) == t);
        },
        TokenModel::BracketOpen => {
            assert(s =~= seq!['{']);
            lemma_tokenize_single('{');
            assert(token_of(seq!['{']) == t);
        },
        TokenModel::BracketClose => {
            assert(s =~= seq!['}']);
            lemma_tokenize_single('}');
            assert(token_of(seq!['}']) == t);
        },
        TokenModel::Comma => {
            assert(s =~= seq![',']);
            lemma_tokenize_single(',');
            assert(token_of(seq![',']) == t);
        },
        TokenModel::ConditionElse => {
            assert(forall|j: int| 0 <= j < s.len() ==> word_char(#[trigger] s[j]));
            lemma_tokenize_word(s);
            assert(token_of(s) == t);
        },
        TokenModel::ConditionIf => {
            assert(forall|j: int| 0 <= j < s.len() ==> word_char(#[trigger] s[j]));
            lemma_tokenize_word(s);
            assert(token_of(s) == t);
        },
        TokenModel::Divide => {
            assert(s =~= seq!['/']);
            lemma_tokenize_single('/');
            assert(token_of(seq!['/']) == t);
        },
        TokenModel::Equal => {
            assert(s =~= seq!['=', '=']);
            assert(token_of(seq!['=', '=']) == t);
            lemma_tokenize_double('=');
        },
        TokenModel::Exit => {
            assert(forall|j: int| 0 <= j < s.len() ==> word_char(#[trigger] s[j]));
            lemma_tokenize_word(s);
            assert(token_of(s) == t);
        },
        TokenModel::Function => {
            assert(forall|j: int| 0 <= j < s.len() ==> word_char(#[trigger] s[j]));
            lemma_tokenize_word(s);
            assert(token_of(s) == t);
        },
        TokenModel::LessThan => {
            assert(s =~= seq!['<']);
            lemma_tokenize_single('<');
            assert(token_of(seq!['<']) == t);
        },
        TokenModel::LessThanOrEqual => {
            assert(s =~= seq!['<', '=']);
            lemma_tokenize_rel_assign('<');
        },
        TokenModel::Loop => {
            assert(forall|j: int| 0 <= j < s.len() ==> word_char(#[trigger] s[j]));
            lemma_tokenize_word(s);
            assert(token_of(s) == t);
        },
        TokenModel::LoopBreak => {
            assert(forall|j: int| 0 <= j < s.len() ==> word_char(#[trigger] s[j]));
            lemma_tokenize_word(s);
            assert(token_of(s) == t);
        },
        TokenModel::LoopContinue => {
            assert(forall|j: int| 0 <= j < s.len() ==> word_char(#[trigger] s[j]));
            lemma_tokenize_word(s);
            assert(token_of(s) == t);
        },
        TokenModel::Minus => {
            assert(s =~= seq!['-']);
            lemma_tokenize_single('-');
            assert(token_of(seq!['-']) == t);
        },
        TokenModel::MoreThan => {
            assert(s =~= seq!['>']);
            lemma_tokenize_single('>');
            assert(token_of(seq!['>']) == t);
        },
        TokenModel::MoreThanOrEqual => {
            assert(s =~= seq!['>', '=']);
            lemma_tokenize_rel_assign('>');
        },
        TokenModel::Multiply => {
            assert(s =~= seq!['*']);
            lemma_tokenize_single('*');
            assert(token_of(seq!['*']) == t);
        },
        TokenModel::ParenOpen => {
            assert(s =~= seq!['(']);
            lemma_tokenize_single('(');
            assert(token_of(seq!['(']) == t);
        },
        TokenModel::ParenClose => {
            assert(s =~= seq![')']);
            lemma_tokenize_single(')');
            assert(token_of(seq![')']) == t);
        },
        TokenModel::Point => {
            assert(s =~= seq!['.']);
            lemma_tokenize_single('.');
            assert(token_of(seq!['.']) == t);
        },
        TokenModel::Plus => {
            assert(s =~= seq!['+']);
            lemma_tokenize_single('+');
            assert(token_of(seq!['+']) == t);
        },
        TokenModel::Print => {
            assert(forall|j: int| 0 <= j < s.len() ==> word_char(#[trigger] s[j]));
            lemma_tokenize_word(s);
            assert(token_of(s) == t);
        },
        TokenModel::Return => {
            assert(forall|j: int| 0 <= j < s.len() ==> word_char(#[trigger] s[j]));
            lemma_tokenize_word(s);
            assert(token_of(s) == t);
        },
        TokenModel::SemiColon => {
            assert(s =~= seq![';']);
            lemma_tokenize_single(';');
            assert(token_of(seq![';']) == t);
        },
        TokenModel::SquareBracketOpen => {
            assert(s =~= seq!['[']);
            lemma_tokenize_single('[');
            assert(token_of(seq!['[']) == t);
        },
        TokenModel::SquareBracketClose => {
            assert(s =~= seq![']']);
            lemma_tokenize_single(']');
            assert(token_of(seq![']']) == t);
        },
        TokenModel::Static => {
            assert(forall|j: int| 0 <= j < s.len() ==> word_char(#[trigger] s[j]));
            lemma_tokenize_word(s);
            assert(token_of(s) == t);
        },
        TokenModel::TypeDef => {
            assert(s =~= seq![':']);
            lemma_tokenize_single(':');
            assert(token_of(seq![':']) == t);
        },
        TokenModel::Variable => {
            assert(forall|j: int| 0 <= j < s.len() ==> word_char(#[trigger] s[j]));
            lemma_tokenize_word(s);
            assert(token_of(s) == t);
        },
        _ => {},
    }
}

} // verus!
