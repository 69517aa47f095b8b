//! The lexical atoms of the Junon language.
//!
//! A [`Token`] is either a fixed-spelling token (keywords, punctuation,
//! binary operators), an open `Other` token carrying an arbitrary spelling
//! (identifiers, literals, quoted strings, raw assembly text), the
//! `NewLine` sentinel that marks a line boundary, or the `Absent` sentinel
//! that stands for an absent value.

use vstd::prelude::*;

verus! {

/// Mathematical model of a [`Token`]: the same tagged union with the open
/// spelling carried as a sequence of characters.
#[verifier::ext_equal]
pub enum TokenModel {
    Assembly,
    Assign,
    BracketOpen,
    BracketClose,
    Comma,
    Comment,
    ConditionElse,
    ConditionIf,
    Divide,
    Equal,
    Exit,
    Function,
    LessThan,
    LessThanOrEqual,
    Loop,
    LoopBreak,
    LoopContinue,
    Minus,
    MoreThan,
    MoreThanOrEqual,
    Multiply,
    ParenOpen,
    ParenClose,
    Point,
    Plus,
    Print,
    Return,
    SemiColon,
    SquareBracketOpen,
    SquareBracketClose,
    Static,
    StringDot,
    TypeDef,
    Variable,
    Other(Seq<char>),
    NewLine,
    Absent,
}

/// All tokens of the Junon language.
#[derive(Debug)]
pub enum Token {
    Assembly,
    Assign,
    BracketOpen,
    BracketClose,
    Comma,
    Comment,
    ConditionElse,
    ConditionIf,
    Divide,
    Equal,
    Exit,
    Function,
    LessThan,
    LessThanOrEqual,
    Loop,
    LoopBreak,
    LoopContinue,
    Minus,
    MoreThan,
    MoreThanOrEqual,
    Multiply,
    ParenOpen,
    ParenClose,
    Point,
    Plus,
    Print,
    Return,
    SemiColon,
    SquareBracketOpen,
    SquareBracketClose,
    Static,
    StringDot,
    TypeDef,
    Variable,
    /// Anything that is not a fixed spelling: identifiers, number and
    /// string literals, raw assembly text.
    Other(String),
    /// Marks a line boundary; the tokenizer guarantees a trailing one.
    NewLine,
    /// Stands for an absent value, so that no optional type is needed.
    Absent,
}

impl View for Token {
    type V = TokenModel;

    open spec fn view(&self) -> TokenModel {
        match self {
            Token::Assembly => TokenModel::Assembly,
            Token::Assign => TokenModel::Assign,
            Token::BracketOpen => TokenModel::BracketOpen,
            Token::BracketClose => TokenModel::BracketClose,
            Token::Comma => TokenModel::Comma,
            Token::Comment => TokenModel::Comment,
            Token::ConditionElse => TokenModel::ConditionElse,
            Token::ConditionIf => TokenModel::ConditionIf,
            Token::Divide => TokenModel::Divide,
            Token::Equal => TokenModel::Equal,
            Token::Exit => TokenModel::Exit,
            Token::Function => TokenModel::Function,
            Token::LessThan => TokenModel::LessThan,
            Token::LessThanOrEqual => TokenModel::LessThanOrEqual,
            Token::Loop => TokenModel::Loop,
            Token::LoopBreak => TokenModel::LoopBreak,
            Token::LoopContinue => TokenModel::LoopContinue,
            Token::Minus => TokenModel::Minus,
            Token::MoreThan => TokenModel::MoreThan,
            Token::MoreThanOrEqual => TokenModel::MoreThanOrEqual,
            Token::Multiply => TokenModel::Multiply,
            Token::ParenOpen => TokenModel::ParenOpen,
            Token::ParenClose => TokenModel::ParenClose,
            Token::Point => TokenModel::Point,
            Token::Plus => TokenModel::Plus,
            Token::Print => TokenModel::Print,
            Token::Return => TokenModel::Return,
            Token::SemiColon => TokenModel::SemiColon,
            Token::SquareBracketOpen => TokenModel::SquareBracketOpen,
            Token::SquareBracketClose => TokenModel::SquareBracketClose,
            Token::Static => TokenModel::Static,
            Token::StringDot => TokenModel::StringDot,
            Token::TypeDef => TokenModel::TypeDef,
            Token::Variable => TokenModel::Variable,
            Token::Other(s) => TokenModel::Other(s@),
            Token::NewLine => TokenModel::NewLine,
            Token::Absent => TokenModel::Absent,
        }
    }
}

impl DeepView for Token {
    type V = TokenModel;

    open spec fn deep_view(&self) -> TokenModel {
        self.view()
    }
}

/// The fixed spelling of a token. `Other` tokens carry their own spelling,
/// `NewLine` spells as a line feed, and `Absent` has the empty spelling.
pub open spec fn spelling(t: TokenModel) -> Seq<char> {
    match t {
        TokenModel::Assembly => "@"@,
        TokenModel::Assign => "="@,
        TokenModel::BracketOpen => "{"@,
        TokenModel::BracketClose => "}"@,
        TokenModel::Comma => ","@,
        TokenModel::Comment => "//"@,
        TokenModel::ConditionElse => "else"@,
        TokenModel::ConditionIf => "if"@,
        TokenModel::Divide => "/"@,
        TokenModel::Equal => "=="@,
        TokenModel::Exit => "exit"@,
        TokenModel::Function => "fun"@,
        TokenModel::LessThan => "<"@,
        TokenModel::LessThanOrEqual => "<="@,
        TokenModel::Loop => "loop"@,
        TokenModel::LoopBreak => "break"@,
        TokenModel::LoopContinue => "continue"@,
        TokenModel::Minus => "-"@,
        TokenModel::MoreThan => ">"@,
        TokenModel::MoreThanOrEqual => ">="@,
        TokenModel::Multiply => "*"@,
        TokenModel::ParenOpen => "("@,
        TokenModel::ParenClose => ")"@,
        TokenModel::Point => "."@,
        TokenModel::Plus => "+"@,
        TokenModel::Print => "print"@,
        TokenModel::Return => "ret"@,
        TokenModel::SemiColon => ";"@,
        TokenModel::SquareBracketOpen => "["@,
        TokenModel::SquareBracketClose => "]"@,
        TokenModel::Static => "static"@,
        TokenModel::StringDot => "'"@,
        TokenModel::TypeDef => ":"@,
        TokenModel::Variable => "let"@,
        TokenModel::Other(s) => s,
        TokenModel::NewLine => "\n"@,
        TokenModel::Absent => ""@,
    }
}

/// The token a spelling denotes: each fixed spelling maps to its token,
/// a line feed to `NewLine`, and any other text to `Other`.
pub open spec fn token_of(s: Seq<char>) -> TokenModel {
    if s == "@"@ {
        TokenModel::Assembly
    } else if s == "="@ {
        TokenModel::Assign
    } else if s == "{"@ {
        TokenModel::BracketOpen
    } else if s == "}"@ {
        TokenModel::BracketClose
    } else if s == ","@ {
        TokenModel::Comma
    } else if s == "//"@ {
        TokenModel::Comment
    } else if s == "else"@ {
        TokenModel::ConditionElse
    } else if s == "if"@ {
        TokenModel::ConditionIf
    } else if s == "/"@ {
        TokenModel::Divide
    } else if s == "=="@ {
        TokenModel::Equal
    } else if s == "exit"@ {
        TokenModel::Exit
    } else if s == "fun"@ {
        TokenModel::Function
    } else if s == "<"@ {
        TokenModel::LessThan
    } else if s == "<="@ {
        TokenModel::LessThanOrEqual
    } else if s == "loop"@ {
        TokenModel::Loop
    } else if s == "break"@ {
        TokenModel::LoopBreak
    } else if s == "continue"@ {
        TokenModel::LoopContinue
    } else if s == "-"@ {
        TokenModel::Minus
    } else if s == ">"@ {
        TokenModel::MoreThan
    } else if s == ">="@ {
        TokenModel::MoreThanOrEqual
    } else if s == "*"@ {
        TokenModel::Multiply
    } else if s == "("@ {
        TokenModel::ParenOpen
    } else if s == ")"@ {
        TokenModel::ParenClose
    } else if s == "."@ {
        TokenModel::Point
    } else if s == "+"@ {
        TokenModel::Plus
    } else if s == "print"@ {
        TokenModel::Print
    } else if s == "ret"@ {
        TokenModel::Return
    } else if s == ";"@ {
        TokenModel::SemiColon
    } else if s == "["@ {
        TokenModel::SquareBracketOpen
    } else if s == "]"@ {
        TokenModel::SquareBracketClose
    } else if s == "static"@ {
        TokenModel::Static
    } else if s == "'"@ {
        TokenModel::StringDot
    } else if s == ":"@ {
        TokenModel::TypeDef
    } else if s == "let"@ {
        TokenModel::Variable
    } else if s == "\n"@ {
        TokenModel::NewLine
    } else {
        TokenModel::Other(s)
    }
}

/// Equality of two string slices, decided through owned strings.
fn str_eq_str(a: &str, b: &str) -> (r: bool)
    ensures
        r == (a@ == b@),
{
    let sa = a.to_owned();
    let sb = b.to_owned();
    sa == sb
}

impl Clone for Token {
    fn clone(&self) -> (r: Self)
        ensures
            r == *self,
    {
        match self {
            Token::Assembly => Token::Assembly,
            Token::Assign => Token::Assign,
            Token::BracketOpen => Token::BracketOpen,
            Token::BracketClose => Token::BracketClose,
            Token::Comma => Token::Comma,
            Token::Comment => Token::Comment,
            Token::ConditionElse => Token::ConditionElse,
            Token::ConditionIf => Token::ConditionIf,
            Token::Divide => Token::Divide,
            Token::Equal => Token::Equal,
            Token::Exit => Token::Exit,
            Token::Function => Token::Function,
            Token::LessThan => Token::LessThan,
            Token::LessThanOrEqual => Token::LessThanOrEqual,
            Token::Loop => Token::Loop,
            Token::LoopBreak => Token::LoopBreak,
            Token::LoopContinue => Token::LoopContinue,
            Token::Minus => Token::Minus,
            Token::MoreThan => Token::MoreThan,
            Token::MoreThanOrEqual => Token::MoreThanOrEqual,
            Token::Multiply => Token::Multiply,
            Token::ParenOpen => Token::ParenOpen,
            Token::ParenClose => Token::ParenClose,
            Token::Point => Token::Point,
            Token::Plus => Token::Plus,
            Token::Print => Token::Print,
            Token::Return => Token::Return,
            Token::SemiColon => Token::SemiColon,
            Token::SquareBracketOpen => Token::SquareBracketOpen,
            Token::SquareBracketClose => Token::SquareBracketClose,
            Token::Static => Token::Static,
            Token::StringDot => Token::StringDot,
            Token::TypeDef => Token::TypeDef,
            Token::Variable => Token::Variable,
            Token::Other(s) => Token::Other(s.clone()),
            Token::NewLine => Token::NewLine,
            Token::Absent => Token::Absent,
        }
    }
}

impl PartialEq for Token {
    fn eq(&self, other: &Token) -> (r: bool) {
        match (self, other) {
            (Token::Assembly, Token::Assembly) => true,
            (Token::Assign, Token::Assign) => true,
            (Token::BracketOpen, Token::BracketOpen) => true,
            (Token::BracketClose, Token::BracketClose) => true,
            (Token::Comma, Token::Comma) => true,
            (Token::Comment, Token::Comment) => true,
            (Token::ConditionElse, Token::ConditionElse) => true,
            (Token::ConditionIf, Token::ConditionIf) => true,
            (Token::Divide, Token::Divide) => true,
            (Token::Equal, Token::Equal) => true,
            (Token::Exit, Token::Exit) => true,
            (Token::Function, Token::Function) => true,
            (Token::LessThan, Token::LessThan) => true,
            (Token::LessThanOrEqual, Token::LessThanOrEqual) => true,
            (Token::Loop, Token::Loop) => true,
            (Token::LoopBreak, Token::LoopBreak) => true,
            (Token::LoopContinue, Token::LoopContinue) => true,
            (Token::Minus, Token::Minus) => true,
            (Token::MoreThan, Token::MoreThan) => true,
            (Token::MoreThanOrEqual, Token::MoreThanOrEqual) => true,
            (Token::Multiply, Token::Multiply) => true,
            (Token::ParenOpen, Token::ParenOpen) => true,
            (Token::ParenClose, Token::ParenClose) => true,
            (Token::Point, Token::Point) => true,
            (Token::Plus, Token::Plus) => true,
            (Token::Print, Token::Print) => true,
            (Token::Return, Token::Return) => true,
            (Token::SemiColon, Token::SemiColon) => true,
            (Token::SquareBracketOpen, Token::SquareBracketOpen) => true,
            (Token::SquareBracketClose, Token::SquareBracketClose) => true,
            (Token::Static, Token::Static) => true,
            (Token::StringDot, Token::StringDot) => true,
            (Token::TypeDef, Token::TypeDef) => true,
            (Token::Variable, Token::Variable) => true,
            (Token::Other(s), Token::Other(o)) => s.eq(o),
            (Token::NewLine, Token::NewLine) => true,
            (Token::Absent, Token::Absent) => true,
            _ => false,
        }
    }
}

impl vstd::std_specs::cmp::PartialEqSpecImpl for Token {
    open spec fn obeys_eq_spec() -> bool {
        true
    }

    open spec fn eq_spec(&self, other: &Token) -> bool {
        self@ == other@
    }
}

impl Token {
    /// The spelling of this token, as a fresh string.
    pub fn to_string(&self) -> (r: String)
        ensures
            r@ == spelling(self@),
    {
        match self {
            Token::Assembly => "@".to_owned(),
            Token::Assign => "=".to_owned(),
            Token::BracketOpen => "{".to_owned(),
            Token::BracketClose => "}".to_owned(),
            Token::Comma => ",".to_owned(),
            Token::Comment => "//".to_owned(),
            Token::ConditionElse => "else".to_owned(),
            Token::ConditionIf => "if".to_owned(),
            Token::Divide => "/".to_owned(),
            Token::Equal => "==".to_owned(),
            Token::Exit => "exit".to_owned(),
            Token::Function => "fun".to_owned(),
            Token::LessThan => "<".to_owned(),
            Token::LessThanOrEqual => "<=".to_owned(),
            Token::Loop => "loop".to_owned(),
            Token::LoopBreak => "break".to_owned(),
            Token::LoopContinue => "continue".to_owned(),
            Token::Minus => "-".to_owned(),
            Token::MoreThan => ">".to_owned(),
            Token::MoreThanOrEqual => ">=".to_owned(),
            Token::Multiply => "*".to_owned(),
            Token::ParenOpen => "(".to_owned(),
            Token::ParenClose => ")".to_owned(),
            Token::Point => ".".to_owned(),
            Token::Plus => "+".to_owned(),
            Token::Print => "print".to_owned(),
            Token::Return => "ret".to_owned(),
            Token::SemiColon => ";".to_owned(),
            Token::SquareBracketOpen => "[".to_owned(),
            Token::SquareBracketClose => "]".to_owned(),
            Token::Static => "static".to_owned(),
            Token::StringDot => "'".to_owned(),
            Token::TypeDef => ":".to_owned(),
            Token::Variable => "let".to_owned(),
            Token::Other(s) => s.clone(),
            Token::NewLine => "\n".to_owned(),
            Token::Absent => "".to_owned(),
        }
    }

    /// Converts a spelling into a `Token`. A spelling that matches no
    /// fixed token becomes a `Token::Other` wrapping the text.
    pub fn token_from_str(string: &str) -> (t: Self)
        ensures
            t@ == token_of(string@),
    {
        if str_eq_str(string, "@") {
            Token::Assembly
        } else if str_eq_str(string, "=") {
            Token::Assign
        } else if str_eq_str(string, "{") {
            Token::BracketOpen
        } else if str_eq_str(string, "}") {
            Token::BracketClose
        } else if str_eq_str(string, ",") {
            Token::Comma
        } else if str_eq_str(string, "//") {
            Token::Comment
        } else if str_eq_str(string, "else") {
            Token::ConditionElse
        } else if str_eq_str(string, "if") {
            Token::ConditionIf
        } else if str_eq_str(string, "/") {
            Token::Divide
        } else if str_eq_str(string, "==") {
            Token::Equal
        } else if str_eq_str(string, "exit") {
            Token::Exit
        } else if str_eq_str(string, "fun") {
            Token::Function
        } else if str_eq_str(string, "<") {
            Token::LessThan
        } else if str_eq_str(string, "<=") {
            Token::LessThanOrEqual
        } else if str_eq_str(string, "loop") {
            Token::Loop
        } else if str_eq_str(string, "break") {
            Token::LoopBreak
        } else if str_eq_str(string, "continue") {
            Token::LoopContinue
        } else if str_eq_str(string, "-") {
            Token::Minus
        } else if str_eq_str(string, ">") {
            Token::MoreThan
        } else if str_eq_str(string, ">=") {
            Token::MoreThanOrEqual
        } else if str_eq_str(string, "*") {
            Token::Multiply
        } else if str_eq_str(string, "(") {
            Token::ParenOpen
        } else if str_eq_str(string, ")") {
            Token::ParenClose
        } else if str_eq_str(string, ".") {
            Token::Point
        } else if str_eq_str(string, "+") {
            Token::Plus
        } else if str_eq_str(string, "print") {
            Token::Print
        } else if str_eq_str(string, "ret") {
            Token::Return
        } else if str_eq_str(string, ";") {
            Token::SemiColon
        } else if str_eq_str(string, "[") {
            Token::SquareBracketOpen
        } else if str_eq_str(string, "]") {
            Token::SquareBracketClose
        } else if str_eq_str(string, "static") {
            Token::Static
        } else if str_eq_str(string, "'") {
            Token::StringDot
        } else if str_eq_str(string, ":") {
            Token::TypeDef
        } else if str_eq_str(string, "let") {
            Token::Variable
        } else if str_eq_str(string, "\n") {
            Token::NewLine
        } else {
            Token::Other(string.to_owned())
        }
    }

    /// Same conversion as [`Token::token_from_str`].
    pub fn from_string(string: &str) -> (t: Self)
        ensures
            t@ == token_of(string@),
    {
        Self::token_from_str(string)
    }
}

/// Every fixed spelling maps back to its own token.
#[verifier::rlimit(100)]
pub proof fn lemma_token_of_spelling(t: TokenModel)
    requires
        !(t is Other),
        t != TokenModel::Absent,
    ensures
        token_of(spelling(t)) == t,
{
    reveal_strlit("@");
    reveal_strlit("=");
    reveal_strlit("{");
    reveal_strlit("}");
    reveal_strlit(",");
    reveal_strlit("//");
    reveal_strlit("else");
    reveal_strlit("if");
    reveal_strlit("/");
    reveal_strlit("==");
    reveal_strlit("exit");
    reveal_strlit("fun");
    reveal_strlit("<");
    reveal_strlit("<=");
    reveal_strlit("loop");
    reveal_strlit("break");
    reveal_strlit("continue");
    reveal_strlit("-");
    reveal_strlit(">");
    reveal_strlit(">=");
    reveal_strlit("*");
    reveal_strlit("(");
    reveal_strlit(")");
    reveal_strlit(".");
    reveal_strlit("+");
    reveal_strlit("print");
    reveal_strlit("ret");
    reveal_strlit(";");
    reveal_strlit("[");
    reveal_strlit("]");
    reveal_strlit("static");
    reveal_strlit("'");
    reveal_strlit(":");
    reveal_strlit("let");
    reveal_strlit("\n");
    assert("@"@.len() == 1);
    assert("@"@[0] == '@');
    assert("="@.len() == 1);
    assert("="@[0] == '=');
    assert("{"@.len() == 1);
    assert("{"@[0] == '{');
    assert("}"@.len() == 1);
    assert("}"@[0] == '}');
    assert(","@.len() == 1);
    assert(","@[0] == ',');
    assert("//"@.len() == 2);
    assert("//"@[0] == '/');
    assert("//"@[1] == '/');
    assert("else"@.len() == 4);
    assert("else"@[0] == 'e');
    assert("else"@[1] == 'l');
    assert("else"@[2] == 's');
    assert("else"@[3] == 'e');
    assert("if"@.len() == 2);
    assert("if"@[0] == 'i');
    assert("if"@[1] == 'f');
    assert("/"@.len() == 1);
    assert("/"@[0] == '/');
    assert("=="@.len() == 2);
    assert("=="@[0] == '=');
    assert("=="@[1] == '=');
    assert("exit"@.len() == 4);
    assert("exit"@[0] == 'e');
    assert("exit"@[1] == 'x');
    assert("exit"@[2] == 'i');
    assert("exit"@[3] == 't');
    assert("fun"@.len() == 3);
    assert("fun"@[0] == 'f');
    assert("fun"@[1] == 'u');
    assert("fun"@[2] == 'n');
    assert("<"@.len() == 1);
    assert("<"@[0] == '<');
    assert("<="@.len() == 2);
    assert("<="@[0] == '<');
    assert("<="@[1] == '=');
    assert("loop"@.len() == 4);
    assert("loop"@[0] == 'l');
    assert("loop"@[1] == 'o');
    assert("loop"@[2] == 'o');
    assert("loop"@[3] == 'p');
    assert("break"@.len() == 5);
    assert("break"@[0] == 'b');
    assert("break"@[1] == 'r');
    assert("break"@[2] == 'e');
    assert("break"@[3] == 'a');
    assert("break"@[4] == 'k');
    assert("continue"@.len() == 8);
    assert("continue"@[0] == 'c');
    assert("continue"@[1] == 'o');
    assert("continue"@[2] == 'n');
    assert("continue"@[3] == 't');
    assert("continue"@[4] == 'i');
    assert("continue"@[5] == 'n');
    assert("continue"@[6] == 'u');
    assert("continue"@[7] == 'e');
    assert("-"@.len() == 1);
    assert("-"@[0] == '-');
    assert(">"@.len() == 1);
    assert(">"@[0] == '>');
    assert(">="@.len() == 2);
    assert(">="@[0] == '>');
    assert(">="@[1] == '=');
    assert("*"@.len() == 1);
    assert("*"@[0] == '*');
    assert("("@.len() == 1);
    assert("("@[0] == '(');
    assert(")"@.len() == 1);
    assert(")"@[0] == ')');
    assert("."@.len() == 1);
    assert("."@[0] == '.');
    assert("+"@.len() == 1);
    assert("+"@[0] == '+');
    assert("print"@.len() == 5);
    assert("print"@[0] == 'p');
    assert("print"@[1] == 'r');
    assert("print"@[2] == 'i');
    assert("print"@[3] == 'n');
    assert("print"@[4] == 't');
    assert("ret"@.len() == 3);
    assert("ret"@[0] == 'r');
    assert("ret"@[1] == 'e');
    assert("ret"@[2] == 't');
    assert(";"@.len() == 1);
    assert(";"@[0] == ';');
    assert("["@.len() == 1);
    assert("["@[0] == '[');
    assert("]"@.len() == 1);
    assert("]"@[0] == ']');
    assert("static"@.len() == 6);
    assert("static"@[0] == 's');
    assert("static"@[1] == 't');
    assert("static"@[2] == 'a');
    assert("static"@[3] == 't');
    assert("static"@[4] == 'i');
    assert("static"@[5] == 'c');
    assert("'"@.len() == 1);
    assert("'"@[0] == '\'');
    assert(":"@.len() == 1);
    assert(":"@[0] == ':');
    assert("let"@.len() == 3);
    assert("let"@[0] == 'l');
    assert("let"@[1] == 'e');
    assert("let"@[2] == 't');
    assert("\n"@.len() == 1);
    assert("\n"@[0] == '\n');
    match t {
        TokenModel::Assembly => {
            assert(token_of("@"@) == TokenModel::Assembly);
        },
        TokenModel::Assign => {
            assert(token_of("="@) == TokenModel::Assign);
        },
        TokenModel::BracketOpen => {
            assert(token_of("{"@) == TokenModel::BracketOpen);
        },
        TokenModel::BracketClose => {
            assert(token_of("}"@) == TokenModel::BracketClose);
        },
        TokenModel::Comma => {
            assert(token_of(","@) == TokenModel::Comma);
        },
        TokenModel::Comment => {
            assert(token_of("//"@) == TokenModel::Comment);
        },
        TokenModel::ConditionElse => {
            assert(token_of("else"@) == TokenModel::ConditionElse);
        },
        TokenModel::ConditionIf => {
            assert(token_of("if"@) == TokenModel::ConditionIf);
        },
        TokenModel::Divide => {
            assert(token_of("/"@) == TokenModel::Divide);
        },
        TokenModel::Equal => {
            assert(token_of("=="@) == TokenModel::Equal);
        },
        TokenModel::Exit => {
            assert(token_of("exit"@) == TokenModel::Exit);
        },
        TokenModel::Function => {
            assert(token_of("fun"@) == TokenModel::Function);
        },
        TokenModel::LessThan => {
            assert(token_of("<"@) == TokenModel::LessThan);
        },
        TokenModel::LessThanOrEqual => {
            assert(token_of("<="@) == TokenModel::LessThanOrEqual);
        },
        TokenModel::Loop => {
            assert(token_of("loop"@) == TokenModel::Loop);
        },
        TokenModel::LoopBreak => {
            assert(token_of("break"@) == TokenModel::LoopBreak);
        },
        TokenModel::LoopContinue => {
            assert(token_of("continue"@) == TokenModel::LoopContinue);
        },
        TokenModel::Minus => {
            assert(token_of("-"@) == TokenModel::Minus);
        },
        TokenModel::MoreThan => {
            assert(token_of(">"@) == TokenModel::MoreThan);
        },
        TokenModel::MoreThanOrEqual => {
            assert(token_of(">="@) == TokenModel::MoreThanOrEqual);
        },
        TokenModel::Multiply => {
            assert(token_of("*"@) == TokenModel::Multiply);
        },
        TokenModel::ParenOpen => {
            assert(token_of("("@) == TokenModel::ParenOpen);
        },
        TokenModel::ParenClose => {
            assert(token_of(")"@) == TokenModel::ParenClose);
        },
        TokenModel::Point => {
            assert(token_of("."@) == TokenModel::Point);
        },
        TokenModel::Plus => {
            assert(token_of("+"@) == TokenModel::Plus);
        },
        TokenModel::Print => {
            assert(token_of("print"@) == TokenModel::Print);
        },
        TokenModel::Return => {
            assert(token_of("ret"@) == TokenModel::Return);
        },
        TokenModel::SemiColon => {
            assert(token_of(";"@) == TokenModel::SemiColon);
        },
        TokenModel::SquareBracketOpen => {
            assert(token_of("["@) == TokenModel::SquareBracketOpen);
        },
        TokenModel::SquareBracketClose => {
            assert(token_of("]"@) == TokenModel::SquareBracketClose);
        },
        TokenModel::Static => {
            assert(token_of("static"@) == TokenModel::Static);
        },
        TokenModel::StringDot => {
            assert(token_of("'"@) == TokenModel::StringDot);
        },
        TokenModel::TypeDef => {
            assert(token_of(":"@) == TokenModel::TypeDef);
        },
        TokenModel::Variable => {
            assert(token_of("let"@) == TokenModel::Variable);
        },
        _ => {},
    }
}

} // verus!