//! Lexical analysis: token data model, the fixed keyword and symbol tables,
//! and a verified longest-match lexer.
//!
//! The lexer is specified by a mathematical scanner over the character
//! sequence of the input; the executable tokenizer is proved to return
//! exactly what the scanner does.  Token spans cover the input with no gaps
//! or overlaps.

use vstd::prelude::*;
use vstd::string::StrSliceExecFns;

verus! {

/// The smallest lexical unit: identifiers, reserved words, punctuation,
/// string literals, bare literal text, and single control characters.
#[derive(Debug, Clone, PartialEq)]
pub enum Token {
    Identifier(String),
    Keyword(Keyword),
    Symbol(Symbol),
    Text(String),
    FString(String),
    LineBreak,
    Space,
    IncrementIdent,
    CarriageReturn,
    Slash,
    IdentationTab,
}

/// The closed set of reserved words.
#[derive(Debug, Clone, Copy, PartialEq, Eq, Structural)]
pub enum Keyword {
    False,
    NoneLit,
    True,
    And,
    As,
    Assert,
    Break,
    Class,
    Continue,
    Def,
    Del,
    Elif,
    Else,
    Except,
    Finally,
    For,
    From,
    Global,
    If,
    Import,
    In,
    Is,
    Lambda,
    Nonlocal,
    Not,
    Or,
    Pass,
    Raise,
    Return,
    Try,
    While,
    With,
    Yield,
}

/// The closed set of punctuation and operator symbols.
#[derive(Debug, Clone, Copy, PartialEq, Eq, Structural)]
pub enum Symbol {
    LeftParen,
    RightParen,
    LeftBracket,
    RightBracket,
    LeftCurlyBrace,
    RightCurlyBrace,
    Comma,
    Dot,
    Colon,
    SemiColon,
    Assign,
    Plus,
    Minus,
    Multiply,
    Divide,
    Modulo,
    Exponent,
    LessThan,
    GreaterThan,
    LessThanOrEqual,
    GreaterThanOrEqual,
    Equal,
    NotEqual,
    Increment,
    Decrement,
    LogicalAnd,
    LogicalOr,
    BitwiseAnd,
    BitwiseOr,
    BitwiseXor,
    BitwiseNot,
    ShiftLeft,
    ShiftRight,
    SingleQuote,
    DoubleQuote,
    SendMessage,
    HashTag,
    Dollar,
    AtSign,
    InterrogationMark,
    Crasis,
    UnderLine,
}

/// Model of a `Token`: text payloads as character sequences.
pub enum TokenV {
    Identifier(Seq<char>),
    Keyword(Keyword),
    Symbol(Symbol),
    Text(Seq<char>),
    FString(Seq<char>),
    LineBreak,
    Space,
    IncrementIdent,
    CarriageReturn,
    Slash,
    IdentationTab,
}

pub open spec fn token_view(t: Token) -> TokenV {
    match t {
        Token::Identifier(s) => TokenV::Identifier(s@),
        Token::Keyword(k) => TokenV::Keyword(k),
        Token::Symbol(s) => TokenV::Symbol(s),
        Token::Text(s) => TokenV::Text(s@),
        Token::FString(s) => TokenV::FString(s@),
        Token::LineBreak => TokenV::LineBreak,
        Token::Space => TokenV::Space,
        Token::IncrementIdent => TokenV::IncrementIdent,
        Token::CarriageReturn => TokenV::CarriageReturn,
        Token::Slash => TokenV::Slash,
        Token::IdentationTab => TokenV::IdentationTab,
    }
}

impl View for Token {
    type V = TokenV;

    open spec fn view(&self) -> TokenV {
        token_view(*self)
    }
}

/// A positioned lexical failure: no rule matched at this character index.
#[derive(Debug, Clone, PartialEq)]
pub enum LexError {
    InvalidToken(usize),
}

/// A positioned syntactic failure.
#[derive(Debug, Clone, PartialEq)]
pub enum ParseError {
    UnexpectedToken(Token, usize),
    UnexpectedEndOfInput,
    RecursionLimitExceeded,
}

// ==========================================================================
// Canonical textual forms
// ==========================================================================

/// The canonical spelling of a reserved word.
pub open spec fn keyword_chars(k: Keyword) -> Seq<char> {
    match k {
        Keyword::False => "False"@,
        Keyword::NoneLit => "None"@,
        Keyword::True => "True"@,
        Keyword::And => "and"@,
        Keyword::As => "as"@,
        Keyword::Assert => "assert"@,
        Keyword::Break => "break"@,
        Keyword::Class => "class"@,
        Keyword::Continue => "continue"@,
        Keyword::Def => "def"@,
        Keyword::Del => "del"@,
        Keyword::Elif => "elif"@,
        Keyword::Else => "else"@,
        Keyword::Except => "except"@,
        Keyword::Finally => "finally"@,
        Keyword::For => "for"@,
        Keyword::From => "from"@,
        Keyword::Global => "global"@,
        Keyword::If => "if"@,
        Keyword::Import => "import"@,
        Keyword::In => "in"@,
        Keyword::Is => "is"@,
        Keyword::Lambda => "lambda"@,
        Keyword::Nonlocal => "nonlocal"@,
        Keyword::Not => "not"@,
        Keyword::Or => "or"@,
        Keyword::Pass => "pass"@,
        Keyword::Raise => "raise"@,
        Keyword::Return => "return"@,
        Keyword::Try => "try"@,
        Keyword::While => "while"@,
        Keyword::With => "with"@,
        Keyword::Yield => "yield"@,
    }
}

/// The canonical spelling of a symbol.
pub open spec fn symbol_chars(s: Symbol) -> Seq<char> {
    match s {
        Symbol::LeftParen => "("@,
        Symbol::RightParen => ")"@,
        Symbol::LeftBracket => "["@,
        Symbol::RightBracket => "]"@,
        Symbol::LeftCurlyBrace => "{"@,
        Symbol::RightCurlyBrace => "}"@,
        Symbol::Comma => ","@,
        Symbol::Dot => "."@,
        Symbol::Colon => ":"@,
        Symbol::SemiColon => ";"@,
        Symbol::Assign => "="@,
        Symbol::Plus => "+"@,
        Symbol::Minus => "-"@,
        Symbol::Multiply => "*"@,
        Symbol::Divide => "/"@,
        Symbol::Modulo => "%"@,
        Symbol::Exponent => "^"@,
        Symbol::LessThan => "<"@,
        Symbol::GreaterThan => ">"@,
        Symbol::LessThanOrEqual => "<="@,
        Symbol::GreaterThanOrEqual => ">="@,
        Symbol::Equal => "=="@,
        Symbol::NotEqual => "!="@,
        Symbol::Increment => "=+"@,
        Symbol::Decrement => "=-"@,
        Symbol::LogicalAnd => "&&"@,
        Symbol::LogicalOr => "||"@,
        Symbol::BitwiseAnd => "&"@,
        Symbol::BitwiseOr => "|"@,
        Symbol::BitwiseXor => "^"@,
        Symbol::BitwiseNot => "~"@,
        Symbol::ShiftLeft => "<<"@,
        Symbol::ShiftRight => ">>"@,
        Symbol::SingleQuote => "'"@,
        Symbol::DoubleQuote => "\""@,
        Symbol::SendMessage => "!"@,
        Symbol::HashTag => "#"@,
        Symbol::Dollar => "$"@,
        Symbol::AtSign => "@"@,
        Symbol::InterrogationMark => "?"@,
        Symbol::Crasis => "`"@,
        Symbol::UnderLine => "_"@,
    }
}

/// The number of source characters a symbol consumes: its canonical length.
pub open spec fn spec_symbol_len(s: Symbol) -> int {
    match s {
        Symbol::LessThanOrEqual => 2,
        Symbol::GreaterThanOrEqual => 2,
        Symbol::Equal => 2,
        Symbol::NotEqual => 2,
        Symbol::Increment => 2,
        Symbol::Decrement => 2,
        Symbol::LogicalAnd => 2,
        Symbol::LogicalOr => 2,
        Symbol::ShiftLeft => 2,
        Symbol::ShiftRight => 2,
        _ => 1,
    }
}

impl Symbol {
    /// Canonical consumed length of this symbol, used to advance the cursor.
    pub fn len(&self) -> (n: usize)
        ensures
            n as int == spec_symbol_len(*self),
            n as int == symbol_chars(*self).len(),
    {
        proof {
            lemma_symbol_chars_len(*self);
        }
        match self {
            Symbol::LessThanOrEqual => 2,
            Symbol::GreaterThanOrEqual => 2,
            Symbol::Equal => 2,
            Symbol::NotEqual => 2,
            Symbol::Increment => 2,
            Symbol::Decrement => 2,
            Symbol::LogicalAnd => 2,
            Symbol::LogicalOr => 2,
            Symbol::ShiftLeft => 2,
            Symbol::ShiftRight => 2,
            _ => 1,
        }
    }
}

/// The canonical spelling of every symbol has exactly its consumed length.
pub proof fn lemma_symbol_chars_len(s: Symbol)
    ensures
        symbol_chars(s).len() == spec_symbol_len(s),
{
    reveal_strlit("(");
    reveal_strlit(")");
    reveal_strlit("[");
    reveal_strlit("]");
    reveal_strlit("{");
    reveal_strlit("}");
    reveal_strlit(",");
    reveal_strlit(".");
    reveal_strlit(":");
    reveal_strlit(";");
    reveal_strlit("=");
    reveal_strlit("+");
    reveal_strlit("-");
    reveal_strlit("*");
    reveal_strlit("/");
    reveal_strlit("%");
    reveal_strlit("^");
    reveal_strlit("<");
    reveal_strlit(">");
    reveal_strlit("<=");
    reveal_strlit(">=");
    reveal_strlit("==");
    reveal_strlit("!=");
    reveal_strlit("=+");
    reveal_strlit("=-");
    reveal_strlit("&&");
    reveal_strlit("||");
    reveal_strlit("&");
    reveal_strlit("|");
    reveal_strlit("~");
    reveal_strlit("<<");
    reveal_strlit(">>");
    reveal_strlit("'");
    reveal_strlit("\"");
    reveal_strlit("!");
    reveal_strlit("#");
    reveal_strlit("$");
    reveal_strlit("@");
    reveal_strlit("?");
    reveal_strlit("`");
    reveal_strlit("_");
}

/// The canonical spelling of every keyword has its fixed length.
pub proof fn lemma_keyword_chars_len(k: Keyword)
    ensures
        2 <= keyword_chars(k).len() <= 8,
{
    reveal_strlit("False");
    reveal_strlit("None");
    reveal_strlit("True");
    reveal_strlit("and");
    reveal_strlit("as");
    reveal_strlit("assert");
    reveal_strlit("break");
    reveal_strlit("class");
    reveal_strlit("continue");
    reveal_strlit("def");
    reveal_strlit("del");
    reveal_strlit("elif");
    reveal_strlit("else");
    reveal_strlit("except");
    reveal_strlit("finally");
    reveal_strlit("for");
    reveal_strlit("from");
    reveal_strlit("global");
    reveal_strlit("if");
    reveal_strlit("import");
    reveal_strlit("in");
    reveal_strlit("is");
    reveal_strlit("lambda");
    reveal_strlit("nonlocal");
    reveal_strlit("not");
    reveal_strlit("or");
    reveal_strlit("pass");
    reveal_strlit("raise");
    reveal_strlit("return");
    reveal_strlit("try");
    reveal_strlit("while");
    reveal_strlit("with");
    reveal_strlit("yield");
}

impl Keyword {
    /// Consumed length of this reserved word: the length of its spelling.
    pub fn len(&self) -> (n: usize)
        ensures
            n as int == keyword_chars(*self).len(),
    {
        proof {
            lemma_keyword_chars_len(*self);
            reveal_strlit("False");
            reveal_strlit("None");
            reveal_strlit("True");
            reveal_strlit("and");
            reveal_strlit("as");
            reveal_strlit("assert");
            reveal_strlit("break");
            reveal_strlit("class");
            reveal_strlit("continue");
            reveal_strlit("def");
            reveal_strlit("del");
            reveal_strlit("elif");
            reveal_strlit("else");
            reveal_strlit("except");
            reveal_strlit("finally");
            reveal_strlit("for");
            reveal_strlit("from");
            reveal_strlit("global");
            reveal_strlit("if");
            reveal_strlit("import");
            reveal_strlit("in");
            reveal_strlit("is");
            reveal_strlit("lambda");
            reveal_strlit("nonlocal");
            reveal_strlit("not");
            reveal_strlit("or");
            reveal_strlit("pass");
            reveal_strlit("raise");
            reveal_strlit("return");
            reveal_strlit("try");
            reveal_strlit("while");
            reveal_strlit("with");
            reveal_strlit("yield");
        }
        match self {
            Keyword::False => 5,
            Keyword::NoneLit => 4,
            Keyword::True => 4,
            Keyword::And => 3,
            Keyword::As => 2,
            Keyword::Assert => 6,
            Keyword::Break => 5,
            Keyword::Class => 5,
            Keyword::Continue => 8,
            Keyword::Def => 3,
            Keyword::Del => 3,
            Keyword::Elif => 4,
            Keyword::Else => 4,
            Keyword::Except => 6,
            Keyword::Finally => 7,
            Keyword::For => 3,
            Keyword::From => 4,
            Keyword::Global => 6,
            Keyword::If => 2,
            Keyword::Import => 6,
            Keyword::In => 2,
            Keyword::Is => 2,
            Keyword::Lambda => 6,
            Keyword::Nonlocal => 8,
            Keyword::Not => 3,
            Keyword::Or => 2,
            Keyword::Pass => 4,
            Keyword::Raise => 5,
            Keyword::Return => 6,
            Keyword::Try => 3,
            Keyword::While => 5,
            Keyword::With => 4,
            Keyword::Yield => 5,
        }
    }
}

} // verus!

verus! {

// ==========================================================================
// Classification of single characters and spellings
// ==========================================================================

/// Character-for-character equality of two string slices.
pub fn str_eq(a: &str, b: &str) -> (r: bool)
    ensures
        r <==> a@ == b@,
{
    let n = a.unicode_len();
    let m = b.unicode_len();
    if n != m {
        return false;
    }
    let mut i: usize = 0;
    while i < n
        invariant
            n == a@.len(),
            n == b@.len(),
            i <= n,
            forall|j: int| 0 <= j < i ==> a@[j] == b@[j],
        decreases n - i,
    {
        if a.get_char(i) != b.get_char(i) {
            return false;
        }
        i += 1;
    }
    proof {
        assert(a@ =~= b@);
    }
    true
}

/// Which keyword, if any, this spelling is.
pub open spec fn spec_parse_keyword(s: Seq<char>) -> Option<Keyword> {
    if s == "False"@ {
        Option::Some(Keyword::False)
    } else if s == "None"@ {
        Option::Some(Keyword::NoneLit)
    } else if s == "True"@ {
        Option::Some(Keyword::True)
    } else if s == "and"@ {
        Option::Some(Keyword::And)
    } else if s == "as"@ {
        Option::Some(Keyword::As)
    } else if s == "assert"@ {
        Option::Some(Keyword::Assert)
    } else if s == "break"@ {
        Option::Some(Keyword::Break)
    } else if s == "class"@ {
        Option::Some(Keyword::Class)
    } else if s == "continue"@ {
        Option::Some(Keyword::Continue)
    } else if s == "def"@ {
        Option::Some(Keyword::Def)
    } else if s == "del"@ {
        Option::Some(Keyword::Del)
    } else if s == "elif"@ {
        Option::Some(Keyword::Elif)
    } else if s == "else"@ {
        Option::Some(Keyword::Else)
    } else if s == "except"@ {
        Option::Some(Keyword::Except)
    } else if s == "finally"@ {
        Option::Some(Keyword::Finally)
    } else if s == "for"@ {
        Option::Some(Keyword::For)
    } else if s == "from"@ {
        Option::Some(Keyword::From)
    } else if s == "global"@ {
        Option::Some(Keyword::Global)
    } else if s == "if"@ {
        Option::Some(Keyword::If)
    } else if s == "import"@ {
        Option::Some(Keyword::Import)
    } else if s == "in"@ {
        Option::Some(Keyword::In)
    } else if s == "is"@ {
        Option::Some(Keyword::Is)
    } else if s == "lambda"@ {
        Option::Some(Keyword::Lambda)
    } else if s == "nonlocal"@ {
        Option::Some(Keyword::Nonlocal)
    } else if s == "not"@ {
        Option::Some(Keyword::Not)
    } else if s == "or"@ {
        Option::Some(Keyword::Or)
    } else if s == "pass"@ {
        Option::Some(Keyword::Pass)
    } else if s == "raise"@ {
        Option::Some(Keyword::Raise)
    } else if s == "return"@ {
        Option::Some(Keyword::Return)
    } else if s == "try"@ {
        Option::Some(Keyword::Try)
    } else if s == "while"@ {
        Option::Some(Keyword::While)
    } else if s == "with"@ {
        Option::Some(Keyword::With)
    } else if s == "yield"@ {
        Option::Some(Keyword::Yield)
    } else {
        Option::None
    }
}

/// Classify a spelling against the reserved-word set.
pub fn parse_keyword(input: &str) -> (r: Option<Keyword>)
    ensures
        r == spec_parse_keyword(input@),
{
    if str_eq(input, "False") {
        Option::Some(Keyword::False)
    } else if str_eq(input, "None") {
        Option::Some(Keyword::NoneLit)
    } else if str_eq(input, "True") {
        Option::Some(Keyword::True)
    } else if str_eq(input, "and") {
        Option::Some(Keyword::And)
    } else if str_eq(input, "as") {
        Option::Some(Keyword::As)
    } else if str_eq(input, "assert") {
        Option::Some(Keyword::Assert)
    } else if str_eq(input, "break") {
        Option::Some(Keyword::Break)
    } else if str_eq(input, "class") {
        Option::Some(Keyword::Class)
    } else if str_eq(input, "continue") {
        Option::Some(Keyword::Continue)
    } else if str_eq(input, "def") {
        Option::Some(Keyword::Def)
    } else if str_eq(input, "del") {
        Option::Some(Keyword::Del)
    } else if str_eq(input, "elif") {
        Option::Some(Keyword::Elif)
    } else if str_eq(input, "else") {
        Option::Some(Keyword::Else)
    } else if str_eq(input, "except") {
        Option::Some(Keyword::Except)
    } else if str_eq(input, "finally") {
        Option::Some(Keyword::Finally)
    } else if str_eq(input, "for") {
        Option::Some(Keyword::For)
    } else if str_eq(input, "from") {
        Option::Some(Keyword::From)
    } else if str_eq(input, "global") {
        Option::Some(Keyword::Global)
    } else if str_eq(input, "if") {
        Option::Some(Keyword::If)
    } else if str_eq(input, "import") {
        Option::Some(Keyword::Import)
    } else if str_eq(input, "in") {
        Option::Some(Keyword::In)
    } else if str_eq(input, "is") {
        Option::Some(Keyword::Is)
    } else if str_eq(input, "lambda") {
        Option::Some(Keyword::Lambda)
    } else if str_eq(input, "nonlocal") {
        Option::Some(Keyword::Nonlocal)
    } else if str_eq(input, "not") {
        Option::Some(Keyword::Not)
    } else if str_eq(input, "or") {
        Option::Some(Keyword::Or)
    } else if str_eq(input, "pass") {
        Option::Some(Keyword::Pass)
    } else if str_eq(input, "raise") {
        Option::Some(Keyword::Raise)
    } else if str_eq(input, "return") {
        Option::Some(Keyword::Return)
    } else if str_eq(input, "try") {
        Option::Some(Keyword::Try)
    } else if str_eq(input, "while") {
        Option::Some(Keyword::While)
    } else if str_eq(input, "with") {
        Option::Some(Keyword::With)
    } else if str_eq(input, "yield") {
        Option::Some(Keyword::Yield)
    } else {
        Option::None
    }
}

/// The canonical spelling of a reserved word, as source text.
pub fn reverse_keyword(keyword: &Keyword) -> (r: Option<String>)
    ensures
        match r {
            Option::Some(t) => t@ == keyword_chars(*keyword),
            Option::None => false,
        },
{
    match keyword {
        Keyword::False => Option::Some(String::from_str("False")),
        Keyword::NoneLit => Option::Some(String::from_str("None")),
        Keyword::True => Option::Some(String::from_str("True")),
        Keyword::And => Option::Some(String::from_str("and")),
        Keyword::As => Option::Some(String::from_str("as")),
        Keyword::Assert => Option::Some(String::from_str("assert")),
        Keyword::Break => Option::Some(String::from_str("break")),
        Keyword::Class => Option::Some(String::from_str("class")),
        Keyword::Continue => Option::Some(String::from_str("continue")),
        Keyword::Def => Option::Some(String::from_str("def")),
        Keyword::Del => Option::Some(String::from_str("del")),
        Keyword::Elif => Option::Some(String::from_str("elif")),
        Keyword::Else => Option::Some(String::from_str("else")),
        Keyword::Except => Option::Some(String::from_str("except")),
        Keyword::Finally => Option::Some(String::from_str("finally")),
        Keyword::For => Option::Some(String::from_str("for")),
        Keyword::From => Option::Some(String::from_str("from")),
        Keyword::Global => Option::Some(String::from_str("global")),
        Keyword::If => Option::Some(String::from_str("if")),
        Keyword::Import => Option::Some(String::from_str("import")),
        Keyword::In => Option::Some(String::from_str("in")),
        Keyword::Is => Option::Some(String::from_str("is")),
        Keyword::Lambda => Option::Some(String::from_str("lambda")),
        Keyword::Nonlocal => Option::Some(String::from_str("nonlocal")),
        Keyword::Not => Option::Some(String::from_str("not")),
        Keyword::Or => Option::Some(String::from_str("or")),
        Keyword::Pass => Option::Some(String::from_str("pass")),
        Keyword::Raise => Option::Some(String::from_str("raise")),
        Keyword::Return => Option::Some(String::from_str("return")),
        Keyword::Try => Option::Some(String::from_str("try")),
        Keyword::While => Option::Some(String::from_str("while")),
        Keyword::With => Option::Some(String::from_str("with")),
        Keyword::Yield => Option::Some(String::from_str("yield")),
    }
}

/// The canonical spelling of a symbol, as source text.
pub fn reverse_symbol(symbol: &Symbol) -> (r: Option<String>)
    ensures
        match r {
            Option::Some(t) => t@ == symbol_chars(*symbol),
            Option::None => false,
        },
{
    match symbol {
        Symbol::LeftParen => Option::Some(String::from_str("(")),
        Symbol::RightParen => Option::Some(String::from_str(")")),
        Symbol::LeftBracket => Option::Some(String::from_str("[")),
        Symbol::RightBracket => Option::Some(String::from_str("]")),
        Symbol::LeftCurlyBrace => Option::Some(String::from_str("{")),
        Symbol::RightCurlyBrace => Option::Some(String::from_str("}")),
        Symbol::Comma => Option::Some(String::from_str(",")),
        Symbol::Dot => Option::Some(String::from_str(".")),
        Symbol::Colon => Option::Some(String::from_str(":")),
        Symbol::SemiColon => Option::Some(String::from_str(";")),
        Symbol::Assign => Option::Some(String::from_str("=")),
        Symbol::Plus => Option::Some(String::from_str("+")),
        Symbol::Minus => Option::Some(String::from_str("-")),
        Symbol::Multiply => Option::Some(String::from_str("*")),
        Symbol::Divide => Option::Some(String::from_str("/")),
        Symbol::Modulo => Option::Some(String::from_str("%")),
        Symbol::Exponent => Option::Some(String::from_str("^")),
        Symbol::LessThan => Option::Some(String::from_str("<")),
        Symbol::GreaterThan => Option::Some(String::from_str(">")),
        Symbol::LessThanOrEqual => Option::Some(String::from_str("<=")),
        Symbol::GreaterThanOrEqual => Option::Some(String::from_str(">=")),
        Symbol::Equal => Option::Some(String::from_str("==")),
        Symbol::NotEqual => Option::Some(String::from_str("!=")),
        Symbol::Increment => Option::Some(String::from_str("=+")),
        Symbol::Decrement => Option::Some(String::from_str("=-")),
        Symbol::LogicalAnd => Option::Some(String::from_str("&&")),
        Symbol::LogicalOr => Option::Some(String::from_str("||")),
        Symbol::BitwiseAnd => Option::Some(String::from_str("&")),
        Symbol::BitwiseOr => Option::Some(String::from_str("|")),
        Symbol::BitwiseXor => Option::Some(String::from_str("^")),
        Symbol::BitwiseNot => Option::Some(String::from_str("~")),
        Symbol::ShiftLeft => Option::Some(String::from_str("<<")),
        Symbol::ShiftRight => Option::Some(String::from_str(">>")),
        Symbol::SingleQuote => Option::Some(String::from_str("'")),
        Symbol::DoubleQuote => Option::Some(String::from_str("\"")),
        Symbol::SendMessage => Option::Some(String::from_str("!")),
        Symbol::HashTag => Option::Some(String::from_str("#")),
        Symbol::Dollar => Option::Some(String::from_str("$")),
        Symbol::AtSign => Option::Some(String::from_str("@")),
        Symbol::InterrogationMark => Option::Some(String::from_str("?")),
        Symbol::Crasis => Option::Some(String::from_str("`")),
        Symbol::UnderLine => Option::Some(String::from_str("_")),
    }
}

/// The symbol spelled by one character, with an optional lookahead: the
/// two-character forms take priority where defined, otherwise the
/// one-character symbol stands alone.
pub open spec fn spec_symbol_from_chars(c1: char, c2: Option<char>) -> Option<Symbol> {
    match c1 {
        '^' => Option::Some(Symbol::BitwiseXor),
        '~' => Option::Some(Symbol::BitwiseNot),
        '\'' => Option::Some(Symbol::SingleQuote),
        '"' => Option::Some(Symbol::DoubleQuote),
        '!' => if c2 == Option::Some('=') {
            Option::Some(Symbol::NotEqual)
        } else {
            Option::Some(Symbol::SendMessage)
        },
        '|' => if c2 == Option::Some('|') {
            Option::Some(Symbol::LogicalOr)
        } else {
            Option::Some(Symbol::BitwiseOr)
        },
        '<' => if c2 == Option::Some('<') {
            Option::Some(Symbol::ShiftLeft)
        } else if c2 == Option::Some('=') {
            Option::Some(Symbol::LessThanOrEqual)
        } else {
            Option::Some(Symbol::LessThan)
        },
        '>' => if c2 == Option::Some('>') {
            Option::Some(Symbol::ShiftRight)
        } else if c2 == Option::Some('=') {
            Option::Some(Symbol::GreaterThanOrEqual)
        } else {
            Option::Some(Symbol::GreaterThan)
        },
        '&' => if c2 == Option::Some('&') {
            Option::Some(Symbol::LogicalAnd)
        } else {
            Option::Some(Symbol::BitwiseAnd)
        },
        '`' => Option::Some(Symbol::Crasis),
        '@' => Option::Some(Symbol::AtSign),
        '?' => Option::Some(Symbol::InterrogationMark),
        '$' => Option::Some(Symbol::Dollar),
        '#' => Option::Some(Symbol::HashTag),
        '(' => Option::Some(Symbol::LeftParen),
        ')' => Option::Some(Symbol::RightParen),
        '[' => Option::Some(Symbol::LeftBracket),
        ']' => Option::Some(Symbol::RightBracket),
        '{' => Option::Some(Symbol::LeftCurlyBrace),
        '}' => Option::Some(Symbol::RightCurlyBrace),
        ',' => Option::Some(Symbol::Comma),
        '.' => Option::Some(Symbol::Dot),
        ':' => Option::Some(Symbol::Colon),
        ';' => Option::Some(Symbol::SemiColon),
        '=' => if c2 == Option::Some('=') {
            Option::Some(Symbol::Equal)
        } else if c2 == Option::Some('+') {
            Option::Some(Symbol::Increment)
        } else if c2 == Option::Some('-') {
            Option::Some(Symbol::Decrement)
        } else {
            Option::Some(Symbol::Assign)
        },
        '+' => Option::Some(Symbol::Plus),
        '-' => Option::Some(Symbol::Minus),
        '_' => Option::Some(Symbol::UnderLine),
        '*' => Option::Some(Symbol::Multiply),
        '/' => Option::Some(Symbol::Divide),
        '%' => Option::Some(Symbol::Modulo),
        _ => Option::None,
    }
}

/// Classify one character with optional lookahead against the symbol table.
pub fn symbol_from_chars(c1: char, c2: Option<char>) -> (r: Option<Symbol>)
    ensures
        r == spec_symbol_from_chars(c1, c2),
{
    match c1 {
        '^' => Option::Some(Symbol::BitwiseXor),
        '~' => Option::Some(Symbol::BitwiseNot),
        '\'' => Option::Some(Symbol::SingleQuote),
        '"' => Option::Some(Symbol::DoubleQuote),
        '!' => if c2 == Option::Some('=') {
            Option::Some(Symbol::NotEqual)
        } else {
            Option::Some(Symbol::SendMessage)
        },
        '|' => if c2 == Option::Some('|') {
            Option::Some(Symbol::LogicalOr)
        } else {
            Option::Some(Symbol::BitwiseOr)
        },
        '<' => if c2 == Option::Some('<') {
            Option::Some(Symbol::ShiftLeft)
        } else if c2 == Option::Some('=') {
            Option::Some(Symbol::LessThanOrEqual)
        } else {
            Option::Some(Symbol::LessThan)
        },
        '>' => if c2 == Option::Some('>') {
            Option::Some(Symbol::ShiftRight)
        } else if c2 == Option::Some('=') {
            Option::Some(Symbol::GreaterThanOrEqual)
        } else {
            Option::Some(Symbol::GreaterThan)
        },
        '&' => if c2 == Option::Some('&') {
            Option::Some(Symbol::LogicalAnd)
        } else {
            Option::Some(Symbol::BitwiseAnd)
        },
        '`' => Option::Some(Symbol::Crasis),
        '@' => Option::Some(Symbol::AtSign),
        '?' => Option::Some(Symbol::InterrogationMark),
        '$' => Option::Some(Symbol::Dollar),
        '#' => Option::Some(Symbol::HashTag),
        '(' => Option::Some(Symbol::LeftParen),
        ')' => Option::Some(Symbol::RightParen),
        '[' => Option::Some(Symbol::LeftBracket),
        ']' => Option::Some(Symbol::RightBracket),
        '{' => Option::Some(Symbol::LeftCurlyBrace),
        '}' => Option::Some(Symbol::RightCurlyBrace),
        ',' => Option::Some(Symbol::Comma),
        '.' => Option::Some(Symbol::Dot),
        ':' => Option::Some(Symbol::Colon),
        ';' => Option::Some(Symbol::SemiColon),
        '=' => if c2 == Option::Some('=') {
            Option::Some(Symbol::Equal)
        } else if c2 == Option::Some('+') {
            Option::Some(Symbol::Increment)
        } else if c2 == Option::Some('-') {
            Option::Some(Symbol::Decrement)
        } else {
            Option::Some(Symbol::Assign)
        },
        '+' => Option::Some(Symbol::Plus),
        '-' => Option::Some(Symbol::Minus),
        '_' => Option::Some(Symbol::UnderLine),
        '*' => Option::Some(Symbol::Multiply),
        '/' => Option::Some(Symbol::Divide),
        '%' => Option::Some(Symbol::Modulo),
        _ => Option::None,
    }
}

/// The symbol spelled at the start of this text, if any.
pub open spec fn spec_parse_symbol(s: Seq<char>) -> Option<Symbol> {
    if s.len() == 0 {
        Option::None
    } else {
        spec_symbol_from_chars(
            s[0],
            if s.len() >= 2 {
                Option::Some(s[1])
            } else {
                Option::None
            },
        )
    }
}

/// Classify the start of a text against the symbol table, two-character
/// forms first.
pub fn parse_symbol(input: &str) -> (r: Option<Symbol>)
    ensures
        r == spec_parse_symbol(input@),
{
    let n = input.unicode_len();
    if n == 0 {
        return Option::None;
    }
    let c1 = input.get_char(0);
    let c2 = if n >= 2 {
        Option::Some(input.get_char(1))
    } else {
        Option::None
    };
    symbol_from_chars(c1, c2)
}

/// The one-character control token spelled by a character, if any.
pub open spec fn spec_special_token(c: char) -> Option<TokenV> {
    match c {
        '\n' => Option::Some(TokenV::LineBreak),
        '\r' => Option::Some(TokenV::CarriageReturn),
        ' ' => Option::Some(TokenV::Space),
        '\\' => Option::Some(TokenV::Slash),
        '\t' => Option::Some(TokenV::IdentationTab),
        _ => Option::None,
    }
}

/// Classify the first character of a text as a control token.
pub fn parse_special(input: &str) -> (r: Option<Token>)
    ensures
        (match r {
            Option::Some(t) => Option::Some(t@),
            Option::None => Option::None,
        }) == if input@.len() == 0 {
            Option::<TokenV>::None
        } else {
            spec_special_token(input@[0])
        },
{
    let n = input.unicode_len();
    if n == 0 {
        return Option::None;
    }
    match input.get_char(0) {
        '\n' => Option::Some(Token::LineBreak),
        '\r' => Option::Some(Token::CarriageReturn),
        ' ' => Option::Some(Token::Space),
        '\\' => Option::Some(Token::Slash),
        '\t' => Option::Some(Token::IdentationTab),
        _ => Option::None,
    }
}

} // verus!

verus! {

// ==========================================================================
// The lexer
// ==========================================================================

pub open spec fn is_quote(c: char) -> bool {
    c == '"' || c == '\''
}

/// Start of an identifier: a letter or an underscore.
pub open spec fn is_ident_start(c: char) -> bool {
    ('a' as u32 <= c as u32 && c as u32 <= 'z' as u32) || ('A' as u32 <= c as u32 && c as u32
        <= 'Z' as u32) || c == '_'
}

/// Continuation of an identifier or of bare literal text: a letter, a digit
/// or an underscore.
pub open spec fn is_ident_char(c: char) -> bool {
    is_ident_start(c) || ('0' as u32 <= c as u32 && c as u32 <= '9' as u32)
}

fn quote_char(c: char) -> (r: bool)
    ensures
        r == is_quote(c),
{
    c == '"' || c == '\''
}

fn ident_start_char(c: char) -> (r: bool)
    ensures
        r == is_ident_start(c),
{
    (('a' as u32) <= (c as u32) && (c as u32) <= ('z' as u32)) || (('A' as u32) <= (c as u32) && (
    c as u32) <= ('Z' as u32)) || c == '_'
}

fn ident_char(c: char) -> (r: bool)
    ensures
        r == is_ident_char(c),
{
    ident_start_char(c) || (('0' as u32) <= (c as u32) && (c as u32) <= ('9' as u32))
}

/// Position of the first quote character at or after `i`, if any.
pub open spec fn spec_find_quote(s: Seq<char>, i: int) -> Option<int>
    decreases s.len() - i,
{
    if i < 0 || i >= s.len() {
        Option::None
    } else if is_quote(s[i]) {
        Option::Some(i)
    } else {
        spec_find_quote(s, i + 1)
    }
}

/// End of the longest run of identifier characters starting at `i`.
pub open spec fn spec_scan_ident_end(s: Seq<char>, i: int) -> int
    decreases s.len() - i,
{
    if i < 0 || i >= s.len() {
        i
    } else if is_ident_char(s[i]) {
        spec_scan_ident_end(s, i + 1)
    } else {
        i
    }
}

pub proof fn lemma_scan_ident_end_bounds(s: Seq<char>, i: int)
    requires
        0 <= i <= s.len(),
    ensures
        i <= spec_scan_ident_end(s, i) <= s.len(),
    decreases s.len() - i,
{
    if i < s.len() && is_ident_char(s[i]) {
        lemma_scan_ident_end_bounds(s, i + 1);
    }
}

/// The string literal at the start of this text: a leading quote scans to
/// the next quote of either kind, with no escape handling, and yields the
/// inner text.  Text that starts with an unmatched quote is no string
/// literal.
pub open spec fn spec_parse_string(s: Seq<char>) -> Option<Seq<char>> {
    if s.len() == 0 || !is_quote(s[0]) {
        Option::None
    } else {
        match spec_find_quote(s, 1) {
            Option::Some(j) => Option::Some(s.subrange(1, j)),
            Option::None => Option::None,
        }
    }
}

/// Scan a quoted string literal at the start of the text.
pub fn parse_string(input: &str) -> (r: Option<String>)
    ensures
        (match r {
            Option::Some(t) => Option::Some(t@),
            Option::None => Option::None,
        }) == spec_parse_string(input@),
{
    let n = input.unicode_len();
    if n == 0 {
        return Option::None;
    }
    if !quote_char(input.get_char(0)) {
        return Option::None;
    }
    let mut j: usize = 1;
    while j < n
        invariant
            n == input@.len(),
            1 <= j <= n,
            is_quote(input@[0]),
            spec_find_quote(input@, 1) == spec_find_quote(input@, j as int),
        decreases n - j,
    {
        if quote_char(input.get_char(j)) {
            let inner = input.substring_char(1, j);
            return Option::Some(inner.to_owned());
        }
        j += 1;
    }
    Option::None
}

/// The first token at position `pos`, with the number of characters it
/// consumes.  The rules are tried in a fixed priority order: an indent of
/// four spaces, a quoted string, a one-character control token, the symbol
/// table (two-character forms first), an identifier or reserved word, and
/// bare literal text.
pub open spec fn spec_next_token(s: Seq<char>, pos: int) -> Option<(TokenV, int)> {
    if pos < 0 || pos >= s.len() {
        Option::None
    } else if pos + 4 <= s.len() && s[pos] == ' ' && s[pos + 1] == ' ' && s[pos + 2] == ' ' && s[pos
        + 3] == ' ' {
        Option::Some((TokenV::IncrementIdent, 4))
    } else if is_quote(s[pos]) && spec_find_quote(s, pos + 1) matches Option::Some(j) {
        Option::Some((TokenV::FString(s.subrange(pos + 1, spec_find_quote(s, pos + 1)->0)),
        spec_find_quote(s, pos + 1)->0 + 2 - pos - 1))
    } else if spec_special_token(s[pos]) matches Option::Some(t) {
        Option::Some((spec_special_token(s[pos])->0, 1))
    } else if spec_symbol_from_chars(
        s[pos],
        if pos + 1 < s.len() {
            Option::Some(s[pos + 1])
        } else {
            Option::None
        },
    ) matches Option::Some(_) {
        let sym = spec_symbol_from_chars(
            s[pos],
            if pos + 1 < s.len() {
                Option::Some(s[pos + 1])
            } else {
                Option::None
            },
        )->0;
        Option::Some((TokenV::Symbol(sym), spec_symbol_len(sym)))
    } else if is_ident_start(s[pos]) {
        let j = spec_scan_ident_end(s, pos);
        let text = s.subrange(pos, j);
        match spec_parse_keyword(text) {
            Option::Some(k) => Option::Some((TokenV::Keyword(k), j - pos)),
            Option::None => Option::Some((TokenV::Identifier(text), j - pos)),
        }
    } else if is_ident_char(s[pos]) {
        let j = spec_scan_ident_end(s, pos);
        Option::Some((TokenV::Text(s.subrange(pos, j)), j - pos))
    } else {
        Option::None
    }
}

/// The full scan from position `pos`: the tokens with their consumed
/// lengths, or the position where no rule matched.
pub open spec fn spec_tokenize(s: Seq<char>, pos: int) -> Result<Seq<(TokenV, int)>, int>
    decreases s.len() - pos,
{
    if pos < 0 || pos >= s.len() {
        Result::Ok(Seq::empty())
    } else {
        match spec_next_token(s, pos) {
            Option::None => Result::Err(pos),
            Option::Some((t, n)) => if n < 1 || pos + n > s.len() {
                Result::Err(pos)
            } else {
                match spec_tokenize(s, pos + n) {
                    Result::Ok(rest) => Result::Ok(seq![(t, n)] + rest),
                    Result::Err(e) => Result::Err(e),
                }
            },
        }
    }
}

/// The token parts of a scan.
pub open spec fn pairs_tokens(pairs: Seq<(TokenV, int)>) -> Seq<TokenV>
    decreases pairs,
{
    if pairs.len() == 0 {
        Seq::empty()
    } else {
        seq![pairs.first().0] + pairs_tokens(pairs.drop_first())
    }
}

/// The scan result with only the tokens kept.
pub open spec fn spec_tokens_of(s: Seq<char>, pos: int) -> Result<Seq<TokenV>, int> {
    match spec_tokenize(s, pos) {
        Result::Ok(pairs) => Result::Ok(pairs_tokens(pairs)),
        Result::Err(e) => Result::Err(e),
    }
}

pub open spec fn tokens_view(ts: Seq<Token>) -> Seq<TokenV>
    decreases ts,
{
    if ts.len() == 0 {
        Seq::empty()
    } else {
        seq![token_view(ts.first())] + tokens_view(ts.drop_first())
    }
}

pub proof fn lemma_tokens_view_all(ts: Seq<Token>)
    ensures
        tokens_view(ts).len() == ts.len(),
        forall|i: int| 0 <= i < ts.len() ==> tokens_view(ts)[i] == token_view(ts[i]),
    decreases ts,
{
    if ts.len() > 0 {
        lemma_tokens_view_all(ts.drop_first());
        assert forall|i: int| 0 <= i < ts.len() implies tokens_view(ts)[i] == token_view(ts[i]) by {
            if i > 0 {
                assert(tokens_view(ts)[i] == tokens_view(ts.drop_first())[i - 1]);
                assert(ts.drop_first()[i - 1] == ts[i]);
            }
        }
    }
}

/// The first token at `pos` and how far the cursor advances, mirrored by
/// the mathematical scanner.
fn next_token(input: &str, pos: usize) -> (res: Option<(Token, usize)>)
    requires
        pos < input@.len(),
    ensures
        (match res {
            Option::Some(p) => Option::Some((p.0@, p.1 as int)),
            Option::None => Option::None,
        }) == spec_next_token(input@, pos as int),
        match res {
            Option::Some(p) => 1 <= p.1 && pos + p.1 <= input@.len(),
            Option::None => true,
        },
{
    let n = input.unicode_len();
    let c = input.get_char(pos);
    // four consecutive spaces make one indent step
    if n - pos >= 4 && c == ' ' && input.get_char(pos + 1) == ' ' && input.get_char(pos + 2) == ' '
        && input.get_char(pos + 3) == ' ' {
        return Option::Some((Token::IncrementIdent, 4));
    }
    // a quoted string literal, when the quote is matched; a lone quote
    // falls through to the symbol rule
    if quote_char(c) {
        let mut j: usize = pos + 1;
        while j < n
            invariant
                n == input@.len(),
                pos + 1 <= j <= n,
                pos < n,
                is_quote(input@[pos as int]),
                spec_find_quote(input@, pos as int + 1) == spec_find_quote(input@, j as int),
            decreases n - j,
        {
            if quote_char(input.get_char(j)) {
                let inner = input.substring_char(pos + 1, j);
                return Option::Some((Token::FString(inner.to_owned()), j + 1 - pos));
            }
            j += 1;
        }
    }
    // one-character control tokens
    match c {
        '\n' => {
            return Option::Some((Token::LineBreak, 1));
        },
        '\r' => {
            return Option::Some((Token::CarriageReturn, 1));
        },
        ' ' => {
            return Option::Some((Token::Space, 1));
        },
        '\\' => {
            return Option::Some((Token::Slash, 1));
        },
        '\t' => {
            return Option::Some((Token::IdentationTab, 1));
        },
        _ => {},
    }
    // the symbol table, two-character forms first
    let c2 = if pos + 1 < n {
        Option::Some(input.get_char(pos + 1))
    } else {
        Option::None
    };
    match symbol_from_chars(c, c2) {
        Option::Some(sym) => {
            let w = sym.len();
            proof {
                lemma_symbol_len_fits(input@, pos as int, sym);
            }
            return Option::Some((Token::Symbol(sym), w));
        },
        Option::None => {},
    }
    // identifiers and reserved words, longest match
    if ident_start_char(c) {
        proof {
            lemma_scan_ident_end_bounds(input@, pos as int + 1);
        }
        let j = scan_ident_end(input, pos);
        let text = input.substring_char(pos, j);
        match parse_keyword(text) {
            Option::Some(k) => {
                return Option::Some((Token::Keyword(k), j - pos));
            },
            Option::None => {
                return Option::Some((Token::Identifier(text.to_owned()), j - pos));
            },
        }
    }
    // bare literal text
    if ident_char(c) {
        proof {
            lemma_scan_ident_end_bounds(input@, pos as int + 1);
        }
        let j = scan_ident_end(input, pos);
        let text = input.substring_char(pos, j);
        return Option::Some((Token::Text(text.to_owned()), j - pos));
    }
    Option::None
}

/// A symbol recognized at `pos` never consumes past the end of the input:
/// its two-character forms exist only when the second character is there.
proof fn lemma_symbol_len_fits(s: Seq<char>, pos: int, sym: Symbol)
    requires
        0 <= pos < s.len(),
        spec_symbol_from_chars(
            s[pos],
            if pos + 1 < s.len() {
                Option::Some(s[pos + 1])
            } else {
                Option::None
            },
        ) == Option::Some(sym),
    ensures
        pos + spec_symbol_len(sym) <= s.len(),
{
}

/// Longest run of identifier characters from `pos`.
fn scan_ident_end(input: &str, pos: usize) -> (j: usize)
    requires
        pos <= input@.len(),
    ensures
        j as int == spec_scan_ident_end(input@, pos as int),
        pos <= j <= input@.len(),
{
    proof {
        lemma_scan_ident_end_bounds(input@, pos as int);
    }
    let n = input.unicode_len();
    let mut j: usize = pos;
    while j < n
        invariant
            n == input@.len(),
            pos <= j <= n,
            spec_scan_ident_end(input@, pos as int) == spec_scan_ident_end(input@, j as int),
        decreases n - j,
    {
        if !ident_char(input.get_char(j)) {
            return j;
        }
        j += 1;
    }
    j
}

/// Model of a lexer outcome.
pub open spec fn lex_res_view(res: Result<Vec<Token>, LexError>) -> Result<Seq<TokenV>, int> {
    match res {
        Result::Ok(v) => Result::Ok(tokens_view(v@)),
        Result::Err(LexError::InvalidToken(p)) => Result::Err(p as int),
    }
}

/// Scan the whole input from `pos` into tokens.
fn tokenize_from(input: &str, pos: usize) -> (res: Result<Vec<Token>, LexError>)
    requires
        pos <= input@.len(),
    ensures
        lex_res_view(res) == spec_tokens_of(input@, pos as int),
    decreases input@.len() - pos,
{
    if pos >= input.unicode_len() {
        let out: Vec<Token> = Vec::new();
        proof {
            assert(tokens_view(out@) =~= Seq::<TokenV>::empty());
        }
        return Result::Ok(out);
    }
    match next_token(input, pos) {
        Option::None => Result::Err(LexError::InvalidToken(pos)),
        Option::Some((t, n)) => match tokenize_from(input, pos + n) {
            Result::Err(e) => Result::Err(e),
            Result::Ok(rest) => {
                let ghost pre = rest@;
                let mut out = rest;
                out.insert(0, t);
                proof {
                    lemma_tokens_view_all(out@);
                    lemma_tokens_view_all(pre);
                    assert(out@ =~= seq![t] + pre);
                    assert(tokens_view(out@) =~= seq![token_view(t)] + tokens_view(pre));
                    if spec_tokenize(input@, pos as int + n as int) is Ok {
                        let rp = spec_tokenize(input@, pos as int + n as int)->Ok_0;
                        assert((seq![(token_view(t), n as int)] + rp).drop_first() =~= rp);
                        assert((seq![(token_view(t), n as int)] + rp).first() == (
                        token_view(t),
                        n as int,
                        ));
                    }
                }
                Result::Ok(out)
            },
        },
    }
}

/// Consume the whole source text and produce its ordered token sequence, or
/// the position of the first character where no lexical rule matches.
#[allow(nonstandard_style)]
pub fn Tokenizer(input: &str) -> (res: Result<Vec<Token>, LexError>)
    ensures
        lex_res_view(res) == spec_tokens_of(input@, 0),
{
    if input.unicode_len() == 0 {
        let out: Vec<Token> = Vec::new();
        proof {
            assert(tokens_view(out@) =~= Seq::<TokenV>::empty());
        }
        return Result::Ok(out);
    }
    tokenize_from(input, 0)
}

} // verus!

verus! {

/// The source text the scanned spans cover, in order.
pub open spec fn spans_text(s: Seq<char>, pos: int, pairs: Seq<(TokenV, int)>) -> Seq<char>
    decreases pairs,
{
    if pairs.len() == 0 {
        Seq::empty()
    } else {
        s.subrange(pos, pos + pairs.first().1) + spans_text(
            s,
            pos + pairs.first().1,
            pairs.drop_first(),
        )
    }
}

/// Token-span coverage: when the whole input scans, concatenating each
/// token's original source span reconstructs the input exactly, with no
/// gaps or overlaps.
pub proof fn lemma_token_spans_cover(s: Seq<char>, pos: int)
    requires
        0 <= pos <= s.len(),
        spec_tokenize(s, pos) is Ok,
    ensures
        spans_text(s, pos, spec_tokenize(s, pos)->Ok_0) == s.skip(pos),
    decreases s.len() - pos,
{
    if pos >= s.len() {
        assert(spans_text(s, pos, spec_tokenize(s, pos)->Ok_0) =~= s.skip(pos));
    } else {
        let (t, n) = spec_next_token(s, pos)->0;
        lemma_token_spans_cover(s, pos + n);
        let pairs = spec_tokenize(s, pos)->Ok_0;
        let rest = spec_tokenize(s, pos + n)->Ok_0;
        assert(pairs == seq![(t, n)] + rest);
        assert(pairs.first() == (t, n));
        assert(pairs.drop_first() =~= rest);
        assert(s.subrange(pos, pos + n) + s.skip(pos + n) =~= s.skip(pos));
    }
}

} // verus!
