//! The lexer: raw source text to a token stream. A conventional
//! single-pass scanner over characters; keywords and operators come from
//! fixed tables, numbers and words are maximal runs, strings run to their
//! closing quote, comments are skipped.
use vstd::prelude::*;

use crate::interpreter::{is_digit, is_ident_char, is_letter};
use crate::strutil::{push_char, str_eq};
use crate::{Error, Resolver};

verus! {

broadcast use {vstd::std_specs::vec::group_vec_axioms, vstd::seq::group_seq_axioms};

/// Whether `c` may appear in an identifier (a letter, digit or
/// underscore).
pub fn is_variable(var: char) -> (r: bool)
    ensures
        r == is_ident_char(var),
{
    crate::interpreter::char_is_ident(var)
}

/// The kind of a token.
#[derive(Debug, Clone, Copy, PartialEq, Eq, Structural)]
pub enum TokenType {
    LET,
    FUN,
    RETURN,
    FOR,
    IN,
    IF,
    ELSE,
    SWITCH,
    CASE,
    DEFAULT,
    WHILE,
    DO,
    BREAK,
    CONTINUE,
    TYPEOF,
    CLASS,
    NEW,
    THIS,
    IMPORT,
    FROM,
    NULL,
    NUMBER,
    STRING,
    WORD,
    BOOLEAN,
    NAN,
    EQUALS,
    PLUS,
    MINUS,
    SLASH,
    STAR,
    DOUBLESTAR,
    PERCENT,
    PLUSEQ,
    MINUSEQ,
    DIVIDEEQ,
    MULTIPLYEQ,
    EXPONENTEQ,
    REMAINDEREQ,
    LPAR,
    RPAR,
    LBRACE,
    RBRACE,
    LBRACKET,
    RBRACKET,
    COMMA,
    DOT,
    COLON,
    EXCL,
    QUESTION,
    EQEQ,
    EXCLEQ,
    GT,
    LT,
    GTEQ,
    LTEQ,
    AMPAMP,
    BARBAR,
    ARROW,
    SPREAD,
    EOF,
}

/// One token: its kind, its text, and where its scan ended.
#[derive(Debug)]
pub struct Token {
    pub token_type: TokenType,
    pub text: String,
    pub pos: usize,
}

/// The scanner state: the source text, the tokens produced so far, the
/// scan position, and the position resolver for error reports.
#[derive(Debug)]
pub struct Lexer {
    pub code: String,
    pub tokens: Vec<Token>,
    pub pos: usize,
    pub resolver: Resolver,
}

/// The character at `i`, or the NUL sentinel past the end.
pub open spec fn char_at(code: Seq<char>, i: int) -> char {
    if 0 <= i < code.len() {
        code[i]
    } else {
        '\u{0}'
    }
}

/// The keyword a word maps to, if any.
pub open spec fn keyword_type(t: Seq<char>) -> Option<TokenType> {
    if t == "let"@ {
        Some(TokenType::LET)
    } else if t == "fun"@ {
        Some(TokenType::FUN)
    } else if t == "return"@ {
        Some(TokenType::RETURN)
    } else if t == "if"@ {
        Some(TokenType::IF)
    } else if t == "else"@ {
        Some(TokenType::ELSE)
    } else if t == "true"@ || t == "false"@ {
        Some(TokenType::BOOLEAN)
    } else if t == "for"@ {
        Some(TokenType::FOR)
    } else if t == "in"@ {
        Some(TokenType::IN)
    } else if t == "switch"@ {
        Some(TokenType::SWITCH)
    } else if t == "case"@ {
        Some(TokenType::CASE)
    } else if t == "default"@ {
        Some(TokenType::DEFAULT)
    } else if t == "while"@ {
        Some(TokenType::WHILE)
    } else if t == "do"@ {
        Some(TokenType::DO)
    } else if t == "break"@ {
        Some(TokenType::BREAK)
    } else if t == "continue"@ {
        Some(TokenType::CONTINUE)
    } else if t == "null"@ {
        Some(TokenType::NULL)
    } else if t == "typeof"@ {
        Some(TokenType::TYPEOF)
    } else if t == "class"@ {
        Some(TokenType::CLASS)
    } else if t == "new"@ {
        Some(TokenType::NEW)
    } else if t == "this"@ {
        Some(TokenType::THIS)
    } else if t == "import"@ {
        Some(TokenType::IMPORT)
    } else if t == "from"@ {
        Some(TokenType::FROM)
    } else if t == "NaN"@ {
        Some(TokenType::NAN)
    } else {
        None
    }
}

/// The operator a piece of text maps to, if any.
pub open spec fn op_type(t: Seq<char>) -> Option<TokenType> {
    if t == "+"@ {
        Some(TokenType::PLUS)
    } else if t == "-"@ {
        Some(TokenType::MINUS)
    } else if t == "*"@ {
        Some(TokenType::STAR)
    } else if t == "/"@ {
        Some(TokenType::SLASH)
    } else if t == "("@ {
        Some(TokenType::LPAR)
    } else if t == ")"@ {
        Some(TokenType::RPAR)
    } else if t == "{"@ {
        Some(TokenType::LBRACE)
    } else if t == "}"@ {
        Some(TokenType::RBRACE)
    } else if t == "["@ {
        Some(TokenType::LBRACKET)
    } else if t == "]"@ {
        Some(TokenType::RBRACKET)
    } else if t == "="@ {
        Some(TokenType::EQUALS)
    } else if t == ","@ {
        Some(TokenType::COMMA)
    } else if t == "!"@ {
        Some(TokenType::EXCL)
    } else if t == "=="@ {
        Some(TokenType::EQEQ)
    } else if t == "!="@ {
        Some(TokenType::EXCLEQ)
    } else if t == ">"@ {
        Some(TokenType::GT)
    } else if t == "<"@ {
        Some(TokenType::LT)
    } else if t == "<="@ {
        Some(TokenType::LTEQ)
    } else if t == ">="@ {
        Some(TokenType::GTEQ)
    } else if t == "&&"@ {
        Some(TokenType::AMPAMP)
    } else if t == "||"@ {
        Some(TokenType::BARBAR)
    } else if t == "->"@ {
        Some(TokenType::ARROW)
    } else if t == "."@ {
        Some(TokenType::DOT)
    } else if t == "..."@ {
        Some(TokenType::SPREAD)
    } else if t == "?"@ {
        Some(TokenType::QUESTION)
    } else if t == ":"@ {
        Some(TokenType::COLON)
    } else if t == "**"@ {
        Some(TokenType::DOUBLESTAR)
    } else if t == "%"@ {
        Some(TokenType::PERCENT)
    } else if t == "+="@ {
        Some(TokenType::PLUSEQ)
    } else if t == "-="@ {
        Some(TokenType::MINUSEQ)
    } else if t == "*="@ {
        Some(TokenType::MULTIPLYEQ)
    } else if t == "/="@ {
        Some(TokenType::DIVIDEEQ)
    } else if t == "**="@ {
        Some(TokenType::EXPONENTEQ)
    } else if t == "%="@ {
        Some(TokenType::REMAINDEREQ)
    } else {
        None
    }
}

/// Whether `c` can begin an operator.
pub open spec fn is_op_start(c: char) -> bool {
    c == '+' || c == '-' || c == '*' || c == '/' || c == '(' || c == ')' || c == '{' || c == '}'
        || c == '[' || c == ']' || c == '=' || c == ',' || c == '!' || c == '>' || c == '<'
        || c == '&' || c == '|' || c == '.' || c == '?' || c == ':' || c == '%'
}

/// The operator table, literal by literal.
pub proof fn lemma_op_table()
    ensures
        op_type("+"@) == Some(TokenType::PLUS),
        op_type("-"@) == Some(TokenType::MINUS),
        op_type("*"@) == Some(TokenType::STAR),
        op_type("/"@) == Some(TokenType::SLASH),
        op_type("("@) == Some(TokenType::LPAR),
        op_type(")"@) == Some(TokenType::RPAR),
        op_type("{"@) == Some(TokenType::LBRACE),
        op_type("}"@) == Some(TokenType::RBRACE),
        op_type("["@) == Some(TokenType::LBRACKET),
        op_type("]"@) == Some(TokenType::RBRACKET),
        op_type("="@) == Some(TokenType::EQUALS),
        op_type(","@) == Some(TokenType::COMMA),
        op_type("!"@) == Some(TokenType::EXCL),
        op_type("=="@) == Some(TokenType::EQEQ),
        op_type("!="@) == Some(TokenType::EXCLEQ),
        op_type(">"@) == Some(TokenType::GT),
        op_type("<"@) == Some(TokenType::LT),
        op_type("<="@) == Some(TokenType::LTEQ),
        op_type(">="@) == Some(TokenType::GTEQ),
        op_type("&&"@) == Some(TokenType::AMPAMP),
        op_type("||"@) == Some(TokenType::BARBAR),
        op_type("->"@) == Some(TokenType::ARROW),
        op_type("."@) == Some(TokenType::DOT),
        op_type("..."@) == Some(TokenType::SPREAD),
        op_type("?"@) == Some(TokenType::QUESTION),
        op_type(":"@) == Some(TokenType::COLON),
        op_type("**"@) == Some(TokenType::DOUBLESTAR),
        op_type("%"@) == Some(TokenType::PERCENT),
        op_type("+="@) == Some(TokenType::PLUSEQ),
        op_type("-="@) == Some(TokenType::MINUSEQ),
        op_type("*="@) == Some(TokenType::MULTIPLYEQ),
        op_type("/="@) == Some(TokenType::DIVIDEEQ),
        op_type("**="@) == Some(TokenType::EXPONENTEQ),
        op_type("%="@) == Some(TokenType::REMAINDEREQ),
{
    reveal_strlit("+");
    assert(("+"@).len() == 1);
    assert(("+"@)[0] == '+');
    reveal_strlit("-");
    assert(("-"@).len() == 1);
    assert(("-"@)[0] == '-');
    reveal_strlit("*");
    assert(("*"@).len() == 1);
    assert(("*"@)[0] == '*');
    reveal_strlit("/");
    assert(("/"@).len() == 1);
    assert(("/"@)[0] == '/');
    reveal_strlit("(");
    assert(("("@).len() == 1);
    assert(("("@)[0] == '(');
    reveal_strlit(")");
    assert((")"@).len() == 1);
    assert((")"@)[0] == ')');
    reveal_strlit("{");
    assert(("{"@).len() == 1);
    assert(("{"@)[0] == '{');
    reveal_strlit("}");
    assert(("}"@).len() == 1);
    assert(("}"@)[0] == '}');
    reveal_strlit("[");
    assert(("["@).len() == 1);
    assert(("["@)[0] == '[');
    reveal_strlit("]");
    assert(("]"@).len() == 1);
    assert(("]"@)[0] == ']');
    reveal_strlit("=");
    assert(("="@).len() == 1);
    assert(("="@)[0] == '=');
    reveal_strlit(",");
    assert((","@).len() == 1);
    assert((","@)[0] == ',');
    reveal_strlit("!");
    assert(("!"@).len() == 1);
    assert(("!"@)[0] == '!');
    reveal_strlit("==");
    assert(("=="@).len() == 2);
    assert(("=="@)[0] == '=');
    assert(("=="@)[1] == '=');
    reveal_strlit("!=");
    assert(("!="@).len() == 2);
    assert(("!="@)[0] == '!');
    assert(("!="@)[1] == '=');
    reveal_strlit(">");
    assert((">"@).len() == 1);
    assert((">"@)[0] == '>');
    reveal_strlit("<");
    assert(("<"@).len() == 1);
    assert(("<"@)[0] == '<');
    reveal_strlit("<=");
    assert(("<="@).len() == 2);
    assert(("<="@)[0] == '<');
    assert(("<="@)[1] == '=');
    reveal_strlit(">=");
    assert((">="@).len() == 2);
    assert((">="@)[0] == '>');
    assert((">="@)[1] == '=');
    reveal_strlit("&&");
    assert(("&&"@).len() == 2);
    assert(("&&"@)[0] == '&');
    assert(("&&"@)[1] == '&');
    reveal_strlit("||");
    assert(("||"@).len() == 2);
    assert(("||"@)[0] == '|');
    assert(("||"@)[1] == '|');
    reveal_strlit("->");
    assert(("->"@).len() == 2);
    assert(("->"@)[0] == '-');
    assert(("->"@)[1] == '>');
    reveal_strlit(".");
    assert(("."@).len() == 1);
    assert(("."@)[0] == '.');
    reveal_strlit("...");
    assert(("..."@).len() == 3);
    assert(("..."@)[0] == '.');
    assert(("..."@)[1] == '.');
    assert(("..."@)[2] == '.');
    reveal_strlit("?");
    assert(("?"@).len() == 1);
    assert(("?"@)[0] == '?');
    reveal_strlit(":");
    assert((":"@).len() == 1);
    assert((":"@)[0] == ':');
    reveal_strlit("**");
    assert(("**"@).len() == 2);
    assert(("**"@)[0] == '*');
    assert(("**"@)[1] == '*');
    reveal_strlit("%");
    assert(("%"@).len() == 1);
    assert(("%"@)[0] == '%');
    reveal_strlit("+=");
    assert(("+="@).len() == 2);
    assert(("+="@)[0] == '+');
    assert(("+="@)[1] == '=');
    reveal_strlit("-=");
    assert(("-="@).len() == 2);
    assert(("-="@)[0] == '-');
    assert(("-="@)[1] == '=');
    reveal_strlit("*=");
    assert(("*="@).len() == 2);
    assert(("*="@)[0] == '*');
    assert(("*="@)[1] == '=');
    reveal_strlit("/=");
    assert(("/="@).len() == 2);
    assert(("/="@)[0] == '/');
    assert(("/="@)[1] == '=');
    reveal_strlit("**=");
    assert(("**="@).len() == 3);
    assert(("**="@)[0] == '*');
    assert(("**="@)[1] == '*');
    assert(("**="@)[2] == '=');
    reveal_strlit("%=");
    assert(("%="@).len() == 2);
    assert(("%="@)[0] == '%');
    assert(("%="@)[1] == '=');
}

/// Whether `c` begins a string literal.
pub open spec fn is_quote(c: char) -> bool {
    c == '\u{27}' || c == '\u{22}'
}

impl Lexer {
    /// A fresh scanner over `input`.
    pub fn new(input: &str, resolver: &Resolver) -> (r: Lexer)
        ensures
            r.code@ == input@,
            r.tokens@.len() == 0,
            r.pos == 0,
            r.resolver.filename@ == resolver.filename@,
            r.resolver.code@ == resolver.code@,
    {
        Lexer {
            code: input.to_owned(),
            tokens: Vec::new(),
            pos: 0,
            resolver: Resolver {
                filename: resolver.filename.clone(),
                code: resolver.code.clone(),
            },
        }
    }

    /// The character `offset` places ahead of the scan position, or NUL
    /// past the end of the text.
    pub fn peek(&self, offset: Option<usize>) -> (r: char)
        ensures
            r == char_at(
                self.code@,
                self.pos + (match offset {
                    Some(o) => o as int,
                    None => 0int,
                }),
            ),
    {
        let off = match offset {
            Some(o) => o,
            None => 0,
        };
        let n = self.code.as_str().unicode_len();
        if off < n && self.pos < n - off {
            self.code.as_str().get_char(self.pos + off)
        } else {
            '\u{0}'
        }
    }

    /// Advances the scan position by one and returns the character there.
    pub fn next_char(&mut self) -> (r: char)
        requires
            old(self).pos < usize::MAX,
        ensures
            *final(self) == (Lexer { pos: (old(self).pos + 1) as usize, ..*old(self) }),
            r == char_at(final(self).code@, old(self).pos + 1),
    {
        self.pos = self.pos + 1;
        self.peek(None)
    }

    /// Appends one token for `text` ending at the current position.
    pub fn add_token(&mut self, token_type: TokenType, text: &str)
        ensures
            final(self).tokens@.len() == old(self).tokens@.len() + 1,
            final(self).tokens@.last().token_type == token_type,
            final(self).tokens@.last().text@ == text@,
            final(self).tokens@.last().pos == old(self).pos,
            final(self).tokens@.drop_last() == old(self).tokens@,
            *final(self) == (Lexer { tokens: final(self).tokens, ..*old(self) }),
    {
        let token = Token { token_type, text: text.to_owned(), pos: self.pos };
        self.tokens.push(token);
    }

    /// Scans a number: the maximal run of digits, with at most one
    /// decimal point; a second point is an error.
    #[verifier::loop_isolation(false)]
    pub fn parse_number(&mut self) -> (r: Result<(), Error>)
        requires
            old(self).pos <= old(self).code@.len(),
        ensures
            final(self).code@ == old(self).code@,
            final(self).pos <= final(self).code@.len() + 1,
            (is_digit(char_at(old(self).code@, old(self).pos as int)) && r is Ok)
                ==> final(self).pos > old(self).pos,
            match r {
                Ok(_) => {
                    &&& final(self).pos >= old(self).pos
                    &&& final(self).tokens@.len() == old(self).tokens@.len() + 1
                    &&& final(self).tokens@.drop_last() == old(self).tokens@
                    &&& final(self).tokens@.last().token_type == TokenType::NUMBER
                    &&& final(self).tokens@.last().text@ == final(self).code@.subrange(
                        old(self).pos as int,
                        final(self).pos as int,
                    )
                    &&& (forall|i: int|
                        old(self).pos <= i < final(self).pos ==> is_digit(
                            #[trigger] char_at(final(self).code@, i),
                        ) || char_at(final(self).code@, i) == '.')
                    &&& (forall|i: int, j: int|
                        old(self).pos <= i < j < final(self).pos ==> !(#[trigger] char_at(
                            final(self).code@,
                            i,
                        ) == '.' && #[trigger] char_at(final(self).code@, j) == '.'))
                    &&& (final(self).pos == final(self).code@.len() || !(is_digit(
                        char_at(final(self).code@, final(self).pos as int),
                    ) || char_at(final(self).code@, final(self).pos as int) == '.'))
                },
                Err(e) => {
                    &&& final(self).tokens@ == old(self).tokens@
                    &&& e.msg@ == "Invalid float"@
                    &&& char_at(final(self).code@, final(self).pos as int) == '.'
                    &&& exists|i: int|
                        old(self).pos <= i < final(self).pos && #[trigger] char_at(
                            final(self).code@,
                            i,
                        ) == '.'
                },
            },
    {
        let mut buffer = String::new();
        let mut seen_dot = false;
        loop
            invariant
                old(self).pos <= self.pos <= self.code@.len(),
                self.code@ == old(self).code@,
                self.tokens@ == old(self).tokens@,
                self.resolver == old(self).resolver,
                buffer@ == self.code@.subrange(old(self).pos as int, self.pos as int),
                forall|i: int|
                    old(self).pos <= i < self.pos ==> is_digit(
                        #[trigger] char_at(self.code@, i),
                    ) || char_at(self.code@, i) == '.',
                seen_dot <==> exists|i: int|
                    old(self).pos <= i < self.pos && #[trigger] char_at(self.code@, i) == '.',
                forall|i: int, j: int|
                    old(self).pos <= i < j < self.pos ==> !(#[trigger] char_at(self.code@, i)
                        == '.' && #[trigger] char_at(self.code@, j) == '.'),
            decreases self.code@.len() - self.pos,
        {
            let ghost had_dot = seen_dot;
            let current = self.peek(None);
            if current == '.' {
                if seen_dot {
                    let at = self.resolver.resolve_where(self.pos);
                    return Err(Error { msg: "Invalid float".to_owned(), pos: at });
                }
                seen_dot = true;
            } else if !crate::interpreter::char_is_digit(current) {
                break;
            }
            if self.pos == self.code.as_str().unicode_len() {
                break;
            }
            push_char(&mut buffer, current);
            let ghost pre = *self;
            let _ = self.next_char();
            proof {
                assert(buffer@ =~= self.code@.subrange(old(self).pos as int, self.pos as int));
                assert(self.code@.subrange(old(self).pos as int, self.pos as int).last()
                    == char_at(self.code@, pre.pos as int));
                assert(self.code@.subrange(old(self).pos as int, self.pos as int).drop_last()
                    =~= self.code@.subrange(old(self).pos as int, pre.pos as int));
            }
        }
        self.add_token(TokenType::NUMBER, buffer.as_str());
        Ok(())
    }

    /// Scans a word: the maximal identifier run; a keyword gets its own
    /// token kind, anything else is a plain word.
    #[verifier::loop_isolation(false)]
    pub fn parse_word(&mut self) -> (r: Result<(), Error>)
        requires
            old(self).pos <= old(self).code@.len(),
        ensures
            final(self).code@ == old(self).code@,
            final(self).pos <= final(self).code@.len(),
            r is Ok,
            final(self).pos >= old(self).pos,
            is_letter(char_at(old(self).code@, old(self).pos as int)) ==> final(self).pos
                > old(self).pos,
            final(self).tokens@.len() == old(self).tokens@.len() + 1,
            final(self).tokens@.drop_last() == old(self).tokens@,
            final(self).tokens@.last().text@ == final(self).code@.subrange(
                old(self).pos as int,
                final(self).pos as int,
            ),
            final(self).tokens@.last().token_type == (match keyword_type(
                final(self).tokens@.last().text@,
            ) {
                Some(t) => t,
                None => TokenType::WORD,
            }),
            forall|i: int|
                old(self).pos <= i < final(self).pos ==> is_ident_char(
                    #[trigger] char_at(final(self).code@, i),
                ),
            final(self).pos == final(self).code@.len() || !is_ident_char(
                char_at(final(self).code@, final(self).pos as int),
            ),
    {
        let mut buffer = String::new();
        loop
            invariant
                old(self).pos <= self.pos <= self.code@.len(),
                self.code@ == old(self).code@,
                self.tokens@ == old(self).tokens@,
                self.resolver == old(self).resolver,
                buffer@ == self.code@.subrange(old(self).pos as int, self.pos as int),
                forall|i: int|
                    old(self).pos <= i < self.pos ==> is_ident_char(
                        #[trigger] char_at(self.code@, i),
                    ),
            decreases self.code@.len() - self.pos,
        {
            let current = self.peek(None);
            if !is_variable(current) {
                break;
            }
            if self.pos == self.code.as_str().unicode_len() {
                break;
            }
            push_char(&mut buffer, current);
            let ghost pre = *self;
            let _ = self.next_char();
            proof {
                assert(buffer@ =~= self.code@.subrange(old(self).pos as int, self.pos as int));
            }
        }
        proof {
            if self.pos < self.code@.len() {
                assert(!is_ident_char(char_at(self.code@, self.pos as int)));
            }
        }
        let kind = lookup_keyword(buffer.as_str());
        self.add_token(kind, buffer.as_str());
        Ok(())
    }

    /// Scans a string literal: everything up to the matching quote; a
    /// text that ends first is an error.
    #[verifier::loop_isolation(false)]
    pub fn parse_string(&mut self) -> (r: Result<(), Error>)
        requires
            old(self).pos < old(self).code@.len(),
        ensures
            final(self).code@ == old(self).code@,
            final(self).pos <= final(self).code@.len() + 1,
            match r {
                Ok(_) => {
                    &&& final(self).pos > old(self).pos + 1
                    &&& final(self).tokens@.len() == old(self).tokens@.len() + 1
                    &&& final(self).tokens@.drop_last() == old(self).tokens@
                    &&& final(self).tokens@.last().token_type == TokenType::STRING
                    &&& final(self).tokens@.last().text@ == final(self).code@.subrange(
                        old(self).pos + 1,
                        final(self).pos - 1,
                    )
                    &&& char_at(final(self).code@, final(self).pos - 1) == char_at(
                        final(self).code@,
                        old(self).pos as int,
                    )
                    &&& (forall|i: int|
                        old(self).pos < i < final(self).pos - 1 ==> #[trigger] char_at(
                            final(self).code@,
                            i,
                        ) != char_at(final(self).code@, old(self).pos as int))
                },
                Err(e) => {
                    &&& final(self).tokens@ == old(self).tokens@
                    &&& e.msg@ == "String did not close"@
                    &&& (forall|i: int|
                        old(self).pos < i < final(self).code@.len() ==> #[trigger] char_at(
                            final(self).code@,
                            i,
                        ) != char_at(final(self).code@, old(self).pos as int))
                },
            },
    {
        let mut buffer = String::new();
        let quote = self.peek(None);
        let n = self.code.as_str().unicode_len();
        let mut current = self.next_char();
        loop
            invariant
                old(self).pos < self.pos <= self.code@.len(),
                n == self.code@.len(),
                self.code@ == old(self).code@,
                self.tokens@ == old(self).tokens@,
                self.resolver == old(self).resolver,
                quote == char_at(self.code@, old(self).pos as int),
                buffer@ == self.code@.subrange(old(self).pos + 1, self.pos as int),
                forall|i: int|
                    old(self).pos < i < self.pos ==> #[trigger] char_at(self.code@, i) != quote,
                current == char_at(self.code@, self.pos as int),
            decreases self.code@.len() + 1 - self.pos,
        {
            if self.pos >= n {
                let at = self.resolver.resolve_where(self.pos);
                return Err(Error { msg: "String did not close".to_owned(), pos: at });
            }
            if current == quote {
                break;
            }
            push_char(&mut buffer, current);
            let ghost pre = *self;
            current = self.next_char();
            proof {
                assert(buffer@ =~= self.code@.subrange(old(self).pos + 1, self.pos as int));
            }
        }
        let _ = self.next_char();
        self.add_token(TokenType::STRING, buffer.as_str());
        Ok(())
    }

    /// Skips a comment: to the end of the line, or to the closing `*/` of
    /// a block comment (an unclosed block comment is an error).
    #[verifier::loop_isolation(false)]
    pub fn parse_comment(&mut self, multiline: Option<bool>) -> (r: Result<(), Error>)
        requires
            old(self).pos <= old(self).code@.len(),
        ensures
            final(self).code@ == old(self).code@,
            final(self).tokens@ == old(self).tokens@,
            final(self).pos <= final(self).code@.len() + 2,
            final(self).pos >= old(self).pos,
            match r {
                Ok(_) => if multiline is Some {
                    &&& final(self).pos >= old(self).pos + 2
                    &&& char_at(final(self).code@, final(self).pos - 2) == '*'
                    &&& char_at(final(self).code@, final(self).pos - 1) == '/'
                } else {
                    &&& final(self).pos <= final(self).code@.len()
                    &&& (final(self).pos == final(self).code@.len() || char_at(
                        final(self).code@,
                        final(self).pos as int,
                    ) == '\r' || char_at(final(self).code@, final(self).pos as int) == '\n')
                },
                Err(e) => {
                    &&& e.msg@ == "Multiline comment did not close"@
                    &&& (forall|i: int|
                        old(self).pos <= i < final(self).code@.len() ==> !(#[trigger] char_at(
                            final(self).code@,
                            i,
                        ) == '*' && char_at(final(self).code@, i + 1) == '/'))
                },
            },
    {
        let n = self.code.as_str().unicode_len();
        if multiline.is_some() {
            loop
                invariant
                    old(self).pos <= self.pos <= self.code@.len(),
                    n == self.code@.len(),
                    self.code@ == old(self).code@,
                    self.tokens@ == old(self).tokens@,
                    self.resolver == old(self).resolver,
                    forall|i: int|
                        old(self).pos <= i < self.pos ==> !(#[trigger] char_at(self.code@, i)
                            == '*' && char_at(self.code@, i + 1) == '/'),
                decreases self.code@.len() - self.pos,
            {
                if self.pos >= n {
                    let at = self.resolver.resolve_where(self.pos);
                    return Err(Error { msg: "Multiline comment did not close".to_owned(), pos: at });
                }
                let current = self.peek(None);
                let after = self.peek(Some(1));
                if current == '*' && after == '/' {
                    break;
                }
                let _ = self.next_char();
            }
            let _ = self.next_char();
            let _ = self.next_char();
            return Ok(());
        }
        loop
            invariant
                old(self).pos <= self.pos <= self.code@.len(),
                n == self.code@.len(),
                self.code@ == old(self).code@,
                self.tokens@ == old(self).tokens@,
                self.resolver == old(self).resolver,
            decreases self.code@.len() - self.pos,
        {
            if self.pos >= n {
                break;
            }
            let current = self.peek(None);
            if current == '\r' || current == '\n' {
                break;
            }
            let _ = self.next_char();
        }
        Ok(())
    }

    /// Scans an operator by maximal munch against the operator table;
    /// `//` and `/*` divert to comment skipping. A leading character that
    /// forms no operator is an error.
    #[verifier::loop_isolation(false)]
    pub fn parse_operator(&mut self) -> (r: Result<(), Error>)
        requires
            old(self).pos < old(self).code@.len(),
        ensures
            final(self).code@ == old(self).code@,
            final(self).pos <= final(self).code@.len() + 2,
            final(self).pos > old(self).pos,
            match r {
                Ok(_) => {
                    ||| final(self).tokens@ == old(self).tokens@
                    ||| {
                        &&& final(self).tokens@.len() == old(self).tokens@.len() + 1
                        &&& final(self).tokens@.drop_last() == old(self).tokens@
                        &&& final(self).tokens@.last().text@ == final(self).code@.subrange(
                            old(self).pos as int,
                            final(self).pos as int,
                        )
                        &&& op_type(final(self).tokens@.last().text@) == Some(
                            final(self).tokens@.last().token_type,
                        )
                    }
                },
                Err(e) => final(self).tokens@ == old(self).tokens@ && (e.msg@
                    == "Unknown operator"@ || e.msg@ == "Multiline comment did not close"@),
            },
    {
        proof {
            lemma_op_table();
        }
        let n = self.code.as_str().unicode_len();
        let c0 = self.peek(None);
        let c1 = self.peek(Some(1));
        if c0 == '/' && c1 == '/' {
            let _ = self.next_char();
            return self.parse_comment(None);
        }
        if c0 == '/' && c1 == '*' {
            let _ = self.next_char();
            return self.parse_comment(Some(true));
        }
        let c2 = self.peek(Some(2));
        // Three-character operators.
        if c0 == '.' && c1 == '.' && c2 == '.' {
            let _ = self.next_char();
            let _ = self.next_char();
            let _ = self.next_char();
            proof {
                reveal_strlit("...");
                assert(self.code@.subrange(old(self).pos as int, self.pos as int) =~= "..."@);
            }
            self.add_token(TokenType::SPREAD, "...");
            return Ok(());
        }
        if c0 == '*' && c1 == '*' && c2 == '=' {
            let _ = self.next_char();
            let _ = self.next_char();
            let _ = self.next_char();
            proof {
                reveal_strlit("**=");
                assert(self.code@.subrange(old(self).pos as int, self.pos as int) =~= "**="@);
            }
            self.add_token(TokenType::EXPONENTEQ, "**=");
            return Ok(());
        }
        // Two-character operators.
        let two: Option<(TokenType, &str)> = if c0 == '=' && c1 == '=' {
            Some((TokenType::EQEQ, "=="))
        } else if c0 == '!' && c1 == '=' {
            Some((TokenType::EXCLEQ, "!="))
        } else if c0 == '<' && c1 == '=' {
            Some((TokenType::LTEQ, "<="))
        } else if c0 == '>' && c1 == '=' {
            Some((TokenType::GTEQ, ">="))
        } else if c0 == '&' && c1 == '&' {
            Some((TokenType::AMPAMP, "&&"))
        } else if c0 == '|' && c1 == '|' {
            Some((TokenType::BARBAR, "||"))
        } else if c0 == '-' && c1 == '>' {
            Some((TokenType::ARROW, "->"))
        } else if c0 == '*' && c1 == '*' {
            Some((TokenType::DOUBLESTAR, "**"))
        } else if c0 == '+' && c1 == '=' {
            Some((TokenType::PLUSEQ, "+="))
        } else if c0 == '-' && c1 == '=' {
            Some((TokenType::MINUSEQ, "-="))
        } else if c0 == '*' && c1 == '=' {
            Some((TokenType::MULTIPLYEQ, "*="))
        } else if c0 == '/' && c1 == '=' {
            Some((TokenType::DIVIDEEQ, "/="))
        } else if c0 == '%' && c1 == '=' {
            Some((TokenType::REMAINDEREQ, "%="))
        } else {
            None
        };
        match two {
            Some((kind, text)) => {
                let _ = self.next_char();
                let _ = self.next_char();
                proof {
                    reveal_strlit("==");
                    reveal_strlit("!=");
                    reveal_strlit("<=");
                    reveal_strlit(">=");
                    reveal_strlit("&&");
                    reveal_strlit("||");
                    reveal_strlit("->");
                    reveal_strlit("**");
                    reveal_strlit("+=");
                    reveal_strlit("-=");
                    reveal_strlit("*=");
                    reveal_strlit("/=");
                    reveal_strlit("%=");
                    assert(self.code@.subrange(old(self).pos as int, self.pos as int) =~= text@);
                }
                self.add_token(kind, text);
                return Ok(());
            },
            None => {},
        }
        // Single-character operators.
        let one: Option<(TokenType, &str)> = if c0 == '+' {
            Some((TokenType::PLUS, "+"))
        } else if c0 == '-' {
            Some((TokenType::MINUS, "-"))
        } else if c0 == '*' {
            Some((TokenType::STAR, "*"))
        } else if c0 == '/' {
            Some((TokenType::SLASH, "/"))
        } else if c0 == '(' {
            Some((TokenType::LPAR, "("))
        } else if c0 == ')' {
            Some((TokenType::RPAR, ")"))
        } else if c0 == '{' {
            Some((TokenType::LBRACE, "{"))
        } else if c0 == '}' {
            Some((TokenType::RBRACE, "}"))
        } else if c0 == '[' {
            Some((TokenType::LBRACKET, "["))
        } else if c0 == ']' {
            Some((TokenType::RBRACKET, "]"))
        } else if c0 == '=' {
            Some((TokenType::EQUALS, "="))
        } else if c0 == ',' {
            Some((TokenType::COMMA, ","))
        } else if c0 == '!' {
            Some((TokenType::EXCL, "!"))
        } else if c0 == '>' {
            Some((TokenType::GT, ">"))
        } else if c0 == '<' {
            Some((TokenType::LT, "<"))
        } else if c0 == '.' {
            Some((TokenType::DOT, "."))
        } else if c0 == '?' {
            Some((TokenType::QUESTION, "?"))
        } else if c0 == ':' {
            Some((TokenType::COLON, ":"))
        } else if c0 == '%' {
            Some((TokenType::PERCENT, "%"))
        } else {
            None
        };
        match one {
            Some((kind, text)) => {
                let _ = self.next_char();
                proof {
                    reveal_strlit("+");
                    reveal_strlit("-");
                    reveal_strlit("*");
                    reveal_strlit("/");
                    reveal_strlit("(");
                    reveal_strlit(")");
                    reveal_strlit("{");
                    reveal_strlit("}");
                    reveal_strlit("[");
                    reveal_strlit("]");
                    reveal_strlit("=");
                    reveal_strlit(",");
                    reveal_strlit("!");
                    reveal_strlit(">");
                    reveal_strlit("<");
                    reveal_strlit(".");
                    reveal_strlit("?");
                    reveal_strlit(":");
                    reveal_strlit("%");
                    assert(self.code@.subrange(old(self).pos as int, self.pos as int) =~= text@);
                }
                self.add_token(kind, text);
                Ok(())
            },
            None => {
                let _ = self.next_char();
                let at = self.resolver.resolve_where(self.pos);
                Err(Error { msg: "Unknown operator".to_owned(), pos: at })
            },
        }
    }

    /// Tokenizes the whole text: operators, numbers, words and strings in
    /// a single pass; anything else is skipped.
    #[verifier::loop_isolation(false)]
    pub fn analyse(&mut self) -> (r: Result<(), Error>)
        requires
            old(self).pos <= old(self).code@.len(),
        ensures
            final(self).code@ == old(self).code@,
            old(self).tokens@.is_prefix_of(final(self).tokens@),
            r is Ok ==> final(self).pos >= final(self).code@.len(),
    {
        loop
            invariant
                self.pos <= self.code@.len() + 2,
                self.code@ == old(self).code@,
                old(self).tokens@.is_prefix_of(self.tokens@),
            decreases self.code@.len() + 3 - self.pos,
        {
            if self.pos >= self.code.as_str().unicode_len() {
                return Ok(());
            }
            let current = self.peek(None);
            if char_is_op_start(current) {
                match self.parse_operator() {
                    Ok(_) => {},
                    Err(e) => {
                        return Err(e);
                    },
                }
            } else if crate::interpreter::char_is_digit(current) {
                match self.parse_number() {
                    Ok(_) => {},
                    Err(e) => {
                        return Err(e);
                    },
                }
            } else if crate::interpreter::char_is_letter(current) {
                match self.parse_word() {
                    Ok(_) => {},
                    Err(e) => {
                        return Err(e);
                    },
                }
            } else if current == '\u{27}' || current == '\u{22}' {
                match self.parse_string() {
                    Ok(_) => {},
                    Err(e) => {
                        return Err(e);
                    },
                }
            } else {
                let _ = self.next_char();
            }
        }
    }
}

/// Whether `c` can begin an operator, executably.
pub fn char_is_op_start(c: char) -> (r: bool)
    ensures
        r == is_op_start(c),
{
    c == '+' || c == '-' || c == '*' || c == '/' || c == '(' || c == ')' || c == '{' || c == '}'
        || c == '[' || c == ']' || c == '=' || c == ',' || c == '!' || c == '>' || c == '<'
        || c == '&' || c == '|' || c == '.' || c == '?' || c == ':' || c == '%'
}

/// Maps a scanned word to its keyword kind, or the plain word kind.
pub fn lookup_keyword(t: &str) -> (r: TokenType)
    ensures
        r == (match keyword_type(t@) {
            Some(k) => k,
            None => TokenType::WORD,
        }),
{
    if str_eq(t, "let") {
        TokenType::LET
    } else if str_eq(t, "fun") {
        TokenType::FUN
    } else if str_eq(t, "return") {
        TokenType::RETURN
    } else if str_eq(t, "if") {
        TokenType::IF
    } else if str_eq(t, "else") {
        TokenType::ELSE
    } else if str_eq(t, "true") {
        TokenType::BOOLEAN
    } else if str_eq(t, "false") {
        TokenType::BOOLEAN
    } else if str_eq(t, "for") {
        TokenType::FOR
    } else if str_eq(t, "in") {
        TokenType::IN
    } else if str_eq(t, "switch") {
        TokenType::SWITCH
    } else if str_eq(t, "case") {
        TokenType::CASE
    } else if str_eq(t, "default") {
        TokenType::DEFAULT
    } else if str_eq(t, "while") {
        TokenType::WHILE
    } else if str_eq(t, "do") {
        TokenType::DO
    } else if str_eq(t, "break") {
        TokenType::BREAK
    } else if str_eq(t, "continue") {
        TokenType::CONTINUE
    } else if str_eq(t, "null") {
        TokenType::NULL
    } else if str_eq(t, "typeof") {
        TokenType::TYPEOF
    } else if str_eq(t, "class") {
        TokenType::CLASS
    } else if str_eq(t, "new") {
        TokenType::NEW
    } else if str_eq(t, "this") {
        TokenType::THIS
    } else if str_eq(t, "import") {
        TokenType::IMPORT
    } else if str_eq(t, "from") {
        TokenType::FROM
    } else if str_eq(t, "NaN") {
        TokenType::NAN
    } else {
        TokenType::WORD
    }
}

} // verus!
