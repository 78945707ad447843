//! The parser: token stream to AST. A conventional recursive-descent,
//! precedence-climbing consumer of the cursor machinery below. Parsing
//! carries a nesting budget (`fuel`): each recursion level and list
//! element costs one unit, and an exhausted budget reports an error, so
//! every parse provably terminates.
use vstd::prelude::*;

use crate::ast::{
    AssignmentOp, BinaryOp, LogicalOp, Node, SwitchCase, UnaryOp,
};
use crate::lexer::{Token, TokenType};
use crate::strutil::str_eq;
use crate::types::{FunctionArgument, FunctionArguments};
use crate::{Error, Resolver};

verus! {

broadcast use {vstd::std_specs::vec::group_vec_axioms, vstd::seq::group_seq_axioms};

/// A cursor over a token stream, with the position resolver for error
/// reports.
#[derive(Debug)]
pub struct Parser {
    pub tokens: Vec<Token>,
    pub pos: usize,
    pub resolver: Resolver,
}

/// The kind of the token `off` places ahead of the cursor; EOF past the
/// end of the stream.
pub open spec fn tok_type(p: Parser, off: int) -> TokenType {
    if 0 <= p.pos + off < p.tokens@.len() {
        p.tokens@[p.pos + off].token_type
    } else {
        TokenType::EOF
    }
}

impl Parser {
    /// A fresh cursor at the start of `tokens`.
    pub fn new(tokens: Vec<Token>, resolver: &Resolver) -> (r: Parser)
        ensures
            r.tokens == tokens,
            r.pos == 0,
            r.resolver.filename@ == resolver.filename@,
            r.resolver.code@ == resolver.code@,
    {
        Parser {
            tokens,
            pos: 0,
            resolver: Resolver {
                filename: resolver.filename.clone(),
                code: resolver.code.clone(),
            },
        }
    }

    /// The token `pos` places ahead of the cursor, or an EOF token just
    /// past the stream.
    pub fn get_token(&self, pos: Option<usize>) -> (r: Token)
        requires
            self.pos + (match pos {
                Some(o) => o as int,
                None => 0int,
            }) <= usize::MAX,
        ensures
            ({
                let i = self.pos + (match pos {
                    Some(o) => o as int,
                    None => 0int,
                });
                if 0 <= i < self.tokens@.len() {
                    &&& r.token_type == self.tokens@[i].token_type
                    &&& r.text@ == self.tokens@[i].text@
                    &&& r.pos == self.tokens@[i].pos
                } else {
                    &&& r.token_type == TokenType::EOF
                    &&& r.text@ == "\u{0}"@
                    &&& r.pos == self.tokens@.len()
                }
            }),
    {
        let off = match pos {
            Some(o) => o,
            None => 0,
        };
        let current = self.pos + off;
        if current >= self.tokens.len() {
            return Token {
                token_type: TokenType::EOF,
                text: "\u{0}".to_owned(),
                pos: self.tokens.len(),
            };
        }
        let t = &self.tokens[current];
        Token { token_type: t.token_type, text: t.text.clone(), pos: t.pos }
    }

    /// Advances past the current token when its kind is `token_type`;
    /// reports whether it did. Matching the end-of-stream sentinel leaves
    /// the cursor where it is.
    pub fn match_token(&mut self, token_type: TokenType) -> (r: bool)
        ensures
            final(self).tokens == old(self).tokens,
            final(self).resolver == old(self).resolver,
            r == (tok_type(*old(self), 0) == token_type),
            (r && old(self).pos < old(self).tokens@.len()) ==> final(self).pos == old(self).pos
                + 1,
            (r && old(self).pos >= old(self).tokens@.len()) ==> final(self).pos == old(self).pos,
            !r ==> final(self).pos == old(self).pos,
            old(self).pos <= old(self).tokens@.len() ==> final(self).pos
                <= final(self).tokens@.len(),
    {
        let current = self.get_token(None);
        let matched = match (current.token_type, token_type) {
            (a, b) => token_types_eq(a, b),
        };
        if !matched {
            return false;
        }
        if self.pos < self.tokens.len() {
            self.pos = self.pos + 1;
        }
        true
    }

    /// Demands the current token to be of kind `token_type` and advances
    /// past it; any other kind is an error naming both kinds' mismatch.
    pub fn consume_token(&mut self, token_type: TokenType) -> (r: Result<Token, Error>)
        ensures
            final(self).tokens == old(self).tokens,
            final(self).resolver == old(self).resolver,
            match r {
                Ok(t) => {
                    &&& tok_type(*old(self), 0) == token_type
                    &&& (old(self).pos < old(self).tokens@.len() ==> final(self).pos
                        == old(self).pos + 1)
                    &&& (old(self).pos >= old(self).tokens@.len() ==> final(self).pos
                        == old(self).pos)
                    &&& (old(self).pos < old(self).tokens@.len() ==> t.text@
                        == old(self).tokens@[old(self).pos as int].text@)
                },
                Err(e) => {
                    &&& tok_type(*old(self), 0) != token_type
                    &&& final(self).pos == old(self).pos
                    &&& e.msg@ == "Token did not match"@
                },
            },
            old(self).pos <= old(self).tokens@.len() ==> final(self).pos
                <= final(self).tokens@.len(),
    {
        let current = self.get_token(None);
        if !token_types_eq(current.token_type, token_type) {
            let at = self.resolver.resolve_where(current.pos);
            return Err(Error { msg: "Token did not match".to_owned(), pos: at });
        }
        if self.pos < self.tokens.len() {
            self.pos = self.pos + 1;
        }
        Ok(current)
    }
}

/// Whether two token kinds are the same.
pub fn token_types_eq(a: TokenType, b: TokenType) -> (r: bool)
    ensures
        r == (a == b),
{
    a == b
}

/// The parse methods never touch the token list or the resolver, and keep
/// the cursor within the stream.
pub open spec fn cursor_frame(pre: Parser, post: Parser) -> bool {
    &&& post.tokens == pre.tokens
    &&& post.resolver == pre.resolver
    &&& post.pos <= post.tokens@.len()
}

impl Parser {
    /// The error for an exhausted nesting budget.
    fn budget_err(&self) -> (r: Error)
        ensures
            r.msg@ == "Parser budget exhausted"@,
    {
        crate::types::mk_err("Parser budget exhausted")
    }

    /// Parses the whole stream: statements up to the end of input, as one
    /// block.
    #[verifier::loop_isolation(false)]
    pub fn parse(&mut self, fuel: u64) -> (r: Result<Node, Error>)
        requires
            old(self).pos <= old(self).tokens@.len(),
        ensures
            cursor_frame(*old(self), *final(self)),
        decreases fuel,
    {
        if fuel == 0 {
            return Err(self.budget_err());
        }
        let f = fuel - 1;
        let mut root: Vec<Node> = Vec::new();
        let mut budget = fuel;
        loop
            invariant
                self.pos <= self.tokens@.len(),
                self.tokens == old(self).tokens,
                self.resolver == old(self).resolver,
            decreases budget,
        {
            if budget == 0 {
                return Err(self.budget_err());
            }
            budget = budget - 1;
            if self.match_token(TokenType::EOF) {
                break;
            }
            match self.statement(f) {
                Ok(stmt) => {
                    root.push(stmt);
                },
                Err(e) => {
                    return Err(e);
                },
            }
        }
        Ok(Node::BlockStatement(root))
    }

    /// A braced statement list.
    #[verifier::loop_isolation(false)]
    pub fn block(&mut self, fuel: u64) -> (r: Result<Node, Error>)
        requires
            old(self).pos <= old(self).tokens@.len(),
        ensures
            cursor_frame(*old(self), *final(self)),
        decreases fuel,
    {
        if fuel == 0 {
            return Err(self.budget_err());
        }
        let f = fuel - 1;
        let mut root: Vec<Node> = Vec::new();
        self.match_token(TokenType::LBRACE);
        let mut budget = fuel;
        loop
            invariant
                self.pos <= self.tokens@.len(),
                self.tokens == old(self).tokens,
                self.resolver == old(self).resolver,
            decreases budget,
        {
            if budget == 0 {
                return Err(self.budget_err());
            }
            budget = budget - 1;
            if self.match_token(TokenType::RBRACE) {
                break;
            }
            if self.match_token(TokenType::EOF) {
                return Err(crate::types::mk_err("Block did not close"));
            }
            match self.statement(f) {
                Ok(stmt) => {
                    root.push(stmt);
                },
                Err(e) => {
                    return Err(e);
                },
            }
        }
        Ok(Node::BlockStatement(root))
    }

    /// A braced block where one follows, else a single statement.
    #[verifier::loop_isolation(false)]
    pub fn statement_or_block(&mut self, fuel: u64) -> (r: Result<Node, Error>)
        requires
            old(self).pos <= old(self).tokens@.len(),
        ensures
            cursor_frame(*old(self), *final(self)),
        decreases fuel,
    {
        if fuel == 0 {
            return Err(self.budget_err());
        }
        let f = fuel - 1;
        let current = self.get_token(None);
        match current.token_type {
            TokenType::LBRACE => self.block(f),
            _ => self.statement(f),
        }
    }

    /// A parenthesized required-parameter list.
    #[verifier::loop_isolation(false)]
    fn parameter_list(&mut self, fuel: u64) -> (r: Result<FunctionArguments, Error>)
        requires
            old(self).pos <= old(self).tokens@.len(),
        ensures
            cursor_frame(*old(self), *final(self)),
        decreases fuel,
    {
        let mut args: Vec<FunctionArgument> = Vec::new();
        let mut budget = fuel;
        loop
            invariant
                self.pos <= self.tokens@.len(),
                self.tokens == old(self).tokens,
                self.resolver == old(self).resolver,
            decreases budget,
        {
            if budget == 0 {
                return Err(self.budget_err());
            }
            budget = budget - 1;
            if self.match_token(TokenType::RPAR) {
                break;
            }
            let arg = match self.consume_token(TokenType::WORD) {
                Ok(t) => t,
                Err(e) => {
                    return Err(e);
                },
            };
            args.push(FunctionArgument::Required(arg.text));
            self.match_token(TokenType::COMMA);
        }
        Ok(FunctionArguments::new(args))
    }

    /// One statement: a declaration, a control-flow form, or an
    /// expression.
    #[verifier::loop_isolation(false)]
    pub fn statement(&mut self, fuel: u64) -> (r: Result<Node, Error>)
        requires
            old(self).pos <= old(self).tokens@.len(),
        ensures
            cursor_frame(*old(self), *final(self)),
        decreases fuel,
    {
        if fuel == 0 {
            return Err(self.budget_err());
        }
        let f = fuel - 1;
        let current = self.get_token(None);
        match current.token_type {
            TokenType::LET => {
                self.match_token(TokenType::LET);
                let name = match self.consume_token(TokenType::WORD) {
                    Ok(t) => t,
                    Err(e) => {
                        return Err(e);
                    },
                };
                match self.consume_token(TokenType::EQUALS) {
                    Ok(_) => {},
                    Err(e) => {
                        return Err(e);
                    },
                }
                let value = match self.expression(f) {
                    Ok(v) => v,
                    Err(e) => {
                        return Err(e);
                    },
                };
                Ok(Node::Assign(Box::new(Node::Var(name.text)), Box::new(value)))
            },
            TokenType::FUN => {
                self.match_token(TokenType::FUN);
                let name = match self.consume_token(TokenType::WORD) {
                    Ok(t) => t,
                    Err(e) => {
                        return Err(e);
                    },
                };
                match self.consume_token(TokenType::LPAR) {
                    Ok(_) => {},
                    Err(e) => {
                        return Err(e);
                    },
                }
                let args = match self.parameter_list(f) {
                    Ok(a) => a,
                    Err(e) => {
                        return Err(e);
                    },
                };
                let body = match self.block(f) {
                    Ok(b) => b,
                    Err(e) => {
                        return Err(e);
                    },
                };
                Ok(Node::Fun(Box::new(Node::Var(name.text)), args, Box::new(body)))
            },
            TokenType::CLASS => {
                self.match_token(TokenType::CLASS);
                let class_name = match self.consume_token(TokenType::WORD) {
                    Ok(t) => t,
                    Err(e) => {
                        return Err(e);
                    },
                };
                self.match_token(TokenType::LBRACE);
                let mut prototype: Vec<(String, Node)> = Vec::new();
                let mut constructor: Option<Box<Node>> = None;
                let mut budget = fuel;
                loop
                    invariant
                        self.pos <= self.tokens@.len(),
                        self.tokens == old(self).tokens,
                        self.resolver == old(self).resolver,
                    decreases budget,
                {
                    if budget == 0 {
                        return Err(self.budget_err());
                    }
                    budget = budget - 1;
                    if self.match_token(TokenType::RBRACE) {
                        break;
                    }
                    let name = match self.consume_token(TokenType::WORD) {
                        Ok(t) => t,
                        Err(e) => {
                            return Err(e);
                        },
                    };
                    match self.consume_token(TokenType::LPAR) {
                        Ok(_) => {},
                        Err(e) => {
                            return Err(e);
                        },
                    }
                    let args = match self.parameter_list(f) {
                        Ok(a) => a,
                        Err(e) => {
                            return Err(e);
                        },
                    };
                    let body = match self.block(f) {
                        Ok(b) => b,
                        Err(e) => {
                            return Err(e);
                        },
                    };
                    let method = Node::Fun(
                        Box::new(Node::Var(name.text.clone())),
                        args,
                        Box::new(body),
                    );
                    if str_eq(name.text.as_str(), "constructor") {
                        constructor = Some(Box::new(method));
                    } else {
                        prototype.push((name.text, method));
                    }
                }
                Ok(Node::Class(class_name.text, constructor, prototype))
            },
            TokenType::IF => {
                self.match_token(TokenType::IF);
                match self.consume_token(TokenType::LPAR) {
                    Ok(_) => {},
                    Err(e) => {
                        return Err(e);
                    },
                }
                let condition = match self.expression(f) {
                    Ok(c) => c,
                    Err(e) => {
                        return Err(e);
                    },
                };
                match self.consume_token(TokenType::RPAR) {
                    Ok(_) => {},
                    Err(e) => {
                        return Err(e);
                    },
                }
                let if_statement = match self.statement_or_block(f) {
                    Ok(st) => st,
                    Err(e) => {
                        return Err(e);
                    },
                };
                let mut else_statement: Option<Box<Node>> = None;
                if self.match_token(TokenType::ELSE) {
                    match self.statement_or_block(f) {
                        Ok(st) => {
                            else_statement = Some(Box::new(st));
                        },
                        Err(e) => {
                            return Err(e);
                        },
                    }
                }
                Ok(Node::IfElseStatement(
                    Box::new(condition),
                    Box::new(if_statement),
                    else_statement,
                ))
            },
            TokenType::FOR => {
                self.match_token(TokenType::FOR);
                match self.consume_token(TokenType::LPAR) {
                    Ok(_) => {},
                    Err(e) => {
                        return Err(e);
                    },
                }
                let variable = match self.consume_token(TokenType::WORD) {
                    Ok(t) => t,
                    Err(e) => {
                        return Err(e);
                    },
                };
                match self.consume_token(TokenType::IN) {
                    Ok(_) => {},
                    Err(e) => {
                        return Err(e);
                    },
                }
                let iterator = match self.expression(f) {
                    Ok(it) => it,
                    Err(e) => {
                        return Err(e);
                    },
                };
                match self.consume_token(TokenType::RPAR) {
                    Ok(_) => {},
                    Err(e) => {
                        return Err(e);
                    },
                }
                let body = match self.block(f) {
                    Ok(b) => b,
                    Err(e) => {
                        return Err(e);
                    },
                };
                Ok(Node::ForStatement(variable.text, Box::new(iterator), Box::new(body)))
            },
            TokenType::WHILE => {
                self.match_token(TokenType::WHILE);
                match self.consume_token(TokenType::LPAR) {
                    Ok(_) => {},
                    Err(e) => {
                        return Err(e);
                    },
                }
                let condition = match self.expression(f) {
                    Ok(c) => c,
                    Err(e) => {
                        return Err(e);
                    },
                };
                match self.consume_token(TokenType::RPAR) {
                    Ok(_) => {},
                    Err(e) => {
                        return Err(e);
                    },
                }
                let body = match self.block(f) {
                    Ok(b) => b,
                    Err(e) => {
                        return Err(e);
                    },
                };
                Ok(Node::WhileStatement(Box::new(condition), Box::new(body)))
            },
            TokenType::SWITCH => self.switch_statement(f),
            TokenType::RETURN => {
                self.match_token(TokenType::RETURN);
                let returning = match self.expression(f) {
                    Ok(v) => v,
                    Err(e) => {
                        return Err(e);
                    },
                };
                Ok(Node::Return(Box::new(returning)))
            },
            TokenType::IMPORT => {
                self.match_token(TokenType::IMPORT);
                if self.get_token(None).token_type == TokenType::STRING {
                    let lib_name = match self.consume_token(TokenType::STRING) {
                        Ok(t) => t,
                        Err(e) => {
                            return Err(e);
                        },
                    };
                    return Ok(Node::Import(lib_name.text));
                }
                let mut libs: Vec<String> = Vec::new();
                let mut budget = fuel;
                loop
                    invariant
                        self.pos <= self.tokens@.len(),
                        self.tokens == old(self).tokens,
                        self.resolver == old(self).resolver,
                    decreases budget,
                {
                    if budget == 0 {
                        return Err(self.budget_err());
                    }
                    budget = budget - 1;
                    if self.get_token(None).token_type != TokenType::WORD {
                        break;
                    }
                    let lib = match self.consume_token(TokenType::WORD) {
                        Ok(t) => t,
                        Err(e) => {
                            return Err(e);
                        },
                    };
                    libs.push(lib.text);
                    if !self.match_token(TokenType::COMMA) {
                        break;
                    }
                }
                match self.consume_token(TokenType::FROM) {
                    Ok(_) => {},
                    Err(e) => {
                        return Err(e);
                    },
                }
                let lib_name = match self.consume_token(TokenType::STRING) {
                    Ok(t) => t,
                    Err(e) => {
                        return Err(e);
                    },
                };
                Ok(Node::ImportFrom(lib_name.text, libs))
            },
            _ => self.expression(f),
        }
    }

    /// A `switch` with its case and default arms.
    #[verifier::loop_isolation(false)]
    pub fn switch_statement(&mut self, fuel: u64) -> (r: Result<Node, Error>)
        requires
            old(self).pos <= old(self).tokens@.len(),
        ensures
            cursor_frame(*old(self), *final(self)),
        decreases fuel,
    {
        if fuel == 0 {
            return Err(self.budget_err());
        }
        let f = fuel - 1;
        self.match_token(TokenType::SWITCH);
        match self.consume_token(TokenType::LPAR) {
            Ok(_) => {},
            Err(e) => {
                return Err(e);
            },
        }
        let variable = match self.variable_expression(f) {
            Ok(v) => v,
            Err(e) => {
                return Err(e);
            },
        };
        match self.consume_token(TokenType::RPAR) {
            Ok(_) => {},
            Err(e) => {
                return Err(e);
            },
        }
        let mut cases: Vec<SwitchCase> = Vec::new();
        let mut has_default = false;
        self.match_token(TokenType::LBRACE);
        let mut budget = fuel;
        loop
            invariant
                self.pos <= self.tokens@.len(),
                self.tokens == old(self).tokens,
                self.resolver == old(self).resolver,
            decreases budget,
        {
            if budget == 0 {
                return Err(self.budget_err());
            }
            budget = budget - 1;
            if self.match_token(TokenType::RBRACE) {
                break;
            }
            let current = self.get_token(None);
            match current.token_type {
                TokenType::DEFAULT => {
                    self.match_token(TokenType::DEFAULT);
                    if has_default {
                        let at = self.resolver.resolve_where(current.pos);
                        return Err(Error {
                            msg: "Switch case can not have two or more default cases".to_owned(),
                            pos: at,
                        });
                    }
                    has_default = true;
                    match self.consume_token(TokenType::COLON) {
                        Ok(_) => {},
                        Err(e) => {
                            return Err(e);
                        },
                    }
                    let stmt = match self.statement_or_block(f) {
                        Ok(st) => st,
                        Err(e) => {
                            return Err(e);
                        },
                    };
                    cases.push(SwitchCase::Default(stmt));
                },
                TokenType::CASE => {
                    self.match_token(TokenType::CASE);
                    let value = match self.value_expression(f) {
                        Ok(v) => v,
                        Err(e) => {
                            return Err(e);
                        },
                    };
                    match self.consume_token(TokenType::COLON) {
                        Ok(_) => {},
                        Err(e) => {
                            return Err(e);
                        },
                    }
                    let case_current = self.get_token(None);
                    let statement: Option<Node> = if case_current.token_type != TokenType::CASE
                        && case_current.token_type != TokenType::DEFAULT {
                        match self.statement_or_block(f) {
                            Ok(st) => Some(st),
                            Err(e) => {
                                return Err(e);
                            },
                        }
                    } else {
                        None
                    };
                    cases.push(SwitchCase::Case(value, statement));
                },
                _ => {
                    let at = self.resolver.resolve_where(current.pos);
                    return Err(Error { msg: "Unknown expression".to_owned(), pos: at });
                },
            }
        }
        Ok(Node::SwitchStatement(Box::new(variable), cases))
    }

    /// An expression: an assignment where one stands, else a ternary.
    #[verifier::loop_isolation(false)]
    pub fn expression(&mut self, fuel: u64) -> (r: Result<Node, Error>)
        requires
            old(self).pos <= old(self).tokens@.len(),
        ensures
            cursor_frame(*old(self), *final(self)),
        decreases fuel,
    {
        if fuel == 0 {
            return Err(self.budget_err());
        }
        let f = fuel - 1;
        match self.assignment_expression(f) {
            Ok(Some(a)) => Ok(a),
            Ok(None) => self.ternary_expression(f),
            Err(e) => Err(e),
        }
    }

    /// A literal, a variable with suffixes, a parenthesized expression, a
    /// switch expression, or a constructor call.
    #[verifier::loop_isolation(false)]
    pub fn primary_expression(&mut self, fuel: u64) -> (r: Result<Node, Error>)
        requires
            old(self).pos <= old(self).tokens@.len(),
        ensures
            cursor_frame(*old(self), *final(self)),
        decreases fuel,
    {
        if fuel == 0 {
            return Err(self.budget_err());
        }
        let f = fuel - 1;
        let current = self.get_token(None);
        match current.token_type {
            TokenType::WORD | TokenType::STRING | TokenType::NUMBER | TokenType::BOOLEAN
                | TokenType::LBRACKET | TokenType::LBRACE | TokenType::NULL | TokenType::NAN => {
                let var_val = match self.var_val_expression(f) {
                    Ok(v) => v,
                    Err(e) => {
                        return Err(e);
                    },
                };
                let field_access = match self.field_access_expression(var_val, f) {
                    Ok(v) => v,
                    Err(e) => {
                        return Err(e);
                    },
                };
                if self.get_token(None).token_type == TokenType::LPAR {
                    return self.function_chain_expression(field_access, f);
                }
                Ok(field_access)
            },
            TokenType::LPAR => {
                self.match_token(TokenType::LPAR);
                let expr = match self.expression(f) {
                    Ok(v) => v,
                    Err(e) => {
                        return Err(e);
                    },
                };
                self.match_token(TokenType::RPAR);
                Ok(expr)
            },
            TokenType::SWITCH => self.switch_statement(f),
            TokenType::NEW => {
                self.match_token(TokenType::NEW);
                let var = match self.variable_expression(f) {
                    Ok(v) => v,
                    Err(e) => {
                        return Err(e);
                    },
                };
                let field_access = match self.field_access_expression(var, f) {
                    Ok(v) => v,
                    Err(e) => {
                        return Err(e);
                    },
                };
                self.function_chain_expression(field_access, f)
            },
            _ => {
                let at = self.resolver.resolve_where(current.pos);
                Err(Error { msg: "Unknown expression".to_owned(), pos: at })
            },
        }
    }

    /// A call, possibly chained through further calls and field accesses.
    #[verifier::loop_isolation(false)]
    pub fn function_chain_expression(&mut self, variable: Node, fuel: u64) -> (r: Result<
        Node,
        Error,
    >)
        requires
            old(self).pos <= old(self).tokens@.len(),
        ensures
            cursor_frame(*old(self), *final(self)),
        decreases fuel,
    {
        if fuel == 0 {
            return Err(self.budget_err());
        }
        let f = fuel - 1;
        let fun_call = match self.function_call_expression(variable, f) {
            Ok(v) => v,
            Err(e) => {
                return Err(e);
            },
        };
        if self.get_token(None).token_type == TokenType::LPAR {
            return self.function_chain_expression(fun_call, f);
        }
        if self.get_token(None).token_type == TokenType::DOT {
            let suffixes = match self.variable_suffixes(f) {
                Ok(sfx) => sfx,
                Err(e) => {
                    return Err(e);
                },
            };
            if suffixes.len() == 0 {
                return Ok(fun_call);
            }
            if self.get_token(None).token_type == TokenType::LPAR {
                return self.function_chain_expression(
                    Node::FieldAccess(Box::new(fun_call), suffixes),
                    f,
                );
            }
            return Ok(Node::FieldAccess(Box::new(fun_call), suffixes));
        }
        Ok(fun_call)
    }

    /// A single call: the parenthesized argument list.
    #[verifier::loop_isolation(false)]
    pub fn function_call_expression(&mut self, variable: Node, fuel: u64) -> (r: Result<
        Node,
        Error,
    >)
        requires
            old(self).pos <= old(self).tokens@.len(),
        ensures
            cursor_frame(*old(self), *final(self)),
        decreases fuel,
    {
        if fuel == 0 {
            return Err(self.budget_err());
        }
        let f = fuel - 1;
        match self.consume_token(TokenType::LPAR) {
            Ok(_) => {},
            Err(e) => {
                return Err(e);
            },
        }
        let mut args: Vec<Node> = Vec::new();
        let mut budget = fuel;
        loop
            invariant
                self.pos <= self.tokens@.len(),
                self.tokens == old(self).tokens,
                self.resolver == old(self).resolver,
            decreases budget,
        {
            if budget == 0 {
                return Err(self.budget_err());
            }
            budget = budget - 1;
            if self.match_token(TokenType::RPAR) {
                break;
            }
            if self.match_token(TokenType::EOF) {
                return Err(crate::types::mk_err("Call did not close"));
            }
            match self.expression(f) {
                Ok(arg) => {
                    args.push(arg);
                },
                Err(e) => {
                    return Err(e);
                },
            }
            self.match_token(TokenType::COMMA);
        }
        Ok(Node::FunCall(Box::new(variable), args))
    }

    /// A variable where a word stands, else a literal value.
    #[verifier::loop_isolation(false)]
    pub fn var_val_expression(&mut self, fuel: u64) -> (r: Result<Node, Error>)
        requires
            old(self).pos <= old(self).tokens@.len(),
        ensures
            cursor_frame(*old(self), *final(self)),
        decreases fuel,
    {
        if fuel == 0 {
            return Err(self.budget_err());
        }
        let f = fuel - 1;
        if self.get_token(None).token_type == TokenType::WORD {
            return self.variable_expression(f);
        }
        self.value_expression(f)
    }

    /// The `.field` and `[index]` suffixes following a value, as the flat
    /// index list the accessor walks.
    #[verifier::loop_isolation(false)]
    pub fn variable_suffixes(&mut self, fuel: u64) -> (r: Result<Vec<Node>, Error>)
        requires
            old(self).pos <= old(self).tokens@.len(),
        ensures
            cursor_frame(*old(self), *final(self)),
        decreases fuel,
    {
        if fuel == 0 {
            return Err(self.budget_err());
        }
        let f = fuel - 1;
        let mut indices: Vec<Node> = Vec::new();
        let mut budget = fuel;
        loop
            invariant
                self.pos <= self.tokens@.len(),
                self.tokens == old(self).tokens,
                self.resolver == old(self).resolver,
            decreases budget,
        {
            if budget == 0 {
                return Err(self.budget_err());
            }
            budget = budget - 1;
            let kind = self.get_token(None).token_type;
            if kind != TokenType::DOT && kind != TokenType::LBRACKET {
                break;
            }
            if self.match_token(TokenType::DOT) {
                let field = match self.consume_token(TokenType::WORD) {
                    Ok(t) => t,
                    Err(e) => {
                        return Err(e);
                    },
                };
                indices.push(Node::String(field.text));
            }
            if self.match_token(TokenType::LBRACKET) {
                match self.expression(f) {
                    Ok(idx) => {
                        indices.push(idx);
                    },
                    Err(e) => {
                        return Err(e);
                    },
                }
                self.match_token(TokenType::RBRACKET);
            }
        }
        Ok(indices)
    }

    /// The value with any field-access suffixes attached.
    #[verifier::loop_isolation(false)]
    pub fn field_access_expression(&mut self, variable: Node, fuel: u64) -> (r: Result<
        Node,
        Error,
    >)
        requires
            old(self).pos <= old(self).tokens@.len(),
        ensures
            cursor_frame(*old(self), *final(self)),
        decreases fuel,
    {
        if fuel == 0 {
            return Err(self.budget_err());
        }
        let f = fuel - 1;
        let indices = match self.variable_suffixes(f) {
            Ok(sfx) => sfx,
            Err(e) => {
                return Err(e);
            },
        };
        if indices.len() > 0 {
            return Ok(Node::FieldAccess(Box::new(variable), indices));
        }
        Ok(variable)
    }

    /// A bare variable reference.
    #[verifier::loop_isolation(false)]
    pub fn variable_expression(&mut self, fuel: u64) -> (r: Result<Node, Error>)
        requires
            old(self).pos <= old(self).tokens@.len(),
        ensures
            cursor_frame(*old(self), *final(self)),
        decreases fuel,
    {
        if fuel == 0 {
            return Err(self.budget_err());
        }
        let current = self.get_token(None);
        match current.token_type {
            TokenType::WORD => {
                self.match_token(TokenType::WORD);
                Ok(Node::Var(current.text))
            },
            _ => {
                let at = self.resolver.resolve_where(current.pos);
                Err(Error { msg: "Unknown variable".to_owned(), pos: at })
            },
        }
    }

    /// A range from `from` to the next value; `=` before the bound makes
    /// it inclusive.
    #[verifier::loop_isolation(false)]
    pub fn range_expression(&mut self, from: Node, fuel: u64) -> (r: Result<Node, Error>)
        requires
            old(self).pos <= old(self).tokens@.len(),
        ensures
            cursor_frame(*old(self), *final(self)),
        decreases fuel,
    {
        if fuel == 0 {
            return Err(self.budget_err());
        }
        let f = fuel - 1;
        let inclusive = self.match_token(TokenType::EQUALS);
        let to = match self.var_val_expression(f) {
            Ok(v) => v,
            Err(e) => {
                return Err(e);
            },
        };
        Ok(Node::Range(Box::new(from), Box::new(to), inclusive))
    }

    /// A literal: a string, number, boolean, null, array or object.
    #[verifier::loop_isolation(false)]
    pub fn value_expression(&mut self, fuel: u64) -> (r: Result<Node, Error>)
        requires
            old(self).pos <= old(self).tokens@.len(),
        ensures
            cursor_frame(*old(self), *final(self)),
        decreases fuel,
    {
        if fuel == 0 {
            return Err(self.budget_err());
        }
        let f = fuel - 1;
        let current = self.get_token(None);
        match current.token_type {
            TokenType::STRING => {
                self.match_token(TokenType::STRING);
                Ok(Node::String(current.text))
            },
            TokenType::NUMBER => {
                self.match_token(TokenType::NUMBER);
                match crate::num::num_parse(current.text.as_str()) {
                    Some(bits) => Ok(Node::Number(bits)),
                    None => {
                        let at = self.resolver.resolve_where(current.pos);
                        Err(Error { msg: "Invalid number literal".to_owned(), pos: at })
                    },
                }
            },
            TokenType::BOOLEAN => {
                self.match_token(TokenType::BOOLEAN);
                Ok(Node::Bool(str_eq(current.text.as_str(), "true")))
            },
            TokenType::NULL => {
                self.match_token(TokenType::NULL);
                Ok(Node::Null)
            },
            TokenType::NAN => {
                self.match_token(TokenType::NAN);
                Ok(Node::Number(crate::num::NAN_BITS))
            },
            TokenType::LBRACKET => {
                self.match_token(TokenType::LBRACKET);
                let mut values: Vec<Node> = Vec::new();
                let mut budget = fuel;
                loop
                    invariant
                        self.pos <= self.tokens@.len(),
                        self.tokens == old(self).tokens,
                        self.resolver == old(self).resolver,
                    decreases budget,
                {
                    if budget == 0 {
                        return Err(self.budget_err());
                    }
                    budget = budget - 1;
                    if self.match_token(TokenType::RBRACKET) {
                        break;
                    }
                    if self.match_token(TokenType::EOF) {
                        return Err(crate::types::mk_err("Array did not close"));
                    }
                    match self.expression(f) {
                        Ok(v) => {
                            values.push(v);
                        },
                        Err(e) => {
                            return Err(e);
                        },
                    }
                    self.match_token(TokenType::COMMA);
                }
                Ok(Node::Array(values))
            },
            TokenType::LBRACE => {
                self.match_token(TokenType::LBRACE);
                let mut map: Vec<(String, Node)> = Vec::new();
                let mut budget = fuel;
                loop
                    invariant
                        self.pos <= self.tokens@.len(),
                        self.tokens == old(self).tokens,
                        self.resolver == old(self).resolver,
                    decreases budget,
                {
                    if budget == 0 {
                        return Err(self.budget_err());
                    }
                    budget = budget - 1;
                    if self.match_token(TokenType::RBRACE) {
                        break;
                    }
                    let name = match self.consume_token(TokenType::WORD) {
                        Ok(t) => t,
                        Err(e) => {
                            return Err(e);
                        },
                    };
                    match self.consume_token(TokenType::COLON) {
                        Ok(_) => {},
                        Err(e) => {
                            return Err(e);
                        },
                    }
                    match self.expression(f) {
                        Ok(v) => {
                            map.push((name.text, v));
                        },
                        Err(e) => {
                            return Err(e);
                        },
                    }
                    self.match_token(TokenType::COMMA);
                }
                Ok(Node::Object(map))
            },
            _ => {
                let at = self.resolver.resolve_where(current.pos);
                Err(Error { msg: "Unknown value".to_owned(), pos: at })
            },
        }
    }

    /// An assignment where the text reads as one (a variable, optional
    /// suffixes and an assignment operator); otherwise the cursor is put
    /// back and nothing is produced.
    #[verifier::loop_isolation(false)]
    pub fn assignment_expression(&mut self, fuel: u64) -> (r: Result<Option<Node>, Error>)
        requires
            old(self).pos <= old(self).tokens@.len(),
        ensures
            cursor_frame(*old(self), *final(self)),
        decreases fuel,
    {
        if fuel == 0 {
            return Err(self.budget_err());
        }
        let f = fuel - 1;
        let pre_pos = self.pos;
        if self.get_token(None).token_type != TokenType::WORD {
            return Ok(None);
        }
        let variable = match self.variable_expression(f) {
            Ok(v) => v,
            Err(e) => {
                return Err(e);
            },
        };
        let field_access = match self.field_access_expression(variable, f) {
            Ok(v) => v,
            Err(e) => {
                return Err(e);
            },
        };
        let current = self.get_token(None);
        let op: Option<AssignmentOp> = match current.token_type {
            TokenType::EQUALS => Some(AssignmentOp::EQ),
            TokenType::PLUSEQ => Some(AssignmentOp::PLUSEQ),
            TokenType::MINUSEQ => Some(AssignmentOp::MINUSEQ),
            TokenType::MULTIPLYEQ => Some(AssignmentOp::MULEQ),
            TokenType::DIVIDEEQ => Some(AssignmentOp::DIVEQ),
            TokenType::REMAINDEREQ => Some(AssignmentOp::REMEQ),
            TokenType::EXPONENTEQ => Some(AssignmentOp::EXPEQ),
            _ => None,
        };
        match op {
            Some(assign_op) => {
                self.match_token(current.token_type);
                let value = match self.expression(f) {
                    Ok(v) => v,
                    Err(e) => {
                        return Err(e);
                    },
                };
                Ok(Some(Node::AssignOp(assign_op, Box::new(field_access), Box::new(value))))
            },
            None => {
                self.pos = pre_pos;
                Ok(None)
            },
        }
    }

    /// A ternary conditional, or the operand itself.
    #[verifier::loop_isolation(false)]
    pub fn ternary_expression(&mut self, fuel: u64) -> (r: Result<Node, Error>)
        requires
            old(self).pos <= old(self).tokens@.len(),
        ensures
            cursor_frame(*old(self), *final(self)),
        decreases fuel,
    {
        if fuel == 0 {
            return Err(self.budget_err());
        }
        let f = fuel - 1;
        let mut result = match self.logical_or_expression(f) {
            Ok(v) => v,
            Err(e) => {
                return Err(e);
            },
        };
        if self.match_token(TokenType::QUESTION) {
            let true_condition = match self.expression(f) {
                Ok(v) => v,
                Err(e) => {
                    return Err(e);
                },
            };
            match self.consume_token(TokenType::COLON) {
                Ok(_) => {},
                Err(e) => {
                    return Err(e);
                },
            }
            let false_condition = match self.expression(f) {
                Ok(v) => v,
                Err(e) => {
                    return Err(e);
                },
            };
            result = Node::Ternary(
                Box::new(result),
                Box::new(true_condition),
                Box::new(false_condition),
            );
        }
        Ok(result)
    }

    /// `||` chains, left-associative.
    #[verifier::loop_isolation(false)]
    pub fn logical_or_expression(&mut self, fuel: u64) -> (r: Result<Node, Error>)
        requires
            old(self).pos <= old(self).tokens@.len(),
        ensures
            cursor_frame(*old(self), *final(self)),
        decreases fuel,
    {
        if fuel == 0 {
            return Err(self.budget_err());
        }
        let f = fuel - 1;
        let mut result = match self.logical_and_expression(f) {
            Ok(v) => v,
            Err(e) => {
                return Err(e);
            },
        };
        let mut budget = fuel;
        loop
            invariant
                self.pos <= self.tokens@.len(),
                self.tokens == old(self).tokens,
                self.resolver == old(self).resolver,
            decreases budget,
        {
            if budget == 0 {
                return Err(self.budget_err());
            }
            budget = budget - 1;
            if !self.match_token(TokenType::BARBAR) {
                break;
            }
            let rhs = match self.logical_and_expression(f) {
                Ok(v) => v,
                Err(e) => {
                    return Err(e);
                },
            };
            result = Node::Logical(LogicalOp::OR, Box::new(result), Box::new(rhs));
        }
        Ok(result)
    }

    /// `&&` chains, left-associative.
    #[verifier::loop_isolation(false)]
    pub fn logical_and_expression(&mut self, fuel: u64) -> (r: Result<Node, Error>)
        requires
            old(self).pos <= old(self).tokens@.len(),
        ensures
            cursor_frame(*old(self), *final(self)),
        decreases fuel,
    {
        if fuel == 0 {
            return Err(self.budget_err());
        }
        let f = fuel - 1;
        let mut result = match self.logical_eq_expression(f) {
            Ok(v) => v,
            Err(e) => {
                return Err(e);
            },
        };
        let mut budget = fuel;
        loop
            invariant
                self.pos <= self.tokens@.len(),
                self.tokens == old(self).tokens,
                self.resolver == old(self).resolver,
            decreases budget,
        {
            if budget == 0 {
                return Err(self.budget_err());
            }
            budget = budget - 1;
            if !self.match_token(TokenType::AMPAMP) {
                break;
            }
            let rhs = match self.logical_eq_expression(f) {
                Ok(v) => v,
                Err(e) => {
                    return Err(e);
                },
            };
            result = Node::Logical(LogicalOp::AND, Box::new(result), Box::new(rhs));
        }
        Ok(result)
    }

    /// `==` and `!=` chains.
    #[verifier::loop_isolation(false)]
    pub fn logical_eq_expression(&mut self, fuel: u64) -> (r: Result<Node, Error>)
        requires
            old(self).pos <= old(self).tokens@.len(),
        ensures
            cursor_frame(*old(self), *final(self)),
        decreases fuel,
    {
        if fuel == 0 {
            return Err(self.budget_err());
        }
        let f = fuel - 1;
        let mut result = match self.logical_cond_expression(f) {
            Ok(v) => v,
            Err(e) => {
                return Err(e);
            },
        };
        let mut budget = fuel;
        loop
            invariant
                self.pos <= self.tokens@.len(),
                self.tokens == old(self).tokens,
                self.resolver == old(self).resolver,
            decreases budget,
        {
            if budget == 0 {
                return Err(self.budget_err());
            }
            budget = budget - 1;
            let op: Option<LogicalOp> = if self.match_token(TokenType::EQEQ) {
                Some(LogicalOp::EQ)
            } else if self.match_token(TokenType::EXCLEQ) {
                Some(LogicalOp::NOTEQ)
            } else {
                None
            };
            match op {
                Some(logical_op) => {
                    let rhs = match self.logical_cond_expression(f) {
                        Ok(v) => v,
                        Err(e) => {
                            return Err(e);
                        },
                    };
                    result = Node::Logical(logical_op, Box::new(result), Box::new(rhs));
                },
                None => {
                    break;
                },
            }
        }
        Ok(result)
    }

    /// `<`, `<=`, `>`, `>=` chains.
    #[verifier::loop_isolation(false)]
    pub fn logical_cond_expression(&mut self, fuel: u64) -> (r: Result<Node, Error>)
        requires
            old(self).pos <= old(self).tokens@.len(),
        ensures
            cursor_frame(*old(self), *final(self)),
        decreases fuel,
    {
        if fuel == 0 {
            return Err(self.budget_err());
        }
        let f = fuel - 1;
        let mut result = match self.binary_add_expression(f) {
            Ok(v) => v,
            Err(e) => {
                return Err(e);
            },
        };
        let mut budget = fuel;
        loop
            invariant
                self.pos <= self.tokens@.len(),
                self.tokens == old(self).tokens,
                self.resolver == old(self).resolver,
            decreases budget,
        {
            if budget == 0 {
                return Err(self.budget_err());
            }
            budget = budget - 1;
            let op: Option<LogicalOp> = if self.match_token(TokenType::GT) {
                Some(LogicalOp::GT)
            } else if self.match_token(TokenType::GTEQ) {
                Some(LogicalOp::GTEQ)
            } else if self.match_token(TokenType::LT) {
                Some(LogicalOp::LT)
            } else if self.match_token(TokenType::LTEQ) {
                Some(LogicalOp::LTEQ)
            } else {
                None
            };
            match op {
                Some(logical_op) => {
                    let rhs = match self.binary_add_expression(f) {
                        Ok(v) => v,
                        Err(e) => {
                            return Err(e);
                        },
                    };
                    result = Node::Logical(logical_op, Box::new(result), Box::new(rhs));
                },
                None => {
                    break;
                },
            }
        }
        Ok(result)
    }

    /// `+` and `-` chains.
    #[verifier::loop_isolation(false)]
    pub fn binary_add_expression(&mut self, fuel: u64) -> (r: Result<Node, Error>)
        requires
            old(self).pos <= old(self).tokens@.len(),
        ensures
            cursor_frame(*old(self), *final(self)),
        decreases fuel,
    {
        if fuel == 0 {
            return Err(self.budget_err());
        }
        let f = fuel - 1;
        let mut result = match self.binary_mul_expression(f) {
            Ok(v) => v,
            Err(e) => {
                return Err(e);
            },
        };
        let mut budget = fuel;
        loop
            invariant
                self.pos <= self.tokens@.len(),
                self.tokens == old(self).tokens,
                self.resolver == old(self).resolver,
            decreases budget,
        {
            if budget == 0 {
                return Err(self.budget_err());
            }
            budget = budget - 1;
            let op: Option<BinaryOp> = if self.match_token(TokenType::PLUS) {
                Some(BinaryOp::PLUS)
            } else if self.match_token(TokenType::MINUS) {
                Some(BinaryOp::MINUS)
            } else {
                None
            };
            match op {
                Some(binary_op) => {
                    let rhs = match self.binary_mul_expression(f) {
                        Ok(v) => v,
                        Err(e) => {
                            return Err(e);
                        },
                    };
                    result = Node::Binary(binary_op, Box::new(result), Box::new(rhs));
                },
                None => {
                    break;
                },
            }
        }
        Ok(result)
    }

    /// `*`, `/`, `%` and `**` chains.
    #[verifier::loop_isolation(false)]
    pub fn binary_mul_expression(&mut self, fuel: u64) -> (r: Result<Node, Error>)
        requires
            old(self).pos <= old(self).tokens@.len(),
        ensures
            cursor_frame(*old(self), *final(self)),
        decreases fuel,
    {
        if fuel == 0 {
            return Err(self.budget_err());
        }
        let f = fuel - 1;
        let mut result = match self.unary_expression(f) {
            Ok(v) => v,
            Err(e) => {
                return Err(e);
            },
        };
        let mut budget = fuel;
        loop
            invariant
                self.pos <= self.tokens@.len(),
                self.tokens == old(self).tokens,
                self.resolver == old(self).resolver,
            decreases budget,
        {
            if budget == 0 {
                return Err(self.budget_err());
            }
            budget = budget - 1;
            let op: Option<BinaryOp> = if self.match_token(TokenType::STAR) {
                Some(BinaryOp::MULTIPLY)
            } else if self.match_token(TokenType::SLASH) {
                Some(BinaryOp::DIVIDE)
            } else if self.match_token(TokenType::PERCENT) {
                Some(BinaryOp::REMAINDER)
            } else if self.match_token(TokenType::DOUBLESTAR) {
                Some(BinaryOp::EXPONENT)
            } else {
                None
            };
            match op {
                Some(binary_op) => {
                    let rhs = match self.unary_expression(f) {
                        Ok(v) => v,
                        Err(e) => {
                            return Err(e);
                        },
                    };
                    result = Node::Binary(binary_op, Box::new(result), Box::new(rhs));
                },
                None => {
                    break;
                },
            }
        }
        Ok(result)
    }

    /// A unary `-` or `!`, or a primary expression.
    #[verifier::loop_isolation(false)]
    pub fn unary_expression(&mut self, fuel: u64) -> (r: Result<Node, Error>)
        requires
            old(self).pos <= old(self).tokens@.len(),
        ensures
            cursor_frame(*old(self), *final(self)),
        decreases fuel,
    {
        if fuel == 0 {
            return Err(self.budget_err());
        }
        let f = fuel - 1;
        if self.match_token(TokenType::MINUS) {
            let operand = match self.expression(f) {
                Ok(v) => v,
                Err(e) => {
                    return Err(e);
                },
            };
            return Ok(Node::Unary(UnaryOp::MINUS, Box::new(operand)));
        }
        if self.match_token(TokenType::EXCL) {
            let operand = match self.expression(f) {
                Ok(v) => v,
                Err(e) => {
                    return Err(e);
                },
            };
            return Ok(Node::Unary(UnaryOp::NOT, Box::new(operand)));
        }
        self.primary_expression(f)
    }
}

} // verus!
