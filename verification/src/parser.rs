use vstd::prelude::*;
use vstd::string::*;
use crate::ast::{exprs_view, Expr, ExprV};
use crate::strutil::str_eq;
use crate::token::{toks_vw, Token, TokenV};

verus! {

/// Whether a token is the symbol with the given text.
pub open spec fn is_sym(tv: TokenV, s: Seq<char>) -> bool {
    tv matches TokenV::Symbol(x) && x == s
}

/// Whether a token is the operator with the given text.
pub open spec fn is_op(tv: TokenV, s: Seq<char>) -> bool {
    tv matches TokenV::Operator(x) && x == s
}

/// Whether a token is the keyword with the given text.
pub open spec fn is_kw(tv: TokenV, s: Seq<char>) -> bool {
    tv matches TokenV::Keyword(x) && x == s
}

/// Extends a name by dotted identifier segments: at each dot a following
/// identifier is required; the extended name and the position after it come
/// back.
pub open spec fn sp_dotted(t: Seq<TokenV>, pos: nat, name: Seq<char>) -> Result<
    (Seq<char>, nat),
    Seq<char>,
>
    decreases t.len() - pos,
    when pos <= t.len()
{
    if pos < t.len() && is_sym(t[pos as int], "."@) {
        if pos + 1 < t.len() && t[pos as int + 1] is Identifier {
            sp_dotted(t, pos + 2, name + "."@ + t[pos as int + 1]->Identifier_0)
        } else {
            Err("Expected identifier after '.'"@)
        }
    } else {
        Ok((name, pos))
    }
}

/// Gathers literal call arguments up to the closing parenthesis: strings,
/// identifiers, numbers and booleans, with optional commas between; any
/// other token ends the list and is consumed in its place.
pub open spec fn sp_args(t: Seq<TokenV>, pos: nat, acc: Seq<ExprV>) -> (Seq<ExprV>, nat)
    decreases t.len() - pos,
    when pos <= t.len()
{
    if pos >= t.len() {
        (acc, pos)
    } else if is_sym(t[pos as int], ")"@) {
        (acc, pos + 1)
    } else {
        let arg = match t[pos as int] {
            TokenV::String(s) => Some(ExprV::String(s)),
            TokenV::Identifier(id) => Some(ExprV::Identifier(id)),
            TokenV::Number(n) => Some(ExprV::Number(n)),
            TokenV::Boolean(b) => Some(ExprV::Boolean(b)),
            _ => None,
        };
        match arg {
            None => (acc, pos + 1),
            Some(a) => {
                if pos + 1 < t.len() && is_sym(t[pos as int + 1], ","@) {
                    sp_args(t, pos + 2, acc.push(a))
                } else {
                    sp_args(t, pos + 1, acc.push(a))
                }
            },
        }
    }
}

/// Parses one general expression: a return, a possibly dotted name followed
/// by a call or a bracketed map access or nothing, or any other token
/// consumed as an empty node.
pub open spec fn sp_parse_expression(t: Seq<TokenV>, pos: nat) -> Result<
    (ExprV, nat),
    Seq<char>,
>
    decreases t.len() - pos,
    when pos <= t.len()
{
    if pos >= t.len() {
        Ok((ExprV::Empty, pos))
    } else if is_kw(t[pos as int], "return"@) {
        if pos + 1 < t.len() && is_sym(t[pos as int + 1], ";"@) {
            Ok((ExprV::Return(Box::new(ExprV::Empty)), pos + 2))
        } else {
            match sp_parse_expression(t, pos + 1) {
                Ok((e, p2)) => Ok((ExprV::Return(Box::new(e)), p2)),
                Err(m) => Err(m),
            }
        }
    } else if t[pos as int] is Identifier {
        match sp_dotted(t, pos + 1, t[pos as int]->Identifier_0) {
            Err(m) => Err(m),
            Ok((name, p)) => {
                if p < t.len() && is_sym(t[p as int], "("@) {
                    let (args, p2) = sp_args(t, p + 1, Seq::<ExprV>::empty());
                    Ok((ExprV::FunctionCall { name, args }, p2))
                } else if p < t.len() && is_sym(t[p as int], "["@) {
                    if p + 1 < t.len() && t[p as int + 1] is String {
                        if p + 2 < t.len() && is_sym(t[p as int + 2], "]"@) {
                            Ok(
                                (
                                    ExprV::MapAccess {
                                        map: Box::new(ExprV::Identifier(name)),
                                        key: Box::new(ExprV::String(t[p as int + 1]->String_0)),
                                    },
                                    p + 3,
                                ),
                            )
                        } else {
                            Err("Expected ']' after map key"@)
                        }
                    } else if p + 1 < t.len() && t[p as int + 1] is Identifier {
                        if p + 2 < t.len() && is_sym(t[p as int + 2], "]"@) {
                            Ok(
                                (
                                    ExprV::MapAccess {
                                        map: Box::new(ExprV::Identifier(name)),
                                        key: Box::new(
                                            ExprV::Identifier(t[p as int + 1]->Identifier_0),
                                        ),
                                    },
                                    p + 3,
                                ),
                            )
                        } else {
                            Err("Expected ']' after map key"@)
                        }
                    } else {
                        Err("Expected string or identifier as map key"@)
                    }
                } else {
                    Ok((ExprV::Identifier(name), p))
                }
            },
        }
    } else {
        Ok((ExprV::Empty, pos + 1))
    }
}

/// Gathers the parameter list of a function definition: name, double colon
/// and type for each parameter, commas optional, up to the closing
/// parenthesis.
pub open spec fn sp_parse_params(
    t: Seq<TokenV>,
    pos: nat,
    acc: Seq<(Seq<char>, Seq<char>)>,
) -> Result<(Seq<(Seq<char>, Seq<char>)>, nat), Seq<char>>
    decreases t.len() - pos,
    when pos <= t.len()
{
    if pos >= t.len() {
        Err("Expected parameter name"@)
    } else if is_sym(t[pos as int], ")"@) {
        Ok((acc, pos + 1))
    } else if t[pos as int] is Identifier {
        if pos + 1 < t.len() && is_sym(t[pos as int + 1], "::"@) {
            if pos + 2 < t.len() && t[pos as int + 2] is Identifier {
                let pn = t[pos as int]->Identifier_0;
                let pt = t[pos as int + 2]->Identifier_0;
                if pos + 3 < t.len() && is_sym(t[pos as int + 3], ","@) {
                    sp_parse_params(t, pos + 4, acc.push((pn, pt)))
                } else {
                    sp_parse_params(t, pos + 3, acc.push((pn, pt)))
                }
            } else {
                Err("Expected parameter type"@)
            }
        } else {
            Err("Expected '::' after parameter name"@)
        }
    } else {
        Err("Expected parameter name"@)
    }
}

/// Gathers the body of a function definition up to its closing brace. When
/// filter is set, empty nodes are dropped rather than kept. An input that
/// ends before the brace is a parse error.
pub open spec fn sp_parse_body(t: Seq<TokenV>, pos: nat, acc: Seq<ExprV>, filter: bool) -> Result<
    (Seq<ExprV>, nat),
    Seq<char>,
>
    decreases t.len() - pos,
    when pos <= t.len()
{
    if pos >= t.len() {
        Err("Unexpected end of function body"@)
    } else if is_sym(t[pos as int], "}"@) {
        Ok((acc, pos + 1))
    } else {
        match sp_parse_expression(t, pos) {
            Err(m) => Err(m),
            Ok((e, p2)) => {
                let acc2 = if filter && (e matches ExprV::Empty) {
                    acc
                } else {
                    acc.push(e)
                };
                if pos < p2 <= t.len() {
                    sp_parse_body(t, p2, acc2, filter)
                } else {
                    Ok((acc2, p2))
                }
            },
        }
    }
}

/// Parses one function definition, the fn keyword already consumed: name,
/// parenthesised parameter list, arrow and return type, then a braced body.
pub open spec fn sp_parse_fn_after_kw(t: Seq<TokenV>, pos: nat, filter: bool) -> Result<
    (ExprV, nat),
    Seq<char>,
> {
    if pos < t.len() && t[pos as int] is Identifier {
        let name = t[pos as int]->Identifier_0;
        if pos + 1 < t.len() && is_sym(t[pos as int + 1], "("@) {
            match sp_parse_params(t, pos + 2, Seq::<(Seq<char>, Seq<char>)>::empty()) {
                Err(m) => Err(m),
                Ok((params, p3)) => {
                    if p3 <= t.len() {
                        if p3 < t.len() && is_op(t[p3 as int], "->"@) {
                            if p3 + 1 < t.len() && t[p3 as int + 1] is Identifier {
                                let rt = t[p3 as int + 1]->Identifier_0;
                                if p3 + 2 < t.len() && is_sym(t[p3 as int + 2], "{"@) {
                                    match sp_parse_body(t, p3 + 3, Seq::<ExprV>::empty(), filter) {
                                        Err(m) => Err(m),
                                        Ok((body, p4)) => Ok(
                                            (
                                                ExprV::FunctionDef {
                                                    name,
                                                    params,
                                                    body,
                                                    return_type: rt,
                                                },
                                                p4,
                                            ),
                                        ),
                                    }
                                } else {
                                    Err("Expected '{' to start function body"@)
                                }
                            } else {
                                Err("Expected return type"@)
                            }
                        } else {
                            Err("Expected '->' after parameters"@)
                        }
                    } else {
                        Err("Expected '->' after parameters"@)
                    }
                },
            }
        } else {
            Err("Expected '(' after function name"@)
        }
    } else {
        Err("Expected function name"@)
    }
}

/// Parses the right side of a definition: a string, number or boolean
/// token stands for itself there, and anything else is read as a full
/// expression, which admits calls as initializers.
pub open spec fn sp_parse_define_value(t: Seq<TokenV>, pos: nat) -> Result<(ExprV, nat), Seq<char>> {
    if pos < t.len() && t[pos as int] is String {
        Ok((ExprV::String(t[pos as int]->String_0), pos + 1))
    } else if pos < t.len() && t[pos as int] is Number {
        Ok((ExprV::Number(t[pos as int]->Number_0), pos + 1))
    } else if pos < t.len() && t[pos as int] is Boolean {
        Ok((ExprV::Boolean(t[pos as int]->Boolean_0), pos + 1))
    } else {
        sp_parse_expression(t, pos)
    }
}

/// Parses one assignment, the define keyword already consumed: an optional
/// mut, a name, a double colon and type, the walrus, a literal or full
/// expression, and an optional semicolon.
pub open spec fn sp_parse_assignment(t: Seq<TokenV>, pos: nat) -> Result<(ExprV, nat), Seq<char>> {
    let (mutable, p) = if pos < t.len() && is_kw(t[pos as int], "mut"@) {
        (true, pos + 1)
    } else {
        (false, pos)
    };
    if p < t.len() && t[p as int] is Identifier {
        let name = t[p as int]->Identifier_0;
        if p + 1 < t.len() && is_sym(t[p as int + 1], "::"@) {
            if p + 2 < t.len() && t[p as int + 2] is Identifier {
                let ty = t[p as int + 2]->Identifier_0;
                if p + 3 < t.len() && is_op(t[p as int + 3], ":="@) {
                    match sp_parse_define_value(t, p + 4) {
                        Err(m) => Err(m),
                        Ok((v, p5)) => {
                            let p6 = if p5 < t.len() && is_sym(t[p5 as int], ";"@) {
                                p5 + 1
                            } else {
                                p5
                            };
                            Ok(
                                (
                                    ExprV::Assignment {
                                        name,
                                        value: Box::new(v),
                                        type_hint: Some(ty),
                                        mutable,
                                    },
                                    p6,
                                ),
                            )
                        },
                    }
                } else {
                    Err("Expected ':=' after type"@)
                }
            } else {
                Err("Expected type after '::'"@)
            }
        } else {
            Err("Expected '::' after identifier"@)
        }
    } else {
        Err("Expected identifier after 'define'"@)
    }
}

/// Gathers a module body up to its closing brace: nested function
/// definitions are kept; any other expression is parsed, reported in the
/// log, and discarded. An input that ends before the brace is a parse
/// error.
pub open spec fn sp_parse_module_body(
    t: Seq<TokenV>,
    pos: nat,
    name: Seq<char>,
    acc: Seq<ExprV>,
    logs: Seq<Seq<char>>,
) -> Result<(Seq<ExprV>, nat, Seq<Seq<char>>), Seq<char>>
    decreases t.len() - pos,
    when pos <= t.len()
{
    if pos >= t.len() {
        Err("Unexpected end of module body"@)
    } else if is_sym(t[pos as int], "}"@) {
        Ok((acc, pos + 1, logs))
    } else if is_kw(t[pos as int], "fn"@) {
        match sp_parse_fn_after_kw(t, pos + 1, true) {
            Err(m) => Err(m),
            Ok((def, p2)) => {
                if pos < p2 <= t.len() {
                    sp_parse_module_body(t, p2, name, acc.push(def), logs)
                } else {
                    Ok((acc.push(def), p2, logs))
                }
            },
        }
    } else {
        match sp_parse_expression(t, pos) {
            Err(m) => Err(m),
            Ok((e, p2)) => {
                let logs2 = if (e matches ExprV::Empty) {
                    logs
                } else {
                    logs.push("Ignored in module: "@ + name)
                };
                if pos < p2 <= t.len() {
                    sp_parse_module_body(t, p2, name, acc, logs2)
                } else {
                    Ok((acc, p2, logs2))
                }
            },
        }
    }
}

/// Parses one module, the summon keyword already consumed: a name, then a
/// braced body of function definitions.
pub open spec fn sp_parse_module(t: Seq<TokenV>, pos: nat, logs: Seq<Seq<char>>) -> Result<
    (ExprV, nat, Seq<Seq<char>>),
    Seq<char>,
> {
    if pos < t.len() && t[pos as int] is Identifier {
        let name = t[pos as int]->Identifier_0;
        if pos + 1 < t.len() && is_sym(t[pos as int + 1], "{"@) {
            match sp_parse_module_body(t, pos + 2, name, Seq::<ExprV>::empty(), logs) {
                Err(m) => Err(m),
                Ok((body, p2, logs2)) => Ok((ExprV::ModuleDef { name, body }, p2, logs2)),
            }
        } else {
            Err("Expected '{' to start module body"@)
        }
    } else {
        Err("Expected module name after 'summon'"@)
    }
}

/// Parses one import marker, the evoke keyword already consumed: a module
/// name and an optional semicolon.
pub open spec fn sp_parse_evoke(t: Seq<TokenV>, pos: nat) -> Result<(ExprV, nat), Seq<char>> {
    if pos < t.len() && t[pos as int] is Identifier {
        let p2 = if pos + 1 < t.len() && is_sym(t[pos as int + 1], ";"@) {
            pos + 2
        } else {
            pos + 1
        };
        Ok((ExprV::ModuleImport(t[pos as int]->Identifier_0), p2))
    } else {
        Err("Expected module name after 'evoke'"@)
    }
}

/// Parses a whole program from position pos with the nodes and log lines
/// gathered so far: the ordered top level nodes, or the first parse error.
pub open spec fn sp_parse_program(
    t: Seq<TokenV>,
    pos: nat,
    acc: Seq<ExprV>,
    logs: Seq<Seq<char>>,
) -> Result<(Seq<ExprV>, Seq<Seq<char>>), Seq<char>>
    decreases t.len() - pos,
    when pos <= t.len()
{
    if pos >= t.len() {
        Ok((acc, logs))
    } else if is_kw(t[pos as int], "fn"@) {
        match sp_parse_fn_after_kw(t, pos + 1, false) {
            Err(m) => Err(m),
            Ok((def, p2)) => {
                if pos < p2 <= t.len() {
                    sp_parse_program(t, p2, acc.push(def), logs)
                } else {
                    Ok((acc.push(def), logs))
                }
            },
        }
    } else if is_kw(t[pos as int], "summon"@) {
        match sp_parse_module(t, pos + 1, logs) {
            Err(m) => Err(m),
            Ok((md, p2, logs2)) => {
                if pos < p2 <= t.len() {
                    sp_parse_program(t, p2, acc.push(md), logs2)
                } else {
                    Ok((acc.push(md), logs2))
                }
            },
        }
    } else if is_kw(t[pos as int], "evoke"@) {
        match sp_parse_evoke(t, pos + 1) {
            Err(m) => Err(m),
            Ok((im, p2)) => {
                if pos < p2 <= t.len() {
                    sp_parse_program(t, p2, acc.push(im), logs)
                } else {
                    Ok((acc.push(im), logs))
                }
            },
        }
    } else if is_kw(t[pos as int], "define"@) {
        match sp_parse_assignment(t, pos + 1) {
            Err(m) => Err(m),
            Ok((a, p2)) => {
                if pos < p2 <= t.len() {
                    sp_parse_program(t, p2, acc.push(a), logs)
                } else {
                    Ok((acc.push(a), logs))
                }
            },
        }
    } else {
        match sp_parse_expression(t, pos) {
            Err(m) => Err(m),
            Ok((e, p2)) => {
                if pos < p2 <= t.len() {
                    sp_parse_program(t, p2, acc.push(e), logs)
                } else {
                    Ok((acc.push(e), logs))
                }
            },
        }
    }
}

/// The views of a sequence of log lines, in order.
pub open spec fn logs_vw(ls: Seq<String>) -> Seq<Seq<char>> {
    ls.map_values(|s: String| s@)
}

/// Whether a token is the given symbol.
fn tok_is_sym(t: &Token, s: &str) -> (r: bool)
    ensures
        r == is_sym(t@, s@),
{
    if let Token::Symbol(x) = t {
        str_eq(x.as_str(), s)
    } else {
        false
    }
}

/// Whether a token is the given operator.
fn tok_is_op(t: &Token, s: &str) -> (r: bool)
    ensures
        r == is_op(t@, s@),
{
    if let Token::Operator(x) = t {
        str_eq(x.as_str(), s)
    } else {
        false
    }
}

/// Whether a token is the given keyword.
fn tok_is_kw(t: &Token, s: &str) -> (r: bool)
    ensures
        r == is_kw(t@, s@),
{
    if let Token::Keyword(x) = t {
        str_eq(x.as_str(), s)
    } else {
        false
    }
}

/// The recursive descent parser: consumes the token sequence left to right
/// and produces the ordered top level nodes of the program.
pub struct Parser {
    pub tokens: Vec<Token>,
    pub position: usize,
    pub log: Vec<String>,
}

impl Parser {
    /// The token sequence, as token shapes.
    pub open spec fn toks(&self) -> Seq<TokenV> {
        toks_vw(self.tokens@)
    }

    /// A parser over the given tokens, at the start, with an empty log.
    pub fn new(tokens: Vec<Token>) -> (r: Self)
        ensures
            r.tokens == tokens,
            r.position == 0,
            r.log@ =~= Seq::<String>::empty(),
    {
        Self { tokens, position: 0, log: Vec::new() }
    }

    /// Extends a name by dotted identifier segments.
    fn dotted(&mut self, name: String) -> (r: Result<String, String>)
        requires
            old(self).position <= old(self).tokens@.len(),
        ensures
            final(self).tokens == old(self).tokens,
            final(self).log == old(self).log,
            old(self).position <= final(self).position <= final(self).tokens@.len(),
            ({
                let sp = sp_dotted(old(self).toks(), old(self).position as nat, name@);
                match r {
                    Ok(n2) => sp is Ok && n2@ == sp->Ok_0.0 && final(self).position as nat
                        == sp->Ok_0.1,
                    Err(m) => sp is Err && m@ == sp->Err_0,
                }
            }),
        decreases self.tokens@.len() - self.position,
    {
        let pos = self.position;
        if pos < self.tokens.len() && tok_is_sym(&self.tokens[pos], ".") {
            if pos + 1 < self.tokens.len() {
                if let Token::Identifier(nx) = &self.tokens[pos + 1] {
                    let mut name2 = name;
                    let ghost namev = name2@;
                    name2.append(".");
                    name2.append(nx.as_str());
                    proof {
                        assert(name2@ =~= namev + "."@ + nx@);
                    }
                    self.position = pos + 2;
                    return self.dotted(name2);
                }
            }
            Err(String::from_str("Expected identifier after '.'"))
        } else {
            Ok(name)
        }
    }

    /// Gathers literal call arguments up to the closing parenthesis.
    fn args(&mut self, acc: Vec<Expr>) -> (r: Vec<Expr>)
        requires
            old(self).position <= old(self).tokens@.len(),
        ensures
            final(self).tokens == old(self).tokens,
            final(self).log == old(self).log,
            old(self).position <= final(self).position <= final(self).tokens@.len(),
            ({
                let sp = sp_args(old(self).toks(), old(self).position as nat, exprs_view(acc@));
                exprs_view(r@) == sp.0 && final(self).position as nat == sp.1
            }),
        decreases self.tokens@.len() - self.position,
    {
        let pos = self.position;
        if pos >= self.tokens.len() {
            return acc;
        }
        if tok_is_sym(&self.tokens[pos], ")") {
            self.position = pos + 1;
            return acc;
        }
        let arg: Option<Expr> = match &self.tokens[pos] {
            Token::String(s) => Some(Expr::String(s.clone())),
            Token::Identifier(id) => Some(Expr::Identifier(id.clone())),
            Token::Number(n) => Some(Expr::Number(*n)),
            Token::Boolean(b) => Some(Expr::Boolean(*b)),
            _ => None,
        };
        match arg {
            None => {
                self.position = pos + 1;
                acc
            },
            Some(a) => {
                let ghost accv = exprs_view(acc@);
                let ghost av = a@;
                let mut acc2 = acc;
                acc2.push(a);
                proof {
                    crate::ast::lemma_exprs_view_push(acc@, a);
                    assert(exprs_view(acc2@) == accv.push(av));
                }
                if pos + 1 < self.tokens.len() && tok_is_sym(&self.tokens[pos + 1], ",") {
                    self.position = pos + 2;
                } else {
                    self.position = pos + 1;
                }
                self.args(acc2)
            },
        }
    }

    /// Parses one general expression.
    fn parse_expression(&mut self) -> (r: Result<Expr, String>)
        requires
            old(self).position <= old(self).tokens@.len(),
        ensures
            final(self).tokens == old(self).tokens,
            final(self).log == old(self).log,
            old(self).position <= final(self).position <= final(self).tokens@.len(),
            r is Ok && old(self).position < old(self).tokens@.len() ==> final(self).position
                > old(self).position,
            ({
                let sp = sp_parse_expression(old(self).toks(), old(self).position as nat);
                match r {
                    Ok(e) => sp is Ok && e@ == sp->Ok_0.0 && final(self).position as nat
                        == sp->Ok_0.1,
                    Err(m) => sp is Err && m@ == sp->Err_0,
                }
            }),
        decreases self.tokens@.len() - self.position,
    {
        proof {
            reveal_with_fuel(crate::ast::expr_view, 3);
        }
        let pos = self.position;
        if pos >= self.tokens.len() {
            return Ok(Expr::Empty);
        }
        if tok_is_kw(&self.tokens[pos], "return") {
            if pos + 1 < self.tokens.len() && tok_is_sym(&self.tokens[pos + 1], ";") {
                self.position = pos + 2;
                return Ok(Expr::Return(Box::new(Expr::Empty)));
            }
            self.position = pos + 1;
            return match self.parse_expression() {
                Ok(e) => Ok(Expr::Return(Box::new(e))),
                Err(m) => Err(m),
            };
        }
        let is_ident = matches!(&self.tokens[pos], Token::Identifier(_));
        if is_ident {
            let first = if let Token::Identifier(s) = &self.tokens[pos] {
                s.clone()
            } else {
                String::new()
            };
            self.position = pos + 1;
            match self.dotted(first) {
                Err(m) => Err(m),
                Ok(name) => {
                    let p = self.position;
                    if p < self.tokens.len() && tok_is_sym(&self.tokens[p], "(") {
                        self.position = p + 1;
                        let args = self.args(Vec::new());
                        proof {
                            assert(exprs_view(Seq::<Expr>::empty()) =~= Seq::<ExprV>::empty());
                        }
                        Ok(Expr::FunctionCall { name, args })
                    } else if p < self.tokens.len() && tok_is_sym(&self.tokens[p], "[") {
                        let key_is_str = p + 1 < self.tokens.len() && matches!(
                            &self.tokens[p + 1],
                            Token::String(_),
                        );
                        let key_is_id = p + 1 < self.tokens.len() && matches!(
                            &self.tokens[p + 1],
                            Token::Identifier(_),
                        );
                        if key_is_str {
                            let sk = if let Token::String(s) = &self.tokens[p + 1] {
                                s.clone()
                            } else {
                                String::new()
                            };
                            if p + 2 < self.tokens.len() && tok_is_sym(&self.tokens[p + 2], "]") {
                                self.position = p + 3;
                                Ok(Expr::MapAccess {
                                    map: Box::new(Expr::Identifier(name)),
                                    key: Box::new(Expr::String(sk)),
                                })
                            } else {
                                Err(String::from_str("Expected ']' after map key"))
                            }
                        } else if key_is_id {
                            let sk = if let Token::Identifier(s) = &self.tokens[p + 1] {
                                s.clone()
                            } else {
                                String::new()
                            };
                            if p + 2 < self.tokens.len() && tok_is_sym(&self.tokens[p + 2], "]") {
                                self.position = p + 3;
                                Ok(Expr::MapAccess {
                                    map: Box::new(Expr::Identifier(name)),
                                    key: Box::new(Expr::Identifier(sk)),
                                })
                            } else {
                                Err(String::from_str("Expected ']' after map key"))
                            }
                        } else {
                            Err(String::from_str("Expected string or identifier as map key"))
                        }
                    } else {
                        Ok(Expr::Identifier(name))
                    }
                },
            }
        } else {
            self.position = pos + 1;
            Ok(Expr::Empty)
        }
    }

    /// Gathers the parameter list of a function definition.
    fn params(&mut self, acc: Vec<(String, String)>) -> (r: Result<Vec<(String, String)>, String>)
        requires
            old(self).position <= old(self).tokens@.len(),
        ensures
            final(self).tokens == old(self).tokens,
            final(self).log == old(self).log,
            old(self).position <= final(self).position <= final(self).tokens@.len(),
            ({
                let sp = sp_parse_params(
                    old(self).toks(),
                    old(self).position as nat,
                    crate::ast::params_view(acc@),
                );
                match r {
                    Ok(ps) => sp is Ok && crate::ast::params_view(ps@) == sp->Ok_0.0 && final(self).position as nat == sp->Ok_0.1,
                    Err(m) => sp is Err && m@ == sp->Err_0,
                }
            }),
        decreases self.tokens@.len() - self.position,
    {
        let pos = self.position;
        if pos >= self.tokens.len() {
            return Err(String::from_str("Expected parameter name"));
        }
        if tok_is_sym(&self.tokens[pos], ")") {
            self.position = pos + 1;
            return Ok(acc);
        }
        let is_id = matches!(&self.tokens[pos], Token::Identifier(_));
        if !is_id {
            return Err(String::from_str("Expected parameter name"));
        }
        let pn = if let Token::Identifier(s) = &self.tokens[pos] {
            s.clone()
        } else {
            String::new()
        };
        if !(pos + 1 < self.tokens.len() && tok_is_sym(&self.tokens[pos + 1], "::")) {
            return Err(String::from_str("Expected '::' after parameter name"));
        }
        let is_ty = pos + 2 < self.tokens.len() && matches!(
            &self.tokens[pos + 2],
            Token::Identifier(_),
        );
        if !is_ty {
            return Err(String::from_str("Expected parameter type"));
        }
        let pt = if let Token::Identifier(s) = &self.tokens[pos + 2] {
            s.clone()
        } else {
            String::new()
        };
        let ghost accv = crate::ast::params_view(acc@);
        let ghost pnv = pn@;
        let ghost ptv = pt@;
        let mut acc2 = acc;
        acc2.push((pn, pt));
        proof {
            assert(crate::ast::params_view(acc2@) =~= accv.push((pnv, ptv)));
        }
        if pos + 3 < self.tokens.len() && tok_is_sym(&self.tokens[pos + 3], ",") {
            self.position = pos + 4;
        } else {
            self.position = pos + 3;
        }
        self.params(acc2)
    }

    /// Gathers a braced body of expressions up to the closing brace.
    fn body_exprs(&mut self, acc: Vec<Expr>, filter: bool) -> (r: Result<Vec<Expr>, String>)
        requires
            old(self).position <= old(self).tokens@.len(),
        ensures
            final(self).tokens == old(self).tokens,
            final(self).log == old(self).log,
            old(self).position <= final(self).position <= final(self).tokens@.len(),
            ({
                let sp = sp_parse_body(
                    old(self).toks(),
                    old(self).position as nat,
                    exprs_view(acc@),
                    filter,
                );
                match r {
                    Ok(b) => sp is Ok && exprs_view(b@) == sp->Ok_0.0 && final(self).position as nat == sp->Ok_0.1,
                    Err(m) => sp is Err && m@ == sp->Err_0,
                }
            }),
        decreases self.tokens@.len() - self.position,
    {
        let pos = self.position;
        if pos >= self.tokens.len() {
            return Err(String::from_str("Unexpected end of function body"));
        }
        if tok_is_sym(&self.tokens[pos], "}") {
            self.position = pos + 1;
            return Ok(acc);
        }
        match self.parse_expression() {
            Err(m) => Err(m),
            Ok(e) => {
                let is_empty = matches!(&e, Expr::Empty);
                proof {
                    assert(is_empty == (e@ is Empty));
                }
                let ghost accv = exprs_view(acc@);
                let ghost ev = e@;
                let mut acc2 = acc;
                if !(filter && is_empty) {
                    proof {
                        crate::ast::lemma_exprs_view_push(acc2@, e);
                    }
                    acc2.push(e);
                }
                self.body_exprs(acc2, filter)
            },
        }
    }

    /// Parses one function definition, the fn keyword already consumed.
    fn fn_after_kw(&mut self, filter: bool) -> (r: Result<Expr, String>)
        requires
            old(self).position <= old(self).tokens@.len(),
        ensures
            final(self).tokens == old(self).tokens,
            final(self).log == old(self).log,
            old(self).position <= final(self).position <= final(self).tokens@.len(),
            ({
                let sp = sp_parse_fn_after_kw(old(self).toks(), old(self).position as nat, filter);
                match r {
                    Ok(e) => sp is Ok && e@ == sp->Ok_0.0 && final(self).position as nat
                        == sp->Ok_0.1,
                    Err(m) => sp is Err && m@ == sp->Err_0,
                }
            }),
    {
        let pos = self.position;
        let is_name = pos < self.tokens.len() && matches!(&self.tokens[pos], Token::Identifier(_));
        if !is_name {
            return Err(String::from_str("Expected function name"));
        }
        let name = if let Token::Identifier(s) = &self.tokens[pos] {
            s.clone()
        } else {
            String::new()
        };
        if !(pos + 1 < self.tokens.len() && tok_is_sym(&self.tokens[pos + 1], "(")) {
            return Err(String::from_str("Expected '(' after function name"));
        }
        self.position = pos + 2;
        proof {
            assert(crate::ast::params_view(Seq::<(String, String)>::empty()) =~= Seq::<
                (Seq<char>, Seq<char>),
            >::empty());
        }
        let params = match self.params(Vec::new()) {
            Err(m) => {
                return Err(m);
            },
            Ok(ps) => ps,
        };
        let p3 = self.position;
        if !(p3 < self.tokens.len() && tok_is_op(&self.tokens[p3], "->")) {
            return Err(String::from_str("Expected '->' after parameters"));
        }
        let is_rt = p3 + 1 < self.tokens.len() && matches!(
            &self.tokens[p3 + 1],
            Token::Identifier(_),
        );
        if !is_rt {
            return Err(String::from_str("Expected return type"));
        }
        let rt = if let Token::Identifier(s) = &self.tokens[p3 + 1] {
            s.clone()
        } else {
            String::new()
        };
        if !(p3 + 2 < self.tokens.len() && tok_is_sym(&self.tokens[p3 + 2], "{")) {
            return Err(String::from_str("Expected '{' to start function body"));
        }
        self.position = p3 + 3;
        proof {
            assert(exprs_view(Seq::<Expr>::empty()) =~= Seq::<ExprV>::empty());
        }
        let body = match self.body_exprs(Vec::new(), filter) {
            Err(m) => {
                return Err(m);
            },
            Ok(b) => b,
        };
        Ok(Expr::FunctionDef { name, params, body, return_type: rt })
    }

    /// Parses the right side of a definition: a literal token stands for
    /// itself; anything else is read as a full expression.
    fn parse_define_value(&mut self) -> (r: Result<Expr, String>)
        requires
            old(self).position <= old(self).tokens@.len(),
        ensures
            final(self).tokens == old(self).tokens,
            final(self).log == old(self).log,
            old(self).position <= final(self).position <= final(self).tokens@.len(),
            ({
                let sp = sp_parse_define_value(old(self).toks(), old(self).position as nat);
                match r {
                    Ok(e) => sp is Ok && e@ == sp->Ok_0.0 && final(self).position as nat
                        == sp->Ok_0.1,
                    Err(m) => sp is Err && m@ == sp->Err_0,
                }
            }),
    {
        let pos = self.position;
        if pos < self.tokens.len() {
            let lit: Option<Expr> = match &self.tokens[pos] {
                Token::String(sv) => Some(Expr::String(sv.clone())),
                Token::Number(n) => Some(Expr::Number(*n)),
                Token::Boolean(b) => Some(Expr::Boolean(*b)),
                _ => None,
            };
            if let Some(e) = lit {
                self.position = pos + 1;
                return Ok(e);
            }
        }
        self.parse_expression()
    }

    /// Parses one assignment, the define keyword already consumed.
    fn parse_assignment(&mut self) -> (r: Result<Expr, String>)
        requires
            old(self).position <= old(self).tokens@.len(),
        ensures
            final(self).tokens == old(self).tokens,
            final(self).log == old(self).log,
            old(self).position <= final(self).position <= final(self).tokens@.len(),
            ({
                let sp = sp_parse_assignment(old(self).toks(), old(self).position as nat);
                match r {
                    Ok(e) => sp is Ok && e@ == sp->Ok_0.0 && final(self).position as nat
                        == sp->Ok_0.1,
                    Err(m) => sp is Err && m@ == sp->Err_0,
                }
            }),
    {
        let pos0 = self.position;
        let mutable = pos0 < self.tokens.len() && tok_is_kw(&self.tokens[pos0], "mut");
        let p = if mutable {
            pos0 + 1
        } else {
            pos0
        };
        let is_name = p < self.tokens.len() && matches!(&self.tokens[p], Token::Identifier(_));
        if !is_name {
            return Err(String::from_str("Expected identifier after 'define'"));
        }
        let name = if let Token::Identifier(s) = &self.tokens[p] {
            s.clone()
        } else {
            String::new()
        };
        if !(p + 1 < self.tokens.len() && tok_is_sym(&self.tokens[p + 1], "::")) {
            return Err(String::from_str("Expected '::' after identifier"));
        }
        let is_ty = p + 2 < self.tokens.len() && matches!(
            &self.tokens[p + 2],
            Token::Identifier(_),
        );
        if !is_ty {
            return Err(String::from_str("Expected type after '::'"));
        }
        let ty = if let Token::Identifier(s) = &self.tokens[p + 2] {
            s.clone()
        } else {
            String::new()
        };
        if !(p + 3 < self.tokens.len() && tok_is_op(&self.tokens[p + 3], ":=")) {
            return Err(String::from_str("Expected ':=' after type"));
        }
        self.position = p + 4;
        match self.parse_define_value() {
            Err(m) => Err(m),
            Ok(v) => {
                let p5 = self.position;
                if p5 < self.tokens.len() && tok_is_sym(&self.tokens[p5], ";") {
                    self.position = p5 + 1;
                }
                Ok(
                    Expr::Assignment {
                        name,
                        value: Box::new(v),
                        type_hint: Some(ty),
                        mutable,
                    },
                )
            },
        }
    }

    /// Gathers a module body up to the closing brace, keeping nested
    /// function definitions and logging whatever else was parsed.
    fn module_body(&mut self, name: &String, acc: Vec<Expr>) -> (r: Result<Vec<Expr>, String>)
        requires
            old(self).position <= old(self).tokens@.len(),
        ensures
            final(self).tokens == old(self).tokens,
            old(self).position <= final(self).position <= final(self).tokens@.len(),
            ({
                let sp = sp_parse_module_body(
                    old(self).toks(),
                    old(self).position as nat,
                    name@,
                    exprs_view(acc@),
                    logs_vw(old(self).log@),
                );
                match r {
                    Ok(b) => sp is Ok && exprs_view(b@) == sp->Ok_0.0 && final(self).position as nat == sp->Ok_0.1 && logs_vw(final(self).log@) == sp->Ok_0.2,
                    Err(m) => sp is Err && m@ == sp->Err_0,
                }
            }),
        decreases self.tokens@.len() - self.position,
    {
        let pos = self.position;
        if pos >= self.tokens.len() {
            return Err(String::from_str("Unexpected end of module body"));
        }
        if tok_is_sym(&self.tokens[pos], "}") {
            self.position = pos + 1;
            return Ok(acc);
        }
        if tok_is_kw(&self.tokens[pos], "fn") {
            self.position = pos + 1;
            return match self.fn_after_kw(true) {
                Err(m) => Err(m),
                Ok(def) => {
                    let ghost accv = exprs_view(acc@);
                    let ghost dv = def@;
                    let mut acc2 = acc;
                    proof {
                        crate::ast::lemma_exprs_view_push(acc2@, def);
                    }
                    acc2.push(def);
                    self.module_body(name, acc2)
                },
            };
        }
        match self.parse_expression() {
            Err(m) => Err(m),
            Ok(e) => {
                let is_empty = matches!(&e, Expr::Empty);
                proof {
                    assert(is_empty == (e@ is Empty));
                }
                if !is_empty {
                    let mut line = String::from_str("Ignored in module: ");
                    line.append(name.as_str());
                    let ghost logs0 = logs_vw(self.log@);
                    let ghost linev = line@;
                    self.log.push(line);
                    proof {
                        assert(linev =~= "Ignored in module: "@ + name@);
                        assert(logs_vw(self.log@) =~= logs0.push(linev));
                    }
                }
                self.module_body(name, acc)
            },
        }
    }

    /// Parses one module, the summon keyword already consumed.
    fn parse_module(&mut self) -> (r: Result<Expr, String>)
        requires
            old(self).position <= old(self).tokens@.len(),
        ensures
            final(self).tokens == old(self).tokens,
            old(self).position <= final(self).position <= final(self).tokens@.len(),
            ({
                let sp = sp_parse_module(
                    old(self).toks(),
                    old(self).position as nat,
                    logs_vw(old(self).log@),
                );
                match r {
                    Ok(e) => sp is Ok && e@ == sp->Ok_0.0 && final(self).position as nat
                        == sp->Ok_0.1 && logs_vw(final(self).log@) == sp->Ok_0.2,
                    Err(m) => sp is Err && m@ == sp->Err_0,
                }
            }),
    {
        let pos = self.position;
        let is_name = pos < self.tokens.len() && matches!(&self.tokens[pos], Token::Identifier(_));
        if !is_name {
            return Err(String::from_str("Expected module name after 'summon'"));
        }
        let name = if let Token::Identifier(s) = &self.tokens[pos] {
            s.clone()
        } else {
            String::new()
        };
        if !(pos + 1 < self.tokens.len() && tok_is_sym(&self.tokens[pos + 1], "{")) {
            return Err(String::from_str("Expected '{' to start module body"));
        }
        self.position = pos + 2;
        proof {
            assert(exprs_view(Seq::<Expr>::empty()) =~= Seq::<ExprV>::empty());
        }
        match self.module_body(&name, Vec::new()) {
            Err(m) => Err(m),
            Ok(body) => Ok(Expr::ModuleDef { name, body }),
        }
    }

    /// Parses one import marker, the evoke keyword already consumed.
    fn parse_evoke(&mut self) -> (r: Result<Expr, String>)
        requires
            old(self).position <= old(self).tokens@.len(),
        ensures
            final(self).tokens == old(self).tokens,
            final(self).log == old(self).log,
            old(self).position <= final(self).position <= final(self).tokens@.len(),
            ({
                let sp = sp_parse_evoke(old(self).toks(), old(self).position as nat);
                match r {
                    Ok(e) => sp is Ok && e@ == sp->Ok_0.0 && final(self).position as nat
                        == sp->Ok_0.1,
                    Err(m) => sp is Err && m@ == sp->Err_0,
                }
            }),
    {
        let pos = self.position;
        let is_name = pos < self.tokens.len() && matches!(&self.tokens[pos], Token::Identifier(_));
        if !is_name {
            return Err(String::from_str("Expected module name after 'evoke'"));
        }
        let m = if let Token::Identifier(s) = &self.tokens[pos] {
            s.clone()
        } else {
            String::new()
        };
        if pos + 1 < self.tokens.len() && tok_is_sym(&self.tokens[pos + 1], ";") {
            self.position = pos + 2;
        } else {
            self.position = pos + 1;
        }
        Ok(Expr::ModuleImport(m))
    }

    /// Parses the whole input: the ordered sequence of top level nodes, or
    /// the first parse error.
    #[verifier::rlimit(100)]
    pub fn parse(&mut self) -> (r: Result<Vec<Expr>, String>)
        requires
            old(self).position <= old(self).tokens@.len(),
        ensures
            final(self).tokens == old(self).tokens,
            ({
                let sp = sp_parse_program(
                    old(self).toks(),
                    old(self).position as nat,
                    Seq::<ExprV>::empty(),
                    logs_vw(old(self).log@),
                );
                match r {
                    Ok(es) => sp is Ok && exprs_view(es@) == sp->Ok_0.0 && logs_vw(
                        final(self).log@,
                    ) == sp->Ok_0.1,
                    Err(m) => sp is Err && m@ == sp->Err_0,
                }
            }),
    {
        let mut expressions: Vec<Expr> = Vec::new();
        let ghost t0 = self.toks();
        let ghost p0 = self.position as nat;
        let ghost l0 = logs_vw(self.log@);
        let ghost tokens0 = self.tokens;
        proof {
            assert(exprs_view(Seq::<Expr>::empty()) =~= Seq::<ExprV>::empty());
        }
        while self.position < self.tokens.len()
            invariant
                self.position <= self.tokens@.len(),
                self.tokens == tokens0,
                self.toks() == t0,
                tokens0 == old(self).tokens,
                t0 == old(self).toks(),
                p0 == old(self).position as nat,
                l0 == logs_vw(old(self).log@),
                sp_parse_program(
                    t0,
                    self.position as nat,
                    exprs_view(expressions@),
                    logs_vw(self.log@),
                ) == sp_parse_program(t0, p0, Seq::<ExprV>::empty(), l0),
            decreases self.tokens@.len() - self.position,
        {
            let pos = self.position;
            let ghost accv = exprs_view(expressions@);
            let ghost logsv = logs_vw(self.log@);
            let step: Result<Expr, String> = if tok_is_kw(&self.tokens[pos], "fn") {
                self.position = pos + 1;
                self.fn_after_kw(false)
            } else if tok_is_kw(&self.tokens[pos], "summon") {
                self.position = pos + 1;
                self.parse_module()
            } else if tok_is_kw(&self.tokens[pos], "evoke") {
                self.position = pos + 1;
                self.parse_evoke()
            } else if tok_is_kw(&self.tokens[pos], "define") {
                self.position = pos + 1;
                self.parse_assignment()
            } else {
                self.parse_expression()
            };
            match step {
                Err(m) => {
                    return Err(m);
                },
                Ok(e) => {
                    let ghost ev = e@;
                    proof {
                        crate::ast::lemma_exprs_view_push(expressions@, e);
                    }
                    expressions.push(e);
                },
            }
        }
        Ok(expressions)
    }
}

} // verus!
