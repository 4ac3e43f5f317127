use vstd::prelude::*;
use crate::ast::{exprs_view, Expr, ExprV};
use crate::parser::{is_sym, sp_args, sp_dotted, sp_parse_expression};
use crate::strutil::str_to_string;
use crate::token::{toks_vw, Token, TokenV};

verus! {

/// Whether a node is one of the literal argument forms a call site can
/// carry: a string, a bare identifier, a number or a boolean.
pub open spec fn sp_is_literal_arg(e: ExprV) -> bool {
    e is String || e is Identifier || e is Number || e is Boolean
}

/// The token a literal argument shows as at a call site.
pub open spec fn sp_arg_token(e: ExprV) -> TokenV {
    match e {
        ExprV::String(s) => TokenV::String(s),
        ExprV::Identifier(n) => TokenV::Identifier(n),
        ExprV::Number(b) => TokenV::Number(b),
        ExprV::Boolean(x) => TokenV::Boolean(x),
        _ => TokenV::EOF,
    }
}

/// The argument tokens of a call site from argument k on: the literal
/// tokens with commas between them, closed by the right parenthesis.
pub open spec fn sp_call_args_tokens(args: Seq<ExprV>, k: nat) -> Seq<TokenV>
    decreases args.len() - k,
    when k <= args.len()
{
    if k >= args.len() {
        seq![TokenV::Symbol(")"@)]
    } else if k + 1 < args.len() {
        seq![sp_arg_token(args[k as int]), TokenV::Symbol(","@)] + sp_call_args_tokens(args, k + 1)
    } else {
        seq![sp_arg_token(args[k as int])] + sp_call_args_tokens(args, k + 1)
    }
}

/// The canonical token text of a call site: the flat name, the opening
/// parenthesis, the comma-separated literal arguments, and the closing
/// parenthesis.
pub open spec fn sp_call_tokens(name: Seq<char>, args: Seq<ExprV>) -> Seq<TokenV> {
    seq![TokenV::Identifier(name), TokenV::Symbol("("@)] + sp_call_args_tokens(args, 0)
}

/// The four one-character symbol texts of a call site are pairwise
/// distinct.
proof fn lemma_symbol_texts()
    ensures
        ")"@ != ","@,
        "("@ != "."@,
{
    reveal_strlit(")");
    reveal_strlit(",");
    reveal_strlit("(");
    reveal_strlit(".");
    assert(")"@[0] == ')');
    assert(","@[0] == ',');
    assert("("@[0] == '(');
    assert("."@[0] == '.');
    if ")"@ == ","@ {
        assert(")"@[0] == ","@[0]);
    }
    if "("@ == "."@ {
        assert("("@[0] == "."@[0]);
    }
}

/// Parsing the canonical argument tokens gathers exactly the arguments, in
/// order, and stops just past the closing parenthesis.
proof fn lemma_parse_args(
    t: Seq<TokenV>,
    a: Seq<TokenV>,
    args: Seq<ExprV>,
    k: nat,
    acc: Seq<ExprV>,
    rest: Seq<TokenV>,
)
    requires
        k <= args.len(),
        forall|j: int| k <= j < args.len() ==> sp_is_literal_arg(#[trigger] args[j]),
        t == a + sp_call_args_tokens(args, k) + rest,
    ensures
        sp_args(t, a.len() as nat, acc) == (
            acc + args.subrange(k as int, args.len() as int),
            a.len() + sp_call_args_tokens(args, k).len(),
        ),
    decreases args.len() - k,
{
    lemma_symbol_texts();
    let pos = a.len() as nat;
    let toks = sp_call_args_tokens(args, k);
    assert(t.len() == a.len() + toks.len() + rest.len());
    if k >= args.len() {
        assert(t[pos as int] == TokenV::Symbol(")"@));
        assert(is_sym(t[pos as int], ")"@));
        assert(acc + args.subrange(k as int, args.len() as int) =~= acc);
        assert(sp_args(t, pos, acc) == (acc, pos + 1));
    } else {
        let tok = sp_arg_token(args[k as int]);
        assert(t[pos as int] == tok);
        assert(!(tok is Symbol));
        assert(!is_sym(t[pos as int], ")"@));
        let arg = match t[pos as int] {
            TokenV::String(s) => Some(ExprV::String(s)),
            TokenV::Identifier(id) => Some(ExprV::Identifier(id)),
            TokenV::Number(n) => Some(ExprV::Number(n)),
            TokenV::Boolean(b) => Some(ExprV::Boolean(b)),
            _ => None,
        };
        assert(arg == Some(args[k as int]));
        if k + 1 < args.len() {
            let hd = seq![tok, TokenV::Symbol(","@)];
            assert(t[pos as int + 1] == TokenV::Symbol(","@));
            assert(is_sym(t[pos as int + 1], ","@));
            assert(t =~= (a + hd) + sp_call_args_tokens(args, k + 1) + rest);
            lemma_parse_args(t, a + hd, args, k + 1, acc.push(args[k as int]), rest);
            assert((a + hd).len() == pos + 2);
            assert(acc.push(args[k as int]) + args.subrange(k as int + 1, args.len() as int)
                =~= acc + args.subrange(k as int, args.len() as int));
        } else {
            let hd = seq![tok];
            assert(sp_call_args_tokens(args, k + 1) == seq![TokenV::Symbol(")"@)]);
            assert(t[pos as int + 1] == TokenV::Symbol(")"@));
            assert(!is_sym(t[pos as int + 1], ","@));
            assert(t =~= (a + hd) + sp_call_args_tokens(args, k + 1) + rest);
            lemma_parse_args(t, a + hd, args, k + 1, acc.push(args[k as int]), rest);
            assert((a + hd).len() == pos + 1);
            assert(acc.push(args[k as int]) + args.subrange(k as int + 1, args.len() as int)
                =~= acc + args.subrange(k as int, args.len() as int));
        }
    }
}

/// Round trip of a literal call site: parsing the canonical tokens of a
/// flat name and literal arguments yields a call node holding exactly
/// that name and those arguments, and the node's canonical tokens are the
/// original tokens again, whatever follows the call site.
pub proof fn lemma_call_roundtrip(name: Seq<char>, args: Seq<ExprV>, rest: Seq<TokenV>)
    requires
        forall|j: int| 0 <= j < args.len() ==> sp_is_literal_arg(#[trigger] args[j]),
    ensures
        ({
            let site = sp_call_tokens(name, args);
            let t = site + rest;
            sp_parse_expression(t, 0) == Ok::<(ExprV, nat), Seq<char>>(
                (ExprV::FunctionCall { name, args }, site.len() as nat),
            )
        }),
        ({
            let parsed = sp_parse_expression(sp_call_tokens(name, args) + rest, 0);
            parsed matches Ok((e, _p)) && (e matches ExprV::FunctionCall {
                name: n2,
                args: a2,
            } ==> sp_call_tokens(n2, a2) == sp_call_tokens(name, args))
        }),
{
    lemma_symbol_texts();
    let site = sp_call_tokens(name, args);
    let t = site + rest;
    let a = seq![TokenV::Identifier(name), TokenV::Symbol("("@)];
    assert(t[0] == TokenV::Identifier(name));
    assert(t[1] == TokenV::Symbol("("@));
    assert(!(t[0] is Keyword));
    assert(t[0] is Identifier);
    assert(!is_sym(t[1], "."@));
    assert(sp_dotted(t, 1, name) == Ok::<(Seq<char>, nat), Seq<char>>((name, 1nat)));
    assert(is_sym(t[1], "("@));
    assert(t =~= a + sp_call_args_tokens(args, 0) + rest);
    lemma_parse_args(t, a, args, 0, Seq::<ExprV>::empty(), rest);
    assert(Seq::<ExprV>::empty() + args.subrange(0, args.len() as int) =~= args);
    assert(site.len() == 2 + sp_call_args_tokens(args, 0).len());
}

/// Whether a node is one of the literal argument forms, executably.
pub fn is_literal_arg(e: &Expr) -> (r: bool)
    ensures
        r == sp_is_literal_arg(e@),
{
    match e {
        Expr::String(_) => true,
        Expr::Identifier(_) => true,
        Expr::Number(_) => true,
        Expr::Boolean(_) => true,
        _ => false,
    }
}

/// Writes a call node back out as its canonical token text: the flat name,
/// the opening parenthesis, the comma-separated literal arguments, and the
/// closing parenthesis.
pub fn serialize_call(name: &String, args: &Vec<Expr>) -> (r: Vec<Token>)
    requires
        forall|j: int|
            0 <= j < args@.len() ==> sp_is_literal_arg(#[trigger] exprs_view(args@)[j]),
    ensures
        toks_vw(r@) == sp_call_tokens(name@, exprs_view(args@)),
{
    let ghost argsv = exprs_view(args@);
    proof {
        crate::ast::lemma_exprs_view_from(args@, 0);
    }
    let mut r: Vec<Token> = Vec::new();
    r.push(Token::Identifier(name.clone()));
    r.push(Token::Symbol(str_to_string("(")));
    let mut k: usize = 0;
    while k < args.len()
        invariant
            k <= args@.len(),
            argsv == exprs_view(args@),
            argsv.len() == args@.len(),
            forall|j: int| 0 <= j < argsv.len() ==> sp_is_literal_arg(#[trigger] argsv[j]),
            toks_vw(r@) + sp_call_args_tokens(argsv, k as nat) == sp_call_tokens(name@, argsv),
        decreases args@.len() - k,
    {
        let ghost r0 = toks_vw(r@);
        proof {
            crate::ast::lemma_exprs_view_from(args@, 0);
        }
        let tok: Token = match &args[k] {
            Expr::String(s) => Token::String(s.clone()),
            Expr::Identifier(n) => Token::Identifier(n.clone()),
            Expr::Number(b) => Token::Number(*b),
            Expr::Boolean(x) => Token::Boolean(*x),
            _ => Token::EOF,
        };
        proof {
            assert(tok@ == sp_arg_token(argsv[k as int]));
        }
        r.push(tok);
        if k + 1 < args.len() {
            r.push(Token::Symbol(str_to_string(",")));
            proof {
                assert(toks_vw(r@) =~= r0.push(sp_arg_token(argsv[k as int])).push(
                    TokenV::Symbol(","@),
                ));
                assert(sp_call_args_tokens(argsv, k as nat) =~= seq![
                    sp_arg_token(argsv[k as int]),
                    TokenV::Symbol(","@),
                ] + sp_call_args_tokens(argsv, k as nat + 1));
                assert(toks_vw(r@) + sp_call_args_tokens(argsv, k as nat + 1) =~= r0
                    + sp_call_args_tokens(argsv, k as nat));
            }
        } else {
            proof {
                assert(toks_vw(r@) =~= r0.push(sp_arg_token(argsv[k as int])));
                assert(sp_call_args_tokens(argsv, k as nat) =~= seq![
                    sp_arg_token(argsv[k as int]),
                ] + sp_call_args_tokens(argsv, k as nat + 1));
                assert(toks_vw(r@) + sp_call_args_tokens(argsv, k as nat + 1) =~= r0
                    + sp_call_args_tokens(argsv, k as nat));
            }
        }
        k = k + 1;
    }
    r.push(Token::Symbol(str_to_string(")")));
    proof {
        assert(sp_call_args_tokens(argsv, args@.len() as nat) =~= seq![TokenV::Symbol(")"@)]);
        assert(toks_vw(r@) =~= sp_call_tokens(name@, argsv));
    }
    r
}

} // verus!
