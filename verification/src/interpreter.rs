use vstd::prelude::*;
use vstd::string::*;
use crate::ast::{
    clone_exprs, clone_params, exprs_view, lemma_val_pairs_view_from, lemma_vals_view_push,
    params_view, vals_view, Expr, ExprV, Value, ValueV,
};
use crate::floatbits::{float_bits_is_zero, float_add, float_div, float_mul, float_sub,
    i32_to_f64_bits};
use crate::parser::logs_vw;
use crate::semantics::{
    assoc_get, assoc_get_from, assoc_set, assoc_set_from, call_depth, init_funcs, init_state,
    sp_arith, sp_bind, sp_cat_vals, sp_entry, sp_eval, sp_eval_args, sp_eval_expr,
    sp_eval_map_pairs, sp_interpret, sp_literal_value, sp_native, sp_pass_defs, sp_pass_rest,
    sp_register_defs, sp_run_body, FunctionV, NativeOp, StateV,
};
use crate::strutil::{push_char, str_eq};
use crate::value::{hint_matches, number_value, stringify};

verus! {

/// A callable of the registry: a native routine, or a user-defined
/// function.
#[derive(Debug, PartialEq)]
pub enum Function {
    Native(NativeOp),
    UserDefined {
        name: String,
        params: Vec<(String, String)>,
        body: Vec<Expr>,
        return_type: String,
    },
}

/// The mathematical shape of a callable.
pub open spec fn func_view(f: Function) -> FunctionV {
    match f {
        Function::Native(op) => FunctionV::Native(op),
        Function::UserDefined { name, params, body, return_type } => FunctionV::UserDefined {
            name: name@,
            params: params_view(params@),
            body: exprs_view(body@),
            return_type: return_type@,
        },
    }
}

impl View for Function {
    type V = FunctionV;

    open spec fn view(&self) -> FunctionV {
        func_view(*self)
    }
}

impl Clone for Function {
    /// A structural copy: the clone has the shape of the original.
    fn clone(&self) -> (r: Self)
        ensures
            r@ == self@,
    {
        match self {
            Function::Native(op) => Function::Native(*op),
            Function::UserDefined { name, params, body, return_type } => {
                let b = clone_exprs(body);
                proof {
                    crate::ast::lemma_exprs_view_eq(b@, body@);
                }
                Function::UserDefined {
                    name: name.clone(),
                    params: clone_params(params),
                    body: b,
                    return_type: return_type.clone(),
                }
            },
        }
    }
}

/// The views of a keyed sequence from position k on.
pub open spec fn pairs_vw_from<X: View>(s: Seq<(String, X)>, k: nat) -> Seq<(Seq<char>, X::V)>
    decreases s.len() - k,
    when k <= s.len()
{
    if k >= s.len() {
        Seq::<(Seq<char>, X::V)>::empty()
    } else {
        seq![(s[k as int].0@, s[k as int].1@)] + pairs_vw_from(s, k + 1)
    }
}

/// The views of a keyed sequence, in order.
pub open spec fn pairs_vw<X: View>(s: Seq<(String, X)>) -> Seq<(Seq<char>, X::V)> {
    pairs_vw_from(s, 0)
}

/// Positionwise reading of a keyed sequence's views.
pub proof fn lemma_pairs_vw_from<X: View>(s: Seq<(String, X)>, k: nat)
    requires
        k <= s.len(),
    ensures
        pairs_vw_from(s, k).len() == s.len() - k,
        forall|m: int|
            0 <= m < s.len() - k ==> pairs_vw_from(s, k)[m] == (s[k + m].0@, s[k + m].1@),
    decreases s.len() - k,
{
    if k < s.len() {
        lemma_pairs_vw_from(s, k + 1);
    }
}

/// The keyed views of a value list agree with the value pair views of the
/// syntax side.
pub proof fn lemma_pairs_vw_values(s: Seq<(String, Value)>)
    ensures
        pairs_vw(s) == crate::ast::val_pairs_view_from(s, 0),
{
    lemma_pairs_vw_from(s, 0);
    lemma_val_pairs_view_from(s, 0);
    assert(pairs_vw(s) =~= crate::ast::val_pairs_view_from(s, 0));
}

/// Looks a name up in a keyed vector; the first binding's value comes back
/// copied.
fn vec_get_value(m: &Vec<(String, Value)>, name: &str) -> (r: Option<Value>)
    ensures
        ({
            let sp = assoc_get(pairs_vw(m@), name@);
            match r {
                Some(v) => sp is Some && v@ == sp->0,
                None => sp is None,
            }
        }),
{
    let mut i: usize = 0;
    while i < m.len()
        invariant
            i <= m@.len(),
            assoc_get_from(pairs_vw(m@), name@, i as nat) == assoc_get(pairs_vw(m@), name@),
        decreases m@.len() - i,
    {
        proof {
            lemma_pairs_vw_from(m@, 0);
        }
        if str_eq(m[i].0.as_str(), name) {
            return Some(m[i].1.clone());
        }
        i = i + 1;
    }
    proof {
        lemma_pairs_vw_from(m@, 0);
    }
    None
}

/// Looks a name up in the function registry; the first binding's callable
/// comes back copied.
fn vec_get_func(m: &Vec<(String, Function)>, name: &str) -> (r: Option<Function>)
    ensures
        ({
            let sp = assoc_get(pairs_vw(m@), name@);
            match r {
                Some(v) => sp is Some && v@ == sp->0,
                None => sp is None,
            }
        }),
{
    let mut i: usize = 0;
    while i < m.len()
        invariant
            i <= m@.len(),
            assoc_get_from(pairs_vw(m@), name@, i as nat) == assoc_get(pairs_vw(m@), name@),
        decreases m@.len() - i,
    {
        proof {
            lemma_pairs_vw_from(m@, 0);
        }
        if str_eq(m[i].0.as_str(), name) {
            return Some(m[i].1.clone());
        }
        i = i + 1;
    }
    proof {
        lemma_pairs_vw_from(m@, 0);
    }
    None
}

/// Binds a name in a keyed value vector: an existing binding is replaced in
/// place, a new one is appended.
fn vec_set_value(m: &mut Vec<(String, Value)>, name: String, val: Value)
    ensures
        pairs_vw(final(m)@) == assoc_set(pairs_vw(old(m)@), name@, val@),
{
    let ghost m0 = pairs_vw(m@);
    let mut i: usize = 0;
    while i < m.len()
        invariant
            i <= m@.len(),
            m@ == old(m)@,
            m0 == pairs_vw(m@),
            assoc_set_from(m0, name@, val@, i as nat) == assoc_set(m0, name@, val@),
        decreases m@.len() - i,
    {
        proof {
            lemma_pairs_vw_from(m@, 0);
        }
        if str_eq(m[i].0.as_str(), name.as_str()) {
            let ghost iv = i as int;
            m.remove(i);
            m.insert(i, (name, val));
            proof {
                assert(m@ =~= old(m)@.update(iv, (m@[iv].0, m@[iv].1)));
                lemma_pairs_vw_from(m@, 0);
                lemma_pairs_vw_from(old(m)@, 0);
                assert(pairs_vw(m@) =~= m0.update(iv, (m@[iv].0@, m@[iv].1@)));
                assert(pairs_vw(final(m)@) =~= assoc_set(pairs_vw(old(m)@), name@, val@));
            }
            return ;
        }
        i = i + 1;
    }
    proof {
        lemma_pairs_vw_from(m@, 0);
    }
    let ghost iv = m@.len() as int;
    m.push((name, val));
    proof {
        lemma_pairs_vw_from(m@, 0);
        lemma_pairs_vw_from(old(m)@, 0);
        assert(pairs_vw(m@) =~= m0.push((m@[iv].0@, m@[iv].1@)));
        assert(pairs_vw(final(m)@) =~= assoc_set(pairs_vw(old(m)@), name@, val@));
    }
}

/// Binds a name in the function registry: an existing binding is replaced
/// in place, a new one is appended.
fn vec_set_func(m: &mut Vec<(String, Function)>, name: String, f: Function)
    ensures
        pairs_vw(final(m)@) == assoc_set(pairs_vw(old(m)@), name@, f@),
{
    let ghost m0 = pairs_vw(m@);
    let mut i: usize = 0;
    while i < m.len()
        invariant
            i <= m@.len(),
            m@ == old(m)@,
            m0 == pairs_vw(m@),
            assoc_set_from(m0, name@, f@, i as nat) == assoc_set(m0, name@, f@),
        decreases m@.len() - i,
    {
        proof {
            lemma_pairs_vw_from(m@, 0);
        }
        if str_eq(m[i].0.as_str(), name.as_str()) {
            let ghost iv = i as int;
            m.remove(i);
            m.insert(i, (name, f));
            proof {
                assert(m@ =~= old(m)@.update(iv, (m@[iv].0, m@[iv].1)));
                lemma_pairs_vw_from(m@, 0);
                lemma_pairs_vw_from(old(m)@, 0);
                assert(pairs_vw(m@) =~= m0.update(iv, (m@[iv].0@, m@[iv].1@)));
                assert(pairs_vw(final(m)@) =~= assoc_set(pairs_vw(old(m)@), name@, f@));
            }
            return ;
        }
        i = i + 1;
    }
    proof {
        lemma_pairs_vw_from(m@, 0);
    }
    let ghost iv = m@.len() as int;
    m.push((name, f));
    proof {
        lemma_pairs_vw_from(m@, 0);
        lemma_pairs_vw_from(old(m)@, 0);
        assert(pairs_vw(m@) =~= m0.push((m@[iv].0@, m@[iv].1@)));
        assert(pairs_vw(final(m)@) =~= assoc_set(pairs_vw(old(m)@), name@, f@));
    }
}

/// Copies the function registry; the copy has the shape of the original.
fn clone_funcs(m: &Vec<(String, Function)>) -> (r: Vec<(String, Function)>)
    ensures
        pairs_vw(r@) == pairs_vw(m@),
{
    let mut r: Vec<(String, Function)> = Vec::new();
    let mut i: usize = 0;
    while i < m.len()
        invariant
            i <= m@.len(),
            r@.len() == i,
            forall|k: int|
                0 <= k < i ==> (#[trigger] r@[k]).0@ == m@[k].0@ && r@[k].1@ == m@[k].1@,
        decreases m@.len() - i,
    {
        let p = &m[i];
        r.push((p.0.clone(), p.1.clone()));
        i = i + 1;
    }
    proof {
        lemma_pairs_vw_from(r@, 0);
        lemma_pairs_vw_from(m@, 0);
        assert(pairs_vw(r@) =~= pairs_vw(m@));
    }
    r
}

/// Copies a vector of strings exactly.
fn clone_strings(v: &Vec<String>) -> (r: Vec<String>)
    ensures
        r@ == v@,
{
    let mut r: Vec<String> = Vec::new();
    let mut i: usize = 0;
    while i < v.len()
        invariant
            i <= v@.len(),
            r@ == v@.subrange(0, i as int),
        decreases v@.len() - i,
    {
        r.push(v[i].clone());
        i = i + 1;
        proof {
            assert(r@ =~= v@.subrange(0, i as int));
        }
    }
    proof {
        assert(r@ =~= v@);
    }
    r
}

/// The tree-walking evaluator: the variable environment, the function
/// registry with the natives pre-registered, the import markers, and the
/// two observable streams, the program output and the log of reported
/// conditions.
pub struct Interpreter {
    pub env: Vec<(String, Value)>,
    pub functions: Vec<(String, Function)>,
    pub imported_modules: Vec<String>,
    pub output: String,
    pub log: Vec<String>,
}

impl View for Interpreter {
    type V = StateV;

    open spec fn view(&self) -> StateV {
        StateV {
            env: pairs_vw(self.env@),
            funcs: pairs_vw(self.functions@),
            imports: logs_vw(self.imported_modules@),
            output: self.output@,
            log: logs_vw(self.log@),
        }
    }
}

impl Interpreter {
    /// A fresh evaluator with the native routines pre-registered.
    pub fn new() -> (r: Self)
        ensures
            r@ == init_state(),
    {
        let mut interpreter = Self {
            env: Vec::new(),
            functions: Vec::new(),
            imported_modules: Vec::new(),
            output: String::new(),
            log: Vec::new(),
        };
        register_native_functions(&mut interpreter);
        proof {
            assert(interpreter@ =~= init_state());
        }
        interpreter
    }

    /// The value of a literal node: the same split a stored number keeps.
    fn expr_to_value(&self, expr: &Expr) -> (r: Value)
        ensures
            r@ == sp_literal_value(expr@),
    {
        match expr {
            Expr::String(s) => Value::String(s.clone()),
            Expr::Number(b) => number_value(*b),
            Expr::Boolean(b) => Value::Boolean(*b),
            _ => Value::Void,
        }
    }

    /// Evaluates an expression for its value: a name looked up in the
    /// environment, a map literal or access, or a literal. The environment
    /// never changes; an invalid map access is reported in the log.
    #[verifier::loop_isolation(false)]
    #[verifier::rlimit(60)]
    fn eval_expr(&mut self, e: &Expr) -> (r: Value)
        ensures
            final(self).env == old(self).env,
            final(self).functions == old(self).functions,
            final(self).imported_modules == old(self).imported_modules,
            final(self).output == old(self).output,
            ({
                let (v, lgs) = sp_eval_expr(pairs_vw(old(self).env@), e@);
                r@ == v && logs_vw(final(self).log@) == logs_vw(old(self).log@) + lgs
            }),
        decreases e,
    {
        match e {
            Expr::Identifier(n) => {
                let got = vec_get_value(&self.env, n.as_str());
                proof {
                    assert(logs_vw(self.log@) =~= logs_vw(old(self).log@) + Seq::<
                        Seq<char>,
                    >::empty());
                }
                match got {
                    Some(v) => v,
                    None => Value::Void,
                }
            },
            Expr::MapLiteral(prs) => {
                let ghost envv = pairs_vw(old(self).env@);
                let ghost prsv = e@->MapLiteral_0;
                let ghost logs0 = logs_vw(old(self).log@);
                let mut mp: Vec<(String, Value)> = Vec::new();
                let mut k: usize = 0;
                proof {
                    crate::ast::lemma_expr_pairs_view_from(prs@, 0);
                    assert(pairs_vw(mp@) =~= Seq::<(Seq<char>, ValueV)>::empty());
                }
                while k < prs.len()
                    invariant
                        k <= prs@.len(),
                        self.env == old(self).env,
                        self.functions == old(self).functions,
                        self.imported_modules == old(self).imported_modules,
                        self.output == old(self).output,
                        ({
                            let full = sp_eval_map_pairs(
                                envv,
                                prsv,
                                0,
                                Seq::<(Seq<char>, ValueV)>::empty(),
                            );
                            let rest = sp_eval_map_pairs(envv, prsv, k as nat, pairs_vw(mp@));
                            full.0 == rest.0 && logs0 + full.1 == logs_vw(self.log@) + rest.1
                        }),
                    decreases prs@.len() - k,
                {
                    let ghost mp0 = pairs_vw(mp@);
                    let ghost log1 = logs_vw(self.log@);
                    proof {
                        crate::ast::lemma_expr_pairs_view_from(prs@, 0);
                        assert(decreases_to!(*e => *prs));
                        assert(decreases_to!(*prs => prs@));
                        assert(decreases_to!(prs@ => prs@[k as int]));
                        assert(decreases_to!(prs@[k as int] => prs@[k as int].1));
                        assert(decreases_to!(*e => prs@[k as int].1));
                    }
                    let v = self.eval_expr(&prs[k].1);
                    let ghost vv = v@;
                    vec_set_value(&mut mp, prs[k].0.clone(), v);
                    k = k + 1;
                    proof {
                        let (ev, lg1) = sp_eval_expr(envv, prsv[k as int - 1].1);
                        let rest0 = sp_eval_map_pairs(envv, prsv, (k - 1) as nat, mp0);
                        let rest1 = sp_eval_map_pairs(envv, prsv, k as nat, pairs_vw(mp@));
                        assert(pairs_vw(mp@) == crate::semantics::assoc_set(
                            mp0,
                            prsv[k as int - 1].0,
                            ev,
                        ));
                        assert(rest0.0 == rest1.0 && rest0.1 == lg1 + rest1.1);
                        assert(logs_vw(self.log@) =~= log1 + lg1);
                        assert(logs0 + sp_eval_map_pairs(
                            envv,
                            prsv,
                            0,
                            Seq::<(Seq<char>, ValueV)>::empty(),
                        ).1 =~= logs_vw(self.log@) + rest1.1);
                    }
                }
                proof {
                    lemma_pairs_vw_values(mp@);
                    let full = sp_eval_map_pairs(
                        envv,
                        prsv,
                        0,
                        Seq::<(Seq<char>, ValueV)>::empty(),
                    );
                    assert(logs0 + full.1 =~= logs_vw(self.log@));
                }
                Value::Dict(mp)
            },
            Expr::MapAccess { map, key } => {
                let ghost envv = pairs_vw(old(self).env@);
                let ghost logs0 = logs_vw(old(self).log@);
                proof {
                    assert(decreases_to!(*e => *map));
                    assert(decreases_to!(*e => *key));
                }
                let ghost lg1 = sp_eval_expr(envv, map@).1;
                let ghost lg2 = sp_eval_expr(envv, key@).1;
                let mv = self.eval_expr(&**map);
                let ghost log1 = logs_vw(self.log@);
                proof {
                    assert(log1 == logs0 + lg1);
                }
                let kv = self.eval_expr(&**key);
                let ghost log2 = logs_vw(self.log@);
                proof {
                    assert(log2 == log1 + lg2);
                }
                let mv_is_dict = matches!(&mv, Value::Dict(_));
                let kv_is_str = matches!(&kv, Value::String(_));
                proof {
                    assert(mv_is_dict == (mv@ is Dict));
                    assert(kv_is_str == (kv@ is String));
                    assert(mv@ == sp_eval_expr(envv, map@).0);
                    assert(kv@ == sp_eval_expr(envv, key@).0);
                }
                if mv_is_dict && kv_is_str {
                    let prs = if let Value::Dict(p) = mv {
                        p
                    } else {
                        Vec::new()
                    };
                    let ks = if let Value::String(s) = kv {
                        s
                    } else {
                        String::new()
                    };
                    let got = vec_get_value(&prs, ks.as_str());
                    proof {
                        lemma_pairs_vw_values(prs@);
                        assert(logs_vw(self.log@) == log2);
                        assert(log2 =~= logs0 + (lg1 + lg2));
                    }
                    match got {
                        Some(v) => v,
                        None => Value::Void,
                    }
                } else {
                    self.log.push(String::from_str("Invalid map access."));
                    proof {
                        assert(logs_vw(self.log@) =~= log2.push("Invalid map access."@));
                        assert(logs_vw(self.log@) =~= logs0 + (lg1 + lg2 + seq![
                            "Invalid map access."@,
                        ]));
                    }
                    Value::Void
                }
            },
            _ => {
                let v = self.expr_to_value(e);
                proof {
                    assert(logs_vw(self.log@) =~= logs_vw(old(self).log@) + Seq::<
                        Seq<char>,
                    >::empty());
                }
                v
            },
        }
    }

    /// Invokes a native routine on fully evaluated arguments: the console
    /// writes to the program output; the arithmetic natives compute or
    /// report.
    #[verifier::loop_isolation(false)]
    fn call_native(&mut self, op: NativeOp, vals: Vec<Value>) -> (r: Value)
        ensures
            final(self).env == old(self).env,
            final(self).functions == old(self).functions,
            final(self).imported_modules == old(self).imported_modules,
            ({
                let (v, out, lgs) = sp_native(op, vals_view(vals@));
                r@ == v && final(self).output@ == old(self).output@ + out && logs_vw(
                    final(self).log@,
                ) == logs_vw(old(self).log@) + lgs
            }),
    {
        let ghost vw = vals_view(vals@);
        match op {
            NativeOp::ConsoleOut => {
                let ghost out0 = self.output@;
                let mut k: usize = 0;
                proof {
                    crate::ast::lemma_vals_view_from(vals@, 0);
                }
                while k < vals.len()
                    invariant
                        k <= vals@.len(),
                        self.env == old(self).env,
                        self.functions == old(self).functions,
                        self.imported_modules == old(self).imported_modules,
                        self.log == old(self).log,
                        self.output@ + sp_cat_vals(vw, k as nat) == out0 + sp_cat_vals(vw, 0),
                    decreases vals@.len() - k,
                {
                    let ghost o1 = self.output@;
                    let piece = stringify(&vals[k]);
                    self.output.append(piece.as_str());
                    k = k + 1;
                    proof {
                        crate::ast::lemma_vals_view_from(vals@, 0);
                        assert(sp_cat_vals(vw, (k - 1) as nat) =~= crate::value::sp_stringify(
                            vw[k as int - 1],
                        ) + sp_cat_vals(vw, k as nat));
                        assert(self.output@ + sp_cat_vals(vw, k as nat) =~= o1 + sp_cat_vals(
                            vw,
                            (k - 1) as nat,
                        ));
                    }
                }
                push_char(&mut self.output, '\n');
                proof {
                    assert(sp_cat_vals(vw, vals@.len() as nat) =~= Seq::<char>::empty());
                    assert(self.output@ =~= out0 + (sp_cat_vals(vw, 0) + seq!['\n']));
                    assert(logs_vw(self.log@) =~= logs_vw(old(self).log@) + Seq::<
                        Seq<char>,
                    >::empty());
                }
                Value::Void
            },
            _ => {
                proof {
                    crate::ast::lemma_vals_view_from(vals@, 0);
                }
                if vals.len() != 2 {
                    let line = arith_arity_line(op);
                    self.log.push(line);
                    proof {
                        assert(logs_vw(self.log@) =~= logs_vw(old(self).log@) + seq![
                            crate::semantics::sp_arith_arity_msg(op),
                        ]);
                        assert(self.output@ =~= old(self).output@ + Seq::<char>::empty());
                    }
                    return Value::Void;
                }
                let dividing = matches!(op, NativeOp::MathDiv);
                let guard = dividing && matches!(&vals[0], Value::Integer(_)) && (
                match &vals[1] {
                    Value::Float(b) => float_bits_is_zero(*b),
                    _ => false,
                });
                if guard {
                    self.log.push(String::from_str("Division by zero is not allowed"));
                    proof {
                        assert(logs_vw(self.log@) =~= logs_vw(old(self).log@) + seq![
                            "Division by zero is not allowed"@,
                        ]);
                        assert(self.output@ =~= old(self).output@ + Seq::<char>::empty());
                    }
                    return Value::Void;
                }
                let r = self.arith(op, &vals[0], &vals[1]);
                proof {
                    assert(self.output@ =~= old(self).output@ + Seq::<char>::empty());
                }
                r
            },
        }
    }

    /// One binary arithmetic step on two values.
    #[verifier::rlimit(100)]
    #[verifier::spinoff_prover]
    fn arith(&mut self, op: NativeOp, a: &Value, b: &Value) -> (r: Value)
        ensures
            final(self).env == old(self).env,
            final(self).functions == old(self).functions,
            final(self).imported_modules == old(self).imported_modules,
            final(self).output == old(self).output,
            ({
                let (v, lgs) = sp_arith(op, a@, b@);
                r@ == v && logs_vw(final(self).log@) == logs_vw(old(self).log@) + lgs
            }),
    {
        let r: Value = match (a, b) {
            (Value::Integer(x), Value::Integer(y)) => {
                if matches!(op, NativeOp::MathDiv) {
                    if *y == 0 || (*x == i32::MIN && *y == -1) {
                        self.log.push(String::from_str("Invalid integer division"));
                        proof {
                            assert(logs_vw(self.log@) =~= logs_vw(old(self).log@) + seq![
                                "Invalid integer division"@,
                            ]);
                        }
                        Value::Void
                    } else {
                        match x.checked_div(*y) {
                            Some(q) => Value::Integer(q),
                            None => {
                                proof {
                                    let xi = *x as int;
                                    let yi = *y as int;
                                    if xi > 0 && yi > 0 {
                                        vstd::arithmetic::div_mod::lemma_div_pos_is_pos(xi, yi);
                                        vstd::arithmetic::div_mod::lemma_div_nonincreasing(
                                            xi,
                                            yi,
                                        );
                                    } else if xi < 0 && yi < 0 {
                                        vstd::arithmetic::div_mod::lemma_div_pos_is_pos(-xi, -yi);
                                        if yi == -1 {
                                            vstd::arithmetic::div_mod::lemma_div_nonincreasing(
                                                -xi,
                                                1,
                                            );
                                        } else {
                                            vstd::arithmetic::div_mod::lemma_div_is_ordered_by_denominator(
                                                -xi,
                                                2,
                                                -yi,
                                            );
                                            vstd::arithmetic::div_mod::lemma_div_is_ordered(
                                                -xi,
                                                0x8000_0000,
                                                2,
                                            );
                                            assert(0x8000_0000int / 2int == 0x4000_0000int)
                                                by (nonlinear_arith);
                                        }
                                    } else if xi < 0 {
                                        vstd::arithmetic::div_mod::lemma_div_pos_is_pos(-xi, yi);
                                        vstd::arithmetic::div_mod::lemma_div_nonincreasing(
                                            -xi,
                                            yi,
                                        );
                                    } else if xi > 0 {
                                        vstd::arithmetic::div_mod::lemma_div_pos_is_pos(xi, -yi);
                                        vstd::arithmetic::div_mod::lemma_div_nonincreasing(
                                            xi,
                                            -yi,
                                        );
                                    }
                                    assert(false);
                                }
                                Value::Void
                            },
                        }
                    }
                } else if matches!(op, NativeOp::MathAdd) {
                    Value::Integer(x.wrapping_add(*y))
                } else if matches!(op, NativeOp::MathSub) {
                    Value::Integer(x.wrapping_sub(*y))
                } else {
                    Value::Integer(x.wrapping_mul(*y))
                }
            },
            (Value::Float(x), Value::Float(y)) => Value::Float(self.float_op(op, *x, *y)),
            (Value::Integer(x), Value::Float(y)) => Value::Float(
                self.float_op(op, i32_to_f64_bits(*x), *y),
            ),
            (Value::Float(x), Value::Integer(y)) => Value::Float(
                self.float_op(op, *x, i32_to_f64_bits(*y)),
            ),
            _ => {
                let line = arith_invalid_line(op);
                self.log.push(line);
                proof {
                    assert(logs_vw(self.log@) =~= logs_vw(old(self).log@) + seq![
                        crate::semantics::sp_arith_invalid_msg(op),
                    ]);
                }
                Value::Void
            },
        };
        proof {
            if logs_vw(self.log@) == logs_vw(old(self).log@) {
                assert(logs_vw(self.log@) =~= logs_vw(old(self).log@) + Seq::<
                    Seq<char>,
                >::empty());
            }
        }
        r
    }

    /// Evaluates call arguments left to right.
    fn eval_args_vec(&mut self, args: &Vec<Expr>) -> (r: Vec<Value>)
        ensures
            final(self).env == old(self).env,
            final(self).functions == old(self).functions,
            final(self).imported_modules == old(self).imported_modules,
            final(self).output == old(self).output,
            ({
                let (vs, lgs) = sp_eval_args(
                    pairs_vw(old(self).env@),
                    exprs_view(args@),
                    0,
                    Seq::<ValueV>::empty(),
                );
                vals_view(r@) == vs && logs_vw(final(self).log@) == logs_vw(old(self).log@)
                    + lgs
            }),
            r@.len() == args@.len(),
    {
        let ghost envv = pairs_vw(self.env@);
        let ghost argsv = exprs_view(args@);
        let ghost logs0 = logs_vw(self.log@);
        let mut vals: Vec<Value> = Vec::new();
        let mut k: usize = 0;
        proof {
            crate::ast::lemma_exprs_view_from(args@, 0);
            crate::ast::lemma_vals_view_from(vals@, 0);
            assert(vals_view(vals@) =~= Seq::<ValueV>::empty());
        }
        while k < args.len()
            invariant
                k <= args@.len(),
                vals@.len() == k,
                self.env == old(self).env,
                self.functions == old(self).functions,
                self.imported_modules == old(self).imported_modules,
                self.output == old(self).output,
                envv == pairs_vw(old(self).env@),
                argsv == exprs_view(args@),
                logs0 == logs_vw(old(self).log@),
                argsv.len() == args@.len(),
                ({
                    let full = sp_eval_args(envv, argsv, 0, Seq::<ValueV>::empty());
                    let rest = sp_eval_args(envv, argsv, k as nat, vals_view(vals@));
                    full.0 == rest.0 && logs0 + full.1 == logs_vw(self.log@) + rest.1
                }),
            decreases args@.len() - k,
        {
            let ghost vw0 = vals_view(vals@);
            let ghost log1 = logs_vw(self.log@);
            proof {
                crate::ast::lemma_exprs_view_from(args@, 0);
            }
            let v = self.eval_expr(&args[k]);
            let ghost vv = v@;
            proof {
                lemma_vals_view_push(vals@, v);
            }
            vals.push(v);
            k = k + 1;
            proof {
                let (ev2, lg1) = sp_eval_expr(envv, argsv[k as int - 1]);
                let rest0 = sp_eval_args(envv, argsv, (k - 1) as nat, vw0);
                let rest1 = sp_eval_args(envv, argsv, k as nat, vals_view(vals@));
                assert(vals_view(vals@) == vw0.push(ev2));
                assert(rest0.0 == rest1.0 && rest0.1 == lg1 + rest1.1);
                assert(logs_vw(self.log@) =~= log1 + lg1);
                assert(logs0 + sp_eval_args(envv, argsv, 0, Seq::<ValueV>::empty()).1
                    =~= logs_vw(self.log@) + rest1.1);
            }
        }
        proof {
            let full = sp_eval_args(envv, argsv, 0, Seq::<ValueV>::empty());
            assert(logs0 + full.1 =~= logs_vw(self.log@));
        }
        vals
    }

    /// Evaluates one statement: definitions enter the registry, assignments
    /// bind, calls dispatch to a native routine or run a user-defined body
    /// in a fresh child context; everything else yields void.
    #[verifier::loop_isolation(false)]
    #[verifier::rlimit(100)]
    #[verifier::spinoff_prover]
    fn eval_fuel(&mut self, expr: Expr, fuel: u64) -> (r: Value)
        ensures
            ({
                let (st2, v) = sp_eval(old(self)@, expr@, fuel as nat);
                final(self)@ == st2 && r@ == v
            }),
        decreases fuel,
    {
        let ghost st0 = self@;
        let ghost ev = expr@;
        match expr {
            Expr::Assignment { name, value, type_hint, mutable } => {
                let ghost vv = (*value)@;
                let ghost lg1 = sp_eval_expr(st0.env, vv).1;
                let val = self.eval_expr(&*value);
                let ghost lgmid = logs_vw(self.log@);
                if let Some(h) = &type_hint {
                    if !hint_matches(h, &val) {
                        let mut line = String::from_str("Type mismatch: expected ");
                        line.append(h.as_str());
                        let ghost lv = line@;
                        self.log.push(line);
                        proof {
                            assert(lv =~= "Type mismatch: expected "@ + h@);
                            assert(logs_vw(self.log@) =~= lgmid.push(lv));
                        }
                    }
                }
                let ghost lgall = logs_vw(self.log@);
                let stored = val.clone();
                vec_set_value(&mut self.env, name, stored);
                proof {
                    let (st2, v2) = sp_eval(st0, ev, fuel as nat);
                    let lg2 = match ev->Assignment_type_hint {
                        Some(hh) => if !crate::value::sp_hint_matches(hh, val@) {
                            lg1.push("Type mismatch: expected "@ + hh)
                        } else {
                            lg1
                        },
                        None => lg1,
                    };
                    assert(lgall =~= st0.log + lg2);
                    assert(self@ =~= st2);
                }
                val
            },
            Expr::FunctionDef { name, params, body, return_type } => {
                let f = Function::UserDefined {
                    name: name.clone(),
                    params,
                    body,
                    return_type,
                };
                vec_set_func(&mut self.functions, name, f);
                proof {
                    assert(self@ =~= sp_eval(st0, ev, fuel as nat).0);
                }
                Value::Void
            },
            Expr::ModuleDef { name, body } => {
                let ghost funcs0 = pairs_vw(self.functions@);
                let ghost bodyv = exprs_view(body@);
                let mut k: usize = 0;
                proof {
                    crate::ast::lemma_exprs_view_from(body@, 0);
                }
                while k < body.len()
                    invariant
                        k <= body@.len(),
                        self.env == old(self).env,
                        self.imported_modules == old(self).imported_modules,
                        self.output == old(self).output,
                        self.log == old(self).log,
                        bodyv == exprs_view(body@),
                        bodyv.len() == body@.len(),
                        sp_register_defs(pairs_vw(self.functions@), bodyv, k as nat)
                            == sp_register_defs(funcs0, bodyv, 0),
                    decreases body@.len() - k,
                {
                    let ghost fcur = pairs_vw(self.functions@);
                    proof {
                        crate::ast::lemma_exprs_view_from(body@, 0);
                    }
                    let is_def = matches!(&body[k], Expr::FunctionDef { .. });
                    proof {
                        assert(is_def == (bodyv[k as int] is FunctionDef));
                    }
                    if is_def {
                        if let Expr::FunctionDef {
                            name: fname,
                            params,
                            body: fb,
                            return_type,
                        } = &body[k] {
                            let fbc = clone_exprs(fb);
                            proof {
                                crate::ast::lemma_exprs_view_eq(fbc@, fb@);
                            }
                            let f = Function::UserDefined {
                                name: fname.clone(),
                                params: clone_params(params),
                                body: fbc,
                                return_type: return_type.clone(),
                            };
                            vec_set_func(&mut self.functions, fname.clone(), f);
                        }
                    }
                    k = k + 1;
                    proof {
                        assert(sp_register_defs(fcur, bodyv, (k - 1) as nat)
                            == sp_register_defs(pairs_vw(self.functions@), bodyv, k as nat));
                    }
                }
                proof {
                    assert(self@ =~= sp_eval(st0, ev, fuel as nat).0);
                }
                Value::Void
            },
            Expr::FunctionCall { name, args } => {
                let ghost namev = name@;
                let ghost argsv = exprs_view(args@);
                proof {
                    crate::ast::lemma_exprs_view_from(args@, 0);
                }
                let looked = vec_get_func(&self.functions, name.as_str());
                match looked {
                    None => {
                        let mut line = String::from_str("Unknown function: ");
                        line.append(name.as_str());
                        let ghost lv = line@;
                        let ghost lpre = logs_vw(self.log@);
                        self.log.push(line);
                        proof {
                            assert(lv =~= "Unknown function: "@ + namev);
                            assert(logs_vw(self.log@) =~= lpre.push(lv));
                            assert(self@ =~= sp_eval(st0, ev, fuel as nat).0);
                        }
                        Value::Void
                    },
                    Some(Function::Native(op)) => {
                        let ghost lg1 = sp_eval_args(
                            st0.env,
                            argsv,
                            0,
                            Seq::<ValueV>::empty(),
                        ).1;
                        let vals = self.eval_args_vec(&args);
                        let r = self.call_native(op, vals);
                        proof {
                            let (v2, out2, lg2) = sp_native(
                                op,
                                sp_eval_args(st0.env, argsv, 0, Seq::<ValueV>::empty()).0,
                            );
                            assert(logs_vw(self.log@) =~= st0.log + lg1 + lg2);
                            assert(self@ =~= sp_eval(st0, ev, fuel as nat).0);
                        }
                        r
                    },
                    Some(Function::UserDefined { params, body, .. }) => {
                        if params.len() != args.len() {
                            let mut line = String::from_str("Wrong number of arguments for: ");
                            line.append(name.as_str());
                            let ghost lv = line@;
                            let ghost lpre = logs_vw(self.log@);
                            self.log.push(line);
                            proof {
                                assert(lv =~= "Wrong number of arguments for: "@ + namev);
                                assert(logs_vw(self.log@) =~= lpre.push(lv));
                                assert(self@ =~= sp_eval(st0, ev, fuel as nat).0);
                            }
                            Value::Void
                        } else if fuel == 0 {
                            let mut line = String::from_str("Call depth limit reached: ");
                            line.append(name.as_str());
                            let ghost lv = line@;
                            let ghost lpre = logs_vw(self.log@);
                            self.log.push(line);
                            proof {
                                assert(lv =~= "Call depth limit reached: "@ + namev);
                                assert(logs_vw(self.log@) =~= lpre.push(lv));
                                assert(self@ =~= sp_eval(st0, ev, fuel as nat).0);
                            }
                            Value::Void
                        } else {
                            let ghost paramsv = params_view(params@);
                            let vals = self.eval_args_vec(&args);
                            let ghost valsv = vals_view(vals@);
                            let mut local: Vec<(String, Value)> = Vec::new();
                            let mut k: usize = 0;
                            proof {
                                crate::ast::lemma_vals_view_from(vals@, 0);
                                assert(pairs_vw(local@) =~= Seq::<(Seq<char>, ValueV)>::empty());
                            }
                            while k < params.len()
                                invariant
                                    k <= params@.len(),
                                    params@.len() == vals@.len(),
                                    paramsv == params_view(params@),
                                    valsv == vals_view(vals@),
                                    paramsv.len() == params@.len(),
                                    valsv.len() == vals@.len(),
                                    sp_bind(paramsv, valsv, k as nat, pairs_vw(local@))
                                        == sp_bind(
                                        paramsv,
                                        valsv,
                                        0,
                                        Seq::<(Seq<char>, ValueV)>::empty(),
                                    ),
                                decreases params@.len() - k,
                            {
                                let ghost lcur = pairs_vw(local@);
                                proof {
                                    crate::ast::lemma_vals_view_from(vals@, 0);
                                }
                                vec_set_value(&mut local, params[k].0.clone(), vals[k].clone());
                                k = k + 1;
                                proof {
                                    assert(sp_bind(paramsv, valsv, (k - 1) as nat, lcur)
                                        == sp_bind(
                                        paramsv,
                                        valsv,
                                        k as nat,
                                        pairs_vw(local@),
                                    ));
                                }
                            }
                            let mut sub = Interpreter {
                                env: local,
                                functions: clone_funcs(&self.functions),
                                imported_modules: clone_strings(&self.imported_modules),
                                output: self.output.clone(),
                                log: clone_strings(&self.log),
                            };
                            let ghost sub0v = sub@;
                            let ghost f2 = (fuel - 1) as nat;
                            let ghost bodyv = exprs_view(body@);
                            proof {
                                crate::ast::lemma_exprs_view_from(body@, 0);
                                crate::ast::lemma_vals_view_from(vals@, 0);
                                let (vals2, lg1) = sp_eval_args(
                                    st0.env,
                                    argsv,
                                    0,
                                    Seq::<ValueV>::empty(),
                                );
                                assert(sub0v =~= StateV {
                                    env: sp_bind(
                                        paramsv,
                                        vals2,
                                        0,
                                        Seq::<(Seq<char>, ValueV)>::empty(),
                                    ),
                                    funcs: st0.funcs,
                                    imports: st0.imports,
                                    output: st0.output,
                                    log: st0.log + lg1,
                                });
                            }
                            let mut result = Value::Void;
                            let mut returned = false;
                            let mut k2: usize = 0;
                            while k2 < body.len() && !returned
                                invariant
                                    k2 <= body@.len(),
                                    bodyv == exprs_view(body@),
                                    bodyv.len() == body@.len(),
                                    !returned ==> result@ == ValueV::Void,
                                    !returned ==> sp_run_body(sub0v, bodyv, 0, f2)
                                        == sp_run_body(sub@, bodyv, k2 as nat, f2),
                                    returned ==> sp_run_body(sub0v, bodyv, 0, f2) == (
                                        sub@,
                                        result@,
                                    ),
                                decreases body@.len() - k2,
                            {
                                let ghost subpre = sub@;
                                proof {
                                    crate::ast::lemma_exprs_view_from(body@, 0);
                                }
                                let is_ret = matches!(&body[k2], Expr::Return(_));
                                proof {
                                    assert(is_ret == (bodyv[k2 as int] is Return));
                                }
                                if is_ret {
                                    if let Expr::Return(re) = &body[k2] {
                                        let ghost lgs = sp_eval_expr(sub@.env, (**re)@).1;
                                        let v = sub.eval_expr(&**re);
                                        result = v;
                                        returned = true;
                                        proof {
                                            assert(logs_vw(sub.log@) =~= subpre.log + lgs);
                                            assert(sub@ =~= StateV {
                                                log: subpre.log + lgs,
                                                ..subpre
                                            });
                                            assert(sp_run_body(sub0v, bodyv, 0, f2) == (
                                                sub@,
                                                result@,
                                            ));
                                        }
                                        break ;
                                    }
                                } else {
                                    let e2 = body[k2].clone();
                                    let x = sub.eval_fuel(e2, fuel - 1);
                                    k2 = k2 + 1;
                                    proof {
                                        assert(sp_run_body(subpre, bodyv, (k2 - 1) as nat, f2)
                                            == sp_run_body(sub@, bodyv, k2 as nat, f2));
                                    }
                                }
                            }
                            proof {
                                if !returned {
                                    assert(sp_run_body(sub0v, bodyv, 0, f2) == (
                                        sub@,
                                        ValueV::Void,
                                    ));
                                }
                            }
                            self.output = sub.output;
                            self.log = sub.log;
                            proof {
                                let (st2, v2) = sp_eval(st0, ev, fuel as nat);
                                assert(self@ =~= st2);
                                assert(result@ == v2);
                            }
                            result
                        }
                    },
                }
            },
            _ => {
                proof {
                    assert(self@ =~= sp_eval(st0, ev, fuel as nat).0);
                }
                Value::Void
            },
        }
    }

    /// Evaluates one statement with the standard call depth.
    pub fn eval(&mut self, expr: Expr) -> (r: Value)
        ensures
            ({
                let (st2, v) = sp_eval(old(self)@, expr@, call_depth());
                final(self)@ == st2 && r@ == v
            }),
    {
        self.eval_fuel(expr, 256)
    }

    /// Interprets a program: every function and module definition first, so
    /// forward references resolve, then every remaining top level node in
    /// order, and finally the entry point, a zero-parameter user function
    /// named main, if one was defined.
    #[verifier::loop_isolation(false)]
    pub fn interpret(&mut self, expressions: Vec<Expr>)
        ensures
            final(self)@ == sp_interpret(old(self)@, exprs_view(expressions@)),
    {
        let ghost progv = exprs_view(expressions@);
        let ghost st0 = self@;
        let mut k: usize = 0;
        proof {
            crate::ast::lemma_exprs_view_from(expressions@, 0);
        }
        while k < expressions.len()
            invariant
                k <= expressions@.len(),
                progv == exprs_view(expressions@),
                progv.len() == expressions@.len(),
                sp_pass_defs(self@, progv, k as nat) == sp_pass_defs(st0, progv, 0),
            decreases expressions@.len() - k,
        {
            let ghost stpre = self@;
            proof {
                crate::ast::lemma_exprs_view_from(expressions@, 0);
            }
            let is_def = matches!(
                &expressions[k],
                Expr::FunctionDef { .. } | Expr::ModuleDef { .. },
            );
            proof {
                assert(is_def == (progv[k as int] is FunctionDef || progv[k as int]
                    is ModuleDef));
            }
            if is_def {
                let e = expressions[k].clone();
                let x = self.eval(e);
            }
            k = k + 1;
            proof {
                assert(sp_pass_defs(stpre, progv, (k - 1) as nat) == sp_pass_defs(
                    self@,
                    progv,
                    k as nat,
                ));
            }
        }
        let ghost st1 = self@;
        proof {
            assert(st1 == sp_pass_defs(st0, progv, 0));
        }
        let mut k2: usize = 0;
        while k2 < expressions.len()
            invariant
                k2 <= expressions@.len(),
                progv == exprs_view(expressions@),
                progv.len() == expressions@.len(),
                sp_pass_rest(self@, progv, k2 as nat) == sp_pass_rest(st1, progv, 0),
            decreases expressions@.len() - k2,
        {
            let ghost stpre = self@;
            proof {
                crate::ast::lemma_exprs_view_from(expressions@, 0);
            }
            let is_def = matches!(
                &expressions[k2],
                Expr::FunctionDef { .. } | Expr::ModuleDef { .. },
            );
            proof {
                assert(is_def == (progv[k2 as int] is FunctionDef || progv[k2 as int]
                    is ModuleDef));
            }
            if !is_def {
                let e = expressions[k2].clone();
                let x = self.eval(e);
            }
            k2 = k2 + 1;
            proof {
                assert(sp_pass_rest(stpre, progv, (k2 - 1) as nat) == sp_pass_rest(
                    self@,
                    progv,
                    k2 as nat,
                ));
            }
        }
        self.entry_point();
    }

    /// Invokes the entry point, a zero-parameter user-defined function
    /// named main, if one exists.
    fn entry_point(&mut self)
        ensures
            final(self)@ == sp_entry(old(self)@),
    {
        let ghost st0 = self@;
        let looked = vec_get_func(&self.functions, "main");
        match looked {
            Some(Function::UserDefined { params, .. }) => {
                if params.len() == 0 {
                    let ghost lpre = logs_vw(self.log@);
                    self.log.push(String::from_str("Entering main"));
                    proof {
                        assert(logs_vw(self.log@) =~= lpre.push("Entering main"@));
                        assert(self@ =~= StateV { log: st0.log.push("Entering main"@), ..st0 });
                    }
                    let e = Expr::FunctionCall { name: String::from_str("main"), args: Vec::new() };
                    proof {
                        assert(exprs_view(Seq::<Expr>::empty()) =~= Seq::<ExprV>::empty());
                        assert(e@ == ExprV::FunctionCall {
                            name: "main"@,
                            args: Seq::<ExprV>::empty(),
                        });
                    }
                    let x = self.eval(e);
                } else {
                }
            },
            _ => {},
        }
    }

    /// The IEEE 754 operation a native selects, over bit patterns.
    fn float_op(&self, op: NativeOp, x: u64, y: u64) -> (r: u64)
        ensures
            r == crate::semantics::sp_float_op(op, x, y),
    {
        if matches!(op, NativeOp::MathAdd) {
            float_add(x, y)
        } else if matches!(op, NativeOp::MathSub) {
            float_sub(x, y)
        } else if matches!(op, NativeOp::MathMul) {
            float_mul(x, y)
        } else {
            float_div(x, y)
        }
    }
}

/// The reported line for an arithmetic native with the wrong argument
/// count.
fn arith_arity_line(op: NativeOp) -> (r: String)
    ensures
        r@ == crate::semantics::sp_arith_arity_msg(op),
{
    if matches!(op, NativeOp::MathAdd) {
        String::from_str("'add' expects 2 arguments")
    } else if matches!(op, NativeOp::MathSub) {
        String::from_str("'sub' expects 2 arguments")
    } else if matches!(op, NativeOp::MathMul) {
        String::from_str("'mul' expects 2 arguments")
    } else {
        String::from_str("'div' expects 2 arguments")
    }
}

/// The reported line for an arithmetic native with non-numeric operands.
fn arith_invalid_line(op: NativeOp) -> (r: String)
    ensures
        r@ == crate::semantics::sp_arith_invalid_msg(op),
{
    if matches!(op, NativeOp::MathAdd) {
        String::from_str("'add' expects valid numbers")
    } else if matches!(op, NativeOp::MathSub) {
        String::from_str("'sub' expects valid numbers")
    } else if matches!(op, NativeOp::MathMul) {
        String::from_str("'mul' expects valid numbers")
    } else {
        String::from_str("'div' expects valid numbers")
    }
}

/// Registers the native routines under their dotted names: the console and
/// the four arithmetic operators.
fn register_native_functions(interpreter: &mut Interpreter)
    requires
        old(interpreter).functions@.len() == 0,
    ensures
        final(interpreter).env == old(interpreter).env,
        final(interpreter).imported_modules == old(interpreter).imported_modules,
        final(interpreter).output == old(interpreter).output,
        final(interpreter).log == old(interpreter).log,
        pairs_vw(final(interpreter).functions@) == init_funcs(),
{
    interpreter.functions.push(
        (String::from_str("console.out"), Function::Native(NativeOp::ConsoleOut)),
    );
    interpreter.functions.push(
        (String::from_str("math.add"), Function::Native(NativeOp::MathAdd)),
    );
    interpreter.functions.push(
        (String::from_str("math.sub"), Function::Native(NativeOp::MathSub)),
    );
    interpreter.functions.push(
        (String::from_str("math.mul"), Function::Native(NativeOp::MathMul)),
    );
    interpreter.functions.push(
        (String::from_str("math.div"), Function::Native(NativeOp::MathDiv)),
    );
    proof {
        lemma_pairs_vw_from(interpreter.functions@, 0);
        assert(pairs_vw(interpreter.functions@) =~= init_funcs());
    }
}

} // verus!
