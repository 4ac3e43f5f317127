use vstd::prelude::*;
use crate::ast::{ExprV, ValueV};
use crate::floatbits::{f64_of_i32, fadd_bits, fdiv_bits, float_is_zero, fmul_bits, fsub_bits};
use crate::value::{sp_hint_matches, sp_number_value, sp_stringify};

verus! {

/// One native routine of the interpreter, selected by its registry name.
#[derive(Debug, Clone, Copy, PartialEq, Eq)]
pub enum NativeOp {
    ConsoleOut,
    MathAdd,
    MathSub,
    MathMul,
    MathDiv,
}

/// The mathematical shape of a callable: a native routine, or a
/// user-defined function with its parameters and body.
#[verifier::ext_equal]
pub enum FunctionV {
    Native(NativeOp),
    UserDefined {
        name: Seq<char>,
        params: Seq<(Seq<char>, Seq<char>)>,
        body: Seq<ExprV>,
        return_type: Seq<char>,
    },
}

/// The whole evaluator state: the variable environment, the function
/// registry, the import markers, the program output so far, and the log of
/// reported conditions so far.
#[verifier::ext_equal]
pub struct StateV {
    pub env: Seq<(Seq<char>, ValueV)>,
    pub funcs: Seq<(Seq<char>, FunctionV)>,
    pub imports: Seq<Seq<char>>,
    pub output: Seq<char>,
    pub log: Seq<Seq<char>>,
}

/// The first value bound to a key, scanning from position i.
pub open spec fn assoc_get_from<V>(m: Seq<(Seq<char>, V)>, k: Seq<char>, i: nat) -> Option<V>
    decreases m.len() - i,
    when i <= m.len()
{
    if i >= m.len() {
        None
    } else if m[i as int].0 == k {
        Some(m[i as int].1)
    } else {
        assoc_get_from(m, k, i + 1)
    }
}

/// The value bound to a key, if any.
pub open spec fn assoc_get<V>(m: Seq<(Seq<char>, V)>, k: Seq<char>) -> Option<V> {
    assoc_get_from(m, k, 0)
}

/// Binds a key, replacing its first occurrence in place or appending it,
/// scanning from position i.
pub open spec fn assoc_set_from<V>(m: Seq<(Seq<char>, V)>, k: Seq<char>, v: V, i: nat) -> Seq<
    (Seq<char>, V),
>
    decreases m.len() - i,
    when i <= m.len()
{
    if i >= m.len() {
        m.push((k, v))
    } else if m[i as int].0 == k {
        m.update(i as int, (k, v))
    } else {
        assoc_set_from(m, k, v, i + 1)
    }
}

/// Binds a key: the binding overwrites an earlier one of the same key, or
/// extends the mapping.
pub open spec fn assoc_set<V>(m: Seq<(Seq<char>, V)>, k: Seq<char>, v: V) -> Seq<(Seq<char>, V)> {
    assoc_set_from(m, k, v, 0)
}

/// Looking up a key just bound yields the bound value.
pub proof fn lemma_assoc_set_get<V>(m: Seq<(Seq<char>, V)>, k: Seq<char>, v: V)
    ensures
        assoc_get(assoc_set(m, k, v), k) == Some(v),
{
    lemma_assoc_set_get_from(m, k, v, 0);
}

/// Helper induction for `lemma_assoc_set_get`.
proof fn lemma_assoc_set_get_from<V>(m: Seq<(Seq<char>, V)>, k: Seq<char>, v: V, i: nat)
    requires
        i <= m.len(),
        forall|j: int| 0 <= j < i ==> (#[trigger] m[j]).0 != k,
    ensures
        assoc_get_from(assoc_set_from(m, k, v, i), k, 0) == Some(v),
    decreases m.len() - i,
{
    let m2 = assoc_set_from(m, k, v, i);
    lemma_assoc_get_prefix(m, m2, k, v, i);
}

/// The scan for k in the updated map reaches the update point and stops
/// there with the new value.
proof fn lemma_assoc_get_prefix<V>(
    m: Seq<(Seq<char>, V)>,
    m2: Seq<(Seq<char>, V)>,
    k: Seq<char>,
    v: V,
    i: nat,
)
    requires
        i <= m.len(),
        forall|j: int| 0 <= j < i ==> (#[trigger] m[j]).0 != k,
        m2 == assoc_set_from(m, k, v, i),
    ensures
        assoc_get_from(m2, k, 0) == Some(v),
    decreases m.len() - i,
{
    if i >= m.len() {
        lemma_assoc_get_scan_push(m, k, v, 0);
    } else if m[i as int].0 == k {
        lemma_assoc_get_scan_update(m, k, v, i, 0);
    } else {
        lemma_assoc_get_prefix(m, m2, k, v, i + 1);
    }
}

/// Scanning a pushed binding: every earlier key differs, so the scan finds
/// the appended pair.
proof fn lemma_assoc_get_scan_push<V>(m: Seq<(Seq<char>, V)>, k: Seq<char>, v: V, s: nat)
    requires
        s <= m.len(),
        forall|j: int| 0 <= j < m.len() ==> (#[trigger] m[j]).0 != k,
    ensures
        assoc_get_from(m.push((k, v)), k, s) == Some(v),
    decreases m.len() - s,
{
    if s < m.len() {
        lemma_assoc_get_scan_push(m, k, v, s + 1);
    }
}

/// Scanning an updated binding: keys before the updated position differ, so
/// the scan finds the updated pair.
proof fn lemma_assoc_get_scan_update<V>(m: Seq<(Seq<char>, V)>, k: Seq<char>, v: V, i: nat, s: nat)
    requires
        s <= i < m.len(),
        forall|j: int| 0 <= j < i ==> (#[trigger] m[j]).0 != k,
    ensures
        assoc_get_from(m.update(i as int, (k, v)), k, s) == Some(v),
    decreases i - s,
{
    if s < i {
        lemma_assoc_get_scan_update(m, k, v, i, s + 1);
    }
}

/// Binding one key leaves every other key's first value unchanged.
pub proof fn lemma_assoc_set_get_other<V>(m: Seq<(Seq<char>, V)>, k: Seq<char>, v: V, k2: Seq<char>)
    requires
        k2 != k,
    ensures
        assoc_get(assoc_set(m, k, v), k2) == assoc_get(m, k2),
{
    lemma_assoc_set_get_other_from(m, k, v, k2, 0);
}

/// Helper induction for `lemma_assoc_set_get_other`.
proof fn lemma_assoc_set_get_other_from<V>(
    m: Seq<(Seq<char>, V)>,
    k: Seq<char>,
    v: V,
    k2: Seq<char>,
    i: nat,
)
    requires
        k2 != k,
        i <= m.len(),
    ensures
        assoc_get_from(assoc_set_from(m, k, v, i), k2, 0) == assoc_get_from(m, k2, 0),
    decreases m.len() - i,
{
    if i >= m.len() {
        lemma_assoc_get_other_push(m, k, v, k2, 0);
    } else if m[i as int].0 == k {
        lemma_assoc_get_other_update(m, k, v, k2, i, 0);
    } else {
        lemma_assoc_set_get_other_from(m, k, v, k2, i + 1);
    }
}

/// A pushed binding of a different key never changes a scan.
proof fn lemma_assoc_get_other_push<V>(
    m: Seq<(Seq<char>, V)>,
    k: Seq<char>,
    v: V,
    k2: Seq<char>,
    s: nat,
)
    requires
        k2 != k,
        s <= m.len(),
    ensures
        assoc_get_from(m.push((k, v)), k2, s) == assoc_get_from(m, k2, s),
    decreases m.len() - s,
{
    if s < m.len() {
        lemma_assoc_get_other_push(m, k, v, k2, s + 1);
    } else {
        assert(m.push((k, v))[s as int].0 == k);
        assert(assoc_get_from(m.push((k, v)), k2, s) == assoc_get_from(
            m.push((k, v)),
            k2,
            s + 1,
        ));
        assert(assoc_get_from(m.push((k, v)), k2, s + 1) == None::<V>);
        assert(assoc_get_from(m, k2, s) == None::<V>);
    }
}

/// An updated binding of a different key never changes a scan.
proof fn lemma_assoc_get_other_update<V>(
    m: Seq<(Seq<char>, V)>,
    k: Seq<char>,
    v: V,
    k2: Seq<char>,
    i: nat,
    s: nat,
)
    requires
        k2 != k,
        s <= m.len(),
        i < m.len(),
        m[i as int].0 == k,
    ensures
        assoc_get_from(m.update(i as int, (k, v)), k2, s) == assoc_get_from(m, k2, s),
    decreases m.len() - s,
{
    if s < m.len() {
        lemma_assoc_get_other_update(m, k, v, k2, i, s + 1);
    }
}

/// The value of a literal node standing as an expression: strings, numbers
/// under the integer or float split, booleans; every other node yields
/// void.
pub open spec fn sp_literal_value(e: ExprV) -> ValueV {
    match e {
        ExprV::String(s) => ValueV::String(s),
        ExprV::Number(b) => sp_number_value(b),
        ExprV::Boolean(b) => ValueV::Boolean(b),
        _ => ValueV::Void,
    }
}

/// Evaluates an expression for its value. The environment never changes
/// here; the result is the value and the log lines the evaluation reports
/// (an invalid map access).
pub open spec fn sp_eval_expr(env: Seq<(Seq<char>, ValueV)>, e: ExprV) -> (ValueV, Seq<Seq<char>>)
    decreases e, 0nat,
{
    match e {
        ExprV::Identifier(n) => (
            match assoc_get(env, n) {
                Some(v) => v,
                None => ValueV::Void,
            },
            Seq::<Seq<char>>::empty(),
        ),
        ExprV::MapLiteral(prs) => {
            let (m, lgs) = sp_eval_map_pairs(env, prs, 0, Seq::<(Seq<char>, ValueV)>::empty());
            (ValueV::Dict(m), lgs)
        },
        ExprV::MapAccess { map, key } => {
            let (mv, lg1) = sp_eval_expr(env, *map);
            let (kv, lg2) = sp_eval_expr(env, *key);
            if mv is Dict && kv is String {
                (
                    match assoc_get(mv->Dict_0, kv->String_0) {
                        Some(v) => v,
                        None => ValueV::Void,
                    },
                    lg1 + lg2,
                )
            } else {
                (ValueV::Void, lg1 + lg2 + seq!["Invalid map access."@])
            }
        },
        _ => (sp_literal_value(e), Seq::<Seq<char>>::empty()),
    }
}

/// Evaluates the entries of a map literal in order; a later entry with the
/// same key overwrites an earlier one.
pub open spec fn sp_eval_map_pairs(
    env: Seq<(Seq<char>, ValueV)>,
    prs: Seq<(Seq<char>, ExprV)>,
    k: nat,
    acc: Seq<(Seq<char>, ValueV)>,
) -> (Seq<(Seq<char>, ValueV)>, Seq<Seq<char>>)
    decreases prs, prs.len() - k + 1,
    when k <= prs.len()
{
    if k >= prs.len() {
        (acc, Seq::<Seq<char>>::empty())
    } else {
        let (v, lg1) = sp_eval_expr(env, prs[k as int].1);
        let (m, lg2) = sp_eval_map_pairs(env, prs, k + 1, assoc_set(acc, prs[k as int].0, v));
        (m, lg1 + lg2)
    }
}

/// Evaluates call arguments left to right; the values in order and the log
/// lines they report.
pub open spec fn sp_eval_args(env: Seq<(Seq<char>, ValueV)>, args: Seq<ExprV>, k: nat, acc: Seq<ValueV>) -> (
    Seq<ValueV>,
    Seq<Seq<char>>,
)
    decreases args.len() - k,
    when k <= args.len()
{
    if k >= args.len() {
        (acc, Seq::<Seq<char>>::empty())
    } else {
        let (v, lg1) = sp_eval_expr(env, args[k as int]);
        let (vs, lg2) = sp_eval_args(env, args, k + 1, acc.push(v));
        (vs, lg1 + lg2)
    }
}

/// The rendered texts of the values, concatenated in order.
pub open spec fn sp_cat_vals(vals: Seq<ValueV>, k: nat) -> Seq<char>
    decreases vals.len() - k,
    when k <= vals.len()
{
    if k >= vals.len() {
        Seq::<char>::empty()
    } else {
        sp_stringify(vals[k as int]) + sp_cat_vals(vals, k + 1)
    }
}

/// Truncating division, as the division of 32-bit machine integers rounds:
/// toward zero.
pub open spec fn trunc_div(a: int, b: int) -> int {
    if a == 0 {
        0
    } else if a > 0 && b > 0 {
        a / b
    } else if a < 0 && b < 0 {
        (a * -1) / (b * -1)
    } else if a < 0 {
        ((a * -1) / b) * -1
    } else {
        (a / (b * -1)) * -1
    }
}

/// What a binary arithmetic native yields on two values: integer arithmetic
/// wraps at 32 bits, floating point arithmetic follows IEEE 754, and a
/// mixed pair promotes the integer to floating point. `err` names the
/// operator in the reported lines.
pub open spec fn sp_arith(op: NativeOp, a: ValueV, b: ValueV) -> (ValueV, Seq<Seq<char>>) {
    match (a, b) {
        (ValueV::Integer(x), ValueV::Integer(y)) => {
            if op is MathDiv {
                if y == 0 || (x == i32::MIN && y == -1) {
                    (ValueV::Void, seq!["Invalid integer division"@])
                } else {
                    (ValueV::Integer(trunc_div(x as int, y as int) as i32), Seq::<Seq<char>>::empty())
                }
            } else {
                let r = if op is MathAdd {
                    vstd::wrapping::i32_specs::wrapping_add(x, y)
                } else if op is MathSub {
                    vstd::wrapping::i32_specs::wrapping_sub(x, y)
                } else {
                    vstd::wrapping::i32_specs::wrapping_mul(x, y)
                };
                (ValueV::Integer(r), Seq::<Seq<char>>::empty())
            }
        },
        (ValueV::Float(x), ValueV::Float(y)) => (
            ValueV::Float(sp_float_op(op, x, y)),
            Seq::<Seq<char>>::empty(),
        ),
        (ValueV::Integer(x), ValueV::Float(y)) => (
            ValueV::Float(sp_float_op(op, f64_of_i32(x), y)),
            Seq::<Seq<char>>::empty(),
        ),
        (ValueV::Float(x), ValueV::Integer(y)) => (
            ValueV::Float(sp_float_op(op, x, f64_of_i32(y))),
            Seq::<Seq<char>>::empty(),
        ),
        _ => (ValueV::Void, seq![sp_arith_invalid_msg(op)]),
    }
}

/// The IEEE 754 operation a native selects, over bit patterns.
pub open spec fn sp_float_op(op: NativeOp, x: u64, y: u64) -> u64 {
    if op is MathAdd {
        fadd_bits(x, y)
    } else if op is MathSub {
        fsub_bits(x, y)
    } else if op is MathMul {
        fmul_bits(x, y)
    } else {
        fdiv_bits(x, y)
    }
}

/// The reported line when an arithmetic native sees non-numeric operands.
pub open spec fn sp_arith_invalid_msg(op: NativeOp) -> Seq<char> {
    if op is MathAdd {
        "'add' expects valid numbers"@
    } else if op is MathSub {
        "'sub' expects valid numbers"@
    } else if op is MathMul {
        "'mul' expects valid numbers"@
    } else {
        "'div' expects valid numbers"@
    }
}

/// The reported line when an arithmetic native sees the wrong number of
/// arguments.
pub open spec fn sp_arith_arity_msg(op: NativeOp) -> Seq<char> {
    if op is MathAdd {
        "'add' expects 2 arguments"@
    } else if op is MathSub {
        "'sub' expects 2 arguments"@
    } else if op is MathMul {
        "'mul' expects 2 arguments"@
    } else {
        "'div' expects 2 arguments"@
    }
}

/// What a native routine does with its evaluated arguments: the value it
/// returns, the text it appends to the program output, and the lines it
/// reports.
///
/// The console native writes every argument's text and one line break. The
/// arithmetic natives take exactly two numeric operands; the division
/// native refuses a floating point zero denominator under an integer
/// numerator, and integer division that the machine cannot perform is
/// reported rather than attempted.
pub open spec fn sp_native(op: NativeOp, vals: Seq<ValueV>) -> (ValueV, Seq<char>, Seq<Seq<char>>) {
    match op {
        NativeOp::ConsoleOut => (ValueV::Void, sp_cat_vals(vals, 0) + seq!['\n'], Seq::<
            Seq<char>,
        >::empty()),
        _ => {
            if vals.len() != 2 {
                (ValueV::Void, Seq::<char>::empty(), seq![sp_arith_arity_msg(op)])
            } else if op is MathDiv && (vals[0] is Integer && vals[1] is Float && float_is_zero(
                vals[1]->Float_0,
            )) {
                (ValueV::Void, Seq::<char>::empty(), seq!["Division by zero is not allowed"@])
            } else {
                let (v, lgs) = sp_arith(op, vals[0], vals[1]);
                (v, Seq::<char>::empty(), lgs)
            }
        },
    }
}

/// Registers every function definition of a module body, in order, each
/// under its bare name.
pub open spec fn sp_register_defs(
    funcs: Seq<(Seq<char>, FunctionV)>,
    body: Seq<ExprV>,
    k: nat,
) -> Seq<(Seq<char>, FunctionV)>
    decreases body.len() - k,
    when k <= body.len()
{
    if k >= body.len() {
        funcs
    } else {
        let f2 = match body[k as int] {
            ExprV::FunctionDef { name, params, body: fb, return_type } => assoc_set(
                funcs,
                name,
                FunctionV::UserDefined { name, params, body: fb, return_type },
            ),
            _ => funcs,
        };
        sp_register_defs(f2, body, k + 1)
    }
}

/// Binds parameter names to argument values in order, over an empty
/// environment.
pub open spec fn sp_bind(
    params: Seq<(Seq<char>, Seq<char>)>,
    vals: Seq<ValueV>,
    k: nat,
    acc: Seq<(Seq<char>, ValueV)>,
) -> Seq<(Seq<char>, ValueV)>
    decreases params.len() - k,
    when k <= params.len() && params.len() == vals.len()
{
    if k >= params.len() {
        acc
    } else {
        sp_bind(params, vals, k + 1, assoc_set(acc, params[k as int].0, vals[k as int]))
    }
}

/// Evaluates one statement: how the state changes and what the statement's
/// value is.
///
/// An assignment evaluates its right side, reports a type hint that
/// disagrees with the value, and binds the name. A function definition
/// enters the registry under its name, replacing an earlier one; a module
/// definition enters each function of its body the same way. A call looks
/// the flat name up: a native routine receives the evaluated arguments; a
/// user-defined function runs its body in a fresh environment holding only
/// the parameter bindings, against a copy of the registry, so that what it
/// defines dies with the call; an unknown name or a wrong argument count is
/// reported and yields void. Every other node yields void and does
/// nothing. The fuel bounds the depth of nested user calls; an exhausted
/// fuel is reported and yields void.
pub open spec fn sp_eval(st: StateV, e: ExprV, fuel: nat) -> (StateV, ValueV)
    decreases fuel, 1nat, 0nat,
{
    match e {
        ExprV::Assignment { name, value, type_hint, mutable } => {
            let (v, lg1) = sp_eval_expr(st.env, *value);
            let lg2 = match type_hint {
                Some(h) => if !sp_hint_matches(h, v) {
                    lg1.push("Type mismatch: expected "@ + h)
                } else {
                    lg1
                },
                None => lg1,
            };
            (
                StateV {
                    env: assoc_set(st.env, name, v),
                    log: st.log + lg2,
                    ..st
                },
                v,
            )
        },
        ExprV::FunctionDef { name, params, body, return_type } => (
            StateV {
                funcs: assoc_set(
                    st.funcs,
                    name,
                    FunctionV::UserDefined { name, params, body, return_type },
                ),
                ..st
            },
            ValueV::Void,
        ),
        ExprV::ModuleDef { name, body } => (
            StateV { funcs: sp_register_defs(st.funcs, body, 0), ..st },
            ValueV::Void,
        ),
        ExprV::FunctionCall { name, args } => {
            match assoc_get(st.funcs, name) {
                None => (
                    StateV { log: st.log.push("Unknown function: "@ + name), ..st },
                    ValueV::Void,
                ),
                Some(FunctionV::Native(op)) => {
                    let (vals, lg1) = sp_eval_args(st.env, args, 0, Seq::<ValueV>::empty());
                    let (v, out, lg2) = sp_native(op, vals);
                    (
                        StateV { output: st.output + out, log: st.log + lg1 + lg2, ..st },
                        v,
                    )
                },
                Some(FunctionV::UserDefined { params, body, .. }) => {
                    if params.len() != args.len() {
                        (
                            StateV {
                                log: st.log.push("Wrong number of arguments for: "@ + name),
                                ..st
                            },
                            ValueV::Void,
                        )
                    } else if fuel == 0 {
                        (
                            StateV {
                                log: st.log.push("Call depth limit reached: "@ + name),
                                ..st
                            },
                            ValueV::Void,
                        )
                    } else {
                        let (vals, lg1) = sp_eval_args(st.env, args, 0, Seq::<ValueV>::empty());
                        let sub0 = StateV {
                            env: sp_bind(params, vals, 0, Seq::<(Seq<char>, ValueV)>::empty()),
                            funcs: st.funcs,
                            imports: st.imports,
                            output: st.output,
                            log: st.log + lg1,
                        };
                        let (sub1, v) = sp_run_body(sub0, body, 0, (fuel - 1) as nat);
                        (
                            StateV { output: sub1.output, log: sub1.log, ..st },
                            v,
                        )
                    }
                },
            }
        },
        _ => (st, ValueV::Void),
    }
}

/// Runs the statements of a user function's body in order. The first top
/// level return statement evaluates its expression and ends the call with
/// that value; a body without one yields void.
pub open spec fn sp_run_body(st: StateV, body: Seq<ExprV>, k: nat, fuel: nat) -> (StateV, ValueV)
    decreases fuel, 2nat, body.len() - k,
    when k <= body.len()
{
    if k >= body.len() {
        (st, ValueV::Void)
    } else {
        match body[k as int] {
            ExprV::Return(re) => {
                let (v, lgs) = sp_eval_expr(st.env, *re);
                (StateV { log: st.log + lgs, ..st }, v)
            },
            _ => {
                let (st2, _x) = sp_eval(st, body[k as int], fuel);
                sp_run_body(st2, body, k + 1, fuel)
            },
        }
    }
}

/// The depth of nested user-defined calls one evaluation allows.
pub open spec fn call_depth() -> nat {
    256
}

/// The first pass of a program: every function and module definition, in
/// order.
pub open spec fn sp_pass_defs(st: StateV, prog: Seq<ExprV>, k: nat) -> StateV
    decreases prog.len() - k,
    when k <= prog.len()
{
    if k >= prog.len() {
        st
    } else {
        let st2 = if prog[k as int] is FunctionDef || prog[k as int] is ModuleDef {
            sp_eval(st, prog[k as int], call_depth()).0
        } else {
            st
        };
        sp_pass_defs(st2, prog, k + 1)
    }
}

/// The second pass of a program: every remaining top level node, in their
/// original order.
pub open spec fn sp_pass_rest(st: StateV, prog: Seq<ExprV>, k: nat) -> StateV
    decreases prog.len() - k,
    when k <= prog.len()
{
    if k >= prog.len() {
        st
    } else {
        let st2 = if !(prog[k as int] is FunctionDef) && !(prog[k as int] is ModuleDef) {
            sp_eval(st, prog[k as int], call_depth()).0
        } else {
            st
        };
        sp_pass_rest(st2, prog, k + 1)
    }
}

/// The entry point step: when a zero-parameter user-defined function named
/// main exists, note it in the log and call it once.
pub open spec fn sp_entry(st: StateV) -> StateV {
    match assoc_get(st.funcs, "main"@) {
        Some(FunctionV::UserDefined { params, .. }) => {
            if params.len() == 0 {
                let st2 = StateV { log: st.log.push("Entering main"@), ..st };
                sp_eval(
                    st2,
                    ExprV::FunctionCall { name: "main"@, args: Seq::<ExprV>::empty() },
                    call_depth(),
                ).0
            } else {
                st
            }
        },
        _ => st,
    }
}

/// Interprets a whole program: definitions first, then the other top level
/// nodes, then the entry point.
pub open spec fn sp_interpret(st: StateV, prog: Seq<ExprV>) -> StateV {
    sp_entry(sp_pass_rest(sp_pass_defs(st, prog, 0), prog, 0))
}

/// The function registry as construction leaves it: the five native
/// routines under their dotted names, in order.
pub open spec fn init_funcs() -> Seq<(Seq<char>, FunctionV)> {
    seq![
        ("console.out"@, FunctionV::Native(NativeOp::ConsoleOut)),
        ("math.add"@, FunctionV::Native(NativeOp::MathAdd)),
        ("math.sub"@, FunctionV::Native(NativeOp::MathSub)),
        ("math.mul"@, FunctionV::Native(NativeOp::MathMul)),
        ("math.div"@, FunctionV::Native(NativeOp::MathDiv)),
    ]
}

/// The evaluator state as construction leaves it: the native registry and
/// nothing else.
pub open spec fn init_state() -> StateV {
    StateV {
        env: Seq::<(Seq<char>, ValueV)>::empty(),
        funcs: init_funcs(),
        imports: Seq::<Seq<char>>::empty(),
        output: Seq::<char>::empty(),
        log: Seq::<Seq<char>>::empty(),
    }
}

} // verus!
