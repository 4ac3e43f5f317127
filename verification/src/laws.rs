use vstd::prelude::*;
use crate::ast::{ExprV, ValueV};
use crate::semantics::{
    assoc_get, assoc_set, call_depth, init_funcs, init_state, lemma_assoc_set_get,
    lemma_assoc_set_get_other, sp_cat_vals, sp_entry, sp_eval, sp_eval_args, sp_eval_expr,
    sp_interpret, sp_native, sp_pass_defs, sp_pass_rest, sp_register_defs, sp_run_body,
    FunctionV, NativeOp, StateV,
};

verus! {

/// Evaluating a definition whose right side is a string literal binds the
/// name to exactly that string, yields that string as the statement's
/// value, and a later read of the bare name in the resulting environment
/// gives the same value back.
pub proof fn lemma_define_binds_string(
    st: StateV,
    name: Seq<char>,
    ty: Seq<char>,
    text: Seq<char>,
    mt: bool,
    fuel: nat,
)
    ensures
        ({
            let e = ExprV::Assignment {
                name,
                value: Box::new(ExprV::String(text)),
                type_hint: Some(ty),
                mutable: mt,
            };
            let (st2, v) = sp_eval(st, e, fuel);
            v == ValueV::String(text) && sp_eval_expr(st2.env, ExprV::Identifier(name)).0
                == ValueV::String(text)
        }),
{
    lemma_assoc_set_get(st.env, name, ValueV::String(text));
}

/// An assignment never touches the binding of any other name: what another
/// identifier evaluates to is the same before and after.
pub proof fn lemma_define_leaves_others(
    st: StateV,
    name: Seq<char>,
    ty: Seq<char>,
    text: Seq<char>,
    mt: bool,
    fuel: nat,
    other: Seq<char>,
)
    requires
        other != name,
    ensures
        ({
            let e = ExprV::Assignment {
                name,
                value: Box::new(ExprV::String(text)),
                type_hint: Some(ty),
                mutable: mt,
            };
            let (st2, v) = sp_eval(st, e, fuel);
            sp_eval_expr(st2.env, ExprV::Identifier(other)) == sp_eval_expr(
                st.env,
                ExprV::Identifier(other),
            )
        }),
{
    lemma_assoc_set_get_other(st.env, name, ValueV::String(text), other);
}

/// A call to a name the registry does not hold reports one warning line
/// and yields void; the environment, the registry, and the program output
/// are untouched, so evaluation of later statements goes on unchanged.
pub proof fn lemma_unknown_call(st: StateV, name: Seq<char>, args: Seq<ExprV>, fuel: nat)
    requires
        assoc_get(st.funcs, name) is None,
    ensures
        ({
            let (st2, v) = sp_eval(st, ExprV::FunctionCall { name, args }, fuel);
            v == ValueV::Void && st2.env == st.env && st2.funcs == st.funcs && st2.output
                == st.output && st2.log == st.log.push("Unknown function: "@ + name)
        }),
{
}

/// A user-defined function called with the wrong number of arguments
/// yields void without running its body: no argument is evaluated, and
/// beyond the one warning line the whole state is untouched.
pub proof fn lemma_wrong_arity(st: StateV, name: Seq<char>, args: Seq<ExprV>, fuel: nat)
    requires
        assoc_get(st.funcs, name) matches Some(FunctionV::UserDefined { params, .. }) && params.len()
            != args.len(),
    ensures
        ({
            let (st2, v) = sp_eval(st, ExprV::FunctionCall { name, args }, fuel);
            v == ValueV::Void && st2.env == st.env && st2.funcs == st.funcs && st2.output
                == st.output && st2.log == st.log.push("Wrong number of arguments for: "@ + name)
        }),
{
}

/// Registering a module body never changes the binding of a name that no
/// function definition of the body bears.
proof fn lemma_register_defs_other(
    funcs: Seq<(Seq<char>, FunctionV)>,
    body: Seq<ExprV>,
    k: nat,
    n: Seq<char>,
)
    requires
        k <= body.len(),
        forall|j: int|
            k <= j < body.len() ==> ((#[trigger] body[j]) matches ExprV::FunctionDef {
                name: n2,
                ..
            } ==> n2 != n),
    ensures
        assoc_get(sp_register_defs(funcs, body, k), n) == assoc_get(funcs, n),
    decreases body.len() - k,
{
    if k < body.len() {
        match body[k as int] {
            ExprV::FunctionDef { name, params, body: fb, return_type } => {
                lemma_assoc_set_get_other(
                    funcs,
                    name,
                    FunctionV::UserDefined { name, params, body: fb, return_type },
                    n,
                );
                lemma_register_defs_other(
                    assoc_set(
                        funcs,
                        name,
                        FunctionV::UserDefined { name, params, body: fb, return_type },
                    ),
                    body,
                    k + 1,
                    n,
                );
            },
            _ => {
                lemma_register_defs_other(funcs, body, k + 1, n);
            },
        }
    }
}

/// A function defined inside a module body lands in the global registry
/// under its bare name: after evaluating the module definition, looking
/// the bare name up finds the nested definition (the last one of that
/// name, when several occur), so a plain top level call to it resolves.
pub proof fn lemma_module_def_registers(
    st: StateV,
    mname: Seq<char>,
    body: Seq<ExprV>,
    i: int,
    fuel: nat,
)
    requires
        0 <= i < body.len(),
        body[i] is FunctionDef,
        forall|j: int|
            i < j < body.len() ==> ((#[trigger] body[j]) matches ExprV::FunctionDef {
                name: n2,
                ..
            } ==> ({
                let fname = match body[i] {
                    ExprV::FunctionDef { name, .. } => name,
                    _ => Seq::<char>::empty(),
                };
                n2 != fname
            })),
    ensures
        ({
            let (st2, v) = sp_eval(st, ExprV::ModuleDef { name: mname, body }, fuel);
            match body[i] {
                ExprV::FunctionDef { name, params, body: fb, return_type } => assoc_get(
                    st2.funcs,
                    name,
                ) == Some(FunctionV::UserDefined { name, params, body: fb, return_type })
                    && v == ValueV::Void,
                _ => true,
            }
        }),
{
    match body[i] {
        ExprV::FunctionDef { name, params, body: fb, return_type } => {
            lemma_register_defs_reaches(st.funcs, body, 0, i);
        },
        _ => {},
    }
}

/// Helper induction: registration from position k reaches the definition
/// at position i, and nothing after i disturbs it.
proof fn lemma_register_defs_reaches(
    funcs: Seq<(Seq<char>, FunctionV)>,
    body: Seq<ExprV>,
    k: nat,
    i: int,
)
    requires
        k <= i < body.len(),
        body[i] is FunctionDef,
        forall|j: int|
            i < j < body.len() ==> ((#[trigger] body[j]) matches ExprV::FunctionDef {
                name: n2,
                ..
            } ==> ({
                let fname = match body[i] {
                    ExprV::FunctionDef { name, .. } => name,
                    _ => Seq::<char>::empty(),
                };
                n2 != fname
            })),
    ensures
        ({
            match body[i] {
                ExprV::FunctionDef { name, params, body: fb, return_type } => assoc_get(
                    sp_register_defs(funcs, body, k),
                    name,
                ) == Some(FunctionV::UserDefined { name, params, body: fb, return_type }),
                _ => true,
            }
        }),
    decreases body.len() - k,
{
    if k < i {
        match body[k as int] {
            ExprV::FunctionDef { name, params, body: fb, return_type } => {
                lemma_register_defs_reaches(
                    assoc_set(
                        funcs,
                        name,
                        FunctionV::UserDefined { name, params, body: fb, return_type },
                    ),
                    body,
                    k + 1,
                    i,
                );
            },
            _ => {
                lemma_register_defs_reaches(funcs, body, k + 1, i);
            },
        }
    } else {
        match body[i] {
            ExprV::FunctionDef { name, params, body: fb, return_type } => {
                let def = FunctionV::UserDefined { name, params, body: fb, return_type };
                lemma_assoc_set_get(funcs, name, def);
                lemma_register_defs_other(assoc_set(funcs, name, def), body, k + 1, name);
            },
            _ => {},
        }
    }
}

/// The two shapes of a division refusal: an integer denominator of zero is
/// refused as an impossible machine division, while the dedicated zero
/// guard fires only for an integer numerator over a floating point zero.
pub proof fn lemma_div_guards(a: i32, b: u64)
    requires
        crate::floatbits::float_is_zero(b),
    ensures
        sp_native(NativeOp::MathDiv, seq![ValueV::Integer(a), ValueV::Integer(0)]) == (
            ValueV::Void,
            Seq::<char>::empty(),
            seq!["Invalid integer division"@],
        ),
        sp_native(NativeOp::MathDiv, seq![ValueV::Integer(a), ValueV::Float(b)]) == (
            ValueV::Void,
            Seq::<char>::empty(),
            seq!["Division by zero is not allowed"@],
        ),
{
}

/// The arithmetic natives on two integers: addition of small operands is
/// exact; the mixed integer and float pair is promoted to floating point.
pub proof fn lemma_add_integers(x: i32, y: i32)
    requires
        i32::MIN <= x + y <= i32::MAX,
    ensures
        sp_native(NativeOp::MathAdd, seq![ValueV::Integer(x), ValueV::Integer(y)]) == (
            ValueV::Integer((x + y) as i32),
            Seq::<char>::empty(),
            Seq::<Seq<char>>::empty(),
        ),
        sp_native(
            NativeOp::MathAdd,
            seq![ValueV::Integer(x), ValueV::Float(crate::floatbits::f64_of_i32(y))],
        ) == (
            ValueV::Float(
                crate::floatbits::fadd_bits(
                    crate::floatbits::f64_of_i32(x),
                    crate::floatbits::f64_of_i32(y),
                ),
            ),
            Seq::<char>::empty(),
            Seq::<Seq<char>>::empty(),
        ),
{
}

/// The console native writes exactly the texts of its arguments, in
/// order, followed by one line terminator, and nothing else: it yields
/// void, reports nothing, and for a single string argument the output is
/// that string and the line break alone.
pub proof fn lemma_console_out(vals: Seq<ValueV>, s: Seq<char>)
    ensures
        sp_native(NativeOp::ConsoleOut, vals) == (
            ValueV::Void,
            sp_cat_vals(vals, 0) + seq!['\n'],
            Seq::<Seq<char>>::empty(),
        ),
        sp_cat_vals(seq![ValueV::String(s)], 0) == s,
{
    assert(sp_cat_vals(seq![ValueV::String(s)], 0) =~= crate::value::sp_stringify(
        ValueV::String(s),
    ) + sp_cat_vals(seq![ValueV::String(s)], 1));
    assert(sp_cat_vals(seq![ValueV::String(s)], 0) =~= s);
}

/// The name of the entry point differs from every native name.
proof fn lemma_entry_name_fresh()
    ensures
        "main"@ != "console.out"@,
        "main"@ != "math.add"@,
        "main"@ != "math.sub"@,
        "main"@ != "math.mul"@,
        "main"@ != "math.div"@,
{
    reveal_strlit("main");
    reveal_strlit("console.out");
    reveal_strlit("math.add");
    reveal_strlit("math.sub");
    reveal_strlit("math.mul");
    reveal_strlit("math.div");
    assert("main"@.len() == 4);
    assert("console.out"@.len() == 11);
    assert("math.add"@.len() == 8);
    assert("math.sub"@.len() == 8);
    assert("math.mul"@.len() == 8);
    assert("math.div"@.len() == 8);
}

/// A program that defines a zero-parameter main whose whole body writes
/// one string to the console, and nothing else, puts exactly that string
/// and one line terminator on the program output: the entry point runs
/// once after the two passes, and nothing else touches the output.
pub proof fn lemma_main_prints_once(s: Seq<char>)
    ensures
        ({
            let body = seq![
                ExprV::FunctionCall { name: "console.out"@, args: seq![ExprV::String(s)] },
            ];
            let main_def = ExprV::FunctionDef {
                name: "main"@,
                params: Seq::<(Seq<char>, Seq<char>)>::empty(),
                body,
                return_type: "void"@,
            };
            sp_interpret(init_state(), seq![main_def]).output == s + seq!['\n']
        }),
{
    lemma_entry_name_fresh();
    let body = seq![
        ExprV::FunctionCall { name: "console.out"@, args: seq![ExprV::String(s)] },
    ];
    let main_def = ExprV::FunctionDef {
        name: "main"@,
        params: Seq::<(Seq<char>, Seq<char>)>::empty(),
        body,
        return_type: "void"@,
    };
    let prog = seq![main_def];
    let st0 = init_state();
    let mainv = FunctionV::UserDefined {
        name: "main"@,
        params: Seq::<(Seq<char>, Seq<char>)>::empty(),
        body,
        return_type: "void"@,
    };

    // The first pass registers main; the second pass skips the definition.
    let st1 = sp_eval(st0, main_def, call_depth()).0;
    assert(st1.funcs == assoc_set(st0.funcs, "main"@, mainv));
    assert(sp_pass_defs(st0, prog, 0) == sp_pass_defs(st1, prog, 1));
    assert(sp_pass_defs(st1, prog, 1) == st1);
    assert(sp_pass_rest(st1, prog, 0) == sp_pass_rest(st1, prog, 1));
    assert(sp_pass_rest(st1, prog, 1) == st1);

    // The entry point finds main under its name and calls it.
    lemma_assoc_set_get(st0.funcs, "main"@, mainv);
    assert(assoc_get(st1.funcs, "main"@) == Some(mainv));
    let st2 = StateV { log: st1.log.push("Entering main"@), ..st1 };
    let callm = ExprV::FunctionCall { name: "main"@, args: Seq::<ExprV>::empty() };
    assert(sp_entry(st1) == sp_eval(st2, callm, call_depth()).0);

    // The call binds no arguments and runs the body against a copy of the
    // registry.
    assert(assoc_get(st2.funcs, "main"@) == Some(mainv));
    assert(sp_eval_args(st2.env, Seq::<ExprV>::empty(), 0, Seq::<ValueV>::empty()) == (
        Seq::<ValueV>::empty(),
        Seq::<Seq<char>>::empty(),
    ));
    let lg0 = sp_eval_args(st2.env, Seq::<ExprV>::empty(), 0, Seq::<ValueV>::empty()).1;
    assert(st2.log + lg0 =~= st2.log);
    let sub0 = StateV {
        env: Seq::<(Seq<char>, ValueV)>::empty(),
        funcs: st2.funcs,
        imports: st2.imports,
        output: st2.output,
        log: st2.log,
    };
    assert(sp_eval(st2, callm, call_depth()) == (
        StateV {
            output: sp_run_body(sub0, body, 0, (call_depth() - 1) as nat).0.output,
            log: sp_run_body(sub0, body, 0, (call_depth() - 1) as nat).0.log,
            ..st2
        },
        sp_run_body(sub0, body, 0, (call_depth() - 1) as nat).1,
    ));

    // The one body statement is the console call.
    let callc = body[0];
    let f2 = (call_depth() - 1) as nat;
    let stc = sp_eval(sub0, callc, f2).0;
    assert(sp_run_body(sub0, body, 0, f2) == sp_run_body(stc, body, 1, f2));
    assert(sp_run_body(stc, body, 1, f2) == (stc, ValueV::Void));

    // The console native sees the one evaluated string argument.
    lemma_assoc_set_get_other(st0.funcs, "main"@, mainv, "console.out"@);
    assert(assoc_get(init_funcs(), "console.out"@) == Some(
        FunctionV::Native(NativeOp::ConsoleOut),
    ));
    assert(assoc_get(sub0.funcs, "console.out"@) == Some(
        FunctionV::Native(NativeOp::ConsoleOut),
    ));
    let argv = seq![ExprV::String(s)];
    assert(sp_eval_expr(sub0.env, argv[0]) == (ValueV::String(s), Seq::<Seq<char>>::empty()));
    assert(sp_eval_args(sub0.env, argv, 1, seq![ValueV::String(s)]) == (
        seq![ValueV::String(s)],
        Seq::<Seq<char>>::empty(),
    ));
    assert(sp_eval_args(sub0.env, argv, 0, Seq::<ValueV>::empty()).0 =~= seq![
        ValueV::String(s),
    ]);
    assert(sp_eval_args(sub0.env, argv, 0, Seq::<ValueV>::empty()).1 =~= Seq::<
        Seq<char>,
    >::empty());
    lemma_console_out(seq![ValueV::String(s)], s);
    assert(stc.output =~= sub0.output + (s + seq!['\n']));

    // Nothing stood in the output before, so the output is the string and
    // the line terminator alone.
    assert(st0.output =~= Seq::<char>::empty());
    assert(stc.output =~= s + seq!['\n']);
    assert(sp_interpret(st0, prog).output == stc.output);
}

} // verus!
