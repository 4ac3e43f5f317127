use vstd::prelude::*;
use vstd::string::*;
use crate::ast::{lemma_val_pairs_view_from, lemma_vals_view_from, Value, ValueV};
use crate::floatbits::{
    f64_text, float_bits_integral, float_bits_to_i32, float_is_integral, float_to_i32_sat,
    render_f64,
};
use crate::strutil::{push_char, string_is};

verus! {

/// The decimal digit character for d, 0 through 9.
pub open spec fn digit_char_of(d: int) -> char {
    if d == 0 {
        '0'
    } else if d == 1 {
        '1'
    } else if d == 2 {
        '2'
    } else if d == 3 {
        '3'
    } else if d == 4 {
        '4'
    } else if d == 5 {
        '5'
    } else if d == 6 {
        '6'
    } else if d == 7 {
        '7'
    } else if d == 8 {
        '8'
    } else {
        '9'
    }
}

/// Executable digit character.
fn digit_char_exec(d: u32) -> (c: char)
    requires
        d < 10,
    ensures
        c == digit_char_of(d as int),
{
    if d == 0 {
        '0'
    } else if d == 1 {
        '1'
    } else if d == 2 {
        '2'
    } else if d == 3 {
        '3'
    } else if d == 4 {
        '4'
    } else if d == 5 {
        '5'
    } else if d == 6 {
        '6'
    } else if d == 7 {
        '7'
    } else if d == 8 {
        '8'
    } else {
        '9'
    }
}

/// The decimal text of a nonnegative integer.
pub open spec fn dec_text(n: nat) -> Seq<char>
    decreases n,
{
    if n < 10 {
        seq![digit_char_of(n as int)]
    } else {
        dec_text(n / 10).push(digit_char_of((n % 10) as int))
    }
}

/// The decimal text of an integer, minus sign included.
pub open spec fn int_text(n: int) -> Seq<char> {
    if n < 0 {
        seq!['-'] + dec_text((-n) as nat)
    } else {
        dec_text(n as nat)
    }
}

/// Appends the decimal digits of m.
fn push_dec(out: &mut String, m: u32)
    ensures
        final(out)@ == old(out)@ + dec_text(m as nat),
    decreases m,
{
    if m < 10 {
        push_char(out, digit_char_exec(m));
        proof {
            assert(out@ =~= old(out)@ + dec_text(m as nat));
        }
    } else {
        push_dec(out, m / 10);
        push_char(out, digit_char_exec(m % 10));
        proof {
            assert(out@ =~= old(out)@ + dec_text(m as nat));
        }
    }
}

/// The decimal text of a 32-bit integer.
pub fn int_to_text(n: i32) -> (r: String)
    ensures
        r@ == int_text(n as int),
{
    let mut out = String::new();
    if n < 0 {
        push_char(&mut out, '-');
        let m = (-(n as i64)) as u32;
        push_dec(&mut out, m);
        proof {
            assert(out@ =~= int_text(n as int));
        }
    } else {
        push_dec(&mut out, n as u32);
        proof {
            assert(out@ =~= int_text(n as int));
        }
    }
    out
}

/// The text a value shows as: strings plain, numbers in decimal, booleans
/// and void by name, maps and lists recursively.
pub open spec fn sp_stringify(v: ValueV) -> Seq<char>
    decreases v, 0nat,
{
    match v {
        ValueV::String(s) => s,
        ValueV::Integer(n) => int_text(n as int),
        ValueV::Float(b) => f64_text(b),
        ValueV::Boolean(b) => if b {
            "true"@
        } else {
            "false"@
        },
        ValueV::Void => "(void)"@,
        ValueV::Dict(prs) => "{ "@ + sp_join_pairs(prs, 0) + " }"@,
        ValueV::List(vs) => "["@ + sp_join_vals(vs, 0) + "]"@,
    }
}

/// The rendered entries of a map from position k on, comma separated.
pub open spec fn sp_join_pairs(prs: Seq<(Seq<char>, ValueV)>, k: nat) -> Seq<char>
    decreases prs, prs.len() - k + 1,
    when k <= prs.len()
{
    if k >= prs.len() {
        Seq::<char>::empty()
    } else {
        let entry = seq!['\''] + prs[k as int].0 + "': "@ + sp_stringify(prs[k as int].1);
        if k + 1 == prs.len() {
            entry
        } else {
            entry + ", "@ + sp_join_pairs(prs, k + 1)
        }
    }
}

/// The rendered items of a list from position k on, comma separated.
pub open spec fn sp_join_vals(vs: Seq<ValueV>, k: nat) -> Seq<char>
    decreases vs, vs.len() - k + 1,
    when k <= vs.len()
{
    if k >= vs.len() {
        Seq::<char>::empty()
    } else {
        let entry = sp_stringify(vs[k as int]);
        if k + 1 == vs.len() {
            entry
        } else {
            entry + ", "@ + sp_join_vals(vs, k + 1)
        }
    }
}

/// Renders a value as text.
#[verifier::loop_isolation(false)]
pub fn stringify(val: &Value) -> (r: String)
    ensures
        r@ == sp_stringify(val@),
    decreases val,
{
    match val {
        Value::String(s) => s.clone(),
        Value::Integer(n) => int_to_text(*n),
        Value::Float(b) => render_f64(*b),
        Value::Boolean(b) => {
            if *b {
                String::from_str("true")
            } else {
                String::from_str("false")
            }
        },
        Value::Void => String::from_str("(void)"),
        Value::Dict(prs) => {
            let ghost pv = val@->Dict_0;
            let mut out = String::from_str("{ ");
            let mut i: usize = 0;
            proof {
                lemma_val_pairs_view_from(prs@, 0);
                assert(out@ + sp_join_pairs(pv, 0) =~= "{ "@ + sp_join_pairs(pv, 0));
            }
            while i < prs.len()
                invariant
                    i <= prs@.len(),
                    pv == val_pairs_view_of(prs@),
                    pv.len() == prs@.len(),
                    out@ + sp_join_pairs(pv, i as nat) == "{ "@ + sp_join_pairs(pv, 0),
                decreases prs@.len() - i,
            {
                let ghost out0 = out@;
                let ghost i0 = i as nat;
                let p = &prs[i];
                proof {
                    assert(decreases_to!(*val => *prs));
                    assert(decreases_to!(*prs => prs@));
                    assert(decreases_to!(prs@ => prs@[i as int]));
                    assert(decreases_to!(prs@[i as int] => prs@[i as int].1));
                    assert(decreases_to!(*val => prs@[i as int].1));
                }
                push_char(&mut out, '\'');
                out.append(p.0.as_str());
                out.append("': ");
                let item = stringify(&p.1);
                out.append(item.as_str());
                if i + 1 < prs.len() {
                    out.append(", ");
                }
                i = i + 1;
                proof {
                    lemma_val_pairs_view_from(prs@, 0);
                    assert(pv[i0 as int] == (prs@[i0 as int].0@, prs@[i0 as int].1@));
                    if i0 + 1 < pv.len() {
                        assert(sp_join_pairs(pv, i0) =~= seq!['\''] + pv[i0 as int].0 + "': "@
                            + sp_stringify(pv[i0 as int].1) + ", "@ + sp_join_pairs(pv, i0 + 1));
                        assert(out@ =~= out0 + (seq!['\''] + pv[i0 as int].0 + "': "@
                            + sp_stringify(pv[i0 as int].1) + ", "@));
                        assert(out@ + sp_join_pairs(pv, i as nat) =~= out0 + sp_join_pairs(
                            pv,
                            i0,
                        ));
                    } else {
                        assert(sp_join_pairs(pv, i0) =~= seq!['\''] + pv[i0 as int].0 + "': "@
                            + sp_stringify(pv[i0 as int].1));
                        assert(out@ =~= out0 + (seq!['\''] + pv[i0 as int].0 + "': "@
                            + sp_stringify(pv[i0 as int].1)));
                        assert(sp_join_pairs(pv, i as nat) =~= Seq::<char>::empty());
                        assert(out@ + sp_join_pairs(pv, i as nat) =~= out0 + sp_join_pairs(
                            pv,
                            i0,
                        ));
                    }
                }
            }
            out.append(" }");
            proof {
                assert(sp_join_pairs(pv, i as nat) =~= Seq::<char>::empty());
                assert(out@ =~= sp_stringify(val@));
            }
            out
        },
        Value::List(vs) => {
            let ghost lv = val@->List_0;
            let mut out = String::from_str("[");
            let mut i: usize = 0;
            proof {
                lemma_vals_view_from(vs@, 0);
                assert(out@ + sp_join_vals(lv, 0) =~= "["@ + sp_join_vals(lv, 0));
            }
            while i < vs.len()
                invariant
                    i <= vs@.len(),
                    lv == vals_view_of(vs@),
                    lv.len() == vs@.len(),
                    out@ + sp_join_vals(lv, i as nat) == "["@ + sp_join_vals(lv, 0),
                decreases vs@.len() - i,
            {
                let ghost out0 = out@;
                let ghost i0 = i as nat;
                proof {
                    assert(decreases_to!(*val => *vs));
                    assert(decreases_to!(*vs => vs@));
                    assert(decreases_to!(vs@ => vs@[i as int]));
                    assert(decreases_to!(*val => vs@[i as int]));
                }
                let item = stringify(&vs[i]);
                out.append(item.as_str());
                if i + 1 < vs.len() {
                    out.append(", ");
                }
                i = i + 1;
                proof {
                    lemma_vals_view_from(vs@, 0);
                    assert(lv[i0 as int] == vs@[i0 as int]@);
                    if i0 + 1 < lv.len() {
                        assert(sp_join_vals(lv, i0) =~= sp_stringify(lv[i0 as int]) + ", "@
                            + sp_join_vals(lv, i0 + 1));
                        assert(out@ =~= out0 + (sp_stringify(lv[i0 as int]) + ", "@));
                        assert(out@ + sp_join_vals(lv, i as nat) =~= out0 + sp_join_vals(
                            lv,
                            i0,
                        ));
                    } else {
                        assert(sp_join_vals(lv, i0) =~= sp_stringify(lv[i0 as int]));
                        assert(out@ =~= out0 + sp_stringify(lv[i0 as int]));
                        assert(sp_join_vals(lv, i as nat) =~= Seq::<char>::empty());
                        assert(out@ + sp_join_vals(lv, i as nat) =~= out0 + sp_join_vals(
                            lv,
                            i0,
                        ));
                    }
                }
            }
            out.append("]");
            proof {
                assert(sp_join_vals(lv, i as nat) =~= Seq::<char>::empty());
                assert(out@ =~= sp_stringify(val@));
            }
            out
        },
    }
}

/// The view of a value pair vector, from the start.
pub open spec fn val_pairs_view_of(prs: Seq<(String, Value)>) -> Seq<(Seq<char>, ValueV)> {
    crate::ast::val_pairs_view_from(prs, 0)
}

/// The view of a value vector, from the start.
pub open spec fn vals_view_of(vs: Seq<Value>) -> Seq<ValueV> {
    crate::ast::vals_view_from(vs, 0)
}

/// Whether a type hint and a value agree: the fixed advisory table maps
/// "string" to strings, "int" to integers, "bool" to booleans and "void" to
/// void; every other pairing disagrees.
pub open spec fn sp_hint_matches(hint: Seq<char>, v: ValueV) -> bool {
    match v {
        ValueV::String(_) => hint == "string"@,
        ValueV::Integer(_) => hint == "int"@,
        ValueV::Boolean(_) => hint == "bool"@,
        ValueV::Void => hint == "void"@,
        _ => false,
    }
}

/// Executable advisory type check.
pub fn hint_matches(hint: &String, v: &Value) -> (r: bool)
    ensures
        r == sp_hint_matches(hint@, v@),
{
    match v {
        Value::String(_) => string_is(hint, "string"),
        Value::Integer(_) => string_is(hint, "int"),
        Value::Boolean(_) => string_is(hint, "bool"),
        Value::Void => string_is(hint, "void"),
        _ => false,
    }
}

/// The value a numeric literal takes: an integer when the double's
/// fractional part is exactly zero (saturating at the 32-bit bounds), else
/// the floating point value itself.
pub open spec fn sp_number_value(bits: u64) -> ValueV {
    if float_is_integral(bits) {
        ValueV::Integer(float_to_i32_sat(bits) as i32)
    } else {
        ValueV::Float(bits)
    }
}

/// Executable integer or float split of a numeric literal.
pub fn number_value(bits: u64) -> (r: Value)
    ensures
        r@ == sp_number_value(bits),
{
    if float_bits_integral(bits) {
        let n = float_bits_to_i32(bits);
        Value::Integer(n)
    } else {
        Value::Float(bits)
    }
}

} // verus!
