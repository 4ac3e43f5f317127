use vstd::prelude::*;

verus! {

/// A node of the syntax tree, as the parser produces it.
///
/// A numeric literal is held as the bit pattern of an IEEE 754 double. A map
/// literal is held as an ordered list of key and value pairs.
#[derive(Debug, PartialEq)]
pub enum Expr {
    Identifier(String),
    String(String),
    Boolean(bool),
    Number(u64),
    List(Vec<Expr>),
    Assignment { name: String, value: Box<Expr>, type_hint: Option<String>, mutable: bool },
    FunctionDef { name: String, params: Vec<(String, String)>, body: Vec<Expr>, return_type: String },
    FunctionCall { name: String, args: Vec<Expr> },
    Comment,
    Empty,
    MapLiteral(Vec<(String, Expr)>),
    MapAccess { map: Box<Expr>, key: Box<Expr> },
    Import { module: String, alias: Option<String> },
    Return(Box<Expr>),
    ModuleDef { name: String, body: Vec<Expr> },
    ModuleImport(String),
}

/// The mathematical shape of a syntax tree node.
#[verifier::ext_equal]
pub enum ExprV {
    Identifier(Seq<char>),
    String(Seq<char>),
    Boolean(bool),
    Number(u64),
    List(Seq<ExprV>),
    Assignment { name: Seq<char>, value: Box<ExprV>, type_hint: Option<Seq<char>>, mutable: bool },
    FunctionDef {
        name: Seq<char>,
        params: Seq<(Seq<char>, Seq<char>)>,
        body: Seq<ExprV>,
        return_type: Seq<char>,
    },
    FunctionCall { name: Seq<char>, args: Seq<ExprV> },
    Comment,
    Empty,
    MapLiteral(Seq<(Seq<char>, ExprV)>),
    MapAccess { map: Box<ExprV>, key: Box<ExprV> },
    Import { module: Seq<char>, alias: Option<Seq<char>> },
    Return(Box<ExprV>),
    ModuleDef { name: Seq<char>, body: Seq<ExprV> },
    ModuleImport(Seq<char>),
}

/// The view of one parameter pair: name and type text.
pub open spec fn params_view(ps: Seq<(String, String)>) -> Seq<(Seq<char>, Seq<char>)> {
    ps.map_values(|p: (String, String)| (p.0@, p.1@))
}

/// The view of an option of text.
pub open spec fn opt_view(o: Option<String>) -> Option<Seq<char>> {
    match o {
        Some(s) => Some(s@),
        None => None,
    }
}

/// The mathematical shape of a syntax tree node.
pub open spec fn expr_view(e: Expr) -> ExprV
    decreases e, 0nat,
{
    match e {
        Expr::Identifier(s) => ExprV::Identifier(s@),
        Expr::String(s) => ExprV::String(s@),
        Expr::Boolean(b) => ExprV::Boolean(b),
        Expr::Number(n) => ExprV::Number(n),
        Expr::List(v) => ExprV::List(exprs_view_from(v@, 0)),
        Expr::Assignment { name, value, type_hint, mutable } => ExprV::Assignment {
            name: name@,
            value: Box::new(expr_view(*value)),
            type_hint: opt_view(type_hint),
            mutable,
        },
        Expr::FunctionDef { name, params, body, return_type } => ExprV::FunctionDef {
            name: name@,
            params: params_view(params@),
            body: exprs_view_from(body@, 0),
            return_type: return_type@,
        },
        Expr::FunctionCall { name, args } => ExprV::FunctionCall {
            name: name@,
            args: exprs_view_from(args@, 0),
        },
        Expr::Comment => ExprV::Comment,
        Expr::Empty => ExprV::Empty,
        Expr::MapLiteral(prs) => ExprV::MapLiteral(expr_pairs_view_from(prs@, 0)),
        Expr::MapAccess { map, key } => ExprV::MapAccess {
            map: Box::new(expr_view(*map)),
            key: Box::new(expr_view(*key)),
        },
        Expr::Import { module, alias } => ExprV::Import { module: module@, alias: opt_view(alias) },
        Expr::Return(e0) => ExprV::Return(Box::new(expr_view(*e0))),
        Expr::ModuleDef { name, body } => ExprV::ModuleDef {
            name: name@,
            body: exprs_view_from(body@, 0),
        },
        Expr::ModuleImport(s) => ExprV::ModuleImport(s@),
    }
}

/// The views of the nodes of a sequence from position k on.
pub open spec fn exprs_view_from(es: Seq<Expr>, k: nat) -> Seq<ExprV>
    decreases es, es.len() - k,
    when k <= es.len()
{
    if k >= es.len() {
        Seq::<ExprV>::empty()
    } else {
        seq![expr_view(es[k as int])] + exprs_view_from(es, k + 1)
    }
}

/// The views of the key and node pairs of a sequence from position k on.
pub open spec fn expr_pairs_view_from(prs: Seq<(String, Expr)>, k: nat) -> Seq<
    (Seq<char>, ExprV),
>
    decreases prs, prs.len() - k,
    when k <= prs.len()
{
    if k >= prs.len() {
        Seq::<(Seq<char>, ExprV)>::empty()
    } else {
        seq![(prs[k as int].0@, expr_view(prs[k as int].1))] + expr_pairs_view_from(prs, k + 1)
    }
}

impl View for Expr {
    type V = ExprV;

    open spec fn view(&self) -> ExprV {
        expr_view(*self)
    }
}

/// The views of a sequence of nodes, in order.
pub open spec fn exprs_view(es: Seq<Expr>) -> Seq<ExprV> {
    exprs_view_from(es, 0)
}

/// Positionwise reading of the views of a node sequence.
pub proof fn lemma_exprs_view_from(es: Seq<Expr>, k: nat)
    requires
        k <= es.len(),
    ensures
        exprs_view_from(es, k).len() == es.len() - k,
        forall|m: int|
            0 <= m < es.len() - k ==> exprs_view_from(es, k)[m] == expr_view(es[k + m]),
    decreases es.len() - k,
{
    if k < es.len() {
        lemma_exprs_view_from(es, k + 1);
    }
}

/// Positionwise reading of the views of a pair sequence.
pub proof fn lemma_expr_pairs_view_from(prs: Seq<(String, Expr)>, k: nat)
    requires
        k <= prs.len(),
    ensures
        expr_pairs_view_from(prs, k).len() == prs.len() - k,
        forall|m: int|
            0 <= m < prs.len() - k ==> expr_pairs_view_from(prs, k)[m] == (
                prs[k + m].0@,
                expr_view(prs[k + m].1),
            ),
    decreases prs.len() - k,
{
    if k < prs.len() {
        lemma_expr_pairs_view_from(prs, k + 1);
    }
}

/// Node sequences with pairwise equal views have equal views.
pub proof fn lemma_exprs_view_eq(a: Seq<Expr>, b: Seq<Expr>)
    requires
        a.len() == b.len(),
        forall|k: int| 0 <= k < a.len() ==> expr_view(#[trigger] a[k]) == expr_view(b[k]),
    ensures
        exprs_view(a) == exprs_view(b),
{
    lemma_exprs_view_from(a, 0);
    lemma_exprs_view_from(b, 0);
    assert(exprs_view_from(a, 0) =~= exprs_view_from(b, 0));
}

/// Pair sequences with equal keys and pairwise equal views have equal views.
pub proof fn lemma_expr_pairs_view_eq(a: Seq<(String, Expr)>, b: Seq<(String, Expr)>)
    requires
        a.len() == b.len(),
        forall|k: int|
            0 <= k < a.len() ==> (#[trigger] a[k]).0@ == b[k].0@ && expr_view(a[k].1)
                == expr_view(b[k].1),
    ensures
        expr_pairs_view_from(a, 0) == expr_pairs_view_from(b, 0),
{
    lemma_expr_pairs_view_from(a, 0);
    lemma_expr_pairs_view_from(b, 0);
    assert(expr_pairs_view_from(a, 0) =~= expr_pairs_view_from(b, 0));
}

/// The view of a node sequence grows by one view at a push.
pub proof fn lemma_exprs_view_push(es: Seq<Expr>, e: Expr)
    ensures
        exprs_view(es.push(e)) == exprs_view(es).push(expr_view(e)),
{
    lemma_exprs_view_from(es.push(e), 0);
    lemma_exprs_view_from(es, 0);
    assert(exprs_view_from(es.push(e), 0) =~= exprs_view_from(es, 0).push(expr_view(e)));
}

/// A runtime value.
///
/// A floating point value is held as the bit pattern of an IEEE 754 double.
/// A map value is held as an ordered list of key and value pairs, the
/// keys unrepeated.
#[derive(Debug, PartialEq)]
pub enum Value {
    Integer(i32),
    Float(u64),
    String(String),
    Boolean(bool),
    Void,
    Dict(Vec<(String, Value)>),
    List(Vec<Value>),
}

/// The mathematical shape of a runtime value.
#[verifier::ext_equal]
pub enum ValueV {
    Integer(i32),
    Float(u64),
    String(Seq<char>),
    Boolean(bool),
    Void,
    Dict(Seq<(Seq<char>, ValueV)>),
    List(Seq<ValueV>),
}

/// The mathematical shape of a runtime value.
pub open spec fn value_view(v: Value) -> ValueV
    decreases v, 0nat,
{
    match v {
        Value::Integer(n) => ValueV::Integer(n),
        Value::Float(b) => ValueV::Float(b),
        Value::String(s) => ValueV::String(s@),
        Value::Boolean(b) => ValueV::Boolean(b),
        Value::Void => ValueV::Void,
        Value::Dict(prs) => ValueV::Dict(val_pairs_view_from(prs@, 0)),
        Value::List(vs) => ValueV::List(vals_view_from(vs@, 0)),
    }
}

/// The views of the values of a sequence from position k on.
pub open spec fn vals_view_from(vs: Seq<Value>, k: nat) -> Seq<ValueV>
    decreases vs, vs.len() - k,
    when k <= vs.len()
{
    if k >= vs.len() {
        Seq::<ValueV>::empty()
    } else {
        seq![value_view(vs[k as int])] + vals_view_from(vs, k + 1)
    }
}

/// The views of the key and value pairs of a sequence from position k on.
pub open spec fn val_pairs_view_from(prs: Seq<(String, Value)>, k: nat) -> Seq<
    (Seq<char>, ValueV),
>
    decreases prs, prs.len() - k,
    when k <= prs.len()
{
    if k >= prs.len() {
        Seq::<(Seq<char>, ValueV)>::empty()
    } else {
        seq![(prs[k as int].0@, value_view(prs[k as int].1))] + val_pairs_view_from(prs, k + 1)
    }
}

impl View for Value {
    type V = ValueV;

    open spec fn view(&self) -> ValueV {
        value_view(*self)
    }
}

/// The views of a sequence of values, in order.
pub open spec fn vals_view(vs: Seq<Value>) -> Seq<ValueV> {
    vals_view_from(vs, 0)
}

/// Positionwise reading of the views of a value sequence.
pub proof fn lemma_vals_view_from(vs: Seq<Value>, k: nat)
    requires
        k <= vs.len(),
    ensures
        vals_view_from(vs, k).len() == vs.len() - k,
        forall|m: int|
            0 <= m < vs.len() - k ==> vals_view_from(vs, k)[m] == value_view(vs[k + m]),
    decreases vs.len() - k,
{
    if k < vs.len() {
        lemma_vals_view_from(vs, k + 1);
    }
}

/// Positionwise reading of the views of a value pair sequence.
pub proof fn lemma_val_pairs_view_from(prs: Seq<(String, Value)>, k: nat)
    requires
        k <= prs.len(),
    ensures
        val_pairs_view_from(prs, k).len() == prs.len() - k,
        forall|m: int|
            0 <= m < prs.len() - k ==> val_pairs_view_from(prs, k)[m] == (
                prs[k + m].0@,
                value_view(prs[k + m].1),
            ),
    decreases prs.len() - k,
{
    if k < prs.len() {
        lemma_val_pairs_view_from(prs, k + 1);
    }
}

/// Value sequences with pairwise equal views have equal views.
pub proof fn lemma_vals_view_eq(a: Seq<Value>, b: Seq<Value>)
    requires
        a.len() == b.len(),
        forall|k: int| 0 <= k < a.len() ==> value_view(#[trigger] a[k]) == value_view(b[k]),
    ensures
        vals_view(a) == vals_view(b),
{
    lemma_vals_view_from(a, 0);
    lemma_vals_view_from(b, 0);
    assert(vals_view_from(a, 0) =~= vals_view_from(b, 0));
}

/// Value pair sequences with equal keys and pairwise equal views have equal
/// views.
pub proof fn lemma_val_pairs_view_eq(a: Seq<(String, Value)>, b: Seq<(String, Value)>)
    requires
        a.len() == b.len(),
        forall|k: int|
            0 <= k < a.len() ==> (#[trigger] a[k]).0@ == b[k].0@ && value_view(a[k].1)
                == value_view(b[k].1),
    ensures
        val_pairs_view_from(a, 0) == val_pairs_view_from(b, 0),
{
    lemma_val_pairs_view_from(a, 0);
    lemma_val_pairs_view_from(b, 0);
    assert(val_pairs_view_from(a, 0) =~= val_pairs_view_from(b, 0));
}

/// The view of a value sequence grows by one view at a push.
pub proof fn lemma_vals_view_push(vs: Seq<Value>, v: Value)
    ensures
        vals_view(vs.push(v)) == vals_view(vs).push(value_view(v)),
{
    lemma_vals_view_from(vs.push(v), 0);
    lemma_vals_view_from(vs, 0);
    assert(vals_view_from(vs.push(v), 0) =~= vals_view_from(vs, 0).push(value_view(v)));
}

/// Copies a list of nodes; each copy has the shape of its original.
pub(crate) fn clone_exprs(v: &Vec<Expr>) -> (r: Vec<Expr>)
    ensures
        r@.len() == v@.len(),
        forall|k: int| 0 <= k < v@.len() ==> (#[trigger] r@[k])@ == v@[k]@,
    decreases v,
{
    let mut r: Vec<Expr> = Vec::new();
    let mut i: usize = 0;
    while i < v.len()
        invariant
            i <= v@.len(),
            r@.len() == i,
            forall|k: int| 0 <= k < i ==> (#[trigger] r@[k])@ == v@[k]@,
        decreases v@.len() - i,
    {
        let e = &v[i];
        r.push(e.clone());
        i = i + 1;
    }
    r
}

/// Copies a list of key and node pairs.
pub(crate) fn clone_expr_pairs(v: &Vec<(String, Expr)>) -> (r: Vec<(String, Expr)>)
    ensures
        r@.len() == v@.len(),
        forall|k: int|
            0 <= k < v@.len() ==> (#[trigger] r@[k]).0@ == v@[k].0@ && r@[k].1@ == v@[k].1@,
    decreases v,
{
    let mut r: Vec<(String, Expr)> = Vec::new();
    let mut i: usize = 0;
    while i < v.len()
        invariant
            i <= v@.len(),
            r@.len() == i,
            forall|k: int|
                0 <= k < i ==> (#[trigger] r@[k]).0@ == v@[k].0@ && r@[k].1@ == v@[k].1@,
        decreases v@.len() - i,
    {
        let p = &v[i];
        r.push((p.0.clone(), p.1.clone()));
        i = i + 1;
    }
    r
}

/// Copies a parameter list exactly.
pub(crate) fn clone_params(v: &Vec<(String, String)>) -> (r: Vec<(String, String)>)
    ensures
        r@ == v@,
{
    let mut r: Vec<(String, String)> = Vec::new();
    let mut i: usize = 0;
    while i < v.len()
        invariant
            i <= v@.len(),
            r@ == v@.subrange(0, i as int),
        decreases v@.len() - i,
    {
        let p = &v[i];
        r.push((p.0.clone(), p.1.clone()));
        i = i + 1;
        proof {
            assert(r@ =~= v@.subrange(0, i as int));
        }
    }
    proof {
        assert(r@ =~= v@);
    }
    r
}

/// Copies an optional text exactly.
fn clone_opt(o: &Option<String>) -> (r: Option<String>)
    ensures
        r == o,
{
    match o {
        Option::Some(t) => Option::Some(t.clone()),
        Option::None => Option::None,
    }
}

impl Clone for Expr {
    /// A structural copy: the clone has the shape of the original.
    #[verifier::rlimit(60)]
    fn clone(&self) -> (r: Self)
        ensures
            r@ == self@,
        decreases self,
    {
        match self {
            Expr::Identifier(s) => Expr::Identifier(s.clone()),
            Expr::String(s) => Expr::String(s.clone()),
            Expr::Boolean(b) => Expr::Boolean(*b),
            Expr::Number(n) => Expr::Number(*n),
            Expr::List(v) => {
                let c = clone_exprs(v);
                proof {
                    lemma_exprs_view_eq(c@, v@);
                }
                Expr::List(c)
            },
            Expr::Assignment { name, value, type_hint, mutable } => {
                let c = Expr::Assignment {
                    name: name.clone(),
                    value: Box::new((**value).clone()),
                    type_hint: clone_opt(type_hint),
                    mutable: *mutable,
                };
                proof {
                    assert(c@ =~~= (*self)@);
                }
                c
            },
            Expr::FunctionDef { name, params, body, return_type } => {
                let c = Expr::FunctionDef {
                    name: name.clone(),
                    params: clone_params(params),
                    body: clone_exprs(body),
                    return_type: return_type.clone(),
                };
                proof {
                    match (&c, self) {
                        (
                            Expr::FunctionDef { body: cb, .. },
                            Expr::FunctionDef { body: ob, .. },
                        ) => {
                            lemma_exprs_view_eq(cb@, ob@);
                        },
                        _ => {},
                    }
                    assert(c@ == (*self)@);
                }
                c
            },
            Expr::FunctionCall { name, args } => {
                let a = clone_exprs(args);
                proof {
                    lemma_exprs_view_eq(a@, args@);
                }
                Expr::FunctionCall { name: name.clone(), args: a }
            },
            Expr::Comment => Expr::Comment,
            Expr::Empty => Expr::Empty,
            Expr::MapLiteral(prs) => {
                let c = clone_expr_pairs(prs);
                proof {
                    lemma_expr_pairs_view_eq(c@, prs@);
                }
                Expr::MapLiteral(c)
            },
            Expr::MapAccess { map, key } => {
                let c = Expr::MapAccess {
                    map: Box::new((**map).clone()),
                    key: Box::new((**key).clone()),
                };
                proof {
                    assert(c@ =~~= (*self)@);
                }
                c
            },
            Expr::Import { module, alias } => {
                let c = Expr::Import { module: module.clone(), alias: clone_opt(alias) };
                proof {
                    assert(c@ =~~= (*self)@);
                }
                c
            },
            Expr::Return(e0) => {
                let c = Expr::Return(Box::new((**e0).clone()));
                proof {
                    assert(c@ =~~= (*self)@);
                }
                c
            },
            Expr::ModuleDef { name, body } => {
                let b = clone_exprs(body);
                proof {
                    lemma_exprs_view_eq(b@, body@);
                }
                Expr::ModuleDef { name: name.clone(), body: b }
            },
            Expr::ModuleImport(s) => Expr::ModuleImport(s.clone()),
        }
    }
}

/// Copies a list of values; each copy has the shape of its original.
pub(crate) fn clone_vals(v: &Vec<Value>) -> (r: Vec<Value>)
    ensures
        r@.len() == v@.len(),
        forall|k: int| 0 <= k < v@.len() ==> (#[trigger] r@[k])@ == v@[k]@,
    decreases v,
{
    let mut r: Vec<Value> = Vec::new();
    let mut i: usize = 0;
    while i < v.len()
        invariant
            i <= v@.len(),
            r@.len() == i,
            forall|k: int| 0 <= k < i ==> (#[trigger] r@[k])@ == v@[k]@,
        decreases v@.len() - i,
    {
        let e = &v[i];
        r.push(e.clone());
        i = i + 1;
    }
    r
}

/// Copies a list of key and value pairs.
pub(crate) fn clone_val_pairs(v: &Vec<(String, Value)>) -> (r: Vec<(String, Value)>)
    ensures
        r@.len() == v@.len(),
        forall|k: int|
            0 <= k < v@.len() ==> (#[trigger] r@[k]).0@ == v@[k].0@ && r@[k].1@ == v@[k].1@,
    decreases v,
{
    let mut r: Vec<(String, Value)> = Vec::new();
    let mut i: usize = 0;
    while i < v.len()
        invariant
            i <= v@.len(),
            r@.len() == i,
            forall|k: int|
                0 <= k < i ==> (#[trigger] r@[k]).0@ == v@[k].0@ && r@[k].1@ == v@[k].1@,
        decreases v@.len() - i,
    {
        let p = &v[i];
        r.push((p.0.clone(), p.1.clone()));
        i = i + 1;
    }
    r
}

impl Clone for Value {
    /// A structural copy: the clone has the shape of the original.
    #[verifier::rlimit(60)]
    fn clone(&self) -> (r: Self)
        ensures
            r@ == self@,
        decreases self,
    {
        match self {
            Value::Integer(n) => Value::Integer(*n),
            Value::Float(b) => Value::Float(*b),
            Value::String(s) => Value::String(s.clone()),
            Value::Boolean(b) => Value::Boolean(*b),
            Value::Void => Value::Void,
            Value::Dict(prs) => {
                let c = clone_val_pairs(prs);
                proof {
                    lemma_val_pairs_view_eq(c@, prs@);
                }
                Value::Dict(c)
            },
            Value::List(vs) => {
                let c = clone_vals(vs);
                proof {
                    lemma_vals_view_eq(c@, vs@);
                }
                Value::List(c)
            },
        }
    }
}

} // verus!
