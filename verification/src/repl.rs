use vstd::prelude::*;
use crate::strutil::{chars_of, is_space_char, string_from_chars, whitespace_char};

verus! {

/// What one line of the interactive surface asks for: leaving, writing a
/// console argument, or nothing the surface supports.
#[derive(Debug, PartialEq)]
pub enum ReplAction {
    Exit,
    ConsoleOut(String),
    Unsupported,
}

/// The mathematical shape of a line's action.
pub enum ReplActionV {
    Exit,
    ConsoleOut(Seq<char>),
    Unsupported,
}

impl View for ReplAction {
    type V = ReplActionV;

    open spec fn view(&self) -> ReplActionV {
        match self {
            ReplAction::Exit => ReplActionV::Exit,
            ReplAction::ConsoleOut(s) => ReplActionV::ConsoleOut(s@),
            ReplAction::Unsupported => ReplActionV::Unsupported,
        }
    }
}

/// The first position at or after i whose character is not whitespace.
pub open spec fn sp_skip_space(s: Seq<char>, i: nat) -> nat
    decreases s.len() - i,
    when i <= s.len()
{
    if i >= s.len() {
        i
    } else if is_space_char(s[i as int]) {
        sp_skip_space(s, i + 1)
    } else {
        i
    }
}

/// The end of the text once trailing whitespace is dropped, scanning down
/// from j.
pub open spec fn sp_rtrim(s: Seq<char>, j: nat) -> nat
    decreases j,
{
    if j == 0 {
        0
    } else if is_space_char(s[j as int - 1]) {
        sp_rtrim(s, (j - 1) as nat)
    } else {
        j
    }
}

/// The text with leading and trailing whitespace dropped.
pub open spec fn sp_trim(s: Seq<char>) -> Seq<char> {
    let a = sp_skip_space(s, 0);
    let b = sp_rtrim(s, s.len());
    if a >= b {
        Seq::<char>::empty()
    } else {
        s.subrange(a as int, b as int)
    }
}

/// The first position at or after i whose character is not the quote.
pub open spec fn sp_skip_quote(s: Seq<char>, i: nat) -> nat
    decreases s.len() - i,
    when i <= s.len()
{
    if i >= s.len() {
        i
    } else if s[i as int] == '"' {
        sp_skip_quote(s, i + 1)
    } else {
        i
    }
}

/// The end of the text once trailing quotes are dropped, scanning down
/// from j.
pub open spec fn sp_rtrim_quote(s: Seq<char>, j: nat) -> nat
    decreases j,
{
    if j == 0 {
        0
    } else if s[j as int - 1] == '"' {
        sp_rtrim_quote(s, (j - 1) as nat)
    } else {
        j
    }
}

/// The text with every leading and trailing double quote dropped.
pub open spec fn sp_trim_quotes(s: Seq<char>) -> Seq<char> {
    let a = sp_skip_quote(s, 0);
    let b = sp_rtrim_quote(s, s.len());
    if a >= b {
        Seq::<char>::empty()
    } else {
        s.subrange(a as int, b as int)
    }
}

/// What one input line asks of the interactive surface: a literal exit
/// call leaves; a direct console call prints its quoted argument; any
/// other line is unsupported. The line is read with surrounding
/// whitespace ignored.
pub open spec fn sp_repl_line(s: Seq<char>) -> ReplActionV {
    let t = sp_trim(s);
    if t == "exit()"@ {
        ReplActionV::Exit
    } else if t.len() >= 14 && t.subrange(0, 12) == "console.out("@ && t.subrange(
        t.len() - 2,
        t.len() as int,
    ) == ");"@ {
        ReplActionV::ConsoleOut(sp_trim_quotes(t.subrange(12, t.len() - 2)))
    } else {
        ReplActionV::Unsupported
    }
}

/// Skips whitespace from position i.
fn skip_space_exec(v: &Vec<char>, i: usize) -> (r: usize)
    requires
        i <= v@.len(),
    ensures
        r as nat == sp_skip_space(v@, i as nat),
        i <= r <= v@.len(),
    decreases v@.len() - i,
{
    if i < v.len() && whitespace_char(v[i]) {
        skip_space_exec(v, i + 1)
    } else {
        i
    }
}

/// Drops trailing whitespace below position j.
fn rtrim_exec(v: &Vec<char>, j: usize) -> (r: usize)
    requires
        j <= v@.len(),
    ensures
        r as nat == sp_rtrim(v@, j as nat),
        r <= j,
    decreases j,
{
    if j > 0 && whitespace_char(v[j - 1]) {
        rtrim_exec(v, j - 1)
    } else {
        j
    }
}

/// Skips double quotes from position i.
fn skip_quote_exec(v: &Vec<char>, i: usize) -> (r: usize)
    requires
        i <= v@.len(),
    ensures
        r as nat == sp_skip_quote(v@, i as nat),
        i <= r <= v@.len(),
    decreases v@.len() - i,
{
    if i < v.len() && v[i] == '"' {
        skip_quote_exec(v, i + 1)
    } else {
        i
    }
}

/// Drops trailing double quotes below position j.
fn rtrim_quote_exec(v: &Vec<char>, j: usize) -> (r: usize)
    requires
        j <= v@.len(),
    ensures
        r as nat == sp_rtrim_quote(v@, j as nat),
        r <= j,
    decreases j,
{
    if j > 0 && v[j - 1] == '"' {
        rtrim_quote_exec(v, j - 1)
    } else {
        j
    }
}

/// The characters of v from a to b.
fn sub_chars(v: &Vec<char>, a: usize, b: usize) -> (r: Vec<char>)
    requires
        a <= b <= v@.len(),
    ensures
        r@ == v@.subrange(a as int, b as int),
{
    let mut r: Vec<char> = Vec::new();
    let mut i = a;
    while i < b
        invariant
            a <= i <= b <= v@.len(),
            r@ == v@.subrange(a as int, i as int),
        decreases b - i,
    {
        r.push(v[i]);
        i = i + 1;
        proof {
            assert(r@ =~= v@.subrange(a as int, i as int));
        }
    }
    proof {
        assert(r@ =~= v@.subrange(a as int, b as int));
    }
    r
}

/// Whether the characters of v match the text exactly.
fn chars_equal(v: &Vec<char>, lit: &str) -> (r: bool)
    ensures
        r == (v@ == lit@),
{
    let l = chars_of(lit);
    if v.len() != l.len() {
        return false;
    }
    let mut i: usize = 0;
    while i < v.len()
        invariant
            i <= v@.len(),
            v@.len() == l@.len(),
            l@ == lit@,
            forall|j: int| 0 <= j < i ==> v@[j] == l@[j],
        decreases v@.len() - i,
    {
        if v[i] != l[i] {
            return false;
        }
        i = i + 1;
    }
    proof {
        assert(v@ =~= lit@);
    }
    true
}

/// Reads one line of the interactive surface and decides what it asks
/// for.
pub fn repl_line(input: &str) -> (r: ReplAction)
    ensures
        r@ == sp_repl_line(input@),
{
    let cs = chars_of(input);
    let a = skip_space_exec(&cs, 0);
    let b = rtrim_exec(&cs, cs.len());
    let t: Vec<char> = if a >= b {
        Vec::new()
    } else {
        sub_chars(&cs, a, b)
    };
    proof {
        assert(t@ =~= sp_trim(input@));
    }
    if chars_equal(&t, "exit()") {
        return ReplAction::Exit;
    }
    let is_call = t.len() >= 14 && {
        let head = sub_chars(&t, 0, 12);
        let tail = sub_chars(&t, t.len() - 2, t.len());
        chars_equal(&head, "console.out(") && chars_equal(&tail, ");")
    };
    if is_call {
        let mid = sub_chars(&t, 12, t.len() - 2);
        let qa = skip_quote_exec(&mid, 0);
        let qb = rtrim_quote_exec(&mid, mid.len());
        let arg: Vec<char> = if qa >= qb {
            Vec::new()
        } else {
            sub_chars(&mid, qa, qb)
        };
        proof {
            assert(arg@ =~= sp_trim_quotes(mid@));
        }
        let s = string_from_chars(&arg);
        ReplAction::ConsoleOut(s)
    } else {
        ReplAction::Unsupported
    }
}

} // verus!
