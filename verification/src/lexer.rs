use vstd::prelude::*;
use vstd::string::*;
use crate::floatbits::{f64_of_decimal, parse_f64};
use crate::strutil::{
    alphanumeric_char, char_string, chars_of, digit_char, is_alnum_char, is_digit_char,
    is_space_char, push_char, str_eq, whitespace_char,
};
use crate::token::{toks_vw, Token, TokenV};

verus! {

/// The text of a line comment from position i, and the position of the line
/// break (or the end) that closes it.
pub open spec fn sp_line_comment(s: Seq<char>, i: nat) -> (Seq<char>, nat)
    decreases s.len() - i,
    when i <= s.len()
{
    if i >= s.len() {
        (Seq::<char>::empty(), i)
    } else if s[i as int] == '\n' {
        (Seq::<char>::empty(), i)
    } else {
        let (t, j) = sp_line_comment(s, i + 1);
        (seq![s[i as int]] + t, j)
    }
}

/// The text of a block comment from position i, and the position just past
/// its closing delimiter (or the end of input).
pub open spec fn sp_block_comment(s: Seq<char>, i: nat) -> (Seq<char>, nat)
    decreases s.len() - i,
    when i <= s.len()
{
    if i >= s.len() {
        (Seq::<char>::empty(), i)
    } else if s[i as int] == '>' && i + 1 < s.len() && s[i as int + 1] == '~' {
        (Seq::<char>::empty(), i + 2)
    } else {
        let (t, j) = sp_block_comment(s, i + 1);
        (seq![s[i as int]] + t, j)
    }
}

/// What a backslash escape contributes to a double-quoted string literal.
pub open spec fn esc_char(e: char) -> Seq<char> {
    match e {
        'n' => seq!['\n'],
        't' => seq!['\t'],
        'r' => seq!['\r'],
        '\\' => seq!['\\'],
        '"' => seq!['"'],
        _ => seq!['\\', e],
    }
}

/// The text of a string literal body opened with quote q, starting at
/// position i, and the position just past its closing quote (or the end).
pub open spec fn sp_string_body(s: Seq<char>, i: nat, q: char) -> (Seq<char>, nat)
    decreases s.len() - i,
    when i <= s.len()
{
    if i >= s.len() {
        (Seq::<char>::empty(), i)
    } else if s[i as int] == '\\' && q == '"' {
        if i + 1 < s.len() {
            let (t, j) = sp_string_body(s, i + 2, q);
            (esc_char(s[i as int + 1]) + t, j)
        } else {
            (Seq::<char>::empty(), i + 1)
        }
    } else if s[i as int] == q {
        (Seq::<char>::empty(), i + 1)
    } else {
        let (t, j) = sp_string_body(s, i + 1, q);
        (seq![s[i as int]] + t, j)
    }
}

/// The text of a numeric literal from position i (digits with at most one
/// dot; seen says whether a dot was already taken), and the position after.
pub open spec fn sp_number(s: Seq<char>, i: nat, seen: bool) -> (Seq<char>, nat)
    decreases s.len() - i,
    when i <= s.len()
{
    if i >= s.len() {
        (Seq::<char>::empty(), i)
    } else if is_digit_char(s[i as int]) {
        let (t, j) = sp_number(s, i + 1, seen);
        (seq![s[i as int]] + t, j)
    } else if s[i as int] == '.' && !seen {
        let (t, j) = sp_number(s, i + 1, true);
        (seq![s[i as int]] + t, j)
    } else {
        (Seq::<char>::empty(), i)
    }
}

/// The text of an identifier-like word from position i, and the position
/// after it.
pub open spec fn sp_word(s: Seq<char>, i: nat) -> (Seq<char>, nat)
    decreases s.len() - i,
    when i <= s.len()
{
    if i >= s.len() {
        (Seq::<char>::empty(), i)
    } else if is_alnum_char(s[i as int]) || s[i as int] == '_' {
        let (t, j) = sp_word(s, i + 1);
        (seq![s[i as int]] + t, j)
    } else {
        (Seq::<char>::empty(), i)
    }
}

/// The token that an identifier-like word yields: a reserved keyword, a
/// boolean literal, a reserved operator word, or a plain identifier.
pub open spec fn classify_word(t: Seq<char>) -> TokenV {
    if t == "fn"@ || t == "define"@ || t == "mut"@ || t == "return"@ || t == "evoke"@ || t
        == "summon"@ || t == "as"@ {
        TokenV::Keyword(t)
    } else if t == "true"@ {
        TokenV::Boolean(true)
    } else if t == "false"@ {
        TokenV::Boolean(false)
    } else if t == "and"@ || t == "or"@ || t == "not"@ || t == "if"@ || t == "else"@ || t
        == "elif"@ || t == "match"@ {
        TokenV::Operator(t)
    } else {
        TokenV::Identifier(t)
    }
}

/// One dispatch step of the tokenizer at position i: the token emitted, if
/// any, and the position at which scanning resumes.
pub open spec fn sp_next(s: Seq<char>, i: nat) -> (Option<TokenV>, nat) {
    let c = s[i as int];
    if is_space_char(c) {
        (None, i + 1)
    } else if c == '~' {
        if i + 1 < s.len() && s[i as int + 1] == '>' {
            let (t, j) = sp_line_comment(s, i + 2);
            (Some(TokenV::Comment(t)), j)
        } else if i + 1 < s.len() && s[i as int + 1] == '<' {
            let (t, j) = sp_block_comment(s, i + 2);
            (Some(TokenV::Comment(t)), j)
        } else {
            (None, i + 1)
        }
    } else if c == ':' {
        if i + 1 < s.len() && s[i as int + 1] == '=' {
            (Some(TokenV::Operator(":="@)), i + 2)
        } else if i + 1 < s.len() && s[i as int + 1] == ':' {
            (Some(TokenV::Symbol("::"@)), i + 2)
        } else {
            (None, i + 1)
        }
    } else if c == '-' {
        if i + 1 < s.len() && s[i as int + 1] == '>' {
            (Some(TokenV::Operator("->"@)), i + 2)
        } else {
            (Some(TokenV::Operator("-"@)), i + 1)
        }
    } else if c == '"' || c == '\'' {
        let (t, j) = sp_string_body(s, i + 1, c);
        (Some(TokenV::String(t)), j)
    } else if c == '.' || c == ',' || c == '(' || c == ')' || c == ';' || c == '{' || c == '}' {
        (Some(TokenV::Symbol(seq![c])), i + 1)
    } else if is_digit_char(c) {
        let (t, j) = sp_number(s, i, false);
        (Some(TokenV::Number(f64_of_decimal(t))), j)
    } else if is_alnum_char(c) || c == '_' {
        let (t, j) = sp_word(s, i);
        (Some(classify_word(t)), j)
    } else {
        (None, i + 1)
    }
}

/// The tokens of the input from position i to the end.
pub open spec fn sp_tokenize_from(s: Seq<char>, i: nat) -> Seq<TokenV>
    decreases s.len() - i,
    when i <= s.len()
{
    if i >= s.len() {
        Seq::<TokenV>::empty()
    } else {
        let (ot, j) = sp_next(s, i);
        let head = match ot {
            Some(t) => seq![t],
            None => Seq::<TokenV>::empty(),
        };
        if i < j && j <= s.len() {
            head + sp_tokenize_from(s, j)
        } else {
            head
        }
    }
}

/// The full token sequence of a source text.
pub open spec fn sp_tokenize(s: Seq<char>) -> Seq<TokenV> {
    sp_tokenize_from(s, 0)
}

/// Scans the body of a line comment.
fn scan_line_comment(chars: &Vec<char>, start: usize) -> (r: (String, usize))
    requires
        start <= chars@.len(),
    ensures
        r.0@ == sp_line_comment(chars@, start as nat).0,
        r.1 as nat == sp_line_comment(chars@, start as nat).1,
        start <= r.1 <= chars@.len(),
{
    let mut text = String::new();
    let mut i = start;
    while i < chars.len() && *vstd::std_specs::vec::vec_index(chars, i) != '\n'
        invariant
            start <= i <= chars@.len(),
            text@ + sp_line_comment(chars@, i as nat).0 == sp_line_comment(
                chars@,
                start as nat,
            ).0,
            sp_line_comment(chars@, i as nat).1 == sp_line_comment(chars@, start as nat).1,
        decreases chars@.len() - i,
    {
        let ghost i0 = i as nat;
        let ghost t0 = text@;
        push_char(&mut text, chars[i]);
        i = i + 1;
        proof {
            assert(sp_line_comment(chars@, i0).0 =~= seq![chars@[i0 as int]] + sp_line_comment(
                chars@,
                i0 + 1,
            ).0);
            assert(text@ + sp_line_comment(chars@, i as nat).0 =~= t0 + sp_line_comment(
                chars@,
                i0,
            ).0);
        }
    }
    proof {
        assert(sp_line_comment(chars@, i as nat).0 =~= Seq::<char>::empty());
        assert(text@ + Seq::<char>::empty() =~= text@);
    }
    (text, i)
}

/// Scans the body of a block comment.
fn scan_block_comment(chars: &Vec<char>, start: usize) -> (r: (String, usize))
    requires
        start <= chars@.len(),
    ensures
        r.0@ == sp_block_comment(chars@, start as nat).0,
        r.1 as nat == sp_block_comment(chars@, start as nat).1,
        start <= r.1 <= chars@.len(),
{
    let mut text = String::new();
    let mut i = start;
    while i < chars.len()
        invariant
            start <= i <= chars@.len(),
            text@ + sp_block_comment(chars@, i as nat).0 == sp_block_comment(
                chars@,
                start as nat,
            ).0,
            sp_block_comment(chars@, i as nat).1 == sp_block_comment(chars@, start as nat).1,
        decreases chars@.len() - i,
    {
        let ghost i0 = i as nat;
        let ghost t0 = text@;
        let c = chars[i];
        if c == '>' && i + 1 < chars.len() && *vstd::std_specs::vec::vec_index(chars, i + 1)
            == '~' {
            proof {
                assert(sp_block_comment(chars@, i0).0 =~= Seq::<char>::empty());
                assert(text@ + Seq::<char>::empty() =~= text@);
            }
            return (text, i + 2);
        }
        push_char(&mut text, c);
        i = i + 1;
        proof {
            assert(sp_block_comment(chars@, i0).0 =~= seq![chars@[i0 as int]] + sp_block_comment(
                chars@,
                i0 + 1,
            ).0);
            assert(text@ + sp_block_comment(chars@, i as nat).0 =~= t0 + sp_block_comment(
                chars@,
                i0,
            ).0);
        }
    }
    proof {
        assert(text@ + Seq::<char>::empty() =~= text@);
    }
    (text, i)
}

/// Scans the body of a string literal opened with quote q.
fn scan_string_body(chars: &Vec<char>, start: usize, q: char) -> (r: (String, usize))
    requires
        start <= chars@.len(),
    ensures
        r.0@ == sp_string_body(chars@, start as nat, q).0,
        r.1 as nat == sp_string_body(chars@, start as nat, q).1,
        start <= r.1 <= chars@.len(),
{
    let mut text = String::new();
    let mut i = start;
    while i < chars.len()
        invariant
            start <= i <= chars@.len(),
            text@ + sp_string_body(chars@, i as nat, q).0 == sp_string_body(
                chars@,
                start as nat,
                q,
            ).0,
            sp_string_body(chars@, i as nat, q).1 == sp_string_body(chars@, start as nat, q).1,
        decreases chars@.len() - i,
    {
        let ghost i0 = i as nat;
        let ghost t0 = text@;
        let c = chars[i];
        if c == '\\' && q == '"' {
            if i + 1 < chars.len() {
                let e = chars[i + 1];
                if e == 'n' {
                    push_char(&mut text, '\n');
                } else if e == 't' {
                    push_char(&mut text, '\t');
                } else if e == 'r' {
                    push_char(&mut text, '\r');
                } else if e == '\\' {
                    push_char(&mut text, '\\');
                } else if e == '"' {
                    push_char(&mut text, '"');
                } else {
                    push_char(&mut text, '\\');
                    push_char(&mut text, e);
                }
                i = i + 2;
                proof {
                    assert(text@ =~= t0 + esc_char(chars@[i0 as int + 1]));
                    assert(sp_string_body(chars@, i0, q).0 =~= esc_char(chars@[i0 as int + 1])
                        + sp_string_body(chars@, i as nat, q).0);
                    assert(text@ + sp_string_body(chars@, i as nat, q).0 =~= t0 + sp_string_body(
                        chars@,
                        i0,
                        q,
                    ).0);
                }
            } else {
                i = i + 1;
                proof {
                    assert(sp_string_body(chars@, i0, q).0 =~= Seq::<char>::empty());
                    assert(sp_string_body(chars@, i as nat, q).0 =~= Seq::<char>::empty());
                    assert(text@ + sp_string_body(chars@, i as nat, q).0 =~= t0 + sp_string_body(
                        chars@,
                        i0,
                        q,
                    ).0);
                }
            }
        } else if c == q {
            proof {
                assert(sp_string_body(chars@, i0, q).0 =~= Seq::<char>::empty());
                assert(text@ + Seq::<char>::empty() =~= text@);
            }
            return (text, i + 1);
        } else {
            push_char(&mut text, c);
            i = i + 1;
            proof {
                assert(sp_string_body(chars@, i0, q).0 =~= seq![chars@[i0 as int]]
                    + sp_string_body(chars@, i as nat, q).0);
                assert(text@ + sp_string_body(chars@, i as nat, q).0 =~= t0 + sp_string_body(
                    chars@,
                    i0,
                    q,
                ).0);
            }
        }
    }
    proof {
        assert(text@ + Seq::<char>::empty() =~= text@);
    }
    (text, i)
}

/// Scans a numeric literal: digits with at most one dot.
fn scan_number(chars: &Vec<char>, start: usize) -> (r: (String, usize))
    requires
        start <= chars@.len(),
    ensures
        r.0@ == sp_number(chars@, start as nat, false).0,
        r.1 as nat == sp_number(chars@, start as nat, false).1,
        start <= r.1 <= chars@.len(),
        start < chars@.len() && (is_digit_char(chars@[start as int]) || chars@[start as int]
            == '.') ==> r.1 > start,
{
    let mut text = String::new();
    let mut i = start;
    let mut seen = false;
    while i < chars.len() && (digit_char(*vstd::std_specs::vec::vec_index(chars, i)) || (
    *vstd::std_specs::vec::vec_index(chars, i) == '.' && !seen))
        invariant
            start <= i <= chars@.len(),
            i == start ==> !seen,
            text@ + sp_number(chars@, i as nat, seen).0 == sp_number(
                chars@,
                start as nat,
                false,
            ).0,
            sp_number(chars@, i as nat, seen).1 == sp_number(chars@, start as nat, false).1,
        decreases chars@.len() - i,
    {
        let ghost i0 = i as nat;
        let ghost t0 = text@;
        let ghost sn0 = seen;
        let c = chars[i];
        if c == '.' {
            seen = true;
        }
        push_char(&mut text, c);
        i = i + 1;
        proof {
            assert(sp_number(chars@, i0, sn0).0 =~= seq![chars@[i0 as int]] + sp_number(
                chars@,
                i as nat,
                seen,
            ).0);
            assert(text@ + sp_number(chars@, i as nat, seen).0 =~= t0 + sp_number(
                chars@,
                i0,
                sn0,
            ).0);
        }
    }
    proof {
        assert(sp_number(chars@, i as nat, seen).0 =~= Seq::<char>::empty());
        assert(text@ + Seq::<char>::empty() =~= text@);
    }
    (text, i)
}

/// Scans an identifier-like word.
fn scan_word(chars: &Vec<char>, start: usize) -> (r: (String, usize))
    requires
        start <= chars@.len(),
    ensures
        r.0@ == sp_word(chars@, start as nat).0,
        r.1 as nat == sp_word(chars@, start as nat).1,
        start <= r.1 <= chars@.len(),
        start < chars@.len() && (is_alnum_char(chars@[start as int]) || chars@[start as int]
            == '_') ==> r.1 > start,
{
    let mut text = String::new();
    let mut i = start;
    while i < chars.len() && (alphanumeric_char(*vstd::std_specs::vec::vec_index(chars, i)) || (
    *vstd::std_specs::vec::vec_index(chars, i) == '_'))
        invariant
            start <= i <= chars@.len(),
            text@ + sp_word(chars@, i as nat).0 == sp_word(chars@, start as nat).0,
            sp_word(chars@, i as nat).1 == sp_word(chars@, start as nat).1,
        decreases chars@.len() - i,
    {
        let ghost i0 = i as nat;
        let ghost t0 = text@;
        push_char(&mut text, chars[i]);
        i = i + 1;
        proof {
            assert(sp_word(chars@, i0).0 =~= seq![chars@[i0 as int]] + sp_word(
                chars@,
                i as nat,
            ).0);
            assert(text@ + sp_word(chars@, i as nat).0 =~= t0 + sp_word(chars@, i0).0);
        }
    }
    proof {
        assert(sp_word(chars@, i as nat).0 =~= Seq::<char>::empty());
        assert(text@ + Seq::<char>::empty() =~= text@);
    }
    (text, i)
}

/// Turns a scanned word into its token.
fn classify(text: String) -> (r: Token)
    ensures
        r@ == classify_word(text@),
{
    if str_eq(text.as_str(), "fn") || str_eq(text.as_str(), "define") || str_eq(
        text.as_str(),
        "mut",
    ) || str_eq(text.as_str(), "return") || str_eq(text.as_str(), "evoke") || str_eq(
        text.as_str(),
        "summon",
    ) || str_eq(text.as_str(), "as") {
        Token::Keyword(text)
    } else if str_eq(text.as_str(), "true") {
        Token::Boolean(true)
    } else if str_eq(text.as_str(), "false") {
        Token::Boolean(false)
    } else if str_eq(text.as_str(), "and") || str_eq(text.as_str(), "or") || str_eq(
        text.as_str(),
        "not",
    ) || str_eq(text.as_str(), "if") || str_eq(text.as_str(), "else") || str_eq(
        text.as_str(),
        "elif",
    ) || str_eq(text.as_str(), "match") {
        Token::Operator(text)
    } else {
        Token::Identifier(text)
    }
}

/// The tokenizer: a single left-to-right scan over the input text.
pub struct Lexer<'a> {
    pub input: &'a str,
}

impl<'a> Lexer<'a> {
    /// A tokenizer over the given source text.
    pub fn new(input: &'a str) -> (r: Self)
        ensures
            r.input@ == input@,
    {
        Self { input }
    }

    /// Converts the source text into its ordered token sequence.
    pub fn tokenize(&mut self) -> (r: Vec<Token>)
        ensures
            toks_vw(r@) == sp_tokenize(old(self).input@),
            final(self).input@ == old(self).input@,
    {
        let s = chars_of(self.input);
        let mut tokens: Vec<Token> = Vec::new();
        let mut i: usize = 0;
        let n = s.len();
        proof {
            assert(toks_vw(tokens@) + sp_tokenize_from(s@, 0) =~= sp_tokenize(s@));
        }
        while i < n
            invariant
                n == s@.len(),
                i <= n,
                s@ == old(self).input@,
                toks_vw(tokens@) + sp_tokenize_from(s@, i as nat) == sp_tokenize(s@),
            decreases n - i,
        {
            let ghost i0 = i as nat;
            let ghost toks0 = tokens@;
            let c = s[i];
            let ghost step = sp_next(s@, i0);
            if whitespace_char(c) {
                i = i + 1;
                proof {
                    assert(step == (None::<TokenV>, i0 + 1));
                }
            } else if c == '~' {
                if i + 1 < n && *vstd::std_specs::vec::vec_index(&s, i + 1) == '>' {
                    let (text, j) = scan_line_comment(&s, i + 2);
                    tokens.push(Token::Comment(text));
                    i = j;
                    proof {
                        assert(step == (
                            Some(TokenV::Comment(sp_line_comment(s@, i0 + 2).0)),
                            sp_line_comment(s@, i0 + 2).1,
                        ));
                    }
                } else if i + 1 < n && *vstd::std_specs::vec::vec_index(&s, i + 1) == '<' {
                    let (text, j) = scan_block_comment(&s, i + 2);
                    tokens.push(Token::Comment(text));
                    i = j;
                    proof {
                        assert(step == (
                            Some(TokenV::Comment(sp_block_comment(s@, i0 + 2).0)),
                            sp_block_comment(s@, i0 + 2).1,
                        ));
                    }
                } else {
                    i = i + 1;
                    proof {
                        assert(step == (None::<TokenV>, i0 + 1));
                    }
                }
            } else if c == ':' {
                if i + 1 < n && *vstd::std_specs::vec::vec_index(&s, i + 1) == '=' {
                    tokens.push(Token::Operator(String::from_str(":=")));
                    i = i + 2;
                    proof {
                        assert(step == (Some(TokenV::Operator(":="@)), i0 + 2));
                    }
                } else if i + 1 < n && *vstd::std_specs::vec::vec_index(&s, i + 1) == ':' {
                    tokens.push(Token::Symbol(String::from_str("::")));
                    i = i + 2;
                    proof {
                        assert(step == (Some(TokenV::Symbol("::"@)), i0 + 2));
                    }
                } else {
                    i = i + 1;
                    proof {
                        assert(step == (None::<TokenV>, i0 + 1));
                    }
                }
            } else if c == '-' {
                if i + 1 < n && *vstd::std_specs::vec::vec_index(&s, i + 1) == '>' {
                    tokens.push(Token::Operator(String::from_str("->")));
                    i = i + 2;
                    proof {
                        assert(step == (Some(TokenV::Operator("->"@)), i0 + 2));
                    }
                } else {
                    tokens.push(Token::Operator(String::from_str("-")));
                    i = i + 1;
                    proof {
                        assert(step == (Some(TokenV::Operator("-"@)), i0 + 1));
                    }
                }
            } else if c == '"' || c == '\'' {
                let (text, j) = scan_string_body(&s, i + 1, c);
                tokens.push(Token::String(text));
                i = j;
                proof {
                    assert(step == (
                        Some(TokenV::String(sp_string_body(s@, i0 + 1, c).0)),
                        sp_string_body(s@, i0 + 1, c).1,
                    ));
                }
            } else if c == '.' || c == ',' || c == '(' || c == ')' || c == ';' || c == '{' || c
                == '}' {
                tokens.push(Token::Symbol(char_string(c)));
                i = i + 1;
                proof {
                    assert(step == (Some(TokenV::Symbol(seq![c])), i0 + 1));
                }
            } else if digit_char(c) {
                let (text, j) = scan_number(&s, i);
                let bits = parse_f64(text.as_str());
                tokens.push(Token::Number(bits));
                i = j;
                proof {
                    assert(step == (
                        Some(TokenV::Number(f64_of_decimal(sp_number(s@, i0, false).0))),
                        sp_number(s@, i0, false).1,
                    ));
                }
            } else if alphanumeric_char(c) || c == '_' {
                let (text, j) = scan_word(&s, i);
                let tok = classify(text);
                tokens.push(tok);
                i = j;
                proof {
                    assert(step == (
                        Some(classify_word(sp_word(s@, i0).0)),
                        sp_word(s@, i0).1,
                    ));
                }
            } else {
                i = i + 1;
                proof {
                    assert(step == (None::<TokenV>, i0 + 1));
                }
            }
            proof {
                let (ot, j) = step;
                assert(i as nat == j);
                if i0 < j && j <= s@.len() {
                    match ot {
                        Some(tv) => {
                            assert(sp_tokenize_from(s@, i0) =~= seq![tv] + sp_tokenize_from(
                                s@,
                                j,
                            ));
                            assert(toks_vw(tokens@) =~= toks_vw(toks0).push(tv));
                            assert(toks_vw(tokens@) + sp_tokenize_from(s@, j) =~= toks_vw(toks0)
                                + sp_tokenize_from(s@, i0));
                        },
                        None => {
                            assert(sp_tokenize_from(s@, i0) =~= sp_tokenize_from(s@, j));
                            assert(toks_vw(tokens@) =~= toks_vw(toks0));
                        },
                    }
                }
            }
        }
        proof {
            assert(sp_tokenize_from(s@, i as nat) =~= Seq::<TokenV>::empty());
            assert(toks_vw(tokens@) + Seq::<TokenV>::empty() =~= toks_vw(tokens@));
        }
        tokens
    }
}

} // verus!
