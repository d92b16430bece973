//! The structured naming convention for variable names:
//!
//! ```text
//! name            = identifier | "der(" identifier ["," unsignedInteger] ")"
//! identifier      = B-name [arrayIndices] {"." B-name [arrayIndices]}
//! B-name          = nondigit {digit | nondigit} | Q-name
//! arrayIndices    = "[" unsignedInteger {"," unsignedInteger} "]"
//! ```
//!
//! A name is split into tokens (`DER` for `der(`, `NONDIGIT` for a plain name,
//! `Q_NAME` for a quoted one, `UNSIGNED_INTEGER` and single characters) and read
//! by an automaton whose states are the points of the grammar where the next token
//! is checked. A refused name is answered with the unexpected token and the tokens
//! that the state expected.
use vstd::prelude::*;
use vstd::string::*;

use crate::text::{chars_of, is_digit, owned, push_str};

pub mod grammar;

use grammar::{is_structured_name, lemma_structured_name_grammar};

verus! {

// ---------------------------------------------------------------------------
// Tokens
// ---------------------------------------------------------------------------
/// A token of a structured name.
#[derive(Debug, PartialEq, Eq, Structural, Clone, Copy)]
pub enum Token {
    Der,
    NonDigit,
    QName,
    UnsignedInteger,
    RParen,
    Comma,
    Dot,
    LBracket,
    RBracket,
    Invalid,
    End,
}

/// A character that may start a plain name.
pub open spec fn is_nondigit(c: char) -> bool {
    c == '_' || ('a' <= c && c <= 'z') || ('A' <= c && c <= 'Z')
}

/// A character that may stand unescaped in a quoted name.
pub open spec fn is_q_char(c: char) -> bool {
    is_nondigit(c) || is_digit(c) || c == '!' || c == '#' || c == '$' || c == '%' || c == '&'
        || c == '(' || c == ')' || c == '*' || c == '+' || c == ',' || c == '-' || c == '.' || c
        == '/' || c == ':' || c == ';' || c == '<' || c == '>' || c == '=' || c == '?' || c == '@'
        || c == '[' || c == ']' || c == '^' || c == '{' || c == '}' || c == '|' || c == '~' || c
        == ' ' || c == '"'
}

/// A character that may follow a backslash in a quoted name.
pub open spec fn is_escaped(c: char) -> bool {
    c == '\'' || c == '"' || c == '?' || c == '\\' || c == 'a' || c == 'b' || c == 'f' || c == 'n'
        || c == 'r' || c == 't' || c == 'v'
}

/// Where the run of name characters (letters, digits, `_`) that starts at `i` ends.
pub open spec fn ident_end(s: Seq<char>, i: nat) -> nat
    decreases s.len() - i,
{
    if i < s.len() && (is_nondigit(s[i as int]) || is_digit(s[i as int])) {
        ident_end(s, i + 1)
    } else {
        i
    }
}

/// Where the run of digits that starts at `i` ends.
pub open spec fn digits_end(s: Seq<char>, i: nat) -> nat
    decreases s.len() - i,
{
    if i < s.len() && is_digit(s[i as int]) {
        digits_end(s, i + 1)
    } else {
        i
    }
}

/// Where a quoted name whose text starts at `i` ends, just after its closing quote;
/// `started` tells whether a character of its text was read already. `None` where
/// no well-formed quoted name with a non-empty text starts there.
pub open spec fn q_name_end(s: Seq<char>, i: nat, started: bool) -> Option<nat>
    decreases s.len() - i,
{
    if i >= s.len() {
        None
    } else if s[i as int] == '\'' {
        if started {
            Some(i + 1)
        } else {
            None
        }
    } else if s[i as int] == '\\' {
        if i + 1 < s.len() && is_escaped(s[i + 1 as int]) {
            q_name_end(s, i + 2, true)
        } else {
            None
        }
    } else if is_q_char(s[i as int]) {
        q_name_end(s, i + 1, true)
    } else {
        None
    }
}

/// Whether `der(` starts at `i`.
pub open spec fn der_at(s: Seq<char>, i: nat) -> bool {
    i + 4 <= s.len() && s[i as int] == 'd' && s[i + 1 as int] == 'e' && s[i + 2 as int] == 'r' && s[i + 3 as int] == '('
}

/// The token that starts at `i`, and where it ends (the longest match).
pub open spec fn next_token(s: Seq<char>, i: nat) -> (Token, nat) {
    if i >= s.len() {
        (Token::End, i)
    } else if der_at(s, i) {
        (Token::Der, i + 4)
    } else if is_nondigit(s[i as int]) {
        (Token::NonDigit, ident_end(s, i + 1))
    } else if is_digit(s[i as int]) {
        (Token::UnsignedInteger, digits_end(s, i + 1))
    } else if s[i as int] == '\'' {
        match q_name_end(s, i + 1, false) {
            Some(j) => (Token::QName, j),
            None => (Token::Invalid, i + 1),
        }
    } else if s[i as int] == ')' {
        (Token::RParen, i + 1)
    } else if s[i as int] == ',' {
        (Token::Comma, i + 1)
    } else if s[i as int] == '.' {
        (Token::Dot, i + 1)
    } else if s[i as int] == '[' {
        (Token::LBracket, i + 1)
    } else if s[i as int] == ']' {
        (Token::RBracket, i + 1)
    } else {
        (Token::Invalid, i + 1)
    }
}

/// How a token is named in a message.
pub open spec fn token_name(t: Token) -> Seq<char> {
    match t {
        Token::Der => "DER"@,
        Token::NonDigit => "NONDIGIT"@,
        Token::QName => "Q_NAME"@,
        Token::UnsignedInteger => "UNSIGNED_INTEGER"@,
        Token::RParen => "')'"@,
        Token::Comma => "','"@,
        Token::Dot => "'.'"@,
        Token::LBracket => "'['"@,
        Token::RBracket => "']'"@,
        Token::Invalid => "invalid token"@,
        Token::End => "end of file"@,
    }
}

/// The names of the tokens `ts`, joined by ` or `.
pub open spec fn alternatives(ts: Seq<Token>) -> Seq<char>
    decreases ts.len(),
{
    if ts.len() == 0 {
        seq![]
    } else if ts.len() == 1 {
        token_name(ts[0])
    } else {
        alternatives(ts.drop_last()) + " or "@ + token_name(ts.last())
    }
}

/// The message for the token `t` where one of `expected` had to come.
pub open spec fn syntax_error(t: Token, expected: Seq<Token>) -> Seq<char> {
    "syntax error, unexpected "@ + token_name(t) + ", expecting "@ + alternatives(expected)
}

// ---------------------------------------------------------------------------
// The automaton
// ---------------------------------------------------------------------------
/// A point of the grammar where the next token is checked. `in_der` tells whether
/// the identifier stands inside `der(...)`.
#[derive(Debug, PartialEq, Eq, Structural, Clone, Copy)]
pub enum NameState {
    /// Before the name.
    Start,
    /// Where a B-name must come: after `der(` or after a `.`.
    ComponentStart { in_der: bool },
    /// After a B-name: array indices may follow.
    AfterBName { in_der: bool },
    /// After a B-name and its indices.
    AfterComponent { in_der: bool },
    /// After the `[` of array indices.
    IndexStart { in_der: bool },
    /// After an index.
    AfterIndex { in_der: bool },
    /// After the `,` between indices.
    IndexAfterComma { in_der: bool },
    /// After the `,` that introduces the order of a derivative.
    OrderStart,
    /// After the order of a derivative.
    AfterOrder,
    /// After the closing `)` of `der(...)`.
    Final,
}

/// What follows a complete component: another component, the end of `der(...)`, or
/// the end of the name.
pub open spec fn after_component(in_der: bool, t: Token) -> Result<Option<NameState>, Seq<char>> {
    if t == Token::Dot {
        Ok(Some(NameState::ComponentStart { in_der }))
    } else if in_der {
        if t == Token::RParen {
            Ok(Some(NameState::Final))
        } else if t == Token::Comma {
            Ok(Some(NameState::OrderStart))
        } else {
            Err(syntax_error(t, seq![Token::RParen, Token::Comma, Token::Dot]))
        }
    } else if t == Token::End {
        Ok(None)
    } else {
        Err(syntax_error(t, seq![Token::End]))
    }
}

/// One step of the automaton: the next state (`None` once the name is accepted),
/// or the message for the token.
pub open spec fn transition(st: NameState, t: Token) -> Result<Option<NameState>, Seq<char>> {
    match st {
        NameState::Start => if t == Token::Der {
            Ok(Some(NameState::ComponentStart { in_der: true }))
        } else if t == Token::NonDigit || t == Token::QName {
            Ok(Some(NameState::AfterBName { in_der: false }))
        } else {
            Err(syntax_error(t, seq![Token::Der, Token::NonDigit, Token::QName]))
        },
        NameState::ComponentStart { in_der } => if t == Token::NonDigit || t == Token::QName {
            Ok(Some(NameState::AfterBName { in_der }))
        } else {
            Err(syntax_error(t, seq![Token::NonDigit, Token::QName]))
        },
        NameState::AfterBName { in_der } => if t == Token::LBracket {
            Ok(Some(NameState::IndexStart { in_der }))
        } else {
            after_component(in_der, t)
        },
        NameState::AfterComponent { in_der } => after_component(in_der, t),
        NameState::IndexStart { in_der } => if t == Token::UnsignedInteger {
            Ok(Some(NameState::AfterIndex { in_der }))
        } else {
            Err(syntax_error(t, seq![Token::UnsignedInteger]))
        },
        NameState::AfterIndex { in_der } => if t == Token::Comma {
            Ok(Some(NameState::IndexAfterComma { in_der }))
        } else if t == Token::RBracket {
            Ok(Some(NameState::AfterComponent { in_der }))
        } else {
            Err(syntax_error(t, seq![Token::Comma, Token::RBracket]))
        },
        NameState::IndexAfterComma { in_der } => if t == Token::UnsignedInteger {
            Ok(Some(NameState::AfterIndex { in_der }))
        } else {
            Err(syntax_error(t, seq![Token::UnsignedInteger]))
        },
        NameState::OrderStart => if t == Token::UnsignedInteger {
            Ok(Some(NameState::AfterOrder))
        } else {
            Err(syntax_error(t, seq![Token::UnsignedInteger]))
        },
        NameState::AfterOrder => if t == Token::RParen {
            Ok(Some(NameState::Final))
        } else {
            Err(syntax_error(t, seq![Token::RParen]))
        },
        NameState::Final => if t == Token::End {
            Ok(None)
        } else {
            Err(syntax_error(t, seq![Token::End]))
        },
    }
}

proof fn lemma_ident_end(s: Seq<char>, i: nat)
    requires
        i <= s.len(),
    ensures
        i <= ident_end(s, i) <= s.len(),
    decreases s.len() - i,
{
    if i < s.len() && (is_nondigit(s[i as int]) || is_digit(s[i as int])) {
        lemma_ident_end(s, i + 1);
    }
}

proof fn lemma_digits_end(s: Seq<char>, i: nat)
    requires
        i <= s.len(),
    ensures
        i <= digits_end(s, i) <= s.len(),
    decreases s.len() - i,
{
    if i < s.len() && is_digit(s[i as int]) {
        lemma_digits_end(s, i + 1);
    }
}

proof fn lemma_q_name_end(s: Seq<char>, i: nat, started: bool)
    ensures
        q_name_end(s, i, started) matches Some(j) ==> i < j <= s.len(),
    decreases s.len() - i,
{
    if i < s.len() && s[i as int] != '\'' {
        if s[i as int] == '\\' {
            if i + 1 < s.len() && is_escaped(s[i + 1 as int]) {
                lemma_q_name_end(s, i + 2, true);
            }
        } else if is_q_char(s[i as int]) {
            lemma_q_name_end(s, i + 1, true);
        }
    }
}

/// A token other than the end of the name takes at least one character.
pub proof fn lemma_next_token(s: Seq<char>, i: nat)
    ensures
        next_token(s, i).0 == Token::End <==> i >= s.len(),
        i < s.len() ==> i < next_token(s, i).1 <= s.len(),
{
    if i < s.len() {
        lemma_ident_end(s, i + 1);
        lemma_digits_end(s, i + 1);
        lemma_q_name_end(s, i + 1, false);
    }
}

/// The automaton run on the tokens of `s` from position `i` in state `st`.
pub open spec fn run_from(s: Seq<char>, st: NameState, i: nat) -> Result<(), Seq<char>>
    decreases s.len() - i,
{
    let (t, j) = next_token(s, i);
    match transition(st, t) {
        Err(m) => Err(m),
        Ok(None) => Ok(()),
        Ok(Some(next)) => {
            proof {
                lemma_next_token(s, i);
            }
            run_from(s, next, j)
        },
    }
}

/// The answer for the name `s`: `Ok` where it follows the structured naming
/// convention, else the message for the first token that breaks it.
pub open spec fn check_structured_name(s: Seq<char>) -> Result<(), Seq<char>> {
    run_from(s, NameState::Start, 0)
}

// ---------------------------------------------------------------------------
// Executable parts
// ---------------------------------------------------------------------------
fn is_nondigit_char(c: char) -> (res: bool)
    ensures
        res == is_nondigit(c),
{
    c == '_' || ('a' <= c && c <= 'z') || ('A' <= c && c <= 'Z')
}

fn is_digit_char(c: char) -> (res: bool)
    ensures
        res == is_digit(c),
{
    '0' <= c && c <= '9'
}

fn is_q_char_char(c: char) -> (res: bool)
    ensures
        res == is_q_char(c),
{
    is_nondigit_char(c) || is_digit_char(c) || c == '!' || c == '#' || c == '$' || c == '%' || c
        == '&' || c == '(' || c == ')' || c == '*' || c == '+' || c == ',' || c == '-' || c == '.'
        || c == '/' || c == ':' || c == ';' || c == '<' || c == '>' || c == '=' || c == '?' || c
        == '@' || c == '[' || c == ']' || c == '^' || c == '{' || c == '}' || c == '|' || c == '~'
        || c == ' ' || c == '"'
}

fn is_escaped_char(c: char) -> (res: bool)
    ensures
        res == is_escaped(c),
{
    c == '\'' || c == '"' || c == '?' || c == '\\' || c == 'a' || c == 'b' || c == 'f' || c == 'n'
        || c == 'r' || c == 't' || c == 'v'
}

/// Where a quoted name whose text starts at `i` ends.
fn scan_q_name(s: &Vec<char>, i: usize) -> (res: Option<usize>)
    requires
        i <= s@.len(),
    ensures
        match res {
            Some(j) => q_name_end(s@, i as nat, false) == Some(j as nat),
            None => q_name_end(s@, i as nat, false) is None,
        },
{
    let mut k: usize = i;
    let mut started = false;
    while k < s.len()
        invariant
            i <= k <= s@.len(),
            q_name_end(s@, k as nat, started) == q_name_end(s@, i as nat, false),
        decreases s.len() - k,
    {
        let c = s[k];
        if c == '\'' {
            if started {
                return Some(k + 1);
            } else {
                return None;
            }
        } else if c == '\\' {
            if k + 1 < s.len() && is_escaped_char(s[k + 1]) {
                k = k + 2;
                started = true;
            } else {
                return None;
            }
        } else if is_q_char_char(c) {
            k = k + 1;
            started = true;
        } else {
            return None;
        }
    }
    None
}

/// The token that starts at `i`, and where it ends.
fn lex(s: &Vec<char>, i: usize) -> (res: (Token, usize))
    requires
        i <= s@.len(),
    ensures
        (res.0, res.1 as nat) == next_token(s@, i as nat),
{
    if i >= s.len() {
        return (Token::End, i);
    }
    let c = s[i];
    if s.len() - i >= 4 && c == 'd' && s[i + 1] == 'e' && s[i + 2] == 'r' && s[i + 3] == '(' {
        (Token::Der, i + 4)
    } else if is_nondigit_char(c) {
        let mut k: usize = i + 1;
        while k < s.len() && (is_nondigit_char(s[k]) || is_digit_char(s[k]))
            invariant
                i < k <= s@.len(),
                ident_end(s@, k as nat) == ident_end(s@, (i + 1) as nat),
            decreases s.len() - k,
        {
            k = k + 1;
        }
        (Token::NonDigit, k)
    } else if is_digit_char(c) {
        let mut k: usize = i + 1;
        while k < s.len() && is_digit_char(s[k])
            invariant
                i < k <= s@.len(),
                digits_end(s@, k as nat) == digits_end(s@, (i + 1) as nat),
            decreases s.len() - k,
        {
            k = k + 1;
        }
        (Token::UnsignedInteger, k)
    } else if c == '\'' {
        match scan_q_name(s, i + 1) {
            Some(j) => (Token::QName, j),
            None => (Token::Invalid, i + 1),
        }
    } else if c == ')' {
        (Token::RParen, i + 1)
    } else if c == ',' {
        (Token::Comma, i + 1)
    } else if c == '.' {
        (Token::Dot, i + 1)
    } else if c == '[' {
        (Token::LBracket, i + 1)
    } else if c == ']' {
        (Token::RBracket, i + 1)
    } else {
        (Token::Invalid, i + 1)
    }
}

fn name_of(t: Token) -> (res: &'static str)
    ensures
        res@ == token_name(t),
{
    match t {
        Token::Der => "DER",
        Token::NonDigit => "NONDIGIT",
        Token::QName => "Q_NAME",
        Token::UnsignedInteger => "UNSIGNED_INTEGER",
        Token::RParen => "')'",
        Token::Comma => "','",
        Token::Dot => "'.'",
        Token::LBracket => "'['",
        Token::RBracket => "']'",
        Token::Invalid => "invalid token",
        Token::End => "end of file",
    }
}

/// The message for the token `t` where one of `expected` had to come.
fn error_message(t: Token, expected: Vec<Token>) -> (res: String)
    ensures
        res@ == syntax_error(t, expected@),
{
    let mut m = owned("syntax error, unexpected ");
    push_str(&mut m, name_of(t));
    push_str(&mut m, ", expecting ");
    let mut i: usize = 0;
    while i < expected.len()
        invariant
            i <= expected@.len(),
            m@ == "syntax error, unexpected "@ + token_name(t) + ", expecting "@ + alternatives(
                expected@.take(i as int),
            ),
        decreases expected.len() - i,
    {
        if i > 0 {
            push_str(&mut m, " or ");
        }
        push_str(&mut m, name_of(expected[i]));
        proof {
            let taken = expected@.take(i + 1);
            assert(taken.drop_last() =~= expected@.take(i as int));
            assert(taken.last() == expected@[i as int]);
            if i == 0 {
                assert(expected@.take(0) =~= Seq::<Token>::empty());
                assert(alternatives(expected@.take(0)) =~= Seq::<char>::empty());
            }
        }
        i = i + 1;
    }
    proof {
        assert(expected@.take(expected@.len() as int) =~= expected@);
    }
    m
}

fn after_component_step(in_der: bool, t: Token) -> (res: Result<Option<NameState>, String>)
    ensures
        match res {
            Ok(n) => after_component(in_der, t) == Ok::<Option<NameState>, Seq<char>>(n),
            Err(m) => after_component(in_der, t) == Err::<Option<NameState>, Seq<char>>(m@),
        },
{
    if t == Token::Dot {
        Ok(Some(NameState::ComponentStart { in_der }))
    } else if in_der {
        if t == Token::RParen {
            Ok(Some(NameState::Final))
        } else if t == Token::Comma {
            Ok(Some(NameState::OrderStart))
        } else {
            Err(error_message(t, vec![Token::RParen, Token::Comma, Token::Dot]))
        }
    } else if t == Token::End {
        Ok(None)
    } else {
        Err(error_message(t, vec![Token::End]))
    }
}

fn step(st: NameState, t: Token) -> (res: Result<Option<NameState>, String>)
    ensures
        match res {
            Ok(n) => transition(st, t) == Ok::<Option<NameState>, Seq<char>>(n),
            Err(m) => transition(st, t) == Err::<Option<NameState>, Seq<char>>(m@),
        },
{
    match st {
        NameState::Start => if t == Token::Der {
            Ok(Some(NameState::ComponentStart { in_der: true }))
        } else if t == Token::NonDigit || t == Token::QName {
            Ok(Some(NameState::AfterBName { in_der: false }))
        } else {
            Err(error_message(t, vec![Token::Der, Token::NonDigit, Token::QName]))
        },
        NameState::ComponentStart { in_der } => if t == Token::NonDigit || t == Token::QName {
            Ok(Some(NameState::AfterBName { in_der }))
        } else {
            Err(error_message(t, vec![Token::NonDigit, Token::QName]))
        },
        NameState::AfterBName { in_der } => if t == Token::LBracket {
            Ok(Some(NameState::IndexStart { in_der }))
        } else {
            after_component_step(in_der, t)
        },
        NameState::AfterComponent { in_der } => after_component_step(in_der, t),
        NameState::IndexStart { in_der } => if t == Token::UnsignedInteger {
            Ok(Some(NameState::AfterIndex { in_der }))
        } else {
            Err(error_message(t, vec![Token::UnsignedInteger]))
        },
        NameState::AfterIndex { in_der } => if t == Token::Comma {
            Ok(Some(NameState::IndexAfterComma { in_der }))
        } else if t == Token::RBracket {
            Ok(Some(NameState::AfterComponent { in_der }))
        } else {
            Err(error_message(t, vec![Token::Comma, Token::RBracket]))
        },
        NameState::IndexAfterComma { in_der } => if t == Token::UnsignedInteger {
            Ok(Some(NameState::AfterIndex { in_der }))
        } else {
            Err(error_message(t, vec![Token::UnsignedInteger]))
        },
        NameState::OrderStart => if t == Token::UnsignedInteger {
            Ok(Some(NameState::AfterOrder))
        } else {
            Err(error_message(t, vec![Token::UnsignedInteger]))
        },
        NameState::AfterOrder => if t == Token::RParen {
            Ok(Some(NameState::Final))
        } else {
            Err(error_message(t, vec![Token::RParen]))
        },
        NameState::Final => if t == Token::End {
            Ok(None)
        } else {
            Err(error_message(t, vec![Token::End]))
        },
    }
}

/// Checks `name` against the structured naming convention: `Ok(())` where it
/// follows it, else the message for the first token that breaks it.
pub fn validate_structured_variable_name(name: &str) -> (res: Result<(), String>)
    requires
        !name@.contains('\0'),
    ensures
        res is Ok <==> is_structured_name(name@),
        match res {
            Ok(_) => check_structured_name(name@) == Ok::<(), Seq<char>>(()),
            Err(m) => check_structured_name(name@) == Err::<(), Seq<char>>(m@),
        },
{
    proof {
        lemma_structured_name_grammar(name@);
    }
    let s = chars_of(name);
    let mut st = NameState::Start;
    let mut i: usize = 0;
    loop
        invariant
            i <= s@.len(),
            s@ == name@,
            run_from(s@, st, i as nat) == check_structured_name(name@),
            (check_structured_name(name@) is Ok) <==> is_structured_name(name@),
        decreases s@.len() - i,
    {
        let (t, j) = lex(&s, i);
        proof {
            lemma_next_token(s@, i as nat);
        }
        match step(st, t)? {
            None => {
                return Ok(());
            },
            Some(next) => {
                st = next;
                i = j;
            },
        }
    }
}

} // verus!
