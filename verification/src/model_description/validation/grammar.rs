//! The structured naming convention written as a grammar over positions of the
//! name, and the proof that the automaton accepts exactly the names it describes.
use vstd::prelude::*;

use crate::model_description::validation::{
    after_component, check_structured_name, der_at, digits_end, ident_end, is_escaped,
    is_nondigit, is_q_char, lemma_digits_end, lemma_ident_end, lemma_next_token, next_token,
    q_name_end, run_from, transition, NameState, Token,
};
use crate::text::is_digit;

verus! {

// ---------------------------------------------------------------------------
// The grammar
// ---------------------------------------------------------------------------
/// A letter, a digit or `_`.
pub open spec fn is_name_char(c: char) -> bool {
    is_nondigit(c) || is_digit(c)
}

/// `s[i..j]` is a plain B-name: a nondigit, then nondigits and digits.
pub open spec fn plain_name_at(s: Seq<char>, i: int, j: int) -> bool {
    &&& 0 <= i < j <= s.len()
    &&& is_nondigit(s[i])
    &&& forall|q: int| i < q < j ==> is_name_char(#[trigger] s[q])
}

/// `s[i..j]` is a run of Q-chars and escapes.
pub open spec fn q_text_at(s: Seq<char>, i: int, j: int) -> bool
    decreases j - i,
{
    if i < j {
        if s[i] == '\\' {
            i + 2 <= j && is_escaped(s[i + 1]) && q_text_at(s, i + 2, j)
        } else {
            is_q_char(s[i]) && q_text_at(s, i + 1, j)
        }
    } else {
        i == j
    }
}

/// `s[i..j]` is a quoted B-name: a non-empty run of Q-chars and escapes between
/// single quotes.
pub open spec fn quoted_name_at(s: Seq<char>, i: int, j: int) -> bool {
    &&& 0 <= i
    &&& i + 3 <= j <= s.len()
    &&& s[i] == '\''
    &&& s[j - 1] == '\''
    &&& q_text_at(s, i + 1, j - 1)
}

/// `s[i..j]` is a B-name.
pub open spec fn b_name_at(s: Seq<char>, i: int, j: int) -> bool {
    plain_name_at(s, i, j) || quoted_name_at(s, i, j)
}

/// `s[i..j]` is an unsigned integer.
pub open spec fn unsigned_at(s: Seq<char>, i: int, j: int) -> bool {
    &&& 0 <= i < j <= s.len()
    &&& forall|q: int| i <= q < j ==> is_digit(#[trigger] s[q])
}

/// `s[i..j]` is a list of unsigned integers separated by `,`.
pub open spec fn unsigned_list_at(s: Seq<char>, i: int, j: int) -> bool
    decreases j - i,
{
    &&& 0 <= i < j <= s.len()
    &&& {
        ||| unsigned_at(s, i, j)
        ||| exists|m: int|
            i < m < j && #[trigger] unsigned_at(s, i, m) && s[m] == ',' && unsigned_list_at(
                s,
                m + 1,
                j,
            )
    }
}

/// `s[i..j]` is `[` unsignedInteger {`,` unsignedInteger} `]`.
pub open spec fn array_indices_at(s: Seq<char>, i: int, j: int) -> bool {
    &&& 0 <= i
    &&& i + 3 <= j <= s.len()
    &&& s[i] == '['
    &&& s[j - 1] == ']'
    &&& unsigned_list_at(s, i + 1, j - 1)
}

/// `s[i..j]` is a B-name with optional array indices.
pub open spec fn component_at(s: Seq<char>, i: int, j: int) -> bool {
    ||| b_name_at(s, i, j)
    ||| exists|m: int| #[trigger] b_name_at(s, i, m) && array_indices_at(s, m, j)
}

/// `s[i..j]` is an identifier: components separated by `.`.
pub open spec fn identifier_at(s: Seq<char>, i: int, j: int) -> bool
    decreases j - i,
{
    &&& 0 <= i < j <= s.len()
    &&& {
        ||| component_at(s, i, j)
        ||| exists|m: int|
            i < m < j && #[trigger] component_at(s, i, m) && s[m] == '.' && identifier_at(
                s,
                m + 1,
                j,
            )
    }
}

/// What closes `der(` identifier at `j`: `)`, or `,` unsignedInteger `)`, and
/// then the end of the name.
pub open spec fn der_tail(s: Seq<char>, j: int) -> bool {
    &&& 0 <= j < s.len()
    &&& {
        ||| j + 1 == s.len() && s[j] == ')'
        ||| s[j] == ',' && s[s.len() - 1] == ')' && unsigned_at(s, j + 1, s.len() - 1)
    }
}

/// `s` follows the structured naming convention:
/// `identifier | "der(" identifier ["," unsignedInteger] ")"`. Outside this module
/// it is known through `lemma_structured_name_grammar`.
pub closed spec fn is_structured_name(s: Seq<char>) -> bool {
    ||| identifier_at(s, 0, s.len() as int)
    ||| {
        &&& s.len() >= 4
        &&& s[0] == 'd' && s[1] == 'e' && s[2] == 'r' && s[3] == '('
        &&& exists|j: int| #[trigger] identifier_at(s, 4, j) && der_tail(s, j)
    }
}

// ---------------------------------------------------------------------------
// The lexer against the grammar
// ---------------------------------------------------------------------------
proof fn lemma_ident_end_iff(s: Seq<char>, k: nat, e: nat)
    requires
        k <= e <= s.len(),
    ensures
        ident_end(s, k) == e <==> ((forall|q: int| k <= q < e ==> is_name_char(#[trigger] s[q]))
            && (e == s.len() || !is_name_char(s[e as int]))),
    decreases e - k,
{
    if k < s.len() {
        lemma_ident_end(s, k + 1);
    }
    if k < e {
        if is_name_char(s[k as int]) {
            lemma_ident_end_iff(s, k + 1, e);
            assert((forall|q: int| k <= q < e ==> is_name_char(#[trigger] s[q])) <==> (forall|
                q: int,
            | k + 1 <= q < e ==> is_name_char(#[trigger] s[q])));
        } else {
            assert(!is_name_char(s[k as int]));
        }
    }
}

proof fn lemma_digits_end_iff(s: Seq<char>, k: nat, e: nat)
    requires
        k <= e <= s.len(),
    ensures
        digits_end(s, k) == e <==> ((forall|q: int| k <= q < e ==> is_digit(#[trigger] s[q])) && (e
            == s.len() || !is_digit(s[e as int]))),
    decreases e - k,
{
    if k < s.len() {
        lemma_digits_end(s, k + 1);
    }
    if k < e {
        if is_digit(s[k as int]) {
            lemma_digits_end_iff(s, k + 1, e);
            assert((forall|q: int| k <= q < e ==> is_digit(#[trigger] s[q])) <==> (forall|q: int|
                k + 1 <= q < e ==> is_digit(#[trigger] s[q])));
        } else {
            assert(!is_digit(s[k as int]));
        }
    }
}

proof fn lemma_q_name_end_iff(s: Seq<char>, k: nat, started: bool, j: nat)
    ensures
        q_name_end(s, k, started) == Some(j) <==> (k < j <= s.len() && s[j - 1] == '\''
            && q_text_at(s, k as int, j - 1) && (started || k < j - 1)),
    decreases s.len() - k,
{
    if k < s.len() {
        if s[k as int] == '\'' {
        } else if s[k as int] == '\\' {
            if k + 1 < s.len() {
                lemma_q_name_end_iff(s, k + 2, true, j);
            }
        } else if is_q_char(s[k as int]) {
            lemma_q_name_end_iff(s, k + 1, true, j);
        }
    }
}

proof fn lemma_plain_token(s: Seq<char>, i: int, j: int)
    requires
        plain_name_at(s, i, j),
        j == s.len() || (!is_name_char(s[j]) && s[j] != '('),
    ensures
        next_token(s, i as nat) == (Token::NonDigit, j as nat),
{
    lemma_ident_end_iff(s, (i + 1) as nat, j as nat);
    if der_at(s, i as nat) {
        if j > i + 3 {
            assert(is_name_char(s[i + 3]));
        }
    }
}

proof fn lemma_quoted_token(s: Seq<char>, i: int, j: int)
    requires
        quoted_name_at(s, i, j),
    ensures
        next_token(s, i as nat) == (Token::QName, j as nat),
{
    lemma_q_name_end_iff(s, (i + 1) as nat, false, j as nat);
}

proof fn lemma_b_name_token(s: Seq<char>, i: nat)
    requires
        next_token(s, i).0 == Token::NonDigit || next_token(s, i).0 == Token::QName,
    ensures
        b_name_at(s, i as int, next_token(s, i).1 as int),
{
    lemma_next_token(s, i);
    let e = next_token(s, i).1;
    if next_token(s, i).0 == Token::NonDigit {
        lemma_ident_end_iff(s, i + 1, e);
        assert(plain_name_at(s, i as int, e as int));
    } else {
        lemma_q_name_end_iff(s, i + 1, false, e);
        assert(quoted_name_at(s, i as int, e as int));
    }
}

proof fn lemma_unsigned_token(s: Seq<char>, i: int, j: int)
    requires
        unsigned_at(s, i, j),
        j == s.len() || !is_digit(s[j]),
    ensures
        next_token(s, i as nat) == (Token::UnsignedInteger, j as nat),
{
    lemma_digits_end_iff(s, (i + 1) as nat, j as nat);
    assert(is_digit(s[i]));
}

proof fn lemma_unsigned_token_back(s: Seq<char>, i: nat)
    requires
        next_token(s, i).0 == Token::UnsignedInteger,
    ensures
        unsigned_at(s, i as int, next_token(s, i).1 as int),
{
    lemma_next_token(s, i);
    lemma_digits_end_iff(s, i + 1, next_token(s, i).1);
}

// ---------------------------------------------------------------------------
// What each state of the automaton accepts
// ---------------------------------------------------------------------------
/// What may follow an identifier at `j`: the end of the name, or what closes `der(`.
spec fn tail(in_der: bool, s: Seq<char>, j: int) -> bool {
    if in_der {
        der_tail(s, j)
    } else {
        j == s.len()
    }
}

/// What may follow a complete component at `i`.
spec fn rest_after_component(in_der: bool, s: Seq<char>, i: int) -> bool {
    ||| tail(in_der, s, i)
    ||| {
        &&& 0 <= i < s.len()
        &&& s[i] == '.'
        &&& exists|j: int| #[trigger] identifier_at(s, i + 1, j) && tail(in_der, s, j)
    }
}

/// What may follow the `[` of array indices, or a `,` between indices, at `i`.
spec fn rest_of_indices(in_der: bool, s: Seq<char>, i: int) -> bool {
    exists|j: int|
        #[trigger] unsigned_list_at(s, i, j) && j < s.len() && s[j] == ']' && rest_after_component(
            in_der,
            s,
            j + 1,
        )
}

/// The rests of names, from `i`, that lead the automaton from `st` to acceptance.
spec fn accepted_from(s: Seq<char>, st: NameState, i: int) -> bool {
    match st {
        NameState::Start => i == 0 && is_structured_name(s),
        NameState::ComponentStart { in_der } => exists|j: int|
            #[trigger] identifier_at(s, i, j) && tail(in_der, s, j),
        NameState::AfterBName { in_der } => (exists|j: int|
            #[trigger] array_indices_at(s, i, j) && rest_after_component(in_der, s, j))
            || rest_after_component(in_der, s, i),
        NameState::AfterComponent { in_der } => rest_after_component(in_der, s, i),
        NameState::IndexStart { in_der } => rest_of_indices(in_der, s, i),
        NameState::AfterIndex { in_der } => 0 <= i < s.len() && ((s[i] == ','
            && rest_of_indices(in_der, s, i + 1)) || (s[i] == ']' && rest_after_component(
            in_der,
            s,
            i + 1,
        ))),
        NameState::IndexAfterComma { in_der } => rest_of_indices(in_der, s, i),
        NameState::OrderStart => exists|m: int|
            #[trigger] unsigned_at(s, i, m) && m + 1 == s.len() && s[m] == ')',
        NameState::AfterOrder => 0 <= i && i + 1 == s.len() && s[i] == ')',
        NameState::Final => i == s.len(),
    }
}

/// Whether the outcome `r` of a step leads to acceptance from `j`.
spec fn step_accepts(s: Seq<char>, r: Result<Option<NameState>, Seq<char>>, j: int) -> bool {
    match r {
        Err(_) => false,
        Ok(None) => true,
        Ok(Some(n)) => accepted_from(s, n, j),
    }
}

proof fn lemma_after_component_step(s: Seq<char>, d: bool, i: nat)
    requires
        i <= s.len(),
    ensures
        rest_after_component(d, s, i as int) == step_accepts(
            s,
            after_component(d, next_token(s, i).0),
            next_token(s, i).1 as int,
        ),
{
    lemma_next_token(s, i);
    let ii = i as int;
    if d && i < s.len() && s[ii] == ',' {
        if der_tail(s, ii) {
            assert(unsigned_at(s, ii + 1, s.len() - 1));
        }
        if accepted_from(s, NameState::OrderStart, ii + 1) {
            let m = choose|m: int| #[trigger]
                unsigned_at(s, ii + 1, m) && m + 1 == s.len() && s[m] == ')';
            assert(der_tail(s, ii));
        }
    }
}

/// A component at `i..m` followed by what may follow a component: the lexer reads
/// its B-name, and the automaton accepts from after it.
proof fn lemma_component_read(s: Seq<char>, d: bool, i: int, m: int)
    requires
        component_at(s, i, m),
        rest_after_component(d, s, m),
    ensures
        next_token(s, i as nat).0 == Token::NonDigit || next_token(s, i as nat).0 == Token::QName,
        accepted_from(s, NameState::AfterBName { in_der: d }, next_token(s, i as nat).1 as int),
{
    assert(m == s.len() || s[m] == '.' || s[m] == ')' || s[m] == ',');
    if b_name_at(s, i, m) {
        if plain_name_at(s, i, m) {
            lemma_plain_token(s, i, m);
        } else {
            lemma_quoted_token(s, i, m);
        }
    } else {
        let b = choose|b: int| #[trigger] b_name_at(s, i, b) && array_indices_at(s, b, m);
        if plain_name_at(s, i, b) {
            lemma_plain_token(s, i, b);
        } else {
            lemma_quoted_token(s, i, b);
        }
        assert(array_indices_at(s, b, m));
    }
}

/// An identifier rebuilt from a component at `i..m` and what follows it.
proof fn lemma_identifier_from_component(s: Seq<char>, d: bool, i: int, m: int)
    requires
        component_at(s, i, m),
        rest_after_component(d, s, m),
    ensures
        accepted_from(s, NameState::ComponentStart { in_der: d }, i),
{
    if !b_name_at(s, i, m) {
        let b = choose|b: int| #[trigger] b_name_at(s, i, b) && array_indices_at(s, b, m);
    }
    if tail(d, s, m) {
        assert(identifier_at(s, i, m));
    } else {
        let j = choose|j: int| #[trigger] identifier_at(s, m + 1, j) && tail(d, s, j);
        assert(component_at(s, i, m));
        assert(identifier_at(s, i, j));
    }
}

proof fn lemma_component_start_step(s: Seq<char>, d: bool, i: nat)
    requires
        i <= s.len(),
    ensures
        accepted_from(s, NameState::ComponentStart { in_der: d }, i as int) == step_accepts(
            s,
            transition(NameState::ComponentStart { in_der: d }, next_token(s, i).0),
            next_token(s, i).1 as int,
        ),
{
    let t = next_token(s, i).0;
    let e = next_token(s, i).1 as int;
    let ii = i as int;
    if accepted_from(s, NameState::ComponentStart { in_der: d }, ii) {
        let j = choose|j: int| #[trigger] identifier_at(s, ii, j) && tail(d, s, j);
        if component_at(s, ii, j) {
            lemma_component_read(s, d, ii, j);
        } else {
            let m = choose|m: int|
                ii < m < j && #[trigger] component_at(s, ii, m) && s[m] == '.' && identifier_at(
                    s,
                    m + 1,
                    j,
                );
            assert(identifier_at(s, m + 1, j));
            lemma_component_read(s, d, ii, m);
        }
    }
    if step_accepts(s, transition(NameState::ComponentStart { in_der: d }, t), e) {
        lemma_b_name_token(s, i);
        if exists|j: int| #[trigger]
            array_indices_at(s, e, j) && rest_after_component(d, s, j) {
            let j = choose|j: int| #[trigger]
                array_indices_at(s, e, j) && rest_after_component(d, s, j);
            assert(b_name_at(s, ii, e));
            assert(component_at(s, ii, j));
            lemma_identifier_from_component(s, d, ii, j);
        } else {
            lemma_identifier_from_component(s, d, ii, e);
        }
    }
}

proof fn lemma_after_b_name_step(s: Seq<char>, d: bool, i: nat)
    requires
        i <= s.len(),
    ensures
        accepted_from(s, NameState::AfterBName { in_der: d }, i as int) == step_accepts(
            s,
            transition(NameState::AfterBName { in_der: d }, next_token(s, i).0),
            next_token(s, i).1 as int,
        ),
{
    lemma_after_component_step(s, d, i);
    lemma_next_token(s, i);
    let ii = i as int;
    if i < s.len() && s[ii] == '[' {
        if exists|j: int| #[trigger]
            array_indices_at(s, ii, j) && rest_after_component(d, s, j) {
            let j = choose|j: int| #[trigger]
                array_indices_at(s, ii, j) && rest_after_component(d, s, j);
            assert(unsigned_list_at(s, ii + 1, j - 1));
        }
        if rest_of_indices(d, s, ii + 1) {
            let j = choose|j: int|
                #[trigger] unsigned_list_at(s, ii + 1, j) && j < s.len() && s[j] == ']'
                    && rest_after_component(d, s, j + 1);
            assert(array_indices_at(s, ii, j + 1));
        }
    }
}

proof fn lemma_index_step(s: Seq<char>, d: bool, i: nat)
    requires
        i <= s.len(),
    ensures
        rest_of_indices(d, s, i as int) == (next_token(s, i).0 == Token::UnsignedInteger
            && accepted_from(s, NameState::AfterIndex { in_der: d }, next_token(s, i).1 as int)),
{
    let ii = i as int;
    let e = next_token(s, i).1 as int;
    if rest_of_indices(d, s, ii) {
        let j = choose|j: int|
            #[trigger] unsigned_list_at(s, ii, j) && j < s.len() && s[j] == ']'
                && rest_after_component(d, s, j + 1);
        if unsigned_at(s, ii, j) {
            lemma_unsigned_token(s, ii, j);
        } else {
            let m = choose|m: int|
                ii < m < j && #[trigger] unsigned_at(s, ii, m) && s[m] == ',' && unsigned_list_at(
                    s,
                    m + 1,
                    j,
                );
            lemma_unsigned_token(s, ii, m);
            assert(unsigned_list_at(s, m + 1, j));
        }
    }
    if next_token(s, i).0 == Token::UnsignedInteger && accepted_from(
        s,
        NameState::AfterIndex { in_der: d },
        e,
    ) {
        lemma_unsigned_token_back(s, i);
        if s[e] == ',' && rest_of_indices(d, s, e + 1) {
            let j = choose|j: int|
                #[trigger] unsigned_list_at(s, e + 1, j) && j < s.len() && s[j] == ']'
                    && rest_after_component(d, s, j + 1);
            assert(unsigned_at(s, ii, e));
            assert(unsigned_list_at(s, ii, j));
        } else {
            assert(unsigned_list_at(s, ii, e));
        }
    }
}

proof fn lemma_order_step(s: Seq<char>, i: nat)
    requires
        i <= s.len(),
    ensures
        accepted_from(s, NameState::OrderStart, i as int) == (next_token(s, i).0
            == Token::UnsignedInteger && accepted_from(
            s,
            NameState::AfterOrder,
            next_token(s, i).1 as int,
        )),
{
    let ii = i as int;
    if accepted_from(s, NameState::OrderStart, ii) {
        let m = choose|m: int| #[trigger] unsigned_at(s, ii, m) && m + 1 == s.len() && s[m] == ')';
        lemma_unsigned_token(s, ii, m);
    }
    if next_token(s, i).0 == Token::UnsignedInteger {
        lemma_unsigned_token_back(s, i);
        assert(unsigned_at(s, ii, next_token(s, i).1 as int));
    }
}

proof fn lemma_start_step(s: Seq<char>)
    ensures
        accepted_from(s, NameState::Start, 0) == step_accepts(
            s,
            transition(NameState::Start, next_token(s, 0).0),
            next_token(s, 0).1 as int,
        ),
{
    let len = s.len() as int;
    lemma_component_start_step(s, false, 0);
    if identifier_at(s, 0, len) {
        assert(accepted_from(s, NameState::ComponentStart { in_der: false }, 0));
    }
    if accepted_from(s, NameState::ComponentStart { in_der: false }, 0) {
        let j = choose|j: int| #[trigger] identifier_at(s, 0, j) && tail(false, s, j);
        assert(identifier_at(s, 0, len));
    }
    if der_at(s, 0) {
        if exists|j: int| #[trigger] identifier_at(s, 4, j) && der_tail(s, j) {
            let j = choose|j: int| #[trigger] identifier_at(s, 4, j) && der_tail(s, j);
            assert(accepted_from(s, NameState::ComponentStart { in_der: true }, 4));
        }
        if accepted_from(s, NameState::ComponentStart { in_der: true }, 4) {
            let j = choose|j: int| #[trigger] identifier_at(s, 4, j) && tail(true, s, j);
            assert(identifier_at(s, 4, j) && der_tail(s, j));
        }
    }
}

proof fn lemma_accepted_step(s: Seq<char>, st: NameState, i: nat)
    requires
        i <= s.len(),
        st == NameState::Start ==> i == 0,
    ensures
        accepted_from(s, st, i as int) == step_accepts(
            s,
            transition(st, next_token(s, i).0),
            next_token(s, i).1 as int,
        ),
{
    lemma_next_token(s, i);
    match st {
        NameState::Start => lemma_start_step(s),
        NameState::ComponentStart { in_der } => lemma_component_start_step(s, in_der, i),
        NameState::AfterBName { in_der } => lemma_after_b_name_step(s, in_der, i),
        NameState::AfterComponent { in_der } => lemma_after_component_step(s, in_der, i),
        NameState::IndexStart { in_der } => lemma_index_step(s, in_der, i),
        NameState::IndexAfterComma { in_der } => lemma_index_step(s, in_der, i),
        NameState::OrderStart => lemma_order_step(s, i),
        _ => {},
    }
}

proof fn lemma_run_accepts(s: Seq<char>, st: NameState, i: nat)
    requires
        i <= s.len(),
        st == NameState::Start ==> i == 0,
    ensures
        (run_from(s, st, i) is Ok) == accepted_from(s, st, i as int),
    decreases s.len() - i,
{
    lemma_next_token(s, i);
    lemma_accepted_step(s, st, i);
    let t = next_token(s, i).0;
    let j = next_token(s, i).1;
    match transition(st, t) {
        Ok(Some(n)) => {
            assert(t != Token::End);
            assert(n != NameState::Start);
            lemma_run_accepts(s, n, j);
        },
        _ => {},
    }
}

/// The automaton accepts a name exactly when it follows the structured naming
/// convention.
pub proof fn lemma_structured_name_grammar(s: Seq<char>)
    ensures
        (check_structured_name(s) is Ok) <==> is_structured_name(s),
{
    lemma_run_accepts(s, NameState::Start, 0);
}

} // verus!
