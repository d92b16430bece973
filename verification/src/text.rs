//! Character-level helpers: building strings, decimal numerals, the integer,
//! boolean and floating-point literal grammars of the standard library, and
//! splitting at white space.
use vstd::prelude::*;
use vstd::string::*;

verus! {

/// The characters of `s`, in order.
pub fn chars_of(s: &str) -> (res: Vec<char>)
    ensures
        res@ == s@,
{
    let mut v: Vec<char> = Vec::new();
    for c in it: s.chars()
        invariant
            it.seq() == s@,
            v@ == it.seq().take(it.index() as int),
    {
        v.push(c);
    }
    proof {
        assert(v@ =~= s@);
    }
    v
}

/// Appends one character to a string (`String::push`).
#[verifier::external_body]
fn string_push(s: &mut String, c: char)
    ensures
        final(s)@ == old(s)@.push(c),
{
    s.push(c);
}

/// The string made of the characters `cs`.
pub fn string_from_chars(cs: &[char]) -> (res: String)
    ensures
        res@ == cs@,
{
    let mut s = String::new();
    let mut i: usize = 0;
    while i < cs.len()
        invariant
            i <= cs.len(),
            s@ == cs@.take(i as int),
        decreases cs.len() - i,
    {
        string_push(&mut s, cs[i]);
        i = i + 1;
        proof {
            assert(cs@.take(i as int) =~= cs@.take(i - 1).push(cs@[i - 1]));
        }
    }
    proof {
        assert(cs@.take(cs@.len() as int) =~= cs@);
    }
    s
}

/// A new string holding the characters of `s`.
pub fn owned(s: &str) -> (res: String)
    ensures
        res@ == s@,
{
    String::from_str(s)
}

/// Appends `b` to `a`.
pub fn push_str(a: &mut String, b: &str)
    ensures
        final(a)@ == old(a)@ + b@,
{
    a.append(b);
}

// ---------------------------------------------------------------------------
// Words joined by spaces
// ---------------------------------------------------------------------------
/// The words `ws` joined by single spaces.
pub open spec fn join_words(ws: Seq<Seq<char>>) -> Seq<char>
    decreases ws.len(),
{
    if ws.len() == 0 {
        seq![]
    } else if ws.len() == 1 {
        ws[0]
    } else {
        join_words(ws.drop_last()) + seq![' '] + ws.last()
    }
}

/// Appends the word `w` to the words `done` joined so far in `acc`; `first` tells
/// whether there are none yet.
fn push_word(acc: &mut String, w: &str, first: bool, Ghost(done): Ghost<Seq<Seq<char>>>)
    requires
        old(acc)@ == join_words(done),
        first <==> done.len() == 0,
    ensures
        final(acc)@ == join_words(done.push(w@)),
{
    if !first {
        push_str(acc, " ");
        proof {
            reveal_strlit(" ");
        }
    }
    push_str(acc, w);
    proof {
        assert(done.push(w@).drop_last() =~= done);
        if done.len() == 0 {
            assert(old(acc)@ =~= Seq::<char>::empty());
            assert(final(acc)@ =~= w@);
        }
    }
}

/// The strings `v` joined by single spaces.
pub fn join_strings(v: &Vec<String>) -> (res: String)
    ensures
        res@ == join_words(v@.map_values(|s: String| s@)),
{
    let ghost g = |s: String| s@;
    let mut res = String::new();
    let mut i: usize = 0;
    while i < v.len()
        invariant
            i <= v@.len(),
            g == (|s: String| s@),
            res@ == join_words(v@.take(i as int).map_values(g)),
        decreases v.len() - i,
    {
        push_word(&mut res, v[i].as_str(), i == 0, Ghost(v@.take(i as int).map_values(g)));
        proof {
            assert(v@.take(i + 1).map_values(g) =~= v@.take(i as int).map_values(g).push(v@[i as int]@));
        }
        i = i + 1;
    }
    proof {
        assert(v@.take(v@.len() as int) =~= v@);
    }
    res
}

/// The items of `v`, each written by `f`, joined by single spaces; `g` is what
/// `f` writes for an item.
pub fn join_mapped<T: Copy, F: Fn(T) -> String>(
    v: &Vec<T>,
    f: F,
    Ghost(g): Ghost<spec_fn(T) -> Seq<char>>,
) -> (res: String)
    requires
        forall|x: T| f.requires((x,)),
        forall|x: T, r: String| f.ensures((x,), r) ==> r@ == g(x),
    ensures
        res@ == join_words(v@.map_values(g)),
{
    let mut res = String::new();
    let mut i: usize = 0;
    while i < v.len()
        invariant
            i <= v@.len(),
            forall|x: T| f.requires((x,)),
            forall|x: T, r: String| f.ensures((x,), r) ==> r@ == g(x),
            res@ == join_words(v@.take(i as int).map_values(g)),
        decreases v.len() - i,
    {
        let w = f(v[i]);
        push_word(&mut res, w.as_str(), i == 0, Ghost(v@.take(i as int).map_values(g)));
        proof {
            assert(v@.take(i + 1).map_values(g) =~= v@.take(i as int).map_values(g).push(g(v@[i as int])));
        }
        i = i + 1;
    }
    proof {
        assert(v@.take(v@.len() as int) =~= v@);
    }
    res
}

// ---------------------------------------------------------------------------
// Decimal numerals
// ---------------------------------------------------------------------------
/// The character of the decimal digit `d` (`0 <= d < 10`).
pub open spec fn digit_char(d: int) -> char {
    (d + 48) as char
}

/// The decimal numeral of `n`, without leading zeros (`0` is written `"0"`).
pub open spec fn decimal(n: nat) -> Seq<char>
    decreases n,
{
    if n < 10 {
        seq![digit_char(n as int)]
    } else {
        decimal(n / 10).push(digit_char((n % 10) as int))
    }
}

/// The decimal numeral of the integer `n`, with a leading `-` when it is negative.
pub open spec fn signed_decimal(n: int) -> Seq<char> {
    if n < 0 {
        seq!['-'] + decimal((-n) as nat)
    } else {
        decimal(n as nat)
    }
}

fn digit_to_char(d: u64) -> (c: char)
    requires
        d < 10,
    ensures
        c == digit_char(d as int),
{
    let b: u8 = (d as u8) + 48;
    b as char
}

/// The decimal numeral of `n`.
pub fn u64_to_decimal(n: u64) -> (res: String)
    ensures
        res@ == decimal(n as nat),
    decreases n,
{
    if n < 10 {
        let c = digit_to_char(n);
        let mut s = String::new();
        string_push(&mut s, c);
        proof {
            assert(s@ =~= decimal(n as nat));
        }
        s
    } else {
        let mut s = u64_to_decimal(n / 10);
        let c = digit_to_char(n % 10);
        string_push(&mut s, c);
        s
    }
}

/// The decimal numeral of `n`.
pub fn u128_to_decimal(n: u128) -> (res: String)
    ensures
        res@ == decimal(n as nat),
    decreases n,
{
    if n < 10 {
        let c = digit_to_char(n as u64);
        let mut s = String::new();
        string_push(&mut s, c);
        proof {
            assert(s@ =~= decimal(n as nat));
        }
        s
    } else {
        let mut s = u128_to_decimal(n / 10);
        let c = digit_to_char((n % 10) as u64);
        string_push(&mut s, c);
        s
    }
}

/// The decimal numeral of `n`, with a leading `-` when it is negative.
pub fn i64_to_decimal(n: i64) -> (res: String)
    ensures
        res@ == signed_decimal(n as int),
{
    if n < 0 {
        let magnitude: u64 = if n == i64::MIN {
            9223372036854775808u64
        } else {
            (-n) as u64
        };
        let digits = u64_to_decimal(magnitude);
        let mut s = String::from_str("-");
        s.append(digits.as_str());
        proof {
            reveal_strlit("-");
            assert(s@ =~= seq!['-'] + decimal((-n) as nat));
        }
        s
    } else {
        u64_to_decimal(n as u64)
    }
}

// ---------------------------------------------------------------------------
// Integer literals, as `str::parse` of the standard integer types reads them
// ---------------------------------------------------------------------------
/// Why an integer literal was refused; the messages are those of `ParseIntError`.
#[derive(Clone, Copy, Debug, PartialEq, Eq)]
pub enum IntErrorKind {
    Empty,
    InvalidDigit,
    PosOverflow,
    NegOverflow,
}

impl IntErrorKind {
    pub open spec fn spec_message(self) -> Seq<char> {
        match self {
            IntErrorKind::Empty => "cannot parse integer from empty string"@,
            IntErrorKind::InvalidDigit => "invalid digit found in string"@,
            IntErrorKind::PosOverflow => "number too large to fit in target type"@,
            IntErrorKind::NegOverflow => "number too small to fit in target type"@,
        }
    }

    /// The text that `ParseIntError` displays for this kind.
    pub fn message(&self) -> (res: String)
        ensures
            res@ == self.spec_message(),
    {
        match self {
            IntErrorKind::Empty => owned("cannot parse integer from empty string"),
            IntErrorKind::InvalidDigit => owned("invalid digit found in string"),
            IntErrorKind::PosOverflow => owned("number too large to fit in target type"),
            IntErrorKind::NegOverflow => owned("number too small to fit in target type"),
        }
    }
}

pub open spec fn is_digit(c: char) -> bool {
    '0' <= c && c <= '9'
}

pub open spec fn digit_value(c: char) -> int {
    c as int - 48
}

/// The value of a string of decimal digits.
pub open spec fn digits_value(s: Seq<char>) -> int
    decreases s.len(),
{
    if s.len() == 0 {
        0
    } else {
        digits_value(s.drop_last()) * 10 + digit_value(s.last())
    }
}

/// Reads the digits `body[i..]` after the prefix `body[..i]` was read: the first
/// position that is no digit is an invalid digit, the first prefix whose value
/// leaves `[min, max]` an overflow.
pub open spec fn scan_digits(body: Seq<char>, negative: bool, min: int, max: int, i: nat) -> Result<
    int,
    IntErrorKind,
>
    decreases body.len() - i,
{
    if i >= body.len() {
        Ok(if negative { -digits_value(body) } else { digits_value(body) })
    } else if !is_digit(body[i as int]) {
        Err(IntErrorKind::InvalidDigit)
    } else if !negative && digits_value(body.take((i + 1) as int)) > max {
        Err(IntErrorKind::PosOverflow)
    } else if negative && -digits_value(body.take((i + 1) as int)) < min {
        Err(IntErrorKind::NegOverflow)
    } else {
        scan_digits(body, negative, min, max, i + 1)
    }
}

/// What `str::parse` gives for an integer type whose values are `[min, max]`:
/// an optional sign (`-` only where `min < 0`), then at least one decimal digit.
pub open spec fn parse_integer(s: Seq<char>, min: int, max: int) -> Result<int, IntErrorKind> {
    if s.len() == 0 {
        Err(IntErrorKind::Empty)
    } else if (s[0] == '+' || s[0] == '-') && s.len() == 1 {
        Err(IntErrorKind::InvalidDigit)
    } else if s[0] == '+' {
        scan_digits(s.drop_first(), false, min, max, 0)
    } else if s[0] == '-' && min < 0 {
        scan_digits(s.drop_first(), true, min, max, 0)
    } else {
        scan_digits(s, false, min, max, 0)
    }
}

proof fn lemma_digits_value_push(s: Seq<char>, c: char)
    ensures
        digits_value(s.push(c)) == digits_value(s) * 10 + digit_value(c),
{
    assert(s.push(c).drop_last() =~= s);
}

proof fn lemma_decimal(n: nat)
    ensures
        decimal(n).len() >= 1,
        forall|k: int| 0 <= k < decimal(n).len() ==> is_digit(#[trigger] decimal(n)[k]),
        digits_value(decimal(n)) == n,
    decreases n,
{
    if n >= 10 {
        lemma_decimal(n / 10);
        let d = (n % 10) as int;
        lemma_digits_value_push(decimal(n / 10), digit_char(d));
        assert(digit_value(digit_char(d)) == d);
        assert((n / 10) * 10 + d == n) by (nonlinear_arith)
            requires
                d == n % 10,
        ;
    } else {
        assert(decimal(n) =~= seq![digit_char(n as int)]);
        assert(digits_value(decimal(n).drop_last()) == 0) by {
            assert(decimal(n).drop_last() =~= Seq::<char>::empty());
        }
    }
}

proof fn lemma_prefix_value(s: Seq<char>, k: int)
    requires
        0 <= k <= s.len(),
        forall|q: int| 0 <= q < s.len() ==> is_digit(#[trigger] s[q]),
    ensures
        0 <= digits_value(s.take(k)) <= digits_value(s),
    decreases s.len() - k,
{
    if k < s.len() {
        lemma_prefix_value(s, k + 1);
        assert(s.take(k + 1).drop_last() =~= s.take(k));
        assert(is_digit(s[k]));
    } else {
        assert(s.take(k) =~= s);
        lemma_value_nonnegative(s);
    }
}

proof fn lemma_value_nonnegative(s: Seq<char>)
    requires
        forall|q: int| 0 <= q < s.len() ==> is_digit(#[trigger] s[q]),
    ensures
        digits_value(s) >= 0,
    decreases s.len(),
{
    if s.len() > 0 {
        lemma_value_nonnegative(s.drop_last());
        assert(is_digit(s.last()));
    }
}

proof fn lemma_scan_all(body: Seq<char>, negative: bool, min: int, max: int, i: nat)
    requires
        i <= body.len(),
        forall|q: int| 0 <= q < body.len() ==> is_digit(#[trigger] body[q]),
        !negative ==> digits_value(body) <= max,
        negative ==> -digits_value(body) >= min,
    ensures
        scan_digits(body, negative, min, max, i) == Ok::<int, IntErrorKind>(
            if negative {
                -digits_value(body)
            } else {
                digits_value(body)
            },
        ),
    decreases body.len() - i,
{
    if i < body.len() {
        lemma_prefix_value(body, (i + 1) as int);
        lemma_scan_all(body, negative, min, max, i + 1);
    }
}

/// Reading the decimal numeral of an integer of `[min, max]` gives the integer back.
pub proof fn lemma_parse_signed_decimal(x: int, min: int, max: int)
    requires
        min <= 0,
        min <= x <= max,
    ensures
        parse_integer(signed_decimal(x), min, max) == Ok::<int, IntErrorKind>(x),
{
    if x < 0 {
        let d = decimal((-x) as nat);
        lemma_decimal((-x) as nat);
        let s = seq!['-'] + d;
        assert(s.drop_first() =~= d);
        lemma_scan_all(d, true, min, max, 0);
    } else {
        let d = decimal(x as nat);
        lemma_decimal(x as nat);
        assert(is_digit(d[0]));
        lemma_scan_all(d, false, min, max, 0);
    }
}

/// Reads a decimal integer of the range `[min, max]` from `s`, as `str::parse`
/// does for the integer type of that range.
pub fn parse_integer_in(s: &[char], min: i64, max: u64) -> (res: Result<i128, IntErrorKind>)
    requires
        min <= 0,
    ensures
        match res {
            Ok(v) => parse_integer(s@, min as int, max as int) == Ok::<int, IntErrorKind>(v as int),
            Err(k) => parse_integer(s@, min as int, max as int) == Err::<int, IntErrorKind>(k),
        },
        res matches Ok(v) ==> min <= v <= max,
{
    let n = s.len();
    if n == 0 {
        return Err(IntErrorKind::Empty);
    }
    if (s[0] == '+' || s[0] == '-') && n == 1 {
        return Err(IntErrorKind::InvalidDigit);
    }
    let negative = s[0] == '-' && min < 0;
    let start: usize = if s[0] == '+' || negative {
        1
    } else {
        0
    };
    let ghost body = s@.subrange(start as int, n as int);
    proof {
        if start == 1 {
            assert(body =~= s@.drop_first());
        } else {
            assert(body =~= s@);
        }
    }
    let mut value: i128 = 0;
    let mut i: usize = start;
    while i < n
        invariant
            start <= i <= n,
            n == s@.len(),
            body == s@.subrange(start as int, n as int),
            min <= 0,
            value == (if negative {
                -digits_value(body.take(i - start))
            } else {
                digits_value(body.take(i - start))
            }),
            min <= value <= max,
            negative ==> value <= 0,
            !negative ==> value >= 0,
            forall|k: int| 0 <= k < i - start ==> is_digit(body[k]),
            scan_digits(body, negative, min as int, max as int, (i - start) as nat)
                == parse_integer(s@, min as int, max as int),
        decreases n - i,
    {
        let c = s[i];
        let ghost j: nat = (i - start) as nat;
        if !('0' <= c && c <= '9') {
            return Err(IntErrorKind::InvalidDigit);
        }
        let d: i128 = ((c as u32) - 48) as i128;
        proof {
            assert(body.take((j + 1) as int) =~= body.take(j as int).push(c));
            lemma_digits_value_push(body.take(j as int), c);
        }
        if negative {
            let next: i128 = value * 10 - d;
            if next < min as i128 {
                return Err(IntErrorKind::NegOverflow);
            }
            value = next;
        } else {
            let next: i128 = value * 10 + d;
            if next > max as i128 {
                return Err(IntErrorKind::PosOverflow);
            }
            value = next;
        }
        i = i + 1;
    }
    proof {
        assert(body.take(n - start) =~= body);
    }
    Ok(value)
}

/// `str::parse::<i8>`.
pub fn parse_i8(s: &[char]) -> (res: Result<i8, IntErrorKind>)
    ensures
        match res {
            Ok(v) => parse_integer(s@, i8::MIN as int, i8::MAX as int) == Ok::<int, IntErrorKind>(v as int),
            Err(k) => parse_integer(s@, i8::MIN as int, i8::MAX as int) == Err::<int, IntErrorKind>(k),
        },
{
    match parse_integer_in(s, i8::MIN as i64, i8::MAX as u64) {
        Ok(v) => Ok(v as i8),
        Err(k) => Err(k),
    }
}

/// `str::parse::<u8>`.
pub fn parse_u8(s: &[char]) -> (res: Result<u8, IntErrorKind>)
    ensures
        match res {
            Ok(v) => parse_integer(s@, 0, u8::MAX as int) == Ok::<int, IntErrorKind>(v as int),
            Err(k) => parse_integer(s@, 0, u8::MAX as int) == Err::<int, IntErrorKind>(k),
        },
{
    match parse_integer_in(s, 0, u8::MAX as u64) {
        Ok(v) => Ok(v as u8),
        Err(k) => Err(k),
    }
}

/// `str::parse::<i16>`.
pub fn parse_i16(s: &[char]) -> (res: Result<i16, IntErrorKind>)
    ensures
        match res {
            Ok(v) => parse_integer(s@, i16::MIN as int, i16::MAX as int) == Ok::<int, IntErrorKind>(v as int),
            Err(k) => parse_integer(s@, i16::MIN as int, i16::MAX as int) == Err::<int, IntErrorKind>(k),
        },
{
    match parse_integer_in(s, i16::MIN as i64, i16::MAX as u64) {
        Ok(v) => Ok(v as i16),
        Err(k) => Err(k),
    }
}

/// `str::parse::<u16>`.
pub fn parse_u16(s: &[char]) -> (res: Result<u16, IntErrorKind>)
    ensures
        match res {
            Ok(v) => parse_integer(s@, 0, u16::MAX as int) == Ok::<int, IntErrorKind>(v as int),
            Err(k) => parse_integer(s@, 0, u16::MAX as int) == Err::<int, IntErrorKind>(k),
        },
{
    match parse_integer_in(s, 0, u16::MAX as u64) {
        Ok(v) => Ok(v as u16),
        Err(k) => Err(k),
    }
}

/// `str::parse::<u32>`.
pub fn parse_u32(s: &[char]) -> (res: Result<u32, IntErrorKind>)
    ensures
        match res {
            Ok(v) => parse_integer(s@, 0, u32::MAX as int) == Ok::<int, IntErrorKind>(v as int),
            Err(k) => parse_integer(s@, 0, u32::MAX as int) == Err::<int, IntErrorKind>(k),
        },
{
    match parse_integer_in(s, 0, u32::MAX as u64) {
        Ok(v) => Ok(v as u32),
        Err(k) => Err(k),
    }
}

/// `str::parse::<u64>`.
pub fn parse_u64(s: &[char]) -> (res: Result<u64, IntErrorKind>)
    ensures
        match res {
            Ok(v) => parse_integer(s@, 0, u64::MAX as int) == Ok::<int, IntErrorKind>(v as int),
            Err(k) => parse_integer(s@, 0, u64::MAX as int) == Err::<int, IntErrorKind>(k),
        },
{
    match parse_integer_in(s, 0, u64::MAX) {
        Ok(v) => Ok(v as u64),
        Err(k) => Err(k),
    }
}

/// `str::parse::<usize>` on a 64-bit target.
pub fn parse_usize(s: &[char]) -> (res: Result<usize, IntErrorKind>)
    ensures
        match res {
            Ok(v) => parse_integer(s@, 0, usize::MAX as int) == Ok::<int, IntErrorKind>(v as int),
            Err(k) => parse_integer(s@, 0, usize::MAX as int) == Err::<int, IntErrorKind>(k),
        },
{
    match parse_integer_in(s, 0, usize::MAX as u64) {
        Ok(v) => Ok(v as usize),
        Err(k) => Err(k),
    }
}

/// `str::parse::<i32>`.
pub fn parse_i32(s: &[char]) -> (res: Result<i32, IntErrorKind>)
    ensures
        match res {
            Ok(v) => parse_integer(s@, i32::MIN as int, i32::MAX as int) == Ok::<int, IntErrorKind>(
                v as int,
            ),
            Err(k) => parse_integer(s@, i32::MIN as int, i32::MAX as int) == Err::<
                int,
                IntErrorKind,
            >(k),
        },
{
    match parse_integer_in(s, i32::MIN as i64, i32::MAX as u64) {
        Ok(v) => Ok(v as i32),
        Err(k) => Err(k),
    }
}

/// `str::parse::<i64>`.
pub fn parse_i64(s: &[char]) -> (res: Result<i64, IntErrorKind>)
    ensures
        match res {
            Ok(v) => parse_integer(s@, i64::MIN as int, i64::MAX as int) == Ok::<int, IntErrorKind>(
                v as int,
            ),
            Err(k) => parse_integer(s@, i64::MIN as int, i64::MAX as int) == Err::<
                int,
                IntErrorKind,
            >(k),
        },
{
    match parse_integer_in(s, i64::MIN, i64::MAX as u64) {
        Ok(v) => Ok(v as i64),
        Err(k) => Err(k),
    }
}

// ---------------------------------------------------------------------------
// Boolean and floating-point literals
// ---------------------------------------------------------------------------
/// What `str::parse::<bool>` accepts: exactly `true` or `false`.
pub open spec fn parse_bool(s: Seq<char>) -> Option<bool> {
    if s == "true"@ {
        Some(true)
    } else if s == "false"@ {
        Some(false)
    } else {
        None
    }
}

/// `str::parse::<bool>`.
pub fn parse_bool_chars(s: &[char]) -> (res: Option<bool>)
    ensures
        res == parse_bool(s@),
{
    proof {
        reveal_strlit("true");
        reveal_strlit("false");
    }
    if s.len() == 4 && s[0] == 't' && s[1] == 'r' && s[2] == 'u' && s[3] == 'e' {
        assert(s@ =~= "true"@);
        Some(true)
    } else if s.len() == 5 && s[0] == 'f' && s[1] == 'a' && s[2] == 'l' && s[3] == 's' && s[4]
        == 'e' {
        assert(s@ =~= "false"@);
        Some(false)
    } else {
        assert(s@ != "true"@);
        assert(s@ != "false"@);
        None
    }
}

pub open spec fn all_digits(s: Seq<char>) -> bool {
    forall|i: int| 0 <= i < s.len() ==> is_digit(#[trigger] s[i])
}

pub open spec fn lower(c: char) -> char {
    if 'A' <= c && c <= 'Z' {
        ((c as int) + 32) as char
    } else {
        c
    }
}

/// `s` equals `word` (given in lower case) when case is ignored.
pub open spec fn equals_ignoring_case(s: Seq<char>, word: Seq<char>) -> bool {
    s.len() == word.len() && forall|i: int| 0 <= i < s.len() ==> lower(#[trigger] s[i]) == word[i]
}

/// `Digit+ | Digit+ '.' Digit* | Digit* '.' Digit+`
pub open spec fn is_mantissa(s: Seq<char>) -> bool {
    ||| (s.len() > 0 && all_digits(s))
    ||| exists|p: int|
        0 <= p < s.len() && s[p] == '.' && all_digits(s.take(p)) && all_digits(s.skip(p + 1))
            && (p > 0 || p + 1 < s.len())
}

/// `[eE] Sign? Digit+`
pub open spec fn is_exponent(s: Seq<char>) -> bool {
    &&& s.len() >= 2
    &&& (s[0] == 'e' || s[0] == 'E')
    &&& {
        let rest = if s[1] == '+' || s[1] == '-' {
            s.skip(2)
        } else {
            s.skip(1)
        };
        rest.len() > 0 && all_digits(rest)
    }
}

/// A number: a mantissa followed by an optional exponent.
pub open spec fn is_number(s: Seq<char>) -> bool {
    ||| is_mantissa(s)
    ||| exists|q: int| 0 <= q < s.len() && is_mantissa(s.take(q)) && is_exponent(s.skip(q))
}

/// The grammar of the literals that `str::parse::<f64>` (and `f32`) accepts:
/// an optional sign, then `inf`, `infinity`, `nan` (in any case) or a number.
pub open spec fn is_float_literal(s: Seq<char>) -> bool {
    let body = if s.len() > 0 && (s[0] == '+' || s[0] == '-') {
        s.drop_first()
    } else {
        s
    };
    ||| equals_ignoring_case(body, "inf"@)
    ||| equals_ignoring_case(body, "infinity"@)
    ||| equals_ignoring_case(body, "nan"@)
    ||| is_number(body)
}

fn lower_char(c: char) -> (res: char)
    ensures
        res == lower(c),
{
    if 'A' <= c && c <= 'Z' {
        let b: u8 = (c as u8) + 32;
        b as char
    } else {
        c
    }
}

fn equals_word_ignoring_case(s: &[char], start: usize, word: &str) -> (res: bool)
    requires
        start <= s@.len(),
    ensures
        res == equals_ignoring_case(s@.skip(start as int), word@),
{
    let w = chars_of(word);
    let n = s.len();
    if n - start != w.len() {
        return false;
    }
    let mut i: usize = 0;
    while i < w.len()
        invariant
            start <= s@.len(),
            s@.len() - start == w@.len(),
            n == s@.len(),
            w@ == word@,
            i <= w@.len(),
            forall|k: int| 0 <= k < i ==> lower(#[trigger] s@.skip(start as int)[k]) == w@[k],
        decreases w.len() - i,
    {
        assert(start + i < s@.len());
        let idx = start + i;
        if lower_char(s[idx]) != w[i] {
            assert(lower(s@.skip(start as int)[i as int]) != w@[i as int]);
            return false;
        }
        i = i + 1;
    }
    true
}

/// The end of the run of digits that starts at `i`.
fn digits_end(s: &[char], i: usize) -> (end: usize)
    requires
        i <= s@.len(),
    ensures
        i <= end <= s@.len(),
        all_digits(s@.subrange(i as int, end as int)),
        end == s@.len() || !is_digit(s@[end as int]),
{
    let mut j = i;
    while j < s.len() && '0' <= s[j] && s[j] <= '9'
        invariant
            i <= j <= s@.len(),
            all_digits(s@.subrange(i as int, j as int)),
        decreases s.len() - j,
    {
        proof {
            assert forall|k: int| 0 <= k < j + 1 - i implies is_digit(
                #[trigger] s@.subrange(i as int, j + 1)[k],
            ) by {
                if k < j - i {
                    assert(s@.subrange(i as int, j + 1)[k] == s@.subrange(i as int, j as int)[k]);
                }
            }
        }
        j = j + 1;
    }
    j
}

proof fn lemma_mantissa_unique(s: Seq<char>, d: int)
    requires
        0 <= d <= s.len(),
        all_digits(s.take(d)),
        d == s.len() || !is_digit(s[d]),
    ensures
        is_mantissa(s) <==> (d == s.len() && d > 0) || (d < s.len() && s[d] == '.' && all_digits(
            s.skip(d + 1),
        ) && (d > 0 || d + 1 < s.len())),
{
    if d == s.len() {
        assert(s.take(d) =~= s);
        if d > 0 {
            assert(is_mantissa(s));
        } else {
            assert(!is_mantissa(s));
        }
    } else {
        if is_mantissa(s) {
            if s.len() > 0 && all_digits(s) {
                assert(is_digit(s[d]));
            } else {
                let p = choose|p: int|
                    0 <= p < s.len() && s[p] == '.' && all_digits(s.take(p)) && all_digits(
                        s.skip(p + 1),
                    ) && (p > 0 || p + 1 < s.len());
                if p < d {
                    assert(s.take(d)[p] == s[p]);
                } else if p > d {
                    assert(s.take(p)[d] == s[d]);
                }
            }
        }
        if s[d] == '.' && all_digits(s.skip(d + 1)) && (d > 0 || d + 1 < s.len()) {
            assert(is_mantissa(s));
        }
    }
}

fn is_mantissa_exec(s: &[char]) -> (res: bool)
    ensures
        res == is_mantissa(s@),
{
    let d = digits_end(s, 0);
    proof {
        assert(s@.subrange(0, d as int) =~= s@.take(d as int));
        lemma_mantissa_unique(s@, d as int);
    }
    if d == s.len() {
        return d > 0;
    }
    if s[d] != '.' {
        return false;
    }
    let e = digits_end(s, d + 1);
    proof {
        assert(s@.subrange(d + 1, e as int) =~= s@.skip(d + 1).take(e - d - 1));
        if e < s.len() {
            assert(s@.skip(d + 1)[e - d - 1] == s@[e as int]);
        } else {
            assert(s@.subrange(d + 1, e as int) =~= s@.skip(d + 1));
        }
    }
    e == s.len() && (d > 0 || d + 1 < s.len())
}

/// Whether `s` is a literal that `str::parse::<f64>` accepts.
pub fn is_float_literal_chars(s: &[char]) -> (res: bool)
    ensures
        res == is_float_literal(s@),
{
    let start: usize = if s.len() > 0 && (s[0] == '+' || s[0] == '-') {
        1
    } else {
        0
    };
    let ghost body = s@.skip(start as int);
    proof {
        if start == 0 {
            assert(body =~= s@);
        } else {
            assert(body =~= s@.drop_first());
        }
    }
    if equals_word_ignoring_case(s, start, "inf") || equals_word_ignoring_case(s, start, "infinity")
        || equals_word_ignoring_case(s, start, "nan") {
        return true;
    }
    let rest: Vec<char> = slice_tail(s, start);
    assert(rest@ == body);
    number_exec(&rest)
}

fn slice_tail(s: &[char], start: usize) -> (res: Vec<char>)
    requires
        start <= s@.len(),
    ensures
        res@ == s@.skip(start as int),
{
    let mut v: Vec<char> = Vec::new();
    let mut i = start;
    while i < s.len()
        invariant
            start <= i <= s@.len(),
            v@ == s@.subrange(start as int, i as int),
        decreases s.len() - i,
    {
        v.push(s[i]);
        i = i + 1;
        proof {
            assert(v@ =~= s@.subrange(start as int, i as int));
        }
    }
    proof {
        assert(v@ =~= s@.skip(start as int));
    }
    v
}

fn slice_range(s: &[char], start: usize, end: usize) -> (res: Vec<char>)
    requires
        start <= end <= s@.len(),
    ensures
        res@ == s@.subrange(start as int, end as int),
{
    let mut v: Vec<char> = Vec::new();
    let mut i = start;
    while i < end
        invariant
            start <= i <= end <= s@.len(),
            v@ == s@.subrange(start as int, i as int),
        decreases end - i,
    {
        v.push(s[i]);
        i = i + 1;
        proof {
            assert(v@ =~= s@.subrange(start as int, i as int));
        }
    }
    v
}

proof fn lemma_exponent_start(s: Seq<char>, q: int)
    requires
        0 <= q < s.len(),
        is_exponent(s.skip(q)),
    ensures
        s[q] == 'e' || s[q] == 'E',
{
    assert(s.skip(q)[0] == s[q]);
}

proof fn lemma_mantissa_has_no_e(s: Seq<char>)
    requires
        is_mantissa(s),
    ensures
        forall|k: int| 0 <= k < s.len() ==> s[k] != 'e' && s[k] != 'E',
{
    if s.len() > 0 && all_digits(s) {
    } else {
        let p = choose|p: int|
            0 <= p < s.len() && s[p] == '.' && all_digits(s.take(p)) && all_digits(s.skip(p + 1))
                && (p > 0 || p + 1 < s.len());
        assert forall|k: int| 0 <= k < s.len() implies s[k] != 'e' && s[k] != 'E' by {
            if k < p {
                assert(s.take(p)[k] == s[k]);
            } else if k > p {
                assert(s.skip(p + 1)[k - p - 1] == s[k]);
            }
        }
    }
}

fn number_exec(s: &Vec<char>) -> (res: bool)
    ensures
        res == is_number(s@),
{
    // The exponent, if any, starts at the first 'e' or 'E'.
    let mut q: usize = 0;
    while q < s.len() && s[q] != 'e' && s[q] != 'E'
        invariant
            q <= s@.len(),
            forall|k: int| 0 <= k < q ==> s@[k] != 'e' && s@[k] != 'E',
        decreases s.len() - q,
    {
        q = q + 1;
    }
    if q == s.len() {
        let r = is_mantissa_exec(s.as_slice());
        proof {
            if !r {
                assert forall|q2: int|
                    0 <= q2 < s@.len() && is_mantissa(s@.take(q2)) implies !is_exponent(
                    s@.skip(q2),
                ) by {
                    if is_exponent(s@.skip(q2)) {
                        lemma_exponent_start(s@, q2);
                    }
                }
            }
        }
        return r;
    }
    let head = slice_range(s.as_slice(), 0, q);
    let m = is_mantissa_exec(head.as_slice());
    let tail = slice_tail(s.as_slice(), q);
    let e = exponent_exec(&tail);
    proof {
        assert(head@ =~= s@.take(q as int));
        if is_mantissa(s@) {
            lemma_mantissa_has_no_e(s@);
            assert(s@[q as int] == 'e' || s@[q as int] == 'E');
        }
        assert forall|q2: int|
            0 <= q2 < s@.len() && is_mantissa(s@.take(q2)) && is_exponent(s@.skip(q2)) implies q2
            == q by {
            lemma_exponent_start(s@, q2);
            lemma_mantissa_has_no_e(s@.take(q2));
            if q2 > q {
                assert(s@.take(q2)[q as int] == s@[q as int]);
            }
        }
    }
    m && e
}

fn exponent_exec(s: &Vec<char>) -> (res: bool)
    ensures
        res == is_exponent(s@),
{
    if s.len() < 2 || (s[0] != 'e' && s[0] != 'E') {
        return false;
    }
    let start: usize = if s[1] == '+' || s[1] == '-' {
        2
    } else {
        1
    };
    let end = digits_end(s.as_slice(), start);
    proof {
        assert(s@.subrange(start as int, end as int) =~= s@.skip(start as int).take(
            end - start,
        ));
        if end < s.len() {
            assert(s@.skip(start as int)[end - start] == s@[end as int]);
        } else {
            assert(s@.subrange(start as int, end as int) =~= s@.skip(start as int));
        }
    }
    end == s.len() && end > start
}

// ---------------------------------------------------------------------------
// White space
// ---------------------------------------------------------------------------
/// The characters with the Unicode `White_Space` property (`char::is_whitespace`).
pub open spec fn is_white_space(c: char) -> bool {
    ||| ('\u{9}' <= c && c <= '\u{D}')
    ||| c == ' '
    ||| c == '\u{85}'
    ||| c == '\u{A0}'
    ||| c == '\u{1680}'
    ||| ('\u{2000}' <= c && c <= '\u{200A}')
    ||| c == '\u{2028}'
    ||| c == '\u{2029}'
    ||| c == '\u{202F}'
    ||| c == '\u{205F}'
    ||| c == '\u{3000}'
}

/// `char::is_whitespace`.
pub fn is_white_space_char(c: char) -> (res: bool)
    ensures
        res == is_white_space(c),
{
    ('\u{9}' <= c && c <= '\u{D}') || c == ' ' || c == '\u{85}' || c == '\u{A0}' || c == '\u{1680}'
        || ('\u{2000}' <= c && c <= '\u{200A}') || c == '\u{2028}' || c == '\u{2029}' || c
        == '\u{202F}' || c == '\u{205F}' || c == '\u{3000}'
}

/// The words of `s[i..]`, given the word `current` read so far and the words `done` before it.
pub open spec fn words_from(s: Seq<char>, i: nat, current: Seq<char>, done: Seq<Seq<char>>) -> Seq<
    Seq<char>,
>
    decreases s.len() - i,
{
    if i >= s.len() {
        if current.len() > 0 {
            done.push(current)
        } else {
            done
        }
    } else if is_white_space(s[i as int]) {
        if current.len() > 0 {
            words_from(s, i + 1, seq![], done.push(current))
        } else {
            words_from(s, i + 1, seq![], done)
        }
    } else {
        words_from(s, i + 1, current.push(s[i as int]), done)
    }
}

/// The maximal runs of characters that are not white space, in order (`str::split_whitespace`).
pub open spec fn words(s: Seq<char>) -> Seq<Seq<char>> {
    words_from(s, 0, seq![], seq![])
}

/// A non-empty word without white space.
pub open spec fn is_plain_word(w: Seq<char>) -> bool {
    w.len() > 0 && forall|q: int| 0 <= q < w.len() ==> !is_white_space(#[trigger] w[q])
}

proof fn lemma_words_scan(s: Seq<char>, i: nat, k: nat, cur: Seq<char>, done: Seq<Seq<char>>)
    requires
        i <= k <= s.len(),
        forall|q: int| i <= q < k ==> !is_white_space(#[trigger] s[q]),
    ensures
        words_from(s, i, cur, done) == words_from(s, k, cur + s.subrange(i as int, k as int), done),
    decreases k - i,
{
    if i < k {
        lemma_words_scan(s, i + 1, k, cur.push(s[i as int]), done);
        assert(cur.push(s[i as int]) + s.subrange((i + 1) as int, k as int) =~= cur + s.subrange(
            i as int,
            k as int,
        ));
    } else {
        assert(cur + s.subrange(i as int, i as int) =~= cur);
    }
}

proof fn lemma_join_first(ws: Seq<Seq<char>>)
    requires
        ws.len() >= 2,
    ensures
        join_words(ws) == ws[0] + seq![' '] + join_words(ws.drop_first()),
    decreases ws.len(),
{
    let d = ws.drop_last();
    let f = ws.drop_first();
    if ws.len() == 2 {
        assert(join_words(d) == ws[0]);
        assert(join_words(f) == ws[1]);
        assert(join_words(ws) == join_words(d) + seq![' '] + ws.last());
    } else {
        lemma_join_first(d);
        assert(d.drop_first() =~= f.drop_last());
        assert(f.last() == ws.last());
        assert(d[0] == ws[0]);
        assert(join_words(f) == join_words(f.drop_last()) + seq![' '] + f.last());
        assert(join_words(ws) == join_words(d) + seq![' '] + ws.last());
        assert(join_words(d) == ws[0] + seq![' '] + join_words(f.drop_last()));
        assert(ws[0] + seq![' '] + join_words(f.drop_last()) + seq![' '] + ws.last() =~= ws[0]
            + seq![' '] + (join_words(f.drop_last()) + seq![' '] + ws.last()));
    }
}

proof fn lemma_words_from_join(s: Seq<char>, i: nat, ws: Seq<Seq<char>>, done: Seq<Seq<char>>)
    requires
        i <= s.len(),
        s.subrange(i as int, s.len() as int) == join_words(ws),
        forall|k: int| 0 <= k < ws.len() ==> is_plain_word(#[trigger] ws[k]),
    ensures
        words_from(s, i, seq![], done) == done + ws,
    decreases ws.len(),
{
    let j = join_words(ws);
    if ws.len() == 0 {
        assert(s.subrange(i as int, s.len() as int).len() == 0);
        assert(done + ws =~= done);
    } else {
        let w = ws[0];
        assert(is_plain_word(w));
        let k = i + w.len();
        if ws.len() >= 2 {
            lemma_join_first(ws);
            assert(j.len() == w.len() + 1 + join_words(ws.drop_first()).len());
        } else {
            assert(j == w);
        }
        assert(s.subrange(i as int, s.len() as int).len() == s.len() - i);
        assert(k <= s.len());
        assert forall|q: int| 0 <= q < w.len() implies #[trigger] s[i + q] == w[q] by {
            assert(s.subrange(i as int, s.len() as int)[q] == s[i + q]);
            assert(j[q] == w[q]);
        }
        assert forall|q: int| i <= q < k implies !is_white_space(#[trigger] s[q]) by {
            assert(s[i + (q - i)] == w[q - i]);
        }
        lemma_words_scan(s, i, k, seq![], done);
        assert(Seq::<char>::empty() + s.subrange(i as int, k as int) =~= w) by {
            assert forall|q: int| 0 <= q < w.len() implies s.subrange(i as int, k as int)[q]
                == w[q] by {
                assert(s[i + q] == w[q]);
            }
        }
        if ws.len() == 1 {
            assert(k == s.len());
            assert(done.push(w) =~= done + ws);
        } else {
            let r = join_words(ws.drop_first());
            assert(s[k as int] == ' ') by {
                assert(s.subrange(i as int, s.len() as int)[w.len() as int] == s[k as int]);
                assert(j[w.len() as int] == ' ');
            }
            assert(s.subrange((k + 1) as int, s.len() as int) =~= r) by {
                assert forall|q: int| 0 <= q < r.len() implies s.subrange(
                    (k + 1) as int,
                    s.len() as int,
                )[q] == r[q] by {
                    assert(s.subrange(i as int, s.len() as int)[w.len() + 1 + q] == s[k + 1 + q]);
                    assert(j[w.len() + 1 + q] == r[q]);
                }
            }
            assert forall|m: int| 0 <= m < ws.drop_first().len() implies is_plain_word(
                #[trigger] ws.drop_first()[m],
            ) by {
                assert(ws.drop_first()[m] == ws[m + 1]);
            }
            lemma_words_from_join(s, k + 1, ws.drop_first(), done.push(w));
            assert(done.push(w) + ws.drop_first() =~= done + ws);
        }
    }
}

/// Splitting words joined by single spaces at white space gives the words back,
/// where each is non-empty and holds no white space.
pub proof fn lemma_words_of_join(ws: Seq<Seq<char>>)
    requires
        forall|k: int| 0 <= k < ws.len() ==> is_plain_word(#[trigger] ws[k]),
    ensures
        words(join_words(ws)) == ws,
{
    let s = join_words(ws);
    assert(s.subrange(0, s.len() as int) =~= s);
    lemma_words_from_join(s, 0, ws, seq![]);
    assert(Seq::<Seq<char>>::empty() + ws =~= ws);
}

/// The decimal numeral of an integer is a plain word.
pub proof fn lemma_signed_decimal_word(x: int)
    ensures
        is_plain_word(signed_decimal(x)),
{
    if x < 0 {
        lemma_decimal((-x) as nat);
        let d = decimal((-x) as nat);
        assert forall|q: int| 0 <= q < signed_decimal(x).len() implies !is_white_space(
            #[trigger] signed_decimal(x)[q],
        ) by {
            if q > 0 {
                assert(signed_decimal(x)[q] == d[q - 1]);
                assert(is_digit(d[q - 1]));
            }
        }
    } else {
        lemma_decimal(x as nat);
        assert forall|q: int| 0 <= q < signed_decimal(x).len() implies !is_white_space(
            #[trigger] signed_decimal(x)[q],
        ) by {
            assert(is_digit(decimal(x as nat)[q]));
        }
    }
}

/// `str::split_whitespace`, as character vectors.
pub fn split_white_space(s: &[char]) -> (res: Vec<Vec<char>>)
    ensures
        res@.len() == words(s@).len(),
        forall|k: int| 0 <= k < res@.len() ==> (#[trigger] res@[k])@ == words(s@)[k],
{
    let mut done: Vec<Vec<char>> = Vec::new();
    let mut current: Vec<char> = Vec::new();
    let mut i: usize = 0;
    let ghost mut done_view: Seq<Seq<char>> = seq![];
    while i < s.len()
        invariant
            i <= s@.len(),
            done@.len() == done_view.len(),
            forall|k: int| 0 <= k < done@.len() ==> (#[trigger] done@[k])@ == done_view[k],
            words_from(s@, i as nat, current@, done_view) == words(s@),
        decreases s.len() - i,
    {
        let c = s[i];
        if is_white_space_char(c) {
            if current.len() == 0 {
                assert(current@ =~= seq![]);
            } else {
                let w = current;
                proof {
                    done_view = done_view.push(w@);
                }
                done.push(w);
                current = Vec::new();
                proof {
                    assert(current@ =~= seq![]);
                }
            }
        } else {
            current.push(c);
        }
        i = i + 1;
    }
    if current.len() > 0 {
        proof {
            done_view = done_view.push(current@);
        }
        done.push(current);
    }
    done
}

} // verus!
