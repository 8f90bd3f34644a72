//! The recursive-descent parser: source text to a `Program`.
//!
//! Grammar: `function <ident>(<ident>: u8, ...) { <statement>* }` where a
//! statement is `let <ident> = <expression>;` or
//! `if <expression> { <statement>* } else { <statement>* }`, and an
//! expression is `<value> <operator> <expression>` or a bare value: an
//! integer literal with its `u8` suffix, `true`/`false`, an identifier, or
//! a parenthesized expression. The grammar is specified by spec functions
//! over character sequences; the executable parser returns exactly what
//! they describe, or the position of the first offending character.

use vstd::prelude::*;

use crate::ast::{
    view_statements, Expression, ExpressionV, Input, InputV, Operator, Program, ProgramV,
    Statement, StatementV, Type, Value, ValueV,
};
use crate::error::ParseError;

verus! {

/// Whitespace between tokens.
pub open spec fn is_space(c: char) -> bool {
    c == ' ' || c == '\n' || c == '\t' || c == '\r'
}

/// A decimal digit.
pub open spec fn is_digit(c: char) -> bool {
    '0' as u32 <= c as u32 && c as u32 <= '9' as u32
}

/// A character that may start an identifier.
pub open spec fn is_ident_start(c: char) -> bool {
    ('a' as u32 <= c as u32 && c as u32 <= 'z' as u32) || ('A' as u32 <= c as u32 && c as u32
        <= 'Z' as u32) || c == '_'
}

/// A character that may continue an identifier.
pub open spec fn is_ident_char(c: char) -> bool {
    is_ident_start(c) || is_digit(c)
}

/// The numeric value of a decimal digit.
pub open spec fn digit_val(c: char) -> int {
    c as u32 - '0' as u32
}

/// The first position at or after `i` that does not hold whitespace.
pub open spec fn skip_ws(s: Seq<char>, i: int) -> int
    decreases s.len() - i,
{
    if 0 <= i < s.len() && is_space(s[i]) {
        skip_ws(s, i + 1)
    } else {
        i
    }
}

/// The end of the identifier-character run starting at `i`.
pub open spec fn ident_end(s: Seq<char>, i: int) -> int
    decreases s.len() - i,
{
    if 0 <= i < s.len() && is_ident_char(s[i]) {
        ident_end(s, i + 1)
    } else {
        i
    }
}

/// The end of the digit run starting at `i`.
pub open spec fn digits_end(s: Seq<char>, i: int) -> int
    decreases s.len() - i,
{
    if 0 <= i < s.len() && is_digit(s[i]) {
        digits_end(s, i + 1)
    } else {
        i
    }
}

/// The numeric value of the digits `s[i..j)`.
pub open spec fn digits_val(s: Seq<char>, i: int, j: int) -> int
    decreases j - i,
{
    if i >= j {
        0
    } else {
        digits_val(s, i, j - 1) * 10 + digit_val(s[j - 1])
    }
}

/// Whether `lit` occurs in `s` at position `i`.
pub open spec fn has_at(s: Seq<char>, i: int, lit: Seq<char>) -> bool {
    0 <= i && i + lit.len() <= s.len() && s.subrange(i, i + lit.len()) == lit
}

/// What parsing a value at `i` yields: the value and the position after it,
/// or the position of the offending character.
pub open spec fn spec_parse_value(s: Seq<char>, i: int) -> Result<(ValueV, int), int>
    decreases s.len() - i, 0int,
{
    let j = skip_ws(s, i);
    if !(0 <= j < s.len()) {
        Err(j)
    } else if s[j] == '(' {
        if j + 1 > i {
            match spec_parse_expression(s, j + 1) {
                Ok((e, k)) => {
                    let m = skip_ws(s, k);
                    if 0 <= m < s.len() && s[m] == ')' {
                        Ok((ValueV::Expression(Box::new(e)), m + 1))
                    } else {
                        Err(m)
                    }
                },
                Err(p) => Err(p),
            }
        } else {
            Err(j)
        }
    } else if is_digit(s[j]) {
        let k = digits_end(s, j);
        if has_at(s, k, "u8"@) {
            if digits_val(s, j, k) <= 255 {
                Ok((ValueV::Integer(digits_val(s, j, k) as u8), k + 2))
            } else {
                Err(j)
            }
        } else {
            Err(k)
        }
    } else if is_ident_start(s[j]) {
        let k = ident_end(s, j);
        let name = s.subrange(j, k);
        if name == "true"@ {
            Ok((ValueV::Boolean(true), k))
        } else if name == "false"@ {
            Ok((ValueV::Boolean(false), k))
        } else {
            Ok((ValueV::Identifier(name), k))
        }
    } else {
        Err(j)
    }
}

/// The single-character operators.
pub open spec fn char_operator(c: char) -> Option<Operator> {
    if c == '+' {
        Some(Operator::Add)
    } else if c == '-' {
        Some(Operator::Subtract)
    } else if c == '*' {
        Some(Operator::Multiply)
    } else if c == '/' {
        Some(Operator::Divide)
    } else if c == '>' {
        Some(Operator::GreaterThan)
    } else if c == '<' {
        Some(Operator::LessThan)
    } else {
        None
    }
}

/// What parsing an expression at `i` yields: a value, optionally followed
/// by an operator and a further expression to its right.
pub open spec fn spec_parse_expression(s: Seq<char>, i: int) -> Result<(ExpressionV, int), int>
    decreases s.len() - i, 1int,
{
    match spec_parse_value(s, i) {
        Err(p) => Err(p),
        Ok((v, j)) => {
            let k = skip_ws(s, j);
            if 0 <= k < s.len() && char_operator(s[k]) is Some {
                if k + 1 > i {
                    match spec_parse_expression(s, k + 1) {
                        Ok((rhs, m)) => Ok(
                            (
                                ExpressionV::Binary {
                                    left: v,
                                    operator: char_operator(s[k]).unwrap(),
                                    right: Box::new(rhs),
                                },
                                m,
                            ),
                        ),
                        Err(p) => Err(p),
                    }
                } else {
                    Err(k)
                }
            } else if 0 <= k && k + 1 < s.len() && s[k] == '=' && s[k + 1] == '=' {
                if k + 2 > i {
                    match spec_parse_expression(s, k + 2) {
                        Ok((rhs, m)) => Ok(
                            (
                                ExpressionV::Binary {
                                    left: v,
                                    operator: Operator::Equal,
                                    right: Box::new(rhs),
                                },
                                m,
                            ),
                        ),
                        Err(p) => Err(p),
                    }
                } else {
                    Err(k)
                }
            } else {
                Ok((ExpressionV::Value(Box::new(v)), j))
            }
        },
    }
}

/// What parsing a statement at `i` yields: an assignment
/// `let <ident> = <expression>;` or a conditional
/// `if <expression> { ... } else { ... }`.
pub open spec fn spec_parse_statement(s: Seq<char>, i: int) -> Result<(StatementV, int), int>
    decreases s.len() - i, 0int,
{
    let j = skip_ws(s, i);
    let k = ident_end(s, j);
    let kw = if 0 <= j <= k <= s.len() {
        s.subrange(j, k)
    } else {
        Seq::empty()
    };
    if kw == "let"@ {
        let j2 = skip_ws(s, k);
        let k2 = ident_end(s, j2);
        if 0 <= j2 < s.len() && is_ident_start(s[j2]) {
            let var = s.subrange(j2, k2);
            let j3 = skip_ws(s, k2);
            if 0 <= j3 < s.len() && s[j3] == '=' && !(j3 + 1 < s.len() && s[j3 + 1] == '=') {
                if j3 + 1 > i {
                    match spec_parse_expression(s, j3 + 1) {
                        Ok((e, j4)) => {
                            let j5 = skip_ws(s, j4);
                            if 0 <= j5 < s.len() && s[j5] == ';' {
                                Ok((StatementV::Assign { variable: var, expression: e }, j5 + 1))
                            } else {
                                Err(j5)
                            }
                        },
                        Err(p) => Err(p),
                    }
                } else {
                    Err(j3)
                }
            } else {
                Err(j3)
            }
        } else {
            Err(j2)
        }
    } else if kw == "if"@ {
        if k > i {
            match spec_parse_expression(s, k) {
                Err(p) => Err(p),
                Ok((cond, m)) => {
                    let m1 = skip_ws(s, m);
                    if 0 <= m1 < s.len() && s[m1] == '{' && m1 + 1 > i {
                        match spec_parse_stmt_list(s, m1 + 1) {
                            Err(p) => Err(p),
                            Ok((aa, m2)) => {
                                if 0 <= m2 < s.len() && s[m2] == '}' {
                                    let m3 = skip_ws(s, m2 + 1);
                                    let k3 = ident_end(s, m3);
                                    let kw2 = if 0 <= m3 <= k3 <= s.len() {
                                        s.subrange(m3, k3)
                                    } else {
                                        Seq::empty()
                                    };
                                    if kw2 == "else"@ {
                                        let m4 = skip_ws(s, k3);
                                        if 0 <= m4 < s.len() && s[m4] == '{' && m4 + 1 > i {
                                            match spec_parse_stmt_list(s, m4 + 1) {
                                                Err(p) => Err(p),
                                                Ok((bb, m5)) => {
                                                    if 0 <= m5 < s.len() && s[m5] == '}' {
                                                        Ok(
                                                            (
                                                                StatementV::If {
                                                                    expression: cond,
                                                                    statements_a: aa,
                                                                    statements_b: bb,
                                                                },
                                                                m5 + 1,
                                                            ),
                                                        )
                                                    } else {
                                                        Err(m5)
                                                    }
                                                },
                                            }
                                        } else {
                                            Err(m4)
                                        }
                                    } else {
                                        Err(m3)
                                    }
                                } else {
                                    Err(m2)
                                }
                            },
                        }
                    } else {
                        Err(m1)
                    }
                },
            }
        } else {
            Err(k)
        }
    } else {
        Err(j)
    }
}

/// What parsing a statement list at `i` yields: statements until a closing
/// brace or the end of the text. The position returned is that of the
/// closing brace (or the end); the caller checks it.
pub open spec fn spec_parse_stmt_list(s: Seq<char>, i: int) -> Result<(Seq<StatementV>, int), int>
    decreases s.len() - i, 1int,
{
    let j = skip_ws(s, i);
    if !(0 <= j < s.len()) || s[j] == '}' {
        Ok((Seq::empty(), j))
    } else if j >= i {
        match spec_parse_statement(s, j) {
            Err(p) => Err(p),
            Ok((st, m)) => {
                if m > j && m <= s.len() {
                    match spec_parse_stmt_list(s, m) {
                        Ok((rest, m2)) => Ok((seq![st] + rest, m2)),
                        Err(p) => Err(p),
                    }
                } else {
                    Err(m)
                }
            },
        }
    } else {
        Err(j)
    }
}

/// What parsing the input list at `i` yields: `<ident>: u8` pairs separated
/// by commas, ending before the closing parenthesis (which the caller
/// checks).
pub open spec fn spec_parse_inputs(s: Seq<char>, i: int) -> Result<(Seq<InputV>, int), int>
    decreases s.len() - i,
{
    let j = skip_ws(s, i);
    if !(0 <= j < s.len()) {
        Err(j)
    } else if s[j] == ')' {
        Ok((Seq::empty(), j))
    } else if is_ident_start(s[j]) {
        let k = ident_end(s, j);
        let name = s.subrange(j, k);
        let j2 = skip_ws(s, k);
        if 0 <= j2 < s.len() && s[j2] == ':' {
            let j3 = skip_ws(s, j2 + 1);
            let k3 = ident_end(s, j3);
            if 0 <= j3 <= k3 <= s.len() && s.subrange(j3, k3) == "u8"@ {
                let input = InputV { name: name, input_type: Type::U8 };
                let j4 = skip_ws(s, k3);
                if 0 <= j4 < s.len() && s[j4] == ',' {
                    if j4 + 1 > i {
                        match spec_parse_inputs(s, j4 + 1) {
                            Ok((rest, m)) => Ok((seq![input] + rest, m)),
                            Err(p) => Err(p),
                        }
                    } else {
                        Err(j4)
                    }
                } else {
                    Ok((seq![input], j4))
                }
            } else {
                Err(j3)
            }
        } else {
            Err(j2)
        }
    } else {
        Err(j)
    }
}

/// What parsing a whole program yields: the function header, the input
/// list, and the statement block, with nothing but whitespace after the
/// closing brace.
pub open spec fn spec_parse_program(s: Seq<char>) -> Result<ProgramV, int> {
    let i0 = skip_ws(s, 0);
    let k0 = ident_end(s, i0);
    if 0 <= i0 <= k0 <= s.len() && s.subrange(i0, k0) == "function"@ {
        let i1 = skip_ws(s, k0);
        let k1 = ident_end(s, i1);
        if 0 <= i1 < s.len() && is_ident_start(s[i1]) {
            let name = s.subrange(i1, k1);
            let i2 = skip_ws(s, k1);
            if 0 <= i2 < s.len() && s[i2] == '(' {
                match spec_parse_inputs(s, i2 + 1) {
                    Err(p) => Err(p),
                    Ok((inputs, i3)) => {
                        if 0 <= i3 < s.len() && s[i3] == ')' {
                            let i4 = skip_ws(s, i3 + 1);
                            if 0 <= i4 < s.len() && s[i4] == '{' {
                                match spec_parse_stmt_list(s, i4 + 1) {
                                    Err(p) => Err(p),
                                    Ok((stmts, i5)) => {
                                        if 0 <= i5 < s.len() && s[i5] == '}' {
                                            let i6 = skip_ws(s, i5 + 1);
                                            if i6 == s.len() {
                                                Ok(
                                                    ProgramV {
                                                        name: name,
                                                        inputs: inputs,
                                                        statements: stmts,
                                                    },
                                                )
                                            } else {
                                                Err(i6)
                                            }
                                        } else {
                                            Err(i5)
                                        }
                                    },
                                }
                            } else {
                                Err(i4)
                            }
                        } else {
                            Err(i3)
                        }
                    },
                }
            } else {
                Err(i2)
            }
        } else {
            Err(i1)
        }
    } else {
        Err(i0)
    }
}

/// Whether `c` is whitespace.
fn is_space_x(c: char) -> (r: bool)
    ensures
        r == is_space(c),
{
    c == ' ' || c == '\n' || c == '\t' || c == '\r'
}

/// Whether `c` is a decimal digit.
fn is_digit_x(c: char) -> (r: bool)
    ensures
        r == is_digit(c),
{
    '0' as u32 <= c as u32 && c as u32 <= '9' as u32
}

/// Whether `c` may start an identifier.
fn is_ident_start_x(c: char) -> (r: bool)
    ensures
        r == is_ident_start(c),
{
    ('a' as u32 <= c as u32 && c as u32 <= 'z' as u32) || ('A' as u32 <= c as u32 && c as u32
        <= 'Z' as u32) || c == '_'
}

/// Whether `c` may continue an identifier.
fn is_ident_char_x(c: char) -> (r: bool)
    ensures
        r == is_ident_char(c),
{
    is_ident_start_x(c) || is_digit_x(c)
}

/// Skip whitespace from `i`.
fn skip_ws_x(s: &str, i: usize) -> (r: usize)
    requires
        i as int <= s@.len(),
    ensures
        r as int == skip_ws(s@, i as int),
        i <= r,
        r as int <= s@.len(),
{
    let n = s.unicode_len();
    let mut j = i;
    loop
        invariant
            i <= j <= n,
            n == s@.len(),
            skip_ws(s@, i as int) == skip_ws(s@, j as int),
        ensures
            i <= j <= n,
            skip_ws(s@, i as int) == j as int,
        decreases n - j,
    {
        if j >= n {
            proof {
                assert(skip_ws(s@, j as int) == j as int);
            }
            break ;
        }
        let c = s.get_char(j);
        if is_space_x(c) {
            j += 1;
        } else {
            proof {
                assert(skip_ws(s@, j as int) == j as int);
            }
            break ;
        }
    }
    j
}

/// The end of the identifier run from `i`; every character before it is an
/// identifier character.
fn ident_end_x(s: &str, i: usize) -> (r: usize)
    requires
        i as int <= s@.len(),
    ensures
        r as int == ident_end(s@, i as int),
        i <= r,
        r as int <= s@.len(),
{
    let n = s.unicode_len();
    let mut j = i;
    loop
        invariant
            i <= j <= n,
            n == s@.len(),
            ident_end(s@, i as int) == ident_end(s@, j as int),
        ensures
            i <= j <= n,
            ident_end(s@, i as int) == j as int,
        decreases n - j,
    {
        if j >= n {
            proof {
                assert(ident_end(s@, j as int) == j as int);
            }
            break ;
        }
        let c = s.get_char(j);
        if is_ident_char_x(c) {
            j += 1;
        } else {
            proof {
                assert(ident_end(s@, j as int) == j as int);
            }
            break ;
        }
    }
    j
}

/// The end of the digit run from `i`; every character in `[i, r)` is a
/// digit.
fn digits_end_x(s: &str, i: usize) -> (r: usize)
    requires
        i as int <= s@.len(),
    ensures
        r as int == digits_end(s@, i as int),
        i <= r,
        r as int <= s@.len(),
        forall|m: int| i <= m < r ==> is_digit(#[trigger] s@[m]),
{
    let n = s.unicode_len();
    let mut j = i;
    loop
        invariant
            i <= j <= n,
            n == s@.len(),
            digits_end(s@, i as int) == digits_end(s@, j as int),
            forall|m: int| i <= m < j ==> is_digit(#[trigger] s@[m]),
        ensures
            i <= j <= n,
            digits_end(s@, i as int) == j as int,
            forall|m: int| i <= m < j ==> is_digit(#[trigger] s@[m]),
        decreases n - j,
    {
        if j >= n {
            proof {
                assert(digits_end(s@, j as int) == j as int);
            }
            break ;
        }
        let c = s.get_char(j);
        if is_digit_x(c) {
            j += 1;
        } else {
            proof {
                assert(digits_end(s@, j as int) == j as int);
            }
            break ;
        }
    }
    j
}

/// The characters `s[i..j)` as an owned string.
fn read_slice(s: &str, i: usize, j: usize) -> (r: String)
    requires
        i <= j,
        j as int <= s@.len(),
    ensures
        r@ == s@.subrange(i as int, j as int),
{
    s.substring_char(i, j).to_owned()
}

/// The value of the digit run `s[i..j)`, clamped to 256 when it exceeds
/// 255.
fn digits_value_x(s: &str, i: usize, j: usize) -> (r: u32)
    requires
        i <= j,
        j as int <= s@.len(),
        forall|m: int| i <= m < j ==> is_digit(#[trigger] s@[m]),
    ensures
        digits_val(s@, i as int, j as int) <= 255 ==> r == digits_val(s@, i as int, j as int),
        digits_val(s@, i as int, j as int) > 255 ==> r == 256,
{
    let mut acc: u32 = 0;
    let mut t = i;
    proof {
        assert(digits_val(s@, i as int, i as int) == 0);
    }
    while t < j
        invariant
            i <= t <= j,
            j as int <= s@.len(),
            forall|m: int| i <= m < j ==> is_digit(#[trigger] s@[m]),
            acc <= 256,
            digits_val(s@, i as int, t as int) <= 255 ==> acc == digits_val(
                s@,
                i as int,
                t as int,
            ),
            digits_val(s@, i as int, t as int) > 255 ==> acc == 256,
            digits_val(s@, i as int, t as int) >= 0,
        decreases j - t,
    {
        let c = s.get_char(t);
        proof {
            assert(is_digit(s@[t as int]));
        }
        let d: u32 = c as u32 - '0' as u32;
        let next: u32 = if acc * 10 + d <= 256 {
            acc * 10 + d
        } else {
            256
        };
        proof {
            assert(digits_val(s@, i as int, t + 1) == digits_val(s@, i as int, t as int) * 10
                + digit_val(s@[t as int]));
        }
        acc = next;
        t += 1;
    }
    acc
}

/// The view of a value parse result.
pub open spec fn value_res_view(r: Result<(Value, usize), usize>) -> Result<(ValueV, int), int> {
    match r {
        Ok((v, j)) => Ok((v@, j as int)),
        Err(p) => Err(p as int),
    }
}

/// The view of an expression parse result.
pub open spec fn expr_res_view(r: Result<(Expression, usize), usize>) -> Result<
    (ExpressionV, int),
    int,
> {
    match r {
        Ok((e, j)) => Ok((e@, j as int)),
        Err(p) => Err(p as int),
    }
}

/// The single-character operators.
fn char_operator_x(c: char) -> (r: Option<Operator>)
    ensures
        r == char_operator(c),
{
    if c == '+' {
        Some(Operator::Add)
    } else if c == '-' {
        Some(Operator::Subtract)
    } else if c == '*' {
        Some(Operator::Multiply)
    } else if c == '/' {
        Some(Operator::Divide)
    } else if c == '>' {
        Some(Operator::GreaterThan)
    } else if c == '<' {
        Some(Operator::LessThan)
    } else {
        None
    }
}

/// Parse a value at `i`: a parenthesized expression, an integer literal
/// with its `u8` suffix, a boolean literal, or an identifier.
fn parse_value_at(s: &str, i: usize) -> (r: Result<(Value, usize), usize>)
    requires
        i as int <= s@.len(),
    ensures
        value_res_view(r) == spec_parse_value(s@, i as int),
        r matches Ok((v, j)) ==> i <= j && j as int <= s@.len(),
    decreases s@.len() - i, 0int,
{
    let n = s.unicode_len();
    let j = skip_ws_x(s, i);
    if j >= n {
        return Err(j);
    }
    let c = s.get_char(j);
    if c == '(' {
        match parse_expression_at(s, j + 1) {
            Ok((e, k)) => {
                let m = skip_ws_x(s, k);
                if m < n && s.get_char(m) == ')' {
                    Ok((Value::Expression(Box::new(e)), m + 1))
                } else {
                    Err(m)
                }
            },
            Err(p) => Err(p),
        }
    } else if is_digit_x(c) {
        let k = digits_end_x(s, j);
        let has_suffix = n >= 2 && k <= n - 2 && s.get_char(k) == 'u' && s.get_char(k + 1) == '8';
        proof {
            reveal_strlit("u8");
            if has_suffix {
                assert(s@.subrange(k as int, k as int + 2) =~= "u8"@);
            } else {
                if k + 2 <= n {
                    assert(s@.subrange(k as int, k as int + 2)[0] == s@[k as int]);
                    assert(s@.subrange(k as int, k as int + 2)[1] == s@[k as int + 1]);
                }
                assert(!has_at(s@, k as int, "u8"@));
            }
        }
        if has_suffix {
            let v = digits_value_x(s, j, k);
            if v <= 255 {
                Ok((Value::Integer(v as u8), k + 2))
            } else {
                Err(j)
            }
        } else {
            Err(k)
        }
    } else if is_ident_start_x(c) {
        let k = ident_end_x(s, j);
        let name = read_slice(s, j, k);
        if name == String::from_str("true") {
            Ok((Value::Boolean(true), k))
        } else if name == String::from_str("false") {
            Ok((Value::Boolean(false), k))
        } else {
            Ok((Value::Identifier(name), k))
        }
    } else {
        Err(j)
    }
}

/// Parse an expression at `i`: a value, optionally followed by an operator
/// and a further expression.
fn parse_expression_at(s: &str, i: usize) -> (r: Result<(Expression, usize), usize>)
    requires
        i as int <= s@.len(),
    ensures
        expr_res_view(r) == spec_parse_expression(s@, i as int),
        r matches Ok((e, j)) ==> i <= j && j as int <= s@.len(),
    decreases s@.len() - i, 1int,
{
    let n = s.unicode_len();
    match parse_value_at(s, i) {
        Err(p) => Err(p),
        Ok((v, j)) => {
            let k = skip_ws_x(s, j);
            let op = if k < n {
                char_operator_x(s.get_char(k))
            } else {
                None
            };
            match op {
                Some(operator) => {
                    match parse_expression_at(s, k + 1) {
                        Ok((rhs, m)) => Ok(
                            (
                                Expression::Binary { left: v, operator, right: Box::new(rhs) },
                                m,
                            ),
                        ),
                        Err(p) => Err(p),
                    }
                },
                None => {
                    if n >= 1 && k < n - 1 && s.get_char(k) == '=' && s.get_char(k + 1) == '=' {
                        match parse_expression_at(s, k + 2) {
                            Ok((rhs, m)) => Ok(
                                (
                                    Expression::Binary {
                                        left: v,
                                        operator: Operator::Equal,
                                        right: Box::new(rhs),
                                    },
                                    m,
                                ),
                            ),
                            Err(p) => Err(p),
                        }
                    } else {
                        Ok((Expression::Value(Box::new(v)), j))
                    }
                },
            }
        },
    }
}

/// The view of a statement parse result.
pub open spec fn stmt_res_view(r: Result<(Statement, usize), usize>) -> Result<
    (StatementV, int),
    int,
> {
    match r {
        Ok((st, j)) => Ok((st@, j as int)),
        Err(p) => Err(p as int),
    }
}

/// The view of a statement-list parse result.
pub open spec fn stmts_res_view(r: Result<(Vec<Statement>, usize), usize>) -> Result<
    (Seq<StatementV>, int),
    int,
> {
    match r {
        Ok((v, j)) => Ok((view_statements(v@), j as int)),
        Err(p) => Err(p as int),
    }
}

/// The view of an input-list parse result.
pub open spec fn inputs_res_view(r: Result<(Vec<Input>, usize), usize>) -> Result<
    (Seq<InputV>, int),
    int,
> {
    match r {
        Ok((v, j)) => Ok((crate::ast::view_inputs(v@), j as int)),
        Err(p) => Err(p as int),
    }
}

/// Parse a statement at `i`: `let <ident> = <expression>;` or
/// `if <expression> { ... } else { ... }`.
fn parse_statement_at(s: &str, i: usize) -> (r: Result<(Statement, usize), usize>)
    requires
        i as int <= s@.len(),
    ensures
        stmt_res_view(r) == spec_parse_statement(s@, i as int),
        r matches Ok((st, j)) ==> i <= j && j as int <= s@.len(),
    decreases s@.len() - i, 0int,
{
    let n = s.unicode_len();
    let j = skip_ws_x(s, i);
    let k = ident_end_x(s, j);
    let kw = read_slice(s, j, k);
    if kw == String::from_str("let") {
        let j2 = skip_ws_x(s, k);
        let k2 = ident_end_x(s, j2);
        if j2 < n && is_ident_start_x(s.get_char(j2)) {
            let var = read_slice(s, j2, k2);
            let j3 = skip_ws_x(s, k2);
            if j3 < n && s.get_char(j3) == '=' && !(j3 + 1 < n && s.get_char(j3 + 1) == '=') {
                match parse_expression_at(s, j3 + 1) {
                    Ok((e, j4)) => {
                        let j5 = skip_ws_x(s, j4);
                        if j5 < n && s.get_char(j5) == ';' {
                            Ok((Statement::Assign { variable: var, expression: e }, j5 + 1))
                        } else {
                            Err(j5)
                        }
                    },
                    Err(p) => Err(p),
                }
            } else {
                Err(j3)
            }
        } else {
            Err(j2)
        }
    } else if kw == String::from_str("if") {
        proof {
            reveal_strlit("if");
            assert("if"@.len() == 2);
            assert(kw@ == "if"@);
            assert(kw@ == s@.subrange(j as int, k as int));
            assert(s@.subrange(j as int, k as int).len() == k - j);
            assert(k - j == 2);
        }
        match parse_expression_at(s, k) {
            Err(p) => Err(p),
            Ok((cond, m)) => {
                let m1 = skip_ws_x(s, m);
                if m1 < n && s.get_char(m1) == '{' {
                    match parse_stmt_list_at(s, m1 + 1) {
                        Err(p) => Err(p),
                        Ok((aa, m2)) => {
                            if m2 < n && s.get_char(m2) == '}' {
                                let m3 = skip_ws_x(s, m2 + 1);
                                let k3 = ident_end_x(s, m3);
                                let kw2 = read_slice(s, m3, k3);
                                if kw2 == String::from_str("else") {
                                    let m4 = skip_ws_x(s, k3);
                                    if m4 < n && s.get_char(m4) == '{' {
                                        match parse_stmt_list_at(s, m4 + 1) {
                                            Err(p) => Err(p),
                                            Ok((bb, m5)) => {
                                                if m5 < n && s.get_char(m5) == '}' {
                                                    Ok(
                                                        (
                                                            Statement::If {
                                                                expression: cond,
                                                                statements_a: aa,
                                                                statements_b: bb,
                                                            },
                                                            m5 + 1,
                                                        ),
                                                    )
                                                } else {
                                                    Err(m5)
                                                }
                                            },
                                        }
                                    } else {
                                        Err(m4)
                                    }
                                } else {
                                    Err(m3)
                                }
                            } else {
                                Err(m2)
                            }
                        },
                    }
                } else {
                    Err(m1)
                }
            },
        }
    } else {
        Err(j)
    }
}

/// Parse statements at `i` until a closing brace or the end of the text.
fn parse_stmt_list_at(s: &str, i: usize) -> (r: Result<(Vec<Statement>, usize), usize>)
    requires
        i as int <= s@.len(),
    ensures
        stmts_res_view(r) == spec_parse_stmt_list(s@, i as int),
        r matches Ok((v, j)) ==> i <= j && j as int <= s@.len(),
    decreases s@.len() - i, 1int,
{
    let n = s.unicode_len();
    let j = skip_ws_x(s, i);
    if j >= n || s.get_char(j) == '}' {
        let v: Vec<Statement> = Vec::new();
        proof {
            assert(view_statements(v@) =~= Seq::<StatementV>::empty());
        }
        return Ok((v, j));
    }
    match parse_statement_at(s, j) {
        Err(p) => Err(p),
        Ok((st, m)) => {
            if m > j {
                match parse_stmt_list_at(s, m) {
                    Ok((mut rest, m2)) => {
                        let ghost st_v = st@;
                        let ghost rest_v = rest@;
                        let mut v: Vec<Statement> = Vec::new();
                        v.push(st);
                        v.append(&mut rest);
                        proof {
                            assert(v@ =~= seq![v@[0]] + rest_v);
                            crate::ast::lemma_view_statements(v@);
                            crate::ast::lemma_view_statements(rest_v);
                            assert(view_statements(v@) =~= seq![st_v] + view_statements(
                                rest_v,
                            ));
                        }
                        Ok((v, m2))
                    },
                    Err(p) => Err(p),
                }
            } else {
                Err(m)
            }
        },
    }
}

/// Parse the input list at `i`: `<ident>: u8` pairs separated by commas.
fn parse_inputs_at(s: &str, i: usize) -> (r: Result<(Vec<Input>, usize), usize>)
    requires
        i as int <= s@.len(),
    ensures
        inputs_res_view(r) == spec_parse_inputs(s@, i as int),
        r matches Ok((v, j)) ==> i <= j && j as int <= s@.len(),
    decreases s@.len() - i,
{
    let n = s.unicode_len();
    let j = skip_ws_x(s, i);
    if j >= n {
        return Err(j);
    }
    let c = s.get_char(j);
    if c == ')' {
        let v: Vec<Input> = Vec::new();
        proof {
            assert(crate::ast::view_inputs(v@) =~= Seq::<InputV>::empty());
        }
        Ok((v, j))
    } else if is_ident_start_x(c) {
        let k = ident_end_x(s, j);
        let name = read_slice(s, j, k);
        let j2 = skip_ws_x(s, k);
        if j2 < n && s.get_char(j2) == ':' {
            let j3 = skip_ws_x(s, j2 + 1);
            let k3 = ident_end_x(s, j3);
            let ty = read_slice(s, j3, k3);
            if ty == String::from_str("u8") {
                let input = Input { name, input_type: Type::U8 };
                let ghost input_v = input@;
                let j4 = skip_ws_x(s, k3);
                if j4 < n && s.get_char(j4) == ',' {
                    match parse_inputs_at(s, j4 + 1) {
                        Ok((mut rest, m)) => {
                            let ghost rest_v = rest@;
                            let mut v: Vec<Input> = Vec::new();
                            v.push(input);
                            v.append(&mut rest);
                            proof {
                                assert(v@ =~= seq![v@[0]] + rest_v);
                                crate::ast::lemma_view_inputs(v@);
                                crate::ast::lemma_view_inputs(rest_v);
                                assert(crate::ast::view_inputs(v@) =~= seq![input_v]
                                    + crate::ast::view_inputs(rest_v));
                            }
                            Ok((v, m))
                        },
                        Err(p) => Err(p),
                    }
                } else {
                    let mut v: Vec<Input> = Vec::new();
                    v.push(input);
                    proof {
                        crate::ast::lemma_view_inputs(v@);
                        assert(crate::ast::view_inputs(v@) =~= seq![input_v]);
                    }
                    Ok((v, j4))
                }
            } else {
                Err(j3)
            }
        } else {
            Err(j2)
        }
    } else {
        Err(j)
    }
}

/// Parse a whole program. On success the result is exactly what the
/// grammar's spec functions describe; on failure the error carries the
/// character position at which parsing stopped.
pub fn parse(source: &str) -> (r: Result<Program, ParseError>)
    ensures
        match r {
            Ok(p) => spec_parse_program(source@) == Ok::<ProgramV, int>(p@),
            Err(e) => spec_parse_program(source@) matches Err(pos) && pos == e.at as int,
        },
{
    let n = source.unicode_len();
    let i0 = skip_ws_x(source, 0);
    let k0 = ident_end_x(source, i0);
    let kw = read_slice(source, i0, k0);
    if !(kw == String::from_str("function")) {
        return Err(ParseError { at: i0 });
    }
    let i1 = skip_ws_x(source, k0);
    if !(i1 < n && is_ident_start_x(source.get_char(i1))) {
        return Err(ParseError { at: i1 });
    }
    let k1 = ident_end_x(source, i1);
    let name = read_slice(source, i1, k1);
    let i2 = skip_ws_x(source, k1);
    if !(i2 < n && source.get_char(i2) == '(') {
        return Err(ParseError { at: i2 });
    }
    match parse_inputs_at(source, i2 + 1) {
        Err(p) => Err(ParseError { at: p }),
        Ok((inputs, i3)) => {
            if !(i3 < n && source.get_char(i3) == ')') {
                return Err(ParseError { at: i3 });
            }
            let i4 = skip_ws_x(source, i3 + 1);
            if !(i4 < n && source.get_char(i4) == '{') {
                return Err(ParseError { at: i4 });
            }
            match parse_stmt_list_at(source, i4 + 1) {
                Err(p) => Err(ParseError { at: p }),
                Ok((statements, i5)) => {
                    if !(i5 < n && source.get_char(i5) == '}') {
                        return Err(ParseError { at: i5 });
                    }
                    let i6 = skip_ws_x(source, i5 + 1);
                    if i6 != n {
                        return Err(ParseError { at: i6 });
                    }
                    Ok(Program { name, inputs, statements })
                },
            }
        },
    }
}

} // verus!
