//! The pretty-printer: a deterministic, pure rendering of a program as
//! source text. Integer literals carry their `u8` suffix, parenthesized
//! sub-expressions keep their parentheses, nested blocks gain one
//! indentation level per nesting depth, and a conditional always shows both
//! branches.

use vstd::prelude::*;

use crate::ast::{
    view_statements, Expression, ExpressionV, Input, InputV, Operator, Program, ProgramV,
    Statement, StatementV, Type, Value, ValueV,
};

verus! {

/// `depth` levels of indentation: four spaces per level.
pub open spec fn spec_indent(depth: nat) -> Seq<char>
    decreases depth,
{
    if depth == 0 {
        Seq::empty()
    } else {
        "    "@ + spec_indent((depth - 1) as nat)
    }
}

/// The character for one decimal digit.
pub open spec fn spec_digit_char(d: u8) -> char {
    if d == 0 {
        '0'
    } else if d == 1 {
        '1'
    } else if d == 2 {
        '2'
    } else if d == 3 {
        '3'
    } else if d == 4 {
        '4'
    } else if d == 5 {
        '5'
    } else if d == 6 {
        '6'
    } else if d == 7 {
        '7'
    } else if d == 8 {
        '8'
    } else {
        '9'
    }
}

/// The shortest decimal rendering of an 8-bit integer.
pub open spec fn spec_render_u8(n: u8) -> Seq<char> {
    if n < 10 {
        seq![spec_digit_char(n)]
    } else if n < 100 {
        seq![spec_digit_char(n / 10), spec_digit_char(n % 10)]
    } else {
        seq![spec_digit_char(n / 100), spec_digit_char((n / 10) % 10), spec_digit_char(n % 10)]
    }
}

/// The source symbol of an operator.
pub open spec fn spec_render_operator(op: Operator) -> Seq<char> {
    match op {
        Operator::Add => "+"@,
        Operator::Subtract => "-"@,
        Operator::Multiply => "*"@,
        Operator::Divide => "/"@,
        Operator::GreaterThan => ">"@,
        Operator::LessThan => "<"@,
        Operator::Equal => "=="@,
    }
}

/// The source rendering of a type.
pub open spec fn spec_render_type(t: Type) -> Seq<char> {
    match t {
        Type::U8 => "u8"@,
    }
}

/// The source rendering of a value: `<n>u8`, the identifier itself,
/// `true`/`false`, or the inner expression in parentheses.
pub open spec fn spec_render_value(v: ValueV) -> Seq<char>
    decreases v,
{
    match v {
        ValueV::Integer(x) => spec_render_u8(x) + "u8"@,
        ValueV::Identifier(name) => name,
        ValueV::Boolean(b) => if b {
            "true"@
        } else {
            "false"@
        },
        ValueV::Expression(e) => "("@ + spec_render_expression(*e) + ")"@,
    }
}

/// The source rendering of an expression: `<value> <op> <expression>` for a
/// binary node, the value alone for a leaf.
pub open spec fn spec_render_expression(e: ExpressionV) -> Seq<char>
    decreases e,
{
    match e {
        ExpressionV::Binary { left, operator, right } => spec_render_value(left) + " "@
            + spec_render_operator(operator) + " "@ + spec_render_expression(*right),
        ExpressionV::Value(v) => spec_render_value(*v),
    }
}

/// The source rendering of one statement at a given indentation depth,
/// without its own leading indentation or trailing newline.
pub open spec fn spec_render_statement(s: StatementV, depth: nat) -> Seq<char>
    decreases s,
{
    match s {
        StatementV::Assign { variable, expression } => "let "@ + variable + " = "@
            + spec_render_expression(expression) + ";"@,
        StatementV::If { expression, statements_a, statements_b } => "if "@
            + spec_render_expression(expression) + " {\n"@ + spec_render_statements(
            statements_a,
            depth + 1,
        ) + spec_indent(depth) + "} else {\n"@ + spec_render_statements(statements_b, depth + 1)
            + spec_indent(depth) + "}"@,
    }
}

/// The source rendering of a statement sequence: each statement on its own
/// line, indented to its depth.
pub open spec fn spec_render_statements(ss: Seq<StatementV>, depth: nat) -> Seq<char>
    decreases ss,
{
    if ss.len() == 0 {
        Seq::empty()
    } else {
        spec_indent(depth) + spec_render_statement(ss[0], depth) + "\n"@ + spec_render_statements(
            ss.subrange(1, ss.len() as int),
            depth,
        )
    }
}

/// The source rendering of one input, `name: u8`.
pub open spec fn spec_render_input(input: InputV) -> Seq<char> {
    input.name + ": "@ + spec_render_type(input.input_type)
}

/// The source rendering of an input list, comma-separated.
pub open spec fn spec_render_inputs(inputs: Seq<InputV>) -> Seq<char>
    decreases inputs,
{
    if inputs.len() == 0 {
        Seq::empty()
    } else if inputs.len() == 1 {
        spec_render_input(inputs[0])
    } else {
        spec_render_input(inputs[0]) + ", "@ + spec_render_inputs(
            inputs.subrange(1, inputs.len() as int),
        )
    }
}

/// The source rendering of a whole program.
pub open spec fn spec_render_program(p: ProgramV) -> Seq<char> {
    "function "@ + p.name + "("@ + spec_render_inputs(p.inputs) + ") {\n"@
        + spec_render_statements(p.statements, 1) + "}"@
}

/// Extending the indentation by one level appends four spaces.
proof fn lemma_indent_succ(depth: nat)
    ensures
        spec_indent(depth) + "    "@ =~= spec_indent(depth + 1),
    decreases depth,
{
    if depth > 0 {
        lemma_indent_succ((depth - 1) as nat);
        assert(spec_indent(depth) + "    "@ =~= "    "@ + (spec_indent((depth - 1) as nat)
            + "    "@));
    }
}

/// The string for one decimal digit.
fn digit_str(d: u8) -> (s: &'static str)
    requires
        d < 10,
    ensures
        s@ == seq![spec_digit_char(d)],
{
    proof {
        reveal_strlit("0");
        reveal_strlit("1");
        reveal_strlit("2");
        reveal_strlit("3");
        reveal_strlit("4");
        reveal_strlit("5");
        reveal_strlit("6");
        reveal_strlit("7");
        reveal_strlit("8");
        reveal_strlit("9");
    }
    match d {
        0 => "0",
        1 => "1",
        2 => "2",
        3 => "3",
        4 => "4",
        5 => "5",
        6 => "6",
        7 => "7",
        8 => "8",
        _ => "9",
    }
}

/// Render an 8-bit integer in decimal.
pub fn render_u8(n: u8) -> (s: String)
    ensures
        s@ == spec_render_u8(n),
{
    let mut s = String::new();
    if n >= 100 {
        s.append(digit_str(n / 100));
    }
    if n >= 10 {
        s.append(digit_str((n / 10) % 10));
    }
    s.append(digit_str(n % 10));
    proof {
        assert(s@ =~= spec_render_u8(n));
    }
    s
}

/// Render an operator as its source symbol.
pub fn render_operator(op: &Operator) -> (s: &'static str)
    ensures
        s@ == spec_render_operator(*op),
{
    match op {
        Operator::Add => "+",
        Operator::Subtract => "-",
        Operator::Multiply => "*",
        Operator::Divide => "/",
        Operator::GreaterThan => ">",
        Operator::LessThan => "<",
        Operator::Equal => "==",
    }
}

/// Render a value as source text.
pub fn render_value(v: &Value) -> (s: String)
    ensures
        s@ == spec_render_value(v@),
    decreases *v,
{
    match v {
        Value::Integer(x) => {
            let mut s = render_u8(*x);
            s.append("u8");
            s
        },
        Value::Identifier(name) => {
            let mut s = String::new();
            s.append(name.as_str());
            s
        },
        Value::Boolean(b) => {
            let mut s = String::new();
            if *b {
                s.append("true");
            } else {
                s.append("false");
            }
            proof {
                assert(s@ =~= spec_render_value(v@));
            }
            s
        },
        Value::Expression(e) => {
            let mut s = String::new();
            s.append("(");
            let inner = render_expression(e);
            s.append(inner.as_str());
            s.append(")");
            proof {
                assert(s@ =~= spec_render_value(v@));
            }
            s
        },
    }
}

/// Render an expression as source text.
pub fn render_expression(e: &Expression) -> (s: String)
    ensures
        s@ == spec_render_expression(e@),
    decreases *e,
{
    match e {
        Expression::Binary { left, operator, right } => {
            let mut s = render_value(left);
            s.append(" ");
            s.append(render_operator(operator));
            s.append(" ");
            let rhs = render_expression(right);
            s.append(rhs.as_str());
            proof {
                assert(s@ =~= spec_render_expression(e@));
            }
            s
        },
        Expression::Value(v) => render_value(v),
    }
}

/// Render one statement at the indentation depth that `indent` spells out.
pub fn render_statement(s: &Statement, indent: &String, Ghost(depth): Ghost<nat>) -> (r: String)
    requires
        indent@ == spec_indent(depth),
    ensures
        r@ == spec_render_statement(s@, depth),
    decreases *s,
{
    match s {
        Statement::Assign { variable, expression } => {
            let mut r = String::new();
            r.append("let ");
            r.append(variable.as_str());
            r.append(" = ");
            let e = render_expression(expression);
            r.append(e.as_str());
            r.append(";");
            proof {
                assert(r@ =~= spec_render_statement(s@, depth));
            }
            r
        },
        Statement::If { expression, statements_a, statements_b } => {
            let mut child_indent = indent.clone();
            child_indent.append("    ");
            proof {
                lemma_indent_succ(depth);
            }
            let mut r = String::new();
            r.append("if ");
            let cond = render_expression(expression);
            r.append(cond.as_str());
            r.append(" {\n");
            let block_a = render_statements(statements_a, &child_indent, Ghost(depth + 1));
            r.append(block_a.as_str());
            r.append(indent.as_str());
            r.append("} else {\n");
            let block_b = render_statements(statements_b, &child_indent, Ghost(depth + 1));
            r.append(block_b.as_str());
            r.append(indent.as_str());
            r.append("}");
            proof {
                assert(r@ =~= spec_render_statement(s@, depth));
            }
            r
        },
    }
}

/// Render a statement list at the indentation depth that `indent` spells
/// out: each statement on its own line.
pub fn render_statements(ss: &Vec<Statement>, indent: &String, Ghost(depth): Ghost<nat>) -> (r:
    String)
    requires
        indent@ == spec_indent(depth),
    ensures
        r@ == spec_render_statements(view_statements(ss@), depth),
    decreases *ss,
{
    let mut r = String::new();
    let n = ss.len();
    proof {
        crate::ast::lemma_view_statements(ss@);
    }
    for i in 0..n
        invariant
            n == ss@.len(),
            indent@ == spec_indent(depth),
            view_statements(ss@).len() == n,
            forall|j: int| 0 <= j < n ==> #[trigger] view_statements(ss@)[j] == ss@[j]@,
            r@ == spec_render_statements(view_statements(ss@).subrange(0, i as int), depth),
        decreases n - i,
    {
        let ghost prefix = view_statements(ss@).subrange(0, i as int);
        let line = render_statement(&ss[i], indent, Ghost(depth));
        r.append(indent.as_str());
        r.append(line.as_str());
        r.append("\n");
        proof {
            lemma_render_statements_snoc(prefix, ss@[i as int]@, depth);
            assert(prefix.push(ss@[i as int]@) =~= view_statements(ss@).subrange(0, i + 1));
            assert(r@ =~= spec_render_statements(
                view_statements(ss@).subrange(0, i + 1),
                depth,
            ));
        }
    }
    proof {
        assert(view_statements(ss@).subrange(0, n as int) =~= view_statements(ss@));
    }
    r
}

/// Appending one statement to a list appends its rendered line.
proof fn lemma_render_statements_snoc(ss: Seq<StatementV>, x: StatementV, depth: nat)
    ensures
        spec_render_statements(ss.push(x), depth) =~= spec_render_statements(ss, depth)
            + spec_indent(depth) + spec_render_statement(x, depth) + "\n"@,
    decreases ss,
{
    if ss.len() == 0 {
        assert(ss.push(x)[0] == x);
        assert(ss.push(x).subrange(1, 1) =~= Seq::<StatementV>::empty());
        assert(spec_render_statements(Seq::<StatementV>::empty(), depth)
            == Seq::<char>::empty());
        assert(spec_render_statements(ss.push(x), depth) =~= spec_render_statements(ss, depth)
            + spec_indent(depth) + spec_render_statement(x, depth) + "\n"@);
    } else {
        let tail = ss.subrange(1, ss.len() as int);
        assert(ss.push(x)[0] == ss[0]);
        assert(ss.push(x).subrange(1, ss.len() as int + 1) =~= tail.push(x));
        lemma_render_statements_snoc(tail, x, depth);
        assert(spec_render_statements(ss.push(x), depth) == spec_indent(depth)
            + spec_render_statement(ss[0], depth) + "\n"@ + spec_render_statements(
            tail.push(x),
            depth,
        ));
        assert(spec_render_statements(ss, depth) == spec_indent(depth)
            + spec_render_statement(ss[0], depth) + "\n"@ + spec_render_statements(
            tail,
            depth,
        ));
        assert(spec_render_statements(ss.push(x), depth) =~= spec_render_statements(ss, depth)
            + spec_indent(depth) + spec_render_statement(x, depth) + "\n"@);
    }
}

/// Render one input, `name: u8`.
pub fn render_input(input: &Input) -> (r: String)
    ensures
        r@ == spec_render_input(input@),
{
    let mut r = String::new();
    r.append(input.name.as_str());
    r.append(": ");
    match input.input_type {
        Type::U8 => r.append("u8"),
    }
    proof {
        assert(r@ =~= spec_render_input(input@));
    }
    r
}

/// Render the comma-separated input list, starting at index `i`.
fn render_inputs_from(inputs: &Vec<Input>, i: usize) -> (r: String)
    requires
        i <= inputs@.len(),
    ensures
        r@ == spec_render_inputs(
            crate::ast::view_inputs(inputs@).subrange(i as int, inputs@.len() as int),
        ),
    decreases inputs@.len() - i,
{
    let n = inputs.len();
    proof {
        crate::ast::lemma_view_inputs(inputs@);
    }
    let ghost suffix = crate::ast::view_inputs(inputs@).subrange(i as int, n as int);
    if i == n {
        let r = String::new();
        proof {
            assert(suffix =~= Seq::<InputV>::empty());
        }
        r
    } else {
        let mut r = render_input(&inputs[i]);
        proof {
            assert(suffix[0] == inputs@[i as int]@);
        }
        if i + 1 < n {
            r.append(", ");
            let rest = render_inputs_from(inputs, i + 1);
            r.append(rest.as_str());
            proof {
                assert(crate::ast::view_inputs(inputs@).subrange(i + 1, n as int) =~= suffix
                    .subrange(1, suffix.len() as int));
                assert(r@ =~= spec_render_inputs(suffix));
            }
        } else {
            proof {
                assert(suffix.len() == 1);
                assert(r@ =~= spec_render_inputs(suffix));
            }
        }
        r
    }
}

/// Render a whole program as source text. Identical views render to
/// identical text, so rendering is deterministic.
pub fn render(p: &Program) -> (r: String)
    ensures
        r@ == spec_render_program(p@),
{
    let mut r = String::new();
    r.append("function ");
    r.append(p.name.as_str());
    r.append("(");
    let inputs = render_inputs_from(&p.inputs, 0);
    r.append(inputs.as_str());
    r.append(") {\n");
    let mut indent = String::new();
    indent.append("    ");
    proof {
        assert(spec_indent(0) =~= Seq::<char>::empty());
        assert(indent@ =~= spec_indent(1));
        crate::ast::lemma_view_inputs(p.inputs@);
        assert(crate::ast::view_inputs(p.inputs@).subrange(0, p.inputs@.len() as int)
            =~= crate::ast::view_inputs(p.inputs@));
    }
    let body = render_statements(&p.statements, &indent, Ghost(1));
    r.append(body.as_str());
    r.append("}");
    proof {
        assert(r@ =~= spec_render_program(p@));
    }
    r
}

} // verus!
