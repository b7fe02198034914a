//! Expressions, statements and scopes, and their C text.
use vstd::prelude::*;

use crate::atom::Atom;
use crate::identifier::Identifier;
use crate::text::{int_digits, join, nat_digits, push_char, push_i64_digits, push_str, push_u64_digits};
use crate::Compilable;

verus! {

broadcast use Seq::lemma_flatten_push;

/// A decimal number: `mantissa` divided by ten to the power `scale`.
/// `3.14` is the mantissa 314 with the scale 2.
pub struct Decimal {
    pub mantissa: i64,
    pub scale: u32,
}

/// A primitive literal value.
pub enum Literal {
    Int(i64),
    Float(Decimal),
    /// Text placed between double quotes as it is: the caller provides a
    /// valid C string body, with its own escapes.
    String(String),
    Bool(bool),
}

/// What an expression computes.
pub enum Value {
    Literal(Literal),
    Call(Call),
    Atom(Atom),
    Identifier(Identifier),
    Scope(Scope),
}

/// A typed expression: its value and its declared type.
pub struct Expr {
    pub value: Value,
    pub type_: Identifier,
}

/// A block: a sequence of statements.
pub struct Scope(pub Vec<Statement>);

/// A call of a named function on arguments, in the order given.
pub struct Call {
    pub symbol: String,
    pub args: Vec<Value>,
}

/// A statement of a block.
pub enum Statement {
    /// An expression evaluated for its effect.
    Expr(Expr),
    /// A new name bound to the value of an expression, of the expression's type.
    Bind { ident: Identifier, expr: Expr },
    /// A return of a value from the enclosing function.
    Return(Value),
}

pub open spec fn abs(i: int) -> nat {
    if i < 0 {
        (-i) as nat
    } else {
        i as nat
    }
}

/// The digits of `|m|`, with zeros in front so that at least `scale + 1` stand.
pub open spec fn padded_digits(m: int, scale: nat) -> Seq<char> {
    let d = nat_digits(abs(m));
    if d.len() <= scale {
        Seq::new((scale + 1 - d.len()) as nat, |i: int| '0') + d
    } else {
        d
    }
}

/// The C text of a decimal: its sign, its whole digits and, for a positive
/// scale, a point followed by exactly `scale` digits.
pub open spec fn decimal_text(m: int, scale: nat) -> Seq<char> {
    let sign = if m < 0 {
        seq!['-']
    } else {
        Seq::empty()
    };
    let p = padded_digits(m, scale);
    if scale == 0 {
        sign + p
    } else {
        sign + p.take(p.len() - scale) + seq!['.'] + p.skip(p.len() - scale)
    }
}

/// The C text of a literal.
pub open spec fn literal_text(l: Literal) -> Seq<char> {
    match l {
        Literal::Int(i) => int_digits(i as int),
        Literal::Float(d) => decimal_text(d.mantissa as int, d.scale as nat),
        Literal::String(s) => seq!['"'] + s@ + seq!['"'],
        Literal::Bool(b) => if b {
            "true"@
        } else {
            "false"@
        },
    }
}

/// The C text of a value.
pub open spec fn value_text(v: Value) -> Seq<char>
    decreases v,
{
    match v {
        Value::Literal(l) => literal_text(l),
        Value::Call(c) => call_text(c),
        Value::Atom(a) => a@,
        Value::Identifier(id) => id.name(),
        Value::Scope(s) => "{\n"@ + statement_lines(s.0@).flatten() + "}"@,
    }
}

/// The C text of a call: the function's name, then the arguments in their
/// given order, separated by commas, in parentheses.
pub open spec fn call_text(c: Call) -> Seq<char>
    decreases c,
{
    c.symbol@ + "("@ + join(value_texts(c.args@), ", "@) + ")"@
}

/// The C text of each value, in order.
pub open spec fn value_texts(vs: Seq<Value>) -> Seq<Seq<char>>
    decreases vs,
{
    if vs.len() == 0 {
        Seq::empty()
    } else {
        value_texts(vs.subrange(0, vs.len() - 1)).push(value_text(vs[vs.len() - 1]))
    }
}

/// The C text of a statement, without its terminator.
pub open spec fn statement_text(s: Statement) -> Seq<char>
    decreases s,
{
    match s {
        Statement::Expr(e) => value_text(e.value),
        Statement::Bind { ident, expr } => expr.type_.name() + " "@ + ident.name() + " = "@
            + value_text(expr.value),
        Statement::Return(v) => "return "@ + value_text(v),
    }
}

/// The line of each statement in a block: indented and terminated.
pub open spec fn statement_lines(ss: Seq<Statement>) -> Seq<Seq<char>>
    decreases ss,
{
    if ss.len() == 0 {
        Seq::empty()
    } else {
        statement_lines(ss.subrange(0, ss.len() - 1)).push(
            "\t"@ + statement_text(ss[ss.len() - 1]) + ";\n"@,
        )
    }
}

/// The C text of a block of statements.
pub open spec fn scope_text(ss: Seq<Statement>) -> Seq<char> {
    "{\n"@ + statement_lines(ss).flatten() + "}"@
}

/// A block of no statements renders as an empty pair of braces; a block of
/// `n` statements renders as `n` indented, terminated lines, the i-th line
/// holding the i-th statement.
pub proof fn lemma_scope_lines(ss: Seq<Statement>)
    ensures
        ss.len() == 0 ==> scope_text(ss) == "{\n}"@,
        scope_text(ss) == "{\n"@ + statement_lines(ss).flatten() + "}"@,
        statement_lines(ss).len() == ss.len(),
        forall|i: int|
            0 <= i < ss.len() ==> #[trigger] statement_lines(ss)[i] == "\t"@ + statement_text(ss[i])
                + ";\n"@,
    decreases ss.len(),
{
    if ss.len() == 0 {
        assert(scope_text(ss) =~= "{\n"@ + "}"@);
        assert("{\n"@ + "}"@ =~= "{\n}"@) by {
            reveal_strlit("{\n");
            reveal_strlit("}");
            reveal_strlit("{\n}");
        }
    } else {
        lemma_scope_lines(ss.subrange(0, ss.len() - 1));
    }
}

/// A call renders its arguments in their given order: there is one text per
/// argument, and the i-th is the text of the i-th argument.
pub proof fn lemma_argument_order(vs: Seq<Value>)
    ensures
        value_texts(vs).len() == vs.len(),
        forall|i: int| 0 <= i < vs.len() ==> #[trigger] value_texts(vs)[i] == value_text(vs[i]),
    decreases vs.len(),
{
    if vs.len() > 0 {
        lemma_argument_order(vs.subrange(0, vs.len() - 1));
    }
}

impl Literal {
    /// Appends the C text of the literal to `out`.
    pub fn write_to(&self, out: &mut String)
        ensures
            final(out)@ == old(out)@ + literal_text(*self),
    {
        match self {
            Literal::Int(i) => push_i64_digits(out, *i),
            Literal::Float(d) => write_decimal(out, d.mantissa, d.scale),
            Literal::String(s) => {
                push_char(out, '"');
                push_str(out, s.as_str());
                push_char(out, '"');
                assert(final(out)@ =~= old(out)@ + literal_text(*self));
            },
            Literal::Bool(b) => if *b {
                push_str(out, "true");
            } else {
                push_str(out, "false");
            },
        }
    }
}

fn write_decimal(out: &mut String, m: i64, scale: u32)
    ensures
        final(out)@ == old(out)@ + decimal_text(m as int, scale as nat),
{
    let mut digits = String::new();
    let a: u64 = if m < 0 {
        (-(m as i128)) as u64
    } else {
        m as u64
    };
    push_u64_digits(&mut digits, a);
    assert(digits@ =~= nat_digits(abs(m as int)));
    let n = digits.unicode_len();
    let mut padded = String::new();
    if n <= scale as usize {
        assert(n >= 1);
        let z: usize = scale as usize - n + 1;
        let mut k: usize = 0;
        while k < z
            invariant
                k <= z,
                padded@ == Seq::new(k as nat, |i: int| '0'),
            decreases z - k,
        {
            push_char(&mut padded, '0');
            k = k + 1;
            assert(padded@ =~= Seq::new(k as nat, |i: int| '0'));
        }
    }
    push_str(&mut padded, digits.as_str());
    assert(padded@ =~= padded_digits(m as int, scale as nat));
    if m < 0 {
        push_char(out, '-');
    }
    if scale == 0 {
        push_str(out, padded.as_str());
    } else {
        let len = padded.unicode_len();
        let cut: usize = len - scale as usize;
        let whole = padded.as_str().substring_char(0, cut);
        let frac = padded.as_str().substring_char(cut, len);
        push_str(out, whole);
        push_char(out, '.');
        push_str(out, frac);
        assert(padded@.subrange(0, cut as int) =~= padded@.take(cut as int));
        assert(padded@.subrange(cut as int, len as int) =~= padded@.skip(cut as int));
    }
    assert(final(out)@ =~= old(out)@ + decimal_text(m as int, scale as nat));
}

impl Value {
    /// Appends the C text of the value to `out`.
    pub fn write_to(&self, out: &mut String)
        ensures
            final(out)@ == old(out)@ + value_text(*self),
        decreases *self,
    {
        match self {
            Value::Literal(l) => l.write_to(out),
            Value::Call(c) => {
                proof {
                    assert(decreases_to!(*self => self->Call_0));
                }
                c.write_to(out)
            },
            Value::Atom(a) => a.write_to(out),
            Value::Identifier(id) => id.write_to(out),
            Value::Scope(s) => s.write_to(out),
        }
    }
}

impl Call {
    /// Appends the C text of the call to `out`.
    pub fn write_to(&self, out: &mut String)
        ensures
            final(out)@ == old(out)@ + call_text(*self),
        decreases *self,
    {
        push_str(out, self.symbol.as_str());
        push_str(out, "(");
        let ghost start = out@;
        let mut i: usize = 0;
        while i < self.args.len()
            invariant
                i <= self.args@.len(),
                out@ == start + join(value_texts(self.args@.take(i as int)), ", "@),
            decreases self.args@.len() - i,
        {
            let ghost prev = value_texts(self.args@.take(i as int));
            if i > 0 {
                push_str(out, ", ");
            }
            proof {
                assert(decreases_to!(*self => self.args));
                assert(decreases_to!(self.args => self.args@));
                assert(decreases_to!(self.args@ => self.args@[i as int]));
            }
            self.args[i].write_to(out);
            assert(self.args@.take(i + 1).subrange(0, i as int) =~= self.args@.take(i as int));
            assert(value_texts(self.args@.take(i + 1)) == prev.push(
                value_text(self.args@[i as int]),
            ));
            assert(prev.push(value_text(self.args@[i as int])).drop_last() =~= prev);
            i = i + 1;
            assert(out@ =~= start + join(value_texts(self.args@.take(i as int)), ", "@));
        }
        assert(self.args@.take(i as int) =~= self.args@);
        push_str(out, ")");
        assert(final(out)@ =~= old(out)@ + call_text(*self));
    }
}

impl Scope {
    /// Appends the C text of the block to `out`.
    pub fn write_to(&self, out: &mut String)
        ensures
            final(out)@ == old(out)@ + scope_text(self.0@),
        decreases *self,
    {
        push_str(out, "{\n");
        let ghost start = out@;
        let mut i: usize = 0;
        while i < self.0.len()
            invariant
                i <= self.0@.len(),
                out@ == start + statement_lines(self.0@.take(i as int)).flatten(),
            decreases self.0@.len() - i,
        {
            push_str(out, "\t");
            self.0[i].write_to(out);
            push_str(out, ";\n");
            assert(self.0@.take(i + 1).subrange(0, i as int) =~= self.0@.take(i as int));
            i = i + 1;
            assert(out@ =~= start + statement_lines(self.0@.take(i as int)).flatten());
        }
        assert(self.0@.take(i as int) =~= self.0@);
        push_str(out, "}");
        assert(final(out)@ =~= old(out)@ + scope_text(self.0@));
    }
}

impl Statement {
    /// Appends the C text of the statement, without its terminator, to `out`.
    pub fn write_to(&self, out: &mut String)
        ensures
            final(out)@ == old(out)@ + statement_text(*self),
        decreases *self,
    {
        match self {
            Statement::Expr(e) => e.value.write_to(out),
            Statement::Bind { ident, expr } => {
                expr.type_.write_to(out);
                push_str(out, " ");
                ident.write_to(out);
                push_str(out, " = ");
                expr.value.write_to(out);
                assert(final(out)@ =~= old(out)@ + statement_text(*self));
            },
            Statement::Return(v) => {
                push_str(out, "return ");
                v.write_to(out);
                assert(final(out)@ =~= old(out)@ + statement_text(*self));
            },
        }
    }
}

impl Compilable for Literal {
    open spec fn rendered(&self) -> Seq<char> {
        literal_text(*self)
    }

    fn compile(&self) -> (r: String) {
        let mut r = String::new();
        self.write_to(&mut r);
        assert(r@ =~= literal_text(*self));
        r
    }
}

impl Compilable for Value {
    open spec fn rendered(&self) -> Seq<char> {
        value_text(*self)
    }

    fn compile(&self) -> (r: String) {
        let mut r = String::new();
        self.write_to(&mut r);
        assert(r@ =~= value_text(*self));
        r
    }
}

impl Compilable for Call {
    open spec fn rendered(&self) -> Seq<char> {
        call_text(*self)
    }

    fn compile(&self) -> (r: String) {
        let mut r = String::new();
        self.write_to(&mut r);
        assert(r@ =~= call_text(*self));
        r
    }
}

impl Compilable for Scope {
    open spec fn rendered(&self) -> Seq<char> {
        scope_text(self.0@)
    }

    fn compile(&self) -> (r: String) {
        let mut r = String::new();
        self.write_to(&mut r);
        assert(r@ =~= scope_text(self.0@));
        r
    }
}

impl Compilable for Statement {
    open spec fn rendered(&self) -> Seq<char> {
        statement_text(*self)
    }

    fn compile(&self) -> (r: String) {
        let mut r = String::new();
        self.write_to(&mut r);
        assert(r@ =~= statement_text(*self));
        r
    }
}

/// An expression renders as its value; the declared type is read only by
/// the binding that introduces it.
impl Compilable for Expr {
    open spec fn rendered(&self) -> Seq<char> {
        value_text(self.value)
    }

    fn compile(&self) -> (r: String) {
        let mut r = String::new();
        self.value.write_to(&mut r);
        assert(r@ =~= value_text(self.value));
        r
    }
}

} // verus!
