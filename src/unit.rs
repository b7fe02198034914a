//! Static bindings, function headers and the compilation unit that
//! assembles them into one C translation unit.
use vstd::prelude::*;

use crate::atom::{atoms_text, Atoms};
use crate::expr::{literal_text, scope_text, Literal, Scope};
use crate::identifier::{Identifier, Symbol};
use crate::text::{join, push_str};
use crate::Compilable;

verus! {

broadcast use Seq::lemma_flatten_push, Seq::lemma_filter_push;

/// The declarations that every unit starts with: the C types behind the
/// type names that the IR uses, and the boolean constants.
pub const PREAMBLE: &'static str = "/* core */\ntypedef long long Int;\ntypedef double Float;\ntypedef const char *String;\ntypedef int Bool;\ntypedef void Void;\n#ifndef true\n#define true 1\n#define false 0\n#endif\n";

/// The signature of a function: its name, its parameters and its return type.
pub struct FunctionHeader {
    pub ident: Identifier,
    pub args: Vec<Symbol>,
    pub output: Identifier,
}

/// A top-level member of a unit: a named constant or a function.
pub enum StaticBind {
    Value { ident: Identifier, value: Literal },
    Function { header: FunctionHeader, body: Scope },
}

/// A whole C translation unit.
pub struct CIR {
    /// The header files, one directive each, in this order.
    pub includes: Vec<String>,
    /// The atoms, numbered by their position.
    pub atoms: Atoms,
    /// The constants and functions, in this order.
    pub statics: Vec<StaticBind>,
    /// The entry point.
    pub main: StaticBind,
}

/// The declaration text of each parameter, in order.
pub open spec fn symbol_texts(args: Seq<Symbol>) -> Seq<Seq<char>> {
    args.map_values(|s: Symbol| s.text())
}

/// The C text of a header: return type, name and parenthesised parameters.
pub open spec fn header_text(h: FunctionHeader) -> Seq<char> {
    h.output.name() + " "@ + h.ident.name() + "("@ + join(symbol_texts(h.args@), ", "@) + ")"@
}

/// The C type of a literal's kind.
pub open spec fn literal_type_name(l: Literal) -> Seq<char> {
    match l {
        Literal::Int(_) => "Int"@,
        Literal::Float(_) => "Float"@,
        Literal::String(_) => "String"@,
        Literal::Bool(_) => "Bool"@,
    }
}

/// The C text of a static binding: a constant declaration, or a header
/// followed at once by the body block.
pub open spec fn static_text(b: StaticBind) -> Seq<char> {
    match b {
        StaticBind::Value { ident, value } => "const "@ + literal_type_name(value) + " "@
            + ident.name() + " = "@ + literal_text(value) + ";"@,
        StaticBind::Function { header, body } => header_text(header) + scope_text(body.0@),
    }
}

pub open spec fn is_function_bind(b: StaticBind) -> bool {
    b is Function
}

/// The forward declaration of a function binding.
pub open spec fn signature_line(b: StaticBind) -> Seq<char> {
    match b {
        StaticBind::Function { header, .. } => header_text(header) + ";\n"@,
        StaticBind::Value { .. } => Seq::empty(),
    }
}

/// The forward declarations of the function bindings, in table order.
pub open spec fn signature_lines(statics: Seq<StaticBind>) -> Seq<Seq<char>> {
    statics.filter(|b: StaticBind| is_function_bind(b)).map_values(
        |b: StaticBind| signature_line(b),
    )
}

/// The full definition of every binding, in table order.
pub open spec fn definition_lines(statics: Seq<StaticBind>) -> Seq<Seq<char>> {
    statics.map_values(|b: StaticBind| static_text(b) + "\n"@)
}

/// The directive of one header file.
pub open spec fn include_line(path: Seq<char>) -> Seq<char> {
    "#include \""@ + path + "\"\n"@
}

pub open spec fn include_lines(paths: Seq<String>) -> Seq<Seq<char>> {
    paths.map_values(|p: String| include_line(p@))
}

/// Everything of a unit's text that comes before the forward declarations.
pub open spec fn unit_head(u: CIR) -> Seq<char> {
    PREAMBLE@ + "\n// Section includes\n"@ + include_lines(u.includes@).flatten()
        + "\n// Section atoms\n"@ + atoms_text(u.atoms@) + "\n// Section statics\n"@
        + "// Signatures\n"@
}

/// The C text of a unit: preamble, includes, atoms, forward declarations,
/// definitions and the entry point, each section under its banner.
pub open spec fn unit_text(u: CIR) -> Seq<char> {
    unit_head(u) + signature_lines(u.statics@).flatten() + "\n// Definitions\n"@
        + definition_lines(u.statics@).flatten() + "\n// Section main\n"@ + static_text(u.main)
}

/// The text of a unit holds the forward declaration of every function
/// binding, in table order, before the section of definitions, which holds
/// every binding in table order.
pub proof fn lemma_declarations_before_definitions(u: CIR)
    ensures
        exists|head: Seq<char>, middle: Seq<char>, tail: Seq<char>|
            unit_text(u) == head + #[trigger] signature_lines(u.statics@).flatten() + middle
                + definition_lines(u.statics@).flatten() + tail,
        signature_lines(u.statics@) == u.statics@.filter(|b: StaticBind| is_function_bind(b)).map_values(
            |b: StaticBind| signature_line(b),
        ),
        forall|i: int|
            0 <= i < u.statics@.len() && is_function_bind(#[trigger] u.statics@[i])
                ==> signature_lines(u.statics@).contains(signature_line(u.statics@[i])),
        definition_lines(u.statics@).len() == u.statics@.len(),
        forall|i: int|
            0 <= i < u.statics@.len() ==> #[trigger] definition_lines(u.statics@)[i] == static_text(
                u.statics@[i],
            ) + "\n"@,
{
    let head = unit_head(u);
    let middle = "\n// Definitions\n"@;
    let tail = "\n// Section main\n"@ + static_text(u.main);
    assert(unit_text(u) =~= head + signature_lines(u.statics@).flatten() + middle
        + definition_lines(u.statics@).flatten() + tail);
    let is_fn = |b: StaticBind| is_function_bind(b);
    let fs = u.statics@.filter(is_fn);
    assert forall|i: int|
        0 <= i < u.statics@.len() && is_function_bind(#[trigger] u.statics@[i]) implies signature_lines(
        u.statics@,
    ).contains(signature_line(u.statics@[i])) by {
        u.statics@.lemma_filter_contains(is_fn, i);
        let j = choose|j: int| 0 <= j < fs.len() && fs[j] == u.statics@[i];
        assert(signature_lines(u.statics@)[j] == signature_line(u.statics@[i]));
    }
}

impl FunctionHeader {
    /// Appends the C text of the header to `out`.
    pub fn write_to(&self, out: &mut String)
        ensures
            final(out)@ == old(out)@ + header_text(*self),
    {
        self.output.write_to(out);
        push_str(out, " ");
        self.ident.write_to(out);
        push_str(out, "(");
        let ghost start = out@;
        let mut i: usize = 0;
        while i < self.args.len()
            invariant
                i <= self.args@.len(),
                out@ == start + join(symbol_texts(self.args@.take(i as int)), ", "@),
            decreases self.args@.len() - i,
        {
            let ghost prev = symbol_texts(self.args@.take(i as int));
            if i > 0 {
                push_str(out, ", ");
            }
            self.args[i].write_to(out);
            assert(symbol_texts(self.args@.take(i + 1)) =~= prev.push(self.args@[i as int].text()));
            assert(prev.push(self.args@[i as int].text()).drop_last() =~= prev);
            i = i + 1;
            assert(out@ =~= start + join(symbol_texts(self.args@.take(i as int)), ", "@));
        }
        assert(self.args@.take(i as int) =~= self.args@);
        push_str(out, ")");
        assert(final(out)@ =~= old(out)@ + header_text(*self));
    }
}

impl Compilable for FunctionHeader {
    open spec fn rendered(&self) -> Seq<char> {
        header_text(*self)
    }

    fn compile(&self) -> (r: String) {
        let mut r = String::new();
        self.write_to(&mut r);
        assert(r@ =~= header_text(*self));
        r
    }
}

fn write_type_name(l: &Literal, out: &mut String)
    ensures
        final(out)@ == old(out)@ + literal_type_name(*l),
{
    match l {
        Literal::Int(_) => push_str(out, "Int"),
        Literal::Float(_) => push_str(out, "Float"),
        Literal::String(_) => push_str(out, "String"),
        Literal::Bool(_) => push_str(out, "Bool"),
    }
}

impl StaticBind {
    pub fn is_value(&self) -> (r: bool)
        ensures
            r == (*self is Value),
    {
        match self {
            StaticBind::Value { .. } => true,
            _ => false,
        }
    }

    pub fn is_function(&self) -> (r: bool)
        ensures
            r == (*self is Function),
    {
        match self {
            StaticBind::Function { .. } => true,
            _ => false,
        }
    }

    /// The literal of a constant binding.
    pub fn as_value(&self) -> (r: &Literal)
        requires
            *self is Value,
        ensures
            *r == self->Value_value,
    {
        match self {
            StaticBind::Value { value, .. } => value,
            StaticBind::Function { .. } => unreached(),
        }
    }

    /// The header and the body of a function binding.
    pub fn as_function(&self) -> (r: (&FunctionHeader, &Scope))
        requires
            *self is Function,
        ensures
            *r.0 == self->Function_header,
            *r.1 == self->Function_body,
    {
        match self {
            StaticBind::Function { header, body } => (header, body),
            StaticBind::Value { .. } => unreached(),
        }
    }

    /// Appends the C text of the binding to `out`.
    pub fn write_to(&self, out: &mut String)
        ensures
            final(out)@ == old(out)@ + static_text(*self),
    {
        match self {
            StaticBind::Value { ident, value } => {
                push_str(out, "const ");
                write_type_name(value, out);
                push_str(out, " ");
                ident.write_to(out);
                push_str(out, " = ");
                value.write_to(out);
                push_str(out, ";");
            },
            StaticBind::Function { header, body } => {
                header.write_to(out);
                body.write_to(out);
            },
        }
        assert(final(out)@ =~= old(out)@ + static_text(*self));
    }
}

impl Compilable for StaticBind {
    open spec fn rendered(&self) -> Seq<char> {
        static_text(*self)
    }

    fn compile(&self) -> (r: String) {
        let mut r = String::new();
        self.write_to(&mut r);
        assert(r@ =~= static_text(*self));
        r
    }
}

impl Compilable for CIR {
    open spec fn rendered(&self) -> Seq<char> {
        unit_text(*self)
    }

    fn compile(&self) -> (r: String) {
        let mut code = String::new();
        push_str(&mut code, PREAMBLE);
        push_str(&mut code, "\n// Section includes\n");
        let ghost s0 = code@;
        let mut i: usize = 0;
        while i < self.includes.len()
            invariant
                i <= self.includes@.len(),
                code@ == s0 + include_lines(self.includes@.take(i as int)).flatten(),
            decreases self.includes@.len() - i,
        {
            push_str(&mut code, "#include \"");
            push_str(&mut code, self.includes[i].as_str());
            push_str(&mut code, "\"\n");
            assert(include_lines(self.includes@.take(i + 1)) =~= include_lines(
                self.includes@.take(i as int),
            ).push(include_line(self.includes@[i as int]@)));
            i = i + 1;
            assert(code@ =~= s0 + include_lines(self.includes@.take(i as int)).flatten());
        }
        assert(self.includes@.take(i as int) =~= self.includes@);
        push_str(&mut code, "\n// Section atoms\n");
        self.atoms.write_to(&mut code);
        push_str(&mut code, "\n// Section statics\n");
        push_str(&mut code, "// Signatures\n");
        assert(code@ =~= unit_head(*self));
        let ghost s1 = code@;
        proof {
            reveal(Seq::filter);
            assert(self.statics@.take(0) =~= Seq::<StaticBind>::empty());
            assert(signature_lines(self.statics@.take(0)) =~= Seq::<Seq<char>>::empty());
        }
        let mut i: usize = 0;
        while i < self.statics.len()
            invariant
                i <= self.statics@.len(),
                code@ == s1 + signature_lines(self.statics@.take(i as int)).flatten(),
            decreases self.statics@.len() - i,
        {
            let ghost prev = self.statics@.take(i as int);
            let b = &self.statics[i];
            assert(self.statics@.take(i + 1) =~= prev.push(*b));
            if b.is_function() {
                let (header, _) = b.as_function();
                header.write_to(&mut code);
                push_str(&mut code, ";\n");
                assert(prev.push(*b).filter(|b: StaticBind| is_function_bind(b)) == prev.filter(
                    |b: StaticBind| is_function_bind(b),
                ).push(*b));
                assert(signature_lines(prev.push(*b)) =~= signature_lines(prev).push(
                    signature_line(*b),
                ));
            } else {
                assert(prev.push(*b).filter(|b: StaticBind| is_function_bind(b)) == prev.filter(
                    |b: StaticBind| is_function_bind(b),
                ));
            }
            i = i + 1;
            assert(code@ =~= s1 + signature_lines(self.statics@.take(i as int)).flatten());
        }
        assert(self.statics@.take(i as int) =~= self.statics@);
        push_str(&mut code, "\n// Definitions\n");
        let ghost s2 = code@;
        let mut i: usize = 0;
        while i < self.statics.len()
            invariant
                i <= self.statics@.len(),
                code@ == s2 + definition_lines(self.statics@.take(i as int)).flatten(),
            decreases self.statics@.len() - i,
        {
            self.statics[i].write_to(&mut code);
            push_str(&mut code, "\n");
            assert(definition_lines(self.statics@.take(i + 1)) =~= definition_lines(
                self.statics@.take(i as int),
            ).push(static_text(self.statics@[i as int]) + "\n"@));
            i = i + 1;
            assert(code@ =~= s2 + definition_lines(self.statics@.take(i as int)).flatten());
        }
        assert(self.statics@.take(i as int) =~= self.statics@);
        push_str(&mut code, "\n// Section main\n");
        self.main.write_to(&mut code);
        assert(code@ =~= unit_text(*self));
        code
    }
}

} // verus!
