//! Names: identifiers in the value or type namespace, and typed parameters.
use vstd::prelude::*;

use crate::text::push_str;
use crate::Compilable;

verus! {

/// A name, tagged with the namespace it lives in.
pub enum Identifier {
    /// A name of a value: a variable, a constant or a function.
    Value(String),
    /// A name of a type.
    Type(String),
}

impl Identifier {
    /// The text of the name, whatever its namespace.
    pub open spec fn name(&self) -> Seq<char> {
        match self {
            Identifier::Value(n) => n@,
            Identifier::Type(n) => n@,
        }
    }

    /// Appends the name to `out`.
    pub fn write_to(&self, out: &mut String)
        ensures
            final(out)@ == old(out)@ + self.name(),
    {
        match self {
            Identifier::Value(n) => push_str(out, n.as_str()),
            Identifier::Type(n) => push_str(out, n.as_str()),
        }
    }
}

impl Compilable for Identifier {
    open spec fn rendered(&self) -> Seq<char> {
        self.name()
    }

    fn compile(&self) -> (r: String) {
        let mut r = String::new();
        self.write_to(&mut r);
        r
    }
}

/// A typed parameter of a function: its name and its type.
pub struct Symbol {
    pub name: Identifier,
    pub type_: Identifier,
}

impl Symbol {
    /// The declaration text: the type, one space, the name.
    pub open spec fn text(&self) -> Seq<char> {
        self.type_.name() + " "@ + self.name.name()
    }

    /// Appends the declaration text to `out`.
    pub fn write_to(&self, out: &mut String)
        ensures
            final(out)@ == old(out)@ + self.text(),
    {
        self.type_.write_to(out);
        push_str(out, " ");
        self.name.write_to(out);
        assert(final(out)@ =~= old(out)@ + self.text());
    }
}

impl Compilable for Symbol {
    open spec fn rendered(&self) -> Seq<char> {
        self.text()
    }

    fn compile(&self) -> (r: String) {
        let mut r = String::new();
        self.write_to(&mut r);
        r
    }
}

} // verus!
