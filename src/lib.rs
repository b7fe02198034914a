//! Intermediate representation of a program and its lowering to C source text.
use vstd::prelude::*;

pub mod atom;
pub mod expr;
pub mod grammar;
pub mod identifier;
pub mod text;
pub mod unit;

verus! {

/// A node of the intermediate representation that lowers to C source text.
pub trait Compilable {
    /// The C text of the node.
    spec fn rendered(&self) -> Seq<char>;

    /// Renders the node as C source text.
    fn compile(&self) -> (r: String)
        ensures
            r@ == self.rendered(),
    ;
}

} // verus!
