//! The parts of a struct declaration that generation reads, as plain values.
use vstd::prelude::*;

verus! {

/// A path such as `std::option::Option`, by the identifiers of its segments.
#[derive(Clone, Debug, PartialEq, Eq)]
pub struct PathSyntax {
    pub segments: Vec<String>,
}

/// A literal: a string literal by its value, any other kind by nothing.
#[derive(Clone, Debug, PartialEq, Eq)]
pub enum LitSyntax {
    Str(String),
    Other,
}

/// One item inside the parentheses of an attribute such as `builder(...)`.
#[derive(Clone, Debug, PartialEq, Eq)]
pub enum NestedSyntax {
    /// A bare path: `skip`.
    Path(PathSyntax),
    /// A path with a parenthesised list: `inner(..)`.
    List(PathSyntax),
    /// A path with a literal: `each = "arg"`.
    NameValue(PathSyntax, LitSyntax),
    /// A lone literal.
    Lit(LitSyntax),
}

/// What follows an attribute's path.
#[derive(Clone, Debug, PartialEq, Eq)]
pub enum MetaSyntax {
    /// Nothing: `#[builder]`.
    Path,
    /// A parenthesised list: `#[builder(each = "arg")]`.
    List(Vec<NestedSyntax>),
    /// A literal: `#[builder = "x"]`.
    NameValue(LitSyntax),
    /// Tokens that form none of the above.
    Unparsable,
}

/// An attribute on a field.
#[derive(Clone, Debug, PartialEq, Eq)]
pub struct AttrSyntax {
    pub path: PathSyntax,
    pub meta: MetaSyntax,
}

/// The first generic argument of a path type's first segment.
#[derive(Clone, Debug, PartialEq, Eq)]
pub enum GenericArgSyntax {
    /// A type, by its source text.
    Type(String),
    /// A lifetime, constant, binding or constraint.
    Other,
}

/// A field's declared type.
#[derive(Clone, Debug, PartialEq, Eq)]
pub enum TypeSyntax {
    /// A path type such as `Option<String>`: its path, the first generic
    /// argument of its first segment when that segment has angle-bracketed
    /// arguments, and the source text of the whole type.
    Path { path: PathSyntax, first_arg: Option<GenericArgSyntax>, text: String },
    /// Any other type (a reference, tuple, array, ...) by its source text.
    Other { text: String },
}

/// A named field: its name, declared type and attributes.
#[derive(Clone, Debug, PartialEq, Eq)]
pub struct FieldSyntax {
    pub name: String,
    pub ty: TypeSyntax,
    pub attrs: Vec<AttrSyntax>,
}

/// The body of the declaration.
#[derive(Clone, Debug, PartialEq, Eq)]
pub enum BodySyntax {
    /// A struct with named fields, in declaration order.
    Named(Vec<FieldSyntax>),
    /// A tuple or unit struct.
    Unnamed,
    /// An enum or a union.
    NotStruct,
}

/// A type declaration: its name and body.
#[derive(Clone, Debug, PartialEq, Eq)]
pub struct DeclSyntax {
    pub name: String,
    pub body: BodySyntax,
}

impl TypeSyntax {
    /// The source text of the whole type.
    pub open spec fn spec_text(&self) -> Seq<char> {
        match self {
            TypeSyntax::Path { text, .. } => text@,
            TypeSyntax::Other { text } => text@,
        }
    }

    /// The source text of the whole type.
    pub fn text(&self) -> (r: &String)
        ensures
            r@ == self.spec_text(),
    {
        match self {
            TypeSyntax::Path { text, .. } => text,
            TypeSyntax::Other { text } => text,
        }
    }
}

} // verus!
