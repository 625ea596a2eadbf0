//! The parse tree that the simplifier consumes.

use vstd::prelude::*;

verus! {

/// The shape of one statement of a configuration file.
#[derive(Debug, PartialEq, Eq)]
pub enum Statement {
    /// A sequence of top-level statements: a whole file, or a fragment
    /// that was spliced in where it was included.
    Config(Vec<Node>),
    /// A class definition with a body.
    Class { ident: String, extends: Option<String>, props: Vec<Node> },
    /// A forward declaration of a class that is defined elsewhere.
    ClassDef(String),
    /// An assignment; `expand` marks the array-append form `[] +=`.
    Property { ident: String, value: Box<Node>, expand: bool },
    /// An integer literal.
    Integer(i32),
    /// A single-precision literal, held as its IEEE 754 bit pattern.
    Float(u32),
    /// A string literal.
    Str(String),
    /// An array literal.
    Array(Vec<Node>),
}

/// One statement together with its position in the source text.
#[derive(Debug, PartialEq, Eq)]
pub struct Node {
    pub file: String,
    pub start: usize,
    pub end: usize,
    pub statement: Statement,
}

/// A parsed file.
#[derive(Debug, PartialEq, Eq)]
pub struct AST {
    pub config: Node,
    /// Whether macro expansion has already run over the tree.
    pub processed: bool,
}

/// The name of the shape of a statement.
pub open spec fn shape_name(statement: Statement) -> Seq<char> {
    match statement {
        Statement::Config(_) => "Config"@,
        Statement::Class { .. } => "Class"@,
        Statement::ClassDef(_) => "ClassDef"@,
        Statement::Property { .. } => "Property"@,
        Statement::Integer(_) => "Integer"@,
        Statement::Float(_) => "Float"@,
        Statement::Str(_) => "Str"@,
        Statement::Array(_) => "Array"@,
    }
}

impl Statement {
    /// The name of the shape of this statement, for error messages.
    pub fn shape(&self) -> (name: String)
        ensures
            name@ == shape_name(*self),
    {
        match self {
            Statement::Config(_) => "Config".to_owned(),
            Statement::Class { .. } => "Class".to_owned(),
            Statement::ClassDef(_) => "ClassDef".to_owned(),
            Statement::Property { .. } => "Property".to_owned(),
            Statement::Integer(_) => "Integer".to_owned(),
            Statement::Float(_) => "Float".to_owned(),
            Statement::Str(_) => "Str".to_owned(),
            Statement::Array(_) => "Array".to_owned(),
        }
    }
}

} // verus!
