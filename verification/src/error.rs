//! The failures of a generation run.

use vstd::prelude::*;
use vstd::string::*;
use crate::text::{joined, push_joined, views};

verus! {

/// Why a host type has no schema type.
#[derive(Clone, Copy, Debug, PartialEq, Eq, Structural)]
pub enum TypeError {
    /// The type has a shape that the mapper does not know.
    UnsupportedType,
    /// An `Option` or `Vec` is written without its element type.
    MissingTypeParameter,
}

/// A failure of a generation run. Every failure ends the run; none leaves a
/// partial schema behind.
#[derive(Clone, Debug, PartialEq, Eq)]
pub enum SchemaError {
    /// A field, payload, parameter or result has a type of a shape that the
    /// mapper does not know.
    UnsupportedType { declaration: String, member: String },
    /// An `Option` or `Vec` is written without its element type.
    MissingTypeParameter { declaration: String, member: String },
    /// A variant of a sum type has more than one payload field.
    MultiFieldVariant { declaration: String, member: String },
    /// The records refer to each other in a cycle. The names are those of
    /// the records on the cycle, each referring to the next and the last
    /// to the first.
    CyclicDependency { names: Vec<String> },
    /// Reading a source or writing an output failed.
    IOFailure { detail: String },
    /// The schema compiler failed, or left no bindings.
    CompilerHandoffFailure { detail: String },
}

/// The view of a [`SchemaError`].
pub ghost enum SchemaErrorView {
    UnsupportedType { declaration: Seq<char>, member: Seq<char> },
    MissingTypeParameter { declaration: Seq<char>, member: Seq<char> },
    MultiFieldVariant { declaration: Seq<char>, member: Seq<char> },
    CyclicDependency { names: Seq<Seq<char>> },
    IOFailure { detail: Seq<char> },
    CompilerHandoffFailure { detail: Seq<char> },
}

impl View for SchemaError {
    type V = SchemaErrorView;

    open spec fn view(&self) -> SchemaErrorView {
        match self {
            SchemaError::UnsupportedType { declaration, member } => SchemaErrorView::UnsupportedType {
                declaration: declaration@,
                member: member@,
            },
            SchemaError::MissingTypeParameter {
                declaration,
                member,
            } => SchemaErrorView::MissingTypeParameter {
                declaration: declaration@,
                member: member@,
            },
            SchemaError::MultiFieldVariant {
                declaration,
                member,
            } => SchemaErrorView::MultiFieldVariant { declaration: declaration@, member: member@ },
            SchemaError::CyclicDependency { names } => SchemaErrorView::CyclicDependency {
                names: views(names@),
            },
            SchemaError::IOFailure { detail } => SchemaErrorView::IOFailure { detail: detail@ },
            SchemaError::CompilerHandoffFailure {
                detail,
            } => SchemaErrorView::CompilerHandoffFailure { detail: detail@ },
        }
    }
}

/// The failure of a declaration's member whose type could not be mapped.
pub open spec fn member_error(
    error: TypeError,
    declaration: Seq<char>,
    member: Seq<char>,
) -> SchemaErrorView {
    match error {
        TypeError::UnsupportedType => SchemaErrorView::UnsupportedType { declaration, member },
        TypeError::MissingTypeParameter => SchemaErrorView::MissingTypeParameter {
            declaration,
            member,
        },
    }
}

/// The failure in words.
pub open spec fn message_of(error: SchemaErrorView) -> Seq<char> {
    match error {
        SchemaErrorView::UnsupportedType { declaration, member } => "unsupported type in "@
            + declaration + "."@ + member,
        SchemaErrorView::MissingTypeParameter {
            declaration,
            member,
        } => "generic type without a type parameter in "@ + declaration + "."@ + member,
        SchemaErrorView::MultiFieldVariant {
            declaration,
            member,
        } => "more than one payload field in variant "@ + declaration + "."@ + member,
        SchemaErrorView::CyclicDependency { names } => "circular dependency among records: "@
            + joined(names, " -> "@),
        SchemaErrorView::IOFailure { detail } => "input or output failed: "@ + detail,
        SchemaErrorView::CompilerHandoffFailure { detail } => "schema compiler failed: "@ + detail,
    }
}

impl SchemaError {
    /// The failure in words: what went wrong, and the names that tell
    /// where.
    pub fn message(&self) -> (r: String)
        ensures
            r@ == message_of(self@),
    {
        let mut out = String::new();
        match self {
            SchemaError::UnsupportedType { declaration, member } => {
                out.append("unsupported type in ");
                out.append(declaration.as_str());
                out.append(".");
                out.append(member.as_str());
            },
            SchemaError::MissingTypeParameter { declaration, member } => {
                out.append("generic type without a type parameter in ");
                out.append(declaration.as_str());
                out.append(".");
                out.append(member.as_str());
            },
            SchemaError::MultiFieldVariant { declaration, member } => {
                out.append("more than one payload field in variant ");
                out.append(declaration.as_str());
                out.append(".");
                out.append(member.as_str());
            },
            SchemaError::CyclicDependency { names } => {
                out.append("circular dependency among records: ");
                push_joined(&mut out, names, " -> ");
            },
            SchemaError::IOFailure { detail } => {
                out.append("input or output failed: ");
                out.append(detail.as_str());
            },
            SchemaError::CompilerHandoffFailure { detail } => {
                out.append("schema compiler failed: ");
                out.append(detail.as_str());
            },
        }
        assert(out@ =~= message_of(self@));
        out
    }


    /// The failure of the member `member` of the declaration `declaration`
    /// whose type could not be mapped. The names are given as the host
    /// language writes them.
    pub fn for_member(error: TypeError, declaration: &String, member: &String) -> (r: SchemaError)
        ensures
            r@ == member_error(error, declaration@, member@),
    {
        match error {
            TypeError::UnsupportedType => SchemaError::UnsupportedType {
                declaration: declaration.clone(),
                member: member.clone(),
            },
            TypeError::MissingTypeParameter => SchemaError::MissingTypeParameter {
                declaration: declaration.clone(),
                member: member.clone(),
            },
        }
    }
}

} // verus!
