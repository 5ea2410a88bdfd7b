//! What an evaluation leaves behind: the final term, the machine's error,
//! the builtin calls that it traced.

use crate::ledger::views;
use vstd::prelude::*;

verus! {

/// A constant of the evaluated language.
#[derive(Debug, PartialEq, Eq)]
pub enum Constant {
    Unit,
    Bool(bool),
    Integer(i128),
    ByteString(Vec<u8>),
    String(String),
}

/// The mathematical value of a [`Constant`].
pub enum ConstantView {
    Unit,
    Bool(bool),
    Integer(int),
    ByteString(Seq<u8>),
    String(Seq<char>),
}

impl View for Constant {
    type V = ConstantView;

    open spec fn view(&self) -> ConstantView {
        match *self {
            Constant::Unit => ConstantView::Unit,
            Constant::Bool(b) => ConstantView::Bool(b),
            Constant::Integer(i) => ConstantView::Integer(i as int),
            Constant::ByteString(b) => ConstantView::ByteString(b@),
            Constant::String(s) => ConstantView::String(s@),
        }
    }
}

impl Clone for Constant {
    fn clone(&self) -> (r: Self)
        ensures
            r@ == self@,
    {
        match self {
            Constant::Unit => Constant::Unit,
            Constant::Bool(b) => Constant::Bool(*b),
            Constant::Integer(i) => Constant::Integer(*i),
            Constant::ByteString(b) => Constant::ByteString(b.clone()),
            Constant::String(s) => Constant::String(s.clone()),
        }
    }
}

/// The term with which an evaluation ends. A term that is neither a constant
/// nor the error term is kept by its text.
#[derive(Debug, PartialEq, Eq)]
pub enum Term {
    Constant(Constant),
    Error,
    Other(String),
}

/// The mathematical value of a [`Term`].
pub enum TermView {
    Constant(ConstantView),
    Error,
    Other(Seq<char>),
}

impl View for Term {
    type V = TermView;

    open spec fn view(&self) -> TermView {
        match *self {
            Term::Constant(c) => TermView::Constant(c@),
            Term::Error => TermView::Error,
            Term::Other(s) => TermView::Other(s@),
        }
    }
}

impl Clone for Term {
    fn clone(&self) -> (r: Self)
        ensures
            r@ == self@,
    {
        match self {
            Term::Constant(c) => Term::Constant(c.clone()),
            Term::Error => Term::Error,
            Term::Other(s) => Term::Other(s.clone()),
        }
    }
}

/// The error with which the machine gave up, by its message.
#[derive(Debug, PartialEq, Eq)]
pub struct MachineError {
    pub message: String,
}

impl View for MachineError {
    type V = Seq<char>;

    open spec fn view(&self) -> Seq<char> {
        self.message@
    }
}

impl Clone for MachineError {
    fn clone(&self) -> (r: Self)
        ensures
            r@ == self@,
    {
        MachineError { message: self.message.clone() }
    }
}

/// One call of a builtin function that the machine traced.
#[derive(Debug, PartialEq, Eq)]
pub struct BuiltinCall {
    pub function: String,
    pub arguments: Vec<Constant>,
}

/// The mathematical value of a [`BuiltinCall`].
pub struct BuiltinCallView {
    pub function: Seq<char>,
    pub arguments: Seq<ConstantView>,
}

impl View for BuiltinCall {
    type V = BuiltinCallView;

    open spec fn view(&self) -> BuiltinCallView {
        BuiltinCallView { function: self.function@, arguments: views(self.arguments@) }
    }
}

/// The value of an evaluation's end: of the term, or of the error.
pub open spec fn end_view(result: Result<Term, MachineError>) -> Result<TermView, Seq<char>> {
    match result {
        Ok(term) => Ok(term@),
        Err(e) => Err(e@),
    }
}

} // verus!
