//! Structured diagnostics and the sink that collects them.
use vstd::prelude::*;
use crate::ast::{DirectAccessType, SourceRange};
use crate::const_eval::EvalError;
use crate::index::VariableType;
use crate::typesystem::TypeNature;

verus! {

/// What rule a diagnostic reports on.
#[derive(Clone, Copy, Debug, PartialEq, Eq, Structural)]
pub enum DiagnosticKind {
    UnresolvedReference,
    IllegalAccess,
    ReferenceExpected,
    CannotAssignToConstant,
    InvalidAssignment,
    IncompatibleTypeSize,
    ImplicitDowncast,
    InvalidOperation,
    InvalidArgumentType,
    InvalidParameterType,
    MissingInoutParameter,
    LiteralExpected,
    LiteralOutOfRange,
    IncompatibleLiteralCast,
    IncompatibleDirectAccess,
    IncompatibleDirectAccessRange,
    IncompatibleDirectAccessVariable,
    IncompatibleArrayAccessVariable,
    IncompatibleArrayAccessType,
    IncompatibleArrayAccessRange,
    MissingCompareFunction,
    InvalidCaseCondition,
    NonConstantCaseCondition,
    DuplicateCaseCondition,
    CaseConditionOutsideCaseStatement,
    UnresolvedGenericType,
    InvalidTypeNature,
    SyntaxError,
}

/// One argument of a diagnostic's message.
#[derive(Debug, PartialEq)]
pub enum DiagnosticArg {
    Text(String),
    Number(i128),
    Nature(TypeNature),
    Access(DirectAccessType),
    Variable(VariableType),
    Evaluation(EvalError),
    /// The expression, by its identity, where no literal text stands for it.
    Expression(usize),
}

/// The mathematical value of a [`DiagnosticArg`].
pub enum ArgView {
    Text(Seq<char>),
    Number(i128),
    Nature(TypeNature),
    Access(DirectAccessType),
    Variable(VariableType),
    Evaluation(EvalError),
    Expression(usize),
}

impl View for DiagnosticArg {
    type V = ArgView;

    open spec fn view(&self) -> ArgView {
        match *self {
            DiagnosticArg::Text(s) => ArgView::Text(s@),
            DiagnosticArg::Number(n) => ArgView::Number(n),
            DiagnosticArg::Nature(n) => ArgView::Nature(n),
            DiagnosticArg::Access(a) => ArgView::Access(a),
            DiagnosticArg::Variable(v) => ArgView::Variable(v),
            DiagnosticArg::Evaluation(e) => ArgView::Evaluation(e),
            DiagnosticArg::Expression(id) => ArgView::Expression(id),
        }
    }
}

pub open spec fn arg_views(args: Seq<DiagnosticArg>) -> Seq<ArgView> {
    args.map_values(|a: DiagnosticArg| a@)
}

/// A rule violation: its kind, the source range it points at, and its message arguments.
#[derive(Debug, PartialEq)]
pub struct Diagnostic {
    pub kind: DiagnosticKind,
    pub location: SourceRange,
    pub args: Vec<DiagnosticArg>,
}

/// The mathematical value of a [`Diagnostic`].
pub struct DiagnosticView {
    pub kind: DiagnosticKind,
    pub location: SourceRange,
    pub args: Seq<ArgView>,
}

impl View for Diagnostic {
    type V = DiagnosticView;

    open spec fn view(&self) -> DiagnosticView {
        DiagnosticView { kind: self.kind, location: self.location, args: arg_views(self.args@) }
    }
}

pub open spec fn diag(kind: DiagnosticKind, location: SourceRange, args: Seq<ArgView>) -> DiagnosticView {
    DiagnosticView { kind, location, args }
}

impl Diagnostic {
    pub fn new(kind: DiagnosticKind, location: SourceRange, args: Vec<DiagnosticArg>) -> (r: Diagnostic)
        ensures
            r@ == diag(kind, location, arg_views(args@)),
    {
        Diagnostic { kind, location, args }
    }
}

pub fn no_args() -> (r: Vec<DiagnosticArg>)
    ensures
        arg_views(r@) == Seq::<ArgView>::empty(),
{
    let r: Vec<DiagnosticArg> = Vec::new();
    assert(arg_views(r@) =~= Seq::<ArgView>::empty());
    r
}

pub fn one_arg(a: DiagnosticArg) -> (r: Vec<DiagnosticArg>)
    ensures
        arg_views(r@) == seq![a@],
{
    let ghost va = a@;
    let mut r: Vec<DiagnosticArg> = Vec::new();
    r.push(a);
    assert(arg_views(r@) =~= seq![va]);
    r
}

pub fn two_args(a: DiagnosticArg, b: DiagnosticArg) -> (r: Vec<DiagnosticArg>)
    ensures
        arg_views(r@) == seq![a@, b@],
{
    let ghost (va, vb) = (a@, b@);
    let mut r: Vec<DiagnosticArg> = Vec::new();
    r.push(a);
    r.push(b);
    assert(arg_views(r@) =~= seq![va, vb]);
    r
}

pub fn three_args(a: DiagnosticArg, b: DiagnosticArg, c: DiagnosticArg) -> (r: Vec<DiagnosticArg>)
    ensures
        arg_views(r@) == seq![a@, b@, c@],
{
    let ghost (va, vb, vc) = (a@, b@, c@);
    let mut r: Vec<DiagnosticArg> = Vec::new();
    r.push(a);
    r.push(b);
    r.push(c);
    assert(arg_views(r@) =~= seq![va, vb, vc]);
    r
}

pub fn four_args(a: DiagnosticArg, b: DiagnosticArg, c: DiagnosticArg, d: DiagnosticArg) -> (r: Vec<DiagnosticArg>)
    ensures
        arg_views(r@) == seq![a@, b@, c@, d@],
{
    let ghost (va, vb, vc, vd) = (a@, b@, c@, d@);
    let mut r: Vec<DiagnosticArg> = Vec::new();
    r.push(a);
    r.push(b);
    r.push(c);
    r.push(d);
    assert(arg_views(r@) =~= seq![va, vb, vc, vd]);
    r
}

/// The append-only collector of diagnostics.
#[derive(Debug, PartialEq)]
pub struct Validator {
    pub diagnostics: Vec<Diagnostic>,
}

impl View for Validator {
    type V = Seq<DiagnosticView>;

    open spec fn view(&self) -> Seq<DiagnosticView> {
        self.diagnostics@.map_values(|d: Diagnostic| d@)
    }
}

impl Validator {
    pub fn new() -> (r: Validator)
        ensures
            r@ == Seq::<DiagnosticView>::empty(),
    {
        let r = Validator { diagnostics: Vec::new() };
        assert(r@ =~= Seq::<DiagnosticView>::empty());
        r
    }

    pub fn push_diagnostic(&mut self, d: Diagnostic)
        ensures
            final(self)@ == old(self)@.push(d@),
    {
        let ghost dv = d@;
        self.diagnostics.push(d);
        assert(self@ =~= old(self)@.push(dv));
    }

    pub fn len(&self) -> (r: usize)
        ensures
            r == self@.len(),
    {
        self.diagnostics.len()
    }
}

} // verus!
