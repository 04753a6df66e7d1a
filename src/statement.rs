//! The statement validator: a walk over the annotated tree that reports every rule
//! violation it finds as a diagnostic, in a fixed order, without changing the tree.
//!
//! Each rule is stated as a spec function giving the exact sequence of diagnostics it
//! produces; `spec_visit` puts them together along the walk, and `visit_statement`
//! appends exactly `spec_visit` to the sink.
use vstd::prelude::*;
use vstd::string::*;
use crate::annotations::StatementAnnotation;
use crate::ast::{AstKind, AstStatement, ConditionalBlock, DirectAccessType, Operator, SourceRange, TimeKind};
use crate::const_eval::{evaluate, spec_evaluate, ConstValue};
use crate::context::{hint_of, type_of, type_or_void, ValidationContext};
use crate::diagnostics::{arg_views, diag, no_args, one_arg, two_args, three_args, four_args, ArgView, DiagnosticArg, DiagnosticKind, DiagnosticView, Validator, Diagnostic};
use crate::index::{deref_all, parameters_of, ArgumentType, Index, PouIndexEntry, PouKind, VariableIndexEntry, VariableType};
use crate::text::{is_prefix, same_text, starts_with};
use crate::typesystem::{DataType, DataTypeInformation, TypeNature, POINTER_SIZE};

verus! {

pub open spec fn one(kind: DiagnosticKind, location: SourceRange, args: Seq<ArgView>) -> Seq<DiagnosticView> {
    seq![diag(kind, location, args)]
}

fn emit(validator: &mut Validator, kind: DiagnosticKind, location: SourceRange, args: Vec<DiagnosticArg>)
    ensures
        final(validator)@ == old(validator)@ + one(kind, location, arg_views(args@)),
{
    let d = Diagnostic::new(kind, location, args);
    validator.push_diagnostic(d);
    assert(validator@ =~= old(validator)@ + one(kind, location, arg_views(args@)));
}

fn text(s: &String) -> (r: DiagnosticArg)
    ensures
        r@ == ArgView::Text(s@),
{
    DiagnosticArg::Text(s.clone())
}

// ---------------------------------------------------------------------------------------
// Typed literals `T#value`
// ---------------------------------------------------------------------------------------

/// The builtin type a literal has on its own; an integer takes the smallest integer type
/// of the requested signedness that holds it.
pub open spec fn spec_literal_type_name(lit: AstStatement, signed: bool) -> Option<Seq<char>> {
    match lit.kind {
        AstKind::LiteralInteger { value } => Some(
            if signed {
                if -128 <= value <= 127 {
                    "SINT"@
                } else if -32768 <= value <= 32767 {
                    "INT"@
                } else if -2147483648 <= value <= 2147483647 {
                    "DINT"@
                } else {
                    "LINT"@
                }
            } else {
                if 0 <= value <= 255 {
                    "USINT"@
                } else if 0 <= value <= 65535 {
                    "UINT"@
                } else if 0 <= value <= 4294967295 {
                    "UDINT"@
                } else if 0 <= value <= 18446744073709551615 {
                    "ULINT"@
                } else {
                    "LINT"@
                }
            },
        ),
        AstKind::LiteralBool { .. } => Some("BOOL"@),
        AstKind::LiteralString { is_wide, .. } => Some(if is_wide { "WSTRING"@ } else { "STRING"@ }),
        AstKind::LiteralReal { .. } => Some("LREAL"@),
        AstKind::LiteralTime { kind, .. } => Some(
            match kind {
                TimeKind::Date => "DATE"@,
                TimeKind::DateAndTime => "DATE_AND_TIME"@,
                TimeKind::TimeOfDay => "TIME_OF_DAY"@,
                TimeKind::Time => "TIME"@,
            },
        ),
        _ => None,
    }
}

fn literal_type_name(lit: &AstStatement, signed: bool) -> (r: Option<&'static str>)
    ensures
        match r {
            Some(n) => spec_literal_type_name(*lit, signed) == Some(n@),
            None => spec_literal_type_name(*lit, signed) is None,
        },
{
    match &lit.kind {
        AstKind::LiteralInteger { value } => {
            let v = *value;
            Some(
                if signed {
                    if -128 <= v && v <= 127 {
                        "SINT"
                    } else if -32768 <= v && v <= 32767 {
                        "INT"
                    } else if -2147483648 <= v && v <= 2147483647 {
                        "DINT"
                    } else {
                        "LINT"
                    }
                } else {
                    if 0 <= v && v <= 255 {
                        "USINT"
                    } else if 0 <= v && v <= 65535 {
                        "UINT"
                    } else if 0 <= v && v <= 4294967295 {
                        "UDINT"
                    } else if 0 <= v && v <= 18446744073709551615 {
                        "ULINT"
                    } else {
                        "LINT"
                    }
                },
            )
        },
        AstKind::LiteralBool { .. } => Some("BOOL"),
        AstKind::LiteralString { is_wide, .. } => Some(if *is_wide { "WSTRING" } else { "STRING" }),
        AstKind::LiteralReal { .. } => Some("LREAL"),
        AstKind::LiteralTime { kind, .. } => Some(
            match kind {
                TimeKind::Date => "DATE",
                TimeKind::DateAndTime => "DATE_AND_TIME",
                TimeKind::TimeOfDay => "TIME_OF_DAY",
                TimeKind::Time => "TIME",
            },
        ),
        _ => None,
    }
}

/// How a literal (or the expression standing for it) appears in a message.
pub open spec fn spec_literal_value(lit: AstStatement) -> ArgView {
    match lit.kind {
        AstKind::LiteralInteger { value } => ArgView::Number(value),
        AstKind::LiteralReal { value } => ArgView::Text(value@),
        AstKind::LiteralString { value, .. } => ArgView::Text(value@),
        AstKind::Reference { name } => ArgView::Text(name@),
        _ => ArgView::Expression(lit.id),
    }
}

fn literal_value(lit: &AstStatement) -> (r: DiagnosticArg)
    ensures
        r@ == spec_literal_value(*lit),
{
    match &lit.kind {
        AstKind::LiteralInteger { value } => DiagnosticArg::Number(*value),
        AstKind::LiteralReal { value } => text(value),
        AstKind::LiteralString { value, .. } => text(value),
        AstKind::Reference { name } => text(name),
        _ => DiagnosticArg::Expression(lit.id),
    }
}

/// The type a prefixed literal has before the prefix applies.
pub open spec fn spec_cast_literal_type(ctx: &ValidationContext, lit: AstStatement, cast_type: DataType) -> DataType {
    match spec_literal_type_name(lit, !cast_type.information.spec_is_unsigned_int()) {
        Some(n) => ctx.index.spec_type_or_void_by_name(n),
        None => match hint_of(ctx, lit) {
            Some(t) => t,
            None => type_or_void(ctx, lit),
        },
    }
}

/// The diagnostics of a typed literal `data_type#lit`.
pub open spec fn spec_cast_literal(
    ctx: &ValidationContext,
    lit: AstStatement,
    data_type: Seq<char>,
    location: SourceRange,
) -> Seq<DiagnosticView> {
    let cast_type = ctx.index.spec_effective_type_or_void_by_name(data_type);
    let literal_type = spec_cast_literal_type(ctx, lit, cast_type);
    if !lit.spec_is_cast_prefix_eligible() {
        one(DiagnosticKind::LiteralExpected, location, seq![])
    } else if cast_type.spec_is_date_or_time_type() || literal_type.spec_is_date_or_time_type() {
        one(DiagnosticKind::IncompatibleLiteralCast, location,
            seq![ArgView::Text(cast_type.name@), ArgView::Text(literal_type.name@)])
    } else if cast_type.information.spec_is_int() && literal_type.information.spec_is_int() {
        if ctx.index.spec_semantic_size(cast_type) < ctx.index.spec_semantic_size(literal_type) {
            one(DiagnosticKind::LiteralOutOfRange, location,
                seq![spec_literal_value(lit), ArgView::Text(cast_type.name@)])
        } else {
            seq![]
        }
    } else if cast_type.information.spec_is_character() && literal_type.information.spec_is_string() {
        match lit.kind {
            AstKind::LiteralString { value, .. } => if value@.len() > 1 {
                one(DiagnosticKind::LiteralOutOfRange, location,
                    seq![ArgView::Text(value@), ArgView::Text(cast_type.name@)])
            } else {
                seq![]
            },
            _ => seq![],
        }
    } else if cast_type.information.spec_variant() != literal_type.information.spec_variant() {
        if !(cast_type.information.spec_is_float() && literal_type.information.spec_is_int()) {
            one(DiagnosticKind::IncompatibleLiteralCast, location,
                seq![ArgView::Text(cast_type.name@), spec_literal_value(lit)])
        } else {
            seq![]
        }
    } else {
        seq![]
    }
}

/// Checks a literal with a type prefix (`INT#3`, `REAL#100`, `CHAR#'a'`).
fn validate_cast_literal(
    validator: &mut Validator,
    literal: &AstStatement,
    data_type: &String,
    location: SourceRange,
    context: &ValidationContext,
)
    ensures
        final(validator)@ == old(validator)@ + spec_cast_literal(context, *literal, data_type@, location),
{
    let index = context.index;
    let cast_type = index.get_effective_type_or_void_by_name(data_type.as_str());
    let literal_type = match literal_type_name(literal, !cast_type.information.is_unsigned_int()) {
        Some(n) => index.get_type_or_void_by_name(n),
        None => match context.annotations.get_type_hint(literal, index) {
            Some(t) => t,
            None => context.annotations.get_type_or_void(literal, index),
        },
    };
    if !literal.is_cast_prefix_eligible() {
        emit(validator, DiagnosticKind::LiteralExpected, location, no_args());
    } else if cast_type.is_date_or_time_type() || literal_type.is_date_or_time_type() {
        emit(validator, DiagnosticKind::IncompatibleLiteralCast, location,
            two_args(text(&cast_type.name), text(&literal_type.name)));
    } else if cast_type.information.is_int() && literal_type.information.is_int() {
        if index.get_semantic_size(cast_type) < index.get_semantic_size(literal_type) {
            emit(validator, DiagnosticKind::LiteralOutOfRange, location,
                two_args(literal_value(literal), text(&cast_type.name)));
        } else {
            assert(validator@ =~= old(validator)@ + seq![]);
        }
    } else if cast_type.information.is_character() && literal_type.information.is_string() {
        match &literal.kind {
            AstKind::LiteralString { value, .. } => if value.as_str().unicode_len() > 1 {
                emit(validator, DiagnosticKind::LiteralOutOfRange, location,
                    two_args(text(value), text(&cast_type.name)));
            } else {
                assert(validator@ =~= old(validator)@ + seq![]);
            },
            _ => {
                assert(validator@ =~= old(validator)@ + seq![]);
            },
        }
    } else if cast_type.information.variant() != literal_type.information.variant() {
        if !(cast_type.information.is_float() && literal_type.information.is_int()) {
            emit(validator, DiagnosticKind::IncompatibleLiteralCast, location,
                two_args(text(&cast_type.name), literal_value(literal)));
        } else {
            assert(validator@ =~= old(validator)@ + seq![]);
        }
    } else {
        assert(validator@ =~= old(validator)@ + seq![]);
    }
}

// ---------------------------------------------------------------------------------------
// Direct access on qualified references `a.%Xn`
// ---------------------------------------------------------------------------------------

/// The index of a direct access: a literal must address a slice inside the target, any
/// other index must be of an integer type.
pub open spec fn spec_access_index(
    ctx: &ValidationContext,
    access_index: AstStatement,
    access: DirectAccessType,
    target_type: DataType,
    location: SourceRange,
) -> Seq<DiagnosticView> {
    let count = ctx.index.spec_size_in_bits(target_type) / access.spec_bit_width();
    match access_index.kind {
        AstKind::LiteralInteger { value } => if !(0 <= value < count) {
            one(DiagnosticKind::IncompatibleDirectAccessRange, location,
                seq![ArgView::Access(access), ArgView::Text(target_type.name@), ArgView::Number(0),
                ArgView::Number((count - 1) as i128)])
        } else {
            seq![]
        },
        _ => {
            let ref_type = type_or_void(ctx, access_index);
            if !ref_type.information.spec_is_int() {
                one(DiagnosticKind::IncompatibleDirectAccessVariable, location, seq![ArgView::Text(ref_type.name@)])
            } else {
                seq![]
            }
        },
    }
}

fn validate_access_index(
    validator: &mut Validator,
    context: &ValidationContext,
    access_index: &AstStatement,
    access: DirectAccessType,
    target_type: &DataType,
    location: SourceRange,
)
    requires
        access.spec_bit_width() <= context.index.spec_size_in_bits(*target_type),
    ensures
        final(validator)@ == old(validator)@ + spec_access_index(context, *access_index, access, *target_type, location),
{
    let count = context.index.get_size_in_bits(target_type) / access.get_bit_width();
    match &access_index.kind {
        AstKind::LiteralInteger { value } => if !(0 <= *value && *value < count as i128) {
            emit(validator, DiagnosticKind::IncompatibleDirectAccessRange, location,
                four_args(DiagnosticArg::Access(access), text(&target_type.name), DiagnosticArg::Number(0),
                DiagnosticArg::Number((count - 1) as i128)));
        } else {
            assert(validator@ =~= old(validator)@ + seq![]);
        },
        _ => {
            let ref_type = context.annotations.get_type_or_void(access_index, context.index);
            if !ref_type.information.is_int() {
                emit(validator, DiagnosticKind::IncompatibleDirectAccessVariable, location,
                    one_arg(text(&ref_type.name)));
            } else {
                assert(validator@ =~= old(validator)@ + seq![]);
            }
        },
    }
}

/// A trailing direct access `.%Xn` needs an integer target wide enough for the access.
pub open spec fn spec_qualified_reference(ctx: &ValidationContext, elements: Seq<AstStatement>) -> Seq<DiagnosticView> {
    if elements.len() >= 2 {
        let last = elements[elements.len() - 1];
        let reference = elements[elements.len() - 2];
        match last.kind {
            AstKind::DirectAccess { access, index } => {
                let target_type = type_or_void(ctx, reference);
                let width = access.spec_bit_width();
                if target_type.information.spec_is_int() && width <= ctx.index.spec_size_in_bits(target_type) {
                    spec_access_index(ctx, *index, access, target_type, last.location)
                } else {
                    one(DiagnosticKind::IncompatibleDirectAccess, last.location,
                        seq![ArgView::Access(access), ArgView::Number(width as i128)])
                }
            },
            _ => seq![],
        }
    } else {
        seq![]
    }
}

fn validate_qualified_reference(validator: &mut Validator, elements: &Vec<AstStatement>, context: &ValidationContext)
    ensures
        final(validator)@ == old(validator)@ + spec_qualified_reference(context, elements@),
{
    let n = elements.len();
    if n >= 2 {
        let last = &elements[n - 1];
        let reference = &elements[n - 2];
        match &last.kind {
            AstKind::DirectAccess { access, index } => {
                let target_type = context.annotations.get_type_or_void(reference, context.index);
                let width = access.get_bit_width();
                if target_type.information.is_int() && width <= context.index.get_size_in_bits(target_type) {
                    validate_access_index(validator, context, index, *access, target_type, last.location);
                } else {
                    emit(validator, DiagnosticKind::IncompatibleDirectAccess, last.location,
                        two_args(DiagnosticArg::Access(*access), DiagnosticArg::Number(width as i128)));
                }
            },
            _ => {
                assert(validator@ =~= old(validator)@ + seq![]);
            },
        }
    } else {
        assert(validator@ =~= old(validator)@ + seq![]);
    }
}

// ---------------------------------------------------------------------------------------
// References
// ---------------------------------------------------------------------------------------

/// An identifier must be resolved; a private variable may be named only from within the
/// POU being validated or its container.
pub open spec fn spec_reference(ctx: &ValidationContext, s: AstStatement, name: Seq<char>) -> Seq<DiagnosticView> {
    if !ctx.annotations.spec_has_type_annotation(s) {
        one(DiagnosticKind::UnresolvedReference, s.location, seq![ArgView::Text(name)])
    } else {
        match ctx.annotations.spec_get(s) {
            Some(StatementAnnotation::Variable { qualified_name, variable_type, .. }) => {
                let hidden = match ctx.qualifier {
                    Some(q) => match ctx.index.spec_find_pou(q@) {
                        Some(pou) => !is_prefix(pou.name@, qualified_name@)
                            && !is_prefix(pou.spec_container(), qualified_name@),
                        None => false,
                    },
                    None => false,
                };
                if variable_type.spec_is_private() && hidden {
                    one(DiagnosticKind::IllegalAccess, s.location, seq![ArgView::Text(qualified_name@)])
                } else {
                    seq![]
                }
            },
            _ => seq![],
        }
    }
}

fn validate_reference(validator: &mut Validator, statement: &AstStatement, name: &String, context: &ValidationContext)
    ensures
        final(validator)@ == old(validator)@ + spec_reference(context, *statement, name@),
{
    if !context.annotations.has_type_annotation(statement) {
        emit(validator, DiagnosticKind::UnresolvedReference, statement.location, one_arg(text(name)));
    } else {
        match context.annotations.get(statement) {
            Some(StatementAnnotation::Variable { qualified_name, variable_type, .. }) => {
                let hidden = match context.qualifier {
                    Some(q) => match context.index.find_pou(q) {
                        Some(pou) => !starts_with(qualified_name.as_str(), pou.name.as_str())
                            && !starts_with(qualified_name.as_str(), pou.get_container().as_str()),
                        None => false,
                    },
                    None => false,
                };
                if variable_type.is_private() && hidden {
                    emit(validator, DiagnosticKind::IllegalAccess, statement.location, one_arg(text(qualified_name)));
                } else {
                    assert(validator@ =~= old(validator)@ + seq![]);
                }
            },
            _ => {
                assert(validator@ =~= old(validator)@ + seq![]);
            },
        }
    }
}

// ---------------------------------------------------------------------------------------
// Array access `a[i, j]`
// ---------------------------------------------------------------------------------------

/// One index of an array access, checked against the dimension at its position.
pub open spec fn spec_array_index(
    ctx: &ValidationContext,
    access: AstStatement,
    dimensions: Seq<crate::typesystem::Dimension>,
    dimension_index: int,
) -> Seq<DiagnosticView> {
    match access.kind {
        AstKind::LiteralInteger { value } => if 0 <= dimension_index < dimensions.len() {
            match dimensions[dimension_index].spec_get_range() {
                Some((start, end)) => if !(start <= value && value <= end) {
                    one(DiagnosticKind::IncompatibleArrayAccessRange, access.location,
                        seq![ArgView::Number(start as i128), ArgView::Number(end as i128)])
                } else {
                    seq![]
                },
                None => seq![],
            }
        } else {
            seq![]
        },
        _ => {
            let t = type_or_void(ctx, access);
            if !t.information.spec_is_int() {
                one(DiagnosticKind::IncompatibleArrayAccessType, access.location, seq![ArgView::Text(t.name@)])
            } else {
                seq![]
            }
        },
    }
}

fn validate_array_access(
    validator: &mut Validator,
    access: &AstStatement,
    dimensions: &Vec<crate::typesystem::Dimension>,
    dimension_index: usize,
    context: &ValidationContext,
)
    ensures
        final(validator)@ == old(validator)@ + spec_array_index(context, *access, dimensions@, dimension_index as int),
{
    match &access.kind {
        AstKind::LiteralInteger { value } => if dimension_index < dimensions.len() {
            match dimensions[dimension_index].get_range() {
                Some((start, end)) => if !(start as i128 <= *value && *value <= end as i128) {
                    emit(validator, DiagnosticKind::IncompatibleArrayAccessRange, access.location,
                        two_args(DiagnosticArg::Number(start as i128), DiagnosticArg::Number(end as i128)));
                } else {
                    assert(validator@ =~= old(validator)@ + seq![]);
                },
                None => {
                    assert(validator@ =~= old(validator)@ + seq![]);
                },
            }
        } else {
            assert(validator@ =~= old(validator)@ + seq![]);
        },
        _ => {
            let t = context.annotations.get_type_or_void(access, context.index);
            if !t.information.is_int() {
                emit(validator, DiagnosticKind::IncompatibleArrayAccessType, access.location, one_arg(text(&t.name)));
            } else {
                assert(validator@ =~= old(validator)@ + seq![]);
            }
        },
    }
}

/// The indexes of a list access, each against the dimension at its position.
pub open spec fn spec_array_indexes(
    ctx: &ValidationContext,
    accesses: Seq<AstStatement>,
    dimensions: Seq<crate::typesystem::Dimension>,
) -> Seq<DiagnosticView>
    decreases accesses.len(),
{
    if accesses.len() == 0 {
        seq![]
    } else {
        spec_array_indexes(ctx, accesses.drop_last(), dimensions)
            + spec_array_index(ctx, accesses.last(), dimensions, accesses.len() - 1)
    }
}

/// The accessed expression must be an array; its indexes are then checked.
pub open spec fn spec_array_access(ctx: &ValidationContext, reference: AstStatement, access: AstStatement) -> Seq<DiagnosticView> {
    let target_type = type_or_void(ctx, reference);
    match target_type.information {
        DataTypeInformation::Array { dimensions, .. } => match access.kind {
            AstKind::ExpressionList { expressions } => spec_array_indexes(ctx, expressions@, dimensions@),
            _ => spec_array_index(ctx, access, dimensions@, 0),
        },
        _ => one(DiagnosticKind::IncompatibleArrayAccessVariable, access.location,
            seq![ArgView::Text(target_type.name@)]),
    }
}

fn visit_array_access(validator: &mut Validator, reference: &AstStatement, access: &AstStatement, context: &ValidationContext)
    ensures
        final(validator)@ == old(validator)@ + spec_array_access(context, *reference, *access),
{
    let target_type = context.annotations.get_type_or_void(reference, context.index);
    match &target_type.information {
        DataTypeInformation::Array { dimensions, .. } => match &access.kind {
            AstKind::ExpressionList { expressions } => {
                let mut i: usize = 0;
                while i < expressions.len()
                    invariant
                        i <= expressions@.len(),
                        validator@ == old(validator)@
                            + spec_array_indexes(context, expressions@.subrange(0, i as int), dimensions@),
                    decreases expressions.len() - i,
                {
                    validate_array_access(validator, &expressions[i], dimensions, i, context);
                    let ghost prefix = expressions@.subrange(0, i as int + 1);
                    assert(prefix.drop_last() =~= expressions@.subrange(0, i as int));
                    assert(validator@ =~= old(validator)@ + spec_array_indexes(context, prefix, dimensions@));
                    i = i + 1;
                }
                assert(expressions@.subrange(0, expressions@.len() as int) =~= expressions@);
            },
            _ => validate_array_access(validator, access, dimensions, 0, context),
        },
        _ => emit(validator, DiagnosticKind::IncompatibleArrayAccessVariable, access.location,
            one_arg(text(&target_type.name))),
    }
}

// ---------------------------------------------------------------------------------------
// Operators
// ---------------------------------------------------------------------------------------

/// The name of the user function that implements a comparison on a type.
pub open spec fn spec_equals_function_name(compared_type: Seq<char>, operator: Operator) -> Option<Seq<char>> {
    match operator {
        Operator::Equal => Some(compared_type + "_EQUAL"@),
        Operator::Less => Some(compared_type + "_LESS"@),
        Operator::Greater => Some(compared_type + "_GREATER"@),
        _ => None,
    }
}

fn get_equals_function_name_for(compared_type: &String, operator: Operator) -> (r: Option<String>)
    ensures
        match r {
            Some(n) => spec_equals_function_name(compared_type@, operator) == Some(n@),
            None => spec_equals_function_name(compared_type@, operator) is None,
        },
{
    let suffix = match operator {
        Operator::Equal => "_EQUAL",
        Operator::Less => "_LESS",
        Operator::Greater => "_GREATER",
        _ => {
            return None;
        },
    };
    let mut name = compared_type.clone();
    name.append(suffix);
    Some(name)
}

/// A comparison function exists for a type when a POU of the expected name declares
/// exactly two by-value inputs of that type and a `BOOL` return value.
pub open spec fn spec_compare_function_exists(index: Index, compared_type: Seq<char>, operator: Operator) -> bool {
    match spec_equals_function_name(compared_type, operator) {
        Some(f) => match index.spec_find_pou(f) {
            Some(pou) => {
                let m = pou.members@;
                &&& m.len() == 3
                &&& m[0].argument_type == ArgumentType::ByVal(VariableType::Input)
                &&& m[1].argument_type == ArgumentType::ByVal(VariableType::Input)
                &&& m[2].argument_type == ArgumentType::ByVal(VariableType::Return)
                &&& index.spec_effective_type_or_void_by_name(m[0].data_type_name@).name@ == compared_type
                &&& index.spec_effective_type_or_void_by_name(m[1].data_type_name@).name@ == compared_type
                &&& m[2].data_type_name@ == "BOOL"@
            },
            None => false,
        },
        None => false,
    }
}

fn compare_function_exists(compared_type: &String, operator: Operator, context: &ValidationContext) -> (r: bool)
    ensures
        r == spec_compare_function_exists(*context.index, compared_type@, operator),
{
    let function_name = match get_equals_function_name_for(compared_type, operator) {
        Some(f) => f,
        None => {
            return false;
        },
    };
    let index = context.index;
    match index.find_pou(function_name.as_str()) {
        Some(pou) => {
            let m = &pou.members;
            if m.len() != 3 {
                return false;
            }
            let by_val_inputs = m[0].argument_type == ArgumentType::ByVal(VariableType::Input)
                && m[1].argument_type == ArgumentType::ByVal(VariableType::Input)
                && m[2].argument_type == ArgumentType::ByVal(VariableType::Return);
            if !by_val_inputs {
                return false;
            }
            let first = index.get_effective_type_or_void_by_name(m[0].data_type_name.as_str());
            let second = index.get_effective_type_or_void_by_name(m[1].data_type_name.as_str());
            first.name == *compared_type && second.name == *compared_type
                && same_text(m[2].data_type_name.as_str(), "BOOL")
        },
        None => false,
    }
}

/// Operands of one kind that are neither numbers nor pointers are compared by a user
/// function, which must exist.
pub open spec fn spec_binary_expression(
    ctx: &ValidationContext,
    s: AstStatement,
    operator: Operator,
    left: AstStatement,
    right: AstStatement,
) -> Seq<DiagnosticView> {
    let left_type = type_or_void(ctx, left);
    let right_type = type_or_void(ctx, right);
    let is_numerical = ctx.index.spec_intrinsic(left_type).information.spec_is_numerical();
    if left_type.information.spec_variant() == right_type.information.spec_variant()
        && !(is_numerical || left_type.information.spec_is_pointer())
        && operator.spec_is_comparison_operator()
        && !spec_compare_function_exists(*ctx.index, left_type.name@, operator) {
        let expected = match spec_equals_function_name(left_type.name@, operator) {
            Some(f) => f,
            None => Seq::<char>::empty(),
        };
        one(DiagnosticKind::MissingCompareFunction, s.location,
            seq![ArgView::Text(expected), ArgView::Text(left_type.name@)])
    } else {
        seq![]
    }
}

fn validate_binary_expression(
    validator: &mut Validator,
    statement: &AstStatement,
    operator: Operator,
    left: &AstStatement,
    right: &AstStatement,
    context: &ValidationContext,
)
    ensures
        final(validator)@ == old(validator)@ + spec_binary_expression(context, *statement, operator, *left, *right),
{
    let left_type = context.annotations.get_type_or_void(left, context.index);
    let right_type = context.annotations.get_type_or_void(right, context.index);
    let is_numerical = context.index.find_intrinsic_type(left_type).information.is_numerical();
    if left_type.information.variant() == right_type.information.variant()
        && !(is_numerical || left_type.information.is_pointer())
        && operator.is_comparison_operator()
        && !compare_function_exists(&left_type.name, operator, context) {
        let expected = match get_equals_function_name_for(&left_type.name, operator) {
            Some(f) => f,
            None => String::new(),
        };
        emit(validator, DiagnosticKind::MissingCompareFunction, statement.location,
            two_args(DiagnosticArg::Text(expected), text(&left_type.name)));
    } else {
        assert(validator@ =~= old(validator)@ + seq![]);
    }
}

/// `<>` is checked as `=`; `>=` as `>` and `=`; `<=` as `<` and `=`.
pub open spec fn spec_visit_binary_expression(
    ctx: &ValidationContext,
    s: AstStatement,
    operator: Operator,
    left: AstStatement,
    right: AstStatement,
) -> Seq<DiagnosticView> {
    match operator {
        Operator::NotEqual => spec_binary_expression(ctx, s, Operator::Equal, left, right),
        Operator::GreaterOrEqual => spec_binary_expression(ctx, s, Operator::Greater, left, right)
            + spec_binary_expression(ctx, s, Operator::Equal, left, right),
        Operator::LessOrEqual => spec_binary_expression(ctx, s, Operator::Less, left, right)
            + spec_binary_expression(ctx, s, Operator::Equal, left, right),
        _ => spec_binary_expression(ctx, s, operator, left, right),
    }
}

fn visit_binary_expression(
    validator: &mut Validator,
    statement: &AstStatement,
    operator: Operator,
    left: &AstStatement,
    right: &AstStatement,
    context: &ValidationContext,
)
    ensures
        final(validator)@ == old(validator)@ + spec_visit_binary_expression(context, *statement, operator, *left, *right),
{
    match operator {
        Operator::NotEqual => validate_binary_expression(validator, statement, Operator::Equal, left, right, context),
        Operator::GreaterOrEqual => {
            validate_binary_expression(validator, statement, Operator::Greater, left, right, context);
            validate_binary_expression(validator, statement, Operator::Equal, left, right, context);
            assert(validator@ =~= old(validator)@ + spec_visit_binary_expression(context, *statement, operator, *left, *right));
        },
        Operator::LessOrEqual => {
            validate_binary_expression(validator, statement, Operator::Less, left, right, context);
            validate_binary_expression(validator, statement, Operator::Equal, left, right, context);
            assert(validator@ =~= old(validator)@ + spec_visit_binary_expression(context, *statement, operator, *left, *right));
        },
        _ => validate_binary_expression(validator, statement, operator, left, right, context),
    }
}

/// The address-of operator applies only to references and array elements.
pub open spec fn spec_unary_expression(operator: Operator, value: AstStatement, location: SourceRange) -> Seq<DiagnosticView> {
    if operator == Operator::Address && !matches!(value.kind, AstKind::Reference { .. }
        | AstKind::QualifiedReference { .. } | AstKind::ArrayAccess { .. }) {
        one(DiagnosticKind::InvalidOperation, location, seq![ArgView::Text("Invalid address-of operation"@)])
    } else {
        seq![]
    }
}

fn validate_unary_expression(validator: &mut Validator, operator: Operator, value: &AstStatement, location: SourceRange)
    ensures
        final(validator)@ == old(validator)@ + spec_unary_expression(operator, *value, location),
{
    if operator == Operator::Address && !matches!(value.kind, AstKind::Reference { .. }
        | AstKind::QualifiedReference { .. } | AstKind::ArrayAccess { .. }) {
        emit(validator, DiagnosticKind::InvalidOperation, location,
            one_arg(DiagnosticArg::Text(String::from_str("Invalid address-of operation"))));
    } else {
        assert(validator@ =~= old(validator)@ + seq![]);
    }
}

// ---------------------------------------------------------------------------------------
// Assignments
// ---------------------------------------------------------------------------------------

/// A string literal of one character may be assigned to a character of its encoding; a
/// longer one is reported. The flag says whether the assignment is allowed on that ground.
pub open spec fn spec_string_to_char(
    left_type: DataType,
    right_type: DataType,
    right: AstStatement,
    location: SourceRange,
) -> (bool, Seq<DiagnosticView>) {
    if left_type.information.spec_is_compatible_char_and_string(&right_type.information) {
        match right.kind {
            AstKind::LiteralString { value, .. } => if value@.len() == 1 {
                (true, seq![])
            } else if value@.len() > 1 {
                (false, one(DiagnosticKind::SyntaxError, location,
                    seq![ArgView::Text("Value: '"@ + value@ + "' exceeds length for type: "@ + left_type.name@)]))
            } else {
                (false, seq![])
            },
            _ => (false, seq![]),
        }
    } else {
        (false, seq![])
    }
}

fn is_valid_string_to_char_assignment(
    validator: &mut Validator,
    left_type: &DataType,
    right_type: &DataType,
    right: &AstStatement,
    location: SourceRange,
) -> (r: bool)
    ensures
        (r, final(validator)@.subrange(old(validator)@.len() as int, final(validator)@.len() as int))
            == spec_string_to_char(*left_type, *right_type, *right, location),
        final(validator)@.subrange(0, old(validator)@.len() as int) == old(validator)@,
        final(validator)@.len() >= old(validator)@.len(),
{
    let ghost start = validator@;
    if left_type.information.is_compatible_char_and_string(&right_type.information) {
        match &right.kind {
            AstKind::LiteralString { value, .. } => {
                let n = value.as_str().unicode_len();
                if n == 1 {
                    assert(validator@.subrange(start.len() as int, validator@.len() as int) =~= seq![]);
                    assert(validator@.subrange(0, start.len() as int) =~= start);
                    return true;
                } else if n > 1 {
                    let mut message = String::from_str("Value: '");
                    message.append(value.as_str());
                    message.append("' exceeds length for type: ");
                    message.append(left_type.name.as_str());
                    emit(validator, DiagnosticKind::SyntaxError, location, one_arg(DiagnosticArg::Text(message)));
                    assert(validator@.subrange(start.len() as int, validator@.len() as int)
                        =~= spec_string_to_char(*left_type, *right_type, *right, location).1);
                    assert(validator@.subrange(0, start.len() as int) =~= start);
                    return false;
                }
            },
            _ => {},
        }
    }
    assert(validator@.subrange(start.len() as int, validator@.len() as int) =~= seq![]);
    assert(validator@.subrange(0, start.len() as int) =~= start);
    false
}

/// Pointers go only to pointers of the same class, and to or from integers wide enough
/// to hold an address. The flag says whether the assignment is rejected.
pub open spec fn spec_invalid_pointer(
    index: Index,
    left_type: DataType,
    right_type: DataType,
    location: SourceRange,
) -> (bool, Seq<DiagnosticView>) {
    let l = left_type.information;
    let r = right_type.information;
    if l.spec_is_pointer() && r.spec_is_pointer() {
        (!index.spec_is_same_type_class(left_type, right_type), seq![])
    } else if r.spec_is_pointer() && !l.spec_is_pointer() && index.spec_size_in_bits(left_type) < POINTER_SIZE {
        (true, one(DiagnosticKind::IncompatibleTypeSize, location,
            seq![ArgView::Text(left_type.name@), ArgView::Number(index.spec_size_in_bits(left_type) as i128),
            ArgView::Text("hold a"@)]))
    } else if l.spec_is_pointer() && !r.spec_is_pointer() && index.spec_size_in_bits(right_type) < POINTER_SIZE {
        (true, one(DiagnosticKind::IncompatibleTypeSize, location,
            seq![ArgView::Text(right_type.name@), ArgView::Number(index.spec_size_in_bits(right_type) as i128),
            ArgView::Text("to be stored in a"@)]))
    } else {
        (false, seq![])
    }
}

fn is_invalid_pointer_assignment(
    validator: &mut Validator,
    left_type: &DataType,
    right_type: &DataType,
    index: &Index,
    location: SourceRange,
) -> (r: bool)
    ensures
        (r, final(validator)@.subrange(old(validator)@.len() as int, final(validator)@.len() as int))
            == spec_invalid_pointer(*index, *left_type, *right_type, location),
        final(validator)@.subrange(0, old(validator)@.len() as int) == old(validator)@,
        final(validator)@.len() >= old(validator)@.len(),
{
    let ghost start = validator@;
    let l = &left_type.information;
    let r = &right_type.information;
    if l.is_pointer() && r.is_pointer() {
        assert(validator@.subrange(start.len() as int, validator@.len() as int) =~= seq![]);
        assert(validator@.subrange(0, start.len() as int) =~= start);
        return !index.is_same_type_class(left_type, right_type);
    }
    if r.is_pointer() && !l.is_pointer() {
        let size = index.get_size_in_bits(left_type);
        if size < POINTER_SIZE {
            emit(validator, DiagnosticKind::IncompatibleTypeSize, location,
                three_args(text(&left_type.name), DiagnosticArg::Number(size as i128),
                DiagnosticArg::Text(String::from_str("hold a"))));
            assert(validator@.subrange(start.len() as int, validator@.len() as int)
                =~= spec_invalid_pointer(*index, *left_type, *right_type, location).1);
            assert(validator@.subrange(0, start.len() as int) =~= start);
            return true;
        }
    }
    if l.is_pointer() && !r.is_pointer() {
        let size = index.get_size_in_bits(right_type);
        if size < POINTER_SIZE {
            emit(validator, DiagnosticKind::IncompatibleTypeSize, location,
                three_args(text(&right_type.name), DiagnosticArg::Number(size as i128),
                DiagnosticArg::Text(String::from_str("to be stored in a"))));
            assert(validator@.subrange(start.len() as int, validator@.len() as int)
                =~= spec_invalid_pointer(*index, *left_type, *right_type, location).1);
            assert(validator@.subrange(0, start.len() as int) =~= start);
            return true;
        }
    }
    assert(validator@.subrange(start.len() as int, validator@.len() as int) =~= seq![]);
    assert(validator@.subrange(0, start.len() as int) =~= start);
    false
}

/// A `CHAR` and a `WCHAR` do not mix.
pub open spec fn spec_invalid_char(left_type: DataType, right_type: DataType) -> bool {
    left_type.information.spec_is_character() && right_type.information.spec_is_character()
        && left_type.name@ != right_type.name@
}

fn is_invalid_char_assignment(left_type: &DataType, right_type: &DataType) -> (r: bool)
    ensures
        r == spec_invalid_char(*left_type, *right_type),
{
    left_type.information.is_character() && right_type.information.is_character()
        && !(left_type.name == right_type.name)
}

/// Aggregates go only to aggregates.
pub open spec fn spec_aggregate_to_none_aggregate(left_type: DataType, right_type: DataType) -> bool {
    left_type.information.spec_is_aggregate() != right_type.information.spec_is_aggregate()
}

fn is_aggregate_to_none_aggregate_assignment(left_type: &DataType, right_type: &DataType) -> (r: bool)
    ensures
        r == spec_aggregate_to_none_aggregate(*left_type, *right_type),
{
    left_type.information.is_aggregate() != right_type.information.is_aggregate()
}

/// Aggregates go only to aggregates of the same class.
pub open spec fn spec_aggregate_type_mismatch(index: Index, left_type: DataType, right_type: DataType) -> bool {
    left_type.information.spec_is_aggregate() && right_type.information.spec_is_aggregate()
        && !index.spec_is_same_type_class(left_type, right_type)
}

fn is_aggregate_type_missmatch(left_type: &DataType, right_type: &DataType, index: &Index) -> (r: bool)
    ensures
        r == spec_aggregate_type_mismatch(*index, *left_type, *right_type),
{
    left_type.information.is_aggregate() && right_type.information.is_aggregate()
        && !index.is_same_type_class(left_type, right_type)
}

/// Whether an assignment between compatible types is legal, and what its checks report.
pub open spec fn spec_is_valid_assignment(
    index: Index,
    left_type: DataType,
    right_type: DataType,
    right: AstStatement,
    location: SourceRange,
) -> (bool, Seq<DiagnosticView>) {
    let (to_char, first) = spec_string_to_char(left_type, right_type, right, location);
    if to_char {
        (true, first)
    } else {
        let (bad_pointer, second) = spec_invalid_pointer(index, left_type, right_type, location);
        let rejected = bad_pointer || spec_invalid_char(left_type, right_type)
            || spec_aggregate_to_none_aggregate(left_type, right_type)
            || spec_aggregate_type_mismatch(index, left_type, right_type);
        (!rejected, first + second)
    }
}

fn is_valid_assignment(
    validator: &mut Validator,
    left_type: &DataType,
    right_type: &DataType,
    right: &AstStatement,
    index: &Index,
    location: SourceRange,
) -> (r: bool)
    ensures
        (r, final(validator)@.subrange(old(validator)@.len() as int, final(validator)@.len() as int))
            == spec_is_valid_assignment(*index, *left_type, *right_type, *right, location),
        final(validator)@.subrange(0, old(validator)@.len() as int) == old(validator)@,
        final(validator)@.len() >= old(validator)@.len(),
{
    let ghost start = validator@;
    if is_valid_string_to_char_assignment(validator, left_type, right_type, right, location) {
        return true;
    }
    let ghost middle = validator@;
    let bad_pointer = is_invalid_pointer_assignment(validator, left_type, right_type, index, location);
    let bad_char = is_invalid_char_assignment(left_type, right_type);
    let aggregate_to_scalar = is_aggregate_to_none_aggregate_assignment(left_type, right_type);
    let aggregate_mismatch = is_aggregate_type_missmatch(left_type, right_type, index);
    let rejected = bad_pointer || bad_char || aggregate_to_scalar || aggregate_mismatch;
    proof {
        let first = middle.subrange(start.len() as int, middle.len() as int);
        let second = validator@.subrange(middle.len() as int, validator@.len() as int);
        assert(middle =~= validator@.subrange(0, middle.len() as int));
        assert(validator@.subrange(start.len() as int, validator@.len() as int) =~= first + second);
        assert(validator@.subrange(0, start.len() as int) =~= start);
    }
    !rejected
}

/// A value wider than its target is reported as an implicit downcast.
pub open spec fn spec_assignment_type_sizes(
    index: Index,
    left_type: DataType,
    right_type: DataType,
    location: SourceRange,
) -> Seq<DiagnosticView> {
    if index.spec_size_in_bits(left_type) < index.spec_size_in_bits(right_type) {
        one(DiagnosticKind::ImplicitDowncast, location,
            seq![ArgView::Text(left_type.name@), ArgView::Text(right_type.name@)])
    } else {
        seq![]
    }
}

fn validate_assignment_type_sizes(
    validator: &mut Validator,
    left_type: &DataType,
    right_type: &DataType,
    location: SourceRange,
    context: &ValidationContext,
)
    ensures
        final(validator)@ == old(validator)@ + spec_assignment_type_sizes(*context.index, *left_type, *right_type, location),
{
    if context.index.get_size_in_bits(left_type) < context.index.get_size_in_bits(right_type) {
        emit(validator, DiagnosticKind::ImplicitDowncast, location,
            two_args(text(&left_type.name), text(&right_type.name)));
    } else {
        assert(validator@ =~= old(validator)@ + seq![]);
    }
}

/// The checks on the target of an assignment: not a constant, and a storage location.
pub open spec fn spec_assignment_target(ctx: &ValidationContext, left: AstStatement) -> Seq<DiagnosticView> {
    let constant = match ctx.annotations.spec_get(left) {
        Some(StatementAnnotation::Variable { constant: true, qualified_name, .. }) => one(
            DiagnosticKind::CannotAssignToConstant, left.location, seq![ArgView::Text(qualified_name@)]),
        _ => seq![],
    };
    let lvalue = if !left.spec_can_be_assigned_to() {
        one(DiagnosticKind::ReferenceExpected, left.location, seq![])
    } else {
        seq![]
    };
    constant + lvalue
}

/// The target type of an assignment is the type hint of its value; a pointer that is
/// dereferenced automatically (a by-reference parameter) stands for the type it points to.
pub open spec fn spec_assignment_target_type(ctx: &ValidationContext, hinted: DataType) -> DataType {
    match hinted.information {
        DataTypeInformation::Pointer { inner_type_name, auto_deref: true } =>
            ctx.index.spec_effective_type_or_void_by_name(inner_type_name@),
        _ => hinted,
    }
}

/// The type checks of `left := right`: compatibility, the legality rules, and the
/// downcast warning for values that are not literals. A rejection that no rule has
/// reported yet is reported as an invalid assignment.
pub open spec fn spec_assignment_types(ctx: &ValidationContext, right: AstStatement, location: SourceRange) -> Seq<DiagnosticView> {
    match (type_of(ctx, right), hint_of(ctx, right)) {
        (Some(right_type), Some(hinted)) => {
            let left_type = spec_assignment_target_type(ctx, hinted);
            let invalid = one(DiagnosticKind::InvalidAssignment, location,
                seq![ArgView::Text(right_type.name@), ArgView::Text(left_type.name@)]);
            if !left_type.spec_is_compatible_with_type(&right_type) {
                invalid
            } else {
                let (valid, reported) = spec_is_valid_assignment(*ctx.index, left_type, right_type, right, location);
                if !valid {
                    if reported.len() == 0 {
                        invalid
                    } else {
                        reported
                    }
                } else if !right.spec_is_literal() {
                    reported + spec_assignment_type_sizes(*ctx.index, left_type, right_type, location)
                } else {
                    reported
                }
            }
        },
        _ => seq![],
    }
}

/// All diagnostics of an assignment of `right` to `left` (or to a call parameter, with
/// no `left`), reported at `location`.
pub open spec fn spec_assignment(
    ctx: &ValidationContext,
    right: AstStatement,
    left: Option<AstStatement>,
    location: SourceRange,
) -> Seq<DiagnosticView> {
    let target = match left {
        Some(l) => spec_assignment_target(ctx, l),
        None => seq![],
    };
    target + spec_assignment_types(ctx, right, location)
}

fn validate_assignment(
    validator: &mut Validator,
    right: &AstStatement,
    left: Option<&AstStatement>,
    location: SourceRange,
    context: &ValidationContext,
)
    ensures
        final(validator)@ == old(validator)@ + spec_assignment(context, *right,
            match left { Some(l) => Some(*l), None => None }, location),
{
    let ghost start = validator@;
    if let Some(left) = left {
        if let Some(StatementAnnotation::Variable { constant, qualified_name, .. }) = context.annotations.get(left) {
            if *constant {
                emit(validator, DiagnosticKind::CannotAssignToConstant, left.location, one_arg(text(qualified_name)));
            }
        }
        if !left.can_be_assigned_to() {
            emit(validator, DiagnosticKind::ReferenceExpected, left.location, no_args());
        }
        assert(validator@ =~= start + spec_assignment_target(context, *left));
    } else {
        assert(validator@ =~= start + seq![]);
    }
    let ghost after_target = validator@;
    let right_type = context.annotations.get_type(right, context.index);
    let hinted = context.annotations.get_type_hint(right, context.index);
    if let (Some(right_type), Some(hinted)) = (right_type, hinted) {
        let left_type = match &hinted.information {
            DataTypeInformation::Pointer { inner_type_name, auto_deref: true } =>
                context.index.get_effective_type_or_void_by_name(inner_type_name.as_str()),
            _ => hinted,
        };
        if !left_type.is_compatible_with_type(right_type) {
            emit(validator, DiagnosticKind::InvalidAssignment, location,
                two_args(text(&right_type.name), text(&left_type.name)));
        } else {
            let before = validator.len();
            let valid = is_valid_assignment(validator, left_type, right_type, right, context.index, location);
            let ghost reported = validator@.subrange(after_target.len() as int, validator@.len() as int);
            assert(validator@ =~= after_target + reported);
            if !valid {
                if validator.len() == before {
                    emit(validator, DiagnosticKind::InvalidAssignment, location,
                        two_args(text(&right_type.name), text(&left_type.name)));
                    assert(validator@ =~= after_target + spec_assignment_types(context, *right, location));
                }
            } else if !right.is_literal() {
                validate_assignment_type_sizes(validator, left_type, right_type, location, context);
                assert(validator@ =~= after_target + spec_assignment_types(context, *right, location));
            }
        }
    } else {
        assert(validator@ =~= after_target + seq![]);
    }
    assert(validator@ =~= start + spec_assignment(context, *right,
        match left { Some(l) => Some(*l), None => None }, location));
}

/// An output or in-out parameter must be bound to a storage location; an output may be
/// left empty; for an explicit binding the bound expression is checked.
pub open spec fn spec_call_by_ref(param: VariableIndexEntry, arg: AstStatement) -> Seq<DiagnosticView>
    decreases arg,
{
    let ty = param.argument_type.spec_get_variable_type();
    let invalid = one(DiagnosticKind::InvalidArgumentType, arg.location,
        seq![ArgView::Text(param.name@), ArgView::Variable(ty)]);
    if !(ty == VariableType::Output || ty == VariableType::InOut) {
        seq![]
    } else if arg.spec_can_be_assigned_to() {
        seq![]
    } else {
        match arg.kind {
            AstKind::EmptyStatement => if ty == VariableType::Output {
                seq![]
            } else {
                invalid
            },
            AstKind::Assignment { right, .. } => spec_call_by_ref(param, *right),
            AstKind::OutputAssignment { right, .. } => spec_call_by_ref(param, *right),
            _ => invalid,
        }
    }
}

fn validate_call_by_ref(validator: &mut Validator, param: &VariableIndexEntry, arg: &AstStatement)
    ensures
        final(validator)@ == old(validator)@ + spec_call_by_ref(*param, *arg),
    decreases arg,
{
    let ty = param.argument_type.get_variable_type();
    if !(ty == VariableType::Output || ty == VariableType::InOut) {
        assert(validator@ =~= old(validator)@ + seq![]);
        return;
    }
    if arg.can_be_assigned_to() {
        assert(validator@ =~= old(validator)@ + seq![]);
        return;
    }
    match &arg.kind {
        AstKind::EmptyStatement if ty == VariableType::Output => {
            assert(validator@ =~= old(validator)@ + seq![]);
        },
        AstKind::Assignment { right, .. } => validate_call_by_ref(validator, param, right),
        AstKind::OutputAssignment { right, .. } => validate_call_by_ref(validator, param, right),
        _ => emit(validator, DiagnosticKind::InvalidArgumentType, arg.location,
            two_args(text(&param.name), DiagnosticArg::Variable(ty))),
    }
}

// ---------------------------------------------------------------------------------------
// Generic type natures
// ---------------------------------------------------------------------------------------

/// A node whose (expected) type is still generic was not resolved; otherwise its type
/// must have the nature a generic parameter demands of it, any number serving for `Real`.
pub open spec fn spec_type_nature(ctx: &ValidationContext, s: AstStatement) -> Seq<DiagnosticView> {
    let checked = match hint_of(ctx, s) {
        Some(t) => Some(t),
        None => type_of(ctx, s),
    };
    match checked {
        Some(t) => match t.information {
            DataTypeInformation::Generic { generic_symbol, nature } => one(DiagnosticKind::UnresolvedGenericType,
                s.location, seq![ArgView::Text(generic_symbol@), ArgView::Nature(nature)]),
            _ => match (type_of(ctx, s), ctx.annotations.spec_get_generic_nature(s)) {
                (Some(actual), Some(nature)) => if ctx.index.spec_has_nature(actual, nature)
                    || (nature == TypeNature::Real
                    && ctx.index.spec_intrinsic(actual).information.spec_is_numerical()) {
                    seq![]
                } else {
                    one(DiagnosticKind::InvalidTypeNature, s.location,
                        seq![ArgView::Text(actual.name@), ArgView::Nature(nature)])
                },
                _ => seq![],
            },
        },
        None => seq![],
    }
}

fn validate_type_nature(validator: &mut Validator, statement: &AstStatement, context: &ValidationContext)
    ensures
        final(validator)@ == old(validator)@ + spec_type_nature(context, *statement),
{
    let annotations = context.annotations;
    let index = context.index;
    let checked = match annotations.get_type_hint(statement, index) {
        Some(t) => Some(t),
        None => annotations.get_type(statement, index),
    };
    match checked {
        Some(t) => match &t.information {
            DataTypeInformation::Generic { generic_symbol, nature } => emit(validator,
                DiagnosticKind::UnresolvedGenericType, statement.location,
                two_args(text(generic_symbol), DiagnosticArg::Nature(*nature))),
            _ => match (annotations.get_type(statement, index), annotations.get_generic_nature(statement)) {
                (Some(actual), Some(nature)) => if index.has_nature(actual, nature)
                    || (nature == TypeNature::Real
                    && index.find_intrinsic_type(actual).information.is_numerical()) {
                    assert(validator@ =~= old(validator)@ + seq![]);
                } else {
                    emit(validator, DiagnosticKind::InvalidTypeNature, statement.location,
                        two_args(text(&actual.name), DiagnosticArg::Nature(nature)));
                },
                _ => {
                    assert(validator@ =~= old(validator)@ + seq![]);
                },
            },
        },
        None => {
            assert(validator@ =~= old(validator)@ + seq![]);
        },
    }
}

// ---------------------------------------------------------------------------------------
// Calls
// ---------------------------------------------------------------------------------------

pub open spec fn is_first_param_named(declared: Seq<VariableIndexEntry>, name: Seq<char>, i: int) -> bool {
    &&& 0 <= i < declared.len()
    &&& declared[i].name@ == name
    &&& forall|j: int| 0 <= j < i ==> declared[j].name@ != name
}

/// The position of the first declared parameter called `name`.
pub open spec fn spec_param_position(declared: Seq<VariableIndexEntry>, name: Seq<char>) -> Option<usize> {
    if exists|i: int| is_first_param_named(declared, name, i) {
        Some((choose|i: int| is_first_param_named(declared, name, i)) as usize)
    } else {
        None
    }
}

fn param_position(declared: &Vec<&VariableIndexEntry>, name: &String) -> (r: Option<usize>)
    ensures
        r == spec_param_position(deref_all(declared@), name@),
{
    let ghost d = deref_all(declared@);
    let mut i: usize = 0;
    while i < declared.len()
        invariant
            i <= declared@.len(),
            d == deref_all(declared@),
            forall|j: int| 0 <= j < i ==> d[j].name@ != name@,
        decreases declared.len() - i,
    {
        if declared[i].name == *name {
            assert(is_first_param_named(d, name@, i as int));
            let ghost k = choose|k: int| is_first_param_named(d, name@, k);
            assert(k == i as int);
            return Some(i);
        }
        i = i + 1;
    }
    None
}

/// The parameter slot an argument binds and whether it binds it by position: `name := v`
/// and `name => v` bind the parameter of that name, any other argument the parameter at
/// its own position. An explicit binding of an unknown name binds nothing.
pub open spec fn spec_call_parameter(p: AstStatement, declared: Seq<VariableIndexEntry>, i: usize) -> Option<(usize, bool)> {
    match p.kind {
        AstKind::Assignment { left, .. } => spec_named_slot(*left, declared),
        AstKind::OutputAssignment { left, .. } => spec_named_slot(*left, declared),
        _ => Some((i, true)),
    }
}

/// The slot a named binding `left := v` binds.
pub open spec fn spec_named_slot(left: AstStatement, declared: Seq<VariableIndexEntry>) -> Option<(usize, bool)> {
    match left.kind {
        AstKind::Reference { name } => match spec_param_position(declared, name@) {
            Some(pos) => Some((pos, false)),
            None => None,
        },
        _ => None,
    }
}

fn get_implicit_call_parameter(p: &AstStatement, declared: &Vec<&VariableIndexEntry>, i: usize) -> (r: Option<(usize, bool)>)
    ensures
        r == spec_call_parameter(*p, deref_all(declared@), i),
{
    let left = match &p.kind {
        AstKind::Assignment { left, .. } => left,
        AstKind::OutputAssignment { left, .. } => left,
        _ => {
            return Some((i, true));
        },
    };
    match &left.kind {
        AstKind::Reference { name } => match param_position(declared, name) {
            Some(pos) => Some((pos, false)),
            None => None,
        },
        _ => None,
    }
}

/// Whether the arguments of a call are bound by position, as the first one decides.
pub open spec fn spec_argument_mode(args: Seq<AstStatement>, declared: Seq<VariableIndexEntry>) -> bool {
    if args.len() > 0 {
        match spec_call_parameter(args[0], declared, 0) {
            Some((_, implicit)) => implicit,
            None => true,
        }
    } else {
        true
    }
}

/// The slots the arguments bind, in order.
pub open spec fn spec_call_slots(args: Seq<AstStatement>, declared: Seq<VariableIndexEntry>) -> Seq<usize>
    decreases args.len(),
{
    if args.len() == 0 {
        seq![]
    } else {
        spec_call_slots(args.drop_last(), declared) + match spec_call_parameter(
            args.last(),
            declared,
            (args.len() - 1) as usize,
        ) {
            Some((slot, _)) => seq![slot],
            None => seq![],
        }
    }
}

/// The in-out parameters whose slot no argument binds.
pub open spec fn spec_missing_inouts(declared: Seq<VariableIndexEntry>, slots: Seq<usize>, location: SourceRange) -> Seq<DiagnosticView>
    decreases declared.len(),
{
    if declared.len() == 0 {
        seq![]
    } else {
        let d = declared.last();
        spec_missing_inouts(declared.drop_last(), slots, location)
            + if d.argument_type.spec_get_variable_type() == VariableType::InOut
            && !slots.contains(d.location_in_parent as usize) {
            one(DiagnosticKind::MissingInoutParameter, location, seq![ArgView::Text(d.name@)])
        } else {
            seq![]
        }
    }
}

/// Function blocks and programs must be given every in-out parameter.
pub open spec fn spec_inout_check(pou: PouIndexEntry, declared: Seq<VariableIndexEntry>, slots: Seq<usize>, location: SourceRange) -> Seq<DiagnosticView> {
    if matches!(pou.kind, PouKind::FunctionBlock | PouKind::Program) {
        spec_missing_inouts(declared, slots, location)
    } else {
        seq![]
    }
}

fn contains_slot(slots: &Vec<usize>, slot: usize) -> (r: bool)
    ensures
        r == slots@.contains(slot),
{
    let mut i: usize = 0;
    while i < slots.len()
        invariant
            i <= slots@.len(),
            forall|j: int| 0 <= j < i ==> slots@[j] != slot,
        decreases slots.len() - i,
    {
        if slots[i] == slot {
            return true;
        }
        i = i + 1;
    }
    false
}

fn validate_inout_parameters(
    validator: &mut Validator,
    pou: &PouIndexEntry,
    declared: &Vec<&VariableIndexEntry>,
    slots: &Vec<usize>,
    location: SourceRange,
)
    ensures
        final(validator)@ == old(validator)@ + spec_inout_check(*pou, deref_all(declared@), slots@, location),
{
    if !matches!(pou.kind, PouKind::FunctionBlock | PouKind::Program) {
        assert(validator@ =~= old(validator)@ + seq![]);
        return;
    }
    let ghost d = deref_all(declared@);
    let mut i: usize = 0;
    assert(validator@ =~= old(validator)@ + spec_missing_inouts(d.subrange(0, 0), slots@, location));
    while i < declared.len()
        invariant
            i <= declared@.len(),
            d == deref_all(declared@),
            validator@ == old(validator)@ + spec_missing_inouts(d.subrange(0, i as int), slots@, location),
        decreases declared.len() - i,
    {
        let p = declared[i];
        if p.argument_type.get_variable_type() == VariableType::InOut
            && !contains_slot(slots, p.location_in_parent as usize) {
            emit(validator, DiagnosticKind::MissingInoutParameter, location, one_arg(text(&p.name)));
        }
        let ghost prefix = d.subrange(0, i as int + 1);
        assert(prefix.drop_last() =~= d.subrange(0, i as int));
        assert(validator@ =~= old(validator)@ + spec_missing_inouts(prefix, slots@, location));
        i = i + 1;
    }
    assert(d.subrange(0, declared@.len() as int) =~= d);
}

/// One argument of a resolved call: by-reference binding, the assignment to a positional
/// parameter, the rule against mixing positional and named arguments, then the argument.
pub open spec fn spec_call_argument(
    ctx: &ValidationContext,
    p: AstStatement,
    i: usize,
    mode: bool,
    declared: Seq<VariableIndexEntry>,
) -> Seq<DiagnosticView>
    decreases p, 4nat,
{
    let checks = match spec_call_parameter(p, declared, i) {
        Some((slot, implicit)) => (if slot < declared.len() {
            spec_call_by_ref(declared[slot as int], p)
        } else {
            seq![]
        }) + (if implicit {
            spec_assignment(ctx, p, None, p.location)
        } else {
            seq![]
        }) + (if i > 0 && mode != implicit {
            one(DiagnosticKind::InvalidParameterType, p.location, seq![])
        } else {
            seq![]
        }),
        None => seq![],
    };
    checks + spec_visit(ctx, p)
}

/// The arguments of a resolved call, in order.
pub open spec fn spec_call_arguments(
    ctx: &ValidationContext,
    args: Seq<AstStatement>,
    mode: bool,
    declared: Seq<VariableIndexEntry>,
) -> Seq<DiagnosticView>
    decreases args, 0nat,
{
    if args.len() == 0 {
        seq![]
    } else {
        spec_call_arguments(ctx, args.drop_last(), mode, declared)
            + spec_call_argument(ctx, args[args.len() - 1], (args.len() - 1) as usize, mode, declared)
    }
}

/// A call: the called expression, then, when it names a known POU, its arguments and the
/// in-out check; otherwise the arguments as plain expressions.
pub open spec fn spec_call(ctx: &ValidationContext, s: AstStatement) -> Seq<DiagnosticView>
    decreases s, 1nat,
{
    match s.kind {
        AstKind::CallStatement { operator, parameters } => spec_visit(ctx, *operator) + match ctx.annotations.spec_find_called_pou(
            *operator,
            *ctx.index,
        ) {
            Some(pou) => {
                let declared = parameters_of(pou.members@);
                match parameters {
                    Some(p) => match p.kind {
                        AstKind::ExpressionList { expressions } => spec_call_arguments(
                            ctx,
                            expressions@,
                            spec_argument_mode(expressions@, declared),
                            declared,
                        ) + spec_inout_check(pou, declared, spec_call_slots(expressions@, declared), operator.location),
                        _ => spec_call_argument(ctx, *p, 0, true, declared) + spec_inout_check(
                            pou,
                            declared,
                            spec_call_slots(seq![*p], declared),
                            operator.location,
                        ),
                    },
                    None => spec_inout_check(pou, declared, seq![], operator.location),
                }
            },
            None => match parameters {
                Some(p) => spec_visit(ctx, *p),
                None => seq![],
            },
        },
        _ => seq![],
    }
}

fn validate_argument(
    validator: &mut Validator,
    p: &AstStatement,
    i: usize,
    mode: bool,
    declared: &Vec<&VariableIndexEntry>,
    slots: &mut Vec<usize>,
    context: &ValidationContext,
)
    ensures
        final(validator)@ == old(validator)@ + spec_call_argument(context, *p, i, mode, deref_all(declared@)),
        final(slots)@ == old(slots)@ + match spec_call_parameter(*p, deref_all(declared@), i) {
            Some((slot, _)) => seq![slot],
            None => seq![],
        },
    decreases p, 4nat,
{
    let ghost d = deref_all(declared@);
    let ghost start = validator@;
    match get_implicit_call_parameter(p, declared, i) {
        Some((slot, implicit)) => {
            slots.push(slot);
            if slot < declared.len() {
                validate_call_by_ref(validator, declared[slot], p);
            }
            let ghost after_by_ref = validator@;
            if implicit {
                validate_assignment(validator, p, None, p.location, context);
            }
            if i > 0 && mode != implicit {
                emit(validator, DiagnosticKind::InvalidParameterType, p.location, no_args());
            }
            let ghost checks = validator@.subrange(start.len() as int, validator@.len() as int);
            proof {
                assert(after_by_ref =~= start + (if slot < d.len() {
                    spec_call_by_ref(d[slot as int], *p)
                } else {
                    seq![]
                }));
                assert(checks =~= (if slot < d.len() {
                    spec_call_by_ref(d[slot as int], *p)
                } else {
                    seq![]
                }) + (if implicit {
                    spec_assignment(context, *p, None, p.location)
                } else {
                    seq![]
                }) + (if i > 0 && mode != implicit {
                    one(DiagnosticKind::InvalidParameterType, p.location, seq![])
                } else {
                    seq![]
                }));
                assert(validator@ =~= start + checks);
            }
            assert(slots@ =~= old(slots)@ + seq![slot]);
        },
        None => {
            assert(slots@ =~= old(slots)@ + seq![]);
        },
    }
    visit_statement(validator, p, context);
    assert(validator@ =~= start + spec_call_argument(context, *p, i, mode, d));
}

fn validate_arguments(
    validator: &mut Validator,
    args: &Vec<AstStatement>,
    declared: &Vec<&VariableIndexEntry>,
    slots: &mut Vec<usize>,
    context: &ValidationContext,
)
    ensures
        final(validator)@ == old(validator)@ + spec_call_arguments(context, args@,
            spec_argument_mode(args@, deref_all(declared@)), deref_all(declared@)),
        final(slots)@ == old(slots)@ + spec_call_slots(args@, deref_all(declared@)),
    decreases args, 0nat,
{
    let ghost d = deref_all(declared@);
    let mut mode = true;
    if args.len() > 0 {
        if let Some((_, implicit)) = get_implicit_call_parameter(&args[0], declared, 0) {
            mode = implicit;
        }
    }
    let mut i: usize = 0;
    assert(validator@ =~= old(validator)@ + spec_call_arguments(context, args@.subrange(0, 0), mode, d));
    assert(slots@ =~= old(slots)@ + spec_call_slots(args@.subrange(0, 0), d));
    while i < args.len()
        invariant
            i <= args@.len(),
            d == deref_all(declared@),
            mode == spec_argument_mode(args@, d),
            validator@ == old(validator)@ + spec_call_arguments(context, args@.subrange(0, i as int), mode, d),
            slots@ == old(slots)@ + spec_call_slots(args@.subrange(0, i as int), d),
        decreases args.len() - i,
    {
        validate_argument(validator, &args[i], i, mode, declared, slots, context);
        let ghost prefix = args@.subrange(0, i as int + 1);
        assert(prefix.drop_last() =~= args@.subrange(0, i as int));
        assert(validator@ =~= old(validator)@ + spec_call_arguments(context, prefix, mode, d));
        assert(slots@ =~= old(slots)@ + spec_call_slots(prefix, d));
        i = i + 1;
    }
    assert(args@.subrange(0, args@.len() as int) =~= args@);
}

fn validate_call(validator: &mut Validator, statement: &AstStatement, context: &ValidationContext)
    ensures
        final(validator)@ == old(validator)@ + spec_call(context, *statement),
    decreases statement, 1nat,
{
    match &statement.kind {
        AstKind::CallStatement { operator, parameters } => {
            visit_statement(validator, operator, context);
            match context.annotations.find_called_pou(operator, context.index) {
                Some(pou) => {
                    let declared = context.index.get_declared_parameters(pou);
                    let mut slots: Vec<usize> = Vec::new();
                    match parameters {
                        Some(p) => match &p.kind {
                            AstKind::ExpressionList { expressions } => {
                                validate_arguments(validator, expressions, &declared, &mut slots, context);
                                assert(slots@ =~= spec_call_slots(expressions@, deref_all(declared@)));
                            },
                            _ => {
                                validate_argument(validator, p, 0, true, &declared, &mut slots, context);
                                proof {
                                    let d = deref_all(declared@);
                                    let single = seq![**p];
                                    assert(single.drop_last() =~= Seq::<AstStatement>::empty());
                                    assert(spec_call_slots(single.drop_last(), d) =~= Seq::<usize>::empty());
                                    assert(single.last() == **p);
                                    assert(spec_call_slots(single, d) == spec_call_slots(single.drop_last(), d)
                                        + match spec_call_parameter(**p, d, 0) {
                                        Some((slot, _)) => seq![slot],
                                        None => seq![],
                                    });
                                    assert(slots@ =~= spec_call_slots(single, d));
                                }
                            },
                        },
                        None => {
                            assert(slots@ =~= Seq::<usize>::empty());
                        },
                    }
                    validate_inout_parameters(validator, pou, &declared, &slots, operator.location);
                },
                None => match parameters {
                    Some(p) => visit_statement(validator, p, context),
                    None => {},
                },
            }
            assert(validator@ =~= old(validator)@ + spec_call(context, *statement));
        },
        _ => {
            assert(validator@ =~= old(validator)@ + seq![]);
        },
    }
}

// ---------------------------------------------------------------------------------------
// Case statements
// ---------------------------------------------------------------------------------------

/// The integer values the labels of `blocks` evaluate to, in order.
pub open spec fn spec_case_values(ctx: &ValidationContext, blocks: Seq<ConditionalBlock>) -> Seq<i128>
    decreases blocks.len(),
{
    if blocks.len() == 0 {
        seq![]
    } else {
        spec_case_values(ctx, blocks.drop_last()) + match spec_evaluate(ctx, *blocks.last().condition) {
            Ok(ConstValue::Integer(v)) => seq![v],
            _ => seq![],
        }
    }
}

/// A case label may not be an assignment or a call, must be constant, and must not repeat
/// an integer value of an earlier label (`seen`).
pub open spec fn spec_case_label(ctx: &ValidationContext, condition: AstStatement, seen: Seq<i128>) -> Seq<DiagnosticView> {
    let shape = if matches!(condition.kind, AstKind::Assignment { .. } | AstKind::CallStatement { .. }) {
        one(DiagnosticKind::InvalidCaseCondition, condition.location, seq![])
    } else {
        seq![]
    };
    let value = match spec_evaluate(ctx, condition) {
        Err(e) => one(DiagnosticKind::NonConstantCaseCondition, condition.location, seq![ArgView::Evaluation(e)]),
        Ok(ConstValue::Integer(v)) => if seen.contains(v) {
            one(DiagnosticKind::DuplicateCaseCondition, condition.location, seq![ArgView::Number(v)])
        } else {
            seq![]
        },
        Ok(ConstValue::Other) => seq![],
    };
    shape + value
}

fn contains_value(values: &Vec<i128>, v: i128) -> (r: bool)
    ensures
        r == values@.contains(v),
{
    let mut i: usize = 0;
    while i < values.len()
        invariant
            i <= values@.len(),
            forall|j: int| 0 <= j < i ==> values@[j] != v,
        decreases values.len() - i,
    {
        if values[i] == v {
            return true;
        }
        i = i + 1;
    }
    false
}

fn validate_case_label(validator: &mut Validator, condition: &AstStatement, seen: &mut Vec<i128>, context: &ValidationContext)
    ensures
        final(validator)@ == old(validator)@ + spec_case_label(context, *condition, old(seen)@),
        final(seen)@ == old(seen)@ + match spec_evaluate(context, *condition) {
            Ok(ConstValue::Integer(v)) => seq![v],
            _ => seq![],
        },
{
    if matches!(condition.kind, AstKind::Assignment { .. } | AstKind::CallStatement { .. }) {
        emit(validator, DiagnosticKind::InvalidCaseCondition, condition.location, no_args());
    }
    match evaluate(condition, context) {
        Err(e) => {
            emit(validator, DiagnosticKind::NonConstantCaseCondition, condition.location,
                one_arg(DiagnosticArg::Evaluation(e)));
            assert(seen@ =~= old(seen)@ + seq![]);
        },
        Ok(ConstValue::Integer(v)) => {
            if contains_value(seen, v) {
                emit(validator, DiagnosticKind::DuplicateCaseCondition, condition.location,
                    one_arg(DiagnosticArg::Number(v)));
            }
            seen.push(v);
            assert(seen@ =~= old(seen)@ + seq![v]);
        },
        Ok(ConstValue::Other) => {
            assert(seen@ =~= old(seen)@ + seq![]);
        },
    }
    assert(validator@ =~= old(validator)@ + spec_case_label(context, *condition, old(seen)@));
}

/// The blocks of a case statement: each label's checks, then the label and the body.
pub open spec fn spec_case_blocks(ctx: &ValidationContext, blocks: Seq<ConditionalBlock>) -> Seq<DiagnosticView>
    decreases blocks, 0nat,
{
    if blocks.len() == 0 {
        seq![]
    } else {
        let b = blocks[blocks.len() - 1];
        spec_case_blocks(ctx, blocks.drop_last())
            + spec_case_label(ctx, *b.condition, spec_case_values(ctx, blocks.drop_last()))
            + spec_visit(ctx, *b.condition) + spec_visit_all(ctx, b.body@)
    }
}

fn validate_case_blocks(validator: &mut Validator, blocks: &Vec<ConditionalBlock>, context: &ValidationContext)
    ensures
        final(validator)@ == old(validator)@ + spec_case_blocks(context, blocks@),
    decreases blocks, 0nat,
{
    let mut seen: Vec<i128> = Vec::new();
    let mut i: usize = 0;
    assert(validator@ =~= old(validator)@ + spec_case_blocks(context, blocks@.subrange(0, 0)));
    assert(seen@ =~= spec_case_values(context, blocks@.subrange(0, 0)));
    while i < blocks.len()
        invariant
            i <= blocks@.len(),
            seen@ == spec_case_values(context, blocks@.subrange(0, i as int)),
            validator@ == old(validator)@ + spec_case_blocks(context, blocks@.subrange(0, i as int)),
        decreases blocks.len() - i,
    {
        let b = &blocks[i];
        validate_case_label(validator, &b.condition, &mut seen, context);
        visit_statement(validator, &b.condition, context);
        visit_all(validator, &b.body, context);
        let ghost prefix = blocks@.subrange(0, i as int + 1);
        assert(prefix.drop_last() =~= blocks@.subrange(0, i as int));
        assert(validator@ =~= old(validator)@ + spec_case_blocks(context, prefix));
        assert(seen@ =~= spec_case_values(context, prefix));
        i = i + 1;
    }
    assert(blocks@.subrange(0, blocks@.len() as int) =~= blocks@);
}

/// A case statement: the selector, the blocks, then the `ELSE` statements.
pub open spec fn spec_case(ctx: &ValidationContext, s: AstStatement) -> Seq<DiagnosticView>
    decreases s, 1nat,
{
    match s.kind {
        AstKind::CaseStatement { selector, case_blocks, else_block } => spec_visit(ctx, *selector)
            + spec_case_blocks(ctx, case_blocks@) + spec_visit_all(ctx, else_block@),
        _ => seq![],
    }
}

fn validate_case_statement(validator: &mut Validator, statement: &AstStatement, context: &ValidationContext)
    ensures
        final(validator)@ == old(validator)@ + spec_case(context, *statement),
    decreases statement, 1nat,
{
    match &statement.kind {
        AstKind::CaseStatement { selector, case_blocks, else_block } => {
            visit_statement(validator, selector, context);
            validate_case_blocks(validator, case_blocks, context);
            visit_all(validator, else_block, context);
            assert(validator@ =~= old(validator)@ + spec_case(context, *statement));
        },
        _ => {
            assert(validator@ =~= old(validator)@ + seq![]);
        },
    }
}

// ---------------------------------------------------------------------------------------
// The walk
// ---------------------------------------------------------------------------------------

/// The statements of a list, in order.
pub open spec fn spec_visit_all(ctx: &ValidationContext, statements: Seq<AstStatement>) -> Seq<DiagnosticView>
    decreases statements, 0nat,
{
    if statements.len() == 0 {
        seq![]
    } else {
        spec_visit_all(ctx, statements.drop_last()) + spec_visit(ctx, statements[statements.len() - 1])
    }
}

/// The branches of an `IF`: each condition, then its body.
pub open spec fn spec_if_blocks(ctx: &ValidationContext, blocks: Seq<ConditionalBlock>) -> Seq<DiagnosticView>
    decreases blocks, 0nat,
{
    if blocks.len() == 0 {
        seq![]
    } else {
        let b = blocks[blocks.len() - 1];
        spec_if_blocks(ctx, blocks.drop_last()) + spec_visit(ctx, *b.condition) + spec_visit_all(ctx, b.body@)
    }
}

/// All diagnostics of a node and what it contains: the node's own rules (with its
/// children visited first where the rule reads them), then the type-nature check.
pub open spec fn spec_visit(ctx: &ValidationContext, s: AstStatement) -> Seq<DiagnosticView>
    decreases s, 3nat,
{
    spec_visit_rules(ctx, s) + spec_type_nature(ctx, s)
}

/// The diagnostics of a node before its type-nature check.
pub open spec fn spec_visit_rules(ctx: &ValidationContext, s: AstStatement) -> Seq<DiagnosticView>
    decreases s, 2nat,
{
    match s.kind {
        AstKind::LiteralArray { elements: Some(elements) } => spec_visit(ctx, *elements),
        AstKind::CastStatement { data_type, target } => spec_visit(ctx, *target)
            + spec_cast_literal(ctx, *target, data_type@, s.location),
        AstKind::MultipliedStatement { element, .. } => spec_visit(ctx, *element),
        AstKind::QualifiedReference { elements } => spec_visit_all(ctx, elements@)
            + spec_qualified_reference(ctx, elements@),
        AstKind::Reference { name } => spec_reference(ctx, s, name@),
        AstKind::ArrayAccess { reference, access } => spec_visit(ctx, *reference) + spec_visit(ctx, *access)
            + spec_array_access(ctx, *reference, *access),
        AstKind::PointerAccess { reference } => spec_visit(ctx, *reference),
        AstKind::DirectAccess { index, .. } => spec_visit(ctx, *index),
        AstKind::BinaryExpression { operator, left, right } => spec_visit(ctx, *left) + spec_visit(ctx, *right)
            + spec_visit_binary_expression(ctx, s, operator, *left, *right),
        AstKind::UnaryExpression { operator, value } => spec_visit(ctx, *value)
            + spec_unary_expression(operator, *value, s.location),
        AstKind::ExpressionList { expressions } => spec_visit_all(ctx, expressions@),
        AstKind::RangeStatement { start, end } => spec_visit(ctx, *start) + spec_visit(ctx, *end),
        AstKind::Assignment { left, right } => spec_visit(ctx, *left) + spec_visit(ctx, *right)
            + spec_assignment(ctx, *right, Some(*left), s.location),
        AstKind::OutputAssignment { left, right } => spec_visit(ctx, *left) + spec_visit(ctx, *right)
            + spec_assignment(ctx, *right, Some(*left), s.location),
        AstKind::CallStatement { .. } => spec_call(ctx, s),
        AstKind::IfStatement { blocks, else_block } => spec_if_blocks(ctx, blocks@) + spec_visit_all(ctx, else_block@),
        AstKind::ForLoopStatement { counter, start, end, by_step, body } => spec_visit(ctx, *counter)
            + spec_visit(ctx, *start) + spec_visit(ctx, *end) + match by_step {
            Some(step) => spec_visit(ctx, *step),
            None => seq![],
        } + spec_visit_all(ctx, body@),
        AstKind::WhileLoopStatement { condition, body } => spec_visit(ctx, *condition) + spec_visit_all(ctx, body@),
        AstKind::RepeatLoopStatement { condition, body } => spec_visit(ctx, *condition) + spec_visit_all(ctx, body@),
        AstKind::CaseStatement { .. } => spec_case(ctx, s),
        AstKind::CaseCondition { condition } => one(DiagnosticKind::CaseConditionOutsideCaseStatement,
            condition.location, seq![]) + spec_visit(ctx, *condition),
        _ => seq![],
    }
}

fn visit_all(validator: &mut Validator, statements: &Vec<AstStatement>, context: &ValidationContext)
    ensures
        final(validator)@ == old(validator)@ + spec_visit_all(context, statements@),
    decreases statements, 0nat,
{
    let mut i: usize = 0;
    assert(validator@ =~= old(validator)@ + spec_visit_all(context, statements@.subrange(0, 0)));
    while i < statements.len()
        invariant
            i <= statements@.len(),
            validator@ == old(validator)@ + spec_visit_all(context, statements@.subrange(0, i as int)),
        decreases statements.len() - i,
    {
        visit_statement(validator, &statements[i], context);
        let ghost prefix = statements@.subrange(0, i as int + 1);
        assert(prefix.drop_last() =~= statements@.subrange(0, i as int));
        assert(validator@ =~= old(validator)@ + spec_visit_all(context, prefix));
        i = i + 1;
    }
    assert(statements@.subrange(0, statements@.len() as int) =~= statements@);
}

fn visit_if_blocks(validator: &mut Validator, blocks: &Vec<ConditionalBlock>, context: &ValidationContext)
    ensures
        final(validator)@ == old(validator)@ + spec_if_blocks(context, blocks@),
    decreases blocks, 0nat,
{
    let mut i: usize = 0;
    assert(validator@ =~= old(validator)@ + spec_if_blocks(context, blocks@.subrange(0, 0)));
    while i < blocks.len()
        invariant
            i <= blocks@.len(),
            validator@ == old(validator)@ + spec_if_blocks(context, blocks@.subrange(0, i as int)),
        decreases blocks.len() - i,
    {
        visit_statement(validator, &blocks[i].condition, context);
        visit_all(validator, &blocks[i].body, context);
        let ghost prefix = blocks@.subrange(0, i as int + 1);
        assert(prefix.drop_last() =~= blocks@.subrange(0, i as int));
        assert(validator@ =~= old(validator)@ + spec_if_blocks(context, prefix));
        i = i + 1;
    }
    assert(blocks@.subrange(0, blocks@.len() as int) =~= blocks@);
}

#[verifier::spinoff_prover]
#[verifier::rlimit(60)]
fn visit_statement_rules(validator: &mut Validator, statement: &AstStatement, context: &ValidationContext)
    ensures
        final(validator)@ == old(validator)@ + spec_visit_rules(context, *statement),
    decreases statement, 2nat,
{
    let ghost start = validator@;
    match &statement.kind {
        AstKind::LiteralArray { elements: Some(elements) } => visit_statement(validator, elements, context),
        AstKind::CastStatement { data_type, target } => {
            visit_statement(validator, target, context);
            validate_cast_literal(validator, target, data_type, statement.location, context);
            assert(validator@ =~= start + spec_visit_rules(context, *statement));
        },
        AstKind::PointerAccess { reference } => visit_statement(validator, reference, context),
        AstKind::DirectAccess { index, .. } => visit_statement(validator, index, context),
        AstKind::MultipliedStatement { element, .. } => visit_statement(validator, element, context),
        AstKind::QualifiedReference { elements } => {
            visit_all(validator, elements, context);
            validate_qualified_reference(validator, elements, context);
            assert(validator@ =~= start + spec_visit_rules(context, *statement));
        },
        AstKind::Reference { name } => validate_reference(validator, statement, name, context),
        AstKind::ArrayAccess { reference, access } => {
            visit_statement(validator, reference, context);
            visit_statement(validator, access, context);
            visit_array_access(validator, reference, access, context);
            assert(validator@ =~= start + spec_visit_rules(context, *statement));
        },
        AstKind::BinaryExpression { operator, left, right } => {
            visit_statement(validator, left, context);
            visit_statement(validator, right, context);
            visit_binary_expression(validator, statement, *operator, left, right, context);
            assert(validator@ =~= start + spec_visit_rules(context, *statement));
        },
        AstKind::UnaryExpression { operator, value } => {
            visit_statement(validator, value, context);
            validate_unary_expression(validator, *operator, value, statement.location);
            assert(validator@ =~= start + spec_visit_rules(context, *statement));
        },
        AstKind::ExpressionList { expressions } => visit_all(validator, expressions, context),
        AstKind::RangeStatement { start: first, end } => {
            visit_statement(validator, first, context);
            visit_statement(validator, end, context);
            assert(validator@ =~= start + spec_visit_rules(context, *statement));
        },
        AstKind::Assignment { left, right } => {
            visit_statement(validator, left, context);
            visit_statement(validator, right, context);
            validate_assignment(validator, right, Some(&**left), statement.location, context);
            assert(validator@ =~= start + spec_visit_rules(context, *statement));
        },
        AstKind::OutputAssignment { left, right } => {
            visit_statement(validator, left, context);
            visit_statement(validator, right, context);
            validate_assignment(validator, right, Some(&**left), statement.location, context);
            assert(validator@ =~= start + spec_visit_rules(context, *statement));
        },
        AstKind::CallStatement { .. } => validate_call(validator, statement, context),
        AstKind::IfStatement { blocks, else_block } => {
            visit_if_blocks(validator, blocks, context);
            visit_all(validator, else_block, context);
            assert(validator@ =~= start + spec_visit_rules(context, *statement));
        },
        AstKind::ForLoopStatement { counter, start: first, end, by_step, body } => {
            visit_statement(validator, counter, context);
            visit_statement(validator, first, context);
            visit_statement(validator, end, context);
            let ghost before_step = validator@;
            if let Some(step) = by_step {
                visit_statement(validator, step, context);
            } else {
                assert(validator@ =~= before_step + seq![]);
            }
            visit_all(validator, body, context);
            assert(validator@ =~= start + spec_visit_rules(context, *statement));
        },
        AstKind::WhileLoopStatement { condition, body } => {
            visit_statement(validator, condition, context);
            visit_all(validator, body, context);
            assert(validator@ =~= start + spec_visit_rules(context, *statement));
        },
        AstKind::RepeatLoopStatement { condition, body } => {
            visit_statement(validator, condition, context);
            visit_all(validator, body, context);
            assert(validator@ =~= start + spec_visit_rules(context, *statement));
        },
        AstKind::CaseStatement { .. } => validate_case_statement(validator, statement, context),
        AstKind::CaseCondition { condition } => {
            emit(validator, DiagnosticKind::CaseConditionOutsideCaseStatement, condition.location, no_args());
            visit_statement(validator, condition, context);
            assert(validator@ =~= start + spec_visit_rules(context, *statement));
        },
        _ => {
            assert(validator@ =~= start + spec_visit_rules(context, *statement));
        },
    }
}

/// Validates a statement and everything it contains, appending to the sink exactly the
/// diagnostics of `spec_visit`, in that order. Nothing else is changed.
pub fn visit_statement(validator: &mut Validator, statement: &AstStatement, context: &ValidationContext)
    ensures
        final(validator)@ == old(validator)@ + spec_visit(context, *statement),
    decreases statement, 3nat,
{
    visit_statement_rules(validator, statement, context);
    validate_type_nature(validator, statement, context);
    assert(validator@ =~= old(validator)@ + spec_visit(context, *statement));
}

} // verus!
