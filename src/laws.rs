//! Laws that the validator obeys, proved over the spec functions that `visit_statement`
//! is verified against.
use vstd::prelude::*;
use crate::annotations::StatementAnnotation;
use crate::ast::{AstKind, AstStatement, ConditionalBlock, Operator, SourceRange};
use crate::const_eval::{spec_evaluate, ConstValue};
use crate::diagnostics::{ArgView, DiagnosticKind, DiagnosticView};
use crate::context::{hint_of, type_of, ValidationContext};
use crate::index::{parameters_of, Index, VariableIndexEntry};
use crate::statement::{
    one, spec_argument_mode, spec_array_access, spec_array_indexes, spec_assignment, spec_assignment_target,
    spec_assignment_types, spec_call, spec_call_argument, spec_call_arguments, spec_call_by_ref,
    spec_call_parameter, spec_case, spec_case_blocks, spec_case_label, spec_case_values, spec_cast_literal,
    spec_if_blocks, spec_invalid_pointer, spec_inout_check, spec_missing_inouts, spec_qualified_reference,
    spec_reference, spec_type_nature, spec_unary_expression, spec_visit, spec_visit_all,
    spec_visit_binary_expression, spec_visit_rules,
};
use crate::typesystem::{DataType, DataTypeInformation, Dimension, TypeNature, POINTER_SIZE};

verus! {

/// How many diagnostics of `ds` are of the given kind.
pub open spec fn count_kind(ds: Seq<DiagnosticView>, kind: DiagnosticKind) -> nat
    decreases ds.len(),
{
    if ds.len() == 0 {
        0
    } else {
        count_kind(ds.drop_last(), kind) + if ds.last().kind == kind {
            1nat
        } else {
            0nat
        }
    }
}

/// Counting distributes over concatenation.
pub proof fn lemma_count_add(a: Seq<DiagnosticView>, b: Seq<DiagnosticView>, kind: DiagnosticKind)
    ensures
        count_kind(a + b, kind) == count_kind(a, kind) + count_kind(b, kind),
    decreases b.len(),
{
    if b.len() == 0 {
        assert(a + b =~= a);
    } else {
        lemma_count_add(a, b.drop_last(), kind);
        assert((a + b).drop_last() =~= a + b.drop_last());
    }
}

/// A sequence with no diagnostic of a kind counts none of it.
pub proof fn lemma_count_absent(ds: Seq<DiagnosticView>, kind: DiagnosticKind)
    requires
        forall|i: int| 0 <= i < ds.len() ==> ds[i].kind != kind,
    ensures
        count_kind(ds, kind) == 0,
    decreases ds.len(),
{
    if ds.len() > 0 {
        lemma_count_absent(ds.drop_last(), kind);
    }
}

pub proof fn lemma_count_one(d: DiagnosticView, kind: DiagnosticKind)
    ensures
        count_kind(seq![d], kind) == if d.kind == kind { 1nat } else { 0nat },
{
    assert(seq![d].drop_last() =~= Seq::<DiagnosticView>::empty());
    assert(count_kind(Seq::<DiagnosticView>::empty(), kind) == 0);
    assert(seq![d].last() == d);
}

/// Determinism: two runs on the same statement and context append the same diagnostics,
/// whatever the sinks held before, so in particular the same multiset of them.
pub proof fn lemma_visit_deterministic(
    ctx: &ValidationContext,
    s: AstStatement,
    before1: Seq<DiagnosticView>,
    after1: Seq<DiagnosticView>,
    before2: Seq<DiagnosticView>,
    after2: Seq<DiagnosticView>,
)
    requires
        after1 == before1 + spec_visit(ctx, s),
        after2 == before2 + spec_visit(ctx, s),
    ensures
        after1.subrange(before1.len() as int, after1.len() as int)
            == after2.subrange(before2.len() as int, after2.len() as int),
        after1.subrange(before1.len() as int, after1.len() as int).to_multiset()
            == after2.subrange(before2.len() as int, after2.len() as int).to_multiset(),
{
    assert(after1.subrange(before1.len() as int, after1.len() as int) =~= spec_visit(ctx, s));
    assert(after2.subrange(before2.len() as int, after2.len() as int) =~= spec_visit(ctx, s));
}

/// Idempotence: validating the same statement twice in a row appends the same
/// diagnostics the second time as the first.
pub proof fn lemma_visit_idempotent(
    ctx: &ValidationContext,
    s: AstStatement,
    v0: Seq<DiagnosticView>,
    v1: Seq<DiagnosticView>,
    v2: Seq<DiagnosticView>,
)
    requires
        v1 == v0 + spec_visit(ctx, s),
        v2 == v1 + spec_visit(ctx, s),
    ensures
        v2.subrange(v1.len() as int, v2.len() as int) == v1.subrange(v0.len() as int, v1.len() as int),
        v2 == v0 + spec_visit(ctx, s) + spec_visit(ctx, s),
{
    assert(v2.subrange(v1.len() as int, v2.len() as int) =~= spec_visit(ctx, s));
    assert(v1.subrange(v0.len() as int, v1.len() as int) =~= spec_visit(ctx, s));
}

/// Pointer width: assigning an integer variable to a pointer is reported as an
/// incompatible type size, and only that, when the integer is narrower than a pointer;
/// an integer at least as wide as a pointer is not reported so.
pub proof fn lemma_pointer_size(
    ctx: &ValidationContext,
    right: AstStatement,
    location: SourceRange,
    pointer: DataType,
    integer: DataType,
)
    requires
        hint_of(ctx, right) == Some(pointer),
        type_of(ctx, right) == Some(integer),
        pointer.information matches DataTypeInformation::Pointer { auto_deref, .. } && !auto_deref,
        pointer.nature == TypeNature::Any,
        integer.information is Integer,
    ensures
        ctx.index.spec_size_in_bits(integer) < POINTER_SIZE ==> spec_assignment_types(ctx, right, location)
            == one(DiagnosticKind::IncompatibleTypeSize, location, seq![
            ArgView::Text(integer.name@),
            ArgView::Number(ctx.index.spec_size_in_bits(integer) as i128),
            ArgView::Text("to be stored in a"@),
        ]),
        ctx.index.spec_size_in_bits(integer) >= POINTER_SIZE ==> count_kind(
            spec_assignment_types(ctx, right, location),
            DiagnosticKind::IncompatibleTypeSize,
        ) == 0,
{
    let index = *ctx.index;
    assert(crate::statement::spec_assignment_target_type(ctx, pointer) == pointer);
    assert(pointer.spec_is_compatible_with_type(&integer));
    assert(crate::statement::spec_string_to_char(pointer, integer, right, location) == (false, Seq::<DiagnosticView>::empty()));
    assert(!crate::statement::spec_invalid_char(pointer, integer));
    assert(!crate::statement::spec_aggregate_to_none_aggregate(pointer, integer));
    assert(!crate::statement::spec_aggregate_type_mismatch(index, pointer, integer));
    if index.spec_size_in_bits(integer) < POINTER_SIZE {
        let d = one(DiagnosticKind::IncompatibleTypeSize, location, seq![
            ArgView::Text(integer.name@),
            ArgView::Number(index.spec_size_in_bits(integer) as i128),
            ArgView::Text("to be stored in a"@),
        ]);
        assert(crate::statement::spec_invalid_pointer(index, pointer, integer, location) == (true, d));
        assert(Seq::<DiagnosticView>::empty() + d =~= d);
        assert(crate::statement::spec_is_valid_assignment(index, pointer, integer, right, location) == (false, d));
    } else {
        assert(crate::statement::spec_invalid_pointer(index, pointer, integer, location) == (false, Seq::<DiagnosticView>::empty()));
        let e = Seq::<DiagnosticView>::empty();
        assert(e + e =~= e);
        assert(crate::statement::spec_is_valid_assignment(index, pointer, integer, right, location) == (true, e));
        let sizes = crate::statement::spec_assignment_type_sizes(index, pointer, integer, location);
        assert(e + sizes =~= sizes);
        lemma_count_absent(spec_assignment_types(ctx, right, location), DiagnosticKind::IncompatibleTypeSize);
    }
}

/// Fan-out of `<>`: it reports exactly what `=` on the same operands reports.
pub proof fn lemma_not_equal_fan_out(
    ctx: &ValidationContext,
    id: usize,
    location: SourceRange,
    left: Box<AstStatement>,
    right: Box<AstStatement>,
)
    ensures
        spec_visit(ctx, AstStatement {
            kind: AstKind::BinaryExpression { operator: Operator::NotEqual, left, right },
            location,
            id,
        }) == spec_visit(ctx, AstStatement {
            kind: AstKind::BinaryExpression { operator: Operator::Equal, left, right },
            location,
            id,
        }),
{
    let ne = AstStatement { kind: AstKind::BinaryExpression { operator: Operator::NotEqual, left, right }, location, id };
    let eq = AstStatement { kind: AstKind::BinaryExpression { operator: Operator::Equal, left, right }, location, id };
    assert(spec_visit_rules(ctx, ne) == spec_visit_rules(ctx, eq));
    assert(spec_type_nature(ctx, ne) == spec_type_nature(ctx, eq));
}

/// A diagnostic of `p + (g + e) + n` occurs in `p + g + n` or in `p + e + n`.
proof fn lemma_in_union(
    p: Seq<DiagnosticView>,
    g: Seq<DiagnosticView>,
    e: Seq<DiagnosticView>,
    n: Seq<DiagnosticView>,
)
    ensures
        forall|d: DiagnosticView| #[trigger] (p + (g + e) + n).contains(d)
            ==> (p + g + n).contains(d) || (p + e + n).contains(d),
{
    assert forall|d: DiagnosticView| #[trigger] (p + (g + e) + n).contains(d)
        implies (p + g + n).contains(d) || (p + e + n).contains(d) by {
        let a = p + (g + e) + n;
        let i = choose|i: int| 0 <= i < a.len() && a[i] == d;
        let b = p + g + n;
        let c = p + e + n;
        if i < p.len() {
            assert(b[i] == d);
        } else if i < p.len() + g.len() {
            assert(b[i] == d);
        } else if i < p.len() + g.len() + e.len() {
            assert(c[i - g.len()] == d);
        } else {
            assert(b[i - e.len()] == d);
        }
    }
}

pub open spec fn binary(operator: Operator, left: Box<AstStatement>, right: Box<AstStatement>, location: SourceRange, id: usize) -> AstStatement {
    AstStatement { kind: AstKind::BinaryExpression { operator, left, right }, location, id }
}

/// Fan-out of `>=` and `<=`: each reports nothing that `>` (or `<`) or `=` on the same
/// operands would not report.
pub proof fn lemma_ordering_fan_out(
    ctx: &ValidationContext,
    id: usize,
    location: SourceRange,
    left: Box<AstStatement>,
    right: Box<AstStatement>,
)
    ensures
        forall|d: DiagnosticView| #[trigger] spec_visit(ctx, binary(Operator::GreaterOrEqual, left, right, location, id)).contains(d)
            ==> spec_visit(ctx, binary(Operator::Greater, left, right, location, id)).contains(d)
            || spec_visit(ctx, binary(Operator::Equal, left, right, location, id)).contains(d),
        forall|d: DiagnosticView| #[trigger] spec_visit(ctx, binary(Operator::LessOrEqual, left, right, location, id)).contains(d)
            ==> spec_visit(ctx, binary(Operator::Less, left, right, location, id)).contains(d)
            || spec_visit(ctx, binary(Operator::Equal, left, right, location, id)).contains(d),
{
    let shared = spec_visit(ctx, *left) + spec_visit(ctx, *right);
    let ge = binary(Operator::GreaterOrEqual, left, right, location, id);
    let gt = binary(Operator::Greater, left, right, location, id);
    let le = binary(Operator::LessOrEqual, left, right, location, id);
    let lt = binary(Operator::Less, left, right, location, id);
    let eq = binary(Operator::Equal, left, right, location, id);
    let n = spec_type_nature(ctx, ge);
    assert(spec_type_nature(ctx, gt) == n);
    assert(spec_type_nature(ctx, le) == n);
    assert(spec_type_nature(ctx, lt) == n);
    assert(spec_type_nature(ctx, eq) == n);
    let g = crate::statement::spec_binary_expression(ctx, ge, Operator::Greater, *left, *right);
    let l = crate::statement::spec_binary_expression(ctx, le, Operator::Less, *left, *right);
    let e = crate::statement::spec_binary_expression(ctx, ge, Operator::Equal, *left, *right);
    assert(crate::statement::spec_binary_expression(ctx, gt, Operator::Greater, *left, *right) == g);
    assert(crate::statement::spec_binary_expression(ctx, lt, Operator::Less, *left, *right) == l);
    assert(crate::statement::spec_binary_expression(ctx, eq, Operator::Equal, *left, *right) == e);
    assert(crate::statement::spec_binary_expression(ctx, le, Operator::Equal, *left, *right) == e);
    assert(spec_visit(ctx, ge) =~= shared + (g + e) + n);
    assert(spec_visit(ctx, gt) =~= shared + g + n);
    assert(spec_visit(ctx, le) =~= shared + (l + e) + n);
    assert(spec_visit(ctx, lt) =~= shared + l + n);
    assert(spec_visit(ctx, eq) =~= shared + e + n);
    lemma_in_union(shared, g, e, n);
    lemma_in_union(shared, l, e, n);
}

/// The number of case labels whose integer value an earlier label already has.
pub open spec fn repeated_labels(ctx: &ValidationContext, blocks: Seq<ConditionalBlock>) -> nat
    decreases blocks.len(),
{
    if blocks.len() == 0 {
        0
    } else {
        repeated_labels(ctx, blocks.drop_last()) + match spec_evaluate(ctx, *blocks.last().condition) {
            Ok(ConstValue::Integer(v)) => if spec_case_values(ctx, blocks.drop_last()).contains(v) {
                1nat
            } else {
                0nat
            },
            _ => 0nat,
        }
    }
}

/// Case uniqueness: the blocks of a case statement report one duplicate per label whose
/// value an earlier label has, when no label or body reports duplicates of its own.
pub proof fn lemma_case_duplicates(ctx: &ValidationContext, blocks: Seq<ConditionalBlock>)
    requires
        forall|i: int| 0 <= i < blocks.len() ==> count_kind(spec_visit(ctx, *#[trigger] blocks[i].condition),
            DiagnosticKind::DuplicateCaseCondition) == 0,
        forall|i: int| 0 <= i < blocks.len() ==> count_kind(spec_visit_all(ctx, #[trigger] blocks[i].body@),
            DiagnosticKind::DuplicateCaseCondition) == 0,
    ensures
        count_kind(spec_case_blocks(ctx, blocks), DiagnosticKind::DuplicateCaseCondition) == repeated_labels(ctx, blocks),
    decreases blocks.len(),
{
    let k = DiagnosticKind::DuplicateCaseCondition;
    if blocks.len() > 0 {
        let prefix = blocks.drop_last();
        let b = blocks[blocks.len() - 1];
        assert forall|i: int| 0 <= i < prefix.len() implies count_kind(spec_visit(ctx, *#[trigger] prefix[i].condition), k) == 0 by {
            assert(prefix[i] == blocks[i]);
        }
        assert forall|i: int| 0 <= i < prefix.len() implies count_kind(spec_visit_all(ctx, #[trigger] prefix[i].body@), k) == 0 by {
            assert(prefix[i] == blocks[i]);
        }
        lemma_case_duplicates(ctx, prefix);
        let label = spec_case_label(ctx, *b.condition, spec_case_values(ctx, prefix));
        let cond = spec_visit(ctx, *b.condition);
        let body = spec_visit_all(ctx, b.body@);
        assert(spec_case_blocks(ctx, blocks) == spec_case_blocks(ctx, prefix) + label + cond + body);
        lemma_count_add(spec_case_blocks(ctx, prefix) + label + cond, body, k);
        lemma_count_add(spec_case_blocks(ctx, prefix) + label, cond, k);
        lemma_count_add(spec_case_blocks(ctx, prefix), label, k);
        let shape = if matches!(b.condition.kind, AstKind::Assignment { .. } | AstKind::CallStatement { .. }) {
            one(DiagnosticKind::InvalidCaseCondition, b.condition.location, seq![])
        } else {
            seq![]
        };
        let value = label.subrange(shape.len() as int, label.len() as int);
        assert(label =~= shape + value);
        lemma_count_add(shape, value, k);
        lemma_count_absent(shape, k);
        match spec_evaluate(ctx, *b.condition) {
            Ok(ConstValue::Integer(v)) => {
                if spec_case_values(ctx, prefix).contains(v) {
                    assert(value =~= seq![value[0]]);
                    lemma_count_one(value[0], k);
                } else {
                    lemma_count_absent(value, k);
                }
            },
            Err(_) => {
                assert(value =~= seq![value[0]]);
                lemma_count_one(value[0], k);
            },
            Ok(ConstValue::Other) => {
                lemma_count_absent(value, k);
            },
        }
    }
}

/// The integer values of the labels are pairwise distinct.
pub open spec fn distinct_integer_labels(ctx: &ValidationContext, blocks: Seq<ConditionalBlock>) -> bool {
    &&& forall|i: int| 0 <= i < blocks.len() ==> (#[trigger] spec_evaluate(ctx, *blocks[i].condition)) is Ok
        && spec_evaluate(ctx, *blocks[i].condition)->Ok_0 is Integer
    &&& forall|i: int, j: int| 0 <= i < j < blocks.len()
        ==> spec_evaluate(ctx, *blocks[i].condition) != spec_evaluate(ctx, *blocks[j].condition)
}

/// A value among the labels' values is the value of one of the labels.
proof fn lemma_case_value_source(ctx: &ValidationContext, blocks: Seq<ConditionalBlock>, v: i128)
    requires
        spec_case_values(ctx, blocks).contains(v),
    ensures
        exists|i: int| 0 <= i < blocks.len() && spec_evaluate(ctx, *blocks[i].condition) == Ok::<ConstValue, crate::const_eval::EvalError>(ConstValue::Integer(v)),
    decreases blocks.len(),
{
    let prefix = blocks.drop_last();
    let last = match spec_evaluate(ctx, *blocks.last().condition) {
        Ok(ConstValue::Integer(x)) => seq![x],
        _ => seq![],
    };
    assert(spec_case_values(ctx, blocks) == spec_case_values(ctx, prefix) + last);
    let k = choose|k: int| 0 <= k < spec_case_values(ctx, blocks).len() && spec_case_values(ctx, blocks)[k] == v;
    if k < spec_case_values(ctx, prefix).len() {
        assert(spec_case_values(ctx, prefix)[k] == v);
        lemma_case_value_source(ctx, prefix, v);
        let i = choose|i: int| 0 <= i < prefix.len() && spec_evaluate(ctx, *prefix[i].condition) == Ok::<ConstValue, crate::const_eval::EvalError>(ConstValue::Integer(v));
        assert(blocks[i] == prefix[i]);
    } else {
        assert(spec_evaluate(ctx, *blocks[blocks.len() - 1].condition) == Ok::<ConstValue, crate::const_eval::EvalError>(ConstValue::Integer(v)));
    }
}

proof fn lemma_distinct_labels_repeat_none(ctx: &ValidationContext, blocks: Seq<ConditionalBlock>)
    requires
        distinct_integer_labels(ctx, blocks),
    ensures
        repeated_labels(ctx, blocks) == 0,
    decreases blocks.len(),
{
    if blocks.len() > 0 {
        let prefix = blocks.drop_last();
        assert forall|i: int| 0 <= i < prefix.len() implies (#[trigger] spec_evaluate(ctx, *prefix[i].condition)) is Ok
            && spec_evaluate(ctx, *prefix[i].condition)->Ok_0 is Integer by {
            assert(prefix[i] == blocks[i]);
            assert(spec_evaluate(ctx, *blocks[i].condition) is Ok);
        }
        assert forall|i: int, j: int| 0 <= i < j < prefix.len()
            implies spec_evaluate(ctx, *prefix[i].condition) != spec_evaluate(ctx, *prefix[j].condition) by {
            assert(prefix[i] == blocks[i]);
            assert(prefix[j] == blocks[j]);
        }
        lemma_distinct_labels_repeat_none(ctx, prefix);
        let n = (blocks.len() - 1) as int;
        assert(spec_evaluate(ctx, *blocks[n].condition) is Ok);
        match spec_evaluate(ctx, *blocks.last().condition) {
            Ok(ConstValue::Integer(v)) => {
                if spec_case_values(ctx, prefix).contains(v) {
                    lemma_case_value_source(ctx, prefix, v);
                    let i = choose|i: int| 0 <= i < prefix.len() && spec_evaluate(ctx, *prefix[i].condition) == Ok::<ConstValue, crate::const_eval::EvalError>(ConstValue::Integer(v));
                    assert(prefix[i] == blocks[i]);
                    assert(false);
                }
            },
            _ => {},
        }
    }
}

/// Case uniqueness: when all labels evaluate to pairwise distinct integers, and no label
/// or body reports duplicates of its own, no duplicate is reported.
pub proof fn lemma_distinct_case_labels(ctx: &ValidationContext, blocks: Seq<ConditionalBlock>)
    requires
        distinct_integer_labels(ctx, blocks),
        forall|i: int| 0 <= i < blocks.len() ==> count_kind(spec_visit(ctx, *#[trigger] blocks[i].condition),
            DiagnosticKind::DuplicateCaseCondition) == 0,
        forall|i: int| 0 <= i < blocks.len() ==> count_kind(spec_visit_all(ctx, #[trigger] blocks[i].body@),
            DiagnosticKind::DuplicateCaseCondition) == 0,
    ensures
        count_kind(spec_case_blocks(ctx, blocks), DiagnosticKind::DuplicateCaseCondition) == 0,
{
    lemma_case_duplicates(ctx, blocks);
    lemma_distinct_labels_repeat_none(ctx, blocks);
}


/// The pointer-width rule on its own: a non-pointer value assigned to a pointer is
/// rejected with an incompatible type size exactly when it is narrower than a pointer.
pub proof fn lemma_invalid_pointer_width(index: Index, pointer: DataType, value: DataType, location: SourceRange)
    requires
        pointer.information is Pointer,
        !(value.information is Pointer),
    ensures
        index.spec_size_in_bits(value) < POINTER_SIZE ==> spec_invalid_pointer(index, pointer, value, location)
            == (true, one(DiagnosticKind::IncompatibleTypeSize, location, seq![
            ArgView::Text(value.name@),
            ArgView::Number(index.spec_size_in_bits(value) as i128),
            ArgView::Text("to be stored in a"@),
        ])),
        index.spec_size_in_bits(value) >= POINTER_SIZE ==> spec_invalid_pointer(index, pointer, value, location)
            == (false, Seq::<DiagnosticView>::empty()),
{
}

// ---------------------------------------------------------------------------------------
// What every node of a tree is owed
// ---------------------------------------------------------------------------------------

/// The diagnostics of `ds` that are of the given kind, in order.
pub open spec fn only_kind(ds: Seq<DiagnosticView>, kind: DiagnosticKind) -> Seq<DiagnosticView>
    decreases ds.len(),
{
    if ds.len() == 0 {
        Seq::empty()
    } else {
        only_kind(ds.drop_last(), kind) + if ds.last().kind == kind {
            seq![ds.last()]
        } else {
            Seq::empty()
        }
    }
}

pub broadcast proof fn lemma_only_add(a: Seq<DiagnosticView>, b: Seq<DiagnosticView>, kind: DiagnosticKind)
    ensures
        #[trigger] only_kind(a + b, kind) == only_kind(a, kind) + only_kind(b, kind),
    decreases b.len(),
{
    if b.len() == 0 {
        assert(a + b =~= a);
        assert(only_kind(a, kind) + only_kind(b, kind) =~= only_kind(a, kind));
    } else {
        lemma_only_add(a, b.drop_last(), kind);
        assert((a + b).drop_last() =~= a + b.drop_last());
        assert((a + b).last() == b.last());
        let tail = if b.last().kind == kind { seq![b.last()] } else { Seq::<DiagnosticView>::empty() };
        assert(only_kind(a, kind) + only_kind(b.drop_last(), kind) + tail
            =~= only_kind(a, kind) + (only_kind(b.drop_last(), kind) + tail));
    }
}

pub proof fn lemma_only_absent(ds: Seq<DiagnosticView>, kind: DiagnosticKind)
    requires
        forall|i: int| 0 <= i < ds.len() ==> ds[i].kind != kind,
    ensures
        only_kind(ds, kind) == Seq::<DiagnosticView>::empty(),
    decreases ds.len(),
{
    if ds.len() > 0 {
        lemma_only_absent(ds.drop_last(), kind);
        assert(Seq::<DiagnosticView>::empty() + Seq::<DiagnosticView>::empty() =~= Seq::<DiagnosticView>::empty());
    }
}

pub proof fn lemma_only_one(d: DiagnosticView, kind: DiagnosticKind)
    ensures
        only_kind(seq![d], kind) == if d.kind == kind { seq![d] } else { Seq::<DiagnosticView>::empty() },
{
    assert(seq![d].drop_last() =~= Seq::<DiagnosticView>::empty());
    assert(only_kind(Seq::<DiagnosticView>::empty(), kind) == Seq::<DiagnosticView>::empty());
    assert(seq![d].last() == d);
    assert(Seq::<DiagnosticView>::empty() + seq![d] =~= seq![d]);
    assert(Seq::<DiagnosticView>::empty() + Seq::<DiagnosticView>::empty() =~= Seq::<DiagnosticView>::empty());
}

/// What a node owes by itself, of the given kind: an identifier without annotation is
/// owed an unresolved reference at its location; an assignment whose target is annotated
/// as a constant variable is owed a report at the target.
pub open spec fn node_reports(ctx: &ValidationContext, s: AstStatement, kind: DiagnosticKind) -> Seq<DiagnosticView> {
    match s.kind {
        AstKind::Reference { name } => if kind == DiagnosticKind::UnresolvedReference
            && !ctx.annotations.spec_has_type_annotation(s) {
            one(DiagnosticKind::UnresolvedReference, s.location, seq![ArgView::Text(name@)])
        } else {
            Seq::empty()
        },
        AstKind::Assignment { left, .. } => constant_target_report(ctx, *left, kind),
        AstKind::OutputAssignment { left, .. } => constant_target_report(ctx, *left, kind),
        _ => Seq::empty(),
    }
}

pub open spec fn constant_target_report(ctx: &ValidationContext, left: AstStatement, kind: DiagnosticKind) -> Seq<DiagnosticView> {
    if kind == DiagnosticKind::CannotAssignToConstant {
        match ctx.annotations.spec_get(left) {
            Some(StatementAnnotation::Variable { constant: true, qualified_name, .. }) => one(
                DiagnosticKind::CannotAssignToConstant, left.location, seq![ArgView::Text(qualified_name@)]),
            _ => Seq::empty(),
        }
    } else {
        Seq::empty()
    }
}

/// What the nodes of a tree owe, children (left to right) before their parent.
pub open spec fn subtree_reports(ctx: &ValidationContext, s: AstStatement, kind: DiagnosticKind) -> Seq<DiagnosticView>
    decreases s,
{
    let children = match s.kind {
        AstKind::LiteralArray { elements: Some(e) } => subtree_reports(ctx, *e, kind),
        AstKind::CastStatement { target, .. } => subtree_reports(ctx, *target, kind),
        AstKind::MultipliedStatement { element, .. } => subtree_reports(ctx, *element, kind),
        AstKind::QualifiedReference { elements } => reports_all(ctx, elements@, kind),
        AstKind::ArrayAccess { reference, access } => subtree_reports(ctx, *reference, kind)
            + subtree_reports(ctx, *access, kind),
        AstKind::PointerAccess { reference } => subtree_reports(ctx, *reference, kind),
        AstKind::DirectAccess { index, .. } => subtree_reports(ctx, *index, kind),
        AstKind::BinaryExpression { left, right, .. } => subtree_reports(ctx, *left, kind)
            + subtree_reports(ctx, *right, kind),
        AstKind::UnaryExpression { value, .. } => subtree_reports(ctx, *value, kind),
        AstKind::ExpressionList { expressions } => reports_all(ctx, expressions@, kind),
        AstKind::RangeStatement { start, end } => subtree_reports(ctx, *start, kind) + subtree_reports(ctx, *end, kind),
        AstKind::Assignment { left, right } => subtree_reports(ctx, *left, kind) + subtree_reports(ctx, *right, kind),
        AstKind::OutputAssignment { left, right } => subtree_reports(ctx, *left, kind)
            + subtree_reports(ctx, *right, kind),
        AstKind::CallStatement { operator, parameters } => subtree_reports(ctx, *operator, kind) + match parameters {
            Some(p) => subtree_reports(ctx, *p, kind),
            None => Seq::empty(),
        },
        AstKind::IfStatement { blocks, else_block } => reports_blocks(ctx, blocks@, kind)
            + reports_all(ctx, else_block@, kind),
        AstKind::ForLoopStatement { counter, start, end, by_step, body } => subtree_reports(ctx, *counter, kind)
            + subtree_reports(ctx, *start, kind) + subtree_reports(ctx, *end, kind) + match by_step {
            Some(step) => subtree_reports(ctx, *step, kind),
            None => Seq::empty(),
        } + reports_all(ctx, body@, kind),
        AstKind::WhileLoopStatement { condition, body } => subtree_reports(ctx, *condition, kind)
            + reports_all(ctx, body@, kind),
        AstKind::RepeatLoopStatement { condition, body } => subtree_reports(ctx, *condition, kind)
            + reports_all(ctx, body@, kind),
        AstKind::CaseStatement { selector, case_blocks, else_block } => subtree_reports(ctx, *selector, kind)
            + reports_blocks(ctx, case_blocks@, kind) + reports_all(ctx, else_block@, kind),
        AstKind::CaseCondition { condition } => subtree_reports(ctx, *condition, kind),
        _ => Seq::empty(),
    };
    children + node_reports(ctx, s, kind)
}

pub open spec fn reports_all(ctx: &ValidationContext, ss: Seq<AstStatement>, kind: DiagnosticKind) -> Seq<DiagnosticView>
    decreases ss,
{
    if ss.len() == 0 {
        Seq::empty()
    } else {
        reports_all(ctx, ss.drop_last(), kind) + subtree_reports(ctx, ss[ss.len() - 1], kind)
    }
}

pub open spec fn reports_blocks(ctx: &ValidationContext, bs: Seq<ConditionalBlock>, kind: DiagnosticKind) -> Seq<DiagnosticView>
    decreases bs,
{
    if bs.len() == 0 {
        Seq::empty()
    } else {
        let b = bs[bs.len() - 1];
        reports_blocks(ctx, bs.drop_last(), kind) + subtree_reports(ctx, *b.condition, kind)
            + reports_all(ctx, b.body@, kind)
    }
}

pub open spec fn owed_kind(kind: DiagnosticKind) -> bool {
    kind == DiagnosticKind::UnresolvedReference || kind == DiagnosticKind::CannotAssignToConstant
}

proof fn lemma_array_indexes_kinds(ctx: &ValidationContext, accesses: Seq<AstStatement>, dimensions: Seq<Dimension>)
    ensures
        forall|i: int| 0 <= i < spec_array_indexes(ctx, accesses, dimensions).len()
            ==> #[trigger] spec_array_indexes(ctx, accesses, dimensions)[i].kind == DiagnosticKind::IncompatibleArrayAccessRange
            || spec_array_indexes(ctx, accesses, dimensions)[i].kind == DiagnosticKind::IncompatibleArrayAccessType,
    decreases accesses.len(),
{
    if accesses.len() > 0 {
        lemma_array_indexes_kinds(ctx, accesses.drop_last(), dimensions);
    }
}

proof fn lemma_missing_inouts_kinds(declared: Seq<VariableIndexEntry>, slots: Seq<usize>, location: SourceRange)
    ensures
        forall|i: int| 0 <= i < spec_missing_inouts(declared, slots, location).len()
            ==> #[trigger] spec_missing_inouts(declared, slots, location)[i].kind == DiagnosticKind::MissingInoutParameter,
    decreases declared.len(),
{
    if declared.len() > 0 {
        lemma_missing_inouts_kinds(declared.drop_last(), slots, location);
    }
}

proof fn lemma_call_by_ref_kinds(param: VariableIndexEntry, arg: AstStatement)
    ensures
        forall|i: int| 0 <= i < spec_call_by_ref(param, arg).len()
            ==> #[trigger] spec_call_by_ref(param, arg)[i].kind == DiagnosticKind::InvalidArgumentType,
    decreases arg,
{
    match arg.kind {
        AstKind::Assignment { right, .. } => lemma_call_by_ref_kinds(param, *right),
        AstKind::OutputAssignment { right, .. } => lemma_call_by_ref_kinds(param, *right),
        _ => {},
    }
}

proof fn lemma_assignment_types_silent(ctx: &ValidationContext, right: AstStatement, location: SourceRange, kind: DiagnosticKind)
    requires
        owed_kind(kind),
    ensures
        only_kind(spec_assignment_types(ctx, right, location), kind) == Seq::<DiagnosticView>::empty(),
{
    lemma_only_absent(spec_assignment_types(ctx, right, location), kind);
}

proof fn lemma_assignment_reports(ctx: &ValidationContext, right: AstStatement, left: Option<AstStatement>, location: SourceRange, kind: DiagnosticKind)
    requires
        owed_kind(kind),
    ensures
        only_kind(spec_assignment(ctx, right, left, location), kind) == match left {
            Some(l) => constant_target_report(ctx, l, kind),
            None => Seq::<DiagnosticView>::empty(),
        },
{
    broadcast use lemma_only_add;
    lemma_assignment_types_silent(ctx, right, location, kind);
    match left {
        Some(l) => {
            let target = spec_assignment_target(ctx, l);
            let constant = match ctx.annotations.spec_get(l) {
                Some(StatementAnnotation::Variable { constant: true, qualified_name, .. }) => one(
                    DiagnosticKind::CannotAssignToConstant, l.location, seq![ArgView::Text(qualified_name@)]),
                _ => Seq::<DiagnosticView>::empty(),
            };
            let lvalue = if !l.spec_can_be_assigned_to() {
                one(DiagnosticKind::ReferenceExpected, l.location, seq![])
            } else {
                Seq::<DiagnosticView>::empty()
            };
            assert(target == constant + lvalue);
            lemma_only_absent(lvalue, kind);
            if constant.len() > 0 {
                lemma_only_one(constant[0], kind);
                assert(constant =~= seq![constant[0]]);
            } else {
                assert(constant =~= Seq::<DiagnosticView>::empty());
                lemma_only_absent(constant, kind);
            }
            assert(only_kind(spec_assignment(ctx, right, left, location), kind)
                =~= constant_target_report(ctx, l, kind));
        },
        None => {
            lemma_only_absent(Seq::<DiagnosticView>::empty(), kind);
            assert(only_kind(spec_assignment(ctx, right, left, location), kind) =~= Seq::<DiagnosticView>::empty());
        },
    }
}

proof fn lemma_visit_reports(ctx: &ValidationContext, s: AstStatement, kind: DiagnosticKind)
    requires
        owed_kind(kind),
    ensures
        only_kind(spec_visit(ctx, s), kind) == subtree_reports(ctx, s, kind),
    decreases s, 3nat,
{
    broadcast use lemma_only_add;
    lemma_rules_reports(ctx, s, kind);
    lemma_only_absent(spec_type_nature(ctx, s), kind);
    assert(only_kind(spec_visit(ctx, s), kind) =~= subtree_reports(ctx, s, kind));
}

proof fn lemma_visit_all_reports(ctx: &ValidationContext, ss: Seq<AstStatement>, kind: DiagnosticKind)
    requires
        owed_kind(kind),
    ensures
        only_kind(spec_visit_all(ctx, ss), kind) == reports_all(ctx, ss, kind),
    decreases ss, 0nat,
{
    broadcast use lemma_only_add;
    if ss.len() == 0 {
        lemma_only_absent(Seq::<DiagnosticView>::empty(), kind);
    } else {
        lemma_visit_all_reports(ctx, ss.drop_last(), kind);
        lemma_visit_reports(ctx, ss[ss.len() - 1], kind);
    }
}

proof fn lemma_if_blocks_reports(ctx: &ValidationContext, bs: Seq<ConditionalBlock>, kind: DiagnosticKind)
    requires
        owed_kind(kind),
    ensures
        only_kind(spec_if_blocks(ctx, bs), kind) == reports_blocks(ctx, bs, kind),
    decreases bs, 0nat,
{
    broadcast use lemma_only_add;
    if bs.len() == 0 {
        lemma_only_absent(Seq::<DiagnosticView>::empty(), kind);
    } else {
        let b = bs[bs.len() - 1];
        lemma_if_blocks_reports(ctx, bs.drop_last(), kind);
        lemma_visit_reports(ctx, *b.condition, kind);
        lemma_visit_all_reports(ctx, b.body@, kind);
    }
}

proof fn lemma_case_blocks_reports(ctx: &ValidationContext, bs: Seq<ConditionalBlock>, kind: DiagnosticKind)
    requires
        owed_kind(kind),
    ensures
        only_kind(spec_case_blocks(ctx, bs), kind) == reports_blocks(ctx, bs, kind),
    decreases bs, 0nat,
{
    broadcast use lemma_only_add;
    if bs.len() == 0 {
        lemma_only_absent(Seq::<DiagnosticView>::empty(), kind);
    } else {
        let b = bs[bs.len() - 1];
        lemma_case_blocks_reports(ctx, bs.drop_last(), kind);
        lemma_only_absent(spec_case_label(ctx, *b.condition, spec_case_values(ctx, bs.drop_last())), kind);
        lemma_visit_reports(ctx, *b.condition, kind);
        lemma_visit_all_reports(ctx, b.body@, kind);
        assert(only_kind(spec_case_blocks(ctx, bs), kind) =~= reports_blocks(ctx, bs, kind));
    }
}

proof fn lemma_argument_reports(
    ctx: &ValidationContext,
    p: AstStatement,
    i: usize,
    mode: bool,
    declared: Seq<VariableIndexEntry>,
    kind: DiagnosticKind,
)
    requires
        owed_kind(kind),
    ensures
        only_kind(spec_call_argument(ctx, p, i, mode, declared), kind) == subtree_reports(ctx, p, kind),
    decreases p, 4nat,
{
    broadcast use lemma_only_add;
    lemma_visit_reports(ctx, p, kind);
    match spec_call_parameter(p, declared, i) {
        Some((slot, implicit)) => {
            let by_ref = if slot < declared.len() {
                spec_call_by_ref(declared[slot as int], p)
            } else {
                Seq::<DiagnosticView>::empty()
            };
            if slot < declared.len() {
                lemma_call_by_ref_kinds(declared[slot as int], p);
            }
            lemma_only_absent(by_ref, kind);
            let assigned = if implicit {
                spec_assignment(ctx, p, None, p.location)
            } else {
                Seq::<DiagnosticView>::empty()
            };
            lemma_assignment_reports(ctx, p, None, p.location, kind);
            lemma_only_absent(Seq::<DiagnosticView>::empty(), kind);
            let mixing = if i > 0 && mode != implicit {
                one(DiagnosticKind::InvalidParameterType, p.location, seq![])
            } else {
                Seq::<DiagnosticView>::empty()
            };
            lemma_only_absent(mixing, kind);
            assert(spec_call_argument(ctx, p, i, mode, declared) == by_ref + assigned + mixing + spec_visit(ctx, p));
            assert(only_kind(spec_call_argument(ctx, p, i, mode, declared), kind) =~= subtree_reports(ctx, p, kind));
        },
        None => {
            lemma_only_absent(Seq::<DiagnosticView>::empty(), kind);
            assert(only_kind(spec_call_argument(ctx, p, i, mode, declared), kind) =~= subtree_reports(ctx, p, kind));
        },
    }
}

proof fn lemma_arguments_reports(
    ctx: &ValidationContext,
    args: Seq<AstStatement>,
    mode: bool,
    declared: Seq<VariableIndexEntry>,
    kind: DiagnosticKind,
)
    requires
        owed_kind(kind),
    ensures
        only_kind(spec_call_arguments(ctx, args, mode, declared), kind) == reports_all(ctx, args, kind),
    decreases args, 0nat,
{
    broadcast use lemma_only_add;
    if args.len() == 0 {
        lemma_only_absent(Seq::<DiagnosticView>::empty(), kind);
    } else {
        lemma_arguments_reports(ctx, args.drop_last(), mode, declared, kind);
        lemma_argument_reports(ctx, args[args.len() - 1], (args.len() - 1) as usize, mode, declared, kind);
    }
}

proof fn lemma_call_reports(ctx: &ValidationContext, s: AstStatement, kind: DiagnosticKind)
    requires
        owed_kind(kind),
        s.kind is CallStatement,
    ensures
        only_kind(spec_call(ctx, s), kind) == subtree_reports(ctx, s, kind),
    decreases s, 1nat,
{
    broadcast use lemma_only_add;
    let e = Seq::<DiagnosticView>::empty();
    lemma_only_absent(e, kind);
    match s.kind {
        AstKind::CallStatement { operator, parameters } => {
            lemma_visit_reports(ctx, *operator, kind);
            match ctx.annotations.spec_find_called_pou(*operator, *ctx.index) {
                Some(pou) => {
                    let declared = parameters_of(pou.members@);
                    match parameters {
                        Some(p) => match p.kind {
                            AstKind::ExpressionList { expressions } => {
                                let slots = crate::statement::spec_call_slots(expressions@, declared);
                                lemma_arguments_reports(ctx, expressions@, spec_argument_mode(expressions@, declared), declared, kind);
                                lemma_missing_inouts_kinds(declared, slots, operator.location);
                                lemma_only_absent(spec_inout_check(pou, declared, slots, operator.location), kind);
                                assert(subtree_reports(ctx, *p, kind) =~= reports_all(ctx, expressions@, kind) + e);
                            },
                            _ => {
                                let slots = crate::statement::spec_call_slots(seq![*p], declared);
                                lemma_argument_reports(ctx, *p, 0, true, declared, kind);
                                lemma_missing_inouts_kinds(declared, slots, operator.location);
                                lemma_only_absent(spec_inout_check(pou, declared, slots, operator.location), kind);
                            },
                        },
                        None => {
                            lemma_missing_inouts_kinds(declared, Seq::<usize>::empty(), operator.location);
                            lemma_only_absent(spec_inout_check(pou, declared, Seq::<usize>::empty(), operator.location), kind);
                        },
                    }
                },
                None => match parameters {
                    Some(p) => lemma_visit_reports(ctx, *p, kind),
                    None => {},
                },
            }
            assert(only_kind(spec_call(ctx, s), kind) =~= subtree_reports(ctx, s, kind));
        },
        _ => {},
    }
}

proof fn lemma_case_reports(ctx: &ValidationContext, s: AstStatement, kind: DiagnosticKind)
    requires
        owed_kind(kind),
        s.kind is CaseStatement,
    ensures
        only_kind(spec_case(ctx, s), kind) == subtree_reports(ctx, s, kind),
    decreases s, 1nat,
{
    broadcast use lemma_only_add;
    match s.kind {
        AstKind::CaseStatement { selector, case_blocks, else_block } => {
            lemma_visit_reports(ctx, *selector, kind);
            lemma_case_blocks_reports(ctx, case_blocks@, kind);
            lemma_visit_all_reports(ctx, else_block@, kind);
            assert(only_kind(spec_case(ctx, s), kind) =~= subtree_reports(ctx, s, kind));
        },
        _ => {},
    }
}

#[verifier::rlimit(80)]
#[verifier::spinoff_prover]
proof fn lemma_rules_reports(ctx: &ValidationContext, s: AstStatement, kind: DiagnosticKind)
    requires
        owed_kind(kind),
    ensures
        only_kind(spec_visit_rules(ctx, s), kind) == subtree_reports(ctx, s, kind),
    decreases s, 2nat,
{
    broadcast use lemma_only_add;
    let e = Seq::<DiagnosticView>::empty();
    lemma_only_absent(e, kind);
    match s.kind {
        AstKind::LiteralArray { elements: Some(x) } => lemma_visit_reports(ctx, *x, kind),
        AstKind::CastStatement { data_type, target } => {
            lemma_visit_reports(ctx, *target, kind);
            lemma_only_absent(spec_cast_literal(ctx, *target, data_type@, s.location), kind);
        },
        AstKind::MultipliedStatement { element, .. } => lemma_visit_reports(ctx, *element, kind),
        AstKind::QualifiedReference { elements } => {
            lemma_visit_all_reports(ctx, elements@, kind);
            lemma_only_absent(spec_qualified_reference(ctx, elements@), kind);
        },
        AstKind::Reference { name } => {
            let r = spec_reference(ctx, s, name@);
            if kind == DiagnosticKind::UnresolvedReference && !ctx.annotations.spec_has_type_annotation(s) {
                lemma_only_one(r[0], kind);
                assert(r =~= seq![r[0]]);
            } else {
                lemma_only_absent(r, kind);
            }
        },
        AstKind::ArrayAccess { reference, access } => {
            lemma_visit_reports(ctx, *reference, kind);
            lemma_visit_reports(ctx, *access, kind);
            match access.kind {
                AstKind::ExpressionList { expressions } => match crate::context::type_or_void(ctx, *reference).information {
                    DataTypeInformation::Array { dimensions, .. } =>
                        lemma_array_indexes_kinds(ctx, expressions@, dimensions@),
                    _ => {},
                },
                _ => {},
            }
            lemma_only_absent(spec_array_access(ctx, *reference, *access), kind);
        },
        AstKind::PointerAccess { reference } => lemma_visit_reports(ctx, *reference, kind),
        AstKind::DirectAccess { index, .. } => lemma_visit_reports(ctx, *index, kind),
        AstKind::BinaryExpression { operator, left, right } => {
            lemma_visit_reports(ctx, *left, kind);
            lemma_visit_reports(ctx, *right, kind);
            lemma_only_absent(spec_visit_binary_expression(ctx, s, operator, *left, *right), kind);
        },
        AstKind::UnaryExpression { operator, value } => {
            lemma_visit_reports(ctx, *value, kind);
            lemma_only_absent(spec_unary_expression(operator, *value, s.location), kind);
        },
        AstKind::ExpressionList { expressions } => lemma_visit_all_reports(ctx, expressions@, kind),
        AstKind::RangeStatement { start, end } => {
            lemma_visit_reports(ctx, *start, kind);
            lemma_visit_reports(ctx, *end, kind);
        },
        AstKind::Assignment { left, right } => {
            lemma_visit_reports(ctx, *left, kind);
            lemma_visit_reports(ctx, *right, kind);
            lemma_assignment_reports(ctx, *right, Some(*left), s.location, kind);
        },
        AstKind::OutputAssignment { left, right } => {
            lemma_visit_reports(ctx, *left, kind);
            lemma_visit_reports(ctx, *right, kind);
            lemma_assignment_reports(ctx, *right, Some(*left), s.location, kind);
        },
        AstKind::CallStatement { .. } => lemma_call_reports(ctx, s, kind),
        AstKind::IfStatement { blocks, else_block } => {
            lemma_if_blocks_reports(ctx, blocks@, kind);
            lemma_visit_all_reports(ctx, else_block@, kind);
        },
        AstKind::ForLoopStatement { counter, start, end, by_step, body } => {
            lemma_visit_reports(ctx, *counter, kind);
            lemma_visit_reports(ctx, *start, kind);
            lemma_visit_reports(ctx, *end, kind);
            match by_step {
                Some(step) => lemma_visit_reports(ctx, *step, kind),
                None => {},
            }
            lemma_visit_all_reports(ctx, body@, kind);
        },
        AstKind::WhileLoopStatement { condition, body } => {
            lemma_visit_reports(ctx, *condition, kind);
            lemma_visit_all_reports(ctx, body@, kind);
        },
        AstKind::RepeatLoopStatement { condition, body } => {
            lemma_visit_reports(ctx, *condition, kind);
            lemma_visit_all_reports(ctx, body@, kind);
        },
        AstKind::CaseStatement { .. } => lemma_case_reports(ctx, s, kind),
        AstKind::CaseCondition { condition } => {
            lemma_visit_reports(ctx, *condition, kind);
            lemma_only_absent(one(DiagnosticKind::CaseConditionOutsideCaseStatement, condition.location, seq![]), kind);
        },
        _ => {},
    }
    assert(only_kind(spec_visit_rules(ctx, s), kind) =~= subtree_reports(ctx, s, kind));
}

/// Every identifier of a tree that has no annotation is reported as unresolved exactly
/// once, at its own location and under its own name, and no other unresolved reference
/// is reported: the unresolved-reference diagnostics of a walk are exactly those the
/// tree's identifiers are owed, in order.
pub proof fn lemma_unresolved_references(ctx: &ValidationContext, s: AstStatement)
    ensures
        only_kind(spec_visit(ctx, s), DiagnosticKind::UnresolvedReference)
            == subtree_reports(ctx, s, DiagnosticKind::UnresolvedReference),
{
    lemma_visit_reports(ctx, s, DiagnosticKind::UnresolvedReference);
}

/// Every assignment of a tree whose target is annotated as a constant variable is
/// reported exactly once, at its target and under the variable's qualified name, and no
/// other assignment to a constant is reported.
pub proof fn lemma_constant_assignments(ctx: &ValidationContext, s: AstStatement)
    ensures
        only_kind(spec_visit(ctx, s), DiagnosticKind::CannotAssignToConstant)
            == subtree_reports(ctx, s, DiagnosticKind::CannotAssignToConstant),
{
    lemma_visit_reports(ctx, s, DiagnosticKind::CannotAssignToConstant);
}
} // verus!
