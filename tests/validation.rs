use st_validation::annotations::{AnnotationMap, StatementAnnotation};
use st_validation::ast::{AstKind, AstStatement, ConditionalBlock, DirectAccessType, Operator, SourceRange};
use st_validation::diagnostics::{DiagnosticArg, DiagnosticKind, Validator};
use st_validation::index::{ArgumentType, Index, PouIndexEntry, PouKind, VariableIndexEntry, VariableType};
use st_validation::context::ValidationContext;
use st_validation::statement::visit_statement;
use st_validation::typesystem::{DataType, DataTypeInformation, Dimension, StringEncoding, TypeNature};

fn at(id: usize) -> SourceRange {
    SourceRange { file_id: 0, start: id * 10, end: id * 10 + 5 }
}

fn node(id: usize, kind: AstKind) -> AstStatement {
    AstStatement { kind, location: at(id), id }
}

fn reference(id: usize, name: &str) -> AstStatement {
    node(id, AstKind::Reference { name: name.to_string() })
}

fn int_lit(id: usize, value: i128) -> AstStatement {
    node(id, AstKind::LiteralInteger { value })
}

fn string_literal(id: usize, value: &str) -> AstStatement {
    node(id, AstKind::LiteralString { value: value.to_string(), is_wide: false })
}

fn assign(id: usize, left: AstStatement, right: AstStatement) -> AstStatement {
    node(id, AstKind::Assignment { left: Box::new(left), right: Box::new(right) })
}

fn binary(id: usize, operator: Operator, left: AstStatement, right: AstStatement) -> AstStatement {
    node(id, AstKind::BinaryExpression { operator, left: Box::new(left), right: Box::new(right) })
}

fn data_type(name: &str, information: DataTypeInformation, nature: TypeNature) -> DataType {
    DataType { name: name.to_string(), information, nature }
}

fn integer(name: &str, signed: bool, size: u32, nature: TypeNature) -> DataType {
    data_type(name, DataTypeInformation::Integer { signed, size, semantic_size: None }, nature)
}

fn builtins() -> Index {
    let mut index = Index::new();
    index.types.push(integer("SINT", true, 8, TypeNature::Signed));
    index.types.push(integer("INT", true, 16, TypeNature::Signed));
    index.types.push(integer("DINT", true, 32, TypeNature::Signed));
    index.types.push(integer("LINT", true, 64, TypeNature::Signed));
    index.types.push(integer("USINT", false, 8, TypeNature::Unsigned));
    index.types.push(integer("UINT", false, 16, TypeNature::Unsigned));
    index.types.push(integer("UDINT", false, 32, TypeNature::Unsigned));
    index.types.push(integer("ULINT", false, 64, TypeNature::Unsigned));
    index.types.push(integer("BYTE", false, 8, TypeNature::Bit));
    index.types.push(integer("DWORD", false, 32, TypeNature::Bit));
    index.types.push(data_type(
        "BOOL",
        DataTypeInformation::Integer { signed: false, size: 8, semantic_size: Some(1) },
        TypeNature::Bit,
    ));
    index.types.push(integer("TIME", true, 64, TypeNature::Magnitude));
    index.types.push(data_type("REAL", DataTypeInformation::Float { size: 32 }, TypeNature::Real));
    index.types.push(data_type("LREAL", DataTypeInformation::Float { size: 64 }, TypeNature::Real));
    index.types.push(data_type(
        "STRING",
        DataTypeInformation::String { size: 81, encoding: StringEncoding::Utf8 },
        TypeNature::String,
    ));
    index.types.push(data_type(
        "CHAR",
        DataTypeInformation::Char { encoding: StringEncoding::Utf8 },
        TypeNature::Char,
    ));
    index.types.push(data_type(
        "WCHAR",
        DataTypeInformation::Char { encoding: StringEncoding::Utf16 },
        TypeNature::Char,
    ));
    index.types.push(data_type(
        "__POINTER_TO_INT",
        DataTypeInformation::Pointer { inner_type_name: "INT".to_string(), auto_deref: false },
        TypeNature::Any,
    ));
    index
}

fn value(ty: &str) -> StatementAnnotation {
    StatementAnnotation::Value { resulting_type: ty.to_string() }
}

fn variable(qualified_name: &str, ty: &str, constant: bool, variable_type: VariableType) -> StatementAnnotation {
    StatementAnnotation::Variable {
        resulting_type: ty.to_string(),
        qualified_name: qualified_name.to_string(),
        constant,
        variable_type,
        argument_type: ArgumentType::ByVal(variable_type),
    }
}

fn member(name: &str, ty: &str, argument_type: ArgumentType, location_in_parent: u32) -> VariableIndexEntry {
    VariableIndexEntry {
        name: name.to_string(),
        qualified_name: format!("FB.{name}"),
        data_type_name: ty.to_string(),
        argument_type,
        location_in_parent,
        is_constant: false,
        initial_value: None,
    }
}

fn run(statement: &AstStatement, index: &Index, annotations: &AnnotationMap, qualifier: Option<&str>) -> Validator {
    let context = ValidationContext { index, annotations, qualifier };
    let mut validator = Validator::new();
    visit_statement(&mut validator, statement, &context);
    validator
}

fn kinds(validator: &Validator) -> Vec<DiagnosticKind> {
    validator.diagnostics.iter().map(|d| d.kind).collect()
}

fn text(s: &str) -> DiagnosticArg {
    DiagnosticArg::Text(s.to_string())
}

/// `a := 3.14` with `a : DINT`.
fn real_to_dint() -> (AstStatement, AnnotationMap) {
    let statement = assign(1, reference(2, "a"), node(3, AstKind::LiteralReal { value: "3.14".to_string() }));
    let mut annotations = AnnotationMap::new();
    annotations.annotations.push((2, variable("PRG.a", "DINT", false, VariableType::Local)));
    annotations.annotations.push((3, value("REAL")));
    annotations.hints.push((3, value("DINT")));
    (statement, annotations)
}

#[test]
fn real_literal_to_dint_is_an_invalid_assignment() {
    let index = builtins();
    let (statement, annotations) = real_to_dint();
    let validator = run(&statement, &index, &annotations, None);
    assert_eq!(kinds(&validator), vec![DiagnosticKind::InvalidAssignment]);
    assert_eq!(validator.diagnostics[0].args, vec![text("REAL"), text("DINT")]);
    assert_eq!(validator.diagnostics[0].location, at(1));
}

#[test]
fn two_character_string_to_char_exceeds_length() {
    let index = builtins();
    let statement = assign(1, reference(2, "a"), string_literal(3, "ab"));
    let mut annotations = AnnotationMap::new();
    annotations.annotations.push((2, variable("PRG.a", "CHAR", false, VariableType::Local)));
    annotations.annotations.push((3, value("STRING")));
    annotations.hints.push((3, value("CHAR")));
    let validator = run(&statement, &index, &annotations, None);
    assert_eq!(kinds(&validator), vec![DiagnosticKind::SyntaxError]);
    assert_eq!(validator.diagnostics[0].args, vec![text("Value: 'ab' exceeds length for type: CHAR")]);
}

#[test]
fn one_character_string_to_char_is_accepted() {
    let index = builtins();
    let statement = assign(1, reference(2, "a"), string_literal(3, "a"));
    let mut annotations = AnnotationMap::new();
    annotations.annotations.push((2, variable("PRG.a", "CHAR", false, VariableType::Local)));
    annotations.annotations.push((3, value("STRING")));
    annotations.hints.push((3, value("CHAR")));
    let validator = run(&statement, &index, &annotations, None);
    assert!(validator.diagnostics.is_empty());
}

#[test]
fn assignment_to_constant_is_reported() {
    let index = builtins();
    let statement = assign(1, reference(2, "k"), int_lit(3, 2));
    let mut annotations = AnnotationMap::new();
    annotations.annotations.push((2, variable("k", "INT", true, VariableType::Global)));
    annotations.annotations.push((3, value("DINT")));
    annotations.hints.push((3, value("INT")));
    let validator = run(&statement, &index, &annotations, None);
    assert_eq!(kinds(&validator), vec![DiagnosticKind::CannotAssignToConstant]);
    assert_eq!(validator.diagnostics[0].args, vec![text("k")]);
    assert_eq!(validator.diagnostics[0].location, at(2));
}

fn function_block_index() -> Index {
    let mut index = builtins();
    index.pous.push(PouIndexEntry {
        kind: PouKind::FunctionBlock,
        name: "FB".to_string(),
        parent: None,
        members: vec![
            member("x", "INT", ArgumentType::ByVal(VariableType::Input), 0),
            member("y", "INT", ArgumentType::ByRef(VariableType::InOut), 1),
            member("z", "INT", ArgumentType::ByRef(VariableType::Output), 2),
        ],
    });
    index
}

fn call(id: usize, operator: AstStatement, parameters: Option<AstStatement>) -> AstStatement {
    node(id, AstKind::CallStatement { operator: Box::new(operator), parameters: parameters.map(Box::new) })
}

#[test]
fn call_without_inout_argument_is_reported() {
    let index = function_block_index();
    let statement = call(1, reference(2, "fb"), Some(assign(3, reference(4, "x"), int_lit(5, 1))));
    let mut annotations = AnnotationMap::new();
    annotations.annotations.push((2, variable("PRG.fb", "FB", false, VariableType::Local)));
    annotations.annotations.push((4, variable("FB.x", "INT", false, VariableType::Input)));
    annotations.annotations.push((5, value("DINT")));
    annotations.hints.push((5, value("INT")));
    let validator = run(&statement, &index, &annotations, Some("PRG"));
    assert_eq!(kinds(&validator), vec![DiagnosticKind::MissingInoutParameter]);
    assert_eq!(validator.diagnostics[0].args, vec![text("y")]);
    assert_eq!(validator.diagnostics[0].location, at(2));
}

#[test]
fn call_with_all_inouts_and_mixed_arguments() {
    let index = function_block_index();
    let arguments = node(
        3,
        AstKind::ExpressionList {
            expressions: vec![
                assign(4, reference(5, "x"), int_lit(6, 1)),
                reference(7, "v"),
                int_lit(8, 3),
            ],
        },
    );
    let statement = call(1, reference(2, "fb"), Some(arguments));
    let mut annotations = AnnotationMap::new();
    annotations.annotations.push((2, variable("PRG.fb", "FB", false, VariableType::Local)));
    annotations.annotations.push((5, variable("FB.x", "INT", false, VariableType::Input)));
    annotations.annotations.push((6, value("DINT")));
    annotations.hints.push((6, value("INT")));
    annotations.annotations.push((7, variable("PRG.v", "INT", false, VariableType::Local)));
    annotations.hints.push((7, value("INT")));
    annotations.annotations.push((8, value("DINT")));
    annotations.hints.push((8, value("INT")));
    let validator = run(&statement, &index, &annotations, Some("PRG"));
    // `v` binds the in-out `y` by position, mixing with the named first argument; the
    // literal `3` binds the output `z`, which needs a variable.
    assert_eq!(
        kinds(&validator),
        vec![
            DiagnosticKind::InvalidParameterType,
            DiagnosticKind::InvalidArgumentType,
            DiagnosticKind::InvalidParameterType,
        ]
    );
    assert_eq!(validator.diagnostics[1].args, vec![text("z"), DiagnosticArg::Variable(VariableType::Output)]);
}

#[test]
fn empty_output_binding_is_accepted() {
    let index = function_block_index();
    let arguments = node(
        3,
        AstKind::ExpressionList {
            expressions: vec![
                node(4, AstKind::OutputAssignment {
                    left: Box::new(reference(5, "z")),
                    right: Box::new(node(6, AstKind::EmptyStatement)),
                }),
                assign(7, reference(8, "y"), reference(9, "v")),
            ],
        },
    );
    let statement = call(1, reference(2, "fb"), Some(arguments));
    let mut annotations = AnnotationMap::new();
    annotations.annotations.push((2, variable("PRG.fb", "FB", false, VariableType::Local)));
    annotations.annotations.push((5, variable("FB.z", "INT", false, VariableType::Output)));
    annotations.annotations.push((8, variable("FB.y", "INT", false, VariableType::InOut)));
    annotations.annotations.push((9, variable("PRG.v", "INT", false, VariableType::Local)));
    annotations.hints.push((9, value("INT")));
    let validator = run(&statement, &index, &annotations, Some("PRG"));
    assert!(validator.diagnostics.is_empty());
}

#[test]
fn call_of_unknown_pou_still_validates_arguments() {
    let index = builtins();
    let statement = call(1, reference(2, "nothing"), Some(reference(3, "missing")));
    let annotations = AnnotationMap::new();
    let validator = run(&statement, &index, &annotations, None);
    assert_eq!(kinds(&validator), vec![DiagnosticKind::UnresolvedReference, DiagnosticKind::UnresolvedReference]);
    assert_eq!(validator.diagnostics[1].args, vec![text("missing")]);
}

fn case_statement(labels: &[i128]) -> AstStatement {
    let case_blocks = labels
        .iter()
        .enumerate()
        .map(|(i, v)| ConditionalBlock { condition: Box::new(int_lit(10 + i, *v)), body: vec![] })
        .collect();
    node(1, AstKind::CaseStatement { selector: Box::new(reference(2, "x")), case_blocks, else_block: vec![] })
}

fn case_annotations() -> AnnotationMap {
    let mut annotations = AnnotationMap::new();
    annotations.annotations.push((2, variable("PRG.x", "INT", false, VariableType::Local)));
    annotations
}

#[test]
fn repeated_case_label_is_reported_once() {
    let index = builtins();
    let validator = run(&case_statement(&[1, 1]), &index, &case_annotations(), None);
    assert_eq!(kinds(&validator), vec![DiagnosticKind::DuplicateCaseCondition]);
    assert_eq!(validator.diagnostics[0].args, vec![DiagnosticArg::Number(1)]);
    assert_eq!(validator.diagnostics[0].location, at(11));
}

#[test]
fn distinct_case_labels_are_not_reported() {
    let index = builtins();
    let validator = run(&case_statement(&[1, 2, 3, -4]), &index, &case_annotations(), None);
    assert!(validator.diagnostics.is_empty());
}

#[test]
fn each_additional_case_label_occurrence_is_reported() {
    let index = builtins();
    let validator = run(&case_statement(&[7, 2, 7, 7]), &index, &case_annotations(), None);
    assert_eq!(kinds(&validator), vec![DiagnosticKind::DuplicateCaseCondition, DiagnosticKind::DuplicateCaseCondition]);
    assert_eq!(validator.diagnostics[0].location, at(12));
    assert_eq!(validator.diagnostics[1].location, at(13));
}

#[test]
fn case_labels_must_be_constant_and_not_calls() {
    let index = builtins();
    let statement = node(
        1,
        AstKind::CaseStatement {
            selector: Box::new(reference(2, "x")),
            case_blocks: vec![
                ConditionalBlock { condition: Box::new(reference(3, "x")), body: vec![] },
                ConditionalBlock { condition: Box::new(assign(4, reference(5, "x"), int_lit(6, 1))), body: vec![] },
                ConditionalBlock {
                    condition: Box::new(binary(7, Operator::Plus, int_lit(8, 1), int_lit(9, 2))),
                    body: vec![],
                },
                ConditionalBlock { condition: Box::new(int_lit(12, 3)), body: vec![] },
            ],
            else_block: vec![],
        },
    );
    let mut annotations = case_annotations();
    annotations.annotations.push((3, variable("PRG.x", "INT", false, VariableType::Local)));
    annotations.annotations.push((5, variable("PRG.x", "INT", false, VariableType::Local)));
    let validator = run(&statement, &index, &annotations, None);
    assert_eq!(
        kinds(&validator),
        vec![
            DiagnosticKind::NonConstantCaseCondition,
            DiagnosticKind::InvalidCaseCondition,
            DiagnosticKind::NonConstantCaseCondition,
            DiagnosticKind::DuplicateCaseCondition,
        ]
    );
    assert_eq!(validator.diagnostics[3].args, vec![DiagnosticArg::Number(3)]);
}

#[test]
fn case_condition_outside_case_statement() {
    let index = builtins();
    let statement = node(1, AstKind::CaseCondition { condition: Box::new(int_lit(2, 1)) });
    let validator = run(&statement, &index, &AnnotationMap::new(), None);
    assert_eq!(kinds(&validator), vec![DiagnosticKind::CaseConditionOutsideCaseStatement]);
    assert_eq!(validator.diagnostics[0].location, at(2));
}

/// `p := i` with `p : REF_TO INT` and `i` of the given type.
fn pointer_from(ty: &str) -> (AstStatement, AnnotationMap) {
    let statement = assign(1, reference(2, "p"), reference(3, "i"));
    let mut annotations = AnnotationMap::new();
    annotations.annotations.push((2, variable("PRG.p", "__POINTER_TO_INT", false, VariableType::Local)));
    annotations.annotations.push((3, variable("PRG.i", ty, false, VariableType::Local)));
    annotations.hints.push((3, value("__POINTER_TO_INT")));
    (statement, annotations)
}

#[test]
fn narrow_integer_cannot_be_stored_in_a_pointer() {
    let index = builtins();
    let (statement, annotations) = pointer_from("SINT");
    let validator = run(&statement, &index, &annotations, None);
    assert_eq!(kinds(&validator), vec![DiagnosticKind::IncompatibleTypeSize]);
    assert_eq!(validator.diagnostics[0].args, vec![text("SINT"), DiagnosticArg::Number(8), text("to be stored in a")]);
}

#[test]
fn pointer_wide_integer_can_be_stored_in_a_pointer() {
    let index = builtins();
    let (statement, annotations) = pointer_from("LINT");
    let validator = run(&statement, &index, &annotations, None);
    assert!(validator.diagnostics.is_empty());
}

#[test]
fn narrow_integer_cannot_hold_a_pointer() {
    let index = builtins();
    let statement = assign(1, reference(2, "i"), reference(3, "p"));
    let mut annotations = AnnotationMap::new();
    annotations.annotations.push((2, variable("PRG.i", "DINT", false, VariableType::Local)));
    annotations.annotations.push((3, variable("PRG.p", "__POINTER_TO_INT", false, VariableType::Local)));
    annotations.hints.push((3, value("DINT")));
    let validator = run(&statement, &index, &annotations, None);
    assert_eq!(kinds(&validator), vec![DiagnosticKind::IncompatibleTypeSize]);
    assert_eq!(validator.diagnostics[0].args, vec![text("DINT"), DiagnosticArg::Number(32), text("hold a")]);
}

#[test]
fn validating_twice_gives_the_same_diagnostics() {
    let index = builtins();
    let (statement, annotations) = real_to_dint();
    let context = ValidationContext { index: &index, annotations: &annotations, qualifier: None };
    let mut validator = Validator::new();
    visit_statement(&mut validator, &statement, &context);
    let first = validator.diagnostics.len();
    visit_statement(&mut validator, &statement, &context);
    assert_eq!(validator.diagnostics.len(), 2 * first);
    assert_eq!(validator.diagnostics[..first], validator.diagnostics[first..]);
    let other = run(&statement, &index, &annotations, None);
    assert_eq!(other.diagnostics[..], validator.diagnostics[..first]);
}

#[test]
fn validation_leaves_tree_and_index_unchanged() {
    let index = builtins();
    let (statement, annotations) = pointer_from("SINT");
    let _ = run(&statement, &index, &annotations, None);
    assert_eq!(statement, pointer_from("SINT").0);
    assert_eq!(annotations, pointer_from("SINT").1);
    assert_eq!(index, builtins());
}

#[test]
fn unresolved_identifier_is_reported_once_at_its_location() {
    let index = builtins();
    let statement = binary(1, Operator::Plus, reference(2, "a"), reference(3, "b"));
    let mut annotations = AnnotationMap::new();
    annotations.annotations.push((2, variable("PRG.a", "INT", false, VariableType::Local)));
    let validator = run(&statement, &index, &annotations, None);
    assert_eq!(kinds(&validator), vec![DiagnosticKind::UnresolvedReference]);
    assert_eq!(validator.diagnostics[0].args, vec![text("b")]);
    assert_eq!(validator.diagnostics[0].location, at(3));
}

fn struct_index(with_compare: bool) -> Index {
    let mut index = builtins();
    index.types.push(data_type(
        "POINT",
        DataTypeInformation::Struct { member_names: vec!["x".to_string()], size: 32 },
        TypeNature::Derived,
    ));
    if with_compare {
        index.pous.push(PouIndexEntry {
            kind: PouKind::Function,
            name: "POINT_EQUAL".to_string(),
            parent: None,
            members: vec![
                member("a", "POINT", ArgumentType::ByVal(VariableType::Input), 0),
                member("b", "POINT", ArgumentType::ByVal(VariableType::Input), 1),
                member("POINT_EQUAL", "BOOL", ArgumentType::ByVal(VariableType::Return), 2),
            ],
        });
    }
    index
}

fn compare_points(operator: Operator) -> (AstStatement, AnnotationMap) {
    let statement = binary(1, operator, reference(2, "p"), reference(3, "q"));
    let mut annotations = AnnotationMap::new();
    annotations.annotations.push((2, variable("PRG.p", "POINT", false, VariableType::Local)));
    annotations.annotations.push((3, variable("PRG.q", "POINT", false, VariableType::Local)));
    (statement, annotations)
}

#[test]
fn not_equal_reports_what_equal_reports() {
    let index = struct_index(false);
    let (ne, annotations) = compare_points(Operator::NotEqual);
    let (eq, _) = compare_points(Operator::Equal);
    let not_equal = run(&ne, &index, &annotations, None);
    let equal = run(&eq, &index, &annotations, None);
    assert_eq!(kinds(&equal), vec![DiagnosticKind::MissingCompareFunction]);
    assert_eq!(equal.diagnostics[0].args, vec![text("POINT_EQUAL"), text("POINT")]);
    assert_eq!(not_equal.diagnostics, equal.diagnostics);
}

#[test]
fn greater_or_equal_reports_greater_and_equal() {
    let index = struct_index(false);
    let (ge, annotations) = compare_points(Operator::GreaterOrEqual);
    let (gt, _) = compare_points(Operator::Greater);
    let (eq, _) = compare_points(Operator::Equal);
    let greater_or_equal = run(&ge, &index, &annotations, None);
    let greater = run(&gt, &index, &annotations, None);
    let equal = run(&eq, &index, &annotations, None);
    assert_eq!(greater_or_equal.diagnostics.len(), 2);
    assert_eq!(greater_or_equal.diagnostics[0].args, vec![text("POINT_GREATER"), text("POINT")]);
    for d in &greater_or_equal.diagnostics {
        assert!(greater.diagnostics.contains(d) || equal.diagnostics.contains(d));
    }
}

#[test]
fn declared_compare_function_satisfies_equality() {
    let index = struct_index(true);
    let (ge, annotations) = compare_points(Operator::GreaterOrEqual);
    let validator = run(&ge, &index, &annotations, None);
    assert_eq!(kinds(&validator), vec![DiagnosticKind::MissingCompareFunction]);
    assert_eq!(validator.diagnostics[0].args, vec![text("POINT_GREATER"), text("POINT")]);
    let (ne, annotations) = compare_points(Operator::NotEqual);
    assert!(run(&ne, &index, &annotations, None).diagnostics.is_empty());
}

#[test]
fn numbers_need_no_compare_function() {
    let index = builtins();
    let statement = binary(1, Operator::Less, reference(2, "a"), reference(3, "b"));
    let mut annotations = AnnotationMap::new();
    annotations.annotations.push((2, variable("PRG.a", "INT", false, VariableType::Local)));
    annotations.annotations.push((3, variable("PRG.b", "INT", false, VariableType::Local)));
    assert!(run(&statement, &index, &annotations, None).diagnostics.is_empty());
}

#[test]
fn private_variable_of_another_pou_is_illegal() {
    let mut index = builtins();
    index.pous.push(PouIndexEntry { kind: PouKind::Program, name: "MAIN".to_string(), parent: None, members: vec![] });
    index.pous.push(PouIndexEntry {
        kind: PouKind::Action,
        name: "PRG.act".to_string(),
        parent: Some("PRG".to_string()),
        members: vec![],
    });
    let statement = reference(1, "v");
    let mut annotations = AnnotationMap::new();
    annotations.annotations.push((1, variable("PRG.v", "INT", false, VariableType::Local)));
    let validator = run(&statement, &index, &annotations, Some("MAIN"));
    assert_eq!(kinds(&validator), vec![DiagnosticKind::IllegalAccess]);
    assert_eq!(validator.diagnostics[0].args, vec![text("PRG.v")]);
    assert!(run(&statement, &index, &annotations, Some("PRG.act")).diagnostics.is_empty());
}

#[test]
fn literal_target_is_not_a_reference() {
    let index = builtins();
    let statement = assign(1, int_lit(2, 1), reference(3, "a"));
    let mut annotations = AnnotationMap::new();
    annotations.annotations.push((3, variable("PRG.a", "INT", false, VariableType::Local)));
    let validator = run(&statement, &index, &annotations, None);
    assert_eq!(kinds(&validator), vec![DiagnosticKind::ReferenceExpected]);
    assert_eq!(validator.diagnostics[0].location, at(2));
}

#[test]
fn wider_variable_to_narrower_target_is_a_downcast() {
    let index = builtins();
    let statement = assign(1, reference(2, "a"), reference(3, "b"));
    let mut annotations = AnnotationMap::new();
    annotations.annotations.push((2, variable("PRG.a", "INT", false, VariableType::Local)));
    annotations.annotations.push((3, variable("PRG.b", "DINT", false, VariableType::Local)));
    annotations.hints.push((3, value("INT")));
    let validator = run(&statement, &index, &annotations, None);
    assert_eq!(kinds(&validator), vec![DiagnosticKind::ImplicitDowncast]);
    assert_eq!(validator.diagnostics[0].args, vec![text("INT"), text("DINT")]);
}

#[test]
fn char_and_wchar_do_not_mix() {
    let index = builtins();
    let statement = assign(1, reference(2, "a"), reference(3, "b"));
    let mut annotations = AnnotationMap::new();
    annotations.annotations.push((2, variable("PRG.a", "CHAR", false, VariableType::Local)));
    annotations.annotations.push((3, variable("PRG.b", "WCHAR", false, VariableType::Local)));
    annotations.hints.push((3, value("CHAR")));
    let validator = run(&statement, &index, &annotations, None);
    assert_eq!(kinds(&validator), vec![DiagnosticKind::InvalidAssignment]);
    assert_eq!(validator.diagnostics[0].args, vec![text("WCHAR"), text("CHAR")]);
}

#[test]
fn string_does_not_go_to_a_char_variable() {
    let index = builtins();
    let statement = assign(1, reference(2, "a"), reference(3, "s"));
    let mut annotations = AnnotationMap::new();
    annotations.annotations.push((2, variable("PRG.a", "CHAR", false, VariableType::Local)));
    annotations.annotations.push((3, variable("PRG.s", "STRING", false, VariableType::Local)));
    annotations.hints.push((3, value("CHAR")));
    let validator = run(&statement, &index, &annotations, None);
    assert_eq!(kinds(&validator), vec![DiagnosticKind::InvalidAssignment]);
}

#[test]
fn address_of_a_literal_is_invalid() {
    let index = builtins();
    let statement = node(1, AstKind::UnaryExpression { operator: Operator::Address, value: Box::new(int_lit(2, 1)) });
    let validator = run(&statement, &index, &AnnotationMap::new(), None);
    assert_eq!(kinds(&validator), vec![DiagnosticKind::InvalidOperation]);
    let statement = node(1, AstKind::UnaryExpression { operator: Operator::Address, value: Box::new(reference(2, "a")) });
    let mut annotations = AnnotationMap::new();
    annotations.annotations.push((2, variable("PRG.a", "INT", false, VariableType::Local)));
    assert!(run(&statement, &index, &annotations, None).diagnostics.is_empty());
}

fn cast(id: usize, ty: &str, target: AstStatement) -> AstStatement {
    node(id, AstKind::CastStatement { data_type: ty.to_string(), target: Box::new(target) })
}

#[test]
fn typed_literals() {
    let index = builtins();
    let annotations = AnnotationMap::new();
    let ok = |s: AstStatement| run(&s, &index, &annotations, None).diagnostics.is_empty();
    assert!(ok(cast(1, "INT", int_lit(2, 300))));
    assert!(ok(cast(1, "REAL", int_lit(2, 100))));
    assert!(ok(cast(1, "CHAR", string_literal(2, "a"))));
    let out_of_range = run(&cast(1, "SINT", int_lit(2, 300)), &index, &annotations, None);
    assert_eq!(kinds(&out_of_range), vec![DiagnosticKind::LiteralOutOfRange]);
    assert_eq!(out_of_range.diagnostics[0].args, vec![DiagnosticArg::Number(300), text("SINT")]);
    let long_char = run(&cast(1, "CHAR", string_literal(2, "ab")), &index, &annotations, None);
    assert_eq!(kinds(&long_char), vec![DiagnosticKind::LiteralOutOfRange]);
    let real_to_int = run(&cast(1, "INT", node(2, AstKind::LiteralReal { value: "1.5".to_string() })), &index, &annotations, None);
    assert_eq!(kinds(&real_to_int), vec![DiagnosticKind::IncompatibleLiteralCast]);
    assert_eq!(real_to_int.diagnostics[0].args, vec![text("INT"), text("1.5")]);
    let time = run(&cast(1, "TIME", int_lit(2, 5)), &index, &annotations, None);
    assert_eq!(kinds(&time), vec![DiagnosticKind::IncompatibleLiteralCast]);
    let expression = run(&cast(1, "INT", binary(2, Operator::Plus, int_lit(3, 1), int_lit(4, 2))), &index, &annotations, None);
    assert_eq!(kinds(&expression), vec![DiagnosticKind::LiteralExpected]);
}

fn direct_access(target_type: &str, access: DirectAccessType, index_node: AstStatement) -> (AstStatement, AnnotationMap) {
    let statement = node(
        1,
        AstKind::QualifiedReference {
            elements: vec![
                reference(2, "a"),
                node(3, AstKind::DirectAccess { access, index: Box::new(index_node) }),
            ],
        },
    );
    let mut annotations = AnnotationMap::new();
    annotations.annotations.push((2, variable("PRG.a", target_type, false, VariableType::Local)));
    annotations.annotations.push((5, variable("PRG.i", "REAL", false, VariableType::Local)));
    annotations.annotations.push((6, variable("PRG.j", "INT", false, VariableType::Local)));
    (statement, annotations)
}

#[test]
fn direct_access_rules() {
    let index = builtins();
    let check = |t: &str, a: DirectAccessType, i: AstStatement| {
        let (s, annotations) = direct_access(t, a, i);
        run(&s, &index, &annotations, None)
    };
    assert!(check("DWORD", DirectAccessType::Bit, int_lit(4, 31)).diagnostics.is_empty());
    assert!(check("DWORD", DirectAccessType::Word, reference(6, "j")).diagnostics.is_empty());
    let range = check("DWORD", DirectAccessType::Byte, int_lit(4, 4));
    assert_eq!(kinds(&range), vec![DiagnosticKind::IncompatibleDirectAccessRange]);
    assert_eq!(
        range.diagnostics[0].args,
        vec![DiagnosticArg::Access(DirectAccessType::Byte), text("DWORD"), DiagnosticArg::Number(0), DiagnosticArg::Number(3)]
    );
    let wide = check("BYTE", DirectAccessType::Word, int_lit(4, 0));
    assert_eq!(kinds(&wide), vec![DiagnosticKind::IncompatibleDirectAccess]);
    assert_eq!(wide.diagnostics[0].args, vec![DiagnosticArg::Access(DirectAccessType::Word), DiagnosticArg::Number(16)]);
    let real = check("REAL", DirectAccessType::Bit, int_lit(4, 0));
    assert_eq!(kinds(&real), vec![DiagnosticKind::IncompatibleDirectAccess]);
    let variable_index = check("DWORD", DirectAccessType::Bit, reference(5, "i"));
    assert_eq!(kinds(&variable_index), vec![DiagnosticKind::IncompatibleDirectAccessVariable]);
    assert_eq!(variable_index.diagnostics[0].args, vec![text("REAL")]);
}

#[test]
fn array_access_rules() {
    let mut index = builtins();
    index.types.push(data_type(
        "ARR",
        DataTypeInformation::Array {
            inner_type_name: "INT".to_string(),
            dimensions: vec![
                Dimension { start: Some(1), end: Some(10) },
                Dimension { start: Some(-2), end: Some(2) },
            ],
            size: 16 * 50,
        },
        TypeNature::Derived,
    ));
    let mut annotations = AnnotationMap::new();
    annotations.annotations.push((2, variable("PRG.arr", "ARR", false, VariableType::Local)));
    annotations.annotations.push((3, variable("PRG.x", "INT", false, VariableType::Local)));
    annotations.annotations.push((4, variable("PRG.r", "REAL", false, VariableType::Local)));
    let access = |reference_node: AstStatement, index_node: AstStatement| {
        node(1, AstKind::ArrayAccess { reference: Box::new(reference_node), access: Box::new(index_node) })
    };
    let list = |a: AstStatement, b: AstStatement| node(9, AstKind::ExpressionList { expressions: vec![a, b] });
    assert!(run(&access(reference(2, "arr"), list(int_lit(5, 10), int_lit(6, -2))), &index, &annotations, None)
        .diagnostics
        .is_empty());
    let range = run(&access(reference(2, "arr"), list(int_lit(5, 0), int_lit(6, 3))), &index, &annotations, None);
    assert_eq!(kinds(&range), vec![DiagnosticKind::IncompatibleArrayAccessRange, DiagnosticKind::IncompatibleArrayAccessRange]);
    assert_eq!(range.diagnostics[1].args, vec![DiagnosticArg::Number(-2), DiagnosticArg::Number(2)]);
    assert_eq!(range.diagnostics[1].location, at(6));
    let typed = run(&access(reference(2, "arr"), reference(4, "r")), &index, &annotations, None);
    assert_eq!(kinds(&typed), vec![DiagnosticKind::IncompatibleArrayAccessType]);
    let not_array = run(&access(reference(3, "x"), int_lit(5, 1)), &index, &annotations, None);
    assert_eq!(kinds(&not_array), vec![DiagnosticKind::IncompatibleArrayAccessVariable]);
    assert_eq!(not_array.diagnostics[0].args, vec![text("INT")]);
}

#[test]
fn generic_natures() {
    let mut index = builtins();
    index.types.push(data_type(
        "__T",
        DataTypeInformation::Generic { generic_symbol: "T".to_string(), nature: TypeNature::Num },
        TypeNature::Num,
    ));
    let statement = int_lit(1, 1);
    let mut unresolved = AnnotationMap::new();
    unresolved.annotations.push((1, value("DINT")));
    unresolved.hints.push((1, value("__T")));
    let validator = run(&statement, &index, &unresolved, None);
    assert_eq!(kinds(&validator), vec![DiagnosticKind::UnresolvedGenericType]);
    assert_eq!(validator.diagnostics[0].args, vec![text("T"), DiagnosticArg::Nature(TypeNature::Num)]);

    let mut wrong = AnnotationMap::new();
    wrong.annotations.push((1, value("STRING")));
    wrong.generic_natures.push((1, TypeNature::Num));
    let validator = run(&statement, &index, &wrong, None);
    assert_eq!(kinds(&validator), vec![DiagnosticKind::InvalidTypeNature]);
    assert_eq!(validator.diagnostics[0].args, vec![text("STRING"), DiagnosticArg::Nature(TypeNature::Num)]);

    let mut relaxed = AnnotationMap::new();
    relaxed.annotations.push((1, value("DINT")));
    relaxed.generic_natures.push((1, TypeNature::Real));
    assert!(run(&statement, &index, &relaxed, None).diagnostics.is_empty());

    let mut met = AnnotationMap::new();
    met.annotations.push((1, value("DINT")));
    met.generic_natures.push((1, TypeNature::Int));
    assert!(run(&statement, &index, &met, None).diagnostics.is_empty());
}

#[test]
fn nested_statements_are_all_visited() {
    let index = builtins();
    let statement = node(
        1,
        AstKind::IfStatement {
            blocks: vec![ConditionalBlock {
                condition: Box::new(reference(2, "c")),
                body: vec![node(
                    3,
                    AstKind::WhileLoopStatement {
                        condition: Box::new(reference(4, "d")),
                        body: vec![assign(5, reference(6, "e"), int_lit(7, 1))],
                    },
                )],
            }],
            else_block: vec![node(
                8,
                AstKind::ForLoopStatement {
                    counter: Box::new(reference(9, "f")),
                    start: Box::new(int_lit(10, 0)),
                    end: Box::new(int_lit(11, 1)),
                    by_step: Some(Box::new(reference(12, "g"))),
                    body: vec![node(13, AstKind::RepeatLoopStatement { condition: Box::new(reference(14, "h")), body: vec![] })],
                },
            )],
        },
    );
    let validator = run(&statement, &index, &AnnotationMap::new(), None);
    let names: Vec<DiagnosticArg> = validator.diagnostics.iter().map(|d| match &d.args[0] {
        DiagnosticArg::Text(t) => DiagnosticArg::Text(t.clone()),
        _ => DiagnosticArg::Number(0),
    }).collect();
    assert_eq!(names, vec![text("c"), text("d"), text("e"), text("f"), text("g"), text("h")]);
}

#[test]
fn named_constants_serve_as_case_labels() {
    let mut index = builtins();
    index.globals.push(VariableIndexEntry {
        name: "LIMIT".to_string(),
        qualified_name: "LIMIT".to_string(),
        data_type_name: "INT".to_string(),
        argument_type: ArgumentType::ByVal(VariableType::Global),
        location_in_parent: 0,
        is_constant: true,
        initial_value: Some(5),
    });
    index.pous.push(PouIndexEntry {
        kind: PouKind::Program,
        name: "PRG".to_string(),
        parent: None,
        members: vec![VariableIndexEntry {
            name: "y".to_string(),
            qualified_name: "PRG.y".to_string(),
            data_type_name: "INT".to_string(),
            argument_type: ArgumentType::ByVal(VariableType::Local),
            location_in_parent: 0,
            is_constant: false,
            initial_value: Some(5),
        }],
    });
    let statement = node(
        1,
        AstKind::CaseStatement {
            selector: Box::new(reference(2, "x")),
            case_blocks: vec![
                ConditionalBlock { condition: Box::new(reference(3, "LIMIT")), body: vec![] },
                ConditionalBlock {
                    condition: Box::new(binary(4, Operator::Plus, int_lit(5, 2), int_lit(6, 3))),
                    body: vec![],
                },
                ConditionalBlock { condition: Box::new(reference(7, "y")), body: vec![] },
            ],
            else_block: vec![],
        },
    );
    let mut annotations = case_annotations();
    annotations.annotations.push((3, variable("LIMIT", "INT", true, VariableType::Global)));
    annotations.annotations.push((7, variable("PRG.y", "INT", false, VariableType::Local)));
    let validator = run(&statement, &index, &annotations, Some("PRG"));
    assert_eq!(kinds(&validator), vec![DiagnosticKind::DuplicateCaseCondition, DiagnosticKind::NonConstantCaseCondition]);
    assert_eq!(validator.diagnostics[0].args, vec![DiagnosticArg::Number(5)]);
    assert_eq!(validator.diagnostics[0].location, at(4));
}

#[test]
fn overflowing_case_label_is_not_constant() {
    let index = builtins();
    let statement = node(
        1,
        AstKind::CaseStatement {
            selector: Box::new(reference(2, "x")),
            case_blocks: vec![ConditionalBlock {
                condition: Box::new(binary(3, Operator::Plus, int_lit(4, i128::MAX), int_lit(5, 1))),
                body: vec![],
            }],
            else_block: vec![],
        },
    );
    let validator = run(&statement, &index, &case_annotations(), None);
    assert_eq!(kinds(&validator), vec![DiagnosticKind::NonConstantCaseCondition]);
    assert_eq!(
        validator.diagnostics[0].args,
        vec![DiagnosticArg::Evaluation(st_validation::const_eval::EvalError::Overflow)]
    );
}

#[test]
fn aliases_are_read_through() {
    let mut index = builtins();
    index.types.push(data_type(
        "SMALL",
        DataTypeInformation::Alias { referenced_type: "SINT".to_string() },
        TypeNature::Signed,
    ));
    let statement = assign(1, reference(2, "a"), reference(3, "b"));
    let mut annotations = AnnotationMap::new();
    annotations.annotations.push((2, variable("PRG.a", "SMALL", false, VariableType::Local)));
    annotations.annotations.push((3, variable("PRG.b", "INT", false, VariableType::Local)));
    annotations.hints.push((3, value("SMALL")));
    let validator = run(&statement, &index, &annotations, None);
    assert_eq!(kinds(&validator), vec![DiagnosticKind::ImplicitDowncast]);
    assert_eq!(validator.diagnostics[0].args, vec![text("SINT"), text("INT")]);
}

#[test]
fn pointers_to_different_classes_do_not_mix() {
    let mut index = builtins();
    index.types.push(data_type(
        "__POINTER_TO_REAL",
        DataTypeInformation::Pointer { inner_type_name: "REAL".to_string(), auto_deref: false },
        TypeNature::Any,
    ));
    index.types.push(data_type(
        "__POINTER_TO_DINT",
        DataTypeInformation::Pointer { inner_type_name: "DINT".to_string(), auto_deref: false },
        TypeNature::Any,
    ));
    let statement = assign(1, reference(2, "p"), reference(3, "q"));
    let mut annotations = AnnotationMap::new();
    annotations.annotations.push((2, variable("PRG.p", "__POINTER_TO_INT", false, VariableType::Local)));
    annotations.annotations.push((3, variable("PRG.q", "__POINTER_TO_REAL", false, VariableType::Local)));
    annotations.hints.push((3, value("__POINTER_TO_INT")));
    let validator = run(&statement, &index, &annotations, None);
    assert_eq!(kinds(&validator), vec![DiagnosticKind::InvalidAssignment]);
    assert_eq!(validator.diagnostics[0].args, vec![text("__POINTER_TO_REAL"), text("__POINTER_TO_INT")]);
    let mut same_class = AnnotationMap::new();
    same_class.annotations.push((2, variable("PRG.p", "__POINTER_TO_INT", false, VariableType::Local)));
    same_class.annotations.push((3, variable("PRG.q", "__POINTER_TO_DINT", false, VariableType::Local)));
    same_class.hints.push((3, value("__POINTER_TO_INT")));
    assert!(run(&statement, &index, &same_class, None).diagnostics.is_empty());
}

#[test]
fn identifiers_under_pointer_direct_and_typed_access_are_resolved() {
    let index = builtins();
    let annotations = AnnotationMap::new();
    let pointer = node(1, AstKind::PointerAccess { reference: Box::new(reference(2, "p")) });
    let validator = run(&pointer, &index, &annotations, None);
    assert_eq!(kinds(&validator), vec![DiagnosticKind::UnresolvedReference]);
    assert_eq!(validator.diagnostics[0].args, vec![text("p")]);
    assert_eq!(validator.diagnostics[0].location, at(2));

    let typed = cast(1, "INT", reference(2, "x"));
    let validator = run(&typed, &index, &annotations, None);
    assert_eq!(validator.diagnostics[0].kind, DiagnosticKind::UnresolvedReference);
    assert_eq!(validator.diagnostics[0].args, vec![text("x")]);

    let (direct, mut annotations) = direct_access("DWORD", DirectAccessType::Bit, reference(7, "k"));
    annotations.annotations.retain(|(id, _)| *id == 2);
    let validator = run(&direct, &index, &annotations, None);
    assert_eq!(validator.diagnostics[0].kind, DiagnosticKind::UnresolvedReference);
    assert_eq!(validator.diagnostics[0].args, vec![text("k")]);
    assert_eq!(validator.diagnostics[0].location, at(7));
}

#[test]
fn every_assignment_to_a_constant_is_reported_once() {
    let index = builtins();
    let statement = node(
        1,
        AstKind::IfStatement {
            blocks: vec![ConditionalBlock {
                condition: Box::new(reference(2, "c")),
                body: vec![assign(3, reference(4, "k"), int_lit(5, 1)), assign(6, reference(7, "v"), int_lit(8, 2))],
            }],
            else_block: vec![assign(9, reference(10, "k"), int_lit(11, 3))],
        },
    );
    let mut annotations = AnnotationMap::new();
    annotations.annotations.push((2, variable("PRG.c", "BOOL", false, VariableType::Local)));
    annotations.annotations.push((4, variable("k", "INT", true, VariableType::Global)));
    annotations.annotations.push((7, variable("PRG.v", "INT", false, VariableType::Local)));
    annotations.annotations.push((10, variable("k", "INT", true, VariableType::Global)));
    let validator = run(&statement, &index, &annotations, None);
    assert_eq!(kinds(&validator), vec![DiagnosticKind::CannotAssignToConstant, DiagnosticKind::CannotAssignToConstant]);
    assert_eq!(validator.diagnostics[0].location, at(4));
    assert_eq!(validator.diagnostics[1].location, at(10));
}
