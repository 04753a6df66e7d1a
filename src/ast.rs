//! The annotated syntax tree of Structured Text that the validator walks.
use vstd::prelude::*;

verus! {

/// A span of source text: the file it belongs to and its start and end offsets.
#[derive(Clone, Copy, Debug, PartialEq, Eq, Structural)]
pub struct SourceRange {
    pub file_id: usize,
    pub start: usize,
    pub end: usize,
}

/// The operators of binary and unary expressions.
#[derive(Clone, Copy, Debug, PartialEq, Eq, Structural)]
pub enum Operator {
    Plus,
    Minus,
    Multiplication,
    Division,
    Modulo,
    Exponentiation,
    Equal,
    NotEqual,
    Less,
    Greater,
    LessOrEqual,
    GreaterOrEqual,
    Not,
    And,
    Or,
    Xor,
    Address,
}

impl Operator {
    pub open spec fn spec_is_comparison_operator(&self) -> bool {
        matches!(self, Operator::Equal | Operator::NotEqual | Operator::Less | Operator::Greater
            | Operator::LessOrEqual | Operator::GreaterOrEqual)
    }

    #[verifier::when_used_as_spec(spec_is_comparison_operator)]
    pub fn is_comparison_operator(&self) -> (r: bool)
        ensures
            r == self.spec_is_comparison_operator(),
    {
        match self {
            Operator::Equal | Operator::NotEqual | Operator::Less | Operator::Greater
            | Operator::LessOrEqual | Operator::GreaterOrEqual => true,
            _ => false,
        }
    }
}

/// The width of a direct access (`%X`, `%B`, `%W`, `%D`, `%L`).
#[derive(Clone, Copy, Debug, PartialEq, Eq, Structural)]
pub enum DirectAccessType {
    Bit,
    Byte,
    Word,
    DWord,
    LWord,
}

impl DirectAccessType {
    pub open spec fn spec_bit_width(&self) -> u64 {
        match self {
            DirectAccessType::Bit => 1,
            DirectAccessType::Byte => 8,
            DirectAccessType::Word => 16,
            DirectAccessType::DWord => 32,
            DirectAccessType::LWord => 64,
        }
    }

    #[verifier::when_used_as_spec(spec_bit_width)]
    pub fn get_bit_width(&self) -> (r: u64)
        ensures
            r == self.spec_bit_width(),
    {
        match self {
            DirectAccessType::Bit => 1,
            DirectAccessType::Byte => 8,
            DirectAccessType::Word => 16,
            DirectAccessType::DWord => 32,
            DirectAccessType::LWord => 64,
        }
    }
}

/// The families of date and time literals.
#[derive(Clone, Copy, Debug, PartialEq, Eq, Structural)]
pub enum TimeKind {
    Date,
    DateAndTime,
    TimeOfDay,
    Time,
}

/// A node of the tree: what it is, where it stands, and its identity.
#[derive(Debug, PartialEq)]
pub struct AstStatement {
    pub kind: AstKind,
    pub location: SourceRange,
    pub id: usize,
}

/// A condition with the statements it guards (an `IF`/`ELSIF` branch or a case block).
#[derive(Debug, PartialEq)]
pub struct ConditionalBlock {
    pub condition: Box<AstStatement>,
    pub body: Vec<AstStatement>,
}

#[derive(Debug, PartialEq)]
pub enum AstKind {
    EmptyStatement,
    LiteralInteger { value: i128 },
    LiteralReal { value: String },
    LiteralBool { value: bool },
    LiteralString { value: String, is_wide: bool },
    LiteralTime { kind: TimeKind, nanoseconds: i128 },
    LiteralArray { elements: Option<Box<AstStatement>> },
    LiteralNull,
    Reference { name: String },
    QualifiedReference { elements: Vec<AstStatement> },
    ArrayAccess { reference: Box<AstStatement>, access: Box<AstStatement> },
    PointerAccess { reference: Box<AstStatement> },
    DirectAccess { access: DirectAccessType, index: Box<AstStatement> },
    HardwareAccess { access: DirectAccessType, address: Vec<u32> },
    BinaryExpression { operator: Operator, left: Box<AstStatement>, right: Box<AstStatement> },
    UnaryExpression { operator: Operator, value: Box<AstStatement> },
    CastStatement { data_type: String, target: Box<AstStatement> },
    ExpressionList { expressions: Vec<AstStatement> },
    MultipliedStatement { multiplier: u32, element: Box<AstStatement> },
    RangeStatement { start: Box<AstStatement>, end: Box<AstStatement> },
    Assignment { left: Box<AstStatement>, right: Box<AstStatement> },
    OutputAssignment { left: Box<AstStatement>, right: Box<AstStatement> },
    CallStatement { operator: Box<AstStatement>, parameters: Option<Box<AstStatement>> },
    IfStatement { blocks: Vec<ConditionalBlock>, else_block: Vec<AstStatement> },
    ForLoopStatement {
        counter: Box<AstStatement>,
        start: Box<AstStatement>,
        end: Box<AstStatement>,
        by_step: Option<Box<AstStatement>>,
        body: Vec<AstStatement>,
    },
    WhileLoopStatement { condition: Box<AstStatement>, body: Vec<AstStatement> },
    RepeatLoopStatement { condition: Box<AstStatement>, body: Vec<AstStatement> },
    CaseStatement {
        selector: Box<AstStatement>,
        case_blocks: Vec<ConditionalBlock>,
        else_block: Vec<AstStatement>,
    },
    CaseCondition { condition: Box<AstStatement> },
    ExitStatement,
    ContinueStatement,
    ReturnStatement,
}

impl AstStatement {
    /// Whether the node denotes a storage location that can stand on the left of `:=`.
    pub open spec fn spec_can_be_assigned_to(&self) -> bool {
        matches!(self.kind, AstKind::Reference { .. } | AstKind::QualifiedReference { .. }
            | AstKind::ArrayAccess { .. } | AstKind::PointerAccess { .. } | AstKind::DirectAccess { .. })
    }

    #[verifier::when_used_as_spec(spec_can_be_assigned_to)]
    pub fn can_be_assigned_to(&self) -> (r: bool)
        ensures
            r == self.spec_can_be_assigned_to(),
    {
        match &self.kind {
            AstKind::Reference { .. } | AstKind::QualifiedReference { .. }
            | AstKind::ArrayAccess { .. } | AstKind::PointerAccess { .. }
            | AstKind::DirectAccess { .. } => true,
            _ => false,
        }
    }

    pub open spec fn spec_is_literal(&self) -> bool {
        matches!(self.kind, AstKind::LiteralInteger { .. } | AstKind::LiteralReal { .. }
            | AstKind::LiteralBool { .. } | AstKind::LiteralString { .. } | AstKind::LiteralTime { .. }
            | AstKind::LiteralArray { .. } | AstKind::LiteralNull)
    }

    #[verifier::when_used_as_spec(spec_is_literal)]
    pub fn is_literal(&self) -> (r: bool)
        ensures
            r == self.spec_is_literal(),
    {
        match &self.kind {
            AstKind::LiteralInteger { .. } | AstKind::LiteralReal { .. } | AstKind::LiteralBool { .. }
            | AstKind::LiteralString { .. } | AstKind::LiteralTime { .. }
            | AstKind::LiteralArray { .. } | AstKind::LiteralNull => true,
            _ => false,
        }
    }

    /// Whether a type prefix (`T#...`) may stand before this node: a scalar literal
    /// (number, boolean, string, date or time) or a reference to a variable.
    pub open spec fn spec_is_cast_prefix_eligible(&self) -> bool {
        matches!(self.kind, AstKind::LiteralInteger { .. } | AstKind::LiteralReal { .. }
            | AstKind::LiteralBool { .. } | AstKind::LiteralString { .. } | AstKind::LiteralTime { .. }
            | AstKind::Reference { .. } | AstKind::QualifiedReference { .. })
    }

    #[verifier::when_used_as_spec(spec_is_cast_prefix_eligible)]
    pub fn is_cast_prefix_eligible(&self) -> (r: bool)
        ensures
            r == self.spec_is_cast_prefix_eligible(),
    {
        match &self.kind {
            AstKind::LiteralInteger { .. } | AstKind::LiteralReal { .. } | AstKind::LiteralBool { .. }
            | AstKind::LiteralString { .. } | AstKind::LiteralTime { .. }
            | AstKind::Reference { .. } | AstKind::QualifiedReference { .. } => true,
            _ => false,
        }
    }
}

} // verus!
