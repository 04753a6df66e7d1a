//! What validation reads: the index, the annotations, and the POU being validated.
use vstd::prelude::*;
use crate::annotations::AnnotationMap;
use crate::ast::AstStatement;
use crate::index::Index;
use crate::typesystem::DataType;

verus! {

/// The collaborators of one validation pass; `qualifier` names the POU whose body or
/// declarations are being validated.
pub struct ValidationContext<'a> {
    pub index: &'a Index,
    pub annotations: &'a AnnotationMap,
    pub qualifier: Option<&'a str>,
}

pub open spec fn type_of(ctx: &ValidationContext, s: AstStatement) -> Option<DataType> {
    ctx.annotations.spec_get_type(s, *ctx.index)
}

pub open spec fn hint_of(ctx: &ValidationContext, s: AstStatement) -> Option<DataType> {
    ctx.annotations.spec_get_type_hint(s, *ctx.index)
}

pub open spec fn type_or_void(ctx: &ValidationContext, s: AstStatement) -> DataType {
    ctx.annotations.spec_get_type_or_void(s, *ctx.index)
}

} // verus!
