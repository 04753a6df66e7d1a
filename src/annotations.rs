//! What name resolution and type inference recorded on the nodes of the tree.
use vstd::prelude::*;
use crate::ast::AstStatement;
use crate::index::{ArgumentType, Index, PouIndexEntry, VariableType};
use crate::typesystem::{DataType, TypeNature};

verus! {

/// What a node was resolved to.
#[derive(Debug, PartialEq)]
pub enum StatementAnnotation {
    /// A value of the given type.
    Value { resulting_type: String },
    /// A variable.
    Variable {
        resulting_type: String,
        qualified_name: String,
        constant: bool,
        variable_type: VariableType,
        argument_type: ArgumentType,
    },
    /// A function, by the name it is called with.
    Function { return_type: String, qualified_name: String },
    /// A data type.
    Type { name: String },
    /// A program.
    Program { qualified_name: String },
}

/// The type an annotation gives its node, by name.
pub open spec fn annotation_type_name(a: StatementAnnotation) -> Option<Seq<char>> {
    match a {
        StatementAnnotation::Value { resulting_type } => Some(resulting_type@),
        StatementAnnotation::Variable { resulting_type, .. } => Some(resulting_type@),
        StatementAnnotation::Type { name } => Some(name@),
        StatementAnnotation::Program { qualified_name } => Some(qualified_name@),
        StatementAnnotation::Function { .. } => None,
    }
}

fn get_type_name(a: &StatementAnnotation) -> (r: Option<&String>)
    ensures
        match r {
            Some(n) => annotation_type_name(*a) == Some(n@),
            None => annotation_type_name(*a) is None,
        },
{
    match a {
        StatementAnnotation::Value { resulting_type } => Some(resulting_type),
        StatementAnnotation::Variable { resulting_type, .. } => Some(resulting_type),
        StatementAnnotation::Type { name } => Some(name),
        StatementAnnotation::Program { qualified_name } => Some(qualified_name),
        StatementAnnotation::Function { .. } => None,
    }
}

/// The name of the POU that calling a node with this annotation invokes.
pub open spec fn annotation_call_name(a: StatementAnnotation) -> Option<Seq<char>> {
    match a {
        StatementAnnotation::Function { qualified_name, .. } => Some(qualified_name@),
        StatementAnnotation::Program { qualified_name } => Some(qualified_name@),
        StatementAnnotation::Variable { resulting_type, .. } => Some(resulting_type@),
        _ => None,
    }
}

fn get_call_name(a: &StatementAnnotation) -> (r: Option<&String>)
    ensures
        match r {
            Some(n) => annotation_call_name(*a) == Some(n@),
            None => annotation_call_name(*a) is None,
        },
{
    match a {
        StatementAnnotation::Function { qualified_name, .. } => Some(qualified_name),
        StatementAnnotation::Program { qualified_name } => Some(qualified_name),
        StatementAnnotation::Variable { resulting_type, .. } => Some(resulting_type),
        _ => None,
    }
}

/// The value of the first entry for `id`.
pub open spec fn entry_for<V>(entries: Seq<(usize, V)>, id: usize) -> Option<V>
    decreases entries.len(),
{
    if entries.len() == 0 {
        None
    } else if entries[0].0 == id {
        Some(entries[0].1)
    } else {
        entry_for(entries.drop_first(), id)
    }
}

fn find_entry<V>(entries: &Vec<(usize, V)>, id: usize) -> (r: Option<&V>)
    ensures
        match r {
            Some(v) => entry_for(entries@, id) == Some(*v),
            None => entry_for(entries@, id) is None,
        },
{
    let mut i: usize = 0;
    assert(entries@.subrange(0, entries@.len() as int) =~= entries@);
    while i < entries.len()
        invariant
            i <= entries@.len(),
            entry_for(entries@, id) == entry_for(entries@.subrange(i as int, entries@.len() as int), id),
        decreases entries.len() - i,
    {
        let ghost rest = entries@.subrange(i as int, entries@.len() as int);
        assert(rest[0] == entries@[i as int]);
        if entries[i].0 == id {
            return Some(&entries[i].1);
        }
        assert(rest.drop_first() =~= entries@.subrange(i as int + 1, entries@.len() as int));
        i = i + 1;
    }
    None
}

/// The annotations of the nodes, the type hints (the type a node is expected to have from
/// its context), and the natures that generic parameters demand, each keyed by node identity.
#[derive(Debug, PartialEq)]
pub struct AnnotationMap {
    pub annotations: Vec<(usize, StatementAnnotation)>,
    pub hints: Vec<(usize, StatementAnnotation)>,
    pub generic_natures: Vec<(usize, TypeNature)>,
}

impl AnnotationMap {
    pub fn new() -> (r: AnnotationMap)
        ensures
            r.annotations@.len() == 0,
            r.hints@.len() == 0,
            r.generic_natures@.len() == 0,
    {
        AnnotationMap { annotations: Vec::new(), hints: Vec::new(), generic_natures: Vec::new() }
    }

    pub open spec fn spec_get(&self, s: AstStatement) -> Option<StatementAnnotation> {
        entry_for(self.annotations@, s.id)
    }

    pub fn get(&self, s: &AstStatement) -> (r: Option<&StatementAnnotation>)
        ensures
            match r {
                Some(a) => self.spec_get(*s) == Some(*a),
                None => self.spec_get(*s) is None,
            },
    {
        find_entry(&self.annotations, s.id)
    }

    pub open spec fn spec_get_hint(&self, s: AstStatement) -> Option<StatementAnnotation> {
        entry_for(self.hints@, s.id)
    }

    pub fn get_hint(&self, s: &AstStatement) -> (r: Option<&StatementAnnotation>)
        ensures
            match r {
                Some(a) => self.spec_get_hint(*s) == Some(*a),
                None => self.spec_get_hint(*s) is None,
            },
    {
        find_entry(&self.hints, s.id)
    }

    pub open spec fn spec_has_type_annotation(&self, s: AstStatement) -> bool {
        self.spec_get(s) is Some
    }

    pub fn has_type_annotation(&self, s: &AstStatement) -> (r: bool)
        ensures
            r == self.spec_has_type_annotation(*s),
    {
        self.get(s).is_some()
    }

    pub open spec fn spec_get_generic_nature(&self, s: AstStatement) -> Option<TypeNature> {
        entry_for(self.generic_natures@, s.id)
    }

    pub fn get_generic_nature(&self, s: &AstStatement) -> (r: Option<TypeNature>)
        ensures
            r == self.spec_get_generic_nature(*s),
    {
        match find_entry(&self.generic_natures, s.id) {
            Some(n) => Some(*n),
            None => None,
        }
    }

    /// The type of a node, read through aliases.
    pub open spec fn spec_get_type(&self, s: AstStatement, index: Index) -> Option<DataType> {
        match self.spec_get(s) {
            Some(a) => match annotation_type_name(a) {
                Some(n) => index.spec_effective_type_by_name(n),
                None => None,
            },
            None => None,
        }
    }

    pub fn get_type<'a>(&self, s: &AstStatement, index: &'a Index) -> (r: Option<&'a DataType>)
        ensures
            match r {
                Some(t) => self.spec_get_type(*s, *index) == Some(*t),
                None => self.spec_get_type(*s, *index) is None,
            },
    {
        match self.get(s) {
            Some(a) => match get_type_name(a) {
                Some(n) => index.get_effective_type_by_name(n.as_str()),
                None => None,
            },
            None => None,
        }
    }

    /// The type a node is expected to have, read through aliases.
    pub open spec fn spec_get_type_hint(&self, s: AstStatement, index: Index) -> Option<DataType> {
        match self.spec_get_hint(s) {
            Some(a) => match annotation_type_name(a) {
                Some(n) => index.spec_effective_type_by_name(n),
                None => None,
            },
            None => None,
        }
    }

    pub fn get_type_hint<'a>(&self, s: &AstStatement, index: &'a Index) -> (r: Option<&'a DataType>)
        ensures
            match r {
                Some(t) => self.spec_get_type_hint(*s, *index) == Some(*t),
                None => self.spec_get_type_hint(*s, *index) is None,
            },
    {
        match self.get_hint(s) {
            Some(a) => match get_type_name(a) {
                Some(n) => index.get_effective_type_by_name(n.as_str()),
                None => None,
            },
            None => None,
        }
    }

    pub open spec fn spec_get_type_or_void(&self, s: AstStatement, index: Index) -> DataType {
        match self.spec_get_type(s, index) {
            Some(t) => t,
            None => index.void_type,
        }
    }

    pub fn get_type_or_void<'a>(&self, s: &AstStatement, index: &'a Index) -> (r: &'a DataType)
        ensures
            *r == self.spec_get_type_or_void(*s, *index),
    {
        match self.get_type(s, index) {
            Some(t) => t,
            None => &index.void_type,
        }
    }

    /// The POU that a call of the node invokes.
    pub open spec fn spec_find_called_pou(&self, s: AstStatement, index: Index) -> Option<PouIndexEntry> {
        match self.spec_get(s) {
            Some(a) => match annotation_call_name(a) {
                Some(n) => index.spec_find_pou(n),
                None => None,
            },
            None => None,
        }
    }

    pub fn find_called_pou<'a>(&self, s: &AstStatement, index: &'a Index) -> (r: Option<&'a PouIndexEntry>)
        ensures
            match r {
                Some(p) => self.spec_find_called_pou(*s, *index) == Some(*p),
                None => self.spec_find_called_pou(*s, *index) is None,
            },
    {
        match self.get(s) {
            Some(a) => match get_call_name(a) {
                Some(n) => index.find_pou(n.as_str()),
                None => None,
            },
            None => None,
        }
    }
}

} // verus!
