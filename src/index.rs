//! The symbol index: data types and program organisation units, looked up by name.
use vstd::prelude::*;
use crate::text::same_text;
use crate::typesystem::{DataType, DataTypeInformation, TypeNature, POINTER_SIZE};

verus! {

/// The section a variable is declared in.
#[derive(Clone, Copy, Debug, PartialEq, Eq, Structural)]
pub enum VariableType {
    Local,
    Temp,
    Input,
    Output,
    InOut,
    Global,
    Return,
    External,
}

impl VariableType {
    pub open spec fn spec_is_private(&self) -> bool {
        matches!(*self, VariableType::Local | VariableType::Temp)
    }

    /// Local and temporary variables are visible only inside their POU.
    #[verifier::when_used_as_spec(spec_is_private)]
    pub fn is_private(&self) -> (r: bool)
        ensures
            r == self.spec_is_private(),
    {
        matches!(*self, VariableType::Local | VariableType::Temp)
    }
}

/// How a variable is passed: by value or by reference.
#[derive(Clone, Copy, Debug, PartialEq, Eq, Structural)]
pub enum ArgumentType {
    ByVal(VariableType),
    ByRef(VariableType),
}

impl ArgumentType {
    pub open spec fn spec_get_variable_type(&self) -> VariableType {
        match *self {
            ArgumentType::ByVal(t) => t,
            ArgumentType::ByRef(t) => t,
        }
    }

    #[verifier::when_used_as_spec(spec_get_variable_type)]
    pub fn get_variable_type(&self) -> (r: VariableType)
        ensures
            r == self.spec_get_variable_type(),
    {
        match *self {
            ArgumentType::ByVal(t) => t,
            ArgumentType::ByRef(t) => t,
        }
    }
}

/// A declared variable of a POU.
#[derive(Debug, PartialEq)]
pub struct VariableIndexEntry {
    pub name: String,
    pub qualified_name: String,
    pub data_type_name: String,
    pub argument_type: ArgumentType,
    pub location_in_parent: u32,
    pub is_constant: bool,
    /// The value of an integer initializer, where there is one.
    pub initial_value: Option<i128>,
}

impl VariableIndexEntry {
    pub open spec fn spec_is_parameter(&self) -> bool {
        matches!(self.argument_type.spec_get_variable_type(),
            VariableType::Input | VariableType::Output | VariableType::InOut)
    }

    #[verifier::when_used_as_spec(spec_is_parameter)]
    pub fn is_parameter(&self) -> (r: bool)
        ensures
            r == self.spec_is_parameter(),
    {
        matches!(self.argument_type.get_variable_type(),
            VariableType::Input | VariableType::Output | VariableType::InOut)
    }
}

/// The kinds of program organisation units.
#[derive(Clone, Copy, Debug, PartialEq, Eq, Structural)]
pub enum PouKind {
    Program,
    FunctionBlock,
    Function,
    Action,
    Method,
    Class,
}

/// A program organisation unit with its declared variables, in declaration order.
/// Actions and methods name the POU they belong to.
#[derive(Debug, PartialEq)]
pub struct PouIndexEntry {
    pub kind: PouKind,
    pub name: String,
    pub parent: Option<String>,
    pub members: Vec<VariableIndexEntry>,
}

impl PouIndexEntry {
    pub open spec fn spec_container(&self) -> Seq<char> {
        match self.parent {
            Some(p) => p@,
            None => self.name@,
        }
    }

    /// The POU whose variables this one sees: the parent of an action or method, else itself.
    pub fn get_container(&self) -> (r: &String)
        ensures
            r@ == self.spec_container(),
    {
        match &self.parent {
            Some(p) => p,
            None => &self.name,
        }
    }
}

pub open spec fn is_first_variable_named(vars: Seq<VariableIndexEntry>, name: Seq<char>, i: int) -> bool {
    &&& 0 <= i < vars.len()
    &&& vars[i].qualified_name@ == name
    &&& forall|j: int| 0 <= j < i ==> vars[j].qualified_name@ != name
}

/// The first variable of `vars` with the qualified name `name`.
pub open spec fn variable_named(vars: Seq<VariableIndexEntry>, name: Seq<char>) -> Option<VariableIndexEntry> {
    if exists|i: int| is_first_variable_named(vars, name, i) {
        Some(vars[choose|i: int| is_first_variable_named(vars, name, i)])
    } else {
        None
    }
}

fn find_variable_named<'a>(vars: &'a Vec<VariableIndexEntry>, name: &str) -> (r: Option<&'a VariableIndexEntry>)
    ensures
        match r {
            Some(v) => variable_named(vars@, name@) == Some(*v),
            None => variable_named(vars@, name@) is None,
        },
{
    let mut i: usize = 0;
    while i < vars.len()
        invariant
            i <= vars@.len(),
            forall|j: int| 0 <= j < i ==> vars@[j].qualified_name@ != name@,
        decreases vars.len() - i,
    {
        if same_text(vars[i].qualified_name.as_str(), name) {
            assert(is_first_variable_named(vars@, name@, i as int));
            let ghost k = choose|k: int| is_first_variable_named(vars@, name@, k);
            assert(k == i as int);
            return Some(&vars[i]);
        }
        i = i + 1;
    }
    None
}

/// The declared parameters (inputs, outputs and in-outs) among `members`, in order.
pub open spec fn parameters_of(members: Seq<VariableIndexEntry>) -> Seq<VariableIndexEntry>
    decreases members.len(),
{
    if members.len() == 0 {
        members
    } else if members.last().spec_is_parameter() {
        parameters_of(members.drop_last()).push(members.last())
    } else {
        parameters_of(members.drop_last())
    }
}

/// The entries that a sequence of references points to.
pub open spec fn deref_all(s: Seq<&VariableIndexEntry>) -> Seq<VariableIndexEntry> {
    s.map_values(|r: &VariableIndexEntry| *r)
}

/// The symbol table that validation reads.
#[derive(Debug, PartialEq)]
pub struct Index {
    pub types: Vec<DataType>,
    pub pous: Vec<PouIndexEntry>,
    pub globals: Vec<VariableIndexEntry>,
    /// What a lookup that finds nothing yields.
    pub void_type: DataType,
}

impl Index {
    /// An index with no types and no POUs.
    pub fn new() -> (r: Index)
        ensures
            r.types@.len() == 0,
            r.pous@.len() == 0,
            r.globals@.len() == 0,
            r.void_type.information is Void,
            r.void_type.nature == TypeNature::Any,
    {
        Index {
            types: Vec::new(),
            pous: Vec::new(),
            globals: Vec::new(),
            void_type: DataType {
                name: String::from_str("VOID"),
                information: DataTypeInformation::Void,
                nature: TypeNature::Any,
            },
        }
    }

    pub open spec fn is_first_type_named(&self, name: Seq<char>, i: int) -> bool {
        &&& 0 <= i < self.types@.len()
        &&& self.types@[i].name@ == name
        &&& forall|j: int| 0 <= j < i ==> self.types@[j].name@ != name
    }

    /// The first type registered under `name`.
    pub open spec fn spec_find_type(&self, name: Seq<char>) -> Option<DataType> {
        if exists|i: int| self.is_first_type_named(name, i) {
            Some(self.types@[choose|i: int| self.is_first_type_named(name, i)])
        } else {
            None
        }
    }

    pub fn find_type(&self, name: &str) -> (r: Option<&DataType>)
        ensures
            match r {
                Some(t) => self.spec_find_type(name@) == Some(*t),
                None => self.spec_find_type(name@) is None,
            },
    {
        let mut i: usize = 0;
        while i < self.types.len()
            invariant
                i <= self.types@.len(),
                forall|j: int| 0 <= j < i ==> self.types@[j].name@ != name@,
            decreases self.types.len() - i,
        {
            if same_text(self.types[i].name.as_str(), name) {
                assert(self.is_first_type_named(name@, i as int));
                let ghost k = choose|k: int| self.is_first_type_named(name@, k);
                assert(k == i as int);
                return Some(&self.types[i]);
            }
            i = i + 1;
        }
        None
    }

    pub open spec fn is_first_pou_named(&self, name: Seq<char>, i: int) -> bool {
        &&& 0 <= i < self.pous@.len()
        &&& self.pous@[i].name@ == name
        &&& forall|j: int| 0 <= j < i ==> self.pous@[j].name@ != name
    }

    /// The first POU registered under `name`.
    pub open spec fn spec_find_pou(&self, name: Seq<char>) -> Option<PouIndexEntry> {
        if exists|i: int| self.is_first_pou_named(name, i) {
            Some(self.pous@[choose|i: int| self.is_first_pou_named(name, i)])
        } else {
            None
        }
    }

    pub fn find_pou(&self, name: &str) -> (r: Option<&PouIndexEntry>)
        ensures
            match r {
                Some(p) => self.spec_find_pou(name@) == Some(*p),
                None => self.spec_find_pou(name@) is None,
            },
    {
        let mut i: usize = 0;
        while i < self.pous.len()
            invariant
                i <= self.pous@.len(),
                forall|j: int| 0 <= j < i ==> self.pous@[j].name@ != name@,
            decreases self.pous.len() - i,
        {
            if same_text(self.pous[i].name.as_str(), name) {
                assert(self.is_first_pou_named(name@, i as int));
                let ghost k = choose|k: int| self.is_first_pou_named(name@, k);
                assert(k == i as int);
                return Some(&self.pous[i]);
            }
            i = i + 1;
        }
        None
    }

    /// The variable of qualified name `name`: among the members of the POU named
    /// `qualifier` first, then among the globals.
    pub open spec fn spec_find_variable(&self, qualifier: Option<Seq<char>>, name: Seq<char>) -> Option<VariableIndexEntry> {
        let local = match qualifier {
            Some(q) => match self.spec_find_pou(q) {
                Some(p) => variable_named(p.members@, name),
                None => None,
            },
            None => None,
        };
        match local {
            Some(v) => Some(v),
            None => variable_named(self.globals@, name),
        }
    }

    pub fn find_variable(&self, qualifier: Option<&str>, name: &str) -> (r: Option<&VariableIndexEntry>)
        ensures
            match r {
                Some(v) => self.spec_find_variable(
                    match qualifier { Some(q) => Some(q@), None => None },
                    name@,
                ) == Some(*v),
                None => self.spec_find_variable(
                    match qualifier { Some(q) => Some(q@), None => None },
                    name@,
                ) is None,
            },
    {
        if let Some(q) = qualifier {
            if let Some(p) = self.find_pou(q) {
                if let Some(v) = find_variable_named(&p.members, name) {
                    return Some(v);
                }
            }
        }
        find_variable_named(&self.globals, name)
    }

    pub fn get_declared_parameters<'a>(&'a self, pou: &'a PouIndexEntry) -> (r: Vec<&'a VariableIndexEntry>)
        ensures
            deref_all(r@) == parameters_of(pou.members@),
    {
        let mut r: Vec<&'a VariableIndexEntry> = Vec::new();
        let mut i: usize = 0;
        while i < pou.members.len()
            invariant
                i <= pou.members@.len(),
                r@.len() == parameters_of(pou.members@.subrange(0, i as int)).len(),
                forall|k: int| 0 <= k < r@.len()
                    ==> *r@[k] == parameters_of(pou.members@.subrange(0, i as int))[k],
            decreases pou.members.len() - i,
        {
            let ghost before = pou.members@.subrange(0, i as int);
            assert(pou.members@.subrange(0, i as int + 1).drop_last() =~= before);
            if pou.members[i].is_parameter() {
                r.push(&pou.members[i]);
            }
            i = i + 1;
        }
        assert(pou.members@.subrange(0, pou.members@.len() as int) =~= pou.members@);
        assert(deref_all(r@) =~= parameters_of(pou.members@));
        r
    }

    /// Follows aliases (and, with `through_subrange`, subranges) to the type they stand for,
    /// at most `fuel` steps; a missing name or a chain longer than `fuel` yields the void type.
    pub open spec fn spec_resolve(&self, t: DataType, through_subrange: bool, fuel: nat) -> DataType
        decreases fuel,
    {
        let target = match t.information {
            DataTypeInformation::Alias { referenced_type } => Some(referenced_type),
            DataTypeInformation::SubRange { referenced_type, .. } => if through_subrange {
                Some(referenced_type)
            } else {
                None
            },
            _ => None,
        };
        match target {
            None => t,
            Some(name) => if fuel == 0 {
                self.void_type
            } else {
                match self.spec_find_type(name@) {
                    Some(next) => self.spec_resolve(next, through_subrange, (fuel - 1) as nat),
                    None => self.void_type,
                }
            },
        }
    }

    pub fn resolve<'a>(&'a self, t: &'a DataType, through_subrange: bool, fuel: usize) -> (r: &'a DataType)
        ensures
            *r == self.spec_resolve(*t, through_subrange, fuel as nat),
        decreases fuel,
    {
        let target = match &t.information {
            DataTypeInformation::Alias { referenced_type } => Some(referenced_type),
            DataTypeInformation::SubRange { referenced_type, .. } => if through_subrange {
                Some(referenced_type)
            } else {
                None
            },
            _ => None,
        };
        match target {
            None => t,
            Some(name) => if fuel == 0 {
                &self.void_type
            } else {
                match self.find_type(name.as_str()) {
                    Some(next) => self.resolve(next, through_subrange, fuel - 1),
                    None => &self.void_type,
                }
            },
        }
    }

    /// The type with aliases followed.
    pub open spec fn spec_effective(&self, t: DataType) -> DataType {
        self.spec_resolve(t, false, self.types@.len())
    }

    /// The type with aliases and subranges followed.
    pub open spec fn spec_intrinsic(&self, t: DataType) -> DataType {
        self.spec_resolve(t, true, self.types@.len())
    }

    pub fn find_effective_type<'a>(&'a self, t: &'a DataType) -> (r: &'a DataType)
        ensures
            *r == self.spec_effective(*t),
    {
        self.resolve(t, false, self.types.len())
    }

    pub fn find_intrinsic_type<'a>(&'a self, t: &'a DataType) -> (r: &'a DataType)
        ensures
            *r == self.spec_intrinsic(*t),
    {
        self.resolve(t, true, self.types.len())
    }

    pub open spec fn spec_effective_type_by_name(&self, name: Seq<char>) -> Option<DataType> {
        match self.spec_find_type(name) {
            Some(t) => Some(self.spec_effective(t)),
            None => None,
        }
    }

    pub fn get_effective_type_by_name(&self, name: &str) -> (r: Option<&DataType>)
        ensures
            match r {
                Some(t) => self.spec_effective_type_by_name(name@) == Some(*t),
                None => self.spec_effective_type_by_name(name@) is None,
            },
    {
        match self.find_type(name) {
            Some(t) => Some(self.find_effective_type(t)),
            None => None,
        }
    }

    pub open spec fn spec_effective_type_or_void_by_name(&self, name: Seq<char>) -> DataType {
        match self.spec_effective_type_by_name(name) {
            Some(t) => t,
            None => self.void_type,
        }
    }

    pub fn get_effective_type_or_void_by_name(&self, name: &str) -> (r: &DataType)
        ensures
            *r == self.spec_effective_type_or_void_by_name(name@),
    {
        match self.get_effective_type_by_name(name) {
            Some(t) => t,
            None => &self.void_type,
        }
    }

    pub open spec fn spec_type_or_void_by_name(&self, name: Seq<char>) -> DataType {
        match self.spec_find_type(name) {
            Some(t) => t,
            None => self.void_type,
        }
    }

    /// The type registered under `name` as it is, or the void type.
    pub fn get_type_or_void_by_name(&self, name: &str) -> (r: &DataType)
        ensures
            *r == self.spec_type_or_void_by_name(name@),
    {
        match self.find_type(name) {
            Some(t) => t,
            None => &self.void_type,
        }
    }

    pub open spec fn spec_intrinsic_or_void_by_name(&self, name: Seq<char>) -> DataType {
        match self.spec_find_type(name) {
            Some(t) => self.spec_intrinsic(t),
            None => self.void_type,
        }
    }

    pub fn get_intrinsic_or_void_by_name(&self, name: &str) -> (r: &DataType)
        ensures
            *r == self.spec_intrinsic_or_void_by_name(name@),
    {
        match self.find_type(name) {
            Some(t) => self.find_intrinsic_type(t),
            None => &self.void_type,
        }
    }
}

/// The size in bits of a representation that names no other type; zero for the others.
pub open spec fn leaf_size(info: DataTypeInformation) -> u64 {
    match info {
        DataTypeInformation::Integer { size, .. } => size as u64,
        DataTypeInformation::Float { size } => size as u64,
        DataTypeInformation::String { size, encoding } => (size as u64 * encoding.spec_char_width()) as u64,
        DataTypeInformation::Char { encoding } => encoding.spec_char_width(),
        DataTypeInformation::Pointer { .. } => POINTER_SIZE,
        DataTypeInformation::Array { size, .. } => size,
        DataTypeInformation::Struct { size, .. } => size,
        _ => 0,
    }
}

fn leaf_size_of(info: &DataTypeInformation) -> (r: u64)
    ensures
        r == leaf_size(*info),
{
    match info {
        DataTypeInformation::Integer { size, .. } => *size as u64,
        DataTypeInformation::Float { size } => *size as u64,
        DataTypeInformation::String { size, encoding } => {
            assert(*size as u64 * encoding.spec_char_width() <= 0xffff_ffff * 16) by (nonlinear_arith)
                requires
                    encoding.spec_char_width() <= 16,
            ;
            *size as u64 * encoding.char_width()
        },
        DataTypeInformation::Char { encoding } => encoding.char_width(),
        DataTypeInformation::Pointer { .. } => POINTER_SIZE,
        DataTypeInformation::Array { size, .. } => *size,
        DataTypeInformation::Struct { size, .. } => *size,
        _ => 0,
    }
}

impl Index {
    /// The size in bits of a type. Enums, subranges and aliases take the size of the
    /// type they are based on.
    pub open spec fn spec_size_in_bits(&self, t: DataType) -> u64 {
        match t.information {
            DataTypeInformation::Enum { referenced_type, .. }
            | DataTypeInformation::SubRange { referenced_type, .. }
            | DataTypeInformation::Alias { referenced_type } => {
                let base = self.spec_intrinsic_or_void_by_name(referenced_type@);
                match base.information {
                    DataTypeInformation::Enum { referenced_type: inner, .. } =>
                        leaf_size(self.spec_intrinsic_or_void_by_name(inner@).information),
                    _ => leaf_size(base.information),
                }
            },
            _ => leaf_size(t.information),
        }
    }

    pub fn get_size_in_bits(&self, t: &DataType) -> (r: u64)
        ensures
            r == self.spec_size_in_bits(*t),
    {
        match &t.information {
            DataTypeInformation::Enum { referenced_type, .. }
            | DataTypeInformation::SubRange { referenced_type, .. }
            | DataTypeInformation::Alias { referenced_type } => {
                let base = self.get_intrinsic_or_void_by_name(referenced_type.as_str());
                match &base.information {
                    DataTypeInformation::Enum { referenced_type: inner, .. } =>
                        leaf_size_of(&self.get_intrinsic_or_void_by_name(inner.as_str()).information),
                    _ => leaf_size_of(&base.information),
                }
            },
            _ => leaf_size_of(&t.information),
        }
    }

    /// The width an integer's values occupy (which may be less than its storage), else the size.
    pub open spec fn spec_semantic_size(&self, t: DataType) -> u64 {
        match t.information {
            DataTypeInformation::Integer { semantic_size: Some(s), .. } => s as u64,
            _ => self.spec_size_in_bits(t),
        }
    }

    pub fn get_semantic_size(&self, t: &DataType) -> (r: u64)
        ensures
            r == self.spec_semantic_size(*t),
    {
        match &t.information {
            DataTypeInformation::Integer { semantic_size: Some(s), .. } => *s as u64,
            _ => self.get_size_in_bits(t),
        }
    }

    /// Whether two types belong to the same class: integers with integers, floats with
    /// floats, strings and characters of one encoding, pointers and arrays whose element
    /// types are of one class (arrays with as many dimensions), other types by name.
    pub open spec fn spec_same_type_class(&self, l: DataType, r: DataType, fuel: nat) -> bool
        decreases fuel,
    {
        let li = self.spec_intrinsic(l);
        let ri = self.spec_intrinsic(r);
        match li.information {
            DataTypeInformation::Integer { .. } => ri.information is Integer,
            DataTypeInformation::Float { .. } => ri.information is Float,
            DataTypeInformation::String { encoding, .. } => match ri.information {
                DataTypeInformation::String { encoding: e, .. } => e == encoding,
                _ => false,
            },
            DataTypeInformation::Char { encoding } => match ri.information {
                DataTypeInformation::Char { encoding: e } => e == encoding,
                _ => false,
            },
            DataTypeInformation::Pointer { inner_type_name, .. } => match ri.information {
                DataTypeInformation::Pointer { inner_type_name: other, .. } => fuel > 0
                    && self.spec_same_type_class(
                    self.spec_effective_type_or_void_by_name(inner_type_name@),
                    self.spec_effective_type_or_void_by_name(other@),
                    (fuel - 1) as nat,
                ),
                _ => false,
            },
            DataTypeInformation::Array { inner_type_name, dimensions, .. } => match ri.information {
                DataTypeInformation::Array { inner_type_name: other, dimensions: d, .. } => fuel > 0
                    && dimensions@.len() == d@.len()
                    && self.spec_same_type_class(
                    self.spec_effective_type_or_void_by_name(inner_type_name@),
                    self.spec_effective_type_or_void_by_name(other@),
                    (fuel - 1) as nat,
                ),
                _ => false,
            },
            _ => li.name@ == ri.name@,
        }
    }

    fn same_type_class_within(&self, l: &DataType, r: &DataType, fuel: usize) -> (res: bool)
        ensures
            res == self.spec_same_type_class(*l, *r, fuel as nat),
        decreases fuel,
    {
        let li = self.find_intrinsic_type(l);
        let ri = self.find_intrinsic_type(r);
        match &li.information {
            DataTypeInformation::Integer { .. } => ri.information.is_int()
                && !matches!(ri.information, DataTypeInformation::Enum { .. }),
            DataTypeInformation::Float { .. } => ri.information.is_float(),
            DataTypeInformation::String { encoding, .. } => match &ri.information {
                DataTypeInformation::String { encoding: e, .. } => *e == *encoding,
                _ => false,
            },
            DataTypeInformation::Char { encoding } => match &ri.information {
                DataTypeInformation::Char { encoding: e } => *e == *encoding,
                _ => false,
            },
            DataTypeInformation::Pointer { inner_type_name, .. } => match &ri.information {
                DataTypeInformation::Pointer { inner_type_name: other, .. } => fuel > 0
                    && self.same_type_class_within(
                    self.get_effective_type_or_void_by_name(inner_type_name.as_str()),
                    self.get_effective_type_or_void_by_name(other.as_str()),
                    fuel - 1,
                ),
                _ => false,
            },
            DataTypeInformation::Array { inner_type_name, dimensions, .. } => match &ri.information {
                DataTypeInformation::Array { inner_type_name: other, dimensions: d, .. } => fuel > 0
                    && dimensions.len() == d.len()
                    && self.same_type_class_within(
                    self.get_effective_type_or_void_by_name(inner_type_name.as_str()),
                    self.get_effective_type_or_void_by_name(other.as_str()),
                    fuel - 1,
                ),
                _ => false,
            },
            _ => li.name == ri.name,
        }
    }

    /// The bound on nested pointer and array levels that a type-class comparison follows.
    pub open spec fn class_fuel(&self) -> nat {
        self.types@.len()
    }

    pub open spec fn spec_is_same_type_class(&self, l: DataType, r: DataType) -> bool {
        self.spec_same_type_class(l, r, self.class_fuel())
    }

    pub fn is_same_type_class(&self, l: &DataType, r: &DataType) -> (res: bool)
        ensures
            res == self.spec_is_same_type_class(*l, *r),
    {
        self.same_type_class_within(l, r, self.types.len())
    }

    /// Whether a type (read through aliases and subranges) has the given nature.
    pub open spec fn spec_has_nature(&self, t: DataType, nature: TypeNature) -> bool {
        self.spec_intrinsic(t).nature.spec_derives(nature)
    }

    pub fn has_nature(&self, t: &DataType, nature: TypeNature) -> (r: bool)
        ensures
            r == self.spec_has_nature(*t, nature),
    {
        self.find_intrinsic_type(t).nature.derives(nature)
    }
}

} // verus!
