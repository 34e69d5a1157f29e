//! The static types of the language, the typing errors, and what the type
//! checker records about variables and functions.

use vstd::prelude::*;

verus! {

/// The static classification of an expression.
#[derive(Debug, PartialEq, Eq)]
pub enum Types {
    Boolean,
    Number,
    UnitType,
    /// Not known yet: matches any type.
    Unknown,
    /// A shared reference.
    Ref(Box<Types>),
    /// An exclusive reference.
    MutRef(Box<Types>),
}

impl Types {
    /// The number of the variant. Two types agree when their numbers do.
    pub open spec fn id(self) -> int {
        match self {
            Types::Unknown => 0,
            Types::Boolean => 1,
            Types::Number => 2,
            Types::UnitType => 3,
            Types::Ref(_) => 4,
            Types::MutRef(_) => 5,
        }
    }

    /// Whether two types agree: they are the same variant.
    pub open spec fn agrees(self, other: Types) -> bool {
        self.id() == other.id()
    }

    pub fn get_type_id(&self) -> (id: i32)
        ensures
            id == self.id(),
    {
        match self {
            Types::Unknown => 0,
            Types::Boolean => 1,
            Types::Number => 2,
            Types::UnitType => 3,
            Types::Ref(_) => 4,
            Types::MutRef(_) => 5,
        }
    }

    /// Whether two types agree.
    pub fn same(&self, other: &Types) -> (r: bool)
        ensures
            r == self.agrees(*other),
    {
        self.get_type_id() == other.get_type_id()
    }

    /// A copy of the type.
    pub fn copy(&self) -> (r: Types)
        ensures
            r == *self,
        decreases *self,
    {
        match self {
            Types::Unknown => Types::Unknown,
            Types::Boolean => Types::Boolean,
            Types::Number => Types::Number,
            Types::UnitType => Types::UnitType,
            Types::Ref(t) => Types::Ref(Box::new(t.copy())),
            Types::MutRef(t) => Types::MutRef(Box::new(t.copy())),
        }
    }
}

impl Clone for Types {
    fn clone(&self) -> (r: Self)
        ensures
            r == *self,
    {
        self.copy()
    }
}

/// Why a check failed.
#[derive(Debug, Clone, Copy, PartialEq, Eq, Structural)]
pub enum TypeError {
    /// A name that no visible scope defines.
    UnboundName,
    /// Operand, initializer or assigned value of the wrong type.
    TypeMismatch,
    /// A condition that is not a Boolean.
    NotABoolean,
    /// A dereference of something that is no reference.
    NotAReference,
    /// A write through something that is no exclusive reference.
    InvalidAssignTarget,
    /// An assignment to a variable that was not declared mutable.
    ImmutableTarget,
    /// The branches of an `if`/`else` yield different types.
    BranchTypeMismatch,
    /// A function body that does not yield its declared return type.
    ReturnTypeMismatch,
    /// A call to a function that is not registered.
    UnknownFunction,
    /// A call with the wrong number or types of arguments.
    ArityOrTypeMismatch,
    /// A tree that the grammar cannot produce, such as an unknown type
    /// annotation or a binary node with a unary operator.
    Malformed,
}

/// What the checker knows about a variable.
#[derive(Debug, PartialEq, Eq)]
pub struct VarInfo {
    pub t: Types,
    pub mutable: bool,
}

impl View for VarInfo {
    type V = VarInfo;

    open spec fn view(&self) -> VarInfo {
        *self
    }
}

impl Clone for VarInfo {
    fn clone(&self) -> (r: Self)
        ensures
            r == *self,
    {
        VarInfo { t: self.t.copy(), mutable: self.mutable }
    }
}

/// What the checker knows about a function.
#[derive(Debug, PartialEq, Eq)]
pub struct FnInfo {
    pub ret: Types,
    pub params: Vec<Types>,
}

/// A function signature as a mathematical value.
pub ghost struct FnSig {
    pub ret: Types,
    pub params: Seq<Types>,
}

impl View for FnInfo {
    type V = FnSig;

    open spec fn view(&self) -> FnSig {
        FnSig { ret: self.ret, params: self.params@ }
    }
}

} // verus!
