//! Runtime values passed across the JIT boundary. Floating-point
//! values travel as their raw bit patterns; reference values are shared
//! handles to published functions.

use vstd::prelude::*;
use crate::handle::Ref;

verus! {

/// The type of a runtime value.
#[derive(Clone, Copy, Debug, PartialEq, Eq, Structural)]
pub enum ValType {
    /// 32-bit integer.
    I32,
    /// 64-bit integer.
    I64,
    /// 32-bit float, carried as bits.
    F32,
    /// 64-bit float, carried as bits.
    F64,
    /// An opaque reference.
    AnyRef,
    /// A function reference.
    FuncRef,
}

/// A callable compiled function, identified by its published code
/// range.
#[derive(Clone, Copy, Debug, PartialEq, Eq, Structural)]
pub struct Func {
    /// Absolute address of the function's code.
    pub start: usize,
    /// Length in bytes of the function's code.
    pub len: usize,
}

/// An opaque reference value: null, or a function.
#[derive(Clone)]
pub enum AnyRef {
    /// The null reference.
    Null,
    /// A reference to a function.
    Func(Ref<Func>),
}

impl AnyRef {
    /// The null reference.
    pub fn null() -> (r: AnyRef)
        ensures
            r is Null,
    {
        AnyRef::Null
    }
}

/// A runtime value.
#[derive(Clone)]
pub enum Val {
    /// A 32-bit integer.
    I32(i32),
    /// A 64-bit integer.
    I64(i64),
    /// The bits of a 32-bit float.
    F32(u32),
    /// The bits of a 64-bit float.
    F64(u64),
    /// An opaque reference.
    AnyRef(AnyRef),
    /// A function reference.
    FuncRef(Ref<Func>),
}

impl Val {
    /// The default value: the null reference.
    pub fn default() -> (r: Val)
        ensures
            r matches Val::AnyRef(a) && a is Null,
    {
        Val::AnyRef(AnyRef::null())
    }

    /// The type of the value.
    pub fn ty(&self) -> (r: ValType)
        ensures
            r == (match self {
                Val::I32(_) => ValType::I32,
                Val::I64(_) => ValType::I64,
                Val::F32(_) => ValType::F32,
                Val::F64(_) => ValType::F64,
                Val::AnyRef(_) => ValType::AnyRef,
                Val::FuncRef(_) => ValType::FuncRef,
            }),
    {
        match self {
            Val::I32(_) => ValType::I32,
            Val::I64(_) => ValType::I64,
            Val::F32(_) => ValType::F32,
            Val::F64(_) => ValType::F64,
            Val::AnyRef(_) => ValType::AnyRef,
            Val::FuncRef(_) => ValType::FuncRef,
        }
    }

    /// A 32-bit float value from its bits.
    pub fn from_f32_bits(v: u32) -> (r: Val)
        ensures
            r == Val::F32(v),
    {
        Val::F32(v)
    }

    /// A 64-bit float value from its bits.
    pub fn from_f64_bits(v: u64) -> (r: Val)
        ensures
            r == Val::F64(v),
    {
        Val::F64(v)
    }
}

impl From<i32> for Val {
    /// A 32-bit integer value.
    fn from(val: i32) -> (r: Val) {
        Val::I32(val)
    }
}

impl vstd::std_specs::convert::FromSpecImpl<i32> for Val {
    open spec fn obeys_from_spec() -> bool {
        true
    }

    open spec fn from_spec(val: i32) -> Val {
        Val::I32(val)
    }
}

impl From<i64> for Val {
    /// A 64-bit integer value.
    fn from(val: i64) -> (r: Val) {
        Val::I64(val)
    }
}

impl vstd::std_specs::convert::FromSpecImpl<i64> for Val {
    open spec fn obeys_from_spec() -> bool {
        true
    }

    open spec fn from_spec(val: i64) -> Val {
        Val::I64(val)
    }
}

impl From<AnyRef> for Val {
    /// A reference value; a function reference stays one.
    fn from(val: AnyRef) -> (r: Val) {
        match val {
            AnyRef::Func(f) => Val::FuncRef(f),
            AnyRef::Null => Val::AnyRef(AnyRef::Null),
        }
    }
}

impl vstd::std_specs::convert::FromSpecImpl<AnyRef> for Val {
    open spec fn obeys_from_spec() -> bool {
        true
    }

    open spec fn from_spec(val: AnyRef) -> Val {
        match val {
            AnyRef::Func(f) => Val::FuncRef(f),
            AnyRef::Null => Val::AnyRef(AnyRef::Null),
        }
    }
}

impl From<Ref<Func>> for Val {
    /// A function-reference value.
    fn from(val: Ref<Func>) -> (r: Val) {
        Val::FuncRef(val)
    }
}

impl vstd::std_specs::convert::FromSpecImpl<Ref<Func>> for Val {
    open spec fn obeys_from_spec() -> bool {
        true
    }

    open spec fn from_spec(val: Ref<Func>) -> Val {
        Val::FuncRef(val)
    }
}

impl From<Ref<Func>> for AnyRef {
    /// A function reference.
    fn from(r: Ref<Func>) -> (a: AnyRef) {
        AnyRef::Func(r)
    }
}

impl vstd::std_specs::convert::FromSpecImpl<Ref<Func>> for AnyRef {
    open spec fn obeys_from_spec() -> bool {
        true
    }

    open spec fn from_spec(r: Ref<Func>) -> AnyRef {
        AnyRef::Func(r)
    }
}

} // verus!
