//! Logical types.

use std::sync::Arc;

use vstd::prelude::*;

use crate::error::ListError;

verus! {

/// Whether the values of a type may be null.
#[derive(Clone, Copy, Debug, PartialEq, Eq, Structural)]
pub enum Nullability {
    NonNullable,
    Nullable,
}

/// The physical types of numbers.
#[derive(Clone, Copy, Debug, PartialEq, Eq, Structural)]
pub enum PType {
    U8,
    U16,
    U32,
    U64,
    I8,
    I16,
    I32,
    I64,
    F16,
    F32,
    F64,
}

/// The number that stands for a physical type in serialized metadata.
pub open spec fn ptype_code(ptype: PType) -> int {
    match ptype {
        PType::U8 => 0,
        PType::U16 => 1,
        PType::U32 => 2,
        PType::U64 => 3,
        PType::I8 => 4,
        PType::I16 => 5,
        PType::I32 => 6,
        PType::I64 => 7,
        PType::F16 => 8,
        PType::F32 => 9,
        PType::F64 => 10,
    }
}

/// Calls `vortex_dtype::PType::try_from` on an `i32`, which prost generates for the enumeration.
/// The contract claims that it succeeds on the codes 0 to 10, on each with the type that
/// [`ptype_code`] gives that code, and fails on every other number.
#[verifier::external_body]
fn ptype_try_from(code: i32) -> (res: Option<PType>)
    ensures
        res is Some <==> 0 <= code <= 10,
        res matches Some(ptype) ==> ptype_code(ptype) == code,
{
    match vortex_dtype::PType::try_from(code).ok()? {
        vortex_dtype::PType::U8 => Some(PType::U8),
        vortex_dtype::PType::U16 => Some(PType::U16),
        vortex_dtype::PType::U32 => Some(PType::U32),
        vortex_dtype::PType::U64 => Some(PType::U64),
        vortex_dtype::PType::I8 => Some(PType::I8),
        vortex_dtype::PType::I16 => Some(PType::I16),
        vortex_dtype::PType::I32 => Some(PType::I32),
        vortex_dtype::PType::I64 => Some(PType::I64),
        vortex_dtype::PType::F16 => Some(PType::F16),
        vortex_dtype::PType::F32 => Some(PType::F32),
        vortex_dtype::PType::F64 => Some(PType::F64),
    }
}

impl PType {
    /// The number that stands for this type in serialized metadata.
    pub fn code(self) -> (code: i32)
        ensures
            code == ptype_code(self),
            0 <= code <= 10,
    {
        match self {
            PType::U8 => 0,
            PType::U16 => 1,
            PType::U32 => 2,
            PType::U64 => 3,
            PType::I8 => 4,
            PType::I16 => 5,
            PType::I32 => 6,
            PType::I64 => 7,
            PType::F16 => 8,
            PType::F32 => 9,
            PType::F64 => 10,
        }
    }

    /// The type that a number stands for.
    pub fn from_code(code: i32) -> (res: Result<PType, ListError>)
        ensures
            match res {
                Ok(ptype) => ptype_code(ptype) == code,
                Err(e) => e == (ListError::InvalidPType { code }) && !(0 <= code <= 10),
            },
    {
        match ptype_try_from(code) {
            Some(ptype) => Ok(ptype),
            None => Err(ListError::InvalidPType { code }),
        }
    }
}

/// One field of a struct type.
#[derive(Debug)]
pub struct StructField {
    pub name: String,
    pub dtype: DType,
}

/// A user-defined type over a storage type.
#[derive(Debug)]
pub struct ExtDType {
    pub id: String,
    pub storage: DType,
    pub metadata: Option<Vec<u8>>,
}

/// The logical type of the values of a column.
#[derive(Debug)]
pub enum DType {
    Null,
    Bool(Nullability),
    Primitive(PType, Nullability),
    Decimal { precision: u8, scale: i8, nullability: Nullability },
    Utf8(Nullability),
    Binary(Nullability),
    List(Arc<DType>, Nullability),
    FixedSizeList(Arc<DType>, u32, Nullability),
    Struct(Arc<Vec<StructField>>, Nullability),
    Extension(Arc<ExtDType>),
}

impl DType {
    /// Whether values of this type may be null: the null type's always, an extension type's as
    /// its storage type says.
    pub open spec fn nullable(self) -> bool
        decreases self,
    {
        match self {
            DType::Null => true,
            DType::Bool(n) => n == Nullability::Nullable,
            DType::Primitive(_, n) => n == Nullability::Nullable,
            DType::Decimal { nullability, .. } => nullability == Nullability::Nullable,
            DType::Utf8(n) => n == Nullability::Nullable,
            DType::Binary(n) => n == Nullability::Nullable,
            DType::List(_, n) => n == Nullability::Nullable,
            DType::FixedSizeList(_, _, n) => n == Nullability::Nullable,
            DType::Struct(_, n) => n == Nullability::Nullable,
            DType::Extension(ext) => ext.storage.nullable(),
        }
    }

    pub fn is_nullable(&self) -> (res: bool)
        ensures
            res == self.nullable(),
        decreases self,
    {
        match self {
            DType::Null => true,
            DType::Bool(n) => *n == Nullability::Nullable,
            DType::Primitive(_, n) => *n == Nullability::Nullable,
            DType::Decimal { nullability, .. } => *nullability == Nullability::Nullable,
            DType::Utf8(n) => *n == Nullability::Nullable,
            DType::Binary(n) => *n == Nullability::Nullable,
            DType::List(_, n) => *n == Nullability::Nullable,
            DType::FixedSizeList(_, _, n) => *n == Nullability::Nullable,
            DType::Struct(_, n) => *n == Nullability::Nullable,
            DType::Extension(ext) => ext.storage.is_nullable(),
        }
    }

    /// The element type of a list type, and nothing for any other type, lists of a fixed size
    /// among them.
    pub open spec fn list_element(self) -> Option<DType> {
        match self {
            DType::List(element, _) => Some(*element),
            _ => None,
        }
    }

    pub fn as_list_element_opt(&self) -> (res: Option<&Arc<DType>>)
        ensures
            match res {
                Some(element) => self.list_element() == Some(**element),
                None => self.list_element() is None,
            },
    {
        match self {
            DType::List(element, _) => Some(element),
            _ => None,
        }
    }

    /// Whether two types are the same: the same variant with the same nullability and the same
    /// parameters, names by their characters, fields in order.
    pub open spec fn same(self, other: DType) -> bool
        decreases self,
    {
        match (self, other) {
            (DType::Null, DType::Null) => true,
            (DType::Bool(m), DType::Bool(n)) => m == n,
            (DType::Primitive(p, m), DType::Primitive(q, n)) => p == q && m == n,
            (
                DType::Decimal { precision: p, scale: s, nullability: m },
                DType::Decimal { precision: q, scale: t, nullability: n },
            ) => p == q && s == t && m == n,
            (DType::Utf8(m), DType::Utf8(n)) => m == n,
            (DType::Binary(m), DType::Binary(n)) => m == n,
            (DType::List(a, m), DType::List(b, n)) => m == n && a.same(*b),
            (DType::FixedSizeList(a, k, m), DType::FixedSizeList(b, l, n)) => k == l && m == n
                && a.same(*b),
            (DType::Struct(a, m), DType::Struct(b, n)) => {
                &&& m == n
                &&& a@.len() == b@.len()
                &&& forall|i: int|
                    #![trigger a@[i]]
                    #![trigger b@[i]]
                    0 <= i < a@.len() ==> a@[i].name@ == b@[i].name@ && a@[i].dtype.same(
                        b@[i].dtype,
                    )
            },
            (DType::Extension(a), DType::Extension(b)) => {
                &&& a.id@ == b.id@
                &&& match (a.metadata, b.metadata) {
                    (Some(c), Some(d)) => c@ == d@,
                    (None, None) => true,
                    _ => false,
                }
                &&& a.storage.same(b.storage)
            },
            _ => false,
        }
    }

    /// Compares two types.
    pub fn is_same(&self, other: &DType) -> (res: bool)
        ensures
            res == self.same(*other),
        decreases self,
    {
        match (self, other) {
            (DType::Null, DType::Null) => true,
            (DType::Bool(m), DType::Bool(n)) => *m == *n,
            (DType::Primitive(p, m), DType::Primitive(q, n)) => *p == *q && *m == *n,
            (
                DType::Decimal { precision: p, scale: s, nullability: m },
                DType::Decimal { precision: q, scale: t, nullability: n },
            ) => *p == *q && *s == *t && *m == *n,
            (DType::Utf8(m), DType::Utf8(n)) => *m == *n,
            (DType::Binary(m), DType::Binary(n)) => *m == *n,
            (DType::List(a, m), DType::List(b, n)) => *m == *n && a.is_same(b),
            (DType::FixedSizeList(a, k, m), DType::FixedSizeList(b, l, n)) => *k == *l && *m == *n
                && a.is_same(b),
            (DType::Struct(a, m), DType::Struct(b, n)) => {
                if *m != *n || a.len() != b.len() {
                    return false;
                }
                let mut i: usize = 0;
                while i < a.len()
                    invariant
                        self matches DType::Struct(fields, _) && fields == a,
                        other matches DType::Struct(fields, _) && fields == b,
                        a@.len() == b@.len(),
                        0 <= i <= a@.len(),
                        forall|j: int|
                            #![trigger a@[j]]
                            #![trigger b@[j]]
                            0 <= j < i ==> a@[j].name@ == b@[j].name@ && a@[j].dtype.same(
                                b@[j].dtype,
                            ),
                    decreases a@.len() - i,
                {
                    if a[i].name != b[i].name || !a[i].dtype.is_same(&b[i].dtype) {
                        return false;
                    }
                    i += 1;
                }
                true
            },
            (DType::Extension(a), DType::Extension(b)) => {
                let same_metadata = match (&a.metadata, &b.metadata) {
                    (Some(c), Some(d)) => same_bytes(c, d),
                    (None, None) => true,
                    _ => false,
                };
                a.id == b.id && same_metadata && a.storage.is_same(&b.storage)
            },
            _ => false,
        }
    }
}

impl Clone for DType {
    fn clone(&self) -> (res: Self)
        ensures
            res == *self,
    {
        match self {
            DType::Null => DType::Null,
            DType::Bool(n) => DType::Bool(*n),
            DType::Primitive(ptype, n) => DType::Primitive(*ptype, *n),
            DType::Decimal { precision, scale, nullability } => DType::Decimal {
                precision: *precision,
                scale: *scale,
                nullability: *nullability,
            },
            DType::Utf8(n) => DType::Utf8(*n),
            DType::Binary(n) => DType::Binary(*n),
            DType::List(element, n) => DType::List(element.clone(), *n),
            DType::FixedSizeList(element, size, n) => DType::FixedSizeList(
                element.clone(),
                *size,
                *n,
            ),
            DType::Struct(fields, n) => DType::Struct(fields.clone(), *n),
            DType::Extension(ext) => DType::Extension(ext.clone()),
        }
    }
}

/// Every type is the same as itself.
pub proof fn dtype_is_same_as_itself(dtype: &DType)
    ensures
        dtype.same(*dtype),
    decreases dtype,
{
    if dtype is List {
        dtype_is_same_as_itself(&*dtype->List_0);
    } else if dtype is FixedSizeList {
        dtype_is_same_as_itself(&*dtype->FixedSizeList_0);
    } else if dtype is Struct {
        let fields = dtype->Struct_0@;
        assert forall|i: int| 0 <= i < fields.len() implies (#[trigger] fields[i]).dtype.same(
            fields[i].dtype,
        ) by {
            dtype_is_same_as_itself(&fields[i].dtype);
        }
    } else if dtype is Extension {
        dtype_is_same_as_itself(&dtype->Extension_0.storage);
    }
}

fn same_bytes(a: &Vec<u8>, b: &Vec<u8>) -> (res: bool)
    ensures
        res == (a@ == b@),
{
    if a.len() != b.len() {
        return false;
    }
    let mut i: usize = 0;
    while i < a.len()
        invariant
            a@.len() == b@.len(),
            0 <= i <= a@.len(),
            forall|j: int| 0 <= j < i ==> a@[j] == b@[j],
        decreases a@.len() - i,
    {
        if a[i] != b[i] {
            return false;
        }
        i += 1;
    }
    assert(a@ =~= b@);
    true
}

} // verus!
