//! What holds of types.

use std::sync::Arc;

use vstd::prelude::*;

use crate::dtype::DType;
use crate::dtype::Nullability;
use crate::dtype::PType;
use crate::error::ListError;

verus! {

/// The rows of a list type may be null if and only if the type says so, whatever type its
/// elements are of.
pub proof fn rows_of_a_list_type_are_null_as_it_says(
    element: Arc<DType>,
    nullability: Nullability,
    res: bool,
)
    requires
        call_ensures(DType::is_nullable, (&DType::List(element, nullability),), res),
    ensures
        res <==> nullability == Nullability::Nullable,
        DType::List(element, nullability).nullable() == res,
{
}

/// Whether values of a type may be null depends on nothing but the nullability that it carries.
/// Values of the null type always may; values of an extension type may if those of its storage
/// type may.
pub proof fn values_of_a_type_are_null_as_it_says(dtype: DType, res: bool, storage: bool)
    requires
        call_ensures(DType::is_nullable, (&dtype,), res),
        dtype matches DType::Extension(ext) ==> call_ensures(
            DType::is_nullable,
            (&ext.storage,),
            storage,
        ),
    ensures
        dtype is Null ==> res,
        dtype is Extension ==> res == storage,
        dtype matches DType::Bool(n) ==> (res <==> n == Nullability::Nullable),
        dtype matches DType::Primitive(_, n) ==> (res <==> n == Nullability::Nullable),
        dtype matches DType::Utf8(n) ==> (res <==> n == Nullability::Nullable),
        dtype matches DType::Binary(n) ==> (res <==> n == Nullability::Nullable),
        dtype matches DType::List(_, n) ==> (res <==> n == Nullability::Nullable),
        dtype matches DType::FixedSizeList(_, _, n) ==> (res <==> n == Nullability::Nullable),
        dtype matches DType::Struct(_, n) ==> (res <==> n == Nullability::Nullable),
        dtype matches DType::Decimal { nullability, .. } ==> (res <==> nullability
            == Nullability::Nullable),
{
}

/// A list type has its element type, and no other type has one.
pub proof fn only_list_types_have_an_element_type(dtype: DType, res: Option<&Arc<DType>>)
    requires
        call_ensures(DType::as_list_element_opt, (&dtype,), res),
    ensures
        res is Some <==> dtype is List,
        dtype matches DType::List(element, _) ==> res matches Some(e) && **e == *element,
        dtype matches DType::List(element, _) ==> dtype.list_element() == Some(*element),
        !(dtype is List) ==> dtype.list_element() is None,
{
}

/// A type that is made of no other types is the same as itself, and as no other type.
pub proof fn plain_types_are_the_same_if_equal(dtype: DType, other: DType, res: bool)
    requires
        call_ensures(DType::is_same, (&dtype, &other), res),
        !(dtype is List || dtype is FixedSizeList || dtype is Struct || dtype is Extension),
    ensures
        res <==> dtype == other,
{
}

/// Two types that are made of other types are the same if and only if they are made in the same
/// way of types that are the same.
pub proof fn made_up_types_are_the_same_by_their_parts(dtype: DType, other: DType, res: bool)
    requires
        call_ensures(DType::is_same, (&dtype, &other), res),
    ensures
        dtype matches DType::List(a, m) ==> (res <==> (other matches DType::List(b, n) && m == n
            && a.same(*b))),
        dtype matches DType::FixedSizeList(a, k, m) ==> (res <==> (
        other matches DType::FixedSizeList(b, l, n) && k == l && m == n && a.same(*b))),
        dtype matches DType::Struct(a, m) ==> (res <==> (other matches DType::Struct(b, n) && m == n
            && a@.len() == b@.len() && forall|i: int|
            #![trigger a@[i]]
            0 <= i < a@.len() ==> a@[i].name@ == b@[i].name@ && a@[i].dtype.same(b@[i].dtype))),
        dtype matches DType::Extension(a) ==> (res <==> (other matches DType::Extension(b) && a.id@
            == b.id@ && a.metadata is Some == b.metadata is Some && (a.metadata is Some
            ==> a.metadata->0@ == b.metadata->0@) && a.storage.same(b.storage))),
{
}

/// The copy of a type is equal to it.
pub proof fn a_type_is_copied_as_it_is(dtype: DType, copy: DType)
    requires
        call_ensures(<DType as Clone>::clone, (&dtype,), copy),
    ensures
        copy == dtype,
{
}

/// The numbers 0 to 10 stand for physical types, each for the type that has it as its code.
pub proof fn numbers_stand_for_the_types_with_these_codes(
    code: i32,
    res: Result<PType, ListError>,
    back: i32,
)
    requires
        call_ensures(PType::from_code, (code,), res),
        res matches Ok(ptype) ==> call_ensures(PType::code, (ptype,), back),
    ensures
        res is Ok <==> 0 <= code <= 10,
        res is Ok ==> back == code,
        res matches Err(e) ==> e == (ListError::InvalidPType { code }),
{
}

} // verus!
