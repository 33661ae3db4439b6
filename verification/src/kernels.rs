//! The functions of the array library that list columns are made with.
//!
//! Elements go through the array library as positions: a column of positions stands for the
//! column of the elements at those positions.

use vortex_array::arrays;
use vortex_array::arrays::BoolArray;
use vortex_array::arrays::PrimitiveArray;
use vortex_array::compute;
use vortex_array::validity::Validity;
use vortex_array::Array;
use vortex_array::IntoArray;
use vortex_array::ToCanonical;
use vortex_mask::Mask;
use vstd::prelude::*;

use crate::error::ListError;
use crate::lists::all_null;
use crate::lists::all_true;
use crate::lists::filtered;
use crate::lists::list_packed_elements;
use crate::lists::list_packed_offsets;
use crate::lists::list_rows;
use crate::lists::packed;
use crate::lists::row_valid;
use crate::lists::select;
use crate::lists::signed;
use crate::lists::unsigned;
use crate::lists::valid_list;
use crate::lists::valid_view;
use crate::lists::validity_view;
use crate::lists::view_packed_offsets;
use crate::lists::ListArray;
use crate::lists::ListChunk;
use crate::lists::PackedList;

verus! {

/// Calls `vortex_array::arrays::list_from_list_view` on the list view to which `to_listview`
/// canonicalizes a `vortex_array::arrays::ListArray`. The contract claims that the result has
/// the same rows packed: its offsets are the given ones moved to start at 0, and its elements
/// the given ones from the first offset to the last.
#[verifier::external_body]
fn pack_list(elements: &Vec<u64>, offsets: &Vec<i64>, validity: &Option<Vec<bool>>) -> (res:
    PackedList<u64>)
    requires
        valid_list(elements@.len(), signed(offsets@), validity_view(*validity)),
    ensures
        signed(res.offsets@) == list_packed_offsets(signed(offsets@)),
        res.elements@ == list_packed_elements(elements@, signed(offsets@)),
{
    let list = arrays::ListArray::new(
        PrimitiveArray::from_iter(elements.clone()).into_array(),
        PrimitiveArray::from_iter(offsets.clone()).into_array(),
        validity.clone().map_or(Validity::NonNullable, Validity::from_iter),
    );
    let list = arrays::list_from_list_view(list.into_array().to_listview());
    PackedList {
        offsets: (0..=list.len()).map(|i| list.offset_at(i) as i64).collect(),
        elements: list.elements().to_primitive().as_slice::<u64>().to_vec(),
    }
}

/// Calls `vortex_array::arrays::list_from_list_view` on a `vortex_array::arrays::ListViewArray`.
/// The contract claims that the elements of the rows that are not null come out one after the
/// other, cut by the sums of their sizes, with null rows empty. A list view without rows is left
/// out: the array library asserts, in builds that check assertions, that it is packed already.
#[verifier::external_body]
fn pack_list_view(
    elements: &Vec<u64>,
    offsets: &Vec<i64>,
    sizes: &Vec<i64>,
    validity: &Option<Vec<bool>>,
) -> (res: PackedList<u64>)
    requires
        valid_view(elements@.len(), signed(offsets@), signed(sizes@), validity_view(*validity)),
        sizes@.len() > 0,
    ensures
        signed(res.offsets@) == view_packed_offsets(signed(sizes@), validity_view(*validity)),
        res.elements@ == packed(
            elements@,
            signed(offsets@),
            signed(sizes@),
            validity_view(*validity),
            sizes@.len() as int,
        ),
{
    let list = arrays::list_from_list_view(arrays::ListViewArray::new(
        PrimitiveArray::from_iter(elements.clone()).into_array(),
        PrimitiveArray::from_iter(offsets.clone()).into_array(),
        PrimitiveArray::from_iter(sizes.clone()).into_array(),
        validity.clone().map_or(Validity::NonNullable, Validity::from_iter),
    ));
    PackedList {
        offsets: (0..=list.len()).map(|i| list.offset_at(i) as i64).collect(),
        elements: list.elements().to_primitive().as_slice::<u64>().to_vec(),
    }
}

/// Calls `vortex_array::compute::cast` from 64-bit signed to 64-bit unsigned integers, neither
/// nullable. The contract claims that it keeps the numbers, and fails if and only if one is
/// negative.
#[verifier::external_body]
pub(crate) fn cast(offsets: &Vec<i64>) -> (res: Result<Vec<u64>, vortex_error::VortexError>)
    ensures
        res is Ok <==> forall|i: int| 0 <= i < offsets@.len() ==> offsets@[i] >= 0,
        res matches Ok(r) ==> unsigned(r@) == signed(offsets@),
{
    let offsets = PrimitiveArray::from_iter(offsets.clone()).into_array();
    let dtype = vortex_dtype::DType::Primitive(
        vortex_dtype::PType::U64,
        vortex_dtype::Nullability::NonNullable,
    );
    compute::cast(offsets.as_ref(), &dtype).map(
        |array| array.to_primitive().as_slice::<u64>().to_vec(),
    )
}

/// Calls `vortex_array::compute::add_scalar` on 64-bit unsigned integers, not nullable. The
/// contract claims that it adds the number to each, and fails if and only if a sum overflows.
/// An array without items is left out: the array library takes the first item of a constant
/// array.
#[verifier::external_body]
pub(crate) fn add_scalar(offsets: &Vec<u64>, scalar: u64) -> (res: Result<
    Vec<u64>,
    vortex_error::VortexError,
>)
    requires
        offsets@.len() > 0,
    ensures
        res is Ok <==> forall|i: int|
            0 <= i < offsets@.len() ==> #[trigger] offsets@[i] + scalar <= u64::MAX,
        res matches Ok(r) ==> unsigned(r@) == Seq::new(
            offsets@.len(),
            |i: int| offsets@[i] + scalar,
        ),
{
    let offsets = PrimitiveArray::from_iter(offsets.clone()).into_array();
    let scalar = vortex_scalar::Scalar::primitive(scalar, vortex_dtype::Nullability::NonNullable);
    compute::add_scalar(offsets.as_ref(), scalar).map(
        |array| array.to_primitive().as_slice::<u64>().to_vec(),
    )
}

/// Calls `vortex_array::compute::sub_scalar` on 64-bit unsigned integers, not nullable. The
/// contract claims that it subtracts the number from each, and fails if and only if one is less
/// than the number. An array without items is left out, as for [`add_scalar`].
#[verifier::external_body]
pub(crate) fn sub_scalar(offsets: &Vec<u64>, scalar: u64) -> (res: Result<
    Vec<u64>,
    vortex_error::VortexError,
>)
    requires
        offsets@.len() > 0,
    ensures
        res is Ok <==> forall|i: int| 0 <= i < offsets@.len() ==> #[trigger] offsets@[i] >= scalar,
        res matches Ok(r) ==> unsigned(r@) == Seq::new(
            offsets@.len(),
            |i: int| offsets@[i] - scalar,
        ),
{
    let offsets = PrimitiveArray::from_iter(offsets.clone()).into_array();
    let scalar = vortex_scalar::Scalar::primitive(scalar, vortex_dtype::Nullability::NonNullable);
    compute::sub_scalar(offsets.as_ref(), scalar).map(
        |array| array.to_primitive().as_slice::<u64>().to_vec(),
    )
}

/// Calls `vortex_array::arrays::ListArray::try_new`. The contract claims that it succeeds if and
/// only if the offsets and the validity cut the elements into rows.
#[verifier::external_body]
fn list_try_new(elements: &Vec<u64>, offsets: &Vec<u64>, validity: &Option<Vec<bool>>) -> (res:
    Result<(), vortex_error::VortexError>)
    ensures
        res is Ok <==> valid_list(elements@.len(), unsigned(offsets@), validity_view(*validity)),
{
    arrays::ListArray::try_new(
        PrimitiveArray::from_iter(elements.clone()).into_array(),
        PrimitiveArray::from_iter(offsets.clone()).into_array(),
        validity.clone().map_or(
            Validity::NonNullable,
            |v| Validity::Array(BoolArray::from_iter(v).into_array()),
        ),
    ).map(|_| ())
}

/// Calls `vortex_array::compute::filter` on a `vortex_array::arrays::ListArray` and takes the
/// result apart. The contract claims that it keeps the rows at which the mask is true, in
/// order, with the elements under null rows unless [`filtered`] says that there are none; that
/// the result holds no elements but those of the column; and that it fails if and only if the
/// mask has another length than the column.
#[verifier::external_body]
fn filter(
    elements: &Vec<u64>,
    offsets: &Vec<u64>,
    validity: &Option<Vec<bool>>,
    mask: &Vec<bool>,
) -> (res: Result<ListArray<u64>, vortex_error::VortexError>)
    requires
        valid_list(elements@.len(), unsigned(offsets@), validity_view(*validity)),
    ensures
        res is Ok <==> mask@.len() == offsets@.len() - 1,
        res matches Ok(r) ==> {
            &&& filtered(elements@, unsigned(offsets@), validity_view(*validity), mask@, r)
            &&& forall|i: int|
                0 <= i < r.elements@.len() ==> elements@.contains(#[trigger] r.elements@[i])
        },
{
    let list = arrays::ListArray::new(
        PrimitiveArray::from_iter(elements.clone()).into_array(),
        PrimitiveArray::from_iter(offsets.clone()).into_array(),
        validity.clone().map_or(Validity::NonNullable, Validity::from_iter),
    );
    let mask = Mask::from_iter(mask.clone());
    let res = compute::filter(list.as_ref(), &mask)?;
    let list = arrays::list_from_list_view(res.to_listview());
    Ok(ListArray {
        elements: list.elements().to_primitive().as_slice::<u64>().to_vec(),
        offsets: (0..=list.len()).map(|i| list.offset_at(i) as u64).collect(),
        validity: validity.as_ref().map(|_| list.validity_mask().to_bit_buffer().iter().collect()),
    })
}

/// The positions of `n` elements.
pub open spec fn identity(n: nat) -> Seq<u64> {
    Seq::new(n, |i: int| i as u64)
}

/// The elements at the given positions.
pub open spec fn at_positions<T>(elements: Seq<T>, positions: Seq<u64>) -> Seq<T> {
    Seq::new(positions.len(), |i: int| elements[positions[i] as int])
}

/// Whether all positions are positions of `n` elements.
pub open spec fn in_bounds(positions: Seq<u64>, n: nat) -> bool {
    forall|i: int| 0 <= i < positions.len() ==> #[trigger] positions[i] < n
}

fn positions(n: usize) -> (res: Vec<u64>)
    ensures
        res@ == identity(n as nat),
{
    let mut res: Vec<u64> = Vec::new();
    let mut i: usize = 0;
    while i < n
        invariant
            i <= n,
            res@ == identity(i as nat),
        decreases n - i,
    {
        res.push(i as u64);
        i += 1;
        assert(res@ =~= identity(i as nat));
    }
    res
}

fn gather<T: Copy>(elements: &Vec<T>, positions: &Vec<u64>) -> (res: Vec<T>)
    requires
        in_bounds(positions@, elements@.len()),
    ensures
        res@ == at_positions(elements@, positions@),
{
    let n: usize = elements.len();
    let mut res: Vec<T> = Vec::new();
    let mut i: usize = 0;
    while i < positions.len()
        invariant
            n == elements@.len(),
            i <= positions@.len(),
            in_bounds(positions@, elements@.len()),
            res@ == at_positions(elements@, positions@.take(i as int)),
        decreases positions@.len() - i,
    {
        assert(positions@[i as int] < n);
        res.push(elements[positions[i] as usize]);
        i += 1;
        assert(res@ =~= at_positions(elements@, positions@.take(i as int)));
    }
    assert(positions@.take(i as int) =~= positions@);
    res
}

/// Packing positions and then taking the elements there packs the elements.
proof fn lemma_packed_positions<T>(
    elements: Seq<T>,
    offsets: Seq<int>,
    sizes: Seq<int>,
    validity: Option<Seq<bool>>,
    k: int,
)
    requires
        elements.len() <= u64::MAX,
        valid_view(elements.len(), offsets, sizes, validity),
        0 <= k <= offsets.len(),
    ensures
        in_bounds(
            packed(identity(elements.len()), offsets, sizes, validity, k),
            elements.len(),
        ),
        at_positions(
            elements,
            packed(identity(elements.len()), offsets, sizes, validity, k),
        ) == packed(elements, offsets, sizes, validity, k),
    decreases k,
{
    let ids = identity(elements.len());
    if k > 0 {
        lemma_packed_positions(elements, offsets, sizes, validity, k - 1);
        let before = packed(ids, offsets, sizes, validity, k - 1);
        let o = offsets[k - 1];
        let s = sizes[k - 1];
        if row_valid(validity, k - 1) {
            let piece = ids.subrange(o, o + s);
            assert(packed(ids, offsets, sizes, validity, k) == before + piece);
            assert(at_positions(elements, before + piece) =~= at_positions(elements, before)
                + elements.subrange(o, o + s));
        } else {
            assert(packed(ids, offsets, sizes, validity, k) =~= before);
            assert(packed(elements, offsets, sizes, validity, k) =~= packed(
                elements,
                offsets,
                sizes,
                validity,
                k - 1,
            ));
        }
    } else {
        assert(at_positions(elements, packed(ids, offsets, sizes, validity, k)) =~= packed(
            elements,
            offsets,
            sizes,
            validity,
            k,
        ));
    }
}

/// Packs a chunk: puts the elements of its rows one after the other, with offsets from 0 on. A
/// chunk of views without rows keeps its elements.
pub fn pack<T: Copy>(chunk: &ListChunk<T>) -> (res: PackedList<T>)
    requires
        chunk.wf(),
    ensures
        signed(res.offsets@) == chunk.packed_offsets(),
        res.elements@ == chunk.packed_elements(),
{
    match chunk {
        ListChunk::List { elements, offsets, validity } => {
            let ids = positions(elements.len());
            let list = pack_list(&ids, offsets, validity);
            let ghost start = signed(offsets@)[0];
            let ghost end = signed(offsets@).last();
            assert(at_positions(elements@, list.elements@) =~= elements@.subrange(start, end));
            PackedList { offsets: list.offsets, elements: gather(elements, &list.elements) }
        },
        ListChunk::ListView { elements, offsets, sizes, validity } => {
            if sizes.len() == 0 {
                // No row uses the elements, but they stay.
                let mut offsets: Vec<i64> = Vec::new();
                offsets.push(0);
                assert(signed(offsets@) =~= chunk.packed_offsets());
                let ids = positions(elements.len());
                assert(at_positions(elements@, ids@) =~= elements@);
                return PackedList { offsets, elements: gather(elements, &ids) };
            }
            let ids = positions(elements.len());
            let list = pack_list_view(&ids, offsets, sizes, validity);
            proof {
                lemma_packed_positions(
                    elements@,
                    signed(offsets@),
                    signed(sizes@),
                    validity_view(*validity),
                    sizes@.len() as int,
                );
            }
            PackedList { offsets: list.offsets, elements: gather(elements, &list.elements) }
        },
    }
}

/// The rows of the elements at the positions that the given rows hold.
spec fn rows_at_positions<T>(elements: Seq<T>, rows: Seq<Option<Seq<u64>>>) -> Seq<
    Option<Seq<T>>,
> {
    Seq::new(
        rows.len(),
        |i: int|
            match rows[i] {
                Some(row) => Some(at_positions(elements, row)),
                None => None,
            },
    )
}

/// Cutting positions into rows and then taking the elements there cuts the elements into rows.
proof fn lemma_rows_at_positions<T>(
    elements: Seq<T>,
    positions: Seq<u64>,
    offsets: Seq<int>,
    validity: Option<Seq<bool>>,
)
    requires
        valid_list(positions.len(), offsets, validity),
    ensures
        rows_at_positions(elements, list_rows(positions, offsets, validity)) == list_rows(
            at_positions(elements, positions),
            offsets,
            validity,
        ),
{
    let left = rows_at_positions(elements, list_rows(positions, offsets, validity));
    let right = list_rows(at_positions(elements, positions), offsets, validity);
    assert forall|i: int| 0 <= i < left.len() implies left[i] == right[i] by {
        if row_valid(validity, i) {
            assert(offsets[0] <= offsets[i] <= offsets[i + 1] <= offsets[offsets.len() - 1]);
            assert(at_positions(elements, positions.subrange(offsets[i], offsets[i + 1]))
                =~= at_positions(elements, positions).subrange(offsets[i], offsets[i + 1]));
        }
    }
    assert(left =~= right);
}

/// Selecting rows of positions and then taking the elements there selects rows of elements.
proof fn lemma_select_at_positions<T>(
    elements: Seq<T>,
    rows: Seq<Option<Seq<u64>>>,
    mask: Seq<bool>,
)
    requires
        rows.len() == mask.len(),
    ensures
        rows_at_positions(elements, select(rows, mask)) == select(
            rows_at_positions(elements, rows),
            mask,
        ),
    decreases rows.len(),
{
    let all = rows_at_positions(elements, rows);
    if rows.len() > 0 {
        lemma_select_at_positions(elements, rows.drop_last(), mask.drop_last());
        assert(rows_at_positions(elements, rows.drop_last()) =~= all.drop_last());
        let before = select(rows.drop_last(), mask.drop_last());
        if mask.last() {
            assert(rows_at_positions(elements, before + seq![rows.last()]) =~= rows_at_positions(
                elements,
                before,
            ) + seq![all.last()]);
        } else {
            assert(select(rows, mask) =~= before);
            assert(select(all, mask) =~= select(all.drop_last(), mask.drop_last()));
        }
    } else {
        assert(rows_at_positions(elements, select(rows, mask)) =~= select(all, mask));
    }
}

/// Makes a list column of its parts, unless they do not fit together.
pub fn try_list<T>(elements: Vec<T>, offsets: Vec<u64>, validity: Option<Vec<bool>>) -> (res:
    Result<ListArray<T>, ListError>)
    ensures
        match res {
            Ok(list) => {
                &&& list.wf()
                &&& list == (ListArray { elements, offsets, validity })
            },
            Err(e) => {
                &&& e == ListError::InvalidList
                &&& !valid_list(elements@.len(), unsigned(offsets@), validity_view(validity))
            },
        },
{
    let ids = positions(elements.len());
    match list_try_new(&ids, &offsets, &validity) {
        Ok(_) => Ok(ListArray { elements, offsets, validity }),
        Err(_) => Err(ListError::InvalidList),
    }
}

/// Keeps the rows at which the mask is true.
pub fn filter_list<T: Copy>(list: &ListArray<T>, mask: &Vec<bool>) -> (res: Result<
    ListArray<T>,
    ListError,
>)
    requires
        list.wf(),
    ensures
        match res {
            Ok(r) => {
                &&& mask@.len() == list.offsets@.len() - 1
                &&& filtered(
                    list.elements@,
                    unsigned(list.offsets@),
                    validity_view(list.validity),
                    mask@,
                    r,
                )
            },
            Err(e) => {
                &&& mask@.len() != list.offsets@.len() - 1
                &&& e == (ListError::MaskLength {
                    actual: mask@.len() as usize,
                    expected: (list.offsets@.len() - 1) as usize,
                })
            },
        },
{
    let ids = positions(list.elements.len());
    match filter(&ids, &list.offsets, &list.validity, mask) {
        Ok(r) => {
            let ghost offsets = unsigned(list.offsets@);
            let ghost validity = validity_view(list.validity);
            proof {
                let ids = ids@;
                assert forall|i: int| 0 <= i < r.elements@.len() implies #[trigger] r.elements@[i]
                    < list.elements@.len() by {
                    let j = ids.index_of(r.elements@[i]);
                    assert(ids.contains(r.elements@[i]));
                    assert(ids[j] == r.elements@[i]);
                }
                lemma_rows_at_positions(list.elements@, ids, offsets, validity);
                assert(at_positions(list.elements@, ids) =~= list.elements@);
                lemma_select_at_positions(
                    list.elements@,
                    list_rows(ids, offsets, validity),
                    mask@,
                );
                lemma_rows_at_positions(
                    list.elements@,
                    r.elements@,
                    unsigned(r.offsets@),
                    validity_view(r.validity),
                );
                lemma_rows_at_positions(list.elements@, ids, offsets, None);
                lemma_select_at_positions(list.elements@, list_rows(ids, offsets, None), mask@);
                lemma_rows_at_positions(list.elements@, r.elements@, unsigned(r.offsets@), None);
            }
            let elements = gather(&list.elements, &r.elements);
            let ghost runs = list_rows(elements@, unsigned(r.offsets@), None);
            assert(all_null(validity) && !all_true(mask@) ==> runs =~= Seq::new(
                runs.len(),
                |i: int| Some(Seq::<T>::empty()),
            )) by {
                if all_null(validity) && !all_true(mask@) {
                    let of_positions = list_rows(r.elements@, unsigned(r.offsets@), None);
                    assert forall|i: int| 0 <= i < runs.len() implies runs[i] == Some(
                        Seq::<T>::empty(),
                    ) by {
                        assert(of_positions[i] == Some(Seq::<u64>::empty()));
                        assert(at_positions(list.elements@, Seq::<u64>::empty()) =~= Seq::<
                            T,
                        >::empty());
                    }
                }
            }
            Ok(ListArray { elements, offsets: r.offsets, validity: r.validity })
        },
        Err(_) => Err(
            ListError::MaskLength { actual: mask.len(), expected: list.offsets.len() - 1 },
        ),
    }
}

} // verus!
