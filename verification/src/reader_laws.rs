//! What holds of reading list columns.

use std::collections::BTreeSet;
use std::ops::Range;
use std::sync::Arc;

use vstd::prelude::*;

use crate::dtype::DType;
use crate::dtype::Nullability;
use crate::error::ListError;
use crate::layout::role_at;
use crate::layout::ChildRole;
use crate::layout::ListLayout;
use crate::layout::ListVTable;
use crate::list_laws::keeps_selected_rows;
use crate::list_laws::lemma_filtered;
use crate::lists::all_true;
use crate::lists::list_packed_offsets;
use crate::lists::sorted;
use crate::lists::unsigned;
use crate::lists::validity_view;
use crate::lists::ListArray;
use crate::reader::assemble;
use crate::reader::combine;
use crate::reader::combined;
use crate::reader::expression_step;
use crate::reader::keep_selected;
use crate::reader::underflow;
use crate::reader::ChildRead;
use crate::reader::ExpressionStep;
use crate::reader::ListReader;
use crate::reader::ProjectionPlan;

verus! {

/// A reader of a list column can always be made. It gives back the layout and the name that it
/// was made of, and knows its children by their types and names: the elements by exactly the
/// element type of the list type, be its values null or not.
pub proof fn a_reader_knows_its_children<C>(
    layout: ListLayout<C>,
    element: Arc<DType>,
    nullability: Nullability,
    name: String,
    res: Result<ListReader<C>, ListError>,
    dtypes: &Vec<DType>,
    names: &Vec<String>,
    own_name: &String,
    own_layout: &ListLayout<C>,
    dtype: &DType,
    rows: u64,
)
    requires
        layout.dtype_spec() == DType::List(element, nullability),
        call_ensures(ListReader::<C>::try_new, (layout, name), res) || call_ensures(
            ListVTable::new_reader::<C>,
            (&layout, name),
            res,
        ),
        res matches Ok(reader) ==> {
            &&& call_ensures(ListReader::<C>::child_dtypes, (&reader,), dtypes)
            &&& call_ensures(ListReader::<C>::child_names, (&reader,), names)
            &&& call_ensures(ListReader::<C>::name, (&reader,), own_name)
            &&& call_ensures(ListReader::<C>::layout, (&reader,), own_layout)
            &&& call_ensures(ListReader::<C>::dtype, (&reader,), dtype)
            &&& call_ensures(ListReader::<C>::row_count, (&reader,), rows)
        },
    ensures
        call_requires(ListReader::<C>::try_new, (layout, name)),
        call_requires(ListVTable::new_reader::<C>, (&layout, name)),
        res is Ok,
        own_name@ == name@,
        *own_layout == layout,
        *dtype == layout.dtype_spec(),
        rows == layout.row_count_spec(),
        dtypes@.len() == names@.len(),
        nullability == Nullability::Nullable ==> {
            &&& dtypes@ == seq![
                DType::Bool(Nullability::NonNullable),
                layout.offsets_dtype_spec(),
                *element,
            ]
            &&& names@[0]@ == "validity"@
            &&& names@[1]@ == "offsets"@
            &&& names@[2]@ == "elements"@
        },
        nullability == Nullability::NonNullable ==> {
            &&& dtypes@ == seq![layout.offsets_dtype_spec(), *element]
            &&& names@[0]@ == "offsets"@
            &&& names@[1]@ == "elements"@
        },
{
    let reader = res->Ok_0;
    assert(role_at(true, 0) == Some(ChildRole::Validity));
    if nullability == Nullability::Nullable {
        assert(dtypes@[0] == reader.child_dtypes_spec()[0]);
        assert(dtypes@[1] == reader.child_dtypes_spec()[1]);
        assert(dtypes@[2] == reader.child_dtypes_spec()[2]);
        assert(names@[0] == reader.child_names_spec()[0]);
        assert(names@[1] == reader.child_names_spec()[1]);
        assert(names@[2] == reader.child_names_spec()[2]);
    } else {
        assert(dtypes@[0] == reader.child_dtypes_spec()[0]);
        assert(dtypes@[1] == reader.child_dtypes_spec()[1]);
        assert(names@[0] == reader.child_names_spec()[0]);
        assert(names@[1] == reader.child_names_spec()[1]);
    }
}

/// Each read that is planned goes to the child that holds what is read: of the validity, where
/// rows may be null, the rows themselves, and of the offsets one more than there are rows. Every
/// read asks for as many rows as lie between its start and its end.
pub proof fn planned_reads_go_to_the_children_that_hold_them<C>(
    reader: ListReader<C>,
    element: Arc<DType>,
    nullability: Nullability,
    rows: Range<u64>,
    plan: ProjectionPlan,
)
    requires
        reader.layout_spec().dtype_spec() == DType::List(element, nullability),
        call_ensures(ListReader::<C>::plan_projection, (&reader, &rows), plan),
        rows.start <= rows.end < u64::MAX,
        rows.end - rows.start < usize::MAX,
    ensures
        call_requires(ListReader::<C>::plan_projection, (&reader, &rows)),
        ({
            let nullable = nullability == Nullability::Nullable;
            &&& plan.validity is Some <==> nullable
            &&& plan.validity matches Some(read) ==> {
                &&& read.child == 0
                &&& role_at(nullable, read.child as int) == Some(ChildRole::Validity)
                &&& read.start == rows.start
                &&& read.end == rows.end
                &&& read.len == read.end - read.start
            }
            &&& plan.offsets.child == if nullable {
                1
            } else {
                0int
            }
            &&& role_at(nullable, plan.offsets.child as int) == Some(ChildRole::Offsets)
            &&& plan.offsets.start == rows.start
            &&& plan.offsets.end == rows.end + 1
            &&& plan.offsets.len == plan.offsets.end - plan.offsets.start
            &&& plan.elements_child == plan.offsets.child + 1
            &&& role_at(nullable, plan.elements_child as int) == Some(ChildRole::Elements)
        }),
{
}

/// The elements that are read are those from the first offset to the last, of the child that the
/// plan names.
pub proof fn elements_are_read_between_the_first_offset_and_the_last(
    plan: ProjectionPlan,
    offsets: Vec<u64>,
    read: ChildRead,
)
    requires
        call_ensures(ProjectionPlan::elements_read, (&plan, &offsets), read),
        offsets@.len() > 0,
        offsets@[0] <= offsets@[offsets@.len() - 1],
        offsets@[offsets@.len() - 1] - offsets@[0] <= usize::MAX,
    ensures
        call_requires(ProjectionPlan::elements_read, (&plan, &offsets)),
        read.child == plan.elements_child,
        read.start == offsets@[0],
        read.end == offsets@[offsets@.len() - 1],
        read.len == read.end - read.start,
{
}

/// What was read makes up a column if and only if no offset is less than the one before, there
/// are as many elements as the offsets span, or more, and there is a validity for each row or
/// none at all. The column has the elements and the validity as they were read, and the offsets
/// as far as they are from the first. An offset that is less than the first is told from other
/// misfits.
pub proof fn what_fits_is_put_together<T>(
    offsets: Vec<u64>,
    elements: Vec<T>,
    validity: Option<Vec<bool>>,
    res: Result<ListArray<T>, ListError>,
)
    requires
        offsets@.len() > 0,
        call_ensures(combine::<T>, (&offsets, elements, validity), res),
    ensures
        call_requires(combine::<T>, (&offsets, elements, validity)),
        ({
            let n = offsets@.len();
            &&& res is Ok <==> {
                &&& forall|i: int, j: int| 0 <= i <= j < n ==> offsets@[i] <= offsets@[j]
                &&& offsets@[n - 1] - offsets@[0] <= elements@.len()
                &&& validity matches Some(v) ==> v@.len() == n - 1
            }
            &&& res matches Ok(list) ==> {
                &&& list.wf()
                &&& list.elements@ == elements@
                &&& list.offsets@.len() == n
                &&& forall|i: int|
                    0 <= i < n ==> #[trigger] list.offsets@[i] == offsets@[i] - offsets@[0]
                &&& list.validity is Some <==> validity is Some
                &&& validity matches Some(v) ==> list.validity->0@ == v@
            }
            &&& res matches Err(e) ==> {
                ||| e == ListError::OffsetUnderflow
                ||| e == ListError::InvalidList
            }
            &&& res == Err::<ListArray<T>, ListError>(ListError::OffsetUnderflow) <==> exists|i: int|
                0 <= i < n && #[trigger] offsets@[i] < offsets@[0]
        }),
{
    lemma_put_together(offsets@, elements@, validity_view(validity), res);
}

proof fn lemma_put_together<T>(
    offsets: Seq<u64>,
    elements: Seq<T>,
    validity: Option<Seq<bool>>,
    res: Result<ListArray<T>, ListError>,
)
    requires
        offsets.len() > 0,
        combined(unsigned(offsets), elements, validity, res),
    ensures
        underflow(unsigned(offsets)) <==> exists|i: int|
            0 <= i < offsets.len() && #[trigger] offsets[i] < offsets[0],
        res is Ok <==> {
            &&& forall|i: int, j: int| 0 <= i <= j < offsets.len() ==> offsets[i] <= offsets[j]
            &&& offsets[offsets.len() - 1] - offsets[0] <= elements.len()
            &&& validity matches Some(v) ==> v.len() == offsets.len() - 1
        },
        res matches Ok(list) ==> list.offsets@.len() == offsets.len() && forall|i: int|
            0 <= i < offsets.len() ==> #[trigger] list.offsets@[i] == offsets[i] - offsets[0],
{
    let n = offsets.len();
    let o = unsigned(offsets);
    let rebased = list_packed_offsets(o);
    if underflow(o) {
        let i = choose|i: int| 0 <= i < o.len() && #[trigger] o[i] < o[0];
        assert(offsets[i] < offsets[0]);
    }
    if exists|i: int| 0 <= i < n && #[trigger] offsets[i] < offsets[0] {
        let i = choose|i: int| 0 <= i < n && #[trigger] offsets[i] < offsets[0];
        assert(o[i] < o[0]);
    }
    if sorted(rebased) {
        assert forall|i: int, j: int| 0 <= i <= j < n implies offsets[i] <= offsets[j] by {
            assert(rebased[i] <= rebased[j]);
        }
    }
    if forall|i: int, j: int| 0 <= i <= j < n ==> offsets[i] <= offsets[j] {
        assert forall|i: int, j: int| 0 <= i <= j < rebased.len() implies rebased[i]
            <= rebased[j] by {
            assert(offsets[i] <= offsets[j]);
        }
        assert forall|i: int| 0 <= i < o.len() implies #[trigger] o[i] >= o[0] by {
            assert(offsets[0] <= offsets[i]);
        }
    }
    if let Ok(list) = res {
        let lo = unsigned(list.offsets@);
        assert(lo.len() == list.offsets@.len());
        assert forall|i: int| 0 <= i < n implies #[trigger] list.offsets@[i] == offsets[i]
            - offsets[0] by {
            assert(lo[i] == rebased[i]);
        }
    }
}

/// A mask that leaves no row out keeps the column as it is, whatever its length. Any other mask
/// must be as long as there are rows, and keeps the rows that it selects.
pub proof fn the_selected_rows_are_kept<T: Copy>(
    list: ListArray<T>,
    mask: Vec<bool>,
    res: Result<ListArray<T>, ListError>,
)
    requires
        list.wf(),
        call_ensures(keep_selected::<T>, (list, &mask), res),
    ensures
        call_requires(keep_selected::<T>, (list, &mask)),
        (forall|i: int| 0 <= i < mask@.len() ==> mask@[i]) ==> res == Ok::<
            ListArray<T>,
            ListError,
        >(list),
        (exists|i: int| 0 <= i < mask@.len() && !mask@[i]) ==> {
            &&& res is Ok <==> mask@.len() == list.offsets@.len() - 1
            &&& res matches Ok(kept) ==> keeps_selected_rows(list, mask@, kept)
            &&& res matches Err(e) ==> e matches ListError::MaskLength { actual, expected }
                && actual == mask@.len() && expected == list.offsets@.len() - 1
        },
{
    assert(mask.len() == mask@.len() && list.offsets.len() == list.offsets@.len());
    if !all_true(mask@) && res is Ok {
        lemma_filtered(list, mask@, res->Ok_0);
    }
}

/// What was read is put together, and then the selected rows are kept of it.
pub proof fn assembling_is_putting_together_and_selecting<T: Copy>(
    offsets: Vec<u64>,
    elements: Vec<T>,
    validity: Option<Vec<bool>>,
    mask: Vec<bool>,
    whole: Result<ListArray<T>, ListError>,
    res: Result<ListArray<T>, ListError>,
)
    requires
        offsets@.len() > 0,
        call_ensures(combine::<T>, (&offsets, elements, validity), whole),
        call_ensures(assemble::<T>, (&offsets, elements, validity, &mask), res),
    ensures
        call_requires(assemble::<T>, (&offsets, elements, validity, &mask)),
        whole matches Err(e) ==> res == Err::<ListArray<T>, ListError>(e),
        whole matches Ok(list) ==> {
            &&& (forall|i: int| 0 <= i < mask@.len() ==> mask@[i]) ==> (res matches Ok(kept)
                && kept.wf() && kept.elements@ == list.elements@ && kept.offsets@ == list.offsets@
                && (kept.validity is Some <==> list.validity is Some) && (list.validity is Some
                ==> kept.validity->0@ == list.validity->0@))
            &&& (exists|i: int| 0 <= i < mask@.len() && !mask@[i]) ==> {
                &&& res is Ok <==> mask@.len() == list.offsets@.len() - 1
                &&& res matches Ok(kept) ==> keeps_selected_rows(list, mask@, kept)
                &&& res matches Err(e) ==> e matches ListError::MaskLength { actual, expected }
                    && actual == mask@.len() && expected == list.offsets@.len() - 1
            }
        },
{
    assert(mask.len() == mask@.len() && offsets.len() == offsets@.len());
    if let Ok(list) = whole {
        let o = unsigned(list.offsets@);
        assert(o.len() == list.offsets@.len());
        assert(o == list_packed_offsets(unsigned(offsets@)));
        if all_true(mask@) {
            let kept = unsigned(res->Ok_0.offsets@);
            assert(kept.len() == res->Ok_0.offsets@.len());
            assert forall|i: int| 0 <= i < o.len() implies res->Ok_0.offsets@[i]
                == list.offsets@[i] by {
                assert(kept[i] == o[i]);
            }
            assert(res->Ok_0.offsets@ =~= list.offsets@);
        } else if res is Ok {
            lemma_filtered(list, mask@, res->Ok_0);
        }
    }
}

/// A scan may be split where the rows end, and everywhere where it could be split before.
pub proof fn rows_may_be_split_at_their_end<C>(
    reader: ListReader<C>,
    rows: Range<u64>,
    splits: &mut BTreeSet<u64>,
    res: Result<(), ListError>,
)
    requires
        call_ensures(ListReader::<C>::register_splits, (&reader, &rows, splits), res),
    ensures
        res is Ok,
        forall|at: u64| #[trigger]
            final(splits)@.contains(at) <==> old(splits)@.contains(at) || at == rows.end,
{
}

/// No row is ruled out before it is read.
pub proof fn masks_stay_as_they_are<C, M>(
    reader: ListReader<C>,
    rows: Range<u64>,
    mask: M,
    res: Result<M, ListError>,
)
    requires
        call_ensures(ListReader::<C>::pruning_evaluation::<M>, (&reader, &rows, mask), res)
            || call_ensures(ListReader::<C>::filter_evaluation::<M>, (&reader, &rows, mask), res),
    ensures
        res == Ok::<M, ListError>(mask),
{
}

/// An expression is applied with operators if these are used; else it is evaluated, unless it
/// asks for the column itself.
pub proof fn expressions_are_evaluated_unless_they_ask_for_the_column(
    use_operators: bool,
    is_root: bool,
    res: ExpressionStep,
)
    requires
        call_ensures(expression_step, (use_operators, is_root), res),
    ensures
        res == ExpressionStep::Apply <==> use_operators,
        res == ExpressionStep::Keep <==> !use_operators && is_root,
{
}

} // verus!
