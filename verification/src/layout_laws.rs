//! What holds of list layouts and their children.

use std::sync::Arc;

use vstd::prelude::*;

use crate::children::owned_answer;
use crate::children::Layout;
use crate::children::LayoutChildren;
use crate::children::OwnedLayoutChildren;
use crate::dtype::DType;
use crate::dtype::Nullability;
use crate::dtype::PType;
use crate::error::ListError;
use crate::layout::child_count;
use crate::layout::role_at;
use crate::layout::ChildRole;
use crate::layout::LayoutChildType;
use crate::layout::ListLayout;
use crate::layout::ListLayoutEncoding;
use crate::layout::ListLayoutMetadata;
use crate::layout::ListVTable;
use crate::layout::SegmentId;

verus! {

/// Children that are kept in memory answer with the layout at the index, if there is one and it
/// is of the type that was asked for.
pub proof fn kept_children_answer_with_the_layout_at_the_index<L: Layout>(
    layouts: Vec<Arc<L>>,
    children: OwnedLayoutChildren<L>,
    index: usize,
    dtype: DType,
    res: Result<Arc<L>, ListError>,
    count: usize,
)
    requires
        call_ensures(OwnedLayoutChildren::<L>::layout_children, (layouts,), children),
        call_ensures(OwnedLayoutChildren::<L>::child, (&children, index, &dtype), res),
        call_ensures(OwnedLayoutChildren::<L>::nchildren, (&children,), count),
    ensures
        count == layouts@.len(),
        index >= layouts@.len() ==> res == Err::<Arc<L>, ListError>(
            ListError::ChildOutOfBounds { index },
        ),
        index < layouts@.len() && layouts@[index as int].dtype_spec().same(dtype) ==> res == Ok::<
            Arc<L>,
            ListError,
        >(layouts@[index as int]),
        index < layouts@.len() && !layouts@[index as int].dtype_spec().same(dtype) ==> res == Err::<
            Arc<L>,
            ListError,
        >(ListError::ChildDType { index }),
        owned_answer(layouts@, index, dtype) == res,
{
}

/// A layout gives back what it was made of, and its children answer as the layouts that it was
/// made of.
pub proof fn a_layout_gives_back_what_it_was_made_of<C: LayoutChildren>(
    row_count: u64,
    dtype: DType,
    offsets_dtype: DType,
    children: Vec<Arc<C::Child>>,
    layout: ListLayout<C>,
    rows: u64,
    lists: &DType,
    offsets: &DType,
    index: usize,
    asked: DType,
)
    requires
        call_ensures(
            ListLayout::<C>::new,
            (row_count, dtype, offsets_dtype, children),
            layout,
        ),
        call_ensures(ListLayout::<C>::row_count, (&layout,), rows) || call_ensures(
            ListVTable::row_count::<C>,
            (&layout,),
            rows,
        ),
        call_ensures(ListLayout::<C>::dtype, (&layout,), lists) || call_ensures(
            ListVTable::dtype::<C>,
            (&layout,),
            lists,
        ),
        call_ensures(ListLayout::<C>::offsets_dtype, (&layout,), offsets),
    ensures
        rows == row_count,
        *lists == dtype,
        *offsets == offsets_dtype,
        layout.children_spec().count() == children@.len(),
        index >= children@.len() ==> layout.children_spec().answer(index, asked) == Err::<
            Arc<C::Child>,
            ListError,
        >(ListError::ChildOutOfBounds { index }),
        index < children@.len() && children@[index as int].dtype_spec().same(asked)
            ==> layout.children_spec().answer(index, asked) == Ok::<Arc<C::Child>, ListError>(
            children@[index as int],
        ),
        index < children@.len() && !children@[index as int].dtype_spec().same(asked)
            ==> layout.children_spec().answer(index, asked) == Err::<Arc<C::Child>, ListError>(
            ListError::ChildDType { index },
        ),
{
}

/// A list layout is a layout with the rows and the type that it has, and its copy is equal to it.
pub proof fn a_list_layout_is_a_layout_of_its_rows<C>(
    layout: ListLayout<C>,
    rows: u64,
    dtype: &DType,
    children: &Arc<C>,
    copy: ListLayout<C>,
)
    requires
        call_ensures(<ListLayout<C> as Layout>::row_count, (&layout,), rows),
        call_ensures(<ListLayout<C> as Layout>::dtype, (&layout,), dtype),
        call_ensures(ListLayout::<C>::children, (&layout,), children),
        call_ensures(<ListLayout<C> as Clone>::clone, (&layout,), copy),
    ensures
        rows == layout.row_count_spec(),
        *dtype == layout.dtype_spec(),
        *children == layout.children_spec(),
        copy == layout,
{
}

/// Where rows may be null, the children of a list layout are the validity, the offsets and the
/// elements, in this order; else they are the offsets and the elements.
pub proof fn children_come_in_order(nullable: bool, index: usize, res: Option<ChildRole>)
    requires
        call_ensures(ChildRole::at, (nullable, index), res),
    ensures
        nullable ==> (res == Some(ChildRole::Validity) <==> index == 0),
        nullable ==> (res == Some(ChildRole::Offsets) <==> index == 1),
        nullable ==> (res == Some(ChildRole::Elements) <==> index == 2),
        !nullable ==> res != Some(ChildRole::Validity),
        !nullable ==> (res == Some(ChildRole::Offsets) <==> index == 0),
        !nullable ==> (res == Some(ChildRole::Elements) <==> index == 1),
        res is Some <==> index < if nullable {
            3
        } else {
            2nat
        },
        role_at(nullable, index as int) == res,
        child_count(nullable) == if nullable {
            3
        } else {
            2nat
        },
{
}

/// The child at an index is asked for with the type of what it holds: the validity as booleans
/// that are never null, the offsets as the layout says, and the elements with exactly the element
/// type of the list type, be its values null or not.
pub proof fn children_are_asked_for_by_what_they_hold<C: LayoutChildren>(
    layout: ListLayout<C>,
    element: Arc<DType>,
    nullability: Nullability,
    index: usize,
    res: Result<Arc<C::Child>, ListError>,
)
    requires
        layout.dtype_spec() == DType::List(element, nullability),
        call_ensures(ListVTable::child::<C>, (&layout, index), res),
    ensures
        call_requires(ListVTable::child::<C>, (&layout, index)),
        nullability == Nullability::Nullable ==> {
            &&& index == 0 ==> res == layout.children_spec().answer(
                0,
                DType::Bool(Nullability::NonNullable),
            )
            &&& index == 1 ==> res == layout.children_spec().answer(1, layout.offsets_dtype_spec())
            &&& index == 2 ==> res == layout.children_spec().answer(2, *element)
            &&& index > 2 ==> res == Err::<Arc<C::Child>, ListError>(
                ListError::ChildOutOfBounds { index },
            )
        },
        nullability == Nullability::NonNullable ==> {
            &&& index == 0 ==> res == layout.children_spec().answer(0, layout.offsets_dtype_spec())
            &&& index == 1 ==> res == layout.children_spec().answer(1, *element)
            &&& index > 1 ==> res == Err::<Arc<C::Child>, ListError>(
                ListError::ChildOutOfBounds { index },
            )
        },
{
}

/// The validity, the offsets and the elements of a layout are its children at the indices of
/// these, and there is no validity where rows are never null.
pub proof fn children_by_name_are_those_by_index<C: LayoutChildren>(
    layout: ListLayout<C>,
    element: Arc<DType>,
    nullability: Nullability,
    validity: Result<Option<Arc<C::Child>>, ListError>,
    offsets: Result<Arc<C::Child>, ListError>,
    elements: Result<Arc<C::Child>, ListError>,
    first: Result<Arc<C::Child>, ListError>,
    second: Result<Arc<C::Child>, ListError>,
    third: Result<Arc<C::Child>, ListError>,
)
    requires
        layout.dtype_spec() == DType::List(element, nullability),
        call_ensures(ListLayout::<C>::validity, (&layout,), validity),
        call_ensures(ListLayout::<C>::offsets, (&layout,), offsets),
        call_ensures(ListLayout::<C>::elements, (&layout,), elements),
        call_ensures(ListVTable::child::<C>, (&layout, 0usize), first),
        call_ensures(ListVTable::child::<C>, (&layout, 1usize), second),
        call_ensures(ListVTable::child::<C>, (&layout, 2usize), third),
    ensures
        call_requires(ListLayout::<C>::elements, (&layout,)),
        nullability == Nullability::Nullable ==> {
            &&& first matches Ok(child) ==> validity == Ok::<Option<Arc<C::Child>>, ListError>(
                Some(child),
            )
            &&& first matches Err(e) ==> validity == Err::<Option<Arc<C::Child>>, ListError>(e)
            &&& offsets == second
            &&& elements == third
        },
        nullability == Nullability::NonNullable ==> {
            &&& validity == Ok::<Option<Arc<C::Child>>, ListError>(None)
            &&& offsets == first
            &&& elements == second
        },
        elements == layout.children_spec().answer(
            if nullability == Nullability::Nullable {
                2
            } else {
                1
            },
            *element,
        ),
{
}

/// A layout of lists has three children where rows may be null, and else two. Each goes by a
/// name, and what is asked for beyond them is unknown.
pub proof fn children_go_by_names<C>(
    layout: ListLayout<C>,
    element: Arc<DType>,
    nullability: Nullability,
    index: usize,
    res: LayoutChildType,
    count: usize,
)
    requires
        layout.dtype_spec() == DType::List(element, nullability),
        call_ensures(ListVTable::child_type::<C>, (&layout, index), res),
        call_ensures(ListVTable::nchildren::<C>, (&layout,), count),
    ensures
        nullability == Nullability::Nullable ==> count == 3,
        nullability == Nullability::NonNullable ==> count == 2,
        res matches LayoutChildType::Auxiliary(name) && {
            &&& index == 0 && nullability == Nullability::Nullable ==> name@ == "validity"@
            &&& index == count - 2 ==> name@ == "offsets"@
            &&& index == count - 1 ==> name@ == "elements"@
            &&& index >= count ==> name@ == "unknown"@
        },
{
}

/// A stored layout is opened if and only if its type is a list type, it has the two children of
/// a list, or three where rows may be null, and the stored number is a code from 0 to 10. Whether
/// elements may be null plays no part. What is opened has just what was given, and offsets of the
/// type with that code, which are never null.
pub proof fn stored_layouts_that_fit_are_opened<C: LayoutChildren>(
    encoding: ListLayoutEncoding,
    dtype: DType,
    row_count: u64,
    metadata: ListLayoutMetadata,
    segment_ids: Vec<SegmentId>,
    children: Arc<C>,
    res: Result<ListLayout<C>, ListError>,
    back: i32,
)
    requires
        call_ensures(
            ListVTable::build::<C>,
            (&encoding, &dtype, row_count, &metadata, segment_ids, &children),
            res,
        ),
        res matches Ok(layout) ==> layout.offsets_dtype_spec() matches DType::Primitive(p, _)
            ==> call_ensures(PType::code, (p,), back),
    ensures
        !(dtype is List) ==> res == Err::<ListLayout<C>, ListError>(ListError::ExpectedListDType),
        dtype matches DType::List(_, nullability) ==> {
            let expected: nat = if nullability == Nullability::Nullable {
                3
            } else {
                2
            };
            &&& res is Ok <==> children.count() == expected && 0 <= metadata.offsets_ptype <= 10
            &&& children.count() != expected ==> (res matches Err(ListError::ChildCount {
                actual,
                expected: asked,
            }) && asked == expected && (children.count() <= usize::MAX ==> actual
                == children.count()))
            &&& children.count() == expected && res is Err ==> res == Err::<
                ListLayout<C>,
                ListError,
            >(ListError::InvalidPType { code: metadata.offsets_ptype })
        },
        res matches Ok(layout) ==> {
            &&& layout.row_count_spec() == row_count
            &&& layout.dtype_spec() == dtype
            &&& layout.children_spec() == children
            &&& layout.offsets_dtype_spec() matches DType::Primitive(_, n) && n
                == Nullability::NonNullable
            &&& back == metadata.offsets_ptype
        },
{
}

/// What is stored of a layout is the code of the type of its offsets.
pub proof fn the_code_of_the_offsets_is_stored<C>(
    layout: ListLayout<C>,
    ptype: PType,
    nullability: Nullability,
    metadata: ListLayoutMetadata,
    code: i32,
)
    requires
        layout.offsets_dtype_spec() == DType::Primitive(ptype, nullability),
        call_ensures(ListVTable::metadata::<C>, (&layout,), metadata),
        call_ensures(PType::code, (ptype,), code),
    ensures
        call_requires(ListVTable::metadata::<C>, (&layout,)),
        metadata.offsets_ptype == code,
{
}

/// List layouts go by one name, and store no segments of their own.
pub proof fn list_layouts_have_a_name_and_no_segments<C>(
    layout: ListLayout<C>,
    encoding: ListLayoutEncoding,
    name: &'static str,
    segment_ids: Vec<SegmentId>,
)
    requires
        call_ensures(ListVTable::id, (&encoding,), name),
        call_ensures(ListVTable::segment_ids::<C>, (&layout,), segment_ids),
    ensures
        name@ == "vortex.list"@,
        segment_ids@.len() == 0,
{
}

/// Children are replaced by as many others, and by no other number. Nothing else of the layout
/// changes, and nothing at all if they are not replaced.
pub proof fn children_are_replaced_by_as_many<C: LayoutChildren>(
    layout: &mut ListLayout<C>,
    element: Arc<DType>,
    nullability: Nullability,
    children: Vec<Arc<C::Child>>,
    res: Result<(), ListError>,
    index: usize,
    asked: DType,
)
    requires
        old(layout).dtype_spec() == DType::List(element, nullability),
        call_ensures(ListVTable::with_children::<C>, (layout, children), res),
    ensures
        ({
            let expected: nat = if nullability == Nullability::Nullable {
                3
            } else {
                2
            };
            &&& res is Ok <==> children@.len() == expected
            &&& res matches Err(e) ==> e matches ListError::ReplacementCount {
                actual,
                expected: asked_for,
            } && asked_for == expected && actual == children@.len()
        }),
        res is Err ==> *final(layout) == *old(layout),
        final(layout).row_count_spec() == old(layout).row_count_spec(),
        final(layout).dtype_spec() == old(layout).dtype_spec(),
        final(layout).offsets_dtype_spec() == old(layout).offsets_dtype_spec(),
        res is Ok ==> {
            &&& final(layout).children_spec().count() == children@.len()
            &&& index >= children@.len() ==> final(layout).children_spec().answer(index, asked)
                == Err::<Arc<C::Child>, ListError>(ListError::ChildOutOfBounds { index })
            &&& index < children@.len() && children@[index as int].dtype_spec().same(asked)
                ==> final(layout).children_spec().answer(index, asked) == Ok::<
                Arc<C::Child>,
                ListError,
            >(children@[index as int])
            &&& index < children@.len() && !children@[index as int].dtype_spec().same(asked)
                ==> final(layout).children_spec().answer(index, asked) == Err::<
                Arc<C::Child>,
                ListError,
            >(ListError::ChildDType { index })
        },
{
    assert(children.len() == children@.len());
}

} // verus!
