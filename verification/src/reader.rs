//! Reading a list column.

use std::collections::BTreeSet;
use std::ops::Range;

use vstd::prelude::*;

use crate::dtype::DType;
use crate::error::ListError;
use crate::kernels::filter_list;
use crate::kernels::sub_scalar;
use crate::kernels::try_list;
use crate::layout::child_count;
use crate::layout::elements_index;
use crate::layout::offsets_index;
use crate::layout::role_at;
use crate::layout::role_dtype;
use crate::layout::role_name;
use crate::layout::ChildRole;
use crate::layout::ListLayout;
use crate::lists::all_true;
use crate::lists::filtered;
use crate::lists::list_packed_offsets;
use crate::lists::unsigned;
use crate::lists::valid_list;
use crate::lists::validity_view;
use crate::lists::ListArray;

verus! {

/// Reads a list column through readers of its children.
pub struct ListReader<C> {
    layout: ListLayout<C>,
    name: String,
    child_dtypes: Vec<DType>,
    child_names: Vec<String>,
}

impl<C> ListReader<C> {
    pub closed spec fn layout_spec(self) -> ListLayout<C> {
        self.layout
    }

    pub closed spec fn name_spec(self) -> Seq<char> {
        self.name@
    }

    pub closed spec fn child_dtypes_spec(self) -> Seq<DType> {
        self.child_dtypes@
    }

    pub closed spec fn child_names_spec(self) -> Seq<String> {
        self.child_names@
    }

    /// Whether the reader is of a column of lists, and knows its children, in order, by the
    /// types and the names that the layout gives them.
    pub open spec fn wf(self) -> bool {
        let layout = self.layout_spec();
        &&& layout.dtype_spec().list_element() is Some
        &&& self.child_dtypes_spec().len() == child_count(layout.nullable())
        &&& self.child_names_spec().len() == child_count(layout.nullable())
        &&& forall|i: int|
            #![trigger self.child_dtypes_spec()[i]]
            #![trigger self.child_names_spec()[i]]
            0 <= i < child_count(layout.nullable()) ==> {
                let role = role_at(layout.nullable(), i)->0;
                &&& self.child_dtypes_spec()[i] == role_dtype(
                    role,
                    layout.dtype_spec(),
                    layout.offsets_dtype_spec(),
                )
                &&& self.child_names_spec()[i]@ == role_name(role)
            }
    }

    /// A reader of a column of lists. It never fails.
    pub fn try_new(layout: ListLayout<C>, name: String) -> (res: Result<Self, ListError>)
        requires
            layout.dtype_spec().list_element() is Some,
        ensures
            res matches Ok(reader) && reader.layout_spec() == layout && reader.name_spec() == name@
                && reader.wf(),
    {
        let is_nullable = layout.dtype().is_nullable();
        let mut child_dtypes: Vec<DType> = Vec::new();
        let mut child_names: Vec<String> = Vec::new();

        if is_nullable {
            child_dtypes.push(ChildRole::Validity.dtype(layout.dtype(), layout.offsets_dtype()));
            child_names.push(ChildRole::Validity.name());
        }
        child_dtypes.push(ChildRole::Offsets.dtype(layout.dtype(), layout.offsets_dtype()));
        child_names.push(ChildRole::Offsets.name());
        child_dtypes.push(ChildRole::Elements.dtype(layout.dtype(), layout.offsets_dtype()));
        child_names.push(ChildRole::Elements.name());

        Ok(ListReader { layout, name, child_dtypes, child_names })
    }

    pub fn name(&self) -> (res: &String)
        ensures
            res@ == self.name_spec(),
    {
        &self.name
    }

    pub fn layout(&self) -> (res: &ListLayout<C>)
        ensures
            *res == self.layout_spec(),
    {
        &self.layout
    }

    pub fn dtype(&self) -> (res: &DType)
        ensures
            *res == self.layout_spec().dtype_spec(),
    {
        self.layout.dtype()
    }

    pub fn row_count(&self) -> (res: u64)
        ensures
            res == self.layout_spec().row_count_spec(),
    {
        self.layout.row_count()
    }

    /// The types of the children's values, in order.
    pub fn child_dtypes(&self) -> (res: &Vec<DType>)
        ensures
            res@ == self.child_dtypes_spec(),
    {
        &self.child_dtypes
    }

    /// The names of the children, in order.
    pub fn child_names(&self) -> (res: &Vec<String>)
        ensures
            res@ == self.child_names_spec(),
    {
        &self.child_names
    }

    /// Says where a scan of some rows may be split: at their end only.
    pub fn register_splits(&self, row_range: &Range<u64>, splits: &mut BTreeSet<u64>) -> (res:
        Result<(), ListError>)
        ensures
            res is Ok,
            final(splits)@ == old(splits)@.insert(row_range.end),
    {
        broadcast use vstd::std_specs::btree::group_btree_axioms;

        splits.insert(row_range.end);
        Ok(())
    }

    /// Which of the rows of a mask an expression may hold for: no row is ruled out.
    pub fn pruning_evaluation<M>(&self, _row_range: &Range<u64>, mask: M) -> (res: Result<
        M,
        ListError,
    >)
        ensures
            res == Ok::<M, ListError>(mask),
    {
        Ok(mask)
    }

    /// Which of the rows of a mask a filter keeps: all of them.
    pub fn filter_evaluation<M>(&self, _row_range: &Range<u64>, mask: M) -> (res: Result<
        M,
        ListError,
    >)
        ensures
            res == Ok::<M, ListError>(mask),
    {
        Ok(mask)
    }

    /// What to read of the children for some rows of the column, before any offset is known.
    ///
    /// Rows `a` to `b` are cut by the offsets `a` to `b`, so one more offset is read than rows.
    pub fn plan_projection(&self, row_range: &Range<u64>) -> (res: ProjectionPlan)
        requires
            row_range.start <= row_range.end < u64::MAX,
            row_range.end - row_range.start < usize::MAX,
        ensures
            planned(self.layout_spec().nullable(), row_range.start, row_range.end, res),
    {
        let row_len: usize = (row_range.end - row_range.start) as usize;
        let is_nullable = self.dtype().is_nullable();
        let validity = if is_nullable {
            Some(
                ChildRead { child: 0, start: row_range.start, end: row_range.end, len: row_len },
            )
        } else {
            None
        };
        let offsets_child: usize = if is_nullable {
            1
        } else {
            0
        };
        let elements_child: usize = if is_nullable {
            2
        } else {
            1
        };
        let offsets = ChildRead {
            child: offsets_child,
            start: row_range.start,
            end: row_range.end + 1,
            len: row_len + 1,
        };
        ProjectionPlan { validity, offsets, elements_child }
    }
}

/// A read of the rows `start` to `end` of a child, `len` rows in all.
#[derive(Clone, Copy, Debug, PartialEq, Eq, Structural)]
pub struct ChildRead {
    pub child: usize,
    pub start: u64,
    pub end: u64,
    pub len: usize,
}

/// The reads that a projection starts with, and the child that holds the elements.
#[derive(Clone, Copy, Debug, PartialEq, Eq, Structural)]
pub struct ProjectionPlan {
    pub validity: Option<ChildRead>,
    pub offsets: ChildRead,
    pub elements_child: usize,
}

/// Whether a plan reads what is needed of the children for the rows `start` to `end`: these rows
/// of the validity, where rows may be null, and one offset more than there are rows.
pub open spec fn planned(nullable: bool, start: u64, end: u64, plan: ProjectionPlan) -> bool {
    &&& plan.validity == if nullable {
        Some(ChildRead { child: 0, start, end, len: (end - start) as usize })
    } else {
        None
    }
    &&& plan.offsets == (ChildRead {
        child: offsets_index(nullable) as usize,
        start,
        end: (end + 1) as u64,
        len: (end - start + 1) as usize,
    })
    &&& plan.elements_child == elements_index(nullable)
}

/// Whether a read is that of the elements between the first and the last of the offsets.
pub open spec fn elements_planned(plan: ProjectionPlan, offsets: Seq<int>, read: ChildRead) -> bool {
    &&& read.child == plan.elements_child
    &&& read.start == offsets[0]
    &&& read.end == offsets.last()
    &&& read.len == offsets.last() - offsets[0]
}

/// The rows of a column that a read gives.
pub open spec fn rows_read<A>(column: Seq<A>, read: ChildRead) -> Seq<A> {
    column.subrange(read.start as int, read.end as int)
}

impl ProjectionPlan {
    /// What to read of the elements, once the offsets are there: those from the first offset to
    /// the last.
    pub fn elements_read(&self, offsets: &Vec<u64>) -> (res: ChildRead)
        requires
            offsets@.len() > 0,
            offsets@[0] <= offsets@.last(),
            offsets@.last() - offsets@[0] <= usize::MAX,
        ensures
            elements_planned(*self, unsigned(offsets@), res),
    {
        let start: u64 = offsets[0];
        let end: u64 = offsets[offsets.len() - 1];
        ChildRead { child: self.elements_child, start, end, len: (end - start) as usize }
    }
}

fn is_all_true(mask: &Vec<bool>) -> (res: bool)
    ensures
        res == all_true(mask@),
{
    let mut i: usize = 0;
    while i < mask.len()
        invariant
            i <= mask@.len(),
            forall|j: int| 0 <= j < i ==> mask@[j],
        decreases mask@.len() - i,
    {
        if !mask[i] {
            return false;
        }
        i += 1;
    }
    true
}

/// Whether an offset is less than the first.
pub open spec fn underflow(offsets: Seq<int>) -> bool {
    exists|i: int| 0 <= i < offsets.len() && #[trigger] offsets[i] < offsets[0]
}

/// Whether a result is that of putting a list column together out of what was read of its
/// children. It is an error if an offset is less than the first; else if the parts do not fit
/// together. Otherwise the offsets are moved so that they start at 0.
pub open spec fn combined<T>(
    offsets: Seq<int>,
    elements: Seq<T>,
    validity: Option<Seq<bool>>,
    res: Result<ListArray<T>, ListError>,
) -> bool {
    let rebased = list_packed_offsets(offsets);
    let fits = valid_list(elements.len(), rebased, validity);
    match res {
        Ok(list) => {
            &&& !underflow(offsets) && fits
            &&& list.wf()
            &&& list.elements@ == elements
            &&& unsigned(list.offsets@) == rebased
            &&& validity_view(list.validity) == validity
        },
        Err(e) => if underflow(offsets) {
            e == ListError::OffsetUnderflow
        } else {
            !fits && e == ListError::InvalidList
        },
    }
}

/// Whether a result is that of putting a list column together out of what was read of its
/// children, and selecting rows.
///
/// It is an error if the column cannot be put together; else if the mask leaves a row out and is
/// not as long as there are rows. Otherwise the rows are those that the mask selects. Elements
/// and offsets stay as they are where the mask leaves no row out, whatever its length.
pub open spec fn assembled<T>(
    offsets: Seq<int>,
    elements: Seq<T>,
    validity: Option<Seq<bool>>,
    mask: Seq<bool>,
    res: Result<ListArray<T>, ListError>,
) -> bool {
    let rebased = list_packed_offsets(offsets);
    let fits = !underflow(offsets) && valid_list(elements.len(), rebased, validity);
    if !fits || all_true(mask) {
        combined(offsets, elements, validity, res)
    } else {
        match res {
            Ok(list) => {
                &&& mask.len() == offsets.len() - 1
                &&& filtered(elements, rebased, validity, mask, list)
            },
            Err(e) => {
                &&& mask.len() != offsets.len() - 1
                &&& e == (ListError::MaskLength {
                    actual: mask.len() as usize,
                    expected: (offsets.len() - 1) as usize,
                })
            },
        }
    }
}

/// Puts a list column together out of what was read of its children: the offsets, moved so that
/// they start at 0; the elements that they cut; and the validity, where rows may be null.
pub fn combine<T>(
    offsets: &Vec<u64>,
    elements: Vec<T>,
    validity: Option<Vec<bool>>,
) -> (res: Result<ListArray<T>, ListError>)
    requires
        offsets@.len() > 0,
    ensures
        combined(unsigned(offsets@), elements@, validity_view(validity), res),
{
    let rebased = match sub_scalar(offsets, offsets[0]) {
        Ok(rebased) => rebased,
        Err(_) => {
            proof {
                let i = choose|i: int| 0 <= i < offsets@.len() && #[trigger] offsets@[i] < offsets@[0];
                assert(unsigned(offsets@)[i] < unsigned(offsets@)[0]);
            }
            return Err(ListError::OffsetUnderflow);
        },
    };
    assert(unsigned(rebased@) =~= list_packed_offsets(unsigned(offsets@)));
    try_list(elements, rebased, validity)
}

/// Keeps the rows of a column that the mask selects. A mask that leaves no row out keeps the
/// column as it is, whatever the mask's length.
pub fn keep_selected<T: Copy>(list: ListArray<T>, mask: &Vec<bool>) -> (res: Result<
    ListArray<T>,
    ListError,
>)
    requires
        list.wf(),
    ensures
        all_true(mask@) ==> res == Ok::<ListArray<T>, ListError>(list),
        !all_true(mask@) ==> match res {
            Ok(r) => {
                &&& mask@.len() == list.offsets@.len() - 1
                &&& filtered(
                    list.elements@,
                    unsigned(list.offsets@),
                    validity_view(list.validity),
                    mask@,
                    r,
                )
            },
            Err(e) => {
                &&& mask@.len() != list.offsets@.len() - 1
                &&& e == (ListError::MaskLength {
                    actual: mask@.len() as usize,
                    expected: (list.offsets@.len() - 1) as usize,
                })
            },
        },
{
    if is_all_true(mask) {
        Ok(list)
    } else {
        filter_list(&list, mask)
    }
}

/// Puts a list column together out of what was read of its children, and then keeps the rows
/// that the mask selects.
pub fn assemble<T: Copy>(
    offsets: &Vec<u64>,
    elements: Vec<T>,
    validity: Option<Vec<bool>>,
    mask: &Vec<bool>,
) -> (res: Result<ListArray<T>, ListError>)
    requires
        offsets@.len() > 0,
    ensures
        assembled(unsigned(offsets@), elements@, validity_view(validity), mask@, res),
{
    match combine(offsets, elements, validity) {
        Ok(list) => {
            assert(unsigned(list.offsets@).len() == list.offsets@.len());
            keep_selected(list, mask)
        },
        Err(e) => Err(e),
    }
}

/// What is left to do with the column that was put together.
#[derive(Clone, Copy, Debug, PartialEq, Eq, Structural)]
pub enum ExpressionStep {
    /// Apply the expression with the operators of the array library.
    Apply,
    /// Nothing: the expression asks for the column itself.
    Keep,
    /// Evaluate the expression on the column.
    Evaluate,
}

/// How an expression is evaluated on the column that was put together.
pub fn expression_step(use_operators: bool, is_root: bool) -> (res: ExpressionStep)
    ensures
        use_operators ==> res == ExpressionStep::Apply,
        !use_operators && is_root ==> res == ExpressionStep::Keep,
        !use_operators && !is_root ==> res == ExpressionStep::Evaluate,
{
    if use_operators {
        ExpressionStep::Apply
    } else if is_root {
        ExpressionStep::Keep
    } else {
        ExpressionStep::Evaluate
    }
}

} // verus!
