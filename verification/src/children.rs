//! Layouts, and the children of a layout.

use std::sync::Arc;

use vstd::prelude::*;

use crate::dtype::DType;
use crate::error::ListError;

verus! {

/// How a column is laid out: how many rows it has and of what type they are. A layout says in
/// its spec functions what it is. The values that they have by default are fixed, but unknown:
/// nothing follows from them.
pub trait Layout {
    open spec fn row_count_spec(&self) -> u64 {
        arbitrary()
    }

    open spec fn dtype_spec(&self) -> DType {
        arbitrary()
    }

    fn row_count(&self) -> (res: u64)
        ensures
            res == self.row_count_spec(),
    ;

    fn dtype(&self) -> (res: &DType)
        ensures
            *res == self.dtype_spec(),
    ;
}

/// What a collection of layouts answers when it is asked for the child at an index, with values
/// of a type.
pub open spec fn owned_answer<L: Layout>(layouts: Seq<Arc<L>>, index: usize, dtype: DType) -> Result<
    Arc<L>,
    ListError,
> {
    if index >= layouts.len() {
        Err(ListError::ChildOutOfBounds { index })
    } else if !layouts[index as int].dtype_spec().same(dtype) {
        Err(ListError::ChildDType { index })
    } else {
        Ok(layouts[index as int])
    }
}

/// The children of a layout: kept in memory, or made when they are asked for. The spec functions
/// have values by default as those of [`Layout`] do.
pub trait LayoutChildren: Sized {
    type Child: Layout;

    /// How many children there are.
    open spec fn count(&self) -> nat {
        arbitrary()
    }

    /// What comes back for an index and a type.
    open spec fn answer(&self, index: usize, dtype: DType) -> Result<
        Arc<Self::Child>,
        ListError,
    > {
        arbitrary()
    }

    /// The given layouts as children.
    fn layout_children(layouts: Vec<Arc<Self::Child>>) -> (res: Self)
        ensures
            res.count() == layouts@.len(),
            forall|index: usize, dtype: DType| #[trigger]
                res.answer(index, dtype) == owned_answer(layouts@, index, dtype),
    ;

    fn nchildren(&self) -> (res: usize)
        ensures
            res == self.count(),
    ;

    fn child(&self, index: usize, dtype: &DType) -> (res: Result<Arc<Self::Child>, ListError>)
        ensures
            res == self.answer(index, *dtype),
    ;
}

/// Children that are kept in memory.
#[derive(Debug)]
pub struct OwnedLayoutChildren<L> {
    layouts: Vec<Arc<L>>,
}

impl<L> View for OwnedLayoutChildren<L> {
    type V = Seq<Arc<L>>;

    closed spec fn view(&self) -> Seq<Arc<L>> {
        self.layouts@
    }
}

impl<L: Layout> LayoutChildren for OwnedLayoutChildren<L> {
    type Child = L;

    open spec fn count(&self) -> nat {
        self@.len()
    }

    open spec fn answer(&self, index: usize, dtype: DType) -> Result<Arc<L>, ListError> {
        owned_answer(self@, index, dtype)
    }

    fn layout_children(layouts: Vec<Arc<L>>) -> (res: Self)
        ensures
            res@ == layouts@,
    {
        OwnedLayoutChildren { layouts }
    }

    fn nchildren(&self) -> (res: usize) {
        self.layouts.len()
    }

    fn child(&self, index: usize, dtype: &DType) -> (res: Result<Arc<L>, ListError>) {
        if index >= self.layouts.len() {
            return Err(ListError::ChildOutOfBounds { index });
        }
        let layout = &self.layouts[index];
        if !layout.dtype().is_same(dtype) {
            return Err(ListError::ChildDType { index });
        }
        Ok(layout.clone())
    }
}

} // verus!
