//! The list layout.
//!
//! A list column is laid out as two or three columns, its children: the validity of its rows,
//! where rows may be null; the offsets that cut the elements into rows; and the elements.

use std::sync::Arc;

use vstd::prelude::*;

use crate::children::Layout;
use crate::children::LayoutChildren;
use crate::children::owned_answer;
use crate::dtype::DType;
use crate::dtype::Nullability;
use crate::dtype::PType;
use crate::dtype::ptype_code;
use crate::error::ListError;
use crate::reader::ListReader;

verus! {

/// What a child of a list layout holds.
#[derive(Clone, Copy, Debug, PartialEq, Eq, Structural)]
pub enum ChildRole {
    Validity,
    Offsets,
    Elements,
}

/// How many children a list layout has.
pub open spec fn child_count(nullable: bool) -> nat {
    if nullable {
        3
    } else {
        2
    }
}

/// What the child at an index holds: first the validity, where rows may be null, then the
/// offsets, then the elements.
pub open spec fn role_at(nullable: bool, index: int) -> Option<ChildRole> {
    let position = if nullable {
        index
    } else {
        index + 1
    };
    if index < 0 {
        None
    } else if position == 0 {
        Some(ChildRole::Validity)
    } else if position == 1 {
        Some(ChildRole::Offsets)
    } else if position == 2 {
        Some(ChildRole::Elements)
    } else {
        None
    }
}

/// The index of the child that holds the offsets.
pub open spec fn offsets_index(nullable: bool) -> nat {
    if nullable {
        1
    } else {
        0
    }
}

/// The index of the child that holds the elements.
pub open spec fn elements_index(nullable: bool) -> nat {
    if nullable {
        2
    } else {
        1
    }
}

/// The name of a child.
pub open spec fn role_name(role: ChildRole) -> Seq<char> {
    match role {
        ChildRole::Validity => "validity"@,
        ChildRole::Offsets => "offsets"@,
        ChildRole::Elements => "elements"@,
    }
}

/// The type of the values of a child.
pub open spec fn role_dtype(role: ChildRole, dtype: DType, offsets_dtype: DType) -> DType {
    match role {
        ChildRole::Validity => DType::Bool(Nullability::NonNullable),
        ChildRole::Offsets => offsets_dtype,
        ChildRole::Elements => dtype.list_element()->0,
    }
}

impl ChildRole {
    /// What the child at an index holds.
    pub fn at(nullable: bool, index: usize) -> (res: Option<ChildRole>)
        ensures
            res == role_at(nullable, index as int),
    {
        match (nullable, index) {
            (true, 0) => Some(ChildRole::Validity),
            (true, 1) | (false, 0) => Some(ChildRole::Offsets),
            (true, 2) | (false, 1) => Some(ChildRole::Elements),
            _ => None,
        }
    }

    /// The name of the child.
    pub fn name(self) -> (res: String)
        ensures
            res@ == role_name(self),
    {
        match self {
            ChildRole::Validity => "validity".to_owned(),
            ChildRole::Offsets => "offsets".to_owned(),
            ChildRole::Elements => "elements".to_owned(),
        }
    }

    /// The type of the child's values, in a layout for lists of a type.
    pub fn dtype(self, dtype: &DType, offsets_dtype: &DType) -> (res: DType)
        requires
            self == ChildRole::Elements ==> dtype.list_element() is Some,
        ensures
            res == role_dtype(self, *dtype, *offsets_dtype),
    {
        match self {
            ChildRole::Validity => DType::Bool(Nullability::NonNullable),
            ChildRole::Offsets => offsets_dtype.clone(),
            ChildRole::Elements => match dtype.as_list_element_opt() {
                Some(element) => (**element).clone(),
                None => DType::Null,
            },
        }
    }
}

/// What part a child plays in its layout.
#[derive(Debug)]
pub enum LayoutChildType {
    /// The child is of use to the layout only. It goes by a name.
    Auxiliary(String),
}

/// The number of a segment of stored bytes.
#[derive(Clone, Copy, Debug, PartialEq, Eq, Structural)]
pub struct SegmentId(pub u32);

/// The encoding of list layouts.
#[derive(Debug)]
pub struct ListLayoutEncoding;

/// What is stored of a list layout beside its children.
#[derive(Clone, Copy, Debug, PartialEq, Eq, Structural)]
pub struct ListLayoutMetadata {
    /// The number that stands for the physical type of the offsets.
    pub offsets_ptype: i32,
}

/// The layout of a list column.
#[derive(Debug)]
pub struct ListLayout<C> {
    row_count: u64,
    dtype: DType,
    offsets_dtype: DType,
    children: Arc<C>,
}

impl<C> ListLayout<C> {
    pub closed spec fn row_count_spec(self) -> u64 {
        self.row_count
    }

    pub closed spec fn dtype_spec(self) -> DType {
        self.dtype
    }

    pub closed spec fn offsets_dtype_spec(self) -> DType {
        self.offsets_dtype
    }

    pub closed spec fn children_spec(self) -> Arc<C> {
        self.children
    }

    /// Whether rows may be null.
    pub open spec fn nullable(self) -> bool {
        self.dtype_spec().nullable()
    }

    #[inline]
    pub fn row_count(&self) -> (res: u64)
        ensures
            res == self.row_count_spec(),
    {
        self.row_count
    }

    pub fn dtype(&self) -> (res: &DType)
        ensures
            *res == self.dtype_spec(),
    {
        &self.dtype
    }

    #[inline]
    pub fn children(&self) -> (res: &Arc<C>)
        ensures
            *res == self.children_spec(),
    {
        &self.children
    }

    /// The type of the offsets.
    #[inline]
    pub fn offsets_dtype(&self) -> (res: &DType)
        ensures
            *res == self.offsets_dtype_spec(),
    {
        &self.offsets_dtype
    }
}

impl<C: LayoutChildren> ListLayout<C> {
    pub fn new(
        row_count: u64,
        dtype: DType,
        offsets_dtype: DType,
        children: Vec<Arc<C::Child>>,
    ) -> (res: Self)
        ensures
            res.row_count_spec() == row_count,
            res.dtype_spec() == dtype,
            res.offsets_dtype_spec() == offsets_dtype,
            res.children_spec().count() == children@.len(),
            forall|index: usize, d: DType| #[trigger]
                res.children_spec().answer(index, d) == owned_answer(children@, index, d),
    {
        ListLayout {
            row_count,
            dtype,
            offsets_dtype,
            children: Arc::new(C::layout_children(children)),
        }
    }

    /// The child that holds the validity of the rows, where rows may be null.
    pub fn validity(&self) -> (res: Result<Option<Arc<C::Child>>, ListError>)
        ensures
            res == if self.nullable() {
                match self.children_spec().answer(0, DType::Bool(Nullability::NonNullable)) {
                    Ok(layout) => Ok(Some(layout)),
                    Err(e) => Err(e),
                }
            } else {
                Ok(None)
            },
    {
        if self.dtype.is_nullable() {
            match self.children.child(0, &DType::Bool(Nullability::NonNullable)) {
                Ok(layout) => Ok(Some(layout)),
                Err(e) => Err(e),
            }
        } else {
            Ok(None)
        }
    }

    /// The child that holds the offsets.
    pub fn offsets(&self) -> (res: Result<Arc<C::Child>, ListError>)
        ensures
            res == self.children_spec().answer(
                offsets_index(self.nullable()) as usize,
                self.offsets_dtype_spec(),
            ),
    {
        let idx: usize = if self.dtype.is_nullable() {
            1
        } else {
            0
        };
        self.children.child(idx, &self.offsets_dtype)
    }

    /// The child that holds the elements.
    pub fn elements(&self) -> (res: Result<Arc<C::Child>, ListError>)
        requires
            self.dtype_spec().list_element() is Some,
        ensures
            res == self.children_spec().answer(
                elements_index(self.nullable()) as usize,
                self.dtype_spec().list_element()->0,
            ),
    {
        let idx: usize = if self.dtype.is_nullable() {
            2
        } else {
            1
        };
        self.children.child(idx, &ChildRole::Elements.dtype(&self.dtype, &self.offsets_dtype))
    }
}

impl<C> Clone for ListLayout<C> {
    fn clone(&self) -> (res: Self)
        ensures
            res == *self,
    {
        ListLayout {
            row_count: self.row_count,
            dtype: self.dtype.clone(),
            offsets_dtype: self.offsets_dtype.clone(),
            children: self.children.clone(),
        }
    }
}

impl<C> Layout for ListLayout<C> {
    open spec fn row_count_spec(&self) -> u64 {
        ListLayout::row_count_spec(*self)
    }

    open spec fn dtype_spec(&self) -> DType {
        ListLayout::dtype_spec(*self)
    }

    fn row_count(&self) -> (res: u64) {
        self.row_count
    }

    fn dtype(&self) -> (res: &DType) {
        &self.dtype
    }
}

/// Whether a result is that of opening a stored layout. It is an error if the type is not a list;
/// else if the number of children is not the one that the type asks for; else if the stored
/// number stands for no physical type.
pub open spec fn opened<C: LayoutChildren>(
    dtype: DType,
    row_count: u64,
    metadata: ListLayoutMetadata,
    children: Arc<C>,
    res: Result<ListLayout<C>, ListError>,
) -> bool {
    match res {
        Ok(layout) => {
            &&& dtype is List
            &&& children.count() == child_count(dtype.nullable())
            &&& layout.row_count_spec() == row_count
            &&& layout.dtype_spec() == dtype
            &&& layout.children_spec() == children
            &&& layout.offsets_dtype_spec() matches DType::Primitive(ptype, n) && n
                == Nullability::NonNullable && ptype_code(ptype) == metadata.offsets_ptype
        },
        Err(e) => if !(dtype is List) {
            e == ListError::ExpectedListDType
        } else if children.count() != child_count(dtype.nullable()) {
            e == (ListError::ChildCount {
                actual: children.count() as usize,
                expected: child_count(dtype.nullable()) as usize,
            })
        } else {
            &&& e == (ListError::InvalidPType { code: metadata.offsets_ptype })
            &&& !(0 <= metadata.offsets_ptype <= 10)
        },
    }
}

/// Whether metadata is what is stored of a layout.
pub open spec fn describes<C>(metadata: ListLayoutMetadata, layout: ListLayout<C>) -> bool {
    layout.offsets_dtype_spec() matches DType::Primitive(ptype, _) && metadata.offsets_ptype
        == ptype_code(ptype)
}

/// A layout of lists, with all its children and with offsets that are never null, is opened as
/// it was stored.
pub proof fn stored_layout_is_opened_as_it_was<C: LayoutChildren>(
    layout: ListLayout<C>,
    metadata: ListLayoutMetadata,
    res: Result<ListLayout<C>, ListError>,
)
    requires
        layout.dtype_spec() is List,
        layout.children_spec().count() == child_count(layout.nullable()),
        layout.offsets_dtype_spec() matches DType::Primitive(_, n) && n
            == Nullability::NonNullable,
        describes(metadata, layout),
        opened(
            layout.dtype_spec(),
            layout.row_count_spec(),
            metadata,
            layout.children_spec(),
            res,
        ),
    ensures
        res == Ok::<ListLayout<C>, ListError>(layout),
{
}

/// What is stored of a layout that was opened is what it was opened with.
pub proof fn opened_layout_is_stored_as_it_was<C: LayoutChildren>(
    dtype: DType,
    row_count: u64,
    metadata: ListLayoutMetadata,
    children: Arc<C>,
    layout: ListLayout<C>,
    stored: ListLayoutMetadata,
)
    requires
        opened(dtype, row_count, metadata, children, Ok(layout)),
        describes(stored, layout),
    ensures
        stored == metadata,
{
}

/// A list layout has a child for each index below [`child_count`], and for no other. The
/// offsets and the elements are where [`offsets_index`] and [`elements_index`] say, and the
/// validity, where there is one, comes first.
pub proof fn children_are_indexed_by_role(nullable: bool, index: int)
    ensures
        role_at(nullable, index) is Some <==> 0 <= index < child_count(nullable),
        role_at(nullable, index) == Some(ChildRole::Validity) <==> nullable && index == 0,
        role_at(nullable, index) == Some(ChildRole::Offsets) <==> index == offsets_index(nullable),
        role_at(nullable, index) == Some(ChildRole::Elements) <==> index == elements_index(
            nullable,
        ),
{
}

/// What a file of layouts needs to know of list layouts.
pub struct ListVTable;

impl ListVTable {
    /// The name of the encoding.
    pub fn id(_encoding: &ListLayoutEncoding) -> (res: &'static str)
        ensures
            res@ == "vortex.list"@,
    {
        "vortex.list"
    }

    pub fn encoding<C>(_layout: &ListLayout<C>) -> (res: ListLayoutEncoding)
        ensures
            res == ListLayoutEncoding,
    {
        ListLayoutEncoding
    }

    pub fn row_count<C>(layout: &ListLayout<C>) -> (res: u64)
        ensures
            res == layout.row_count_spec(),
    {
        layout.row_count()
    }

    pub fn dtype<C>(layout: &ListLayout<C>) -> (res: &DType)
        ensures
            *res == layout.dtype_spec(),
    {
        layout.dtype()
    }

    /// What is stored of a layout whose offsets are numbers.
    pub fn metadata<C>(layout: &ListLayout<C>) -> (res: ListLayoutMetadata)
        requires
            layout.offsets_dtype_spec() is Primitive,
        ensures
            describes(res, *layout),
    {
        let offsets_ptype: i32 = match layout.offsets_dtype() {
            DType::Primitive(ptype, _) => ptype.code(),
            _ => 0,
        };
        ListLayoutMetadata { offsets_ptype }
    }

    /// A list layout stores no segments of its own.
    pub fn segment_ids<C>(_layout: &ListLayout<C>) -> (res: Vec<SegmentId>)
        ensures
            res@ == Seq::<SegmentId>::empty(),
    {
        Vec::new()
    }

    pub fn nchildren<C>(layout: &ListLayout<C>) -> (res: usize)
        ensures
            res == child_count(layout.nullable()),
    {
        if layout.dtype().is_nullable() {
            3
        } else {
            2
        }
    }

    /// The child at an index, asked for with the type of what it holds.
    pub fn child<C: LayoutChildren>(layout: &ListLayout<C>, index: usize) -> (res: Result<
        Arc<C::Child>,
        ListError,
    >)
        requires
            index == elements_index(layout.nullable()) ==> layout.dtype_spec().list_element()
                is Some,
        ensures
            res == match role_at(layout.nullable(), index as int) {
                Some(role) => layout.children_spec().answer(
                    index,
                    role_dtype(role, layout.dtype_spec(), layout.offsets_dtype_spec()),
                ),
                None => Err(ListError::ChildOutOfBounds { index }),
            },
    {
        match ChildRole::at(layout.dtype().is_nullable(), index) {
            Some(role) => {
                let child_dtype = role.dtype(layout.dtype(), layout.offsets_dtype());
                layout.children().child(index, &child_dtype)
            },
            None => Err(ListError::ChildOutOfBounds { index }),
        }
    }

    /// The part that the child at an index plays, with the name `unknown` where there is none.
    pub fn child_type<C>(layout: &ListLayout<C>, idx: usize) -> (res: LayoutChildType)
        ensures
            res matches LayoutChildType::Auxiliary(name) && name@ == match role_at(
                layout.nullable(),
                idx as int,
            ) {
                Some(role) => role_name(role),
                None => "unknown"@,
            },
    {
        match ChildRole::at(layout.dtype().is_nullable(), idx) {
            Some(role) => LayoutChildType::Auxiliary(role.name()),
            None => LayoutChildType::Auxiliary("unknown".to_owned()),
        }
    }

    /// A reader of the column.
    pub fn new_reader<C>(layout: &ListLayout<C>, name: String) -> (res: Result<
        ListReader<C>,
        ListError,
    >)
        requires
            layout.dtype_spec().list_element() is Some,
        ensures
            res matches Ok(reader) && reader.layout_spec() == *layout && reader.name_spec()
                == name@ && reader.wf(),
    {
        ListReader::try_new(layout.clone(), name)
    }

    /// Opens a layout that was stored: checks that the type is a list, that there are as many
    /// children as it asks for, and that the stored number stands for a physical type, in this
    /// order.
    pub fn build<C: LayoutChildren>(
        _encoding: &ListLayoutEncoding,
        dtype: &DType,
        row_count: u64,
        metadata: &ListLayoutMetadata,
        _segment_ids: Vec<SegmentId>,
        children: &Arc<C>,
    ) -> (res: Result<ListLayout<C>, ListError>)
        ensures
            opened(*dtype, row_count, *metadata, *children, res),
    {
        match dtype {
            DType::List(..) => {},
            _ => {
                return Err(ListError::ExpectedListDType);
            },
        }
        let expected: usize = if dtype.is_nullable() {
            3
        } else {
            2
        };
        let actual: usize = children.nchildren();
        if actual != expected {
            return Err(ListError::ChildCount { actual, expected });
        }
        match PType::from_code(metadata.offsets_ptype) {
            Ok(offsets_ptype) => Ok(
                ListLayout {
                    row_count,
                    dtype: dtype.clone(),
                    offsets_dtype: DType::Primitive(offsets_ptype, Nullability::NonNullable),
                    children: children.clone(),
                },
            ),
            Err(e) => Err(e),
        }
    }

    /// Replaces the children of a layout by as many others.
    pub fn with_children<C: LayoutChildren>(
        layout: &mut ListLayout<C>,
        children: Vec<Arc<C::Child>>,
    ) -> (res: Result<(), ListError>)
        ensures
            final(layout).row_count_spec() == old(layout).row_count_spec(),
            final(layout).dtype_spec() == old(layout).dtype_spec(),
            final(layout).offsets_dtype_spec() == old(layout).offsets_dtype_spec(),
            match res {
                Ok(_) => {
                    &&& children@.len() == child_count(old(layout).nullable())
                    &&& final(layout).children_spec().count() == children@.len()
                    &&& forall|index: usize, d: DType| #[trigger]
                        final(layout).children_spec().answer(index, d) == owned_answer(
                            children@,
                            index,
                            d,
                        )
                },
                Err(e) => {
                    &&& children@.len() != child_count(old(layout).nullable())
                    &&& *final(layout) == *old(layout)
                    &&& e == (ListError::ReplacementCount {
                        actual: children@.len() as usize,
                        expected: child_count(old(layout).nullable()) as usize,
                    })
                },
            },
    {
        let expected: usize = if layout.dtype.is_nullable() {
            3
        } else {
            2
        };
        let actual: usize = children.len();
        if actual != expected {
            return Err(ListError::ReplacementCount { actual, expected });
        }
        layout.children = Arc::new(C::layout_children(children));
        Ok(())
    }
}

} // verus!
