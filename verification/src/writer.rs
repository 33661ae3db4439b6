//! Writing a list column.
//!
//! The chunks of a list column come one after the other. Each is taken apart into pieces, one
//! for each child of the layout, and each child writes its pieces as one column. The pieces of
//! a child, one after the other, are its column: so the offsets of a chunk go on where those of
//! the chunk before ended.

use std::sync::Arc;

use vstd::prelude::*;

use crate::children::owned_answer;
use crate::children::Layout;
use crate::children::LayoutChildren;
use crate::dtype::DType;
use crate::dtype::Nullability;
use crate::dtype::PType;
use crate::error::ListError;
use crate::kernels::add_scalar;
use crate::kernels::cast;
use crate::kernels::pack;
use crate::layout::child_count;
use crate::layout::role_at;
use crate::layout::role_dtype;
use crate::layout::ChildRole;
use crate::layout::ListLayout;
use crate::lists::packing_keeps_rows;
use crate::lists::signed;
use crate::lists::unsigned;
use crate::lists::ListChunk;

verus! {

/// How a column is written.
pub trait LayoutStrategy {
    /// How many bytes are held back at the moment.
    fn buffered_bytes(&self) -> u64;
}

/// The sum of three numbers of bytes, unless it overflows.
pub open spec fn bytes_total(offsets: u64, elements: u64, validity: u64) -> Option<u64> {
    if offsets + elements + validity <= u64::MAX {
        Some((offsets + elements + validity) as u64)
    } else {
        None
    }
}

/// Adds up how many bytes the children hold back.
pub fn total_buffered_bytes(offsets: u64, elements: u64, validity: u64) -> (res: Option<u64>)
    ensures
        res == bytes_total(offsets, elements, validity),
{
    match offsets.checked_add(elements) {
        Some(sum) => sum.checked_add(validity),
        None => None,
    }
}

/// How a list column is written: each child in its own way.
pub struct ListLayoutStrategy<O: ?Sized, E: ?Sized, V: ?Sized> {
    offsets: Arc<O>,
    elements: Arc<E>,
    validity: Arc<V>,
}

impl<O: ?Sized, E: ?Sized, V: ?Sized> ListLayoutStrategy<O, E, V> {
    pub closed spec fn offsets_spec(self) -> Arc<O> {
        self.offsets
    }

    pub closed spec fn elements_spec(self) -> Arc<E> {
        self.elements
    }

    pub closed spec fn validity_spec(self) -> Arc<V> {
        self.validity
    }

    pub fn new(offsets: Arc<O>, elements: Arc<E>, validity: Arc<V>) -> (res: Self)
        ensures
            res.offsets_spec() == offsets,
            res.elements_spec() == elements,
            res.validity_spec() == validity,
    {
        ListLayoutStrategy { offsets, elements, validity }
    }

    /// How the offsets are written.
    pub fn offsets(&self) -> (res: &Arc<O>)
        ensures
            *res == self.offsets_spec(),
    {
        &self.offsets
    }

    /// How the elements are written.
    pub fn elements(&self) -> (res: &Arc<E>)
        ensures
            *res == self.elements_spec(),
    {
        &self.elements
    }

    /// How the validity is written.
    pub fn validity(&self) -> (res: &Arc<V>)
        ensures
            *res == self.validity_spec(),
    {
        &self.validity
    }

    /// Begins to write a column of lists of a type.
    pub fn write_stream(&self, dtype: &DType) -> (res: ListStream)
        requires
            dtype.list_element() is Some,
        ensures
            res.wf(),
            res.dtype_spec() == *dtype,
            !res.started(),
            !res.ended(),
            res.element_offset() == 0,
    {
        ListStream::begin(dtype)
    }
}

impl<S: ?Sized> ListLayoutStrategy<S, S, S> {
    /// How a child is written.
    pub fn for_child(&self, role: ChildRole) -> (res: &Arc<S>)
        ensures
            *res == match role {
                ChildRole::Validity => self.validity_spec(),
                ChildRole::Offsets => self.offsets_spec(),
                ChildRole::Elements => self.elements_spec(),
            },
    {
        match role {
            ChildRole::Validity => &self.validity,
            ChildRole::Offsets => &self.offsets,
            ChildRole::Elements => &self.elements,
        }
    }
}

impl<
    O: LayoutStrategy + ?Sized,
    E: LayoutStrategy + ?Sized,
    V: LayoutStrategy + ?Sized,
> ListLayoutStrategy<O, E, V> {
    /// How many bytes the children hold back at the moment, all together.
    pub fn buffered_bytes(&self) -> (res: Option<u64>)
        ensures
            exists|offsets: u64, elements: u64, validity: u64|
                {
                    &&& call_ensures(O::buffered_bytes, (&*self.offsets_spec(),), offsets)
                    &&& call_ensures(E::buffered_bytes, (&*self.elements_spec(),), elements)
                    &&& call_ensures(V::buffered_bytes, (&*self.validity_spec(),), validity)
                    &&& res == #[trigger] bytes_total(offsets, elements, validity)
                },
    {
        let offsets: u64 = self.offsets.buffered_bytes();
        let elements: u64 = self.elements.buffered_bytes();
        let validity: u64 = self.validity.buffered_bytes();
        total_buffered_bytes(offsets, elements, validity)
    }
}

impl<O: ?Sized, E: ?Sized, V: ?Sized> Clone for ListLayoutStrategy<O, E, V> {
    fn clone(&self) -> (res: Self)
        ensures
            res == *self,
    {
        ListLayoutStrategy {
            offsets: self.offsets.clone(),
            elements: self.elements.clone(),
            validity: self.validity.clone(),
        }
    }
}

/// A column that a child writes.
#[derive(Debug)]
pub struct ChildStream {
    pub role: ChildRole,
    pub dtype: DType,
}

/// A piece of a column that a child writes.
#[derive(Debug)]
pub enum ChildPiece<T> {
    Validity(Vec<bool>),
    Offsets(Vec<u64>),
    Elements(Vec<T>),
}

/// The type that offsets are written in.
pub open spec fn written_offsets_dtype() -> DType {
    DType::Primitive(PType::U64, Nullability::NonNullable)
}

/// The validity of the rows of a chunk, one by one.
pub open spec fn validity_piece<T>(chunk: ListChunk<T>) -> Seq<bool> {
    match chunk.validity_spec() {
        Some(v) => v,
        None => Seq::new(chunk.rows().len(), |i: int| true),
    }
}

/// What is written of the offsets of a chunk, where `base` elements were written before it. The
/// first chunk's offsets are written as they are. Of any other chunk the first offset is left
/// out, since the chunk before has written it as its last, and the others count from `base` on.
pub open spec fn offsets_piece<T>(started: bool, base: int, chunk: ListChunk<T>) -> Seq<int> {
    let offsets = chunk.packed_offsets();
    if started {
        Seq::new((offsets.len() - 1) as nat, |i: int| offsets[i + 1] + base)
    } else {
        offsets
    }
}

/// Whether pieces are those of a chunk, in the order of the children.
pub open spec fn pieces_of<T>(
    pieces: Seq<ChildPiece<T>>,
    nullable: bool,
    started: bool,
    base: int,
    chunk: ListChunk<T>,
) -> bool {
    &&& pieces.len() == child_count(nullable)
    &&& forall|i: int|
        #![trigger pieces[i]]
        0 <= i < pieces.len() ==> match role_at(nullable, i)->0 {
            ChildRole::Validity => pieces[i] matches ChildPiece::Validity(v) && v@
                == validity_piece(chunk),
            ChildRole::Offsets => pieces[i] matches ChildPiece::Offsets(o) && unsigned(o@)
                == offsets_piece(started, base, chunk),
            ChildRole::Elements => pieces[i] matches ChildPiece::Elements(e) && e@
                == chunk.packed_elements(),
        }
}

/// Whether columns, one for each child, in order, have the given types and go to the children
/// with the given roles.
pub open spec fn streams_of(streams: Seq<ChildStream>, dtype: DType) -> bool {
    &&& streams.len() == child_count(dtype.nullable())
    &&& forall|i: int|
        #![trigger streams[i]]
        0 <= i < streams.len() ==> {
            let role = role_at(dtype.nullable(), i)->0;
            &&& streams[i].role == role
            &&& streams[i].dtype == role_dtype(role, dtype, written_offsets_dtype())
        }
}

/// Whether these are all children, in order.
pub open spec fn roles_of(roles: Seq<ChildRole>, nullable: bool) -> bool {
    &&& roles.len() == child_count(nullable)
    &&& forall|i: int| 0 <= i < roles.len() ==> Some(#[trigger] roles[i]) == role_at(nullable, i)
}

/// How many rows the list column has, by the rows of its first child: as many as the validity
/// where rows may be null, else one less than there are offsets.
pub open spec fn written_row_count(nullable: bool, first_child_rows: u64) -> int {
    if nullable {
        first_child_rows as int
    } else {
        first_child_rows - 1
    }
}

/// What comes in while a list column is written.
pub enum ChunkEvent<T> {
    /// The next chunk.
    Chunk(ListChunk<T>),
    /// The chunks failed to come.
    Failed,
}

/// What is to be done next while a list column is written.
pub enum WriteAction<T> {
    /// Send each piece to the child that it is for, in order, and take the next chunk.
    Send(Vec<ChildPiece<T>>),
    /// Send the error to each of these children, in order, and take no more chunks.
    Abort { children: Vec<ChildRole>, error: ListError },
}

/// A list column that is being written.
pub struct ListStream {
    dtype: DType,
    is_nullable: bool,
    started: bool,
    ended: bool,
    current_element_offset: u64,
}

/// Whether a column that is being written becomes another by taking a chunk apart into pieces.
pub open spec fn taken_apart<T>(
    before: ListStream,
    chunk: ListChunk<T>,
    pieces: Seq<ChildPiece<T>>,
    after: ListStream,
) -> bool {
    &&& pieces_of(
        pieces,
        before.dtype_spec().nullable(),
        before.started(),
        before.element_offset() as int,
        chunk,
    )
    &&& after.dtype_spec() == before.dtype_spec()
    &&& after.started()
    &&& !after.ended()
    &&& after.element_offset() == before.element_offset() + chunk.packed_elements().len()
}

/// Whether a column that is being written becomes another by an error that ends it.
pub open spec fn ended_by_error(before: ListStream, after: ListStream) -> bool {
    &&& after.ended()
    &&& after.dtype_spec() == before.dtype_spec()
    &&& after.started() == before.started()
    &&& after.element_offset() == before.element_offset()
}

impl ListStream {
    pub closed spec fn dtype_spec(self) -> DType {
        self.dtype
    }

    /// Whether a chunk was taken apart yet.
    pub closed spec fn started(self) -> bool {
        self.started
    }

    /// Whether an error has ended the column. Nothing is written of it after that.
    pub closed spec fn ended(self) -> bool {
        self.ended
    }

    /// How many elements were written of the chunks that were taken apart.
    pub closed spec fn element_offset(self) -> u64 {
        self.current_element_offset
    }

    pub closed spec fn wf(self) -> bool {
        &&& self.dtype.list_element() is Some
        &&& self.is_nullable == self.dtype.nullable()
        &&& !self.started ==> self.current_element_offset == 0
    }

    /// Before a chunk was taken apart, no element was written.
    pub(crate) proof fn not_started_at_the_beginning(self)
        requires
            self.wf(),
            !self.started(),
        ensures
            self.element_offset() == 0,
    {
    }

    /// Begins a column of lists of a type.
    pub fn begin(dtype: &DType) -> (res: Self)
        requires
            dtype.list_element() is Some,
        ensures
            res.wf(),
            res.dtype_spec() == *dtype,
            !res.started(),
            !res.ended(),
            res.element_offset() == 0,
    {
        ListStream {
            dtype: dtype.clone(),
            is_nullable: dtype.is_nullable(),
            started: false,
            ended: false,
            current_element_offset: 0,
        }
    }

    /// Tells whether an error has ended the column.
    pub fn is_ended(&self) -> (res: bool)
        ensures
            res == self.ended(),
    {
        self.ended
    }

    /// The columns that the children write, in order.
    pub fn children(&self) -> (res: Vec<ChildStream>)
        requires
            self.wf(),
        ensures
            streams_of(res@, self.dtype_spec()),
    {
        let offsets_dtype = DType::Primitive(PType::U64, Nullability::NonNullable);
        let mut res: Vec<ChildStream> = Vec::new();
        if self.is_nullable {
            res.push(
                ChildStream {
                    role: ChildRole::Validity,
                    dtype: ChildRole::Validity.dtype(&self.dtype, &offsets_dtype),
                },
            );
        }
        res.push(
            ChildStream {
                role: ChildRole::Offsets,
                dtype: ChildRole::Offsets.dtype(&self.dtype, &offsets_dtype),
            },
        );
        res.push(
            ChildStream {
                role: ChildRole::Elements,
                dtype: ChildRole::Elements.dtype(&self.dtype, &offsets_dtype),
            },
        );
        res
    }

    /// Takes a chunk apart.
    pub fn transpose<T: Copy>(&mut self, chunk: &ListChunk<T>) -> (res: Result<
        Vec<ChildPiece<T>>,
        ListError,
    >)
        requires
            old(self).wf(),
            !old(self).ended(),
            chunk.wf(),
        ensures
            final(self).wf(),
            match res {
                Ok(pieces) => taken_apart(*old(self), *chunk, pieces@, *final(self)),
                Err(e) => {
                    &&& e == ListError::OffsetOverflow
                    &&& old(self).started()
                    &&& old(self).element_offset() + chunk.packed_elements().len() > u64::MAX
                    &&& *final(self) == *old(self)
                },
            },
    {
        proof {
            packing_keeps_rows(*chunk);
        }
        let packed = pack(chunk);
        assert forall|i: int| 0 <= i < packed.offsets@.len() implies packed.offsets@[i] >= 0 by {
            assert(signed(packed.offsets@)[0] <= signed(packed.offsets@)[i]);
        }
        let offsets = match cast(&packed.offsets) {
            Ok(offsets) => offsets,
            Err(_) => {
                return Err(ListError::InvalidList);
            },
        };
        assert(unsigned(offsets@) == chunk.packed_offsets());
        assert(offsets@.len() == unsigned(offsets@).len());
        let ghost n = offsets@.len() as int;
        let base: u64 = self.current_element_offset;
        let offsets = if self.started {
            match add_scalar(&offsets, base) {
                Ok(mut adjusted) => {
                    let ghost whole = adjusted@;
                    assert(unsigned(whole).len() == whole.len());
                    adjusted.remove(0);
                    assert forall|i: int| 0 <= i < n - 1 implies unsigned(adjusted@)[i]
                        == chunk.packed_offsets()[i + 1] + base by {
                        assert(unsigned(whole)[i + 1] == offsets@[i + 1] + base);
                        assert(unsigned(offsets@)[i + 1] == chunk.packed_offsets()[i + 1]);
                    }
                    adjusted
                },
                Err(_) => {
                    proof {
                        let i = choose|i: int|
                            0 <= i < n && #[trigger] offsets@[i] + base > u64::MAX;
                        assert(unsigned(offsets@)[i] <= unsigned(offsets@)[n - 1]);
                        assert(unsigned(offsets@)[n - 1] == chunk.packed_offsets().last());
                        if chunk.leftover() {
                            assert(unsigned(offsets@)[i] == seq![0int][i]);
                        }
                    }
                    return Err(ListError::OffsetOverflow);
                },
            }
        } else {
            offsets
        };
        assert(unsigned(offsets@) =~= offsets_piece(self.started, base as int, *chunk));
        let element_offset: u64 = match base.checked_add(packed.elements.len() as u64) {
            Some(element_offset) => element_offset,
            None => {
                return Err(ListError::OffsetOverflow);
            },
        };
        let mut pieces: Vec<ChildPiece<T>> = Vec::new();
        if self.is_nullable {
            pieces.push(ChildPiece::Validity(validity_mask(chunk)));
        }
        pieces.push(ChildPiece::Offsets(offsets));
        pieces.push(ChildPiece::Elements(packed.elements));
        self.started = true;
        self.current_element_offset = element_offset;
        Ok(pieces)
    }

    /// The children, in order.
    fn roles(&self) -> (res: Vec<ChildRole>)
        requires
            self.wf(),
        ensures
            roles_of(res@, self.dtype_spec().nullable()),
    {
        let mut res: Vec<ChildRole> = Vec::new();
        if self.is_nullable {
            res.push(ChildRole::Validity);
        }
        res.push(ChildRole::Offsets);
        res.push(ChildRole::Elements);
        res
    }

    /// Says what to do with what came in. A chunk that can be taken apart goes to the children
    /// in pieces. An error, of the chunks or of taking one apart, goes to every child and ends
    /// the column: nothing is to come in after that.
    pub fn step<T: Copy>(&mut self, event: ChunkEvent<T>) -> (res: WriteAction<T>)
        requires
            old(self).wf(),
            !old(self).ended(),
            event matches ChunkEvent::Chunk(chunk) ==> chunk.wf(),
        ensures
            final(self).wf(),
            res is Abort <==> final(self).ended(),
            match event {
                ChunkEvent::Chunk(chunk) => if old(self).element_offset()
                    + chunk.packed_elements().len() <= u64::MAX {
                    &&& res matches WriteAction::Send(pieces)
                    &&& taken_apart(*old(self), chunk, pieces@, *final(self))
                } else {
                    &&& res matches WriteAction::Abort { children, error }
                    &&& roles_of(children@, old(self).dtype_spec().nullable())
                    &&& error == ListError::OffsetOverflow
                    &&& ended_by_error(*old(self), *final(self))
                },
                ChunkEvent::Failed => {
                    &&& res matches WriteAction::Abort { children, error }
                    &&& roles_of(children@, old(self).dtype_spec().nullable())
                    &&& error == ListError::Stream
                    &&& ended_by_error(*old(self), *final(self))
                },
            },
    {
        match event {
            ChunkEvent::Chunk(chunk) => match self.transpose(&chunk) {
                Ok(pieces) => WriteAction::Send(pieces),
                Err(error) => {
                    self.ended = true;
                    WriteAction::Abort { children: self.roles(), error }
                },
            },
            ChunkEvent::Failed => {
                self.ended = true;
                WriteAction::Abort { children: self.roles(), error: ListError::Stream }
            },
        }
    }

    /// The layout of the column, once its children are written.
    pub fn finish<C: LayoutChildren>(self, child_layouts: Vec<Arc<C::Child>>) -> (res: ListLayout<
        C,
    >)
        requires
            self.wf(),
            child_layouts@.len() > 0,
            self.dtype_spec().nullable() || child_layouts@[0].row_count_spec() > 0,
        ensures
            res.row_count_spec() == written_row_count(
                self.dtype_spec().nullable(),
                child_layouts@[0].row_count_spec(),
            ),
            res.dtype_spec() == self.dtype_spec(),
            res.offsets_dtype_spec() == written_offsets_dtype(),
            res.children_spec().count() == child_layouts@.len(),
            forall|index: usize, d: DType| #[trigger]
                res.children_spec().answer(index, d) == owned_answer(child_layouts@, index, d),
    {
        let first_child_rows: u64 = child_layouts[0].row_count();
        let row_count: u64 = if self.is_nullable {
            first_child_rows
        } else {
            first_child_rows - 1
        };
        ListLayout::new(
            row_count,
            self.dtype,
            DType::Primitive(PType::U64, Nullability::NonNullable),
            child_layouts,
        )
    }
}

/// The validity of the rows of a chunk, one by one.
fn validity_mask<T>(chunk: &ListChunk<T>) -> (res: Vec<bool>)
    requires
        chunk.wf(),
    ensures
        res@ == validity_piece(*chunk),
{
    let (validity, len): (&Option<Vec<bool>>, usize) = match chunk {
        ListChunk::List { offsets, validity, .. } => (validity, offsets.len() - 1),
        ListChunk::ListView { offsets, validity, .. } => (validity, offsets.len()),
    };
    match validity {
        Some(v) => {
            let res = v.clone();
            assert(res@ =~= v@);
            res
        },
        None => {
            let mut res: Vec<bool> = Vec::new();
            let mut i: usize = 0;
            while i < len
                invariant
                    i <= len,
                    res@ == Seq::new(i as nat, |j: int| true),
                decreases len - i,
            {
                res.push(true);
                i += 1;
                assert(res@ =~= Seq::new(i as nat, |j: int| true));
            }
            res
        },
    }
}

} // verus!
