//! What holds of writing list columns.

use std::sync::Arc;

use vstd::prelude::*;

use crate::children::Layout;
use crate::children::LayoutChildren;
use crate::dtype::DType;
use crate::dtype::Nullability;
use crate::dtype::PType;
use crate::error::ListError;
use crate::layout::ChildRole;
use crate::layout::ListLayout;
use crate::layout::ListLayoutMetadata;
use crate::layout::ListVTable;
use crate::lists::list_rows;
use crate::lists::packing_keeps_rows;
use crate::lists::unsigned;
use crate::lists::ListChunk;
use crate::writer::bytes_total;
use crate::writer::taken_apart;
use crate::writer::total_buffered_bytes;
use crate::writer::ChildPiece;
use crate::writer::ChildStream;
use crate::writer::ChunkEvent;
use crate::writer::LayoutStrategy;
use crate::writer::ListLayoutStrategy;
use crate::writer::ListStream;
use crate::writer::WriteAction;

verus! {

/// A strategy writes each child in the way that it was given for it, and so does its copy.
pub proof fn children_are_written_as_was_asked<O: ?Sized, E: ?Sized, V: ?Sized>(
    offsets: Arc<O>,
    elements: Arc<E>,
    validity: Arc<V>,
    strategy: ListLayoutStrategy<O, E, V>,
    for_offsets: &Arc<O>,
    for_elements: &Arc<E>,
    for_validity: &Arc<V>,
    copy: ListLayoutStrategy<O, E, V>,
)
    requires
        call_ensures(
            ListLayoutStrategy::<O, E, V>::new,
            (offsets, elements, validity),
            strategy,
        ),
        call_ensures(ListLayoutStrategy::<O, E, V>::offsets, (&strategy,), for_offsets),
        call_ensures(ListLayoutStrategy::<O, E, V>::elements, (&strategy,), for_elements),
        call_ensures(ListLayoutStrategy::<O, E, V>::validity, (&strategy,), for_validity),
        call_ensures(<ListLayoutStrategy<O, E, V> as Clone>::clone, (&strategy,), copy),
    ensures
        copy == strategy,
        *for_offsets == offsets,
        *for_elements == elements,
        *for_validity == validity,
{
}

/// The way that is looked up for a child is the one that was given for it.
pub proof fn a_child_is_written_as_was_asked<S: ?Sized>(
    offsets: Arc<S>,
    elements: Arc<S>,
    validity: Arc<S>,
    strategy: ListLayoutStrategy<S, S, S>,
    role: ChildRole,
    res: &Arc<S>,
)
    requires
        call_ensures(
            ListLayoutStrategy::<S, S, S>::new,
            (offsets, elements, validity),
            strategy,
        ),
        call_ensures(ListLayoutStrategy::<S, S, S>::for_child, (&strategy, role), res),
    ensures
        role == ChildRole::Offsets ==> *res == offsets,
        role == ChildRole::Elements ==> *res == elements,
        role == ChildRole::Validity ==> *res == validity,
{
}

/// Numbers of bytes are added up exactly, unless the sum is more than can be counted.
pub proof fn bytes_are_added_up(offsets: u64, elements: u64, validity: u64, res: Option<u64>)
    requires
        call_ensures(total_buffered_bytes, (offsets, elements, validity), res),
    ensures
        res is Some <==> offsets + elements + validity <= u64::MAX,
        res matches Some(sum) ==> sum == offsets + elements + validity,
{
}

/// A strategy holds back what the ways of writing its children hold back together.
pub proof fn bytes_of_all_children_are_added_up<
    O: LayoutStrategy + ?Sized,
    E: LayoutStrategy + ?Sized,
    V: LayoutStrategy + ?Sized,
>(strategy: ListLayoutStrategy<O, E, V>, res: Option<u64>) -> (answers: (u64, u64, u64))
    requires
        call_ensures(ListLayoutStrategy::<O, E, V>::buffered_bytes, (&strategy,), res),
    ensures
        call_ensures(O::buffered_bytes, (&*strategy.offsets_spec(),), answers.0),
        call_ensures(E::buffered_bytes, (&*strategy.elements_spec(),), answers.1),
        call_ensures(V::buffered_bytes, (&*strategy.validity_spec(),), answers.2),
        res is Some <==> answers.0 + answers.1 + answers.2 <= u64::MAX,
        res matches Some(sum) ==> sum == answers.0 + answers.1 + answers.2,
{
    choose|offsets: u64, elements: u64, validity: u64|
        {
            &&& call_ensures(O::buffered_bytes, (&*strategy.offsets_spec(),), offsets)
            &&& call_ensures(E::buffered_bytes, (&*strategy.elements_spec(),), elements)
            &&& call_ensures(V::buffered_bytes, (&*strategy.validity_spec(),), validity)
            &&& res == #[trigger] bytes_total(offsets, elements, validity)
        }
}

/// A column of any list type can be begun. It is of that type, has not ended, and no element was
/// written of it yet.
pub proof fn a_column_of_any_list_type_can_be_begun<O: ?Sized, E: ?Sized, V: ?Sized>(
    strategy: ListLayoutStrategy<O, E, V>,
    element: Arc<DType>,
    nullability: Nullability,
    stream: ListStream,
    ended: bool,
)
    requires
        ({
            let dtype = DType::List(element, nullability);
            ||| call_ensures(
                ListLayoutStrategy::<O, E, V>::write_stream,
                (&strategy, &dtype),
                stream,
            )
            ||| call_ensures(ListStream::begin, (&dtype,), stream)
        }),
        call_ensures(ListStream::is_ended, (&stream,), ended),
    ensures
        ({
            let dtype = DType::List(element, nullability);
            &&& call_requires(
                ListLayoutStrategy::<O, E, V>::write_stream,
                (&strategy, &dtype),
            )
            &&& call_requires(ListStream::begin, (&dtype,))
            &&& call_requires(ListStream::children, (&stream,))
            &&& stream.dtype_spec() == dtype
        }),
        stream.wf(),
        !stream.started(),
        stream.element_offset() == 0,
        !ended,
        !stream.ended(),
{
}

/// The columns that the children write: the validity as booleans that are never null, where
/// rows may be null; the offsets as 64-bit unsigned integers that are never null, which is what
/// is sent of them; and the elements with exactly the element type of the list type, be its
/// values null or not.
pub proof fn columns_have_the_types_of_what_is_sent(
    stream: ListStream,
    element: Arc<DType>,
    nullability: Nullability,
    columns: Vec<ChildStream>,
)
    requires
        stream.dtype_spec() == DType::List(element, nullability),
        call_ensures(ListStream::children, (&stream,), columns),
    ensures
        ({
            let n = columns@.len();
            &&& n == if nullability == Nullability::Nullable {
                3
            } else {
                2int
            }
            &&& nullability == Nullability::Nullable ==> columns@[0].role == ChildRole::Validity
                && columns@[0].dtype == DType::Bool(Nullability::NonNullable)
            &&& columns@[n - 2].role == ChildRole::Offsets
            &&& columns@[n - 2].dtype == DType::Primitive(PType::U64, Nullability::NonNullable)
            &&& columns@[n - 1].role == ChildRole::Elements
            &&& columns@[n - 1].dtype == *element
        }),
{
    let n = columns@.len() as int;
    assert(columns@[0].role == columns@[0].role);
    assert(columns@[n - 2].role == columns@[n - 2].role);
    assert(columns@[n - 1].role == columns@[n - 1].role);
}

/// Whether pieces, one for each child, hold the rows of a chunk, where `base` elements were
/// written before it, and an offset before it if `started`.
///
/// The validity is true where a row is not null. A row goes from the offset before its own to its
/// own, both counted from `base` on, and these cut it out of the elements. A null row of views
/// takes up no elements; a null row that is cut by offsets keeps those under it. There are no
/// elements outside the rows, but for those of views without rows.
pub open spec fn pieces_hold_rows<T>(
    nullable: bool,
    started: bool,
    base: int,
    chunk: ListChunk<T>,
    pieces: Seq<ChildPiece<T>>,
) -> bool {
    let rows = chunk.rows();
    let (first, second): (int, int) = if nullable {
        (1, 2)
    } else {
        (0, 1)
    };
    let offsets = pieces[first]->Offsets_0@;
    let elements = pieces[second]->Elements_0@;
    &&& pieces.len() == second + 1
    &&& nullable ==> (pieces[0] matches ChildPiece::Validity(v) && v@.len() == rows.len()
        && forall|i: int| 0 <= i < rows.len() ==> (#[trigger] v@[i] <==> rows[i] is Some))
    &&& pieces[first] is Offsets
    &&& pieces[second] is Elements
    &&& offsets.len() == if started {
        rows.len()
    } else {
        rows.len() + 1
    }
    &&& !started ==> offsets[0] == 0
    &&& forall|i: int|
        #![trigger rows[i]]
        0 <= i < rows.len() ==> {
            let end = if started {
                offsets[i] as int
            } else {
                offsets[i + 1] as int
            };
            let start = if !started {
                offsets[i] as int
            } else if i > 0 {
                offsets[i - 1] as int
            } else {
                base
            };
            &&& base <= start <= end <= base + elements.len()
            &&& rows[i] matches Some(row) ==> elements.subrange(start - base, end - base) == row
            &&& chunk is ListView && rows[i] is None ==> end == start
            &&& chunk matches ListChunk::List { offsets: o, .. } ==> end - start == o@[i + 1]
                - o@[i]
            &&& i == rows.len() - 1 ==> end == base + elements.len()
        }
    &&& chunk matches ListChunk::List { elements: e, offsets: o, .. } ==> elements == e@.subrange(
        o@[0] as int,
        o@[o@.len() - 1] as int,
    )
    &&& rows.len() == 0 ==> (chunk matches ListChunk::ListView { elements: e, .. } ==> elements
        == e@)
}

proof fn lemma_pieces<T>(
    before: ListStream,
    chunk: ListChunk<T>,
    pieces: Seq<ChildPiece<T>>,
    after: ListStream,
)
    requires
        before.wf(),
        chunk.wf(),
        taken_apart(before, chunk, pieces, after),
    ensures
        pieces_hold_rows(
            before.dtype_spec().nullable(),
            before.started(),
            before.element_offset() as int,
            chunk,
            pieces,
        ),
{
    packing_keeps_rows(chunk);
    let nullable = before.dtype_spec().nullable();
    let started = before.started();
    let base = before.element_offset() as int;
    let rows = chunk.rows();
    let o = chunk.packed_offsets();
    let e = chunk.packed_elements();
    let (first, second): (int, int) = if nullable {
        (1, 2)
    } else {
        (0, 1)
    };
    assert(pieces[0] == pieces[0]);
    assert(pieces[first] is Offsets);
    assert(pieces[second] is Elements);
    let offsets = pieces[first]->Offsets_0@;
    let sent = unsigned(offsets);
    assert(sent.len() == offsets.len());
    assert forall|k: int| 0 <= k < offsets.len() implies #[trigger] offsets[k] == if started {
        o[k + 1] + base
    } else {
        o[k]
    } by {
        assert(sent[k] == offsets[k]);
    }
    let cut = list_rows(e, o, chunk.validity_spec());
    assert forall|i: int| #![trigger rows[i]] 0 <= i < rows.len() implies {
        &&& 0 <= o[i] <= o[i + 1] <= e.len()
        &&& rows[i] matches Some(row) ==> e.subrange(o[i], o[i + 1]) == row
        &&& chunk is ListView && rows[i] is None ==> o[i + 1] == o[i]
        &&& chunk matches ListChunk::List { offsets: c, .. } ==> o[i + 1] - o[i] == c@[i + 1]
            - c@[i]
        &&& i == rows.len() - 1 ==> o[i + 1] == e.len()
    } by {
        assert(o[0] <= o[i] <= o[i + 1] <= o[o.len() - 1]);
        assert(cut[i] == rows[i]);
    }
    if !started {
        before.not_started_at_the_beginning();
    }
}

/// A chunk that may be written is taken apart into pieces that hold its rows, and then its
/// elements count as written. It is an error if they cannot be counted, and then nothing changes.
pub proof fn a_chunk_is_taken_apart_into_its_rows<T: Copy>(
    stream: &mut ListStream,
    element: Arc<DType>,
    nullability: Nullability,
    chunk: ListChunk<T>,
    res: Result<Vec<ChildPiece<T>>, ListError>,
)
    requires
        old(stream).wf(),
        old(stream).dtype_spec() == DType::List(element, nullability),
        !old(stream).ended(),
        chunk.wf(),
        call_ensures(ListStream::transpose::<T>, (stream, &chunk), res),
    ensures
        call_requires(ListStream::transpose::<T>, (stream, &chunk)),
        final(stream).wf(),
        final(stream).dtype_spec() == old(stream).dtype_spec(),
        !final(stream).ended(),
        res is Err <==> old(stream).element_offset() + chunk.packed_elements().len() > u64::MAX,
        res matches Err(e) ==> e == ListError::OffsetOverflow && *final(stream) == *old(stream),
        res matches Ok(pieces) ==> {
            let nullable = nullability == Nullability::Nullable;
            &&& pieces_hold_rows(
                nullable,
                old(stream).started(),
                old(stream).element_offset() as int,
                chunk,
                pieces@,
            )
            &&& final(stream).started()
            &&& final(stream).element_offset() == old(stream).element_offset()
                + pieces@[pieces@.len() - 1]->Elements_0@.len()
        },
{
    if let Ok(pieces) = res {
        lemma_pieces(*old(stream), chunk, pieces@, *final(stream));
    }
}

/// A chunk that came in is sent to the children in pieces that hold its rows. An error, of the
/// chunks or of one whose elements cannot be counted, goes to every child, in order, and ends the
/// column.
pub proof fn what_comes_in_is_sent_or_ends_the_column<T: Copy>(
    stream: &mut ListStream,
    element: Arc<DType>,
    nullability: Nullability,
    event: ChunkEvent<T>,
    res: WriteAction<T>,
)
    requires
        old(stream).wf(),
        old(stream).dtype_spec() == DType::List(element, nullability),
        !old(stream).ended(),
        event matches ChunkEvent::Chunk(chunk) ==> chunk.wf(),
        call_ensures(ListStream::step::<T>, (stream, event), res),
    ensures
        call_requires(ListStream::step::<T>, (stream, event)),
        final(stream).wf(),
        final(stream).dtype_spec() == old(stream).dtype_spec(),
        final(stream).ended() <==> res is Abort,
        res is Abort <==> (event is Failed || old(stream).element_offset()
            + event->Chunk_0.packed_elements().len() > u64::MAX),
        res matches WriteAction::Abort { children, error } ==> {
            &&& nullability == Nullability::Nullable ==> children@ == seq![
                ChildRole::Validity,
                ChildRole::Offsets,
                ChildRole::Elements,
            ]
            &&& nullability == Nullability::NonNullable ==> children@ == seq![
                ChildRole::Offsets,
                ChildRole::Elements,
            ]
            &&& event is Failed ==> error == ListError::Stream
            &&& event is Chunk ==> error == ListError::OffsetOverflow
            &&& final(stream).started() == old(stream).started()
            &&& final(stream).element_offset() == old(stream).element_offset()
        },
        res matches WriteAction::Send(pieces) ==> {
            let nullable = nullability == Nullability::Nullable;
            &&& pieces_hold_rows(
                nullable,
                old(stream).started(),
                old(stream).element_offset() as int,
                event->Chunk_0,
                pieces@,
            )
            &&& final(stream).started()
            &&& final(stream).element_offset() == old(stream).element_offset()
                + pieces@[pieces@.len() - 1]->Elements_0@.len()
        },
{
    match res {
        WriteAction::Send(pieces) => {
            lemma_pieces(*old(stream), event->Chunk_0, pieces@, *final(stream));
        },
        WriteAction::Abort { children, error } => {
            if nullability == Nullability::Nullable {
                assert(Some(children@[0]) == Some(ChildRole::Validity));
                assert(Some(children@[1]) == Some(ChildRole::Offsets));
                assert(Some(children@[2]) == Some(ChildRole::Elements));
            } else {
                assert(Some(children@[0]) == Some(ChildRole::Offsets));
                assert(Some(children@[1]) == Some(ChildRole::Elements));
            }
        },
    }
}

/// The layout of a column that was written is of the type of the column. It has as many rows as
/// the validity, where rows may be null, and else one less than there are offsets. Its offsets
/// are 64-bit unsigned integers that are never null, as they were sent, and stored as such. Its
/// children are those that were written, in order.
pub proof fn the_layout_is_that_of_what_was_sent<C: LayoutChildren>(
    stream: ListStream,
    element: Arc<DType>,
    nullability: Nullability,
    child_layouts: Vec<Arc<C::Child>>,
    layout: ListLayout<C>,
    metadata: ListLayoutMetadata,
    index: usize,
    asked: DType,
)
    requires
        stream.wf(),
        stream.dtype_spec() == DType::List(element, nullability),
        child_layouts@.len() > 0,
        nullability == Nullability::Nullable || child_layouts@[0].row_count_spec() > 0,
        call_ensures(ListStream::finish::<C>, (stream, child_layouts), layout),
        call_ensures(ListVTable::metadata::<C>, (&layout,), metadata),
    ensures
        call_requires(ListStream::finish::<C>, (stream, child_layouts)),
        call_requires(ListVTable::metadata::<C>, (&layout,)),
        layout.dtype_spec() == DType::List(element, nullability),
        layout.offsets_dtype_spec() == DType::Primitive(PType::U64, Nullability::NonNullable),
        metadata.offsets_ptype == 3,
        nullability == Nullability::Nullable ==> layout.row_count_spec()
            == child_layouts@[0].row_count_spec(),
        nullability == Nullability::NonNullable ==> layout.row_count_spec() + 1
            == child_layouts@[0].row_count_spec(),
        layout.children_spec().count() == child_layouts@.len(),
        index >= child_layouts@.len() ==> layout.children_spec().answer(index, asked) == Err::<
            Arc<C::Child>,
            ListError,
        >(ListError::ChildOutOfBounds { index }),
        index < child_layouts@.len() && child_layouts@[index as int].dtype_spec().same(asked)
            ==> layout.children_spec().answer(index, asked) == Ok::<Arc<C::Child>, ListError>(
            child_layouts@[index as int],
        ),
        index < child_layouts@.len() && !child_layouts@[index as int].dtype_spec().same(asked)
            ==> layout.children_spec().answer(index, asked) == Err::<Arc<C::Child>, ListError>(
            ListError::ChildDType { index },
        ),
{
}

} // verus!
