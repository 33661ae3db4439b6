//! What holds of list layouts as a whole.

use std::sync::Arc;

use vstd::prelude::*;

use crate::children::owned_answer;
use crate::children::Layout;
use crate::dtype::DType;
use crate::error::ListError;
use crate::layout::role_at;
use crate::layout::role_dtype;
use crate::lists::all_true;
use crate::lists::list_packed_offsets;
use crate::lists::list_rows;
use crate::lists::packing_keeps_rows;
use crate::lists::select;
use crate::lists::sorted;
use crate::lists::unsigned;
use crate::lists::valid_list;
use crate::lists::ListArray;
use crate::lists::ListChunk;
use crate::reader::assembled;
use crate::reader::elements_planned;
use crate::reader::planned;
use crate::reader::rows_read;
use crate::reader::ChildRead;
use crate::reader::ProjectionPlan;
use crate::writer::offsets_piece;
use crate::writer::streams_of;
use crate::writer::taken_apart;
use crate::writer::validity_piece;
use crate::writer::written_offsets_dtype;
use crate::writer::written_row_count;
use crate::writer::ChildPiece;
use crate::writer::ChildStream;
use crate::writer::ListStream;

verus! {

/// The rows of chunks, one chunk after the other.
pub open spec fn all_rows<T>(chunks: Seq<ListChunk<T>>) -> Seq<Option<Seq<T>>>
    decreases chunks.len(),
{
    if chunks.len() == 0 {
        Seq::empty()
    } else {
        all_rows(chunks.drop_last()) + chunks.last().rows()
    }
}

/// The elements that are written of chunks.
pub open spec fn all_elements<T>(chunks: Seq<ListChunk<T>>) -> Seq<T>
    decreases chunks.len(),
{
    if chunks.len() == 0 {
        Seq::empty()
    } else {
        all_elements(chunks.drop_last()) + chunks.last().packed_elements()
    }
}

/// The validity that is written of chunks.
pub open spec fn all_validity<T>(chunks: Seq<ListChunk<T>>) -> Seq<bool>
    decreases chunks.len(),
{
    if chunks.len() == 0 {
        Seq::empty()
    } else {
        all_validity(chunks.drop_last()) + validity_piece(chunks.last())
    }
}

/// The offsets that are written of chunks.
pub open spec fn all_offsets<T>(chunks: Seq<ListChunk<T>>) -> Seq<int>
    decreases chunks.len(),
{
    if chunks.len() == 0 {
        Seq::empty()
    } else {
        all_offsets(chunks.drop_last()) + offsets_piece(
            chunks.len() > 1,
            all_elements(chunks.drop_last()).len() as int,
            chunks.last(),
        )
    }
}

/// Whether all chunks are well formed.
pub open spec fn writable<T>(chunks: Seq<ListChunk<T>>) -> bool {
    forall|i: int| 0 <= i < chunks.len() ==> (#[trigger] chunks[i]).wf()
}

/// Whether elements were written after the last row that was written, so that no row uses them.
pub open spec fn pending<T>(chunks: Seq<ListChunk<T>>) -> bool
    decreases chunks.len(),
{
    &&& chunks.len() > 0
    &&& chunks.last().rows().len() == 0
    &&& chunks.last().leftover() || pending(chunks.drop_last())
}

/// Whether row `r` takes up elements that are not its own: it is not null, and it is the first
/// row after elements that no row uses. Only a chunk of views without rows has such elements.
pub open spec fn spoiled<T>(chunks: Seq<ListChunk<T>>, r: int) -> bool
    decreases chunks.len(),
{
    chunks.len() > 0 && {
        ||| spoiled(chunks.drop_last(), r)
        ||| {
            &&& pending(chunks.drop_last())
            &&& r == all_rows(chunks.drop_last()).len()
            &&& chunks.last().rows().len() > 0
            &&& chunks.last().rows()[0] is Some
        }
    }
}

/// The columns that are written of chunks cut into the rows of the chunks, but for spoiled rows.
proof fn lemma_columns<T>(chunks: Seq<ListChunk<T>>)
    requires
        writable(chunks),
    ensures
        all_validity(chunks).len() == all_rows(chunks).len(),
        chunks.len() > 0 ==> {
            &&& all_offsets(chunks).len() == all_rows(chunks).len() + 1
            &&& all_offsets(chunks)[0] == 0
            &&& sorted(all_offsets(chunks))
            &&& all_offsets(chunks).last() <= all_elements(chunks).len()
            &&& all_offsets(chunks).last() == all_elements(chunks).len() <==> !pending(chunks)
            &&& forall|r: int|
                #![trigger all_rows(chunks)[r]]
                0 <= r < all_rows(chunks).len() && !spoiled(chunks, r) ==> list_rows(
                    all_elements(chunks),
                    all_offsets(chunks),
                    Some(all_validity(chunks)),
                )[r] == all_rows(chunks)[r]
        },
    decreases chunks.len(),
{
    if chunks.len() > 0 {
        let before = chunks.drop_last();
        let chunk = chunks.last();
        assert(chunk == chunks[chunks.len() - 1]);
        assert(writable(before)) by {
            assert forall|i: int| 0 <= i < before.len() implies (#[trigger] before[i]).wf() by {
                assert(before[i] == chunks[i]);
            }
        }
        lemma_columns(before);
        packing_keeps_rows(chunk);
        let (e0, o0, v0, r0) = (
            all_elements(before),
            all_offsets(before),
            all_validity(before),
            all_rows(before),
        );
        let (e1, o1, v1, r1) = (
            chunk.packed_elements(),
            chunk.packed_offsets(),
            validity_piece(chunk),
            chunk.rows(),
        );
        let (e, o, v, r) = (
            all_elements(chunks),
            all_offsets(chunks),
            all_validity(chunks),
            all_rows(chunks),
        );
        let n0 = r0.len() as int;
        assert(v1.len() == r1.len());
        assert(o.len() == r.len() + 1);
        // Where the chunk's first row starts: after the last row before it.
        let start = if before.len() > 0 {
            o0.last()
        } else {
            0
        };
        assert(o[n0] == start && 0 <= start <= e0.len());
        assert forall|k: int| 0 < k < o1.len() implies #[trigger] o[n0 + k] == e0.len()
            + o1[k] by {}
        assert forall|i: int, j: int| 0 <= i <= j < o.len() implies o[i] <= o[j] by {
            if i <= n0 && before.len() > 0 {
                assert(o[i] == o0[i] && o0[i] <= o0[n0]);
                if j <= n0 {
                    assert(o[j] == o0[j]);
                } else {
                    assert(o[n0 + (j - n0)] == e0.len() + o1[j - n0]);
                    assert(o1[0] <= o1[j - n0]);
                }
            } else {
                assert(o1[i - n0] <= o1[j - n0]);
                if i > n0 {
                    assert(o[n0 + (i - n0)] == e0.len() + o1[i - n0]);
                }
                if j > n0 {
                    assert(o[n0 + (j - n0)] == e0.len() + o1[j - n0]);
                }
            }
        }
        let cut = list_rows(e, o, Some(v));
        assert forall|i: int| #![trigger r[i]] 0 <= i < r.len() && !spoiled(chunks, i) implies cut[i]
            == r[i] by {
            if i < n0 {
                assert(r[i] == r0[i]);
                assert(list_rows(e0, o0, Some(v0))[i] == r0[i]);
                assert(o[i] == o0[i] && o[i + 1] == o0[i + 1]);
                assert(0 <= o0[0] <= o0[i] <= o0[i + 1] <= o0[n0]);
                assert(e.subrange(o[i], o[i + 1]) =~= e0.subrange(o0[i], o0[i + 1]));
            } else {
                let k = i - n0;
                assert(list_rows(e1, o1, chunk.validity_spec())[k] == r1[k]);
                assert(v[i] == v1[k]);
                assert(o[n0 + (k + 1)] == e0.len() + o1[k + 1]);
                assert(0 <= o1[0] <= o1[k] <= o1[k + 1] <= o1[r1.len() as int]);
                if r1[k] is Some {
                    assert(o[n0 + k] == e0.len() + o1[k]);
                    assert(e.subrange(o[i], o[i + 1]) =~= e1.subrange(o1[k], o1[k + 1]));
                }
            }
        }
        if r1.len() > 0 {
            assert(o[n0 + r1.len()] == e0.len() + o1[r1.len() as int]);
        } else {
            assert(o.last() == o[n0]);
            assert(chunk.leftover() <==> e1.len() > 0);
        }
        assert(e.len() == e0.len() + e1.len());
        assert(pending(chunks) == (r1.len() == 0 && (chunk.leftover() || pending(before))));
        assert(o.last() == e.len() <==> !pending(chunks));
    }
}

/// Whether a column that is being written took apart the chunks one after the other, each into
/// pieces.
pub open spec fn is_run<T>(
    streams: Seq<ListStream>,
    chunks: Seq<ListChunk<T>>,
    pieces: Seq<Seq<ChildPiece<T>>>,
) -> bool {
    &&& streams.len() == chunks.len() + 1
    &&& pieces.len() == chunks.len()
    &&& !streams[0].started()
    &&& streams[0].element_offset() == 0
    &&& forall|i: int|
        #![trigger chunks[i]]
        0 <= i < chunks.len() ==> taken_apart(streams[i], chunks[i], pieces[i], streams[i + 1])
}

/// The validity that the child at an index was sent in pieces.
pub open spec fn sent_validity<T>(pieces: Seq<Seq<ChildPiece<T>>>, child: int) -> Seq<bool>
    decreases pieces.len(),
{
    if pieces.len() == 0 {
        Seq::empty()
    } else {
        sent_validity(pieces.drop_last(), child) + pieces.last()[child]->Validity_0@
    }
}

/// The offsets that the child at an index was sent in pieces.
pub open spec fn sent_offsets<T>(pieces: Seq<Seq<ChildPiece<T>>>, child: int) -> Seq<int>
    decreases pieces.len(),
{
    if pieces.len() == 0 {
        Seq::empty()
    } else {
        sent_offsets(pieces.drop_last(), child) + unsigned(pieces.last()[child]->Offsets_0@)
    }
}

/// The elements that the child at an index was sent in pieces.
pub open spec fn sent_elements<T>(pieces: Seq<Seq<ChildPiece<T>>>, child: int) -> Seq<T>
    decreases pieces.len(),
{
    if pieces.len() == 0 {
        Seq::empty()
    } else {
        sent_elements(pieces.drop_last(), child) + pieces.last()[child]->Elements_0@
    }
}

/// The children are sent the columns that are written of the chunks.
proof fn lemma_sent<T>(
    streams: Seq<ListStream>,
    chunks: Seq<ListChunk<T>>,
    pieces: Seq<Seq<ChildPiece<T>>>,
)
    requires
        is_run(streams, chunks, pieces),
    ensures
        ({
            let nullable = streams[0].dtype_spec().nullable();
            let (offsets_child, elements_child): (int, int) = if nullable {
                (1, 2)
            } else {
                (0, 1)
            };
            &&& streams.last().dtype_spec() == streams[0].dtype_spec()
            &&& streams.last().started() == (chunks.len() > 0)
            &&& streams.last().element_offset() == all_elements(chunks).len()
            &&& nullable ==> sent_validity(pieces, 0) == all_validity(chunks)
            &&& sent_offsets(pieces, offsets_child) == all_offsets(chunks)
            &&& sent_elements(pieces, elements_child) == all_elements(chunks)
        }),
    decreases chunks.len(),
{
    if chunks.len() > 0 {
        let n = chunks.len() - 1;
        let nullable = streams[0].dtype_spec().nullable();
        assert forall|i: int|
            #![trigger chunks.drop_last()[i]]
            0 <= i < n implies taken_apart(
            streams.drop_last()[i],
            chunks.drop_last()[i],
            pieces.drop_last()[i],
            streams.drop_last()[i + 1],
        ) by {
            assert(chunks.drop_last()[i] == chunks[i]);
        }
        lemma_sent(streams.drop_last(), chunks.drop_last(), pieces.drop_last());
        assert(taken_apart(streams[n], chunks[n], pieces[n], streams[n + 1]));
        let last = pieces[n];
        if nullable {
            assert(last[0] is Validity && last[1] is Offsets && last[2] is Elements);
        } else {
            assert(last[0] is Offsets && last[1] is Elements);
        }
    }
}

/// Selecting with a mask that is true everywhere changes nothing.
proof fn lemma_select_all<A>(s: Seq<A>, mask: Seq<bool>)
    requires
        s.len() == mask.len(),
        all_true(mask),
    ensures
        select(s, mask) == s,
    decreases s.len(),
{
    if s.len() > 0 {
        assert forall|i: int| 0 <= i < mask.drop_last().len() implies mask.drop_last()[i] by {
            assert(mask[i]);
        }
        lemma_select_all(s.drop_last(), mask.drop_last());
        assert(mask[mask.len() - 1]);
        assert(select(s, mask) =~= s);
    } else {
        assert(select(s, mask) =~= s);
    }
}

/// What a mask selects depends only on the items at which it is true.
proof fn lemma_select_alike<A>(s: Seq<A>, t: Seq<A>, mask: Seq<bool>)
    requires
        s.len() == mask.len(),
        t.len() == mask.len(),
        forall|i: int| 0 <= i < mask.len() && mask[i] ==> s[i] == t[i],
    ensures
        select(s, mask) == select(t, mask),
    decreases s.len(),
{
    if s.len() > 0 {
        assert forall|i: int| 0 <= i < mask.drop_last().len() && mask.drop_last()[i] implies
            s.drop_last()[i] == t.drop_last()[i] by {
            assert(mask[i]);
        }
        lemma_select_alike(s.drop_last(), t.drop_last(), mask.drop_last());
    }
}

/// The rows `start` to `end` of a column are cut by the offsets `start` to `end`, moved to start
/// at 0, out of the elements between the first and the last of these.
proof fn lemma_part<T>(e: Seq<T>, o: Seq<int>, v: Seq<bool>, start: int, end: int)
    requires
        valid_list(e.len(), o, Some(v)),
        0 <= start <= end < o.len(),
    ensures
        ({
            let elements = e.subrange(o[start], o[end]);
            let offsets = list_packed_offsets(o.subrange(start, end + 1));
            let validity = Some(v.subrange(start, end));
            &&& 0 <= o[0] <= o[start] <= o[end] <= e.len()
            &&& valid_list(elements.len(), offsets, validity)
            &&& list_rows(elements, offsets, validity) == list_rows(e, o, Some(v)).subrange(
                start,
                end,
            )
        }),
{
    let elements = e.subrange(o[start], o[end]);
    let offsets = list_packed_offsets(o.subrange(start, end + 1));
    let validity = Some(v.subrange(start, end));
    assert(o[0] <= o[start] <= o[end] <= o[o.len() - 1]);
    assert forall|i: int, j: int| 0 <= i <= j < offsets.len() implies offsets[i] <= offsets[j] by {
        assert(o[start + i] <= o[start + j]);
    }
    let rows = list_rows(elements, offsets, validity);
    let part = list_rows(e, o, Some(v)).subrange(start, end);
    assert forall|i: int| 0 <= i < end - start implies rows[i] == part[i] by {
        let k = start + i;
        assert(o[start] <= o[k] <= o[k + 1] <= o[end]);
        assert(elements.subrange(offsets[i], offsets[i + 1]) =~= e.subrange(o[k], o[k + 1]));
    }
    assert(rows =~= part);
}

/// Whether no chunk has null rows, where the type of the column has none.
pub open spec fn nulls_allowed<T>(nullable: bool, chunks: Seq<ListChunk<T>>) -> bool {
    nullable || forall|i: int|
        0 <= i < chunks.len() ==> (#[trigger] chunks[i]).validity_spec() is None
}

proof fn lemma_all_valid<T>(chunks: Seq<ListChunk<T>>)
    requires
        nulls_allowed(false, chunks),
    ensures
        all_true(all_validity(chunks)),
    decreases chunks.len(),
{
    if chunks.len() > 0 {
        assert forall|i: int| 0 <= i < chunks.drop_last().len() implies (
        #[trigger] chunks.drop_last()[i]).validity_spec() is None by {
            assert(chunks.drop_last()[i] == chunks[i]);
        }
        lemma_all_valid(chunks.drop_last());
        assert(chunks[chunks.len() - 1].validity_spec() is None);
    }
}

/// The validity that a plan reads, of what the child that it names was sent.
pub open spec fn read_validity<T>(
    pieces: Seq<Seq<ChildPiece<T>>>,
    plan: ProjectionPlan,
) -> Option<Seq<bool>> {
    match plan.validity {
        Some(read) => Some(rows_read(sent_validity(pieces, read.child as int), read)),
        None => None,
    }
}

/// The offsets that a plan reads, of what the child that it names was sent.
pub open spec fn read_offsets<T>(
    pieces: Seq<Seq<ChildPiece<T>>>,
    plan: ProjectionPlan,
) -> Seq<int> {
    rows_read(sent_offsets(pieces, plan.offsets.child as int), plan.offsets)
}

/// Whether a result is that of reading the rows `start` to `end` of what the children were sent,
/// as far as a mask selects them.
pub open spec fn is_read<T>(
    nullable: bool,
    pieces: Seq<Seq<ChildPiece<T>>>,
    start: u64,
    end: u64,
    plan: ProjectionPlan,
    elements_read: ChildRead,
    mask: Seq<bool>,
    res: Result<ListArray<T>, ListError>,
) -> bool {
    &&& planned(nullable, start, end, plan)
    &&& elements_planned(plan, read_offsets(pieces, plan), elements_read)
    &&& assembled(
        read_offsets(pieces, plan),
        rows_read(sent_elements(pieces, elements_read.child as int), elements_read),
        read_validity(pieces, plan),
        mask,
        res,
    )
}

/// However a list column was cut into chunks, the offsets that were written of it start at 0,
/// are sorted, are one more than it has rows, and end with the number of its elements, unless
/// elements that no row uses come last. With the validity that was written, where rows may be
/// null, they cut the elements that were written into the rows of the chunks, but for spoiled
/// rows. And the layout that is made in the end has as many rows as the column.
pub proof fn written_offsets_cut_all_elements<T>(
    streams: Seq<ListStream>,
    chunks: Seq<ListChunk<T>>,
    pieces: Seq<Seq<ChildPiece<T>>>,
)
    requires
        is_run(streams, chunks, pieces),
        writable(chunks),
        chunks.len() > 0,
    ensures
        ({
            let nullable = streams[0].dtype_spec().nullable();
            let (offsets, elements) = if nullable {
                (sent_offsets(pieces, 1), sent_elements(pieces, 2))
            } else {
                (sent_offsets(pieces, 0), sent_elements(pieces, 1))
            };
            let validity = if nullable {
                Some(sent_validity(pieces, 0))
            } else {
                None
            };
            let first_child_rows = if nullable {
                sent_validity(pieces, 0).len()
            } else {
                offsets.len()
            };
            &&& offsets.len() == all_rows(chunks).len() + 1
            &&& offsets[0] == 0
            &&& sorted(offsets)
            &&& offsets.last() <= elements.len()
            &&& offsets.last() == elements.len() <==> !pending(chunks)
            &&& nulls_allowed(nullable, chunks) ==> forall|r: int|
                #![trigger all_rows(chunks)[r]]
                0 <= r < all_rows(chunks).len() && !spoiled(chunks, r) ==> list_rows(
                    elements,
                    offsets,
                    validity,
                )[r] == all_rows(chunks)[r]
            &&& first_child_rows <= u64::MAX ==> written_row_count(
                nullable,
                first_child_rows as u64,
            ) == all_rows(chunks).len()
        }),
{
    lemma_sent(streams, chunks, pieces);
    lemma_columns(chunks);
    let nullable = streams[0].dtype_spec().nullable();
    if !nullable && nulls_allowed(nullable, chunks) {
        lemma_all_valid(chunks);
        let e = all_elements(chunks);
        let o = all_offsets(chunks);
        assert(list_rows(e, o, None) =~= list_rows(e, o, Some(all_validity(chunks))));
    }
}

/// What a reader asks of the children, for rows that were written, is there: the validity and
/// the offsets, and then the elements between the first offset and the last.
pub proof fn planned_reads_are_in_bounds<T>(
    streams: Seq<ListStream>,
    chunks: Seq<ListChunk<T>>,
    pieces: Seq<Seq<ChildPiece<T>>>,
    start: u64,
    end: u64,
    plan: ProjectionPlan,
)
    requires
        is_run(streams, chunks, pieces),
        writable(chunks),
        chunks.len() > 0,
        start <= end <= all_rows(chunks).len(),
        end < u64::MAX,
        planned(streams[0].dtype_spec().nullable(), start, end, plan),
    ensures
        ({
            let offsets = read_offsets(pieces, plan);
            &&& plan.validity matches Some(read) ==> read.end <= sent_validity(
                pieces,
                read.child as int,
            ).len()
            &&& plan.offsets.end <= sent_offsets(pieces, plan.offsets.child as int).len()
            &&& offsets.len() == end - start + 1
            &&& 0 <= offsets[0] <= offsets.last() <= sent_elements(
                pieces,
                plan.elements_child as int,
            ).len()
            &&& offsets.last() <= u64::MAX
        }),
{
    lemma_sent(streams, chunks, pieces);
    lemma_columns(chunks);
    let o = all_offsets(chunks);
    assert(0 <= o[0] <= o[start as int] <= o[end as int] <= o[o.len() - 1]);
}

/// Whether a mask selects a spoiled row, of the rows from `start` on.
pub open spec fn selects_spoiled<T>(
    chunks: Seq<ListChunk<T>>,
    start: u64,
    mask: Seq<bool>,
) -> bool {
    exists|i: int| 0 <= i < mask.len() && mask[i] && #[trigger] spoiled(chunks, start + i)
}

/// What was written is read back. Whatever chunks a list column was written in, reading the
/// rows from `start` to `end` succeeds and gives these rows of the chunks; with a mask, those of
/// them that the mask selects. Left out are rows that come first after a chunk of views that has
/// elements but no rows: such a row takes these elements up.
pub proof fn written_rows_are_read_back<T>(
    streams: Seq<ListStream>,
    chunks: Seq<ListChunk<T>>,
    pieces: Seq<Seq<ChildPiece<T>>>,
    start: u64,
    end: u64,
    plan: ProjectionPlan,
    elements_read: ChildRead,
    mask: Seq<bool>,
    res: Result<ListArray<T>, ListError>,
)
    requires
        is_run(streams, chunks, pieces),
        writable(chunks),
        nulls_allowed(streams[0].dtype_spec().nullable(), chunks),
        chunks.len() > 0,
        start <= end <= all_rows(chunks).len(),
        end < u64::MAX,
        mask.len() == end - start,
        !selects_spoiled(chunks, start, mask),
        is_read(
            streams[0].dtype_spec().nullable(),
            pieces,
            start,
            end,
            plan,
            elements_read,
            mask,
            res,
        ),
    ensures
        res matches Ok(list) && list.rows() == select(
            all_rows(chunks).subrange(start as int, end as int),
            mask,
        ),
{
    lemma_sent(streams, chunks, pieces);
    lemma_columns(chunks);
    let nullable = streams[0].dtype_spec().nullable();
    let o = all_offsets(chunks);
    let e = all_elements(chunks);
    let v = all_validity(chunks);
    let ro = read_offsets(pieces, plan);
    let rv = read_validity(pieces, plan);
    let rebased = list_packed_offsets(ro);
    lemma_part(e, o, v, start as int, end as int);
    let part = all_rows(chunks).subrange(start as int, end as int);
    let read = list_rows(rows_read(e, elements_read), rebased, rv);
    if !nullable {
        lemma_all_valid(chunks);
        let valid = Some(v.subrange(start as int, end as int));
        assert(read =~= list_rows(rows_read(e, elements_read), rebased, valid));
    }
    assert forall|i: int| 0 <= i < ro.len() implies ro[0] <= #[trigger] ro[i] by {
        assert(o[start as int] <= o[start + i]);
    }
    assert forall|i: int| 0 <= i < mask.len() && mask[i] implies read[i] == part[i] by {
        assert(!spoiled(chunks, start + i));
        assert(all_rows(chunks)[start + i] == part[i]);
    }
    lemma_select_alike(read, part, mask);
    if all_true(mask) {
        lemma_select_all(read, mask);
    }
}

/// How a list column was cut into chunks makes no difference: two writings of the same rows are
/// read alike, as far as [`written_rows_are_read_back`] speaks of them.
pub proof fn chunking_makes_no_difference<T>(
    streams: Seq<ListStream>,
    chunks: Seq<ListChunk<T>>,
    pieces: Seq<Seq<ChildPiece<T>>>,
    elements_read: ChildRead,
    res: Result<ListArray<T>, ListError>,
    other_streams: Seq<ListStream>,
    other_chunks: Seq<ListChunk<T>>,
    other_pieces: Seq<Seq<ChildPiece<T>>>,
    other_elements_read: ChildRead,
    other_res: Result<ListArray<T>, ListError>,
    start: u64,
    end: u64,
    plan: ProjectionPlan,
    mask: Seq<bool>,
)
    requires
        is_run(streams, chunks, pieces),
        is_run(other_streams, other_chunks, other_pieces),
        streams[0].dtype_spec().nullable() == other_streams[0].dtype_spec().nullable(),
        writable(chunks),
        writable(other_chunks),
        nulls_allowed(streams[0].dtype_spec().nullable(), chunks),
        nulls_allowed(streams[0].dtype_spec().nullable(), other_chunks),
        chunks.len() > 0,
        other_chunks.len() > 0,
        all_rows(chunks) == all_rows(other_chunks),
        start <= end <= all_rows(chunks).len(),
        end < u64::MAX,
        mask.len() == end - start,
        !selects_spoiled(chunks, start, mask),
        !selects_spoiled(other_chunks, start, mask),
        is_read(
            streams[0].dtype_spec().nullable(),
            pieces,
            start,
            end,
            plan,
            elements_read,
            mask,
            res,
        ),
        is_read(
            streams[0].dtype_spec().nullable(),
            other_pieces,
            start,
            end,
            plan,
            other_elements_read,
            mask,
            other_res,
        ),
    ensures
        res matches Ok(list) && other_res matches Ok(other_list) && list.rows()
            == other_list.rows(),
{
    written_rows_are_read_back(
        streams,
        chunks,
        pieces,
        start,
        end,
        plan,
        elements_read,
        mask,
        res,
    );
    written_rows_are_read_back(
        other_streams,
        other_chunks,
        other_pieces,
        start,
        end,
        plan,
        other_elements_read,
        mask,
        other_res,
    );
}

/// The children that were written for a list column are found again by the layout that is made
/// of them, each with the type that the layout asks for.
pub proof fn written_children_are_found<L: Layout>(
    dtype: DType,
    columns: Seq<ChildStream>,
    layouts: Seq<Arc<L>>,
    index: usize,
)
    requires
        streams_of(columns, dtype),
        layouts.len() == columns.len(),
        index < layouts.len(),
        layouts[index as int].dtype_spec().same(columns[index as int].dtype),
    ensures
        role_at(dtype.nullable(), index as int) matches Some(role) && owned_answer(
            layouts,
            index,
            role_dtype(role, dtype, written_offsets_dtype()),
        ) == Ok::<Arc<L>, ListError>(layouts[index as int]),
{
}

} // verus!
