//! What holds of list columns.

use vstd::prelude::*;

use crate::error::ListError;
use crate::kernels::filter_list;
use crate::kernels::pack;
use crate::kernels::try_list;
use crate::lists::all_null;
use crate::lists::all_true;
use crate::lists::filtered;
use crate::lists::list_rows;
use crate::lists::packing_keeps_rows;
use crate::lists::select;
use crate::lists::signed;
use crate::lists::sorted;
use crate::lists::unsigned;
use crate::lists::valid_list;
use crate::lists::valid_view;
use crate::lists::validity_view;
use crate::lists::ListArray;
use crate::lists::ListChunk;
use crate::lists::PackedList;

verus! {

/// Row `i` of a chunk: null where the validity says so, else the elements from where the row
/// starts to where it ends.
pub proof fn rows_of_a_chunk_are_runs_of_its_elements<T>(chunk: ListChunk<T>, i: int)
    requires
        chunk.wf(),
        0 <= i < chunk.rows().len(),
    ensures
        ({
            let (elements, validity, start, end) = match chunk {
                ListChunk::List { elements, offsets, validity } => (
                    elements@,
                    validity,
                    offsets@[i] as int,
                    offsets@[i + 1] as int,
                ),
                ListChunk::ListView { elements, offsets, sizes, validity } => (
                    elements@,
                    validity,
                    offsets@[i] as int,
                    offsets@[i] + sizes@[i],
                ),
            };
            &&& chunk.rows()[i] is None <==> (validity matches Some(v) && !v@[i])
            &&& chunk.rows()[i] matches Some(row) ==> row.len() == end - start && forall|k: int|
                0 <= k < row.len() ==> #[trigger] row[k] == elements[start + k]
        }),
{
    match chunk {
        ListChunk::List { elements, offsets, validity } => {
            let o = signed(offsets@);
            assert(o[0] <= o[i] <= o[i + 1] <= o[o.len() - 1]);
        },
        ListChunk::ListView { elements, offsets, sizes, validity } => {
            let o = signed(offsets@);
            assert(o[i] >= 0);
        },
    }
}

/// A chunk that is cut by offsets has one row less than offsets. It may be written if and only
/// if there is an offset, none is negative or less than the one before, the last is no more than
/// there are elements, and there is a validity for each row or none at all.
pub proof fn lists_within_their_elements_may_be_written<T: Copy>(
    elements: Vec<T>,
    offsets: Vec<i64>,
    validity: Option<Vec<bool>>,
    res: bool,
)
    requires
        call_ensures(
            ListChunk::<T>::is_wf,
            (&(ListChunk::List { elements, offsets, validity }),),
            res,
        ),
    ensures
        ({
            let chunk = ListChunk::List { elements, offsets, validity };
            let n = offsets@.len();
            &&& res <==> {
                &&& n > 0
                &&& forall|i: int| 0 <= i < n ==> #[trigger] offsets@[i] >= 0
                &&& forall|i: int, j: int| 0 <= i <= j < n ==> offsets@[i] <= offsets@[j]
                &&& offsets@[n - 1] <= elements@.len()
                &&& validity matches Some(v) ==> v@.len() == n - 1
            }
            &&& res == chunk.wf()
            &&& res ==> chunk.rows().len() == n - 1
            &&& res ==> call_requires(pack::<T>, (&chunk,))
        }),
{
    let o = signed(offsets@);
    let n = offsets@.len();
    assert(forall|i: int| 0 <= i < n ==> o[i] == #[trigger] offsets@[i]);
    if res {
        assert forall|i: int, j: int| 0 <= i <= j < n implies offsets@[i] <= offsets@[j] by {
            assert(o[i] <= o[j]);
        }
        assert forall|i: int| 0 <= i < n implies #[trigger] offsets@[i] >= 0 by {
            assert(o[0] <= o[i]);
        }
    }
}

/// A chunk of views has as many rows as views. It may be written if and only if there are as
/// many offsets as sizes, every view lies within the elements, and there is a validity for each
/// row or none at all.
pub proof fn views_within_their_elements_may_be_written<T: Copy>(
    elements: Vec<T>,
    offsets: Vec<i64>,
    sizes: Vec<i64>,
    validity: Option<Vec<bool>>,
    res: bool,
)
    requires
        call_ensures(
            ListChunk::<T>::is_wf,
            (&(ListChunk::ListView { elements, offsets, sizes, validity }),),
            res,
        ),
    ensures
        ({
            let chunk = ListChunk::ListView { elements, offsets, sizes, validity };
            &&& res <==> {
                &&& offsets@.len() == sizes@.len()
                &&& forall|i: int|
                    #![trigger offsets@[i]]
                    0 <= i < offsets@.len() ==> 0 <= offsets@[i] && 0 <= sizes@[i] && offsets@[i]
                        + sizes@[i] <= elements@.len()
                &&& validity matches Some(v) ==> v@.len() == offsets@.len()
            }
            &&& res == chunk.wf()
            &&& chunk.rows().len() == offsets@.len()
            &&& res ==> call_requires(pack::<T>, (&chunk,))
        }),
{
    lemma_within(elements@.len(), offsets@, sizes@, validity_view(validity));
}

/// Views make up a chunk if and only if there are as many offsets as sizes, every view lies
/// within the elements, and there is a validity for each row or none at all; and, where they are
/// in order, no offset is less than the one before and the end of the last can be counted. Views
/// each of which starts where the one before it ends are never out of order. Views in order, if
/// there are any, become a chunk that is cut by their offsets and the end of the last; all others
/// stay views.
pub proof fn views_within_their_elements_make_up_a_chunk<T>(
    elements: Vec<T>,
    offsets: Vec<i64>,
    sizes: Vec<i64>,
    validity: Option<Vec<bool>>,
    in_order: bool,
    res: Option<ListChunk<T>>,
)
    requires
        call_ensures(
            ListChunk::<T>::from_views,
            (elements, offsets, sizes, validity, in_order),
            res,
        ),
    ensures
        ({
            let n = offsets@.len();
            let within = {
                &&& n == sizes@.len()
                &&& forall|i: int|
                    #![trigger offsets@[i]]
                    0 <= i < n ==> 0 <= offsets@[i] && 0 <= sizes@[i] && offsets@[i] + sizes@[i]
                        <= elements@.len()
                &&& validity matches Some(v) ==> v@.len() == n
            };
            let ordered = forall|i: int, j: int| 0 <= i <= j < n ==> offsets@[i] <= offsets@[j];
            let countable = n > 0 ==> offsets@[n - 1] + sizes@[n - 1] <= i64::MAX;
            let touching = forall|i: int|
                0 < i < n ==> #[trigger] offsets@[i] == offsets@[i - 1] + sizes@[i - 1];
            &&& !in_order ==> (res is Some <==> within)
            &&& in_order ==> (res is Some <==> within && ordered && countable)
            &&& in_order && within && touching && countable ==> res is Some
            &&& res matches Some(chunk) ==> if in_order && n > 0 {
                &&& chunk matches ListChunk::List { elements: e, offsets: o, validity: v }
                &&& e == elements && v == validity
                &&& o@ == offsets@.push((offsets@[n - 1] + sizes@[n - 1]) as i64)
            } else {
                chunk == (ListChunk::ListView { elements, offsets, sizes, validity })
            }
        }),
{
    let n = offsets@.len();
    let o = signed(offsets@);
    let s = signed(sizes@);
    lemma_within(elements@.len(), offsets@, sizes@, validity_view(validity));
    assert(sorted(o) <==> forall|i: int, j: int|
        0 <= i <= j < n ==> offsets@[i] <= offsets@[j]) by {
        if sorted(o) {
            assert forall|i: int, j: int| 0 <= i <= j < n implies offsets@[i] <= offsets@[j] by {
                assert(o[i] <= o[j]);
            }
        } else if forall|i: int, j: int| 0 <= i <= j < n ==> offsets@[i] <= offsets@[j] {
            assert forall|i: int, j: int| 0 <= i <= j < n implies o[i] <= o[j] by {
                assert(offsets@[i] <= offsets@[j]);
            }
        }
    }
    if res is Some && in_order && n > 0 {
        let cut = signed(res->0->List_offsets@);
        assert(cut == o.push(o[n - 1] + s[n - 1]));
        assert(cut[n as int] == res->0->List_offsets@[n as int]);
        let end = (offsets@[n - 1] + sizes@[n - 1]) as i64;
        assert(cut.len() == res->0->List_offsets@.len());
        assert forall|i: int| 0 <= i < cut.len() implies res->0->List_offsets@[i]
            == offsets@.push(end)[i] by {
            assert(cut[i] == o.push(o[n - 1] + s[n - 1])[i]);
        }
        assert(res->0->List_offsets@ =~= offsets@.push(end));
    }
    if valid_view(elements@.len(), o, s, validity_view(validity)) && (forall|i: int|
        0 < i < n ==> #[trigger] offsets@[i] == offsets@[i - 1] + sizes@[i - 1]) {
        assert forall|i: int, j: int| 0 <= i <= j < n implies offsets@[i] <= offsets@[j] by {
            lemma_touching_views_are_ordered(offsets@, sizes@, i, j);
        }
    }
}

/// Row by row a chunk holds what the views hold that it was made of, if each of those in order
/// starts where the one before it ends.
pub proof fn views_keep_their_rows<T>(
    elements: Vec<T>,
    offsets: Vec<i64>,
    sizes: Vec<i64>,
    validity: Option<Vec<bool>>,
    in_order: bool,
    chunk: ListChunk<T>,
    i: int,
)
    requires
        call_ensures(
            ListChunk::<T>::from_views,
            (elements, offsets, sizes, validity, in_order),
            Some(chunk),
        ),
        in_order ==> forall|k: int|
            0 < k < offsets@.len() ==> #[trigger] offsets@[k] == offsets@[k - 1] + sizes@[k - 1],
        0 <= i < offsets@.len(),
    ensures
        chunk is List <==> in_order,
        chunk.rows().len() == offsets@.len(),
        chunk.rows()[i] is None <==> (validity matches Some(v) && !v@[i]),
        chunk.rows()[i] matches Some(row) ==> row.len() == sizes@[i] && forall|k: int|
            0 <= k < row.len() ==> #[trigger] row[k] == elements@[offsets@[i] + k],
{
    let o = signed(offsets@);
    let s = signed(sizes@);
    assert(0 <= o[i] && 0 <= s[i] && o[i] + s[i] <= elements@.len());
    if in_order {
        assert forall|k: int| 0 < k < o.len() implies #[trigger] o[k] == o[k - 1] + s[k - 1] by {
            assert(offsets@[k] == offsets@[k - 1] + sizes@[k - 1]);
        }
    }
}

/// A chunk without views keeps its elements.
pub proof fn no_views_make_up_a_chunk_of_no_rows<T>(
    elements: Vec<T>,
    offsets: Vec<i64>,
    sizes: Vec<i64>,
    validity: Option<Vec<bool>>,
    in_order: bool,
    chunk: ListChunk<T>,
)
    requires
        call_ensures(
            ListChunk::<T>::from_views,
            (elements, offsets, sizes, validity, in_order),
            Some(chunk),
        ),
        offsets@.len() == 0,
    ensures
        chunk.rows().len() == 0,
        chunk.packed_elements() == elements@,
{
}

proof fn lemma_within(n: nat, offsets: Seq<i64>, sizes: Seq<i64>, validity: Option<Seq<bool>>)
    ensures
        valid_view(n, signed(offsets), signed(sizes), validity) <==> {
            &&& offsets.len() == sizes.len()
            &&& forall|i: int|
                #![trigger offsets[i]]
                0 <= i < offsets.len() ==> 0 <= offsets[i] && 0 <= sizes[i] && offsets[i] + sizes[i]
                    <= n
            &&& validity matches Some(v) ==> v.len() == offsets.len()
        },
{
    let o = signed(offsets);
    let s = signed(sizes);
    if valid_view(n, o, s, validity) {
        assert forall|i: int|
            #![trigger offsets[i]]
            0 <= i < offsets.len() implies 0 <= offsets[i] && 0 <= sizes[i] && offsets[i] + sizes[i]
            <= n by {
            assert(0 <= o[i] && 0 <= s[i]);
        }
    } else if offsets.len() == sizes.len() && (forall|i: int|
        #![trigger offsets[i]]
        0 <= i < offsets.len() ==> 0 <= offsets[i] && 0 <= sizes[i] && offsets[i] + sizes[i] <= n) {
        assert forall|i: int|
            #![trigger o[i]]
            #![trigger s[i]]
            0 <= i < o.len() implies 0 <= o[i] && 0 <= s[i] && o[i] + s[i] <= n by {
            assert(0 <= offsets[i]);
        }
    }
}

proof fn lemma_touching_views_are_ordered(offsets: Seq<i64>, sizes: Seq<i64>, i: int, j: int)
    requires
        0 <= i <= j < offsets.len(),
        offsets.len() == sizes.len(),
        forall|k: int|
            #![trigger offsets[k]]
            0 <= k < offsets.len() ==> 0 <= offsets[k] && 0 <= sizes[k],
        forall|k: int|
            0 < k < offsets.len() ==> #[trigger] offsets[k] == offsets[k - 1] + sizes[k - 1],
    ensures
        offsets[i] <= offsets[j],
    decreases j - i,
{
    if i < j {
        lemma_touching_views_are_ordered(offsets, sizes, i, j - 1);
        assert(offsets[j] == offsets[j - 1] + sizes[j - 1]);
        assert(0 <= offsets[j - 1]);
    }
}

/// How many rows a mask selects.
pub open spec fn trues(mask: Seq<bool>) -> nat {
    mask.filter(|selected: bool| selected).len()
}

proof fn lemma_trues(mask: Seq<bool>, i: int)
    requires
        0 <= i < mask.len(),
    ensures
        trues(mask.take(i + 1)) == trues(mask.take(i)) + if mask[i] {
            1nat
        } else {
            0nat
        },
{
    reveal(Seq::filter);
    assert(mask.take(i + 1).drop_last() =~= mask.take(i));
    assert(mask.take(i + 1).last() == mask[i]);
}

proof fn lemma_no_trues(mask: Seq<bool>)
    requires
        mask.len() == 0,
    ensures
        trues(mask) == 0,
{
    reveal(Seq::filter);
}

/// What is selected of items: as many as the mask selects, each after as many others as are
/// selected before it.
pub proof fn selection_keeps_the_order<A>(items: Seq<A>, mask: Seq<bool>, i: int)
    requires
        items.len() == mask.len(),
        0 <= i < items.len(),
    ensures
        select(items, mask).len() == trues(mask),
        mask[i] ==> trues(mask.take(i)) < trues(mask),
        mask[i] ==> select(items, mask)[trues(mask.take(i)) as int] == items[i],
    decreases items.len(),
{
    let n = items.len() - 1;
    let before = mask.drop_last();
    assert(mask.take(n) =~= before);
    assert(mask.take(n + 1) =~= mask);
    lemma_trues(mask, n);
    if n > 0 {
        selection_keeps_the_order(items.drop_last(), before, if i < n {
            i
        } else {
            0
        });
    } else {
        lemma_no_trues(before);
        assert(select(items.drop_last(), before).len() == 0);
    }
    if i < n {
        assert(before.take(i) =~= mask.take(i));
    }
}

proof fn lemma_selection_length<A>(items: Seq<A>, mask: Seq<bool>)
    requires
        items.len() == mask.len(),
    ensures
        select(items, mask).len() == trues(mask),
{
    if items.len() > 0 {
        selection_keeps_the_order(items, mask, 0);
    } else {
        lemma_no_trues(mask);
    }
}

/// A column has one row less than offsets. Row `i` is null where the validity says so, else it
/// is the run of elements from offset `i` to offset `i + 1`.
pub proof fn rows_of_a_column_are_runs_of_its_elements<T>(list: ListArray<T>, i: int)
    requires
        list.wf(),
        0 <= i < list.offsets@.len() - 1,
    ensures
        list.rows().len() == list.offsets@.len() - 1,
        list.rows()[i] is None <==> (list.validity matches Some(v) && !v@[i]),
        list.rows()[i] matches Some(row) ==> row.len() == list.offsets@[i + 1] - list.offsets@[i]
            && forall|k: int|
            0 <= k < row.len() ==> #[trigger] row[k] == list.elements@[list.offsets@[i] + k],
{
    let o = unsigned(list.offsets@);
    assert(o[0] <= o[i] <= o[i + 1] <= o[o.len() - 1]);
}

proof fn lemma_cut(n: nat, offsets: Seq<u64>, validity: Option<Seq<bool>>)
    ensures
        valid_list(n, unsigned(offsets), validity) <==> {
            &&& offsets.len() > 0
            &&& forall|i: int, j: int| 0 <= i <= j < offsets.len() ==> offsets[i] <= offsets[j]
            &&& offsets[offsets.len() - 1] <= n
            &&& validity matches Some(v) ==> v.len() == offsets.len() - 1
        },
{
    let o = unsigned(offsets);
    if sorted(o) {
        assert forall|i: int, j: int| 0 <= i <= j < offsets.len() implies offsets[i]
            <= offsets[j] by {
            assert(o[i] <= o[j]);
        }
    } else if forall|i: int, j: int| 0 <= i <= j < offsets.len() ==> offsets[i] <= offsets[j] {
        assert forall|i: int, j: int| 0 <= i <= j < o.len() implies o[i] <= o[j] by {
            assert(offsets[i] <= offsets[j]);
        }
    }
}

/// Elements, offsets and a validity make up a column if and only if there is an offset, none is
/// less than the one before, the last is no more than there are elements, and there is a
/// validity for each row or none at all. The column is made of just these.
pub proof fn parts_that_fit_make_up_a_column<T: Copy>(
    elements: Vec<T>,
    offsets: Vec<u64>,
    validity: Option<Vec<bool>>,
    res: Result<ListArray<T>, ListError>,
    mask: Vec<bool>,
)
    requires
        call_ensures(try_list::<T>, (elements, offsets, validity), res),
    ensures
        res is Ok <==> {
            &&& offsets@.len() > 0
            &&& forall|i: int, j: int| 0 <= i <= j < offsets@.len() ==> offsets@[i] <= offsets@[j]
            &&& offsets@[offsets@.len() - 1] <= elements@.len()
            &&& validity matches Some(v) ==> v@.len() == offsets@.len() - 1
        },
        res matches Ok(list) ==> list.wf() && list == (ListArray { elements, offsets, validity }),
        res matches Ok(list) ==> call_requires(filter_list::<T>, (&list, &mask)),
        res matches Err(e) ==> e == ListError::InvalidList,
{
    lemma_cut(elements@.len(), offsets@, validity_view(validity));
}

/// Whether a column holds the rows of another that a mask selects, in order, and no element
/// outside them. The elements under null rows stay too, unless all rows are null and the mask
/// leaves one out: then no element stays.
pub open spec fn keeps_selected_rows<T>(
    list: ListArray<T>,
    mask: Seq<bool>,
    kept: ListArray<T>,
) -> bool {
    let only_null = list.validity matches Some(v) && (forall|i: int|
        0 <= i < v@.len() ==> !v@[i]);
    let whole = forall|i: int| 0 <= i < mask.len() ==> mask[i];
    &&& kept.wf()
    &&& kept.rows().len() == trues(mask)
    &&& kept.validity is Some <==> list.validity is Some
    &&& kept.offsets@[0] == 0
    &&& kept.offsets@[kept.offsets@.len() - 1] == kept.elements@.len()
    &&& forall|i: int|
        #![trigger mask[i]]
        0 <= i < mask.len() && mask[i] ==> {
            let k = trues(mask.take(i)) as int;
            &&& kept.rows()[k] == list.rows()[i]
            &&& list.validity matches Some(v) ==> kept.validity->0@[k] == v@[i]
            &&& whole || !only_null ==> kept.elements@.subrange(
                kept.offsets@[k] as int,
                kept.offsets@[k + 1] as int,
            ) == list.elements@.subrange(list.offsets@[i] as int, list.offsets@[i + 1] as int)
        }
    &&& !whole && only_null ==> kept.elements@.len() == 0
}

pub(crate) proof fn lemma_filtered<T>(list: ListArray<T>, mask: Seq<bool>, kept: ListArray<T>)
    requires
        list.wf(),
        mask.len() == list.offsets@.len() - 1,
        filtered(
            list.elements@,
            unsigned(list.offsets@),
            validity_view(list.validity),
            mask,
            kept,
        ),
    ensures
        keeps_selected_rows(list, mask, kept),
{
    let v = validity_view(list.validity);
    let all = list_rows(list.elements@, unsigned(list.offsets@), None);
    let runs = list_rows(kept.elements@, unsigned(kept.offsets@), None);
    lemma_selection_length(list.rows(), mask);
    if all_null(v) && !all_true(mask) {
        lemma_no_runs_no_elements(kept);
    }
    assert forall|i: int|
        #![trigger mask[i]]
        0 <= i < mask.len() && mask[i] implies {
        let k = trues(mask.take(i)) as int;
        &&& kept.rows()[k] == list.rows()[i]
        &&& list.validity matches Some(v) ==> kept.validity->0@[k] == v@[i]
        &&& !all_null(v) || all_true(mask) ==> kept.elements@.subrange(
            kept.offsets@[k] as int,
            kept.offsets@[k + 1] as int,
        ) == list.elements@.subrange(list.offsets@[i] as int, list.offsets@[i + 1] as int)
    } by {
        selection_keeps_the_order(list.rows(), mask, i);
        if let Some(valid) = v {
            selection_keeps_the_order(valid, mask, i);
        }
        if !all_null(v) || all_true(mask) {
            selection_keeps_the_order(all, mask, i);
            assert(runs[trues(mask.take(i)) as int] == all[i]);
        }
    }
}

/// Filtering a column needs a mask that is as long as there are rows, and keeps the rows that
/// the mask selects.
pub proof fn filtering_keeps_the_selected_rows<T: Copy>(
    list: ListArray<T>,
    mask: Vec<bool>,
    res: Result<ListArray<T>, ListError>,
)
    requires
        list.wf(),
        call_ensures(filter_list::<T>, (&list, &mask), res),
    ensures
        res is Ok <==> mask@.len() == list.offsets@.len() - 1,
        res matches Err(e) ==> e matches ListError::MaskLength { actual, expected } && actual
            == mask@.len() && expected == list.offsets@.len() - 1,
        res matches Ok(kept) ==> keeps_selected_rows(list, mask@, kept),
{
    assert(mask.len() == mask@.len() && list.offsets.len() == list.offsets@.len());
    if let Ok(kept) = res {
        lemma_filtered(list, mask@, kept);
    }
}

/// A column whose runs are all empty has no elements, if all its elements belong to runs.
proof fn lemma_no_runs_no_elements<T>(list: ListArray<T>)
    requires
        list.wf(),
        list.packed(),
        forall|i: int|
            0 <= i < list.offsets@.len() - 1 ==> #[trigger] list_rows(
                list.elements@,
                unsigned(list.offsets@),
                None,
            )[i] == Some(Seq::<T>::empty()),
    ensures
        list.elements@.len() == 0,
{
    let o = unsigned(list.offsets@);
    lemma_no_runs_up_to(list.elements@, o, o.len() - 1);
}

proof fn lemma_no_runs_up_to<T>(elements: Seq<T>, o: Seq<int>, k: int)
    requires
        valid_list(elements.len(), o, None),
        0 <= k < o.len(),
        forall|i: int|
            0 <= i < o.len() - 1 ==> #[trigger] list_rows(elements, o, None)[i] == Some(
                Seq::<T>::empty(),
            ),
    ensures
        o[k] == o[0],
    decreases k,
{
    if k > 0 {
        lemma_no_runs_up_to(elements, o, k - 1);
        assert(o[0] <= o[k - 1] <= o[k] <= o[o.len() - 1]);
        assert(list_rows(elements, o, None)[k - 1] == Some(Seq::<T>::empty()));
        assert(elements.subrange(o[k - 1], o[k]).len() == o[k] - o[k - 1]);
    }
}

/// A packed chunk holds the rows of the chunk one after the other, from 0 on. A null row of
/// views takes up no elements; a null row that is cut by offsets keeps those under it.
pub proof fn packing_puts_rows_one_after_the_other<T: Copy>(
    chunk: ListChunk<T>,
    res: PackedList<T>,
    i: int,
)
    requires
        chunk.wf(),
        call_ensures(pack::<T>, (&chunk,), res),
        0 <= i < chunk.rows().len(),
    ensures
        res.offsets@.len() == chunk.rows().len() + 1,
        res.offsets@[0] == 0,
        0 <= res.offsets@[i] <= res.offsets@[i + 1] <= res.elements@.len(),
        res.offsets@[res.offsets@.len() - 1] == res.elements@.len(),
        chunk.rows()[i] matches Some(row) ==> res.elements@.subrange(
            res.offsets@[i] as int,
            res.offsets@[i + 1] as int,
        ) == row,
        chunk is ListView && chunk.rows()[i] is None ==> res.offsets@[i + 1] == res.offsets@[i],
        chunk matches ListChunk::List { offsets, .. } ==> res.offsets@[i] == offsets@[i]
            - offsets@[0],
        chunk matches ListChunk::List { elements, offsets, .. } ==> res.elements@
            == elements@.subrange(offsets@[0] as int, offsets@[offsets@.len() - 1] as int),
{
    packing_keeps_rows(chunk);
    let o = signed(res.offsets@);
    assert(o.len() == res.offsets@.len());
    assert(o[0] <= o[i] <= o[i + 1] <= o[o.len() - 1]);
    assert(list_rows(res.elements@, o, chunk.validity_spec())[i] == chunk.rows()[i]);
}

/// A packed chunk without rows has one offset, which is 0. It holds no elements if it is cut by
/// offsets, and all elements of the chunk if it is made of views.
pub proof fn packing_no_rows<T: Copy>(chunk: ListChunk<T>, res: PackedList<T>)
    requires
        chunk.wf(),
        call_ensures(pack::<T>, (&chunk,), res),
        chunk.rows().len() == 0,
    ensures
        res.offsets@ == seq![0i64],
        chunk is List ==> res.elements@.len() == 0,
        chunk matches ListChunk::ListView { elements, .. } ==> res.elements@ == elements@,
{
    packing_keeps_rows(chunk);
    assert(signed(res.offsets@).len() == res.offsets@.len());
    assert(signed(res.offsets@)[0] == 0);
}

} // verus!
