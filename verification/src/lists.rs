//! List columns as plain values, and what rows they hold.
//!
//! A row of a list column is null or a sequence of elements. The functions here say which rows
//! a column holds: one whose rows are runs of its elements, cut by offsets, and one whose rows
//! are views of its elements, each with an offset and a size.

use vstd::prelude::*;

verus! {

/// A piece of a list column, as it arrives to be written.
#[derive(Debug)]
pub enum ListChunk<T> {
    /// Row `i` holds the elements from `offsets[i]` to `offsets[i + 1]`.
    List { elements: Vec<T>, offsets: Vec<i64>, validity: Option<Vec<bool>> },
    /// Row `i` holds `sizes[i]` elements from `offsets[i]` on. Rows may overlap, lie in any
    /// order and leave elements unused.
    ListView {
        elements: Vec<T>,
        offsets: Vec<i64>,
        sizes: Vec<i64>,
        validity: Option<Vec<bool>>,
    },
}

/// The elements of a chunk in row order, with the offsets that cut them into rows.
#[derive(Debug)]
pub struct PackedList<T> {
    pub offsets: Vec<i64>,
    pub elements: Vec<T>,
}

/// A list column that was read: row `i` holds the elements from `offsets[i]` to
/// `offsets[i + 1]`. Without a validity no row is null.
#[derive(Debug)]
pub struct ListArray<T> {
    pub elements: Vec<T>,
    pub offsets: Vec<u64>,
    pub validity: Option<Vec<bool>>,
}

/// Offsets of a chunk as integers.
pub open spec fn signed(offsets: Seq<i64>) -> Seq<int> {
    Seq::new(offsets.len(), |i: int| offsets[i] as int)
}

/// Offsets of a column as integers.
pub open spec fn unsigned(offsets: Seq<u64>) -> Seq<int> {
    Seq::new(offsets.len(), |i: int| offsets[i] as int)
}

pub open spec fn validity_view(validity: Option<Vec<bool>>) -> Option<Seq<bool>> {
    match validity {
        Some(v) => Some(v@),
        None => None,
    }
}

/// Whether row `i` is not null.
pub open spec fn row_valid(validity: Option<Seq<bool>>, i: int) -> bool {
    validity matches Some(v) ==> v[i]
}

/// Whether offsets are sorted.
pub open spec fn sorted(offsets: Seq<int>) -> bool {
    forall|i: int, j: int| 0 <= i <= j < offsets.len() ==> offsets[i] <= offsets[j]
}

/// Whether offsets and a validity cut `n` elements into rows: there is one offset more than
/// there are rows, and the offsets are sorted and point into the elements.
pub open spec fn valid_list(n: nat, offsets: Seq<int>, validity: Option<Seq<bool>>) -> bool {
    &&& offsets.len() >= 1
    &&& offsets[0] >= 0
    &&& sorted(offsets)
    &&& offsets.last() <= n
    &&& validity matches Some(v) ==> v.len() == offsets.len() - 1
}

/// The rows of a column that is cut by offsets.
pub open spec fn list_rows<T>(
    elements: Seq<T>,
    offsets: Seq<int>,
    validity: Option<Seq<bool>>,
) -> Seq<Option<Seq<T>>> {
    Seq::new(
        (offsets.len() - 1) as nat,
        |i: int|
            if row_valid(validity, i) {
                Some(elements.subrange(offsets[i], offsets[i + 1]))
            } else {
                None
            },
    )
}

/// Whether the views all lie within `n` elements, the views of null rows too.
pub open spec fn valid_view(
    n: nat,
    offsets: Seq<int>,
    sizes: Seq<int>,
    validity: Option<Seq<bool>>,
) -> bool {
    &&& offsets.len() == sizes.len()
    &&& forall|i: int|
        #![trigger offsets[i]]
        #![trigger sizes[i]]
        0 <= i < offsets.len() ==> 0 <= offsets[i] && 0 <= sizes[i] && offsets[i] + sizes[i] <= n
    &&& validity matches Some(v) ==> v.len() == offsets.len()
}

/// Whether each view but the first starts where the one before it ends.
pub open spec fn contiguous(offsets: Seq<int>, sizes: Seq<int>) -> bool {
    forall|i: int| 0 < i < offsets.len() ==> #[trigger] offsets[i] == offsets[i - 1] + sizes[i - 1]
}

/// The rows of a column of views.
pub open spec fn view_rows<T>(
    elements: Seq<T>,
    offsets: Seq<int>,
    sizes: Seq<int>,
    validity: Option<Seq<bool>>,
) -> Seq<Option<Seq<T>>> {
    Seq::new(
        offsets.len(),
        |i: int|
            if row_valid(validity, i) {
                Some(elements.subrange(offsets[i], offsets[i] + sizes[i]))
            } else {
                None
            },
    )
}

/// How many elements the first `k` views hold together, null rows not counted.
pub open spec fn packed_len(sizes: Seq<int>, validity: Option<Seq<bool>>, k: int) -> int
    decreases k,
{
    if k <= 0 {
        0
    } else {
        packed_len(sizes, validity, k - 1) + if row_valid(validity, k - 1) {
            sizes[k - 1]
        } else {
            0
        }
    }
}

/// The elements of the first `k` views one after the other, null rows left out.
pub open spec fn packed<T>(
    elements: Seq<T>,
    offsets: Seq<int>,
    sizes: Seq<int>,
    validity: Option<Seq<bool>>,
    k: int,
) -> Seq<T>
    decreases k,
{
    if k <= 0 {
        Seq::empty()
    } else {
        packed(elements, offsets, sizes, validity, k - 1) + if row_valid(validity, k - 1) {
            elements.subrange(offsets[k - 1], offsets[k - 1] + sizes[k - 1])
        } else {
            Seq::empty()
        }
    }
}

/// The offsets of a column that is cut by offsets, moved so that they start at 0.
pub open spec fn list_packed_offsets(offsets: Seq<int>) -> Seq<int> {
    Seq::new(offsets.len(), |i: int| offsets[i] - offsets[0])
}

/// The elements of a column that is cut by offsets, without those before its first and those
/// after its last row.
pub open spec fn list_packed_elements<T>(elements: Seq<T>, offsets: Seq<int>) -> Seq<T> {
    elements.subrange(offsets[0], offsets.last())
}

/// The offsets that cut the packed elements of a column of views.
pub open spec fn view_packed_offsets(sizes: Seq<int>, validity: Option<Seq<bool>>) -> Seq<int> {
    Seq::new(sizes.len() + 1, |k: int| packed_len(sizes, validity, k))
}

impl<T> ListChunk<T> {
    pub open spec fn validity_spec(self) -> Option<Seq<bool>> {
        match self {
            ListChunk::List { validity, .. } => validity_view(validity),
            ListChunk::ListView { validity, .. } => validity_view(validity),
        }
    }

    /// Whether offsets, sizes and validity fit together and stay within the elements.
    pub open spec fn wf(self) -> bool {
        match self {
            ListChunk::List { elements, offsets, validity } => valid_list(
                elements@.len(),
                signed(offsets@),
                validity_view(validity),
            ),
            ListChunk::ListView { elements, offsets, sizes, validity } => valid_view(
                elements@.len(),
                signed(offsets@),
                signed(sizes@),
                validity_view(validity),
            ),
        }
    }

    /// A chunk of rows that are views. With `in_order` the views follow one another without
    /// gaps, and the chunk is one that is cut by offsets: those of the views, and the end of the
    /// last view. Views without rows stay views. There is no chunk if a view does not lie within
    /// the elements, if the validity does not fit, or if views are in order whose offsets are not
    /// sorted or whose end is more than an offset can count.
    pub fn from_views(
        elements: Vec<T>,
        offsets: Vec<i64>,
        sizes: Vec<i64>,
        validity: Option<Vec<bool>>,
        in_order: bool,
    ) -> (res: Option<Self>)
        ensures
            match res {
                Some(chunk) => {
                    &&& chunk.wf()
                    &&& valid_view(
                        elements@.len(),
                        signed(offsets@),
                        signed(sizes@),
                        validity_view(validity),
                    )
                    &&& in_order ==> sorted(signed(offsets@))
                    &&& if in_order && sizes@.len() > 0 {
                        &&& chunk matches ListChunk::List { elements: e, offsets: o, validity: v }
                        &&& e == elements && v == validity
                        &&& signed(o@) == signed(offsets@).push(offsets@.last() + sizes@.last())
                        &&& contiguous(signed(offsets@), signed(sizes@)) ==> chunk.rows()
                            == view_rows(
                            elements@,
                            signed(offsets@),
                            signed(sizes@),
                            validity_view(validity),
                        )
                    } else {
                        chunk == (ListChunk::ListView { elements, offsets, sizes, validity })
                    }
                },
                None => {
                    ||| !valid_view(
                        elements@.len(),
                        signed(offsets@),
                        signed(sizes@),
                        validity_view(validity),
                    )
                    ||| in_order && !sorted(signed(offsets@))
                    ||| in_order && sizes@.len() > 0 && offsets@.last() + sizes@.last() > i64::MAX
                },
            },
    {
        let ghost o = signed(offsets@);
        let ghost s = signed(sizes@);
        let ghost v = validity_view(validity);
        let ghost n = elements@.len();
        let ghost all = elements@;
        let views = ListChunk::ListView { elements, offsets, sizes, validity };
        if !views.is_wf() {
            return None;
        }
        match views {
            ListChunk::ListView { elements, mut offsets, sizes, validity } if in_order
                && sizes.len() > 0 => {
                let last: usize = sizes.len() - 1;
                assert(0 <= o[last as int] && 0 <= s[last as int] && o[last as int]
                    + s[last as int] <= n);
                if offsets[last] > i64::MAX - sizes[last] {
                    return None;
                }
                let end: i64 = offsets[last] + sizes[last];
                offsets.push(end);
                proof {
                    assert(signed(offsets@) =~= o.push(o[last as int] + s[last as int]));
                    lemma_closed_views(all, o, s, v);
                }
                let chunk = ListChunk::List { elements, offsets, validity };
                if chunk.is_wf() {
                    Some(chunk)
                } else {
                    None
                }
            },
            views => Some(views),
        }
    }

    /// Tests whether offsets, sizes and validity fit together and stay within the elements.
    pub fn is_wf(&self) -> (res: bool)
        ensures
            res == self.wf(),
    {
        match self {
            ListChunk::List { elements, offsets, validity } => {
                let rows_fit = match validity {
                    Some(v) => offsets.len() >= 1 && v.len() == offsets.len() - 1,
                    None => true,
                };
                is_valid_list(elements.len(), offsets) && rows_fit
            },
            ListChunk::ListView { elements, offsets, sizes, validity } => {
                let rows_fit = match validity {
                    Some(v) => v.len() == offsets.len(),
                    None => true,
                };
                is_valid_view(elements.len(), offsets, sizes) && rows_fit
            },
        }
    }

    /// The rows of the chunk.
    pub open spec fn rows(self) -> Seq<Option<Seq<T>>> {
        match self {
            ListChunk::List { elements, offsets, validity } => list_rows(
                elements@,
                signed(offsets@),
                validity_view(validity),
            ),
            ListChunk::ListView { elements, offsets, sizes, validity } => view_rows(
                elements@,
                signed(offsets@),
                signed(sizes@),
                validity_view(validity),
            ),
        }
    }

    /// The offsets of the packed chunk.
    pub open spec fn packed_offsets(self) -> Seq<int> {
        match self {
            ListChunk::List { offsets, .. } => list_packed_offsets(signed(offsets@)),
            ListChunk::ListView { sizes, validity, .. } => view_packed_offsets(
                signed(sizes@),
                validity_view(validity),
            ),
        }
    }

    /// The elements of the packed chunk. A chunk of views without rows keeps its elements, though
    /// no row uses them.
    pub open spec fn packed_elements(self) -> Seq<T> {
        match self {
            ListChunk::List { elements, offsets, .. } => list_packed_elements(
                elements@,
                signed(offsets@),
            ),
            ListChunk::ListView { elements, offsets, sizes, validity } => if sizes@.len() == 0 {
                elements@
            } else {
                packed(
                    elements@,
                    signed(offsets@),
                    signed(sizes@),
                    validity_view(validity),
                    sizes@.len() as int,
                )
            },
        }
    }

    /// Whether the packed chunk holds elements, but no row.
    pub open spec fn leftover(self) -> bool {
        self.rows().len() == 0 && self.packed_elements().len() > 0
    }
}

impl<T> ListArray<T> {
    pub open spec fn wf(self) -> bool {
        valid_list(self.elements@.len(), unsigned(self.offsets@), validity_view(self.validity))
    }

    /// The rows of the column.
    pub open spec fn rows(self) -> Seq<Option<Seq<T>>> {
        list_rows(self.elements@, unsigned(self.offsets@), validity_view(self.validity))
    }

    /// Whether every element belongs to a row, null rows counted.
    pub open spec fn packed(self) -> bool {
        self.offsets@[0] == 0 && self.offsets@.last() == self.elements@.len()
    }
}

/// Views, closed by the end of the last of them, are cut by their offsets if and only if these
/// are sorted, and into the same rows if each view starts where the one before it ends.
proof fn lemma_closed_views<T>(
    elements: Seq<T>,
    offsets: Seq<int>,
    sizes: Seq<int>,
    validity: Option<Seq<bool>>,
)
    requires
        valid_view(elements.len(), offsets, sizes, validity),
        offsets.len() > 0,
    ensures
        valid_list(elements.len(), offsets.push(offsets.last() + sizes.last()), validity)
            <==> sorted(offsets),
        contiguous(offsets, sizes) ==> list_rows(
            elements,
            offsets.push(offsets.last() + sizes.last()),
            validity,
        ) == view_rows(elements, offsets, sizes, validity),
{
    let last = offsets.len() - 1;
    let cut = offsets.push(offsets.last() + sizes.last());
    assert(0 <= offsets[last] && 0 <= sizes[last]);
    assert(0 <= offsets[0]);
    if sorted(offsets) {
        assert forall|i: int, j: int| 0 <= i <= j < cut.len() implies cut[i] <= cut[j] by {
            if i <= last {
                assert(offsets[i] <= offsets[last]);
            }
            if j <= last {
                assert(offsets[i] <= offsets[j]);
            }
        }
    }
    if sorted(cut) {
        assert forall|i: int, j: int| 0 <= i <= j < offsets.len() implies offsets[i]
            <= offsets[j] by {
            assert(cut[i] <= cut[j]);
        }
    }
    if contiguous(offsets, sizes) {
        let rows = list_rows(elements, cut, validity);
        let of_views = view_rows(elements, offsets, sizes, validity);
        assert forall|i: int| 0 <= i < rows.len() implies rows[i] == of_views[i] by {
            if i < last {
                assert(offsets[i + 1] == offsets[i] + sizes[i]);
            }
        }
        assert(rows =~= of_views);
    }
}

fn is_valid_list(n: usize, offsets: &Vec<i64>) -> (res: bool)
    ensures
        res == valid_list(n as nat, signed(offsets@), None),
{
    let ghost o = signed(offsets@);
    if offsets.len() == 0 || offsets[0] < 0 {
        return false;
    }
    let mut i: usize = 0;
    while i < offsets.len() - 1
        invariant
            o == signed(offsets@),
            0 <= i < offsets@.len(),
            forall|j: int, k: int| 0 <= j <= k <= i ==> o[j] <= o[k],
        decreases offsets@.len() - i,
    {
        if offsets[i] > offsets[i + 1] {
            assert(o[i as int] > o[i + 1]);
            return false;
        }
        assert(o[i as int] <= o[i + 1]);
        i += 1;
    }
    assert(o[0] <= o[i as int]);
    offsets[i] as u64 <= n as u64
}

fn is_valid_view(n: usize, offsets: &Vec<i64>, sizes: &Vec<i64>) -> (res: bool)
    ensures
        res == valid_view(n as nat, signed(offsets@), signed(sizes@), None),
{
    let ghost o = signed(offsets@);
    let ghost s = signed(sizes@);
    if offsets.len() != sizes.len() {
        return false;
    }
    let mut i: usize = 0;
    while i < offsets.len()
        invariant
            o == signed(offsets@),
            s == signed(sizes@),
            offsets@.len() == sizes@.len(),
            0 <= i <= offsets@.len(),
            forall|j: int|
                #![trigger o[j]]
                #![trigger s[j]]
                0 <= j < i ==> 0 <= o[j] && 0 <= s[j] && o[j] + s[j] <= n,
        decreases offsets@.len() - i,
    {
        assert(o[i as int] == offsets@[i as int] && s[i as int] == sizes@[i as int]);
        if offsets[i] < 0 || sizes[i] < 0 || offsets[i] as u64 + sizes[i] as u64 > n as u64 {
            return false;
        }
        i += 1;
    }
    true
}

/// The items of `s` at which `mask` is true, in order.
pub open spec fn select<A>(s: Seq<A>, mask: Seq<bool>) -> Seq<A>
    decreases s.len(),
{
    if s.len() == 0 {
        Seq::empty()
    } else {
        select(s.drop_last(), mask.drop_last()) + if mask.last() {
            seq![s.last()]
        } else {
            Seq::empty()
        }
    }
}

/// Whether a mask selects all rows.
pub open spec fn all_true(mask: Seq<bool>) -> bool {
    forall|i: int| 0 <= i < mask.len() ==> mask[i]
}

/// Whether a validity says of every row that it is null.
pub open spec fn all_null(validity: Option<Seq<bool>>) -> bool {
    validity matches Some(v) && forall|i: int| 0 <= i < v.len() ==> !v[i]
}

/// Whether a column holds the rows of another at which a mask is true, in order, and no elements
/// beside. The elements under its null rows, which are no part of these rows, are those of the
/// other column too; but there are none if all rows are null and the mask leaves one out.
pub open spec fn filtered<T>(
    elements: Seq<T>,
    offsets: Seq<int>,
    validity: Option<Seq<bool>>,
    mask: Seq<bool>,
    res: ListArray<T>,
) -> bool {
    &&& res.wf()
    &&& res.packed()
    &&& res.rows() == select(list_rows(elements, offsets, validity), mask)
    &&& validity_view(res.validity) == match validity {
        Some(v) => Some(select(v, mask)),
        None => None,
    }
    &&& list_rows(res.elements@, unsigned(res.offsets@), None) == if all_null(validity)
        && !all_true(mask) {
        Seq::new(res.rows().len(), |i: int| Some(Seq::<T>::empty()))
    } else {
        select(list_rows(elements, offsets, None), mask)
    }
}

/// The first `k` views hold as many elements as [`packed_len`] says, and their elements are the
/// first of those of the first `m` views.
proof fn lemma_packed_prefix<T>(
    elements: Seq<T>,
    offsets: Seq<int>,
    sizes: Seq<int>,
    validity: Option<Seq<bool>>,
    k: int,
    m: int,
)
    requires
        valid_view(elements.len(), offsets, sizes, validity),
        0 <= k <= m <= offsets.len(),
    ensures
        packed(elements, offsets, sizes, validity, k).len() == packed_len(sizes, validity, k),
        packed(elements, offsets, sizes, validity, m).len() == packed_len(sizes, validity, m),
        0 <= packed_len(sizes, validity, k) <= packed_len(sizes, validity, m),
        packed(elements, offsets, sizes, validity, m).take(packed_len(sizes, validity, k))
            == packed(elements, offsets, sizes, validity, k),
    decreases m,
{
    let short = packed(elements, offsets, sizes, validity, k);
    let long = packed(elements, offsets, sizes, validity, m);
    if k < m {
        lemma_packed_prefix(elements, offsets, sizes, validity, k, m - 1);
        let before = packed(elements, offsets, sizes, validity, m - 1);
        assert(sizes[m - 1] >= 0 && offsets[m - 1] >= 0);
        assert(long.take(packed_len(sizes, validity, k)) =~= before.take(
            packed_len(sizes, validity, k),
        ));
    } else if k > 0 {
        lemma_packed_prefix(elements, offsets, sizes, validity, k - 1, k - 1);
        assert(sizes[k - 1] >= 0 && offsets[k - 1] >= 0);
        assert(long.take(packed_len(sizes, validity, k)) =~= long);
    } else {
        assert(long.take(0) =~= short);
    }
}

/// A packed chunk has the rows of the chunk. Its offsets start at 0, are sorted, are one more
/// than the rows, and end with the number of its elements, unless it has elements and no rows.
pub proof fn packing_keeps_rows<T>(chunk: ListChunk<T>)
    requires
        chunk.wf(),
    ensures
        chunk.packed_offsets().len() == chunk.rows().len() + 1,
        chunk.packed_offsets()[0] == 0,
        sorted(chunk.packed_offsets()),
        chunk.leftover() ==> chunk.packed_offsets() == seq![0int],
        !chunk.leftover() ==> chunk.packed_offsets().last() == chunk.packed_elements().len(),
        list_rows(chunk.packed_elements(), chunk.packed_offsets(), chunk.validity_spec())
            == chunk.rows(),
{
    let rows = chunk.rows();
    let cut = chunk.packed_offsets();
    let all = chunk.packed_elements();
    let v = chunk.validity_spec();
    match chunk {
        ListChunk::List { elements, offsets, validity } => {
            let o = signed(offsets@);
            assert forall|i: int| 0 <= i < rows.len() implies list_rows(all, cut, v)[i]
                == rows[i] by {
                assert(o[0] <= o[i] <= o[i + 1] <= o[o.len() - 1]);
                assert(all.subrange(cut[i], cut[i + 1]) =~= elements@.subrange(o[i], o[i + 1]));
            }
        },
        ListChunk::ListView { elements, offsets, sizes, validity } => {
            let o = signed(offsets@);
            let s = signed(sizes@);
            let n = s.len() as int;
            assert forall|i: int, j: int| 0 <= i <= j < cut.len() implies cut[i] <= cut[j] by {
                lemma_packed_prefix(elements@, o, s, v, i, j);
            }
            lemma_packed_prefix(elements@, o, s, v, n, n);
            assert forall|i: int| 0 <= i < rows.len() implies list_rows(all, cut, v)[i]
                == rows[i] by {
                lemma_packed_prefix(elements@, o, s, v, i, i + 1);
                lemma_packed_prefix(elements@, o, s, v, i + 1, n);
                assert(all == packed(elements@, o, s, v, n));
                if row_valid(v, i) {
                    let next = packed(elements@, o, s, v, i + 1);
                    assert(0 <= o[i] && 0 <= s[i] && o[i] + s[i] <= elements@.len());
                    assert(all.subrange(cut[i], cut[i + 1]) =~= all.take(cut[i + 1]).subrange(
                        cut[i],
                        cut[i + 1],
                    ));
                    assert(next.subrange(cut[i], cut[i + 1]) =~= elements@.subrange(
                        o[i],
                        o[i] + s[i],
                    ));
                }
            }
        },
    }
    assert(list_rows(all, cut, v) =~= rows);
    if chunk.leftover() {
        assert(cut =~= seq![0int]);
    }
}

} // verus!
