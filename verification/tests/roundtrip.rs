//! Lists are written in chunks and read back.

use std::sync::Arc;

use vortex_array::arrays::ListVTable as ListArrayVTable;
use vortex_array::arrays::PrimitiveArray;
use vortex_array::validity::Validity;
use vortex_array::Array;
use vortex_array::ArrayRef;
use vortex_array::IntoArray;
use vortex_array::ToCanonical;
use vortex_list_layout::children::Layout;
use vortex_list_layout::children::OwnedLayoutChildren;
use vortex_list_layout::dtype::DType;
use vortex_list_layout::dtype::Nullability;
use vortex_list_layout::dtype::PType;
use vortex_list_layout::dtype::StructField;
use vortex_list_layout::error::ListError;
use vortex_list_layout::kernels::filter_list;
use vortex_list_layout::layout::ChildRole;
use vortex_list_layout::layout::ListLayout;
use vortex_list_layout::layout::ListVTable;
use vortex_list_layout::lists::ListArray;
use vortex_list_layout::lists::ListChunk;
use vortex_list_layout::reader::assemble;
use vortex_list_layout::writer::ChildPiece;
use vortex_list_layout::writer::ChunkEvent;
use vortex_list_layout::writer::LayoutStrategy;
use vortex_list_layout::writer::ListLayoutStrategy;
use vortex_list_layout::writer::WriteAction;

/// Keeps a column in memory.
struct Flat;

impl LayoutStrategy for Flat {
    fn buffered_bytes(&self) -> u64 {
        0
    }
}

/// The layout of a column that is kept in memory.
struct FlatLayout {
    encoding_id: &'static str,
    row_count: u64,
    dtype: DType,
}

impl Layout for FlatLayout {
    fn row_count(&self) -> u64 {
        self.row_count
    }

    fn dtype(&self) -> &DType {
        &self.dtype
    }
}

type MemoryListLayout = ListLayout<OwnedLayoutChildren<FlatLayout>>;

/// What the children of a list layout hold.
struct Written<T> {
    layout: MemoryListLayout,
    validity: Vec<bool>,
    offsets: Vec<u64>,
    elements: Vec<T>,
}

fn encoding_of(dtype: &DType) -> &'static str {
    match dtype {
        DType::Struct(..) => "vortex.struct",
        _ => "vortex.flat",
    }
}

fn list_of(element: DType, nullability: Nullability) -> DType {
    DType::List(Arc::new(element), nullability)
}

fn i32_lists(nullability: Nullability) -> DType {
    list_of(DType::Primitive(PType::I32, Nullability::NonNullable), nullability)
}

/// Writes chunks, and keeps what each child is sent.
fn write<T: Copy>(dtype: &DType, chunks: Vec<ListChunk<T>>) -> Written<T> {
    let strategy = ListLayoutStrategy::new(Arc::new(Flat), Arc::new(Flat), Arc::new(Flat));
    let mut stream = strategy.write_stream(dtype);
    let (mut validity, mut offsets, mut elements) = (vec![], vec![], vec![]);
    for chunk in chunks {
        match stream.step(ChunkEvent::Chunk(chunk)) {
            WriteAction::Send(pieces) => {
                for piece in pieces {
                    match piece {
                        ChildPiece::Validity(piece) => validity.extend(piece),
                        ChildPiece::Offsets(piece) => offsets.extend(piece),
                        ChildPiece::Elements(piece) => elements.extend(piece),
                    }
                }
            }
            WriteAction::Abort { error, .. } => panic!("{:?}", error),
        }
    }
    let layouts = stream
        .children()
        .into_iter()
        .map(|child| {
            Arc::new(FlatLayout {
                encoding_id: encoding_of(&child.dtype),
                row_count: match child.role {
                    ChildRole::Validity => validity.len() as u64,
                    ChildRole::Offsets => offsets.len() as u64,
                    ChildRole::Elements => elements.len() as u64,
                },
                dtype: child.dtype,
            })
        })
        .collect();
    Written { layout: stream.finish(layouts), validity, offsets, elements }
}

/// Reads rows, each child as far as the reader asks for.
fn read<T: Copy>(
    written: &Written<T>,
    start: u64,
    end: u64,
    mask: &[bool],
) -> Result<ListArray<T>, ListError> {
    let reader = ListVTable::new_reader(&written.layout, "".to_string()).unwrap();
    let plan = reader.plan_projection(&(start..end));
    let offsets =
        written.offsets[plan.offsets.start as usize..plan.offsets.end as usize].to_vec();
    assert_eq!(offsets.len(), plan.offsets.len);
    let validity = plan
        .validity
        .map(|read| written.validity[read.start as usize..read.end as usize].to_vec());
    let read = plan.elements_read(&offsets);
    let elements = written.elements[read.start as usize..read.end as usize].to_vec();
    assert_eq!(elements.len(), read.len);
    assemble(&offsets, elements, validity, &mask.to_vec())
}

fn list<T>(elements: Vec<T>, offsets: Vec<i64>) -> ListChunk<T> {
    ListChunk::List { elements, offsets, validity: None }
}

/// The parts of a list array of the array library.
fn chunk_of(array: &ArrayRef) -> ListChunk<i32> {
    let list = array.as_opt::<ListArrayVTable>().unwrap();
    ListChunk::List {
        elements: list.elements().to_primitive().as_slice::<i32>().to_vec(),
        offsets: (0..list.len() + 1).map(|i| list.offset_at(i) as i64).collect(),
        validity: None,
    }
}

#[test]
fn list_roundtrip() {
    // [[1, 2], [3, 4, 5], []]
    let chunk = list(vec![1i32, 2, 3, 4, 5], vec![0, 2, 5, 5]);
    let written = write(&i32_lists(Nullability::NonNullable), vec![chunk]);

    let encoding = ListVTable::encoding(&written.layout);
    assert_eq!(ListVTable::id(&encoding), "vortex.list");
    assert_eq!(written.layout.row_count(), 3);

    let result = read(&written, 0, 3, &[true; 3]).unwrap();
    assert_eq!(result.offsets.len() - 1, 3);
    assert_eq!(result.elements, [1, 2, 3, 4, 5]);
    assert_eq!(result.offsets, [0, 2, 5, 5]);
}

#[test]
fn list_nullable_roundtrip() {
    // [[1, 2], NULL, []]
    let chunk = ListChunk::List {
        elements: vec![1i32, 2],
        offsets: vec![0, 2, 2, 2],
        validity: Some(vec![true, false, true]),
    };
    let written = write(&i32_lists(Nullability::Nullable), vec![chunk]);

    let encoding = ListVTable::encoding(&written.layout);
    assert_eq!(ListVTable::id(&encoding), "vortex.list");
    assert_eq!(written.layout.row_count(), 3);

    let reader = ListVTable::new_reader(&written.layout, "".to_string()).unwrap();
    assert!(reader.dtype().is_nullable());
    let result = read(&written, 0, 3, &[true; 3]).unwrap();
    assert_eq!(result.offsets.len() - 1, 3);
    assert_eq!(result.elements, [1, 2]);
    assert_eq!(result.offsets, [0, 2, 2, 2]);
    let validity = result.validity.unwrap();
    assert!(validity[0]);
    assert!(!validity[1]);
    assert!(validity[2]);
}

#[derive(Clone, Copy, Debug, PartialEq)]
struct Row {
    a: i32,
}

#[test]
fn list_struct_roundtrip() {
    // [[{"a": 1}, {"a": 2}], [{"a": 3}]]
    let field = StructField {
        name: "a".to_string(),
        dtype: DType::Primitive(PType::I32, Nullability::NonNullable),
    };
    let element = DType::Struct(Arc::new(vec![field]), Nullability::NonNullable);
    let chunk = list(vec![Row { a: 1 }, Row { a: 2 }, Row { a: 3 }], vec![0, 2, 3]);
    let written = write(&list_of(element, Nullability::NonNullable), vec![chunk]);

    let encoding = ListVTable::encoding(&written.layout);
    assert_eq!(ListVTable::id(&encoding), "vortex.list");

    // The elements are child 1 of a list that is not nullable.
    let elements_layout = ListVTable::child(&written.layout, 1).unwrap();
    assert_eq!(elements_layout.encoding_id, "vortex.struct");

    let result = read(&written, 0, 2, &[true; 2]).unwrap();
    assert_eq!(result.offsets.len() - 1, 2);
    let a: Vec<i32> = result.elements.iter().map(|row| row.a).collect();
    assert_eq!(a, [1, 2, 3]);
}

#[test]
fn list_projection_respects_row_mask() {
    // [[1, 2], [3, 4, 5], []]
    let chunk = list(vec![1i32, 2, 3, 4, 5], vec![0, 2, 5, 5]);
    let written = write(&i32_lists(Nullability::NonNullable), vec![chunk]);

    let result = read(&written, 0, 3, &[true, false, true]).unwrap();
    assert_eq!(result.offsets.len() - 1, 2);
    assert_eq!(result.elements, [1, 2]);
    assert_eq!(result.offsets, [0, 2, 2]);
}

#[test]
fn test_sliced_list_chunks() {
    // [[0, 1], [2, 3], [4, 5], [6, 7]]
    let array = vortex_array::arrays::ListArray::new(
        PrimitiveArray::from_iter([0i32, 1, 2, 3, 4, 5, 6, 7]).into_array(),
        PrimitiveArray::from_iter([0u32, 2, 4, 6, 8]).into_array(),
        Validity::NonNullable,
    )
    .into_array();
    // [[0, 1], [2, 3]]
    let chunk1 = chunk_of(&array.slice(0..2));
    // [[4, 5], [6, 7]]
    let chunk2 = chunk_of(&array.slice(2..4));
    let written = write(&i32_lists(Nullability::NonNullable), vec![chunk1, chunk2]);

    assert_eq!(written.layout.row_count(), 4);

    let result = read(&written, 0, 4, &[true; 4]).unwrap();
    assert_eq!(result.offsets.len() - 1, 4);
    assert_eq!(result.elements, [0, 1, 2, 3, 4, 5, 6, 7]);
    assert_eq!(result.offsets, [0, 2, 4, 6, 8]);
}

#[test]
fn test_empty_chunks() {
    // [[1]]
    let chunk1 = list(vec![1i32], vec![0, 1]);
    // no rows
    let chunk2 = list(vec![], vec![0]);
    // [[2]]
    let chunk3 = list(vec![2i32], vec![0, 1]);
    let written = write(&i32_lists(Nullability::NonNullable), vec![chunk1, chunk2, chunk3]);

    assert_eq!(written.layout.row_count(), 2);

    let result = read(&written, 0, 2, &[true; 2]).unwrap();
    assert_eq!(result.offsets.len() - 1, 2);
    assert_eq!(result.elements, [1, 2]);
    assert_eq!(result.offsets, [0, 1, 2]);
}

#[test]
fn test_chunk_with_empty_list() {
    // [[1]]
    let c1 = list(vec![1i32], vec![0, 1]);
    // [[]]
    let c2 = list(vec![], vec![0, 0]);
    // [[2]]
    let c3 = list(vec![2i32], vec![0, 1]);
    let written = write(&i32_lists(Nullability::NonNullable), vec![c1, c2, c3]);

    assert_eq!(written.layout.row_count(), 3);

    let result = read(&written, 0, 3, &[true; 3]).unwrap();
    assert_eq!(result.elements, [1, 2]);
    assert_eq!(result.offsets, [0, 1, 1, 2]);
}

#[test]
fn test_first_chunk_has_no_elements() {
    // [[], []]
    let c1 = list(vec![], vec![0, 0, 0]);
    // [[1, 2]]
    let c2 = list(vec![1i32, 2], vec![0, 2]);
    let written = write(&i32_lists(Nullability::NonNullable), vec![c1, c2]);

    assert_eq!(written.layout.row_count(), 3);

    let result = read(&written, 0, 3, &[true; 3]).unwrap();
    assert_eq!(result.elements, [1, 2]);
    assert_eq!(result.offsets, [0, 0, 0, 2]);
}

/// The rows of a column.
fn rows<T: Copy>(list: &ListArray<T>) -> Vec<Option<Vec<T>>> {
    (0..list.offsets.len() - 1)
        .map(|i| match &list.validity {
            Some(validity) if !validity[i] => None,
            _ => {
                let (start, end) = (list.offsets[i] as usize, list.offsets[i + 1] as usize);
                Some(list.elements[start..end].to_vec())
            }
        })
        .collect()
}

#[test]
fn first_chunk_without_rows() {
    let c1: ListChunk<i32> = list(vec![], vec![0]);
    let c2 = list(vec![7i32], vec![0, 1]);
    let written = write(&i32_lists(Nullability::NonNullable), vec![c1, c2]);
    assert_eq!(written.offsets, [0, 1]);
    assert_eq!(written.layout.row_count(), 1);
    assert_eq!(rows(&read(&written, 0, 1, &[true]).unwrap()), [Some(vec![7])]);
}

#[test]
fn leading_and_trailing_elements_are_not_written() {
    // [[3, 4], []] with unused elements around
    let chunk = list(vec![1i32, 2, 3, 4, 5], vec![2, 4, 4]);
    let written = write(&i32_lists(Nullability::NonNullable), vec![chunk]);
    assert_eq!(written.elements, [3, 4]);
    assert_eq!(written.offsets, [0, 2, 2]);
}

#[test]
fn elements_of_null_rows_of_a_list_are_written() {
    // [[1], NULL] with an element behind the null row
    let chunk = ListChunk::List {
        elements: vec![1i32, 9],
        offsets: vec![0, 1, 2],
        validity: Some(vec![true, false]),
    };
    let written = write(&i32_lists(Nullability::Nullable), vec![chunk]);
    assert_eq!(written.elements, [1, 9]);
    assert_eq!(written.offsets, [0, 1, 2]);
    assert_eq!(written.validity, [true, false]);
}

#[test]
fn list_views_are_written_in_row_order() {
    // [[3, 4], NULL, [1, 2, 3], []]: out of order, overlapping, with a null row that has a size
    let chunk = ListChunk::ListView {
        elements: vec![1i32, 2, 3, 4, 5],
        offsets: vec![2, 0, 0, 5],
        sizes: vec![2, 5, 3, 0],
        validity: Some(vec![true, false, true, true]),
    };
    let after = ListChunk::ListView {
        elements: vec![8i32, 9],
        offsets: vec![1],
        sizes: vec![1],
        validity: None,
    };
    let written = write(&i32_lists(Nullability::Nullable), vec![chunk, after]);
    assert_eq!(written.elements, [3, 4, 1, 2, 3, 9]);
    assert_eq!(written.offsets, [0, 2, 2, 5, 5, 6]);
    assert_eq!(written.validity, [true, false, true, true, true]);
    assert_eq!(written.layout.row_count(), 5);
    assert_eq!(
        rows(&read(&written, 0, 5, &[true; 5]).unwrap()),
        [Some(vec![3, 4]), None, Some(vec![1, 2, 3]), Some(vec![]), Some(vec![9])]
    );
}

#[test]
fn list_view_without_rows_writes_its_elements() {
    let c1 = list(vec![1i32], vec![0, 1]);
    let c2 = ListChunk::ListView {
        elements: vec![5i32, 6],
        offsets: vec![],
        sizes: vec![],
        validity: None,
    };
    let c3 = list(vec![2i32, 3], vec![0, 1, 2]);
    let written = write(&i32_lists(Nullability::NonNullable), vec![c1, c2, c3]);
    assert_eq!(written.elements, [1, 5, 6, 2, 3]);
    assert_eq!(written.offsets, [0, 1, 4, 5]);
    assert_eq!(written.layout.row_count(), 3);

    // The row that comes next takes the elements up, the others are read as they were written.
    let read_back = read(&written, 0, 3, &[true, true, true]).unwrap();
    assert_eq!(
        rows(&read_back),
        [Some(vec![1]), Some(vec![5, 6, 2]), Some(vec![3])]
    );
    let read_back = read(&written, 0, 3, &[true, false, true]).unwrap();
    assert_eq!(rows(&read_back), [Some(vec![1]), Some(vec![3])]);
}

#[test]
fn elements_of_a_list_view_without_rows_may_lie_under_a_null_row() {
    let c1 = ListChunk::ListView {
        elements: vec![5i32, 6],
        offsets: vec![],
        sizes: vec![],
        validity: Some(vec![]),
    };
    let c2 = ListChunk::List {
        elements: vec![1i32],
        offsets: vec![0, 0, 1],
        validity: Some(vec![false, true]),
    };
    let written = write(&i32_lists(Nullability::Nullable), vec![c1, c2]);
    assert_eq!(written.elements, [5, 6, 1]);
    assert_eq!(written.offsets, [0, 2, 3]);
    let read_back = read(&written, 0, 2, &[true, true]).unwrap();
    assert_eq!(rows(&read_back), [None, Some(vec![1])]);
}

#[test]
fn views_in_order_are_cut_by_offsets() {
    let chunk = |offsets: Vec<i64>, sizes: Vec<i64>, in_order: bool| {
        ListChunk::from_views(vec![1i32, 2, 3], offsets, sizes, None, in_order)
    };
    assert!(matches!(
        chunk(vec![0, 1], vec![1, 2], true),
        Some(ListChunk::List { offsets, .. }) if offsets == [0, 1, 3]
    ));
    assert!(matches!(
        chunk(vec![2, 0], vec![1, 2], false),
        Some(ListChunk::ListView { offsets, sizes, .. }) if offsets == [2, 0] && sizes == [1, 2]
    ));
    assert!(matches!(
        chunk(vec![], vec![], true),
        Some(ListChunk::ListView { elements, .. }) if elements == [1, 2, 3]
    ));
    assert!(chunk(vec![2, 0], vec![1, 2], true).is_none());
    assert!(chunk(vec![2], vec![2], false).is_none());
    assert!(chunk(vec![0], vec![], false).is_none());
}

#[test]
fn part_of_the_rows_is_read() {
    // [[1], [2, 3], [], [4, 5, 6]] in two chunks
    let c1 = list(vec![1i32, 2, 3], vec![0, 1, 3]);
    let c2 = list(vec![4i32, 5, 6], vec![0, 0, 3]);
    let written = write(&i32_lists(Nullability::NonNullable), vec![c1, c2]);
    let result = read(&written, 1, 4, &[true; 3]).unwrap();
    assert_eq!(result.elements, [2, 3, 4, 5, 6]);
    assert_eq!(result.offsets, [0, 2, 2, 5]);
    let result = read(&written, 1, 4, &[false, true, true]).unwrap();
    assert_eq!(rows(&result), [Some(vec![]), Some(vec![4, 5, 6])]);
    assert_eq!(result.offsets, [0, 0, 3]);
    let result = read(&written, 2, 2, &[]).unwrap();
    assert_eq!(result.elements, [0i32; 0]);
    assert_eq!(result.offsets, [0]);
    let result = read(&written, 0, 4, &[false; 4]).unwrap();
    assert_eq!(result.offsets, [0]);
}

#[test]
fn null_rows_are_selected_like_others() {
    let chunk = ListChunk::List {
        elements: vec![1i32, 2, 3],
        offsets: vec![0, 1, 1, 3],
        validity: Some(vec![true, false, true]),
    };
    let written = write(&i32_lists(Nullability::Nullable), vec![chunk]);
    let result = read(&written, 0, 3, &[false, true, true]).unwrap();
    assert_eq!(rows(&result), [None, Some(vec![2, 3])]);
    assert_eq!(result.validity, Some(vec![false, true]));
    // The rows are all null.
    let result = read(&written, 1, 2, &[true]).unwrap();
    assert_eq!(rows(&result), [None]);
    let all_null = ListChunk::List {
        elements: vec![4i32],
        offsets: vec![0, 1, 1],
        validity: Some(vec![false, false]),
    };
    let written = write(&i32_lists(Nullability::Nullable), vec![all_null]);
    let result = read(&written, 0, 2, &[true, false]).unwrap();
    assert_eq!(rows(&result), [None]);
    assert_eq!(result.validity, Some(vec![false]));
}

#[test]
fn rows_without_validity_are_valid() {
    // A chunk that says nothing of nulls, in a column that may have them.
    let chunk = list(vec![1i32], vec![0, 1, 1]);
    let written = write(&i32_lists(Nullability::Nullable), vec![chunk]);
    assert_eq!(written.validity, [true, true]);
    assert_eq!(written.layout.row_count(), 2);
}

#[test]
fn chunks_make_no_difference() {
    // [[1], [], [2, 3]]
    let one = vec![list(vec![1i32, 2, 3], vec![0, 1, 1, 3])];
    let three = vec![
        list(vec![1i32], vec![0, 1]),
        list(vec![], vec![0, 0]),
        list(vec![2i32, 3], vec![0, 2]),
    ];
    let dtype = i32_lists(Nullability::NonNullable);
    let one = write(&dtype, one);
    let three = write(&dtype, three);
    assert_eq!(one.offsets, three.offsets);
    assert_eq!(one.elements, three.elements);
    for mask in [[true, true, true], [true, false, true], [false, false, false]] {
        assert_eq!(
            rows(&read(&one, 0, 3, &mask).unwrap()),
            rows(&read(&three, 0, 3, &mask).unwrap())
        );
    }
}

#[test]
fn an_offset_before_the_first_is_an_error() {
    let res = assemble(&vec![3u64, 2, 4], vec![1i32], None, &vec![true, true]);
    assert_eq!(res.err(), Some(ListError::OffsetUnderflow));
}

#[test]
fn parts_that_do_not_fit_are_an_error() {
    // too few elements
    let res = assemble(&vec![0u64, 2], vec![1i32], None, &vec![true]);
    assert_eq!(res.err(), Some(ListError::InvalidList));
    // offsets out of order
    let res = assemble(&vec![0u64, 2, 1], vec![1i32, 2], None, &vec![true, true]);
    assert_eq!(res.err(), Some(ListError::InvalidList));
    // too short a validity, though all of it is true
    let res = assemble(&vec![0u64, 1, 2], vec![1i32, 2], Some(vec![true]), &vec![true, true]);
    assert_eq!(res.err(), Some(ListError::InvalidList));
}

#[test]
fn a_mask_of_another_length_is_an_error() {
    let res = assemble(&vec![0u64, 1, 2], vec![1i32, 2], None, &vec![false]);
    assert_eq!(res.err(), Some(ListError::MaskLength { actual: 1, expected: 2 }));
    // unless it leaves no row out
    let res = assemble(&vec![4u64, 5, 6], vec![1i32, 2], None, &vec![true]).unwrap();
    assert_eq!(res.offsets, [0, 1, 2]);
}

#[test]
fn a_failed_stream_ends_every_child() {
    let strategy = ListLayoutStrategy::new(Arc::new(Flat), Arc::new(Flat), Arc::new(Flat));
    let mut stream = strategy.write_stream(&i32_lists(Nullability::Nullable));
    match stream.step::<i32>(ChunkEvent::Failed) {
        WriteAction::Abort { children, error } => {
            assert_eq!(children, [ChildRole::Validity, ChildRole::Offsets, ChildRole::Elements]);
            assert_eq!(error, ListError::Stream);
        }
        WriteAction::Send(_) => panic!("nothing to send"),
    }
    assert!(stream.is_ended());
    let mut stream = strategy.write_stream(&i32_lists(Nullability::NonNullable));
    let chunk = list(vec![1i32], vec![0, 1]);
    assert!(matches!(stream.step(ChunkEvent::Chunk(chunk)), WriteAction::Send(_)));
    assert!(!stream.is_ended());
    match stream.step::<i32>(ChunkEvent::Failed) {
        WriteAction::Abort { children, .. } => {
            assert_eq!(children, [ChildRole::Offsets, ChildRole::Elements]);
        }
        WriteAction::Send(_) => panic!("nothing to send"),
    }
}

#[test]
fn chunks_are_tested_for_whether_they_fit_together() {
    let fits = |offsets: Vec<i64>, validity: Option<Vec<bool>>| {
        ListChunk::List { elements: vec![1, 2, 3], offsets, validity }.is_wf()
    };
    assert!(fits(vec![0], None));
    assert!(fits(vec![1, 1, 3], Some(vec![true, false])));
    assert!(!fits(vec![], None));
    assert!(!fits(vec![], Some(vec![])));
    assert!(!fits(vec![-1, 2], None));
    assert!(!fits(vec![0, 2, 1], None));
    assert!(!fits(vec![0, 4], None));
    assert!(!fits(vec![0, 3], Some(vec![true, true])));

    let fits = |offsets: Vec<i64>, sizes: Vec<i64>, validity: Option<Vec<bool>>| {
        ListChunk::ListView { elements: vec![1, 2, 3], offsets, sizes, validity }.is_wf()
    };
    assert!(fits(vec![], vec![], None));
    assert!(fits(vec![2, 0], vec![1, 3], Some(vec![true, false])));
    assert!(!fits(vec![0, 1], vec![3], None));
    assert!(!fits(vec![-1], vec![1], None));
    assert!(!fits(vec![1], vec![-1], None));
    assert!(!fits(vec![1], vec![3], None));
    assert!(!fits(vec![i64::MAX], vec![i64::MAX], None));
    assert!(!fits(vec![0], vec![3], Some(vec![])));
}

#[test]
fn elements_under_null_rows_are_filtered_with_the_rows() {
    let list = |validity: Vec<bool>| ListArray {
        elements: vec![1, 2, 3, 4],
        offsets: vec![0, 1, 3, 4],
        validity: Some(validity),
    };
    let filtered =
        |list: ListArray<i32>, mask: Vec<bool>| filter_list(&list, &mask).ok().unwrap();

    let some_null = filtered(list(vec![true, false, true]), vec![false, true, true]);
    assert_eq!(some_null.elements, [2, 3, 4]);
    assert_eq!(some_null.offsets, [0, 2, 3]);
    assert_eq!(some_null.validity, Some(vec![false, true]));

    let null_only = filtered(list(vec![true, false, true]), vec![false, true, false]);
    assert_eq!(null_only.elements, [2, 3]);
    assert_eq!(null_only.offsets, [0, 2]);

    let all_null = filtered(list(vec![false; 3]), vec![false, true, true]);
    assert_eq!(all_null.elements, []);
    assert_eq!(all_null.offsets, [0, 0, 0]);
    assert_eq!(all_null.validity, Some(vec![false, false]));

    let all_null_and_kept = filtered(list(vec![false; 3]), vec![true; 3]);
    assert_eq!(all_null_and_kept.elements, [1, 2, 3, 4]);
    assert_eq!(all_null_and_kept.offsets, [0, 1, 3, 4]);

    let none_kept = filtered(list(vec![false; 3]), vec![false; 3]);
    assert_eq!(none_kept.elements, []);
    assert_eq!(none_kept.offsets, [0]);
    assert_eq!(none_kept.validity, Some(vec![]));
}
