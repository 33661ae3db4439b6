//! List layouts, their children and their readers.

use std::collections::BTreeSet;
use std::sync::Arc;

use vortex_list_layout::children::Layout;
use vortex_list_layout::children::LayoutChildren;
use vortex_list_layout::children::OwnedLayoutChildren;
use vortex_list_layout::dtype::DType;
use vortex_list_layout::dtype::ExtDType;
use vortex_list_layout::dtype::Nullability;
use vortex_list_layout::dtype::PType;
use vortex_list_layout::dtype::StructField;
use vortex_list_layout::error::ListError;
use vortex_list_layout::layout::ChildRole;
use vortex_list_layout::layout::LayoutChildType;
use vortex_list_layout::layout::ListLayout;
use vortex_list_layout::layout::ListLayoutEncoding;
use vortex_list_layout::layout::ListLayoutMetadata;
use vortex_list_layout::layout::ListVTable;
use vortex_list_layout::layout::SegmentId;
use vortex_list_layout::reader::expression_step;
use vortex_list_layout::reader::ChildRead;
use vortex_list_layout::reader::ExpressionStep;
use vortex_list_layout::writer::total_buffered_bytes;
use vortex_list_layout::writer::LayoutStrategy;
use vortex_list_layout::writer::ListLayoutStrategy;

struct Column {
    id: u32,
    row_count: u64,
    dtype: DType,
}

impl Layout for Column {
    fn row_count(&self) -> u64 {
        self.row_count
    }

    fn dtype(&self) -> &DType {
        &self.dtype
    }
}

type Children = OwnedLayoutChildren<Column>;

fn column(id: u32, row_count: u64, dtype: DType) -> Arc<Column> {
    Arc::new(Column { id, row_count, dtype })
}

fn primitive(ptype: PType) -> DType {
    DType::Primitive(ptype, Nullability::NonNullable)
}

fn strings(nullability: Nullability) -> DType {
    DType::List(Arc::new(DType::Utf8(Nullability::Nullable)), nullability)
}

fn nullable_children() -> Vec<Arc<Column>> {
    vec![
        column(10, 2, DType::Bool(Nullability::NonNullable)),
        column(11, 3, primitive(PType::U64)),
        column(12, 7, DType::Utf8(Nullability::Nullable)),
    ]
}

fn plain_children() -> Vec<Arc<Column>> {
    nullable_children().split_off(1)
}

fn nullable_layout() -> ListLayout<Children> {
    ListLayout::new(
        2,
        strings(Nullability::Nullable),
        primitive(PType::U64),
        nullable_children(),
    )
}

fn plain_layout() -> ListLayout<Children> {
    ListLayout::new(
        2,
        strings(Nullability::NonNullable),
        primitive(PType::U64),
        plain_children(),
    )
}

fn id_of(child: Result<Arc<Column>, ListError>) -> Result<u32, ListError> {
    child.map(|column| column.id)
}

#[test]
fn physical_types_have_codes() {
    let codes = [
        (PType::U8, 0),
        (PType::U16, 1),
        (PType::U32, 2),
        (PType::U64, 3),
        (PType::I8, 4),
        (PType::I16, 5),
        (PType::I32, 6),
        (PType::I64, 7),
        (PType::F16, 8),
        (PType::F32, 9),
        (PType::F64, 10),
    ];
    for (ptype, code) in codes {
        assert_eq!(ptype.code(), code);
        assert_eq!(PType::from_code(code), Ok(ptype));
    }
    for code in [-1, 11, i32::MIN, i32::MAX] {
        assert_eq!(PType::from_code(code), Err(ListError::InvalidPType { code }));
    }
}

#[test]
fn nullability_of_types() {
    assert!(DType::Null.is_nullable());
    assert!(!primitive(PType::F32).is_nullable());
    assert!(strings(Nullability::Nullable).is_nullable());
    assert!(!strings(Nullability::NonNullable).is_nullable());
    for (storage, nullable) in [(DType::Null, true), (primitive(PType::I8), false)] {
        let ext = ExtDType { id: "id".to_string(), storage, metadata: None };
        assert_eq!(DType::Extension(Arc::new(ext)).is_nullable(), nullable);
    }
}

#[test]
fn elements_of_list_types() {
    assert!(strings(Nullability::Nullable).as_list_element_opt().is_some());
    let fixed = DType::FixedSizeList(Arc::new(DType::Null), 2, Nullability::Nullable);
    assert!(fixed.as_list_element_opt().is_none());
}

#[test]
fn types_are_compared_by_their_parts() {
    let fields = |name: &str| {
        let field = StructField { name: name.to_string(), dtype: primitive(PType::I32) };
        DType::Struct(Arc::new(vec![field]), Nullability::NonNullable)
    };
    assert!(fields("a").is_same(&fields("a")));
    assert!(!fields("a").is_same(&fields("b")));
    let ext = |metadata: Option<Vec<u8>>| {
        let storage = primitive(PType::I64);
        DType::Extension(Arc::new(ExtDType { id: "time".to_string(), storage, metadata }))
    };
    assert!(ext(Some(vec![1, 2])).is_same(&ext(Some(vec![1, 2]))));
    assert!(!ext(Some(vec![1, 2])).is_same(&ext(Some(vec![1, 3]))));
    assert!(!ext(Some(vec![1, 2])).is_same(&ext(Some(vec![1]))));
    assert!(!ext(Some(vec![])).is_same(&ext(None)));
    assert!(ext(None).is_same(&ext(None)));
    assert!(strings(Nullability::Nullable).is_same(&strings(Nullability::Nullable).clone()));
    assert!(!strings(Nullability::Nullable).is_same(&strings(Nullability::NonNullable)));
    assert!(!primitive(PType::I8).is_same(&primitive(PType::U8)));
    assert!(!DType::Null.is_same(&primitive(PType::U8)));
}

#[test]
fn children_are_found_by_what_they_hold() {
    let layout = nullable_layout();
    assert_eq!(layout.validity().unwrap().unwrap().id, 10);
    assert_eq!(layout.offsets().unwrap().id, 11);
    assert_eq!(layout.elements().unwrap().id, 12);
    assert_eq!(layout.row_count(), 2);
    assert!(layout.offsets_dtype().is_same(&primitive(PType::U64)));

    let layout = plain_layout();
    assert!(layout.validity().unwrap().is_none());
    assert_eq!(layout.offsets().unwrap().id, 11);
    assert_eq!(layout.elements().unwrap().id, 12);
    assert_eq!(layout.children().nchildren(), 2);
}

#[test]
fn children_are_found_by_index() {
    let layout = nullable_layout();
    assert_eq!(ListVTable::nchildren(&layout), 3);
    assert_eq!(id_of(ListVTable::child(&layout, 0)), Ok(10));
    assert_eq!(id_of(ListVTable::child(&layout, 1)), Ok(11));
    assert_eq!(id_of(ListVTable::child(&layout, 2)), Ok(12));
    let out_of_bounds = ListError::ChildOutOfBounds { index: 3 };
    assert_eq!(id_of(ListVTable::child(&layout, 3)), Err(out_of_bounds));

    let layout = plain_layout();
    assert_eq!(ListVTable::nchildren(&layout), 2);
    assert_eq!(id_of(ListVTable::child(&layout, 0)), Ok(11));
    assert_eq!(id_of(ListVTable::child(&layout, 1)), Ok(12));
    let out_of_bounds = ListError::ChildOutOfBounds { index: 2 };
    assert_eq!(id_of(ListVTable::child(&layout, 2)), Err(out_of_bounds));
}

#[test]
fn a_child_of_another_type_is_an_error() {
    let mut children = plain_children();
    children.swap(0, 1);
    let layout: ListLayout<Children> = ListLayout::new(
        2,
        strings(Nullability::NonNullable),
        primitive(PType::U64),
        children,
    );
    assert_eq!(id_of(layout.offsets()), Err(ListError::ChildDType { index: 0 }));
    assert_eq!(id_of(layout.elements()), Err(ListError::ChildDType { index: 1 }));
}

#[test]
fn a_missing_child_is_an_error() {
    let layout: ListLayout<Children> = ListLayout::new(
        2,
        strings(Nullability::Nullable),
        primitive(PType::U64),
        vec![],
    );
    let missing = |index| ListError::ChildOutOfBounds { index };
    assert_eq!(layout.validity().err(), Some(missing(0)));
    assert_eq!(id_of(layout.offsets()), Err(missing(1)));
    assert_eq!(id_of(layout.elements()), Err(missing(2)));
}

#[test]
fn children_have_names() {
    let name = |layout: &ListLayout<Children>, index| match ListVTable::child_type(layout, index) {
        LayoutChildType::Auxiliary(name) => name,
    };
    let layout = nullable_layout();
    let names: Vec<String> = (0..4).map(|i| name(&layout, i)).collect();
    assert_eq!(names, ["validity", "offsets", "elements", "unknown"]);
    let layout = plain_layout();
    let names: Vec<String> = (0..3).map(|i| name(&layout, i)).collect();
    assert_eq!(names, ["offsets", "elements", "unknown"]);
    assert_eq!(ChildRole::at(true, 2), Some(ChildRole::Elements));
    assert_eq!(ChildRole::at(false, 2), None);
}

fn build(
    dtype: &DType,
    offsets_ptype: i32,
    children: Vec<Arc<Column>>,
) -> Result<ListLayout<Children>, ListError> {
    ListVTable::build(
        &ListLayoutEncoding,
        dtype,
        9,
        &ListLayoutMetadata { offsets_ptype },
        vec![SegmentId(1)],
        &Arc::new(Children::layout_children(children)),
    )
}

#[test]
fn stored_layouts_are_opened() {
    let layout = build(&strings(Nullability::Nullable), 3, nullable_children()).ok().unwrap();
    assert_eq!(layout.row_count(), 9);
    assert!(layout.dtype().is_same(&strings(Nullability::Nullable)));
    assert!(layout.offsets_dtype().is_same(&primitive(PType::U64)));
    assert_eq!(layout.offsets().unwrap().id, 11);
    assert_eq!(ListVTable::metadata(&layout), ListLayoutMetadata { offsets_ptype: 3 });
    assert_eq!(ListVTable::segment_ids(&layout), []);
    assert_eq!(ListVTable::row_count(&layout), 9);
    assert!(ListVTable::dtype(&layout).is_same(layout.dtype()));
}

#[test]
fn layouts_that_do_not_fit_are_not_opened() {
    let err = build(&primitive(PType::U8), 99, vec![]).err();
    assert_eq!(err, Some(ListError::ExpectedListDType));
    let fixed = DType::FixedSizeList(Arc::new(DType::Null), 2, Nullability::Nullable);
    let err = build(&fixed, 3, nullable_children()).err();
    assert_eq!(err, Some(ListError::ExpectedListDType));
    let err = build(&strings(Nullability::Nullable), 99, plain_children()).err();
    assert_eq!(err, Some(ListError::ChildCount { actual: 2, expected: 3 }));
    let err = build(&strings(Nullability::NonNullable), 3, nullable_children()).err();
    assert_eq!(err, Some(ListError::ChildCount { actual: 3, expected: 2 }));
    let err = build(&strings(Nullability::NonNullable), 11, plain_children()).err();
    assert_eq!(err, Some(ListError::InvalidPType { code: 11 }));
}

#[test]
fn children_are_replaced() {
    let mut layout = plain_layout();
    let res = ListVTable::with_children(&mut layout, nullable_children());
    assert_eq!(res, Err(ListError::ReplacementCount { actual: 3, expected: 2 }));
    assert_eq!(layout.offsets().unwrap().id, 11);

    let others = vec![
        column(20, 3, primitive(PType::U64)),
        column(21, 7, DType::Utf8(Nullability::Nullable)),
    ];
    assert_eq!(ListVTable::with_children(&mut layout, others), Ok(()));
    assert_eq!(layout.offsets().unwrap().id, 20);
    assert_eq!(layout.elements().unwrap().id, 21);
    assert_eq!(layout.row_count(), 2);
}

#[test]
fn a_list_layout_is_a_layout() {
    let inner = Arc::new(plain_layout());
    assert_eq!(Layout::row_count(&*inner), 2);
    let outer: ListLayout<OwnedLayoutChildren<ListLayout<Children>>> = ListLayout::new(
        1,
        DType::List(Arc::new(strings(Nullability::NonNullable)), Nullability::NonNullable),
        strings(Nullability::NonNullable),
        vec![inner.clone(), inner],
    );
    assert_eq!(outer.elements().ok().unwrap().row_count(), 2);
}

#[test]
fn readers_know_their_children() {
    let reader = ListVTable::new_reader(&nullable_layout(), "column".to_string()).ok().unwrap();
    assert_eq!(reader.name(), "column");
    assert_eq!(reader.row_count(), 2);
    assert_eq!(reader.child_names(), &["validity", "offsets", "elements"]);
    let dtypes = reader.child_dtypes();
    assert!(dtypes[0].is_same(&DType::Bool(Nullability::NonNullable)));
    assert!(dtypes[1].is_same(&primitive(PType::U64)));
    assert!(dtypes[2].is_same(&DType::Utf8(Nullability::Nullable)));

    let reader = ListVTable::new_reader(&plain_layout(), "".to_string()).ok().unwrap();
    assert_eq!(reader.child_names(), &["offsets", "elements"]);
    assert_eq!(reader.child_dtypes().len(), 2);
    assert_eq!(reader.layout().row_count(), 2);
}

#[test]
fn rows_are_split_at_their_end() {
    let reader = ListVTable::new_reader(&plain_layout(), "".to_string()).ok().unwrap();
    let mut splits = BTreeSet::from([5]);
    assert_eq!(reader.register_splits(&(3..8), &mut splits), Ok(()));
    assert_eq!(splits, BTreeSet::from([5, 8]));
}

#[test]
fn masks_are_handed_back() {
    let reader = ListVTable::new_reader(&plain_layout(), "".to_string()).ok().unwrap();
    let mask = vec![true, false];
    assert_eq!(reader.pruning_evaluation(&(0..2), mask.clone()), Ok(mask.clone()));
    assert_eq!(reader.filter_evaluation(&(0..2), mask.clone()), Ok(mask));
}

#[test]
fn projections_are_planned() {
    let reader = ListVTable::new_reader(&nullable_layout(), "".to_string()).ok().unwrap();
    let plan = reader.plan_projection(&(4..6));
    assert_eq!(plan.validity, Some(ChildRead { child: 0, start: 4, end: 6, len: 2 }));
    assert_eq!(plan.offsets, ChildRead { child: 1, start: 4, end: 7, len: 3 });
    assert_eq!(
        plan.elements_read(&vec![10, 12, 15]),
        ChildRead { child: 2, start: 10, end: 15, len: 5 }
    );

    let reader = ListVTable::new_reader(&plain_layout(), "".to_string()).ok().unwrap();
    let plan = reader.plan_projection(&(0..0));
    assert_eq!(plan.validity, None);
    assert_eq!(plan.offsets, ChildRead { child: 0, start: 0, end: 1, len: 1 });
    assert_eq!(plan.elements_child, 1);
}

#[test]
fn expressions_are_evaluated_in_one_of_three_ways() {
    assert_eq!(expression_step(true, true), ExpressionStep::Apply);
    assert_eq!(expression_step(true, false), ExpressionStep::Apply);
    assert_eq!(expression_step(false, true), ExpressionStep::Keep);
    assert_eq!(expression_step(false, false), ExpressionStep::Evaluate);
}

struct Buffering(u64);

impl LayoutStrategy for Buffering {
    fn buffered_bytes(&self) -> u64 {
        self.0
    }
}

#[test]
fn buffered_bytes_are_added_up() {
    let strategy =
        ListLayoutStrategy::new(Arc::new(Buffering(1)), Arc::new(Buffering(20)), Arc::new(Buffering(300)));
    assert_eq!(strategy.buffered_bytes(), Some(321));
    assert_eq!(strategy.clone().buffered_bytes(), Some(321));
    assert_eq!(strategy.offsets().0, 1);
    assert_eq!(strategy.elements().0, 20);
    assert_eq!(strategy.validity().0, 300);
    assert_eq!(strategy.for_child(ChildRole::Offsets).0, 1);
    assert_eq!(strategy.for_child(ChildRole::Elements).0, 20);
    assert_eq!(strategy.for_child(ChildRole::Validity).0, 300);
    assert_eq!(total_buffered_bytes(u64::MAX, 1, 0), None);
    assert_eq!(total_buffered_bytes(u64::MAX, 0, 1), None);
    assert_eq!(total_buffered_bytes(u64::MAX, 0, 0), Some(u64::MAX));
}

#[test]
fn strategies_may_be_of_any_type() {
    let strategy: Arc<dyn LayoutStrategy> = Arc::new(Buffering(2));
    let strategy = ListLayoutStrategy::new(strategy.clone(), strategy.clone(), strategy);
    assert_eq!(strategy.buffered_bytes(), Some(6));
}
