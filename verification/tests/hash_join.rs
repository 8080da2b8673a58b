use query_core::datavalues::block::DataBlock;
use query_core::datavalues::column::Column;
use query_core::datavalues::column::DataField;
use query_core::datavalues::data_type::DataType;
use query_core::datavalues::data_value::DataValue;
use query_core::error::ErrorKind;
use query_core::hash_join::desc::EvalNode;
use query_core::hash_join::desc::HashJoinDesc;
use query_core::hash_join::desc::PhysicalScalar;
use query_core::hash_join::desc::ProbeState;
use query_core::hash_join::join_hash_table::JoinHashTable;
use query_core::hash_join::keys::HashMethodKind;
use query_core::hash_join::table::HashTable;
use query_core::planner::plans::JoinType;

fn int_column(values: &[i64]) -> Column {
    Column::try_create(
        DataType::Int64,
        values.iter().map(|v| DataValue::Int64(*v)).collect(),
    )
    .unwrap()
}

fn nullable_int_column(values: &[Option<i64>]) -> Column {
    Column::try_create(
        DataType::Nullable(Box::new(DataType::Int64)),
        values
            .iter()
            .map(|v| match v {
                Some(v) => DataValue::Int64(*v),
                None => DataValue::Null,
            })
            .collect(),
    )
    .unwrap()
}

fn text_column(values: &[&str]) -> Column {
    Column::try_create(
        DataType::String,
        values
            .iter()
            .map(|v| DataValue::String(v.as_bytes().to_vec()))
            .collect(),
    )
    .unwrap()
}

fn build_fields() -> Vec<DataField> {
    vec![
        DataField::new("bk", DataType::Int64),
        DataField::new("v", DataType::String),
    ]
}

fn build_side() -> DataBlock {
    DataBlock::create(
        build_fields(),
        vec![int_column(&[1, 1, 2]), text_column(&["a", "b", "c"])],
    )
    .unwrap()
}

fn probe_side() -> DataBlock {
    DataBlock::create(
        vec![DataField::new("k", DataType::Int64)],
        vec![int_column(&[1, 3])],
    )
    .unwrap()
}

fn key(name: &str, data_type: DataType) -> PhysicalScalar {
    PhysicalScalar::Variable {
        column_id: name.to_string(),
        data_type,
    }
}

fn finished_join(join_type: JoinType) -> JoinHashTable {
    let mut join = JoinHashTable::create_join_state(
        join_type,
        &vec![key("bk", DataType::Int64)],
        &vec![key("k", DataType::Int64)],
        None,
        build_fields(),
        None,
    )
    .unwrap();
    join.attach().unwrap();
    join.build(build_side()).unwrap();
    join.detach().unwrap();
    join
}

fn joined(join_type: JoinType) -> Vec<DataBlock> {
    let join = finished_join(join_type);
    let mut state = ProbeState::create();
    join.probe(&probe_side(), &mut state).unwrap()
}

fn rows(block: &DataBlock) -> Vec<Vec<DataValue>> {
    let mut out = vec![];
    for r in 0..block.num_rows() {
        let mut row = vec![];
        for c in 0..block.num_columns() {
            row.push(block.column(c).get(r).clone());
        }
        out.push(row);
    }
    out
}

fn text(s: &str) -> DataValue {
    DataValue::String(s.as_bytes().to_vec())
}

fn int64(v: i64) -> DataValue {
    DataValue::Int64(v)
}

#[test]
fn inner_join_emits_one_row_for_each_match() {
    let blocks = joined(JoinType::Inner);
    assert_eq!(blocks.len(), 1);
    assert_eq!(
        rows(&blocks[0]),
        vec![
            vec![int64(1), int64(1), text("a")],
            vec![int64(1), int64(1), text("b")],
        ]
    );
    let names: Vec<String> = blocks[0]
        .fields()
        .iter()
        .map(|f| f.name().to_string())
        .collect();
    assert_eq!(names, vec!["k", "bk", "v"]);
}

#[test]
fn left_join_keeps_unmatched_probe_rows_with_nulls() {
    let blocks = joined(JoinType::Left);
    assert_eq!(blocks.len(), 1);
    assert_eq!(
        rows(&blocks[0]),
        vec![
            vec![int64(1), int64(1), text("a")],
            vec![int64(1), int64(1), text("b")],
            vec![int64(3), DataValue::Null, DataValue::Null],
        ]
    );
    assert_eq!(
        blocks[0].field(1).data_type(),
        &DataType::Nullable(Box::new(DataType::Int64))
    );
    assert_eq!(
        blocks[0].field(2).data_type(),
        &DataType::Nullable(Box::new(DataType::String))
    );
}

#[test]
fn semi_join_emits_a_matching_probe_row_once() {
    let blocks = joined(JoinType::Semi);
    assert_eq!(blocks.len(), 1);
    assert_eq!(rows(&blocks[0]), vec![vec![int64(1)]]);
}

#[test]
fn anti_join_emits_the_probe_rows_without_match() {
    let blocks = joined(JoinType::Anti);
    assert_eq!(blocks.len(), 1);
    assert_eq!(rows(&blocks[0]), vec![vec![int64(3)]]);
}

#[test]
fn semi_and_anti_join_split_the_probe_rows() {
    let probe = DataBlock::create(
        vec![DataField::new("k", DataType::Int64)],
        vec![int_column(&[5, 1, 2, 7, 1, 3])],
    )
    .unwrap();
    let mut state = ProbeState::create();
    let semi = finished_join(JoinType::Semi)
        .probe(&probe, &mut state)
        .unwrap();
    let anti = finished_join(JoinType::Anti)
        .probe(&probe, &mut state)
        .unwrap();
    assert_eq!(
        rows(&semi[0]),
        vec![vec![int64(1)], vec![int64(2)], vec![int64(1)]]
    );
    assert_eq!(
        rows(&anti[0]),
        vec![vec![int64(5)], vec![int64(7)], vec![int64(3)]]
    );
    assert_eq!(semi[0].num_rows() + anti[0].num_rows(), probe.num_rows());
}

#[test]
fn semi_join_emits_a_probe_row_once_whatever_the_number_of_matches() {
    // t1.a = [1, 2] is probed against t2.a = [1, 1, 3].
    let mut join = JoinHashTable::create_join_state(
        JoinType::Semi,
        &vec![key("a2", DataType::Int64)],
        &vec![key("a1", DataType::Int64)],
        None,
        vec![DataField::new("a2", DataType::Int64)],
        None,
    )
    .unwrap();
    join.attach().unwrap();
    join.build(
        DataBlock::create(
            vec![DataField::new("a2", DataType::Int64)],
            vec![int_column(&[1, 1, 3])],
        )
        .unwrap(),
    )
    .unwrap();
    join.detach().unwrap();
    let probe = DataBlock::create(
        vec![DataField::new("a1", DataType::Int64)],
        vec![int_column(&[1, 2])],
    )
    .unwrap();
    let mut state = ProbeState::create();
    let blocks = join.probe(&probe, &mut state).unwrap();
    assert_eq!(rows(&blocks[0]), vec![vec![int64(1)]]);
}

fn mark_join(build_values: &[Option<i64>]) -> JoinHashTable {
    let key_type = DataType::Nullable(Box::new(DataType::Int64));
    let mut join = JoinHashTable::create_join_state(
        JoinType::Mark,
        &vec![key("a2", key_type.clone())],
        &vec![key("a1", DataType::Int64)],
        None,
        vec![DataField::new("a2", key_type.clone())],
        Some(7),
    )
    .unwrap();
    join.attach().unwrap();
    if !build_values.is_empty() {
        join.build(
            DataBlock::create(
                vec![DataField::new("a2", key_type)],
                vec![nullable_int_column(build_values)],
            )
            .unwrap(),
        )
        .unwrap();
    }
    join.detach().unwrap();
    join
}

fn markers(join: &JoinHashTable, probe: DataBlock) -> Vec<DataValue> {
    let mut state = ProbeState::create();
    let blocks = join.probe(&probe, &mut state).unwrap();
    assert_eq!(blocks.len(), 1);
    assert_eq!(blocks[0].num_columns(), probe.num_columns() + 1);
    let marker = blocks[0].num_columns() - 1;
    assert_eq!(blocks[0].field(marker).name(), "marker");
    assert_eq!(
        blocks[0].field(marker).data_type(),
        &DataType::Nullable(Box::new(DataType::Boolean))
    );
    rows(&blocks[0])
        .into_iter()
        .map(|row| row[marker].clone())
        .collect()
}

fn probe_ints(values: &[i64]) -> DataBlock {
    DataBlock::create(
        vec![DataField::new("a1", DataType::Int64)],
        vec![int_column(values)],
    )
    .unwrap()
}

#[test]
fn mark_join_is_null_when_the_build_side_holds_a_null() {
    let join = mark_join(&[Some(1), None, Some(2)]);
    assert_eq!(
        markers(&join, probe_ints(&[5, 1])),
        vec![DataValue::Null, DataValue::Boolean(true)]
    );
}

#[test]
fn mark_join_is_false_without_match_and_without_null() {
    let join = mark_join(&[Some(1), Some(2)]);
    assert_eq!(
        markers(&join, probe_ints(&[5, 2])),
        vec![DataValue::Boolean(false), DataValue::Boolean(true)]
    );
}

#[test]
fn mark_join_over_a_single_null_is_always_null() {
    let join = mark_join(&[None]);
    assert_eq!(
        markers(&join, probe_ints(&[0, 5, -3])),
        vec![DataValue::Null, DataValue::Null, DataValue::Null]
    );
    let null_probe = DataBlock::create(
        vec![DataField::new(
            "a1",
            DataType::Nullable(Box::new(DataType::Int64)),
        )],
        vec![nullable_int_column(&[None])],
    )
    .unwrap();
    assert_eq!(markers(&join, null_probe), vec![DataValue::Null]);
}

#[test]
fn mark_join_over_an_empty_build_side_is_false() {
    let join = mark_join(&[]);
    assert_eq!(
        markers(&join, probe_ints(&[5])),
        vec![DataValue::Boolean(false)]
    );
}

#[test]
fn null_keys_match_nothing() {
    let key_type = DataType::Nullable(Box::new(DataType::Int64));
    let mut join = JoinHashTable::create_join_state(
        JoinType::Inner,
        &vec![key("a2", key_type.clone())],
        &vec![key("a1", key_type.clone())],
        None,
        vec![DataField::new("a2", key_type.clone())],
        None,
    )
    .unwrap();
    join.build(
        DataBlock::create(
            vec![DataField::new("a2", key_type.clone())],
            vec![nullable_int_column(&[None, Some(4)])],
        )
        .unwrap(),
    )
    .unwrap();
    join.finish().unwrap();
    let probe = DataBlock::create(
        vec![DataField::new("a1", key_type)],
        vec![nullable_int_column(&[None, Some(4)])],
    )
    .unwrap();
    let mut state = ProbeState::create();
    let blocks = join.probe(&probe, &mut state).unwrap();
    assert_eq!(rows(&blocks[0]), vec![vec![int64(4), int64(4)]]);
}

#[test]
fn duplicate_keys_are_all_emitted() {
    let mut join = JoinHashTable::create_join_state(
        JoinType::Inner,
        &vec![key("bk", DataType::Int64)],
        &vec![key("k", DataType::Int64)],
        None,
        build_fields(),
        None,
    )
    .unwrap();
    // Five rows with the key 9, in two chunks.
    join.build(
        DataBlock::create(
            build_fields(),
            vec![int_column(&[9, 4, 9]), text_column(&["a", "b", "c"])],
        )
        .unwrap(),
    )
    .unwrap();
    join.build(
        DataBlock::create(
            build_fields(),
            vec![int_column(&[9, 9, 8, 9]), text_column(&["d", "e", "f", "g"])],
        )
        .unwrap(),
    )
    .unwrap();
    join.finish().unwrap();
    let probe = DataBlock::create(
        vec![DataField::new("k", DataType::Int64)],
        vec![int_column(&[9])],
    )
    .unwrap();
    let mut state = ProbeState::create();
    let blocks = join.probe(&probe, &mut state).unwrap();
    assert_eq!(
        rows(&blocks[0]),
        vec![
            vec![int64(9), int64(9), text("a")],
            vec![int64(9), int64(9), text("c")],
            vec![int64(9), int64(9), text("d")],
            vec![int64(9), int64(9), text("e")],
            vec![int64(9), int64(9), text("g")],
        ]
    );
}

fn serialized_join(join_type: JoinType) -> JoinHashTable {
    let desc = HashJoinDesc {
        key_types: vec![DataType::Int64],
        build_keys: vec![EvalNode::Variable {
            id: "bk".to_string(),
        }],
        probe_keys: vec![EvalNode::Variable {
            id: "k".to_string(),
        }],
        join_type,
        other_predicate: None,
        marker: vec![],
        marker_index: None,
    };
    let mut join = JoinHashTable::try_create(
        HashTable::create(HashMethodKind::Serializer),
        build_fields(),
        desc,
    )
    .unwrap();
    join.build(build_side()).unwrap();
    join.finish().unwrap();
    join
}

#[test]
fn fixed_width_and_serialized_keys_find_the_same_rows() {
    let probe = DataBlock::create(
        vec![DataField::new("k", DataType::Int64)],
        vec![int_column(&[2, 1, 3, -1, 1])],
    )
    .unwrap();
    for join_type in [
        JoinType::Inner,
        JoinType::Left,
        JoinType::Semi,
        JoinType::Anti,
    ] {
        let mut state = ProbeState::create();
        let fixed = finished_join(join_type).probe(&probe, &mut state).unwrap();
        let serialized = serialized_join(join_type)
            .probe(&probe, &mut state)
            .unwrap();
        assert_eq!(fixed.len(), 1);
        assert_eq!(serialized.len(), 1);
        assert_eq!(rows(&fixed[0]), rows(&serialized[0]));
    }
}

#[test]
fn cross_join_pairs_every_probe_row_with_every_build_row() {
    let mut join = JoinHashTable::create_join_state(
        JoinType::Cross,
        &vec![],
        &vec![],
        None,
        build_fields(),
        None,
    )
    .unwrap();
    join.build(build_side()).unwrap();
    join.build(
        DataBlock::create(
            build_fields(),
            vec![int_column(&[7]), text_column(&["z"])],
        )
        .unwrap(),
    )
    .unwrap();
    join.finish().unwrap();
    let mut state = ProbeState::create();
    let blocks = join.probe(&probe_side(), &mut state).unwrap();
    assert_eq!(blocks.len(), 2);
    assert_eq!(
        rows(&blocks[0]),
        vec![
            vec![int64(1), int64(1), text("a")],
            vec![int64(1), int64(1), text("b")],
            vec![int64(1), int64(2), text("c")],
            vec![int64(1), int64(7), text("z")],
        ]
    );
    assert_eq!(
        rows(&blocks[1]),
        vec![
            vec![int64(3), int64(1), text("a")],
            vec![int64(3), int64(1), text("b")],
            vec![int64(3), int64(2), text("c")],
            vec![int64(3), int64(7), text("z")],
        ]
    );
}

#[test]
fn cross_join_over_an_empty_build_side_gives_empty_blocks() {
    let mut join = JoinHashTable::create_join_state(
        JoinType::Cross,
        &vec![],
        &vec![],
        None,
        build_fields(),
        None,
    )
    .unwrap();
    join.finish().unwrap();
    let mut state = ProbeState::create();
    let blocks = join.probe(&probe_side(), &mut state).unwrap();
    assert_eq!(blocks.len(), 2);
    assert_eq!(blocks[0].num_rows(), 0);
    assert_eq!(blocks[0].num_columns(), 3);
}

#[test]
fn other_predicate_filters_the_matches() {
    let fields = vec![
        DataField::new("bk", DataType::Int64),
        DataField::new("ok", DataType::Boolean),
    ];
    let flags = Column::try_create(
        DataType::Boolean,
        vec![
            DataValue::Boolean(true),
            DataValue::Boolean(false),
            DataValue::Boolean(true),
        ],
    )
    .unwrap();
    let predicate = PhysicalScalar::Variable {
        column_id: "ok".to_string(),
        data_type: DataType::Boolean,
    };
    let mut join = JoinHashTable::create_join_state(
        JoinType::Inner,
        &vec![key("bk", DataType::Int64)],
        &vec![key("k", DataType::Int64)],
        Some(&predicate),
        fields.clone(),
        None,
    )
    .unwrap();
    join.build(DataBlock::create(fields, vec![int_column(&[1, 1, 2]), flags]).unwrap())
        .unwrap();
    join.finish().unwrap();
    let mut state = ProbeState::create();
    let blocks = join.probe(&probe_side(), &mut state).unwrap();
    assert_eq!(
        rows(&blocks[0]),
        vec![vec![int64(1), int64(1), DataValue::Boolean(true)]]
    );
}

#[test]
fn the_last_detach_finishes_the_join_once() {
    let mut join = JoinHashTable::create_join_state(
        JoinType::Inner,
        &vec![key("bk", DataType::Int64)],
        &vec![key("k", DataType::Int64)],
        None,
        build_fields(),
        None,
    )
    .unwrap();
    join.attach().unwrap();
    join.attach().unwrap();
    join.build(build_side()).unwrap();
    join.detach().unwrap();
    assert_eq!(join.is_finished().unwrap(), false);
    join.detach().unwrap();
    assert_eq!(join.is_finished().unwrap(), true);
    // A later holder leaves the finished table as it is.
    join.attach().unwrap();
    join.detach().unwrap();
    assert_eq!(join.is_finished().unwrap(), true);
    let mut state = ProbeState::create();
    let blocks = join.probe(&probe_side(), &mut state).unwrap();
    assert_eq!(blocks[0].num_rows(), 2);
}

#[test]
fn probing_before_the_join_is_finished_finds_nothing() {
    let mut join = JoinHashTable::create_join_state(
        JoinType::Inner,
        &vec![key("bk", DataType::Int64)],
        &vec![key("k", DataType::Int64)],
        None,
        build_fields(),
        None,
    )
    .unwrap();
    join.build(build_side()).unwrap();
    let mut state = ProbeState::create();
    let blocks = join.probe(&probe_side(), &mut state).unwrap();
    assert_eq!(blocks[0].num_rows(), 0);
}

#[test]
fn errors_of_the_join() {
    let mut join = finished_join(JoinType::Inner);
    assert_eq!(
        join.build(build_side()).unwrap_err().kind,
        ErrorKind::LogicalError
    );
    let mut state = ProbeState::create();
    let no_key = DataBlock::create(
        vec![DataField::new("other", DataType::Int64)],
        vec![int_column(&[1])],
    )
    .unwrap();
    assert_eq!(
        join.probe(&no_key, &mut state).unwrap_err().kind,
        ErrorKind::EvaluationError
    );
    let text_key = DataBlock::create(
        vec![DataField::new("k", DataType::String)],
        vec![text_column(&["1"])],
    )
    .unwrap();
    assert_eq!(
        join.probe(&text_key, &mut state).unwrap_err().kind,
        ErrorKind::LogicalError
    );
    let mut fresh = JoinHashTable::create_join_state(
        JoinType::Inner,
        &vec![key("bk", DataType::Int64)],
        &vec![key("k", DataType::Int64)],
        None,
        build_fields(),
        None,
    )
    .unwrap();
    assert_eq!(fresh.detach().unwrap_err().kind, ErrorKind::LogicalError);
    assert_eq!(
        fresh.build(probe_side()).unwrap_err().kind,
        ErrorKind::EvaluationError
    );
    let two_keys = JoinHashTable::create_join_state(
        JoinType::Mark,
        &vec![key("a", DataType::Int64), key("b", DataType::Int64)],
        &vec![key("a", DataType::Int64), key("b", DataType::Int64)],
        None,
        build_fields(),
        Some(1),
    );
    assert_eq!(two_keys.err().unwrap().kind, ErrorKind::LogicalError);
}

#[test]
fn merge_blocks() {
    let join = finished_join(JoinType::Inner);
    let merged = join
        .merge_eq_block(&build_side(), &probe_ints(&[7, 8, 9]))
        .unwrap();
    assert_eq!(
        rows(&merged),
        vec![
            vec![int64(7), int64(1), text("a")],
            vec![int64(8), int64(1), text("b")],
            vec![int64(9), int64(2), text("c")],
        ]
    );
    assert_eq!(
        join.merge_eq_block(&build_side(), &probe_ints(&[7]))
            .unwrap_err()
            .kind,
        ErrorKind::LogicalError
    );
    let constant = join
        .merge_with_constant_block(&build_side(), &probe_ints(&[7]))
        .unwrap();
    assert_eq!(
        rows(&constant),
        vec![
            vec![int64(7), int64(1), text("a")],
            vec![int64(7), int64(1), text("b")],
            vec![int64(7), int64(2), text("c")],
        ]
    );
    assert_eq!(
        join.merge_with_constant_block(&build_side(), &probe_ints(&[7, 8]))
            .unwrap_err()
            .kind,
        ErrorKind::LogicalError
    );
}

#[test]
fn counting_at_most_one_match_agrees_with_the_semi_join() {
    let probe = DataBlock::create(
        vec![DataField::new("k", DataType::Int64)],
        vec![int_column(&[2, 5, 1, 1, 0])],
    )
    .unwrap();
    let mut state = ProbeState::create();
    let inner = finished_join(JoinType::Inner)
        .probe(&probe, &mut state)
        .unwrap();
    let semi = finished_join(JoinType::Semi)
        .probe(&probe, &mut state)
        .unwrap();
    let anti = finished_join(JoinType::Anti)
        .probe(&probe, &mut state)
        .unwrap();
    let matched: Vec<DataValue> = rows(&inner[0]).into_iter().map(|r| r[0].clone()).collect();
    let mut exists = vec![];
    let mut not_exists = vec![];
    for r in 0..probe.num_rows() {
        let key = probe.column(0).get(r).clone();
        let count = matched.iter().filter(|k| **k == key).take(1).count();
        if count == 1 {
            exists.push(vec![key]);
        } else {
            not_exists.push(vec![key]);
        }
    }
    assert_eq!(rows(&semi[0]), exists);
    assert_eq!(rows(&anti[0]), not_exists);
}
