use query_core::datavalues::block::DataBlock;
use query_core::datavalues::column::Column;
use query_core::datavalues::column::DataField;
use query_core::datavalues::data_type::DataType;
use query_core::datavalues::data_value::DataValue;
use query_core::datavalues::number_serializer::NumberSerializer;
use query_core::error::ErrorKind;
use query_core::hash_join::desc::EvalNode;
use query_core::hash_join::hash_method::build_keys;
use query_core::hash_join::hash_method::choose_hash_method_with_types;
use query_core::hash_join::keys::HashMethodKind;
use query_core::hash_join::table::HashTable;
use query_core::hash_join::table::RowPtr;

fn nullable(t: DataType) -> DataType {
    DataType::Nullable(Box::new(t))
}

fn column(data_type: DataType, values: Vec<DataValue>) -> Column {
    Column::try_create(data_type, values).unwrap()
}

#[test]
fn the_hash_method_is_the_least_width_that_holds_the_keys() {
    let choose = |types: Vec<DataType>| choose_hash_method_with_types(&types);
    assert_eq!(choose(vec![DataType::Int8]), HashMethodKind::KeysU8);
    assert_eq!(choose(vec![DataType::UInt16]), HashMethodKind::KeysU16);
    assert_eq!(choose(vec![nullable(DataType::Int8)]), HashMethodKind::KeysU16);
    assert_eq!(
        choose(vec![DataType::Int8, DataType::UInt16]),
        HashMethodKind::KeysU32
    );
    assert_eq!(choose(vec![DataType::Int32]), HashMethodKind::KeysU32);
    assert_eq!(choose(vec![DataType::Int64]), HashMethodKind::KeysU64);
    assert_eq!(
        choose(vec![nullable(DataType::Int64)]),
        HashMethodKind::KeysU128
    );
    assert_eq!(
        choose(vec![DataType::Int64, DataType::Int64]),
        HashMethodKind::KeysU128
    );
    assert_eq!(
        choose(vec![DataType::Int64, DataType::Int64, DataType::Int8]),
        HashMethodKind::KeysU256
    );
    assert_eq!(choose(vec![DataType::Int64; 4]), HashMethodKind::KeysU256);
    assert_eq!(choose(vec![DataType::Int64; 5]), HashMethodKind::KeysU512);
    assert_eq!(choose(vec![DataType::Int64; 8]), HashMethodKind::KeysU512);
    assert_eq!(choose(vec![DataType::Int64; 9]), HashMethodKind::Serializer);
    assert_eq!(choose(vec![DataType::String]), HashMethodKind::Serializer);
    assert_eq!(
        choose(vec![DataType::Int8, DataType::Boolean]),
        HashMethodKind::Serializer
    );
    assert_eq!(choose(vec![]), HashMethodKind::Serializer);
}

#[test]
fn fixed_width_keys() {
    let a = column(
        DataType::Int16,
        vec![DataValue::Int64(1), DataValue::Int64(-2), DataValue::Int64(258)],
    );
    let b = column(
        nullable(DataType::UInt8),
        vec![DataValue::UInt64(255), DataValue::Null, DataValue::UInt64(0)],
    );
    let keys = build_keys(HashMethodKind::KeysU32, &vec![a, b], 3).unwrap();
    assert_eq!(
        keys,
        vec![
            vec![1, 0, 0, 255],
            vec![0xfe, 0xff, 1, 0],
            vec![2, 1, 0, 0],
        ]
    );
    let wide = column(DataType::Int64, vec![DataValue::Int64(-1)]);
    assert_eq!(
        build_keys(HashMethodKind::KeysU128, &vec![wide.clone()], 1).unwrap(),
        vec![vec![
            255, 255, 255, 255, 255, 255, 255, 255, 0, 0, 0, 0, 0, 0, 0, 0
        ]]
    );
    // The keys do not fit 32 bits.
    assert_eq!(
        build_keys(HashMethodKind::KeysU32, &vec![wide.clone()], 1)
            .unwrap_err()
            .kind,
        ErrorKind::LogicalError
    );
    // The column does not hold two rows.
    assert_eq!(
        build_keys(HashMethodKind::KeysU64, &vec![wide], 2)
            .unwrap_err()
            .kind,
        ErrorKind::LogicalError
    );
}

#[test]
fn serialized_keys() {
    let a = column(
        nullable(DataType::String),
        vec![
            DataValue::String(b"ab".to_vec()),
            DataValue::Null,
            DataValue::String(vec![]),
        ],
    );
    let b = column(
        DataType::Boolean,
        vec![
            DataValue::Boolean(true),
            DataValue::Boolean(false),
            DataValue::Boolean(true),
        ],
    );
    let c = column(
        DataType::UInt16,
        vec![
            DataValue::UInt64(513),
            DataValue::UInt64(0),
            DataValue::UInt64(7),
        ],
    );
    let keys = build_keys(HashMethodKind::Serializer, &vec![a, b, c], 3).unwrap();
    assert_eq!(
        keys,
        vec![
            vec![0, 2, 0, 0, 0, 0, 0, 0, 0, 97, 98, 1, 1, 2],
            vec![1, 0, 0, 0],
            vec![0, 0, 0, 0, 0, 0, 0, 0, 0, 1, 7, 0],
        ]
    );
}

fn wide(width: usize, first: u8) -> Vec<u8> {
    let mut key = vec![0; width];
    if width > 0 {
        key[0] = first;
        key[width - 1] = key[width - 1].wrapping_add(first);
    }
    key
}

#[test]
fn the_table_keeps_the_rows_of_a_key_in_their_order() {
    let ptr = |chunk_index: u32, row_index: u32| RowPtr {
        chunk_index,
        row_index,
    };
    for (kind, width) in [
        (HashMethodKind::KeysU8, 1),
        (HashMethodKind::KeysU16, 2),
        (HashMethodKind::KeysU32, 4),
        (HashMethodKind::KeysU64, 8),
        (HashMethodKind::KeysU128, 16),
        (HashMethodKind::KeysU256, 32),
        (HashMethodKind::KeysU512, 64),
        (HashMethodKind::Serializer, 3),
    ] {
        let mut table = HashTable::create(kind);
        assert_eq!(table.method(), kind);
        assert_eq!(table.find(&wide(width, 1)), None);
        table.insert(wide(width, 1), ptr(0, 0));
        table.insert(wide(width, 2), ptr(0, 1));
        table.insert(wide(width, 1), ptr(1, 0));
        table.insert(wide(width, 0), ptr(2, 5));
        table.insert(wide(width, 1), ptr(1, 4));
        assert_eq!(
            table.find(&wide(width, 1)),
            Some(&vec![ptr(0, 0), ptr(1, 0), ptr(1, 4)])
        );
        assert_eq!(table.find(&wide(width, 2)), Some(&vec![ptr(0, 1)]));
        assert_eq!(table.find(&wide(width, 0)), Some(&vec![ptr(2, 5)]));
        assert_eq!(table.find(&wide(width, 3)), None);
        assert_eq!(table.find(&wide(width + 1, 1)), None);
    }
}

#[test]
fn keys_of_another_width_are_not_taken() {
    let ptr = RowPtr {
        chunk_index: 0,
        row_index: 0,
    };
    let mut table = HashTable::create(HashMethodKind::KeysU16);
    table.insert(vec![1], ptr);
    table.insert(vec![1, 0, 0], ptr);
    assert_eq!(table.find(&vec![1]), None);
    assert_eq!(table.find(&vec![1, 0]), None);
    assert_eq!(table.find(&vec![1, 0, 0]), None);
    // Serialized keys have any length.
    let mut table = HashTable::create(HashMethodKind::Serializer);
    table.insert(vec![], ptr);
    table.insert(vec![1, 0, 0], ptr);
    assert_eq!(table.find(&vec![]), Some(&vec![ptr]));
    assert_eq!(table.find(&vec![1, 0, 0]), Some(&vec![ptr]));
    assert_eq!(table.find(&vec![1, 0]), None);
}

#[test]
fn the_bytes_of_a_key_are_a_number_with_the_first_byte_least() {
    let ptr = |row_index: u32| RowPtr {
        chunk_index: 0,
        row_index,
    };
    let mut table = HashTable::create(HashMethodKind::KeysU32);
    table.insert(vec![1, 0, 0, 0], ptr(1));
    table.insert(vec![0, 1, 0, 0], ptr(2));
    table.insert(vec![0, 0, 0, 1], ptr(3));
    table.insert(vec![255, 255, 255, 255], ptr(4));
    assert_eq!(table.find(&vec![1, 0, 0, 0]), Some(&vec![ptr(1)]));
    assert_eq!(table.find(&vec![0, 1, 0, 0]), Some(&vec![ptr(2)]));
    assert_eq!(table.find(&vec![0, 0, 0, 1]), Some(&vec![ptr(3)]));
    assert_eq!(table.find(&vec![255, 255, 255, 255]), Some(&vec![ptr(4)]));
    assert_eq!(table.find(&vec![0, 0, 1, 0]), None);
}

#[test]
fn many_keys_in_one_table() {
    let mut table = HashTable::create(HashMethodKind::KeysU16);
    for i in 0..2000u32 {
        let key = vec![(i % 500 % 256) as u8, (i % 500 / 256) as u8];
        table.insert(
            key,
            RowPtr {
                chunk_index: 0,
                row_index: i,
            },
        );
    }
    for k in 0..500u32 {
        let key = vec![(k % 256) as u8, (k / 256) as u8];
        let rows: Vec<u32> = table
            .find(&key)
            .unwrap()
            .iter()
            .map(|p| p.row_index)
            .collect();
        assert_eq!(rows, vec![k, k + 500, k + 1000, k + 1500]);
    }
}

#[test]
fn columns_hold_values_of_their_type() {
    assert!(Column::try_create(DataType::Int8, vec![DataValue::Int64(127)]).is_ok());
    assert_eq!(
        Column::try_create(DataType::Int8, vec![DataValue::Int64(128)])
            .unwrap_err()
            .kind,
        ErrorKind::BadDataValueType
    );
    assert!(Column::try_create(DataType::Int8, vec![DataValue::Int64(-128)]).is_ok());
    assert!(Column::try_create(DataType::Int8, vec![DataValue::Int64(-129)]).is_err());
    assert!(Column::try_create(DataType::UInt8, vec![DataValue::UInt64(255)]).is_ok());
    assert!(Column::try_create(DataType::UInt8, vec![DataValue::UInt64(256)]).is_err());
    assert!(Column::try_create(DataType::UInt8, vec![DataValue::Int64(1)]).is_err());
    assert!(Column::try_create(DataType::Int32, vec![DataValue::Null]).is_err());
    assert!(Column::try_create(nullable(DataType::Int32), vec![DataValue::Null]).is_ok());
    assert!(Column::try_create(DataType::Null, vec![DataValue::Null]).is_ok());
    assert!(Column::try_create(DataType::Null, vec![DataValue::Boolean(true)]).is_err());
    assert!(Column::try_create(DataType::String, vec![DataValue::String(vec![0])]).is_ok());
    assert!(Column::try_create(DataType::Boolean, vec![DataValue::String(vec![0])]).is_err());
}

fn two_columns() -> DataBlock {
    DataBlock::create(
        vec![
            DataField::new("x", DataType::Int64),
            DataField::new("y", DataType::Boolean),
        ],
        vec![
            column(
                DataType::Int64,
                vec![DataValue::Int64(10), DataValue::Int64(20), DataValue::Int64(30)],
            ),
            column(
                DataType::Boolean,
                vec![
                    DataValue::Boolean(true),
                    DataValue::Boolean(false),
                    DataValue::Boolean(true),
                ],
            ),
        ],
    )
    .unwrap()
}

#[test]
fn blocks() {
    let block = two_columns();
    assert_eq!(block.num_rows(), 3);
    assert_eq!(block.num_columns(), 2);
    assert_eq!(block.index_of("y"), Some(1));
    assert_eq!(block.index_of("z"), None);
    assert_eq!(DataBlock::empty().num_rows(), 0);
    // Columns of different lengths make no block.
    assert_eq!(
        DataBlock::create(
            vec![
                DataField::new("x", DataType::Int64),
                DataField::new("y", DataType::Int64)
            ],
            vec![
                column(DataType::Int64, vec![DataValue::Int64(1)]),
                column(DataType::Int64, vec![]),
            ],
        )
        .unwrap_err()
        .kind,
        ErrorKind::LogicalError
    );
    // Neither does a column of another type than its field.
    assert!(DataBlock::create(
        vec![DataField::new("x", DataType::Int64)],
        vec![column(DataType::Int32, vec![])],
    )
    .is_err());
    let taken = DataBlock::block_take_by_indices(&block, &vec![2, 0, 2]).unwrap();
    assert_eq!(taken.column(0).get(0), &DataValue::Int64(30));
    assert_eq!(taken.column(0).get(1), &DataValue::Int64(10));
    assert_eq!(taken.column(1).get(2), &DataValue::Boolean(true));
    assert_eq!(taken.num_rows(), 3);
    assert_eq!(
        DataBlock::block_take_by_indices(&block, &vec![3])
            .unwrap_err()
            .kind,
        ErrorKind::LogicalError
    );
    let longer = block.clone().append_block(&block).unwrap();
    assert_eq!(longer.num_rows(), 6);
    assert_eq!(longer.column(0).get(4), &DataValue::Int64(20));
    let wider = block
        .clone()
        .add_column(
            column(
                DataType::UInt8,
                vec![DataValue::UInt64(1), DataValue::UInt64(2), DataValue::UInt64(3)],
            ),
            DataField::new("z", DataType::UInt8),
        )
        .unwrap();
    assert_eq!(wider.num_columns(), 3);
    assert!(block
        .clone()
        .add_column(
            column(DataType::UInt8, vec![DataValue::UInt64(1)]),
            DataField::new("z", DataType::UInt8),
        )
        .is_err());
    let nullable_fields = vec![
        DataField::new_nullable("x", DataType::Int64),
        DataField::new("y", DataType::Boolean),
    ];
    let retyped = block.with_fields(&nullable_fields).unwrap();
    assert_eq!(retyped.column(0).data_type(), &nullable(DataType::Int64));
    assert_eq!(retyped.column(0).get(1), &DataValue::Int64(20));
    assert!(block
        .with_fields(&vec![DataField::new("x", DataType::Int64)])
        .is_err());
}

#[test]
fn evaluating_expressions() {
    let block = two_columns();
    let variable = EvalNode::Variable {
        id: "y".to_string(),
    };
    assert_eq!(&variable.eval(&block).unwrap(), block.column(1));
    let constant = EvalNode::Constant {
        value: DataValue::UInt64(7),
        data_type: DataType::UInt8,
    };
    let column = constant.eval(&block).unwrap();
    assert_eq!(column.len(), 3);
    assert_eq!(column.get(2), &DataValue::UInt64(7));
    assert_eq!(
        EvalNode::Variable {
            id: "z".to_string()
        }
        .eval(&block)
        .unwrap_err()
        .kind,
        ErrorKind::EvaluationError
    );
    assert_eq!(
        EvalNode::Constant {
            value: DataValue::UInt64(700),
            data_type: DataType::UInt8
        }
        .eval(&block)
        .unwrap_err()
        .kind,
        ErrorKind::EvaluationError
    );
}

#[test]
fn numbers_as_text_and_as_json() {
    let serializer: NumberSerializer<i64> = NumberSerializer::default();
    assert_eq!(
        serializer.serialize_value(&DataValue::Int64(-45)).unwrap(),
        "-45"
    );
    assert_eq!(
        serializer
            .serialize_value(&DataValue::Int64(i64::MIN))
            .unwrap(),
        "-9223372036854775808"
    );
    assert_eq!(
        serializer
            .serialize_value(&DataValue::UInt64(u64::MAX))
            .unwrap(),
        "18446744073709551615"
    );
    assert_eq!(
        serializer
            .serialize_value(&DataValue::Boolean(true))
            .unwrap_err()
            .kind,
        ErrorKind::BadDataValueType
    );
    let numbers = column(
        DataType::Int64,
        vec![DataValue::Int64(0), DataValue::Int64(-7), DataValue::Int64(1200)],
    );
    assert_eq!(
        serializer.serialize_column(&numbers).unwrap(),
        vec!["0", "-7", "1200"]
    );
    assert_eq!(
        serializer.serialize_json(&numbers).unwrap(),
        vec![
            serde_json::Value::from(0i64),
            serde_json::Value::from(-7i64),
            serde_json::Value::from(1200i64)
        ]
    );
    let small: NumberSerializer<u8> = NumberSerializer::default();
    assert_eq!(
        small.serialize_column(&numbers).unwrap_err().kind,
        ErrorKind::BadDataValueType
    );
    assert_eq!(
        small.serialize_json(&numbers).unwrap_err().kind,
        ErrorKind::BadDataValueType
    );
    let bytes = column(DataType::UInt8, vec![DataValue::UInt64(255)]);
    assert_eq!(small.serialize_column(&bytes).unwrap(), vec!["255"]);
    assert_eq!(
        small.serialize_json(&bytes).unwrap(),
        vec![serde_json::Value::from(255u64)]
    );
}

#[test]
fn wide_keys_are_the_bytes_of_a_wide_number() {
    let values = [3i64, -1, 1 << 40];
    let columns: Vec<Column> = values
        .iter()
        .map(|v| column(DataType::Int64, vec![DataValue::Int64(*v)]))
        .collect();
    let keys = build_keys(HashMethodKind::KeysU256, &columns, 1).unwrap();
    assert_eq!(keys[0].len(), 32);
    let number = primitive_types::U256::from_little_endian(&keys[0]);
    let expected = primitive_types::U256::from(3u64)
        + (primitive_types::U256::from(u64::MAX) << 64)
        + (primitive_types::U256::from(1u64 << 40) << 128);
    assert_eq!(number, expected);
    let keys = build_keys(HashMethodKind::KeysU512, &columns, 1).unwrap();
    assert_eq!(keys[0].len(), 64);
    assert_eq!(
        primitive_types::U512::from_little_endian(&keys[0]),
        primitive_types::U512::from(expected)
    );
}
