use query_core::datavalues::data_type::merge_types;
use query_core::datavalues::data_type::DataType;
use query_core::datavalues::data_value::DataValue;
use query_core::error::ErrorKind;
use query_core::planner::binder::bind_statement;
use query_core::planner::binder::Binder;
use query_core::planner::binder::CatalogStatement;
use query_core::planner::binder::ExplainKind;
use query_core::planner::binder::Plan;
use query_core::planner::binder::Statement;
use query_core::planner::binder::UserDefinedFunction;
use query_core::planner::column_set::ColumnSet;
use query_core::planner::join_condition::JoinCondition;
use query_core::planner::metadata::Metadata;
use query_core::planner::names::decimal_string;
use query_core::planner::names::subquery_column_name;
use query_core::planner::plan_user_stage_remove::RemoveUserStagePlan;
use query_core::planner::plans::ColumnBinding;
use query_core::planner::plans::ComparisonOp;
use query_core::planner::plans::JoinType;
use query_core::planner::plans::RelOp;
use query_core::planner::plans::RelOperator;
use query_core::planner::plans::SExpr;
use query_core::planner::plans::Scalar;
use query_core::planner::plans::ScalarItem;
use query_core::planner::plans::SubqueryExpr;
use query_core::planner::plans::SubqueryType;
use query_core::planner::rel_expr::RelExpr;
use query_core::planner::rel_expr::RelationalProperty;
use query_core::planner::scalar::wrap_cast_if_needed;
use query_core::planner::statement_show_create_table::DfShowCreateTable;

fn columns(ids: &[usize]) -> ColumnSet {
    let mut set = ColumnSet::new();
    for id in ids {
        set.insert(*id);
    }
    set
}

fn column(index: usize, data_type: DataType) -> Scalar {
    Scalar::BoundColumnRef {
        column: ColumnBinding {
            database_name: None,
            table_name: None,
            column_name: format!("c{}", index),
            index,
            data_type,
            visible_in_unqualified_wildcard: true,
        },
    }
}

fn equal(left: Scalar, right: Scalar) -> Scalar {
    Scalar::ComparisonExpr {
        op: ComparisonOp::Equal,
        left: Box::new(left),
        right: Box::new(right),
        return_type: DataType::Boolean,
    }
}

fn get(table_index: usize, ids: &[usize]) -> SExpr {
    SExpr::create_leaf(RelOperator::LogicalGet {
        table_index,
        columns: columns(ids),
    })
}

fn property(output: &[usize], outer: &[usize]) -> RelationalProperty {
    RelationalProperty {
        output_columns: columns(output),
        outer_columns: columns(outer),
    }
}

#[test]
fn column_sets() {
    let a = columns(&[5, 1, 3, 1]);
    assert_eq!(a.to_vec(), vec![1, 3, 5]);
    assert_eq!(a.first(), Some(1));
    assert_eq!(ColumnSet::new().first(), None);
    assert!(ColumnSet::new().is_empty());
    assert!(!a.is_empty());
    assert!(a.contains(3));
    assert!(!a.contains(4));
    let b = columns(&[3, 4]);
    assert_eq!(a.union(&b).to_vec(), vec![1, 3, 4, 5]);
    assert_eq!(a.difference(&b).to_vec(), vec![1, 5]);
    assert_eq!(a.intersection(&b).to_vec(), vec![3]);
    assert!(columns(&[1, 5]).is_subset(&a));
    assert!(!b.is_subset(&a));
    assert!(a.same(&columns(&[1, 3, 5])));
    assert_eq!(ColumnSet::singleton(8).to_vec(), vec![8]);
}

#[test]
fn merging_types() {
    let nullable = |t: DataType| DataType::Nullable(Box::new(t));
    assert_eq!(
        merge_types(&DataType::Int8, &DataType::Int32).unwrap(),
        DataType::Int32
    );
    assert_eq!(
        merge_types(&DataType::UInt16, &DataType::UInt8).unwrap(),
        DataType::UInt16
    );
    assert_eq!(
        merge_types(&DataType::UInt8, &DataType::Int8).unwrap(),
        DataType::Int16
    );
    assert_eq!(
        merge_types(&DataType::Int64, &DataType::UInt32).unwrap(),
        DataType::Int64
    );
    assert_eq!(
        merge_types(&DataType::UInt64, &DataType::Int8).unwrap(),
        DataType::Int64
    );
    assert_eq!(
        merge_types(&DataType::String, &DataType::String).unwrap(),
        DataType::String
    );
    assert_eq!(
        merge_types(&DataType::Null, &DataType::Int8).unwrap(),
        nullable(DataType::Int8)
    );
    assert_eq!(
        merge_types(&nullable(DataType::Int8), &DataType::Int16).unwrap(),
        nullable(DataType::Int16)
    );
    assert_eq!(
        merge_types(&DataType::Null, &DataType::Null).unwrap(),
        DataType::Null
    );
    assert_eq!(
        merge_types(&DataType::String, &DataType::Int8)
            .unwrap_err()
            .kind,
        ErrorKind::BadDataValueType
    );
    assert_eq!(
        merge_types(&DataType::Boolean, &nullable(DataType::String))
            .unwrap_err()
            .kind,
        ErrorKind::BadDataValueType
    );
}

#[test]
fn casts_are_added_where_the_type_differs() {
    let scalar = column(0, DataType::Int8);
    assert_eq!(
        wrap_cast_if_needed(scalar.clone(), &DataType::Int8),
        scalar
    );
    assert_eq!(
        wrap_cast_if_needed(scalar.clone(), &DataType::Int32),
        Scalar::CastExpr {
            argument: Box::new(scalar),
            from_type: DataType::Int8,
            target_type: DataType::Int32
        }
    );
}

#[test]
fn relational_properties() {
    // Filter(c0 = c7) over Get{0, 1}: the column 7 comes from outside.
    let filter = SExpr::create_unary(
        RelOperator::Filter {
            predicates: vec![equal(
                column(0, DataType::Int64),
                column(7, DataType::Int64),
            )],
            is_having: false,
        },
        get(0, &[0, 1]),
    );
    let expr = RelExpr::with_s_expr(&filter);
    assert_eq!(expr.derive_relational_prop().unwrap(), property(&[0, 1], &[7]));
    assert_eq!(
        expr.derive_relational_prop_child(0).unwrap(),
        property(&[0, 1], &[])
    );
    assert_eq!(
        expr.derive_relational_prop_child(1).unwrap_err().kind,
        ErrorKind::LogicalError
    );
    // A computed column is added to the columns of the input.
    let eval = SExpr::create_unary(
        RelOperator::EvalScalar {
            items: vec![ScalarItem {
                scalar: column(1, DataType::Int64),
                index: 4,
            }],
        },
        filter.clone(),
    );
    assert_eq!(
        RelExpr::with_s_expr(&eval).derive_relational_prop().unwrap(),
        property(&[0, 1, 4], &[7])
    );
    // A projection keeps its columns only.
    let project = SExpr::create_unary(
        RelOperator::Project {
            columns: columns(&[4]),
        },
        eval,
    );
    assert_eq!(
        RelExpr::with_s_expr(&project)
            .derive_relational_prop()
            .unwrap(),
        property(&[4], &[7])
    );
    // A join shows both sides; the left side satisfies the reference of the
    // right side.
    let join = SExpr::create_binary(
        RelOperator::CrossApply {
            correlated_columns: columns(&[7]),
        },
        get(3, &[7]),
        project,
    );
    assert_eq!(
        RelExpr::with_s_expr(&join).derive_relational_prop().unwrap(),
        property(&[4, 7], &[])
    );
    // An aggregation shows its group and aggregate columns.
    let aggregate = SExpr::create_unary(
        RelOperator::Aggregate {
            group_items: vec![ScalarItem {
                scalar: column(0, DataType::Int64),
                index: 0,
            }],
            aggregate_functions: vec![ScalarItem {
                scalar: Scalar::AggregateFunction {
                    display_name: "sum(c1)".to_string(),
                    func_name: "sum".to_string(),
                    distinct: false,
                    args: vec![column(1, DataType::Int64), column(9, DataType::Int64)],
                    return_type: DataType::Int64,
                },
                index: 5,
            }],
            from_distinct: false,
        },
        get(0, &[0, 1]),
    );
    assert_eq!(
        RelExpr::with_s_expr(&aggregate)
            .derive_relational_prop()
            .unwrap(),
        property(&[0, 5], &[9])
    );
    // A mark join shows its marker.
    let mark = SExpr::create_binary(
        RelOperator::LogicalInnerJoin {
            left_conditions: vec![column(0, DataType::Int64)],
            right_conditions: vec![column(7, DataType::Int64)],
            other_conditions: vec![],
            join_type: JoinType::Mark,
            marker_index: Some(11),
        },
        get(0, &[0]),
        get(3, &[7]),
    );
    assert_eq!(
        RelExpr::with_s_expr(&mark).derive_relational_prop().unwrap(),
        property(&[0, 7, 11], &[])
    );
    // A pattern has no property.
    let pattern = SExpr::create_leaf(RelOperator::Pattern {
        plan_type: RelOp::Filter,
    });
    assert_eq!(
        RelExpr::with_s_expr(&pattern)
            .derive_relational_prop()
            .unwrap_err()
            .kind,
        ErrorKind::LogicalError
    );
}

#[test]
fn used_columns_of_scalars() {
    let subquery = Scalar::SubqueryExpr(SubqueryExpr {
        typ: SubqueryType::Scalar,
        subquery: get(1, &[2]),
        child_expr: None,
        data_type: DataType::Int64,
        outer_columns: columns(&[8]),
    });
    let scalar = Scalar::AndExpr {
        left: Box::new(Scalar::FunctionCall {
            func_name: "plus".to_string(),
            arguments: vec![column(3, DataType::Int64), column(1, DataType::Int64)],
            return_type: DataType::Int64,
        }),
        right: Box::new(Scalar::CastExpr {
            argument: Box::new(subquery),
            from_type: DataType::Int64,
            target_type: DataType::Boolean,
        }),
        return_type: DataType::Boolean,
    };
    assert_eq!(scalar.used_columns().to_vec(), vec![1, 3, 8]);
    assert_eq!(scalar.data_type(), DataType::Boolean);
}

#[test]
fn patterns() {
    let plan = SExpr::create_unary(
        RelOperator::Limit {
            limit: None,
            offset: 0,
        },
        get(0, &[0]),
    );
    let node = |plan_type: RelOp, children: Vec<SExpr>| {
        SExpr::create(RelOperator::Pattern { plan_type }, children)
    };
    assert!(plan.match_pattern(&node(RelOp::Limit, vec![node(RelOp::LogicalGet, vec![])])));
    assert!(plan.match_pattern(&node(RelOp::Limit, vec![node(RelOp::Pattern, vec![])])));
    assert!(!plan.match_pattern(&node(RelOp::Limit, vec![node(RelOp::Filter, vec![])])));
    assert!(!plan.match_pattern(&node(RelOp::Limit, vec![])));
    assert!(!plan.match_pattern(&node(RelOp::Sort, vec![node(RelOp::LogicalGet, vec![])])));
    assert_eq!(plan.child(1).unwrap_err().kind, ErrorKind::LogicalError);
}

#[test]
fn join_conditions() {
    let left = property(&[0], &[]);
    let right = property(&[1], &[]);
    let one = Scalar::ConstantExpr {
        value: DataValue::Int64(1),
        data_type: DataType::Int64,
    };
    let left_only = equal(column(0, DataType::Int64), one.clone());
    assert!(matches!(
        JoinCondition::new(&left_only, &left, &right),
        JoinCondition::Left(_)
    ));
    let right_only = equal(column(1, DataType::Int64), one.clone());
    assert!(matches!(
        JoinCondition::new(&right_only, &left, &right),
        JoinCondition::Right(_)
    ));
    // A predicate of no column goes to the left side.
    assert!(matches!(
        JoinCondition::new(&one, &left, &right),
        JoinCondition::Left(_)
    ));
    let swapped = equal(column(1, DataType::Int64), column(0, DataType::Int64));
    match JoinCondition::new(&swapped, &left, &right) {
        JoinCondition::Both { left, right } => {
            assert_eq!(left, &column(0, DataType::Int64));
            assert_eq!(right, &column(1, DataType::Int64));
        }
        _ => panic!("expected an equality between the sides"),
    }
    let other = Scalar::ComparisonExpr {
        op: ComparisonOp::LT,
        left: Box::new(column(0, DataType::Int64)),
        right: Box::new(column(1, DataType::Int64)),
        return_type: DataType::Boolean,
    };
    assert!(matches!(
        JoinCondition::new(&other, &left, &right),
        JoinCondition::Other(_)
    ));
}

#[test]
fn names_of_derived_columns() {
    assert_eq!(decimal_string(0), "0");
    assert_eq!(decimal_string(7), "7");
    assert_eq!(decimal_string(10), "10");
    assert_eq!(decimal_string(90210), "90210");
    assert_eq!(subquery_column_name(42), "subquery_42");
}

#[test]
fn metadata_hands_out_identifiers_in_order() {
    let mut metadata = Metadata::create();
    assert_eq!(metadata.add_column("a".to_string(), DataType::Int8, Some(0)), 0);
    assert_eq!(metadata.add_column("b".to_string(), DataType::String, None), 1);
    assert_eq!(metadata.len(), 2);
    assert_eq!(metadata.column(1).unwrap().name, "b");
    assert!(metadata.column(2).is_none());
}

#[test]
fn binding_statements() {
    assert_eq!(bind_statement(&Statement::ShowUsers).unwrap(), Plan::ShowUsers);
    assert_eq!(
        bind_statement(&Statement::DropStage {
            stage_name: "s".to_string(),
            if_exists: true
        })
        .unwrap(),
        Plan::DropStage {
            if_exists: true,
            name: "s".to_string()
        }
    );
    assert_eq!(
        bind_statement(&Statement::Explain {
            kind: ExplainKind::Graph,
            query: Box::new(Statement::Catalog(CatalogStatement::Query))
        })
        .unwrap(),
        Plan::Explain {
            kind: ExplainKind::Graph,
            plan: Box::new(Plan::Pending(CatalogStatement::Query))
        }
    );
    assert_eq!(
        bind_statement(&Statement::Explain {
            kind: ExplainKind::Syntax,
            query: Box::new(Statement::Unknown {
                text: "VACUUM".to_string()
            })
        })
        .unwrap_err()
        .kind,
        ErrorKind::UnImplement
    );
}

#[test]
fn created_and_altered_functions_keep_definition_and_description_apart() {
    let udf = UserDefinedFunction {
        name: "twice".to_string(),
        parameters: vec!["x".to_string()],
        definition: "x * 2".to_string(),
        description: "doubles".to_string(),
    };
    assert_eq!(
        bind_statement(&Statement::CreateUDF {
            if_not_exists: true,
            udf_name: "twice".to_string(),
            parameters: vec!["x".to_string()],
            definition: "x * 2".to_string(),
            description: Some("doubles".to_string()),
        })
        .unwrap(),
        Plan::CreateUDF {
            if_not_exists: true,
            udf: udf.clone()
        }
    );
    assert_eq!(
        bind_statement(&Statement::AlterUDF {
            udf_name: "twice".to_string(),
            parameters: vec!["x".to_string()],
            definition: "x * 2".to_string(),
            description: Some("doubles".to_string()),
        })
        .unwrap(),
        Plan::AlterUDF { udf }
    );
    assert_eq!(
        bind_statement(&Statement::AlterUDF {
            udf_name: "twice".to_string(),
            parameters: vec![],
            definition: "x * 2".to_string(),
            description: None,
        })
        .unwrap(),
        Plan::AlterUDF {
            udf: UserDefinedFunction {
                name: "twice".to_string(),
                parameters: vec![],
                definition: "x * 2".to_string(),
                description: String::new(),
            }
        }
    );
}

#[test]
fn the_binder_registers_columns() {
    let mut binder = Binder::new((), (), Metadata::create());
    let first = binder.create_column_binding(
        Some("db".to_string()),
        Some("t".to_string()),
        "a".to_string(),
        DataType::Int32,
    );
    assert_eq!(first.index, 0);
    assert_eq!(first.column_name, "a");
    assert_eq!(first.table_name, Some("t".to_string()));
    assert!(first.visible_in_unqualified_wildcard);
    let second = binder.create_column_binding(None, None, "b".to_string(), DataType::String);
    assert_eq!(second.index, 1);
    assert_eq!(binder.metadata().len(), 2);
    assert_eq!(binder.bind(&Statement::ShowRoles).unwrap(), Plan::ShowRoles);
}

#[test]
fn schemas_of_statements() {
    let fields = DfShowCreateTable::schema();
    assert_eq!(fields.len(), 2);
    assert_eq!(fields[0].name(), "Table");
    assert_eq!(fields[1].name(), "Create Table");
    assert_eq!(fields[1].data_type(), &DataType::String);
    let plan = RemoveUserStagePlan {
        stage: query_core::meta::user_stage::UserStageInfo {
            stage_name: "s".to_string(),
            stage_type: query_core::meta::user_stage::StageType::Internal,
            stage_params: query_core::meta::user_stage::StageParams {
                storage: query_core::meta::user_stage::StorageParams::Memory,
            },
            file_format_options: Default::default(),
            copy_options: Default::default(),
            comment: String::new(),
            number_of_files: 0,
            creator: None,
        },
        path: "/".to_string(),
        pattern: String::new(),
    };
    assert!(plan.schema().is_empty());
}

#[test]
fn a_column_set_counts_each_member_once() {
    assert_eq!(ColumnSet::new().len(), 0);
    assert_eq!(columns(&[7]).len(), 1);
    assert_eq!(columns(&[3, 1, 3, 2, 1]).len(), 3);
    assert_eq!(columns(&[1, 2]).union(&columns(&[2, 5])).len(), 3);
}
