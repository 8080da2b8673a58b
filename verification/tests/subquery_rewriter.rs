use query_core::datavalues::data_type::DataType;
use query_core::datavalues::data_value::DataValue;
use query_core::error::ErrorKind;
use query_core::optimizer::decorrelate::try_decorrelate_subquery;
use query_core::optimizer::decorrelate::decorrelate_subquery;
use query_core::optimizer::subquery_rewriter::SubqueryRewriter;
use query_core::optimizer::unnest::UnnestResult;
use query_core::planner::column_set::ColumnSet;
use query_core::planner::join_condition::contains_subquery;
use query_core::planner::metadata::Metadata;
use query_core::planner::plans::ColumnBinding;
use query_core::planner::plans::ComparisonOp;
use query_core::planner::plans::JoinType;
use query_core::planner::plans::RelOperator;
use query_core::planner::plans::SExpr;
use query_core::planner::plans::Scalar;
use query_core::planner::plans::ScalarItem;
use query_core::planner::plans::SubqueryExpr;
use query_core::planner::plans::SubqueryType;

fn columns(ids: &[usize]) -> ColumnSet {
    let mut set = ColumnSet::new();
    for id in ids {
        set.insert(*id);
    }
    set
}

fn column(name: &str, index: usize) -> Scalar {
    Scalar::BoundColumnRef {
        column: ColumnBinding {
            database_name: None,
            table_name: None,
            column_name: name.to_string(),
            index,
            data_type: DataType::Int64,
            visible_in_unqualified_wildcard: true,
        },
    }
}

fn derived(name: &str, index: usize, data_type: DataType) -> Scalar {
    Scalar::BoundColumnRef {
        column: ColumnBinding {
            database_name: None,
            table_name: None,
            column_name: name.to_string(),
            index,
            data_type,
            visible_in_unqualified_wildcard: false,
        },
    }
}

fn equal(left: Scalar, right: Scalar) -> Scalar {
    Scalar::ComparisonExpr {
        op: ComparisonOp::Equal,
        left: Box::new(left),
        right: Box::new(right),
        return_type: DataType::Boolean,
    }
}

fn constant(value: i64) -> Scalar {
    Scalar::ConstantExpr {
        value: DataValue::Int64(value),
        data_type: DataType::Int64,
    }
}

fn get(table_index: usize, ids: &[usize]) -> SExpr {
    SExpr::create_leaf(RelOperator::LogicalGet {
        table_index,
        columns: columns(ids),
    })
}

fn filter(predicates: Vec<Scalar>, child: SExpr) -> SExpr {
    SExpr::create_unary(
        RelOperator::Filter {
            predicates,
            is_having: false,
        },
        child,
    )
}

/// `SELECT 1 FROM t2 WHERE <predicates>`, where `t2.a` is the column 1 and
/// the constant is the column 2.
fn select_one_from_t2(predicates: Vec<Scalar>) -> SExpr {
    SExpr::create_unary(
        RelOperator::Project {
            columns: columns(&[2]),
        },
        SExpr::create_unary(
            RelOperator::EvalScalar {
                items: vec![ScalarItem {
                    scalar: constant(1),
                    index: 2,
                }],
            },
            filter(predicates, get(1, &[1])),
        ),
    )
}

fn subquery(typ: SubqueryType, body: SExpr, outer: &[usize], operand: Option<Scalar>) -> SubqueryExpr {
    SubqueryExpr {
        typ,
        subquery: body,
        child_expr: operand.map(Box::new),
        data_type: DataType::Boolean,
        outer_columns: columns(outer),
    }
}

fn metadata_of_three_columns() -> Metadata {
    let mut metadata = Metadata::create();
    metadata.add_column("a".to_string(), DataType::Int64, Some(0));
    metadata.add_column("a".to_string(), DataType::Int64, Some(1));
    metadata.add_column("1".to_string(), DataType::Int64, None);
    metadata
}

fn cross_join() -> RelOperator {
    RelOperator::LogicalInnerJoin {
        left_conditions: vec![],
        right_conditions: vec![],
        other_conditions: vec![],
        join_type: JoinType::Cross,
        marker_index: None,
    }
}

fn true_literal() -> Scalar {
    Scalar::ConstantExpr {
        value: DataValue::Boolean(true),
        data_type: DataType::Boolean,
    }
}

#[test]
fn correlated_exists_becomes_a_semi_join() {
    // SELECT * FROM t1 WHERE EXISTS (SELECT 1 FROM t2 WHERE t2.a = t1.a)
    let correlated = select_one_from_t2(vec![equal(column("a", 1), column("a", 0))]);
    let plan = filter(
        vec![Scalar::SubqueryExpr(subquery(
            SubqueryType::Exists,
            correlated,
            &[0],
            None,
        ))],
        get(0, &[0]),
    );
    let mut metadata = metadata_of_three_columns();
    let rewritten = decorrelate_subquery(&mut metadata, plan).unwrap();
    let right = SExpr::create_unary(
        RelOperator::Project {
            columns: columns(&[1]),
        },
        SExpr::create_unary(
            RelOperator::Project {
                columns: columns(&[2]),
            },
            SExpr::create_unary(
                RelOperator::EvalScalar {
                    items: vec![ScalarItem {
                        scalar: constant(1),
                        index: 2,
                    }],
                },
                get(1, &[1]),
            ),
        ),
    );
    let semi = SExpr::create_binary(
        RelOperator::LogicalInnerJoin {
            left_conditions: vec![column("a", 0)],
            right_conditions: vec![column("a", 1)],
            other_conditions: vec![],
            join_type: JoinType::Semi,
            marker_index: None,
        },
        get(0, &[0]),
        right,
    );
    assert_eq!(rewritten, filter(vec![true_literal()], semi));
    // No column was needed.
    assert_eq!(metadata.len(), 3);
}

#[test]
fn correlated_not_exists_becomes_an_anti_join() {
    let correlated = select_one_from_t2(vec![equal(column("a", 0), column("a", 1))]);
    let result = try_decorrelate_subquery(
        &get(0, &[0]),
        &subquery(SubqueryType::NotExists, correlated, &[0], None),
    )
    .unwrap()
    .unwrap();
    match result.plan() {
        RelOperator::LogicalInnerJoin {
            join_type,
            left_conditions,
            right_conditions,
            ..
        } => {
            assert_eq!(*join_type, JoinType::Anti);
            assert_eq!(left_conditions, &vec![column("a", 0)]);
            assert_eq!(right_conditions, &vec![column("a", 1)]);
        }
        other => panic!("unexpected operator {:?}", other),
    }
}

#[test]
fn predicates_of_one_side_become_filters_of_that_side() {
    let correlated = select_one_from_t2(vec![
        equal(column("a", 0), constant(3)),
        equal(column("a", 1), column("a", 0)),
        equal(column("a", 1), constant(4)),
    ]);
    let result = try_decorrelate_subquery(
        &get(0, &[0]),
        &subquery(SubqueryType::Exists, correlated, &[0], None),
    )
    .unwrap()
    .unwrap();
    assert_eq!(
        result.child(0).unwrap(),
        &filter(vec![equal(column("a", 0), constant(3))], get(0, &[0]))
    );
    let right = result.child(1).unwrap();
    assert_eq!(
        right.plan(),
        &RelOperator::Project {
            columns: columns(&[1])
        }
    );
    match right.child(0).unwrap().plan() {
        RelOperator::Filter { predicates, .. } => {
            assert_eq!(predicates, &vec![equal(column("a", 1), constant(4))]);
        }
        other => panic!("unexpected operator {:?}", other),
    }
}

#[test]
fn decorrelation_is_declined_for_other_shapes() {
    // Uncorrelated.
    let uncorrelated = select_one_from_t2(vec![equal(column("a", 1), constant(1))]);
    assert_eq!(
        try_decorrelate_subquery(
            &get(0, &[0]),
            &subquery(SubqueryType::Exists, uncorrelated, &[], None)
        )
        .unwrap(),
        None
    );
    // Not the shape of a projection over a filter of one table.
    let flat = filter(vec![equal(column("a", 1), column("a", 0))], get(1, &[1]));
    assert_eq!(
        try_decorrelate_subquery(
            &get(0, &[0]),
            &subquery(SubqueryType::Exists, flat, &[0], None)
        )
        .unwrap(),
        None
    );
    // A scalar subquery.
    let correlated = select_one_from_t2(vec![equal(column("a", 1), column("a", 0))]);
    assert_eq!(
        try_decorrelate_subquery(
            &get(0, &[0]),
            &subquery(SubqueryType::Scalar, correlated, &[0], None)
        )
        .unwrap(),
        None
    );
}

#[test]
fn exists_outside_a_filter_is_counted() {
    // SELECT EXISTS (SELECT 1 FROM t2 WHERE t2.a = t1.a) FROM t1
    let correlated = select_one_from_t2(vec![equal(column("a", 1), column("a", 0))]);
    let plan = SExpr::create_unary(
        RelOperator::EvalScalar {
            items: vec![ScalarItem {
                scalar: Scalar::SubqueryExpr(subquery(
                    SubqueryType::Exists,
                    correlated.clone(),
                    &[0],
                    None,
                )),
                index: 9,
            }],
        },
        get(0, &[0]),
    );
    let mut metadata = metadata_of_three_columns();
    let rewritten = decorrelate_subquery(&mut metadata, plan).unwrap();
    assert_eq!(metadata.len(), 5);
    assert_eq!(metadata.column(3).unwrap().name, "count(*)");
    assert_eq!(metadata.column(3).unwrap().data_type, DataType::UInt64);
    assert_eq!(metadata.column(4).unwrap().name, "subquery");
    assert_eq!(metadata.column(4).unwrap().data_type, DataType::Boolean);
    let counted = SExpr::create_unary(
        RelOperator::Project {
            columns: columns(&[4]),
        },
        SExpr::create_unary(
            RelOperator::EvalScalar {
                items: vec![ScalarItem {
                    scalar: Scalar::ComparisonExpr {
                        op: ComparisonOp::Equal,
                        left: Box::new(derived("count(*)", 3, DataType::UInt64)),
                        right: Box::new(Scalar::ConstantExpr {
                            value: DataValue::Int64(1),
                            data_type: DataType::UInt64,
                        }),
                        return_type: DataType::UInt64,
                    },
                    index: 4,
                }],
            },
            SExpr::create_unary(
                RelOperator::Aggregate {
                    group_items: vec![],
                    aggregate_functions: vec![ScalarItem {
                        scalar: Scalar::AggregateFunction {
                            display_name: "count(*)".to_string(),
                            func_name: "count".to_string(),
                            distinct: false,
                            args: vec![],
                            return_type: DataType::UInt64,
                        },
                        index: 3,
                    }],
                    from_distinct: false,
                },
                SExpr::create_unary(
                    RelOperator::Limit {
                        limit: Some(1),
                        offset: 0,
                    },
                    correlated,
                ),
            ),
        ),
    );
    let apply = SExpr::create_binary(
        RelOperator::CrossApply {
            correlated_columns: columns(&[0]),
        },
        get(0, &[0]),
        counted,
    );
    let expected = SExpr::create_unary(
        RelOperator::EvalScalar {
            items: vec![ScalarItem {
                scalar: derived("subquery_4", 4, DataType::Boolean),
                index: 9,
            }],
        },
        apply,
    );
    assert_eq!(rewritten, expected);
}

#[test]
fn uncorrelated_scalar_subquery_is_cross_joined() {
    let body = SExpr::create_unary(
        RelOperator::Project {
            columns: columns(&[1]),
        },
        get(1, &[1]),
    );
    let plan = filter(
        vec![equal(
            column("a", 0),
            Scalar::SubqueryExpr(subquery(SubqueryType::Scalar, body.clone(), &[], None)),
        )],
        get(0, &[0]),
    );
    let mut metadata = metadata_of_three_columns();
    let rewritten = decorrelate_subquery(&mut metadata, plan).unwrap();
    let joined = SExpr::create_binary(
        cross_join(),
        get(0, &[0]),
        SExpr::create_unary(RelOperator::Max1Row, body),
    );
    assert_eq!(
        rewritten,
        filter(
            vec![equal(
                column("a", 0),
                derived("subquery_1", 1, DataType::Boolean)
            )],
            joined
        )
    );
    assert_eq!(metadata.len(), 3);
}

#[test]
fn any_subquery_becomes_a_mark_join() {
    // SELECT t1.a, t1.a IN (SELECT t2.a FROM t2) FROM t1
    let body = SExpr::create_unary(
        RelOperator::Project {
            columns: columns(&[1]),
        },
        get(1, &[1]),
    );
    let in_subquery = subquery(SubqueryType::Any, body.clone(), &[], Some(column("a", 0)));
    let mut rewriter = SubqueryRewriter::new(metadata_of_three_columns());
    let (plan, result) = rewriter
        .unnest_subquery(&get(0, &[0]), &in_subquery, false)
        .unwrap();
    assert_eq!(result, UnnestResult::MarkJoin { marker_index: 3 });
    assert_eq!(
        plan,
        SExpr::create_binary(
            RelOperator::LogicalInnerJoin {
                left_conditions: vec![derived("subquery_1", 1, DataType::Boolean)],
                right_conditions: vec![column("a", 0)],
                other_conditions: vec![],
                join_type: JoinType::Mark,
                marker_index: Some(3),
            },
            body,
            get(0, &[0]),
        )
    );
    let metadata = rewriter.into_metadata();
    assert_eq!(metadata.len(), 4);
    assert_eq!(metadata.column(3).unwrap().name, "marker");
    assert_eq!(
        metadata.column(3).unwrap().data_type,
        DataType::Nullable(Box::new(DataType::Boolean))
    );
}

#[test]
fn any_subquery_in_an_expression_is_replaced_by_the_marker() {
    let body = SExpr::create_unary(
        RelOperator::Project {
            columns: columns(&[1]),
        },
        get(1, &[1]),
    );
    let scalar = Scalar::SubqueryExpr(subquery(
        SubqueryType::Any,
        body,
        &[],
        Some(column("a", 0)),
    ));
    let mut rewriter = SubqueryRewriter::new(metadata_of_three_columns());
    let (replaced, plan) = rewriter
        .try_rewrite_subquery(&scalar, &get(0, &[0]), false)
        .unwrap();
    assert_eq!(replaced, derived("marker", 3, DataType::Boolean));
    assert_eq!(plan.arity(), 2);
}

#[test]
fn errors_of_the_rewriter() {
    let body = SExpr::create_unary(
        RelOperator::Project {
            columns: columns(&[1]),
        },
        get(1, &[1]),
    );
    let mut rewriter = SubqueryRewriter::new(metadata_of_three_columns());
    // ALL is not supported.
    let all = subquery(SubqueryType::All, body.clone(), &[], Some(column("a", 0)));
    assert_eq!(
        rewriter
            .unnest_subquery(&get(0, &[0]), &all, false)
            .unwrap_err()
            .kind,
        ErrorKind::UnsupportedFeature
    );
    // Neither is a correlated ANY.
    let correlated_body = SExpr::create_unary(
        RelOperator::Project {
            columns: columns(&[1]),
        },
        filter(vec![equal(column("a", 1), column("a", 0))], get(1, &[1])),
    );
    let any = subquery(SubqueryType::Any, correlated_body, &[0], Some(column("a", 0)));
    assert_eq!(
        rewriter
            .unnest_subquery(&get(0, &[0]), &any, false)
            .unwrap_err()
            .kind,
        ErrorKind::LogicalError
    );
    // An apply is no input of the rewriter.
    let apply = SExpr::create_binary(
        RelOperator::CrossApply {
            correlated_columns: columns(&[0]),
        },
        get(0, &[0]),
        body,
    );
    assert_eq!(
        rewriter.rewrite(&apply).unwrap_err().kind,
        ErrorKind::LogicalError
    );
    assert_eq!(
        rewriter
            .rewrite(&SExpr::create_leaf(RelOperator::Max1Row))
            .unwrap_err()
            .kind,
        ErrorKind::LogicalError
    );
    // A filter without input.
    assert_eq!(
        rewriter
            .rewrite(&SExpr::create_leaf(RelOperator::Filter {
                predicates: vec![],
                is_having: false
            }))
            .unwrap_err()
            .kind,
        ErrorKind::LogicalError
    );
}

#[test]
fn a_plan_without_subqueries_stays_as_it_is() {
    let plan = SExpr::create_unary(
        RelOperator::Limit {
            limit: Some(10),
            offset: 2,
        },
        SExpr::create_binary(
            RelOperator::LogicalInnerJoin {
                left_conditions: vec![column("a", 0)],
                right_conditions: vec![column("a", 1)],
                other_conditions: vec![],
                join_type: JoinType::Inner,
                marker_index: None,
            },
            filter(vec![equal(column("a", 0), constant(1))], get(0, &[0])),
            get(1, &[1]),
        ),
    );
    let mut metadata = metadata_of_three_columns();
    let rewritten = decorrelate_subquery(&mut metadata, plan.clone()).unwrap();
    assert_eq!(rewritten, plan);
    assert_eq!(metadata, metadata_of_three_columns());
}

#[test]
fn two_subqueries_of_one_filter_are_joined_one_above_the_other() {
    let first = select_one_from_t2(vec![equal(column("a", 1), column("a", 0))]);
    // The second subquery reads a third table, whose column is the column 5.
    let second = SExpr::create_unary(
        RelOperator::Project {
            columns: columns(&[6]),
        },
        SExpr::create_unary(
            RelOperator::EvalScalar {
                items: vec![ScalarItem {
                    scalar: constant(1),
                    index: 6,
                }],
            },
            filter(vec![equal(column("b", 5), column("a", 0))], get(2, &[5])),
        ),
    );
    let plan = filter(
        vec![
            Scalar::SubqueryExpr(subquery(SubqueryType::Exists, first, &[0], None)),
            Scalar::SubqueryExpr(subquery(SubqueryType::NotExists, second, &[0], None)),
        ],
        get(0, &[0]),
    );
    let mut metadata = metadata_of_three_columns();
    let rewritten = decorrelate_subquery(&mut metadata, plan).unwrap();
    match rewritten.plan() {
        RelOperator::Filter { predicates, .. } => {
            assert_eq!(predicates, &vec![true_literal(), true_literal()]);
        }
        other => panic!("unexpected operator {:?}", other),
    }
    let anti = rewritten.child(0).unwrap();
    match anti.plan() {
        RelOperator::LogicalInnerJoin { join_type, .. } => assert_eq!(*join_type, JoinType::Anti),
        other => panic!("unexpected operator {:?}", other),
    }
    match anti.child(0).unwrap().plan() {
        RelOperator::LogicalInnerJoin { join_type, .. } => assert_eq!(*join_type, JoinType::Semi),
        other => panic!("unexpected operator {:?}", other),
    }
}

fn scalars_of(plan: &RelOperator) -> Vec<&Scalar> {
    match plan {
        RelOperator::EvalScalar { items } => items.iter().map(|item| &item.scalar).collect(),
        RelOperator::Filter { predicates, .. } => predicates.iter().collect(),
        RelOperator::Aggregate {
            group_items,
            aggregate_functions,
            ..
        } => group_items
            .iter()
            .chain(aggregate_functions.iter())
            .map(|item| &item.scalar)
            .collect(),
        RelOperator::LogicalInnerJoin {
            left_conditions,
            right_conditions,
            other_conditions,
            ..
        } => left_conditions
            .iter()
            .chain(right_conditions.iter())
            .chain(other_conditions.iter())
            .collect(),
        _ => vec![],
    }
}

fn holds_subquery(plan: &SExpr) -> bool {
    scalars_of(plan.plan()).into_iter().any(contains_subquery)
        || (0..plan.arity()).any(|i| holds_subquery(plan.child(i).unwrap()))
}

#[test]
fn no_subquery_is_left_after_rewriting() {
    // A scalar subquery that holds an EXISTS subquery of its own, beside an
    // IN subquery.
    let inner = select_one_from_t2(vec![equal(column("a", 1), column("a", 0))]);
    let body = SExpr::create_unary(
        RelOperator::Project {
            columns: columns(&[5]),
        },
        filter(
            vec![Scalar::SubqueryExpr(subquery(
                SubqueryType::Exists,
                inner,
                &[0],
                None,
            ))],
            get(2, &[5]),
        ),
    );
    let listed = SExpr::create_unary(
        RelOperator::Project {
            columns: columns(&[1]),
        },
        get(1, &[1]),
    );
    let plan = SExpr::create_unary(
        RelOperator::EvalScalar {
            items: vec![
                ScalarItem {
                    scalar: Scalar::FunctionCall {
                        func_name: "plus".to_string(),
                        arguments: vec![
                            column("a", 0),
                            Scalar::SubqueryExpr(subquery(SubqueryType::Scalar, body, &[0], None)),
                        ],
                        return_type: DataType::Int64,
                    },
                    index: 8,
                },
                ScalarItem {
                    scalar: Scalar::SubqueryExpr(subquery(
                        SubqueryType::Any,
                        listed,
                        &[],
                        Some(column("a", 0)),
                    )),
                    index: 9,
                },
            ],
        },
        get(0, &[0]),
    );
    assert!(holds_subquery(&plan));
    let mut metadata = metadata_of_three_columns();
    let rewritten = decorrelate_subquery(&mut metadata, plan).unwrap();
    assert!(!holds_subquery(&rewritten));
    // The registry has grown by the marker of the IN subquery.
    assert_eq!(metadata.len(), 4);
    assert_eq!(metadata.column(3).unwrap().name, "marker");
}
