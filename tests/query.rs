use openmusicgang::query::{
    build_user_query, build_where_conditions, decimal, format_limit_offset, join_conditions,
    select_users_sql, where_condition_eq, where_condition_ne, QueryParam,
};
use openmusicgang::service::UserFilter;

#[test]
fn test_format_limit_offset() {
    let query = format_limit_offset(40, 0);
    assert_eq!(query, "LIMIT 40");

    let query = format_limit_offset(0, 40);
    assert_eq!(query, "OFFSET 40");

    let query = format_limit_offset(40, 40);
    assert_eq!(query, "LIMIT 40 OFFSET 40");

    let query = format_limit_offset(0, 0);
    assert_eq!(query, "");
}

#[test]
fn limit_offset_examples() {
    assert_eq!(format_limit_offset(10, 0), "LIMIT 10");
    assert_eq!(format_limit_offset(10, 1), "LIMIT 10 OFFSET 1");
    assert_eq!(format_limit_offset(0, 1), "OFFSET 1");
    assert_eq!(format_limit_offset(-5, -7), "");
    assert_eq!(format_limit_offset(-5, 3), "OFFSET 3");
    assert_eq!(
        format_limit_offset(i64::MAX, 1),
        "LIMIT 9223372036854775807 OFFSET 1"
    );
}

#[test]
fn decimal_digits() {
    assert_eq!(decimal(0), "0");
    assert_eq!(decimal(7), "7");
    assert_eq!(decimal(10), "10");
    assert_eq!(decimal(1234567890), "1234567890");
    assert_eq!(decimal(u64::MAX), "18446744073709551615");
}

#[test]
fn where_conditions_text() {
    assert_eq!(where_condition_eq("id", 1), "id = $1");
    assert_eq!(where_condition_ne("id", 1), "id != $1");
    assert_eq!(where_condition_eq("email", 12), "email = $12");
}

#[test]
fn empty_filter_has_only_the_true_condition() {
    let (conditions, params) = build_where_conditions(&UserFilter::default());
    assert_eq!(conditions, vec!["1 = 1".to_string()]);
    assert!(params.is_empty());
}

#[test]
fn name_filter_binds_first_parameter() {
    let mut filter = UserFilter::default();
    filter.name = Some("Bob".to_string());
    let (conditions, params) = build_where_conditions(&filter);
    assert_eq!(conditions, vec!["1 = 1".to_string(), "name = $1".to_string()]);
    assert_eq!(params, vec![QueryParam::Text("Bob".to_string())]);
}

#[test]
fn fields_bind_in_fixed_order() {
    let filter = UserFilter {
        id: Some(3),
        name: Some("Bob".to_string()),
        email: Some("bob@test.com".to_string()),
        limit: 0,
        offset: 0,
    };
    let (conditions, params) = build_where_conditions(&filter);
    assert_eq!(
        conditions,
        vec![
            "1 = 1".to_string(),
            "id = $1".to_string(),
            "name = $2".to_string(),
            "email = $3".to_string()
        ]
    );
    assert_eq!(
        params,
        vec![
            QueryParam::Int(3),
            QueryParam::Text("Bob".to_string()),
            QueryParam::Text("bob@test.com".to_string())
        ]
    );

    let filter = UserFilter {
        id: None,
        name: Some("Bob".to_string()),
        email: Some("bob@test.com".to_string()),
        limit: 0,
        offset: 0,
    };
    let (conditions, params) = build_where_conditions(&filter);
    assert_eq!(conditions[1], "name = $1");
    assert_eq!(conditions[2], "email = $2");
    assert_eq!(params[0], QueryParam::Text("Bob".to_string()));
}

#[test]
fn join_and_select_text() {
    let parts = vec!["1 = 1".to_string(), "id = $1".to_string()];
    assert_eq!(join_conditions(&parts, " AND "), "1 = 1 AND id = $1");
    assert_eq!(join_conditions(&Vec::new(), " AND "), "");
    assert_eq!(
        select_users_sql(&parts, "LIMIT 10"),
        "SELECT id, name, email, password, created_at, updated_at, COUNT(*) OVER() AS count FROM users WHERE 1 = 1 AND id = $1 ORDER BY id ASC LIMIT 10"
    );
}

#[test]
fn query_keeps_values_out_of_text() {
    let filter = UserFilter {
        id: None,
        name: Some("Robert'); DROP TABLE users; --".to_string()),
        email: None,
        limit: 10,
        offset: 20,
    };
    let query = build_user_query(&filter);
    assert_eq!(
        query.sql,
        "SELECT id, name, email, password, created_at, updated_at, COUNT(*) OVER() AS count FROM users WHERE 1 = 1 AND name = $1 ORDER BY id ASC LIMIT 10 OFFSET 20"
    );
    assert_eq!(
        query.params,
        vec![QueryParam::Text("Robert'); DROP TABLE users; --".to_string())]
    );

    let other = UserFilter {
        id: None,
        name: Some("Alice".to_string()),
        email: None,
        limit: 10,
        offset: 20,
    };
    assert_eq!(build_user_query(&other).sql, query.sql);
}
