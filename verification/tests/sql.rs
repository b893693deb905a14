use dag_engine::query_builder::{Condition, DeleteBuilder, JoinType, QueryBuilder, SortOrder, UpdateBuilder};

#[test]
fn test_simple_select() {
    let builder = QueryBuilder::new("users");
    let (sql, params) = builder.build();
    assert_eq!(sql, "SELECT * FROM users");
    assert_eq!(params, 0);
}

#[test]
fn test_select_with_columns() {
    let builder = QueryBuilder::new("users").select(&["id", "name", "email"]);
    let (sql, params) = builder.build();
    assert_eq!(sql, "SELECT id, name, email FROM users");
    assert_eq!(params, 0);
}

#[test]
fn test_where_equal() {
    let builder =
        QueryBuilder::new("users").where_condition(Condition::Eq("status".to_string()));
    let (sql, params) = builder.build();
    assert_eq!(sql, "SELECT * FROM users WHERE status = $1");
    assert_eq!(params, 1);
}

#[test]
fn test_multiple_where_conditions() {
    let builder = QueryBuilder::new("users")
        .where_condition(Condition::Eq("status".to_string()))
        .where_condition(Condition::Gt("age".to_string()));
    let (sql, params) = builder.build();
    assert_eq!(sql, "SELECT * FROM users WHERE status = $1 AND age > $2");
    assert_eq!(params, 2);
}

#[test]
fn test_where_in() {
    let builder =
        QueryBuilder::new("users").where_condition(Condition::In("role".to_string(), 3));
    let (sql, params) = builder.build();
    assert_eq!(sql, "SELECT * FROM users WHERE role IN ($1, $2, $3)");
    assert_eq!(params, 3);
}

#[test]
fn test_where_between() {
    let builder =
        QueryBuilder::new("users").where_condition(Condition::Between("age".to_string()));
    let (sql, params) = builder.build();
    assert_eq!(sql, "SELECT * FROM users WHERE age BETWEEN $1 AND $2");
    assert_eq!(params, 2);
}

#[test]
fn test_where_null() {
    let builder =
        QueryBuilder::new("users").where_condition(Condition::IsNull("deleted_at".to_string()));
    let (sql, params) = builder.build();
    assert_eq!(sql, "SELECT * FROM users WHERE deleted_at IS NULL");
    assert_eq!(params, 0);
}

#[test]
fn test_order_by() {
    let builder = QueryBuilder::new("users")
        .order_by("created_at", SortOrder::Desc)
        .order_by("name", SortOrder::Asc);
    let (sql, params) = builder.build();
    assert_eq!(
        sql,
        "SELECT * FROM users ORDER BY created_at DESC, name ASC"
    );
    assert_eq!(params, 0);
}

#[test]
fn test_limit_offset() {
    let builder = QueryBuilder::new("users").limit(10).offset(20);
    let (sql, params) = builder.build();
    assert_eq!(sql, "SELECT * FROM users LIMIT 10 OFFSET 20");
    assert_eq!(params, 0);
}

#[test]
fn test_complex_query() {
    let builder = QueryBuilder::new("users")
        .select(&["id", "name"])
        .where_condition(Condition::Eq("status".to_string()))
        .where_condition(Condition::IsNotNull("email".to_string()))
        .order_by("created_at", SortOrder::Desc)
        .limit(20);
    let (sql, params) = builder.build();
    assert_eq!(
        sql,
        "SELECT id, name FROM users WHERE status = $1 AND email IS NOT NULL ORDER BY created_at DESC LIMIT 20"
    );
    assert_eq!(params, 1);
}

#[test]
fn test_count_query() {
    let builder = QueryBuilder::new("users")
        .select(&["id", "name"])
        .where_condition(Condition::Eq("status".to_string()))
        .order_by("created_at", SortOrder::Desc)
        .limit(20);
    let (sql, params) = builder.build_count();
    assert_eq!(sql, "SELECT COUNT(*) FROM users WHERE status = $1");
    assert_eq!(params, 1);
}

#[test]
fn test_distinct_query() {
    let builder = QueryBuilder::new("users").select(&["email"]).distinct();
    let (sql, params) = builder.build();
    assert_eq!(sql, "SELECT DISTINCT email FROM users");
    assert_eq!(params, 0);
}

#[test]
fn test_group_by() {
    let builder = QueryBuilder::new("users")
        .select(&["role", "COUNT(*) as count"])
        .group_by("role");
    let (sql, params) = builder.build();
    assert_eq!(
        sql,
        "SELECT role, COUNT(*) as count FROM users GROUP BY role"
    );
    assert_eq!(params, 0);
}

#[test]
fn test_update_builder() {
    let builder = UpdateBuilder::new("users")
        .set("name")
        .set("email")
        .where_condition(Condition::Eq("id".to_string()));
    let (sql, params) = builder.build();
    assert_eq!(sql, "UPDATE users SET name = $1, email = $2 WHERE id = $3");
    assert_eq!(params, 3);
}

#[test]
fn test_delete_builder() {
    let builder =
        DeleteBuilder::new("users").where_condition(Condition::Lt("last_login".to_string()));
    let (sql, params) = builder.build();
    assert_eq!(sql, "DELETE FROM users WHERE last_login < $1");
    assert_eq!(params, 1);
}

#[test]
fn test_join() {
    let builder = QueryBuilder::new("users")
        .join(JoinType::Inner, "roles", "users.role_id = roles.id")
        .select(&["users.name", "roles.role_name"]);
    let (sql, params) = builder.build();
    assert_eq!(
        sql,
        "SELECT users.name, roles.role_name FROM users INNER JOIN roles ON users.role_id = roles.id"
    );
    assert_eq!(params, 0);
}

#[test]
fn test_where_if() {
    let builder1 =
        QueryBuilder::new("users").where_if(true, Condition::Eq("status".to_string()));
    let (sql1, params1) = builder1.build();
    assert_eq!(sql1, "SELECT * FROM users WHERE status = $1");
    assert_eq!(params1, 1);

    let builder2 =
        QueryBuilder::new("users").where_if(false, Condition::Eq("status".to_string()));
    let (sql2, params2) = builder2.build();
    assert_eq!(sql2, "SELECT * FROM users");
    assert_eq!(params2, 0);
}

#[test]
fn test_like_condition() {
    let builder =
        QueryBuilder::new("users").where_condition(Condition::Like("name".to_string()));
    let (sql, params) = builder.build();
    assert_eq!(sql, "SELECT * FROM users WHERE name LIKE $1");
    assert_eq!(params, 1);
}

#[test]
fn test_having_clause() {
    let builder = QueryBuilder::new("orders")
        .select(&["customer_id", "COUNT(*) as order_count"])
        .group_by("customer_id")
        .having(Condition::Gt("COUNT(*)".to_string()));
    let (sql, params) = builder.build();
    assert_eq!(
        sql,
        "SELECT customer_id, COUNT(*) as order_count FROM orders GROUP BY customer_id HAVING COUNT(*) > $1"
    );
    assert_eq!(params, 1);
}

#[test]
fn where_and_having_number_parameters_in_order() {
    let builder = QueryBuilder::new("t")
        .where_condition(Condition::NotIn("a".to_string(), 2))
        .where_condition(Condition::Between("b".to_string()))
        .group_by("c")
        .having(Condition::ILike("d".to_string()))
        .where_condition(Condition::Raw("x = 1".to_string()));
    let (sql, params) = builder.build();
    assert_eq!(
        sql,
        "SELECT * FROM t WHERE a NOT IN ($1, $2) AND b BETWEEN $3 AND $4 AND x = 1 GROUP BY c HAVING d ILIKE $5"
    );
    assert_eq!(params, 5);
    assert_eq!(Condition::In("z".to_string(), 0).to_sql(4), "z IN ()");
    assert_eq!(Condition::Gte("g".to_string()).to_sql(7), "g >= $7");
    assert_eq!(QueryBuilder::new("t").limit(-1).build().0, "SELECT * FROM t LIMIT -1");
    assert_eq!(UpdateBuilder::new("u").build(), ("UPDATE u".to_string(), 0));
    assert_eq!(DeleteBuilder::new("d").build(), ("DELETE FROM d".to_string(), 0));
    assert_eq!(JoinType::Full.as_sql(), "FULL OUTER JOIN");
    assert_eq!(SortOrder::Asc.as_sql(), "ASC");
}
