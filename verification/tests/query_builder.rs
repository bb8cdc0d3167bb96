use unilink_execution::sandbox::query_builder::ClickHouseQueryBuilder;

#[test]
fn test_where_query() {
    let query = ClickHouseQueryBuilder::new().select("*").from("default_db", "users").where_clause("identification = 1").build();
    assert_eq!(query, "SELECT * FROM default_db.users WHERE identification = 1");
}

#[test]
fn test_like_query() {
    let query = ClickHouseQueryBuilder::new().select("*").from("default_db", "users").like_clause("name", "%example%").build();
    assert_eq!(query, "SELECT * FROM default_db.users WHERE name LIKE '%example%'");
}

#[test]
fn test_not_like_query() {
    let query = ClickHouseQueryBuilder::new()
        .select("*")
        .from("default_db", "products")
        .not_like_clause("description", "%old%")
        .build();
    assert_eq!(query, "SELECT * FROM default_db.products WHERE description NOT LIKE '%old%'");
}

#[test]
fn test_combined_query() {
    let query = ClickHouseQueryBuilder::new()
        .select("identification, name")
        .from("default_db", "users")
        .where_clause("age > 18")
        .like_clause("email", "%@mail.com")
        .order("created_at", Some("DESC"))
        .limit(10)
        .build();
    assert_eq!(
        query,
        "SELECT identification, name FROM default_db.users WHERE age > 18 AND email LIKE '%@mail.com' ORDER BY created_at DESC LIMIT 10"
    );
}

#[test]
fn test_query_with_multiple_conditions() {
    let query = ClickHouseQueryBuilder::new()
        .select("*")
        .from("default_db", "users")
        .where_clause("identification = 1")
        .like_clause("username", "%user%")
        .not_like_clause("password", "%weak%")
        .build();
    assert_eq!(
        query,
        "SELECT * FROM default_db.users WHERE identification = 1 AND username LIKE '%user%' AND password NOT LIKE '%weak%'"
    );
}

#[test]
fn offset_is_kept_out_of_the_built_query() {
    let query = ClickHouseQueryBuilder::new().select("*").from("db", "t").limit(5).offset(20).build();
    assert_eq!(query, "SELECT * FROM db.t LIMIT 5");
}

#[test]
fn order_without_direction_drops_the_order_clause() {
    let query = ClickHouseQueryBuilder::new().select("*").from("db", "t").order("ts", Some("ASC")).order("ts", None).build();
    assert_eq!(query, "SELECT * FROM db.t");
}

#[test]
fn limit_writes_zero_and_large_values_in_decimal() {
    let query = ClickHouseQueryBuilder::new().select("a").from("d", "t").limit(0).build();
    assert_eq!(query, "SELECT a FROM d.t LIMIT 0");
    let query = ClickHouseQueryBuilder::new().select("a").from("d", "t").limit(1234567890).build();
    assert_eq!(query, "SELECT a FROM d.t LIMIT 1234567890");
}

#[test]
fn like_without_where_starts_the_where_clause() {
    let query = ClickHouseQueryBuilder::new().select("*").from("d", "t").not_like_clause("a", "x%").like_clause("b", "%y").build();
    assert_eq!(query, "SELECT * FROM d.t WHERE a NOT LIKE 'x%' AND b LIKE '%y'");
}
