use appgen::schema_spec::{
    Cardinality, CreateSql, Field, MappedFieldType, Options, Relation, SchemaSpec, ViewKind,
};
use appgen::sql_gen::{gen_create_sql, schema_sql, schema_statements, ToSql};

fn sql_field(name: &str, ty: MappedFieldType) -> Field {
    Field(String::from(name), ty, Options::default())
}

fn sql_relation(from: (&str, &str), to: (&str, &str)) -> Relation {
    Relation {
        from: Cardinality::One(String::from(from.0), String::from(from.1)),
        to: Cardinality::Many(String::from(to.0), String::from(to.1)),
    }
}

#[test]
fn create_table_users() {
    let table = (
        String::from("users"),
        vec![
            sql_field("id", MappedFieldType::BigSerialPk),
            sql_field("name", MappedFieldType::String(64)),
        ],
    );
    assert_eq!(
        gen_create_sql(&table),
        "CREATE TABLE users (\n  id BigSerial Primary Key,\n  name varchar(64)\n);"
    );
}

#[test]
fn create_table_without_fields() {
    let table = (String::from("empty"), Vec::new());
    assert_eq!(gen_create_sql(&table), "CREATE TABLE empty (\n  \n);");
}

#[test]
fn foreign_key_orders_customers() {
    let relation = sql_relation(("orders", "id"), ("customers", "order_id"));
    assert_eq!(
        gen_create_sql(&relation),
        "ALTER TABLE orders ADD FOREIGN KEY (id) REFERENCES customers(order_id);"
    );
}

#[test]
fn foreign_key_is_never_reversed() {
    let relation = sql_relation(("orders", "id"), ("customers", "order_id"));
    let text = gen_create_sql(&relation);
    assert_ne!(
        text,
        "ALTER TABLE customers ADD FOREIGN KEY (order_id) REFERENCES orders(id);"
    );
    assert!(!text.contains("ALTER TABLE customers"));
}

#[test]
fn foreign_key_from_the_many_side() {
    let relation = Relation {
        from: Cardinality::Many(String::from("line"), String::from("invoice_id")),
        to: Cardinality::One(String::from("invoice"), String::from("id")),
    };
    assert_eq!(
        gen_create_sql(&relation),
        "ALTER TABLE line ADD FOREIGN KEY (invoice_id) REFERENCES invoice(id);"
    );
}

#[test]
fn type_fragments() {
    assert_eq!(gen_create_sql(&MappedFieldType::BigSerialPk), "BigSerial Primary Key");
    assert_eq!(gen_create_sql(&MappedFieldType::String(255)), "varchar(255)");
    assert_eq!(gen_create_sql(&MappedFieldType::Integer), "BigInt");
    assert_eq!(gen_create_sql(&MappedFieldType::Numeric), "Numeric");
    assert_eq!(gen_create_sql(&MappedFieldType::Timestamp(None)), "Timestamp");
    assert_eq!(
        gen_create_sql(&MappedFieldType::Timestamp(Some(String::from("UTC")))),
        "Timestamp"
    );
    assert_eq!(gen_create_sql(&MappedFieldType::Boolean), "Boolean");
}

#[test]
fn varchar_lengths_are_decimal() {
    assert_eq!(gen_create_sql(&MappedFieldType::String(0)), "varchar(0)");
    assert_eq!(gen_create_sql(&MappedFieldType::String(7)), "varchar(7)");
    assert_eq!(gen_create_sql(&MappedFieldType::String(10)), "varchar(10)");
    assert_eq!(gen_create_sql(&MappedFieldType::String(128)), "varchar(128)");
    assert_eq!(gen_create_sql(&MappedFieldType::String(1000)), "varchar(1000)");
    assert_eq!(
        gen_create_sql(&MappedFieldType::String(usize::MAX)),
        format!("varchar({})", usize::MAX)
    );
}

#[test]
fn field_definition() {
    assert_eq!(gen_create_sql(&sql_field("active", MappedFieldType::Boolean)), "active Boolean");
    assert_eq!(
        gen_create_sql(&sql_field("title", MappedFieldType::String(40))),
        "title varchar(40)"
    );
}

#[test]
fn create_sql_hands_its_text_back() {
    let sql = CreateSql::from(String::from("SELECT 1;"));
    assert_eq!(String::from(sql), "SELECT 1;");
    let sql = sql_field("n", MappedFieldType::Integer).create_sql();
    assert_eq!(sql.into_string(), "n BigInt");
}

fn sql_schema() -> SchemaSpec {
    SchemaSpec {
        tables: vec![
            (String::from("customers"), vec![sql_field("id", MappedFieldType::BigSerialPk)]),
            (
                String::from("orders"),
                vec![
                    sql_field("id", MappedFieldType::BigSerialPk),
                    sql_field("customer_id", MappedFieldType::Integer),
                ],
            ),
        ],
        relationships: vec![
            sql_relation(("orders", "customer_id"), ("customers", "id")),
            sql_relation(("customers", "id"), ("orders", "customer_id")),
        ],
        views: Vec::new(),
        api: Vec::new(),
        acl: Vec::new(),
    }
}

#[test]
fn tables_come_before_relations() {
    let statements = schema_statements(&sql_schema());
    assert_eq!(
        statements,
        vec![
            "CREATE TABLE customers (\n  id BigSerial Primary Key\n);",
            "CREATE TABLE orders (\n  id BigSerial Primary Key,\n  customer_id BigInt\n);",
            "ALTER TABLE orders ADD FOREIGN KEY (customer_id) REFERENCES customers(id);",
            "ALTER TABLE customers ADD FOREIGN KEY (id) REFERENCES orders(customer_id);",
        ]
    );
    let first_alter = statements.iter().position(|s| s.starts_with("ALTER TABLE")).unwrap();
    assert!(statements[..first_alter].iter().all(|s| s.starts_with("CREATE TABLE")));
    assert!(statements[first_alter..].iter().all(|s| s.starts_with("ALTER TABLE")));
}

#[test]
fn schema_file_has_one_statement_to_a_line() {
    assert_eq!(
        schema_sql(&sql_schema()),
        "CREATE TABLE customers (\n  id BigSerial Primary Key\n);\n\
         CREATE TABLE orders (\n  id BigSerial Primary Key,\n  customer_id BigInt\n);\n\
         ALTER TABLE orders ADD FOREIGN KEY (customer_id) REFERENCES customers(id);\n\
         ALTER TABLE customers ADD FOREIGN KEY (id) REFERENCES orders(customer_id);\n"
    );
}

#[test]
fn empty_schema_has_no_statements() {
    let schema = SchemaSpec {
        tables: Vec::new(),
        relationships: Vec::new(),
        views: Vec::new(),
        api: Vec::new(),
        acl: Vec::new(),
    };
    assert!(schema_statements(&schema).is_empty());
    assert_eq!(schema_sql(&schema), "");
}

#[test]
fn full_view_name_keeps_the_rest() {
    assert_eq!(ViewKind::Edit.full_view_name("invoice_item"), "Invoice_itemEdit");
}
