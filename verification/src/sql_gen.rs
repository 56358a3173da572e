//! The SQL statements that create the schema: one CREATE TABLE for each table,
//! then one ALTER TABLE for each relation.

use vstd::prelude::*;
use crate::schema_spec::{
    CreateSql, Field, FieldModel, FieldTypeModel, MappedFieldType, Relation, RelationModel,
    SchemaModel, SchemaSpec, TableModel,
};
use crate::text::{
    concat_terminated, concat_terminated_strings, decimal, join, join_strings, usize_to_decimal,
};

verus! {

/// The SQL type of a column of type `t`.
pub open spec fn sql_type(t: FieldTypeModel) -> Seq<char> {
    match t {
        FieldTypeModel::BigSerialPk => "BigSerial Primary Key"@,
        FieldTypeModel::String(max_length) => "varchar("@ + decimal(max_length) + ")"@,
        FieldTypeModel::Integer => "BigInt"@,
        FieldTypeModel::Numeric => "Numeric"@,
        FieldTypeModel::Timestamp(_) => "Timestamp"@,
        FieldTypeModel::Boolean => "Boolean"@,
    }
}

/// The column definition of the field `f`: its name, a space, its SQL type.
pub open spec fn sql_field(f: FieldModel) -> Seq<char> {
    f.name + " "@ + sql_type(f.field_type)
}

/// The column definitions of `fields`, in order.
pub open spec fn sql_fields(fields: Seq<FieldModel>) -> Seq<Seq<char>> {
    Seq::new(fields.len(), |i: int| sql_field(fields[i]))
}

/// The statement that creates the table `t`.
pub open spec fn sql_create_table(t: TableModel) -> Seq<char> {
    "CREATE TABLE "@ + t.0 + " (\n  "@ + join(sql_fields(t.1), ",\n  "@) + "\n);"@
}

/// The statement that adds the foreign key of `r`: from its `from` side to its
/// `to` side, never the other way.
pub open spec fn sql_foreign_key(r: RelationModel) -> Seq<char> {
    "ALTER TABLE "@ + r.from.table() + " ADD FOREIGN KEY ("@ + r.from.field() + ") REFERENCES "@
        + r.to.table() + "("@ + r.to.field() + ");"@
}

/// The statements that create the tables `tables`, in order.
pub open spec fn sql_tables(tables: Seq<TableModel>) -> Seq<Seq<char>> {
    Seq::new(tables.len(), |i: int| sql_create_table(tables[i]))
}

/// The statements that add the foreign keys of `relations`, in order.
pub open spec fn sql_relations(relations: Seq<RelationModel>) -> Seq<Seq<char>> {
    Seq::new(relations.len(), |i: int| sql_foreign_key(relations[i]))
}

/// The statements of the schema `m`: every table's, then every relation's.
pub open spec fn sql_schema(m: SchemaModel) -> Seq<Seq<char>> {
    sql_tables(m.tables) + sql_relations(m.relationships)
}

/// The text of the schema file: each statement of `m` on a line of its own.
pub open spec fn sql_file(m: SchemaModel) -> Seq<char> {
    concat_terminated(sql_schema(m), "\n"@)
}

/// In the statements of a schema every table is created before any foreign key
/// is added: the statement at `i` creates the table at `i`, and those after the
/// tables add the relations' keys in the relations' order.
pub proof fn lemma_tables_before_relations(m: SchemaModel)
    ensures
        sql_schema(m).len() == m.tables.len() + m.relationships.len(),
        forall|i: int|
            0 <= i < m.tables.len() ==> #[trigger] sql_schema(m)[i] == sql_create_table(
                m.tables[i],
            ),
        forall|j: int|
            0 <= j < m.relationships.len() ==> #[trigger] sql_schema(m)[m.tables.len() + j]
                == sql_foreign_key(m.relationships[j]),
{
}

/// What can be written as SQL.
pub trait ToSql {
    /// The SQL that stands for this value.
    spec fn sql_text(&self) -> Seq<char>;

    /// Writes this value as SQL.
    fn create_sql(&self) -> (r: CreateSql)
        ensures
            r@ == self.sql_text(),
    ;
}

impl ToSql for MappedFieldType {
    open spec fn sql_text(&self) -> Seq<char> {
        sql_type(self.deep_view())
    }

    fn create_sql(&self) -> (r: CreateSql) {
        match self {
            MappedFieldType::BigSerialPk => CreateSql::new(
                String::from_str("BigSerial Primary Key"),
            ),
            MappedFieldType::String(max_length) => {
                let mut s = String::from_str("varchar(");
                let digits = usize_to_decimal(*max_length);
                s.append(digits.as_str());
                s.append(")");
                CreateSql::new(s)
            },
            MappedFieldType::Integer => CreateSql::new(String::from_str("BigInt")),
            MappedFieldType::Numeric => CreateSql::new(String::from_str("Numeric")),
            MappedFieldType::Timestamp(_) => CreateSql::new(String::from_str("Timestamp")),
            MappedFieldType::Boolean => CreateSql::new(String::from_str("Boolean")),
        }
    }
}

impl ToSql for Field {
    open spec fn sql_text(&self) -> Seq<char> {
        sql_field(self.deep_view())
    }

    fn create_sql(&self) -> (r: CreateSql) {
        let mut s = self.0.clone();
        s.append(" ");
        let t = gen_create_sql(&self.1);
        s.append(t.as_str());
        CreateSql::new(s)
    }
}

impl ToSql for (String, Vec<Field>) {
    open spec fn sql_text(&self) -> Seq<char> {
        sql_create_table(self.deep_view())
    }

    fn create_sql(&self) -> (r: CreateSql) {
        let ghost fields = self.1.deep_view();
        let mut columns: Vec<String> = Vec::new();
        let mut i: usize = 0;
        while i < self.1.len()
            invariant
                i <= self.1.len(),
                fields == self.1.deep_view(),
                columns@.len() == i,
                forall|j: int| 0 <= j < i ==> columns@[j]@ == sql_field(fields[j]),
            decreases self.1.len() - i,
        {
            columns.push(gen_create_sql(&self.1[i]));
            i += 1;
        }
        assert(columns.deep_view() =~= sql_fields(fields));
        let body = join_strings(&columns, ",\n  ");
        let mut s = String::from_str("CREATE TABLE ");
        s.append(self.0.as_str());
        s.append(" (\n  ");
        s.append(body.as_str());
        s.append("\n);");
        CreateSql::new(s)
    }
}

impl ToSql for Relation {
    open spec fn sql_text(&self) -> Seq<char> {
        sql_foreign_key(self.deep_view())
    }

    fn create_sql(&self) -> (r: CreateSql) {
        let mut s = String::from_str("ALTER TABLE ");
        s.append(self.from.table().as_str());
        s.append(" ADD FOREIGN KEY (");
        s.append(self.from.field().as_str());
        s.append(") REFERENCES ");
        s.append(self.to.table().as_str());
        s.append("(");
        s.append(self.to.field().as_str());
        s.append(");");
        CreateSql::new(s)
    }
}

/// The SQL that stands for `a`.
pub fn gen_create_sql<A: ToSql>(a: &A) -> (r: String)
    ensures
        r@ == a.sql_text(),
{
    a.create_sql().into_string()
}

/// The statements of `schema`: every table's CREATE TABLE in the order of the
/// tables, then every relation's ALTER TABLE in the order of the relations.
pub fn schema_statements(schema: &SchemaSpec) -> (r: Vec<String>)
    ensures
        r.deep_view() == sql_schema(schema.deep_view()),
{
    let ghost m = schema.deep_view();
    let mut out: Vec<String> = Vec::new();
    let mut i: usize = 0;
    while i < schema.tables.len()
        invariant
            i <= schema.tables.len(),
            m == schema.deep_view(),
            out@.len() == i,
            forall|j: int| 0 <= j < i ==> out@[j]@ == sql_create_table(m.tables[j]),
        decreases schema.tables.len() - i,
    {
        out.push(gen_create_sql(&schema.tables[i]));
        i += 1;
    }
    let mut k: usize = 0;
    while k < schema.relationships.len()
        invariant
            k <= schema.relationships.len(),
            m == schema.deep_view(),
            out@.len() == m.tables.len() + k,
            forall|j: int| 0 <= j < m.tables.len() ==> out@[j]@ == sql_create_table(m.tables[j]),
            forall|j: int|
                0 <= j < k ==> out@[m.tables.len() + j]@ == sql_foreign_key(m.relationships[j]),
        decreases schema.relationships.len() - k,
    {
        out.push(gen_create_sql(&schema.relationships[k]));
        k += 1;
    }
    assert(out.deep_view() =~= sql_schema(m));
    out
}

/// The text of the schema file of `schema`: each statement on a line of its own.
pub fn schema_sql(schema: &SchemaSpec) -> (r: String)
    ensures
        r@ == sql_file(schema.deep_view()),
{
    let statements = schema_statements(schema);
    concat_terminated_strings(&statements, "\n")
}

} // verus!
