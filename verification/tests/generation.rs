use appgen::generator::{generate, import_strings, make_admin_tag, view_module_text};
use appgen::schema_spec::{
    Cardinality, Field, MappedFieldType, Options, Relation, SchemaSpec, UiViewSource, ViewKind,
    ViewSpec,
};
use appgen::view_gen::{Import, JsxNode};

fn generation_view(table: &str, kind: ViewKind) -> ViewSpec {
    ViewSpec {
        source: UiViewSource { name: String::from(table), override_query: None },
        view: kind,
        field_order: Vec::new(),
        widget_override: Vec::new(),
        actions: Vec::new(),
    }
}

fn generation_schema() -> SchemaSpec {
    SchemaSpec {
        tables: vec![
            (
                String::from("users"),
                vec![
                    Field(String::from("id"), MappedFieldType::BigSerialPk, Options::default()),
                    Field(
                        String::from("name"),
                        MappedFieldType::String(64),
                        Options { label: String::from("Name"), ..Options::default() },
                    ),
                ],
            ),
            (
                String::from("posts"),
                vec![Field(String::from("user_id"), MappedFieldType::Integer, Options::default())],
            ),
        ],
        relationships: vec![Relation {
            from: Cardinality::Many(String::from("posts"), String::from("user_id")),
            to: Cardinality::One(String::from("users"), String::from("id")),
        }],
        views: vec![
            generation_view("posts", ViewKind::List),
            generation_view("users", ViewKind::List),
            generation_view("users", ViewKind::Edit),
            generation_view("ghosts", ViewKind::Show),
            generation_view("posts", ViewKind::Delete),
        ],
        api: Vec::new(),
        acl: Vec::new(),
    }
}

#[test]
fn resource_names_its_views() {
    let views = vec![
        (String::from("list"), String::from("UsersList")),
        (String::from("edit"), String::from("UsersEdit")),
    ];
    let tag = make_admin_tag("users", &views);
    assert!(matches!(&tag, JsxNode::Leaf(name, Some(attrs)) if name == "Resource" && attrs.len() == 3));
    assert_eq!(
        tag.to_string(true, String::new()),
        "<Resource name=\"users\" list={UsersList} edit={UsersEdit}/>"
    );
}

#[test]
fn resource_without_views() {
    assert_eq!(
        make_admin_tag("users", &Vec::new()).to_string(true, String::new()),
        "<Resource name=\"users\"/>"
    );
}

#[test]
fn later_view_of_a_kind_stays() {
    let views = vec![
        (String::from("list"), String::from("First")),
        (String::from("show"), String::from("Shown")),
        (String::from("list"), String::from("Second")),
    ];
    assert_eq!(
        make_admin_tag("t", &views).to_string(true, String::new()),
        "<Resource name=\"t\" list={Second} show={Shown}/>"
    );
}

#[test]
fn view_kind_named_like_the_resource_attribute() {
    let views = vec![(String::from("name"), String::from("Odd"))];
    assert_eq!(
        make_admin_tag("t", &views).to_string(true, String::new()),
        "<Resource name={Odd}/>"
    );
}

#[test]
fn view_module() {
    let node = JsxNode::node("List", None, vec![JsxNode::Leaf(String::from("Datagrid"), None)]);
    let imports = vec![Import::react(), Import::new("x", vec!["Y"])];
    assert_eq!(import_strings(&imports), vec!["import React from 'react';", "import {Y} from 'x';"]);
    assert_eq!(
        view_module_text("UsersList", &node, &imports),
        "import React from 'react';\nimport {Y} from 'x';\n\nexport const UsersList = (props) => (\n<List>\n<Datagrid/>\n</List>\n);\n"
    );
    assert_eq!(
        view_module_text("V", &JsxNode::Text(String::from("gone")), &Vec::new()),
        "\n\nexport const V = (props) => (\n\n);\n"
    );
}

#[test]
fn whole_generation() {
    let out = generate(&generation_schema(), "provider('http://api')", "import provider from 'p'");
    assert_eq!(
        out.sql,
        "CREATE TABLE users (\n  id BigSerial Primary Key,\n  name varchar(64)\n);\n\
         CREATE TABLE posts (\n  user_id BigInt\n);\n\
         ALTER TABLE posts ADD FOREIGN KEY (user_id) REFERENCES users(id);\n"
    );
    let names: Vec<&str> = out.views.iter().map(|v| v.0.as_str()).collect();
    assert_eq!(names, vec!["PostsList.js", "UsersList.js", "UsersEdit.js", ".js", "PostsDelete.js"]);
    assert_eq!(
        out.views[0].1,
        "import React from 'react';\n\
         import {NumberField} from 'react-admin';\n\
         import {Datagrid, List} from 'react-admin';\n\
         \n\
         export const PostsList = (props) => (\n\
         <List {...props}>\n<Datagrid>\n  <NumberField source=\"user_id\"/>\n</Datagrid>\n</List>\n\
         );\n"
    );
    assert_eq!(
        out.views[2].1,
        "import React from 'react';\n\
         import {TextInput} from 'react-admin';\n\
         import {TextInput} from 'react-admin';\n\
         import {SimpleForm, Edit} from 'react-admin';\n\
         \n\
         export const UsersEdit = (props) => (\n\
         <Edit {...props}>\n<SimpleForm>\n  <TextInput source=\"id\"/>\n  <TextInput source=\"name\" label=\"Name\"/>\n</SimpleForm>\n</Edit>\n\
         );\n"
    );
    assert_eq!(out.views[3].1, "\n\nexport const  = (props) => (\n\n);\n");
    assert_eq!(
        out.views[4].1,
        "import React from 'react';\n\
         import {NumberField} from 'react-admin';\n\
         import  from 'Bogus';\n\
         \n\
         export const PostsDelete = (props) => (\n\n);\n"
    );
    assert_eq!(
        out.app,
        "import React from 'react';\n\
         import { Admin, Resource } from 'react-admin';\n\
         import provider from 'p';\n\
         import {PostsList} from './PostsList';\n\
         import {UsersList} from './UsersList';\n\
         import {UsersEdit} from './UsersEdit';\n\
         import  from './';\n\
         import {PostsDelete} from './PostsDelete';\n\
         const App = () => (\n\
         <Admin dataProvider={provider('http://api')}>\n\
         <Resource name=\"posts\" list={PostsList} delete={PostsDelete}/>\n\
         <Resource name=\"users\" list={UsersList} edit={UsersEdit}/>\n\
         <Resource name=\"ghosts\" show={}/>\n\
         </Admin>\n\
         );\nexport default App;"
    );
}

#[test]
fn generation_without_views() {
    let mut schema = generation_schema();
    schema.views.clear();
    let out = generate(&schema, "make thing", "import thing");
    assert!(out.views.is_empty());
    assert_eq!(
        out.app,
        "import React from 'react';\n\
         import { Admin, Resource } from 'react-admin';\n\
         import thing;\n\
         const App = () => (\n\
         <Admin dataProvider={make thing}/>\n\
         );\nexport default App;"
    );
}

#[test]
fn generating_twice_gives_the_same_text() {
    let first = generate(&generation_schema(), "p()", "import p from 'p'");
    for _ in 0..10 {
        let again = generate(&generation_schema(), "p()", "import p from 'p'");
        assert_eq!(again.sql.as_bytes(), first.sql.as_bytes());
        assert_eq!(again.views, first.views);
        assert_eq!(again.app.as_bytes(), first.app.as_bytes());
    }
}
