use appgen::schema_spec::WidgetDefinition;
use appgen::view_gen::{attr_strings, insert_attr, IKind, Import, JsxAttr, JsxNode, JsxNodes};

fn markup_attr(key: &str, value: JsxAttr) -> (String, JsxAttr) {
    (String::from(key), value)
}

fn markup_string(value: &str) -> JsxAttr {
    JsxAttr::JsxString(String::from(value))
}

#[test]
fn attribute_of_each_form() {
    assert_eq!(markup_string("name").to_string("source"), "source=\"name\"");
    assert_eq!(JsxAttr::JsxVariableRef(String::from("UsersList")).to_string("list"), "list={UsersList}");
    assert_eq!(JsxAttr::JsxRaw(String::from("{1 + 2}")).to_string("sum"), "sum={1 + 2}");
    assert_eq!(JsxAttr::Bool(true).to_string("disabled"), "disabled");
    assert_eq!(JsxAttr::Bool(false).to_string("disabled"), "");
    assert_eq!(JsxAttr::Ellipsis(String::from("props")).to_string(""), "{...props}");
    assert_eq!(JsxAttr::Ellipsis(String::from("props")).to_string("ignored"), "{...props}");
}

#[test]
fn plain_object_attribute() {
    let object = JsxAttr::Object(vec![
        (String::from("width"), String::from("10")),
        (String::from("height"), String::from("20")),
    ]);
    assert_eq!(object.to_string("style"), "{width: 10, height: 20}");
    assert_eq!(JsxAttr::Object(Vec::new()).to_string("style"), "{}");
}

#[test]
fn nested_object_attribute() {
    let inner = JsxAttr::JsxObject(vec![(String::from("deep"), Box::new(JsxAttr::Bool(true)))]);
    let object = JsxAttr::JsxObject(vec![
        (String::from("a"), Box::new(markup_string("x"))),
        (String::from("b"), Box::new(JsxAttr::JsxVariableRef(String::from("y")))),
        (String::from("c"), Box::new(inner)),
    ]);
    assert_eq!(object.to_string("outer"), "{a=\"x\", b={y}, {deep}}");
    assert_eq!(JsxAttr::JsxObject(Vec::new()).to_string("outer"), "{}");
}

#[test]
fn attributes_keep_their_order() {
    let attrs = vec![
        markup_attr("z", markup_string("1")),
        markup_attr("a", markup_string("2")),
        markup_attr("m", JsxAttr::Bool(true)),
    ];
    assert_eq!(attr_strings(&attrs), vec!["z=\"1\"", "a=\"2\"", "m"]);
    let node = JsxNode::Leaf(String::from("Tag"), Some(attrs));
    assert_eq!(node.attr_string(), "z=\"1\" a=\"2\" m");
    assert_eq!(node.to_string(true, String::new()), "<Tag z=\"1\" a=\"2\" m/>");
}

#[test]
fn inserting_attributes() {
    let mut attrs: Vec<(String, JsxAttr)> = Vec::new();
    insert_attr(&mut attrs, String::from("name"), markup_string("users"));
    insert_attr(&mut attrs, String::from("list"), JsxAttr::JsxVariableRef(String::from("A")));
    insert_attr(&mut attrs, String::from("edit"), JsxAttr::JsxVariableRef(String::from("B")));
    insert_attr(&mut attrs, String::from("list"), JsxAttr::JsxVariableRef(String::from("C")));
    assert_eq!(attr_strings(&attrs), vec!["name=\"users\"", "list={C}", "edit={B}"]);
}

#[test]
fn node_without_attributes_or_children_closes_itself() {
    assert_eq!(JsxNode::node("Empty", None, Vec::new()).to_string(true, String::new()), "<Empty/>");
    assert_eq!(
        JsxNode::node("Empty", Some(Vec::new()), Vec::new()).to_string(false, String::from("  ")),
        "<Empty/>"
    );
    assert_eq!(JsxNode::Leaf(String::from("Empty"), None).to_string(true, String::new()), "<Empty/>");
}

#[test]
fn node_with_attributes_only() {
    let node = JsxNode::node("Field", Some(vec![markup_attr("source", markup_string("id"))]), Vec::new());
    assert_eq!(node.to_string(true, String::new()), "<Field source=\"id\"/>");
}

#[test]
fn node_with_children_only() {
    let node = JsxNode::node(
        "Outer",
        None,
        vec![JsxNode::node("A", None, Vec::new()), JsxNode::node("B", None, Vec::new())],
    );
    assert_eq!(node.to_string(true, String::new()), "<Outer>\n<A/>\n<B/>\n</Outer>");
    assert_eq!(node.to_string(true, String::from("  ")), "<Outer>\n  <A/>\n  <B/>\n</Outer>");
    assert_eq!(node.child_string(String::from("--")), "--<A/>\n--<B/>");
}

#[test]
fn node_with_attributes_and_children() {
    let inner = JsxNode::node(
        "Inner",
        Some(vec![markup_attr("k", markup_string("v"))]),
        vec![JsxNode::Leaf(String::from("Leaf"), None)],
    );
    let node = JsxNode::node("Outer", Some(vec![markup_attr("flag", JsxAttr::Bool(true))]), vec![inner]);
    assert_eq!(
        node.to_string(true, String::from(" ")),
        "<Outer flag>\n <Inner k=\"v\">\n   <Leaf/>\n</Inner>\n</Outer>"
    );
}

#[test]
fn false_flag_writes_nothing() {
    let node = JsxNode::Leaf(String::from("Box"), Some(vec![markup_attr("hidden", JsxAttr::Bool(false))]));
    assert_eq!(node.attr_string(), "");
    assert_eq!(node.to_string(true, String::new()), "<Box/>");
}

#[test]
fn text_writes_nothing() {
    let text = JsxNode::Text(String::from("No Node"));
    assert_eq!(text.to_string(true, String::new()), "");
    assert_eq!(text.attr_string(), "");
    assert_eq!(text.child_string(String::from("  ")), "");
    assert_eq!(text.tag(), None);
}

#[test]
fn node_with_children_is_wrapped_whatever_they_write() {
    let holder = JsxNode::node("Holder", None, vec![JsxNode::Text(String::from("words"))]);
    assert_eq!(holder.to_string(true, String::new()), "<Holder>\n\n</Holder>");
    assert_eq!(holder.to_string(true, String::from("  ")), "<Holder>\n  \n</Holder>");
    let attributed = JsxNode::node(
        "Holder",
        Some(vec![markup_attr("k", markup_string("v"))]),
        vec![JsxNode::Text(String::new()), JsxNode::Text(String::new())],
    );
    assert_eq!(attributed.to_string(false, String::new()), "<Holder k=\"v\">\n\n\n</Holder>");
    assert_eq!(attributed.to_string(false, String::from(" ")), "<Holder k=\"v\">\n \n \n</Holder>");
}

fn markup_without_indentation(text: &str) -> Vec<String> {
    text.split('\n').map(|line| String::from(line.trim_start_matches(' '))).collect()
}

#[test]
fn prefix_changes_the_indentation_only() {
    let leaf = JsxNode::Leaf(String::from("Leaf"), Some(vec![markup_attr("a", markup_string("b c"))]));
    let inner = JsxNode::node(
        "Inner",
        Some(vec![markup_attr("k", markup_string("v"))]),
        vec![leaf, JsxNode::Text(String::from("t")), JsxNode::node("Empty", None, Vec::new())],
    );
    let tree = JsxNode::node(
        "Outer",
        None,
        vec![inner, JsxNode::Text(String::from("u")), JsxNode::Leaf(String::from("Last"), None)],
    );
    let plain = tree.to_string(true, String::new());
    assert_eq!(
        plain,
        "<Outer>\n<Inner k=\"v\">\n  <Leaf a=\"b c\"/>\n  \n  <Empty/>\n</Inner>\n\n<Last/>\n</Outer>"
    );
    for prefix in ["", " ", "  ", "      "] {
        for top_level in [true, false] {
            let text = tree.to_string(top_level, String::from(prefix));
            assert_eq!(markup_without_indentation(&text), markup_without_indentation(&plain));
            assert_eq!(text.split('\n').count(), 9);
        }
    }
}

#[test]
fn tags() {
    assert_eq!(JsxNode::node("A", None, Vec::new()).tag(), Some(String::from("A")));
    assert_eq!(JsxNode::Leaf(String::from("B"), None).tag(), Some(String::from("B")));
}

#[test]
fn node_boxes_its_children() {
    let node = JsxNode::node("P", None, vec![JsxNode::Text(String::from("t"))]);
    match node {
        JsxNode::Node(tag, attrs, children) => {
            assert_eq!(tag, "P");
            assert!(attrs.is_none());
            assert_eq!(children.len(), 1);
            assert!(matches!(&*children[0], JsxNode::Text(t) if t == "t"));
        }
        other => panic!("{:?}", other),
    }
}

#[test]
fn import_of_named_symbols() {
    assert_eq!(
        Import::new("./UsersList", vec!["UsersList"]).to_string(),
        "import {UsersList} from './UsersList';"
    );
    assert_eq!(
        Import::new("lib", vec!["a", "b", "c"]).to_string(),
        "import {a, b, c} from 'lib';"
    );
}

#[test]
fn import_without_symbols() {
    assert_eq!(Import::new("Bogus", Vec::new()).to_string(), "import  from 'Bogus';");
    assert_eq!(Import::new("lib", vec![""]).to_string(), "import  from 'lib';");
    assert_eq!(Import::new("lib", vec!["", ""]).to_string(), "import {, } from 'lib';");
}

#[test]
fn import_of_the_markup_library() {
    assert_eq!(Import::react().to_string(), "import React from 'react';");
}

#[test]
fn import_from_the_interface_library() {
    let import = Import::react_admin(vec![String::from("SimpleForm"), String::from("Edit")]);
    assert_eq!(import.to_string(), "import {SimpleForm, Edit} from 'react-admin';");
}

#[test]
fn import_of_a_widget() {
    let import = Import::from_widget(WidgetDefinition::simple("NumberField"));
    assert_eq!(import.to_string(), "import {NumberField} from 'react-admin';");
}

#[test]
fn imports_are_not_merged() {
    let mut import = Import::react();
    let others = vec![
        Import::react_admin(vec![String::from("A")]),
        Import::react_admin(vec![String::from("B")]),
        Import::react_admin(vec![String::from("A")]),
    ];
    let merged = import.merge(others);
    let lines: Vec<String> = merged.iter().map(|i| i.to_string()).collect();
    assert_eq!(
        lines,
        vec![
            "import {A} from 'react-admin';",
            "import {B} from 'react-admin';",
            "import {A} from 'react-admin';",
        ]
    );
    assert_eq!(import.to_string(), "import React from 'react';");
}

#[test]
fn symbol_kinds_print() {
    assert_eq!(format!("{:?}", IKind::Named(String::from("A"))), "Named(\"A\")");
    assert_eq!(format!("{:?}", IKind::Defaulted(String::from("B"))), "Defaulted(\"B\")");
}

#[test]
fn form_and_grid() {
    let (form, import) = JsxNodes::simple_form("Edit", vec![JsxNode::Leaf(String::from("X"), None)]);
    assert_eq!(
        form.to_string(true, String::new()),
        "<Edit {...props}>\n<SimpleForm>\n  <X/>\n</SimpleForm>\n</Edit>"
    );
    assert_eq!(import.to_string(), "import {SimpleForm, Edit} from 'react-admin';");
    let (grid, import) = JsxNodes::datagrid("List", Vec::new());
    assert_eq!(grid.to_string(true, String::new()), "<List {...props}>\n<Datagrid/>\n</List>");
    assert_eq!(import.to_string(), "import {Datagrid, List} from 'react-admin';");
}
