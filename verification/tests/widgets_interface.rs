use appgen::viewgen::{
    build_tag_for_widget, capitalize, dump_text, filter_for_view, gen_jsx_tag_attrs, has_view,
    jsx_def, make_admin_tag, make_edit_view, make_form_view, make_imports, make_list_view,
    make_resource_import, make_views, make_widgets, name_of_kind, sort_by_order, view_name,
    views_text, AttrV, Attrs, BaseView, GenScript, Import, Node, ResourceDef, UiDef,
    ViewWidgetDef, WebInterface, WidgetDef,
};

fn ui_resource(name: &str, label: &str, actions: Option<Vec<BaseView>>) -> ResourceDef {
    ResourceDef {
        name: String::from(name),
        label: String::from(label),
        endpoint: None,
        enabled_actions: actions,
    }
}

fn ui_widget(resource: &str, field: &str, ty: &str, order: Option<usize>, views: &[BaseView]) -> ViewWidgetDef {
    ViewWidgetDef {
        resource: String::from(resource),
        field_source: String::from(field),
        label: None,
        widget_type: String::from(ty),
        order,
        views: views.to_vec(),
        props: None,
        child: None,
    }
}

fn ui_attr(key: &str, value: AttrV) -> (String, AttrV) {
    (String::from(key), value)
}

#[test]
fn view_keys() {
    assert_eq!(BaseView::Default.as_key(), "default");
    assert_eq!(BaseView::Create.as_key(), "create");
    assert_eq!(BaseView::Delete.as_key(), "delete");
    assert_eq!(BaseView::Edit.as_key(), "edit");
    assert_eq!(BaseView::Filter.as_key(), "filter");
    assert_eq!(BaseView::List.as_key(), "list");
    assert_eq!(BaseView::Show.as_key(), "show");
}

#[test]
fn title_case() {
    assert_eq!(capitalize("users"), "Users");
    assert_eq!(capitalize("uSERS"), "Users");
    assert_eq!(capitalize("order_LINE"), "Order_line");
    assert_eq!(capitalize(""), "");
    assert_eq!(capitalize("x"), "X");
    assert_eq!(capitalize("\u{e9}T\u{c9}"), "\u{c9}t\u{e9}");
}

#[test]
fn names_of_views() {
    assert_eq!(view_name("users", &BaseView::List), "UsersList");
    assert_eq!(view_name("users", &BaseView::Edit), "UsersEdit");
    assert_eq!(view_name("users", &BaseView::Show), "UsersShow");
    assert_eq!(view_name("users", &BaseView::Create), "UsersCreate");
    assert_eq!(view_name("users", &BaseView::Filter), "");
    assert_eq!(view_name("users", &BaseView::Delete), "");
    assert_eq!(view_name("users", &BaseView::Default), "");
    assert_eq!(view_name("orderLine", &BaseView::List), "OrderlineList");
    assert_eq!(name_of_kind(String::from("Any"), &BaseView::Show), "AnyShow");
    assert_eq!(name_of_kind(String::from("Any"), &BaseView::Filter), "");
}

#[test]
fn values_as_script() {
    assert_eq!(AttrV::string("a").gen(), "\"a\"");
    assert_eq!(AttrV::JRaw(String::from("1 + 1")).gen(), "1 + 1");
    assert_eq!(AttrV::JVarRef(String::from("name")).gen(), "name");
    assert_eq!(AttrV::Bool(true).gen(), "true");
    assert_eq!(AttrV::Bool(false).gen(), "false");
    assert_eq!(AttrV::Ellipsis(String::from("props")).gen(), "...props");
    assert_eq!(
        AttrV::Object(vec![
            (String::from("a"), String::from("1")),
            (String::from("b"), String::from("2"))
        ])
        .gen(),
        "a: \"1\", b: \"2\""
    );
    assert_eq!(
        AttrV::JObject(vec![
            (String::from("on"), Box::new(AttrV::Bool(true))),
            (String::from("name"), Box::new(AttrV::string("n"))),
            (String::from("in"), Box::new(AttrV::JObject(vec![(String::from("x"), Box::new(AttrV::JRaw(String::from("y"))))]))),
        ])
        .gen(),
        "on: true, name: \"n\", in: x: y"
    );
    assert_eq!(AttrV::Object(Vec::new()).to_script(), "");
    let value = AttrV::JVarRef(String::from("r"));
    assert_eq!((&value).gen(), "r");
}

#[test]
fn attributes_in_a_tag() {
    assert_eq!(gen_jsx_tag_attrs(&None), "");
    assert_eq!(gen_jsx_tag_attrs(&Some(Vec::new())), "");
    let attrs = vec![
        ui_attr("a", AttrV::Bool(true)),
        ui_attr("b", AttrV::Bool(false)),
        ui_attr("c", AttrV::string("x")),
        ui_attr("_", AttrV::Ellipsis(String::from("props"))),
        ui_attr("d", AttrV::JVarRef(String::from("v"))),
        ui_attr("e", AttrV::JRaw(String::from("r"))),
        ui_attr("f", AttrV::Object(vec![(String::from("k"), String::from("w"))])),
    ];
    assert_eq!(
        gen_jsx_tag_attrs(&Some(attrs)),
        "a  c=\"x\" {...props} d={v} e={r} f={k: \"w\"}"
    );
    let held = Attrs::new(vec![ui_attr("k", AttrV::string("v"))]);
    assert_eq!(gen_jsx_tag_attrs(&Some(held.into_vec())), "k=\"v\"");
}

#[test]
fn nodes_as_script() {
    assert_eq!(Node::tag("A").gen(), "<A/>");
    assert_eq!(Node::node("A", Some(vec![ui_attr("k", AttrV::string("v"))]), Vec::new()).gen(), "<A k=\"v\"/>");
    assert_eq!(Node::node("A", None, vec![Node::text("hi")]).gen(), "<A>\nhi\n</A>");
    assert_eq!(
        Node::node("A", Some(vec![ui_attr("k", AttrV::string("v"))]), vec![Node::text("hi")]).gen(),
        "<A k=\"v\">\nhi\n</A>"
    );
    assert_eq!(Node::node("A", None, vec![Node::tag("B"), Node::tag("C")]).gen(), "<A>\n<B/>\n<C/>\n</A>");
    assert_eq!(Node::Leaf(String::from("L"), None).gen(), "<L />");
    assert_eq!(Node::Leaf(String::from("L"), Some(vec![ui_attr("k", AttrV::string("v"))])).gen(), "<L k=\"v\"/>");
    assert_eq!(Node::text("words").gen(), "words");
    assert_eq!(Node::text("words").to_script(), "words");
}

#[test]
fn node_tags_and_children() {
    assert_eq!(Node::tag("A").get_tag(), Some(String::from("A")));
    assert_eq!(Node::Leaf(String::from("L"), None).get_tag(), Some(String::from("L")));
    assert_eq!(Node::text("t").get_tag(), None);
    let mut node = Node::tag("A");
    node.extend(Node::tag("B"));
    node.extend(Node::text("t"));
    assert_eq!(node.gen(), "<A>\n<B/>\nt\n</A>");
    let mut leaf = Node::Leaf(String::from("L"), None);
    leaf.extend(Node::tag("B"));
    assert_eq!(leaf.gen(), "<L />");
    let mut text = Node::text("t");
    text.extend(Node::tag("B"));
    assert_eq!(text.gen(), "t");
}

#[test]
fn scripts_of_containers() {
    let import = Import { source: String::from("lib"), symbols: vec![String::from("A"), String::from("B")] };
    assert_eq!(import.gen(), "import {A, B} from 'lib';\n");
    let none = Import { source: String::from("lib"), symbols: Vec::new() };
    assert_eq!(none.gen(), "import {} from 'lib';\n");
    assert_eq!(vec![Node::tag("A"), Node::tag("B")].gen(), "<A/>\n<B/>\n");
    assert_eq!(Vec::<Node>::new().gen(), "\n");
    assert_eq!(Some(Node::tag("A")).gen(), "<A/>");
    assert_eq!(None::<Node>.gen(), "");
    assert_eq!(Box::new(Node::tag("A")).gen(), "<A/>");
    let merged = Import::merge(vec![import, none]);
    assert_eq!(merged.len(), 2);
    assert_eq!(merged[0].symbols, vec!["A", "B"]);
}

#[test]
fn view_definitions() {
    assert_eq!(
        jsx_def("UsersList", &Some(Node::tag("A")), true),
        "export const UsersList = (props) => (\n<A/>\n);"
    );
    assert_eq!(jsx_def("UsersList", &Some(Node::tag("A")), false), "const UsersList = (props) => (\n<A/>\n);");
    assert_eq!(jsx_def("UsersList", &None, true), "");
    assert_eq!(jsx_def("UsersList", &Some(Node::text("")), true), "");
}

#[test]
fn resource_tag() {
    let resource = ui_resource("users", "All users", Some(vec![BaseView::List, BaseView::Edit, BaseView::Delete]));
    assert_eq!(
        make_admin_tag(&resource).gen(),
        "<Resource name=\"users\" title=\"All users\" list={UsersList} edit={UsersEdit} delete={}/>"
    );
    assert_eq!(
        make_admin_tag(&ui_resource("users", "U", None)).gen(),
        "<Resource name=\"users\" title=\"U\"/>"
    );
    let twice = ui_resource("users", "U", Some(vec![BaseView::Show, BaseView::List, BaseView::Show]));
    assert_eq!(
        make_admin_tag(&twice).gen(),
        "<Resource name=\"users\" title=\"U\" show={UsersShow} list={UsersList}/>"
    );
    assert!(make_resource_import(&resource).is_empty());
}

#[test]
fn widget_tags() {
    let plain = ui_widget("users", "title", "TextField", None, &[BaseView::List]);
    assert_eq!(build_tag_for_widget(&plain).gen(), "<TextField label=\"title\" source=\"title\"/>");
    let mut labelled = ui_widget("users", "title", "TextInput", None, &[BaseView::Edit]);
    labelled.label = Some(String::from("Title"));
    assert_eq!(build_tag_for_widget(&labelled).gen(), "<TextInput label=\"Title\" source=\"title\"/>");
    let action = ui_widget("users", "action", "EditButton", None, &[BaseView::List]);
    assert_eq!(build_tag_for_widget(&action).gen(), "<EditButton/>");
}

#[test]
fn widgets_of_a_view() {
    let widgets = vec![
        ui_widget("users", "a", "T", None, &[BaseView::List, BaseView::Edit]),
        ui_widget("posts", "b", "T", None, &[BaseView::List]),
        ui_widget("users", "c", "T", None, &[BaseView::Edit]),
        ui_widget("users", "d", "T", None, &[BaseView::List]),
        ui_widget("users", "e", "T", None, &[]),
    ];
    let fields = |found: Vec<&ViewWidgetDef>| -> Vec<String> {
        found.iter().map(|w| w.field_source.clone()).collect()
    };
    assert_eq!(fields(filter_for_view("users", &BaseView::List, &widgets)), vec!["a", "d"]);
    assert_eq!(fields(filter_for_view("users", &BaseView::Edit, &widgets)), vec!["a", "c"]);
    assert_eq!(fields(filter_for_view("posts", &BaseView::List, &widgets)), vec!["b"]);
    assert!(filter_for_view("users", &BaseView::Show, &widgets).is_empty());
    assert!(filter_for_view("nobody", &BaseView::List, &widgets).is_empty());
    assert!(has_view(&widgets[0].views, &BaseView::Edit));
    assert!(!has_view(&widgets[0].views, &BaseView::Show));
}

#[test]
fn widgets_by_their_places() {
    let widgets = vec![
        ui_widget("r", "c", "T", Some(3), &[]),
        ui_widget("r", "n1", "T", None, &[]),
        ui_widget("r", "a", "T", Some(1), &[]),
        ui_widget("r", "z", "T", Some(0), &[]),
        ui_widget("r", "a2", "T", Some(1), &[]),
        ui_widget("r", "n2", "T", None, &[]),
        ui_widget("r", "b", "T", Some(2), &[]),
    ];
    let sorted = sort_by_order(widgets.iter().collect());
    let fields: Vec<&str> = sorted.iter().map(|w| w.field_source.as_str()).collect();
    assert_eq!(fields, vec!["n1", "z", "n2", "a", "a2", "b", "c"]);
    assert!(sort_by_order(Vec::new()).is_empty());
}

#[test]
fn list_and_forms() {
    let resource = ui_resource("users", "Users", None);
    let widgets = vec![
        ui_widget("users", "name", "TextField", Some(2), &[BaseView::List]),
        ui_widget("users", "id", "NumberField", Some(1), &[BaseView::List]),
    ];
    let (imports, list) = make_list_view(&resource, widgets.iter().collect());
    assert_eq!(
        list.gen(),
        "<List {...props}>\n<Datagrid>\n<NumberField label=\"id\" source=\"id\"/>\n<TextField label=\"name\" source=\"name\"/>\n</Datagrid>\n</List>"
    );
    assert_eq!(imports.gen(), "import {NumberField} from 'unk';\n\nimport {TextField} from 'unk';\n\n");
    let (imports, form) = make_form_view(&resource, widgets.iter().collect(), "Create");
    assert_eq!(
        form.gen(),
        "<Create {...props}>\n<SimpleForm>\n<NumberField label=\"id\" source=\"id\"/>\n<TextField label=\"name\" source=\"name\"/>\n</SimpleForm>\n</Create>"
    );
    assert_eq!(imports.len(), 2);
    let (imports, edit) = make_edit_view(&resource, Vec::new());
    assert_eq!(edit.gen(), "<Edit {...props}>\n<SimpleForm/>\n</Edit>");
    assert!(imports.is_empty());
    let tags = make_widgets(widgets.iter().collect());
    assert_eq!(tags.len(), 2);
    assert_eq!(make_imports(&tags).len(), 2);
    assert!(make_imports(&vec![Node::text("t")]).is_empty());
}

fn ui_definition() -> UiDef {
    UiDef {
        resources: vec![
            ui_resource("users", "Users", Some(vec![BaseView::List, BaseView::Edit])),
            ui_resource("posts", "Posts", None),
        ],
        widgets: vec![
            ui_widget("users", "name", "TextField", Some(2), &[BaseView::List, BaseView::Show]),
            ui_widget("users", "id", "NumberField", Some(1), &[BaseView::List]),
            ui_widget("users", "name", "TextInput", None, &[BaseView::Edit, BaseView::Create]),
        ],
    }
}

#[test]
fn views_of_a_resource() {
    let def = ui_definition();
    let views = make_views(&def.resources[0], &def.widgets);
    assert_eq!(views.resource_prefix, "users");
    assert_eq!(views.imports.len(), 5);
    assert!(views.filter.is_none());
    assert_eq!(
        views.show.as_ref().unwrap().gen(),
        "<Edit {...props}>\n<SimpleForm>\n<TextField label=\"name\" source=\"name\"/>\n</SimpleForm>\n</Edit>"
    );
    assert_eq!(
        views_text(&views),
        "export const UsersList = (props) => (\n<List {...props}>\n<Datagrid>\n<NumberField label=\"id\" source=\"id\"/>\n<TextField label=\"name\" source=\"name\"/>\n</Datagrid>\n</List>\n);\n\
         export const UsersEdit = (props) => (\n<Edit {...props}>\n<SimpleForm>\n<TextInput label=\"name\" source=\"name\"/>\n</SimpleForm>\n</Edit>\n);\n\
         export const UsersCreate = (props) => (\n<Create {...props}>\n<SimpleForm>\n<TextInput label=\"name\" source=\"name\"/>\n</SimpleForm>\n</Create>\n);\n\
         export const UsersShow = (props) => (\n<Edit {...props}>\n<SimpleForm>\n<TextField label=\"name\" source=\"name\"/>\n</SimpleForm>\n</Edit>\n);\n\
         \n"
    );
}

#[test]
fn whole_interface() {
    let interface = WebInterface::from_def(&ui_definition());
    assert!(interface.imports.is_empty());
    let names: Vec<&str> = interface.resource_views.iter().map(|v| v.0.as_str()).collect();
    assert_eq!(names, vec!["users", "posts"]);
    assert_eq!(
        interface.resource_defs.gen(),
        "<Admin dataProvider={postgrestClient('http://localhost:3000/api')}>\n\
         <Resource name=\"users\" title=\"Users\" list={UsersList} edit={UsersEdit}/>\n\
         <Resource name=\"posts\" title=\"Posts\"/>\n\
         </Admin>"
    );
    let text = dump_text(&interface);
    let empty_views = "export const PostsList = (props) => (\n<List {...props}>\n<Datagrid/>\n</List>\n);\n\
         export const PostsEdit = (props) => (\n<Edit {...props}>\n<SimpleForm/>\n</Edit>\n);\n\
         export const PostsCreate = (props) => (\n<Create {...props}>\n<SimpleForm/>\n</Create>\n);\n\
         export const PostsShow = (props) => (\n<Edit {...props}>\n<SimpleForm/>\n</Edit>\n);\n\
         \n";
    assert_eq!(
        text,
        format!(
            "const App = () => (\n{}\n);\n{}{}export default App;\n\n",
            interface.resource_defs.gen(),
            views_text(&interface.resource_views[0].1),
            empty_views
        )
    );
    assert_eq!(dump_text(&WebInterface::from_def(&ui_definition())), text);
}

#[test]
fn interface_with_imports_and_repeated_resources() {
    let def = UiDef {
        resources: vec![
            ui_resource("a", "First", None),
            ui_resource("b", "Other", None),
            ui_resource("a", "Second", Some(vec![BaseView::List])),
        ],
        widgets: Vec::new(),
    };
    let mut interface = WebInterface::from_def(&def);
    let names: Vec<&str> = interface.resource_views.iter().map(|v| v.0.as_str()).collect();
    assert_eq!(names, vec!["a", "b"]);
    assert_eq!(
        interface.resource_defs.gen(),
        "<Admin dataProvider={postgrestClient('http://localhost:3000/api')}>\n\
         <Resource name=\"a\" title=\"First\"/>\n\
         <Resource name=\"b\" title=\"Other\"/>\n\
         <Resource name=\"a\" title=\"Second\" list={AList}/>\n\
         </Admin>"
    );
    interface.imports.push(Import { source: String::from("lib"), symbols: vec![String::from("X")] });
    assert!(dump_text(&interface).starts_with("import {X} from 'lib';\n\nconst App = () => (\n<Admin "));
    let widget = WidgetDef { widget_type: String::from("w"), child: None, props: None };
    assert_eq!(format!("{:?}", widget), "WidgetDef { widget_type: \"w\", child: None, props: None }");
}
