use appgen::schema_spec::{
    Cardinality, Editable, MappedFieldType, Nullable, Options, RustStruct, TypeMap, TypeMapEntry,
    TypeMapMatch, TypeMapQuery, ViewKind, ViewSpec, WidgetDefinition, WidgetSpec,
};

const KINDS: [ViewKind; 6] = [
    ViewKind::Create,
    ViewKind::Edit,
    ViewKind::Show,
    ViewKind::List,
    ViewKind::Filter,
    ViewKind::Delete,
];

const EDITABLES: [Editable; 3] = [Editable::WriteOnce, Editable::ReadOnly, Editable::ReadWrite];

fn widget_types() -> Vec<MappedFieldType> {
    vec![
        MappedFieldType::BigSerialPk,
        MappedFieldType::Boolean,
        MappedFieldType::String(0),
        MappedFieldType::String(127),
        MappedFieldType::String(128),
        MappedFieldType::String(4000),
        MappedFieldType::Integer,
        MappedFieldType::Numeric,
        MappedFieldType::Timestamp(None),
        MappedFieldType::Timestamp(Some(String::from("with time zone"))),
    ]
}

fn widget_options(editable: Editable) -> Options {
    Options { editable, ..Options::default() }
}

fn widget_is_edited(editable: Editable, kind: ViewKind) -> bool {
    match editable {
        Editable::ReadOnly => false,
        Editable::WriteOnce => kind == ViewKind::Create,
        Editable::ReadWrite => {
            kind == ViewKind::Create || kind == ViewKind::Edit || kind == ViewKind::Filter
        }
    }
}

fn widget_expected(ty: &MappedFieldType, edited: bool) -> &'static str {
    match (ty, edited) {
        (MappedFieldType::BigSerialPk, _) => "TextInput",
        (MappedFieldType::Boolean, true) => "BooleanInput",
        (MappedFieldType::Boolean, false) => "BooleanField",
        (MappedFieldType::String(n), true) => {
            if *n < 128 {
                "TextInput"
            } else {
                "LongTextInput"
            }
        }
        (MappedFieldType::String(_), false) => "TextField",
        (MappedFieldType::Integer, true) | (MappedFieldType::Numeric, true) => "NumberInput",
        (MappedFieldType::Integer, false) | (MappedFieldType::Numeric, false) => "NumberField",
        (MappedFieldType::Timestamp(_), true) => "TextInput",
        (MappedFieldType::Timestamp(_), false) => "TextField",
    }
}

#[test]
fn every_combination_has_its_widget() {
    let table = [
        "TextInput",
        "LongTextInput",
        "TextField",
        "BooleanInput",
        "BooleanField",
        "NumberInput",
        "NumberField",
    ];
    for ty in widget_types() {
        for editable in EDITABLES {
            for kind in KINDS {
                let widget = ty.view_map_type(&kind, &widget_options(editable));
                let expected = widget_expected(&ty, widget_is_edited(editable, kind));
                assert_eq!(widget.tag(), expected, "{:?} {:?} {:?}", ty, editable, kind);
                assert!(table.contains(&widget.tag().as_str()));
                assert_eq!(widget.source, "react-admin");
                assert_eq!(widget.source(), "react-admin");
            }
        }
    }
}

#[test]
fn string_widget_changes_at_128() {
    let options = Options::default();
    assert_eq!(
        MappedFieldType::String(127).view_map_type(&ViewKind::Edit, &options).tag(),
        "TextInput"
    );
    assert_eq!(
        MappedFieldType::String(128).view_map_type(&ViewKind::Edit, &options).tag(),
        "LongTextInput"
    );
    assert_eq!(
        MappedFieldType::String(128).view_map_type(&ViewKind::Show, &options).tag(),
        "TextField"
    );
}

#[test]
fn write_once_is_edited_in_create_only() {
    let options = widget_options(Editable::WriteOnce);
    for kind in KINDS {
        let tag = MappedFieldType::Boolean.view_map_type(&kind, &options).tag().clone();
        if kind == ViewKind::Create {
            assert_eq!(tag, "BooleanInput");
        } else {
            assert_eq!(tag, "BooleanField");
        }
    }
}

#[test]
fn read_only_is_never_edited() {
    let options = widget_options(Editable::ReadOnly);
    for kind in KINDS {
        assert_eq!(MappedFieldType::Integer.view_map_type(&kind, &options).tag(), "NumberField");
    }
}

#[test]
fn primary_key_is_a_text_input_everywhere() {
    for editable in EDITABLES {
        for kind in KINDS {
            let widget = MappedFieldType::BigSerialPk.view_map_type(&kind, &widget_options(editable));
            assert_eq!(widget.tag(), "TextInput");
        }
    }
}

#[test]
fn simple_widget() {
    let widget = WidgetDefinition::simple("DateInput");
    assert_eq!(widget.tag(), "DateInput");
    assert_eq!(widget.source, "react-admin");
}

#[test]
fn defaults() {
    assert_eq!(Nullable::default(), Nullable::NotNull);
    assert_eq!(Editable::default(), Editable::ReadWrite);
    assert_eq!(ViewKind::default(), ViewKind::List);
    let options = Options::default();
    assert_eq!(options.null, Nullable::NotNull);
    assert!(!options.primary_key);
    assert_eq!(options.label, "");
    assert_eq!(options.default_value, "");
    assert_eq!(options.editable, Editable::ReadWrite);
    let view = ViewSpec::default();
    assert_eq!(view.source.name, "");
    assert_eq!(view.source.override_query, None);
    assert_eq!(view.view, ViewKind::List);
    assert!(view.field_order.is_empty());
    assert!(view.widget_override.is_empty());
    assert!(view.actions.is_empty());
}

#[test]
fn cardinality_ends() {
    let one = Cardinality::One(String::from("orders"), String::from("id"));
    let many = Cardinality::Many(String::from("customers"), String::from("order_id"));
    assert_eq!(one.table(), "orders");
    assert_eq!(one.field(), "id");
    assert_eq!(many.table(), "customers");
    assert_eq!(many.field(), "order_id");
}

#[test]
fn view_names() {
    assert_eq!(ViewKind::Create.full_view_name("users"), "UsersCreate");
    assert_eq!(ViewKind::Edit.full_view_name("users"), "UsersEdit");
    assert_eq!(ViewKind::Show.full_view_name("users"), "UsersShow");
    assert_eq!(ViewKind::List.full_view_name("users"), "UsersList");
    assert_eq!(ViewKind::Filter.full_view_name("users"), "UsersFilter");
    assert_eq!(ViewKind::Delete.full_view_name("users"), "UsersDelete");
    assert_eq!(ViewKind::List.full_view_name("orderLine"), "OrderLineList");
    assert_eq!(ViewKind::List.full_view_name("Users"), "UsersList");
    assert_eq!(ViewKind::List.full_view_name(""), "List");
    assert_eq!(ViewKind::List.full_view_name("9lives"), "9livesList");
}

#[test]
fn listed_view_names() {
    assert_eq!(ViewKind::List.view_name(String::from("users")), "UsersList");
    assert_eq!(ViewKind::Edit.view_name(String::from("users")), "UsersEdit");
    assert_eq!(ViewKind::Show.view_name(String::from("users")), "UsersShow");
    assert_eq!(ViewKind::Create.view_name(String::from("users")), "UsersCreate");
    assert_eq!(ViewKind::Filter.view_name(String::from("users")), "");
    assert_eq!(ViewKind::Delete.view_name(String::from("users")), "");
}

#[test]
fn view_attribute_names() {
    assert_eq!(ViewKind::Create.view_attr_name(), "create");
    assert_eq!(ViewKind::Delete.view_attr_name(), "delete");
    assert_eq!(ViewKind::Edit.view_attr_name(), "edit");
    assert_eq!(ViewKind::Filter.view_attr_name(), "filter");
    assert_eq!(ViewKind::List.view_attr_name(), "list");
    assert_eq!(ViewKind::Show.view_attr_name(), "show");
    assert_eq!(ViewKind::Show.suffix(), "Show");
}

#[test]
fn type_map_rules_are_built() {
    let matching = TypeMapMatch::new(Some(String::from("users")), None, None, None, Some(ViewKind::List));
    let entry = TypeMapEntry::new(matching, String::from("Chip"));
    let map = TypeMap::new(vec![entry]);
    assert!(format!("{:?}", map).contains("replacement: \"Chip\""));
    let query = TypeMapQuery::new(
        String::from("users"),
        String::from("name"),
        String::from("String"),
        String::from("jsx"),
        None,
    );
    assert!(format!("{:?}", query).contains("field: \"name\""));
    let spec = WidgetSpec::new(String::from("name"), Some(String::from("Chip")), None);
    assert_eq!(spec.field_name(), "name");
    assert_eq!(spec.override_type(), &Some(String::from("Chip")));
    assert_eq!(spec.override_label(), &None);
    assert_eq!(RustStruct::new(String::from("struct A;")).into_string(), "struct A;");
}
