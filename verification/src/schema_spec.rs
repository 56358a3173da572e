//! The schema model: tables, fields, relations and views, and the fixed mapping
//! from a field's type to the widget that shows or edits it.

use vstd::prelude::*;
use crate::text::{capitalize, capitalized};

verus! {

/// The text of an SQL statement or fragment.
pub struct CreateSql(String);

/// The text of a generated Rust structure.
pub struct RustStruct(String);

impl View for CreateSql {
    type V = Seq<char>;

    closed spec fn view(&self) -> Seq<char> {
        self.0@
    }
}

impl DeepView for CreateSql {
    type V = Seq<char>;

    open spec fn deep_view(&self) -> Seq<char> {
        self@
    }
}

impl View for RustStruct {
    type V = Seq<char>;

    closed spec fn view(&self) -> Seq<char> {
        self.0@
    }
}

impl DeepView for RustStruct {
    type V = Seq<char>;

    open spec fn deep_view(&self) -> Seq<char> {
        self@
    }
}

impl CreateSql {
    /// Wraps `text`.
    pub fn new(text: String) -> (r: CreateSql)
        ensures
            r@ == text@,
    {
        CreateSql(text)
    }

    /// Hands the text out.
    pub fn into_string(self) -> (r: String)
        ensures
            r@ == self@,
    {
        self.0
    }
}

impl RustStruct {
    /// Wraps `text`.
    pub fn new(text: String) -> (r: RustStruct)
        ensures
            r@ == text@,
    {
        RustStruct(text)
    }

    /// Hands the text out.
    pub fn into_string(self) -> (r: String)
        ensures
            r@ == self@,
    {
        self.0
    }
}

impl From<String> for CreateSql {
    fn from(c: String) -> (r: CreateSql)
        ensures
            r@ == c@,
    {
        CreateSql(c)
    }
}

impl vstd::std_specs::convert::FromSpecImpl<String> for CreateSql {
    open spec fn obeys_from_spec() -> bool {
        true
    }

    closed spec fn from_spec(c: String) -> CreateSql {
        CreateSql(c)
    }
}

impl From<CreateSql> for String {
    fn from(c: CreateSql) -> (r: String)
        ensures
            r@ == c@,
    {
        c.0
    }
}

impl vstd::std_specs::convert::FromSpecImpl<CreateSql> for String {
    open spec fn obeys_from_spec() -> bool {
        true
    }

    closed spec fn from_spec(c: CreateSql) -> String {
        c.0
    }
}

/// An option of a column that only the SQL side reads.
#[derive(Debug)]
pub enum SqlOption {
    TypeOverride(String),
    Index(String),
    Unique(String),
    Constraint(String),
}

/// What an [`SqlOption`] holds.
pub enum SqlOptionModel {
    TypeOverride(Seq<char>),
    Index(Seq<char>),
    Unique(Seq<char>),
    Constraint(Seq<char>),
}

impl DeepView for SqlOption {
    type V = SqlOptionModel;

    open spec fn deep_view(&self) -> SqlOptionModel {
        match self {
            SqlOption::TypeOverride(s) => SqlOptionModel::TypeOverride(s@),
            SqlOption::Index(s) => SqlOptionModel::Index(s@),
            SqlOption::Unique(s) => SqlOptionModel::Unique(s@),
            SqlOption::Constraint(s) => SqlOptionModel::Constraint(s@),
        }
    }
}

/// One end of a relation: a table and a field of it, on the one or the many side.
#[derive(Debug)]
pub enum Cardinality {
    One(String, String),
    Many(String, String),
}

/// What a [`Cardinality`] holds.
pub enum CardinalityModel {
    One(Seq<char>, Seq<char>),
    Many(Seq<char>, Seq<char>),
}

impl CardinalityModel {
    /// The table of this end.
    pub open spec fn table(self) -> Seq<char> {
        match self {
            CardinalityModel::One(t, _) => t,
            CardinalityModel::Many(t, _) => t,
        }
    }

    /// The field of this end.
    pub open spec fn field(self) -> Seq<char> {
        match self {
            CardinalityModel::One(_, f) => f,
            CardinalityModel::Many(_, f) => f,
        }
    }
}

impl DeepView for Cardinality {
    type V = CardinalityModel;

    open spec fn deep_view(&self) -> CardinalityModel {
        match self {
            Cardinality::One(t, f) => CardinalityModel::One(t@, f@),
            Cardinality::Many(t, f) => CardinalityModel::Many(t@, f@),
        }
    }
}

impl Cardinality {
    /// The field of this end.
    pub fn field(&self) -> (r: &String)
        ensures
            r@ == self.deep_view().field(),
    {
        match self {
            Cardinality::One(_, f) => f,
            Cardinality::Many(_, f) => f,
        }
    }

    /// The table of this end.
    pub fn table(&self) -> (r: &String)
        ensures
            r@ == self.deep_view().table(),
    {
        match self {
            Cardinality::One(t, _) => t,
            Cardinality::Many(t, _) => t,
        }
    }
}

/// Whether a column accepts NULL.
#[derive(Debug, Clone, Copy, PartialEq, Eq, Structural)]
pub enum Nullable {
    NotNull,
    Null,
}

impl DeepView for Nullable {
    type V = Nullable;

    open spec fn deep_view(&self) -> Nullable {
        *self
    }
}

impl Default for Nullable {
    fn default() -> (r: Nullable)
        ensures
            r == Nullable::NotNull,
    {
        Nullable::NotNull
    }
}

/// When a field may be written.
#[derive(Debug, Clone, Copy, PartialEq, Eq, Structural)]
pub enum Editable {
    WriteOnce,
    ReadOnly,
    ReadWrite,
}

impl DeepView for Editable {
    type V = Editable;

    open spec fn deep_view(&self) -> Editable {
        *self
    }
}

impl Default for Editable {
    fn default() -> (r: Editable)
        ensures
            r == Editable::ReadWrite,
    {
        Editable::ReadWrite
    }
}

/// The options of a field.
#[derive(Debug)]
pub struct Options {
    pub null: Nullable,
    pub primary_key: bool,
    pub label: String,
    pub default_value: String,
    pub editable: Editable,
}

/// What an [`Options`] holds.
pub struct OptionsModel {
    pub null: Nullable,
    pub primary_key: bool,
    pub label: Seq<char>,
    pub default_value: Seq<char>,
    pub editable: Editable,
}

impl OptionsModel {
    /// The options of a field that states none.
    pub open spec fn initial() -> OptionsModel {
        OptionsModel {
            null: Nullable::NotNull,
            primary_key: false,
            label: Seq::empty(),
            default_value: Seq::empty(),
            editable: Editable::ReadWrite,
        }
    }
}

impl DeepView for Options {
    type V = OptionsModel;

    open spec fn deep_view(&self) -> OptionsModel {
        OptionsModel {
            null: self.null,
            primary_key: self.primary_key,
            label: self.label@,
            default_value: self.default_value@,
            editable: self.editable,
        }
    }
}

impl Default for Options {
    fn default() -> (r: Options)
        ensures
            r.deep_view() == OptionsModel::initial(),
    {
        Options {
            null: Nullable::NotNull,
            primary_key: false,
            label: String::new(),
            default_value: String::new(),
            editable: Editable::ReadWrite,
        }
    }
}

/// The kinds of view over a table.
#[derive(Debug, Clone, Copy, PartialEq, Eq, Structural)]
pub enum ViewKind {
    Create,
    Edit,
    Show,
    List,
    Filter,
    Delete,
}

impl DeepView for ViewKind {
    type V = ViewKind;

    open spec fn deep_view(&self) -> ViewKind {
        *self
    }
}

impl Default for ViewKind {
    fn default() -> (r: ViewKind)
        ensures
            r == ViewKind::List,
    {
        ViewKind::List
    }
}

/// The type of a field.
#[derive(Debug)]
pub enum MappedFieldType {
    BigSerialPk,
    Boolean,
    String(usize),
    Integer,
    Numeric,
    Timestamp(Option<String>),
}

/// What a [`MappedFieldType`] holds.
pub enum FieldTypeModel {
    BigSerialPk,
    Boolean,
    String(nat),
    Integer,
    Numeric,
    Timestamp(Option<Seq<char>>),
}

impl DeepView for MappedFieldType {
    type V = FieldTypeModel;

    open spec fn deep_view(&self) -> FieldTypeModel {
        match self {
            MappedFieldType::BigSerialPk => FieldTypeModel::BigSerialPk,
            MappedFieldType::Boolean => FieldTypeModel::Boolean,
            MappedFieldType::String(n) => FieldTypeModel::String(*n as nat),
            MappedFieldType::Integer => FieldTypeModel::Integer,
            MappedFieldType::Numeric => FieldTypeModel::Numeric,
            MappedFieldType::Timestamp(tz) => FieldTypeModel::Timestamp(tz.deep_view()),
        }
    }
}

/// Whether a field with editability `e` is edited in a view of kind `v`.
pub open spec fn is_editing(e: Editable, v: ViewKind) -> bool {
    match e {
        Editable::ReadOnly => false,
        Editable::WriteOnce => v == ViewKind::Create,
        Editable::ReadWrite => v == ViewKind::Create || v == ViewKind::Edit || v
            == ViewKind::Filter,
    }
}

/// The component that shows (`editing` false) or edits (`editing` true) a field
/// of type `t`.
pub open spec fn widget_tag(t: FieldTypeModel, editing: bool) -> Seq<char> {
    match t {
        FieldTypeModel::BigSerialPk => "TextInput"@,
        FieldTypeModel::Boolean => if editing {
            "BooleanInput"@
        } else {
            "BooleanField"@
        },
        FieldTypeModel::String(n) => if editing {
            if n < 128 {
                "TextInput"@
            } else {
                "LongTextInput"@
            }
        } else {
            "TextField"@
        },
        FieldTypeModel::Integer => if editing {
            "NumberInput"@
        } else {
            "NumberField"@
        },
        FieldTypeModel::Numeric => if editing {
            "NumberInput"@
        } else {
            "NumberField"@
        },
        FieldTypeModel::Timestamp(_) => if editing {
            "TextInput"@
        } else {
            "TextField"@
        },
    }
}

/// The components that the mapping can name.
pub open spec fn widget_tags() -> Set<Seq<char>> {
    set![
        "TextInput"@,
        "LongTextInput"@,
        "TextField"@,
        "BooleanInput"@,
        "BooleanField"@,
        "NumberInput"@,
        "NumberField"@,
    ]
}

/// The module that the mapped components come from.
pub open spec fn widget_source() -> Seq<char> {
    "react-admin"@
}

/// A component of the interface: its tag, the module it is imported from, and
/// further attributes.
#[derive(Debug)]
pub struct WidgetDefinition {
    name: String,
    pub source: String,
    attrs: Vec<(String, String)>,
}

/// What a [`WidgetDefinition`] holds.
pub struct WidgetModel {
    pub name: Seq<char>,
    pub source: Seq<char>,
    pub attrs: Seq<(Seq<char>, Seq<char>)>,
}

impl WidgetModel {
    /// The component `name` of the interface library, without further attributes.
    pub open spec fn simple(name: Seq<char>) -> WidgetModel {
        WidgetModel { name, source: widget_source(), attrs: Seq::empty() }
    }
}

impl DeepView for WidgetDefinition {
    type V = WidgetModel;

    closed spec fn deep_view(&self) -> WidgetModel {
        WidgetModel { name: self.name@, source: self.source@, attrs: self.attrs.deep_view() }
    }
}

impl WidgetDefinition {
    /// The component's tag.
    pub fn tag(&self) -> (r: &String)
        ensures
            r@ == self.deep_view().name,
    {
        &self.name
    }

    /// The module that the component is imported from.
    pub fn source(&self) -> (r: &String)
        ensures
            r@ == self.deep_view().source,
    {
        &self.source
    }

    /// The component `n` of the interface library, without further attributes.
    pub fn simple(n: &str) -> (r: WidgetDefinition)
        ensures
            r.deep_view() == WidgetModel::simple(n@),
    {
        let r = WidgetDefinition {
            name: String::from_str(n),
            source: String::from_str("react-admin"),
            attrs: Vec::new(),
        };
        assert(r.attrs.deep_view() =~= Seq::empty());
        r
    }
}

impl MappedFieldType {
    /// The widget for a field of this type with options `o` in a view of kind `v`.
    pub fn view_map_type(&self, v: &ViewKind, o: &Options) -> (r: WidgetDefinition)
        ensures
            r.deep_view() == WidgetModel::simple(
                widget_tag(self.deep_view(), is_editing(o.editable, *v)),
            ),
            widget_tags().contains(r.deep_view().name),
    {
        let editing = match o.editable {
            Editable::ReadOnly => false,
            Editable::WriteOnce => match v {
                ViewKind::Create => true,
                ViewKind::Edit => false,
                ViewKind::Show => false,
                ViewKind::List => false,
                ViewKind::Filter => false,
                ViewKind::Delete => false,
            },
            Editable::ReadWrite => match v {
                ViewKind::Create => true,
                ViewKind::Edit => true,
                ViewKind::Show => false,
                ViewKind::List => false,
                ViewKind::Filter => true,
                ViewKind::Delete => false,
            },
        };
        proof {
            lemma_every_combination_is_mapped(self.deep_view(), o.editable, *v);
        }
        match self {
            MappedFieldType::BigSerialPk => WidgetDefinition::simple("TextInput"),
            MappedFieldType::Boolean => if editing {
                WidgetDefinition::simple("BooleanInput")
            } else {
                WidgetDefinition::simple("BooleanField")
            },
            MappedFieldType::String(sz) => if editing {
                if *sz < 128 {
                    WidgetDefinition::simple("TextInput")
                } else {
                    WidgetDefinition::simple("LongTextInput")
                }
            } else {
                WidgetDefinition::simple("TextField")
            },
            MappedFieldType::Integer => if editing {
                WidgetDefinition::simple("NumberInput")
            } else {
                WidgetDefinition::simple("NumberField")
            },
            MappedFieldType::Numeric => if editing {
                WidgetDefinition::simple("NumberInput")
            } else {
                WidgetDefinition::simple("NumberField")
            },
            MappedFieldType::Timestamp(_) => if editing {
                WidgetDefinition::simple("TextInput")
            } else {
                WidgetDefinition::simple("TextField")
            },
        }
    }
}

/// Every field type, editability and view kind has a widget, and it is one of
/// the components of the fixed table.
pub proof fn lemma_every_combination_is_mapped(t: FieldTypeModel, e: Editable, v: ViewKind)
    ensures
        widget_tags().contains(widget_tag(t, is_editing(e, v))),
{
}

/// A relation between two tables; the foreign key stands on the `from` side.
#[derive(Debug)]
pub struct Relation {
    pub from: Cardinality,
    pub to: Cardinality,
}

/// What a [`Relation`] holds.
pub struct RelationModel {
    pub from: CardinalityModel,
    pub to: CardinalityModel,
}

impl DeepView for Relation {
    type V = RelationModel;

    open spec fn deep_view(&self) -> RelationModel {
        RelationModel { from: self.from.deep_view(), to: self.to.deep_view() }
    }
}

/// The word that a view kind adds to a table's name.
pub open spec fn kind_suffix(v: ViewKind) -> Seq<char> {
    match v {
        ViewKind::Create => "Create"@,
        ViewKind::Edit => "Edit"@,
        ViewKind::Show => "Show"@,
        ViewKind::List => "List"@,
        ViewKind::Filter => "Filter"@,
        ViewKind::Delete => "Delete"@,
    }
}

/// The name of the view of kind `v` over the table `resource`.
pub open spec fn full_view_name(v: ViewKind, resource: Seq<char>) -> Seq<char> {
    capitalized(resource) + kind_suffix(v)
}

/// The name of the view of kind `v` over `resource` among the four kinds that a
/// resource lists, and the empty name for the others.
pub open spec fn listed_view_name(v: ViewKind, resource: Seq<char>) -> Seq<char> {
    match v {
        ViewKind::List => full_view_name(v, resource),
        ViewKind::Edit => full_view_name(v, resource),
        ViewKind::Show => full_view_name(v, resource),
        ViewKind::Create => full_view_name(v, resource),
        ViewKind::Filter => Seq::empty(),
        ViewKind::Delete => Seq::empty(),
    }
}

/// The attribute under which a resource names its view of kind `v`.
pub open spec fn view_attr_name(v: ViewKind) -> Seq<char> {
    match v {
        ViewKind::Create => "create"@,
        ViewKind::Delete => "delete"@,
        ViewKind::Edit => "edit"@,
        ViewKind::Filter => "filter"@,
        ViewKind::List => "list"@,
        ViewKind::Show => "show"@,
    }
}

impl ViewKind {
    /// The word that this kind adds to a table's name.
    pub fn suffix(&self) -> (r: &'static str)
        ensures
            r@ == kind_suffix(*self),
    {
        match self {
            ViewKind::Create => "Create",
            ViewKind::Edit => "Edit",
            ViewKind::Show => "Show",
            ViewKind::List => "List",
            ViewKind::Filter => "Filter",
            ViewKind::Delete => "Delete",
        }
    }

    /// The name of the view of this kind over `resource`: the name with its
    /// first character in upper case, then the kind.
    pub fn full_view_name(&self, resource: &str) -> (r: String)
        ensures
            r@ == full_view_name(*self, resource@),
    {
        let mut r = capitalize(resource);
        r.append(self.suffix());
        r
    }

    /// The name of the view of this kind over `resource` for the kinds List,
    /// Edit, Show and Create, and the empty name for Filter and Delete.
    pub fn view_name(&self, resource: String) -> (r: String)
        ensures
            r@ == listed_view_name(*self, resource@),
    {
        match self {
            ViewKind::List => self.full_view_name(resource.as_str()),
            ViewKind::Edit => self.full_view_name(resource.as_str()),
            ViewKind::Show => self.full_view_name(resource.as_str()),
            ViewKind::Create => self.full_view_name(resource.as_str()),
            ViewKind::Filter => String::new(),
            ViewKind::Delete => String::new(),
        }
    }

    /// The attribute under which a resource names its view of this kind.
    pub fn view_attr_name(&self) -> (r: String)
        ensures
            r@ == view_attr_name(*self),
    {
        match self {
            ViewKind::Create => String::from_str("create"),
            ViewKind::Delete => String::from_str("delete"),
            ViewKind::Edit => String::from_str("edit"),
            ViewKind::Filter => String::from_str("filter"),
            ViewKind::List => String::from_str("list"),
            ViewKind::Show => String::from_str("show"),
        }
    }
}

/// A widget chosen for one field of a view in place of the mapped one.
#[derive(Debug)]
pub struct WidgetSpec {
    field_name: String,
    override_type: Option<String>,
    override_label: Option<String>,
}

/// What a [`WidgetSpec`] holds.
pub struct WidgetSpecModel {
    pub field_name: Seq<char>,
    pub override_type: Option<Seq<char>>,
    pub override_label: Option<Seq<char>>,
}

impl DeepView for WidgetSpec {
    type V = WidgetSpecModel;

    closed spec fn deep_view(&self) -> WidgetSpecModel {
        WidgetSpecModel {
            field_name: self.field_name@,
            override_type: self.override_type.deep_view(),
            override_label: self.override_label.deep_view(),
        }
    }
}

impl WidgetSpec {
    /// The override for the field `field_name`.
    pub fn new(
        field_name: String,
        override_type: Option<String>,
        override_label: Option<String>,
    ) -> (r: WidgetSpec)
        ensures
            r.deep_view() == (WidgetSpecModel {
                field_name: field_name@,
                override_type: override_type.deep_view(),
                override_label: override_label.deep_view(),
            }),
    {
        WidgetSpec { field_name, override_type, override_label }
    }

    /// The field that the override is for.
    pub fn field_name(&self) -> (r: &String)
        ensures
            r@ == self.deep_view().field_name,
    {
        &self.field_name
    }

    /// The widget to use in place of the mapped one, where one is given.
    pub fn override_type(&self) -> (r: &Option<String>)
        ensures
            r.deep_view() == self.deep_view().override_type,
    {
        &self.override_type
    }

    /// The label to use in place of the field's, where one is given.
    pub fn override_label(&self) -> (r: &Option<String>)
        ensures
            r.deep_view() == self.deep_view().override_label,
    {
        &self.override_label
    }
}

/// The table that a view reads, and a query to read it with where one is given.
#[derive(Debug)]
pub struct UiViewSource {
    pub name: String,
    pub override_query: Option<String>,
}

/// What a [`UiViewSource`] holds.
pub struct UiViewSourceModel {
    pub name: Seq<char>,
    pub override_query: Option<Seq<char>>,
}

impl DeepView for UiViewSource {
    type V = UiViewSourceModel;

    open spec fn deep_view(&self) -> UiViewSourceModel {
        UiViewSourceModel { name: self.name@, override_query: self.override_query.deep_view() }
    }
}

impl Default for UiViewSource {
    fn default() -> (r: UiViewSource)
        ensures
            r.deep_view() == (UiViewSourceModel { name: Seq::empty(), override_query: None }),
    {
        UiViewSource { name: String::new(), override_query: None }
    }
}

/// How the fields of a view are laid out.
#[derive(Debug)]
pub enum ViewLayout {
    Tabbed(Vec<(String, Vec<String>)>),
    Flat(Vec<String>),
    Default,
}

/// What a [`ViewLayout`] holds.
pub enum ViewLayoutModel {
    Tabbed(Seq<(Seq<char>, Seq<Seq<char>>)>),
    Flat(Seq<Seq<char>>),
    Default,
}

impl DeepView for ViewLayout {
    type V = ViewLayoutModel;

    open spec fn deep_view(&self) -> ViewLayoutModel {
        match self {
            ViewLayout::Tabbed(tabs) => ViewLayoutModel::Tabbed(tabs.deep_view()),
            ViewLayout::Flat(names) => ViewLayoutModel::Flat(names.deep_view()),
            ViewLayout::Default => ViewLayoutModel::Default,
        }
    }
}

impl Default for ViewLayout {
    fn default() -> (r: ViewLayout)
        ensures
            r.deep_view() == ViewLayoutModel::Default,
    {
        ViewLayout::Default
    }
}

/// An action offered by a view, with its parameters in the order given.
#[derive(Debug)]
pub struct ActionSpec {
    pub name: String,
    pub params: Vec<(String, String)>,
}

/// What an [`ActionSpec`] holds.
pub struct ActionSpecModel {
    pub name: Seq<char>,
    pub params: Seq<(Seq<char>, Seq<char>)>,
}

impl DeepView for ActionSpec {
    type V = ActionSpecModel;

    open spec fn deep_view(&self) -> ActionSpecModel {
        ActionSpecModel { name: self.name@, params: self.params.deep_view() }
    }
}

impl Default for ActionSpec {
    fn default() -> (r: ActionSpec)
        ensures
            r.deep_view() == (ActionSpecModel { name: Seq::empty(), params: Seq::empty() }),
    {
        let r = ActionSpec { name: String::new(), params: Vec::new() };
        assert(r.params.deep_view() =~= Seq::empty());
        r
    }
}

/// One view of the interface.
#[derive(Debug)]
pub struct ViewSpec {
    pub source: UiViewSource,
    pub view: ViewKind,
    pub field_order: Vec<String>,
    pub widget_override: Vec<WidgetSpec>,
    pub actions: Vec<ActionSpec>,
}

/// What a [`ViewSpec`] holds.
pub struct ViewSpecModel {
    pub source: UiViewSourceModel,
    pub view: ViewKind,
    pub field_order: Seq<Seq<char>>,
    pub widget_override: Seq<WidgetSpecModel>,
    pub actions: Seq<ActionSpecModel>,
}

impl ViewSpecModel {
    /// The view of a description that states nothing: a list over the table
    /// with the empty name.
    pub open spec fn initial() -> ViewSpecModel {
        ViewSpecModel {
            source: UiViewSourceModel { name: Seq::empty(), override_query: None },
            view: ViewKind::List,
            field_order: Seq::empty(),
            widget_override: Seq::empty(),
            actions: Seq::empty(),
        }
    }
}

impl DeepView for ViewSpec {
    type V = ViewSpecModel;

    open spec fn deep_view(&self) -> ViewSpecModel {
        ViewSpecModel {
            source: self.source.deep_view(),
            view: self.view,
            field_order: self.field_order.deep_view(),
            widget_override: self.widget_override.deep_view(),
            actions: self.actions.deep_view(),
        }
    }
}

impl Default for ViewSpec {
    fn default() -> (r: ViewSpec)
        ensures
            r.deep_view() == ViewSpecModel::initial(),
    {
        let r = ViewSpec {
            source: UiViewSource::default(),
            view: ViewKind::List,
            field_order: Vec::new(),
            widget_override: Vec::new(),
            actions: Vec::new(),
        };
        assert(r.field_order.deep_view() =~= Seq::empty());
        assert(r.widget_override.deep_view() =~= Seq::empty());
        assert(r.actions.deep_view() =~= Seq::empty());
        r
    }
}

/// A field of a table: its name, its type and its options.
#[derive(Debug)]
pub struct Field(pub String, pub MappedFieldType, pub Options);

/// What a [`Field`] holds.
pub struct FieldModel {
    pub name: Seq<char>,
    pub field_type: FieldTypeModel,
    pub options: OptionsModel,
}

impl DeepView for Field {
    type V = FieldModel;

    open spec fn deep_view(&self) -> FieldModel {
        FieldModel {
            name: self.0@,
            field_type: self.1.deep_view(),
            options: self.2.deep_view(),
        }
    }
}

/// What a table holds: its name and its fields in the order declared.
pub type TableModel = (Seq<char>, Seq<FieldModel>);

/// What a type-map rule asks of a field before it applies; `None` asks nothing.
#[derive(Debug)]
pub struct TypeMapMatch {
    table: Option<String>,
    field: Option<String>,
    map_type: Option<String>,
    language: Option<String>,
    view: Option<ViewKind>,
}

/// What a [`TypeMapMatch`] holds.
pub struct TypeMapMatchModel {
    pub table: Option<Seq<char>>,
    pub field: Option<Seq<char>>,
    pub map_type: Option<Seq<char>>,
    pub language: Option<Seq<char>>,
    pub view: Option<ViewKind>,
}

impl DeepView for TypeMapMatch {
    type V = TypeMapMatchModel;

    closed spec fn deep_view(&self) -> TypeMapMatchModel {
        TypeMapMatchModel {
            table: self.table.deep_view(),
            field: self.field.deep_view(),
            map_type: self.map_type.deep_view(),
            language: self.language.deep_view(),
            view: self.view,
        }
    }
}

impl TypeMapMatch {
    /// A rule's condition on the table, the field, the type, the language and
    /// the view kind.
    pub fn new(
        table: Option<String>,
        field: Option<String>,
        map_type: Option<String>,
        language: Option<String>,
        view: Option<ViewKind>,
    ) -> (r: TypeMapMatch)
        ensures
            r.deep_view() == (TypeMapMatchModel {
                table: table.deep_view(),
                field: field.deep_view(),
                map_type: map_type.deep_view(),
                language: language.deep_view(),
                view,
            }),
    {
        TypeMapMatch { table, field, map_type, language, view }
    }
}

/// The field that a type map is asked about.
#[derive(Debug)]
pub struct TypeMapQuery {
    table: String,
    field: String,
    map_type: String,
    language: String,
    view: Option<ViewKind>,
}

/// What a [`TypeMapQuery`] holds.
pub struct TypeMapQueryModel {
    pub table: Seq<char>,
    pub field: Seq<char>,
    pub map_type: Seq<char>,
    pub language: Seq<char>,
    pub view: Option<ViewKind>,
}

impl DeepView for TypeMapQuery {
    type V = TypeMapQueryModel;

    closed spec fn deep_view(&self) -> TypeMapQueryModel {
        TypeMapQueryModel {
            table: self.table@,
            field: self.field@,
            map_type: self.map_type@,
            language: self.language@,
            view: self.view,
        }
    }
}

impl TypeMapQuery {
    /// The question about the field `field` of `table` with the type
    /// `map_type`, for `language` and the view kind `view`.
    pub fn new(
        table: String,
        field: String,
        map_type: String,
        language: String,
        view: Option<ViewKind>,
    ) -> (r: TypeMapQuery)
        ensures
            r.deep_view() == (TypeMapQueryModel {
                table: table@,
                field: field@,
                map_type: map_type@,
                language: language@,
                view,
            }),
    {
        TypeMapQuery { table, field, map_type, language, view }
    }
}

/// One rule of a type map: what it matches, and what it puts in place.
#[derive(Debug)]
pub struct TypeMapEntry {
    match_on: TypeMapMatch,
    replacement: String,
}

/// What a [`TypeMapEntry`] holds.
pub struct TypeMapEntryModel {
    pub match_on: TypeMapMatchModel,
    pub replacement: Seq<char>,
}

impl DeepView for TypeMapEntry {
    type V = TypeMapEntryModel;

    closed spec fn deep_view(&self) -> TypeMapEntryModel {
        TypeMapEntryModel { match_on: self.match_on.deep_view(), replacement: self.replacement@ }
    }
}

impl TypeMapEntry {
    /// The rule that puts `replacement` in place of what `match_on` matches.
    pub fn new(match_on: TypeMapMatch, replacement: String) -> (r: TypeMapEntry)
        ensures
            r.deep_view() == (TypeMapEntryModel {
                match_on: match_on.deep_view(),
                replacement: replacement@,
            }),
    {
        TypeMapEntry { match_on, replacement }
    }
}

/// The rules of a type map, in order.
#[derive(Debug)]
pub struct TypeMap(Vec<TypeMapEntry>);

impl TypeMap {
    /// The type map of the rules `entries`.
    pub fn new(entries: Vec<TypeMapEntry>) -> (r: TypeMap)
        ensures
            r.deep_view() == entries.deep_view(),
    {
        TypeMap(entries)
    }
}

impl DeepView for TypeMap {
    type V = Seq<TypeMapEntryModel>;

    closed spec fn deep_view(&self) -> Seq<TypeMapEntryModel> {
        self.0.deep_view()
    }
}

/// The whole description: tables with their fields, relations, views, and the
/// names of the interfaces and access rules.
#[derive(Debug)]
pub struct SchemaSpec {
    pub tables: Vec<(String, Vec<Field>)>,
    pub relationships: Vec<Relation>,
    pub views: Vec<ViewSpec>,
    pub api: Vec<String>,
    pub acl: Vec<String>,
}

/// What a [`SchemaSpec`] holds.
pub struct SchemaModel {
    pub tables: Seq<TableModel>,
    pub relationships: Seq<RelationModel>,
    pub views: Seq<ViewSpecModel>,
    pub api: Seq<Seq<char>>,
    pub acl: Seq<Seq<char>>,
}

impl DeepView for SchemaSpec {
    type V = SchemaModel;

    open spec fn deep_view(&self) -> SchemaModel {
        SchemaModel {
            tables: self.tables.deep_view(),
            relationships: self.relationships.deep_view(),
            views: self.views.deep_view(),
            api: self.api.deep_view(),
            acl: self.acl.deep_view(),
        }
    }
}

} // verus!
