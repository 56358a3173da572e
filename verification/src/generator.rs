//! The whole generation: the schema file, one module of markup for each view,
//! and the module of the application that lists the views of every table.

use vstd::prelude::*;
use crate::ordered::{
    distinct, entry_names, first_index_of, key_index, lemma_first_index_of, lemma_put, names_of,
    put,
};
use crate::schema_spec::{view_attr_name, SchemaModel, SchemaSpec, TableModel, ViewSpecModel};
use crate::sql_gen::{schema_sql, sql_file};
use crate::text::{concat_terminated, concat_terminated_strings, join, join_strings};
use crate::view_gen::{
    import_text, insert_attr, node_text, top_level_view_node, view_model, AttrModel, AttrsModel,
    Import, ImportModel, JsxAttr, JsxNode, NodeModel, ViewModel,
};

verus! {

/// The views of one table: for each, the attribute that names its kind and
/// the name of the view.
pub type ViewNames = Seq<(Seq<char>, Seq<char>)>;

/// The views of every table that has any, by the table's name, in the order
/// in which the tables first occur among the views.
pub type ResourceViews = Seq<(Seq<char>, ViewNames)>;

/// `groups` with `entry` added to the views of `table`: behind the views that
/// the table has already, or as the first view of a new table at the end.
pub open spec fn add_view(groups: ResourceViews, table: Seq<char>, entry: (Seq<char>, Seq<char>)) -> ResourceViews {
    match first_index_of(names_of(groups), table) {
        Some(i) => groups.update(i, (groups[i].0, groups[i].1.push(entry))),
        None => groups.push((table, seq![entry])),
    }
}

/// The entry that the view `view` adds to its table's views.
pub open spec fn view_entry(tables: Seq<TableModel>, view: ViewSpecModel) -> (Seq<char>, Seq<char>) {
    (view_attr_name(view.view), view_model(tables, view).0)
}

/// The views `views` grouped by the table that each names.
pub open spec fn resource_views(tables: Seq<TableModel>, views: Seq<ViewSpecModel>) -> ResourceViews
    decreases views.len(),
{
    if views.len() == 0 {
        Seq::empty()
    } else {
        add_view(
            resource_views(tables, views.drop_last()),
            views.last().source.name,
            view_entry(tables, views.last()),
        )
    }
}

/// `attrs` with each of `views` put under its kind's attribute as a reference
/// to the view; of two views of one kind the later stays.
pub open spec fn with_view_refs(attrs: AttrsModel, views: ViewNames) -> AttrsModel
    decreases views.len(),
{
    if views.len() == 0 {
        attrs
    } else {
        put(
            with_view_refs(attrs, views.drop_last()),
            views.last().0,
            AttrModel::JsxVariableRef(views.last().1),
        )
    }
}

/// The resource component of the table `resource` with the views `views`.
pub open spec fn admin_tag(resource: Seq<char>, views: ViewNames) -> NodeModel {
    NodeModel::Leaf(
        "Resource"@,
        Some(with_view_refs(seq![("name"@, AttrModel::JsxString(resource))], views)),
    )
}

/// The resource components of `groups`, in order.
pub open spec fn admin_tags(groups: ResourceViews) -> Seq<NodeModel> {
    Seq::new(groups.len(), |i: int| admin_tag(groups[i].0, groups[i].1))
}

/// The root component of the application: it holds the resources and refers
/// to the data provider `provider`.
pub open spec fn admin_node(provider: Seq<char>, resources: Seq<NodeModel>) -> NodeModel {
    NodeModel::Node(
        "Admin"@,
        Some(seq![("dataProvider"@, AttrModel::JsxVariableRef(provider))]),
        resources,
    )
}

/// The import declarations of `imports`, in order.
pub open spec fn import_lines(imports: Seq<ImportModel>) -> Seq<Seq<char>> {
    Seq::new(imports.len(), |i: int| import_text(imports[i]))
}

/// The module of a view: its imports, one to a line, then the view as an
/// exported function of its properties.
pub open spec fn view_module(v: ViewModel) -> Seq<char> {
    join(import_lines(v.2), "\n"@) + "\n\nexport const "@ + v.0 + " = (props) => (\n"@ + node_text(
        v.1,
        Seq::empty(),
    ) + "\n);\n"@
}

/// The name of the file that holds the module of the view named `name`.
pub open spec fn view_file_name(name: Seq<char>) -> Seq<char> {
    name + ".js"@
}

/// The import by which the application takes the view named `name` from its module.
pub open spec fn view_import(name: Seq<char>) -> ImportModel {
    ImportModel::named("./"@ + name, seq![name])
}

/// What is generated for each of `views`, in order.
pub open spec fn view_models(tables: Seq<TableModel>, views: Seq<ViewSpecModel>) -> Seq<ViewModel> {
    Seq::new(views.len(), |i: int| view_model(tables, views[i]))
}

/// The files of the views `views`: for each its name and its text.
pub open spec fn view_files(views: Seq<ViewModel>) -> Seq<(Seq<char>, Seq<char>)> {
    Seq::new(views.len(), |i: int| (view_file_name(views[i].0), view_module(views[i])))
}

/// The imports by which the application takes the views `views`.
pub open spec fn view_module_imports(views: Seq<ViewModel>) -> Seq<ImportModel> {
    Seq::new(views.len(), |i: int| view_import(views[i].0))
}

/// The module of the application: the imports of the libraries, the import of
/// the data provider `provider_import`, the imports of the views, and the
/// root component with one resource for each table that has views.
pub open spec fn app_module(m: SchemaModel, provider: Seq<char>, provider_import: Seq<char>) -> Seq<char> {
    "import React from 'react';\n"@ + "import { Admin, Resource } from 'react-admin';\n"@
        + provider_import + ";\n"@ + concat_terminated(
        import_lines(view_module_imports(view_models(m.tables, m.views))),
        "\n"@,
    ) + "const App = () => (\n"@ + node_text(
        admin_node(provider, admin_tags(resource_views(m.tables, m.views))),
        Seq::empty(),
    ) + "\n);\nexport default App;"@
}

/// Everything that is generated, as text.
pub struct Generated {
    /// The schema file.
    pub sql: String,
    /// The file of each view: its name and its text.
    pub views: Vec<(String, String)>,
    /// The module of the application.
    pub app: String,
}

/// What a [`Generated`] holds.
pub struct GeneratedModel {
    pub sql: Seq<char>,
    pub views: Seq<(Seq<char>, Seq<char>)>,
    pub app: Seq<char>,
}

impl DeepView for Generated {
    type V = GeneratedModel;

    open spec fn deep_view(&self) -> GeneratedModel {
        GeneratedModel { sql: self.sql@, views: self.views.deep_view(), app: self.app@ }
    }
}

/// Everything that is generated from the schema `m` for an application that
/// builds its data provider with `provider` and imports it with `provider_import`.
pub open spec fn generated(m: SchemaModel, provider: Seq<char>, provider_import: Seq<char>) -> GeneratedModel {
    GeneratedModel {
        sql: sql_file(m),
        views: view_files(view_models(m.tables, m.views)),
        app: app_module(m, provider, provider_import),
    }
}

/// No table occurs twice among the grouped views: every table has one entry,
/// which holds all its views.
pub proof fn lemma_resource_views_distinct(tables: Seq<TableModel>, views: Seq<ViewSpecModel>)
    ensures
        distinct(names_of(resource_views(tables, views))),
    decreases views.len(),
{
    if views.len() > 0 {
        let before = resource_views(tables, views.drop_last());
        let table = views.last().source.name;
        let after = resource_views(tables, views);
        lemma_resource_views_distinct(tables, views.drop_last());
        lemma_first_index_of(names_of(before), table);
        match first_index_of(names_of(before), table) {
            Some(i) => {
                assert(names_of(after) =~= names_of(before));
            },
            None => {
                assert(names_of(after) =~= names_of(before).push(table));
            },
        }
    }
}

/// No attribute occurs twice in a resource component, whatever its views are.
pub proof fn lemma_admin_tag_attrs_distinct(resource: Seq<char>, views: ViewNames)
    ensures
        admin_tag(resource, views) matches NodeModel::Leaf(_, Some(attrs)) && distinct(
            names_of(attrs),
        ),
    decreases views.len(),
{
    let base = seq![("name"@, AttrModel::JsxString(resource))];
    lemma_view_refs_distinct(base, views);
}

/// Putting views' references into attributes without a repeated name leaves
/// them without one.
pub proof fn lemma_view_refs_distinct(attrs: AttrsModel, views: ViewNames)
    requires
        distinct(names_of(attrs)),
    ensures
        distinct(names_of(with_view_refs(attrs, views))),
    decreases views.len(),
{
    if views.len() > 0 {
        lemma_view_refs_distinct(attrs, views.drop_last());
        lemma_put(
            with_view_refs(attrs, views.drop_last()),
            views.last().0,
            AttrModel::JsxVariableRef(views.last().1),
        );
    }
}

/// Generating twice gives the same text: what is generated depends on nothing
/// but what the description and the two data-provider texts hold.
pub proof fn lemma_generation_repeats(
    first: SchemaSpec,
    second: SchemaSpec,
    provider: Seq<char>,
    provider_import: Seq<char>,
    first_out: Generated,
    second_out: Generated,
)
    requires
        first.deep_view() == second.deep_view(),
        first_out.deep_view() == generated(first.deep_view(), provider, provider_import),
        second_out.deep_view() == generated(second.deep_view(), provider, provider_import),
    ensures
        first_out.sql@ == second_out.sql@,
        first_out.views.deep_view() == second_out.views.deep_view(),
        first_out.app@ == second_out.app@,
{
}

/// The resource component of the table `rsrc` with the views `views`.
pub fn make_admin_tag(rsrc: &str, views: &Vec<(String, String)>) -> (r: JsxNode)
    ensures
        r.deep_view() == admin_tag(rsrc@, views.deep_view()),
{
    let ghost model = views.deep_view();
    let ghost base = seq![("name"@, AttrModel::JsxString(rsrc@))];
    let mut attrs: Vec<(String, JsxAttr)> = Vec::new();
    attrs.push((String::from_str("name"), JsxAttr::JsxString(String::from_str(rsrc))));
    assert(attrs.deep_view() =~= base);
    assert(model.take(0) =~= Seq::empty());
    let mut i: usize = 0;
    while i < views.len()
        invariant
            i <= views.len(),
            model == views.deep_view(),
            attrs.deep_view() == with_view_refs(base, model.take(i as int)),
        decreases views.len() - i,
    {
        assert(model.take(i as int + 1).drop_last() =~= model.take(i as int));
        insert_attr(&mut attrs, views[i].0.clone(), JsxAttr::JsxVariableRef(views[i].1.clone()));
        i += 1;
    }
    assert(model.take(i as int) =~= model);
    JsxNode::Leaf(String::from_str("Resource"), Some(attrs))
}

/// The import declarations of `imports`, in order.
pub fn import_strings(imports: &Vec<Import>) -> (r: Vec<String>)
    ensures
        r.deep_view() == import_lines(imports.deep_view()),
{
    let mut lines: Vec<String> = Vec::new();
    let mut i: usize = 0;
    while i < imports.len()
        invariant
            i <= imports.len(),
            lines@.len() == i,
            forall|j: int| 0 <= j < i ==> lines@[j]@ == import_text(imports@[j].deep_view()),
        decreases imports.len() - i,
    {
        lines.push(imports[i].to_string());
        i += 1;
    }
    assert(lines.deep_view() =~= import_lines(imports.deep_view()));
    lines
}

/// The module of the view `name` with the tree `node` and the imports `imports`.
pub fn view_module_text(name: &str, node: &JsxNode, imports: &Vec<Import>) -> (r: String)
    ensures
        r@ == view_module((name@, node.deep_view(), imports.deep_view())),
{
    let lines = import_strings(imports);
    let mut r = join_strings(&lines, "\n");
    r.append("\n\nexport const ");
    r.append(name);
    r.append(" = (props) => (\n");
    let tree = node.to_string(true, String::new());
    r.append(tree.as_str());
    r.append("\n);\n");
    r
}

fn add_view_entry(groups: &mut Vec<(String, Vec<(String, String)>)>, table: &String, kind: String, name: String)
    ensures
        final(groups).deep_view() == add_view(old(groups).deep_view(), table@, (kind@, name@)),
{
    let ghost before = groups.deep_view();
    assert(entry_names(groups@) =~= names_of(before));
    proof {
        lemma_first_index_of(names_of(before), table@);
    }
    match key_index(groups, table) {
        Some(i) => {
            let mut list: Vec<(String, String)> = Vec::new();
            let mut j: usize = 0;
            while j < groups[i].1.len()
                invariant
                    i < groups.len(),
                    j <= groups@[i as int].1.len(),
                    before == groups.deep_view(),
                    list.deep_view() == before[i as int].1.take(j as int),
                decreases groups@[i as int].1.len() - j,
            {
                let ghost l0 = list.deep_view();
                list.push((groups[i].1[j].0.clone(), groups[i].1[j].1.clone()));
                assert(list.deep_view() =~= l0.push(before[i as int].1[j as int]));
                assert(before[i as int].1.take(j as int + 1) =~= l0.push(before[i as int].1[j as int]));
                j += 1;
            }
            assert(before[i as int].1.take(j as int) =~= before[i as int].1);
            let ghost l1 = list.deep_view();
            list.push((kind, name));
            assert(list.deep_view() =~= l1.push((kind@, name@)));
            let key = groups[i].0.clone();
            groups.set(i, (key, list));
            assert(groups.deep_view() =~= before.update(
                i as int,
                (before[i as int].0, before[i as int].1.push((kind@, name@))),
            ));
        },
        None => {
            let mut list: Vec<(String, String)> = Vec::new();
            list.push((kind, name));
            assert(list.deep_view() =~= seq![(kind@, name@)]);
            groups.push((table.clone(), list));
            assert(groups.deep_view() =~= before.push((table@, seq![(kind@, name@)])));
        },
    }
}

fn app_module_text(
    groups: &Vec<(String, Vec<(String, String)>)>,
    imports: &Vec<Import>,
    provider: &str,
    provider_import: &str,
) -> (r: String)
    ensures
        r@ == "import React from 'react';\n"@ + "import { Admin, Resource } from 'react-admin';\n"@
            + provider_import@ + ";\n"@ + concat_terminated(
            import_lines(imports.deep_view()),
            "\n"@,
        ) + "const App = () => (\n"@ + node_text(
            admin_node(provider@, admin_tags(groups.deep_view())),
            Seq::empty(),
        ) + "\n);\nexport default App;"@,
{
    let ghost gm = groups.deep_view();
    let mut resources: Vec<JsxNode> = Vec::new();
    let mut i: usize = 0;
    while i < groups.len()
        invariant
            i <= groups.len(),
            gm == groups.deep_view(),
            resources@.len() == i,
            forall|j: int| 0 <= j < i ==> resources@[j].deep_view() == admin_tag(gm[j].0, gm[j].1),
        decreases groups.len() - i,
    {
        resources.push(make_admin_tag(groups[i].0.as_str(), &groups[i].1));
        i += 1;
    }
    assert(resources.deep_view() =~= admin_tags(gm));
    let mut attrs: Vec<(String, JsxAttr)> = Vec::new();
    attrs.push(
        (String::from_str("dataProvider"), JsxAttr::JsxVariableRef(String::from_str(provider))),
    );
    assert(attrs.deep_view() =~= seq![("dataProvider"@, AttrModel::JsxVariableRef(provider@))]);
    let root = JsxNode::node("Admin", Some(attrs), resources);
    let mut r = String::from_str("import React from 'react';\n");
    r.append("import { Admin, Resource } from 'react-admin';\n");
    r.append(provider_import);
    r.append(";\n");
    let lines = import_strings(imports);
    let import_block = concat_terminated_strings(&lines, "\n");
    r.append(import_block.as_str());
    r.append("const App = () => (\n");
    let tree = root.to_string(true, String::new());
    r.append(tree.as_str());
    r.append("\n);\nexport default App;");
    r
}

/// Generates everything from `schema` for an application that builds its data
/// provider with `provider` and imports it with `provider_import`.
pub fn generate(schema: &SchemaSpec, provider: &str, provider_import: &str) -> (r: Generated)
    ensures
        r.deep_view() == generated(schema.deep_view(), provider@, provider_import@),
{
    let ghost m = schema.deep_view();
    let ghost vms = view_models(m.tables, m.views);
    let sql = schema_sql(schema);
    let mut files: Vec<(String, String)> = Vec::new();
    let mut imports: Vec<Import> = Vec::new();
    let mut groups: Vec<(String, Vec<(String, String)>)> = Vec::new();
    assert(groups.deep_view() =~= resource_views(m.tables, m.views.take(0)));
    let mut i: usize = 0;
    while i < schema.views.len()
        invariant
            i <= schema.views.len(),
            m == schema.deep_view(),
            vms == view_models(m.tables, m.views),
            files@.len() == i,
            imports@.len() == i,
            forall|j: int| 0 <= j < i ==> files@[j].deep_view() == view_files(vms)[j],
            forall|j: int| 0 <= j < i ==> imports@[j].deep_view() == view_import(vms[j].0),
            groups.deep_view() == resource_views(m.tables, m.views.take(i as int)),
        decreases schema.views.len() - i,
    {
        let view = &schema.views[i];
        let (name, node, view_imports) = top_level_view_node(&schema.tables, view);
        assert(m.views.take(i as int + 1).drop_last() =~= m.views.take(i as int));
        add_view_entry(&mut groups, &view.source.name, view.view.view_attr_name(), name.clone());
        let text = view_module_text(name.as_str(), &node, &view_imports);
        let mut file_name = name.clone();
        file_name.append(".js");
        files.push((file_name, text));
        let mut source = String::from_str("./");
        source.append(name.as_str());
        let mut symbols: Vec<&str> = Vec::new();
        symbols.push(name.as_str());
        assert(symbols.deep_view() =~= seq![name@]);
        imports.push(Import::new(source.as_str(), symbols));
        i += 1;
    }
    assert(m.views.take(i as int) =~= m.views);
    assert(files.deep_view() =~= view_files(vms));
    assert(imports.deep_view() =~= view_module_imports(vms));
    let app = app_module_text(&groups, &imports, provider, provider_import);
    Generated { sql, views: files, app }
}

} // verus!
