//! An interface described widget by widget: resources, and for each widget the
//! resource, the views that show it and its place among them. From such a
//! description come a list, an edit, a create and a show view for every
//! resource, and the script of the application.

use vstd::prelude::*;
use crate::ordered::{distinct, insert_entry, lemma_put, names_of, put};
use crate::text::{
    concat_terminated, concat_terminated_strings, join, join_strings, lower_rest, lowered,
    upper_first, uppercase_of,
};

verus! {

/// Whether a column shows in a view.
#[derive(Debug, Clone, Copy, PartialEq, Eq, Structural)]
pub enum Visibility {
    Hidden,
    Default,
    Visible,
}

/// The views that a resource can have.
#[derive(Debug, Clone, Copy, PartialEq, Eq, Structural, Hash)]
pub enum BaseView {
    Create,
    Default,
    Delete,
    Edit,
    Filter,
    List,
    Show,
}

impl DeepView for BaseView {
    type V = BaseView;

    open spec fn deep_view(&self) -> BaseView {
        *self
    }
}

/// The attribute under which a resource names its view `b`.
pub open spec fn view_key(b: BaseView) -> Seq<char> {
    match b {
        BaseView::Default => "default"@,
        BaseView::Create => "create"@,
        BaseView::Delete => "delete"@,
        BaseView::Edit => "edit"@,
        BaseView::Filter => "filter"@,
        BaseView::List => "list"@,
        BaseView::Show => "show"@,
    }
}

impl BaseView {
    /// The attribute under which a resource names this view.
    pub fn as_key(&self) -> (r: String)
        ensures
            r@ == view_key(*self),
    {
        match self {
            BaseView::Default => String::from_str("default"),
            BaseView::Create => String::from_str("create"),
            BaseView::Delete => String::from_str("delete"),
            BaseView::Edit => String::from_str("edit"),
            BaseView::Filter => String::from_str("filter"),
            BaseView::List => String::from_str("list"),
            BaseView::Show => String::from_str("show"),
        }
    }
}

/// The kinds of view of the items that a widget holds.
#[derive(Debug, Clone, Copy, PartialEq, Eq, Structural)]
pub enum ChildView {
    Array,
    ReferenceArray,
    ReferenceMany,
}

/// The view of the items that a widget holds.
#[derive(Debug)]
pub struct ChildViewDef {
    pub base_view: ChildView,
    pub use_extended: bool,
    pub widgets: Vec<WidgetDef>,
}

/// A widget by its type, with its properties and the view of its items.
#[derive(Debug)]
pub struct WidgetDef {
    pub widget_type: String,
    pub child: Option<Box<ChildViewDef>>,
    pub props: Option<Vec<(String, String)>>,
}

/// What a [`ChildViewDef`] holds.
pub struct ChildViewModel {
    pub base_view: ChildView,
    pub use_extended: bool,
    pub widgets: Seq<WidgetDefModel>,
}

/// What a [`WidgetDef`] holds.
pub struct WidgetDefModel {
    pub widget_type: Seq<char>,
    pub child: Option<Box<ChildViewModel>>,
    pub props: Option<Seq<(Seq<char>, Seq<char>)>>,
}

/// What `c` holds.
pub open spec fn child_view_model(c: ChildViewDef) -> ChildViewModel
    decreases c,
{
    ChildViewModel {
        base_view: c.base_view,
        use_extended: c.use_extended,
        widgets: Seq::new(
            c.widgets@.len(),
            |i: int|
                if 0 <= i < c.widgets@.len() {
                    widget_def_model(c.widgets@[i])
                } else {
                    WidgetDefModel { widget_type: Seq::empty(), child: None, props: None }
                },
        ),
    }
}

/// What `w` holds.
pub open spec fn widget_def_model(w: WidgetDef) -> WidgetDefModel
    decreases w,
{
    WidgetDefModel {
        widget_type: w.widget_type@,
        child: match w.child {
            Some(c) => Some(Box::new(child_view_model(*c))),
            None => None,
        },
        props: w.props.deep_view(),
    }
}

impl DeepView for ChildViewDef {
    type V = ChildViewModel;

    open spec fn deep_view(&self) -> ChildViewModel {
        child_view_model(*self)
    }
}

impl DeepView for WidgetDef {
    type V = WidgetDefModel;

    open spec fn deep_view(&self) -> WidgetDefModel {
        widget_def_model(*self)
    }
}

/// A widget of a resource: the field it shows, the views that show it, and
/// its place among the widgets of a view.
#[derive(Debug)]
pub struct ViewWidgetDef {
    pub resource: String,
    pub field_source: String,
    pub label: Option<String>,
    pub widget_type: String,
    pub order: Option<usize>,
    pub views: Vec<BaseView>,
    pub props: Option<Vec<(String, String)>>,
    pub child: Option<Box<ChildViewDef>>,
}

/// What a [`ViewWidgetDef`] holds.
pub struct ViewWidgetModel {
    pub resource: Seq<char>,
    pub field_source: Seq<char>,
    pub label: Option<Seq<char>>,
    pub widget_type: Seq<char>,
    pub order: Option<nat>,
    pub views: Seq<BaseView>,
    pub props: Option<Seq<(Seq<char>, Seq<char>)>>,
    pub child: Option<ChildViewModel>,
}

impl DeepView for ViewWidgetDef {
    type V = ViewWidgetModel;

    open spec fn deep_view(&self) -> ViewWidgetModel {
        ViewWidgetModel {
            resource: self.resource@,
            field_source: self.field_source@,
            label: self.label.deep_view(),
            widget_type: self.widget_type@,
            order: match self.order {
                Some(n) => Some(n as nat),
                None => None,
            },
            views: self.views@,
            props: self.props.deep_view(),
            child: self.child.deep_view(),
        }
    }
}

/// A resource: its name, its title, and the views that it offers.
#[derive(Debug)]
pub struct ResourceDef {
    pub name: String,
    pub label: String,
    pub endpoint: Option<String>,
    pub enabled_actions: Option<Vec<BaseView>>,
}

/// What a [`ResourceDef`] holds.
pub struct ResourceModel {
    pub name: Seq<char>,
    pub label: Seq<char>,
    pub endpoint: Option<Seq<char>>,
    pub enabled_actions: Option<Seq<BaseView>>,
}

impl DeepView for ResourceDef {
    type V = ResourceModel;

    open spec fn deep_view(&self) -> ResourceModel {
        ResourceModel {
            name: self.name@,
            label: self.label@,
            endpoint: self.endpoint.deep_view(),
            enabled_actions: match self.enabled_actions {
                Some(views) => Some(views@),
                None => None,
            },
        }
    }
}

/// A field of a resource with the widgets that show it.
#[derive(Debug)]
pub struct FieldDef {
    pub source: String,
    pub label: Option<String>,
    pub view: Option<Vec<WidgetDef>>,
}

/// What a [`FieldDef`] holds.
pub struct FieldDefModel {
    pub source: Seq<char>,
    pub label: Option<Seq<char>>,
    pub view: Option<Seq<WidgetDefModel>>,
}

impl DeepView for FieldDef {
    type V = FieldDefModel;

    open spec fn deep_view(&self) -> FieldDefModel {
        FieldDefModel {
            source: self.source@,
            label: self.label.deep_view(),
            view: self.view.deep_view(),
        }
    }
}

/// An action of a resource; it holds nothing yet.
#[derive(Debug)]
pub struct ActionDef {}

/// The description of an interface: its resources and its widgets.
#[derive(Debug)]
pub struct UiDef {
    pub resources: Vec<ResourceDef>,
    pub widgets: Vec<ViewWidgetDef>,
}

/// What a [`UiDef`] holds.
pub struct UiModel {
    pub resources: Seq<ResourceModel>,
    pub widgets: Seq<ViewWidgetModel>,
}

impl DeepView for UiDef {
    type V = UiModel;

    open spec fn deep_view(&self) -> UiModel {
        UiModel { resources: self.resources.deep_view(), widgets: self.widgets.deep_view() }
    }
}

/// What can be written as script.
pub trait GenScript {
    /// The script that stands for this value.
    spec fn script(&self) -> Seq<char>;

    /// Writes this value as script.
    fn gen(&self) -> (r: String)
        ensures
            r@ == self.script(),
    ;
}

/// The scripts of `items`, in order.
pub open spec fn scripts<A: GenScript>(items: Seq<A>) -> Seq<Seq<char>> {
    Seq::new(items.len(), |i: int| items[i].script())
}

impl<A: GenScript> GenScript for Vec<A> {
    open spec fn script(&self) -> Seq<char> {
        join(scripts(self@), "\n"@) + "\n"@
    }

    fn gen(&self) -> (r: String) {
        let mut parts: Vec<String> = Vec::new();
        let mut i: usize = 0;
        while i < self.len()
            invariant
                i <= self.len(),
                parts@.len() == i,
                forall|j: int| 0 <= j < i ==> parts@[j]@ == self@[j].script(),
            decreases self.len() - i,
        {
            parts.push(self[i].gen());
            i += 1;
        }
        assert(parts.deep_view() =~= scripts(self@));
        let mut r = join_strings(&parts, "\n");
        r.append("\n");
        r
    }
}

impl<A: GenScript> GenScript for Option<A> {
    open spec fn script(&self) -> Seq<char> {
        match self {
            Some(a) => a.script(),
            None => Seq::empty(),
        }
    }

    fn gen(&self) -> (r: String) {
        match self {
            Some(a) => a.gen(),
            None => String::new(),
        }
    }
}

impl<A: GenScript> GenScript for Box<A> {
    open spec fn script(&self) -> Seq<char> {
        (**self).script()
    }

    fn gen(&self) -> (r: String) {
        (**self).gen()
    }
}

/// The symbols taken from one module.
#[derive(Debug)]
pub struct Import {
    pub source: String,
    pub symbols: Vec<String>,
}

/// What an [`Import`] holds.
pub struct ImportModel {
    pub source: Seq<char>,
    pub symbols: Seq<Seq<char>>,
}

impl DeepView for Import {
    type V = ImportModel;

    open spec fn deep_view(&self) -> ImportModel {
        ImportModel { source: self.source@, symbols: self.symbols.deep_view() }
    }
}

/// The import declaration for `i`, with the end of its line.
pub open spec fn import_script(i: ImportModel) -> Seq<char> {
    "import {"@ + join(i.symbols, ", "@) + "} from '"@ + i.source + "';\n"@
}

impl Import {
    /// Hands `imports` back as they are: imports from one module are not merged.
    pub fn merge(imports: Vec<Import>) -> (r: Vec<Import>)
        ensures
            r == imports,
    {
        imports
    }
}

impl GenScript for Import {
    open spec fn script(&self) -> Seq<char> {
        import_script(self.deep_view())
    }

    fn gen(&self) -> (r: String) {
        let mut r = String::from_str("import {");
        let symbols = join_strings(&self.symbols, ", ");
        r.append(symbols.as_str());
        r.append("} from '");
        r.append(self.source.as_str());
        r.append("';\n");
        r
    }
}

/// The value of an attribute of a tag.
#[derive(Debug)]
pub enum AttrV {
    JString(String),
    JVarRef(String),
    Object(Vec<(String, String)>),
    JObject(Vec<(String, Box<AttrV>)>),
    JRaw(String),
    Bool(bool),
    Ellipsis(String),
}

/// What an [`AttrV`] holds.
pub enum AttrVModel {
    JString(Seq<char>),
    JVarRef(Seq<char>),
    Object(Seq<(Seq<char>, Seq<char>)>),
    JObject(Seq<(Seq<char>, AttrVModel)>),
    JRaw(Seq<char>),
    Bool(bool),
    Ellipsis(Seq<char>),
}

/// The attributes of a tag, by name, in the order in which they are written.
pub type AttrsModel = Seq<(Seq<char>, AttrVModel)>;

/// What `a` holds.
pub open spec fn attr_model(a: AttrV) -> AttrVModel
    decreases a,
{
    match a {
        AttrV::JString(s) => AttrVModel::JString(s@),
        AttrV::JVarRef(s) => AttrVModel::JVarRef(s@),
        AttrV::Object(m) => AttrVModel::Object(m.deep_view()),
        AttrV::JObject(m) => AttrVModel::JObject(
            Seq::new(
                m@.len(),
                |i: int|
                    if 0 <= i < m@.len() {
                        (m@[i].0@, attr_model(*m@[i].1))
                    } else {
                        (Seq::empty(), AttrVModel::Bool(false))
                    },
            ),
        ),
        AttrV::JRaw(s) => AttrVModel::JRaw(s@),
        AttrV::Bool(b) => AttrVModel::Bool(b),
        AttrV::Ellipsis(s) => AttrVModel::Ellipsis(s@),
    }
}

impl DeepView for AttrV {
    type V = AttrVModel;

    open spec fn deep_view(&self) -> AttrVModel {
        attr_model(*self)
    }
}

/// The attributes of a tag.
pub struct Attrs {
    attrs: Vec<(String, AttrV)>,
}

impl DeepView for Attrs {
    type V = AttrsModel;

    closed spec fn deep_view(&self) -> AttrsModel {
        self.attrs.deep_view()
    }
}

impl Attrs {
    /// The attributes `attrs`.
    pub fn new(attrs: Vec<(String, AttrV)>) -> (r: Attrs)
        ensures
            r.deep_view() == attrs.deep_view(),
    {
        Attrs { attrs }
    }

    /// Hands the attributes out.
    pub fn into_vec(self) -> (r: Vec<(String, AttrV)>)
        ensures
            r.deep_view() == self.deep_view(),
    {
        self.attrs
    }
}

/// The entries of a plain object, each as its key, a colon and its value in quotes.
pub open spec fn object_scripts(m: Seq<(Seq<char>, Seq<char>)>) -> Seq<Seq<char>> {
    Seq::new(m.len(), |i: int| m[i].0 + ": \""@ + m[i].1 + "\""@)
}

/// The value `a` as script.
pub open spec fn attr_script(a: AttrVModel) -> Seq<char>
    decreases a,
{
    match a {
        AttrVModel::JString(s) => "\""@ + s + "\""@,
        AttrVModel::JRaw(s) => s,
        AttrVModel::JVarRef(s) => s,
        AttrVModel::Object(m) => join(object_scripts(m), ", "@),
        AttrVModel::JObject(m) => join(entry_scripts(m), ", "@),
        AttrVModel::Bool(v) => if v {
            "true"@
        } else {
            "false"@
        },
        AttrVModel::Ellipsis(name) => "..."@ + name,
    }
}

/// The entries of a nested object, each as its key, a colon and its value.
pub open spec fn entry_scripts(m: AttrsModel) -> Seq<Seq<char>>
    decreases m,
{
    if m.len() == 0 {
        Seq::empty()
    } else {
        entry_scripts(m.drop_last()).push(m.last().0 + ": "@ + attr_script(m.last().1))
    }
}

/// `entry_scripts` writes each entry by itself and keeps the order.
pub proof fn lemma_entry_scripts(m: AttrsModel)
    ensures
        entry_scripts(m).len() == m.len(),
        forall|i: int|
            0 <= i < m.len() ==> #[trigger] entry_scripts(m)[i] == m[i].0 + ": "@ + attr_script(
                m[i].1,
            ),
    decreases m.len(),
{
    if m.len() > 0 {
        lemma_entry_scripts(m.drop_last());
    }
}

/// The attribute `k` with the value `v`, as it stands in a tag.
pub open spec fn tag_attr(k: Seq<char>, v: AttrVModel) -> Seq<char> {
    match v {
        AttrVModel::Bool(flag) => if flag {
            k
        } else {
            Seq::empty()
        },
        AttrVModel::JString(s) => k + "=\""@ + s + "\""@,
        AttrVModel::Ellipsis(e) => "{..."@ + e + "}"@,
        AttrVModel::JVarRef(_) => k + "={"@ + attr_script(v) + "}"@,
        AttrVModel::Object(_) => k + "={"@ + attr_script(v) + "}"@,
        AttrVModel::JObject(_) => k + "={"@ + attr_script(v) + "}"@,
        AttrVModel::JRaw(_) => k + "={"@ + attr_script(v) + "}"@,
    }
}

/// Each attribute of `m` as it stands in a tag.
pub open spec fn tag_attr_list(m: AttrsModel) -> Seq<Seq<char>> {
    Seq::new(m.len(), |i: int| tag_attr(m[i].0, m[i].1))
}

/// The attributes `a` as they stand in a tag, a space between neighbours.
pub open spec fn tag_attrs(a: Option<AttrsModel>) -> Seq<char> {
    match a {
        Some(m) => join(tag_attr_list(m), " "@),
        None => Seq::empty(),
    }
}

impl AttrV {
    /// The text `s` as a value.
    pub fn string(s: &str) -> (r: AttrV)
        ensures
            r.deep_view() == AttrVModel::JString(s@),
    {
        AttrV::JString(String::from_str(s))
    }

    /// This value as script.
    pub fn to_script(&self) -> (r: String)
        ensures
            r@ == attr_script(self.deep_view()),
        decreases self,
    {
        match self {
            AttrV::JString(s) => {
                let mut r = String::from_str("\"");
                r.append(s.as_str());
                r.append("\"");
                r
            },
            AttrV::JRaw(s) => s.clone(),
            AttrV::JVarRef(s) => s.clone(),
            AttrV::Object(m) => {
                let ghost model = m.deep_view();
                let mut parts: Vec<String> = Vec::new();
                let mut i: usize = 0;
                while i < m.len()
                    invariant
                        i <= m.len(),
                        model == m.deep_view(),
                        parts@.len() == i,
                        forall|j: int| 0 <= j < i ==> parts@[j]@ == object_scripts(model)[j],
                    decreases m.len() - i,
                {
                    let mut part = m[i].0.clone();
                    part.append(": \"");
                    part.append(m[i].1.as_str());
                    part.append("\"");
                    parts.push(part);
                    i += 1;
                }
                assert(parts.deep_view() =~= object_scripts(model));
                join_strings(&parts, ", ")
            },
            AttrV::JObject(m) => {
                let ghost model = self.deep_view()->JObject_0;
                let mut parts: Vec<String> = Vec::new();
                let mut i: usize = 0;
                while i < m.len()
                    invariant
                        i <= m.len(),
                        *self matches AttrV::JObject(mm) && mm == *m,
                        model == self.deep_view()->JObject_0,
                        model.len() == m.len(),
                        parts@.len() == i,
                        forall|j: int|
                            0 <= j < i ==> parts@[j]@ == model[j].0 + ": "@ + attr_script(
                                model[j].1,
                            ),
                    decreases m.len() - i,
                {
                    let mut part = m[i].0.clone();
                    part.append(": ");
                    let value = m[i].1.to_script();
                    part.append(value.as_str());
                    parts.push(part);
                    i += 1;
                }
                proof {
                    lemma_entry_scripts(model);
                }
                assert(parts.deep_view() =~= entry_scripts(model));
                join_strings(&parts, ", ")
            },
            AttrV::Bool(v) => {
                if *v {
                    String::from_str("true")
                } else {
                    String::from_str("false")
                }
            },
            AttrV::Ellipsis(name) => {
                let mut r = String::from_str("...");
                r.append(name.as_str());
                r
            },
        }
    }
}

impl GenScript for AttrV {
    open spec fn script(&self) -> Seq<char> {
        attr_script(self.deep_view())
    }

    fn gen(&self) -> (r: String) {
        self.to_script()
    }
}

impl<'a> GenScript for &'a AttrV {
    open spec fn script(&self) -> Seq<char> {
        attr_script(self.deep_view())
    }

    fn gen(&self) -> (r: String) {
        (*self).to_script()
    }
}

/// The attributes `a` as they stand in a tag.
pub fn gen_jsx_tag_attrs(a: &Option<Vec<(String, AttrV)>>) -> (r: String)
    ensures
        r@ == tag_attrs(a.deep_view()),
{
    match a {
        Some(m) => {
            let ghost model = m.deep_view();
            let mut parts: Vec<String> = Vec::new();
            let mut i: usize = 0;
            while i < m.len()
                invariant
                    i <= m.len(),
                    model == m.deep_view(),
                    parts@.len() == i,
                    forall|j: int| 0 <= j < i ==> parts@[j]@ == tag_attr(model[j].0, model[j].1),
                decreases m.len() - i,
            {
                let k = &m[i].0;
                let part = match &m[i].1 {
                    AttrV::Bool(flag) => {
                        if *flag {
                            k.clone()
                        } else {
                            String::new()
                        }
                    },
                    AttrV::JString(s) => {
                        let mut p = k.clone();
                        p.append("=\"");
                        p.append(s.as_str());
                        p.append("\"");
                        p
                    },
                    AttrV::Ellipsis(e) => {
                        let mut p = String::from_str("{...");
                        p.append(e.as_str());
                        p.append("}");
                        p
                    },
                    AttrV::JVarRef(_) => braced(k, &m[i].1),
                    AttrV::Object(_) => braced(k, &m[i].1),
                    AttrV::JObject(_) => braced(k, &m[i].1),
                    AttrV::JRaw(_) => braced(k, &m[i].1),
                };
                parts.push(part);
                i += 1;
            }
            assert(parts.deep_view() =~= tag_attr_list(model));
            join_strings(&parts, " ")
        },
        None => String::new(),
    }
}

fn braced(k: &String, v: &AttrV) -> (r: String)
    ensures
        r@ == k@ + "={"@ + attr_script(v.deep_view()) + "}"@,
{
    let mut p = k.clone();
    p.append("={");
    let value = v.gen();
    p.append(value.as_str());
    p.append("}");
    p
}

/// A node of a tree of tags: a tag with children, a tag without, or text.
#[derive(Debug)]
pub enum Node {
    Node(String, Option<Vec<(String, AttrV)>>, Vec<Box<Node>>),
    Leaf(String, Option<Vec<(String, AttrV)>>),
    Text(String),
}

/// What a [`Node`] holds.
pub enum NodeModel {
    Node(Seq<char>, Option<AttrsModel>, Seq<NodeModel>),
    Leaf(Seq<char>, Option<AttrsModel>),
    Text(Seq<char>),
}

/// What `n` holds.
pub open spec fn node_model(n: Node) -> NodeModel
    decreases n,
{
    match n {
        Node::Node(tag, attrs, kids) => NodeModel::Node(
            tag@,
            attrs.deep_view(),
            Seq::new(
                kids@.len(),
                |i: int|
                    if 0 <= i < kids@.len() {
                        node_model(*kids@[i])
                    } else {
                        NodeModel::Text(Seq::empty())
                    },
            ),
        ),
        Node::Leaf(tag, attrs) => NodeModel::Leaf(tag@, attrs.deep_view()),
        Node::Text(text) => NodeModel::Text(text@),
    }
}

impl DeepView for Node {
    type V = NodeModel;

    open spec fn deep_view(&self) -> NodeModel {
        node_model(*self)
    }
}

impl NodeModel {
    /// The tag; text has none.
    pub open spec fn tag(self) -> Option<Seq<char>> {
        match self {
            NodeModel::Node(tag, _, _) => Some(tag),
            NodeModel::Leaf(tag, _) => Some(tag),
            NodeModel::Text(_) => None,
        }
    }

    /// This node with `child` as its last child; a leaf and text take no child.
    pub open spec fn extended(self, child: NodeModel) -> NodeModel {
        match self {
            NodeModel::Node(tag, attrs, kids) => NodeModel::Node(tag, attrs, kids.push(child)),
            NodeModel::Leaf(_, _) => self,
            NodeModel::Text(_) => self,
        }
    }
}

/// The script of each of `kids`.
pub open spec fn kid_scripts(kids: Seq<NodeModel>) -> Seq<Seq<char>>
    decreases kids,
{
    if kids.len() == 0 {
        Seq::empty()
    } else {
        kid_scripts(kids.drop_last()).push(node_script(kids.last()))
    }
}

/// The script of `n`: a tag with children spans lines, each child on a line
/// of its own; a tag without children closes itself; text stands as it is.
pub open spec fn node_script(n: NodeModel) -> Seq<char>
    decreases n,
{
    match n {
        NodeModel::Node(tag, attrs, kids) => {
            let attr = tag_attrs(attrs);
            let inner = join(kid_scripts(kids), "\n"@) + "\n"@;
            if attr.len() == 0 && kids.len() > 0 {
                "<"@ + tag + ">\n"@ + inner + "</"@ + tag + ">"@
            } else if attr.len() > 0 && kids.len() > 0 {
                "<"@ + tag + " "@ + attr + ">\n"@ + inner + "</"@ + tag + ">"@
            } else if attr.len() == 0 && kids.len() == 0 {
                "<"@ + tag + "/>"@
            } else {
                "<"@ + tag + " "@ + attr + "/>"@
            }
        },
        NodeModel::Leaf(tag, attrs) => "<"@ + tag + " "@ + tag_attrs(attrs) + "/>"@,
        NodeModel::Text(text) => text,
    }
}

/// `kid_scripts` writes each child by itself and keeps the order.
pub proof fn lemma_kid_scripts(kids: Seq<NodeModel>)
    ensures
        kid_scripts(kids).len() == kids.len(),
        forall|i: int| 0 <= i < kids.len() ==> #[trigger] kid_scripts(kids)[i] == node_script(kids[i]),
    decreases kids.len(),
{
    if kids.len() > 0 {
        lemma_kid_scripts(kids.drop_last());
    }
}

/// The definition of the view `name` as a function of its properties; nothing
/// where there is no tree or the tree writes nothing.
pub open spec fn view_definition(name: Seq<char>, node: Option<NodeModel>, export: bool) -> Seq<char> {
    let body = match node {
        Some(n) => node_script(n),
        None => Seq::empty(),
    };
    if body.len() > 0 {
        (if export {
            "export "@
        } else {
            Seq::empty()
        }) + "const "@ + name + " = (props) => ("@ + "\n"@ + body + "\n"@ + ");"@
    } else {
        Seq::empty()
    }
}

impl Node {
    /// The tag `t` with the attributes `a` and the children `c`.
    pub fn node(t: &str, a: Option<Vec<(String, AttrV)>>, c: Vec<Node>) -> (r: Node)
        ensures
            r.deep_view() == NodeModel::Node(t@, a.deep_view(), c.deep_view()),
    {
        let ghost model = c.deep_view();
        let mut kids: Vec<Box<Node>> = Vec::new();
        for child in it: c
            invariant
                it.seq().len() == model.len(),
                forall|j: int| 0 <= j < model.len() ==> it.seq()[j].deep_view() == model[j],
                kids@.len() == it.index(),
                forall|j: int| 0 <= j < kids@.len() ==> kids@[j].deep_view() == model[j],
        {
            kids.push(Box::new(child));
        }
        let r = Node::Node(String::from_str(t), a, kids);
        assert(r.deep_view()->Node_2 =~= model);
        r
    }

    /// The tag; text has none.
    pub fn get_tag(&self) -> (r: Option<String>)
        ensures
            r.deep_view() == self.deep_view().tag(),
    {
        match self {
            Node::Node(t, _, _) => Some(t.clone()),
            Node::Leaf(t, _) => Some(t.clone()),
            Node::Text(_) => None,
        }
    }

    /// The tag `t` without attributes or children.
    pub fn tag(t: &str) -> (r: Node)
        ensures
            r.deep_view() == NodeModel::Node(t@, None, Seq::empty()),
    {
        let r = Node::Node(String::from_str(t), None, Vec::new());
        assert(r.deep_view()->Node_2 =~= Seq::empty());
        r
    }

    /// The text `t`.
    pub fn text(t: &str) -> (r: Node)
        ensures
            r.deep_view() == NodeModel::Text(t@),
    {
        Node::Text(String::from_str(t))
    }

    /// Makes `n` the last child of this node; a leaf and text stay as they are.
    pub fn extend(&mut self, n: Node)
        ensures
            final(self).deep_view() == old(self).deep_view().extended(n.deep_view()),
    {
        let ghost before = self.deep_view();
        match self {
            Node::Node(_, _, v) => {
                v.push(Box::new(n));
            },
            Node::Leaf(_, _) => {},
            Node::Text(_) => {},
        }
        assert(self.deep_view() =~= before.extended(n.deep_view())) by {
            if before is Node {
                assert(self.deep_view()->Node_2 =~= before->Node_2.push(n.deep_view()));
            }
        }
    }

    /// This node as script.
    pub fn to_script(&self) -> (r: String)
        ensures
            r@ == node_script(self.deep_view()),
        decreases self,
    {
        match self {
            Node::Node(t, a, v) => {
                let ghost model = self.deep_view()->Node_2;
                let attr = gen_jsx_tag_attrs(a);
                let mut parts: Vec<String> = Vec::new();
                let mut i: usize = 0;
                while i < v.len()
                    invariant
                        i <= v.len(),
                        *self matches Node::Node(_, _, vv) && vv == *v,
                        model == self.deep_view()->Node_2,
                        model.len() == v.len(),
                        parts@.len() == i,
                        forall|j: int| 0 <= j < i ==> parts@[j]@ == node_script(model[j]),
                    decreases v.len() - i,
                {
                    parts.push(v[i].to_script());
                    i += 1;
                }
                proof {
                    lemma_kid_scripts(model);
                }
                assert(parts.deep_view() =~= kid_scripts(model));
                let has_attrs = !attr.as_str().is_empty();
                let mut r = String::from_str("<");
                r.append(t.as_str());
                if has_attrs {
                    r.append(" ");
                    r.append(attr.as_str());
                }
                if v.len() > 0 {
                    r.append(">\n");
                    let inner = join_strings(&parts, "\n");
                    r.append(inner.as_str());
                    r.append("\n");
                    r.append("</");
                    r.append(t.as_str());
                    r.append(">");
                } else {
                    r.append("/>");
                }
                r
            },
            Node::Leaf(t, a) => {
                let mut r = String::from_str("<");
                r.append(t.as_str());
                r.append(" ");
                let attr = gen_jsx_tag_attrs(a);
                r.append(attr.as_str());
                r.append("/>");
                r
            },
            Node::Text(s) => s.clone(),
        }
    }
}

impl GenScript for Node {
    open spec fn script(&self) -> Seq<char> {
        node_script(self.deep_view())
    }

    fn gen(&self) -> (r: String) {
        self.to_script()
    }
}

/// The definition of the view `name` with the tree `nodes`.
pub fn jsx_def(name: &str, nodes: &Option<Node>, export: bool) -> (r: String)
    ensures
        r@ == view_definition(name@, nodes.deep_view(), export),
{
    let x = match nodes {
        Some(n) => n.gen(),
        None => String::new(),
    };
    if !x.as_str().is_empty() {
        let mut r = if export {
            String::from_str("export ")
        } else {
            String::new()
        };
        r.append("const ");
        r.append(name);
        r.append(" = (props) => (");
        r.append("\n");
        r.append(x.as_str());
        r.append("\n");
        r.append(");");
        r
    } else {
        String::new()
    }
}

/// `word` with its first character in upper case and every other in lower case.
pub open spec fn title_cased(word: Seq<char>) -> Seq<char> {
    if word.len() == 0 {
        Seq::empty()
    } else {
        uppercase_of(word[0]) + lowered(word.skip(1))
    }
}

/// Puts the first character of `word` in upper case and every other in lower case.
pub fn capitalize(word: &str) -> (r: String)
    ensures
        r@ == title_cased(word@),
{
    let mut r = upper_first(word);
    let rest = lower_rest(word);
    r.append(rest.as_str());
    r
}

/// The name of the view `b` of the resource written `rname`: for a list, an
/// edit, a show and a create view the resource and the view, else nothing.
pub open spec fn kind_name(rname: Seq<char>, b: BaseView) -> Seq<char> {
    match b {
        BaseView::List => rname + "List"@,
        BaseView::Edit => rname + "Edit"@,
        BaseView::Show => rname + "Show"@,
        BaseView::Create => rname + "Create"@,
        BaseView::Default => Seq::empty(),
        BaseView::Delete => Seq::empty(),
        BaseView::Filter => Seq::empty(),
    }
}

/// The name of the view `b` of the resource `rsname`.
pub open spec fn view_name_of(rsname: Seq<char>, b: BaseView) -> Seq<char> {
    kind_name(title_cased(rsname), b)
}

/// The name of the view `b` of the resource written `rname`.
pub fn name_of_kind(rname: String, b: &BaseView) -> (r: String)
    ensures
        r@ == kind_name(rname@, *b),
{
    let mut r = rname;
    match b {
        BaseView::List => {
            r.append("List");
            r
        },
        BaseView::Edit => {
            r.append("Edit");
            r
        },
        BaseView::Show => {
            r.append("Show");
            r
        },
        BaseView::Create => {
            r.append("Create");
            r
        },
        BaseView::Default => String::new(),
        BaseView::Delete => String::new(),
        BaseView::Filter => String::new(),
    }
}

/// The name of the view `b` of the resource `rsname`.
pub fn view_name(rsname: &str, b: &BaseView) -> (r: String)
    ensures
        r@ == view_name_of(rsname@, *b),
{
    name_of_kind(capitalize(rsname), b)
}

/// `attrs` with each of the views `actions` of the resource `name` put under
/// its key as a reference to the view.
pub open spec fn with_actions(attrs: AttrsModel, name: Seq<char>, actions: Seq<BaseView>) -> AttrsModel
    decreases actions.len(),
{
    if actions.len() == 0 {
        attrs
    } else {
        put(
            with_actions(attrs, name, actions.drop_last()),
            view_key(actions.last()),
            AttrVModel::JVarRef(view_name_of(name, actions.last())),
        )
    }
}

/// Putting views' references into attributes without a repeated name leaves
/// them without one.
pub proof fn lemma_with_actions_distinct(attrs: AttrsModel, name: Seq<char>, actions: Seq<BaseView>)
    requires
        distinct(names_of(attrs)),
    ensures
        distinct(names_of(with_actions(attrs, name, actions))),
    decreases actions.len(),
{
    if actions.len() > 0 {
        lemma_with_actions_distinct(attrs, name, actions.drop_last());
        lemma_put(
            with_actions(attrs, name, actions.drop_last()),
            view_key(actions.last()),
            AttrVModel::JVarRef(view_name_of(name, actions.last())),
        );
    }
}

/// The views that the resource `r` offers; none where it names none.
pub open spec fn offered(r: ResourceModel) -> Seq<BaseView> {
    match r.enabled_actions {
        Some(views) => views,
        None => Seq::empty(),
    }
}

/// The tag of the resource `r`: its name, its title, and its views.
pub open spec fn resource_tag(r: ResourceModel) -> NodeModel {
    NodeModel::Leaf(
        "Resource"@,
        Some(
            with_actions(
                seq![("name"@, AttrVModel::JString(r.name)), ("title"@, AttrVModel::JString(r.label))],
                r.name,
                offered(r),
            ),
        ),
    )
}

/// The tag of the resource `rsrc`.
pub fn make_admin_tag(rsrc: &ResourceDef) -> (r: Node)
    ensures
        r.deep_view() == resource_tag(rsrc.deep_view()),
{
    let ghost base = seq![
        ("name"@, AttrVModel::JString(rsrc.name@)),
        ("title"@, AttrVModel::JString(rsrc.label@)),
    ];
    let mut hm: Vec<(String, AttrV)> = Vec::new();
    hm.push((String::from_str("name"), AttrV::string(rsrc.name.as_str())));
    hm.push((String::from_str("title"), AttrV::string(rsrc.label.as_str())));
    assert(hm.deep_view() =~= base);
    match &rsrc.enabled_actions {
        Some(actions) => {
            let ghost views = actions@;
            let mut i: usize = 0;
            assert(views.take(0) =~= Seq::empty());
            while i < actions.len()
                invariant
                    i <= actions.len(),
                    views == actions@,
                    hm.deep_view() == with_actions(base, rsrc.name@, views.take(i as int)),
                decreases actions.len() - i,
            {
                assert(views.take(i as int + 1).drop_last() =~= views.take(i as int));
                let key = actions[i].as_key();
                let value = AttrV::JVarRef(view_name(rsrc.name.as_str(), &actions[i]));
                insert_entry(&mut hm, key, value);
                i += 1;
            }
            assert(views.take(i as int) =~= views);
        },
        None => {},
    }
    Node::Leaf(String::from_str("Resource"), Some(hm))
}

/// The imports of a resource: none.
pub fn make_resource_import(rsrc: &ResourceDef) -> (r: Vec<Import>)
    ensures
        r@.len() == 0,
{
    Vec::new()
}

/// The tag of a field: a text field, whatever the field and its widget.
pub fn field_node(source: String, label: String, widget: WidgetDef) -> (r: Node)
    ensures
        r.deep_view() == NodeModel::Node("TextField"@, None, Seq::empty()),
{
    Node::tag("TextField")
}

/// Whether `w` is a widget of the resource `rsrc` in the view `view`.
pub open spec fn shows_in(w: ViewWidgetModel, rsrc: Seq<char>, view: BaseView) -> bool {
    w.resource == rsrc && w.views.contains(view)
}

/// The widgets of the resource `rsrc` in the view `view`, in order.
pub open spec fn shown_in(rsrc: Seq<char>, view: BaseView, widgets: Seq<ViewWidgetModel>) -> Seq<
    ViewWidgetModel,
>
    decreases widgets.len(),
{
    if widgets.len() == 0 {
        Seq::empty()
    } else {
        let before = shown_in(rsrc, view, widgets.drop_last());
        if shows_in(widgets.last(), rsrc, view) {
            before.push(widgets.last())
        } else {
            before
        }
    }
}

/// Whether `view` is one of `views`.
pub fn has_view(views: &Vec<BaseView>, view: &BaseView) -> (r: bool)
    ensures
        r == views@.contains(*view),
{
    let mut i: usize = 0;
    while i < views.len()
        invariant
            i <= views.len(),
            forall|j: int| 0 <= j < i ==> views@[j] != *view,
        decreases views.len() - i,
    {
        if views[i] == *view {
            return true;
        }
        i += 1;
    }
    false
}

/// The widgets of the resource `rsrc` in the view `vname`, in order.
pub fn filter_for_view<'a>(rsrc: &str, vname: &BaseView, widgets: &'a Vec<ViewWidgetDef>) -> (r: Vec<
    &'a ViewWidgetDef,
>)
    ensures
        r.deep_view() == shown_in(rsrc@, *vname, widgets.deep_view()),
{
    let ghost model = widgets.deep_view();
    let name = String::from_str(rsrc);
    let mut found: Vec<&'a ViewWidgetDef> = Vec::new();
    let mut i: usize = 0;
    assert(model.take(0) =~= Seq::empty());
    assert(found.deep_view() =~= Seq::empty());
    while i < widgets.len()
        invariant
            i <= widgets.len(),
            name@ == rsrc@,
            model == widgets.deep_view(),
            found.deep_view() == shown_in(rsrc@, *vname, model.take(i as int)),
        decreases widgets.len() - i,
    {
        assert(model.take(i as int + 1).drop_last() =~= model.take(i as int));
        let ghost f0 = found.deep_view();
        let w = &widgets[i];
        if w.resource == name && has_view(&w.views, vname) {
            found.push(w);
            assert(found.deep_view() =~= f0.push(model[i as int]));
        }
        i += 1;
    }
    assert(model.take(i as int) =~= model);
    found
}

/// The attributes of the tag of the widget `w`: its label, or its field where
/// it has no label, and its field; none for the widget of an action.
pub open spec fn widget_attrs(w: ViewWidgetModel) -> AttrsModel {
    if w.field_source != "action"@ {
        seq![
            (
                "label"@,
                AttrVModel::JString(
                    match w.label {
                        Some(label) => label,
                        None => w.field_source,
                    },
                ),
            ),
            ("source"@, AttrVModel::JString(w.field_source)),
        ]
    } else {
        Seq::empty()
    }
}

/// The tag of the widget `w`.
pub open spec fn widget_tag(w: ViewWidgetModel) -> NodeModel {
    NodeModel::Node(w.widget_type, Some(widget_attrs(w)), Seq::empty())
}

/// The tag of the widget `w`.
pub fn build_tag_for_widget(w: &ViewWidgetDef) -> (r: Node)
    ensures
        r.deep_view() == widget_tag(w.deep_view()),
{
    let mut hm: Vec<(String, AttrV)> = Vec::new();
    let action = String::from_str("action");
    if !(w.field_source == action) {
        let label = match &w.label {
            Some(label) => label.clone(),
            None => w.field_source.clone(),
        };
        hm.push((String::from_str("label"), AttrV::JString(label)));
        hm.push((String::from_str("source"), AttrV::JString(w.field_source.clone())));
    }
    assert(hm.deep_view() =~= widget_attrs(w.deep_view()));
    let kids: Vec<Node> = Vec::new();
    assert(kids.deep_view() =~= Seq::empty());
    Node::node(w.widget_type.as_str(), Some(hm), kids)
}

/// The place of the widget `w` among the widgets of a view; 0 where it names none.
pub open spec fn order_of(w: ViewWidgetModel) -> nat {
    match w.order {
        Some(n) => n,
        None => 0,
    }
}

/// `sorted` with `w` put behind the last widget whose place is not behind its own.
pub open spec fn placed(sorted: Seq<ViewWidgetModel>, w: ViewWidgetModel) -> Seq<ViewWidgetModel>
    decreases sorted.len(),
{
    if sorted.len() == 0 {
        seq![w]
    } else if order_of(sorted.last()) <= order_of(w) {
        sorted.push(w)
    } else {
        placed(sorted.drop_last(), w).push(sorted.last())
    }
}

/// `widgets` by their places; widgets of one place keep the order they had.
pub open spec fn by_order(widgets: Seq<ViewWidgetModel>) -> Seq<ViewWidgetModel>
    decreases widgets.len(),
{
    if widgets.len() == 0 {
        Seq::empty()
    } else {
        placed(by_order(widgets.drop_last()), widgets.last())
    }
}

/// Whether the places of `widgets` never fall from one widget to the next.
pub open spec fn in_order(widgets: Seq<ViewWidgetModel>) -> bool {
    forall|i: int, j: int|
        0 <= i <= j < widgets.len() ==> order_of(widgets[i]) <= order_of(widgets[j])
}

/// Putting `w` into `sorted` is inserting it at `k`, where every widget from
/// `k` on has a place behind that of `w` and the one before `k` has not.
pub proof fn lemma_placed_at(sorted: Seq<ViewWidgetModel>, w: ViewWidgetModel, k: int)
    requires
        0 <= k <= sorted.len(),
        forall|j: int| k <= j < sorted.len() ==> order_of(sorted[j]) > order_of(w),
        k > 0 ==> order_of(sorted[k - 1]) <= order_of(w),
    ensures
        placed(sorted, w) == sorted.insert(k, w),
    decreases sorted.len(),
{
    if sorted.len() == 0 {
        assert(sorted.insert(k, w) =~= seq![w]);
    } else if k == sorted.len() {
        assert(sorted.insert(k, w) =~= sorted.push(w));
    } else {
        let front = sorted.drop_last();
        assert(forall|j: int| 0 <= j < front.len() ==> front[j] == sorted[j]);
        lemma_placed_at(front, w, k);
        assert(front.insert(k, w).push(sorted.last()) =~= sorted.insert(k, w));
    }
}

/// Sorting by place gives the same widgets, their places never falling.
pub proof fn lemma_by_order(widgets: Seq<ViewWidgetModel>)
    ensures
        by_order(widgets).len() == widgets.len(),
        by_order(widgets).to_multiset() == widgets.to_multiset(),
        in_order(by_order(widgets)),
    decreases widgets.len(),
{
    broadcast use vstd::seq_lib::group_to_multiset_ensures;

    if widgets.len() > 0 {
        let front = widgets.drop_last();
        let w = widgets.last();
        lemma_by_order(front);
        lemma_placed(by_order(front), w);
        assert(front.push(w) =~= widgets);
    }
}

/// Putting a widget into widgets in order adds it and keeps them in order.
pub proof fn lemma_placed(sorted: Seq<ViewWidgetModel>, w: ViewWidgetModel)
    requires
        in_order(sorted),
    ensures
        placed(sorted, w).len() == sorted.len() + 1,
        placed(sorted, w).to_multiset() == sorted.to_multiset().insert(w),
        in_order(placed(sorted, w)),
        forall|i: int|
            0 <= i < placed(sorted, w).len() ==> #[trigger] placed(sorted, w)[i] == w
                || sorted.contains(placed(sorted, w)[i]),
    decreases sorted.len(),
{
    broadcast use vstd::seq_lib::group_to_multiset_ensures;

    let result = placed(sorted, w);
    if sorted.len() == 0 {
        assert(sorted =~= Seq::empty());
        assert(seq![w] =~= Seq::<ViewWidgetModel>::empty().push(w));
    } else if order_of(sorted.last()) <= order_of(w) {
        assert forall|i: int| 0 <= i < result.len() implies #[trigger] result[i] == w
            || sorted.contains(result[i]) by {
            if i < sorted.len() {
                assert(sorted[i] == result[i]);
            }
        }
    } else {
        let front = sorted.drop_last();
        let last = sorted.last();
        assert(forall|j: int| 0 <= j < front.len() ==> front[j] == sorted[j]);
        lemma_placed(front, w);
        let inner = placed(front, w);
        assert(front.push(last) =~= sorted);
        assert(inner.to_multiset().insert(last) =~= sorted.to_multiset().insert(w));
        assert forall|i: int| 0 <= i < result.len() implies #[trigger] result[i] == w
            || sorted.contains(result[i]) by {
            if i < inner.len() {
                if inner[i] != w {
                    assert(front.contains(inner[i]));
                    let j = choose|j: int| 0 <= j < front.len() && front[j] == inner[i];
                    assert(sorted[j] == inner[i]);
                }
            } else {
                assert(sorted[sorted.len() - 1] == last);
            }
        }
        assert forall|i: int, j: int| 0 <= i <= j < result.len() implies order_of(result[i])
            <= order_of(result[j]) by {
            if j == result.len() - 1 && i < j {
                if inner[i] != w {
                    assert(front.contains(inner[i]));
                    let x = choose|x: int| 0 <= x < front.len() && front[x] == inner[i];
                    assert(order_of(sorted[x]) <= order_of(sorted[sorted.len() - 1]));
                }
            }
        }
    }
}

/// The place of `w` among the widgets of a view.
pub fn widget_order(w: &ViewWidgetDef) -> (r: usize)
    ensures
        r == order_of(w.deep_view()),
{
    match w.order {
        Some(n) => n,
        None => 0,
    }
}

/// Sorts `widgets` by their places; widgets of one place keep their order.
pub fn sort_by_order<'a>(widgets: Vec<&'a ViewWidgetDef>) -> (r: Vec<&'a ViewWidgetDef>)
    ensures
        r.deep_view() == by_order(widgets.deep_view()),
{
    let ghost model = widgets.deep_view();
    let mut sorted: Vec<&'a ViewWidgetDef> = Vec::new();
    let mut i: usize = 0;
    assert(model.take(0) =~= Seq::empty());
    assert(sorted.deep_view() =~= Seq::empty());
    while i < widgets.len()
        invariant
            i <= widgets.len(),
            model == widgets.deep_view(),
            sorted@.len() == i,
            sorted.deep_view() == by_order(model.take(i as int)),
        decreases widgets.len() - i,
    {
        assert(model.take(i as int + 1).drop_last() =~= model.take(i as int));
        let ghost before = sorted.deep_view();
        let w = widgets[i];
        let key = widget_order(w);
        let mut k: usize = sorted.len();
        while k > 0 && widget_order(sorted[k - 1]) > key
            invariant
                k <= sorted@.len(),
                before == sorted.deep_view(),
                key == order_of(w.deep_view()),
                forall|j: int| k <= j < before.len() ==> order_of(before[j]) > key,
            decreases k,
        {
            k -= 1;
        }
        proof {
            lemma_placed_at(before, w.deep_view(), k as int);
        }
        sorted.insert(k, w);
        assert(sorted.deep_view() =~= before.insert(k as int, w.deep_view()));
        i += 1;
    }
    assert(model.take(i as int) =~= model);
    sorted
}

/// The tags of `widgets`, in order.
pub open spec fn widget_tags(widgets: Seq<ViewWidgetModel>) -> Seq<NodeModel> {
    Seq::new(widgets.len(), |i: int| widget_tag(widgets[i]))
}

/// The import of the tag `tag`; the module that it comes from is not known.
pub open spec fn tag_import(tag: Seq<char>) -> ImportModel {
    ImportModel { source: "unk"@, symbols: seq![tag] }
}

/// The imports of the tags of `kids`, one for each node that has a tag.
pub open spec fn tag_imports(kids: Seq<NodeModel>) -> Seq<ImportModel>
    decreases kids.len(),
{
    if kids.len() == 0 {
        Seq::empty()
    } else {
        let before = tag_imports(kids.drop_last());
        match kids.last().tag() {
            Some(tag) => before.push(tag_import(tag)),
            None => before,
        }
    }
}

/// The tag `outer`, which hands its properties on, around the container
/// `inner` that holds `kids`.
pub open spec fn framed(outer: Seq<char>, inner: Seq<char>, kids: Seq<NodeModel>) -> NodeModel {
    NodeModel::Node(
        outer,
        Some(seq![("_"@, AttrVModel::Ellipsis("props"@))]),
        seq![NodeModel::Node(inner, None, kids)],
    )
}

/// A view of the widgets `widgets` by their places: the imports of their tags
/// and the tag `outer` around the container `inner` that holds them.
pub open spec fn framed_view(outer: Seq<char>, inner: Seq<char>, widgets: Seq<ViewWidgetModel>) -> (
    Seq<ImportModel>,
    NodeModel,
) {
    let kids = widget_tags(by_order(widgets));
    (tag_imports(kids), framed(outer, inner, kids))
}

/// The list view of `widgets`.
pub open spec fn list_view(widgets: Seq<ViewWidgetModel>) -> (Seq<ImportModel>, NodeModel) {
    framed_view("List"@, "Datagrid"@, widgets)
}

/// The form `form` of `widgets`.
pub open spec fn form_view(widgets: Seq<ViewWidgetModel>, form: Seq<char>) -> (
    Seq<ImportModel>,
    NodeModel,
) {
    framed_view(form, "SimpleForm"@, widgets)
}

/// The tags of `widgets`, in order.
pub fn make_widgets(widgets: Vec<&ViewWidgetDef>) -> (r: Vec<Node>)
    ensures
        r.deep_view() == widget_tags(widgets.deep_view()),
{
    let mut tags: Vec<Node> = Vec::new();
    let mut i: usize = 0;
    while i < widgets.len()
        invariant
            i <= widgets.len(),
            tags@.len() == i,
            forall|j: int| 0 <= j < i ==> tags@[j].deep_view() == widget_tag(widgets@[j].deep_view()),
        decreases widgets.len() - i,
    {
        tags.push(build_tag_for_widget(widgets[i]));
        i += 1;
    }
    assert(tags.deep_view() =~= widget_tags(widgets.deep_view()));
    tags
}

/// The imports of the tags of `kids`.
pub fn make_imports(kids: &Vec<Node>) -> (r: Vec<Import>)
    ensures
        r.deep_view() == tag_imports(kids.deep_view()),
{
    let ghost model = kids.deep_view();
    let mut imports: Vec<Import> = Vec::new();
    let mut i: usize = 0;
    assert(model.take(0) =~= Seq::empty());
    assert(imports.deep_view() =~= Seq::empty());
    while i < kids.len()
        invariant
            i <= kids.len(),
            model == kids.deep_view(),
            imports.deep_view() == tag_imports(model.take(i as int)),
        decreases kids.len() - i,
    {
        assert(model.take(i as int + 1).drop_last() =~= model.take(i as int));
        let ghost i0 = imports.deep_view();
        match kids[i].get_tag() {
            Some(t) => {
                let mut symbols: Vec<String> = Vec::new();
                symbols.push(t);
                assert(symbols.deep_view() =~= seq![t@]);
                imports.push(Import { source: String::from_str("unk"), symbols });
                assert(imports.deep_view() =~= i0.push(tag_import(t@)));
            },
            None => {},
        }
        i += 1;
    }
    assert(model.take(i as int) =~= model);
    imports
}

fn make_framed_view(widgets: Vec<&ViewWidgetDef>, outer: &str, inner: &str) -> (r: (Vec<Import>, Node))
    ensures
        r.deep_view() == framed_view(outer@, inner@, widgets.deep_view()),
{
    let sorted = sort_by_order(widgets);
    let kids = make_widgets(sorted);
    let ghost tags = kids.deep_view();
    let imports = make_imports(&kids);
    let mut hm: Vec<(String, AttrV)> = Vec::new();
    hm.push((String::from_str("_"), AttrV::Ellipsis(String::from_str("props"))));
    assert(hm.deep_view() =~= seq![("_"@, AttrVModel::Ellipsis("props"@))]);
    let mut held: Vec<Node> = Vec::new();
    held.push(Node::node(inner, None, kids));
    assert(held.deep_view() =~= seq![NodeModel::Node(inner@, None, tags)]);
    let root = Node::node(outer, Some(hm), held);
    (imports, root)
}

/// The list view of `widgets`.
pub fn make_list_view(rsrc: &ResourceDef, widgets: Vec<&ViewWidgetDef>) -> (r: (Vec<Import>, Node))
    ensures
        r.deep_view() == list_view(widgets.deep_view()),
{
    make_framed_view(widgets, "List", "Datagrid")
}

/// The form `form` of `widgets`.
pub fn make_form_view(rsrc: &ResourceDef, widgets: Vec<&ViewWidgetDef>, form: &str) -> (r: (
    Vec<Import>,
    Node,
))
    ensures
        r.deep_view() == form_view(widgets.deep_view(), form@),
{
    make_framed_view(widgets, form, "SimpleForm")
}

/// The edit form of `widgets`.
pub fn make_edit_view(rsrc: &ResourceDef, widgets: Vec<&ViewWidgetDef>) -> (r: (Vec<Import>, Node))
    ensures
        r.deep_view() == form_view(widgets.deep_view(), "Edit"@),
{
    make_form_view(rsrc, widgets, "Edit")
}

/// The views of one resource, with the imports that they need.
#[derive(Debug)]
pub struct ViewsForResource {
    pub resource_prefix: String,
    pub imports: Vec<Import>,
    pub show: Option<Node>,
    pub list: Option<Node>,
    pub create: Option<Node>,
    pub edit: Option<Node>,
    pub filter: Option<Node>,
}

/// What a [`ViewsForResource`] holds.
pub struct ViewsModel {
    pub resource_prefix: Seq<char>,
    pub imports: Seq<ImportModel>,
    pub show: Option<NodeModel>,
    pub list: Option<NodeModel>,
    pub create: Option<NodeModel>,
    pub edit: Option<NodeModel>,
    pub filter: Option<NodeModel>,
}

impl DeepView for ViewsForResource {
    type V = ViewsModel;

    open spec fn deep_view(&self) -> ViewsModel {
        ViewsModel {
            resource_prefix: self.resource_prefix@,
            imports: self.imports.deep_view(),
            show: self.show.deep_view(),
            list: self.list.deep_view(),
            create: self.create.deep_view(),
            edit: self.edit.deep_view(),
            filter: self.filter.deep_view(),
        }
    }
}

/// The views of the resource `r` over the widgets `widgets`: a list, an edit
/// form, a create form, and as its show view an edit form of the widgets of
/// that view; no filter. The imports are those of the four, in that order.
pub open spec fn views_of(r: ResourceModel, widgets: Seq<ViewWidgetModel>) -> ViewsModel {
    let list = list_view(shown_in(r.name, BaseView::List, widgets));
    let edit = form_view(shown_in(r.name, BaseView::Edit, widgets), "Edit"@);
    let create = form_view(shown_in(r.name, BaseView::Create, widgets), "Create"@);
    let show = form_view(shown_in(r.name, BaseView::Show, widgets), "Edit"@);
    ViewsModel {
        resource_prefix: r.name,
        imports: list.0 + edit.0 + create.0 + show.0,
        show: Some(show.1),
        list: Some(list.1),
        create: Some(create.1),
        edit: Some(edit.1),
        filter: None,
    }
}

fn append_imports(to: &mut Vec<Import>, from: Vec<Import>)
    ensures
        final(to).deep_view() == old(to).deep_view() + from.deep_view(),
{
    let ghost before = to.deep_view();
    let ghost added = from.deep_view();
    for import in it: from
        invariant
            it.seq().len() == added.len(),
            forall|j: int| 0 <= j < added.len() ==> it.seq()[j].deep_view() == added[j],
            to.deep_view() == before + added.take(it.index()),
    {
        let ghost t0 = to.deep_view();
        to.push(import);
        assert(to.deep_view() =~= t0.push(added[it.index()]));
        assert(before + added.take(it.index() + 1) =~= t0.push(added[it.index()]));
    }
    assert(added.take(added.len() as int) =~= added);
}

/// The views of the resource `rsrc` over the widgets `widgets`.
pub fn make_views(rsrc: &ResourceDef, widgets: &Vec<ViewWidgetDef>) -> (r: ViewsForResource)
    ensures
        r.deep_view() == views_of(rsrc.deep_view(), widgets.deep_view()),
{
    let name = rsrc.name.as_str();
    let (i1, ln) = make_list_view(rsrc, filter_for_view(name, &BaseView::List, widgets));
    let (i2, en) = make_edit_view(rsrc, filter_for_view(name, &BaseView::Edit, widgets));
    let (i3, cn) = make_form_view(rsrc, filter_for_view(name, &BaseView::Create, widgets), "Create");
    let (i4, sn) = make_edit_view(rsrc, filter_for_view(name, &BaseView::Show, widgets));
    let mut i: Vec<Import> = Vec::new();
    assert(i.deep_view() =~= Seq::empty());
    let ghost all = i1.deep_view() + i2.deep_view() + i3.deep_view() + i4.deep_view();
    append_imports(&mut i, i1);
    append_imports(&mut i, i2);
    append_imports(&mut i, i3);
    append_imports(&mut i, i4);
    assert(i.deep_view() =~= all);
    ViewsForResource {
        resource_prefix: rsrc.name.clone(),
        imports: i,
        show: Some(sn),
        list: Some(ln),
        create: Some(cn),
        edit: Some(en),
        filter: None,
    }
}

/// An interface: the tags of its resources under one root, the views of each
/// resource by the resource's name, and the imports of the application.
#[derive(Debug)]
pub struct WebInterface {
    pub resource_defs: Node,
    pub resource_views: Vec<(String, ViewsForResource)>,
    pub imports: Vec<Import>,
}

/// What a [`WebInterface`] holds.
pub struct InterfaceModel {
    pub resource_defs: NodeModel,
    pub resource_views: Seq<(Seq<char>, ViewsModel)>,
    pub imports: Seq<ImportModel>,
}

impl DeepView for WebInterface {
    type V = InterfaceModel;

    open spec fn deep_view(&self) -> InterfaceModel {
        InterfaceModel {
            resource_defs: self.resource_defs.deep_view(),
            resource_views: self.resource_views.deep_view(),
            imports: self.imports.deep_view(),
        }
    }
}

/// The tags of `resources`, in order.
pub open spec fn resource_tags(resources: Seq<ResourceModel>) -> Seq<NodeModel> {
    Seq::new(resources.len(), |i: int| resource_tag(resources[i]))
}

/// The views of each of `resources` under its name, in the order in which the
/// names first occur; of two resources of one name the later's views stay.
pub open spec fn all_views(resources: Seq<ResourceModel>, widgets: Seq<ViewWidgetModel>) -> Seq<
    (Seq<char>, ViewsModel),
>
    decreases resources.len(),
{
    if resources.len() == 0 {
        Seq::empty()
    } else {
        put(
            all_views(resources.drop_last(), widgets),
            resources.last().name,
            views_of(resources.last(), widgets),
        )
    }
}

/// No resource's name occurs twice among the views of an interface.
pub proof fn lemma_all_views_distinct(resources: Seq<ResourceModel>, widgets: Seq<ViewWidgetModel>)
    ensures
        distinct(names_of(all_views(resources, widgets))),
    decreases resources.len(),
{
    if resources.len() > 0 {
        lemma_all_views_distinct(resources.drop_last(), widgets);
        lemma_put(
            all_views(resources.drop_last(), widgets),
            resources.last().name,
            views_of(resources.last(), widgets),
        );
    }
}

/// The attributes of the root tag: the data provider of the application.
pub open spec fn root_attrs() -> AttrsModel {
    seq![("dataProvider"@, AttrVModel::JVarRef("postgrestClient('http://localhost:3000/api')"@))]
}

/// The interface that `u` describes.
pub open spec fn interface_of(u: UiModel) -> InterfaceModel {
    InterfaceModel {
        resource_defs: NodeModel::Node("Admin"@, Some(root_attrs()), resource_tags(u.resources)),
        resource_views: all_views(u.resources, u.widgets),
        imports: Seq::empty(),
    }
}

impl WebInterface {
    /// The interface that `u` describes.
    pub fn from_def(u: &UiDef) -> (r: WebInterface)
        ensures
            r.deep_view() == interface_of(u.deep_view()),
    {
        let ghost m = u.deep_view();
        let mut hm: Vec<(String, AttrV)> = Vec::new();
        hm.push(
            (
                String::from_str("dataProvider"),
                AttrV::JVarRef(String::from_str("postgrestClient('http://localhost:3000/api')")),
            ),
        );
        assert(hm.deep_view() =~= root_attrs());
        let none: Vec<Node> = Vec::new();
        assert(none.deep_view() =~= resource_tags(m.resources.take(0)));
        let mut rd = Node::node("Admin", Some(hm), none);
        let mut views: Vec<(String, ViewsForResource)> = Vec::new();
        assert(views.deep_view() =~= all_views(m.resources.take(0), m.widgets));
        let mut i: usize = 0;
        while i < u.resources.len()
            invariant
                i <= u.resources.len(),
                m == u.deep_view(),
                rd.deep_view() == NodeModel::Node(
                    "Admin"@,
                    Some(root_attrs()),
                    resource_tags(m.resources.take(i as int)),
                ),
                views.deep_view() == all_views(m.resources.take(i as int), m.widgets),
            decreases u.resources.len() - i,
        {
            assert(m.resources.take(i as int + 1).drop_last() =~= m.resources.take(i as int));
            let r = &u.resources[i];
            let rv = make_views(r, &u.widgets);
            insert_entry(&mut views, r.name.clone(), rv);
            rd.extend(make_admin_tag(r));
            assert(resource_tags(m.resources.take(i as int)).push(resource_tag(m.resources[i as int]))
                =~= resource_tags(m.resources.take(i as int + 1)));
            i += 1;
        }
        assert(m.resources.take(i as int) =~= m.resources);
        let imports: Vec<Import> = Vec::new();
        assert(imports.deep_view() =~= Seq::empty());
        WebInterface { resource_defs: rd, resource_views: views, imports }
    }
}

/// The import declarations of `imports`, each with the end of its line.
pub open spec fn import_scripts(imports: Seq<ImportModel>) -> Seq<Seq<char>> {
    Seq::new(imports.len(), |i: int| import_script(imports[i]))
}

/// The definition of the view `b` of the resource `prefix` with the tree `node`.
pub open spec fn exported_view(prefix: Seq<char>, b: BaseView, node: Option<NodeModel>) -> Seq<char> {
    view_definition(view_name_of(prefix, b), node, true)
}

/// The definitions of the views `v`, each on a line of its own: the list, the
/// edit, the create, the show and the filter view. A view that writes nothing
/// leaves its line empty.
pub open spec fn views_script(v: ViewsModel) -> Seq<char> {
    exported_view(v.resource_prefix, BaseView::List, v.list) + "\n"@ + exported_view(
        v.resource_prefix,
        BaseView::Edit,
        v.edit,
    ) + "\n"@ + exported_view(v.resource_prefix, BaseView::Create, v.create) + "\n"@
        + exported_view(v.resource_prefix, BaseView::Show, v.show) + "\n"@ + exported_view(
        v.resource_prefix,
        BaseView::Filter,
        v.filter,
    ) + "\n"@
}

/// The definitions of the views of every resource of `views`, in order.
pub open spec fn all_views_script(views: Seq<(Seq<char>, ViewsModel)>) -> Seq<char>
    decreases views.len(),
{
    if views.len() == 0 {
        Seq::empty()
    } else {
        all_views_script(views.drop_last()) + views_script(views.last().1)
    }
}

/// The script of the application `w`: its imports, each followed by an empty
/// line, the application as a tree of tags, the views of every resource, and
/// the export of the application.
pub open spec fn application_script(w: InterfaceModel) -> Seq<char> {
    concat_terminated(import_scripts(w.imports), "\n"@) + "const App = () => (\n"@ + node_script(
        w.resource_defs,
    ) + "\n);\n"@ + all_views_script(w.resource_views) + "export default App;\n\n"@
}

/// The definitions of the views `v`, each on a line of its own.
pub fn views_text(v: &ViewsForResource) -> (r: String)
    ensures
        r@ == views_script(v.deep_view()),
{
    let prefix = v.resource_prefix.as_str();
    let mut r = jsx_def(view_name(prefix, &BaseView::List).as_str(), &v.list, true);
    r.append("\n");
    let edit = jsx_def(view_name(prefix, &BaseView::Edit).as_str(), &v.edit, true);
    r.append(edit.as_str());
    r.append("\n");
    let create = jsx_def(view_name(prefix, &BaseView::Create).as_str(), &v.create, true);
    r.append(create.as_str());
    r.append("\n");
    let show = jsx_def(view_name(prefix, &BaseView::Show).as_str(), &v.show, true);
    r.append(show.as_str());
    r.append("\n");
    let filter = jsx_def(view_name(prefix, &BaseView::Filter).as_str(), &v.filter, true);
    r.append(filter.as_str());
    r.append("\n");
    r
}

/// The script of the application `w`.
pub fn dump_text(w: &WebInterface) -> (r: String)
    ensures
        r@ == application_script(w.deep_view()),
{
    let ghost m = w.deep_view();
    let mut lines: Vec<String> = Vec::new();
    let mut i: usize = 0;
    while i < w.imports.len()
        invariant
            i <= w.imports.len(),
            lines@.len() == i,
            forall|j: int| 0 <= j < i ==> lines@[j]@ == import_script(w.imports@[j].deep_view()),
        decreases w.imports.len() - i,
    {
        lines.push(w.imports[i].gen());
        i += 1;
    }
    assert(lines.deep_view() =~= import_scripts(m.imports));
    let mut r = concat_terminated_strings(&lines, "\n");
    r.append("const App = () => (\n");
    let tree = w.resource_defs.gen();
    r.append(tree.as_str());
    r.append("\n);\n");
    let ghost head = r@;
    let mut k: usize = 0;
    assert(m.resource_views.take(0) =~= Seq::empty());
    while k < w.resource_views.len()
        invariant
            k <= w.resource_views.len(),
            m == w.deep_view(),
            r@ == head + all_views_script(m.resource_views.take(k as int)),
        decreases w.resource_views.len() - k,
    {
        assert(m.resource_views.take(k as int + 1).drop_last() =~= m.resource_views.take(k as int));
        let text = views_text(&w.resource_views[k].1);
        r.append(text.as_str());
        k += 1;
    }
    assert(m.resource_views.take(k as int) =~= m.resource_views);
    r.append("export default App;\n\n");
    r
}

} // verus!
