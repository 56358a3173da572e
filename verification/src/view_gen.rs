//! The component trees of the views, the imports that they need, and the
//! markup that both are written as.

use vstd::prelude::*;
use crate::ordered::{
    as_index, distinct, entry_names, first_index_of, insert_entry, key_index, last_index_of,
    lemma_first_index_of, lemma_index_of_absent, lemma_last_index_is, lemma_last_index_of,
    names_of, occurs_before, put,
};
use crate::schema_spec::{
    full_view_name, is_editing, widget_tag, ActionSpec, ActionSpecModel, Field, FieldModel,
    TableModel, ViewKind, ViewSpec, ViewSpecModel, WidgetDefinition, WidgetModel,
};
use crate::text::{join, join_strings, lemma_join_behind, lemma_join_concat};

verus! {

/// A symbol of an import: the module's default export, or one of its names.
#[derive(Debug)]
pub enum IKind {
    Defaulted(String),
    Named(String),
}

/// What an [`IKind`] holds.
pub enum IKindModel {
    Defaulted(Seq<char>),
    Named(Seq<char>),
}

impl DeepView for IKind {
    type V = IKindModel;

    open spec fn deep_view(&self) -> IKindModel {
        match self {
            IKind::Defaulted(s) => IKindModel::Defaulted(s@),
            IKind::Named(s) => IKindModel::Named(s@),
        }
    }
}

/// The symbols taken from one module.
#[derive(Debug)]
pub struct Import {
    source: String,
    symbols: Vec<IKind>,
}

/// What an [`Import`] holds.
pub struct ImportModel {
    pub source: Seq<char>,
    pub symbols: Seq<IKindModel>,
}

impl DeepView for Import {
    type V = ImportModel;

    closed spec fn deep_view(&self) -> ImportModel {
        ImportModel { source: self.source@, symbols: self.symbols.deep_view() }
    }
}

/// The default symbols among `symbols`, in order.
pub open spec fn defaulted_names(symbols: Seq<IKindModel>) -> Seq<Seq<char>>
    decreases symbols.len(),
{
    if symbols.len() == 0 {
        Seq::empty()
    } else {
        let rest = defaulted_names(symbols.drop_last());
        match symbols.last() {
            IKindModel::Defaulted(n) => rest.push(n),
            IKindModel::Named(_) => rest,
        }
    }
}

/// The named symbols among `symbols`, in order.
pub open spec fn named_names(symbols: Seq<IKindModel>) -> Seq<Seq<char>>
    decreases symbols.len(),
{
    if symbols.len() == 0 {
        Seq::empty()
    } else {
        let rest = named_names(symbols.drop_last());
        match symbols.last() {
            IKindModel::Defaulted(_) => rest,
            IKindModel::Named(n) => rest.push(n),
        }
    }
}

/// The parts of an import's clause: each default symbol, then the named ones
/// in one pair of braces, unless their list is empty text.
pub open spec fn import_clause(symbols: Seq<IKindModel>) -> Seq<Seq<char>> {
    let named = join(named_names(symbols), ", "@);
    if named.len() > 0 {
        defaulted_names(symbols).push("{"@ + named + "}"@)
    } else {
        defaulted_names(symbols)
    }
}

/// The import declaration for `i`.
pub open spec fn import_text(i: ImportModel) -> Seq<char> {
    "import "@ + join(import_clause(i.symbols), ","@) + " from '"@ + i.source + "';"@
}

/// Each of `names` as a named symbol.
pub open spec fn all_named(names: Seq<Seq<char>>) -> Seq<IKindModel> {
    Seq::new(names.len(), |i: int| IKindModel::Named(names[i]))
}

impl ImportModel {
    /// The import of the named symbols `names` from `source`.
    pub open spec fn named(source: Seq<char>, names: Seq<Seq<char>>) -> ImportModel {
        ImportModel { source, symbols: all_named(names) }
    }

    /// The import of the markup library itself.
    pub open spec fn react() -> ImportModel {
        ImportModel { source: "react"@, symbols: seq![IKindModel::Defaulted("React"@)] }
    }

    /// The import of `names` from the interface library.
    pub open spec fn react_admin(names: Seq<Seq<char>>) -> ImportModel {
        ImportModel::named("react-admin"@, names)
    }

    /// The import that brings the component of `w`.
    pub open spec fn of_widget(w: WidgetModel) -> ImportModel {
        ImportModel::named(w.source, seq![w.name])
    }
}

/// Named symbols hold no default symbol.
pub proof fn lemma_all_named_has_no_default(names: Seq<Seq<char>>)
    ensures
        defaulted_names(all_named(names)).len() == 0,
        named_names(all_named(names)) == names,
    decreases names.len(),
{
    if names.len() > 0 {
        lemma_all_named_has_no_default(names.drop_last());
        assert(all_named(names).drop_last() =~= all_named(names.drop_last()));
        assert(names.drop_last().push(names.last()) =~= names);
    } else {
        assert(named_names(all_named(names)) =~= names);
    }
}

impl Import {
    #[verifier::type_invariant]
    spec fn one_default_at_most(self) -> bool {
        defaulted_names(self.symbols.deep_view()).len() <= 1
    }

    /// The import declaration, as one line of text. An import holds at most
    /// one default symbol.
    pub fn to_string(&self) -> (r: String)
        ensures
            r@ == import_text(self.deep_view()),
            defaulted_names(self.deep_view().symbols).len() <= 1,
    {
        proof {
            use_type_invariant(self);
        }
        let ghost symbols = self.symbols.deep_view();
        let mut defaulted: Vec<String> = Vec::new();
        let mut named: Vec<String> = Vec::new();
        let mut i: usize = 0;
        assert(symbols.take(0) =~= Seq::empty());
        assert(defaulted.deep_view() =~= Seq::empty());
        assert(named.deep_view() =~= Seq::empty());
        while i < self.symbols.len()
            invariant
                i <= self.symbols.len(),
                symbols == self.symbols.deep_view(),
                defaulted.deep_view() == defaulted_names(symbols.take(i as int)),
                named.deep_view() == named_names(symbols.take(i as int)),
            decreases self.symbols.len() - i,
        {
            assert(symbols.take(i as int + 1).drop_last() =~= symbols.take(i as int));
            let ghost d0 = defaulted.deep_view();
            let ghost n0 = named.deep_view();
            match &self.symbols[i] {
                IKind::Defaulted(s) => {
                    defaulted.push(s.clone());
                    assert(defaulted.deep_view() =~= d0.push(s@));
                },
                IKind::Named(s) => {
                    named.push(s.clone());
                    assert(named.deep_view() =~= n0.push(s@));
                },
            }
            i += 1;
        }
        assert(symbols.take(i as int) =~= symbols);
        let nd = join_strings(&named, ", ");
        if !nd.as_str().is_empty() {
            let ghost d0 = defaulted.deep_view();
            let mut braced = String::from_str("{");
            braced.append(nd.as_str());
            braced.append("}");
            defaulted.push(braced);
            assert(defaulted.deep_view() =~= d0.push("{"@ + nd@ + "}"@));
        }
        let mut r = String::from_str("import ");
        let clause = join_strings(&defaulted, ",");
        r.append(clause.as_str());
        r.append(" from '");
        r.append(self.source.as_str());
        r.append("';");
        r
    }

    /// Hands `imports` back as they are: imports from one module are not merged.
    pub fn merge(&mut self, imports: Vec<Import>) -> (r: Vec<Import>)
        ensures
            r == imports,
            *final(self) == *old(self),
    {
        imports
    }

    /// The import of the named symbols `symbols` from `source`.
    pub fn new(source: &str, symbols: Vec<&str>) -> (r: Import)
        ensures
            r.deep_view() == ImportModel::named(source@, symbols.deep_view()),
    {
        let mut named: Vec<IKind> = Vec::new();
        let mut i: usize = 0;
        while i < symbols.len()
            invariant
                i <= symbols.len(),
                named@.len() == i,
                forall|j: int| 0 <= j < i ==> named@[j].deep_view() == IKindModel::Named(symbols@[j]@),
            decreases symbols.len() - i,
        {
            named.push(IKind::Named(String::from_str(symbols[i])));
            i += 1;
        }
        assert(named.deep_view() =~= all_named(symbols.deep_view()));
        proof {
            lemma_all_named_has_no_default(symbols.deep_view());
        }
        Import { source: String::from_str(source), symbols: named }
    }

    /// The import of the markup library itself.
    pub fn react() -> (r: Import)
        ensures
            r.deep_view() == ImportModel::react(),
    {
        let mut symbols: Vec<IKind> = Vec::new();
        symbols.push(IKind::Defaulted(String::from_str("React")));
        assert(symbols.deep_view() =~= seq![IKindModel::Defaulted("React"@)]);
        assert(defaulted_names(symbols.deep_view()).len() == 1) by {
            assert(symbols.deep_view().drop_last() =~= Seq::empty());
            assert(defaulted_names(symbols.deep_view().drop_last()).len() == 0);
        }
        Import { source: String::from_str("react"), symbols }
    }

    /// The import of the names `v` from the interface library.
    pub fn react_admin(v: Vec<String>) -> (r: Import)
        ensures
            r.deep_view() == ImportModel::react_admin(v.deep_view()),
    {
        let mut named: Vec<IKind> = Vec::new();
        let mut i: usize = 0;
        while i < v.len()
            invariant
                i <= v.len(),
                named@.len() == i,
                forall|j: int| 0 <= j < i ==> named@[j].deep_view() == IKindModel::Named(v@[j]@),
            decreases v.len() - i,
        {
            named.push(IKind::Named(v[i].clone()));
            i += 1;
        }
        assert(named.deep_view() =~= all_named(v.deep_view()));
        proof {
            lemma_all_named_has_no_default(v.deep_view());
        }
        Import { source: String::from_str("react-admin"), symbols: named }
    }

    /// The import that brings the component of `w`.
    pub fn from_widget(w: WidgetDefinition) -> (r: Import)
        ensures
            r.deep_view() == ImportModel::of_widget(w.deep_view()),
    {
        let mut symbols: Vec<IKind> = Vec::new();
        symbols.push(IKind::Named(w.tag().clone()));
        assert(symbols.deep_view() =~= all_named(seq![w.deep_view().name]));
        proof {
            lemma_all_named_has_no_default(seq![w.deep_view().name]);
        }
        Import { source: w.source().clone(), symbols }
    }
}

/// The value of an attribute of a component.
#[derive(Debug)]
pub enum JsxAttr {
    JsxString(String),
    JsxVariableRef(String),
    Object(Vec<(String, String)>),
    JsxObject(Vec<(String, Box<JsxAttr>)>),
    JsxRaw(String),
    Bool(bool),
    Ellipsis(String),
}

/// What a [`JsxAttr`] holds.
pub enum AttrModel {
    JsxString(Seq<char>),
    JsxVariableRef(Seq<char>),
    Object(Seq<(Seq<char>, Seq<char>)>),
    JsxObject(Seq<(Seq<char>, AttrModel)>),
    JsxRaw(Seq<char>),
    Bool(bool),
    Ellipsis(Seq<char>),
}

/// The attributes of a component, by name, in the order in which they are written.
pub type AttrsModel = Seq<(Seq<char>, AttrModel)>;

/// What `a` holds.
pub open spec fn attr_model(a: JsxAttr) -> AttrModel
    decreases a,
{
    match a {
        JsxAttr::JsxString(s) => AttrModel::JsxString(s@),
        JsxAttr::JsxVariableRef(s) => AttrModel::JsxVariableRef(s@),
        JsxAttr::Object(m) => AttrModel::Object(m.deep_view()),
        JsxAttr::JsxObject(m) => AttrModel::JsxObject(
            Seq::new(
                m@.len(),
                |i: int|
                    if 0 <= i < m@.len() {
                        (m@[i].0@, attr_model(*m@[i].1))
                    } else {
                        (Seq::empty(), AttrModel::Bool(false))
                    },
            ),
        ),
        JsxAttr::JsxRaw(s) => AttrModel::JsxRaw(s@),
        JsxAttr::Bool(b) => AttrModel::Bool(b),
        JsxAttr::Ellipsis(s) => AttrModel::Ellipsis(s@),
    }
}

impl DeepView for JsxAttr {
    type V = AttrModel;

    open spec fn deep_view(&self) -> AttrModel {
        attr_model(*self)
    }
}

/// The entries of a plain object, each written as its key, a colon and its value.
pub open spec fn object_entries(m: Seq<(Seq<char>, Seq<char>)>) -> Seq<Seq<char>> {
    Seq::new(m.len(), |i: int| m[i].0 + ": "@ + m[i].1)
}

/// The attribute `k` with the value `a`, as it stands in an opening tag.
pub open spec fn attr_text(a: AttrModel, k: Seq<char>) -> Seq<char>
    decreases a,
{
    match a {
        AttrModel::Bool(flag) => if flag {
            k
        } else {
            Seq::empty()
        },
        AttrModel::Ellipsis(p) => "{..."@ + p + "}"@,
        AttrModel::JsxRaw(s) => k + "="@ + s,
        AttrModel::JsxString(s) => k + "=\""@ + s + "\""@,
        AttrModel::JsxVariableRef(r) => k + "={"@ + r + "}"@,
        AttrModel::Object(m) => "{"@ + join(object_entries(m), ", "@) + "}"@,
        AttrModel::JsxObject(m) => "{"@ + join(attr_texts(m), ", "@) + "}"@,
    }
}

/// Each attribute of `m` as it stands in an opening tag.
pub open spec fn attr_texts(m: AttrsModel) -> Seq<Seq<char>>
    decreases m,
{
    if m.len() == 0 {
        Seq::empty()
    } else {
        attr_texts(m.drop_last()).push(attr_text(m.last().1, m.last().0))
    }
}

/// `attr_texts` writes each attribute by itself and keeps the order.
pub proof fn lemma_attr_texts(m: AttrsModel)
    ensures
        attr_texts(m).len() == m.len(),
        forall|i: int| 0 <= i < m.len() ==> #[trigger] attr_texts(m)[i] == attr_text(m[i].1, m[i].0),
    decreases m.len(),
{
    if m.len() > 0 {
        lemma_attr_texts(m.drop_last());
    }
}

impl JsxAttr {
    /// The attribute `k` with this value, as it stands in an opening tag.
    pub fn to_string(&self, k: &str) -> (r: String)
        ensures
            r@ == attr_text(self.deep_view(), k@),
        decreases self,
    {
        match self {
            JsxAttr::Bool(flag) => {
                if *flag {
                    String::from_str(k)
                } else {
                    String::new()
                }
            },
            JsxAttr::Ellipsis(p) => {
                let mut r = String::from_str("{...");
                r.append(p.as_str());
                r.append("}");
                r
            },
            JsxAttr::JsxRaw(s) => {
                let mut r = String::from_str(k);
                r.append("=");
                r.append(s.as_str());
                r
            },
            JsxAttr::JsxString(s) => {
                let mut r = String::from_str(k);
                r.append("=\"");
                r.append(s.as_str());
                r.append("\"");
                r
            },
            JsxAttr::JsxVariableRef(v) => {
                let mut r = String::from_str(k);
                r.append("={");
                r.append(v.as_str());
                r.append("}");
                r
            },
            JsxAttr::Object(m) => {
                let ghost model = m.deep_view();
                let mut parts: Vec<String> = Vec::new();
                let mut i: usize = 0;
                while i < m.len()
                    invariant
                        i <= m.len(),
                        model == m.deep_view(),
                        parts@.len() == i,
                        forall|j: int| 0 <= j < i ==> parts@[j]@ == object_entries(model)[j],
                    decreases m.len() - i,
                {
                    let mut part = m[i].0.clone();
                    part.append(": ");
                    part.append(m[i].1.as_str());
                    parts.push(part);
                    i += 1;
                }
                assert(parts.deep_view() =~= object_entries(model));
                let inner = join_strings(&parts, ", ");
                let mut r = String::from_str("{");
                r.append(inner.as_str());
                r.append("}");
                r
            },
            JsxAttr::JsxObject(m) => {
                let ghost model = self.deep_view()->JsxObject_0;
                let mut parts: Vec<String> = Vec::new();
                let mut i: usize = 0;
                while i < m.len()
                    invariant
                        i <= m.len(),
                        *self matches JsxAttr::JsxObject(mm) && mm == *m,
                        model == self.deep_view()->JsxObject_0,
                        model.len() == m.len(),
                        parts@.len() == i,
                        forall|j: int|
                            0 <= j < i ==> parts@[j]@ == attr_text(model[j].1, model[j].0),
                    decreases m.len() - i,
                {
                    let part = m[i].1.to_string(m[i].0.as_str());
                    parts.push(part);
                    i += 1;
                }
                proof {
                    lemma_attr_texts(model);
                }
                assert(parts.deep_view() =~= attr_texts(model));
                let inner = join_strings(&parts, ", ");
                let mut r = String::from_str("{");
                r.append(inner.as_str());
                r.append("}");
                r
            },
        }
    }
}

/// A node of a component tree: a component with children, a component
/// without, or literal text.
#[derive(Debug)]
pub enum JsxNode {
    Node(String, Option<Vec<(String, JsxAttr)>>, Vec<Box<JsxNode>>),
    Leaf(String, Option<Vec<(String, JsxAttr)>>),
    Text(String),
}

/// What a [`JsxNode`] holds.
pub enum NodeModel {
    Node(Seq<char>, Option<AttrsModel>, Seq<NodeModel>),
    Leaf(Seq<char>, Option<AttrsModel>),
    Text(Seq<char>),
}

/// What `n` holds.
pub open spec fn node_model(n: JsxNode) -> NodeModel
    decreases n,
{
    match n {
        JsxNode::Node(tag, attrs, kids) => NodeModel::Node(
            tag@,
            attrs.deep_view(),
            Seq::new(
                kids@.len(),
                |i: int|
                    if 0 <= i < kids@.len() {
                        node_model(*kids@[i])
                    } else {
                        NodeModel::Text(Seq::empty())
                    },
            ),
        ),
        JsxNode::Leaf(tag, attrs) => NodeModel::Leaf(tag@, attrs.deep_view()),
        JsxNode::Text(text) => NodeModel::Text(text@),
    }
}

impl DeepView for JsxNode {
    type V = NodeModel;

    open spec fn deep_view(&self) -> NodeModel {
        node_model(*self)
    }
}

impl NodeModel {
    /// The tag of a component; literal text has none.
    pub open spec fn tag(self) -> Option<Seq<char>> {
        match self {
            NodeModel::Node(tag, _, _) => Some(tag),
            NodeModel::Leaf(tag, _) => Some(tag),
            NodeModel::Text(_) => None,
        }
    }

    /// The attributes of a component that has any.
    pub open spec fn attrs(self) -> Option<AttrsModel> {
        match self {
            NodeModel::Node(_, attrs, _) => attrs,
            NodeModel::Leaf(_, attrs) => attrs,
            NodeModel::Text(_) => None,
        }
    }

    /// The children of a component; a leaf and literal text have none.
    pub open spec fn children(self) -> Seq<NodeModel> {
        match self {
            NodeModel::Node(_, _, kids) => kids,
            NodeModel::Leaf(_, _) => Seq::empty(),
            NodeModel::Text(_) => Seq::empty(),
        }
    }

    /// The attributes as they stand in the opening tag, a space between neighbours.
    pub open spec fn attr_string(self) -> Seq<char> {
        match self.attrs() {
            Some(attrs) => join(attr_texts(attrs), " "@),
            None => Seq::empty(),
        }
    }
}

/// The markup of each of `kids` behind `prefix`, its own children two spaces deeper.
pub open spec fn child_lines(kids: Seq<NodeModel>, prefix: Seq<char>) -> Seq<Seq<char>>
    decreases kids, 0nat,
{
    if kids.len() == 0 {
        Seq::empty()
    } else {
        child_lines(kids.drop_last(), prefix).push(
            prefix + node_text(kids.last(), prefix + "  "@),
        )
    }
}

/// The markup of the children of `n`, one to a line.
pub open spec fn child_string(n: NodeModel, prefix: Seq<char>) -> Seq<char>
    decreases n, 0nat,
{
    match n {
        NodeModel::Node(_, _, kids) => join(child_lines(kids, prefix), "\n"@),
        NodeModel::Leaf(_, _) => Seq::empty(),
        NodeModel::Text(_) => Seq::empty(),
    }
}

/// The opening of the tag of a component: the tag, and behind a space the
/// attributes where they write anything.
pub open spec fn tag_opening(tag: Seq<char>, attrs: Seq<char>) -> Seq<char> {
    if attrs.len() != 0 {
        "<"@ + tag + " "@ + attrs
    } else {
        "<"@ + tag
    }
}

/// The markup of `n`. A component that has children is wrapped around them,
/// each child on a line of its own behind `prefix`; a component without
/// children closes itself; literal text writes nothing. `prefix` stands
/// nowhere but at the start of the children's lines.
pub open spec fn node_text(n: NodeModel, prefix: Seq<char>) -> Seq<char>
    decreases n, 1nat,
{
    match n.tag() {
        Some(tag) => if n.children().len() != 0 {
            tag_opening(tag, n.attr_string()) + ">\n"@ + child_string(n, prefix) + "\n</"@ + tag
                + ">"@
        } else {
            tag_opening(tag, n.attr_string()) + "/>"@
        },
        None => Seq::empty(),
    }
}

/// A row of markup: what it is indented by, and what stands behind that.
pub type Row = (Seq<char>, Seq<char>);

/// The rows `rows` as text, each with its indentation.
pub open spec fn row_texts(rows: Seq<Row>) -> Seq<Seq<char>> {
    Seq::new(rows.len(), |i: int| rows[i].0 + rows[i].1)
}

/// What stands behind the indentation in each of `rows`.
pub open spec fn row_bodies(rows: Seq<Row>) -> Seq<Seq<char>> {
    Seq::new(rows.len(), |i: int| rows[i].1)
}

/// `rows` with `prefix` before the indentation of the first.
pub open spec fn behind(prefix: Seq<char>, rows: Seq<Row>) -> Seq<Row> {
    if rows.len() == 0 {
        rows
    } else {
        rows.update(0, (prefix + rows[0].0, rows[0].1))
    }
}

/// The rows of the markup of `n`: the opening tag, the rows of the children,
/// and the closing tag; one row for a component without children and for text.
pub open spec fn node_rows(n: NodeModel, prefix: Seq<char>) -> Seq<Row>
    decreases n, 1nat,
{
    match n {
        NodeModel::Node(tag, _, kids) => if kids.len() != 0 {
            seq![(Seq::empty(), tag_opening(tag, n.attr_string()) + ">"@)] + child_rows(
                kids,
                prefix,
            ) + seq![(Seq::empty(), "</"@ + tag + ">"@)]
        } else {
            seq![(Seq::empty(), tag_opening(tag, n.attr_string()) + "/>"@)]
        },
        NodeModel::Leaf(tag, _) => seq![(Seq::empty(), tag_opening(tag, n.attr_string()) + "/>"@)],
        NodeModel::Text(_) => seq![(Seq::empty(), Seq::empty())],
    }
}

/// The rows of the markup of `kids`: those of each child, the first of them
/// behind `prefix`, the child's own children two spaces deeper.
pub open spec fn child_rows(kids: Seq<NodeModel>, prefix: Seq<char>) -> Seq<Row>
    decreases kids, 0nat,
{
    if kids.len() == 0 {
        Seq::empty()
    } else {
        child_rows(kids.drop_last(), prefix) + behind(
            prefix,
            node_rows(kids.last(), prefix + "  "@),
        )
    }
}

/// Whether `s` holds nothing but spaces.
pub open spec fn all_spaces(s: Seq<char>) -> bool {
    forall|i: int| 0 <= i < s.len() ==> s[i] == ' '
}

/// The markup of a node is its rows, one to a line.
pub proof fn lemma_node_text_is_its_rows(n: NodeModel, prefix: Seq<char>)
    ensures
        node_rows(n, prefix).len() >= 1,
        node_text(n, prefix) == join(row_texts(node_rows(n, prefix)), "\n"@),
    decreases n, 1nat,
{
    reveal_strlit(">\n");
    reveal_strlit(">");
    reveal_strlit("\n");
    reveal_strlit("\n</");
    reveal_strlit("</");
    let rows = node_rows(n, prefix);
    match n {
        NodeModel::Node(tag, _, kids) => {
            let opening = tag_opening(tag, n.attr_string());
            if kids.len() != 0 {
                lemma_child_text_is_its_rows(kids, prefix);
                let first = seq![(Seq::<char>::empty(), opening + ">"@)];
                let middle = child_rows(kids, prefix);
                let last = seq![(Seq::<char>::empty(), "</"@ + tag + ">"@)];
                assert(row_texts(rows) =~= row_texts(first) + row_texts(middle) + row_texts(last));
                lemma_join_concat(row_texts(first), row_texts(middle), "\n"@);
                lemma_join_concat(row_texts(first) + row_texts(middle), row_texts(last), "\n"@);
                assert(join(row_texts(first), "\n"@) =~= opening + ">"@);
                assert(join(row_texts(last), "\n"@) =~= "</"@ + tag + ">"@);
                assert(node_text(n, prefix) =~= join(row_texts(rows), "\n"@));
            } else {
                assert(join(row_texts(rows), "\n"@) =~= opening + "/>"@);
            }
        },
        NodeModel::Leaf(tag, _) => {
            assert(join(row_texts(rows), "\n"@) =~= tag_opening(tag, n.attr_string()) + "/>"@);
        },
        NodeModel::Text(_) => {
            assert(join(row_texts(rows), "\n"@) =~= Seq::<char>::empty());
        },
    }
}

/// The markup of children is their rows, one to a line.
pub proof fn lemma_child_text_is_its_rows(kids: Seq<NodeModel>, prefix: Seq<char>)
    ensures
        child_rows(kids, prefix).len() >= kids.len(),
        join(child_lines(kids, prefix), "\n"@) == join(
            row_texts(child_rows(kids, prefix)),
            "\n"@,
        ),
    decreases kids, 0nat,
{
    if kids.len() == 0 {
        assert(row_texts(child_rows(kids, prefix)) =~= Seq::empty());
    } else {
        let front = kids.drop_last();
        let deeper = prefix + "  "@;
        lemma_child_text_is_its_rows(front, prefix);
        lemma_node_text_is_its_rows(kids.last(), deeper);
        let own = node_rows(kids.last(), deeper);
        let placed = behind(prefix, own);
        assert(row_texts(placed) =~= row_texts(own).update(0, prefix + row_texts(own)[0]));
        lemma_join_behind(row_texts(own), "\n"@, prefix);
        let line = prefix + node_text(kids.last(), deeper);
        assert(join(row_texts(placed), "\n"@) == line);
        assert(child_lines(kids, prefix) =~= child_lines(front, prefix) + seq![line]);
        lemma_join_concat(child_lines(front, prefix), seq![line], "\n"@);
        assert(join(seq![line], "\n"@) == line);
        assert(row_texts(child_rows(kids, prefix)) =~= row_texts(child_rows(front, prefix))
            + row_texts(placed));
        lemma_join_concat(row_texts(child_rows(front, prefix)), row_texts(placed), "\n"@);
        lemma_child_lines(front, prefix);
        if front.len() == 0 {
            assert(child_lines(front, prefix) =~= Seq::empty());
            assert(row_texts(child_rows(front, prefix)) =~= Seq::empty());
        }
    }
}

/// The prefix changes the indentation of the rows and nothing else: whatever
/// the prefix, a node has the same rows, with the same text behind their
/// indentation.
pub proof fn lemma_prefix_indents_only(n: NodeModel, first: Seq<char>, second: Seq<char>)
    ensures
        row_bodies(node_rows(n, first)) == row_bodies(node_rows(n, second)),
    decreases n, 1nat,
{
    match n {
        NodeModel::Node(_, _, kids) => {
            if kids.len() != 0 {
                lemma_prefix_indents_children_only(kids, first, second);
                let opening = seq![
                    (Seq::<char>::empty(), tag_opening(n.tag()->0, n.attr_string()) + ">"@),
                ];
                let closing = seq![(Seq::<char>::empty(), "</"@ + n.tag()->0 + ">"@)];
                assert(row_bodies(node_rows(n, first)) =~= row_bodies(opening) + row_bodies(
                    child_rows(kids, first),
                ) + row_bodies(closing));
                assert(row_bodies(node_rows(n, second)) =~= row_bodies(opening) + row_bodies(
                    child_rows(kids, second),
                ) + row_bodies(closing));
            } else {
                assert(row_bodies(node_rows(n, first)) =~= row_bodies(node_rows(n, second)));
            }
        },
        NodeModel::Leaf(_, _) => {
            assert(row_bodies(node_rows(n, first)) =~= row_bodies(node_rows(n, second)));
        },
        NodeModel::Text(_) => {
            assert(row_bodies(node_rows(n, first)) =~= row_bodies(node_rows(n, second)));
        },
    }
}

/// The prefix changes the indentation of the children's rows and nothing else.
pub proof fn lemma_prefix_indents_children_only(
    kids: Seq<NodeModel>,
    first: Seq<char>,
    second: Seq<char>,
)
    ensures
        row_bodies(child_rows(kids, first)) == row_bodies(child_rows(kids, second)),
    decreases kids, 0nat,
{
    if kids.len() == 0 {
        assert(row_bodies(child_rows(kids, first)) =~= row_bodies(child_rows(kids, second)));
    } else {
        let front = kids.drop_last();
        lemma_prefix_indents_children_only(front, first, second);
        lemma_prefix_indents_only(kids.last(), first + "  "@, second + "  "@);
        let a = node_rows(kids.last(), first + "  "@);
        let b = node_rows(kids.last(), second + "  "@);
        assert(row_bodies(behind(first, a)) =~= row_bodies(a));
        assert(row_bodies(behind(second, b)) =~= row_bodies(b));
        assert(row_bodies(child_rows(kids, first)) =~= row_bodies(child_rows(front, first))
            + row_bodies(behind(first, a)));
        assert(row_bodies(child_rows(kids, second)) =~= row_bodies(child_rows(front, second))
            + row_bodies(behind(second, b)));
    }
}

/// Behind a prefix of spaces every row is indented by spaces only.
pub proof fn lemma_rows_are_indented_by_spaces(n: NodeModel, prefix: Seq<char>)
    requires
        all_spaces(prefix),
    ensures
        forall|i: int|
            0 <= i < node_rows(n, prefix).len() ==> all_spaces(#[trigger] node_rows(n, prefix)[i].0),
    decreases n, 1nat,
{
    let rows = node_rows(n, prefix);
    match n {
        NodeModel::Node(_, _, kids) => {
            if kids.len() != 0 {
                lemma_child_rows_are_indented_by_spaces(kids, prefix);
                let middle = child_rows(kids, prefix);
                assert forall|i: int| 0 <= i < rows.len() implies all_spaces(#[trigger] rows[i].0) by {
                    if 1 <= i <= middle.len() {
                        assert(rows[i] == middle[i - 1]);
                    }
                }
            }
        },
        NodeModel::Leaf(_, _) => {},
        NodeModel::Text(_) => {},
    }
}

/// Behind a prefix of spaces every row of the children is indented by spaces only.
pub proof fn lemma_child_rows_are_indented_by_spaces(kids: Seq<NodeModel>, prefix: Seq<char>)
    requires
        all_spaces(prefix),
    ensures
        forall|i: int|
            0 <= i < child_rows(kids, prefix).len() ==> all_spaces(
                #[trigger] child_rows(kids, prefix)[i].0,
            ),
    decreases kids, 0nat,
{
    if kids.len() > 0 {
        reveal_strlit("  ");
        let front = kids.drop_last();
        let deeper = prefix + "  "@;
        assert(all_spaces(deeper));
        lemma_child_rows_are_indented_by_spaces(front, prefix);
        lemma_rows_are_indented_by_spaces(kids.last(), deeper);
        let own = node_rows(kids.last(), deeper);
        let placed = behind(prefix, own);
        assert forall|i: int| 0 <= i < placed.len() implies all_spaces(#[trigger] placed[i].0) by {
            if i == 0 {
                assert(all_spaces(own[0].0));
            } else {
                assert(placed[i] == own[i]);
            }
        }
        let before = child_rows(front, prefix);
        let rows = child_rows(kids, prefix);
        assert forall|i: int| 0 <= i < rows.len() implies all_spaces(#[trigger] rows[i].0) by {
            if i < before.len() {
                assert(rows[i] == before[i]);
            } else {
                assert(rows[i] == placed[i - before.len()]);
            }
        }
    }
}

/// Indentation is cosmetic: under two prefixes of spaces the markup of a node
/// has the same number of rows, each row is indented by spaces only, and what
/// stands behind the indentation is the same in both.
pub proof fn lemma_indentation_is_cosmetic(n: NodeModel, first: Seq<char>, second: Seq<char>)
    requires
        all_spaces(first),
        all_spaces(second),
    ensures
        node_text(n, first) == join(row_texts(node_rows(n, first)), "\n"@),
        node_text(n, second) == join(row_texts(node_rows(n, second)), "\n"@),
        node_rows(n, first).len() == node_rows(n, second).len(),
        forall|i: int|
            0 <= i < node_rows(n, first).len() ==> {
                &&& (#[trigger] node_rows(n, first)[i]).1 == node_rows(n, second)[i].1
                &&& all_spaces(node_rows(n, first)[i].0)
                &&& all_spaces(node_rows(n, second)[i].0)
            },
{
    lemma_node_text_is_its_rows(n, first);
    lemma_node_text_is_its_rows(n, second);
    lemma_prefix_indents_only(n, first, second);
    lemma_rows_are_indented_by_spaces(n, first);
    lemma_rows_are_indented_by_spaces(n, second);
    let a = node_rows(n, first);
    let b = node_rows(n, second);
    assert(row_bodies(a).len() == row_bodies(b).len());
    assert forall|i: int| 0 <= i < a.len() implies {
        &&& (#[trigger] a[i]).1 == b[i].1
        &&& all_spaces(a[i].0)
        &&& all_spaces(b[i].0)
    } by {
        assert(row_bodies(a)[i] == row_bodies(b)[i]);
    }
}

/// `child_lines` writes each child by itself and keeps the order.
pub proof fn lemma_child_lines(kids: Seq<NodeModel>, prefix: Seq<char>)
    ensures
        child_lines(kids, prefix).len() == kids.len(),
        forall|i: int|
            0 <= i < kids.len() ==> #[trigger] child_lines(kids, prefix)[i] == prefix + node_text(
                kids[i],
                prefix + "  "@,
            ),
    decreases kids.len(),
{
    if kids.len() > 0 {
        lemma_child_lines(kids.drop_last(), prefix);
    }
}

/// Each attribute of `attrs` as it stands in an opening tag.
pub fn attr_strings(attrs: &Vec<(String, JsxAttr)>) -> (r: Vec<String>)
    ensures
        r.deep_view() == attr_texts(attrs.deep_view()),
{
    let ghost model = attrs.deep_view();
    let mut parts: Vec<String> = Vec::new();
    let mut i: usize = 0;
    while i < attrs.len()
        invariant
            i <= attrs.len(),
            model == attrs.deep_view(),
            parts@.len() == i,
            forall|j: int| 0 <= j < i ==> parts@[j]@ == attr_text(model[j].1, model[j].0),
        decreases attrs.len() - i,
    {
        let part = attrs[i].1.to_string(attrs[i].0.as_str());
        parts.push(part);
        i += 1;
    }
    proof {
        lemma_attr_texts(model);
    }
    assert(parts.deep_view() =~= attr_texts(model));
    parts
}

impl JsxNode {
    /// The component `name` with the attributes `attr` and the children `children`.
    pub fn node(name: &str, attr: Option<Vec<(String, JsxAttr)>>, children: Vec<JsxNode>) -> (r:
        JsxNode)
        ensures
            r.deep_view() == NodeModel::Node(name@, attr.deep_view(), children.deep_view()),
    {
        let ghost model = children.deep_view();
        let mut kids: Vec<Box<JsxNode>> = Vec::new();
        for child in it: children
            invariant
                it.seq().len() == model.len(),
                forall|j: int| 0 <= j < model.len() ==> it.seq()[j].deep_view() == model[j],
                kids@.len() == it.index(),
                forall|j: int| 0 <= j < kids@.len() ==> kids@[j].deep_view() == model[j],
        {
            kids.push(Box::new(child));
        }
        let r = JsxNode::Node(String::from_str(name), attr, kids);
        assert(r.deep_view()->Node_2 =~= model);
        r
    }

    /// The tag of a component; literal text has none.
    pub fn tag(&self) -> (r: Option<String>)
        ensures
            r.deep_view() == self.deep_view().tag(),
    {
        match self {
            JsxNode::Node(tag, _, _) => Some(tag.clone()),
            JsxNode::Leaf(tag, _) => Some(tag.clone()),
            JsxNode::Text(_) => None,
        }
    }

    /// The attributes as they stand in the opening tag.
    pub fn attr_string(&self) -> (r: String)
        ensures
            r@ == self.deep_view().attr_string(),
    {
        match self {
            JsxNode::Node(_, Some(attrs), _) => {
                let parts = attr_strings(attrs);
                join_strings(&parts, " ")
            },
            JsxNode::Leaf(_, Some(attrs)) => {
                let parts = attr_strings(attrs);
                join_strings(&parts, " ")
            },
            JsxNode::Node(_, None, _) => String::new(),
            JsxNode::Leaf(_, None) => String::new(),
            JsxNode::Text(_) => String::new(),
        }
    }

    /// The markup of the children, one to a line, each behind `prefix`.
    pub fn child_string(&self, prefix: String) -> (r: String)
        ensures
            r@ == child_string(self.deep_view(), prefix@),
        decreases self, 0nat,
    {
        match self {
            JsxNode::Node(_, _, kids) => {
                let ghost model = self.deep_view().children();
                let mut lines: Vec<String> = Vec::new();
                let mut i: usize = 0;
                while i < kids.len()
                    invariant
                        i <= kids.len(),
                        *self matches JsxNode::Node(_, _, kk) && kk == *kids,
                        model == self.deep_view().children(),
                        model.len() == kids.len(),
                        lines@.len() == i,
                        forall|j: int|
                            0 <= j < i ==> lines@[j]@ == prefix@ + node_text(
                                model[j],
                                prefix@ + "  "@,
                            ),
                    decreases kids.len() - i,
                {
                    let mut deeper = prefix.clone();
                    deeper.append("  ");
                    let text = kids[i].to_string(false, deeper);
                    let mut line = prefix.clone();
                    line.append(text.as_str());
                    lines.push(line);
                    i += 1;
                }
                proof {
                    lemma_child_lines(model, prefix@);
                }
                assert(lines.deep_view() =~= child_lines(model, prefix@));
                join_strings(&lines, "\n")
            },
            JsxNode::Leaf(_, _) => String::new(),
            JsxNode::Text(_) => String::new(),
        }
    }

    /// The markup of this node, its children behind `prefix`. Whether the node
    /// stands at the top level plays no part.
    pub fn to_string(&self, top_level: bool, prefix: String) -> (r: String)
        ensures
            r@ == node_text(self.deep_view(), prefix@),
        decreases self, 1nat,
    {
        let attr_string = self.attr_string();
        let has_children = match self {
            JsxNode::Node(_, _, kids) => kids.len() > 0,
            JsxNode::Leaf(_, _) => false,
            JsxNode::Text(_) => false,
        };
        let child_string = self.child_string(prefix);
        match self.tag() {
            Some(tag) => {
                let has_attrs = !attr_string.as_str().is_empty();
                let mut r = String::from_str("<");
                r.append(tag.as_str());
                if has_attrs {
                    r.append(" ");
                    r.append(attr_string.as_str());
                }
                if has_children {
                    r.append(">\n");
                    r.append(child_string.as_str());
                    r.append("\n</");
                    r.append(tag.as_str());
                    r.append(">");
                } else {
                    r.append("/>");
                }
                r
            },
            None => String::new(),
        }
    }
}

/// Puts `value` under `key`: in the place of the first attribute of that name
/// if there is one, else at the end.
pub fn insert_attr(attrs: &mut Vec<(String, JsxAttr)>, key: String, value: JsxAttr)
    ensures
        final(attrs).deep_view() == put(old(attrs).deep_view(), key@, value.deep_view()),
{
    insert_entry(attrs, key, value)
}

/// The attribute that hands a component's own properties on.
pub open spec fn props_spread() -> AttrsModel {
    seq![(""@, AttrModel::Ellipsis("props"@))]
}

/// The component `outer`, which hands its properties on, around the container
/// `inner` that holds `children`.
pub open spec fn wrapped(outer: Seq<char>, inner: Seq<char>, children: Seq<NodeModel>) -> NodeModel {
    NodeModel::Node(outer, Some(props_spread()), seq![NodeModel::Node(inner, None, children)])
}

/// A form `name` around `children`, and the import of both components.
pub open spec fn simple_form(name: Seq<char>, children: Seq<NodeModel>) -> (
    NodeModel,
    ImportModel,
) {
    (wrapped(name, "SimpleForm"@, children), ImportModel::react_admin(seq!["SimpleForm"@, name]))
}

/// A grid `name` around `children`, and the import of both components.
pub open spec fn datagrid(name: Seq<char>, children: Seq<NodeModel>) -> (NodeModel, ImportModel) {
    (wrapped(name, "Datagrid"@, children), ImportModel::react_admin(seq!["Datagrid"@, name]))
}

/// The containers that a view is wrapped in.
pub struct JsxNodes;

fn wrap(name: &str, inner: &str, children: Vec<JsxNode>) -> (r: (JsxNode, Import))
    ensures
        r.deep_view() == (
            wrapped(name@, inner@, children.deep_view()),
            ImportModel::react_admin(seq![inner@, name@]),
        ),
{
    let ghost kids = children.deep_view();
    let mut attrs: Vec<(String, JsxAttr)> = Vec::new();
    attrs.push((String::from_str(""), JsxAttr::Ellipsis(String::from_str("props"))));
    assert(attrs.deep_view() =~= props_spread());
    let container = JsxNode::node(inner, None, children);
    let mut outer_children: Vec<JsxNode> = Vec::new();
    outer_children.push(container);
    assert(outer_children.deep_view() =~= seq![NodeModel::Node(inner@, None, kids)]);
    let node = JsxNode::node(name, Some(attrs), outer_children);
    let mut names: Vec<String> = Vec::new();
    names.push(String::from_str(inner));
    names.push(String::from_str(name));
    assert(names.deep_view() =~= seq![inner@, name@]);
    (node, Import::react_admin(names))
}

impl JsxNodes {
    /// A form `name` around `children`, and the import of both components.
    pub fn simple_form(name: &str, children: Vec<JsxNode>) -> (r: (JsxNode, Import))
        ensures
            r.deep_view() == simple_form(name@, children.deep_view()),
    {
        wrap(name, "SimpleForm", children)
    }

    /// A grid `name` around `children`, and the import of both components.
    pub fn datagrid(name: &str, children: Vec<JsxNode>) -> (r: (JsxNode, Import))
        ensures
            r.deep_view() == datagrid(name@, children.deep_view()),
    {
        wrap(name, "Datagrid", children)
    }
}

/// The widget of the field `f` in a view of kind `kind`.
pub open spec fn field_widget(f: FieldModel, kind: ViewKind) -> WidgetModel {
    WidgetModel::simple(widget_tag(f.field_type, is_editing(f.options.editable, kind)))
}

/// The attributes of a field's component: its source, and its label if it has one.
pub open spec fn field_attrs(f: FieldModel) -> AttrsModel {
    let source = seq![("source"@, AttrModel::JsxString(f.name))];
    if f.options.label.len() > 0 {
        source.push(("label"@, AttrModel::JsxString(f.options.label)))
    } else {
        source
    }
}

/// No attribute occurs twice in a field's component.
pub proof fn lemma_field_attrs_distinct(f: FieldModel)
    ensures
        distinct(names_of(field_attrs(f))),
{
    reveal_strlit("source");
    reveal_strlit("label");
    assert("source"@ != "label"@) by {
        assert("source"@.len() != "label"@.len());
    }
}

/// The component of the field `f` in a view of kind `kind`.
pub open spec fn field_node(f: FieldModel, kind: ViewKind) -> NodeModel {
    NodeModel::Leaf(field_widget(f, kind).name, Some(field_attrs(f)))
}

/// The import that the component of the field `f` needs.
pub open spec fn field_import(f: FieldModel, kind: ViewKind) -> ImportModel {
    ImportModel::of_widget(field_widget(f, kind))
}

/// The component of `field` in `view`, and the import that it needs. The
/// table's name plays no part.
pub fn field_as_jsx(table: String, field: &Field, view: &ViewSpec) -> (r: Option<(JsxNode, Import)>)
    ensures
        r.deep_view() == Some(
            (field_node(field.deep_view(), view.view), field_import(field.deep_view(), view.view)),
        ),
{
    let widget = field.1.view_map_type(&view.view, &field.2);
    let mut attrs: Vec<(String, JsxAttr)> = Vec::new();
    attrs.push((String::from_str("source"), JsxAttr::JsxString(field.0.clone())));
    assert(attrs.deep_view() =~= seq![("source"@, AttrModel::JsxString(field.0@))]);
    if !field.2.label.as_str().is_empty() {
        let ghost before = attrs.deep_view();
        attrs.push((String::from_str("label"), JsxAttr::JsxString(field.2.label.clone())));
        assert(attrs.deep_view() =~= before.push(("label"@, AttrModel::JsxString(field.2.label@))));
    }
    let node = JsxNode::Leaf(widget.tag().clone(), Some(attrs));
    Some((node, Import::from_widget(widget)))
}

/// The names of `fields`, in order.
pub open spec fn field_names(fields: Seq<FieldModel>) -> Seq<Seq<char>> {
    Seq::new(fields.len(), |i: int| fields[i].name)
}

/// The fields that the names `order` pick from `fields`, in the order of the
/// names. A name that no field has picks nothing, a name that came before
/// picks nothing again, and of two fields with one name the later is picked.
pub open spec fn ordered_fields(fields: Seq<FieldModel>, order: Seq<Seq<char>>) -> Seq<
    FieldModel,
>
    decreases order.len(),
{
    if order.len() == 0 {
        Seq::empty()
    } else {
        let before = ordered_fields(fields, order.drop_last());
        if order.drop_last().contains(order.last()) {
            before
        } else {
            match last_index_of(field_names(fields), order.last()) {
                Some(i) => before.push(fields[i]),
                None => before,
            }
        }
    }
}

/// The fields that a view with the field order `order` shows: those that the
/// order picks, or every field as declared where the order is empty.
pub open spec fn selected_fields(fields: Seq<FieldModel>, order: Seq<Seq<char>>) -> Seq<
    FieldModel,
> {
    if order.len() == 0 {
        fields
    } else {
        ordered_fields(fields, order)
    }
}

/// The components of `fields` in a view of kind `kind`.
pub open spec fn field_nodes(fields: Seq<FieldModel>, kind: ViewKind) -> Seq<NodeModel> {
    Seq::new(fields.len(), |i: int| field_node(fields[i], kind))
}

/// The imports that the components of `fields` need, one for each.
pub open spec fn field_imports(fields: Seq<FieldModel>, kind: ViewKind) -> Seq<ImportModel> {
    Seq::new(fields.len(), |i: int| field_import(fields[i], kind))
}

/// The name of the button of the action `a`.
pub open spec fn button_name(a: ActionSpecModel) -> Seq<char> {
    a.name + "Button"@
}

/// The button of the action `a`.
pub open spec fn action_node(a: ActionSpecModel) -> NodeModel {
    NodeModel::Node(button_name(a), Some(Seq::empty()), Seq::empty())
}

/// The buttons of `actions`, in order.
pub open spec fn action_nodes(actions: Seq<ActionSpecModel>) -> Seq<NodeModel> {
    Seq::new(actions.len(), |i: int| action_node(actions[i]))
}

/// The imports of the buttons of `actions`, one for each.
pub open spec fn action_imports(actions: Seq<ActionSpecModel>) -> Seq<ImportModel> {
    Seq::new(actions.len(), |i: int| ImportModel::react_admin(seq![button_name(actions[i])]))
}

/// The tree of a view of kind `kind` around `children`, and the import of its
/// containers. A view of kind Delete has no tree: it is a placeholder that
/// imports nothing real.
pub open spec fn view_wrapper(kind: ViewKind, children: Seq<NodeModel>) -> (
    NodeModel,
    ImportModel,
) {
    match kind {
        ViewKind::Create => simple_form("Create"@, children),
        ViewKind::Edit => simple_form("Edit"@, children),
        ViewKind::Show => simple_form("Show"@, children),
        ViewKind::Filter => simple_form("Filter"@, children),
        ViewKind::List => datagrid("List"@, children),
        ViewKind::Delete => (
            NodeModel::Text("No Node"@),
            ImportModel { source: "Bogus"@, symbols: Seq::empty() },
        ),
    }
}

/// The children of the view `view` over a table with the fields `fields`: the
/// selected fields' components, then the actions' buttons.
pub open spec fn view_children(fields: Seq<FieldModel>, view: ViewSpecModel) -> Seq<NodeModel> {
    field_nodes(selected_fields(fields, view.field_order), view.view) + action_nodes(view.actions)
}

/// The imports of the view `view` over a table with the fields `fields`: the
/// markup library, one for each selected field, one for each action, and the
/// containers' last.
pub open spec fn view_imports(fields: Seq<FieldModel>, view: ViewSpecModel) -> Seq<ImportModel> {
    (seq![ImportModel::react()] + field_imports(
        selected_fields(fields, view.field_order),
        view.view,
    ) + action_imports(view.actions)).push(
        view_wrapper(view.view, view_children(fields, view)).1,
    )
}

/// What is generated for a view: its name, its tree, and its imports.
pub type ViewModel = (Seq<char>, NodeModel, Seq<ImportModel>);

/// What is generated for `view` over `tables`. The view's table is the first of
/// that name; where there is none the result is a placeholder without a name
/// and without imports.
pub open spec fn view_model(tables: Seq<TableModel>, view: ViewSpecModel) -> ViewModel {
    match first_index_of(names_of(tables), view.source.name) {
        Some(t) => (
            full_view_name(view.view, tables[t].0),
            view_wrapper(view.view, view_children(tables[t].1, view)).0,
            view_imports(tables[t].1, view),
        ),
        None => (Seq::empty(), NodeModel::Text("No Node (No Table)"@), Seq::empty()),
    }
}

/// With an empty field order a view shows every field of its table once, in
/// the order in which the table declares them.
pub proof fn lemma_default_order_shows_every_field(fields: Seq<FieldModel>, view: ViewSpecModel)
    requires
        view.field_order.len() == 0,
    ensures
        selected_fields(fields, view.field_order) == fields,
        view_children(fields, view).len() == fields.len() + view.actions.len(),
        forall|i: int|
            0 <= i < fields.len() ==> view_children(fields, view)[i] == field_node(
                fields[i],
                view.view,
            ),
{
}

/// What a field order picks are fields of the table whose names the order
/// holds, one for each name that some field has and that the order did not
/// hold before, in the order of the names.
pub proof fn lemma_ordered_fields(fields: Seq<FieldModel>, order: Seq<Seq<char>>)
    ensures
        ordered_fields(fields, order).len() <= order.len(),
        forall|k: int|
            0 <= k < ordered_fields(fields, order).len() ==> fields.contains(
                #[trigger] ordered_fields(fields, order)[k],
            ) && order.contains(ordered_fields(fields, order)[k].name),
        forall|i: int, j: int|
            0 <= i < j < ordered_fields(fields, order).len() ==> ordered_fields(
                fields,
                order,
            )[i].name != ordered_fields(fields, order)[j].name,
        forall|j: int|
            0 <= j < order.len() && field_names(fields).contains(order[j]) ==> exists|k: int|
                0 <= k < ordered_fields(fields, order).len() && #[trigger] ordered_fields(
                    fields,
                    order,
                )[k].name == order[j],
    decreases order.len(),
{
    let picked = ordered_fields(fields, order);
    if order.len() > 0 {
        let front = order.drop_last();
        let name = order.last();
        let before = ordered_fields(fields, front);
        lemma_ordered_fields(fields, front);
        lemma_last_index_of(field_names(fields), name);
        assert(forall|j: int| 0 <= j < front.len() ==> front[j] == order[j]);
        assert forall|k: int| 0 <= k < picked.len() implies fields.contains(#[trigger] picked[k])
            && order.contains(picked[k].name) by {
            if k < before.len() {
                assert(fields.contains(before[k]) && front.contains(before[k].name));
                let w = choose|w: int| 0 <= w < front.len() && front[w] == before[k].name;
                assert(order[w] == before[k].name);
            } else {
                let i = last_index_of(field_names(fields), name)->0;
                assert(picked[k] == fields[i]);
                assert(order[order.len() - 1] == name);
            }
        }
        assert forall|i: int, j: int| 0 <= i < j < picked.len() implies picked[i].name
            != picked[j].name by {
            if j >= before.len() {
                assert(front.contains(before[i].name));
            }
        }
        assert forall|j: int|
            0 <= j < order.len() && field_names(fields).contains(order[j]) implies exists|k: int|
            0 <= k < picked.len() && #[trigger] picked[k].name == order[j] by {
            if j < front.len() {
                let k = choose|k: int| 0 <= k < before.len() && #[trigger] before[k].name == front[j];
                assert(picked[k].name == order[j]);
            } else if front.contains(name) {
                let w = choose|w: int| 0 <= w < front.len() && front[w] == name;
                let k = choose|k: int| 0 <= k < before.len() && #[trigger] before[k].name == front[w];
                assert(picked[k].name == order[j]);
            } else {
                let k = before.len() as int;
                assert(picked[k].name == order[j]);
            }
        }
    }
}

/// The last position of a field named `name`.
pub fn last_field_index(fields: &Vec<Field>, name: &String) -> (r: Option<usize>)
    ensures
        as_index(r) == last_index_of(field_names(fields.deep_view()), name@),
{
    let ghost names = field_names(fields.deep_view());
    let mut i: usize = fields.len();
    while i > 0
        invariant
            i <= fields.len(),
            names == field_names(fields.deep_view()),
            forall|j: int| i <= j < fields.len() ==> names[j] != name@,
        decreases i,
    {
        i -= 1;
        if fields[i].0 == *name {
            proof {
                lemma_last_index_is(names, name@, i as int);
            }
            return Some(i);
        }
    }
    proof {
        lemma_index_of_absent(names, name@);
    }
    None
}

fn push_field(
    children: &mut Vec<JsxNode>,
    imports: &mut Vec<Import>,
    field: &Field,
    view: &ViewSpec,
    Ghost(shown): Ghost<Seq<FieldModel>>,
)
    requires
        old(children).deep_view() == field_nodes(shown, view.view),
        old(imports).deep_view() == seq![ImportModel::react()] + field_imports(shown, view.view),
    ensures
        final(children).deep_view() == field_nodes(shown.push(field.deep_view()), view.view),
        final(imports).deep_view() == seq![ImportModel::react()] + field_imports(
            shown.push(field.deep_view()),
            view.view,
        ),
{
    let ghost c0 = children.deep_view();
    let ghost i0 = imports.deep_view();
    match field_as_jsx(String::new(), field, view) {
        Some((node, import)) => {
            children.push(node);
            imports.push(import);
            assert(children.deep_view() =~= c0.push(field_node(field.deep_view(), view.view)));
            assert(imports.deep_view() =~= i0.push(field_import(field.deep_view(), view.view)));
            assert(children.deep_view() =~= field_nodes(
                shown.push(field.deep_view()),
                view.view,
            ));
            assert(imports.deep_view() =~= seq![ImportModel::react()] + field_imports(
                shown.push(field.deep_view()),
                view.view,
            ));
        },
        None => {},
    }
}

/// The name, the tree and the imports of `view` over `tables`.
pub fn top_level_view_node(tables: &Vec<(String, Vec<Field>)>, view: &ViewSpec) -> (r: (
    String,
    JsxNode,
    Vec<Import>,
))
    ensures
        r.deep_view() == view_model(tables.deep_view(), view.deep_view()),
{
    let ghost tm = tables.deep_view();
    let ghost vm = view.deep_view();
    assert(entry_names(tables@) =~= names_of(tm));
    proof {
        lemma_first_index_of(names_of(tm), vm.source.name);
    }
    match key_index(tables, &view.source.name) {
        Some(t) => {
            let table = &tables[t];
            let ghost fields = table.1.deep_view();
            assert(fields == tm[t as int].1);
            let ghost order = vm.field_order;
            let mut children: Vec<JsxNode> = Vec::new();
            let mut imports: Vec<Import> = Vec::new();
            imports.push(Import::react());
            assert(children.deep_view() =~= field_nodes(Seq::empty(), view.view));
            assert(imports.deep_view() =~= seq![ImportModel::react()] + field_imports(
                Seq::empty(),
                view.view,
            ));
            let ghost mut shown: Seq<FieldModel> = Seq::empty();
            if view.field_order.len() > 0 {
                let mut j: usize = 0;
                assert(order.take(0) =~= Seq::empty());
                while j < view.field_order.len()
                    invariant
                        j <= view.field_order.len(),
                        order == view.field_order.deep_view(),
                        fields == table.1.deep_view(),
                        shown == ordered_fields(fields, order.take(j as int)),
                        children.deep_view() == field_nodes(shown, view.view),
                        imports.deep_view() == seq![ImportModel::react()] + field_imports(
                            shown,
                            view.view,
                        ),
                    decreases view.field_order.len() - j,
                {
                    proof {
                        assert(order.take(j as int + 1).drop_last() =~= order.take(j as int));
                        assert(order.take(j as int + 1).last() == order[j as int]);
                        lemma_last_index_of(field_names(fields), order[j as int]);
                    }
                    if !occurs_before(&view.field_order, j) {
                        match last_field_index(&table.1, &view.field_order[j]) {
                            Some(i) => {
                                push_field(
                                    &mut children,
                                    &mut imports,
                                    &table.1[i],
                                    view,
                                    Ghost(shown),
                                );
                                proof {
                                    shown = shown.push(fields[i as int]);
                                }
                            },
                            None => {},
                        }
                    }
                    j += 1;
                }
                assert(order.take(j as int) =~= order);
            } else {
                let mut i: usize = 0;
                assert(fields.take(0) =~= Seq::empty());
                while i < table.1.len()
                    invariant
                        i <= table.1.len(),
                        fields == table.1.deep_view(),
                        shown == fields.take(i as int),
                        children.deep_view() == field_nodes(shown, view.view),
                        imports.deep_view() == seq![ImportModel::react()] + field_imports(
                            shown,
                            view.view,
                        ),
                    decreases table.1.len() - i,
                {
                    push_field(&mut children, &mut imports, &table.1[i], view, Ghost(shown));
                    proof {
                        shown = shown.push(fields[i as int]);
                        assert(shown =~= fields.take(i as int + 1));
                    }
                    i += 1;
                }
                assert(fields.take(i as int) =~= fields);
            }
            assert(shown == selected_fields(fields, order));
            let ghost actions = vm.actions;
            let ghost field_part = children.deep_view();
            let ghost import_part = imports.deep_view();
            let mut a: usize = 0;
            while a < view.actions.len()
                invariant
                    a <= view.actions.len(),
                    actions == view.actions.deep_view(),
                    children.deep_view() == field_part + action_nodes(actions).take(a as int),
                    imports.deep_view() == import_part + action_imports(actions).take(a as int),
                decreases view.actions.len() - a,
            {
                let ghost c0 = children.deep_view();
                let ghost i0 = imports.deep_view();
                let mut name = view.actions[a].name.clone();
                name.append("Button");
                let mut names: Vec<String> = Vec::new();
                names.push(name.clone());
                assert(names.deep_view() =~= seq![button_name(actions[a as int])]);
                let node = JsxNode::node(name.as_str(), Some(Vec::new()), Vec::new());
                assert(node.deep_view()->Node_1->0 =~= Seq::empty());
                assert(node.deep_view()->Node_2 =~= Seq::empty());
                children.push(node);
                imports.push(Import::react_admin(names));
                assert(children.deep_view() =~= c0.push(action_node(actions[a as int])));
                assert(imports.deep_view() =~= i0.push(
                    ImportModel::react_admin(seq![button_name(actions[a as int])]),
                ));
                a += 1;
            }
            assert(children.deep_view() =~= view_children(fields, vm));
            let ghost kids = children.deep_view();
            let ghost before_last = imports.deep_view();
            assert(before_last =~= seq![ImportModel::react()] + field_imports(shown, view.view)
                + action_imports(actions));
            let (node, import) = match view.view {
                ViewKind::Create => JsxNodes::simple_form("Create", children),
                ViewKind::Edit => JsxNodes::simple_form("Edit", children),
                ViewKind::Show => JsxNodes::simple_form("Show", children),
                ViewKind::Filter => JsxNodes::simple_form("Filter", children),
                ViewKind::List => JsxNodes::datagrid("List", children),
                ViewKind::Delete => {
                    let none: Vec<IKind> = Vec::new();
                    assert(none.deep_view() =~= Seq::empty());
                    let placeholder = Import { source: String::from_str("Bogus"), symbols: none };
                    (JsxNode::Text(String::from_str("No Node")), placeholder)
                },
            };
            imports.push(import);
            assert(imports.deep_view() =~= before_last.push(view_wrapper(view.view, kids).1));
            (view.view.full_view_name(table.0.as_str()), node, imports)
        },
        None => {
            let imports: Vec<Import> = Vec::new();
            assert(imports.deep_view() =~= Seq::empty());
            (String::new(), JsxNode::Text(String::from_str("No Node (No Table)")), imports)
        },
    }
}

} // verus!
