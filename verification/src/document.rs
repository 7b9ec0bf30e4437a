//! A plain model of a KDL document (nodes with a name, entries and an
//! optional children block), the calls into the `kdl` crate that read one
//! from text, and the small accessors that the configuration reader uses.
use vstd::prelude::*;

use crate::error::DoerError;
use crate::text::{chars_of, copy_string, owned, push_char, push_decimal, push_signed_decimal, push_str, decimal, signed_decimal};

verus! {

#[verifier::external_type_specification]
#[verifier::external_body]
pub struct ExKdlDocument(kdl::KdlDocument);

#[verifier::external_type_specification]
#[verifier::external_body]
pub struct ExKdlNode(kdl::KdlNode);

#[verifier::external_type_specification]
#[verifier::external_body]
pub struct ExKdlError(kdl::KdlError);

/// A KDL value. A float is kept as the two texts that the configuration
/// reader needs of it: its `Display` text and its `Debug` text.
#[derive(Debug)]
pub enum Value {
    Str(String),
    Integer(i128),
    Float { text: String, debug: String },
    Bool(bool),
    Null,
}

pub ghost enum ValueV {
    Str(Seq<char>),
    Int(int),
    Float { text: Seq<char>, debug: Seq<char> },
    Bool(bool),
    Null,
}

impl View for Value {
    type V = ValueV;

    open spec fn view(&self) -> ValueV {
        match self {
            Value::Str(s) => ValueV::Str(s@),
            Value::Integer(i) => ValueV::Int(*i as int),
            Value::Float { text, debug } => ValueV::Float { text: text@, debug: debug@ },
            Value::Bool(b) => ValueV::Bool(*b),
            Value::Null => ValueV::Null,
        }
    }
}

impl Value {
    /// A copy of this value.
    pub fn copy(&self) -> (r: Value)
        ensures
            r@ == self@,
    {
        match self {
            Value::Str(s) => Value::Str(copy_string(s)),
            Value::Integer(i) => Value::Integer(*i),
            Value::Float { text, debug } => Value::Float {
                text: copy_string(text),
                debug: copy_string(debug),
            },
            Value::Bool(b) => Value::Bool(*b),
            Value::Null => Value::Null,
        }
    }
}

/// An entry of a node: a value, with a key when it is a property.
#[derive(Debug)]
pub struct Entry {
    pub name: Option<String>,
    pub value: Value,
}

/// A node: its name, its entries in order, and its children block if it has one.
#[derive(Debug)]
pub struct Node {
    pub name: String,
    pub entries: Vec<Entry>,
    pub children: Option<Document>,
}

/// A document: its nodes in order.
#[derive(Debug)]
pub struct Document {
    pub nodes: Vec<Node>,
}

pub ghost struct EntryV {
    pub name: Option<Seq<char>>,
    pub value: ValueV,
}

/// A node as plain values; a document is the sequence of its nodes.
pub ghost struct NodeV {
    pub name: Seq<char>,
    pub entries: Seq<EntryV>,
    pub children: Option<Seq<NodeV>>,
}

impl View for Entry {
    type V = EntryV;

    open spec fn view(&self) -> EntryV {
        EntryV {
            name: match self.name {
                Some(n) => Some(n@),
                None => None,
            },
            value: self.value@,
        }
    }
}

/// The views of a list of entries.
pub open spec fn entry_views(v: Seq<Entry>) -> Seq<EntryV> {
    v.map_values(|e: Entry| e@)
}

/// The view of a node.
pub open spec fn node_view(n: Node) -> NodeV
    decreases n,
{
    NodeV {
        name: n.name@,
        entries: entry_views(n.entries@),
        children: match n.children {
            Some(c) => Some(nodes_view(c.nodes@)),
            None => None,
        },
    }
}

/// The views of a list of nodes.
pub open spec fn nodes_view(ns: Seq<Node>) -> Seq<NodeV>
    decreases ns,
{
    if ns.len() == 0 {
        seq![]
    } else {
        nodes_view(ns.drop_last()).push(node_view(ns.last()))
    }
}

impl View for Node {
    type V = NodeV;

    open spec fn view(&self) -> NodeV {
        node_view(*self)
    }
}

impl View for Document {
    type V = Seq<NodeV>;

    open spec fn view(&self) -> Seq<NodeV> {
        nodes_view(self.nodes@)
    }
}

/// What the `kdl` crate reads from a text: the nodes of the document, or
/// nothing when the text is not a KDL document.
pub uninterp spec fn kdl_read(text: Seq<char>) -> Option<Seq<NodeV>>;

/// The nodes of a parsed document, as plain values.
pub uninterp spec fn kdl_document_nodes(doc: kdl::KdlDocument) -> Seq<NodeV>;

/// A parsed node, as plain values: its name, its entries and its children.
pub uninterp spec fn kdl_node_view(node: kdl::KdlNode) -> NodeV;

/// The `kdl` crate's parser, `KdlDocument::from_str`.
///
/// Trusted: what it reads depends on the text alone (named `kdl_read`); the
/// nodes of the document it gives are those that `kdl_nodes` hands out.
#[verifier::external_body]
fn kdl_parse(text: &str) -> (r: Result<kdl::KdlDocument, kdl::KdlError>)
    ensures
        match r {
            Ok(d) => kdl_read(text@) == Some(kdl_document_nodes(d)),
            Err(_) => kdl_read(text@) is None,
        },
{
    text.parse::<kdl::KdlDocument>()
}

/// `KdlDocument::nodes`: the nodes of a document, in order. Trusted: each
/// node handed out is the corresponding node of `kdl_document_nodes`.
#[verifier::external_body]
fn kdl_nodes(doc: &kdl::KdlDocument) -> (r: &[kdl::KdlNode])
    ensures
        r@.len() == kdl_document_nodes(*doc).len(),
        forall|i: int| 0 <= i < r@.len() ==> kdl_node_view(#[trigger] r@[i]) == kdl_document_nodes(*doc)[i],
{
    doc.nodes()
}

/// `KdlNode::name`, as text. Trusted: it is the name in `kdl_node_view`.
#[verifier::external_body]
fn kdl_node_name(node: &kdl::KdlNode) -> (r: String)
    ensures
        r@ == kdl_node_view(*node).name,
{
    node.name().value().to_string()
}

/// The number of entries of a node (`KdlNode::entries`). Trusted: it is the
/// number of entries in `kdl_node_view`.
#[verifier::external_body]
fn kdl_entry_count(node: &kdl::KdlNode) -> (r: usize)
    ensures
        r == kdl_node_view(*node).entries.len(),
{
    node.entries().len()
}

/// `KdlNode::children`. Trusted: there is a children block exactly when
/// `kdl_node_view` has one, and its nodes are those of the view.
#[verifier::external_body]
fn kdl_node_children(node: &kdl::KdlNode) -> (r: Option<&kdl::KdlDocument>)
    ensures
        match r {
            Some(d) => kdl_node_view(*node).children == Some(kdl_document_nodes(*d)),
            None => kdl_node_view(*node).children is None,
        },
{
    node.children()
}

/// `KdlEntry::name` of entry `i` of a node, as text. Trusted: it is the key
/// of that entry in `kdl_node_view`.
#[verifier::external_body]
fn kdl_entry_name(node: &kdl::KdlNode, i: usize) -> (r: Option<String>)
    requires
        i < kdl_node_view(*node).entries.len(),
    ensures
        match r {
            Some(n) => kdl_node_view(*node).entries[i as int].name == Some(n@),
            None => kdl_node_view(*node).entries[i as int].name is None,
        },
{
    match node.entries()[i].name() {
        Some(id) => Some(id.value().to_string()),
        None => None,
    }
}

/// `KdlEntry::value` of entry `i` of a node, moved into the library's
/// `Value`: one arm per variant of `KdlValue`; a float becomes its `Display`
/// and `Debug` texts. Trusted: it is the value of that entry in
/// `kdl_node_view`.
#[verifier::external_body]
fn kdl_entry_value(node: &kdl::KdlNode, i: usize) -> (r: Value)
    requires
        i < kdl_node_view(*node).entries.len(),
    ensures
        r@ == kdl_node_view(*node).entries[i as int].value,
{
    match node.entries()[i].value() {
        kdl::KdlValue::String(s) => Value::Str(s.clone()),
        kdl::KdlValue::Integer(n) => Value::Integer(*n),
        kdl::KdlValue::Float(f) => Value::Float { text: f.to_string(), debug: format!("{:?}", f) },
        kdl::KdlValue::Bool(b) => Value::Bool(*b),
        kdl::KdlValue::Null => Value::Null,
    }
}

fn convert_entries(node: &kdl::KdlNode) -> (r: Vec<Entry>)
    ensures
        entry_views(r@) == kdl_node_view(*node).entries,
{
    let n = kdl_entry_count(node);
    let ghost model = kdl_node_view(*node).entries;
    let mut r: Vec<Entry> = Vec::new();
    for i in 0..n
        invariant
            n == model.len(),
            model == kdl_node_view(*node).entries,
            entry_views(r@) == model.take(i as int),
    {
        let entry = Entry { name: kdl_entry_name(node, i), value: kdl_entry_value(node, i) };
        let ghost before = r@;
        r.push(entry);
        proof {
            assert(entry@ == model[i as int]);
            assert(entry_views(r@) =~= entry_views(before).push(entry@));
            assert(model.take(i + 1) =~= model.take(i as int).push(model[i as int]));
        }
    }
    proof {
        assert(model.take(n as int) =~= model);
    }
    r
}

proof fn lemma_nodes_view_push(ns: Seq<Node>, n: Node)
    ensures
        nodes_view(ns.push(n)) == nodes_view(ns).push(node_view(n)),
{
    assert(ns.push(n).drop_last() =~= ns);
}

fn convert_document(doc: &kdl::KdlDocument) -> (r: Document)
    ensures
        r@ == kdl_document_nodes(*doc),
    decreases kdl_document_nodes(*doc),
{
    let nodes = kdl_nodes(doc);
    let ghost model = kdl_document_nodes(*doc);
    let mut r: Vec<Node> = Vec::new();
    for i in 0..nodes.len()
        invariant
            model == kdl_document_nodes(*doc),
            nodes@.len() == model.len(),
            forall|k: int| 0 <= k < nodes@.len() ==> kdl_node_view(#[trigger] nodes@[k]) == model[k],
            nodes_view(r@) == model.take(i as int),
    {
        proof {
            assert(kdl_node_view(nodes@[i as int]) == model[i as int]);
            assert(decreases_to!(model => model[i as int]));
        }
        let n = convert_node(&nodes[i]);
        let ghost before = r@;
        r.push(n);
        proof {
            lemma_nodes_view_push(before, n);
            assert(model.take(i + 1) =~= model.take(i as int).push(model[i as int]));
        }
    }
    proof {
        assert(model.take(model.len() as int) =~= model);
    }
    Document { nodes: r }
}

fn convert_node(node: &kdl::KdlNode) -> (r: Node)
    ensures
        r@ == kdl_node_view(*node),
    decreases kdl_node_view(*node),
{
    let children = match kdl_node_children(node) {
        Some(c) => {
            proof {
                let v = kdl_node_view(*node);
                assert(decreases_to!(v => v.children));
                assert(decreases_to!(v.children => v.children->Some_0));
            }
            Some(convert_document(c))
        },
        None => None,
    };
    Node { name: kdl_node_name(node), entries: convert_entries(node), children }
}

/// The view of a list of nodes holds the view of each node, in order.
pub proof fn lemma_nodes_view_index(ns: Seq<Node>)
    ensures
        nodes_view(ns).len() == ns.len(),
        forall|i: int| 0 <= i < ns.len() ==> #[trigger] nodes_view(ns)[i] == node_view(ns[i]),
    decreases ns.len(),
{
    if ns.len() > 0 {
        lemma_nodes_view_index(ns.drop_last());
        assert forall|i: int| 0 <= i < ns.len() implies #[trigger] nodes_view(ns)[i] == node_view(ns[i]) by {
            if i < ns.len() - 1 {
                assert(ns.drop_last()[i] == ns[i]);
            }
        }
    }
}

impl Document {
    /// Parses KDL text into the plain model: the document that the `kdl`
    /// crate reads from the text, or a syntax error when it reads none.
    pub fn parse(text: &str) -> (r: Result<Document, DoerError>)
        ensures
            match r {
                Ok(d) => kdl_read(text@) == Some(d@),
                Err(e) => kdl_read(text@) is None && e@ == crate::error::ErrorV::KdlSyntax,
            },
    {
        match kdl_parse(text) {
            Ok(doc) => Ok(convert_document(&doc)),
            Err(_) => Err(DoerError::KdlSyntax),
        }
    }

    /// The first node with the given name.
    pub fn get(&self, name: &str) -> (r: Option<&Node>)
        ensures
            match r {
                Some(n) => first_named(self@, name@) == Some(n@),
                None => first_named(self@, name@) is None,
            },
    {
        proof {
            lemma_nodes_view_index(self.nodes@);
        }
        let key = owned(name);
        for i in 0..self.nodes.len()
            invariant
                key@ == name@,
                nodes_view(self.nodes@).len() == self.nodes@.len(),
                forall|k: int| 0 <= k < self.nodes@.len() ==> #[trigger] nodes_view(self.nodes@)[k] == node_view(self.nodes@[k]),
                forall|j: int| 0 <= j < i ==> self@[j].name != name@,
        {
            if self.nodes[i].name == key {
                proof {
                    assert(self@[i as int].name == name@);
                    lemma_first_named_at(self@, name@, i as int);
                }
                return Some(&self.nodes[i]);
            }
        }
        proof {
            lemma_first_named_none(self@, name@);
        }
        None
    }
}

/// The first node of `nodes` with the given name.
pub open spec fn first_named(nodes: Seq<NodeV>, name: Seq<char>) -> Option<NodeV>
    decreases nodes.len(),
{
    if nodes.len() == 0 {
        None
    } else if nodes[0].name == name {
        Some(nodes[0])
    } else {
        first_named(nodes.drop_first(), name)
    }
}

proof fn lemma_first_named_at(nodes: Seq<NodeV>, name: Seq<char>, i: int)
    requires
        0 <= i < nodes.len(),
        nodes[i].name == name,
        forall|j: int| 0 <= j < i ==> nodes[j].name != name,
    ensures
        first_named(nodes, name) == Some(nodes[i]),
    decreases i,
{
    if i > 0 {
        lemma_first_named_at(nodes.drop_first(), name, i - 1);
    }
}

proof fn lemma_first_named_none(nodes: Seq<NodeV>, name: Seq<char>)
    requires
        forall|j: int| 0 <= j < nodes.len() ==> nodes[j].name != name,
    ensures
        first_named(nodes, name) is None,
    decreases nodes.len(),
{
    if nodes.len() > 0 {
        lemma_first_named_none(nodes.drop_first(), name);
    }
}

/// The nodes of `nodes` that have the given name, in order.
pub open spec fn nodes_named(nodes: Seq<NodeV>, name: Seq<char>) -> Seq<NodeV> {
    nodes.filter(|n: NodeV| n.name == name)
}

/// The text of an entry when it is a string.
pub open spec fn string_of(e: EntryV) -> Option<Seq<char>> {
    match e.value {
        ValueV::Str(s) => Some(s),
        _ => None,
    }
}

/// Accessors on a node.
pub trait KdlNodeExt {
    fn first_entry(&self) -> Option<&Entry>;

    fn first_string(&self) -> Option<&str>;
}

impl KdlNodeExt for Node {
    /// The first entry of the node.
    fn first_entry(&self) -> (r: Option<&Entry>)
        ensures
            match r {
                Some(e) => self@.entries.len() > 0 && e@ == self@.entries[0],
                None => self@.entries.len() == 0,
            },
    {
        if self.entries.len() > 0 {
            Some(&self.entries[0])
        } else {
            None
        }
    }

    /// The text of the first entry, when it is a string.
    fn first_string(&self) -> (r: Option<&str>)
        ensures
            match r {
                Some(s) => self@.entries.len() > 0 && string_of(self@.entries[0]) == Some(s@),
                None => self@.entries.len() == 0 || string_of(self@.entries[0]) is None,
            },
    {
        if self.entries.len() > 0 {
            self.entries[0].string_value()
        } else {
            None
        }
    }
}

/// Accessors on a document.
pub trait KdlDocumentExt {
    fn nodes_by_name(&self, name: &str) -> Vec<&Node>;
}

impl KdlDocumentExt for Document {
    /// The nodes with the given name, in order.
    fn nodes_by_name(&self, name: &str) -> (r: Vec<&Node>)
        ensures
            r@.len() == nodes_named(self@, name@).len(),
            forall|i: int| 0 <= i < r@.len() ==> r@[i]@ == nodes_named(self@, name@)[i],
    {
        proof {
            lemma_nodes_view_index(self.nodes@);
        }
        let key = owned(name);
        let ghost pred = |n: NodeV| n.name == name@;
        let ghost all = self@;
        let mut r: Vec<&Node> = Vec::new();
        for i in 0..self.nodes.len()
            invariant
                key@ == name@,
                pred == (|n: NodeV| n.name == name@),
                all == self@,
                all.len() == self.nodes@.len(),
                forall|k: int| 0 <= k < self.nodes@.len() ==> #[trigger] all[k] == node_view(self.nodes@[k]),
                r@.len() == all.take(i as int).filter(pred).len(),
                forall|k: int|
                    0 <= k < r@.len() ==> #[trigger] r@[k]@ == all.take(i as int).filter(pred)[k],
        {
            proof {
                reveal_with_fuel(Seq::<_>::filter, 1);
                assert(all.take(i + 1).drop_last() =~= all.take(i as int));
                assert(all.take(i + 1).last() == all[i as int]);
                assert(all[i as int] == node_view(self.nodes@[i as int]));
            }
            let ghost prev = r@;
            if self.nodes[i].name == key {
                r.push(&self.nodes[i]);
                proof {
                    assert(pred(all[i as int]));
                    assert(all.take(i + 1).filter(pred) == all.take(i as int).filter(pred).push(all[i as int]));
                    assert forall|k: int| 0 <= k < r@.len() implies r@[k]@ == all.take(i + 1).filter(pred)[k] by {
                        if k < prev.len() {
                            assert(r@[k] == prev[k]);
                            assert(prev[k]@ == all.take(i as int).filter(pred)[k]);
                        } else {
                            assert(r@[k] == &self.nodes@[i as int]);
                            assert(r@[k]@ == node_view(self.nodes@[i as int]));
                        }
                    }
                }
            } else {
                proof {
                    assert(!pred(all[i as int]));
                    assert(all.take(i + 1).filter(pred) == all.take(i as int).filter(pred));
                }
            }
        }
        proof {
            assert(all.take(all.len() as int) =~= all);
        }
        r
    }
}

/// Accessors on an entry.
pub trait KdlEntryExt {
    fn key(&self) -> Option<&str>;

    fn string_value(&self) -> Option<&str>;
}

impl KdlEntryExt for Entry {
    /// The key of the entry, when it is a property.
    fn key(&self) -> (r: Option<&str>)
        ensures
            match r {
                Some(k) => self@.name == Some(k@),
                None => self@.name is None,
            },
    {
        match &self.name {
            Some(n) => Some(n.as_str()),
            None => None,
        }
    }

    /// The text of the value, when it is a string.
    fn string_value(&self) -> (r: Option<&str>)
        ensures
            match r {
                Some(s) => string_of(self@) == Some(s@),
                None => string_of(self@) is None,
            },
    {
        match &self.value {
            Value::Str(s) => Some(s.as_str()),
            _ => None,
        }
    }
}

} // verus!
