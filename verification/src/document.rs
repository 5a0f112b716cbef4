//! The configuration document: a tree of YAML nodes.
//!
//! `Node` holds what a parsed document holds, as plain values, so that the
//! rules that read a configuration can be stated over it. The parsing itself
//! is `yaml_rust`'s.

use vstd::prelude::*;
use crate::error::MyError;

verus! {

/// One node of a parsed document.
#[derive(Debug)]
pub enum Node {
    /// A real number, kept as the text that writes it.
    Real(String),
    /// An integer scalar.
    Integer(i64),
    /// A text scalar.
    Text(String),
    /// `true` or `false`.
    Boolean(bool),
    /// A sequence of nodes.
    Sequence(Vec<Node>),
    /// A mapping, as its entries in document order. Of two entries with one
    /// key the later one counts.
    Mapping(Vec<(Node, Node)>),
    /// A reference to an anchor.
    Alias(usize),
    /// `null` or `~`.
    Null,
    /// What stands where no value could be read.
    BadValue,
}

/// What a `Node` holds, as a mathematical value.
pub enum NodeView {
    Real(Seq<char>),
    Integer(i64),
    Text(Seq<char>),
    Boolean(bool),
    Sequence(Seq<NodeView>),
    Mapping(Seq<(NodeView, NodeView)>),
    Alias(usize),
    Null,
    BadValue,
}

impl View for Node {
    type V = NodeView;

    open spec fn view(&self) -> NodeView
        decreases self,
    {
        match self {
            Node::Real(text) => NodeView::Real(text@),
            Node::Integer(value) => NodeView::Integer(*value),
            Node::Text(text) => NodeView::Text(text@),
            Node::Boolean(value) => NodeView::Boolean(*value),
            Node::Sequence(items) => NodeView::Sequence(
                Seq::new(
                    items@.len(),
                    |i: int|
                        if 0 <= i < items@.len() {
                            items@[i].view()
                        } else {
                            NodeView::BadValue
                        },
                ),
            ),
            Node::Mapping(entries) => NodeView::Mapping(
                Seq::new(
                    entries@.len(),
                    |i: int|
                        if 0 <= i < entries@.len() {
                            (entries@[i].0.view(), entries@[i].1.view())
                        } else {
                            (NodeView::BadValue, NodeView::BadValue)
                        },
                ),
            ),
            Node::Alias(anchor) => NodeView::Alias(*anchor),
            Node::Null => NodeView::Null,
            Node::BadValue => NodeView::BadValue,
        }
    }
}

impl NodeView {
    /// The text of a text scalar.
    pub open spec fn text(self) -> Option<Seq<char>> {
        match self {
            NodeView::Text(text) => Some(text),
            _ => None,
        }
    }

    /// The items of a sequence.
    pub open spec fn items(self) -> Option<Seq<NodeView>> {
        match self {
            NodeView::Sequence(items) => Some(items),
            _ => None,
        }
    }

    /// The entries of a mapping, in document order.
    pub open spec fn entries(self) -> Option<Seq<(NodeView, NodeView)>> {
        match self {
            NodeView::Mapping(entries) => Some(entries),
            _ => None,
        }
    }

    /// Whether `self` is a mapping with an entry under the text key `key`.
    pub open spec fn has_child(self, key: Seq<char>) -> bool {
        match self {
            NodeView::Mapping(entries) => exists|i: int|
                0 <= i < entries.len() && (#[trigger] entries[i]).0 == NodeView::Text(key),
            _ => false,
        }
    }

    /// The value that a mapping holds under the text key `key`; `BadValue`
    /// where `self` is no mapping or holds no such key.
    pub open spec fn child(self, key: Seq<char>) -> NodeView {
        match self {
            NodeView::Mapping(entries) => value_under(entries, key),
            _ => NodeView::BadValue,
        }
    }
}

/// The value of the last of `entries` whose key is the text `key`;
/// `BadValue` where there is none.
pub open spec fn value_under(entries: Seq<(NodeView, NodeView)>, key: Seq<char>) -> NodeView
    decreases entries.len(),
{
    if entries.len() == 0 {
        NodeView::BadValue
    } else if entries.last().0 == NodeView::Text(key) {
        entries.last().1
    } else {
        value_under(entries.drop_last(), key)
    }
}

impl Node {
    /// The text of a text scalar, `None` for any other node.
    pub fn as_str(&self) -> (text: Option<&str>)
        ensures
            self@.text() is Some <==> text is Some,
            text matches Some(t) ==> self@.text() == Some(t@),
    {
        match self {
            Node::Text(text) => Some(text.as_str()),
            _ => None,
        }
    }

    /// The items of a sequence, `None` for any other node.
    pub fn as_vec(&self) -> (items: Option<&Vec<Node>>)
        ensures
            self@.items() is Some <==> items is Some,
            items matches Some(v) ==> self@.items() == Some(nodes_view(v@)),
    {
        match self {
            Node::Sequence(items) => {
                proof {
                    lemma_view_of_sequence(*self);
                }
                Some(items)
            },
            _ => None,
        }
    }

    /// The entries of a mapping, `None` for any other node.
    pub fn as_hash(&self) -> (entries: Option<&Vec<(Node, Node)>>)
        ensures
            self@.entries() is Some <==> entries is Some,
            entries matches Some(v) ==> self@.entries() == Some(entries_view(v@)),
    {
        match self {
            Node::Mapping(entries) => {
                proof {
                    lemma_view_of_mapping(*self);
                }
                Some(entries)
            },
            _ => None,
        }
    }

    /// The value that a mapping holds under the text key `key`, `None` where
    /// `self` is no mapping or holds no such key.
    pub fn get(&self, key: &str) -> (value: Option<&Node>)
        ensures
            value is Some <==> self@.has_child(key@),
            value matches Some(node) ==> node@ == self@.child(key@),
            value is None ==> self@.child(key@) == NodeView::BadValue,
    {
        match self.as_hash() {
            None => None,
            Some(entries) => {
                let ghost all = entries_view(entries@);
                assert(all.take(all.len() as int) =~= all);
                let wanted = key.to_owned();
                let mut i: usize = entries.len();
                while i > 0
                    invariant
                        i <= entries@.len(),
                        all == entries_view(entries@),
                        wanted@ == key@,
                        self@.entries() == Some(all),
                        forall|j: int|
                            i <= j < all.len() ==> (#[trigger] all[j]).0 != NodeView::Text(key@),
                        self@.child(key@) == value_under(all.take(i as int), key@),
                    decreases i,
                {
                    i -= 1;
                    let ghost front = all.take(i + 1);
                    assert(front.last() == all[i as int]);
                    assert(front.drop_last() =~= all.take(i as int));
                    if let Node::Text(text) = &entries[i].0 {
                        if *text == wanted {
                            assert(all[i as int].0 == NodeView::Text(key@));
                            return Some(&entries[i].1);
                        }
                    }
                    assert(all[i as int].0 != NodeView::Text(key@));
                }
                None
            },
        }
    }
}

/// What a vector of nodes holds.
pub open spec fn nodes_view(nodes: Seq<Node>) -> Seq<NodeView> {
    Seq::new(nodes.len(), |i: int| nodes[i]@)
}

/// What the entries of a mapping hold.
pub open spec fn entries_view(entries: Seq<(Node, Node)>) -> Seq<(NodeView, NodeView)> {
    Seq::new(entries.len(), |i: int| (entries[i].0@, entries[i].1@))
}

/// A sequence node holds the views of its items.
pub proof fn lemma_view_of_sequence(node: Node)
    requires
        node is Sequence,
    ensures
        node@ == NodeView::Sequence(nodes_view(node->Sequence_0@)),
{
    reveal_with_fuel(<Node as View>::view, 2);
    assert(node@->Sequence_0 =~= nodes_view(node->Sequence_0@));
}

/// A mapping node holds the views of its entries.
pub proof fn lemma_view_of_mapping(node: Node)
    requires
        node is Mapping,
    ensures
        node@ == NodeView::Mapping(entries_view(node->Mapping_0@)),
{
    reveal_with_fuel(<Node as View>::view, 2);
    assert(node@->Mapping_0 =~= entries_view(node->Mapping_0@));
}

/// The node type of `yaml_rust`, as the parser hands it out. It is only
/// carried from the parser to `node_from_yaml`.
#[verifier::external_type_specification]
#[verifier::external_body]
pub struct ExYaml(yaml_rust::Yaml);

/// What `yaml_rust::YamlLoader::load_from_str` makes of a text: the
/// documents that the text holds, in order, or the message of the scan error
/// with which it refuses the text.
pub uninterp spec fn yaml_documents(text: Seq<char>) -> Result<Seq<NodeView>, Seq<char>>;

/// One node of `yaml_rust` as a `Node`: the same variant with the same
/// contents, the entries of a mapping in the order in which the parser
/// keeps them.
///
/// Trusted: the body only moves each variant's fields over. Nothing is
/// claimed of the result here; `parse_documents` names it.
#[verifier::external_body]
fn node_from_yaml(yaml: &yaml_rust::Yaml) -> Node {
    match yaml {
        yaml_rust::Yaml::Real(text) => Node::Real(text.clone()),
        yaml_rust::Yaml::Integer(value) => Node::Integer(*value),
        yaml_rust::Yaml::String(text) => Node::Text(text.clone()),
        yaml_rust::Yaml::Boolean(value) => Node::Boolean(*value),
        yaml_rust::Yaml::Array(items) => Node::Sequence(items.iter().map(node_from_yaml).collect()),
        yaml_rust::Yaml::Hash(entries) => Node::Mapping(
            entries.iter().map(|(k, v)| (node_from_yaml(k), node_from_yaml(v))).collect(),
        ),
        yaml_rust::Yaml::Alias(anchor) => Node::Alias(*anchor),
        yaml_rust::Yaml::Null => Node::Null,
        yaml_rust::Yaml::BadValue => Node::BadValue,
    }
}

/// Parses `text` as YAML.
///
/// Trusted: the body calls `yaml_rust::YamlLoader::load_from_str` and hands
/// back its documents as `Node`s, or the text of its scan error. The
/// contract only gives that result its name: the parser reads nothing but
/// `text`, so the same text always gives the same documents.
#[verifier::external_body]
fn parse_documents(text: &str) -> (parsed: Result<Vec<Node>, String>)
    ensures
        match parsed {
            Ok(documents) => yaml_documents(text@) == Ok::<Seq<NodeView>, Seq<char>>(
                nodes_view(documents@),
            ),
            Err(message) => yaml_documents(text@) == Err::<Seq<NodeView>, Seq<char>>(message@),
        },
{
    match yaml_rust::YamlLoader::load_from_str(text) {
        Ok(documents) => Ok(documents.iter().map(node_from_yaml).collect()),
        Err(error) => Err(error.to_string()),
    }
}

/// The documents that the YAML text `text` holds, or the parser's complaint
/// as an error.
pub fn load_yaml(text: &str) -> (loaded: Result<Vec<Node>, MyError>)
    ensures
        match loaded {
            Ok(documents) => yaml_documents(text@) == Ok::<Seq<NodeView>, Seq<char>>(
                nodes_view(documents@),
            ),
            Err(error) => yaml_documents(text@) == Err::<Seq<NodeView>, Seq<char>>(error@),
        },
{
    match parse_documents(text) {
        Ok(documents) => Ok(documents),
        Err(message) => Err(MyError::new(message.as_str())),
    }
}

} // verus!
