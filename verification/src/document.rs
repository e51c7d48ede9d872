//! A document tree: the common shape of what the index format and the remote
//! host's answers hold, as plain values that the rest of the library reads.

use crate::decimal::{decimal, lemma_parse_of_decimal, parse_u64, parsed_u64, to_decimal};
use vstd::prelude::*;

verus! {

/// One value of a document.
#[derive(Debug)]
pub enum Node {
    /// A string.
    Text(String),
    /// A whole number.
    Integer(i128),
    /// A truth value.
    Flag(bool),
    /// An ordered list of values.
    List(Vec<Node>),
    /// Named values, in the order in which the document gives them.
    Table(Vec<Entry>),
    /// A value of a kind that no reader in this library uses.
    Other,
}

/// One named value of a table.
#[derive(Debug)]
pub struct Entry {
    pub key: String,
    pub value: Node,
}

/// The mathematical content of a [`Node`].
pub enum NodeView {
    Text(Seq<char>),
    Integer(int),
    Flag(bool),
    List(Seq<NodeView>),
    Table(Map<Seq<char>, NodeView>),
    Other,
}

/// The table that a run of named values makes: where a name occurs more than
/// once, its last value stands.
pub open spec fn table_of(pairs: Seq<(Seq<char>, NodeView)>) -> Map<Seq<char>, NodeView>
    decreases pairs.len(),
{
    if pairs.len() == 0 {
        Map::empty()
    } else {
        table_of(pairs.drop_last()).insert(pairs.last().0, pairs.last().1)
    }
}

/// The named values of a table node, each with its content, in the order of
/// the entries. Empty for a node of another kind.
pub open spec fn node_pairs(node: Node) -> Seq<(Seq<char>, NodeView)>
    decreases node, 0nat,
{
    match node {
        Node::Table(entries) => Seq::new(
            entries@.len(),
            |i: int|
                if 0 <= i < entries@.len() {
                    (entries@[i].key@, node_view(entries@[i].value))
                } else {
                    (Seq::empty(), NodeView::Other)
                },
        ),
        _ => Seq::empty(),
    }
}

/// The content of `node`.
pub open spec fn node_view(node: Node) -> NodeView
    decreases node, 1nat,
{
    match node {
        Node::Text(s) => NodeView::Text(s@),
        Node::Integer(i) => NodeView::Integer(i as int),
        Node::Flag(b) => NodeView::Flag(b),
        Node::List(items) => NodeView::List(
            Seq::new(
                items@.len(),
                |i: int|
                    if 0 <= i < items@.len() {
                        node_view(items@[i])
                    } else {
                        NodeView::Other
                    },
            ),
        ),
        Node::Table(entries) => NodeView::Table(table_of(node_pairs(node))),
        Node::Other => NodeView::Other,
    }
}

impl View for Node {
    type V = NodeView;

    open spec fn view(&self) -> NodeView {
        node_view(*self)
    }
}

/// The node that holds the number `n`: an integer where a signed 64-bit
/// integer can hold it, else its canonical numeral as text.
pub open spec fn number_node(n: u64) -> NodeView {
    if n <= i64::MAX {
        NodeView::Integer(n as int)
    } else {
        NodeView::Text(decimal(n as nat))
    }
}

impl NodeView {
    /// The value that a table gives the name `key`. `None` for other kinds
    /// of node and for a table without that name.
    pub open spec fn field(self, key: Seq<char>) -> Option<NodeView> {
        match self {
            NodeView::Table(entries) => if entries.dom().contains(key) {
                Some(entries[key])
            } else {
                None
            },
            _ => None,
        }
    }

    /// The string that a text node holds.
    pub open spec fn text(self) -> Option<Seq<char>> {
        match self {
            NodeView::Text(s) => Some(s),
            _ => None,
        }
    }

    /// The values that a list node holds.
    pub open spec fn items(self) -> Option<Seq<NodeView>> {
        match self {
            NodeView::List(items) => Some(items),
            _ => None,
        }
    }

    /// The unsigned 64-bit number that a node holds, written either as an
    /// integer in range or as a numeral in a string.
    pub open spec fn number(self) -> Option<u64> {
        match self {
            NodeView::Integer(v) => if 0 <= v <= u64::MAX {
                Some(v as u64)
            } else {
                None
            },
            NodeView::Text(s) => parsed_u64(s),
            _ => None,
        }
    }

    /// No part of the node is of an unused kind, and every integer in it fits
    /// a signed 64-bit integer.
    pub open spec fn plain(self) -> bool
        decreases self,
    {
        match self {
            NodeView::Text(_) => true,
            NodeView::Integer(v) => i64::MIN <= v <= i64::MAX,
            NodeView::Flag(_) => true,
            NodeView::List(items) => forall|i: int|
                0 <= i < items.len() ==> (#[trigger] items[i]).plain(),
            NodeView::Table(entries) => entries.dom().finite() && forall|k: Seq<char>|
                entries.dom().contains(k) ==> (#[trigger] entries[k]).plain(),
            NodeView::Other => false,
        }
    }
}

/// A number written by [`number_node`] is read back by [`NodeView::number`],
/// and the node is plain.
pub proof fn lemma_number_node(n: u64)
    ensures
        number_node(n).number() == Some(n),
        number_node(n).plain(),
{
    if n > i64::MAX {
        lemma_parse_of_decimal(n);
    }
}

/// Every part of the tree can be written: none is of an unused kind, and
/// every integer fits a signed 64-bit integer. This speaks of every entry of
/// a table, also of one that a later entry of the same name overrides.
pub open spec fn node_writable(node: Node) -> bool
    decreases node,
{
    match node {
        Node::Text(_) => true,
        Node::Integer(i) => i64::MIN <= i <= i64::MAX,
        Node::Flag(_) => true,
        Node::List(items) => forall|i: int|
            0 <= i < items@.len() ==> node_writable(#[trigger] items@[i]),
        Node::Table(entries) => forall|i: int|
            0 <= i < entries@.len() ==> node_writable((#[trigger] entries@[i]).value),
        Node::Other => false,
    }
}

/// The named values of a table's entries, each with its content.
pub open spec fn entry_pairs(entries: Seq<Entry>) -> Seq<(Seq<char>, NodeView)> {
    Seq::new(entries.len(), |i: int| (entries[i].key@, entries[i].value@))
}

/// The content of a table node is the table that its entries make.
pub proof fn lemma_table_view(entries: Vec<Entry>)
    ensures
        Node::Table(entries)@ == NodeView::Table(table_of(entry_pairs(entries@))),
{
    assert(node_pairs(Node::Table(entries)) =~= entry_pairs(entries@));
}

/// The content of a list node is the contents of its items.
pub proof fn lemma_list_view(items: Vec<Node>)
    ensures
        Node::List(items)@ == NodeView::List(Seq::new(items@.len(), |i: int| items@[i]@)),
{
    assert(Node::List(items)@->List_0 =~= Seq::new(items@.len(), |i: int| items@[i]@));
}

/// One more named value at the end of a run overrides what the table held
/// under that name.
pub proof fn lemma_table_of_push(pairs: Seq<(Seq<char>, NodeView)>, key: Seq<char>, value: NodeView)
    ensures
        table_of(pairs.push((key, value))) == table_of(pairs).insert(key, value),
{
    assert(pairs.push((key, value)).drop_last() =~= pairs);
}

/// A table made of a run of named values is finite, every name of the run is
/// in it, and each of its values is the value of some entry of the run under
/// that name.
pub proof fn lemma_table_of_members(pairs: Seq<(Seq<char>, NodeView)>)
    ensures
        table_of(pairs).dom().finite(),
        forall|i: int| 0 <= i < pairs.len() ==> table_of(pairs).dom().contains(#[trigger] pairs[i].0),
        forall|k: Seq<char>| #[trigger]
            table_of(pairs).dom().contains(k) ==> exists|i: int|
                0 <= i < pairs.len() && #[trigger] pairs[i] == (k, table_of(pairs)[k]),
    decreases pairs.len(),
{
    if pairs.len() > 0 {
        let init = pairs.drop_last();
        lemma_table_of_members(init);
        let table = table_of(pairs);
        assert forall|i: int| 0 <= i < pairs.len() implies table.dom().contains(
            #[trigger] pairs[i].0,
        ) by {
            if i < init.len() {
                assert(init[i] == pairs[i]);
            }
        }
        assert forall|k: Seq<char>| #[trigger] table.dom().contains(k) implies exists|i: int|
            0 <= i < pairs.len() && #[trigger] pairs[i] == (k, table[k]) by {
            if k == pairs.last().0 {
                assert(pairs[pairs.len() - 1] == (k, table[k]));
            } else {
                assert(table_of(init).dom().contains(k));
                let i = choose|i: int| 0 <= i < init.len() && #[trigger] init[i] == (k, table_of(init)[k]);
                assert(pairs[i] == init[i]);
            }
        }
    }
}

impl Node {
    /// The entries of a table node.
    pub fn as_table<'a>(&'a self) -> (r: Option<&'a Vec<Entry>>)
        ensures
            match r {
                Some(entries) => self@ == NodeView::Table(table_of(entry_pairs(entries@))),
                None => !(self@ is Table),
            },
    {
        match self {
            Node::Table(entries) => {
                proof {
                    lemma_table_view(*entries);
                }
                Some(entries)
            },
            _ => None,
        }
    }

    /// The value that a table gives the name `key`.
    pub fn get<'a>(&'a self, key: &String) -> (r: Option<&'a Node>)
        ensures
            match r {
                Some(found) => self@.field(key@) == Some(found@),
                None => self@.field(key@) is None,
            },
    {
        match self {
            Node::Table(entries) => {
                let ghost pairs = entry_pairs(entries@);
                proof {
                    lemma_table_view(*entries);
                    assert(pairs.take(pairs.len() as int) =~= pairs);
                }
                let mut i: usize = entries.len();
                while i > 0
                    invariant
                        0 <= i <= entries.len(),
                        pairs == entry_pairs(entries@),
                        self@ == NodeView::Table(table_of(pairs)),
                        self@.field(key@) == NodeView::Table(table_of(pairs.take(i as int))).field(
                            key@,
                        ),
                    decreases i,
                {
                    i = i - 1;
                    proof {
                        assert(pairs.take(i + 1).drop_last() =~= pairs.take(i as int));
                        assert(pairs.take(i + 1).last() == pairs[i as int]);
                    }
                    if entries[i].key == *key {
                        return Some(&entries[i].value);
                    }
                }
                assert(pairs.take(0).len() == 0);
                None
            },
            _ => None,
        }
    }

    /// The string that a text node holds.
    pub fn as_text<'a>(&'a self) -> (r: Option<&'a String>)
        ensures
            match r {
                Some(s) => self@.text() == Some(s@),
                None => self@.text() is None,
            },
    {
        match self {
            Node::Text(s) => Some(s),
            _ => None,
        }
    }

    /// The values that a list node holds.
    pub fn as_list<'a>(&'a self) -> (r: Option<&'a Vec<Node>>)
        ensures
            match r {
                Some(items) => self@.items() == Some(Seq::new(items@.len(), |i: int| items@[i]@)),
                None => self@.items() is None,
            },
    {
        match self {
            Node::List(items) => {
                proof {
                    lemma_list_view(*items);
                }
                Some(items)
            },
            _ => None,
        }
    }

    /// The unsigned 64-bit number that a node holds, written either as an
    /// integer in range or as a numeral in a string.
    pub fn as_u64(&self) -> (r: Option<u64>)
        ensures
            r == self@.number(),
    {
        match self {
            Node::Integer(v) => {
                if 0 <= *v && *v <= u64::MAX as i128 {
                    Some(*v as u64)
                } else {
                    None
                }
            },
            Node::Text(s) => parse_u64(s.as_str()),
            _ => None,
        }
    }

    /// The node that holds the number `n`.
    pub fn from_u64(n: u64) -> (r: Node)
        ensures
            r@ == number_node(n),
            node_writable(r),
    {
        if n <= i64::MAX as u64 {
            Node::Integer(n as i128)
        } else {
            Node::Text(to_decimal(n))
        }
    }

    /// The text node that holds a copy of `s`.
    pub fn from_text(s: &str) -> (r: Node)
        ensures
            r@ == NodeView::Text(s@),
            node_writable(r),
    {
        Node::Text(s.to_owned())
    }
}

} // verus!
