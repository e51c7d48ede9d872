//! The index: the manifest that says how a stored file is put together again
//! and how it is erased, and the document format in which it is kept.

use crate::document::{
    entry_pairs, lemma_list_view, lemma_number_node, lemma_table_of_push, lemma_table_view,
    node_writable, number_node, Entry, Node, NodeView,
};
use crate::error::TransferError;
use crate::toml_format::{
    node_of_toml, read_toml, toml_document, toml_of_node, toml_text, write_toml,
};
use vstd::prelude::*;

verus! {

/// Where one chunk of the file went.
#[derive(Debug)]
pub struct PartRef {
    /// The chunk's position in the file, counted from zero.
    pub sequence: u64,
    /// The key under which the remote host erases the chunk's object.
    pub remote_id: u64,
    /// The address from which the chunk's bytes are fetched.
    pub remote_locator: String,
}

/// The mathematical content of a [`PartRef`].
pub struct PartRefView {
    pub sequence: u64,
    pub remote_id: u64,
    pub remote_locator: Seq<char>,
}

impl View for PartRef {
    type V = PartRefView;

    open spec fn view(&self) -> PartRefView {
        PartRefView {
            sequence: self.sequence,
            remote_id: self.remote_id,
            remote_locator: self.remote_locator@,
        }
    }
}

/// The manifest of a stored file.
#[derive(Debug)]
pub struct Index {
    /// The name that the file had when it was stored.
    pub name: String,
    /// The file's length in bytes.
    pub size: u64,
    /// The file's chunks, in the order in which they were stored.
    pub parts: Vec<PartRef>,
}

/// The mathematical content of an [`Index`].
pub struct IndexView {
    pub name: Seq<char>,
    pub size: u64,
    pub parts: Seq<PartRefView>,
}

/// The contents of a run of parts.
pub open spec fn parts_view(parts: Seq<PartRef>) -> Seq<PartRefView> {
    Seq::new(parts.len(), |i: int| parts[i]@)
}

impl View for Index {
    type V = IndexView;

    open spec fn view(&self) -> IndexView {
        IndexView { name: self.name@, size: self.size, parts: parts_view(self.parts@) }
    }
}

/// The parts are numbered `0, 1, 2, ...` in the order in which they stand.
pub open spec fn numbered(parts: Seq<PartRefView>) -> bool {
    forall|i: int| 0 <= i < parts.len() ==> (#[trigger] parts[i]).sequence == i
}

impl IndexView {
    /// The index has at least one part, and its parts are numbered without
    /// gap or repetition from zero, in order.
    pub open spec fn valid(self) -> bool {
        self.parts.len() >= 1 && numbered(self.parts)
    }
}

/// The name under which a document holds the file's name.
pub open spec fn key_name() -> Seq<char> {
    "name"@
}

/// The name under which a document holds the file's length.
pub open spec fn key_size() -> Seq<char> {
    "size"@
}

/// The name under which a document holds the list of parts.
pub open spec fn key_parts() -> Seq<char> {
    "parts"@
}

/// The name under which a part holds its position.
pub open spec fn key_sequence() -> Seq<char> {
    "sequence"@
}

/// The name under which a part holds its erase key.
pub open spec fn key_remote_id() -> Seq<char> {
    "remote_id"@
}

/// The name under which a part holds its fetch address.
pub open spec fn key_remote_locator() -> Seq<char> {
    "remote_locator"@
}

/// The names of an index document differ from each other, and so do the
/// names of a part.
pub proof fn lemma_keys_differ()
    ensures
        key_name() != key_size(),
        key_name() != key_parts(),
        key_size() != key_parts(),
        key_sequence() != key_remote_id(),
        key_sequence() != key_remote_locator(),
        key_remote_id() != key_remote_locator(),
{
    reveal_strlit("name");
    reveal_strlit("size");
    reveal_strlit("parts");
    reveal_strlit("sequence");
    reveal_strlit("remote_id");
    reveal_strlit("remote_locator");
    assert(key_name()[0] == 'n');
    assert(key_size()[0] == 's');
    assert(key_parts()[0] == 'p');
    assert(key_sequence()[0] == 's');
    assert(key_remote_id()[0] == 'r');
    assert(key_remote_id().len() == 9);
    assert(key_remote_locator().len() == 14);
}

/// The document form of a part: a table of its three fields.
pub open spec fn part_node(part: PartRefView) -> NodeView {
    NodeView::Table(
        Map::empty().insert(key_sequence(), number_node(part.sequence)).insert(
            key_remote_id(),
            number_node(part.remote_id),
        ).insert(key_remote_locator(), NodeView::Text(part.remote_locator)),
    )
}

/// The document form of an index: a table of the name, the length and the
/// list of parts.
pub open spec fn index_node(index: IndexView) -> NodeView {
    NodeView::Table(
        Map::empty().insert(key_name(), NodeView::Text(index.name)).insert(
            key_size(),
            number_node(index.size),
        ).insert(
            key_parts(),
            NodeView::List(Seq::new(index.parts.len(), |i: int| part_node(index.parts[i]))),
        ),
    )
}

/// The part that a document node holds at `position` of the list: a table
/// with a position equal to `position`, an erase key and a fetch address.
/// Names beyond these three are passed over.
pub open spec fn node_part(node: NodeView, position: int) -> Option<PartRefView> {
    match (
        node.field(key_sequence()),
        node.field(key_remote_id()),
        node.field(key_remote_locator()),
    ) {
        (Some(sequence), Some(remote_id), Some(remote_locator)) => match (
            sequence.number(),
            remote_id.number(),
            remote_locator.text(),
        ) {
            (Some(sequence), Some(remote_id), Some(remote_locator)) => if sequence == position {
                Some(PartRefView { sequence, remote_id, remote_locator })
            } else {
                None
            },
            _ => None,
        },
        _ => None,
    }
}

/// The parts that a list of document nodes holds, if every node holds the
/// part of its position.
pub open spec fn node_parts(items: Seq<NodeView>) -> Option<Seq<PartRefView>> {
    if forall|i: int| 0 <= i < items.len() ==> (#[trigger] node_part(items[i], i)) is Some {
        Some(Seq::new(items.len(), |i: int| node_part(items[i], i).unwrap()))
    } else {
        None
    }
}

/// The index that a document holds: a table with a name that is a string, a
/// length that is a number and a non-empty list of parts, each in its
/// position. Names beyond these three are passed over. `None` for any other
/// document.
pub open spec fn node_index(node: NodeView) -> Option<IndexView> {
    match (node.field(key_name()), node.field(key_size()), node.field(key_parts())) {
        (Some(name), Some(size), Some(parts)) => match (name.text(), size.number(), parts.items()) {
            (Some(name), Some(size), Some(items)) => match node_parts(items) {
                Some(parts) => if parts.len() >= 1 {
                    Some(IndexView { name, size, parts })
                } else {
                    None
                },
                None => None,
            },
            _ => None,
        },
        _ => None,
    }
}

/// What reading an index from a document gives.
pub open spec fn decoded(document: Option<NodeView>) -> Result<IndexView, TransferError> {
    match document {
        Some(node) => match node_index(node) {
            Some(index) => Ok(index),
            None => Err(TransferError::CorruptIndex),
        },
        None => Err(TransferError::CorruptIndex),
    }
}

/// A part's document form is plain, and reading it at the part's own
/// position gives the part back.
pub proof fn lemma_part_round_trip(part: PartRefView)
    ensures
        part_node(part).plain(),
        node_part(part_node(part), part.sequence as int) == Some(part),
{
    lemma_keys_differ();
    lemma_number_node(part.sequence);
    lemma_number_node(part.remote_id);
    let table = part_node(part)->Table_0;
    assert(table.dom() =~= set![key_sequence(), key_remote_id(), key_remote_locator()]);
    assert forall|k: Seq<char>| table.dom().contains(k) implies (#[trigger] table[k]).plain() by {}
}

/// Round trip: the document form of an index is plain, and reading a valid
/// index from its own document form gives exactly that index back.
pub proof fn lemma_index_round_trip(index: IndexView)
    ensures
        index_node(index).plain(),
        index.valid() ==> node_index(index_node(index)) == Some(index),
{
    lemma_keys_differ();
    lemma_number_node(index.size);
    let items = Seq::new(index.parts.len(), |i: int| part_node(index.parts[i]));
    assert forall|i: int| 0 <= i < items.len() implies (#[trigger] items[i]).plain() by {
        lemma_part_round_trip(index.parts[i]);
    }
    let table = index_node(index)->Table_0;
    assert(table.dom() =~= set![key_name(), key_size(), key_parts()]);
    assert(table[key_parts()] == NodeView::List(items));
    assert forall|k: Seq<char>| table.dom().contains(k) implies (#[trigger] table[k]).plain() by {}
    if index.valid() {
        assert forall|i: int| 0 <= i < items.len() implies (#[trigger] node_part(items[i], i))
            == Some(index.parts[i]) by {
            lemma_part_round_trip(index.parts[i]);
        }
        assert(node_parts(items).unwrap() =~= index.parts);
    }
}

/// The text of an index that is fit to be stored: the text that the writer
/// gives for the index's document form, where the reader reads that very
/// index from it again. `None` where the writer refuses the document or the
/// text does not read back as the index.
pub open spec fn checked_text(index: IndexView) -> Option<Seq<char>> {
    match toml_text(index_node(index)) {
        Some(text) => if decoded(toml_document(text)) == Ok::<IndexView, TransferError>(index) {
            Some(text)
        } else {
            None
        },
        None => None,
    }
}

/// Whatever document an index is read from, the index is valid.
pub proof fn lemma_decoded_is_valid(node: NodeView)
    ensures
        node_index(node) matches Some(index) ==> index.valid(),
{
    if let Some(index) = node_index(node) {
        let items = node.field(key_parts()).unwrap().items().unwrap();
        assert forall|i: int| 0 <= i < index.parts.len() implies (#[trigger] index.parts[i]).sequence
            == i by {
            assert(node_part(items[i], i) is Some);
        }
    }
}

impl PartRef {
    /// The part's document form.
    pub fn to_node(&self) -> (r: Node)
        ensures
            r@ == part_node(self@),
            r@.plain(),
            node_writable(r),
    {
        let mut entries: Vec<Entry> = Vec::new();
        entries.push(Entry { key: "sequence".to_owned(), value: Node::from_u64(self.sequence) });
        entries.push(Entry { key: "remote_id".to_owned(), value: Node::from_u64(self.remote_id) });
        entries.push(
            Entry {
                key: "remote_locator".to_owned(),
                value: Node::from_text(self.remote_locator.as_str()),
            },
        );
        proof {
            lemma_table_view(entries);
            let pairs = entry_pairs(entries@);
            let none = Seq::<(Seq<char>, NodeView)>::empty();
            lemma_table_of_push(none, pairs[0].0, pairs[0].1);
            lemma_table_of_push(none.push(pairs[0]), pairs[1].0, pairs[1].1);
            lemma_table_of_push(none.push(pairs[0]).push(pairs[1]), pairs[2].0, pairs[2].1);
            assert(pairs =~= none.push(pairs[0]).push(pairs[1]).push(pairs[2]));
            lemma_part_round_trip(self@);
            assert forall|i: int| 0 <= i < entries@.len() implies node_writable(
                (#[trigger] entries@[i]).value,
            ) by {
                assert(i == 0 || i == 1 || i == 2);
            }
        }
        Node::Table(entries)
    }

    /// Reads the part that a document node holds at `position` of the list.
    pub fn from_node(node: &Node, position: u64) -> (r: Option<PartRef>)
        ensures
            match r {
                Some(part) => node_part(node@, position as int) == Some(part@),
                None => node_part(node@, position as int) is None,
            },
    {
        let sequence = match node.get(&"sequence".to_owned()) {
            Some(found) => found.as_u64(),
            None => None,
        };
        let remote_id = match node.get(&"remote_id".to_owned()) {
            Some(found) => found.as_u64(),
            None => None,
        };
        let remote_locator = match node.get(&"remote_locator".to_owned()) {
            Some(found) => found.as_text(),
            None => None,
        };
        match (sequence, remote_id, remote_locator) {
            (Some(sequence), Some(remote_id), Some(remote_locator)) => {
                if sequence == position {
                    Some(PartRef { sequence, remote_id, remote_locator: remote_locator.clone() })
                } else {
                    None
                }
            },
            _ => None,
        }
    }
}

impl Index {
    /// The index's document form.
    pub fn to_node(&self) -> (r: Node)
        ensures
            r@ == index_node(self@),
            r@.plain(),
            node_writable(r),
    {
        let mut items: Vec<Node> = Vec::new();
        let mut i: usize = 0;
        while i < self.parts.len()
            invariant
                0 <= i <= self.parts.len(),
                items@.len() == i,
                forall|j: int| 0 <= j < i ==> (#[trigger] items@[j])@ == part_node(self.parts@[j]@),
                forall|j: int| 0 <= j < i ==> node_writable(#[trigger] items@[j]),
            decreases self.parts.len() - i,
        {
            items.push(self.parts[i].to_node());
            i = i + 1;
        }
        let list = Node::List(items);
        proof {
            lemma_list_view(items);
            assert(list@->List_0 =~= Seq::new(
                self@.parts.len(),
                |i: int| part_node(self@.parts[i]),
            ));
        }
        let mut entries: Vec<Entry> = Vec::new();
        entries.push(Entry { key: "name".to_owned(), value: Node::from_text(self.name.as_str()) });
        entries.push(Entry { key: "size".to_owned(), value: Node::from_u64(self.size) });
        entries.push(Entry { key: "parts".to_owned(), value: list });
        proof {
            lemma_table_view(entries);
            let pairs = entry_pairs(entries@);
            let none = Seq::<(Seq<char>, NodeView)>::empty();
            lemma_table_of_push(none, pairs[0].0, pairs[0].1);
            lemma_table_of_push(none.push(pairs[0]), pairs[1].0, pairs[1].1);
            lemma_table_of_push(none.push(pairs[0]).push(pairs[1]), pairs[2].0, pairs[2].1);
            assert(pairs =~= none.push(pairs[0]).push(pairs[1]).push(pairs[2]));
            lemma_index_round_trip(self@);
            assert forall|i: int| 0 <= i < entries@.len() implies node_writable(
                (#[trigger] entries@[i]).value,
            ) by {
                assert(i == 0 || i == 1 || i == 2);
            }
        }
        Node::Table(entries)
    }

    /// Reads the index that a document holds. Fails with `CorruptIndex`
    /// exactly when the document holds none.
    #[verifier::loop_isolation(false)]
    pub fn from_node(node: &Node) -> (r: Result<Index, TransferError>)
        ensures
            match r {
                Ok(index) => node_index(node@) == Some(index@) && index@.valid(),
                Err(e) => e == TransferError::CorruptIndex && node_index(node@) is None,
            },
    {
        let name = match node.get(&"name".to_owned()) {
            Some(found) => found.as_text(),
            None => None,
        };
        let size = match node.get(&"size".to_owned()) {
            Some(found) => found.as_u64(),
            None => None,
        };
        let items = match node.get(&"parts".to_owned()) {
            Some(found) => found.as_list(),
            None => None,
        };
        match (name, size, items) {
            (Some(name), Some(size), Some(items)) => {
                let ghost nodes = Seq::new(items@.len(), |i: int| items@[i]@);
                let mut parts: Vec<PartRef> = Vec::new();
                let mut i: usize = 0;
                while i < items.len()
                    invariant
                        0 <= i <= items.len(),
                        parts@.len() == i,
                        nodes == Seq::new(items@.len(), |i: int| items@[i]@),
                        forall|j: int|
                            0 <= j < i ==> (#[trigger] node_part(nodes[j], j)) == Some(parts@[j]@),
                    decreases items.len() - i,
                {
                    match PartRef::from_node(&items[i], i as u64) {
                        Some(part) => {
                            parts.push(part);
                        },
                        None => {
                            assert(node_part(nodes[i as int], i as int) is None);
                            return Err(TransferError::CorruptIndex);
                        },
                    }
                    i = i + 1;
                }
                if parts.len() == 0 {
                    return Err(TransferError::CorruptIndex);
                }
                let index = Index { name: name.clone(), size, parts };
                proof {
                    assert(node_parts(nodes).unwrap() =~= index@.parts);
                    lemma_decoded_is_valid(node@);
                }
                Ok(index)
            },
            _ => Err(TransferError::CorruptIndex),
        }
    }

    /// Writes the index as a document of text. `None` only where the writer
    /// refuses the document.
    pub fn serialize(&self) -> (r: Option<String>)
        ensures
            match r {
                Some(text) => toml_text(index_node(self@)) == Some(text@),
                None => toml_text(index_node(self@)) is None,
            },
    {
        let node = self.to_node();
        match toml_of_node(&node) {
            Some(value) => match write_toml(&value) {
                Ok(text) => Some(text),
                Err(_) => None,
            },
            None => None,
        }
    }

    /// The two indices hold the same: the same name, the same size, and the
    /// same parts in the same order.
    pub fn same(&self, other: &Index) -> (r: bool)
        ensures
            r == (self@ == other@),
    {
        assert(self@.parts.len() == self.parts@.len() && other@.parts.len() == other.parts@.len());
        if !(self.name == other.name) || self.size != other.size || self.parts.len()
            != other.parts.len() {
            return false;
        }
        let mut i: usize = 0;
        while i < self.parts.len()
            invariant
                0 <= i <= self.parts.len(),
                self.parts.len() == other.parts.len(),
                forall|j: int| 0 <= j < i ==> (#[trigger] self.parts@[j])@ == other.parts@[j]@,
            decreases self.parts.len() - i,
        {
            let a = &self.parts[i];
            let b = &other.parts[i];
            if a.sequence != b.sequence || a.remote_id != b.remote_id || !(a.remote_locator
                == b.remote_locator) {
                assert(self@.parts[i as int] != other@.parts[i as int]);
                return false;
            }
            i = i + 1;
        }
        assert(self@.parts =~= other@.parts);
        true
    }

    /// Writes the index as a document of text, reads the text back, and
    /// hands it out only where it reads back as this very index. What this
    /// hands out is fit to be stored: whoever fetches it gets the index.
    pub fn serialize_checked(&self) -> (r: Option<String>)
        ensures
            match r {
                Some(text) => checked_text(self@) == Some(text@) && decoded(toml_document(text@))
                    == Ok::<IndexView, TransferError>(self@),
                None => checked_text(self@) is None,
            },
    {
        match self.serialize() {
            Some(text) => match Index::deserialize(text.as_str()) {
                Ok(back) => {
                    if back.same(self) {
                        Some(text)
                    } else {
                        None
                    }
                },
                Err(_) => None,
            },
            None => None,
        }
    }

    /// Reads an index from a document of text. Fails with `CorruptIndex`
    /// where the text is no document or the document holds no index.
    pub fn deserialize(text: &str) -> (r: Result<Index, TransferError>)
        ensures
            match r {
                Ok(index) => index@.valid() && decoded(toml_document(text@)) == Ok::<
                    IndexView,
                    TransferError,
                >(index@),
                Err(e) => decoded(toml_document(text@)) == Err::<IndexView, TransferError>(e),
            },
    {
        match read_toml(text) {
            Ok(value) => {
                let node = node_of_toml(&value);
                Index::from_node(&node)
            },
            Err(_) => Err(TransferError::CorruptIndex),
        }
    }
}

} // verus!
