//! YAML values as trees, as far as the configuration reads them.

use vstd::prelude::*;

use crate::text::same_text;

verus! {

/// A YAML value. Nothing is read of numbers and tags.
#[derive(Debug)]
pub enum YamlNode {
    Null,
    Bool(bool),
    Number,
    Text(String),
    Sequence(Vec<YamlNode>),
    Mapping(Vec<YamlEntry>),
    Tagged(Box<YamlNode>),
}

/// One entry of a YAML mapping.
#[derive(Debug)]
pub struct YamlEntry {
    pub key: YamlNode,
    pub value: YamlNode,
}

/// View of [`YamlNode`].
pub enum YamlTree {
    Null,
    Bool(bool),
    Number,
    Text(Seq<char>),
    Sequence(Seq<YamlTree>),
    Mapping(Seq<(YamlTree, YamlTree)>),
    Tagged(Box<YamlTree>),
}

/// The tree of a value.
pub open spec fn tree_of(node: YamlNode) -> YamlTree
    decreases node,
{
    match node {
        YamlNode::Null => YamlTree::Null,
        YamlNode::Bool(b) => YamlTree::Bool(b),
        YamlNode::Number => YamlTree::Number,
        YamlNode::Text(t) => YamlTree::Text(t@),
        YamlNode::Sequence(items) => YamlTree::Sequence(
            Seq::new(
                items@.len(),
                |i: int|
                    if 0 <= i < items@.len() {
                        tree_of(items@[i])
                    } else {
                        YamlTree::Null
                    },
            ),
        ),
        YamlNode::Mapping(entries) => YamlTree::Mapping(
            Seq::new(
                entries@.len(),
                |i: int|
                    if 0 <= i < entries@.len() {
                        (tree_of(entries@[i].key), tree_of(entries@[i].value))
                    } else {
                        (YamlTree::Null, YamlTree::Null)
                    },
            ),
        ),
        YamlNode::Tagged(inner) => YamlTree::Tagged(Box::new(tree_of(*inner))),
    }
}

impl View for YamlNode {
    type V = YamlTree;

    open spec fn view(&self) -> YamlTree {
        tree_of(*self)
    }
}

/// The trees of a list of entries.
pub open spec fn entry_trees(entries: Seq<YamlEntry>) -> Seq<(YamlTree, YamlTree)> {
    entries.map_values(|e: YamlEntry| (e.key@, e.value@))
}

/// The tree of a mapping holds the trees of its entries.
pub proof fn lemma_mapping_tree(entries: Vec<YamlEntry>)
    ensures
        YamlNode::Mapping(entries)@ == YamlTree::Mapping(entry_trees(entries@)),
{
    assert(YamlNode::Mapping(entries)@->Mapping_0 =~= entry_trees(entries@));
}

/// The value of the first entry with the given string key.
pub open spec fn first_entry(entries: Seq<(YamlTree, YamlTree)>, key: Seq<char>) -> Option<YamlTree>
    decreases entries.len(),
{
    if entries.len() == 0 {
        None
    } else if entries[0].0 == YamlTree::Text(key) {
        Some(entries[0].1)
    } else {
        first_entry(entries.drop_first(), key)
    }
}

impl YamlTree {
    /// What sort of value this is.
    pub open spec fn kind(self) -> Seq<char> {
        match self {
            YamlTree::Null => "null"@,
            YamlTree::Bool(_) => "boolean"@,
            YamlTree::Number => "number"@,
            YamlTree::Text(_) => "string"@,
            YamlTree::Sequence(_) => "sequence"@,
            YamlTree::Mapping(_) => "mapping"@,
            YamlTree::Tagged(_) => "tagged"@,
        }
    }
}

pub open spec fn opt_tree(o: Option<&YamlNode>) -> Option<YamlTree> {
    match o {
        Some(n) => Some(n@),
        None => None,
    }
}

/// The value of the first entry with the given string key.
pub fn find_entry<'a>(entries: &'a Vec<YamlEntry>, key: &str) -> (r: Option<&'a YamlNode>)
    ensures
        opt_tree(r) == first_entry(entry_trees(entries@), key@),
{
    let ghost all = entry_trees(entries@);
    let mut i: usize = 0;
    proof {
        assert(all.skip(0) =~= all);
    }
    while i < entries.len()
        invariant
            i <= entries@.len(),
            all == entry_trees(entries@),
            first_entry(all, key@) == first_entry(all.skip(i as int), key@),
        decreases entries@.len() - i,
    {
        let entry = &entries[i];
        proof {
            assert(all.skip(i as int)[0] == (entry.key@, entry.value@));
            assert(all.skip(i as int).drop_first() =~= all.skip(i + 1));
        }
        if let YamlNode::Text(name) = &entry.key {
            if same_text(name.as_str(), key) {
                return Some(&entry.value);
            }
        }
        i += 1;
    }
    None
}

impl YamlNode {
    /// What sort of value this is.
    pub fn kind(&self) -> (r: &'static str)
        ensures
            r@ == self@.kind(),
    {
        match self {
            YamlNode::Null => "null",
            YamlNode::Bool(_) => "boolean",
            YamlNode::Number => "number",
            YamlNode::Text(_) => "string",
            YamlNode::Sequence(_) => "sequence",
            YamlNode::Mapping(_) => "mapping",
            YamlNode::Tagged(_) => "tagged",
        }
    }
}

} // verus!
