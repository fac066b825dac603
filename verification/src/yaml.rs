//! YAML documents as trees, and the `serde_yaml` calls that read, change and
//! write them.
//!
//! `Value`, `Mapping`, `Number` and `Error` are `serde_yaml`'s own types. What a
//! value holds is its [`YamlTree`]. Every function of this module hands one call
//! to `serde_yaml`; its contract says, over trees, what that call is relied on
//! to do.
use serde_yaml::{Mapping, Number, Value};
use vstd::prelude::*;

verus! {

/// `serde_yaml`'s value type, opaque here.
#[verifier::external_type_specification]
#[verifier::external_body]
pub struct ExValue(Value);

/// `serde_yaml`'s insertion-ordered mapping, opaque here.
#[verifier::external_type_specification]
#[verifier::external_body]
pub struct ExMapping(Mapping);

/// `serde_yaml`'s number, an integer or a floating-point number, opaque here.
#[verifier::external_type_specification]
#[verifier::external_body]
pub struct ExNumber(Number);

/// `serde_yaml`'s error, opaque here.
#[verifier::external_type_specification]
#[verifier::external_body]
pub struct ExError(serde_yaml::Error);

/// The content of a YAML value.
pub enum YamlTree {
    Null,
    Bool(bool),
    Number(Number),
    Text(Seq<char>),
    Sequence(Seq<YamlTree>),
    /// Keys and values in the order of the document.
    Mapping(Seq<(YamlTree, YamlTree)>),
    /// A tag and what it is put on.
    Tagged(Seq<char>, Box<YamlTree>),
}

/// The tree that a value holds.
pub uninterp spec fn value_tree(value: Value) -> YamlTree;

/// The keys and values that a mapping holds, in insertion order.
pub uninterp spec fn mapping_entries(mapping: Mapping) -> Seq<(YamlTree, YamlTree)>;

/// The tree that `serde_yaml` reads from a text, if it reads one.
pub uninterp spec fn yaml_parsed(text: Seq<char>) -> Option<YamlTree>;

/// The text that `serde_yaml` writes for a tree, if it can write it.
pub uninterp spec fn yaml_written(tree: YamlTree) -> Option<Seq<char>>;

/// The trees of a list of values.
pub open spec fn trees(values: Seq<Value>) -> Seq<YamlTree> {
    values.map_values(|v: Value| value_tree(v))
}

/// The tree below any tags.
pub open spec fn untagged(tree: YamlTree) -> YamlTree
    decreases tree,
{
    match tree {
        YamlTree::Tagged(_, inner) => untagged(*inner),
        _ => tree,
    }
}

/// `tree` with what stands below its tags replaced by `content`.
pub open spec fn with_untagged(tree: YamlTree, content: YamlTree) -> YamlTree
    decreases tree,
{
    match tree {
        YamlTree::Tagged(tag, inner) => YamlTree::Tagged(
            tag,
            Box::new(with_untagged(*inner, content)),
        ),
        _ => content,
    }
}

/// The place of the entry whose key is the string `key`.
pub open spec fn key_index(entries: Seq<(YamlTree, YamlTree)>, key: Seq<char>) -> Option<int>
    decreases entries.len(),
{
    if entries.len() == 0 {
        None
    } else if entries[0].0 == YamlTree::Text(key) {
        Some(0)
    } else {
        match key_index(entries.drop_first(), key) {
            Some(i) => Some(i + 1),
            None => None,
        }
    }
}

/// The entries with the value at place `i` replaced.
pub open spec fn with_entry_value(
    entries: Seq<(YamlTree, YamlTree)>,
    i: int,
    value: YamlTree,
) -> Seq<(YamlTree, YamlTree)> {
    entries.update(i, (entries[i].0, value))
}

/// What `tree` holds under the string key `key`, if it is a mapping with that
/// key; tags on `tree` are looked through.
pub open spec fn child(tree: YamlTree, key: Seq<char>) -> Option<YamlTree> {
    match untagged(tree) {
        YamlTree::Mapping(entries) => match key_index(entries, key) {
            Some(i) => Some(entries[i].1),
            None => None,
        },
        _ => None,
    }
}

/// `tree` with what it holds under `key` replaced by `value`.
pub open spec fn with_child(tree: YamlTree, key: Seq<char>, value: YamlTree) -> YamlTree {
    match untagged(tree) {
        YamlTree::Mapping(entries) => match key_index(entries, key) {
            Some(i) => with_untagged(
                tree,
                YamlTree::Mapping(with_entry_value(entries, i, value)),
            ),
            None => tree,
        },
        _ => tree,
    }
}

/// `serde_yaml::from_str::<Value>`: reads a document. Whether it succeeds, and
/// the tree it yields, depend on the text alone; [`yaml_parsed`] names that tree.
#[verifier::external_body]
pub(crate) fn parse_document(text: &str) -> (r: Result<Value, serde_yaml::Error>)
    ensures
        match r {
            Ok(value) => yaml_parsed(text@) == Some(value_tree(value)),
            Err(_) => yaml_parsed(text@) is None,
        },
{
    serde_yaml::from_str(text)
}

/// `serde_yaml::to_string`: writes a value. Whether it succeeds, and the text it
/// yields, depend on the tree alone; [`yaml_written`] names that text.
#[verifier::external_body]
pub(crate) fn write_document(value: &Value) -> (r: Result<String, serde_yaml::Error>)
    ensures
        match r {
            Ok(text) => yaml_written(value_tree(*value)) == Some(text@),
            Err(_) => yaml_written(value_tree(*value)) is None,
        },
{
    serde_yaml::to_string(value)
}

/// `Value::get_mut` with a string key: looks through tags and lends the value
/// that a mapping holds under that key, in place; nothing else of the document
/// changes. `None` if the value is no mapping or lacks the key.
#[verifier::external_body]
pub(crate) fn get_mut<'a>(value: &'a mut Value, key: &str) -> (r: Option<&'a mut Value>)
    ensures
        match child(value_tree(*old(value)), key@) {
            Some(held) => r is Some && value_tree(*r.unwrap()) == held && value_tree(*final(value))
                == with_child(value_tree(*old(value)), key@, value_tree(*final(r.unwrap()))),
            None => r is None && *final(value) == *old(value),
        },
{
    value.get_mut(key)
}

/// `Value::as_mapping_mut`: looks through tags and lends the mapping in place.
/// `None` if the value is no mapping.
#[verifier::external_body]
pub(crate) fn as_mapping_mut(value: &mut Value) -> (r: Option<&mut Mapping>)
    ensures
        match untagged(value_tree(*old(value))) {
            YamlTree::Mapping(entries) => r is Some && mapping_entries(*r.unwrap()) == entries
                && value_tree(*final(value)) == with_untagged(
                value_tree(*old(value)),
                YamlTree::Mapping(mapping_entries(*final(r.unwrap()))),
            ),
            _ => r is None && *final(value) == *old(value),
        },
{
    value.as_mapping_mut()
}

/// `Value::as_sequence_mut`: looks through tags and lends the sequence in place.
/// `None` if the value is no sequence.
#[verifier::external_body]
pub(crate) fn as_sequence_mut(value: &mut Value) -> (r: Option<&mut Vec<Value>>)
    ensures
        match untagged(value_tree(*old(value))) {
            YamlTree::Sequence(items) => r is Some && trees(r.unwrap()@) == items && value_tree(
                *final(value),
            ) == with_untagged(
                value_tree(*old(value)),
                YamlTree::Sequence(trees(final(r.unwrap())@)),
            ),
            _ => r is None && *final(value) == *old(value),
        },
{
    value.as_sequence_mut()
}

/// `Value::as_f64`: a value, looked at through its tags, has a floating-point
/// reading exactly if it is a number, integers among them.
#[verifier::external_body]
pub(crate) fn is_number(value: &Value) -> (r: bool)
    ensures
        r == (untagged(value_tree(*value)) is Number),
{
    value.as_f64().is_some()
}

/// `Value::Number`: the value that holds the given number and no tag.
#[verifier::external_body]
pub(crate) fn number_value(number: Number) -> (r: Value)
    ensures
        value_tree(r) == YamlTree::Number(number),
{
    Value::Number(number)
}

/// `Mapping::len`: the number of entries.
#[verifier::external_body]
pub(crate) fn mapping_len(mapping: &Mapping) -> (r: usize)
    ensures
        r == mapping_entries(*mapping).len(),
{
    mapping.len()
}

/// `Mapping::iter_mut`: visits the entries in insertion order and lends each
/// value in place; this is the one at place `index`. Keys and the other values
/// stay.
#[verifier::external_body]
pub(crate) fn entry_value_mut(mapping: &mut Mapping, index: usize) -> (r: &mut Value)
    requires
        index < mapping_entries(*old(mapping)).len(),
    ensures
        value_tree(*r) == mapping_entries(*old(mapping))[index as int].1,
        mapping_entries(*final(mapping)) == with_entry_value(
            mapping_entries(*old(mapping)),
            index as int,
            value_tree(*final(r)),
        ),
{
    mapping.iter_mut().nth(index).unwrap().1
}

/// The place that [`key_index`] finds is one of the entries and has that key.
pub(crate) proof fn lemma_key_index(entries: Seq<(YamlTree, YamlTree)>, key: Seq<char>)
    ensures
        match key_index(entries, key) {
            Some(i) => 0 <= i < entries.len() && entries[i].0 == YamlTree::Text(key),
            None => forall|i: int|
                0 <= i < entries.len() ==> #[trigger] entries[i].0 != YamlTree::Text(key),
        },
    decreases entries.len(),
{
    if entries.len() > 0 && entries[0].0 != YamlTree::Text(key) {
        let rest = entries.drop_first();
        lemma_key_index(rest, key);
        if key_index(rest, key) is None {
            assert forall|i: int| 0 <= i < entries.len() implies #[trigger] entries[i].0
                != YamlTree::Text(key) by {
                if i > 0 {
                    assert(rest[i - 1] == entries[i]);
                }
            }
        }
    }
}

/// Where a key stands depends on the keys alone.
pub(crate) proof fn lemma_key_index_of_keys(
    a: Seq<(YamlTree, YamlTree)>,
    b: Seq<(YamlTree, YamlTree)>,
    key: Seq<char>,
)
    requires
        a.len() == b.len(),
        forall|i: int| 0 <= i < a.len() ==> a[i].0 == b[i].0,
    ensures
        key_index(a, key) == key_index(b, key),
    decreases a.len(),
{
    if a.len() > 0 {
        lemma_key_index_of_keys(a.drop_first(), b.drop_first(), key);
    }
}

/// Replacing what stands below the tags is seen below the tags.
pub(crate) proof fn lemma_with_untagged(tree: YamlTree, content: YamlTree)
    requires
        !(content is Tagged),
    ensures
        untagged(with_untagged(tree, content)) == content,
    decreases tree,
{
    match tree {
        YamlTree::Tagged(_, inner) => lemma_with_untagged(*inner, content),
        _ => {},
    }
}

/// Replacing the value under one key is seen under that key and leaves the
/// values under all other keys.
pub proof fn with_child_lookup(tree: YamlTree, key: Seq<char>, value: YamlTree, other: Seq<char>)
    requires
        child(tree, key) is Some,
    ensures
        child(with_child(tree, key, value), key) == Some(value),
        other != key ==> child(with_child(tree, key, value), other) == child(tree, other),
{
    let entries = untagged(tree)->Mapping_0;
    let i: int = key_index(entries, key).unwrap();
    let changed = with_entry_value(entries, i, value);
    lemma_key_index(entries, key);
    lemma_key_index(entries, other);
    lemma_key_index_of_keys(entries, changed, key);
    lemma_key_index_of_keys(entries, changed, other);
    lemma_with_untagged(tree, YamlTree::Mapping(changed));
}

} // verus!
