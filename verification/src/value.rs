//! Values of configuration files, and how the file of a workspace is laid
//! over the file of the user.

use crate::text::{chars_of, same};
use vstd::prelude::*;

verus! {

/// A value of a configuration file.
#[derive(Debug, PartialEq, Eq)]
pub enum Value {
    String(String),
    Integer(i64),
    /// A floating-point number, by its bits.
    Float(u64),
    Boolean(bool),
    /// A date or a time, as it is written.
    Datetime(String),
    Array(Vec<Value>),
    /// The entries of a table. A key stands for its first entry.
    Table(Vec<(String, Value)>),
}

/// A `Value` as a mathematical tree.
pub enum Tree {
    String(Seq<char>),
    Integer(i64),
    Float(u64),
    Boolean(bool),
    Datetime(Seq<char>),
    Array(Seq<Tree>),
    Table(Seq<(Seq<char>, Tree)>),
}

/// The trees of the values in `items`.
pub open spec fn trees(items: Seq<Value>) -> Seq<Tree>
    decreases items, 0nat,
{
    if items.len() == 0 {
        Seq::empty()
    } else {
        trees(items.drop_last()).push(tree(items.last()))
    }
}

/// The entries in `entries`, each with the tree of its value.
pub open spec fn entry_trees(entries: Seq<(String, Value)>) -> Seq<(Seq<char>, Tree)>
    decreases entries, 0nat,
{
    if entries.len() == 0 {
        Seq::empty()
    } else {
        entry_trees(entries.drop_last()).push((entries.last().0@, tree(entries.last().1)))
    }
}

/// The tree of a value.
pub open spec fn tree(v: Value) -> Tree
    decreases v, 1nat,
{
    match v {
        Value::String(s) => Tree::String(s@),
        Value::Integer(n) => Tree::Integer(n),
        Value::Float(bits) => Tree::Float(bits),
        Value::Boolean(b) => Tree::Boolean(b),
        Value::Datetime(s) => Tree::Datetime(s@),
        Value::Array(items) => Tree::Array(trees(items@)),
        Value::Table(entries) => Tree::Table(entry_trees(entries@)),
    }
}

/// The index of the first entry under `key`.
pub open spec fn key_index(entries: Seq<(Seq<char>, Tree)>, key: Seq<char>) -> Option<int>
    decreases entries.len(),
{
    if entries.len() == 0 {
        None
    } else {
        match key_index(entries.drop_last(), key) {
            Some(i) => Some(i),
            None => if entries.last().0 == key {
                Some(entries.len() - 1)
            } else {
                None
            },
        }
    }
}

/// `name`
pub open spec fn name_key() -> Seq<char> {
    seq!['n', 'a', 'm', 'e']
}

/// The name of an item: the text under the key `name`, where the item is a
/// table and holds a text there.
pub open spec fn name_of(item: Tree) -> Option<Seq<char>> {
    match item {
        Tree::Table(entries) => match key_index(entries, name_key()) {
            Some(i) => match entries[i].1 {
                Tree::String(text) => Some(text),
                _ => None,
            },
            None => None,
        },
        _ => None,
    }
}

/// The index of the first item with the name `name`.
pub open spec fn name_index(items: Seq<Tree>, name: Seq<char>) -> Option<int>
    decreases items.len(),
{
    if items.len() == 0 {
        None
    } else {
        match name_index(items.drop_last(), name) {
            Some(i) => Some(i),
            None => if name_of(items.last()) == Some(name) {
                Some(items.len() - 1)
            } else {
                None
            },
        }
    }
}

/// `right` laid over `left`. Two arrays and two tables are merged while
/// `depth` allows it; in every other case the right value is taken.
pub open spec fn merged(left: Tree, right: Tree, depth: nat) -> Tree
    decreases depth, 0nat, 0nat,
{
    match (left, right) {
        (Tree::Array(l), Tree::Array(r)) => if depth > 0 {
            Tree::Array(merged_items(l, r, (depth - 1) as nat))
        } else {
            Tree::Array(r)
        },
        (Tree::Table(l), Tree::Table(r)) => if depth > 0 {
            Tree::Table(merged_entries(l, r, (depth - 1) as nat))
        } else {
            Tree::Table(r)
        },
        (_, value) => value,
    }
}

/// An item laid over the items of an array. Where it has a name and an item
/// of the array has the same, the first such item leaves its place, and the
/// two, merged, go to the end; else the item goes to the end as it is.
pub open spec fn merged_item(left: Seq<Tree>, item: Tree, depth: nat) -> Seq<Tree>
    decreases depth, 1nat, 0nat,
{
    match name_of(item) {
        Some(name) => match name_index(left, name) {
            Some(i) => left.remove(i).push(merged(left[i], item, depth)),
            None => left.push(item),
        },
        None => left.push(item),
    }
}

/// The items of `right` laid over those of `left`, one after another.
pub open spec fn merged_items(left: Seq<Tree>, right: Seq<Tree>, depth: nat) -> Seq<Tree>
    decreases depth, 2nat, right.len(),
{
    if right.len() == 0 {
        left
    } else {
        merged_items(merged_item(left, right[0], depth), right.skip(1), depth)
    }
}

/// An entry laid over the entries of a table. Where the table has an entry
/// under the same key, the first such entry leaves its place, and the two
/// values, merged, go to the end under that key; else the entry goes to
/// the end as it is.
pub open spec fn merged_entry(
    left: Seq<(Seq<char>, Tree)>,
    entry: (Seq<char>, Tree),
    depth: nat,
) -> Seq<(Seq<char>, Tree)>
    decreases depth, 1nat, 0nat,
{
    match key_index(left, entry.0) {
        Some(i) => left.remove(i).push((entry.0, merged(left[i].1, entry.1, depth))),
        None => left.push(entry),
    }
}

/// The entries of `right` laid over those of `left`, one after another.
pub open spec fn merged_entries(
    left: Seq<(Seq<char>, Tree)>,
    right: Seq<(Seq<char>, Tree)>,
    depth: nat,
) -> Seq<(Seq<char>, Tree)>
    decreases depth, 2nat, right.len(),
{
    if right.len() == 0 {
        left
    } else {
        merged_entries(merged_entry(left, right[0], depth), right.skip(1), depth)
    }
}

/// The trees of a sequence of values are the trees of its values.
pub proof fn lemma_trees(items: Seq<Value>)
    ensures
        trees(items).len() == items.len(),
        forall|i: int| 0 <= i < items.len() ==> #[trigger] trees(items)[i] == tree(items[i]),
    decreases items.len(),
{
    if items.len() > 0 {
        lemma_trees(items.drop_last());
    }
}

/// `lemma_trees`, for the entries of a table.
pub proof fn lemma_entry_trees(entries: Seq<(String, Value)>)
    ensures
        entry_trees(entries).len() == entries.len(),
        forall|i: int|
            0 <= i < entries.len() ==> #[trigger] entry_trees(entries)[i] == (
                entries[i].0@,
                tree(entries[i].1),
            ),
    decreases entries.len(),
{
    if entries.len() > 0 {
        lemma_entry_trees(entries.drop_last());
    }
}

/// The index of the first entry of `entries` under `key`.
fn find_key(entries: &Vec<(String, Value)>, key: &Vec<char>) -> (r: Option<usize>)
    ensures
        match r {
            Some(i) => i < entries.len() && key_index(entry_trees(entries@), key@) == Some(
                i as int,
            ),
            None => key_index(entry_trees(entries@), key@) is None,
        },
{
    let ghost all = entry_trees(entries@);
    proof {
        lemma_entry_trees(entries@);
    }
    let mut i: usize = 0;
    assert(all.take(0) =~= Seq::<(Seq<char>, Tree)>::empty());
    while i < entries.len()
        invariant
            i <= entries.len(),
            all == entry_trees(entries@),
            all.len() == entries.len(),
            forall|j: int| 0 <= j < entries.len() ==> #[trigger] all[j] == (
                entries@[j].0@,
                tree(entries@[j].1),
            ),
            key_index(all.take(i as int), key@) is None,
        decreases entries.len() - i,
    {
        assert(all.take(i + 1).drop_last() =~= all.take(i as int));
        if same(&chars_of(entries[i].0.as_str()), key) {
            proof {
                lemma_key_index_found(all, key@, i as int);
            }
            return Some(i);
        }
        i += 1;
    }
    assert(all.take(entries.len() as int) =~= all);
    None
}

/// An index that is the first under a key in the entries up to it is the
/// first under that key in all entries.
proof fn lemma_key_index_found(entries: Seq<(Seq<char>, Tree)>, key: Seq<char>, i: int)
    requires
        0 <= i < entries.len(),
        key_index(entries.take(i + 1), key) == Some(i),
    ensures
        key_index(entries, key) == Some(i),
    decreases entries.len(),
{
    if entries.len() > i + 1 {
        assert(entries.drop_last().take(i + 1) =~= entries.take(i + 1));
        lemma_key_index_found(entries.drop_last(), key, i);
    } else {
        assert(entries.take(i + 1) =~= entries);
    }
}

/// `lemma_key_index_found`, for names.
proof fn lemma_name_index_found(items: Seq<Tree>, name: Seq<char>, i: int)
    requires
        0 <= i < items.len(),
        name_index(items.take(i + 1), name) == Some(i),
    ensures
        name_index(items, name) == Some(i),
    decreases items.len(),
{
    if items.len() > i + 1 {
        assert(items.drop_last().take(i + 1) =~= items.take(i + 1));
        lemma_name_index_found(items.drop_last(), name, i);
    } else {
        assert(items.take(i + 1) =~= items);
    }
}

/// The name of an item as characters.
fn item_name(item: &Value) -> (r: Option<Vec<char>>)
    ensures
        match r {
            Some(name) => name_of(tree(*item)) == Some(name@),
            None => name_of(tree(*item)) is None,
        },
{
    match item {
        Value::Table(entries) => {
            let key: Vec<char> = vec!['n', 'a', 'm', 'e'];
            assert(key@ =~= name_key());
            proof {
                lemma_entry_trees(entries@);
            }
            match find_key(entries, &key) {
                Some(i) => match &entries[i].1 {
                    Value::String(text) => Some(chars_of(text.as_str())),
                    _ => None,
                },
                None => None,
            }
        },
        _ => None,
    }
}

/// The index of the first item of `items` with the name `name`.
fn find_name(items: &Vec<Value>, name: &Vec<char>) -> (r: Option<usize>)
    ensures
        match r {
            Some(i) => i < items.len() && name_index(trees(items@), name@) == Some(i as int),
            None => name_index(trees(items@), name@) is None,
        },
{
    let ghost all = trees(items@);
    proof {
        lemma_trees(items@);
    }
    let mut i: usize = 0;
    assert(all.take(0) =~= Seq::<Tree>::empty());
    while i < items.len()
        invariant
            i <= items.len(),
            all == trees(items@),
            all.len() == items.len(),
            forall|j: int| 0 <= j < items.len() ==> #[trigger] all[j] == tree(items@[j]),
            name_index(all.take(i as int), name@) is None,
        decreases items.len() - i,
    {
        assert(all.take(i + 1).drop_last() =~= all.take(i as int));
        let found = match item_name(&items[i]) {
            Some(n) => same(&n, name),
            None => false,
        };
        if found {
            proof {
                lemma_name_index_found(all, name@, i as int);
            }
            return Some(i);
        }
        i += 1;
    }
    assert(all.take(items.len() as int) =~= all);
    None
}

/// Lays `right` over `left`. Two tables are merged key by key, and two
/// arrays item by item, where items with the same name are one item; below
/// `merge_depth` levels, and wherever the two are of different kinds, the
/// right value replaces the left.
pub fn merge_toml_values(left: Value, right: Value, merge_depth: usize) -> (r: Value)
    ensures
        tree(r) == merged(tree(left), tree(right), merge_depth as nat),
    decreases merge_depth,
{
    match (left, right) {
        (Value::Array(left_items), Value::Array(right_items)) => {
            if merge_depth > 0 {
                let mut left_items = left_items;
                let mut right_items = right_items;
                let ghost l0 = trees(left_items@);
                let ghost r0 = trees(right_items@);
                let ghost depth = (merge_depth - 1) as nat;
                while right_items.len() > 0
                    invariant
                        merge_depth > 0,
                        depth == (merge_depth - 1) as nat,
                        merged_items(trees(left_items@), trees(right_items@), depth)
                            == merged_items(l0, r0, depth),
                    decreases right_items.len(),
                {
                    let ghost lt = trees(left_items@);
                    let ghost rt = trees(right_items@);
                    let ghost before = left_items@;
                    proof {
                        lemma_trees(left_items@);
                        lemma_trees(right_items@);
                    }
                    let rvalue = right_items.remove(0);
                    proof {
                        lemma_trees(right_items@);
                        assert(trees(right_items@) =~= rt.skip(1));
                        assert(tree(rvalue) == rt[0]);
                    }
                    let position = match item_name(&rvalue) {
                        Some(name) => find_name(&left_items, &name),
                        None => None,
                    };
                    match position {
                        Some(p) => {
                            let lvalue = left_items.remove(p);
                            let mvalue = merge_toml_values(lvalue, rvalue, merge_depth - 1);
                            left_items.push(mvalue);
                            proof {
                                lemma_trees(left_items@);
                                assert(trees(left_items@) =~= lt.remove(p as int).push(
                                    merged(lt[p as int], rt[0], depth),
                                ));
                            }
                        },
                        None => {
                            left_items.push(rvalue);
                            proof {
                                lemma_trees(left_items@);
                                assert(trees(left_items@) =~= lt.push(rt[0]));
                            }
                        },
                    }
                    assert(trees(left_items@) == merged_item(lt, rt[0], depth));
                }
                Value::Array(left_items)
            } else {
                Value::Array(right_items)
            }
        },
        (Value::Table(left_map), Value::Table(right_map)) => {
            if merge_depth > 0 {
                let mut left_map = left_map;
                let mut right_map = right_map;
                let ghost l0 = entry_trees(left_map@);
                let ghost r0 = entry_trees(right_map@);
                let ghost depth = (merge_depth - 1) as nat;
                while right_map.len() > 0
                    invariant
                        merge_depth > 0,
                        depth == (merge_depth - 1) as nat,
                        merged_entries(entry_trees(left_map@), entry_trees(right_map@), depth)
                            == merged_entries(l0, r0, depth),
                    decreases right_map.len(),
                {
                    let ghost lt = entry_trees(left_map@);
                    let ghost rt = entry_trees(right_map@);
                    proof {
                        lemma_entry_trees(left_map@);
                        lemma_entry_trees(right_map@);
                    }
                    let (rname, rvalue) = right_map.remove(0);
                    proof {
                        lemma_entry_trees(right_map@);
                        assert(entry_trees(right_map@) =~= rt.skip(1));
                        assert((rname@, tree(rvalue)) == rt[0]);
                    }
                    match find_key(&left_map, &chars_of(rname.as_str())) {
                        Some(p) => {
                            let (_, lvalue) = left_map.remove(p);
                            let merged_value = merge_toml_values(lvalue, rvalue, merge_depth - 1);
                            left_map.push((rname, merged_value));
                            proof {
                                lemma_entry_trees(left_map@);
                                assert(entry_trees(left_map@) =~= lt.remove(p as int).push(
                                    (rt[0].0, merged(lt[p as int].1, rt[0].1, depth)),
                                ));
                            }
                        },
                        None => {
                            left_map.push((rname, rvalue));
                            proof {
                                lemma_entry_trees(left_map@);
                                assert(entry_trees(left_map@) =~= lt.push(rt[0]));
                            }
                        },
                    }
                    assert(entry_trees(left_map@) == merged_entry(lt, rt[0], depth));
                }
                Value::Table(left_map)
            } else {
                Value::Table(right_map)
            }
        },
        (_, value) => value,
    }
}

} // verus!
