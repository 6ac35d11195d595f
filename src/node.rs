use vstd::prelude::*;

verus! {

/// A structured-data value, kept to what the link configuration reads:
/// strings, tables of named values, and everything else.
#[derive(Debug)]
pub enum Node {
    Str(String),
    Table(Vec<(String, Node)>),
    Other,
}

/// The value of the first entry at or after index `i` whose name is `name`.
pub open spec fn find_from(entries: Seq<(String, Node)>, name: Seq<char>, i: int) -> Option<Node>
    decreases entries.len() - i,
{
    if i < 0 || i >= entries.len() {
        None
    } else if entries[i].0@ == name {
        Some(entries[i].1)
    } else {
        find_from(entries, name, i + 1)
    }
}

impl Node {
    /// The value named `name` when this node is a table holding it.
    pub open spec fn get_spec(self, name: Seq<char>) -> Option<Node> {
        match self {
            Node::Table(entries) => find_from(entries@, name, 0),
            _ => None,
        }
    }

    /// The value named `name` when this node is a table holding it.
    pub fn get(&self, name: &String) -> (r: Option<&Node>)
        ensures
            match self.get_spec(name@) {
                None => r is None,
                Some(n) => r is Some && *r->Some_0 == n,
            },
    {
        match self {
            Node::Table(entries) => find_entry(entries, name),
            _ => None,
        }
    }
}

/// The value of the first entry of `entries` named `name`.
pub fn find_entry<'a>(entries: &'a Vec<(String, Node)>, name: &String) -> (r: Option<&'a Node>)
    ensures
        match find_from(entries@, name@, 0) {
            None => r is None,
            Some(n) => r is Some && *r->Some_0 == n,
        },
{
    let mut i: usize = 0;
    while i < entries.len()
        invariant
            i <= entries@.len(),
            find_from(entries@, name@, 0) == find_from(entries@, name@, i as int),
        decreases entries@.len() - i,
    {
        if entries[i].0 == *name {
            return Some(&entries[i].1);
        }
        i = i + 1;
    }
    None
}

} // verus!
