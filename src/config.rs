use vstd::prelude::*;
use vstd::string::*;
use crate::node::Node;

verus! {

/// The three string fields that every link entry must hold.
#[derive(Debug, Clone, Copy, PartialEq, Eq, Structural)]
pub enum Field {
    Type,
    DotPath,
    LocPath,
}

impl Field {
    /// The name under which the field is written in an entry.
    pub open spec fn key_spec(self) -> Seq<char> {
        match self {
            Field::Type => "type"@,
            Field::DotPath => "dot_path"@,
            Field::LocPath => "loc_path"@,
        }
    }

    /// The name under which the field is written in an entry.
    pub fn key(&self) -> (r: String)
        ensures
            r@ == self.key_spec(),
    {
        match self {
            Field::Type => String::from_str("type"),
            Field::DotPath => String::from_str("dot_path"),
            Field::LocPath => String::from_str("loc_path"),
        }
    }
}

/// Why a configuration could not be turned into link entries.
#[derive(Debug)]
pub enum ConfigError {
    /// The text is not a well-formed document.
    Syntax(toml::de::Error),
    /// The root value is not a table.
    InvalidRoot,
    /// The entry named by the string has no such field.
    MissingField(Field, String),
    /// The entry named by the string has the field, but not as a string.
    InvalidField(Field, String),
}

/// One link to create: the entry's name, its kind, the dotfile's path and
/// the path where it is to be linked.
#[derive(Debug, Clone)]
pub struct Config {
    pub belongs_to: String,
    pub l_type: String,
    pub dot_path: String,
    pub loc_path: String,
}

impl Config {
    pub fn new(belongs_to: String, l_type: String, dot_path: String, loc_path: String) -> (r:
        Config)
        ensures
            r == (Config { belongs_to, l_type, dot_path, loc_path }),
    {
        Config { belongs_to, l_type, dot_path, loc_path }
    }
}

/// The string held in field `f` of the entry `key = value`, or the error
/// that the field's absence or type calls for.
pub open spec fn text_field_spec(key: String, value: Node, f: Field) -> Result<String, ConfigError> {
    match value.get_spec(f.key_spec()) {
        None => Err(ConfigError::MissingField(f, key)),
        Some(Node::Str(s)) => Ok(s),
        Some(_) => Err(ConfigError::InvalidField(f, key)),
    }
}

/// The link that the entry `key = value` describes; the fields are checked
/// in the order type, dot_path, loc_path.
pub open spec fn entry_spec(key: String, value: Node) -> Result<Config, ConfigError> {
    match text_field_spec(key, value, Field::Type) {
        Err(e) => Err(e),
        Ok(t) => match text_field_spec(key, value, Field::DotPath) {
            Err(e) => Err(e),
            Ok(d) => match text_field_spec(key, value, Field::LocPath) {
                Err(e) => Err(e),
                Ok(l) => Ok(Config { belongs_to: key, l_type: t, dot_path: d, loc_path: l }),
            },
        },
    }
}

/// The links of a sequence of entries, in order, or the error of the first
/// entry that is not well formed.
pub open spec fn entries_spec(entries: Seq<(String, Node)>) -> Result<Seq<Config>, ConfigError>
    decreases entries.len(),
{
    if entries.len() == 0 {
        Ok(Seq::empty())
    } else {
        match entries_spec(entries.drop_last()) {
            Err(e) => Err(e),
            Ok(cs) => match entry_spec(entries.last().0, entries.last().1) {
                Err(e) => Err(e),
                Ok(c) => Ok(cs.push(c)),
            },
        }
    }
}

/// The links that a configuration's root value describes.
pub open spec fn parse_spec(root: Node) -> Result<Seq<Config>, ConfigError> {
    match root {
        Node::Table(entries) => entries_spec(entries@),
        _ => Err(ConfigError::InvalidRoot),
    }
}

fn text_field(key: &String, value: &Node, f: Field) -> (r: Result<String, ConfigError>)
    ensures
        r == text_field_spec(*key, *value, f),
{
    let name = f.key();
    match value.get(&name) {
        None => Err(ConfigError::MissingField(f, key.clone())),
        Some(Node::Str(s)) => Ok(s.clone()),
        Some(_) => Err(ConfigError::InvalidField(f, key.clone())),
    }
}

fn parse_entry(key: &String, value: &Node) -> (r: Result<Config, ConfigError>)
    ensures
        r == entry_spec(*key, *value),
{
    let l_type = match text_field(key, value, Field::Type) {
        Ok(s) => s,
        Err(e) => return Err(e),
    };
    let dot_path = match text_field(key, value, Field::DotPath) {
        Ok(s) => s,
        Err(e) => return Err(e),
    };
    let loc_path = match text_field(key, value, Field::LocPath) {
        Ok(s) => s,
        Err(e) => return Err(e),
    };
    Ok(Config::new(key.clone(), l_type, dot_path, loc_path))
}

/// Turns a configuration's root value into its links, one per entry of the
/// root table and in its order; fails as a whole on the first entry that
/// lacks a field or holds one that is not a string, and when the root is not
/// a table.
pub fn parse_config(root: &Node) -> (r: Result<Vec<Config>, ConfigError>)
    ensures
        match parse_spec(*root) {
            Ok(cs) => r is Ok && r->Ok_0@ == cs,
            Err(e) => r matches Err(x) && x == e,
        },
        !(root is Table) ==> r matches Err(ConfigError::InvalidRoot),
{
    let entries = match root {
        Node::Table(entries) => entries,
        _ => return Err(ConfigError::InvalidRoot),
    };
    let mut out: Vec<Config> = Vec::new();
    let mut i: usize = 0;
    while i < entries.len()
        invariant
            i <= entries@.len(),
            root is Table,
            parse_spec(*root) == entries_spec(entries@),
            entries_spec(entries@.take(i as int)) == Ok::<Seq<Config>, ConfigError>(out@),
        decreases entries@.len() - i,
    {
        assert(entries@.take(i + 1).drop_last() =~= entries@.take(i as int));
        assert(entries@.take(i + 1).last() == entries@[i as int]);
        let c = match parse_entry(&entries[i].0, &entries[i].1) {
            Ok(c) => c,
            Err(e) => {
                proof { lemma_error_persists(entries@, i + 1); }
                return Err(e);
            },
        };
        out.push(c);
        i = i + 1;
    }
    assert(entries@.take(entries@.len() as int) =~= entries@);
    Ok(out)
}

/// Once a prefix of the entries fails, every longer prefix fails with the
/// same error.
proof fn lemma_error_persists(entries: Seq<(String, Node)>, k: int)
    requires
        0 <= k <= entries.len(),
        entries_spec(entries.take(k)) is Err,
    ensures
        entries_spec(entries) == entries_spec(entries.take(k)),
    decreases entries.len() - k,
{
    if k < entries.len() {
        assert(entries.take(k + 1).drop_last() =~= entries.take(k));
        lemma_error_persists(entries, k + 1);
    } else {
        assert(entries.take(k) =~= entries);
    }
}

/// The entry value holds all three fields, each as a string.
pub open spec fn entry_well_formed(value: Node) -> bool {
    &&& value.get_spec(Field::Type.key_spec()) matches Some(Node::Str(_))
    &&& value.get_spec(Field::DotPath.key_spec()) matches Some(Node::Str(_))
    &&& value.get_spec(Field::LocPath.key_spec()) matches Some(Node::Str(_))
}

/// The link carries the entry's name and its three strings unchanged.
pub open spec fn link_of_entry(c: Config, key: String, value: Node) -> bool {
    &&& c.belongs_to == key
    &&& value.get_spec(Field::Type.key_spec()) == Some(Node::Str(c.l_type))
    &&& value.get_spec(Field::DotPath.key_spec()) == Some(Node::Str(c.dot_path))
    &&& value.get_spec(Field::LocPath.key_spec()) == Some(Node::Str(c.loc_path))
}

proof fn lemma_well_formed_entries(entries: Seq<(String, Node)>)
    requires
        forall|i: int| 0 <= i < entries.len() ==> #[trigger] entry_well_formed(entries[i].1),
    ensures
        entries_spec(entries) is Ok,
        entries_spec(entries)->Ok_0.len() == entries.len(),
        forall|i: int|
            0 <= i < entries.len() ==> link_of_entry(
                #[trigger] entries_spec(entries)->Ok_0[i],
                entries[i].0,
                entries[i].1,
            ),
    decreases entries.len(),
{
    if entries.len() > 0 {
        let prefix = entries.drop_last();
        assert forall|i: int| 0 <= i < prefix.len() implies #[trigger] entry_well_formed(
            prefix[i].1,
        ) by {
            assert(prefix[i] == entries[i]);
        }
        lemma_well_formed_entries(prefix);
        let last = entries.last();
        assert(entry_well_formed(entries[entries.len() - 1].1));
        assert(entry_spec(last.0, last.1) is Ok);
        let cs = entries_spec(entries)->Ok_0;
        assert(cs == entries_spec(prefix)->Ok_0.push(entry_spec(last.0, last.1)->Ok_0));
        assert forall|i: int| 0 <= i < entries.len() implies link_of_entry(
            #[trigger] cs[i],
            entries[i].0,
            entries[i].1,
        ) by {
            if i < prefix.len() {
                assert(prefix[i] == entries[i]);
                assert(cs[i] == entries_spec(prefix)->Ok_0[i]);
            }
        }
    }
}

/// A configuration whose root is a table of well-formed entries parses into
/// exactly one link per entry, in the table's order, each carrying the
/// entry's name and its type, dot_path and loc_path strings unchanged.
pub proof fn lemma_one_link_per_entry(root: Node)
    requires
        root is Table,
        forall|i: int|
            0 <= i < root->Table_0@.len() ==> #[trigger] entry_well_formed(root->Table_0@[i].1),
    ensures
        parse_spec(root) is Ok,
        parse_spec(root)->Ok_0.len() == root->Table_0@.len(),
        forall|i: int|
            0 <= i < root->Table_0@.len() ==> link_of_entry(
                #[trigger] parse_spec(root)->Ok_0[i],
                root->Table_0@[i].0,
                root->Table_0@[i].1,
            ),
{
    lemma_well_formed_entries(root->Table_0@);
}

/// An entry that lacks one of the three fields, or holds one whose value is
/// not a string, makes the whole configuration fail: no link comes out.
pub proof fn lemma_malformed_entry_fails(root: Node, i: int, f: Field)
    requires
        root is Table,
        0 <= i < root->Table_0@.len(),
        !(root->Table_0@[i].1.get_spec(f.key_spec()) matches Some(Node::Str(_))),
    ensures
        parse_spec(root) is Err,
{
    let entries = root->Table_0@;
    assert(entry_spec(entries[i].0, entries[i].1) is Err);
    assert(entries.take(i + 1).drop_last() =~= entries.take(i));
    assert(entries.take(i + 1).last() == entries[i]);
    lemma_error_persists(entries, i + 1);
}

/// A root value that is not a table is refused before any entry is read.
pub proof fn lemma_non_table_root_fails(root: Node)
    requires
        !(root is Table),
    ensures
        parse_spec(root) == Err::<Seq<Config>, ConfigError>(ConfigError::InvalidRoot),
{
}

} // verus!
