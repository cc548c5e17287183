//! Reading the script table out of a manifest.
//!
//! The manifest is a TOML document. The `toml` crate parses it; what the
//! document means for this library is decided here, on a tree of plain
//! values: the scripts are the entries of the table
//! `workspace.metadata.scripts` or, failing that, of
//! `package.metadata.scripts`.

use vstd::prelude::*;
use vstd::string::*;
use crate::error::{Error, ErrorType};
use crate::table::ScriptTable;

verus! {

/// A value of a manifest, as far as the scripts depend on it.
#[derive(Debug)]
pub enum Node {
    /// A string.
    Text(String),
    /// A table: its keys with their values.
    Table(Vec<(String, Node)>),
    /// Any other value (a number, a boolean, a date, an array).
    Other,
}

/// The value of the first entry of `entries` whose key is `key`.
pub open spec fn lookup(entries: Seq<(String, Node)>, key: Seq<char>) -> Option<Node>
    decreases entries.len(),
{
    if entries.len() == 0 {
        None
    } else if entries[0].0@ == key {
        Some(entries[0].1)
    } else {
        lookup(entries.subrange(1, entries.len() as int), key)
    }
}

impl Node {
    /// The value under `key`, where this node is a table that has the key.
    pub open spec fn child(self, key: Seq<char>) -> Option<Node> {
        match self {
            Node::Table(entries) => lookup(entries@, key),
            _ => None,
        }
    }

    /// The node at the end of a path of three keys.
    pub open spec fn descend(self, first: Seq<char>, second: Seq<char>, third: Seq<char>) -> Option<
        Node,
    > {
        match self.child(first) {
            Some(a) => match a.child(second) {
                Some(b) => b.child(third),
                None => None,
            },
            None => None,
        }
    }

    /// The value under `key`, where this node is a table that has the key.
    pub fn get<'a>(&'a self, key: &str) -> (r: Option<&'a Node>)
        ensures
            r is Some <==> self.child(key@) is Some,
            r is Some ==> Some(*r->Some_0) == self.child(key@),
    {
        match self {
            Node::Table(entries) => {
                let wanted = String::from_str(key);
                let mut i: usize = 0;
                assert(entries@.subrange(0, entries@.len() as int) =~= entries@);
                while i < entries.len()
                    invariant
                        i <= entries.len(),
                        wanted@ == key@,
                        self.child(key@) == lookup(entries@, key@),
                        lookup(entries@, key@) == lookup(
                            entries@.subrange(i as int, entries@.len() as int),
                            key@,
                        ),
                    decreases entries.len() - i,
                {
                    let ghost rest = entries@.subrange(i as int, entries@.len() as int);
                    assert(rest[0] == entries@[i as int]);
                    assert(rest.subrange(1, rest.len() as int) =~= entries@.subrange(
                        i + 1,
                        entries@.len() as int,
                    ));
                    if entries[i].0 == wanted {
                        return Some(&entries[i].1);
                    }
                    i += 1;
                }
                None
            },
            _ => None,
        }
    }
}

/// The scripts that a table's entries declare, each name with its text,
/// provided that `entries` hold strings only. Of two entries with the same
/// name the first counts.
pub open spec fn declared(entries: Seq<(String, Node)>) -> Map<Seq<char>, Seq<char>>
    decreases entries.len(),
{
    if entries.len() == 0 {
        Map::empty()
    } else {
        let before = declared(entries.drop_last());
        let name = entries.last().0@;
        match entries.last().1 {
            Node::Text(text) => if before.contains_key(name) {
                before
            } else {
                before.insert(name, text@)
            },
            _ => before,
        }
    }
}

/// Whether every value among `entries` is a string.
pub open spec fn all_text(entries: Seq<(String, Node)>) -> bool {
    forall|i: int| 0 <= i < entries.len() ==> (#[trigger] entries[i]).1 is Text
}

/// Whether `name` is the key of one of `entries`.
pub open spec fn has_key(entries: Seq<(String, Node)>, name: Seq<char>) -> bool {
    exists|i: int| 0 <= i < entries.len() && (#[trigger] entries[i]).0@ == name
}

/// The keys of `entries`.
pub open spec fn key_set(entries: Seq<(String, Node)>) -> Set<Seq<char>> {
    Set::new(|name: Seq<char>| has_key(entries, name))
}

/// The scripts declared under the root key `root`: the entries of the table
/// `<root>.metadata.scripts`, where there is such a table and it holds
/// strings only.
pub open spec fn scripts_under(document: Node, root: Seq<char>) -> Option<
    Map<Seq<char>, Seq<char>>,
> {
    match document.descend(root, "metadata"@, "scripts"@) {
        Some(Node::Table(entries)) => if all_text(entries@) {
            Some(declared(entries@))
        } else {
            None
        },
        _ => None,
    }
}

/// The scripts that a manifest declares: those under `workspace` where that
/// shape is there, else those under `package`, else none.
pub open spec fn scripts_of(document: Node) -> Option<Map<Seq<char>, Seq<char>>> {
    match scripts_under(document, "workspace"@) {
        Some(scripts) => Some(scripts),
        None => scripts_under(document, "package"@),
    }
}

/// Where every entry holds a string, the declared scripts have exactly the
/// entries' keys as their names.
pub proof fn lemma_declared_names(entries: Seq<(String, Node)>)
    requires
        all_text(entries),
    ensures
        forall|name: Seq<char>| #[trigger]
            declared(entries).contains_key(name) <==> has_key(entries, name),
        declared(entries).dom() == key_set(entries),
    decreases entries.len(),
{
    if entries.len() > 0 {
        let front = entries.drop_last();
        assert(all_text(front)) by {
            assert forall|i: int| 0 <= i < front.len() implies (#[trigger] front[i]).1 is Text by {
                assert(entries[i].1 is Text);
            }
        }
        lemma_declared_names(front);
        assert(entries[entries.len() - 1].1 is Text);
        assert forall|name: Seq<char>| #[trigger]
            declared(entries).contains_key(name) <==> has_key(entries, name) by {
            if declared(entries).contains_key(name) {
                if declared(front).contains_key(name) {
                    assert(has_key(front, name));
                    let i = choose|i: int| 0 <= i < front.len() && (#[trigger] front[i]).0@ == name;
                    assert(entries[i].0@ == name);
                } else {
                    assert(entries[entries.len() - 1].0@ == name);
                }
            }
            if has_key(entries, name) {
                let i = choose|i: int| 0 <= i < entries.len() && (#[trigger] entries[i]).0@ == name;
                if i < front.len() {
                    assert(front[i].0@ == name);
                    assert(has_key(front, name));
                    assert(declared(front).contains_key(name));
                } else {
                    assert(entries.last().0@ == name);
                }
                assert(declared(entries).contains_key(name));
            }
        }
    } else {
        assert forall|name: Seq<char>| #[trigger]
            declared(entries).contains_key(name) <==> has_key(entries, name) by {
            assert(!declared(entries).dom().contains(name));
            if has_key(entries, name) {
                let i = choose|i: int| 0 <= i < entries.len() && (#[trigger] entries[i]).0@ == name;
                assert(false);
            }
        }
    }
    assert(declared(entries).dom() =~= key_set(entries));
}

/// A manifest with a table of strings at `workspace.metadata.scripts` has
/// scripts, and their names are exactly that table's keys.
pub proof fn lemma_workspace_scripts(document: Node, entries: Vec<(String, Node)>)
    requires
        document.descend("workspace"@, "metadata"@, "scripts"@) == Some(Node::Table(entries)),
        all_text(entries@),
    ensures
        scripts_of(document) is Some,
        scripts_of(document)->Some_0.dom() == key_set(entries@),
{
    lemma_declared_names(entries@);
}

/// A manifest without scripts under `workspace`, but with a table of
/// strings at `package.metadata.scripts`, has scripts, and their names are
/// exactly that table's keys.
pub proof fn lemma_package_scripts(document: Node, entries: Vec<(String, Node)>)
    requires
        scripts_under(document, "workspace"@) is None,
        document.descend("package"@, "metadata"@, "scripts"@) == Some(Node::Table(entries)),
        all_text(entries@),
    ensures
        scripts_of(document) is Some,
        scripts_of(document)->Some_0.dom() == key_set(entries@),
{
    lemma_declared_names(entries@);
}

/// A manifest that has nothing at `workspace.metadata.scripts` and nothing
/// at `package.metadata.scripts` declares no scripts.
pub proof fn lemma_no_scripts(document: Node)
    requires
        document.descend("workspace"@, "metadata"@, "scripts"@) is None,
        document.descend("package"@, "metadata"@, "scripts"@) is None,
    ensures
        scripts_of(document) is None,
{
}

/// The scripts that the entries of a table declare, where each holds a
/// string.
pub fn collect_scripts(entries: &Vec<(String, Node)>) -> (r: Option<ScriptTable>)
    ensures
        r is Some <==> all_text(entries@),
        r is Some ==> r->Some_0.wf() && r->Some_0@ == declared(entries@),
{
    let mut table = ScriptTable::new();
    let mut i: usize = 0;
    while i < entries.len()
        invariant
            i <= entries.len(),
            table.wf(),
            all_text(entries@.subrange(0, i as int)),
            table@ == declared(entries@.subrange(0, i as int)),
        decreases entries.len() - i,
    {
        let ghost upto = entries@.subrange(0, i + 1);
        assert(upto.drop_last() =~= entries@.subrange(0, i as int));
        assert(upto.last() == entries@[i as int]);
        match &entries[i].1 {
            Node::Text(text) => {
                table.insert_new(entries[i].0.clone(), text.clone());
                assert forall|j: int| 0 <= j < upto.len() implies (#[trigger] upto[j]).1 is Text by {
                    if j < i {
                        assert(entries@.subrange(0, i as int)[j] == upto[j]);
                    }
                }
            },
            _ => {
                assert(!(entries@[i as int].1 is Text));
                return None;
            },
        }
        i += 1;
    }
    assert(entries@.subrange(0, i as int) =~= entries@);
    Some(table)
}

/// The scripts declared under the root key `root` of `document`.
pub fn scripts_in(document: &Node, root: &str) -> (r: Option<ScriptTable>)
    ensures
        r is Some <==> scripts_under(*document, root@) is Some,
        r is Some ==> r->Some_0.wf() && Some(r->Some_0@) == scripts_under(*document, root@),
{
    let section = match document.get(root) {
        Some(section) => section,
        None => { return None; },
    };
    let metadata = match section.get("metadata") {
        Some(metadata) => metadata,
        None => { return None; },
    };
    match metadata.get("scripts") {
        Some(Node::Table(entries)) => collect_scripts(entries),
        _ => None,
    }
}

/// The reason given when a manifest declares no scripts.
pub open spec fn no_script_info_reason() -> Seq<char> {
    "toml file does not contain package.metadata.scripts or workspace.metadata.scripts table"@
}

/// The scripts that the manifest `document` declares. Fails with
/// `NoScriptInfo` exactly when it has them neither under `workspace` nor
/// under `package`.
pub fn extract_scripts(document: &Node) -> (r: Result<ScriptTable, Error>)
    ensures
        r is Ok <==> scripts_of(*document) is Some,
        r is Ok ==> r->Ok_0.wf() && Some(r->Ok_0@) == scripts_of(*document),
        r is Err ==> r->Err_0.error_type == ErrorType::NoScriptInfo && r->Err_0.reason@
            == no_script_info_reason(),
{
    match scripts_in(document, "workspace") {
        Some(table) => Ok(table),
        None => match scripts_in(document, "package") {
            Some(table) => Ok(table),
            None => Err(
                Error::new(
                    ErrorType::NoScriptInfo,
                    "toml file does not contain package.metadata.scripts or workspace.metadata.scripts table",
                ),
            ),
        },
    }
}

/// `toml::Value`, the `toml` crate's tree of a document. Nothing is known
/// of what such a value holds.
#[verifier::external_type_specification]
#[verifier::external_body]
pub struct ExTomlValue(toml::Value);

/// The tree of the TOML document `text`, as `toml::from_str` reads it into a
/// `toml::Value`; `None` where `text` is no TOML document.
pub uninterp spec fn toml_document(text: Seq<char>) -> Option<Node>;

/// The conversion that `read_document` applies to what `toml::from_str`
/// returned. It turns a `toml::Value` into a `Node`, variant by variant: a
/// string and a table keep what they hold, a table's entries in the order
/// in which the table hands them out; every other value becomes
/// `Node::Other`. Nothing is claimed of the result here.
#[verifier::external_body]
fn node_of(value: toml::Value) -> Node {
    match value {
        toml::Value::String(text) => Node::Text(text),
        toml::Value::Table(table) => Node::Table(
            table.into_iter().map(|(key, child)| (key, node_of(child))).collect(),
        ),
        toml::Value::Integer(_) | toml::Value::Float(_) | toml::Value::Boolean(_) => Node::Other,
        toml::Value::Datetime(_) | toml::Value::Array(_) => Node::Other,
    }
}

/// Calls `toml::from_str` to read `text` into a `toml::Value`, and hands the
/// value out as a tree of this library. The contract only names the result:
/// the same text always gives the same tree, and none where the call fails.
#[verifier::external_body]
fn read_document(text: &str) -> (r: Option<Node>)
    ensures
        r == toml_document(text@),
{
    match toml::from_str::<toml::Value>(text) {
        Ok(value) => Some(node_of(value)),
        Err(_) => None,
    }
}

/// The scripts that a manifest's text declares.
pub open spec fn manifest_scripts(text: Seq<char>) -> Option<Map<Seq<char>, Seq<char>>> {
    match toml_document(text) {
        Some(document) => scripts_of(document),
        None => None,
    }
}

/// Reads the scripts out of a manifest's text. Fails with `NoScriptInfo`
/// exactly when the text is no TOML document or the document declares no
/// scripts.
pub fn parse_manifest(text: &str) -> (r: Result<ScriptTable, Error>)
    ensures
        r is Ok <==> manifest_scripts(text@) is Some,
        r is Ok ==> r->Ok_0.wf() && Some(r->Ok_0@) == manifest_scripts(text@),
        r is Err ==> r->Err_0.error_type == ErrorType::NoScriptInfo && r->Err_0.reason@
            == no_script_info_reason(),
{
    match read_document(text) {
        Some(document) => extract_scripts(&document),
        None => Err(
            Error::new(
                ErrorType::NoScriptInfo,
                "toml file does not contain package.metadata.scripts or workspace.metadata.scripts table",
            ),
        ),
    }
}

} // verus!
