//! The build manifest of the dispatcher program: its fixed identity and
//! release profile, the dispatch framework and runtime it is built on, and
//! one entry for each handler crate under its alias. The manifest is put
//! together as a TOML table and written out by the `toml` crate.

use vstd::prelude::*;
use crate::alias::{alias, alias_text, lemma_alias_first, lemma_alias_injective};
use crate::dependency::{DepArg, DepView, Deps, Package, is_numbering};

verus! {

#[verifier::external_type_specification]
#[verifier::external_body]
pub struct ExValue(toml::Value);

#[verifier::external_type_specification]
#[verifier::external_body]
#[verifier::reject_recursive_types(K)]
#[verifier::reject_recursive_types(V)]
pub struct ExMap<K, V>(toml::map::Map<K, V>);

#[verifier::external_type_specification]
#[verifier::external_body]
pub struct ExSerError(toml::ser::Error);

/// A TOML value, as far as a manifest holds one: a string, a boolean, an
/// array, or a table keyed by strings. The library builds its values from
/// these alone, and of such values alone its contracts speak.
pub enum Node {
    Text(Seq<char>),
    Flag(bool),
    List(Seq<Node>),
    Table(Map<Seq<char>, Node>),
}

/// What a `toml::Value` holds.
pub uninterp spec fn value_node(value: toml::Value) -> Node;

/// What a `toml::Table` holds: the value under each key.
pub uninterp spec fn table_entries(table: toml::Table) -> Map<Seq<char>, Node>;

/// The TOML document that `toml::to_string` writes for a table with these
/// entries, or `None` where it reports an error.
pub uninterp spec fn document_text(entries: Map<Seq<char>, Node>) -> Option<Seq<char>>;

/// The table that holds nothing.
pub open spec fn no_entries() -> Map<Seq<char>, Node> {
    Map::empty()
}

/// `toml::Value::String`: the value that holds the given string.
#[verifier::external_body]
fn value_text(text: &str) -> (value: toml::Value)
    ensures
        value_node(value) == Node::Text(text@),
{
    toml::Value::String(text.to_owned())
}

/// `toml::Value::Boolean`: the value that holds the given boolean.
#[verifier::external_body]
fn value_flag(flag: bool) -> (value: toml::Value)
    ensures
        value_node(value) == Node::Flag(flag),
{
    toml::Value::Boolean(flag)
}

/// `toml::Value::Array`: the array that holds the given values in their
/// order.
#[verifier::external_body]
fn value_list(items: Vec<toml::Value>) -> (value: toml::Value)
    ensures
        value_node(value) == Node::List(items@.map_values(|item: toml::Value| value_node(item))),
{
    toml::Value::Array(items)
}

/// `toml::Value::Table`: the value that holds the given table.
#[verifier::external_body]
fn value_table(table: toml::Table) -> (value: toml::Value)
    ensures
        value_node(value) == Node::Table(table_entries(table)),
{
    toml::Value::Table(table)
}

/// `toml::map::Map::new`: a table without entries.
#[verifier::external_body]
fn table_new() -> (fresh: toml::Table)
    ensures
        table_entries(fresh) == no_entries(),
{
    toml::Table::new()
}

/// `toml::map::Map::insert`: puts the value under the key, in place of what
/// was there before. Every other entry stays.
#[verifier::external_body]
fn table_insert(table: &mut toml::Table, key: &str, value: toml::Value)
    ensures
        table_entries(*final(table)) == table_entries(*old(table)).insert(key@, value_node(value)),
{
    table.insert(key.to_owned(), value);
}

/// `toml::to_string` on a table: the document is a function of the
/// entries, which it writes in the order of their keys. A table keeps its
/// entries by key as `toml` is built here, without its `preserve_order`
/// feature.
#[verifier::external_body]
fn table_document(table: &toml::Table) -> (written: Result<String, toml::ser::Error>)
    ensures
        match written {
            Ok(text) => document_text(table_entries(*table)) == Some(text@),
            Err(_) => document_text(table_entries(*table)) is None,
        },
{
    toml::to_string(table)
}

/// The table `[package]`: the dispatcher's fixed name, version and edition.
pub open spec fn package_entries() -> Map<Seq<char>, Node> {
    no_entries().insert("name"@, Node::Text("nvim-router"@)).insert(
        "version"@,
        Node::Text("0.1.0"@),
    ).insert("edition"@, Node::Text("2024"@))
}

/// The table `[profile]`: release builds strip symbols and optimise at link
/// time.
pub open spec fn profile_entries() -> Map<Seq<char>, Node> {
    no_entries().insert(
        "release"@,
        Node::Table(
            no_entries().insert("strip"@, Node::Text("symbols"@)).insert(
                "lto"@,
                Node::Flag(true),
            ),
        ),
    )
}

/// The dispatch framework, taken from its repository, with its `tokio`
/// feature.
pub open spec fn framework_dependency() -> Node {
    Node::Table(
        no_entries().insert(
            "features"@,
            Node::List(seq![Node::Text("tokio"@)]),
        ).insert("git"@, Node::Text("https://github.com/naughie/nvim-router.rs.git"@)).insert(
            "branch"@,
            Node::Text("main"@),
        ),
    )
}

/// The async runtime, with the features that the entry point uses.
pub open spec fn runtime_dependency() -> Node {
    Node::Table(
        no_entries().insert(
            "features"@,
            Node::List(
                seq![Node::Text("macros"@), Node::Text("rt-multi-thread"@), Node::Text("sync"@)],
            ),
        ).insert("version"@, Node::Text("1"@)),
    )
}

/// The dependencies that every dispatcher has.
pub open spec fn fixed_dependencies() -> Map<Seq<char>, Node> {
    no_entries().insert("nvim-router"@, framework_dependency()).insert(
        "tokio"@,
        runtime_dependency(),
    )
}

/// The entry of one handler crate: the package of that name, found at that
/// path.
pub open spec fn handler_dependency(dep: DepView) -> Node {
    Node::Table(
        no_entries().insert("package"@, Node::Text(dep.auto.name)).insert(
            "path"@,
            Node::Text(dep.user.path),
        ),
    )
}

/// The table `[dependencies]`: the fixed ones, and each handler crate under
/// the alias of its position.
pub open spec fn dependency_entries(deps: Seq<DepView>) -> Map<Seq<char>, Node>
    decreases deps.len(),
{
    if deps.len() == 0 {
        fixed_dependencies()
    } else {
        dependency_entries(deps.drop_last()).insert(
            alias((deps.len() - 1) as nat),
            handler_dependency(deps.last()),
        )
    }
}

/// The whole manifest.
pub open spec fn manifest_entries(deps: Seq<DepView>) -> Map<Seq<char>, Node> {
    no_entries().insert("package"@, Node::Table(package_entries())).insert(
        "profile"@,
        Node::Table(profile_entries()),
    ).insert("dependencies"@, Node::Table(dependency_entries(deps)))
}

/// The text of the choice between a written document and nothing.
pub open spec fn text_or_empty(written: Option<Seq<char>>) -> Seq<char> {
    match written {
        Some(text) => text,
        None => Seq::empty(),
    }
}

/// The manifest as text: the TOML document of [`manifest_entries`], and the
/// empty text where that cannot be written.
pub open spec fn manifest_text(deps: Seq<DepView>) -> Seq<char> {
    text_or_empty(document_text(manifest_entries(deps)))
}

/// The keys of `[dependencies]` are the two fixed names and the aliases of
/// the positions, and under the alias of each position stands the handler
/// crate of that position.
pub proof fn lemma_dependency_entries(deps: Seq<DepView>)
    ensures
        forall|key: Seq<char>| #[trigger]
            dependency_entries(deps).dom().contains(key) <==> (key == "nvim-router"@ || key
                == "tokio"@ || exists|i: nat| i < deps.len() && key == alias(i)),
        dependency_entries(deps)["nvim-router"@] == framework_dependency(),
        dependency_entries(deps)["tokio"@] == runtime_dependency(),
        forall|i: nat|
            i < deps.len() ==> dependency_entries(deps)[#[trigger] alias(i)] == handler_dependency(
                deps[i as int],
            ),
    decreases deps.len(),
{
    reveal_strlit("nvim-router");
    reveal_strlit("tokio");
    assert("nvim-router"@[0] == 'n' && "tokio"@[0] == 't');
    if deps.len() == 0 {
    } else {
        let front = deps.drop_last();
        let last = (deps.len() - 1) as nat;
        lemma_dependency_entries(front);
        lemma_alias_first(last);
        assert forall|i: nat| i < deps.len() implies dependency_entries(deps)[#[trigger] alias(i)]
            == handler_dependency(deps[i as int]) by {
            if i < last && alias(i) == alias(last) {
                lemma_alias_injective(i, last);
            }
        }
        assert forall|key: Seq<char>| #[trigger]
            dependency_entries(deps).dom().contains(key) <==> (key == "nvim-router"@ || key
                == "tokio"@ || exists|i: nat| i < deps.len() && key == alias(i)) by {
            if key == alias(last) {
                assert(last < deps.len());
            } else if dependency_entries(front).dom().contains(key) {
                if !(key == "nvim-router"@ || key == "tokio"@) {
                    let i = choose|i: nat| i < front.len() && key == alias(i);
                    assert(i < deps.len() && key == alias(i));
                }
            } else {
                if exists|i: nat| i < deps.len() && key == alias(i) {
                    let i = choose|i: nat| i < deps.len() && key == alias(i);
                    assert(i < front.len() && key == alias(i));
                }
            }
        }
    }
}

/// The text to hand out for what `toml::to_string` returned: the document,
/// or the empty text in place of an error.
pub fn written_or_empty(written: Result<String, toml::ser::Error>) -> (text: String)
    ensures
        text@ == match written {
            Ok(document) => document@,
            Err(_) => Seq::<char>::empty(),
        },
{
    match written {
        Ok(document) => document,
        Err(_) => String::new(),
    }
}

fn list_of_texts(texts: &Vec<&str>) -> (value: toml::Value)
    ensures
        value_node(value) == Node::List(texts@.map_values(|text: &str| Node::Text(text@))),
{
    let mut items: Vec<toml::Value> = Vec::new();
    let mut i: usize = 0;
    while i < texts.len()
        invariant
            i <= texts.len(),
            items@.map_values(|item: toml::Value| value_node(item)) == texts@.take(
                i as int,
            ).map_values(|text: &str| Node::Text(text@)),
        decreases texts.len() - i,
    {
        let ghost before = items@;
        items.push(value_text(texts[i]));
        assert(items@.map_values(|item: toml::Value| value_node(item)) =~= before.map_values(
            |item: toml::Value| value_node(item),
        ).push(Node::Text(texts@[i as int]@)));
        i += 1;
    }
    assert(texts@.take(i as int) =~= texts@);
    value_list(items)
}

fn package_table() -> (table: toml::Table)
    ensures
        table_entries(table) == package_entries(),
{
    let mut table = table_new();
    table_insert(&mut table, "name", value_text("nvim-router"));
    table_insert(&mut table, "version", value_text("0.1.0"));
    table_insert(&mut table, "edition", value_text("2024"));
    table
}

fn profile_table() -> (table: toml::Table)
    ensures
        table_entries(table) == profile_entries(),
{
    let mut release = table_new();
    table_insert(&mut release, "strip", value_text("symbols"));
    table_insert(&mut release, "lto", value_flag(true));
    let mut table = table_new();
    table_insert(&mut table, "release", value_table(release));
    table
}

fn framework_table() -> (table: toml::Table)
    ensures
        Node::Table(table_entries(table)) == framework_dependency(),
{
    let features: Vec<&str> = vec!["tokio"];
    assert(features@.map_values(|text: &str| Node::Text(text@)) =~= seq![Node::Text("tokio"@)]);
    let mut table = table_new();
    table_insert(&mut table, "features", list_of_texts(&features));
    table_insert(&mut table, "git", value_text("https://github.com/naughie/nvim-router.rs.git"));
    table_insert(&mut table, "branch", value_text("main"));
    table
}

fn runtime_table() -> (table: toml::Table)
    ensures
        Node::Table(table_entries(table)) == runtime_dependency(),
{
    let features: Vec<&str> = vec!["macros", "rt-multi-thread", "sync"];
    assert(features@.map_values(|text: &str| Node::Text(text@)) =~= seq![
        Node::Text("macros"@),
        Node::Text("rt-multi-thread"@),
        Node::Text("sync"@),
    ]);
    let mut table = table_new();
    table_insert(&mut table, "features", list_of_texts(&features));
    table_insert(&mut table, "version", value_text("1"));
    table
}

fn handler_table(args: &DepArg, pack: &Package) -> (table: toml::Table)
    ensures
        Node::Table(table_entries(table)) == handler_dependency(
            DepView { user: args@, auto: pack@ },
        ),
{
    let mut table = table_new();
    table_insert(&mut table, "package", value_text(pack.name.as_str()));
    table_insert(&mut table, "path", value_text(args.path.as_str()));
    table
}

impl Deps {
    /// The manifest of the dispatcher for this set.
    pub fn bin_cargo_toml(&self) -> (text: String)
        ensures
            text@ == manifest_text(self@),
    {
        let mut dependencies = table_new();
        table_insert(&mut dependencies, "nvim-router", value_table(framework_table()));
        table_insert(&mut dependencies, "tokio", value_table(runtime_table()));
        let entries = self.iter();
        let mut k: usize = 0;
        while k < entries.len()
            invariant
                k <= entries@.len(),
                is_numbering(entries@, self.0@),
                table_entries(dependencies) == dependency_entries(self@.take(k as int)),
            decreases entries@.len() - k,
        {
            let (i, args, pack) = entries[k];
            let name = alias_text(i);
            table_insert(&mut dependencies, name.as_str(), value_table(handler_table(args, pack)));
            proof {
                let next = self@.take(k as int + 1);
                assert(next.drop_last() =~= self@.take(k as int));
                assert(next.last() == self.0@[k as int]@);
            }
            k += 1;
        }
        assert(self@.take(k as int) =~= self@);
        let mut manifest = table_new();
        table_insert(&mut manifest, "package", value_table(package_table()));
        table_insert(&mut manifest, "profile", value_table(profile_table()));
        table_insert(&mut manifest, "dependencies", value_table(dependencies));
        written_or_empty(table_document(&manifest))
    }
}

} // verus!
