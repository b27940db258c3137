use vstd::prelude::*;
use crate::config::MANIFEST_FILE_NAME;
use crate::path::{ancestors, join, join_path, last_segment, parent_of};

verus! {

/// The kind of a Noir project.
#[derive(Clone, Copy, Debug, PartialEq, Eq, Structural)]
pub enum PackageType {
    Library,
    Contract,
    Binary,
}

impl PackageType {
    /// The manifest spelling of the type: `lib`, `contract` or `bin`.
    pub fn as_str(&self) -> (r: &'static str)
        ensures
            r@ == package_type_text(*self),
    {
        match self {
            PackageType::Library => "lib",
            PackageType::Contract => "contract",
            PackageType::Binary => "bin",
        }
    }
}

pub open spec fn package_type_text(t: PackageType) -> Seq<char> {
    match t {
        PackageType::Library => "lib"@,
        PackageType::Contract => "contract"@,
        PackageType::Binary => "bin"@,
    }
}

/// The `[package]` table of a manifest. Every field is optional when read;
/// the operations that need one check for it.
pub struct Package {
    pub name: Option<String>,
    pub package_type: Option<PackageType>,
    pub compiler_version: Option<String>,
    pub authors: Option<Vec<String>>,
    pub version: Option<String>,
    pub description: Option<String>,
    pub license: Option<String>,
    pub keywords: Option<Vec<String>>,
    pub documentation: Option<String>,
    pub repository: Option<String>,
}

/// How a dependency is declared.
pub enum Dependency {
    Git { git: String, tag: Option<String>, directory: Option<String> },
    Path { path: String },
}

/// A parsed manifest: package metadata and the declared dependencies.
pub struct Manifest {
    pub package: Package,
    pub dependencies: Vec<(String, Dependency)>,
}

/// The candidate manifest paths for a project directory: the manifest file
/// name joined onto the directory and onto each of its ancestors, nearest
/// first. The first of them that exists is the project's manifest.
pub fn try_find_manifest(start_dir: &str) -> (r: Vec<String>)
    ensures
        r@.len() == ancestors(start_dir@).len(),
        forall|k: int|
            0 <= k < r@.len() ==> #[trigger] r@[k]@ == join_path(
                ancestors(start_dir@)[k],
                MANIFEST_FILE_NAME@,
            ),
{
    let mut r: Vec<String> = Vec::new();
    let mut dir = String::from_str(start_dir);
    let ghost done: Seq<Seq<char>> = Seq::empty();
    loop
        invariant
            ancestors(start_dir@) == done + ancestors(dir@),
            r@.len() == done.len(),
            forall|k: int|
                0 <= k < r@.len() ==> #[trigger] r@[k]@ == join_path(done[k], MANIFEST_FILE_NAME@),
        ensures
            r@.len() == ancestors(start_dir@).len(),
            forall|k: int|
                0 <= k < r@.len() ==> #[trigger] r@[k]@ == join_path(
                    ancestors(start_dir@)[k],
                    MANIFEST_FILE_NAME@,
                ),
        decreases dir@.len(),
    {
        r.push(join(dir.as_str(), MANIFEST_FILE_NAME));
        let ghost d = dir@;
        proof {
            crate::path::lemma_parent_shorter(d);
        }
        match parent_of(dir.as_str()) {
            Some(p) => {
                proof {
                    assert(ancestors(d) == seq![d] + ancestors(p@));
                    assert(done + ancestors(d) =~= done.push(d) + ancestors(p@));
                    done = done.push(d);
                }
                dir = p;
            },
            None => {
                proof {
                    assert(ancestors(d) == seq![d]);
                    done = done.push(d);
                    assert(ancestors(start_dir@) =~= done);
                }
                return r;
            },
        }
    }
}


#[verifier::external_type_specification]
#[verifier::external_body]
pub struct ExDocumentMut(toml_edit::DocumentMut);

#[verifier::external_type_specification]
#[verifier::external_body]
pub struct ExTomlError(toml_edit::TomlError);

/// The manifest table that declares dependencies.
pub const DEPENDENCIES_TABLE: &'static str = "dependencies";

/// The field of a dependency that holds its path.
pub const PATH_FIELD: &'static str = "path";

/// The entries of the table-like top-level item `table` of a document, in
/// document order: each key with the string held by its `field` field, if
/// any. Empty when there is no such table-like item.
pub uninterp spec fn table_entries(doc: toml_edit::DocumentMut, table: Seq<char>, field: Seq<char>) -> Seq<(Seq<char>, Option<Seq<char>>)>;

/// The root of the document has no entry `table`, or a table or inline
/// table there.
pub uninterp spec fn table_writable(doc: toml_edit::DocumentMut, table: Seq<char>) -> bool;

/// The top-level entries of the document other than `table`, in order, each
/// key with the TOML text of its item.
pub uninterp spec fn other_items(doc: toml_edit::DocumentMut, table: Seq<char>) -> Seq<(Seq<char>, Seq<char>)>;

/// The text is a TOML document.
pub uninterp spec fn parses_as_toml(text: Seq<char>) -> bool;

/// The document written back as TOML text.
pub uninterp spec fn rendered(doc: toml_edit::DocumentMut) -> Seq<char>;

pub type DepEntries = Seq<(Seq<char>, Option<Seq<char>>)>;

/// The entries as a map from dependency name to its path, if any.
pub open spec fn entry_map(e: DepEntries) -> Map<Seq<char>, Option<Seq<char>>> {
    Map::new(|k: Seq<char>| exists|i: int| 0 <= i < e.len() && e[i].0 == k, |k: Seq<char>| e[entry_index(e, k)].1)
}

/// An index of the entry named `k`.
pub open spec fn entry_index(e: DepEntries, k: Seq<char>) -> int {
    choose|i: int| 0 <= i < e.len() && e[i].0 == k
}

pub open spec fn opt_view(o: Option<String>) -> Option<Seq<char>> {
    match o {
        Some(s) => Some(s@),
        None => None,
    }
}

pub open spec fn entries_view(v: Seq<(String, Option<String>)>) -> DepEntries {
    v.map_values(|e: (String, Option<String>)| (e.0@, opt_view(e.1)))
}

/// Relies on `<toml_edit::DocumentMut as FromStr>::from_str`, which parses TOML
/// text and keeps its layout for writing back.
#[verifier::external_body]
fn parse_document(text: &str) -> (r: Result<toml_edit::DocumentMut, toml_edit::TomlError>)
    ensures
        r is Ok == parses_as_toml(text@),
{
    text.parse::<toml_edit::DocumentMut>()
}

/// Relies on `toml_edit::DocumentMut`'s `Display`, which writes the document
/// back as TOML text.
#[verifier::external_body]
fn render_document(doc: &toml_edit::DocumentMut) -> (r: String)
    ensures
        r@ == rendered(*doc),
{
    doc.to_string()
}

/// Relies on toml_edit's `Table::get`, `Item::as_table_like`, `TableLike::iter`,
/// `Item::get` and `Item::as_str`: the table is read in order.
#[verifier::external_body]
fn read_table_entries(doc: &toml_edit::DocumentMut, table: &str, field: &str) -> (r: Vec<(String, Option<String>)>)
    ensures
        entries_view(r@) == table_entries(*doc, table@, field@),
{
    match doc.get(table).and_then(|d| d.as_table_like()) {
        Some(t) => t.iter().map(
            |(k, v)| (k.to_string(), v.get(field).and_then(|p| p.as_str()).map(|p| p.to_string())),
        ).collect(),
        None => Vec::new(),
    }
}

/// Relies on toml_edit's `Table::entry`, `Entry::or_insert`,
/// `Item::as_table_like_mut`, `InlineTable::insert` and `TableLike::insert`: a
/// missing `table` is created at the end of the document; a table-like one
/// gets `name = { field = value }`, replacing an entry of that name. When the
/// entry `table` holds something else, nothing changes and `false` comes back.
/// No other top-level entry is touched.
#[verifier::external_body]
fn insert_table_entry(doc: &mut toml_edit::DocumentMut, table: &str, name: &str, field: &str, value: &str) -> (ok: bool)
    ensures
        ok == table_writable(*old(doc), table@),
        ok ==> entry_map(table_entries(*final(doc), table@, field@)) == entry_map(
            table_entries(*old(doc), table@, field@),
        ).insert(name@, Some(value@)),
        !ok ==> table_entries(*final(doc), table@, field@) == table_entries(*old(doc), table@, field@),
        other_items(*final(doc), table@) == other_items(*old(doc), table@),
{
    let item = doc.entry(table).or_insert(toml_edit::Item::Table(toml_edit::Table::new()));
    match item.as_table_like_mut() {
        Some(t) => {
            let mut entry = toml_edit::InlineTable::new();
            entry.insert(field, toml_edit::Value::from(value));
            t.insert(name, toml_edit::Item::Value(toml_edit::Value::InlineTable(entry)));
            true
        },
        None => false,
    }
}

/// Relies on toml_edit's `Table::get_mut`, `Item::as_table_like_mut` and
/// `TableLike::remove`, which removes with `IndexMap::shift_remove` and so
/// keeps the order of the other entries. No other top-level entry is
/// touched.
#[verifier::external_body]
fn remove_table_entry(doc: &mut toml_edit::DocumentMut, table: &str, name: &str)
    ensures
        forall|field: Seq<char>| #[trigger] table_entries(*final(doc), table@, field) == table_entries(
            *old(doc),
            table@,
            field,
        ).filter(|e: (Seq<char>, Option<Seq<char>>)| e.0 != name@),
        other_items(*final(doc), table@) == other_items(*old(doc), table@),
{
    if let Some(t) = doc.get_mut(table).and_then(|d| d.as_table_like_mut()) {
        t.remove(name);
    }
}

/// Why a manifest could not be read or changed.
#[derive(Debug)]
pub enum ManifestError {
    /// The text is not valid TOML.
    InvalidToml,
    /// `dependencies` exists but is not a table.
    DependenciesNotATable,
}

/// A manifest file's text, parsed for editing with its layout kept.
pub struct ManifestDocument {
    doc: toml_edit::DocumentMut,
}

/// The path dependencies listed in `e`, each as its name and the last
/// segment of its non-empty path (the version of a cached package).
pub open spec fn listed_dependencies(e: DepEntries) -> Seq<(Seq<char>, Seq<char>)>
    decreases e.len(),
{
    if e.len() == 0 {
        Seq::empty()
    } else {
        let rest = listed_dependencies(e.drop_last());
        match e.last().1 {
            Some(p) => if p.len() > 0 {
                rest.push((e.last().0, last_segment(p)))
            } else {
                rest
            },
            None => rest,
        }
    }
}

proof fn lemma_listed_contains(e: DepEntries, i: int, p: Seq<char>)
    requires
        0 <= i < e.len(),
        e[i].1 == Some(p),
        p.len() > 0,
    ensures
        listed_dependencies(e).contains((e[i].0, last_segment(p))),
    decreases e.len(),
{
    let rest = listed_dependencies(e.drop_last());
    if i == e.len() - 1 {
        assert(listed_dependencies(e) == rest.push((e[i].0, last_segment(p))));
        assert(listed_dependencies(e).last() == (e[i].0, last_segment(p)));
    } else {
        assert(e.drop_last()[i] == e[i]);
        lemma_listed_contains(e.drop_last(), i, p);
        let j = choose|j: int| 0 <= j < rest.len() && rest[j] == (e[i].0, last_segment(p));
        match e.last().1 {
            Some(q) => if q.len() > 0 {
                assert(listed_dependencies(e)[j] == rest[j]);
            } else {
            },
            None => {},
        }
        assert(listed_dependencies(e)[j] == rest[j]);
    }
}

/// A dependency written with a non-empty path is then listed, with the last
/// segment of that path as its version.
pub proof fn lemma_written_dependency_is_listed(
    before: DepEntries,
    after: DepEntries,
    name: Seq<char>,
    path: Seq<char>,
)
    requires
        entry_map(after) == entry_map(before).insert(name, Some(path)),
        path.len() > 0,
    ensures
        listed_dependencies(after).contains((name, last_segment(path))),
{
    assert(entry_map(after).dom().contains(name));
    assert(entry_map(after)[name] == Some(path));
    let i = entry_index(after, name);
    assert(entry_map(after)[name] == after[i].1);
    lemma_listed_contains(after, i, path);
}

impl ManifestDocument {
    /// The entries of the document's dependency table.
    pub closed spec fn entries(&self) -> DepEntries {
        table_entries(self.doc, DEPENDENCIES_TABLE@, PATH_FIELD@)
    }

    /// A dependency entry can be written: the dependency table is missing or
    /// is a table.
    pub closed spec fn writable(&self) -> bool {
        table_writable(self.doc, DEPENDENCIES_TABLE@)
    }

    /// Everything at the top of the document but the dependency table, such
    /// as the `[package]` table.
    pub closed spec fn rest(&self) -> Seq<(Seq<char>, Seq<char>)> {
        other_items(self.doc, DEPENDENCIES_TABLE@)
    }

    /// The document as TOML text.
    pub closed spec fn text(&self) -> Seq<char> {
        rendered(self.doc)
    }

    /// Parses manifest text.
    pub fn parse(text: &str) -> (r: Result<ManifestDocument, ManifestError>)
        ensures
            r is Ok == parses_as_toml(text@),
            r matches Err(e) ==> e == ManifestError::InvalidToml,
    {
        match parse_document(text) {
            Ok(doc) => Ok(ManifestDocument { doc }),
            Err(_) => Err(ManifestError::InvalidToml),
        }
    }

    /// The document as TOML text.
    pub fn to_text(&self) -> (r: String)
        ensures
            r@ == self.text(),
    {
        render_document(&self.doc)
    }

    /// Sets the dependency `package_name` to `{ path = path }`, creating the
    /// dependency table when it is missing.
    pub fn write_package_dep(&mut self, package_name: &str, path: &str) -> (r: Result<
        (),
        ManifestError,
    >)
        ensures
            r is Ok == old(self).writable(),
            r is Ok ==> entry_map(final(self).entries()) == entry_map(old(self).entries()).insert(
                package_name@,
                Some(path@),
            ),
            r matches Err(e) ==> e == ManifestError::DependenciesNotATable && final(self).entries()
                == old(self).entries(),
            final(self).rest() == old(self).rest(),
    {
        if insert_table_entry(&mut self.doc, DEPENDENCIES_TABLE, package_name, PATH_FIELD, path) {
            Ok(())
        } else {
            Err(ManifestError::DependenciesNotATable)
        }
    }

    /// Removes the dependency `package_name`, if present.
    pub fn remove_package(&mut self, package_name: &str)
        ensures
            final(self).entries() == old(self).entries().filter(
                |e: (Seq<char>, Option<Seq<char>>)| e.0 != package_name@,
            ),
            final(self).rest() == old(self).rest(),
    {
        remove_table_entry(&mut self.doc, DEPENDENCIES_TABLE, package_name);
    }

    /// The path dependencies with the version read from each path, in
    /// document order.
    pub fn get_dependencies(&self) -> (r: Vec<(String, String)>)
        ensures
            r@.map_values(|d: (String, String)| (d.0@, d.1@)) == listed_dependencies(
                self.entries(),
            ),
    {
        let entries = read_table_entries(&self.doc, DEPENDENCIES_TABLE, PATH_FIELD);
        let ghost ev = entries_view(entries@);
        let mut r: Vec<(String, String)> = Vec::new();
        let mut i: usize = 0;
        while i < entries.len()
            invariant
                i <= entries@.len(),
                ev == entries_view(entries@),
                ev == self.entries(),
                r@.map_values(|d: (String, String)| (d.0@, d.1@)) == listed_dependencies(
                    ev.subrange(0, i as int),
                ),
            decreases entries@.len() - i,
        {
            assert(ev.subrange(0, i + 1).drop_last() =~= ev.subrange(0, i as int));
            let (name, path) = &entries[i];
            match path {
                Some(p) => {
                    match crate::path::extract_version_from_path(p.as_str()) {
                        Some(v) => {
                            let ghost before = r@;
                            r.push((name.clone(), v));
                            assert(r@.map_values(|d: (String, String)| (d.0@, d.1@)) =~= before.map_values(
                                |d: (String, String)| (d.0@, d.1@),
                            ).push((name@, v@)));
                        },
                        None => {},
                    }
                },
                None => {},
            }
            i = i + 1;
        }
        assert(ev.subrange(0, entries@.len() as int) =~= ev);
        r
    }
}

} // verus!
