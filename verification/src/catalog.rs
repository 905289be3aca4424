//! The catalog: aggregates the parse results of many documents, claims
//! every identifier globally, rejects duplicates with dual-location
//! diagnostics, and indexes entities for lookup by identifier.
//!
//! A tree's member files are not separately visible as standalone entries:
//! looking a member up yields a tree-member reference.

use vstd::prelude::*;

use crate::chars::{chars_string, lit_string, push_str_chars, str_chars};
use crate::location::{spec_format_location, FormattedLocation, Location, LocationV};
use crate::parse::{
    parse_path_text, spec_parse_doc, spec_parse_error_message, spec_result_view, ParseError,
    ParseErrorV, ParsedMarkdown, ParsedV,
};
use crate::types::{
    clone_location, clone_strings, lemma_deep_view_push, Template, TemplateFile, TemplateFileV,
    TemplateTree, TemplateTreeV, TemplateV,
};

verus! {

// ---------------------------------------------------------------------------
// Errors
// ---------------------------------------------------------------------------
/// Why a catalog failed to build.
#[derive(Debug)]
pub enum CatalogError {
    /// One source document failed to parse.
    ParseFailed { path: String, error: ParseError },
    /// Two entities claimed one identifier.
    DuplicateId { id: String, first: Location, duplicate: Location },
    /// A tree was found inside a tree.
    NestedTree { tree_id: String, nested_id: String },
}

/// The mathematical model of a [`CatalogError`].
pub enum CatalogErrorV {
    ParseFailed(Seq<char>, ParseErrorV),
    DuplicateId(Seq<char>, LocationV, LocationV),
    NestedTree(Seq<char>, Seq<char>),
}

impl View for CatalogError {
    type V = CatalogErrorV;

    open spec fn view(&self) -> CatalogErrorV {
        match self {
            CatalogError::ParseFailed { path, error } => CatalogErrorV::ParseFailed(
                path@,
                error@,
            ),
            CatalogError::DuplicateId { id, first, duplicate } => CatalogErrorV::DuplicateId(
                id@,
                first@,
                duplicate@,
            ),
            CatalogError::NestedTree { tree_id, nested_id } => CatalogErrorV::NestedTree(
                tree_id@,
                nested_id@,
            ),
        }
    }
}

/// The display text of a catalog error.
pub open spec fn spec_catalog_error_message(e: CatalogErrorV) -> Seq<char> {
    match e {
        CatalogErrorV::ParseFailed(path, pe) => "Failed to parse template file: "@ + path + ": "@
            + spec_parse_error_message(pe),
        CatalogErrorV::DuplicateId(id, first, dup) => "Duplicate template id: "@ + id
            + " (duplicate occurrence at "@ + spec_format_location(dup) + "; first occurrence at "@
            + spec_format_location(first) + ")"@,
        CatalogErrorV::NestedTree(tree_id, nested_id) =>
            "Nested template trees are not supported (tree '"@ + tree_id + "', nested '"@
            + nested_id + "')"@,
    }
}

impl CatalogError {
    /// The display text of this error: for a duplicate identifier it names
    /// the id and both source locations.
    pub fn message(&self) -> (r: String)
        ensures
            r@ == spec_catalog_error_message(self@),
    {
        let mut out: Vec<char> = Vec::new();
        match self {
            CatalogError::ParseFailed { path, error } => {
                push_str_chars(&mut out, "Failed to parse template file: ");
                push_str_chars(&mut out, path.as_str());
                push_str_chars(&mut out, ": ");
                let m = error.message();
                push_str_chars(&mut out, m.as_str());
            },
            CatalogError::DuplicateId { id, first, duplicate } => {
                push_str_chars(&mut out, "Duplicate template id: ");
                push_str_chars(&mut out, id.as_str());
                push_str_chars(&mut out, " (duplicate occurrence at ");
                let d = FormattedLocation(clone_location(duplicate)).render();
                push_str_chars(&mut out, d.as_str());
                push_str_chars(&mut out, "; first occurrence at ");
                let f = FormattedLocation(clone_location(first)).render();
                push_str_chars(&mut out, f.as_str());
                push_str_chars(&mut out, ")");
            },
            CatalogError::NestedTree { tree_id, nested_id } => {
                push_str_chars(&mut out, "Nested template trees are not supported (tree '");
                push_str_chars(&mut out, tree_id.as_str());
                push_str_chars(&mut out, "', nested '");
                push_str_chars(&mut out, nested_id.as_str());
                push_str_chars(&mut out, "')");
            },
        }
        chars_string(&out)
    }
}

// ---------------------------------------------------------------------------
// Identifier registry
// ---------------------------------------------------------------------------
/// The location already recorded for an identifier, if any.
pub open spec fn spec_seen_lookup(
    seen: Seq<(Seq<char>, LocationV)>,
    id: Seq<char>,
) -> Option<LocationV>
    decreases seen.len(),
{
    if seen.len() == 0 {
        Option::None
    } else if seen[0].0 == id {
        Option::Some(seen[0].1)
    } else {
        spec_seen_lookup(seen.drop_first(), id)
    }
}

/// Claims identifiers and reports duplicates with both locations.
#[derive(Debug)]
pub struct IdRegistry {
    seen: Vec<(String, Location)>,
}

impl View for IdRegistry {
    type V = Seq<(Seq<char>, LocationV)>;

    /// The model of a registry: the recorded claims, in order.
    closed spec fn view(&self) -> Seq<(Seq<char>, LocationV)> {
        self.seen.deep_view()
    }
}

impl IdRegistry {
    /// An empty registry.
    pub fn new() -> (r: Self)
        ensures
            r@ == Seq::<(Seq<char>, LocationV)>::empty(),
    {
        let r = IdRegistry { seen: Vec::new() };
        proof {
            assert(r@ =~= Seq::<(Seq<char>, LocationV)>::empty());
        }
        r
    }

    /// Claim an identifier: recorded if fresh, a `DuplicateId` error naming
    /// both locations if already claimed.
    pub fn claim(&mut self, id: &str, location: &Location) -> (r: Result<(), CatalogError>)
        ensures
            match r {
                Result::Ok(()) => spec_seen_lookup(old(self)@, id@) is None && final (self)@
                    == old(self)@.push((id@, location@)),
                Result::Err(e) => final (self)@ == old(self)@ && (match spec_seen_lookup(
                    old(self)@,
                    id@,
                ) {
                    Option::Some(l) => e@ == CatalogErrorV::DuplicateId(id@, l, location@),
                    Option::None => false,
                }),
            },
    {
        let n = self.seen.len();
        proof {
            assert(self@.skip(0) =~= self@);
        }
        let mut i: usize = 0;
        while i < n
            invariant
                0 <= i <= n,
                n == self.seen@.len(),
                spec_seen_lookup(self@, id@) == spec_seen_lookup(
                    self@.skip(i as int),
                    id@,
                ),
            decreases n - i,
        {
            proof {
                assert(self@[i as int] == self.seen@[i as int].deep_view());
                assert(self@.skip(i as int)[0] == self@[i as int]);
                assert(self@.skip(i as int).drop_first() =~= self@.skip(i + 1));
            }
            let sc = str_chars(self.seen[i].0.as_str());
            if crate::chars::chars_eq_str(&sc, id) {
                return Result::Err(
                    CatalogError::DuplicateId {
                        id: lit_string(id),
                        first: clone_location(&self.seen[i].1),
                        duplicate: clone_location(location),
                    },
                );
            }
            i = i + 1;
        }
        proof {
            assert(self@.skip(n as int) =~= Seq::<(Seq<char>, LocationV)>::empty());
        }
        let ghost pre = self.seen;
        let entry = (lit_string(id), clone_location(location));
        self.seen.push(entry);
        proof {
            lemma_deep_view_push(pre, self.seen, entry);
            assert(self@ =~= pre.deep_view().push((id@, location@)));
        }
        Result::Ok(())
    }
}

/// Claim an identifier against a claim list: the new list on success, a
/// duplicate error naming both locations otherwise.
pub open spec fn spec_claim(
    seen: Seq<(Seq<char>, LocationV)>,
    id: Seq<char>,
    loc: LocationV,
) -> Result<Seq<(Seq<char>, LocationV)>, CatalogErrorV> {
    match spec_seen_lookup(seen, id) {
        Option::Some(l) => Result::Err(CatalogErrorV::DuplicateId(id, l, loc)),
        Option::None => Result::Ok(seen.push((id, loc))),
    }
}

// ---------------------------------------------------------------------------
// Catalog data
// ---------------------------------------------------------------------------
/// One source document handed to the catalog: its path (for diagnostics and
/// collection naming) and its text.
#[derive(Debug, Clone)]
pub struct Document {
    pub path: String,
    pub text: String,
}

/// The mathematical model of a [`Document`].
pub struct DocumentV {
    pub path: Seq<char>,
    pub text: Seq<char>,
}

impl View for Document {
    type V = DocumentV;

    open spec fn view(&self) -> DocumentV {
        DocumentV { path: self.path@, text: self.text@ }
    }
}

impl DeepView for Document {
    type V = DocumentV;

    open spec fn deep_view(&self) -> DocumentV {
        self@
    }
}

/// A tree held by the catalog: its members are plain file templates.
#[derive(Debug)]
pub struct CatalogTree {
    id: String,
    name: String,
    description: String,
    files: Vec<TemplateFile>,
    location: Location,
}

/// The mathematical model of a [`CatalogTree`].
pub struct CatalogTreeV {
    pub id: Seq<char>,
    pub name: Seq<char>,
    pub description: Seq<char>,
    pub files: Seq<TemplateFileV>,
    pub location: LocationV,
}

impl View for CatalogTree {
    type V = CatalogTreeV;

    closed spec fn view(&self) -> CatalogTreeV {
        CatalogTreeV {
            id: self.id@,
            name: self.name@,
            description: self.description@,
            files: self.files.deep_view(),
            location: self.location@,
        }
    }
}

impl DeepView for CatalogTree {
    type V = CatalogTreeV;

    closed spec fn deep_view(&self) -> CatalogTreeV {
        self@
    }
}

impl CatalogTree {
    /// The tree's identifier.
    pub fn id(&self) -> (r: &str)
        ensures
            r@ == self@.id,
    {
        self.id.as_str()
    }

    /// The tree's display name: its parent section's title.
    pub fn name(&self) -> (r: &str)
        ensures
            r@ == self@.name,
    {
        self.name.as_str()
    }

    /// The tree's description: prose before its first member heading.
    pub fn description(&self) -> (r: &str)
        ensures
            r@ == self@.description,
    {
        self.description.as_str()
    }

    /// The member files, in extraction order.
    pub fn files(&self) -> (r: &Vec<TemplateFile>)
        ensures
            r.deep_view() == self@.files,
    {
        &self.files
    }

    /// The source location of the parent section.
    pub fn location(&self) -> (r: &Location)
        ensures
            r@ == self@.location,
    {
        &self.location
    }
}

/// Where an identifier points within the catalog.
#[derive(Debug, Clone, Copy, PartialEq, Eq, Structural)]
pub enum TemplateRef {
    File(usize),
    Tree(usize),
    TreeFile { tree: usize, file: usize },
}

/// One entry of the identifier index.
#[derive(Debug)]
pub struct IndexEntry {
    pub id: String,
    pub target: TemplateRef,
}

/// The mathematical model of an [`IndexEntry`].
pub struct IndexEntryV {
    pub id: Seq<char>,
    pub target: TemplateRef,
}

impl View for IndexEntry {
    type V = IndexEntryV;

    open spec fn view(&self) -> IndexEntryV {
        IndexEntryV { id: self.id@, target: self.target }
    }
}

impl DeepView for IndexEntry {
    type V = IndexEntryV;

    open spec fn deep_view(&self) -> IndexEntryV {
        self@
    }
}

/// The mathematical model of a catalog.
pub struct CatalogV {
    pub files: Seq<TemplateFileV>,
    pub trees: Seq<CatalogTreeV>,
    pub index: Seq<IndexEntryV>,
}

/// The mathematical model of a catalog builder: the catalog parts plus the
/// identifier claims made so far.
pub struct BuilderV {
    pub files: Seq<TemplateFileV>,
    pub trees: Seq<CatalogTreeV>,
    pub index: Seq<IndexEntryV>,
    pub seen: Seq<(Seq<char>, LocationV)>,
}

/// The builder before any document was ingested.
pub open spec fn spec_builder_empty() -> BuilderV {
    BuilderV {
        files: Seq::empty(),
        trees: Seq::empty(),
        index: Seq::empty(),
        seen: Seq::empty(),
    }
}

/// Add one standalone file: claim its id and index it.
pub open spec fn spec_add_file(b: BuilderV, f: TemplateFileV) -> Result<BuilderV, CatalogErrorV> {
    match spec_claim(b.seen, f.id, f.location) {
        Result::Err(e) => Result::Err(e),
        Result::Ok(s2) => Result::Ok(
            BuilderV {
                files: b.files.push(f),
                trees: b.trees,
                index: b.index.push(
                    IndexEntryV { id: f.id, target: TemplateRef::File((b.files.len() as usize)) },
                ),
                seen: s2,
            },
        ),
    }
}

/// The state threaded while absorbing a tree's members.
pub struct AbsorbV {
    pub seen: Seq<(Seq<char>, LocationV)>,
    pub index: Seq<IndexEntryV>,
    pub files: Seq<TemplateFileV>,
    pub ids: Seq<Seq<char>>,
}

/// Absorb a tree's members from index `i` on: each member file's id is
/// claimed and indexed as a tree member; a nested tree is a fatal error.
pub open spec fn spec_absorb(
    members: Seq<TemplateV>,
    i: int,
    tree_idx: usize,
    tree_id: Seq<char>,
    st: AbsorbV,
) -> Result<AbsorbV, CatalogErrorV>
    decreases members.len() - i,
{
    if i < 0 || i >= members.len() {
        Result::Ok(st)
    } else {
        match members[i] {
            TemplateV::File(f) => match spec_claim(st.seen, f.id, f.location) {
                Result::Err(e) => Result::Err(e),
                Result::Ok(s2) => spec_absorb(
                    members,
                    i + 1,
                    tree_idx,
                    tree_id,
                    AbsorbV {
                        seen: s2,
                        index: st.index.push(
                            IndexEntryV {
                                id: f.id,
                                target: TemplateRef::TreeFile {
                                    tree: tree_idx,
                                    file: (st.files.len() as usize),
                                },
                            },
                        ),
                        files: st.files.push(f),
                        ids: st.ids.push(f.id),
                    },
                ),
            },
            TemplateV::Tree(nested) => Result::Err(
                CatalogErrorV::NestedTree(tree_id, nested.id),
            ),
        }
    }
}

/// Add one tree: claim its id, absorb its members, and index it. On success
/// the member ids are also returned.
pub open spec fn spec_add_tree(b: BuilderV, t: TemplateTreeV) -> Result<
    (BuilderV, Seq<Seq<char>>),
    CatalogErrorV,
> {
    match spec_claim(b.seen, t.id, t.location) {
        Result::Err(e) => Result::Err(e),
        Result::Ok(s2) => {
            let tree_idx = (b.trees.len() as usize);
            match spec_absorb(
                t.files,
                0,
                tree_idx,
                t.id,
                AbsorbV { seen: s2, index: b.index, files: Seq::empty(), ids: Seq::empty() },
            ) {
                Result::Err(e) => Result::Err(e),
                Result::Ok(st) => Result::Ok(
                    (
                        BuilderV {
                            files: b.files,
                            trees: b.trees.push(
                                CatalogTreeV {
                                    id: t.id,
                                    name: t.name,
                                    description: t.description,
                                    files: st.files,
                                    location: t.location,
                                },
                            ),
                            index: st.index.push(
                                IndexEntryV { id: t.id, target: TemplateRef::Tree(tree_idx) },
                            ),
                            seen: st.seen,
                        },
                        st.ids,
                    ),
                ),
            }
        },
    }
}

/// The file templates of a collection, in order.
pub open spec fn spec_files_part(ts: Seq<TemplateV>) -> Seq<TemplateFileV>
    decreases ts.len(),
{
    if ts.len() == 0 {
        Seq::empty()
    } else {
        spec_files_part(ts.drop_last()) + (match ts.last() {
            TemplateV::File(f) => seq![f],
            TemplateV::Tree(_) => Seq::empty(),
        })
    }
}

/// The trees of a collection, in order.
pub open spec fn spec_trees_part(ts: Seq<TemplateV>) -> Seq<TemplateTreeV>
    decreases ts.len(),
{
    if ts.len() == 0 {
        Seq::empty()
    } else {
        spec_trees_part(ts.drop_last()) + (match ts.last() {
            TemplateV::Tree(t) => seq![t],
            TemplateV::File(_) => Seq::empty(),
        })
    }
}

/// Absorb a collection's trees from index `i` on, accumulating every member
/// id.
pub open spec fn spec_absorb_trees(
    b: BuilderV,
    ts: Seq<TemplateTreeV>,
    i: int,
    ids: Seq<Seq<char>>,
) -> Result<(BuilderV, Seq<Seq<char>>), CatalogErrorV>
    decreases ts.len() - i,
{
    if i < 0 || i >= ts.len() {
        Result::Ok((b, ids))
    } else {
        match spec_add_tree(b, ts[i]) {
            Result::Err(e) => Result::Err(e),
            Result::Ok((b2, mids)) => spec_absorb_trees(b2, ts, i + 1, ids + mids),
        }
    }
}

/// Add a collection's bare files from index `i` on, skipping any whose id a
/// tree already absorbed.
pub open spec fn spec_add_files_skip(
    b: BuilderV,
    fs: Seq<TemplateFileV>,
    i: int,
    ids: Seq<Seq<char>>,
) -> Result<BuilderV, CatalogErrorV>
    decreases fs.len() - i,
{
    if i < 0 || i >= fs.len() {
        Result::Ok(b)
    } else if ids.contains(fs[i].id) {
        spec_add_files_skip(b, fs, i + 1, ids)
    } else {
        match spec_add_file(b, fs[i]) {
            Result::Err(e) => Result::Err(e),
            Result::Ok(b2) => spec_add_files_skip(b2, fs, i + 1, ids),
        }
    }
}

/// Ingest one parse result: a bare template or tree directly; a collection
/// tree-first, with bare files skipped when a tree already absorbed their
/// id.
pub open spec fn spec_ingest(b: BuilderV, p: ParsedV) -> Result<BuilderV, CatalogErrorV> {
    match p {
        ParsedV::Template(TemplateV::File(f)) => spec_add_file(b, f),
        ParsedV::Template(TemplateV::Tree(t)) => match spec_add_tree(b, t) {
            Result::Err(e) => Result::Err(e),
            Result::Ok((b2, _)) => Result::Ok(b2),
        },
        ParsedV::Tree(t) => match spec_add_tree(b, t) {
            Result::Err(e) => Result::Err(e),
            Result::Ok((b2, _)) => Result::Ok(b2),
        },
        ParsedV::Collection(c) => {
            let fs = spec_files_part(c.templates);
            let ts = spec_trees_part(c.templates);
            match spec_absorb_trees(b, ts, 0, Seq::empty()) {
                Result::Err(e) => Result::Err(e),
                Result::Ok((b2, ids)) => spec_add_files_skip(b2, fs, 0, ids),
            }
        },
    }
}

/// Load documents from index `i` on: parse each in order and ingest it,
/// aborting the whole build on the first error.
pub open spec fn spec_load_from(docs: Seq<DocumentV>, i: int, b: BuilderV) -> Result<
    BuilderV,
    CatalogErrorV,
>
    decreases docs.len() - i,
{
    if i < 0 || i >= docs.len() {
        Result::Ok(b)
    } else {
        match spec_parse_doc(docs[i].path, docs[i].text) {
            Result::Err(pe) => Result::Err(CatalogErrorV::ParseFailed(docs[i].path, pe)),
            Result::Ok(p) => match spec_ingest(b, p) {
                Result::Err(e) => Result::Err(e),
                Result::Ok(b2) => spec_load_from(docs, i + 1, b2),
            },
        }
    }
}

/// The catalog a finished builder yields.
pub open spec fn spec_catalog_of(b: BuilderV) -> CatalogV {
    CatalogV { files: b.files, trees: b.trees, index: b.index }
}

/// What loading a list of documents yields; the whole behaviour of
/// [`TemplateCatalog::load`].
pub open spec fn spec_load(docs: Seq<DocumentV>) -> Result<CatalogV, CatalogErrorV> {
    match spec_load_from(docs, 0, spec_builder_empty()) {
        Result::Err(e) => Result::Err(e),
        Result::Ok(b) => Result::Ok(spec_catalog_of(b)),
    }
}

// ---------------------------------------------------------------------------
// The builder
// ---------------------------------------------------------------------------
/// Append the elements of another string list.
pub fn append_strings(acc: &mut Vec<String>, other: Vec<String>)
    ensures
        final (acc).deep_view() == old(acc).deep_view() + other.deep_view(),
{
    let ghost otherv = other.deep_view();
    let n = other.len();
    let mut work = other;
    let mut i: usize = 0;
    while i < n
        invariant
            0 <= i <= n,
            n == otherv.len(),
            work@.len() == n - i,
            forall|q: int| 0 <= q < n - i ==> (#[trigger] work@[q])@ == otherv[i + q],
            acc@.len() == old(acc)@.len() + i,
            forall|q: int|
                0 <= q < old(acc)@.len() ==> (#[trigger] acc@[q])@ == old(acc).deep_view()[q],
            forall|q: int|
                old(acc)@.len() <= q < acc@.len() ==> (#[trigger] acc@[q])@ == otherv[q - old(
                    acc,
                )@.len()],
        decreases n - i,
    {
        let s = work.remove(0);
        acc.push(s);
        i = i + 1;
    }
    proof {
        assert forall|q: int| 0 <= q < acc@.len() implies #[trigger] acc.deep_view()[q] == (old(
            acc,
        ).deep_view() + otherv)[q] by {
            assert(acc.deep_view()[q] == acc@[q]@);
        }
        assert(acc.deep_view() =~= old(acc).deep_view() + otherv);
    }
}

/// Whether a string list holds the given string.
pub fn strings_contain(ids: &Vec<String>, id: &str) -> (r: bool)
    ensures
        r == ids.deep_view().contains(id@),
{
    let n = ids.len();
    let mut i: usize = 0;
    while i < n
        invariant
            0 <= i <= n,
            n == ids@.len(),
            forall|q: int| 0 <= q < i ==> #[trigger] ids.deep_view()[q] != id@,
        decreases n - i,
    {
        let sc = str_chars(ids[i].as_str());
        proof {
            assert(ids.deep_view()[i as int] == ids@[i as int]@);
        }
        if crate::chars::chars_eq_str(&sc, id) {
            return true;
        }
        i = i + 1;
    }
    proof {
        if ids.deep_view().contains(id@) {
            let w = choose|w: int| 0 <= w < ids.deep_view().len() && ids.deep_view()[w] == id@;
            assert(false);
        }
    }
    false
}

/// Builds one catalog by ingesting parse results in input order.
struct CatalogBuilder {
    files: Vec<TemplateFile>,
    trees: Vec<CatalogTree>,
    index: Vec<IndexEntry>,
    ids: IdRegistry,
}

impl View for CatalogBuilder {
    type V = BuilderV;

    closed spec fn view(&self) -> BuilderV {
        BuilderV {
            files: self.files.deep_view(),
            trees: self.trees.deep_view(),
            index: self.index.deep_view(),
            seen: self.ids@,
        }
    }
}

impl CatalogBuilder {
    fn new() -> (r: Self)
        ensures
            r@ == spec_builder_empty(),
    {
        let r = CatalogBuilder {
            files: Vec::new(),
            trees: Vec::new(),
            index: Vec::new(),
            ids: IdRegistry::new(),
        };
        proof {
            assert(r@.files =~= spec_builder_empty().files);
            assert(r@.trees =~= spec_builder_empty().trees);
            assert(r@.index =~= spec_builder_empty().index);
        }
        r
    }

    fn add_file(&mut self, file: TemplateFile) -> (r: Result<(), CatalogError>)
        ensures
            match r {
                Result::Ok(()) => spec_add_file(old(self)@, file@) == Result::<
                    BuilderV,
                    CatalogErrorV,
                >::Ok(final (self)@),
                Result::Err(e) => spec_add_file(old(self)@, file@) == Result::<
                    BuilderV,
                    CatalogErrorV,
                >::Err(e@) && final (self)@ == old(self)@,
            },
    {
        match self.ids.claim(file.id.as_str(), &file.location) {
            Result::Err(e) => Result::Err(e),
            Result::Ok(()) => {
                let idx = self.files.len();
                let entry = IndexEntry { id: file.id.clone(), target: TemplateRef::File(idx) };
                let ghost pre_index = self.index;
                let ghost pre_files = self.files;
                self.index.push(entry);
                self.files.push(file);
                proof {
                    lemma_deep_view_push(pre_index, self.index, entry);
                    lemma_deep_view_push(pre_files, self.files, file);
                }
                Result::Ok(())
            },
        }
    }

    #[verifier::loop_isolation(false)]
    fn add_tree(&mut self, tree: TemplateTree) -> (r: Result<Vec<String>, CatalogError>)
        ensures
            match r {
                Result::Ok(ids) => spec_add_tree(old(self)@, tree@) == Result::<
                    (BuilderV, Seq<Seq<char>>),
                    CatalogErrorV,
                >::Ok((final (self)@, ids.deep_view())),
                Result::Err(e) => spec_add_tree(old(self)@, tree@) == Result::<
                    (BuilderV, Seq<Seq<char>>),
                    CatalogErrorV,
                >::Err(e@),
            },
    {
        let ghost treev = tree@;
        let TemplateTree { kind: _, id, name, description, files, location } = tree;
        proof {
            assert(treev.id == id@);
            assert(treev.location == location@);
            assert(treev.files == crate::types::spec_templates_view(files@));
        }
        match self.ids.claim(id.as_str(), &location) {
            Result::Err(e) => {
                return Result::Err(e);
            },
            Result::Ok(()) => {},
        }
        proof {
            assert(spec_claim(old(self)@.seen, treev.id, treev.location) == Result::<
                Seq<(Seq<char>, LocationV)>,
                CatalogErrorV,
            >::Ok(self.ids@));
        }
        let tree_idx = self.trees.len();
        let ghost membersv = treev.files;
        let ghost st0 = AbsorbV {
            seen: self.ids@,
            index: self.index.deep_view(),
            files: Seq::empty(),
            ids: Seq::empty(),
        };
        proof {
            crate::types::lemma_templates_view_index(files@);
            assert(self.index.deep_view() == old(self)@.index);
            assert(self.trees.deep_view() == old(self)@.trees);
            assert(tree_idx == (old(self)@.trees.len() as usize));
        }
        let mut facc: Vec<TemplateFile> = Vec::new();
        let mut mids: Vec<String> = Vec::new();
        proof {
            assert(facc.deep_view() =~= Seq::<TemplateFileV>::empty());
            assert(mids.deep_view() =~= Seq::<Seq<char>>::empty());
        }
        let n = files.len();
        let mut work = files;
        let mut i: usize = 0;
        while i < n
            invariant
                0 <= i <= n,
                n == membersv.len(),
                work@.len() == n - i,
                forall|q: int|
                    0 <= q < n - i ==> crate::types::spec_template_view(#[trigger] work@[q])
                        == membersv[i + q],
                tree_idx == self.trees@.len(),
                spec_absorb(membersv, 0, tree_idx, treev.id, st0) == spec_absorb(
                    membersv,
                    i as int,
                    tree_idx,
                    treev.id,
                    AbsorbV {
                        seen: self.ids@,
                        index: self.index.deep_view(),
                        files: facc.deep_view(),
                        ids: mids.deep_view(),
                    },
                ),
                self.files.deep_view() == old(self)@.files,
                self.trees.deep_view() == old(self)@.trees,
            decreases n - i,
        {
            let member = work.remove(0);
            proof {
                assert(membersv[i as int] == crate::types::spec_template_view(member));
            }
            match member {
                Template::TemplateFile(f) => {
                    let ghost cur = AbsorbV {
                        seen: self.ids@,
                        index: self.index.deep_view(),
                        files: facc.deep_view(),
                        ids: mids.deep_view(),
                    };
                    match self.ids.claim(f.id.as_str(), &f.location) {
                        Result::Err(e) => {
                            proof {
                                assert(spec_absorb(membersv, i as int, tree_idx, treev.id, cur)
                                    == Result::<AbsorbV, CatalogErrorV>::Err(e@));
                                assert(spec_add_tree(old(self)@, treev) == Result::<
                                    (BuilderV, Seq<Seq<char>>),
                                    CatalogErrorV,
                                >::Err(e@));
                            }
                            return Result::Err(e);
                        },
                        Result::Ok(()) => {},
                    }
                    let entry = IndexEntry {
                        id: f.id.clone(),
                        target: TemplateRef::TreeFile { tree: tree_idx, file: facc.len() },
                    };
                    let fid = f.id.clone();
                    let ghost pre_index = self.index;
                    let ghost pre_facc = facc;
                    let ghost pre_mids = mids;
                    self.index.push(entry);
                    facc.push(f);
                    mids.push(fid);
                    proof {
                        lemma_deep_view_push(pre_index, self.index, entry);
                        lemma_deep_view_push(pre_facc, facc, f);
                        lemma_deep_view_push(pre_mids, mids, fid);
                    }
                },
                Template::TemplateTree(nested) => {
                    let err = CatalogError::NestedTree { tree_id: id, nested_id: nested.id };
                    proof {
                        assert(spec_add_tree(old(self)@, treev) == Result::<
                            (BuilderV, Seq<Seq<char>>),
                            CatalogErrorV,
                        >::Err(err@));
                    }
                    return Result::Err(err);
                },
            }
            i = i + 1;
        }
        let entry = IndexEntry { id: id.clone(), target: TemplateRef::Tree(tree_idx) };
        let ct = CatalogTree { id, name, description, files: facc, location };
        let ghost pre_index = self.index;
        let ghost pre_trees = self.trees;
        self.index.push(entry);
        self.trees.push(ct);
        proof {
            lemma_deep_view_push(pre_index, self.index, entry);
            lemma_deep_view_push(pre_trees, self.trees, ct);
        }
        Result::Ok(mids)
    }

    #[verifier::loop_isolation(false)]
    fn ingest(&mut self, parsed: ParsedMarkdown) -> (r: Result<(), CatalogError>)
        ensures
            match r {
                Result::Ok(()) => spec_ingest(old(self)@, parsed@) == Result::<
                    BuilderV,
                    CatalogErrorV,
                >::Ok(final (self)@),
                Result::Err(e) => spec_ingest(old(self)@, parsed@) == Result::<
                    BuilderV,
                    CatalogErrorV,
                >::Err(e@),
            },
    {
        match parsed {
            ParsedMarkdown::Template(Template::TemplateFile(f)) => self.add_file(f),
            ParsedMarkdown::Template(Template::TemplateTree(t)) => match self.add_tree(t) {
                Result::Err(e) => Result::Err(e),
                Result::Ok(_) => Result::Ok(()),
            },
            ParsedMarkdown::Tree(t) => match self.add_tree(t) {
                Result::Err(e) => Result::Err(e),
                Result::Ok(_) => Result::Ok(()),
            },
            ParsedMarkdown::Collection(c) => {
                let ghost cv = c@;
                let ghost tsv = crate::types::spec_templates_view(c.templates@);
                proof {
                    crate::types::lemma_templates_view_index(c.templates@);
                    assert(parsed@ == ParsedV::Collection(cv));
                    assert(cv.templates == tsv);
                }
                // Partition into bare files and trees, in order.
                let mut fvec: Vec<TemplateFile> = Vec::new();
                let mut tvec: Vec<TemplateTree> = Vec::new();
                let n = c.templates.len();
                let mut work = c.templates;
                let mut i: usize = 0;
                while i < n
                    invariant
                        0 <= i <= n,
                        n == tsv.len(),
                        work@.len() == n - i,
                        forall|q: int|
                            0 <= q < n - i ==> crate::types::spec_template_view(
                                #[trigger] work@[q],
                            ) == tsv[i + q],
                        fvec.deep_view() == spec_files_part(tsv.take(i as int)),
                        tvec.deep_view() == spec_trees_part(tsv.take(i as int)),
                        self@ == old(self)@,
                    decreases n - i,
                {
                    proof {
                        let t = tsv.take(i + 1);
                        assert(t.drop_last() =~= tsv.take(i as int));
                        assert(t.last() == tsv[i as int]);
                    }
                    let item = work.remove(0);
                    match item {
                        Template::TemplateFile(f) => {
                            let ghost pre = fvec;
                            fvec.push(f);
                            proof {
                                lemma_deep_view_push(pre, fvec, f);
                                assert(fvec.deep_view() =~= spec_files_part(tsv.take(i + 1)));
                                assert(tvec.deep_view() =~= spec_trees_part(tsv.take(i + 1)));
                            }
                        },
                        Template::TemplateTree(t) => {
                            let ghost pre = tvec;
                            tvec.push(t);
                            proof {
                                lemma_deep_view_push(pre, tvec, t);
                                assert(tvec.deep_view() =~= spec_trees_part(tsv.take(i + 1)));
                                assert(fvec.deep_view() =~= spec_files_part(tsv.take(i + 1)));
                            }
                        },
                    }
                    i = i + 1;
                }
                proof {
                    assert(tsv.take(n as int) =~= tsv);
                }
                let ghost fsv = spec_files_part(tsv);
                let ghost tsv2 = spec_trees_part(tsv);
                let ghost b0 = self@;
                // Trees first, collecting their member ids.
                let mut allids: Vec<String> = Vec::new();
                proof {
                    assert(allids.deep_view() =~= Seq::<Seq<char>>::empty());
                }
                let tn = tvec.len();
                let mut twork = tvec;
                let ghost tvecv = twork.deep_view();
                let mut k: usize = 0;
                while k < tn
                    invariant
                        0 <= k <= tn,
                        tn == tvecv.len(),
                        tvecv == tsv2,
                        twork@.len() == tn - k,
                        forall|q: int|
                            0 <= q < tn - k ==> (#[trigger] twork@[q])@ == tvecv[k + q],
                        spec_absorb_trees(b0, tsv2, 0, Seq::empty()) == spec_absorb_trees(
                            self@,
                            tsv2,
                            k as int,
                            allids.deep_view(),
                        ),
                    decreases tn - k,
                {
                    let t = twork.remove(0);
                    let ghost bpre = self@;
                    let ghost idspre = allids.deep_view();
                    proof {
                        assert(tsv2[k as int] == t@);
                    }
                    match self.add_tree(t) {
                        Result::Err(e) => {
                            proof {
                                assert(spec_absorb_trees(bpre, tsv2, k as int, idspre)
                                    == Result::<(BuilderV, Seq<Seq<char>>), CatalogErrorV>::Err(
                                    e@,
                                ));
                                assert(spec_ingest(old(self)@, parsed@) == Result::<
                                    BuilderV,
                                    CatalogErrorV,
                                >::Err(e@));
                            }
                            return Result::Err(e);
                        },
                        Result::Ok(mids) => {
                            append_strings(&mut allids, mids);
                        },
                    }
                    k = k + 1;
                }
                // Then the bare files, skipping any id a tree absorbed.
                let ghost b1 = self@;
                let fn_ = fvec.len();
                let mut fwork = fvec;
                let ghost fvecv = fwork.deep_view();
                let mut m: usize = 0;
                while m < fn_
                    invariant
                        0 <= m <= fn_,
                        fn_ == fvecv.len(),
                        fvecv == fsv,
                        fwork@.len() == fn_ - m,
                        forall|q: int|
                            0 <= q < fn_ - m ==> (#[trigger] fwork@[q])@ == fvecv[m + q],
                        spec_add_files_skip(b1, fsv, 0, allids.deep_view()) == spec_add_files_skip(
                            self@,
                            fsv,
                            m as int,
                            allids.deep_view(),
                        ),
                    decreases fn_ - m,
                {
                    let f = fwork.remove(0);
                    proof {
                        assert(fsv[m as int] == f@);
                    }
                    if strings_contain(&allids, f.id.as_str()) {
                        m = m + 1;
                        continue ;
                    }
                    let ghost bpre = self@;
                    match self.add_file(f) {
                        Result::Err(e) => {
                            proof {
                                assert(spec_add_files_skip(bpre, fsv, m as int, allids.deep_view())
                                    == Result::<BuilderV, CatalogErrorV>::Err(e@));
                                assert(spec_ingest(old(self)@, parsed@) == Result::<
                                    BuilderV,
                                    CatalogErrorV,
                                >::Err(e@));
                            }
                            return Result::Err(e);
                        },
                        Result::Ok(()) => {},
                    }
                    m = m + 1;
                }
                Result::Ok(())
            },
        }
    }

    fn finish(self) -> (r: TemplateCatalog)
        ensures
            r@ == spec_catalog_of(self@),
    {
        TemplateCatalog { files: self.files, trees: self.trees, index: self.index }
    }
}

// ---------------------------------------------------------------------------
// The catalog
// ---------------------------------------------------------------------------
/// The aggregate of all templates and trees ingested for one invocation,
/// queryable by identifier.
#[derive(Debug)]
pub struct TemplateCatalog {
    files: Vec<TemplateFile>,
    trees: Vec<CatalogTree>,
    index: Vec<IndexEntry>,
}

impl View for TemplateCatalog {
    type V = CatalogV;

    closed spec fn view(&self) -> CatalogV {
        CatalogV {
            files: self.files.deep_view(),
            trees: self.trees.deep_view(),
            index: self.index.deep_view(),
        }
    }
}

/// The target recorded for an identifier, scanning the index from `j` on.
pub open spec fn spec_index_lookup(
    index: Seq<IndexEntryV>,
    j: int,
    id: Seq<char>,
) -> Option<TemplateRef>
    decreases index.len() - j,
{
    if j < 0 || j >= index.len() {
        Option::None
    } else if index[j].id == id {
        Option::Some(index[j].target)
    } else {
        spec_index_lookup(index, j + 1, id)
    }
}

/// What looking a tree up yields: the indexed tree, when the identifier
/// names one.
pub open spec fn spec_get_tree(c: CatalogV, id: Seq<char>) -> Option<CatalogTreeV> {
    match spec_index_lookup(c.index, 0, id) {
        Option::Some(TemplateRef::Tree(i)) => if i < c.trees.len() {
            Option::Some(c.trees[i as int])
        } else {
            Option::None
        },
        _ => Option::None,
    }
}

/// A file found by identifier: either a standalone entry or a member of a
/// tree.
#[derive(Debug)]
pub enum FileRef<'a> {
    Standalone(&'a TemplateFile),
    TreeMember { tree: &'a CatalogTree, file: &'a TemplateFile },
}

/// The mathematical model of a [`FileRef`].
pub enum FileRefV {
    Standalone(TemplateFileV),
    TreeMember(CatalogTreeV, TemplateFileV),
}

impl<'a> View for FileRef<'a> {
    type V = FileRefV;

    open spec fn view(&self) -> FileRefV {
        match self {
            FileRef::Standalone(f) => FileRefV::Standalone(f@),
            FileRef::TreeMember { tree, file } => FileRefV::TreeMember(tree@, file@),
        }
    }
}

/// What looking a file up yields: a standalone reference, or a tree-member
/// reference — never a standalone view of a tree member.
pub open spec fn spec_get_file(c: CatalogV, id: Seq<char>) -> Option<FileRefV> {
    match spec_index_lookup(c.index, 0, id) {
        Option::Some(TemplateRef::File(i)) => if i < c.files.len() {
            Option::Some(FileRefV::Standalone(c.files[i as int]))
        } else {
            Option::None
        },
        Option::Some(TemplateRef::TreeFile { tree, file }) => if tree < c.trees.len() && file < c
            .trees[tree as int].files.len() {
            Option::Some(
                FileRefV::TreeMember(c.trees[tree as int], c.trees[tree as int].files[file as int]),
            )
        } else {
            Option::None
        },
        _ => Option::None,
    }
}

impl TemplateCatalog {
    /// Parse every document, in order, and aggregate the results into one
    /// catalog; any parse error, duplicate identifier or nested tree aborts
    /// the whole load.
    #[verifier::loop_isolation(false)]
    pub fn load(docs: &Vec<Document>) -> (r: Result<TemplateCatalog, CatalogError>)
        ensures
            match r {
                Result::Ok(c) => spec_load(docs.deep_view()) == Result::<
                    CatalogV,
                    CatalogErrorV,
                >::Ok(c@),
                Result::Err(e) => spec_load(docs.deep_view()) == Result::<
                    CatalogV,
                    CatalogErrorV,
                >::Err(e@),
            },
    {
        let ghost docsv = docs.deep_view();
        let mut builder = CatalogBuilder::new();
        let n = docs.len();
        let mut i: usize = 0;
        while i < n
            invariant
                0 <= i <= n,
                n == docsv.len(),
                docsv == docs.deep_view(),
                spec_load_from(docsv, 0, spec_builder_empty()) == spec_load_from(
                    docsv,
                    i as int,
                    builder@,
                ),
            decreases n - i,
        {
            proof {
                assert(docsv[i as int] == docs@[i as int]@);
            }
            let parsed = match parse_path_text(docs[i].path.as_str(), docs[i].text.as_str()) {
                Result::Ok(p) => p,
                Result::Err(pe) => {
                    return Result::Err(
                        CatalogError::ParseFailed { path: docs[i].path.clone(), error: pe },
                    );
                },
            };
            match builder.ingest(parsed) {
                Result::Ok(()) => {},
                Result::Err(e) => {
                    return Result::Err(e);
                },
            }
            i = i + 1;
        }
        Result::Ok(builder.finish())
    }

    /// Whether the catalog holds no entity at all.
    pub fn is_empty(&self) -> (r: bool)
        ensures
            r == (self@.files.len() == 0 && self@.trees.len() == 0),
    {
        self.files.len() == 0 && self.trees.len() == 0
    }

    /// The standalone file templates, in ingestion order.
    pub fn standalone_files(&self) -> (r: &Vec<TemplateFile>)
        ensures
            r.deep_view() == self@.files,
    {
        &self.files
    }

    /// The trees, in ingestion order.
    pub fn tree_templates(&self) -> (r: &Vec<CatalogTree>)
        ensures
            r.deep_view() == self@.trees,
    {
        &self.trees
    }

    /// A short usage hint, present exactly when the catalog is non-empty.
    pub fn instructions(&self) -> (r: Option<String>)
        ensures
            match r {
                Option::Some(s) => (self@.files.len() > 0 || self@.trees.len() > 0) && s@
                    == "Templates available via tools: refer to the tool list in your client"@,
                Option::None => self@.files.len() == 0 && self@.trees.len() == 0,
            },
    {
        if self.is_empty() {
            Option::None
        } else {
            Option::Some(
                lit_string("Templates available via tools: refer to the tool list in your client"),
            )
        }
    }

    /// The index target for an identifier, if any.
    fn index_lookup(&self, id: &str) -> (r: Option<TemplateRef>)
        ensures
            r == spec_index_lookup(self@.index, 0, id@),
    {
        let n = self.index.len();
        let mut j: usize = 0;
        while j < n
            invariant
                0 <= j <= n,
                n == self.index@.len(),
                spec_index_lookup(self@.index, 0, id@) == spec_index_lookup(
                    self@.index,
                    j as int,
                    id@,
                ),
            decreases n - j,
        {
            proof {
                assert(self@.index[j as int] == self.index@[j as int]@);
            }
            let sc = str_chars(self.index[j].id.as_str());
            if crate::chars::chars_eq_str(&sc, id) {
                return Option::Some(self.index[j].target);
            }
            j = j + 1;
        }
        Option::None
    }

    /// Look a tree up by identifier.
    pub fn get_tree(&self, id: &str) -> (r: Option<&CatalogTree>)
        ensures
            match r {
                Option::Some(t) => spec_get_tree(self@, id@) == Option::Some(t@),
                Option::None => spec_get_tree(self@, id@) is None,
            },
    {
        match self.index_lookup(id) {
            Option::Some(TemplateRef::Tree(i)) => {
                if i < self.trees.len() {
                    proof {
                        assert(self@.trees[i as int] == self.trees@[i as int]@);
                    }
                    Option::Some(&self.trees[i])
                } else {
                    Option::None
                }
            },
            _ => Option::None,
        }
    }

    /// Look a file up by identifier: a standalone reference or a tree-member
    /// reference. A tree member is never reported as standalone.
    pub fn get_file<'a>(&'a self, id: &str) -> (r: Option<FileRef<'a>>)
        ensures
            match r {
                Option::Some(fr) => spec_get_file(self@, id@) == Option::Some(fr@),
                Option::None => spec_get_file(self@, id@) is None,
            },
    {
        match self.index_lookup(id) {
            Option::Some(TemplateRef::File(i)) => {
                if i < self.files.len() {
                    proof {
                        assert(self@.files[i as int] == self.files@[i as int]@);
                    }
                    Option::Some(FileRef::Standalone(&self.files[i]))
                } else {
                    Option::None
                }
            },
            Option::Some(TemplateRef::TreeFile { tree, file }) => {
                if tree < self.trees.len() {
                    proof {
                        assert(self@.trees[tree as int] == self.trees@[tree as int]@);
                    }
                    let t = &self.trees[tree];
                    if file < t.files.len() {
                        proof {
                            assert(t@.files[file as int] == t.files@[file as int]@);
                        }
                        Option::Some(FileRef::TreeMember { tree: t, file: &t.files[file] })
                    } else {
                        Option::None
                    }
                } else {
                    Option::None
                }
            },
            _ => Option::None,
        }
    }
}

} // verus!
