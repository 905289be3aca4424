//! The extracted entities: arguments, file templates, trees, collections,
//! and rendering outputs, together with their mathematical models.

use vstd::prelude::*;

use crate::location::{Location, LocationV};

verus! {

/// Discriminator for unions of template kinds.
#[derive(Debug, Clone, Copy, PartialEq, Eq, Structural)]
pub struct TemplateFileKindFile;

/// Discriminator for unions of template kinds.
#[derive(Debug, Clone, Copy, PartialEq, Eq, Structural)]
pub struct TemplateTreeKindTree;

/// The declared type of a template argument.
#[derive(Debug, Clone, Copy, PartialEq, Eq, Structural)]
pub enum ArgKind {
    Any(ArgKindAny),
    Boolean(ArgKindBoolean),
    String(ArgKindString),
    Number(ArgKindNumber),
}

#[derive(Debug, Clone, Copy, PartialEq, Eq, Structural)]
pub struct ArgKindAny;

#[derive(Debug, Clone, Copy, PartialEq, Eq, Structural)]
pub struct ArgKindBoolean;

#[derive(Debug, Clone, Copy, PartialEq, Eq, Structural)]
pub struct ArgKindString;

#[derive(Debug, Clone, Copy, PartialEq, Eq, Structural)]
pub struct ArgKindNumber;

/// A declared template argument.
#[derive(Debug, Clone)]
pub struct Arg {
    pub name: String,
    pub description: String,
    pub kind: ArgKind,
    pub required: bool,
}

/// The mathematical model of an [`Arg`].
pub struct ArgV {
    pub name: Seq<char>,
    pub description: Seq<char>,
    pub kind: ArgKind,
    pub required: bool,
}

impl View for Arg {
    type V = ArgV;

    open spec fn view(&self) -> ArgV {
        ArgV {
            name: self.name@,
            description: self.description@,
            kind: self.kind,
            required: self.required,
        }
    }
}

impl DeepView for Arg {
    type V = ArgV;

    open spec fn deep_view(&self) -> ArgV {
        self@
    }
}

/// A single-file template extracted from one section.
#[derive(Debug, Clone)]
pub struct TemplateFile {
    /// Discriminator for unions.
    pub kind: TemplateFileKindFile,
    pub id: String,
    pub name: String,
    pub description: String,
    pub args: Vec<Arg>,
    /// Optional language hint from the fenced code block.
    pub lang: Option<String>,
    /// Raw template content.
    pub content: String,
    /// Optional relative path to use when writing to disk.
    pub path: Option<String>,
    pub location: Location,
}

/// The mathematical model of a [`TemplateFile`].
pub struct TemplateFileV {
    pub id: Seq<char>,
    pub name: Seq<char>,
    pub description: Seq<char>,
    pub args: Seq<ArgV>,
    pub lang: Option<Seq<char>>,
    pub content: Seq<char>,
    pub path: Option<Seq<char>>,
    pub location: LocationV,
}

impl View for TemplateFile {
    type V = TemplateFileV;

    open spec fn view(&self) -> TemplateFileV {
        TemplateFileV {
            id: self.id@,
            name: self.name@,
            description: self.description@,
            args: self.args.deep_view(),
            lang: self.lang.deep_view(),
            content: self.content@,
            path: self.path.deep_view(),
            location: self.location@,
        }
    }
}

impl DeepView for TemplateFile {
    type V = TemplateFileV;

    open spec fn deep_view(&self) -> TemplateFileV {
        self@
    }
}

/// A tree of template files grouped under a single parent heading.
#[derive(Debug)]
pub struct TemplateTree {
    /// Discriminator for unions.
    pub kind: TemplateTreeKindTree,
    pub id: String,
    pub name: String,
    /// Prose between the tree heading and the first file.
    pub description: String,
    pub files: Vec<Template>,
    pub location: Location,
}

/// The mathematical model of a [`TemplateTree`].
pub struct TemplateTreeV {
    pub id: Seq<char>,
    pub name: Seq<char>,
    pub description: Seq<char>,
    pub files: Seq<TemplateV>,
    pub location: LocationV,
}

/// Union of templates.
#[derive(Debug)]
pub enum Template {
    TemplateTree(TemplateTree),
    TemplateFile(TemplateFile),
}

/// The mathematical model of a [`Template`].
pub enum TemplateV {
    Tree(TemplateTreeV),
    File(TemplateFileV),
}

/// The model of one template union value.
pub open spec fn spec_template_view(t: Template) -> TemplateV
    decreases t,
{
    match t {
        Template::TemplateFile(f) => TemplateV::File(f@),
        Template::TemplateTree(tr) => TemplateV::Tree(
            TemplateTreeV {
                id: tr.id@,
                name: tr.name@,
                description: tr.description@,
                files: spec_templates_view(tr.files@),
                location: tr.location@,
            },
        ),
    }
}

/// The model of a list of template union values.
pub open spec fn spec_templates_view(s: Seq<Template>) -> Seq<TemplateV>
    decreases s,
{
    if s.len() == 0 {
        Seq::empty()
    } else {
        spec_templates_view(s.drop_last()).push(spec_template_view(s.last()))
    }
}

/// Lengths and members of the modelled template list line up one to one.
pub proof fn lemma_templates_view_index(s: Seq<Template>)
    ensures
        spec_templates_view(s).len() == s.len(),
        forall|i: int|
            0 <= i < s.len() ==> spec_templates_view(s)[i] == spec_template_view(s[i]),
    decreases s,
{
    if s.len() > 0 {
        lemma_templates_view_index(s.drop_last());
    }
}

impl View for Template {
    type V = TemplateV;

    open spec fn view(&self) -> TemplateV {
        spec_template_view(*self)
    }
}

impl DeepView for Template {
    type V = TemplateV;

    open spec fn deep_view(&self) -> TemplateV {
        self@
    }
}

impl View for TemplateTree {
    type V = TemplateTreeV;

    open spec fn view(&self) -> TemplateTreeV {
        TemplateTreeV {
            id: self.id@,
            name: self.name@,
            description: self.description@,
            files: spec_templates_view(self.files@),
            location: self.location@,
        }
    }
}

impl DeepView for TemplateTree {
    type V = TemplateTreeV;

    open spec fn deep_view(&self) -> TemplateTreeV {
        self@
    }
}

/// A collection of top-level templates parsed from a single document.
#[derive(Debug)]
pub struct TemplateCollection {
    pub name: String,
    pub description: String,
    pub templates: Vec<Template>,
    pub location: Location,
}

/// The mathematical model of a [`TemplateCollection`].
pub struct TemplateCollectionV {
    pub name: Seq<char>,
    pub description: Seq<char>,
    pub templates: Seq<TemplateV>,
    pub location: LocationV,
}

impl View for TemplateCollection {
    type V = TemplateCollectionV;

    open spec fn view(&self) -> TemplateCollectionV {
        TemplateCollectionV {
            name: self.name@,
            description: self.description@,
            templates: spec_templates_view(self.templates@),
            location: self.location@,
        }
    }
}

impl DeepView for TemplateCollection {
    type V = TemplateCollectionV;

    open spec fn deep_view(&self) -> TemplateCollectionV {
        self@
    }
}

/// Copy a list of strings, preserving its model.
pub fn clone_strings(v: &Vec<String>) -> (r: Vec<String>)
    ensures
        r.deep_view() == v.deep_view(),
{
    let mut out: Vec<String> = Vec::new();
    let n = v.len();
    let mut i: usize = 0;
    while i < n
        invariant
            0 <= i <= n,
            n == v@.len(),
            out@.len() == i,
            forall|q: int| 0 <= q < i ==> (#[trigger] out@[q])@ == v@[q]@,
        decreases n - i,
    {
        out.push(v[i].clone());
        i = i + 1;
    }
    proof {
        assert forall|q: int| 0 <= q < n implies #[trigger] out.deep_view()[q]
            == v.deep_view()[q] by {
            assert(out.deep_view()[q] == out@[q]@);
            assert(v.deep_view()[q] == v@[q]@);
        }
        assert(out.deep_view() =~= v.deep_view());
    }
    out
}

/// Copy an optional string, preserving its model.
pub fn clone_opt_string(o: &Option<String>) -> (r: Option<String>)
    ensures
        r.deep_view() == o.deep_view(),
{
    match o {
        Option::Some(s) => Option::Some(s.clone()),
        Option::None => Option::None,
    }
}

/// Copy a location, preserving its model.
pub fn clone_location(l: &Location) -> (r: Location)
    ensures
        r@ == l@,
{
    Location { path: l.path.clone(), span: l.span }
}

/// Copy an argument, preserving its model.
pub fn clone_arg(a: &Arg) -> (r: Arg)
    ensures
        r@ == a@,
{
    Arg {
        name: a.name.clone(),
        description: a.description.clone(),
        kind: a.kind,
        required: a.required,
    }
}

/// Copy an argument list, preserving its model.
pub fn clone_args(v: &Vec<Arg>) -> (r: Vec<Arg>)
    ensures
        r.deep_view() == v.deep_view(),
{
    let mut out: Vec<Arg> = Vec::new();
    let n = v.len();
    let mut i: usize = 0;
    while i < n
        invariant
            0 <= i <= n,
            n == v@.len(),
            out@.len() == i,
            forall|q: int| 0 <= q < i ==> (#[trigger] out@[q])@ == v@[q]@,
        decreases n - i,
    {
        let a = clone_arg(&v[i]);
        out.push(a);
        i = i + 1;
    }
    proof {
        assert forall|q: int| 0 <= q < n implies #[trigger] out.deep_view()[q]
            == v.deep_view()[q] by {
            assert(out.deep_view()[q] == out@[q]@);
            assert(v.deep_view()[q] == v@[q]@);
        }
        assert(out.deep_view() =~= v.deep_view());
    }
    out
}

/// Copy a file template, preserving its model.
pub fn clone_template_file(f: &TemplateFile) -> (r: TemplateFile)
    ensures
        r@ == f@,
{
    let r = TemplateFile {
        kind: TemplateFileKindFile,
        id: f.id.clone(),
        name: f.name.clone(),
        description: f.description.clone(),
        args: clone_args(&f.args),
        lang: clone_opt_string(&f.lang),
        content: f.content.clone(),
        path: clone_opt_string(&f.path),
        location: clone_location(&f.location),
    };
    r
}

/// Pushing onto a vector pushes the element's model onto the vector's model.
pub proof fn lemma_deep_view_push<T: DeepView>(pre: Vec<T>, post: Vec<T>, x: T)
    requires
        post@ == pre@.push(x),
    ensures
        post.deep_view() =~= pre.deep_view().push(x.deep_view()),
{
    assert forall|q: int| 0 <= q < post@.len() implies #[trigger] post.deep_view()[q]
        == pre.deep_view().push(x.deep_view())[q] by {
        assert(post.deep_view()[q] == post@[q].deep_view());
        if q < pre@.len() {
            assert(post@[q] == pre@[q]);
        }
    }
}

/// One rendered output file.
#[derive(Debug, Clone)]
pub struct OutputFile {
    /// Optional relative path for this file in the output.
    pub path: Option<String>,
    /// Optional language hint carried through for consumers.
    pub lang: Option<String>,
    /// Rendered file content.
    pub content: String,
}

/// A rendered output tree.
#[derive(Debug, Clone)]
pub struct OutputTree {
    pub files: Vec<OutputFile>,
}

/// Union of rendered outputs.
#[derive(Debug, Clone)]
pub enum Output {
    OutputTree(OutputTree),
    OutputFile(OutputFile),
}

/// The mathematical model of an [`OutputFile`].
pub struct OutputFileV {
    pub path: Option<Seq<char>>,
    pub lang: Option<Seq<char>>,
    pub content: Seq<char>,
}

impl View for OutputFile {
    type V = OutputFileV;

    open spec fn view(&self) -> OutputFileV {
        OutputFileV {
            path: self.path.deep_view(),
            lang: self.lang.deep_view(),
            content: self.content@,
        }
    }
}

impl DeepView for OutputFile {
    type V = OutputFileV;

    open spec fn deep_view(&self) -> OutputFileV {
        self@
    }
}

} // verus!
