//! A simple ordered argument list, as consumed by tooling that predates
//! typed argument kinds.

use vstd::prelude::*;

verus! {

/// The declared type of a listed template argument.
#[derive(Debug, Clone, Copy, PartialEq, Eq, Structural)]
pub enum TemplateArgType {
    Any,
    Boolean,
    String,
    Number,
}

impl Default for TemplateArgType {
    /// The default argument type accepts any value.
    fn default() -> (r: Self)
        ensures
            r == TemplateArgType::Any,
    {
        TemplateArgType::Any
    }
}

/// One listed template argument.
#[derive(Debug, Clone)]
pub struct TemplateArg {
    pub name: String,
    pub description: String,
    pub kind: TemplateArgType,
}

/// The mathematical model of a [`TemplateArg`].
pub struct TemplateArgV {
    pub name: Seq<char>,
    pub description: Seq<char>,
    pub kind: TemplateArgType,
}

impl View for TemplateArg {
    type V = TemplateArgV;

    open spec fn view(&self) -> TemplateArgV {
        TemplateArgV { name: self.name@, description: self.description@, kind: self.kind }
    }
}

impl DeepView for TemplateArg {
    type V = TemplateArgV;

    open spec fn deep_view(&self) -> TemplateArgV {
        self@
    }
}

/// An ordered list of template arguments; declaration order is observable
/// and preserved.
#[derive(Debug, Clone)]
pub struct TemplateArgs {
    pub items: Vec<TemplateArg>,
}

impl View for TemplateArgs {
    type V = Seq<TemplateArgV>;

    open spec fn view(&self) -> Seq<TemplateArgV> {
        self.items.deep_view()
    }
}

impl TemplateArgs {
    /// An empty argument list.
    pub fn new() -> (r: Self)
        ensures
            r@ == Seq::<TemplateArgV>::empty(),
    {
        let r = TemplateArgs { items: Vec::new() };
        proof {
            assert(r@ =~= Seq::<TemplateArgV>::empty());
        }
        r
    }

    /// Append one argument of the default type.
    pub fn push(&mut self, name: String, description: String)
        ensures
            final (self)@ == old(self)@.push(
                TemplateArgV { name: name@, description: description@, kind: TemplateArgType::Any },
            ),
    {
        let ghost pre = self.items;
        let a = TemplateArg { name, description, kind: TemplateArgType::Any };
        self.items.push(a);
        proof {
            crate::types::lemma_deep_view_push(pre, self.items, a);
            assert(self@ =~= pre.deep_view().push(a@));
        }
    }

    /// Whether no argument is declared.
    pub fn is_empty(&self) -> (r: bool)
        ensures
            r == (self@.len() == 0),
    {
        self.items.len() == 0
    }

    /// The number of declared arguments.
    pub fn len(&self) -> (r: usize)
        ensures
            r == self@.len(),
    {
        self.items.len()
    }
}

} // verus!
