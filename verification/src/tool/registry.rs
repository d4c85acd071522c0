//! What a tool is to the agent, and the tools by their names.

use vstd::prelude::*;
use crate::ai::message::{ToolSpec, ToolSpecModel};
use crate::json::{Json, JsonModel};
use crate::registry::Entries;

verus! {

/// A tool that the agent can invoke.
///
/// Each tool says what its name, its description and its parameters are.
///
/// Whoever runs a tool keeps to this: a tool that asks for consent has done
/// nothing yet. Once the user consents, the tool is told so and runs again.
pub trait Tool {
    /// The tool's name.
    open spec fn tool_name(&self) -> Seq<char> {
        arbitrary()
    }

    /// What the language model is told of the tool.
    open spec fn tool_description(&self) -> Seq<char> {
        arbitrary()
    }

    /// The JSON Schema of the tool's input.
    open spec fn tool_parameters(&self) -> JsonModel {
        arbitrary()
    }

    /// The tool's name.
    fn name(&self) -> (r: &str)
        ensures
            r@ == self.tool_name(),
    ;

    /// What the language model is told of the tool.
    fn description(&self) -> (r: &str)
        ensures
            r@ == self.tool_description(),
    ;

    /// The JSON Schema of the tool's input.
    fn parameters(&self) -> (r: Json)
        ensures
            r.model() == self.tool_parameters(),
    ;
}

/// What the language model is told of a tool that has this name.
pub open spec fn spec_of<T: Tool>(name: Seq<char>, tool: T) -> ToolSpecModel {
    ToolSpecModel { name, description: tool.tool_description(), parameters: tool.tool_parameters() }
}

/// The tools by their names.
pub struct ToolRegistry<T> {
    tools: Entries<T>,
}

impl<T> View for ToolRegistry<T> {
    type V = Map<Seq<char>, T>;

    closed spec fn view(&self) -> Map<Seq<char>, T> {
        self.tools@
    }
}

impl<T: Tool> Default for ToolRegistry<T> {
    fn default() -> (r: Self)
        ensures
            r.wf(),
            r@ == Map::<Seq<char>, T>::empty(),
            r.names() == Seq::<Seq<char>>::empty(),
    {
        ToolRegistry::new()
    }
}

impl<T: Tool> ToolRegistry<T> {
    /// Whether each tool is registered once.
    pub closed spec fn wf(self) -> bool {
        self.tools.wf()
    }

    /// The names of the tools, in the order in which they came.
    pub closed spec fn names(self) -> Seq<Seq<char>> {
        self.tools.names()
    }

    /// No tools.
    pub fn new() -> (r: Self)
        ensures
            r.wf(),
            r@ == Map::<Seq<char>, T>::empty(),
            r.names() == Seq::<Seq<char>>::empty(),
    {
        ToolRegistry { tools: Entries::new() }
    }

    /// Registers a tool under its name, in place of another of that name.
    pub fn register(&mut self, tool: T)
        requires
            old(self).wf(),
        ensures
            final(self).wf(),
            final(self)@ == old(self)@.insert(tool.tool_name(), tool),
            final(self).names() == if old(self)@.contains_key(tool.tool_name()) {
                old(self).names()
            } else {
                old(self).names().push(tool.tool_name())
            },
    {
        let name = tool.name().to_owned();
        self.tools.insert(name, tool);
    }

    /// The tool of a name.
    pub fn get(&self, name: &str) -> (r: Option<&T>)
        requires
            self.wf(),
        ensures
            r == if self@.contains_key(name@) {
                Some(&self@[name@])
            } else {
                None
            },
    {
        self.tools.get(name)
    }

    /// What the language model is told of the tools, in the order in which they
    /// came.
    pub fn to_tool_specs(&self) -> (r: Vec<ToolSpec>)
        requires
            self.wf(),
        ensures
            forall|k: Seq<char>| self@.contains_key(k) <==> #[trigger] self.names().contains(k),
            self.names().no_duplicates(),
            r@.len() == self.names().len(),
            forall|i: int|
                0 <= i < r@.len() ==> (#[trigger] r@[i]).deep_view() == spec_of(
                    self.names()[i],
                    self@[self.names()[i]],
                ),
    {
        proof {
            self.tools.lemma_names();
        }
        let names = self.tools.list_names();
        let ghost texts = crate::text::texts(names@);
        let mut specs: Vec<ToolSpec> = Vec::new();
        let mut i: usize = 0;
        while i < names.len()
            invariant
                i <= names.len(),
                self.wf(),
                texts == crate::text::texts(names@),
                texts == self.names(),
                specs@.len() == i,
                forall|j: int|
                    0 <= j < i ==> (#[trigger] specs@[j]).deep_view() == spec_of(
                        self.names()[j],
                        self@[self.names()[j]],
                    ),
            decreases names.len() - i,
        {
            proof {
                self.tools.lemma_names();
                assert(texts[i as int] == names@[i as int]@);
                assert(self.tools.names().contains(texts[i as int]));
            }
            match self.tools.get(names[i]) {
                Some(tool) => {
                    specs.push(
                        ToolSpec {
                            name: names[i].to_owned(),
                            description: tool.description().to_owned(),
                            parameters: tool.parameters(),
                        },
                    );
                },
                None => {},
            }
            i = i + 1;
        }
        specs
    }
}

/// What the language model is told of a tool is what the tool says of itself, under the name
/// by which it is found.
pub proof fn lemma_tool_speaks_for_itself<T: Tool>(name: Seq<char>, tool: T)
    ensures
        spec_of(name, tool).name == name,
        spec_of(name, tool).description == tool.tool_description(),
        spec_of(name, tool).parameters == tool.tool_parameters(),
{
}

} // verus!
