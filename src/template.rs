use vstd::prelude::*;

use vstd::string::*;

use crate::graph::{add_param, fresh_input, fresh_output, Graph, NodeState, IO};
use crate::value::DataType;

verus! {

/// The kinds of node that can be created.
#[derive(Clone, Copy, Debug, PartialEq, Eq, Structural)]
pub enum Template {
    MakeBool,
    MakeNumber,
    MakeString,
    ConstructArray(DataType),
    DeconstructArray(DataType),
    ConstructJson,
    DeconstructJson,
    Account,
    Store,
    Instantiate,
    ConstructMsg,
    DeconstructMsg,
}

impl Template {
    pub open spec fn spec_is_json(self) -> bool {
        self is ConstructJson || self is DeconstructJson
    }

    pub open spec fn spec_is_array(self) -> bool {
        self is ConstructArray || self is DeconstructArray
    }

    /// Whether the node's ports are JSON fields that the user names.
    pub fn is_json(&self) -> (r: bool)
        ensures
            r == self.spec_is_json(),
    {
        match self {
            Template::ConstructJson | Template::DeconstructJson => true,
            _ => false,
        }
    }

    /// Whether the node's ports are array elements, named by their index.
    pub fn is_array(&self) -> (r: bool)
        ensures
            r == self.spec_is_array(),
    {
        match self {
            Template::ConstructArray(_) | Template::DeconstructArray(_) => true,
            _ => false,
        }
    }
}

/// The input ports that a node of a kind is created with, in order.
pub open spec fn fixed_inputs(t: Template) -> Seq<(Seq<char>, DataType)> {
    match t {
        Template::MakeBool => seq![("bool"@, DataType::Bool)],
        Template::MakeNumber => seq![("number"@, DataType::String)],
        Template::MakeString => seq![("string"@, DataType::String)],
        Template::ConstructArray(_) => seq![],
        Template::DeconstructArray(_) => seq![("array"@, DataType::Array)],
        Template::ConstructJson => seq![],
        Template::DeconstructJson => seq![("json"@, DataType::Json)],
        Template::Account => seq![("mnemonic"@, DataType::String)],
        Template::Store => seq![("file"@, DataType::String), ("account"@, DataType::String)],
        Template::Instantiate => seq![
            ("id"@, DataType::Number),
            ("msg"@, DataType::Json),
            ("label"@, DataType::String),
            ("account"@, DataType::String),
        ],
        Template::ConstructMsg => seq![("type"@, DataType::String), ("json"@, DataType::Json)],
        Template::DeconstructMsg => seq![("msg"@, DataType::Json)],
    }
}

/// The output ports that a node of a kind is created with, in order.
pub open spec fn fixed_outputs(t: Template) -> Seq<(Seq<char>, DataType)> {
    match t {
        Template::MakeBool => seq![("out"@, DataType::Bool)],
        Template::MakeNumber => seq![("out"@, DataType::Number)],
        Template::MakeString => seq![("out"@, DataType::String)],
        Template::ConstructArray(_) => seq![("out"@, DataType::Array)],
        Template::DeconstructArray(_) => seq![],
        Template::ConstructJson => seq![("out"@, DataType::Json)],
        Template::DeconstructJson => seq![],
        Template::Account => seq![("account"@, DataType::String)],
        Template::Store => seq![("id"@, DataType::Number), ("code hash"@, DataType::String)],
        Template::Instantiate => seq![("address"@, DataType::String)],
        Template::ConstructMsg => seq![("msg"@, DataType::Json)],
        Template::DeconstructMsg => seq![("type"@, DataType::String), ("json"@, DataType::Json)],
    }
}

/// The node has exactly these fresh input ports, in order.
pub open spec fn inputs_are(node: crate::graph::Node, sig: Seq<(Seq<char>, DataType)>) -> bool {
    &&& node.inputs@.len() == sig.len()
    &&& forall|i: int| 0 <= i < sig.len() ==> fresh_input(#[trigger] node.inputs@[i], sig[i].0, sig[i].1)
}

/// The node has exactly these output ports, in order.
pub open spec fn outputs_are(node: crate::graph::Node, sig: Seq<(Seq<char>, DataType)>) -> bool {
    &&& node.outputs@.len() == sig.len()
    &&& forall|i: int| 0 <= i < sig.len() ==> fresh_output(#[trigger] node.outputs@[i], sig[i].0, sig[i].1)
}

/// The label of a kind in the node finder.
pub open spec fn label_of(t: Template) -> Seq<char> {
    match t {
        Template::MakeBool => "Boolean"@,
        Template::MakeNumber => "Number"@,
        Template::MakeString => "String"@,
        Template::ConstructArray(_) => "Array Constructor"@,
        Template::DeconstructArray(_) => "Array Splitter"@,
        Template::ConstructJson => "Json Constructor"@,
        Template::DeconstructJson => "Json Splitter"@,
        Template::Account => "Account"@,
        Template::Store => "Store Contract"@,
        Template::Instantiate => "Instantiate Contract"@,
        Template::ConstructMsg => "Msg Constructor"@,
        Template::DeconstructMsg => "Msg Splitter"@,
    }
}

impl Template {
    /// The element type that an array kind carries.
    pub fn element_type(&self) -> (r: Option<DataType>)
        ensures
            r == match *self {
                Template::ConstructArray(t) => Some(t),
                Template::DeconstructArray(t) => Some(t),
                _ => None::<DataType>,
            },
    {
        match self {
            Template::ConstructArray(t) => Some(*t),
            Template::DeconstructArray(t) => Some(*t),
            _ => None,
        }
    }

    /// The label of the kind in the node finder.
    pub fn node_finder_label(&self) -> (r: String)
        ensures
            r@ == label_of(*self),
    {
        String::from_str(
            match self {
                Template::MakeBool => "Boolean",
                Template::MakeNumber => "Number",
                Template::MakeString => "String",
                Template::ConstructArray(_) => "Array Constructor",
                Template::DeconstructArray(_) => "Array Splitter",
                Template::ConstructJson => "Json Constructor",
                Template::DeconstructJson => "Json Splitter",
                Template::Account => "Account",
                Template::Store => "Store Contract",
                Template::Instantiate => "Instantiate Contract",
                Template::ConstructMsg => "Msg Constructor",
                Template::DeconstructMsg => "Msg Splitter",
            },
        )
    }

    /// The label of a node of the kind in the graph: the same as in the finder.
    pub fn node_graph_label(&self) -> (r: String)
        ensures
            r@ == label_of(*self),
    {
        self.node_finder_label()
    }

    /// The data that a new node of the kind carries.
    pub fn user_data(&self) -> (r: NodeState)
        ensures
            r.template == *self,
    {
        NodeState { template: *self }
    }

    /// Adds the kind's fixed ports to node `node_id`. On a node without ports, the node ends
    /// with exactly the kind's ports, fresh, in order.
    pub fn build_node(&self, graph: &mut Graph, node_id: usize)
        requires
            old(graph).has_node(node_id),
        ensures
            final(graph).same_except(old(graph), node_id),
            final(graph).has_node(node_id),
            final(graph).node_at(node_id).user_data == old(graph).node_at(node_id).user_data,
            old(graph).well_formed() && old(graph).node_at(node_id).user_data.template == *self
                ==> final(graph).well_formed(),
            old(graph).node_at(node_id).inputs@.len() == 0 && old(graph).node_at(node_id).outputs@.len()
                == 0 ==> {
                &&& inputs_are(final(graph).node_at(node_id), fixed_inputs(*self))
                &&& outputs_are(final(graph).node_at(node_id), fixed_outputs(*self))
            },
    {
        proof {
            reveal_strlit("account");
            reveal_strlit("file");
            reveal_strlit("id");
            reveal_strlit("msg");
            reveal_strlit("label");
            reveal_strlit("code hash");
            reveal_strlit("type");
            reveal_strlit("json");
            assert("file"@.len() == 4 && "account"@.len() == 7 && "id"@.len() == 2);
            assert("msg"@.len() == 3 && "label"@.len() == 5 && "code hash"@.len() == 9);
            assert("type"@[0] == 't' && "json"@[0] == 'j');
            assert("file"@ != "account"@ && "id"@ != "code hash"@ && "type"@ != "json"@);
            assert("id"@ != "msg"@ && "id"@ != "label"@ && "id"@ != "account"@);
            assert("msg"@ != "label"@ && "msg"@ != "account"@ && "label"@ != "account"@);
        }
        match self {
            Template::MakeBool => {
                add_param(node_id, DataType::Bool, "bool", IO::Input, graph);
                add_param(node_id, DataType::Bool, "out", IO::Output, graph);
            },
            Template::MakeNumber => {
                add_param(node_id, DataType::String, "number", IO::Input, graph);
                add_param(node_id, DataType::Number, "out", IO::Output, graph);
            },
            Template::MakeString => {
                add_param(node_id, DataType::String, "string", IO::Input, graph);
                add_param(node_id, DataType::String, "out", IO::Output, graph);
            },
            Template::ConstructArray(_) => {
                add_param(node_id, DataType::Array, "out", IO::Output, graph);
            },
            Template::DeconstructArray(_) => {
                add_param(node_id, DataType::Array, "array", IO::Input, graph);
            },
            Template::ConstructJson => {
                add_param(node_id, DataType::Json, "out", IO::Output, graph);
            },
            Template::DeconstructJson => {
                add_param(node_id, DataType::Json, "json", IO::Input, graph);
            },
            Template::Account => {
                add_param(node_id, DataType::String, "mnemonic", IO::Input, graph);
                add_param(node_id, DataType::String, "account", IO::Output, graph);
            },
            Template::Store => {
                add_param(node_id, DataType::String, "file", IO::Input, graph);
                add_param(node_id, DataType::String, "account", IO::Input, graph);
                add_param(node_id, DataType::Number, "id", IO::Output, graph);
                add_param(node_id, DataType::String, "code hash", IO::Output, graph);
            },
            Template::Instantiate => {
                add_param(node_id, DataType::Number, "id", IO::Input, graph);
                add_param(node_id, DataType::Json, "msg", IO::Input, graph);
                add_param(node_id, DataType::String, "label", IO::Input, graph);
                add_param(node_id, DataType::String, "account", IO::Input, graph);
                add_param(node_id, DataType::String, "address", IO::Output, graph);
            },
            Template::ConstructMsg => {
                add_param(node_id, DataType::String, "type", IO::Input, graph);
                add_param(node_id, DataType::Json, "json", IO::Input, graph);
                add_param(node_id, DataType::Json, "msg", IO::Output, graph);
            },
            Template::DeconstructMsg => {
                add_param(node_id, DataType::Json, "msg", IO::Input, graph);
                add_param(node_id, DataType::String, "type", IO::Output, graph);
                add_param(node_id, DataType::Json, "json", IO::Output, graph);
            },
        }
    }
}

/// Lists every kind that the node finder offers.
pub struct TemplateIterator;

impl TemplateIterator {
    /// The kinds offered, in order; the array kinds start out carrying `Bool`.
    pub fn all_kinds(&self) -> (r: Vec<Template>)
        ensures
            r@ == seq![
                Template::MakeBool,
                Template::MakeNumber,
                Template::MakeString,
                Template::ConstructArray(DataType::Bool),
                Template::DeconstructArray(DataType::Bool),
                Template::ConstructJson,
                Template::DeconstructJson,
                Template::Account,
                Template::Store,
                Template::Instantiate,
                Template::ConstructMsg,
                Template::DeconstructMsg,
            ],
    {
        let r = vec![
            Template::MakeBool,
            Template::MakeNumber,
            Template::MakeString,
            Template::ConstructArray(DataType::Bool),
            Template::DeconstructArray(DataType::Bool),
            Template::ConstructJson,
            Template::DeconstructJson,
            Template::Account,
            Template::Store,
            Template::Instantiate,
            Template::ConstructMsg,
            Template::DeconstructMsg,
        ];
        assert(r@ =~= seq![
            Template::MakeBool,
            Template::MakeNumber,
            Template::MakeString,
            Template::ConstructArray(DataType::Bool),
            Template::DeconstructArray(DataType::Bool),
            Template::ConstructJson,
            Template::DeconstructJson,
            Template::Account,
            Template::Store,
            Template::Instantiate,
            Template::ConstructMsg,
            Template::DeconstructMsg,
        ]);
        r
    }
}

} // verus!
