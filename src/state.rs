use vstd::prelude::*;

use crate::error::GraphError;
use crate::evaluator::{evaluate, evaluation, fresh_state, texts_result};
use crate::graph::{
    add_dynamic_param, dynamic_param_added, dynamic_param_removed, remove_dynamic_param, retype, retyped,
    unit_result, Graph,
};
use crate::template::Template;
use crate::value::DataType;

verus! {

/// What the editor asks of the graph state.
#[derive(Clone, Copy, Debug, PartialEq, Eq, Structural)]
pub enum Response {
    /// Follow the output of this node.
    SetActiveNode(usize),
    /// Stop following a node.
    ClearActiveNode,
    /// Edit the user-controlled ports of this node.
    SetEditingNode(usize),
    /// Stop editing.
    ClearEditingNode,
    /// Add a user-controlled port to this node.
    AddParam(usize),
    /// Remove a user-controlled port from this node.
    RemoveParam(usize),
    /// Give this array node the element type being edited.
    UpdateArrayType(usize),
}

/// The editor's own state beside the graph.
#[derive(Debug)]
pub struct GraphState {
    pub active_node: Option<usize>,
    pub editing_node: Option<usize>,
    pub json_name: String,
    pub new_type: DataType,
}

impl Default for GraphState {
    /// Following and editing nothing, with an empty name and `Bool` as the type to add.
    fn default() -> (r: GraphState)
        ensures
            r.active_node is None,
            r.editing_node is None,
            r.json_name@.len() == 0,
            r.new_type == DataType::Bool,
    {
        GraphState {
            active_node: None,
            editing_node: None,
            json_name: String::new(),
            new_type: DataType::Bool,
        }
    }
}

/// A graph and the editor state around it.
#[derive(Debug)]
pub struct NodeGraphState {
    pub graph: Graph,
    pub user_state: GraphState,
}

/// The element type that editing a node starts from: an array node's own, else `Bool`.
pub open spec fn editing_type(g: Graph, id: usize) -> DataType {
    if g.has_node(id) {
        match g.node_at(id).user_data.template {
            Template::ConstructArray(t) => t,
            Template::DeconstructArray(t) => t,
            _ => DataType::Bool,
        }
    } else {
        DataType::Bool
    }
}

impl NodeGraphState {
    /// An empty graph, following and editing nothing.
    pub fn new() -> (r: NodeGraphState)
        ensures
            r.graph.nodes@.len() == 0,
            r.graph.well_formed(),
            r.user_state.active_node is None,
            r.user_state.editing_node is None,
            r.user_state.json_name@.len() == 0,
            r.user_state.new_type == DataType::Bool,
    {
        NodeGraphState { graph: Graph::new(), user_state: GraphState::default() }
    }

    /// Applies one request of the editor. Requests about a node that is absent change
    /// nothing; a port that cannot be removed leaves the graph as it was.
    pub fn handle_response(&mut self, response: Response)
        ensures
            old(self).graph.well_formed() ==> final(self).graph.well_formed(),
            match response {
                Response::SetActiveNode(n) => {
                    &&& final(self).user_state.active_node == Some(n)
                    &&& final(self).user_state.editing_node == old(self).user_state.editing_node
                    &&& final(self).user_state.json_name == old(self).user_state.json_name
                    &&& final(self).user_state.new_type == old(self).user_state.new_type
                    &&& final(self).graph == old(self).graph
                },
                Response::ClearActiveNode => {
                    &&& final(self).user_state.active_node is None
                    &&& final(self).user_state.editing_node == old(self).user_state.editing_node
                    &&& final(self).user_state.json_name == old(self).user_state.json_name
                    &&& final(self).user_state.new_type == old(self).user_state.new_type
                    &&& final(self).graph == old(self).graph
                },
                Response::SetEditingNode(n) => {
                    &&& final(self).user_state.active_node == old(self).user_state.active_node
                    &&& final(self).user_state.editing_node == Some(n)
                    &&& final(self).user_state.json_name@.len() == 0
                    &&& final(self).user_state.new_type == editing_type(old(self).graph, n)
                    &&& final(self).graph == old(self).graph
                },
                Response::ClearEditingNode => {
                    &&& final(self).user_state.active_node == old(self).user_state.active_node
                    &&& final(self).user_state.editing_node is None
                    &&& final(self).user_state.json_name == old(self).user_state.json_name
                    &&& final(self).user_state.new_type == old(self).user_state.new_type
                    &&& final(self).graph == old(self).graph
                },
                Response::AddParam(id) => {
                    &&& final(self).user_state.active_node == old(self).user_state.active_node
                    &&& final(self).user_state.editing_node == old(self).user_state.editing_node
                    &&& final(self).user_state.json_name@.len() == 0
                    &&& final(self).user_state.new_type == old(self).user_state.new_type
                    &&& if old(self).graph.has_node(id) {
                        &&& final(self).graph.same_except(&old(self).graph, id)
                        &&& final(self).graph.has_node(id)
                        &&& dynamic_param_added(
                            old(self).graph.node_at(id),
                            final(self).graph.node_at(id),
                            old(self).user_state.new_type,
                            old(self).user_state.json_name@,
                        )
                    } else {
                        final(self).graph == old(self).graph
                    }
                },
                Response::RemoveParam(id) => {
                    &&& final(self).user_state.active_node == old(self).user_state.active_node
                    &&& final(self).user_state.editing_node == old(self).user_state.editing_node
                    &&& final(self).user_state.json_name == old(self).user_state.json_name
                    &&& final(self).user_state.new_type == old(self).user_state.new_type
                    &&& if old(self).graph.has_node(id) {
                        exists|r: Result<(), crate::error::ErrorModel>|
                            dynamic_param_removed(
                                old(self).graph,
                                final(self).graph,
                                id,
                                old(self).user_state.json_name@,
                                r,
                            )
                    } else {
                        final(self).graph == old(self).graph
                    }
                },
                Response::UpdateArrayType(id) => {
                    &&& final(self).user_state.active_node == old(self).user_state.active_node
                    &&& final(self).user_state.editing_node == old(self).user_state.editing_node
                    &&& final(self).user_state.json_name == old(self).user_state.json_name
                    &&& final(self).user_state.new_type == old(self).user_state.new_type
                    &&& if old(self).graph.has_node(id) {
                        retyped(old(self).graph, final(self).graph, id, old(self).user_state.new_type)
                    } else {
                        final(self).graph == old(self).graph
                    }
                },
            },
    {
        match response {
            Response::SetActiveNode(n) => {
                self.user_state.active_node = Some(n);
            },
            Response::ClearActiveNode => {
                self.user_state.active_node = None;
            },
            Response::SetEditingNode(n) => {
                self.user_state.editing_node = Some(n);
                self.user_state.json_name = String::new();
                self.user_state.new_type = match self.graph.node(n) {
                    Some(node) => match node.user_data.template.element_type() {
                        Some(t) => t,
                        None => DataType::Bool,
                    },
                    None => DataType::Bool,
                };
            },
            Response::ClearEditingNode => {
                self.user_state.editing_node = None;
            },
            Response::AddParam(id) => {
                if self.graph.node(id).is_some() {
                    add_dynamic_param(
                        id,
                        self.user_state.new_type,
                        self.user_state.json_name.as_str(),
                        &mut self.graph,
                    );
                }
                self.user_state.json_name = String::new();
            },
            Response::RemoveParam(id) => {
                if self.graph.node(id).is_some() {
                    let r = remove_dynamic_param(id, self.user_state.json_name.as_str(), &mut self.graph);
                    assert(dynamic_param_removed(
                        old(self).graph,
                        self.graph,
                        id,
                        old(self).user_state.json_name@,
                        unit_result(r),
                    ));
                }
            },
            Response::UpdateArrayType(id) => {
                if self.graph.node(id).is_some() {
                    retype(id, self.user_state.new_type, &mut self.graph);
                }
            },
        }
    }

    /// The evaluation of the followed node: `None` where no node is followed, or where it
    /// is gone, in which case it is no longer followed.
    pub fn active_result(&mut self) -> (r: Option<Result<Vec<String>, GraphError>>)
        ensures
            final(self).graph == old(self).graph,
            match old(self).user_state.active_node {
                Some(n) => if old(self).graph.has_node(n) {
                    &&& r matches Some(x) && texts_result(x) == evaluation(
                        old(self).graph,
                        n,
                        fresh_state(),
                    ).result
                    &&& final(self).user_state.active_node == Some(n)
                } else {
                    r is None && final(self).user_state.active_node is None
                },
                None => r is None && final(self).user_state.active_node is None,
            },
    {
        match self.user_state.active_node {
            Some(n) => if self.graph.node(n).is_some() {
                Some(evaluate(&self.graph, n))
            } else {
                self.user_state.active_node = None;
                None
            },
            None => None,
        }
    }
}

} // verus!
