use vstd::prelude::*;

use crate::error::GraphError;
use crate::template::{fixed_inputs, fixed_outputs, inputs_are, outputs_are, Template};
use crate::error::ErrorModel;
use crate::text::{decimal_text, index_name};
use crate::value::{default_value, DataType, ValueType};
use crate::wellformed::{
    lemma_element_names_unique, lemma_input_removed_wf, lemma_input_replaced_wf,
    lemma_inputs_reset_wf, lemma_node_cleared_wf, lemma_node_pushed_wf, lemma_output_removed_wf,
    lemma_outputs_reset_wf, lemma_param_added_wf, lemma_unlinked_from_all, lemma_unlinked_wf,
    add_keeps_indexing, array_ports_indexed, link_valid, names_unique, remove_keeps_indexing,
};

verus! {

/// The output port that a link comes from: a node, and the name of one of its outputs.
#[derive(Clone, Debug)]
pub struct OutputRef {
    pub node: usize,
    pub name: String,
}

/// An input port: it reads its link where it has one, and its inline value otherwise.
#[derive(Debug)]
pub struct InputParam {
    pub name: String,
    pub typ: DataType,
    pub value: ValueType,
    pub link: Option<OutputRef>,
}

/// An output port.
#[derive(Clone, Debug)]
pub struct OutputParam {
    pub name: String,
    pub typ: DataType,
}

/// What a node carries besides its ports: its kind.
#[derive(Clone, Copy, Debug)]
pub struct NodeState {
    pub template: Template,
}

/// A node: its kind and its ports, in the order they were added.
#[derive(Debug)]
pub struct Node {
    pub user_data: NodeState,
    pub inputs: Vec<InputParam>,
    pub outputs: Vec<OutputParam>,
}

/// The graph: nodes by identity. A removed node leaves an empty slot, so that identities
/// stay stable.
#[derive(Debug)]
pub struct Graph {
    pub nodes: Vec<Option<Node>>,
}

/// Which side of a node a port is on.
#[derive(Clone, Copy, Debug, PartialEq, Eq, Structural)]
pub enum IO {
    Input,
    Output,
}

pub open spec fn input_names(s: Seq<InputParam>) -> Seq<Seq<char>> {
    s.map_values(|p: InputParam| p.name@)
}

pub open spec fn output_names(s: Seq<OutputParam>) -> Seq<Seq<char>> {
    s.map_values(|p: OutputParam| p.name@)
}

/// The first position at or after `from` that holds `name`.
pub open spec fn position_of(names: Seq<Seq<char>>, name: Seq<char>, from: int) -> Option<int>
    decreases names.len() - from,
{
    if from < 0 || from >= names.len() {
        None
    } else if names[from] == name {
        Some(from)
    } else {
        position_of(names, name, from + 1)
    }
}

pub proof fn lemma_position_of(names: Seq<Seq<char>>, name: Seq<char>, from: int)
    requires
        0 <= from,
    ensures
        match position_of(names, name, from) {
            Some(k) => from <= k < names.len() && names[k] == name,
            None => forall|k: int| from <= k < names.len() ==> names[k] != name,
        },
    decreases names.len() - from,
{
    if 0 <= from < names.len() && names[from] != name {
        lemma_position_of(names, name, from + 1);
    }
}

pub open spec fn has_name(names: Seq<Seq<char>>, name: Seq<char>) -> bool {
    position_of(names, name, 0) is Some
}

/// A fresh input port: the type's starting value, and no link.
pub open spec fn fresh_input(p: InputParam, name: Seq<char>, t: DataType) -> bool {
    &&& p.name@ == name
    &&& p.typ == t
    &&& p.value@ == default_value(t)
    &&& p.link is None
}

impl Node {
    pub fn input_index(&self, name: &String) -> (r: Option<usize>)
        ensures
            match r {
                Some(i) => position_of(input_names(self.inputs@), name@, 0) == Some(i as int)
                    && i < self.inputs@.len(),
                None => position_of(input_names(self.inputs@), name@, 0) is None,
            },
    {
        let ghost names = input_names(self.inputs@);
        let mut i: usize = 0;
        while i < self.inputs.len()
            invariant
                i <= self.inputs.len(),
                names == input_names(self.inputs@),
                position_of(names, name@, 0) == position_of(names, name@, i as int),
            decreases self.inputs.len() - i,
        {
            if self.inputs[i].name == *name {
                return Some(i);
            }
            i += 1;
        }
        None
    }

    pub fn output_index(&self, name: &String) -> (r: Option<usize>)
        ensures
            match r {
                Some(i) => position_of(output_names(self.outputs@), name@, 0) == Some(i as int)
                    && i < self.outputs@.len(),
                None => position_of(output_names(self.outputs@), name@, 0) is None,
            },
    {
        let ghost names = output_names(self.outputs@);
        let mut i: usize = 0;
        while i < self.outputs.len()
            invariant
                i <= self.outputs.len(),
                names == output_names(self.outputs@),
                position_of(names, name@, 0) == position_of(names, name@, i as int),
            decreases self.outputs.len() - i,
        {
            if self.outputs[i].name == *name {
                return Some(i);
            }
            i += 1;
        }
        None
    }
}

impl Graph {
    pub open spec fn has_node(&self, id: usize) -> bool {
        id < self.nodes@.len() && self.nodes@[id as int] is Some
    }

    pub open spec fn node_at(&self, id: usize) -> Node {
        self.nodes@[id as int]->Some_0
    }

    /// Every node but `id` is as it was.
    pub open spec fn same_except(&self, other: &Graph, id: usize) -> bool {
        &&& self.nodes@.len() == other.nodes@.len()
        &&& forall|k: int| 0 <= k < self.nodes@.len() && k != id ==> self.nodes@[k] == other.nodes@[k]
    }

    pub fn new() -> (r: Graph)
        ensures
            r.nodes@.len() == 0,
            r.well_formed(),
    {
        Graph { nodes: Vec::new() }
    }

    pub fn node(&self, id: usize) -> (r: Option<&Node>)
        ensures
            match r {
                Some(n) => self.has_node(id) && *n == self.node_at(id),
                None => !self.has_node(id),
            },
    {
        if id < self.nodes.len() {
            match &self.nodes[id] {
                Some(n) => Some(n),
                None => None,
            }
        } else {
            None
        }
    }

    fn take_node(&mut self, id: usize) -> (r: Node)
        requires
            old(self).has_node(id),
        ensures
            r == old(self).node_at(id),
            final(self).nodes@ == old(self).nodes@.update(id as int, None),
    {
        let mut slot: Option<Node> = None;
        std::mem::swap(&mut self.nodes[id], &mut slot);
        slot.unwrap()
    }

    fn put_node(&mut self, id: usize, node: Node)
        requires
            id < old(self).nodes@.len(),
        ensures
            final(self).nodes@ == old(self).nodes@.update(id as int, Some(node)),
    {
        self.nodes[id] = Some(node);
    }
}

/// A fresh output port.
pub open spec fn fresh_output(p: OutputParam, name: Seq<char>, t: DataType) -> bool {
    p.name@ == name && p.typ == t
}

/// How `add_param` changes a node: a port of a new name is appended; a taken name changes
/// nothing.
pub open spec fn param_added(old: Node, new: Node, name: Seq<char>, t: DataType, io: IO) -> bool {
    &&& new.user_data == old.user_data
    &&& match io {
        IO::Input => {
            &&& new.outputs@ == old.outputs@
            &&& if input_names(old.inputs@).contains(name) {
                new.inputs@ == old.inputs@
            } else {
                &&& new.inputs@.len() == old.inputs@.len() + 1
                &&& new.inputs@.drop_last() == old.inputs@
                &&& fresh_input(new.inputs@.last(), name, t)
            }
        },
        IO::Output => {
            &&& new.inputs@ == old.inputs@
            &&& if output_names(old.outputs@).contains(name) {
                new.outputs@ == old.outputs@
            } else {
                &&& new.outputs@.len() == old.outputs@.len() + 1
                &&& new.outputs@.drop_last() == old.outputs@
                &&& fresh_output(new.outputs@.last(), name, t)
            }
        },
    }
}

/// Adds port `name` of type `param_type` on side `io` of node `id`, unless the node has a
/// port of that name on that side already. A new input holds its type's starting value
/// (`true`, `0`, `""`, an empty list, `null`) and has no link.
pub fn add_param(id: usize, param_type: DataType, name: &str, io: IO, graph: &mut Graph)
    requires
        old(graph).has_node(id),
    ensures
        final(graph).same_except(old(graph), id),
        final(graph).has_node(id),
        param_added(old(graph).node_at(id), final(graph).node_at(id), name@, param_type, io),
        old(graph).well_formed() && add_keeps_indexing(old(graph).node_at(id), name@, param_type, io)
            ==> final(graph).well_formed(),
{
    let key = name.to_owned();
    let mut node = graph.take_node(id);
    let ghost before = node;
    proof {
        lemma_position_of(input_names(node.inputs@), name@, 0);
        lemma_position_of(output_names(node.outputs@), name@, 0);
    }
    match io {
        IO::Input => {
            if node.input_index(&key).is_none() {
                node.inputs.push(
                    InputParam {
                        name: key,
                        typ: param_type,
                        value: ValueType::default_for(param_type),
                        link: None,
                    },
                );
                assert(node.inputs@.drop_last() =~= before.inputs@);
            }
        },
        IO::Output => {
            if node.output_index(&key).is_none() {
                node.outputs.push(OutputParam { name: key, typ: param_type });
                assert(node.outputs@.drop_last() =~= before.outputs@);
            }
        },
    }
    graph.put_node(id, node);
    proof {
        if old(graph).well_formed() && add_keeps_indexing(old(graph).node_at(id), name@, param_type, io) {
            lemma_param_added_wf(*old(graph), *graph, id, name@, param_type, io);
        }
    }
}

/// Whether an input's link comes from node `source`, and from its output `name` where a
/// name is given.
pub open spec fn link_from(p: InputParam, source: usize, name: Option<Seq<char>>) -> bool {
    p.link matches Some(r) && r.node == source && match name {
        Some(n) => r.name@ == n,
        None => true,
    }
}

/// An input after the links from `source` (output `name`, where given) are dropped.
pub open spec fn unlinked(p: InputParam, source: usize, name: Option<Seq<char>>) -> InputParam {
    if link_from(p, source, name) {
        InputParam { name: p.name, typ: p.typ, value: p.value, link: None }
    } else {
        p
    }
}

/// A node after the links from `source` (output `name`, where given) are dropped.
pub open spec fn node_unlinked(old: Node, new: Node, source: usize, name: Option<Seq<char>>) -> bool {
    &&& new.user_data == old.user_data
    &&& new.outputs@ == old.outputs@
    &&& new.inputs@.len() == old.inputs@.len()
    &&& forall|j: int|
        0 <= j < old.inputs@.len() ==> #[trigger] new.inputs@[j] == unlinked(old.inputs@[j], source, name)
}

/// The graph after the links from `source` (output `name`, where given) are dropped.
pub open spec fn graph_unlinked(old: Graph, new: Graph, source: usize, name: Option<Seq<char>>) -> bool {
    &&& new.nodes@.len() == old.nodes@.len()
    &&& forall|k: int|
        0 <= k < old.nodes@.len() ==> match #[trigger] old.nodes@[k] {
            None => new.nodes@[k] is None,
            Some(n) => new.nodes@[k] matches Some(m) && node_unlinked(n, m, source, name),
        }
}

fn unlink_node_inputs(node: &mut Node, source: usize, name: Option<&String>)
    ensures
        node_unlinked(
            *old(node),
            *final(node),
            source,
            match name {
                Some(n) => Some(n@),
                None => None,
            },
        ),
{
    let ghost nm = match name {
        Some(n) => Some(n@),
        None => None,
    };
    let mut j: usize = 0;
    while j < node.inputs.len()
        invariant
            nm == match name {
                Some(n) => Some(n@),
                None => None::<Seq<char>>,
            },
            j <= node.inputs.len(),
            node.user_data == old(node).user_data,
            node.outputs@ == old(node).outputs@,
            node.inputs@.len() == old(node).inputs@.len(),
            forall|q: int| 0 <= q < j ==> #[trigger] node.inputs@[q] == unlinked(old(node).inputs@[q], source, nm),
            forall|q: int| j <= q < node.inputs@.len() ==> #[trigger] node.inputs@[q] == old(node).inputs@[q],
        decreases node.inputs.len() - j,
    {
        let hit = match &node.inputs[j].link {
            Some(r) => r.node == source && match name {
                Some(n) => r.name == *n,
                None => true,
            },
            None => false,
        };
        let ghost prev = node.inputs@;
        if hit {
            let mut p = node.inputs.remove(j);
            p.link = None;
            node.inputs.insert(j, p);
            assert(node.inputs@ =~= prev.update(j as int, unlinked(prev[j as int], source, nm)));
        } else {
            assert(unlinked(prev[j as int], source, nm) == prev[j as int]);
        }
        j += 1;
    }
}

impl Graph {
    /// Drops every link that comes from node `source`, or only from its output `name` where
    /// a name is given.
    pub fn unlink(&mut self, source: usize, name: Option<&String>)
        ensures
            graph_unlinked(
                *old(self),
                *final(self),
                source,
                match name {
                    Some(n) => Some(n@),
                    None => None,
                },
            ),
            old(self).well_formed() ==> final(self).well_formed(),
    {
        let ghost nm = match name {
            Some(n) => Some(n@),
            None => None,
        };
        let mut k: usize = 0;
        while k < self.nodes.len()
            invariant
                nm == match name {
                    Some(n) => Some(n@),
                    None => None::<Seq<char>>,
                },
                k <= self.nodes.len(),
                self.nodes@.len() == old(self).nodes@.len(),
                forall|q: int|
                    0 <= q < k ==> match #[trigger] old(self).nodes@[q] {
                        None => self.nodes@[q] is None,
                        Some(n) => self.nodes@[q] matches Some(m) && node_unlinked(n, m, source, nm),
                    },
                forall|q: int| k <= q < self.nodes@.len() ==> #[trigger] self.nodes@[q] == old(self).nodes@[q],
            decreases self.nodes.len() - k,
        {
            if self.nodes[k].is_some() {
                let ghost before = self.nodes@;
                let mut node = self.take_node(k);
                unlink_node_inputs(&mut node, source, name);
                self.put_node(k, node);
                assert(self.nodes@ == before.update(k as int, Some(node)));
                assert(node_unlinked(old(self).nodes@[k as int]->Some_0, node, source, nm));
            }
            k += 1;
        }
        proof {
            if old(self).well_formed() {
                lemma_unlinked_wf(*old(self), *self, source, nm);
            }
        }
    }
}

/// The graph after output `k`, named `name`, of node `id` is removed with every link from it.
pub open spec fn output_removed(old: Graph, new: Graph, id: usize, k: int, name: Seq<char>) -> bool {
    &&& new.nodes@.len() == old.nodes@.len()
    &&& forall|q: int|
        0 <= q < old.nodes@.len() ==> match #[trigger] old.nodes@[q] {
            None => new.nodes@[q] is None,
            Some(n) => new.nodes@[q] matches Some(m) && {
                &&& m.user_data == n.user_data
                &&& m.inputs@.len() == n.inputs@.len()
                &&& forall|j: int|
                    0 <= j < n.inputs@.len() ==> #[trigger] m.inputs@[j] == unlinked(
                        n.inputs@[j],
                        id,
                        Some(name),
                    )
                &&& m.outputs@ == if q == id {
                    n.outputs@.remove(k)
                } else {
                    n.outputs@
                }
            },
        }
}

/// How `remove_param` changes the graph, and what it returns.
pub open spec fn param_removed(
    old_graph: Graph,
    new_graph: Graph,
    id: usize,
    name: Seq<char>,
    io: IO,
    r: Result<(), ErrorModel>,
) -> bool {
    match io {
        IO::Input => match position_of(input_names(old_graph.node_at(id).inputs@), name, 0) {
            None => r == Err::<(), ErrorModel>(ErrorModel::PortNotFound { node: id, port: name })
                && new_graph == old_graph,
            Some(i) => {
                &&& r is Ok
                &&& new_graph.same_except(&old_graph, id)
                &&& new_graph.has_node(id)
                &&& new_graph.node_at(id).user_data == old_graph.node_at(id).user_data
                &&& new_graph.node_at(id).outputs@ == old_graph.node_at(id).outputs@
                &&& new_graph.node_at(id).inputs@ == old_graph.node_at(id).inputs@.remove(i)
            },
        },
        IO::Output => match position_of(output_names(old_graph.node_at(id).outputs@), name, 0) {
            None => r == Err::<(), ErrorModel>(ErrorModel::PortNotFound { node: id, port: name })
                && new_graph == old_graph,
            Some(k) => r is Ok && output_removed(old_graph, new_graph, id, k, name),
        },
    }
}

pub open spec fn unit_result(r: Result<(), GraphError>) -> Result<(), ErrorModel> {
    match r {
        Ok(_) => Ok(()),
        Err(e) => Err(e@),
    }
}

/// Removes port `name` from side `io` of node `id`; removing an output also drops every
/// link that comes from it. Fails with `PortNotFound` where the node has no such port, and
/// then changes nothing.
pub fn remove_param(id: usize, name: &str, io: IO, graph: &mut Graph) -> (r: Result<(), GraphError>)
    requires
        old(graph).has_node(id),
    ensures
        param_removed(*old(graph), *final(graph), id, name@, io, unit_result(r)),
        old(graph).well_formed() && remove_keeps_indexing(old(graph).node_at(id), name@, io)
            ==> final(graph).well_formed(),
{
    let key = name.to_owned();
    let node = graph.node(id).unwrap();
    match io {
        IO::Input => match node.input_index(&key) {
            None => Err(GraphError::PortNotFound { node: id, port: key }),
            Some(i) => {
                let mut node = graph.take_node(id);
                node.inputs.remove(i);
                graph.put_node(id, node);
                proof {
                    if old(graph).well_formed() && remove_keeps_indexing(old(graph).node_at(id), name@, io) {
                        let o = old(graph).node_at(id);
                        let names = input_names(o.inputs@);
                        lemma_position_of(names, name@, 0);
                        if o.user_data.template is ConstructArray {
                            assert(names[i as int] == name@);
                            assert(names.contains(name@));
                            assert(names_unique(o) && array_ports_indexed(o));
                            let last = o.inputs@.len() - 1;
                            assert(names[last] == decimal_text(last as nat));
                        }
                        lemma_input_removed_wf(*old(graph), *graph, id, i as int);
                    }
                }
                Ok(())
            },
        },
        IO::Output => match node.output_index(&key) {
            None => Err(GraphError::PortNotFound { node: id, port: key }),
            Some(k) => {
                let ghost start = *graph;
                graph.unlink(id, Some(&key));
                let ghost mid = *graph;
                let mut node = graph.take_node(id);
                node.outputs.remove(k);
                graph.put_node(id, node);
                assert forall|q: int| 0 <= q < start.nodes@.len() implies match #[trigger] start.nodes@[q] {
                    None => graph.nodes@[q] is None,
                    Some(n) => graph.nodes@[q] matches Some(m) && {
                        &&& m.user_data == n.user_data
                        &&& m.inputs@.len() == n.inputs@.len()
                        &&& forall|j: int|
                            0 <= j < n.inputs@.len() ==> #[trigger] m.inputs@[j] == unlinked(
                                n.inputs@[j],
                                id,
                                Some(name@),
                            )
                        &&& m.outputs@ == if q == id {
                            n.outputs@.remove(k as int)
                        } else {
                            n.outputs@
                        }
                    },
                } by {
                    assert(match start.nodes@[q] {
                        None => mid.nodes@[q] is None,
                        Some(n) => mid.nodes@[q] matches Some(m) && node_unlinked(n, m, id, Some(name@)),
                    });
                }
                proof {
                    if old(graph).well_formed() && remove_keeps_indexing(old(graph).node_at(id), name@, io) {
                        let o = start.node_at(id);
                        let names = output_names(o.outputs@);
                        lemma_position_of(names, name@, 0);
                        if o.user_data.template is DeconstructArray {
                            assert(names[k as int] == name@);
                            assert(names.contains(name@));
                            assert(names_unique(o) && array_ports_indexed(o));
                            let last = o.outputs@.len() - 1;
                            assert(names[last] == decimal_text(last as nat));
                        }
                        lemma_output_removed_wf(start, *graph, id, k as int, name@);
                    }
                }
                Ok(())
            },
        },
    }
}

/// `count` fresh inputs named `"0"`, `"1"`, ... of type `t`.
fn element_inputs(count: usize, t: DataType) -> (r: Vec<InputParam>)
    ensures
        r@.len() == count,
        forall|i: int| 0 <= i < count ==> fresh_input(#[trigger] r@[i], decimal_text(i as nat), t),
{
    let mut r: Vec<InputParam> = Vec::new();
    let mut i: usize = 0;
    while i < count
        invariant
            i <= count,
            r@.len() == i,
            forall|q: int| 0 <= q < i ==> fresh_input(#[trigger] r@[q], decimal_text(q as nat), t),
        decreases count - i,
    {
        r.push(InputParam { name: index_name(i), typ: t, value: ValueType::default_for(t), link: None });
        i += 1;
    }
    r
}

/// `count` outputs named `"0"`, `"1"`, ... of type `t`.
fn element_outputs(count: usize, t: DataType) -> (r: Vec<OutputParam>)
    ensures
        r@.len() == count,
        forall|i: int| 0 <= i < count ==> fresh_output(#[trigger] r@[i], decimal_text(i as nat), t),
{
    let mut r: Vec<OutputParam> = Vec::new();
    let mut i: usize = 0;
    while i < count
        invariant
            i <= count,
            r@.len() == i,
            forall|q: int| 0 <= q < i ==> fresh_output(#[trigger] r@[q], decimal_text(q as nat), t),
        decreases count - i,
    {
        r.push(OutputParam { name: index_name(i), typ: t });
        i += 1;
    }
    r
}

/// How `retype` changes the graph.
pub open spec fn retyped(old_graph: Graph, new_graph: Graph, id: usize, new_type: DataType) -> bool {
    match old_graph.node_at(id).user_data.template {
        Template::ConstructArray(t) => if t == new_type {
            new_graph == old_graph
        } else {
            &&& new_graph.same_except(&old_graph, id)
            &&& new_graph.has_node(id)
            &&& new_graph.node_at(id).user_data.template == Template::ConstructArray(new_type)
            &&& new_graph.node_at(id).outputs@ == old_graph.node_at(id).outputs@
            &&& new_graph.node_at(id).inputs@.len() == old_graph.node_at(id).inputs@.len()
            &&& forall|i: int|
                0 <= i < old_graph.node_at(id).inputs@.len() ==> fresh_input(
                    #[trigger] new_graph.node_at(id).inputs@[i],
                    decimal_text(i as nat),
                    new_type,
                )
        },
        Template::DeconstructArray(t) => if t == new_type {
            new_graph == old_graph
        } else {
            &&& new_graph.nodes@.len() == old_graph.nodes@.len()
            &&& forall|q: int|
                0 <= q < old_graph.nodes@.len() && q != id ==> match #[trigger] old_graph.nodes@[q] {
                    None => new_graph.nodes@[q] is None,
                    Some(n) => new_graph.nodes@[q] matches Some(m) && node_unlinked(n, m, id, None),
                }
            &&& new_graph.has_node(id)
            &&& new_graph.node_at(id).user_data.template == Template::DeconstructArray(new_type)
            &&& new_graph.node_at(id).inputs@.len() == old_graph.node_at(id).inputs@.len()
            &&& forall|j: int|
                0 <= j < old_graph.node_at(id).inputs@.len() ==> #[trigger] new_graph.node_at(
                    id,
                ).inputs@[j] == unlinked(old_graph.node_at(id).inputs@[j], id, None)
            &&& new_graph.node_at(id).outputs@.len() == old_graph.node_at(id).outputs@.len()
            &&& forall|i: int|
                0 <= i < old_graph.node_at(id).outputs@.len() ==> fresh_output(
                    #[trigger] new_graph.node_at(id).outputs@[i],
                    decimal_text(i as nat),
                    new_type,
                )
        },
        _ => new_graph == old_graph,
    }
}

/// Changes the element type that an array node carries. Every element port is replaced by
/// a fresh one of the same position-name (`"0"`, `"1"`, ...) and the new type: an element
/// input loses its value, which becomes the new type's starting value, and its link; links
/// from a replaced output are dropped. On any other kind, or with the type the node has
/// already, nothing changes.
pub fn retype(id: usize, new_type: DataType, graph: &mut Graph)
    requires
        old(graph).has_node(id),
    ensures
        retyped(*old(graph), *final(graph), id, new_type),
        old(graph).well_formed() ==> final(graph).well_formed(),
{
    let template = graph.node(id).unwrap().user_data.template;
    match template {
        Template::ConstructArray(t) => {
            if t != new_type {
                let mut node = graph.take_node(id);
                node.inputs = element_inputs(node.inputs.len(), new_type);
                node.user_data.template = Template::ConstructArray(new_type);
                graph.put_node(id, node);
                proof {
                    if old(graph).well_formed() {
                        lemma_element_names_unique(input_names(node.inputs@));
                        lemma_inputs_reset_wf(*old(graph), *graph, id);
                    }
                }
            }
        },
        Template::DeconstructArray(t) => {
            if t != new_type {
                let ghost start = *graph;
                graph.unlink(id, None);
                assert(match start.nodes@[id as int] {
                    None => graph.nodes@[id as int] is None,
                    Some(n) => graph.nodes@[id as int] matches Some(m) && node_unlinked(n, m, id, None),
                });
                let ghost mid = *graph;
                let mut node = graph.take_node(id);
                node.outputs = element_outputs(node.outputs.len(), new_type);
                node.user_data.template = Template::DeconstructArray(new_type);
                graph.put_node(id, node);
                proof {
                    if old(graph).well_formed() {
                        lemma_unlinked_from_all(start, mid, id);
                        lemma_element_names_unique(output_names(node.outputs@));
                        lemma_outputs_reset_wf(mid, *graph, id);
                    }
                }
            }
        },
        _ => {},
    }
}

impl Graph {
    /// Adds a node of a kind, with the kind's ports, and gives its identity: the next slot.
    pub fn add_node(&mut self, template: Template) -> (r: usize)
        requires
            old(self).nodes@.len() < usize::MAX,
        ensures
            r == old(self).nodes@.len(),
            final(self).nodes@.len() == old(self).nodes@.len() + 1,
            forall|k: int| 0 <= k < r ==> #[trigger] final(self).nodes@[k] == old(self).nodes@[k],
            final(self).has_node(r),
            final(self).node_at(r).user_data.template == template,
            inputs_are(final(self).node_at(r), fixed_inputs(template)),
            outputs_are(final(self).node_at(r), fixed_outputs(template)),
            old(self).well_formed() ==> final(self).well_formed(),
    {
        let id = self.nodes.len();
        let node = Node { user_data: template.user_data(), inputs: Vec::new(), outputs: Vec::new() };
        self.nodes.push(Some(node));
        proof {
            if old(self).well_formed() {
                lemma_node_pushed_wf(*old(self), *self, node);
            }
        }
        template.build_node(self, id);
        id
    }

    /// Removes a node, and every link that comes from it. Its slot stays empty.
    pub fn remove_node(&mut self, id: usize)
        ensures
            final(self).nodes@.len() == old(self).nodes@.len(),
            !final(self).has_node(id),
            forall|q: int|
                0 <= q < old(self).nodes@.len() && q != id ==> match #[trigger] old(self).nodes@[q] {
                    None => final(self).nodes@[q] is None,
                    Some(n) => final(self).nodes@[q] matches Some(m) && node_unlinked(n, m, id, None),
                },
            old(self).well_formed() ==> final(self).well_formed(),
    {
        self.unlink(id, None);
        let ghost mid = *self;
        if id < self.nodes.len() {
            self.nodes[id] = None;
            proof {
                if old(self).well_formed() {
                    lemma_unlinked_from_all(*old(self), mid, id);
                    lemma_node_cleared_wf(mid, *self, id);
                }
            }
        }
    }
}

/// How `add_dynamic_param` changes a node: a JSON node gains a port of the given name and
/// type (an input on the constructor, an output on the splitter); an array node gains an
/// element port of its element type, named by the next position. Other kinds are unchanged.
pub open spec fn dynamic_param_added(old: Node, new: Node, t: DataType, name: Seq<char>) -> bool {
    match old.user_data.template {
        Template::ConstructJson => param_added(old, new, name, t, IO::Input),
        Template::DeconstructJson => param_added(old, new, name, t, IO::Output),
        Template::ConstructArray(e) => param_added(old, new, decimal_text(old.inputs@.len()), e, IO::Input),
        Template::DeconstructArray(e) => param_added(
            old,
            new,
            decimal_text(old.outputs@.len()),
            e,
            IO::Output,
        ),
        _ => new == old,
    }
}

/// Adds a user-controlled port to node `id`: on a JSON node the port `name` of type `t`, on
/// an array node the next element port.
pub fn add_dynamic_param(id: usize, t: DataType, name: &str, graph: &mut Graph)
    requires
        old(graph).has_node(id),
    ensures
        final(graph).same_except(old(graph), id),
        final(graph).has_node(id),
        dynamic_param_added(old(graph).node_at(id), final(graph).node_at(id), t, name@),
        old(graph).well_formed() ==> final(graph).well_formed(),
{
    let node = graph.node(id).unwrap();
    match node.user_data.template {
        Template::ConstructJson => add_param(id, t, name, IO::Input, graph),
        Template::DeconstructJson => add_param(id, t, name, IO::Output, graph),
        Template::ConstructArray(e) => {
            let index = index_name(node.inputs.len());
            add_param(id, e, index.as_str(), IO::Input, graph);
        },
        Template::DeconstructArray(e) => {
            let index = index_name(node.outputs.len());
            add_param(id, e, index.as_str(), IO::Output, graph);
        },
        _ => {},
    }
}

/// How `remove_dynamic_param` changes the graph: a JSON node loses its port `name` (an
/// input on the constructor, an output on the splitter); an array node loses its last
/// element port, where it has one. Other kinds are unchanged.
pub open spec fn dynamic_param_removed(
    old_graph: Graph,
    new_graph: Graph,
    id: usize,
    name: Seq<char>,
    r: Result<(), ErrorModel>,
) -> bool {
    let node = old_graph.node_at(id);
    match node.user_data.template {
        Template::ConstructJson => param_removed(old_graph, new_graph, id, name, IO::Input, r),
        Template::DeconstructJson => param_removed(old_graph, new_graph, id, name, IO::Output, r),
        Template::ConstructArray(_) => if node.inputs@.len() == 0 {
            r is Ok && new_graph == old_graph
        } else {
            param_removed(
                old_graph,
                new_graph,
                id,
                decimal_text((node.inputs@.len() - 1) as nat),
                IO::Input,
                r,
            )
        },
        Template::DeconstructArray(_) => if node.outputs@.len() == 0 {
            r is Ok && new_graph == old_graph
        } else {
            param_removed(
                old_graph,
                new_graph,
                id,
                decimal_text((node.outputs@.len() - 1) as nat),
                IO::Output,
                r,
            )
        },
        _ => r is Ok && new_graph == old_graph,
    }
}

/// Removes a user-controlled port from node `id`: on a JSON node the port `name`, on an
/// array node the last element port.
pub fn remove_dynamic_param(id: usize, name: &str, graph: &mut Graph) -> (r: Result<(), GraphError>)
    requires
        old(graph).has_node(id),
    ensures
        dynamic_param_removed(*old(graph), *final(graph), id, name@, unit_result(r)),
        old(graph).well_formed() ==> final(graph).well_formed(),
{
    let node = graph.node(id).unwrap();
    match node.user_data.template {
        Template::ConstructJson => remove_param(id, name, IO::Input, graph),
        Template::DeconstructJson => remove_param(id, name, IO::Output, graph),
        Template::ConstructArray(_) => {
            let count = node.inputs.len();
            if count == 0 {
                Ok(())
            } else {
                let index = index_name(count - 1);
                remove_param(id, index.as_str(), IO::Input, graph)
            }
        },
        Template::DeconstructArray(_) => {
            let count = node.outputs.len();
            if count == 0 {
                Ok(())
            } else {
                let index = index_name(count - 1);
                remove_param(id, index.as_str(), IO::Output, graph)
            }
        },
        _ => Ok(()),
    }
}

/// The graph after input `name` of node `id`, at position `i`, is changed to `p`.
pub open spec fn input_replaced(old: Graph, new: Graph, id: usize, i: int, p: InputParam) -> bool {
    &&& new.same_except(&old, id)
    &&& new.has_node(id)
    &&& new.node_at(id).user_data == old.node_at(id).user_data
    &&& new.node_at(id).outputs@ == old.node_at(id).outputs@
    &&& new.node_at(id).inputs@ == old.node_at(id).inputs@.update(i, p)
}

impl Graph {
    /// Links input `input_name` of node `input_node` to output `output_name` of node
    /// `output_node`, in place of any link it had. Fails with `PortNotFound` naming the
    /// input, or else the output, where it is absent, and then changes nothing.
    pub fn connect(
        &mut self,
        input_node: usize,
        input_name: &str,
        output_node: usize,
        output_name: &str,
    ) -> (r: Result<(), GraphError>)
        ensures
            !old(self).has_node(input_node) || !has_name(
                input_names(old(self).node_at(input_node).inputs@),
                input_name@,
            ) ==> unit_result(r) == Err::<(), ErrorModel>(
                ErrorModel::PortNotFound { node: input_node, port: input_name@ },
            ) && *final(self) == *old(self),
            old(self).has_node(input_node) && has_name(
                input_names(old(self).node_at(input_node).inputs@),
                input_name@,
            ) && (!old(self).has_node(output_node) || !has_name(
                output_names(old(self).node_at(output_node).outputs@),
                output_name@,
            )) ==> unit_result(r) == Err::<(), ErrorModel>(
                ErrorModel::PortNotFound { node: output_node, port: output_name@ },
            ) && *final(self) == *old(self),
            old(self).has_node(input_node) && has_name(
                input_names(old(self).node_at(input_node).inputs@),
                input_name@,
            ) && old(self).has_node(output_node) && has_name(
                output_names(old(self).node_at(output_node).outputs@),
                output_name@,
            ) ==> r is Ok,
            r is Ok ==> match position_of(
                input_names(old(self).node_at(input_node).inputs@),
                input_name@,
                0,
            ) {
                Some(i) => {
                    let p = old(self).node_at(input_node).inputs@[i];
                    let q = final(self).node_at(input_node).inputs@[i];
                    &&& input_replaced(*old(self), *final(self), input_node, i, q)
                    &&& q.name == p.name && q.typ == p.typ && q.value == p.value
                    &&& q.link matches Some(l) && l.node == output_node && l.name@ == output_name@
                },
                None => false,
            },
            old(self).well_formed() ==> final(self).well_formed(),
    {
        let in_key = input_name.to_owned();
        let out_key = output_name.to_owned();
        let i = match self.node(input_node) {
            None => return Err(GraphError::PortNotFound { node: input_node, port: in_key }),
            Some(n) => match n.input_index(&in_key) {
                None => return Err(GraphError::PortNotFound { node: input_node, port: in_key }),
                Some(i) => i,
            },
        };
        match self.node(output_node) {
            None => return Err(GraphError::PortNotFound { node: output_node, port: out_key }),
            Some(n) => match n.output_index(&out_key) {
                None => return Err(GraphError::PortNotFound { node: output_node, port: out_key }),
                Some(k) => {
                    proof {
                        lemma_position_of(output_names(n.outputs@), out_key@, 0);
                        assert(output_names(n.outputs@)[k as int] == out_key@);
                    }
                },
            },
        }
        let mut node = self.take_node(input_node);
        let mut p = node.inputs.remove(i);
        p.link = Some(OutputRef { node: output_node, name: out_key });
        node.inputs.insert(i, p);
        self.put_node(input_node, node);
        let ghost q = p;
        proof {
            lemma_position_of(input_names(old(self).node_at(input_node).inputs@), input_name@, 0);
            assert(self.node_at(input_node).inputs@ =~= old(self).node_at(input_node).inputs@.update(i as int, q));
            if old(self).well_formed() {
                lemma_input_replaced_wf(*old(self), *self, input_node, i as int, q);
            }
        }
        Ok(())
    }

    /// Drops the link of input `name` of node `id`. Fails with `PortNotFound` where there is
    /// no such input, and then changes nothing.
    pub fn disconnect(&mut self, id: usize, name: &str) -> (r: Result<(), GraphError>)
        ensures
            !old(self).has_node(id) || !has_name(input_names(old(self).node_at(id).inputs@), name@)
                ==> unit_result(r) == Err::<(), ErrorModel>(
                ErrorModel::PortNotFound { node: id, port: name@ },
            ) && *final(self) == *old(self),
            old(self).has_node(id) && has_name(input_names(old(self).node_at(id).inputs@), name@)
                ==> r is Ok,
            r is Ok ==> match position_of(input_names(old(self).node_at(id).inputs@), name@, 0) {
                Some(i) => {
                    let p = old(self).node_at(id).inputs@[i];
                    input_replaced(
                        *old(self),
                        *final(self),
                        id,
                        i,
                        InputParam { name: p.name, typ: p.typ, value: p.value, link: None },
                    )
                },
                None => false,
            },
            old(self).well_formed() ==> final(self).well_formed(),
    {
        let key = name.to_owned();
        let i = match self.node(id) {
            None => return Err(GraphError::PortNotFound { node: id, port: key }),
            Some(n) => match n.input_index(&key) {
                None => return Err(GraphError::PortNotFound { node: id, port: key }),
                Some(i) => i,
            },
        };
        let mut node = self.take_node(id);
        let mut p = node.inputs.remove(i);
        p.link = None;
        node.inputs.insert(i, p);
        self.put_node(id, node);
        proof {
            assert(self.node_at(id).inputs@ =~= old(self).node_at(id).inputs@.update(i as int, p));
            if old(self).well_formed() {
                assert(old(self).has_node(id));
                assert(link_valid(*old(self), old(self).node_at(id).inputs@[i as int]));
                lemma_input_replaced_wf(*old(self), *self, id, i as int, p);
            }
        }
        Ok(())
    }

    /// Sets the inline value of input `name` of node `id`. Fails with `PortNotFound` where
    /// there is no such input, and then changes nothing.
    pub fn set_input_value(&mut self, id: usize, name: &str, value: ValueType) -> (r: Result<(), GraphError>)
        ensures
            !old(self).has_node(id) || !has_name(input_names(old(self).node_at(id).inputs@), name@)
                ==> unit_result(r) == Err::<(), ErrorModel>(
                ErrorModel::PortNotFound { node: id, port: name@ },
            ) && *final(self) == *old(self),
            old(self).has_node(id) && has_name(input_names(old(self).node_at(id).inputs@), name@)
                ==> r is Ok,
            r is Ok ==> match position_of(input_names(old(self).node_at(id).inputs@), name@, 0) {
                Some(i) => {
                    let p = old(self).node_at(id).inputs@[i];
                    input_replaced(
                        *old(self),
                        *final(self),
                        id,
                        i,
                        InputParam { name: p.name, typ: p.typ, value: value, link: p.link },
                    )
                },
                None => false,
            },
            old(self).well_formed() ==> final(self).well_formed(),
    {
        let key = name.to_owned();
        let i = match self.node(id) {
            None => return Err(GraphError::PortNotFound { node: id, port: key }),
            Some(n) => match n.input_index(&key) {
                None => return Err(GraphError::PortNotFound { node: id, port: key }),
                Some(i) => i,
            },
        };
        let mut node = self.take_node(id);
        let mut p = node.inputs.remove(i);
        p.value = value;
        node.inputs.insert(i, p);
        self.put_node(id, node);
        proof {
            assert(self.node_at(id).inputs@ =~= old(self).node_at(id).inputs@.update(i as int, p));
            if old(self).well_formed() {
                assert(old(self).has_node(id));
                assert(link_valid(*old(self), old(self).node_at(id).inputs@[i as int]));
                lemma_input_replaced_wf(*old(self), *self, id, i as int, p);
            }
        }
        Ok(())
    }
}

} // verus!
