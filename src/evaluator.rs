use vstd::prelude::*;
use vstd::string::*;

use crate::error::{ErrorModel, GraphError};
use crate::graph::{input_names, output_names, position_of, Graph};
use crate::template::Template;
use crate::text::{decimal_text, index_name};
use crate::value::{
    coerce_array, coerce_bool, element, extract, extract_value, field, json_seq_view,
    json_entries_view, list_element, parse_text, parse_text_number, value_json, value_text, DataType, JsonModel,
    JsonValue, ValueModel, ValueType,
};

verus! {

/// The state of one evaluation pass: the values that outputs produced, keyed by node and
/// output position (a later entry stands over an earlier one), and the nodes evaluated, in
/// order.
pub struct EvalState {
    pub cache: Seq<(usize, usize, ValueModel)>,
    pub trace: Seq<usize>,
}

/// What a step of the evaluation gives, and the state after it.
pub struct Step<T> {
    pub result: Result<T, ErrorModel>,
    pub state: EvalState,
}

/// The value cached for an output, the latest where it was cached twice.
pub open spec fn cache_get(c: Seq<(usize, usize, ValueModel)>, node: usize, port: usize) -> Option<
    ValueModel,
>
    decreases c.len(),
{
    if c.len() == 0 {
        None
    } else if c.last().0 == node && c.last().1 == port {
        Some(c.last().2)
    } else {
        cache_get(c.drop_last(), node, port)
    }
}

pub open spec fn fail<T>(e: ErrorModel, st: EvalState) -> Step<T> {
    Step { result: Err(e), state: st }
}

pub open spec fn not_found(node: usize, port: Seq<char>) -> ErrorModel {
    ErrorModel::PortNotFound { node, port }
}

/// Stores a value for output `name` of the node, and gives its text.
pub open spec fn populate(g: Graph, node: usize, name: Seq<char>, v: ValueModel, st: EvalState) -> Step<
    Seq<char>,
> {
    match position_of(output_names(g.node_at(node).outputs@), name, 0) {
        None => fail(not_found(node, name), st),
        Some(k) => Step {
            result: Ok(value_text(v)),
            state: EvalState { cache: st.cache.push((node, k as usize, v)), trace: st.trace },
        },
    }
}

pub open spec fn single(s: Step<Seq<char>>) -> Step<Seq<Seq<char>>> {
    match s.result {
        Ok(t) => Step { result: Ok(seq![t]), state: s.state },
        Err(e) => fail(e, s.state),
    }
}

/// The value of input `name` of a node: its link's value where it has a link, else its own.
/// An output not yet cached is computed by evaluating its node, one level deeper; with no
/// depth left that fails as a cycle.
pub open spec fn eval_input(g: Graph, node: usize, name: Seq<char>, depth: nat, st: EvalState) -> Step<
    ValueModel,
>
    decreases depth, 1nat, 0nat,
{
    if !g.has_node(node) {
        fail(not_found(node, name), st)
    } else {
        match position_of(input_names(g.node_at(node).inputs@), name, 0) {
            None => fail(not_found(node, name), st),
            Some(i) => {
                let p = g.node_at(node).inputs@[i];
                match p.link {
                    None => Step { result: Ok(p.value@), state: st },
                    Some(r) => {
                        if !g.has_node(r.node) {
                            fail(not_found(r.node, r.name@), st)
                        } else {
                            match position_of(output_names(g.node_at(r.node).outputs@), r.name@, 0) {
                                None => fail(not_found(r.node, r.name@), st),
                                Some(k) => match cache_get(st.cache, r.node, k as usize) {
                                    Some(v) => Step { result: Ok(v), state: st },
                                    None => if depth == 0 {
                                        fail(ErrorModel::CycleDetected { node: r.node }, st)
                                    } else {
                                        let s = eval_node(g, r.node, (depth - 1) as nat, st);
                                        match s.result {
                                            Err(e) => fail(e, s.state),
                                            Ok(_) => match cache_get(s.state.cache, r.node, k as usize) {
                                                Some(v) => Step { result: Ok(v), state: s.state },
                                                None => fail(not_found(r.node, r.name@), s.state),
                                            },
                                        }
                                    },
                                },
                            }
                        }
                    },
                }
            },
        }
    }
}

/// Evaluates the node's inputs from position `i` on, in order, each as a JSON object entry
/// added to `acc`.
pub open spec fn json_entries(
    g: Graph,
    node: usize,
    i: nat,
    depth: nat,
    st: EvalState,
    acc: Seq<(Seq<char>, JsonModel)>,
) -> Step<Seq<(Seq<char>, JsonModel)>>
    decreases depth, 2nat, (g.node_at(node).inputs@.len() - i) as nat,
{
    if i >= g.node_at(node).inputs@.len() {
        Step { result: Ok(acc), state: st }
    } else {
        let name = g.node_at(node).inputs@[i as int].name@;
        let s = eval_input(g, node, name, depth, st);
        match s.result {
            Err(e) => fail(e, s.state),
            Ok(v) => json_entries(g, node, i + 1, depth, s.state, acc.push((name, value_json(v)))),
        }
    }
}

/// Evaluates the node's inputs from position `i` on, in order, each as a list element
/// added to `acc`.
pub open spec fn array_items(
    g: Graph,
    node: usize,
    i: nat,
    depth: nat,
    st: EvalState,
    acc: Seq<JsonModel>,
) -> Step<Seq<JsonModel>>
    decreases depth, 2nat, (g.node_at(node).inputs@.len() - i) as nat,
{
    if i >= g.node_at(node).inputs@.len() {
        Step { result: Ok(acc), state: st }
    } else {
        let name = g.node_at(node).inputs@[i as int].name@;
        let s = eval_input(g, node, name, depth, st);
        match s.result {
            Err(e) => fail(e, s.state),
            Ok(v) => array_items(g, node, i + 1, depth, s.state, acc.push(value_json(v))),
        }
    }
}

/// Fills the node's outputs from position `i` on from the fields of a JSON value: each
/// output reads the field of its own name, as its own type. The texts go after `acc`.
pub open spec fn fill_fields(
    g: Graph,
    node: usize,
    j: JsonModel,
    i: nat,
    st: EvalState,
    acc: Seq<Seq<char>>,
) -> Step<Seq<Seq<char>>>
    decreases (g.node_at(node).outputs@.len() - i) as nat,
{
    if i >= g.node_at(node).outputs@.len() {
        Step { result: Ok(acc), state: st }
    } else {
        let out = g.node_at(node).outputs@[i as int];
        let p = populate(g, node, out.name@, extract(field(j, out.name@), out.typ), st);
        match p.result {
            Err(e) => fail(e, p.state),
            Ok(t) => fill_fields(g, node, j, i + 1, p.state, acc.push(t)),
        }
    }
}

/// Fills outputs named `"i"` up to the node's output count from the elements of a list,
/// as type `t`. The texts go after `acc`.
pub open spec fn fill_elements(
    g: Graph,
    node: usize,
    t: DataType,
    items: Seq<JsonModel>,
    i: nat,
    st: EvalState,
    acc: Seq<Seq<char>>,
) -> Step<Seq<Seq<char>>>
    decreases (g.node_at(node).outputs@.len() - i) as nat,
{
    if i >= g.node_at(node).outputs@.len() {
        Step { result: Ok(acc), state: st }
    } else {
        let p = populate(g, node, decimal_text(i), extract(element(items, i as int), t), st);
        match p.result {
            Err(e) => fail(e, p.state),
            Ok(x) => fill_elements(g, node, t, items, i + 1, p.state, acc.push(x)),
        }
    }
}

/// The text that `MakeNumber` parses: its input's text, `"0"` where that is empty.
pub open spec fn number_source(v: ValueModel) -> Seq<char> {
    if value_text(v).len() == 0 {
        "0"@
    } else {
        value_text(v)
    }
}

/// Cache entries that hold `false` for the node's outputs `0` to `count - 1`, in order.
pub open spec fn false_entries(node: usize, count: nat) -> Seq<(usize, usize, ValueModel)> {
    Seq::new(count, |k: int| (node, k as usize, ValueModel::Bool(false)))
}

/// A kind that computes nothing yet gives the single text `false`, and stores `false` for
/// every output it declares.
pub open spec fn unfinished(g: Graph, node: usize, st: EvalState) -> Step<Seq<Seq<char>>> {
    Step {
        result: Ok(seq![value_text(ValueModel::Bool(false))]),
        state: EvalState {
            cache: st.cache + false_entries(node, g.node_at(node).outputs@.len()),
            trace: st.trace,
        },
    }
}

/// What one node kind computes, given the state with the node already recorded.
pub open spec fn eval_kind(g: Graph, node: usize, depth: nat, st: EvalState) -> Step<Seq<Seq<char>>>
    decreases depth, 3nat, 0nat,
{
    match g.node_at(node).user_data.template {
        Template::MakeBool => {
            let s = eval_input(g, node, "bool"@, depth, st);
            match s.result {
                Err(e) => fail(e, s.state),
                Ok(v) => match coerce_bool(v) {
                    Err(e) => fail(e, s.state),
                    Ok(b) => single(populate(g, node, "out"@, ValueModel::Bool(b), s.state)),
                },
            }
        },
        Template::MakeNumber => {
            let s = eval_input(g, node, "number"@, depth, st);
            match s.result {
                Err(e) => fail(e, s.state),
                Ok(v) => match parse_text_number(number_source(v)) {
                    Err(e) => fail(e, s.state),
                    Ok(n) => single(populate(g, node, "out"@, ValueModel::Number(n), s.state)),
                },
            }
        },
        Template::MakeString => {
            let s = eval_input(g, node, "string"@, depth, st);
            match s.result {
                Err(e) => fail(e, s.state),
                Ok(v) => single(populate(g, node, "out"@, ValueModel::String(value_text(v)), s.state)),
            }
        },
        Template::ConstructJson => {
            let s = json_entries(g, node, 0, depth, st, Seq::empty());
            match s.result {
                Err(e) => fail(e, s.state),
                Ok(entries) => single(
                    populate(g, node, "out"@, ValueModel::Json(JsonModel::Object(entries)), s.state),
                ),
            }
        },
        Template::DeconstructJson => {
            let s = eval_input(g, node, "json"@, depth, st);
            match s.result {
                Err(e) => fail(e, s.state),
                Ok(v) => fill_fields(g, node, value_json(v), 0, s.state, Seq::empty()),
            }
        },
        Template::ConstructArray(_) => {
            let s = array_items(g, node, 0, depth, st, Seq::empty());
            match s.result {
                Err(e) => fail(e, s.state),
                Ok(items) => single(populate(g, node, "out"@, ValueModel::Array(items), s.state)),
            }
        },
        Template::DeconstructArray(t) => {
            let s = eval_input(g, node, "array"@, depth, st);
            match s.result {
                Err(e) => fail(e, s.state),
                Ok(v) => match coerce_array(v) {
                    Err(e) => fail(e, s.state),
                    Ok(items) => fill_elements(g, node, t, items, 0, s.state, Seq::empty()),
                },
            }
        },
        _ => unfinished(g, node, st),
    }
}

/// Evaluates a node: records it, computes what its kind computes, and gives the texts of
/// its outputs.
pub open spec fn eval_node(g: Graph, node: usize, depth: nat, st: EvalState) -> Step<Seq<Seq<char>>>
    decreases depth, 4nat, 0nat,
{
    if !g.has_node(node) {
        fail(not_found(node, Seq::empty()), st)
    } else {
        eval_kind(g, node, depth, EvalState { cache: st.cache, trace: st.trace.push(node) })
    }
}

/// One pass from a given state: depth starts at the number of node slots, which no chain
/// of links without a cycle reaches.
pub open spec fn evaluation(g: Graph, node: usize, st: EvalState) -> Step<Seq<Seq<char>>> {
    eval_node(g, node, g.nodes@.len(), st)
}

pub open spec fn fresh_state() -> EvalState {
    EvalState { cache: Seq::empty(), trace: Seq::empty() }
}

pub open spec fn texts_view(v: Seq<String>) -> Seq<Seq<char>> {
    v.map_values(|s: String| s@)
}

pub open spec fn texts_result(r: Result<Vec<String>, GraphError>) -> Result<Seq<Seq<char>>, ErrorModel> {
    match r {
        Ok(v) => Ok(texts_view(v@)),
        Err(e) => Err(e@),
    }
}

pub open spec fn value_result(r: Result<ValueType, GraphError>) -> Result<ValueModel, ErrorModel> {
    match r {
        Ok(v) => Ok(v@),
        Err(e) => Err(e@),
    }
}

/// A value cached for one output.
#[derive(Debug)]
pub struct CacheEntry {
    pub node: usize,
    pub port: usize,
    pub value: ValueType,
}

/// The outputs computed so far in one evaluation pass.
pub struct OutputsCache {
    entries: Vec<CacheEntry>,
    evaluated: Ghost<Seq<usize>>,
}

pub open spec fn entries_view(s: Seq<CacheEntry>) -> Seq<(usize, usize, ValueModel)> {
    s.map_values(|e: CacheEntry| (e.node, e.port, e.value@))
}

impl OutputsCache {
    pub closed spec fn view(&self) -> EvalState {
        EvalState { cache: entries_view(self.entries@), trace: self.evaluated@ }
    }

    pub fn new() -> (r: OutputsCache)
        ensures
            r@ == fresh_state(),
    {
        let r = OutputsCache { entries: Vec::new(), evaluated: Ghost(Seq::empty()) };
        assert(r@.cache =~= Seq::empty());
        r
    }

    /// The number of values stored.
    pub fn len(&self) -> (r: usize)
        ensures
            r == self@.cache.len(),
    {
        self.entries.len()
    }

    /// The value cached for output `port` of `node`.
    pub fn get(&self, node: usize, port: usize) -> (r: Option<ValueType>)
        ensures
            match r {
                Some(v) => cache_get(self@.cache, node, port) == Some(v@),
                None => cache_get(self@.cache, node, port) is None,
            },
    {
        let ghost c = self@.cache;
        proof {
            assert(c.subrange(0, c.len() as int) =~= c);
        }
        let mut i: usize = self.entries.len();
        while i > 0
            invariant
                i <= self.entries.len(),
                c == entries_view(self.entries@),
                cache_get(c, node, port) == cache_get(c.subrange(0, i as int), node, port),
            decreases i,
        {
            proof {
                assert(c.subrange(0, i as int).drop_last() =~= c.subrange(0, i - 1));
            }
            if self.entries[i - 1].node == node && self.entries[i - 1].port == port {
                return Some(self.entries[i - 1].value.duplicate());
            }
            i -= 1;
        }
        None
    }

    fn insert(&mut self, node: usize, port: usize, value: ValueType)
        ensures
            final(self)@ == (EvalState {
                cache: old(self)@.cache.push((node, port, value@)),
                trace: old(self)@.trace,
            }),
    {
        self.entries.push(CacheEntry { node, port, value });
        proof {
            assert(entries_view(self.entries@) =~= entries_view(old(self).entries@).push(
                (node, port, value@),
            ));
        }
    }

    fn record(&mut self, node: usize)
        ensures
            final(self)@ == (EvalState {
                cache: old(self)@.cache,
                trace: old(self)@.trace.push(node),
            }),
    {
        self.evaluated = Ghost(self.evaluated@.push(node));
    }
}

fn not_found_error(node: usize, port: &String) -> (r: GraphError)
    ensures
        r@ == not_found(node, port@),
{
    GraphError::PortNotFound { node, port: port.clone() }
}

/// Stores `value` for output `name` of the node and gives its text.
fn populate_output(
    graph: &Graph,
    outputs_cache: &mut OutputsCache,
    node_id: usize,
    param_name: &String,
    value: ValueType,
) -> (r: Result<String, GraphError>)
    requires
        graph.has_node(node_id),
    ensures
        ({
            let s = populate(*graph, node_id, param_name@, value@, old(outputs_cache)@);
            &&& final(outputs_cache)@ == s.state
            &&& match r {
                Ok(t) => s.result == Ok::<Seq<char>, ErrorModel>(t@),
                Err(e) => s.result == Err::<Seq<char>, ErrorModel>(e@),
            }
        }),
{
    let node = graph.node(node_id).unwrap();
    match node.output_index(param_name) {
        None => Err(not_found_error(node_id, param_name)),
        Some(k) => {
            let text = value.render();
            outputs_cache.insert(node_id, k, value);
            Ok(text)
        },
    }
}

/// Evaluates input `param_name` of a node, evaluating the node that feeds it where its
/// value is not cached yet.
fn evaluate_input(
    graph: &Graph,
    node_id: usize,
    param_name: &String,
    depth: usize,
    outputs_cache: &mut OutputsCache,
) -> (r: Result<ValueType, GraphError>)
    ensures
        ({
            let s = eval_input(*graph, node_id, param_name@, depth as nat, old(outputs_cache)@);
            value_result(r) == s.result && final(outputs_cache)@ == s.state
        }),
        // an input without a link reads its own value, and nothing is evaluated
        graph.has_node(node_id) ==> match position_of(
            input_names(graph.node_at(node_id).inputs@),
            param_name@,
            0,
        ) {
            Some(i) => graph.node_at(node_id).inputs@[i].link is None ==> value_result(r) == Ok::<
                ValueModel,
                ErrorModel,
            >(graph.node_at(node_id).inputs@[i].value@) && final(outputs_cache)@ == old(
                outputs_cache,
            )@,
            None => true,
        },
        // an input linked to an output already cached reads that value, and nothing is
        // evaluated
        graph.has_node(node_id) ==> match position_of(
            input_names(graph.node_at(node_id).inputs@),
            param_name@,
            0,
        ) {
            Some(i) => match graph.node_at(node_id).inputs@[i].link {
                Some(l) => graph.has_node(l.node) ==> match position_of(
                    output_names(graph.node_at(l.node).outputs@),
                    l.name@,
                    0,
                ) {
                    Some(k) => match cache_get(old(outputs_cache)@.cache, l.node, k as usize) {
                        Some(v) => value_result(r) == Ok::<ValueModel, ErrorModel>(v)
                            && final(outputs_cache)@ == old(outputs_cache)@,
                        None => true,
                    },
                    None => true,
                },
                None => true,
            },
            None => true,
        },
    decreases depth, 1nat, 0nat,
{
    let node = match graph.node(node_id) {
        Some(n) => n,
        None => return Err(not_found_error(node_id, param_name)),
    };
    let i = match node.input_index(param_name) {
        Some(i) => i,
        None => return Err(not_found_error(node_id, param_name)),
    };
    let input = &node.inputs[i];
    match &input.link {
        None => Ok(input.value.duplicate()),
        Some(link) => {
            let source = match graph.node(link.node) {
                Some(s) => s,
                None => return Err(not_found_error(link.node, &link.name)),
            };
            let k = match source.output_index(&link.name) {
                Some(k) => k,
                None => return Err(not_found_error(link.node, &link.name)),
            };
            match outputs_cache.get(link.node, k) {
                Some(v) => Ok(v),
                None => {
                    if depth == 0 {
                        return Err(GraphError::CycleDetected { node: link.node });
                    }
                    match evaluate_node_at(graph, link.node, depth - 1, outputs_cache) {
                        Err(e) => Err(e),
                        Ok(_) => match outputs_cache.get(link.node, k) {
                            Some(v) => Ok(v),
                            None => Err(not_found_error(link.node, &link.name)),
                        },
                    }
                },
            }
        },
    }
}

/// Evaluates a node that exists, from the given depth.
fn evaluate_node_at(
    graph: &Graph,
    node_id: usize,
    depth: usize,
    outputs_cache: &mut OutputsCache,
) -> (r: Result<Vec<String>, GraphError>)
    requires
        graph.has_node(node_id),
    ensures
        ({
            let s = eval_node(*graph, node_id, depth as nat, old(outputs_cache)@);
            texts_result(r) == s.result && final(outputs_cache)@ == s.state
        }),
    decreases depth, 4nat, 0nat,
{
    outputs_cache.record(node_id);
    evaluate_kind(graph, node_id, depth, outputs_cache)
}

fn one_text(r: Result<String, GraphError>) -> (out: Result<Vec<String>, GraphError>)
    ensures
        match r {
            Ok(t) => texts_result(out) == Ok::<Seq<Seq<char>>, ErrorModel>(seq![t@]),
            Err(e) => texts_result(out) == Err::<Seq<Seq<char>>, ErrorModel>(e@),
        },
{
    match r {
        Ok(t) => {
            let mut v: Vec<String> = Vec::new();
            v.push(t);
            proof {
                assert(texts_view(v@) =~= seq![v@[0]@]);
            }
            Ok(v)
        },
        Err(e) => Err(e),
    }
}

fn evaluate_kind(
    graph: &Graph,
    node_id: usize,
    depth: usize,
    outputs_cache: &mut OutputsCache,
) -> (r: Result<Vec<String>, GraphError>)
    requires
        graph.has_node(node_id),
    ensures
        ({
            let s = eval_kind(*graph, node_id, depth as nat, old(outputs_cache)@);
            texts_result(r) == s.result && final(outputs_cache)@ == s.state
        }),
    decreases depth, 3nat, 0nat,
{
    let node = graph.node(node_id).unwrap();
    match node.user_data.template {
        Template::MakeBool => make_bool(graph, node_id, depth, outputs_cache),
        Template::MakeNumber => make_number(graph, node_id, depth, outputs_cache),
        Template::MakeString => make_string(graph, node_id, depth, outputs_cache),
        Template::ConstructJson => construct_json(graph, node_id, depth, outputs_cache),
        Template::DeconstructJson => deconstruct_json(graph, node_id, depth, outputs_cache),
        Template::ConstructArray(_) => construct_array(graph, node_id, depth, outputs_cache),
        Template::DeconstructArray(t) => deconstruct_array(graph, node_id, t, depth, outputs_cache),
        _ => unfinished_kind(graph, node_id, outputs_cache),
    }
}

/// A kind that computes nothing yet: `false`, stored for output `out` where there is one.
fn unfinished_kind(graph: &Graph, node_id: usize, outputs_cache: &mut OutputsCache) -> (r: Result<
    Vec<String>,
    GraphError,
>)
    requires
        graph.has_node(node_id),
    ensures
        ({
            let s = unfinished(*graph, node_id, old(outputs_cache)@);
            texts_result(r) == s.result && final(outputs_cache)@ == s.state
        }),
{
    let node = graph.node(node_id).unwrap();
    let text = ValueType::Bool(false).render();
    let mut k: usize = 0;
    while k < node.outputs.len()
        invariant
            *node == graph.node_at(node_id),
            k <= node.outputs.len(),
            outputs_cache@.cache == old(outputs_cache)@.cache + false_entries(node_id, k as nat),
            outputs_cache@.trace == old(outputs_cache)@.trace,
        decreases node.outputs.len() - k,
    {
        outputs_cache.insert(node_id, k, ValueType::Bool(false));
        proof {
            assert(old(outputs_cache)@.cache + false_entries(node_id, (k + 1) as nat) =~= (
            old(outputs_cache)@.cache + false_entries(node_id, k as nat)).push(
                (node_id, k, ValueModel::Bool(false)),
            ));
        }
        k += 1;
    }
    one_text(Ok(text))
}

fn make_bool(
    graph: &Graph,
    node_id: usize,
    depth: usize,
    outputs_cache: &mut OutputsCache,
) -> (r: Result<Vec<String>, GraphError>)
    requires
        graph.has_node(node_id),
        graph.node_at(node_id).user_data.template is MakeBool,
    ensures
        ({
            let s = eval_kind(*graph, node_id, depth as nat, old(outputs_cache)@);
            texts_result(r) == s.result && final(outputs_cache)@ == s.state
        }),
    decreases depth, 2nat, 0nat,
{
    let v = match evaluate_input(graph, node_id, &String::from_str("bool"), depth, outputs_cache) {
        Ok(v) => v,
        Err(e) => return Err(e),
    };
    let b = match v.try_into_bool() {
        Ok(b) => b,
        Err(e) => return Err(e),
    };
    let out = String::from_str("out");
    one_text(populate_output(graph, outputs_cache, node_id, &out, ValueType::Bool(b)))
}

fn make_number(
    graph: &Graph,
    node_id: usize,
    depth: usize,
    outputs_cache: &mut OutputsCache,
) -> (r: Result<Vec<String>, GraphError>)
    requires
        graph.has_node(node_id),
        graph.node_at(node_id).user_data.template is MakeNumber,
    ensures
        ({
            let s = eval_kind(*graph, node_id, depth as nat, old(outputs_cache)@);
            texts_result(r) == s.result && final(outputs_cache)@ == s.state
        }),
    decreases depth, 2nat, 0nat,
{
    let v = match evaluate_input(graph, node_id, &String::from_str("number"), depth, outputs_cache) {
        Ok(v) => v,
        Err(e) => return Err(e),
    };
    let mut text = v.render();
    if text.as_str().is_empty() {
        text = String::from_str("0");
    }
    let n = match parse_text(text.as_str()) {
        Ok(n) => n,
        Err(e) => return Err(e),
    };
    let out = String::from_str("out");
    one_text(populate_output(graph, outputs_cache, node_id, &out, ValueType::Number(n)))
}

fn make_string(
    graph: &Graph,
    node_id: usize,
    depth: usize,
    outputs_cache: &mut OutputsCache,
) -> (r: Result<Vec<String>, GraphError>)
    requires
        graph.has_node(node_id),
        graph.node_at(node_id).user_data.template is MakeString,
    ensures
        ({
            let s = eval_kind(*graph, node_id, depth as nat, old(outputs_cache)@);
            texts_result(r) == s.result && final(outputs_cache)@ == s.state
        }),
    decreases depth, 2nat, 0nat,
{
    let v = match evaluate_input(graph, node_id, &String::from_str("string"), depth, outputs_cache) {
        Ok(v) => v,
        Err(e) => return Err(e),
    };
    let out = String::from_str("out");
    one_text(populate_output(graph, outputs_cache, node_id, &out, ValueType::String(v.render())))
}

fn construct_json(
    graph: &Graph,
    node_id: usize,
    depth: usize,
    outputs_cache: &mut OutputsCache,
) -> (r: Result<Vec<String>, GraphError>)
    requires
        graph.has_node(node_id),
        graph.node_at(node_id).user_data.template is ConstructJson,
    ensures
        ({
            let s = eval_kind(*graph, node_id, depth as nat, old(outputs_cache)@);
            texts_result(r) == s.result && final(outputs_cache)@ == s.state
        }),
    decreases depth, 2nat, 0nat,
{
    let node = graph.node(node_id).unwrap();
    let mut entries: Vec<(String, JsonValue)> = Vec::new();
    proof {
        assert(json_entries_view(entries@) =~= Seq::<(Seq<char>, JsonModel)>::empty());
    }
    let mut i: usize = 0;
    while i < node.inputs.len()
        invariant
            *node == graph.node_at(node_id),
            graph.node_at(node_id).user_data.template is ConstructJson,
            graph.has_node(node_id),
            i <= node.inputs.len(),
            json_entries(*graph, node_id, 0, depth as nat, old(outputs_cache)@, Seq::empty()) == json_entries(
                *graph,
                node_id,
                i as nat,
                depth as nat,
                outputs_cache@,
                json_entries_view(entries@),
            ),
        decreases node.inputs.len() - i,
    {
        let name = node.inputs[i].name.clone();
        let v = match evaluate_input(graph, node_id, &name, depth, outputs_cache) {
            Ok(v) => v,
            Err(e) => return Err(e),
        };
        let ghost before = entries@;
        entries.push((name, v.to_json()));
        proof {
            assert(entries@.drop_last() =~= before);
        }
        i += 1;
    }
    let out = String::from_str("out");
    let j = ValueType::Json(JsonValue::Object(entries));
    one_text(populate_output(graph, outputs_cache, node_id, &out, j))
}

fn deconstruct_json(
    graph: &Graph,
    node_id: usize,
    depth: usize,
    outputs_cache: &mut OutputsCache,
) -> (r: Result<Vec<String>, GraphError>)
    requires
        graph.has_node(node_id),
        graph.node_at(node_id).user_data.template is DeconstructJson,
    ensures
        ({
            let s = eval_kind(*graph, node_id, depth as nat, old(outputs_cache)@);
            texts_result(r) == s.result && final(outputs_cache)@ == s.state
        }),
    decreases depth, 2nat, 0nat,
{
    let v = match evaluate_input(graph, node_id, &String::from_str("json"), depth, outputs_cache) {
        Ok(v) => v,
        Err(e) => return Err(e),
    };
    fill_outputs_from_fields(graph, node_id, &v.to_json(), outputs_cache)
}

/// Fills every output of the node from the field of the same name of `j`.
fn fill_outputs_from_fields(
    graph: &Graph,
    node_id: usize,
    j: &JsonValue,
    outputs_cache: &mut OutputsCache,
) -> (r: Result<Vec<String>, GraphError>)
    requires
        graph.has_node(node_id),
    ensures
        ({
            let s = fill_fields(*graph, node_id, j@, 0, old(outputs_cache)@, Seq::empty());
            texts_result(r) == s.result && final(outputs_cache)@ == s.state
        }),
{
    let node = graph.node(node_id).unwrap();
    let mut texts: Vec<String> = Vec::new();
    proof {
        assert(texts_view(texts@) =~= Seq::<Seq<char>>::empty());
    }
    let mut i: usize = 0;
    while i < node.outputs.len()
        invariant
            *node == graph.node_at(node_id),
            graph.has_node(node_id),
            i <= node.outputs.len(),
            fill_fields(*graph, node_id, j@, 0, old(outputs_cache)@, Seq::empty()) == fill_fields(
                *graph,
                node_id,
                j@,
                i as nat,
                outputs_cache@,
                texts_view(texts@),
            ),
        decreases node.outputs.len() - i,
    {
        let name = &node.outputs[i].name;
        let x = extract_value(&j.field(name), node.outputs[i].typ);
        let t = match populate_output(graph, outputs_cache, node_id, name, x) {
            Ok(t) => t,
            Err(e) => return Err(e),
        };
        let ghost before = texts@;
        texts.push(t);
        proof {
            assert(texts@.drop_last() =~= before);
            assert(texts_view(texts@) =~= texts_view(before).push(t@));
        }
        i += 1;
    }
    Ok(texts)
}

fn construct_array(
    graph: &Graph,
    node_id: usize,
    depth: usize,
    outputs_cache: &mut OutputsCache,
) -> (r: Result<Vec<String>, GraphError>)
    requires
        graph.has_node(node_id),
        graph.node_at(node_id).user_data.template is ConstructArray,
    ensures
        ({
            let s = eval_kind(*graph, node_id, depth as nat, old(outputs_cache)@);
            texts_result(r) == s.result && final(outputs_cache)@ == s.state
        }),
    decreases depth, 2nat, 0nat,
{
    let node = graph.node(node_id).unwrap();
    let mut items: Vec<JsonValue> = Vec::new();
    proof {
        assert(json_seq_view(items@) =~= Seq::<JsonModel>::empty());
    }
    let mut i: usize = 0;
    while i < node.inputs.len()
        invariant
            *node == graph.node_at(node_id),
            graph.node_at(node_id).user_data.template is ConstructArray,
            graph.has_node(node_id),
            i <= node.inputs.len(),
            array_items(*graph, node_id, 0, depth as nat, old(outputs_cache)@, Seq::empty()) == array_items(
                *graph,
                node_id,
                i as nat,
                depth as nat,
                outputs_cache@,
                json_seq_view(items@),
            ),
        decreases node.inputs.len() - i,
    {
        let v = match evaluate_input(graph, node_id, &node.inputs[i].name, depth, outputs_cache) {
            Ok(v) => v,
            Err(e) => return Err(e),
        };
        let ghost before = items@;
        items.push(v.to_json());
        proof {
            assert(items@.drop_last() =~= before);
        }
        i += 1;
    }
    let out = String::from_str("out");
    one_text(populate_output(graph, outputs_cache, node_id, &out, ValueType::Array(items)))
}

fn deconstruct_array(
    graph: &Graph,
    node_id: usize,
    t: DataType,
    depth: usize,
    outputs_cache: &mut OutputsCache,
) -> (r: Result<Vec<String>, GraphError>)
    requires
        graph.has_node(node_id),
        graph.node_at(node_id).user_data.template == Template::DeconstructArray(t),
    ensures
        ({
            let s = eval_kind(*graph, node_id, depth as nat, old(outputs_cache)@);
            texts_result(r) == s.result && final(outputs_cache)@ == s.state
        }),
    decreases depth, 2nat, 0nat,
{
    let v = match evaluate_input(graph, node_id, &String::from_str("array"), depth, outputs_cache) {
        Ok(v) => v,
        Err(e) => return Err(e),
    };
    let items = match v.try_into_array() {
        Ok(a) => a,
        Err(e) => return Err(e),
    };
    fill_outputs_from_elements(graph, node_id, t, &items, outputs_cache)
}

/// Fills outputs `"0"`, `"1"`, ... of the node, as many as it has, from the elements of
/// `items`.
fn fill_outputs_from_elements(
    graph: &Graph,
    node_id: usize,
    t: DataType,
    items: &Vec<JsonValue>,
    outputs_cache: &mut OutputsCache,
) -> (r: Result<Vec<String>, GraphError>)
    requires
        graph.has_node(node_id),
    ensures
        ({
            let s = fill_elements(
                *graph,
                node_id,
                t,
                json_seq_view(items@),
                0,
                old(outputs_cache)@,
                Seq::empty(),
            );
            texts_result(r) == s.result && final(outputs_cache)@ == s.state
        }),
{
    let node = graph.node(node_id).unwrap();
    let mut texts: Vec<String> = Vec::new();
    proof {
        assert(texts_view(texts@) =~= Seq::<Seq<char>>::empty());
    }
    let mut i: usize = 0;
    while i < node.outputs.len()
        invariant
            *node == graph.node_at(node_id),
            graph.has_node(node_id),
            i <= node.outputs.len(),
            fill_elements(*graph, node_id, t, json_seq_view(items@), 0, old(outputs_cache)@, Seq::empty())
                == fill_elements(
                *graph,
                node_id,
                t,
                json_seq_view(items@),
                i as nat,
                outputs_cache@,
                texts_view(texts@),
            ),
        decreases node.outputs.len() - i,
    {
        let x = extract_value(&list_element(items, i), t);
        let name = index_name(i);
        let r = match populate_output(graph, outputs_cache, node_id, &name, x) {
            Ok(r) => r,
            Err(e) => return Err(e),
        };
        let ghost before = texts@;
        texts.push(r);
        proof {
            assert(texts@.drop_last() =~= before);
            assert(texts_view(texts@) =~= texts_view(before).push(r@));
        }
        i += 1;
    }
    Ok(texts)
}

/// Evaluates a node and, first, every node that it depends on through links, caching each
/// output that gets computed. Gives the texts of the node's outputs in order.
pub fn evaluate_node(graph: &Graph, node_id: usize, outputs_cache: &mut OutputsCache) -> (r: Result<
    Vec<String>,
    GraphError,
>)
    requires
        graph.has_node(node_id),
    ensures
        ({
            let s = evaluation(*graph, node_id, old(outputs_cache)@);
            texts_result(r) == s.result && final(outputs_cache)@ == s.state
        }),
{
    evaluate_node_at(graph, node_id, graph.nodes.len(), outputs_cache)
}

/// Evaluates a node from an empty cache.
pub fn evaluate(graph: &Graph, node_id: usize) -> (r: Result<Vec<String>, GraphError>)
    requires
        graph.has_node(node_id),
    ensures
        texts_result(r) == evaluation(*graph, node_id, fresh_state()).result,
{
    let mut cache = OutputsCache::new();
    evaluate_node(graph, node_id, &mut cache)
}

} // verus!
