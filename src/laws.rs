use vstd::prelude::*;

use crate::error::ErrorModel;
use crate::evaluator::{
    array_items, cache_get, eval_input, eval_node, evaluation, false_entries, fill_elements, fill_fields, fresh_state, json_entries,
    populate, EvalState, Step,
};
use crate::graph::{
    input_names, lemma_position_of, output_names, param_added, position_of, Graph, InputParam, Node,
    IO,
};
use crate::template::Template;
use crate::text::{decimal_text, number_parse};
use crate::wellformed::lemma_element_names_unique;
use crate::value::{
    coerce_array, default_value, element, entries_get, extract, field, kind_of, value_json, value_text,
    DataType, JsonModel, NumberModel, ValueModel,
};

verus! {

/// The value that a type reads as where there is nothing to read: `false`, `0`, `""`, an
/// empty list, `null`.
pub open spec fn zero_value(t: DataType) -> ValueModel {
    match t {
        DataType::Bool => ValueModel::Bool(false),
        DataType::Number => ValueModel::Number(NumberModel::PosInt(0)),
        DataType::String => ValueModel::String(Seq::empty()),
        DataType::Array => ValueModel::Array(Seq::empty()),
        DataType::Json => ValueModel::Json(JsonModel::Null),
    }
}

/// The entries of the object that `ConstructJson` builds from inputs with these names and
/// values.
pub open spec fn object_of(names: Seq<Seq<char>>, values: Seq<ValueModel>) -> Seq<(Seq<char>, JsonModel)> {
    Seq::new(names.len(), |i: int| (names[i], value_json(values[i])))
}

/// The list that `ConstructArray` builds from inputs with these values.
pub open spec fn list_of(values: Seq<ValueModel>) -> Seq<JsonModel> {
    values.map_values(|v: ValueModel| value_json(v))
}

/// The node and output that the link of input `name` of node `node` names.
pub open spec fn link_source(g: Graph, node: usize, name: Seq<char>) -> Option<(usize, Seq<char>)> {
    if !g.has_node(node) {
        None
    } else {
        match position_of(input_names(g.node_at(node).inputs@), name, 0) {
            None => None,
            Some(i) => match g.node_at(node).inputs@[i].link {
                None => None,
                Some(r) => Some((r.node, r.name@)),
            },
        }
    }
}

/// Evaluation is a function of the graph: the same graph, evaluated twice from an empty
/// cache, gives the same outputs and the same cache.
pub proof fn lemma_evaluation_deterministic(g1: Graph, g2: Graph, node: usize)
    requires
        g1 == g2,
    ensures
        evaluation(g1, node, fresh_state()) == evaluation(g2, node, fresh_state()),
{
}

/// Two inputs linked to the same output share one computation of it: once the first has
/// been read, reading the second gives the same value from the cache, and evaluates no
/// node.
pub proof fn lemma_shared_output_computed_once(
    g: Graph,
    a: usize,
    pa: Seq<char>,
    b: usize,
    pb: Seq<char>,
    depth_a: nat,
    depth_b: nat,
    st: crate::evaluator::EvalState,
)
    requires
        link_source(g, a, pa) is Some,
        link_source(g, a, pa) == link_source(g, b, pb),
    ensures
        ({
            let first = eval_input(g, a, pa, depth_a, st);
            first.result is Ok ==> eval_input(g, b, pb, depth_b, first.state) == first
        }),
{
}

/// A value turned into JSON and read back as its own kind is the value itself.
pub proof fn lemma_json_round_trip(v: ValueModel)
    ensures
        extract(value_json(v), kind_of(v)) == v,
{
}

proof fn lemma_entries_get_distinct(names: Seq<Seq<char>>, values: Seq<ValueModel>, k: Seq<char>)
    requires
        names.len() == values.len(),
        names.no_duplicates(),
    ensures
        forall|i: int|
            0 <= i < names.len() && names[i] == k ==> entries_get(object_of(names, values), k) == Some(
                value_json(values[i]),
            ),
        !names.contains(k) ==> entries_get(object_of(names, values), k) is None,
    decreases names.len(),
{
    let e = object_of(names, values);
    if names.len() > 0 {
        let n = (names.len() - 1) as int;
        let names0 = names.drop_last();
        let values0 = values.drop_last();
        assert(e.drop_last() =~= object_of(names0, values0));
        assert(names0.no_duplicates());
        lemma_entries_get_distinct(names0, values0, k);
        if names[n] != k {
            assert(entries_get(e, k) == entries_get(e.drop_last(), k));
            assert forall|i: int| 0 <= i < names.len() && names[i] == k implies entries_get(e, k) == Some(
                value_json(values[i]),
            ) by {
                assert(i < n);
                assert(names0[i] == k);
                assert(values0[i] == values[i]);
            }
            if !names.contains(k) {
                assert(!names0.contains(k)) by {
                    if names0.contains(k) {
                        let j = choose|j: int| 0 <= j < names0.len() && names0[j] == k;
                        assert(names[j] == k);
                    }
                }
            }
        } else {
            assert forall|i: int| 0 <= i < names.len() && names[i] == k implies i == n by {}
            assert(names.contains(k)) by {
                assert(names[n] == k);
            }
        }
    }
}

/// Building a JSON object from inputs with distinct names, then reading each field named
/// like an input as the kind of that input's value, gives the values back; a name that no
/// input had reads as the zero of whatever type is asked, and is no error.
pub proof fn lemma_object_round_trip(names: Seq<Seq<char>>, values: Seq<ValueModel>)
    requires
        names.len() == values.len(),
        names.no_duplicates(),
    ensures
        forall|i: int|
            0 <= i < names.len() ==> #[trigger] extract(
                field(JsonModel::Object(object_of(names, values)), names[i]),
                kind_of(values[i]),
            ) == values[i],
        forall|k: Seq<char>, t: DataType|
            !names.contains(k) ==> #[trigger] extract(
                field(JsonModel::Object(object_of(names, values)), k),
                t,
            ) == zero_value(t),
{
    assert forall|i: int|
        0 <= i < names.len() implies #[trigger] extract(
        field(JsonModel::Object(object_of(names, values)), names[i]),
        kind_of(values[i]),
    ) == values[i] by {
        lemma_entries_get_distinct(names, values, names[i]);
        lemma_json_round_trip(values[i]);
    }
    assert forall|k: Seq<char>, t: DataType|
        !names.contains(k) implies #[trigger] extract(
        field(JsonModel::Object(object_of(names, values)), k),
        t,
    ) == zero_value(t) by {
        lemma_entries_get_distinct(names, values, k);
    }
}

/// Building a list from values of one type, then reading it back position by position as
/// that type, gives the values back; a position past the end reads as the type's zero.
pub proof fn lemma_array_round_trip(values: Seq<ValueModel>, t: DataType)
    requires
        forall|i: int| 0 <= i < values.len() ==> #[trigger] kind_of(values[i]) == t,
    ensures
        coerce_array(ValueModel::Array(list_of(values))) == Ok::<Seq<JsonModel>, ErrorModel>(
            list_of(values),
        ),
        forall|i: int| 0 <= i < values.len() ==> #[trigger] extract(element(list_of(values), i), t) == values[i],
        forall|i: int| i >= values.len() ==> #[trigger] extract(element(list_of(values), i), t) == zero_value(t),
{
    assert forall|i: int| 0 <= i < values.len() implies #[trigger] extract(
        element(list_of(values), i),
        t,
    ) == values[i] by {
        lemma_json_round_trip(values[i]);
    }
}

/// An input without a link reads its own value, with no evaluation: a port that was just
/// added reads its type's starting value.
pub proof fn lemma_added_input_reads_default(
    before: Graph,
    g: Graph,
    node: usize,
    name: Seq<char>,
    t: DataType,
    depth: nat,
    st: crate::evaluator::EvalState,
)
    requires
        before.has_node(node),
        g.has_node(node),
        !input_names(before.node_at(node).inputs@).contains(name),
        param_added(before.node_at(node), g.node_at(node), name, t, IO::Input),
    ensures
        eval_input(g, node, name, depth, st) == (Step { result: Ok(default_value(t)), state: st }),
{
    let old_names = input_names(before.node_at(node).inputs@);
    let names = input_names(g.node_at(node).inputs@);
    let last = (names.len() - 1) as int;
    assert(names[last] == name);
    lemma_position_of(names, name, 0);
    match position_of(names, name, 0) {
        Some(k) => {
            if k < last {
                assert(names[k] == old_names[k]);
                assert(old_names.contains(name));
            }
        },
        None => {
            assert(names[last] != name);
        },
    }
}

/// `MakeNumber` reports a text that is not a number as a parse error naming the text; it
/// never reads such a text as some number.
pub proof fn lemma_make_number_parse_error(
    g: Graph,
    node: usize,
    depth: nat,
    st: crate::evaluator::EvalState,
    s: Seq<char>,
)
    requires
        g.has_node(node),
        g.node_at(node).user_data.template == Template::MakeNumber,
        match position_of(input_names(g.node_at(node).inputs@), "number"@, 0) {
            Some(i) => {
                let p = g.node_at(node).inputs@[i];
                p.link is None && p.value@ == ValueModel::String(s)
            },
            None => false,
        },
        s.len() > 0,
        number_parse(s) is None,
    ensures
        eval_node(g, node, depth, st).result == Err::<Seq<Seq<char>>, ErrorModel>(
            ErrorModel::ParseError { text: s },
        ),
{
}

/// The inline values of a node's inputs, in order.
pub open spec fn input_values(n: Node) -> Seq<ValueModel> {
    n.inputs@.map_values(|p: InputParam| p.value@)
}

/// No input of the node has a link.
pub open spec fn all_unlinked(n: Node) -> bool {
    forall|j: int| 0 <= j < n.inputs@.len() ==> (#[trigger] n.inputs@[j]).link is None
}

proof fn lemma_position_unique(names: Seq<Seq<char>>, i: int)
    requires
        names.no_duplicates(),
        0 <= i < names.len(),
    ensures
        position_of(names, names[i], 0) == Some(i),
{
    lemma_position_of(names, names[i], 0);
}

proof fn lemma_array_items_unlinked(g: Graph, node: usize, i: nat, depth: nat, st: EvalState, acc: Seq<JsonModel>)
    requires
        g.has_node(node),
        input_names(g.node_at(node).inputs@).no_duplicates(),
        all_unlinked(g.node_at(node)),
        i <= g.node_at(node).inputs@.len(),
    ensures
        array_items(g, node, i, depth, st, acc) == (Step {
            result: Ok(acc + list_of(input_values(g.node_at(node)).subrange(i as int, g.node_at(node).inputs@.len() as int))),
            state: st,
        }),
    decreases g.node_at(node).inputs@.len() - i,
{
    let n = g.node_at(node);
    let vals = input_values(n);
    let len = n.inputs@.len() as int;
    if i < len {
        lemma_position_unique(input_names(n.inputs@), i as int);
        assert(input_names(n.inputs@)[i as int] == n.inputs@[i as int].name@);
        assert(n.inputs@[i as int].link is None);
        let v = vals[i as int];
        assert(v == n.inputs@[i as int].value@);
        assert(eval_input(g, node, n.inputs@[i as int].name@, depth, st) == (Step {
            result: Ok::<ValueModel, ErrorModel>(v),
            state: st,
        }));
        lemma_array_items_unlinked(g, node, i + 1, depth, st, acc.push(value_json(v)));
        assert(acc.push(value_json(v)) + list_of(vals.subrange((i + 1) as int, len)) =~= acc + list_of(
            vals.subrange(i as int, len),
        ));
    } else {
        assert(acc + list_of(vals.subrange(i as int, len)) =~= acc);
    }
}

proof fn lemma_json_entries_unlinked(
    g: Graph,
    node: usize,
    i: nat,
    depth: nat,
    st: EvalState,
    acc: Seq<(Seq<char>, JsonModel)>,
)
    requires
        g.has_node(node),
        input_names(g.node_at(node).inputs@).no_duplicates(),
        all_unlinked(g.node_at(node)),
        i <= g.node_at(node).inputs@.len(),
    ensures
        json_entries(g, node, i, depth, st, acc) == (Step {
            result: Ok(
                acc + object_of(
                    input_names(g.node_at(node).inputs@),
                    input_values(g.node_at(node)),
                ).subrange(i as int, g.node_at(node).inputs@.len() as int),
            ),
            state: st,
        }),
    decreases g.node_at(node).inputs@.len() - i,
{
    let n = g.node_at(node);
    let names = input_names(n.inputs@);
    let vals = input_values(n);
    let obj = object_of(names, vals);
    let len = n.inputs@.len() as int;
    if i < len {
        lemma_position_unique(names, i as int);
        assert(names[i as int] == n.inputs@[i as int].name@);
        assert(n.inputs@[i as int].link is None);
        let e = (names[i as int], value_json(vals[i as int]));
        assert(vals[i as int] == n.inputs@[i as int].value@);
        assert(eval_input(g, node, n.inputs@[i as int].name@, depth, st) == (Step {
            result: Ok::<ValueModel, ErrorModel>(vals[i as int]),
            state: st,
        }));
        lemma_json_entries_unlinked(g, node, i + 1, depth, st, acc.push(e));
        assert(acc.push(e) + obj.subrange((i + 1) as int, len) =~= acc + obj.subrange(i as int, len));
    } else {
        assert(acc + obj.subrange(i as int, len) =~= acc);
    }
}

/// A `ConstructArray` node whose inputs have distinct names and no links produces the list
/// of its inputs' own values, in order, and caches it for its output `out`.
pub proof fn lemma_construct_array_values(g: Graph, node: usize, depth: nat, st: EvalState)
    requires
        g.has_node(node),
        g.node_at(node).user_data.template is ConstructArray,
        input_names(g.node_at(node).inputs@).no_duplicates(),
        all_unlinked(g.node_at(node)),
        output_names(g.node_at(node).outputs@).contains("out"@),
    ensures
        ({
            let list = ValueModel::Array(list_of(input_values(g.node_at(node))));
            let s = eval_node(g, node, depth, st);
            &&& s.result == Ok::<Seq<Seq<char>>, ErrorModel>(seq![value_text(list)])
            &&& position_of(output_names(g.node_at(node).outputs@), "out"@, 0) matches Some(k)
                && cache_get(s.state.cache, node, k as usize) == Some(list)
        }),
{
    let n = g.node_at(node);
    let st1 = EvalState { cache: st.cache, trace: st.trace.push(node) };
    lemma_array_items_unlinked(g, node, 0, depth, st1, Seq::empty());
    assert(Seq::<JsonModel>::empty() + list_of(input_values(n).subrange(0, n.inputs@.len() as int))
        =~= list_of(input_values(n)));
    lemma_position_of(output_names(n.outputs@), "out"@, 0);
}

/// A `ConstructJson` node whose inputs have distinct names and no links produces the object
/// that maps each input's name to its own value, and caches it for its output `out`.
pub proof fn lemma_construct_json_values(g: Graph, node: usize, depth: nat, st: EvalState)
    requires
        g.has_node(node),
        g.node_at(node).user_data.template is ConstructJson,
        input_names(g.node_at(node).inputs@).no_duplicates(),
        all_unlinked(g.node_at(node)),
        output_names(g.node_at(node).outputs@).contains("out"@),
    ensures
        ({
            let n = g.node_at(node);
            let obj = ValueModel::Json(
                JsonModel::Object(object_of(input_names(n.inputs@), input_values(n))),
            );
            let s = eval_node(g, node, depth, st);
            &&& s.result == Ok::<Seq<Seq<char>>, ErrorModel>(seq![value_text(obj)])
            &&& position_of(output_names(n.outputs@), "out"@, 0) matches Some(k) && cache_get(
                s.state.cache,
                node,
                k as usize,
            ) == Some(obj)
        }),
{
    let n = g.node_at(node);
    let st1 = EvalState { cache: st.cache, trace: st.trace.push(node) };
    lemma_json_entries_unlinked(g, node, 0, depth, st1, Seq::empty());
    let obj = object_of(input_names(n.inputs@), input_values(n));
    assert(Seq::<(Seq<char>, JsonModel)>::empty() + obj.subrange(0, n.inputs@.len() as int) =~= obj);
    lemma_position_of(output_names(n.outputs@), "out"@, 0);
}

/// The texts of values, in order.
pub open spec fn texts_of(values: Seq<ValueModel>) -> Seq<Seq<char>> {
    values.map_values(|v: ValueModel| value_text(v))
}

proof fn lemma_fill_fields_round_trip(
    g: Graph,
    d: usize,
    names: Seq<Seq<char>>,
    values: Seq<ValueModel>,
    i: nat,
    st: EvalState,
    acc: Seq<Seq<char>>,
)
    requires
        g.has_node(d),
        names.len() == values.len(),
        names.no_duplicates(),
        output_names(g.node_at(d).outputs@) == names,
        forall|q: int| 0 <= q < values.len() ==> #[trigger] g.node_at(d).outputs@[q].typ == kind_of(values[q]),
        i <= names.len(),
    ensures
        fill_fields(g, d, JsonModel::Object(object_of(names, values)), i, st, acc).result == Ok::<
            Seq<Seq<char>>,
            ErrorModel,
        >(acc + texts_of(values).subrange(i as int, values.len() as int)),
    decreases names.len() - i,
{
    let obj = JsonModel::Object(object_of(names, values));
    let len = names.len() as int;
    if i < len {
        let out = g.node_at(d).outputs@[i as int];
        assert(out.name@ == names[i as int]);
        lemma_object_round_trip(names, values);
        assert(extract(field(obj, names[i as int]), out.typ) == values[i as int]);
        lemma_position_unique(names, i as int);
        let p = populate(g, d, out.name@, values[i as int], st);
        assert(p.result == Ok::<Seq<char>, ErrorModel>(value_text(values[i as int])));
        lemma_fill_fields_round_trip(g, d, names, values, i + 1, p.state, acc.push(value_text(values[i as int])));
        assert(acc.push(value_text(values[i as int])) + texts_of(values).subrange((i + 1) as int, len)
            =~= acc + texts_of(values).subrange(i as int, len));
    } else {
        assert(acc + texts_of(values).subrange(i as int, len) =~= acc);
    }
}

/// A `DeconstructJson` node that reads a `ConstructJson` node gives back the texts of the
/// constructor's values, where its outputs are named and typed like the constructor's
/// inputs (which have distinct names and no links), nothing is cached yet, and there is
/// depth for one link.
pub proof fn lemma_json_symmetry(g: Graph, c: usize, d: usize, depth: nat, st: EvalState)
    requires
        g.has_node(c),
        g.has_node(d),
        c != d,
        g.node_at(c).user_data.template is ConstructJson,
        input_names(g.node_at(c).inputs@).no_duplicates(),
        all_unlinked(g.node_at(c)),
        output_names(g.node_at(c).outputs@).contains("out"@),
        g.node_at(d).user_data.template is DeconstructJson,
        match position_of(input_names(g.node_at(d).inputs@), "json"@, 0) {
            Some(i) => g.node_at(d).inputs@[i].link matches Some(r) && r.node == c && r.name@ == "out"@,
            None => false,
        },
        output_names(g.node_at(d).outputs@) == input_names(g.node_at(c).inputs@),
        forall|q: int|
            0 <= q < g.node_at(d).outputs@.len() ==> #[trigger] g.node_at(d).outputs@[q].typ == kind_of(
                input_values(g.node_at(c))[q],
            ),
        st.cache.len() == 0,
        depth >= 1,
    ensures
        eval_node(g, d, depth, st).result == Ok::<Seq<Seq<char>>, ErrorModel>(
            texts_of(input_values(g.node_at(c))),
        ),
{
    let cn = g.node_at(c);
    let names = input_names(cn.inputs@);
    let values = input_values(cn);
    let st1 = EvalState { cache: st.cache, trace: st.trace.push(d) };
    lemma_position_of(output_names(cn.outputs@), "out"@, 0);
    let k = position_of(output_names(cn.outputs@), "out"@, 0)->Some_0;
    assert(cache_get(st1.cache, c, k as usize) is None);
    lemma_construct_json_values(g, c, (depth - 1) as nat, st1);
    let sc = eval_node(g, c, (depth - 1) as nat, st1);
    let obj = JsonModel::Object(object_of(names, values));
    assert(cache_get(sc.state.cache, c, k as usize) == Some(ValueModel::Json(obj)));
    let si = eval_input(g, d, "json"@, depth, st1);
    assert(si.result == Ok::<ValueModel, ErrorModel>(ValueModel::Json(obj)));
    lemma_fill_fields_round_trip(g, d, names, values, 0, si.state, Seq::empty());
    assert(Seq::<Seq<char>>::empty() + texts_of(values).subrange(0, values.len() as int) =~= texts_of(values));
}

/// What a splitter of `count` outputs gives for a list built from `values` read as `t`: each
/// value's text, then the text of the type's zero past the end.
pub open spec fn split_texts(values: Seq<ValueModel>, t: DataType, count: nat) -> Seq<Seq<char>> {
    Seq::new(
        count,
        |i: int|
            if i < values.len() {
                value_text(values[i])
            } else {
                value_text(zero_value(t))
            },
    )
}

proof fn lemma_fill_elements_round_trip(
    g: Graph,
    d: usize,
    values: Seq<ValueModel>,
    t: DataType,
    i: nat,
    st: EvalState,
    acc: Seq<Seq<char>>,
)
    requires
        g.has_node(d),
        forall|q: int| 0 <= q < values.len() ==> #[trigger] kind_of(values[q]) == t,
        forall|q: int|
            0 <= q < g.node_at(d).outputs@.len() ==> #[trigger] output_names(g.node_at(d).outputs@)[q]
                == decimal_text(q as nat),
        i <= g.node_at(d).outputs@.len(),
    ensures
        fill_elements(g, d, t, list_of(values), i, st, acc).result == Ok::<Seq<Seq<char>>, ErrorModel>(
            acc + split_texts(values, t, g.node_at(d).outputs@.len()).subrange(
                i as int,
                g.node_at(d).outputs@.len() as int,
            ),
        ),
    decreases g.node_at(d).outputs@.len() - i,
{
    let m = g.node_at(d).outputs@.len() as int;
    let names = output_names(g.node_at(d).outputs@);
    let all = split_texts(values, t, m as nat);
    if i < m {
        lemma_array_round_trip(values, t);
        lemma_element_names_unique(names);
        lemma_position_unique(names, i as int);
        let v = extract(element(list_of(values), i as int), t);
        assert(value_text(v) == all[i as int]);
        let p = populate(g, d, decimal_text(i), v, st);
        assert(p.result == Ok::<Seq<char>, ErrorModel>(all[i as int]));
        lemma_fill_elements_round_trip(g, d, values, t, i + 1, p.state, acc.push(all[i as int]));
        assert(acc.push(all[i as int]) + all.subrange((i + 1) as int, m) =~= acc + all.subrange(i as int, m));
    } else {
        assert(acc + all.subrange(i as int, m) =~= acc);
    }
}

/// A `DeconstructArray` node of element type `t` that reads a `ConstructArray` node gives,
/// for each of its outputs `"0"`, `"1"`, ..., the text of the constructor's value at that
/// position, and past the constructor's last value the text of `t`'s zero; where the
/// constructor's inputs have distinct names, no links and values of kind `t`, nothing is
/// cached yet, and there is depth for one link.
pub proof fn lemma_array_symmetry(g: Graph, a: usize, d: usize, t: DataType, depth: nat, st: EvalState)
    requires
        g.has_node(a),
        g.has_node(d),
        a != d,
        g.node_at(a).user_data.template is ConstructArray,
        input_names(g.node_at(a).inputs@).no_duplicates(),
        all_unlinked(g.node_at(a)),
        forall|q: int|
            0 <= q < g.node_at(a).inputs@.len() ==> #[trigger] kind_of(input_values(g.node_at(a))[q]) == t,
        output_names(g.node_at(a).outputs@).contains("out"@),
        g.node_at(d).user_data.template == Template::DeconstructArray(t),
        match position_of(input_names(g.node_at(d).inputs@), "array"@, 0) {
            Some(i) => g.node_at(d).inputs@[i].link matches Some(r) && r.node == a && r.name@ == "out"@,
            None => false,
        },
        forall|q: int|
            0 <= q < g.node_at(d).outputs@.len() ==> #[trigger] output_names(g.node_at(d).outputs@)[q]
                == decimal_text(q as nat),
        st.cache.len() == 0,
        depth >= 1,
    ensures
        eval_node(g, d, depth, st).result == Ok::<Seq<Seq<char>>, ErrorModel>(
            split_texts(input_values(g.node_at(a)), t, g.node_at(d).outputs@.len()),
        ),
{
    let an = g.node_at(a);
    let values = input_values(an);
    let st1 = EvalState { cache: st.cache, trace: st.trace.push(d) };
    lemma_position_of(output_names(an.outputs@), "out"@, 0);
    let k = position_of(output_names(an.outputs@), "out"@, 0)->Some_0;
    assert(cache_get(st1.cache, a, k as usize) is None);
    lemma_construct_array_values(g, a, (depth - 1) as nat, st1);
    let si = eval_input(g, d, "array"@, depth, st1);
    assert(si.result == Ok::<ValueModel, ErrorModel>(ValueModel::Array(list_of(values))));
    lemma_array_round_trip(values, t);
    lemma_fill_elements_round_trip(g, d, values, t, 0, si.state, Seq::empty());
    let m = g.node_at(d).outputs@.len();
    assert(Seq::<Seq<char>>::empty() + split_texts(values, t, m).subrange(0, m as int) =~= split_texts(
        values,
        t,
        m,
    ));
}

proof fn lemma_false_entries_get(c: Seq<(usize, usize, ValueModel)>, node: usize, n: nat, k: usize)
    requires
        k < n,
    ensures
        cache_get(c + false_entries(node, n), node, k) == Some(ValueModel::Bool(false)),
    decreases n,
{
    let all = c + false_entries(node, n);
    assert(all.last() == (node, (n - 1) as usize, ValueModel::Bool(false)));
    if k != (n - 1) as usize {
        assert(all.drop_last() =~= c + false_entries(node, (n - 1) as nat));
        lemma_false_entries_get(c, node, (n - 1) as nat, k);
    }
}

/// A node of a kind that computes nothing yet (`Account`, `Store`, `Instantiate`,
/// `ConstructMsg`, `DeconstructMsg`) gives the single text `false`, stores `false` for every
/// output it declares, and reads none of its inputs: the node itself is the only one
/// evaluated.
pub proof fn lemma_unfinished_kinds_give_false(g: Graph, node: usize, depth: nat, st: EvalState)
    requires
        g.has_node(node),
        match g.node_at(node).user_data.template {
            Template::Account | Template::Store | Template::Instantiate | Template::ConstructMsg
            | Template::DeconstructMsg => true,
            _ => false,
        },
    ensures
        eval_node(g, node, depth, st).result == Ok::<Seq<Seq<char>>, ErrorModel>(
            seq![seq!['f', 'a', 'l', 's', 'e']],
        ),
        eval_node(g, node, depth, st).state.trace == st.trace.push(node),
        forall|k: usize|
            k < g.node_at(node).outputs@.len() ==> #[trigger] cache_get(
                eval_node(g, node, depth, st).state.cache,
                node,
                k,
            ) == Some(ValueModel::Bool(false)),
{
    assert forall|k: usize| k < g.node_at(node).outputs@.len() implies #[trigger] cache_get(
        eval_node(g, node, depth, st).state.cache,
        node,
        k,
    ) == Some(ValueModel::Bool(false)) by {
        lemma_false_entries_get(st.cache, node, g.node_at(node).outputs@.len(), k);
    }
}

/// An input linked to any declared output of a node of a kind that computes nothing yet,
/// with nothing cached for that output and depth for one link, reads `false`.
pub proof fn lemma_linked_unfinished_reads_false(
    g: Graph,
    node: usize,
    name: Seq<char>,
    source: usize,
    output: Seq<char>,
    depth: nat,
    st: EvalState,
)
    requires
        link_source(g, node, name) == Some((source, output)),
        g.has_node(source),
        match g.node_at(source).user_data.template {
            Template::Account | Template::Store | Template::Instantiate | Template::ConstructMsg
            | Template::DeconstructMsg => true,
            _ => false,
        },
        output_names(g.node_at(source).outputs@).contains(output),
        st.cache.len() == 0,
        depth >= 1,
    ensures
        eval_input(g, node, name, depth, st).result == Ok::<ValueModel, ErrorModel>(
            ValueModel::Bool(false),
        ),
{
    lemma_position_of(output_names(g.node_at(source).outputs@), output, 0);
    let k = position_of(output_names(g.node_at(source).outputs@), output, 0)->Some_0;
    lemma_unfinished_kinds_give_false(g, source, (depth - 1) as nat, st);
    assert(cache_get(
        eval_node(g, source, (depth - 1) as nat, st).state.cache,
        source,
        k as usize,
    ) == Some(ValueModel::Bool(false)));
}

/// An input linked to an output whose value is already cached reads that value, evaluates
/// no node, and leaves the cache and the record of evaluated nodes as they were.
pub proof fn lemma_cached_output_read(
    g: Graph,
    node: usize,
    name: Seq<char>,
    source: usize,
    output: Seq<char>,
    v: ValueModel,
    depth: nat,
    st: EvalState,
)
    requires
        link_source(g, node, name) == Some((source, output)),
        g.has_node(source),
        match position_of(output_names(g.node_at(source).outputs@), output, 0) {
            Some(k) => cache_get(st.cache, source, k as usize) == Some(v),
            None => false,
        },
    ensures
        eval_input(g, node, name, depth, st) == (Step { result: Ok::<ValueModel, ErrorModel>(v), state: st }),
{
}

/// Every input of node `c` is linked to output `out` of node `a`.
pub open spec fn all_linked_to(g: Graph, c: usize, a: usize) -> bool {
    forall|j: int|
        0 <= j < g.node_at(c).inputs@.len() ==> ((#[trigger] g.node_at(c).inputs@[j]).link matches Some(r)
            && r.node == a && r.name@ == "out"@)
}

proof fn lemma_items_from_cache(
    g: Graph,
    c: usize,
    a: usize,
    k: int,
    v: ValueModel,
    i: nat,
    depth: nat,
    st: EvalState,
    acc: Seq<JsonModel>,
)
    requires
        g.has_node(c),
        g.has_node(a),
        input_names(g.node_at(c).inputs@).no_duplicates(),
        all_linked_to(g, c, a),
        position_of(output_names(g.node_at(a).outputs@), "out"@, 0) == Some(k),
        cache_get(st.cache, a, k as usize) == Some(v),
        i <= g.node_at(c).inputs@.len(),
    ensures
        array_items(g, c, i, depth, st, acc).result is Ok,
        array_items(g, c, i, depth, st, acc).state == st,
    decreases g.node_at(c).inputs@.len() - i,
{
    let n = g.node_at(c);
    if i < n.inputs@.len() {
        lemma_position_unique(input_names(n.inputs@), i as int);
        assert(input_names(n.inputs@)[i as int] == n.inputs@[i as int].name@);
        assert(eval_input(g, c, n.inputs@[i as int].name@, depth, st) == (Step {
            result: Ok::<ValueModel, ErrorModel>(v),
            state: st,
        }));
        lemma_items_from_cache(g, c, a, k, v, i + 1, depth, st, acc.push(value_json(v)));
    }
}

/// Fan-out is computed once: where every input of a `ConstructArray` node reads the same
/// output `out` of node `a` and nothing is cached yet, a successful evaluation of the node
/// records the node itself and then exactly what one evaluation of `a` records, however
/// many inputs read it.
pub proof fn lemma_fan_out_evaluates_source_once(g: Graph, c: usize, a: usize, depth: nat, st: EvalState)
    requires
        g.has_node(c),
        g.has_node(a),
        g.node_at(c).user_data.template is ConstructArray,
        g.node_at(c).inputs@.len() >= 1,
        input_names(g.node_at(c).inputs@).no_duplicates(),
        all_linked_to(g, c, a),
        st.cache.len() == 0,
        depth >= 1,
    ensures
        ({
            let s = eval_node(g, c, depth, st);
            let sa = eval_node(
                g,
                a,
                (depth - 1) as nat,
                EvalState { cache: st.cache, trace: st.trace.push(c) },
            );
            s.result is Ok ==> s.state.trace == sa.state.trace
        }),
{
    let n = g.node_at(c);
    let st1 = EvalState { cache: st.cache, trace: st.trace.push(c) };
    let sa = eval_node(g, a, (depth - 1) as nat, st1);
    let names = input_names(n.inputs@);
    lemma_position_unique(names, 0);
    assert(names[0] == n.inputs@[0].name@);
    lemma_position_of(output_names(g.node_at(a).outputs@), "out"@, 0);
    match position_of(output_names(g.node_at(a).outputs@), "out"@, 0) {
        Some(k) => {
            assert(cache_get(st1.cache, a, k as usize) is None);
            let first = eval_input(g, c, n.inputs@[0].name@, depth, st1);
            if sa.result is Ok {
                if let Some(v) = cache_get(sa.state.cache, a, k as usize) {
                    assert(first == (Step { result: Ok::<ValueModel, ErrorModel>(v), state: sa.state }));
                    lemma_items_from_cache(g, c, a, k, v, 1, depth, sa.state, seq![value_json(v)]);
                }
            }
        },
        None => {},
    }
}

} // verus!
