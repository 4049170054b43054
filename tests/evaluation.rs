use node_orchestrator::error::GraphError;
use node_orchestrator::evaluator::{evaluate, evaluate_node, OutputsCache};
use node_orchestrator::graph::Graph;
use node_orchestrator::template::Template;
use node_orchestrator::value::{DataType, JsonNumber, ValueType};

fn text(s: &str) -> ValueType {
    ValueType::String(s.to_string())
}

fn make_string(g: &mut Graph, s: &str) -> usize {
    let id = g.add_node(Template::MakeString);
    g.set_input_value(id, "string", text(s)).unwrap();
    id
}

fn make_number(g: &mut Graph, s: &str) -> usize {
    let id = g.add_node(Template::MakeNumber);
    g.set_input_value(id, "number", text(s)).unwrap();
    id
}

fn strings(v: &[&str]) -> Vec<String> {
    v.iter().map(|s| s.to_string()).collect()
}

#[test]
fn same_graph_evaluates_the_same_twice() {
    let mut g = Graph::new();
    let n = make_number(&mut g, "12");
    let a = g.add_node(Template::ConstructArray(DataType::Number));
    node_orchestrator::graph::add_param(a, DataType::Number, "0", node_orchestrator::graph::IO::Input, &mut g);
    g.connect(a, "0", n, "out").unwrap();
    let first = evaluate(&g, a).unwrap();
    let second = evaluate(&g, a).unwrap();
    assert_eq!(first, second);
    assert_eq!(first, strings(&["[Number(12)]"]));
}

#[test]
fn shared_output_is_computed_once() {
    let mut g = Graph::new();
    let n = make_number(&mut g, "5");
    let a = g.add_node(Template::ConstructArray(DataType::Number));
    node_orchestrator::graph::add_dynamic_param(a, DataType::Number, "", &mut g);
    node_orchestrator::graph::add_dynamic_param(a, DataType::Number, "", &mut g);
    g.connect(a, "0", n, "out").unwrap();
    g.connect(a, "1", n, "out").unwrap();
    let mut cache = OutputsCache::new();
    let r = evaluate_node(&g, a, &mut cache).unwrap();
    assert_eq!(r, strings(&["[Number(5), Number(5)]"]));
    // one value for the number's output, one for the array's
    assert_eq!(cache.len(), 2);
    assert!(cache.get(n, 0).is_some());
    assert!(cache.get(a, 0).is_some());
}

#[test]
fn numeric_text_round_trips() {
    let mut g = Graph::new();
    let s = make_string(&mut g, "42");
    let n = g.add_node(Template::MakeNumber);
    g.connect(n, "number", s, "out").unwrap();
    let back = g.add_node(Template::MakeString);
    g.connect(back, "string", n, "out").unwrap();
    assert_eq!(evaluate(&g, back).unwrap(), strings(&["42"]));
}

#[test]
fn boolean_text_is_no_number() {
    let mut g = Graph::new();
    let b = g.add_node(Template::MakeBool);
    let n = g.add_node(Template::MakeNumber);
    g.connect(n, "number", b, "out").unwrap();
    match evaluate(&g, n) {
        Err(GraphError::ParseError { text }) => assert_eq!(text, "true"),
        other => panic!("unexpected {:?}", other),
    }
}

#[test]
fn object_round_trip_with_missing_field() {
    let mut g = Graph::new();
    let one = make_number(&mut g, "1");
    let x = make_string(&mut g, "x");
    let c = g.add_node(Template::ConstructJson);
    node_orchestrator::graph::add_dynamic_param(c, DataType::Number, "a", &mut g);
    node_orchestrator::graph::add_dynamic_param(c, DataType::String, "b", &mut g);
    g.connect(c, "a", one, "out").unwrap();
    g.connect(c, "b", x, "out").unwrap();
    assert_eq!(evaluate(&g, c).unwrap(), strings(&["{\"a\":1,\"b\":\"x\"}"]));

    let d = g.add_node(Template::DeconstructJson);
    node_orchestrator::graph::add_dynamic_param(d, DataType::Number, "a", &mut g);
    node_orchestrator::graph::add_dynamic_param(d, DataType::String, "b", &mut g);
    node_orchestrator::graph::add_dynamic_param(d, DataType::Bool, "c", &mut g);
    node_orchestrator::graph::add_dynamic_param(d, DataType::Number, "n", &mut g);
    g.connect(d, "json", c, "out").unwrap();
    assert_eq!(evaluate(&g, d).unwrap(), strings(&["1", "x", "false", "0"]));
}

#[test]
fn array_round_trip_with_position_past_end() {
    let mut g = Graph::new();
    let a = g.add_node(Template::ConstructArray(DataType::Number));
    for i in 0..3u64 {
        node_orchestrator::graph::add_dynamic_param(a, DataType::Bool, "", &mut g);
        g.set_input_value(a, &i.to_string(), ValueType::Number(JsonNumber::PosInt(i + 1))).unwrap();
    }
    assert_eq!(evaluate(&g, a).unwrap(), strings(&["[Number(1), Number(2), Number(3)]"]));

    let d = g.add_node(Template::DeconstructArray(DataType::Number));
    for _ in 0..4 {
        node_orchestrator::graph::add_dynamic_param(d, DataType::Bool, "", &mut g);
    }
    g.connect(d, "array", a, "out").unwrap();
    assert_eq!(evaluate(&g, d).unwrap(), strings(&["1", "2", "3", "0"]));
}

#[test]
fn fresh_inputs_read_their_defaults() {
    let mut g = Graph::new();
    let b = g.add_node(Template::MakeBool);
    assert_eq!(evaluate(&g, b).unwrap(), strings(&["true"]));
    let n = g.add_node(Template::MakeNumber);
    assert_eq!(evaluate(&g, n).unwrap(), strings(&["0"]));
    let s = g.add_node(Template::MakeString);
    assert_eq!(evaluate(&g, s).unwrap(), strings(&[""]));
    let d = g.add_node(Template::DeconstructJson);
    node_orchestrator::graph::add_dynamic_param(d, DataType::Json, "k", &mut g);
    assert_eq!(evaluate(&g, d).unwrap(), strings(&["null"]));
    let a = g.add_node(Template::ConstructArray(DataType::Array));
    node_orchestrator::graph::add_dynamic_param(a, DataType::Bool, "", &mut g);
    assert_eq!(evaluate(&g, a).unwrap(), strings(&["[Array []]"]));
}

#[test]
fn make_number_reports_bad_text() {
    let mut g = Graph::new();
    let n = make_number(&mut g, "abc");
    match evaluate(&g, n) {
        Err(GraphError::ParseError { text }) => assert_eq!(text, "abc"),
        other => panic!("unexpected {:?}", other),
    }
}

#[test]
fn numbers_render_like_json() {
    let mut g = Graph::new();
    let a = make_number(&mut g, "1.5");
    let b = make_number(&mut g, "-7");
    let c = make_number(&mut g, "1e2");
    assert_eq!(evaluate(&g, a).unwrap(), strings(&["1.5"]));
    assert_eq!(evaluate(&g, b).unwrap(), strings(&["-7"]));
    assert_eq!(evaluate(&g, c).unwrap(), strings(&["100.0"]));
}

#[test]
fn numbers_as_booleans() {
    for (t, expected) in [("0.5", "true"), ("-1", "false"), ("0", "false"), ("3", "true")] {
        let mut g = Graph::new();
        let n = make_number(&mut g, t);
        let b = g.add_node(Template::MakeBool);
        g.connect(b, "bool", n, "out").unwrap();
        assert_eq!(evaluate(&g, b).unwrap(), strings(&[expected]), "for {}", t);
    }
}

#[test]
fn text_is_no_boolean() {
    let mut g = Graph::new();
    let s = make_string(&mut g, "yes");
    let b = g.add_node(Template::MakeBool);
    g.connect(b, "bool", s, "out").unwrap();
    match evaluate(&g, b) {
        Err(GraphError::TypeCoercion { from, to }) => {
            assert_eq!(from, DataType::String);
            assert_eq!(to, DataType::Bool);
        }
        other => panic!("unexpected {:?}", other),
    }
}

#[test]
fn text_is_no_array() {
    let mut g = Graph::new();
    let s = make_string(&mut g, "abc");
    let d = g.add_node(Template::DeconstructArray(DataType::String));
    g.connect(d, "array", s, "out").unwrap();
    match evaluate(&g, d) {
        Err(GraphError::TypeCoercion { from, to }) => {
            assert_eq!(from, DataType::String);
            assert_eq!(to, DataType::Array);
        }
        other => panic!("unexpected {:?}", other),
    }
}

#[test]
fn json_becomes_a_list_of_one() {
    let mut g = Graph::new();
    let c = g.add_node(Template::ConstructJson);
    node_orchestrator::graph::add_dynamic_param(c, DataType::String, "k", &mut g);
    let d = g.add_node(Template::DeconstructArray(DataType::Json));
    node_orchestrator::graph::add_dynamic_param(d, DataType::Bool, "", &mut g);
    node_orchestrator::graph::add_dynamic_param(d, DataType::Bool, "", &mut g);
    g.connect(d, "array", c, "out").unwrap();
    assert_eq!(evaluate(&g, d).unwrap(), strings(&["{\"k\":\"\"}", "null"]));
}

#[test]
fn unfinished_kinds_give_false() {
    let mut g = Graph::new();
    for t in [Template::Account, Template::Store, Template::Instantiate, Template::ConstructMsg, Template::DeconstructMsg] {
        let id = g.add_node(t);
        assert_eq!(evaluate(&g, id).unwrap(), strings(&["false"]), "for {:?}", t);
    }
}

#[test]
fn unfinished_kind_feeds_false_through_its_outputs() {
    let mut g = Graph::new();
    let a = g.add_node(Template::Account);
    let b = g.add_node(Template::MakeBool);
    g.connect(b, "bool", a, "account").unwrap();
    assert_eq!(evaluate(&g, b).unwrap(), strings(&["false"]));

    let s = g.add_node(Template::Store);
    let c = g.add_node(Template::ConstructArray(DataType::Json));
    node_orchestrator::graph::add_dynamic_param(c, DataType::Json, "", &mut g);
    node_orchestrator::graph::add_dynamic_param(c, DataType::Json, "", &mut g);
    g.connect(c, "0", s, "id").unwrap();
    g.connect(c, "1", s, "code hash").unwrap();
    let mut cache = OutputsCache::new();
    assert_eq!(evaluate_node(&g, c, &mut cache).unwrap(), strings(&["[Bool(false), Bool(false)]"]));
    assert!(matches!(cache.get(s, 0), Some(ValueType::Bool(false))));
    assert!(matches!(cache.get(s, 1), Some(ValueType::Bool(false))));
}

#[test]
fn a_cycle_is_reported() {
    let mut g = Graph::new();
    let a = g.add_node(Template::MakeString);
    let b = g.add_node(Template::MakeString);
    g.connect(a, "string", b, "out").unwrap();
    g.connect(b, "string", a, "out").unwrap();
    assert!(matches!(evaluate(&g, a), Err(GraphError::CycleDetected { .. })));
}

#[test]
fn a_link_to_a_removed_node_fails() {
    let mut g = Graph::new();
    let a = make_string(&mut g, "v");
    let b = g.add_node(Template::MakeString);
    g.connect(b, "string", a, "out").unwrap();
    assert_eq!(evaluate(&g, b).unwrap(), strings(&["v"]));
    g.remove_node(a);
    // the link went with the node: the inline value is read again
    assert_eq!(evaluate(&g, b).unwrap(), strings(&[""]));
}

#[test]
fn strings_render_in_arrays_and_objects() {
    let mut g = Graph::new();
    let s = make_string(&mut g, "a\"b");
    let a = g.add_node(Template::ConstructArray(DataType::String));
    node_orchestrator::graph::add_dynamic_param(a, DataType::String, "", &mut g);
    g.connect(a, "0", s, "out").unwrap();
    assert_eq!(evaluate(&g, a).unwrap(), strings(&["[String(\"a\\\"b\")]"]));
    let c = g.add_node(Template::ConstructJson);
    node_orchestrator::graph::add_dynamic_param(c, DataType::String, "s", &mut g);
    g.connect(c, "s", s, "out").unwrap();
    assert_eq!(evaluate(&g, c).unwrap(), strings(&["{\"s\":\"a\\\"b\"}"]));
}

#[test]
fn only_finite_json_numbers_parse() {
    for t in ["NaN", "inf", "1e999", ".5", "+5"] {
        let mut g = Graph::new();
        let n = make_number(&mut g, t);
        match evaluate(&g, n) {
            Err(GraphError::ParseError { text }) => assert_eq!(text, t),
            other => panic!("unexpected {:?} for {}", other, t),
        }
    }
}
