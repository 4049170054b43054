use node_orchestrator::error::GraphError;
use node_orchestrator::graph::{add_dynamic_param, add_param, remove_dynamic_param, remove_param, retype, Graph, IO};
use node_orchestrator::state::{NodeGraphState, Response};
use node_orchestrator::template::{Template, TemplateIterator};
use node_orchestrator::value::{DataType, JsonNumber, ValueType};

fn input_names(g: &Graph, id: usize) -> Vec<String> {
    g.node(id).unwrap().inputs.iter().map(|p| p.name.clone()).collect()
}

fn output_names(g: &Graph, id: usize) -> Vec<String> {
    g.node(id).unwrap().outputs.iter().map(|p| p.name.clone()).collect()
}

#[test]
fn nodes_start_with_their_kind_ports() {
    let mut g = Graph::new();
    let s = g.add_node(Template::Store);
    assert_eq!(input_names(&g, s), vec!["file", "account"]);
    assert_eq!(output_names(&g, s), vec!["id", "code hash"]);
    let i = g.add_node(Template::Instantiate);
    assert_eq!(input_names(&g, i), vec!["id", "msg", "label", "account"]);
    assert_eq!(output_names(&g, i), vec!["address"]);
    let m = g.add_node(Template::DeconstructMsg);
    assert_eq!(input_names(&g, m), vec!["msg"]);
    assert_eq!(output_names(&g, m), vec!["type", "json"]);
    let n = g.add_node(Template::MakeNumber);
    let node = g.node(n).unwrap();
    assert_eq!(node.inputs[0].typ, DataType::String);
    assert!(matches!(&node.inputs[0].value, ValueType::String(v) if v.is_empty()));
    assert_eq!(node.outputs[0].typ, DataType::Number);
}

#[test]
fn adding_a_taken_name_changes_nothing() {
    let mut g = Graph::new();
    let c = g.add_node(Template::ConstructJson);
    add_param(c, DataType::Number, "a", IO::Input, &mut g);
    add_param(c, DataType::String, "a", IO::Input, &mut g);
    let node = g.node(c).unwrap();
    assert_eq!(node.inputs.len(), 1);
    assert_eq!(node.inputs[0].typ, DataType::Number);
    assert!(matches!(node.inputs[0].value, ValueType::Number(JsonNumber::PosInt(0))));
}

#[test]
fn new_inputs_hold_their_type_defaults() {
    let mut g = Graph::new();
    let c = g.add_node(Template::ConstructJson);
    add_param(c, DataType::Bool, "b", IO::Input, &mut g);
    add_param(c, DataType::Array, "a", IO::Input, &mut g);
    add_param(c, DataType::Json, "j", IO::Input, &mut g);
    let node = g.node(c).unwrap();
    assert!(matches!(node.inputs[0].value, ValueType::Bool(true)));
    assert!(matches!(&node.inputs[1].value, ValueType::Array(v) if v.is_empty()));
    assert!(matches!(node.inputs[2].value, ValueType::Json(node_orchestrator::value::JsonValue::Null)));
    assert!(node.inputs.iter().all(|p| p.link.is_none()));
}

#[test]
fn removing_an_absent_port_fails() {
    let mut g = Graph::new();
    let c = g.add_node(Template::ConstructJson);
    match remove_param(c, "nope", IO::Input, &mut g) {
        Err(GraphError::PortNotFound { node, port }) => {
            assert_eq!(node, c);
            assert_eq!(port, "nope");
        }
        other => panic!("unexpected {:?}", other),
    }
}

#[test]
fn removing_an_output_drops_its_links() {
    let mut g = Graph::new();
    let d = g.add_node(Template::DeconstructJson);
    add_param(d, DataType::String, "k", IO::Output, &mut g);
    let s = g.add_node(Template::MakeString);
    g.connect(s, "string", d, "k").unwrap();
    assert!(g.node(s).unwrap().inputs[0].link.is_some());
    remove_param(d, "k", IO::Output, &mut g).unwrap();
    assert!(g.node(s).unwrap().inputs[0].link.is_none());
    assert!(output_names(&g, d).is_empty());
}

#[test]
fn connect_names_the_missing_port() {
    let mut g = Graph::new();
    let a = g.add_node(Template::MakeString);
    let b = g.add_node(Template::MakeString);
    match g.connect(a, "nope", b, "out") {
        Err(GraphError::PortNotFound { node, port }) => {
            assert_eq!(node, a);
            assert_eq!(port, "nope");
        }
        other => panic!("unexpected {:?}", other),
    }
    match g.connect(a, "string", b, "nope") {
        Err(GraphError::PortNotFound { node, port }) => {
            assert_eq!(node, b);
            assert_eq!(port, "nope");
        }
        other => panic!("unexpected {:?}", other),
    }
    assert!(g.node(a).unwrap().inputs[0].link.is_none());
    g.connect(a, "string", b, "out").unwrap();
    g.disconnect(a, "string").unwrap();
    assert!(g.node(a).unwrap().inputs[0].link.is_none());
}

#[test]
fn retype_resets_element_inputs() {
    let mut g = Graph::new();
    let a = g.add_node(Template::ConstructArray(DataType::Number));
    add_dynamic_param(a, DataType::Bool, "", &mut g);
    add_dynamic_param(a, DataType::Bool, "", &mut g);
    g.set_input_value(a, "0", ValueType::Number(JsonNumber::PosInt(7))).unwrap();
    g.set_input_value(a, "1", ValueType::Number(JsonNumber::PosInt(8))).unwrap();
    retype(a, DataType::String, &mut g);
    let node = g.node(a).unwrap();
    assert_eq!(node.user_data.template, Template::ConstructArray(DataType::String));
    assert_eq!(input_names(&g, a), vec!["0", "1"]);
    for p in &node.inputs {
        assert_eq!(p.typ, DataType::String);
        assert!(matches!(&p.value, ValueType::String(v) if v.is_empty()));
    }
}

#[test]
fn retype_to_the_same_type_keeps_values() {
    let mut g = Graph::new();
    let a = g.add_node(Template::ConstructArray(DataType::Number));
    add_dynamic_param(a, DataType::Bool, "", &mut g);
    g.set_input_value(a, "0", ValueType::Number(JsonNumber::PosInt(7))).unwrap();
    retype(a, DataType::Number, &mut g);
    assert!(matches!(g.node(a).unwrap().inputs[0].value, ValueType::Number(JsonNumber::PosInt(7))));
}

#[test]
fn retype_of_a_splitter_drops_links_from_it() {
    let mut g = Graph::new();
    let d = g.add_node(Template::DeconstructArray(DataType::Bool));
    add_dynamic_param(d, DataType::Json, "", &mut g);
    let b = g.add_node(Template::MakeBool);
    g.connect(b, "bool", d, "0").unwrap();
    retype(d, DataType::String, &mut g);
    assert!(g.node(b).unwrap().inputs[0].link.is_none());
    assert_eq!(g.node(d).unwrap().outputs[0].typ, DataType::String);
    assert_eq!(output_names(&g, d), vec!["0"]);
}

#[test]
fn array_ports_come_and_go_at_the_end() {
    let mut g = Graph::new();
    let d = g.add_node(Template::DeconstructArray(DataType::Number));
    remove_dynamic_param(d, "", &mut g).unwrap();
    for _ in 0..3 {
        add_dynamic_param(d, DataType::Bool, "", &mut g);
    }
    assert_eq!(output_names(&g, d), vec!["0", "1", "2"]);
    assert!(g.node(d).unwrap().outputs.iter().all(|p| p.typ == DataType::Number));
    remove_dynamic_param(d, "", &mut g).unwrap();
    assert_eq!(output_names(&g, d), vec!["0", "1"]);
}

#[test]
fn json_ports_are_named_by_the_user() {
    let mut g = Graph::new();
    let d = g.add_node(Template::DeconstructJson);
    add_dynamic_param(d, DataType::String, "name", &mut g);
    assert_eq!(output_names(&g, d), vec!["name"]);
    assert!(remove_dynamic_param(d, "other", &mut g).is_err());
    remove_dynamic_param(d, "name", &mut g).unwrap();
    assert!(output_names(&g, d).is_empty());
}

#[test]
fn kinds_and_labels() {
    let kinds = TemplateIterator.all_kinds();
    assert_eq!(kinds.len(), 12);
    assert_eq!(kinds[3], Template::ConstructArray(DataType::Bool));
    assert_eq!(Template::Store.node_finder_label(), "Store Contract");
    assert_eq!(Template::DeconstructArray(DataType::Json).node_graph_label(), "Array Splitter");
    assert!(Template::ConstructJson.is_json());
    assert!(!Template::ConstructJson.is_array());
    assert!(Template::DeconstructArray(DataType::Bool).is_array());
    assert!(!Template::MakeBool.is_json());
    assert_eq!(Template::Account.user_data().template, Template::Account);
}

#[test]
fn editor_requests() {
    let mut st = NodeGraphState::new();
    let a = st.graph.add_node(Template::ConstructArray(DataType::Number));
    st.handle_response(Response::SetEditingNode(a));
    assert_eq!(st.user_state.editing_node, Some(a));
    assert_eq!(st.user_state.new_type, DataType::Number);
    st.handle_response(Response::AddParam(a));
    st.handle_response(Response::AddParam(a));
    assert_eq!(input_names(&st.graph, a), vec!["0", "1"]);
    st.user_state.new_type = DataType::Bool;
    st.handle_response(Response::UpdateArrayType(a));
    assert_eq!(st.graph.node(a).unwrap().user_data.template, Template::ConstructArray(DataType::Bool));
    st.handle_response(Response::RemoveParam(a));
    assert_eq!(input_names(&st.graph, a), vec!["0"]);
    st.handle_response(Response::SetActiveNode(a));
    match st.active_result() {
        Some(Ok(v)) => assert_eq!(v, vec!["[Bool(true)]".to_string()]),
        other => panic!("unexpected {:?}", other),
    }
    st.graph.remove_node(a);
    assert!(st.active_result().is_none());
    assert_eq!(st.user_state.active_node, None);
    st.handle_response(Response::ClearEditingNode);
    assert_eq!(st.user_state.editing_node, None);
}

#[test]
fn json_editor_adds_named_ports() {
    let mut st = NodeGraphState::new();
    let c = st.graph.add_node(Template::ConstructJson);
    st.handle_response(Response::SetEditingNode(c));
    assert_eq!(st.user_state.new_type, DataType::Bool);
    st.user_state.json_name = "flag".to_string();
    st.handle_response(Response::AddParam(c));
    assert!(st.user_state.json_name.is_empty());
    assert_eq!(input_names(&st.graph, c), vec!["flag"]);
    st.handle_response(Response::SetActiveNode(c));
    match st.active_result() {
        Some(Ok(v)) => assert_eq!(v, vec!["{\"flag\":true}".to_string()]),
        other => panic!("unexpected {:?}", other),
    }
}
