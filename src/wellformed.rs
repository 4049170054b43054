use vstd::prelude::*;

use crate::graph::{
    graph_unlinked, input_names, input_replaced, link_from, node_unlinked,
    output_names, output_removed, param_added, unlinked, Graph, InputParam, Node, IO,
};
use crate::template::Template;
use crate::text::{decimal_text, digit_char};

verus! {

/// Port names are unique on each side of the node.
pub open spec fn names_unique(n: Node) -> bool {
    input_names(n.inputs@).no_duplicates() && output_names(n.outputs@).no_duplicates()
}

/// On an array node, the element ports (the inputs of a constructor, the outputs of a
/// splitter) are named `"0"`, `"1"`, ... in order and have the node's element type.
pub open spec fn array_ports_indexed(n: Node) -> bool {
    match n.user_data.template {
        Template::ConstructArray(e) => forall|i: int|
            0 <= i < n.inputs@.len() ==> (#[trigger] n.inputs@[i]).name@ == decimal_text(i as nat)
                && n.inputs@[i].typ == e,
        Template::DeconstructArray(e) => forall|i: int|
            0 <= i < n.outputs@.len() ==> (#[trigger] n.outputs@[i]).name@ == decimal_text(i as nat)
                && n.outputs@[i].typ == e,
        _ => true,
    }
}

/// Adding port `name` of type `t` on side `io` keeps an array node's element ports in
/// order: the port is not an element port, or it is the next element, or the name is taken.
pub open spec fn add_keeps_indexing(n: Node, name: Seq<char>, t: crate::value::DataType, io: IO) -> bool {
    match n.user_data.template {
        Template::ConstructArray(e) => io == IO::Output || input_names(n.inputs@).contains(name) || (
        name == decimal_text(n.inputs@.len() as nat) && t == e),
        Template::DeconstructArray(e) => io == IO::Input || output_names(n.outputs@).contains(name)
            || (name == decimal_text(n.outputs@.len() as nat) && t == e),
        _ => true,
    }
}

/// Removing port `name` from side `io` keeps an array node's element ports in order: the
/// port is not an element port, or there is no such port, or it is the last element.
pub open spec fn remove_keeps_indexing(n: Node, name: Seq<char>, io: IO) -> bool {
    match n.user_data.template {
        Template::ConstructArray(_) => io == IO::Output || !input_names(n.inputs@).contains(name) || (
        n.inputs@.len() > 0 && name == decimal_text((n.inputs@.len() - 1) as nat)),
        Template::DeconstructArray(_) => io == IO::Input || !output_names(n.outputs@).contains(name)
            || (n.outputs@.len() > 0 && name == decimal_text((n.outputs@.len() - 1) as nat)),
        _ => true,
    }
}

/// A link, where the input has one, names a node that exists and one of its outputs.
pub open spec fn link_valid(g: Graph, p: InputParam) -> bool {
    p.link matches Some(r) ==> g.has_node(r.node) && output_names(g.node_at(r.node).outputs@).contains(
        r.name@,
    )
}

impl Graph {
    /// Port names are unique on each side of every node, the element ports of every array
    /// node are in order, and every link names an output that exists.
    pub open spec fn well_formed(&self) -> bool {
        &&& forall|q: usize| self.has_node(q) ==> names_unique(#[trigger] self.node_at(q))
        &&& forall|q: usize| self.has_node(q) ==> array_ports_indexed(#[trigger] self.node_at(q))
        &&& forall|q: usize, j: int|
            self.has_node(q) && 0 <= j < self.node_at(q).inputs@.len() ==> link_valid(
                *self,
                #[trigger] self.node_at(q).inputs@[j],
            )
    }

    /// Every node of `old` is in `self`, with at least the outputs it had.
    pub open spec fn keeps_outputs_of(&self, old: Graph) -> bool {
        forall|q: usize, name: Seq<char>|
            old.has_node(q) && output_names(old.node_at(q).outputs@).contains(name) ==> self.has_node(q)
                && #[trigger] output_names(self.node_at(q).outputs@).contains(name)
    }
}

/// A link that was valid stays valid where every output is kept.
pub proof fn lemma_link_kept(old: Graph, new: Graph, p: InputParam)
    requires
        link_valid(old, p),
        new.keeps_outputs_of(old),
    ensures
        link_valid(new, p),
{
    if let Some(r) = p.link {
        assert(output_names(new.node_at(r.node).outputs@).contains(r.name@));
    }
}

/// A sequence of names with one more at the end that it lacked keeps its names unique.
pub proof fn lemma_push_unique(s: Seq<Seq<char>>, x: Seq<char>)
    requires
        s.no_duplicates(),
        !s.contains(x),
    ensures
        s.push(x).no_duplicates(),
{
    let t = s.push(x);
    assert forall|i: int, j: int| 0 <= i < t.len() && 0 <= j < t.len() && i != j implies t[i] != t[j] by {
        if i == s.len() {
            assert(s[j] == t[j]);
        } else if j == s.len() {
            assert(s[i] == t[i]);
        }
    }
}

/// Removing a name keeps the others unique.
pub proof fn lemma_remove_unique(s: Seq<Seq<char>>, k: int)
    requires
        s.no_duplicates(),
        0 <= k < s.len(),
    ensures
        s.remove(k).no_duplicates(),
{
    let t = s.remove(k);
    assert forall|i: int, j: int| 0 <= i < t.len() && 0 <= j < t.len() && i != j implies t[i] != t[j] by {
        let si = if i < k { i } else { i + 1 };
        let sj = if j < k { j } else { j + 1 };
        assert(t[i] == s[si] && t[j] == s[sj]);
    }
}

pub proof fn lemma_decimal_shape(n: nat)
    ensures
        decimal_text(n).len() >= 1,
        n < 10 ==> decimal_text(n).len() == 1,
        n >= 10 ==> decimal_text(n).len() >= 2,
    decreases n,
{
    if n >= 10 {
        lemma_decimal_shape(n / 10);
    }
}

proof fn lemma_digit_injective(a: nat, b: nat)
    requires
        a < 10,
        b < 10,
        digit_char(a) == digit_char(b),
    ensures
        a == b,
{
    let ds = seq!['0', '1', '2', '3', '4', '5', '6', '7', '8', '9'];
    assert(digit_char(a) == ds[a as int] && digit_char(b) == ds[b as int]);
}

/// Distinct numbers have distinct decimal texts.
pub proof fn lemma_decimal_injective(a: nat, b: nat)
    requires
        decimal_text(a) == decimal_text(b),
    ensures
        a == b,
    decreases a,
{
    lemma_decimal_shape(a);
    lemma_decimal_shape(b);
    if a < 10 && b < 10 {
        assert(decimal_text(a)[0] == digit_char(a));
        assert(decimal_text(b)[0] == digit_char(b));
        lemma_digit_injective(a, b);
    } else if a >= 10 && b >= 10 {
        let ta = decimal_text(a);
        assert(ta.drop_last() == decimal_text(a / 10));
        assert(decimal_text(b).drop_last() == decimal_text(b / 10));
        lemma_decimal_injective(a / 10, b / 10);
        assert(ta.last() == digit_char(a % 10));
        assert(decimal_text(b).last() == digit_char(b % 10));
        lemma_digit_injective(a % 10, b % 10);
    }
}

/// Adding a port keeps the graph well formed.
pub proof fn lemma_param_added_wf(old: Graph, new: Graph, id: usize, name: Seq<char>, t: crate::value::DataType, io: IO)
    requires
        old.well_formed(),
        old.has_node(id),
        new.same_except(&old, id),
        new.has_node(id),
        param_added(old.node_at(id), new.node_at(id), name, t, io),
        add_keeps_indexing(old.node_at(id), name, t, io),
    ensures
        new.well_formed(),
{
    let o = old.node_at(id);
    let n = new.node_at(id);
    assert forall|q: usize| #[trigger] new.has_node(q) implies old.has_node(q) && (q != id ==> new.node_at(q) == old.node_at(q)) by {
        assert(new.nodes@[q as int] == old.nodes@[q as int] || q == id);
    }
    assert forall|q: usize| #[trigger] old.has_node(q) implies new.has_node(q) by {
        assert(new.nodes@[q as int] == old.nodes@[q as int] || q == id);
    }
    // outputs are kept
    assert forall|q: usize, nm: Seq<char>|
        old.has_node(q) && output_names(old.node_at(q).outputs@).contains(nm) implies new.has_node(q)
        && #[trigger] output_names(new.node_at(q).outputs@).contains(nm) by {
        if q == id {
            let w = choose|w: int| 0 <= w < output_names(o.outputs@).len() && output_names(o.outputs@)[w] == nm;
            if io == IO::Output && !output_names(o.outputs@).contains(name) {
                assert(n.outputs@[w] == n.outputs@.drop_last()[w]);
            }
            assert(output_names(n.outputs@)[w] == nm);
        } else {
            assert(new.node_at(q) == old.node_at(q));
        }
    }
    // names stay unique
    assert(names_unique(o));
    if io == IO::Input && !input_names(o.inputs@).contains(name) {
        assert(input_names(n.inputs@) =~= input_names(o.inputs@).push(name));
        lemma_push_unique(input_names(o.inputs@), name);
    }
    if io == IO::Output && !output_names(o.outputs@).contains(name) {
        assert(output_names(n.outputs@) =~= output_names(o.outputs@).push(name));
        lemma_push_unique(output_names(o.outputs@), name);
    }
    assert forall|q: usize| new.has_node(q) implies names_unique(#[trigger] new.node_at(q)) by {
        if q != id {
            assert(new.node_at(q) == old.node_at(q));
        }
    }
    assert forall|q: usize| new.has_node(q) implies array_ports_indexed(#[trigger] new.node_at(q)) by {
        if q != id {
            assert(new.node_at(q) == old.node_at(q));
            assert(array_ports_indexed(old.node_at(q)));
        } else {
            assert(array_ports_indexed(o));
            match o.user_data.template {
                Template::ConstructArray(e) => {
                    if io == IO::Input && !input_names(o.inputs@).contains(name) {
                        assert forall|i: int| 0 <= i < n.inputs@.len() implies (#[trigger] n.inputs@[i]).name@
                            == decimal_text(i as nat) && n.inputs@[i].typ == e by {
                            if i < o.inputs@.len() {
                                assert(n.inputs@[i] == n.inputs@.drop_last()[i]);
                            }
                        }
                    }
                },
                Template::DeconstructArray(e) => {
                    if io == IO::Output && !output_names(o.outputs@).contains(name) {
                        assert forall|i: int| 0 <= i < n.outputs@.len() implies (#[trigger] n.outputs@[i]).name@
                            == decimal_text(i as nat) && n.outputs@[i].typ == e by {
                            if i < o.outputs@.len() {
                                assert(n.outputs@[i] == n.outputs@.drop_last()[i]);
                            }
                        }
                    }
                },
                _ => {},
            }
        }
    }
    // links stay valid
    assert forall|q: usize, j: int|
        new.has_node(q) && 0 <= j < new.node_at(q).inputs@.len() implies link_valid(
        new,
        #[trigger] new.node_at(q).inputs@[j],
    ) by {
        if q != id {
            assert(new.node_at(q) == old.node_at(q));
            assert(link_valid(old, old.node_at(q).inputs@[j]));
            lemma_link_kept(old, new, new.node_at(q).inputs@[j]);
        } else if j < o.inputs@.len() {
            if io == IO::Input && !input_names(o.inputs@).contains(name) {
                assert(n.inputs@[j] == n.inputs@.drop_last()[j]);
            }
            assert(n.inputs@[j] == o.inputs@[j]);
            assert(link_valid(old, o.inputs@[j]));
            lemma_link_kept(old, new, n.inputs@[j]);
        }
    }
}

/// Dropping links keeps the graph well formed.
pub proof fn lemma_unlinked_wf(old: Graph, new: Graph, source: usize, name: Option<Seq<char>>)
    requires
        old.well_formed(),
        graph_unlinked(old, new, source, name),
    ensures
        new.well_formed(),
        new.keeps_outputs_of(old),
{
    assert forall|q: usize| #[trigger] new.has_node(q) <==> old.has_node(q) by {
        if q < old.nodes@.len() {
            assert(old.nodes@[q as int] is Some ==> new.nodes@[q as int] is Some);
        }
    }
    assert forall|q: usize| new.has_node(q) implies node_unlinked(old.node_at(q), #[trigger] new.node_at(q), source, name) by {
        assert(old.has_node(q));
    }
    assert forall|q: usize, nm: Seq<char>|
        old.has_node(q) && output_names(old.node_at(q).outputs@).contains(nm) implies new.has_node(q)
        && #[trigger] output_names(new.node_at(q).outputs@).contains(nm) by {
        assert(new.node_at(q).outputs@ == old.node_at(q).outputs@);
    }
    assert forall|q: usize| new.has_node(q) implies names_unique(#[trigger] new.node_at(q)) by {
        let o = old.node_at(q);
        let n = new.node_at(q);
        assert(names_unique(o));
        assert(input_names(n.inputs@) =~= input_names(o.inputs@));
        assert(output_names(n.outputs@) =~= output_names(o.outputs@));
    }
    assert forall|q: usize| new.has_node(q) implies array_ports_indexed(#[trigger] new.node_at(q)) by {
        let o = old.node_at(q);
        let n = new.node_at(q);
        assert(array_ports_indexed(o));
        assert forall|j: int| 0 <= j < n.inputs@.len() implies #[trigger] n.inputs@[j].name == o.inputs@[j].name
            && n.inputs@[j].typ == o.inputs@[j].typ by {
            assert(n.inputs@[j] == unlinked(o.inputs@[j], source, name));
        }
    }
    assert forall|q: usize, j: int|
        new.has_node(q) && 0 <= j < new.node_at(q).inputs@.len() implies link_valid(
        new,
        #[trigger] new.node_at(q).inputs@[j],
    ) by {
        let o = old.node_at(q);
        assert(new.node_at(q).inputs@[j] == unlinked(o.inputs@[j], source, name));
        assert(link_valid(old, o.inputs@[j]));
        lemma_link_kept(old, new, o.inputs@[j]);
    }
}

/// Removing an input keeps the graph well formed.
pub proof fn lemma_input_removed_wf(old: Graph, new: Graph, id: usize, i: int)
    requires
        old.well_formed(),
        old.has_node(id),
        0 <= i < old.node_at(id).inputs@.len(),
        new.same_except(&old, id),
        new.has_node(id),
        new.node_at(id).outputs@ == old.node_at(id).outputs@,
        new.node_at(id).inputs@ == old.node_at(id).inputs@.remove(i),
        old.node_at(id).user_data.template is ConstructArray ==> i == old.node_at(id).inputs@.len() - 1,
        new.node_at(id).user_data == old.node_at(id).user_data,
    ensures
        new.well_formed(),
{
    let o = old.node_at(id);
    let n = new.node_at(id);
    assert forall|q: usize| #[trigger] new.has_node(q) <==> old.has_node(q) by {
        if q < old.nodes@.len() && q != id {
            assert(new.nodes@[q as int] == old.nodes@[q as int]);
        }
    }
    assert forall|q: usize, nm: Seq<char>|
        old.has_node(q) && output_names(old.node_at(q).outputs@).contains(nm) implies new.has_node(q)
        && #[trigger] output_names(new.node_at(q).outputs@).contains(nm) by {
        if q != id {
            assert(new.nodes@[q as int] == old.nodes@[q as int]);
        }
    }
    assert(names_unique(o));
    assert(input_names(n.inputs@) =~= input_names(o.inputs@).remove(i));
    lemma_remove_unique(input_names(o.inputs@), i);
    assert(output_names(n.outputs@) =~= output_names(o.outputs@));
    assert(names_unique(n));
    assert forall|q: usize| new.has_node(q) implies names_unique(#[trigger] new.node_at(q)) by {
        if q != id {
            assert(new.nodes@[q as int] == old.nodes@[q as int]);
            assert(old.has_node(q));
            assert(names_unique(old.node_at(q)));
        }
    }
    assert forall|q: usize| new.has_node(q) implies array_ports_indexed(#[trigger] new.node_at(q)) by {
        if q != id {
            assert(new.nodes@[q as int] == old.nodes@[q as int]);
            assert(array_ports_indexed(old.node_at(q)));
        } else {
            assert(array_ports_indexed(o));
            if o.user_data.template is ConstructArray {
                assert forall|j: int| 0 <= j < n.inputs@.len() implies #[trigger] n.inputs@[j] == o.inputs@[j] by {}
            }
        }
    }
    assert forall|q: usize, j: int|
        new.has_node(q) && 0 <= j < new.node_at(q).inputs@.len() implies link_valid(
        new,
        #[trigger] new.node_at(q).inputs@[j],
    ) by {
        if q != id {
            assert(new.nodes@[q as int] == old.nodes@[q as int]);
            assert(link_valid(old, old.node_at(q).inputs@[j]));
            lemma_link_kept(old, new, old.node_at(q).inputs@[j]);
        } else {
            let oj = if j < i { j } else { j + 1 };
            assert(n.inputs@[j] == o.inputs@[oj]);
            assert(link_valid(old, o.inputs@[oj]));
            lemma_link_kept(old, new, o.inputs@[oj]);
        }
    }
}

/// Removing an output, with every link from it, keeps the graph well formed.
pub proof fn lemma_output_removed_wf(old: Graph, new: Graph, id: usize, k: int, name: Seq<char>)
    requires
        old.well_formed(),
        old.has_node(id),
        0 <= k < old.node_at(id).outputs@.len(),
        output_names(old.node_at(id).outputs@)[k] == name,
        output_removed(old, new, id, k, name),
        old.node_at(id).user_data.template is DeconstructArray ==> k == old.node_at(id).outputs@.len() - 1,
    ensures
        new.well_formed(),
{
    assert forall|q: usize| #[trigger] new.has_node(q) <==> old.has_node(q) by {
        if q < old.nodes@.len() {
            assert(old.nodes@[q as int] is Some ==> new.nodes@[q as int] is Some);
        }
    }
    assert forall|q: usize| new.has_node(q) implies names_unique(#[trigger] new.node_at(q)) by {
        let o = old.node_at(q);
        let n = new.node_at(q);
        assert(old.has_node(q));
        assert(names_unique(o));
        assert(input_names(n.inputs@) =~= input_names(o.inputs@));
        if q == id {
            assert(output_names(n.outputs@) =~= output_names(o.outputs@).remove(k));
            lemma_remove_unique(output_names(o.outputs@), k);
        } else {
            assert(output_names(n.outputs@) =~= output_names(o.outputs@));
        }
    }
    assert forall|q: usize| new.has_node(q) implies array_ports_indexed(#[trigger] new.node_at(q)) by {
        let o = old.node_at(q);
        let n = new.node_at(q);
        assert(old.has_node(q));
        assert(array_ports_indexed(o));
        assert forall|j: int| 0 <= j < n.inputs@.len() implies #[trigger] n.inputs@[j].name == o.inputs@[j].name
            && n.inputs@[j].typ == o.inputs@[j].typ by {
            assert(n.inputs@[j] == unlinked(o.inputs@[j], id, Some(name)));
        }
        if q == id && o.user_data.template is DeconstructArray {
            assert forall|j: int| 0 <= j < n.outputs@.len() implies #[trigger] n.outputs@[j] == o.outputs@[j] by {}
        }
    }
    assert forall|q: usize, j: int|
        new.has_node(q) && 0 <= j < new.node_at(q).inputs@.len() implies link_valid(
        new,
        #[trigger] new.node_at(q).inputs@[j],
    ) by {
        assert(old.has_node(q));
        let o = old.node_at(q);
        let p = o.inputs@[j];
        assert(new.node_at(q).inputs@[j] == unlinked(p, id, Some(name)));
        assert(link_valid(old, p));
        if !link_from(p, id, Some(name)) {
            if let Some(r) = p.link {
                let src_old = old.node_at(r.node);
                let src_new = new.node_at(r.node);
                let w = choose|w: int|
                    0 <= w < output_names(src_old.outputs@).len() && output_names(src_old.outputs@)[w]
                        == r.name@;
                assert(old.has_node(r.node));
                if r.node == id {
                    assert(w != k);
                    let nw = if w < k { w } else { w - 1 };
                    assert(src_new.outputs@ == src_old.outputs@.remove(k));
                    assert(output_names(src_new.outputs@)[nw] == r.name@);
                } else {
                    assert(src_new.outputs@ == src_old.outputs@);
                    assert(output_names(src_new.outputs@)[w] == r.name@);
                }
            }
        }
    }
}

/// Changing one input to one whose link is valid keeps the graph well formed.
pub proof fn lemma_input_replaced_wf(old: Graph, new: Graph, id: usize, i: int, p: InputParam)
    requires
        old.well_formed(),
        old.has_node(id),
        0 <= i < old.node_at(id).inputs@.len(),
        input_replaced(old, new, id, i, p),
        p.name == old.node_at(id).inputs@[i].name,
        link_valid(old, p),
        p.typ == old.node_at(id).inputs@[i].typ,
    ensures
        new.well_formed(),
{
    let o = old.node_at(id);
    let n = new.node_at(id);
    assert forall|q: usize| #[trigger] new.has_node(q) <==> old.has_node(q) by {
        if q < old.nodes@.len() && q != id {
            assert(new.nodes@[q as int] == old.nodes@[q as int]);
        }
    }
    assert forall|q: usize, nm: Seq<char>|
        old.has_node(q) && output_names(old.node_at(q).outputs@).contains(nm) implies new.has_node(q)
        && #[trigger] output_names(new.node_at(q).outputs@).contains(nm) by {
        if q != id {
            assert(new.nodes@[q as int] == old.nodes@[q as int]);
        }
    }
    assert(names_unique(o));
    assert(input_names(n.inputs@) =~= input_names(o.inputs@));
    assert(output_names(n.outputs@) =~= output_names(o.outputs@));
    assert(names_unique(n));
    assert forall|q: usize| new.has_node(q) implies names_unique(#[trigger] new.node_at(q)) by {
        if q != id {
            assert(new.nodes@[q as int] == old.nodes@[q as int]);
            assert(old.has_node(q));
            assert(names_unique(old.node_at(q)));
        }
    }
    assert forall|q: usize| new.has_node(q) implies array_ports_indexed(#[trigger] new.node_at(q)) by {
        if q != id {
            assert(new.nodes@[q as int] == old.nodes@[q as int]);
            assert(array_ports_indexed(old.node_at(q)));
        } else {
            assert(array_ports_indexed(o));
            assert forall|j: int| 0 <= j < n.inputs@.len() implies #[trigger] n.inputs@[j].name == o.inputs@[j].name
                && n.inputs@[j].typ == o.inputs@[j].typ by {}
        }
    }
    assert forall|q: usize, j: int|
        new.has_node(q) && 0 <= j < new.node_at(q).inputs@.len() implies link_valid(
        new,
        #[trigger] new.node_at(q).inputs@[j],
    ) by {
        if q != id {
            assert(new.nodes@[q as int] == old.nodes@[q as int]);
            assert(link_valid(old, old.node_at(q).inputs@[j]));
            lemma_link_kept(old, new, old.node_at(q).inputs@[j]);
        } else if j == i {
            lemma_link_kept(old, new, p);
        } else {
            assert(link_valid(old, o.inputs@[j]));
            lemma_link_kept(old, new, o.inputs@[j]);
        }
    }
}

/// Element names `"0"`, `"1"`, ... are unique.
pub proof fn lemma_element_names_unique(names: Seq<Seq<char>>)
    requires
        forall|i: int| 0 <= i < names.len() ==> #[trigger] names[i] == decimal_text(i as nat),
    ensures
        names.no_duplicates(),
{
    assert forall|i: int, j: int| 0 <= i < names.len() && 0 <= j < names.len() && i != j implies names[i]
        != names[j] by {
        if names[i] == names[j] {
            lemma_decimal_injective(i as nat, j as nat);
        }
    }
}

/// No input of the graph is linked from node `id`.
pub open spec fn no_links_from(g: Graph, id: usize) -> bool {
    forall|q: usize, j: int|
        g.has_node(q) && 0 <= j < g.node_at(q).inputs@.len() ==> !link_from(
            #[trigger] g.node_at(q).inputs@[j],
            id,
            None,
        )
}

pub proof fn lemma_unlinked_from_all(old: Graph, new: Graph, id: usize)
    requires
        graph_unlinked(old, new, id, None),
    ensures
        no_links_from(new, id),
{
    assert forall|q: usize, j: int|
        new.has_node(q) && 0 <= j < new.node_at(q).inputs@.len() implies !link_from(
        #[trigger] new.node_at(q).inputs@[j],
        id,
        None,
    ) by {
        assert(old.nodes@[q as int] is Some);
        assert(node_unlinked(old.node_at(q), new.node_at(q), id, None));
    }
}

/// Emptying the slot of a node that nothing links from keeps the graph well formed.
pub proof fn lemma_node_cleared_wf(old: Graph, new: Graph, id: usize)
    requires
        old.well_formed(),
        no_links_from(old, id),
        id < old.nodes@.len(),
        new.nodes@ == old.nodes@.update(id as int, None),
    ensures
        new.well_formed(),
{
    assert forall|q: usize| new.has_node(q) implies names_unique(#[trigger] new.node_at(q)) by {
        assert(old.has_node(q));
        assert(names_unique(old.node_at(q)));
    }
    assert forall|q: usize| new.has_node(q) implies array_ports_indexed(#[trigger] new.node_at(q)) by {
        assert(old.has_node(q));
        assert(array_ports_indexed(old.node_at(q)));
    }
    assert forall|q: usize, j: int|
        new.has_node(q) && 0 <= j < new.node_at(q).inputs@.len() implies link_valid(
        new,
        #[trigger] new.node_at(q).inputs@[j],
    ) by {
        assert(old.has_node(q));
        let p = old.node_at(q).inputs@[j];
        assert(link_valid(old, p));
        assert(!link_from(p, id, None));
        if let Some(r) = p.link {
            assert(new.node_at(r.node) == old.node_at(r.node));
        }
    }
}

/// Adding an empty node keeps the graph well formed.
pub proof fn lemma_node_pushed_wf(old: Graph, new: Graph, n: Node)
    requires
        old.well_formed(),
        n.inputs@.len() == 0,
        n.outputs@.len() == 0,
        new.nodes@ == old.nodes@.push(Some(n)),
    ensures
        new.well_formed(),
{
    assert(input_names(n.inputs@) =~= Seq::<Seq<char>>::empty());
    assert(output_names(n.outputs@) =~= Seq::<Seq<char>>::empty());
    assert forall|q: usize| new.has_node(q) implies names_unique(#[trigger] new.node_at(q)) by {
        if q < old.nodes@.len() {
            assert(old.has_node(q));
            assert(names_unique(old.node_at(q)));
        }
    }
    assert forall|q: usize| new.has_node(q) implies array_ports_indexed(#[trigger] new.node_at(q)) by {
        if q < old.nodes@.len() {
            assert(old.has_node(q));
            assert(array_ports_indexed(old.node_at(q)));
        }
    }
    assert forall|q: usize, j: int|
        new.has_node(q) && 0 <= j < new.node_at(q).inputs@.len() implies link_valid(
        new,
        #[trigger] new.node_at(q).inputs@[j],
    ) by {
        assert(q < old.nodes@.len());
        assert(old.has_node(q));
        let p = old.node_at(q).inputs@[j];
        assert(link_valid(old, p));
        if let Some(r) = p.link {
            assert(new.node_at(r.node) == old.node_at(r.node));
        }
    }
}

/// Replacing a node's inputs with unlinked ones of unique names keeps the graph well formed.
pub proof fn lemma_inputs_reset_wf(old: Graph, new: Graph, id: usize)
    requires
        old.well_formed(),
        old.has_node(id),
        new.same_except(&old, id),
        new.has_node(id),
        new.node_at(id).outputs@ == old.node_at(id).outputs@,
        input_names(new.node_at(id).inputs@).no_duplicates(),
        forall|j: int| 0 <= j < new.node_at(id).inputs@.len() ==> (#[trigger] new.node_at(id).inputs@[j]).link is None,
        array_ports_indexed(new.node_at(id)),
    ensures
        new.well_formed(),
{
    let o = old.node_at(id);
    let n = new.node_at(id);
    assert forall|q: usize| #[trigger] new.has_node(q) <==> old.has_node(q) by {
        if q < old.nodes@.len() && q != id {
            assert(new.nodes@[q as int] == old.nodes@[q as int]);
        }
    }
    assert forall|q: usize, nm: Seq<char>|
        old.has_node(q) && output_names(old.node_at(q).outputs@).contains(nm) implies new.has_node(q)
        && #[trigger] output_names(new.node_at(q).outputs@).contains(nm) by {
        if q != id {
            assert(new.nodes@[q as int] == old.nodes@[q as int]);
        }
    }
    assert(names_unique(o));
    assert(output_names(n.outputs@) =~= output_names(o.outputs@));
    assert(names_unique(n));
    assert forall|q: usize| new.has_node(q) implies names_unique(#[trigger] new.node_at(q)) by {
        if q != id {
            assert(new.nodes@[q as int] == old.nodes@[q as int]);
            assert(names_unique(old.node_at(q)));
        }
    }
    assert forall|q: usize| new.has_node(q) implies array_ports_indexed(#[trigger] new.node_at(q)) by {
        if q != id {
            assert(new.nodes@[q as int] == old.nodes@[q as int]);
            assert(array_ports_indexed(old.node_at(q)));
        }
    }
    assert forall|q: usize, j: int|
        new.has_node(q) && 0 <= j < new.node_at(q).inputs@.len() implies link_valid(
        new,
        #[trigger] new.node_at(q).inputs@[j],
    ) by {
        if q != id {
            assert(new.nodes@[q as int] == old.nodes@[q as int]);
            assert(link_valid(old, old.node_at(q).inputs@[j]));
            lemma_link_kept(old, new, old.node_at(q).inputs@[j]);
        }
    }
}

/// Replacing the outputs of a node that nothing links from, with outputs of unique names,
/// keeps the graph well formed.
pub proof fn lemma_outputs_reset_wf(old: Graph, new: Graph, id: usize)
    requires
        old.well_formed(),
        no_links_from(old, id),
        old.has_node(id),
        new.same_except(&old, id),
        new.has_node(id),
        new.node_at(id).inputs@ == old.node_at(id).inputs@,
        output_names(new.node_at(id).outputs@).no_duplicates(),
        array_ports_indexed(new.node_at(id)),
    ensures
        new.well_formed(),
{
    let o = old.node_at(id);
    let n = new.node_at(id);
    assert forall|q: usize| #[trigger] new.has_node(q) <==> old.has_node(q) by {
        if q < old.nodes@.len() && q != id {
            assert(new.nodes@[q as int] == old.nodes@[q as int]);
        }
    }
    assert(names_unique(o));
    assert(input_names(n.inputs@) =~= input_names(o.inputs@));
    assert(names_unique(n));
    assert forall|q: usize| new.has_node(q) implies names_unique(#[trigger] new.node_at(q)) by {
        if q != id {
            assert(new.nodes@[q as int] == old.nodes@[q as int]);
            assert(names_unique(old.node_at(q)));
        }
    }
    assert forall|q: usize| new.has_node(q) implies array_ports_indexed(#[trigger] new.node_at(q)) by {
        if q != id {
            assert(new.nodes@[q as int] == old.nodes@[q as int]);
            assert(array_ports_indexed(old.node_at(q)));
        }
    }
    assert forall|q: usize, j: int|
        new.has_node(q) && 0 <= j < new.node_at(q).inputs@.len() implies link_valid(
        new,
        #[trigger] new.node_at(q).inputs@[j],
    ) by {
        let p = if q != id {
            assert(new.nodes@[q as int] == old.nodes@[q as int]);
            old.node_at(q).inputs@[j]
        } else {
            o.inputs@[j]
        };
        assert(old.has_node(q));
        assert(p == new.node_at(q).inputs@[j]);
        assert(link_valid(old, p));
        assert(!link_from(p, id, None));
        if let Some(r) = p.link {
            assert(r.node != id);
            assert(new.nodes@[r.node as int] == old.nodes@[r.node as int]);
        }
    }
}

} // verus!
