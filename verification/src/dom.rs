use vstd::prelude::*;

verus! {

broadcast use vstd::std_specs::vec::group_vec_axioms;

use crate::queries::{Query, QueryV};
use crate::text::{match_at, is_space};

/// One node of the markup tree the decoder walks: a text fragment, or an
/// element with its tag, its attributes, and its children in document
/// order. A parsed document hands each element's attributes sorted by
/// name, one entry per name; nothing here depends on their order, since
/// lookup is by name.
pub enum Node {
    Text(String),
    Elem(Elem),
}

pub struct Elem {
    pub tag: String,
    pub attrs: Vec<(String, String)>,
    pub children: Vec<Node>,
}

/// Spec-level image of a `Node`.
pub enum NodeV {
    Text(Seq<char>),
    Elem(ElemV),
}

/// Spec-level image of an `Elem`.
pub struct ElemV {
    pub tag: Seq<char>,
    pub attrs: Seq<(Seq<char>, Seq<char>)>,
    pub children: Seq<NodeV>,
}

impl Node {
    pub open spec fn deep_view(self) -> NodeV
        decreases self,
    {
        match self {
            Node::Text(t) => NodeV::Text(t@),
            Node::Elem(e) => NodeV::Elem(e.deep_view()),
        }
    }
}

impl Elem {
    pub open spec fn deep_view(self) -> ElemV
        decreases self,
    {
        ElemV {
            tag: self.tag@,
            attrs: Seq::new(self.attrs@.len(), |i: int| (self.attrs@[i].0@, self.attrs@[i].1@)),
            children: Seq::new(
                self.children@.len(),
                |i: int|
                    if 0 <= i < self.children@.len() {
                        self.children@[i].deep_view()
                    } else {
                        NodeV::Text(Seq::empty())
                    },
            ),
        }
    }
}

/// Spec-level image of a forest of nodes.
pub open spec fn forest_view(ns: Seq<Node>) -> Seq<NodeV> {
    Seq::new(ns.len(), |i: int| ns[i].deep_view())
}

/// Spec-level image of a list of elements.
pub open spec fn elems_view(es: Seq<Elem>) -> Seq<ElemV> {
    Seq::new(es.len(), |i: int| es[i].deep_view())
}

/// A copy of a string with the same characters.
pub fn clone_string(s: &String) -> (r: String)
    ensures
        r@ == s@,
{
    String::from_str(s.as_str())
}

pub(crate) fn clone_attrs(attrs: &Vec<(String, String)>) -> (r: Vec<(String, String)>)
    ensures
        r@.len() == attrs@.len(),
        forall|i: int|
            0 <= i < attrs@.len() ==> r@[i].0@ == attrs@[i].0@ && r@[i].1@ == attrs@[i].1@,
{
    let mut out: Vec<(String, String)> = Vec::new();
    let mut i: usize = 0;
    while i < attrs.len()
        invariant
            i <= attrs@.len(),
            out@.len() == i,
            forall|j: int|
                0 <= j < i ==> out@[j].0@ == attrs@[j].0@ && out@[j].1@ == attrs@[j].1@,
        decreases attrs@.len() - i,
    {
        let pair = &attrs[i];
        out.push((clone_string(&pair.0), clone_string(&pair.1)));
        i += 1;
    }
    out
}

/// A copy of a node with the same deep view.
pub fn clone_node(n: &Node) -> (r: Node)
    ensures
        r.deep_view() == n.deep_view(),
    decreases *n,
{
    match n {
        Node::Text(t) => Node::Text(clone_string(t)),
        Node::Elem(e) => Node::Elem(clone_elem(e)),
    }
}

/// A copy of an element with the same deep view.
pub fn clone_elem(e: &Elem) -> (r: Elem)
    ensures
        r.deep_view() == e.deep_view(),
    decreases *e,
{
    let tag = clone_string(&e.tag);
    let attrs = clone_attrs(&e.attrs);
    let mut children: Vec<Node> = Vec::new();
    let mut i: usize = 0;
    while i < e.children.len()
        invariant
            i <= e.children@.len(),
            children@.len() == i,
            forall|j: int|
                0 <= j < i ==> children@[j].deep_view() == e.children@[j].deep_view(),
        decreases e.children@.len() - i,
    {
        let c = clone_node(&e.children[i]);
        children.push(c);
        i += 1;
    }
    let r = Elem { tag, attrs, children };
    proof {
        assert(r.deep_view().attrs =~= e.deep_view().attrs);
        assert(r.deep_view().children =~= e.deep_view().children);
    }
    r
}

/// First value among `attrs`, from position `i` on, whose name is `name`.
pub open spec fn attr_from(
    attrs: Seq<(Seq<char>, Seq<char>)>,
    name: Seq<char>,
    i: int,
) -> Option<Seq<char>>
    decreases attrs.len() - i + 1,
{
    if i < 0 || i >= attrs.len() {
        None
    } else if attrs[i].0 == name {
        Some(attrs[i].1)
    } else {
        attr_from(attrs, name, i + 1)
    }
}

/// What looking an attribute up on an element returns: the value of the
/// first attribute of that name, if any.
pub open spec fn spec_attr(e: ElemV, name: Seq<char>) -> Option<Seq<char>> {
    attr_from(e.attrs, name, 0)
}

/// Looks an attribute up on an element.
pub fn get_attr(e: &Elem, name: &str) -> (r: Option<String>)
    ensures
        match r {
            Some(v) => spec_attr(e.deep_view(), name@) == Some(v@),
            None => spec_attr(e.deep_view(), name@) is None,
        },
{
    let key = String::from_str(name);
    let ghost dv = e.deep_view();
    let mut i: usize = 0;
    while i < e.attrs.len()
        invariant
            i <= e.attrs@.len(),
            dv == e.deep_view(),
            key@ == name@,
            attr_from(dv.attrs, name@, 0) == attr_from(dv.attrs, name@, i as int),
        decreases e.attrs@.len() - i,
    {
        let pair = &e.attrs[i];
        if pair.0 == key {
            assert(dv.attrs[i as int].0 == name@);
            return Some(clone_string(&pair.1));
        }
        assert(dv.attrs[i as int].0 != name@);
        i += 1;
    }
    None
}

/// `w` stands in `v` as a whole space-separated word.
pub open spec fn word_at(v: Seq<char>, w: Seq<char>, i: int) -> bool {
    &&& match_at(v, w, i)
    &&& (i == 0 || is_space(v[i - 1]))
    &&& (i + w.len() == v.len() || is_space(v[i + w.len()]))
}

pub open spec fn has_word(v: Seq<char>, w: Seq<char>) -> bool {
    exists|i: int| word_at(v, w, i)
}

/// Scans for `w` as a whole space-separated word of `v`.
fn has_word_x(v: &Vec<char>, w: &Vec<char>) -> (r: bool)
    requires
        w@.len() >= 1,
    ensures
        r == has_word(v@, w@),
{
    let n = v.len();
    let m = w.len();
    if m > n {
        assert forall|i: int| !word_at(v@, w@, i) by {}
        return false;
    }
    let hi = n - m;
    let mut p: usize = 0;
    while p <= hi
        invariant
            m == w@.len(),
            n == v@.len(),
            1 <= m <= n,
            hi == n - m,
            p <= hi + 1,
            forall|j: int| 0 <= j < p ==> !word_at(v@, w@, j),
        decreases hi + 1 - p,
    {
        if crate::text::check_match_at(v, w, p) {
            let left_ok = p == 0 || crate::text::is_space_char(v[p - 1]);
            let right_ok = p + m == n || crate::text::is_space_char(v[p + m]);
            if left_ok && right_ok {
                assert(word_at(v@, w@, p as int));
                return true;
            }
        }
        assert(!word_at(v@, w@, p as int));
        p += 1;
    }
    assert forall|i: int| !word_at(v@, w@, i) by {
        if 0 <= i <= hi {
            assert(!word_at(v@, w@, i));
        }
    }
    false
}

/// An element matches a query when the tag agrees and, where the query
/// names a class, the element's `class` attribute lists it as a word.
pub open spec fn spec_matches(e: ElemV, q: QueryV) -> bool {
    &&& e.tag == q.tag
    &&& match q.class {
        None => true,
        Some(c) => c.len() > 0 && match spec_attr(e, "class"@) {
            Some(v) => has_word(v, c),
            None => false,
        },
    }
}

/// Tests an element against a query.
pub fn query_matches(e: &Elem, q: &Query) -> (r: bool)
    ensures
        r == spec_matches(e.deep_view(), q.deep_view()),
{
    if !(e.tag == q.tag) {
        return false;
    }
    match &q.class {
        None => true,
        Some(c) => {
            let cv = crate::text::chars_of(c.as_str());
            if cv.len() == 0 {
                return false;
            }
            match get_attr(e, "class") {
                Some(v) => {
                    let vv = crate::text::chars_of(v.as_str());
                    has_word_x(&vv, &cv)
                },
                None => false,
            }
        },
    }
}

/// All elements matching `q` in the subtree rooted at `n`, the root
/// itself included, in document order.
pub open spec fn sel_node(n: NodeV, q: QueryV) -> Seq<ElemV>
    decreases n, 0int,
{
    match n {
        NodeV::Text(_) => Seq::empty(),
        NodeV::Elem(e) => (if spec_matches(e, q) {
            seq![e]
        } else {
            Seq::empty()
        }) + sel_nodes(e.children, 0, q),
    }
}

/// All elements matching `q` in the subtrees `cs[i..]`, in document order.
pub open spec fn sel_nodes(cs: Seq<NodeV>, i: int, q: QueryV) -> Seq<ElemV>
    decreases cs, cs.len() - i + 1,
{
    if i < 0 || i >= cs.len() {
        Seq::empty()
    } else {
        sel_node(cs[i], q) + sel_nodes(cs, i + 1, q)
    }
}

fn select_into(n: &Node, q: &Query, out: &mut Vec<Elem>)
    ensures
        elems_view(final(out)@) == elems_view(old(out)@) + sel_node(n.deep_view(), q.deep_view()),
    decreases *n,
{
    let ghost qv = q.deep_view();
    match n {
        Node::Text(_) => {
            proof {
                assert(elems_view(out@) =~= elems_view(old(out)@) + sel_node(n.deep_view(), qv));
            }
        },
        Node::Elem(e) => {
            let ghost ev = e.deep_view();
            if query_matches(e, q) {
                let copy = clone_elem(e);
                out.push(copy);
            }
            proof {
                assert(elems_view(out@) =~= elems_view(old(out)@) + (if spec_matches(ev, qv) {
                    seq![ev]
                } else {
                    Seq::<ElemV>::empty()
                }));
            }
            let ghost mid = out@;
            select_children_into(e, q, out);
            proof {
                assert(elems_view(mid) + sel_nodes(ev.children, 0, qv) =~= elems_view(old(out)@)
                    + sel_node(n.deep_view(), qv));
            }
        },
    }
}

fn select_children_into(e: &Elem, q: &Query, out: &mut Vec<Elem>)
    ensures
        elems_view(final(out)@) == elems_view(old(out)@) + sel_nodes(
            e.deep_view().children,
            0,
            q.deep_view(),
        ),
    decreases *e,
{
    let ghost qv = q.deep_view();
    let ghost ev = e.deep_view();
    let ghost base = out@;
    let mut i: usize = 0;
    while i < e.children.len()
        invariant
            i <= e.children@.len(),
            ev == e.deep_view(),
            qv == q.deep_view(),
            elems_view(out@) + sel_nodes(ev.children, i as int, qv) == elems_view(base)
                + sel_nodes(ev.children, 0, qv),
        decreases e.children@.len() - i,
    {
        let ghost before = out@;
        select_into(&e.children[i], q, out);
        proof {
            assert(ev.children[i as int] == e.children@[i as int].deep_view());
            assert(sel_nodes(ev.children, i as int, qv) == sel_node(ev.children[i as int], qv)
                + sel_nodes(ev.children, i + 1, qv));
            assert(elems_view(out@) + sel_nodes(ev.children, i + 1, qv) =~= (elems_view(before)
                + sel_node(ev.children[i as int], qv)) + sel_nodes(ev.children, i + 1, qv));
            assert((elems_view(before) + sel_node(ev.children[i as int], qv)) + sel_nodes(
                ev.children,
                i + 1,
                qv,
            ) =~= elems_view(before) + sel_nodes(ev.children, i as int, qv));
        }
        i += 1;
    }
    proof {
        assert(sel_nodes(ev.children, e.children@.len() as int, qv) =~= Seq::<ElemV>::empty());
        assert(elems_view(out@) + Seq::<ElemV>::empty() =~= elems_view(out@));
        assert(base =~= old(out)@);
    }
}

/// All matching elements among the strict descendants of `e`, in document
/// order.
pub fn select_elem(e: &Elem, q: &Query) -> (r: Vec<Elem>)
    ensures
        elems_view(r@) == sel_nodes(e.deep_view().children, 0, q.deep_view()),
{
    let mut out: Vec<Elem> = Vec::new();
    proof {
        assert(elems_view(out@) =~= Seq::<ElemV>::empty());
    }
    select_children_into(e, q, &mut out);
    proof {
        assert(Seq::<ElemV>::empty() + sel_nodes(e.deep_view().children, 0, q.deep_view())
            =~= sel_nodes(e.deep_view().children, 0, q.deep_view()));
    }
    out
}

/// All matching elements in a forest of trees, the roots included, in
/// document order.
pub fn select_forest(doc: &Vec<Node>, q: &Query) -> (r: Vec<Elem>)
    ensures
        elems_view(r@) == sel_nodes(forest_view(doc@), 0, q.deep_view()),
{
    let mut out: Vec<Elem> = Vec::new();
    let ghost qv = q.deep_view();
    let ghost fv = forest_view(doc@);
    let mut i: usize = 0;
    while i < doc.len()
        invariant
            i <= doc@.len(),
            fv == forest_view(doc@),
            qv == q.deep_view(),
            elems_view(out@) + sel_nodes(fv, i as int, qv) == sel_nodes(fv, 0, qv),
        decreases doc@.len() - i,
    {
        let ghost before = out@;
        select_into(&doc[i], q, &mut out);
        proof {
            assert(fv[i as int] == doc@[i as int].deep_view());
            assert(elems_view(out@) + sel_nodes(fv, i + 1, qv) =~= (elems_view(before) + sel_node(
                fv[i as int],
                qv,
            )) + sel_nodes(fv, i + 1, qv));
            assert((elems_view(before) + sel_node(fv[i as int], qv)) + sel_nodes(fv, i + 1, qv)
                =~= elems_view(before) + sel_nodes(fv, i as int, qv));
        }
        i += 1;
    }
    proof {
        assert(sel_nodes(fv, doc@.len() as int, qv) =~= Seq::<ElemV>::empty());
        assert(elems_view(out@) + Seq::<ElemV>::empty() =~= elems_view(out@));
    }
    out
}

/// The text fragments of the subtree rooted at `n`, in document order.
pub open spec fn texts_node(n: NodeV) -> Seq<Seq<char>>
    decreases n, 0int,
{
    match n {
        NodeV::Text(t) => seq![t],
        NodeV::Elem(e) => texts_nodes(e.children, 0),
    }
}

/// The text fragments of the subtrees `cs[i..]`, in document order.
pub open spec fn texts_nodes(cs: Seq<NodeV>, i: int) -> Seq<Seq<char>>
    decreases cs, cs.len() - i + 1,
{
    if i < 0 || i >= cs.len() {
        Seq::empty()
    } else {
        texts_node(cs[i]) + texts_nodes(cs, i + 1)
    }
}

/// The text fragments below an element, the usual unit the extractors
/// read.
pub open spec fn spec_texts(e: ElemV) -> Seq<Seq<char>> {
    texts_nodes(e.children, 0)
}

fn texts_into(n: &Node, out: &mut Vec<String>)
    ensures
        final(out).deep_view() == old(out).deep_view() + texts_node(n.deep_view()),
    decreases *n,
{
    match n {
        Node::Text(t) => {
            out.push(clone_string(t));
            proof {
                assert(out.deep_view() =~= old(out).deep_view() + texts_node(n.deep_view()));
            }
        },
        Node::Elem(e) => {
            texts_children_into(e, out);
        },
    }
}

fn texts_children_into(e: &Elem, out: &mut Vec<String>)
    ensures
        final(out).deep_view() == old(out).deep_view() + texts_nodes(e.deep_view().children, 0),
    decreases *e,
{
    let ghost ev = e.deep_view();
    let ghost base = out.deep_view();
    let mut i: usize = 0;
    while i < e.children.len()
        invariant
            i <= e.children@.len(),
            ev == e.deep_view(),
            out.deep_view() + texts_nodes(ev.children, i as int) == base + texts_nodes(
                ev.children,
                0,
            ),
        decreases e.children@.len() - i,
    {
        let ghost before = out.deep_view();
        texts_into(&e.children[i], out);
        proof {
            assert(ev.children[i as int] == e.children@[i as int].deep_view());
            assert(out.deep_view() + texts_nodes(ev.children, i + 1) =~= (before + texts_node(
                ev.children[i as int],
            )) + texts_nodes(ev.children, i + 1));
            assert((before + texts_node(ev.children[i as int])) + texts_nodes(ev.children, i + 1)
                =~= before + texts_nodes(ev.children, i as int));
        }
        i += 1;
    }
    proof {
        assert(texts_nodes(ev.children, e.children@.len() as int) =~= Seq::<Seq<char>>::empty());
        assert(out.deep_view() + Seq::<Seq<char>>::empty() =~= out.deep_view());
        assert(base =~= old(out).deep_view());
    }
}

/// The text fragments below an element, in document order.
pub fn collect_texts(e: &Elem) -> (r: Vec<String>)
    ensures
        r.deep_view() == spec_texts(e.deep_view()),
{
    let mut out: Vec<String> = Vec::new();
    proof {
        assert(out.deep_view() =~= Seq::<Seq<char>>::empty());
    }
    texts_children_into(e, &mut out);
    proof {
        assert(Seq::<Seq<char>>::empty() + texts_nodes(e.deep_view().children, 0) =~= texts_nodes(
            e.deep_view().children,
            0,
        ));
    }
    out
}

/// Joined text: the pieces in order, `sep` between each two.
pub open spec fn join_with(ts: Seq<Seq<char>>, sep: Seq<char>) -> Seq<char> {
    if ts.len() == 0 {
        Seq::empty()
    } else {
        ts[0] + join_rest(ts, sep, 1)
    }
}

pub open spec fn join_rest(ts: Seq<Seq<char>>, sep: Seq<char>, i: int) -> Seq<char>
    decreases ts.len() - i + 1,
{
    if i < 1 || i >= ts.len() {
        Seq::empty()
    } else {
        sep + ts[i] + join_rest(ts, sep, i + 1)
    }
}

/// Joins strings with a separator.
pub fn join_strings(ts: &Vec<String>, sep: &str) -> (r: String)
    ensures
        r@ == join_with(ts.deep_view(), sep@),
{
    let ghost tv = ts.deep_view();
    if ts.len() == 0 {
        return String::new();
    }
    let mut r = clone_string(&ts[0]);
    let mut i: usize = 1;
    while i < ts.len()
        invariant
            1 <= i <= ts@.len(),
            tv == ts.deep_view(),
            tv.len() == ts@.len(),
            r@ + join_rest(tv, sep@, i as int) == join_with(tv, sep@),
        decreases ts@.len() - i,
    {
        r.append(sep);
        r.append(ts[i].as_str());
        proof {
            assert(tv[i as int] == ts@[i as int]@);
            assert(join_rest(tv, sep@, i as int) =~= sep@ + tv[i as int] + join_rest(
                tv,
                sep@,
                i + 1,
            ));
        }
        i += 1;
    }
    proof {
        assert(join_rest(tv, sep@, ts@.len() as int) =~= Seq::<char>::empty());
        assert(r@ + Seq::<char>::empty() =~= r@);
    }
    r
}

/// The whole text below an element, fragments concatenated in order.
pub fn text_content(e: &Elem) -> (r: String)
    ensures
        r@ == join_with(spec_texts(e.deep_view()), Seq::empty()),
{
    let ts = collect_texts(e);
    proof {
        reveal_strlit("");
        assert(""@ =~= Seq::<char>::empty());
    }
    join_strings(&ts, "")
}

/// The element children of `cs[i..]`, in order, other nodes skipped.
pub open spec fn child_elems_from(cs: Seq<NodeV>, i: int) -> Seq<ElemV>
    decreases cs.len() - i + 1,
{
    if i < 0 || i >= cs.len() {
        Seq::empty()
    } else {
        (match cs[i] {
            NodeV::Elem(e) => seq![e],
            NodeV::Text(_) => Seq::empty(),
        }) + child_elems_from(cs, i + 1)
    }
}

/// The direct element children of an element.
pub open spec fn spec_child_elems(e: ElemV) -> Seq<ElemV> {
    child_elems_from(e.children, 0)
}

/// The direct element children of an element, copied out in order.
pub fn element_children(e: &Elem) -> (r: Vec<Elem>)
    ensures
        elems_view(r@) == spec_child_elems(e.deep_view()),
{
    let ghost ev = e.deep_view();
    let mut out: Vec<Elem> = Vec::new();
    let mut i: usize = 0;
    while i < e.children.len()
        invariant
            i <= e.children@.len(),
            ev == e.deep_view(),
            elems_view(out@) + child_elems_from(ev.children, i as int) == child_elems_from(
                ev.children,
                0,
            ),
        decreases e.children@.len() - i,
    {
        let ghost before = out@;
        let ghost step = match ev.children[i as int] {
            NodeV::Elem(x) => seq![x],
            NodeV::Text(_) => Seq::<ElemV>::empty(),
        };
        match &e.children[i] {
            Node::Elem(c) => {
                let copy = clone_elem(c);
                out.push(copy);
            },
            Node::Text(_) => {},
        }
        proof {
            assert(ev.children[i as int] == e.children@[i as int].deep_view());
            assert(elems_view(out@) =~= elems_view(before) + step);
            assert((elems_view(before) + step) + child_elems_from(ev.children, i + 1)
                =~= elems_view(before) + child_elems_from(ev.children, i as int));
            assert(elems_view(out@) + child_elems_from(ev.children, i + 1) =~= (elems_view(before)
                + step) + child_elems_from(ev.children, i + 1));
        }
        i += 1;
    }
    proof {
        assert(child_elems_from(ev.children, e.children@.len() as int) =~= Seq::<ElemV>::empty());
        assert(elems_view(out@) + Seq::<ElemV>::empty() =~= elems_view(out@));
    }
    out
}

} // verus!
