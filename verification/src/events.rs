use vstd::prelude::*;

verus! {

broadcast use vstd::std_specs::vec::group_vec_axioms;

use crate::dom::{Node, Elem, NodeV, ElemV, forest_view, clone_string, clone_attrs};

/// One step of a document traversal: an element opens (with its tag and
/// its attributes, which the document parser hands sorted by name), a
/// text fragment stands, or the innermost open element closes.
pub enum RawEvent {
    Open(String, Vec<(String, String)>),
    Text(String),
    Close,
}

/// Spec-level image of a `RawEvent`.
pub enum EventV {
    Open(Seq<char>, Seq<(Seq<char>, Seq<char>)>),
    Text(Seq<char>),
    Close,
}

impl RawEvent {
    pub open spec fn deep_view(self) -> EventV {
        match self {
            RawEvent::Open(tag, attrs) => EventV::Open(
                tag@,
                Seq::new(attrs@.len(), |i: int| (attrs@[i].0@, attrs@[i].1@)),
            ),
            RawEvent::Text(t) => EventV::Text(t@),
            RawEvent::Close => EventV::Close,
        }
    }
}

pub open spec fn events_view(es: Seq<RawEvent>) -> Seq<EventV> {
    Seq::new(es.len(), |i: int| es[i].deep_view())
}

/// The forest that an event stream builds, read from position `i` on:
/// nodes accumulate until a close or the end of the stream; an open
/// gathers what follows it, up to the matching close, into the children
/// of one element. The pair holds the forest and the position just after
/// what was consumed.
pub open spec fn spec_forest(evs: Seq<EventV>, i: int) -> (Seq<NodeV>, int)
    decreases evs.len() - i,
{
    if i < 0 || i >= evs.len() {
        (Seq::empty(), i)
    } else {
        match evs[i] {
            EventV::Close => (Seq::empty(), i + 1),
            EventV::Text(t) => {
                let rest = spec_forest(evs, i + 1);
                (seq![NodeV::Text(t)] + rest.0, rest.1)
            },
            EventV::Open(tag, attrs) => {
                let inner = spec_forest(evs, i + 1);
                let j = if i + 1 <= inner.1 <= evs.len() {
                    inner.1
                } else {
                    i + 1
                };
                let rest = spec_forest(evs, j);
                (seq![NodeV::Elem(ElemV { tag, attrs, children: inner.0 })] + rest.0, rest.1)
            },
        }
    }
}

/// The traversal position never moves backward, and stays in bounds.
pub proof fn lemma_spec_forest_bounds(evs: Seq<EventV>, i: int)
    requires
        0 <= i <= evs.len(),
    ensures
        i <= spec_forest(evs, i).1 <= evs.len(),
        i < evs.len() ==> i + 1 <= spec_forest(evs, i).1,
    decreases evs.len() - i,
{
    if 0 <= i < evs.len() {
        match evs[i] {
            EventV::Close => {},
            EventV::Text(_) => {
                lemma_spec_forest_bounds(evs, i + 1);
            },
            EventV::Open(_, _) => {
                lemma_spec_forest_bounds(evs, i + 1);
                let inner = spec_forest(evs, i + 1);
                let j = if i + 1 <= inner.1 <= evs.len() {
                    inner.1
                } else {
                    i + 1
                };
                lemma_spec_forest_bounds(evs, j);
            },
        }
    }
}

/// Builds the forest an event stream describes, from `from` on, exactly
/// as `spec_forest` describes it.
pub fn build_forest_from(evs: &Vec<RawEvent>, from: usize) -> (r: (Vec<Node>, usize))
    requires
        from <= evs@.len(),
    ensures
        forest_view(r.0@) == spec_forest(events_view(evs@), from as int).0,
        r.1 as int == spec_forest(events_view(evs@), from as int).1,
        from <= r.1 <= evs@.len(),
    decreases evs@.len() - from,
{
    let ghost ev = events_view(evs@);
    proof {
        lemma_spec_forest_bounds(ev, from as int);
    }
    let n = evs.len();
    let mut nodes: Vec<Node> = Vec::new();
    let mut j = from;
    proof {
        assert(forest_view(nodes@) =~= Seq::<NodeV>::empty());
        assert(Seq::<NodeV>::empty() + spec_forest(ev, from as int).0 =~= spec_forest(
            ev,
            from as int,
        ).0);
    }
    while j < n
        invariant
            from <= j <= n,
            n == evs@.len(),
            ev == events_view(evs@),
            spec_forest(ev, from as int).0 == forest_view(nodes@) + spec_forest(ev, j as int).0,
            spec_forest(ev, from as int).1 == spec_forest(ev, j as int).1,
        decreases n - j,
    {
        let ghost before = nodes@;
        proof {
            assert(ev[j as int] == evs@[j as int].deep_view());
        }
        match &evs[j] {
            RawEvent::Close => {
                proof {
                    assert(spec_forest(ev, j as int) == (Seq::<NodeV>::empty(), j + 1));
                    assert(forest_view(nodes@) + Seq::<NodeV>::empty() =~= forest_view(nodes@));
                }
                return (nodes, j + 1);
            },
            RawEvent::Text(t) => {
                let copy = clone_string(t);
                nodes.push(Node::Text(copy));
                proof {
                    let rest = spec_forest(ev, j + 1);
                    assert(forest_view(nodes@) =~= forest_view(before) + seq![
                        NodeV::Text(t@),
                    ]);
                    assert((forest_view(before) + seq![NodeV::Text(t@)]) + rest.0 =~= forest_view(
                        before,
                    ) + (seq![NodeV::Text(t@)] + rest.0));
                }
                j += 1;
            },
            RawEvent::Open(tag, attrs) => {
                let ghost inner = spec_forest(ev, j + 1);
                proof {
                    lemma_spec_forest_bounds(ev, j + 1);
                }
                let built = build_forest_from(evs, j + 1);
                let children = built.0;
                let k = built.1;
                let elem = Elem { tag: clone_string(tag), attrs: clone_attrs(attrs), children };
                let ghost ev_attrs = Seq::new(
                    attrs@.len(),
                    |i: int| (attrs@[i].0@, attrs@[i].1@),
                );
                proof {
                    assert(elem.deep_view().attrs =~= ev_attrs);
                    assert(elem.deep_view().children =~= inner.0);
                    assert(elem.deep_view() == ElemV {
                        tag: tag@,
                        attrs: ev_attrs,
                        children: inner.0,
                    });
                    let rest = spec_forest(ev, inner.1);
                    assert(spec_forest(ev, j as int).0 == seq![NodeV::Elem(elem.deep_view())]
                        + rest.0);
                    assert(spec_forest(ev, j as int).1 == rest.1);
                }
                nodes.push(Node::Elem(elem));
                proof {
                    let rest = spec_forest(ev, k as int);
                    assert(forest_view(nodes@) =~= forest_view(before).push(
                        nodes@[nodes@.len() - 1].deep_view(),
                    ));
                    assert((forest_view(before) + seq![nodes@[nodes@.len() - 1].deep_view()])
                        + rest.0 =~= forest_view(before) + (seq![
                        nodes@[nodes@.len() - 1].deep_view(),
                    ] + rest.0));
                    assert(forest_view(before).push(nodes@[nodes@.len() - 1].deep_view())
                        =~= forest_view(before) + seq![nodes@[nodes@.len() - 1].deep_view()]);
                }
                j = k;
            },
        }
    }
    proof {
        assert(spec_forest(ev, n as int).0 =~= Seq::<NodeV>::empty());
        assert(forest_view(nodes@) + Seq::<NodeV>::empty() =~= forest_view(nodes@));
    }
    (nodes, j)
}

/// Builds the whole forest of an event stream.
pub fn build_forest(evs: &Vec<RawEvent>) -> (r: Vec<Node>)
    ensures
        forest_view(r@) == spec_forest(events_view(evs@), 0).0,
{
    let built = build_forest_from(evs, 0);
    built.0
}

} // verus!
