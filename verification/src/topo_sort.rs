//! Topological ordering of the lowered types: any referenced user-defined
//! type must precede its user.  Cycles are detected and reported.

use vstd::prelude::*;
use vstd::string::{StrSliceExecFns, StringExecFns};
use crate::lir::LirFormat;
use crate::seq_view::view_seq;

verus! {

/// A failure of the topological sort.
#[derive(Debug, PartialEq)]
pub enum TopoSortError {
    /// The listed types depend on one another in a cycle.
    CircularDependency(String),
    /// A dependency names no node of the graph.
    UnknownType(String),
}

/// View of [`TopoSortError`].
#[verifier::ext_equal]
pub enum SpecTopoSortError {
    CircularDependency(Seq<char>),
    UnknownType(Seq<char>),
}

impl View for TopoSortError {
    type V = SpecTopoSortError;

    open spec fn view(&self) -> SpecTopoSortError {
        match self {
            TopoSortError::CircularDependency(s) => SpecTopoSortError::CircularDependency(s@),
            TopoSortError::UnknownType(s) => SpecTopoSortError::UnknownType(s@),
        }
    }
}

/// The human-readable message of a [`TopoSortError`].
pub open spec fn topo_error_text(e: SpecTopoSortError) -> Seq<char> {
    match e {
        SpecTopoSortError::CircularDependency(s) => {
            "Circular dependency detected involving type: "@ + s
        },
        SpecTopoSortError::UnknownType(s) => "Unknown type reference: "@ + s,
    }
}

impl TopoSortError {
    /// The human-readable message of this error.
    pub fn message(&self) -> (r: String)
        ensures
            r@ == topo_error_text(self@),
    {
        match self {
            TopoSortError::CircularDependency(s) => {
                let mut m = String::from_str("Circular dependency detected involving type: ");
                m.append(s.as_str());
                m
            },
            TopoSortError::UnknownType(s) => {
                let mut m = String::from_str("Unknown type reference: ");
                m.append(s.as_str());
                m
            },
        }
    }
}

// ------------------------------------------------------------------
// The dependency graph at the specification level
// ------------------------------------------------------------------

/// View of the dependency list: node name and dependency names.
pub open spec fn view_graph(s: Seq<(String, Vec<String>)>) -> Seq<(Seq<char>, Seq<Seq<char>>)> {
    s.map_values(|p: (String, Vec<String>)| (p.0@, view_seq(p.1@)))
}

/// The node names, in input order.
pub open spec fn graph_names(v: Seq<(Seq<char>, Seq<Seq<char>>)>) -> Seq<Seq<char>> {
    v.map_values(|p: (Seq<char>, Seq<Seq<char>>)| p.0)
}

/// No two nodes share a name.
pub open spec fn distinct_names(v: Seq<(Seq<char>, Seq<Seq<char>>)>) -> bool {
    forall|i: int, j: int|
        0 <= i < j < v.len() ==> graph_names(v)[i] != graph_names(v)[j]
}

/// The first node of the given name, searching from index `i`.
pub open spec fn find_name_model(
    v: Seq<(Seq<char>, Seq<Seq<char>>)>,
    name: Seq<char>,
    i: int,
) -> Option<int>
    decreases v.len() - i,
{
    if i < 0 || i >= v.len() {
        None
    } else if v[i].0 == name {
        Some(i)
    } else {
        find_name_model(v, name, i + 1)
    }
}

/// Whether a name names a node.
pub open spec fn is_node(v: Seq<(Seq<char>, Seq<Seq<char>>)>, name: Seq<char>) -> bool {
    find_name_model(v, name, 0) is Some
}

/// The first dependency name, in node order then dependency order, that
/// names no node; scanning starts at node `u`, dependency `j`.
pub open spec fn first_unknown_model(
    v: Seq<(Seq<char>, Seq<Seq<char>>)>,
    u: int,
    j: int,
) -> Option<Seq<char>>
    decreases v.len() - u, v[u].1.len() - j + 1,
{
    if u < 0 || u >= v.len() {
        None
    } else if j < 0 || j >= v[u].1.len() {
        first_unknown_model(v, u + 1, 0)
    } else if !is_node(v, v[u].1[j]) {
        Some(v[u].1[j])
    } else {
        first_unknown_model(v, u, j + 1)
    }
}

/// The comma-joined text of the first `k` parts.
pub open spec fn comma_join(parts: Seq<Seq<char>>, k: int) -> Seq<char>
    decreases k,
{
    if k <= 0 {
        Seq::empty()
    } else if k == 1 {
        parts[0]
    } else {
        comma_join(parts, k - 1) + ", "@ + parts[k - 1]
    }
}

/// Dependency `di` of the node named `ord[k]` stands earlier in the order
/// than position `k` (vacuously true where the indices are out of range or
/// the dependency is no node).
pub open spec fn order_respects_dep(
    v: Seq<(Seq<char>, Seq<Seq<char>>)>,
    ord: Seq<Seq<char>>,
    k: int,
    di: int,
) -> bool {
    match find_name_model(v, ord[k], 0) {
        Some(u) => (0 <= k < ord.len() && 0 <= di < v[u].1.len() && is_node(v, v[u].1[di]))
            ==> exists|k2: int| 0 <= k2 < k && ord[k2] == v[u].1[di],
        None => true,
    }
}

/// Dependency `di` of node `res[k]` is satisfied by an earlier entry of
/// the schedule `res`.
pub open spec fn dep_placed(
    v: Seq<(Seq<char>, Seq<Seq<char>>)>,
    res: Seq<usize>,
    k: int,
    di: int,
) -> bool {
    exists|k2: int| 0 <= k2 < k && v[#[trigger] res[k2] as int].0 == v[res[k] as int].1[di]
}

/// Some not-yet-done node earlier than `w` carries this name.
pub open spec fn undone_name(
    v: Seq<(Seq<char>, Seq<Seq<char>>)>,
    done: Seq<bool>,
    w: int,
    name: Seq<char>,
) -> bool {
    exists|x: int| 0 <= x < w && !done[x] && name == v[x].0
}

/// The name appears somewhere in the order.
pub open spec fn appears(ord: Seq<Seq<char>>, name: Seq<char>) -> bool {
    exists|k: int| 0 <= k < ord.len() && ord[k] == name
}

/// A correct output order for the graph: every node once, and every
/// dependency of a node placed before the node.
pub open spec fn valid_order(
    v: Seq<(Seq<char>, Seq<Seq<char>>)>,
    ord: Seq<Seq<char>>,
) -> bool {
    &&& ord.len() == v.len()
    &&& (forall|k: int| 0 <= k < ord.len() ==> is_node(v, #[trigger] ord[k]))
    &&& (forall|u: int| 0 <= u < v.len() ==> appears(ord, #[trigger] graph_names(v)[u]))
    &&& (forall|k1: int, k2: int| 0 <= k1 < k2 < ord.len() ==> ord[k1] != ord[k2])
    &&& (forall|k: int, di: int| order_respects_dep(v, ord, k, di))
}

/// Member `m` of the set is a node one of whose dependencies lies in the
/// set itself.
pub open spec fn stuck_member(
    v: Seq<(Seq<char>, Seq<Seq<char>>)>,
    bad: Seq<Seq<char>>,
    m: int,
) -> bool {
    match find_name_model(v, bad[m], 0) {
        Some(u) => exists|di: int| 0 <= di < v[u].1.len() && bad.contains(v[u].1[di]),
        None => false,
    }
}

/// A witness of a cycle: a nonempty set of node names, each of which has a
/// dependency inside the set.  In a finite graph such a set always
/// contains a cycle.
pub open spec fn stuck_set(
    v: Seq<(Seq<char>, Seq<Seq<char>>)>,
    bad: Seq<Seq<char>>,
) -> bool {
    &&& bad.len() > 0
    &&& (forall|m: int| 0 <= m < bad.len() ==> stuck_member(v, bad, m))
}

// ------------------------------------------------------------------
// Executable graph helpers
// ------------------------------------------------------------------

fn find_name(nodes: &Vec<(String, Vec<String>)>, name: &String) -> (r: Option<usize>)
    ensures
        match find_name_model(view_graph(nodes@), name@, 0) {
            Some(u) => r matches Some(x) && x as int == u,
            None => r is None,
        },
{
    proof {
        assert(view_graph(nodes@).len() == nodes@.len());
    }
    let mut i: usize = 0;
    while i < nodes.len()
        invariant
            i <= nodes@.len(),
            view_graph(nodes@).len() == nodes@.len(),
            find_name_model(view_graph(nodes@), name@, 0) == find_name_model(
                view_graph(nodes@),
                name@,
                i as int,
            ),
        decreases nodes@.len() - i,
    {
        proof {
            assert(view_graph(nodes@)[i as int] == (nodes@[i as int].0@, view_seq(
                nodes@[i as int].1@,
            )));
        }
        if crate::strutil::str_eq(nodes[i].0.as_str(), name.as_str()) {
            return Some(i);
        }
        i += 1;
    }
    None
}

/// With distinct names the first node named `v[u].0` is `u` itself.
proof fn lemma_find_self(v: Seq<(Seq<char>, Seq<Seq<char>>)>, u: int)
    requires
        distinct_names(v),
        0 <= u < v.len(),
    ensures
        find_name_model(v, v[u].0, 0) == Some(u),
    decreases v.len(),
{
    lemma_find_self_from(v, u, 0);
}

proof fn lemma_find_self_from(v: Seq<(Seq<char>, Seq<Seq<char>>)>, u: int, i: int)
    requires
        distinct_names(v),
        0 <= i <= u < v.len(),
    ensures
        find_name_model(v, v[u].0, i) == Some(u),
    decreases u - i,
{
    assert(graph_names(v)[u] == v[u].0);
    if i < u {
        assert(graph_names(v)[i] == v[i].0);
        lemma_find_self_from(v, u, i + 1);
    }
}

/// Whatever `find_name_model` returns is a node of that name.
proof fn lemma_find_found(v: Seq<(Seq<char>, Seq<Seq<char>>)>, name: Seq<char>, i: int)
    requires
        find_name_model(v, name, i) is Some,
    ensures
        ({
            let u = find_name_model(v, name, i)->0;
            0 <= u < v.len() && v[u].0 == name
        }),
    decreases v.len() - i,
{
    if !(i < 0 || i >= v.len()) {
        if v[i].0 == name {
        } else {
            lemma_find_found(v, name, i + 1);
        }
    }
}

} // verus!
verus! {

/// Dependency `b` of node `u` resolves to a node that is already done.
pub open spec fn dep_done(
    v: Seq<(Seq<char>, Seq<Seq<char>>)>,
    done: Seq<bool>,
    u: int,
    b: int,
) -> bool {
    match find_name_model(v, v[u].1[b], 0) {
        Some(x) => done[x],
        None => true,
    }
}

/// Node `u` has a dependency whose node is not yet done.
pub open spec fn has_undone_dep(
    v: Seq<(Seq<char>, Seq<Seq<char>>)>,
    done: Seq<bool>,
    u: int,
) -> bool {
    exists|b: int| 0 <= b < v[u].1.len() && !dep_done(v, done, u, b)
}

proof fn lemma_pigeonhole_full(s: Seq<int>, n: int)
    requires
        n >= 0,
        s.len() == n,
        s.no_duplicates(),
        forall|k: int| 0 <= k < s.len() ==> 0 <= #[trigger] s[k] < n,
    ensures
        forall|x: int| 0 <= x < n ==> s.contains(x),
{
    broadcast use vstd::set::group_set_axioms;

    s.unique_seq_to_set();
    vstd::set_lib::lemma_int_range(0, n);
    assert forall|x: int| 0 <= x < n implies s.contains(x) by {
        if !s.contains(x) {
            let sset = s.to_set();
            let range = vstd::set_lib::set_int_range(0, n);
            assert(sset.subset_of(range.remove(x)));
            assert(range.remove(x).len() == n - 1);
            vstd::set_lib::lemma_len_subset(sset, range.remove(x));
            assert(false);
        }
    };
}

proof fn lemma_pigeonhole_onto(s: Seq<int>, n: int)
    requires
        n >= 0,
        forall|x: int| 0 <= x < n ==> s.contains(x),
    ensures
        s.len() >= n,
{
    broadcast use vstd::set::group_set_axioms;

    vstd::set_lib::lemma_int_range(0, n);
    let range = vstd::set_lib::set_int_range(0, n);
    assert(range.subset_of(s.to_set()));
    vstd::set_lib::lemma_len_subset(range, s.to_set());
    s.lemma_cardinality_of_set();
}

proof fn lemma_stuck(
    v: Seq<(Seq<char>, Seq<Seq<char>>)>,
    done: Seq<bool>,
    bad: Seq<Seq<char>>,
    n: int,
)
    requires
        distinct_names(v),
        v.len() == n,
        done.len() == n,
        forall|a: int, b: int|
            0 <= a < n && 0 <= b < v[a].1.len() ==> is_node(v, #[trigger] v[a].1[b]),
        forall|x: int| 0 <= x < n ==> done[x] || has_undone_dep(v, done, x),
        forall|m: int| 0 <= m < bad.len() ==> undone_name(v, done, n, #[trigger] bad[m]),
        forall|x: int| 0 <= x < n && !done[x] ==> bad.contains(v[x].0),
    ensures
        forall|m: int| 0 <= m < bad.len() ==> stuck_member(v, bad, m),
{
    assert forall|m: int| 0 <= m < bad.len() implies stuck_member(v, bad, m) by {
        assert(undone_name(v, done, n, bad[m]));
        let x = choose|x: int| 0 <= x < n && !done[x] && bad[m] == v[x].0;
        lemma_find_self_weak(v, x);
        assert(has_undone_dep(v, done, x));
        let b = choose|b: int| 0 <= b < v[x].1.len() && !dep_done(v, done, x, b);
        assert(is_node(v, v[x].1[b]));
        let y = find_name_model(v, v[x].1[b], 0)->0;
        lemma_find_found(v, v[x].1[b], 0);
        assert(!done[y]);
        assert(bad.contains(v[y].0));
        assert(v[y].0 == v[x].1[b]);
        assert(find_name_model(v, bad[m], 0) is Some);
        let u = find_name_model(v, bad[m], 0)->0;
        lemma_find_found(v, bad[m], 0);
        assert(v[u].0 == v[x].0);
        assert(exists|di: int| 0 <= di < v[u].1.len() && bad.contains(v[u].1[di])) by {
            assert(0 <= b < v[u].1.len() && bad.contains(v[u].1[b])) by {
                assert(v[u].1 == v[x].1) by {
                    lemma_same_name_same_node(v, u, x);
                }
            }
        }
    };
}

/// The first node found under a node's own name carries that name, so two
/// nodes the search cannot tell apart are equal where names are distinct.
proof fn lemma_same_name_same_node(v: Seq<(Seq<char>, Seq<Seq<char>>)>, u: int, x: int)
    requires
        0 <= u < v.len(),
        0 <= x < v.len(),
        v[u].0 == v[x].0,
        distinct_names(v),
    ensures
        u == x,
{
    if u != x {
        assert(graph_names(v)[u] == v[u].0);
        assert(graph_names(v)[x] == v[x].0);
    }
}

/// `lemma_find_self` without the distinctness hypothesis stated at the
/// call site; resolves a node's own name to a node of the same name.
proof fn lemma_find_self_weak(v: Seq<(Seq<char>, Seq<Seq<char>>)>, x: int)
    requires
        0 <= x < v.len(),
    ensures
        is_node(v, v[x].0),
{
    lemma_find_some_from(v, v[x].0, 0, x);
}

proof fn lemma_find_some_from(v: Seq<(Seq<char>, Seq<Seq<char>>)>, name: Seq<char>, i: int, x: int)
    requires
        0 <= i <= x < v.len(),
        v[x].0 == name,
    ensures
        find_name_model(v, name, i) is Some,
    decreases x - i,
{
    if v[i].0 == name {
    } else {
        lemma_find_some_from(v, name, i + 1, x);
    }
}

proof fn lemma_build_order(
    v: Seq<(Seq<char>, Seq<Seq<char>>)>,
    res: Seq<usize>,
    ord: Seq<Seq<char>>,
    n: int,
)
    requires
        distinct_names(v),
        v.len() == n,
        res.len() == n,
        ord.len() == n,
        forall|q: int| 0 <= q < n ==> #[trigger] ord[q] == v[res[q] as int].0,
        forall|k1: int, k2: int| 0 <= k1 < k2 < n ==> res[k1] != res[k2],
        forall|k: int| 0 <= k < n ==> #[trigger] res[k] < n,
        forall|k: int, di: int|
            0 <= k < n && 0 <= di < v[res[k] as int].1.len() ==> #[trigger] dep_placed(
                v,
                res,
                k,
                di,
            ),
    ensures
        valid_order(v, ord),
{
    let ivals = crate::lir::view_vars(res);
    assert(ivals.len() == n);
    assert(ivals.no_duplicates()) by {
        assert forall|k1: int, k2: int|
            0 <= k1 < ivals.len() && 0 <= k2 < ivals.len() && k1 != k2 implies ivals[k1]
            != ivals[k2] by {};
    };
    assert forall|k1: int| 0 <= k1 < ivals.len() implies 0 <= #[trigger] ivals[k1] < n by {};
    lemma_pigeonhole_full(ivals, n);
    assert forall|q: int| 0 <= q < ord.len() implies is_node(v, #[trigger] ord[q]) by {
        lemma_find_self(v, res[q] as int);
    };
    assert forall|u: int| 0 <= u < v.len() implies appears(
        ord,
        #[trigger] graph_names(v)[u],
    ) by {
        assert(ivals.contains(u));
        let q = choose|q: int| 0 <= q < ivals.len() && ivals[q] == u;
        assert(ord[q] == v[u].0);
        assert(graph_names(v)[u] == v[u].0);
        assert(0 <= q < ord.len() && ord[q] == graph_names(v)[u]);
    };
    assert forall|q1: int, q2: int| 0 <= q1 < q2 < ord.len() implies ord[q1] != ord[q2] by {
        assert(graph_names(v)[res[q1] as int] == v[res[q1] as int].0);
        assert(graph_names(v)[res[q2] as int] == v[res[q2] as int].0);
    };
    assert forall|q: int, di: int| order_respects_dep(v, ord, q, di) by {
        if 0 <= q < ord.len() {
            lemma_find_self(v, res[q] as int);
            if 0 <= di < v[res[q] as int].1.len() {
                let dep = v[res[q] as int].1[di];
                assert(dep_placed(v, res, q, di));
                let k2 = choose|k2: int|
                    0 <= k2 < q && v[#[trigger] res[k2] as int].0 == v[res[q] as int].1[di];
                assert(ord[k2] == v[res[k2] as int].0);
            }
        }
    };
}

/// The names are picked from the graph at strictly increasing indices:
/// a subsequence of the node names, in input order.
pub open spec fn selection_by(
    v: Seq<(Seq<char>, Seq<Seq<char>>)>,
    bad: Seq<Seq<char>>,
    idxs: Seq<int>,
) -> bool {
    &&& idxs.len() == bad.len()
    &&& (forall|m: int|
        0 <= m < idxs.len() ==> 0 <= #[trigger] idxs[m] < v.len() && bad[m] == v[idxs[m]].0)
    &&& (forall|m1: int, m2: int| 0 <= m1 < m2 < idxs.len() ==> idxs[m1] < idxs[m2])
}

/// The names list a subset of the node names, in input order.
pub open spec fn name_selection(
    v: Seq<(Seq<char>, Seq<Seq<char>>)>,
    bad: Seq<Seq<char>>,
) -> bool {
    exists|idxs: Seq<int>| selection_by(v, bad, idxs)
}

/// Every dependency of every scheduled node is placed earlier in the
/// schedule, and every scheduled index is a node.
pub open spec fn schedule_wf(v: Seq<(Seq<char>, Seq<Seq<char>>)>, res: Seq<usize>) -> bool {
    &&& (forall|q: int| 0 <= q < res.len() ==> #[trigger] res[q] < v.len())
    &&& (forall|q: int, di: int|
        #![trigger v[res[q] as int].1[di]]
        0 <= q < res.len() && 0 <= di < v[res[q] as int].1.len() ==> dep_placed(v, res, q, di))
}

/// No member of a stuck set is ever scheduled: the dependency placed
/// before each scheduled node would have to be an earlier scheduled
/// member of the set, without end.
proof fn lemma_stuck_absent(
    v: Seq<(Seq<char>, Seq<Seq<char>>)>,
    res: Seq<usize>,
    s2: Seq<Seq<char>>,
    k: int,
)
    requires
        distinct_names(v),
        stuck_set(v, s2),
        schedule_wf(v, res),
        0 <= k <= res.len(),
    ensures
        forall|q: int| 0 <= q < k ==> !s2.contains(v[#[trigger] res[q] as int].0),
    decreases k,
{
    if k > 0 {
        lemma_stuck_absent(v, res, s2, k - 1);
        let u = res[k - 1] as int;
        if s2.contains(v[u].0) {
            let m = choose|m: int| 0 <= m < s2.len() && s2[m] == v[u].0;
            assert(stuck_member(v, s2, m));
            let u2 = find_name_model(v, s2[m], 0)->0;
            lemma_find_found(v, s2[m], 0);
            lemma_same_name_same_node(v, u2, u);
            let di = choose|di: int| 0 <= di < v[u].1.len() && s2.contains(v[u].1[di]);
            assert(dep_placed(v, res, k - 1, di));
            let q2 = choose|q2: int|
                0 <= q2 < k - 1 && v[#[trigger] res[q2] as int].0 == v[u].1[di];
            assert(s2.contains(v[res[q2] as int].0));
            assert(false);
        }
    }
}

/// Kahn's algorithm on a dependency list with pairwise distinct node
/// names.  A returned order lists every node exactly once, with every
/// dependency of a node placed before the node.  A dependency naming no
/// node yields `UnknownType`; otherwise, when no progress can be made, the
/// remaining nodes — each depending on another remaining node — are
/// reported as a `CircularDependency`, comma-joined in input order.
#[verifier::loop_isolation(false)]
#[verifier::rlimit(100)]
pub fn kahn_sort(nodes: &Vec<(String, Vec<String>)>) -> (r: Result<Vec<String>, TopoSortError>)
    requires
        distinct_names(view_graph(nodes@)),
    ensures
        ({
            let v = view_graph(nodes@);
            match r {
                Ok(order) => valid_order(v, view_seq(order@)),
                Err(e) => match e@ {
                    SpecTopoSortError::UnknownType(d) => first_unknown_model(v, 0, 0) == Some(d),
                    SpecTopoSortError::CircularDependency(t) => {
                        &&& first_unknown_model(v, 0, 0) is None
                        &&& exists|bad: Seq<Seq<char>>|
                            {
                                &&& stuck_set(v, bad)
                                &&& name_selection(v, bad)
                                &&& (forall|m1: int, m2: int|
                                    0 <= m1 < m2 < bad.len() ==> bad[m1] != bad[m2])
                                &&& (forall|s2: Seq<Seq<char>>, m: int|
                                    #![trigger stuck_set(v, s2), s2[m]]
                                    stuck_set(v, s2) && 0 <= m < s2.len() ==> bad.contains(
                                        s2[m],
                                    ))
                                &&& t == comma_join(bad, bad.len() as int)
                            }
                    },
                },
            }
        }),
{
    let ghost v = view_graph(nodes@);
    proof {
        assert(v.len() == nodes@.len());
        assert forall|a: int| 0 <= a < v.len() implies v[a] == (
            nodes@[a].0@,
            view_seq(nodes@[a].1@),
        ) by {}
    }
    let n = nodes.len();
    let mut u: usize = 0;
    while u < n
        invariant
            u <= n,
            first_unknown_model(v, 0, 0) == first_unknown_model(v, u as int, 0),
            forall|a: int, b: int|
                0 <= a < u && 0 <= b < v[a].1.len() ==> is_node(v, #[trigger] v[a].1[b]),
        decreases n - u,
    {
        let deps = &nodes[u].1;
        proof {
            assert(v[u as int].1 == view_seq(deps@));
            assert(v[u as int].1.len() == deps@.len());
        }
        let mut j: usize = 0;
        while j < deps.len()
            invariant
                j <= deps@.len(),
                first_unknown_model(v, 0, 0) == first_unknown_model(v, u as int, j as int),
                forall|b: int| 0 <= b < j ==> is_node(v, #[trigger] v[u as int].1[b]),
            decreases deps@.len() - j,
        {
            proof {
                crate::seq_view::lemma_view_seq_index(deps@, j as int);
            }
            match find_name(nodes, &deps[j]) {
                Some(_) => {},
                None => {
                    return Err(TopoSortError::UnknownType(deps[j].clone()));
                },
            }
            j += 1;
        }
        u += 1;
    }
    proof {
        assert(first_unknown_model(v, 0, 0) is None);
    }
    let mut done: Vec<bool> = Vec::new();
    let mut t: usize = 0;
    while t < n
        invariant
            t <= n,
            done@.len() == t,
            forall|x: int| 0 <= x < t ==> !done@[x],
        decreases n - t,
    {
        done.push(false);
        t += 1;
    }
    let mut result: Vec<usize> = Vec::new();
    while result.len() < n
        invariant
            done@.len() == n,
            result@.len() <= n,
            forall|k1: int, k2: int| 0 <= k1 < k2 < result@.len() ==> result@[k1] != result@[k2],
            forall|k: int| 0 <= k < result@.len() ==> #[trigger] result@[k] < n,
            forall|x: int|
                0 <= x < n ==> (done@[x] <==> exists|k: int|
                    0 <= k < result@.len() && result@[k] == x),
            forall|k: int, di: int|
                0 <= k < result@.len() && 0 <= di < v[result@[k] as int].1.len()
                    ==> #[trigger] dep_placed(v, result@, k, di),
        decreases n - result@.len(),
    {
        let mut cand: usize = 0;
        let mut found: bool = false;
        while cand < n && !found
            invariant
                cand <= n,
                found ==> cand < n && !done@[cand as int] && forall|b: int|
                    0 <= b < v[cand as int].1.len() ==> dep_done(v, done@, cand as int, b),
                !found ==> forall|x: int|
                    0 <= x < cand ==> done@[x] || has_undone_dep(v, done@, x),
            decreases n - cand, (if found { 0int } else { 1int }),
        {
            if !done[cand] {
                let deps = &nodes[cand].1;
                proof {
                    assert(v[cand as int].1 == view_seq(deps@));
                }
                let mut dj: usize = 0;
                let mut ok: bool = true;
                while dj < deps.len() && ok
                    invariant
                        dj <= deps@.len(),
                        ok ==> forall|b: int| 0 <= b < dj ==> dep_done(v, done@, cand as int, b),
                        !ok ==> has_undone_dep(v, done@, cand as int),
                    decreases deps@.len() - dj, (if ok { 1int } else { 0int }),
                {
                    proof {
                        crate::seq_view::lemma_view_seq_index(deps@, dj as int);
                    }
                    match find_name(nodes, &deps[dj]) {
                        Some(x) => {
                            proof {
                                lemma_find_found(v, v[cand as int].1[dj as int], 0);
                            }
                            if !done[x] {
                                proof {
                                    assert(!dep_done(v, done@, cand as int, dj as int));
                                    assert(has_undone_dep(v, done@, cand as int));
                                }
                                ok = false;
                            } else {
                                dj += 1;
                            }
                        },
                        None => {
                            proof {
                                assert(is_node(v, v[cand as int].1[dj as int]));
                                assert(false);
                            }
                            return Err(TopoSortError::UnknownType(deps[dj].clone()));
                        },
                    }
                }
                if ok {
                    found = true;
                } else {
                    cand += 1;
                }
            } else {
                cand += 1;
            }
        }
        if found {
            let ghost res0 = result@;
            let ghost done0 = done@;
            done.set(cand, true);
            result.push(cand);
            proof {
                assert(result@ == res0.push(cand));
                assert(done@ == done0.update(cand as int, true));
                assert forall|k: int, di: int|
                    0 <= k < result@.len() && 0 <= di < v[result@[k] as int].1.len()
                    implies #[trigger] dep_placed(v, result@, k, di) by {
                    if k < res0.len() {
                        assert(result@[k] == res0[k]);
                        assert(v[res0[k] as int].1[di] == v[result@[k] as int].1[di]);
                        assert(dep_placed(v, res0, k, di));
                        let k2 = choose|k2: int|
                            0 <= k2 < k && v[#[trigger] res0[k2] as int].0 == v[
                                res0[k] as int
                            ].1[di];
                        assert(result@[k2] == res0[k2]);
                        assert(0 <= k2 < k && v[result@[k2] as int].0 == v[
                            result@[k] as int
                        ].1[di]);
                        assert(dep_placed(v, result@, k, di));
                    } else {
                        assert(result@[k] == cand);
                        assert(dep_done(v, done0, cand as int, di));
                        lemma_find_found(v, v[cand as int].1[di], 0);
                        let x = find_name_model(v, v[cand as int].1[di], 0)->0;
                        assert(0 <= x < v.len());
                        assert(done0[x]);
                        assert(exists|k2: int| 0 <= k2 < res0.len() && res0[k2] == x);
                        let k2 = choose|k2: int| 0 <= k2 < res0.len() && res0[k2] == x;
                        assert(result@[k2] == res0[k2]);
                        assert(v[result@[k2] as int].0 == v[cand as int].1[di]);
                        assert(0 <= k2 < k && v[result@[k2] as int].0 == v[
                            result@[k] as int
                        ].1[di]);
                        assert(dep_placed(v, result@, k, di));
                    }
                };
                assert forall|x: int|
                    0 <= x < n implies (done@[x] <==> exists|k: int|
                    0 <= k < result@.len() && result@[k] == x) by {
                    if x == cand as int {
                        assert(result@[result@.len() - 1] == cand);
                    } else {
                        assert(done@[x] == done0[x]);
                        if done0[x] {
                            let k = choose|k: int| 0 <= k < res0.len() && res0[k] == x;
                            assert(result@[k] == x);
                        }
                        if exists|k: int| 0 <= k < result@.len() && result@[k] == x {
                            let k = choose|k: int| 0 <= k < result@.len() && result@[k] == x;
                            assert(k < res0.len());
                            assert(res0[k] == x);
                        }
                    }
                };
            }
        } else {
            let mut undone: Vec<String> = Vec::new();
            let ghost mut gidx: Seq<int> = Seq::empty();
            let mut w: usize = 0;
            while w < n
                invariant
                    w <= n,
                    selection_by(v, view_seq(undone@), gidx),
                    forall|m: int| 0 <= m < gidx.len() ==> #[trigger] gidx[m] < w,
                    forall|m: int|
                        0 <= m < view_seq(undone@).len() ==> undone_name(
                            v,
                            done@,
                            w as int,
                            #[trigger] view_seq(undone@)[m],
                        ),
                    forall|x: int|
                        0 <= x < w && !done@[x] ==> view_seq(undone@).contains(v[x].0),
                decreases n - w,
            {
                if !done[w] {
                    let nm = nodes[w].0.clone();
                    let ghost u0 = view_seq(undone@);
                    proof {
                        crate::seq_view::lemma_view_seq_push_any(undone@, nm);
                    }
                    undone.push(nm);
                    proof {
                        gidx = gidx.push(w as int);
                        assert(view_seq(undone@) == u0.push(nm@));
                        assert(selection_by(v, view_seq(undone@), gidx)) by {
                            assert(view_seq(undone@).len() == u0.len() + 1);
                            assert(gidx[gidx.len() - 1] == w as int);
                            assert(view_seq(undone@)[gidx.len() - 1] == nm@);
                            assert(nm@ == v[w as int].0);
                        };
                        assert forall|m: int|
                            0 <= m < view_seq(undone@).len() implies undone_name(
                            v,
                            done@,
                            w + 1 as int,
                            #[trigger] view_seq(undone@)[m],
                        ) by {
                            if m < u0.len() {
                                assert(view_seq(undone@)[m] == u0[m]);
                                assert(undone_name(v, done@, w as int, u0[m]));
                                let x = choose|x: int|
                                    0 <= x < w && !done@[x] && u0[m] == v[x].0;
                                assert(0 <= x < w + 1 && !done@[x] && view_seq(undone@)[m] == v[
                                    x
                                ].0);
                                assert(undone_name(v, done@, w + 1 as int, view_seq(undone@)[m]));
                            } else {
                                assert(view_seq(undone@)[m] == nm@);
                                assert(0 <= w < w + 1 && !done@[w as int] && view_seq(
                                    undone@,
                                )[m] == v[w as int].0);
                                assert(undone_name(v, done@, w + 1 as int, view_seq(undone@)[m]));
                            }
                        };
                        assert forall|x: int|
                            0 <= x < w + 1 && !done@[x] implies view_seq(undone@).contains(
                            v[x].0,
                        ) by {
                            if x < w {
                                let m = choose|m: int| 0 <= m < u0.len() && u0[m] == v[x].0;
                                assert(view_seq(undone@)[m] == v[x].0);
                            } else {
                                assert(view_seq(undone@)[u0.len() as int] == v[x].0);
                            }
                        };
                    }
                }
                w += 1;
            }
            proof {
                if forall|x: int| 0 <= x < n ==> done@[x] {
                    let ivals = crate::lir::view_vars(result@);
                    assert(ivals.len() == result@.len());
                    assert forall|x: int| 0 <= x < n implies ivals.contains(x) by {
                        assert(done@[x]);
                        let k = choose|k: int|
                            0 <= k < result@.len() && result@[k] == x;
                        assert(ivals[k] == x);
                    };
                    lemma_pigeonhole_onto(ivals, n as int);
                    assert(false);
                }
                let x0 = choose|x: int| 0 <= x < n && !done@[x];
                assert(view_seq(undone@).contains(v[x0].0));
                assert(view_seq(undone@).len() > 0);
            }
            let ghost bad = view_seq(undone@);
            proof {
                lemma_stuck(v, done@, bad, n as int);
                assert(stuck_set(v, bad));
                assert(name_selection(v, bad)) by {
                    assert(selection_by(v, bad, gidx));
                };
                assert forall|m1: int, m2: int|
                    0 <= m1 < m2 < bad.len() implies bad[m1] != bad[m2] by {
                    assert(graph_names(v)[gidx[m1]] == v[gidx[m1]].0);
                    assert(graph_names(v)[gidx[m2]] == v[gidx[m2]].0);
                };
                assert forall|s2: Seq<Seq<char>>, m: int|
                    #![trigger stuck_set(v, s2), s2[m]]
                    stuck_set(v, s2) && 0 <= m < s2.len() implies bad.contains(s2[m]) by {
                    assert(stuck_member(v, s2, m));
                    let u = find_name_model(v, s2[m], 0)->0;
                    lemma_find_found(v, s2[m], 0);
                    if done@[u] {
                        let k = choose|k: int| 0 <= k < result@.len() && result@[k] == u;
                        lemma_stuck_absent(v, result@, s2, result@.len() as int);
                        assert(!s2.contains(v[result@[k] as int].0));
                        assert(s2[m] == v[u].0);
                        assert(false);
                    }
                    assert(bad.contains(v[u].0));
                };
            }
            let mut msg = String::new();
            let mut m: usize = 0;
            while m < undone.len()
                invariant
                    m <= undone@.len(),
                    msg@ == comma_join(bad, m as int),
                decreases undone@.len() - m,
            {
                if m > 0 {
                    msg.append(", ");
                }
                msg.append(undone[m].as_str());
                proof {
                    crate::seq_view::lemma_view_seq_index(undone@, m as int);
                    assert(msg@ =~= comma_join(bad, m + 1 as int));
                }
                m += 1;
            }
            proof {
                assert(comma_join(bad, bad.len() as int) == msg@);
            }
            return Err(TopoSortError::CircularDependency(msg));
        }
    }
    let mut order: Vec<String> = Vec::new();
    let mut k: usize = 0;
    while k < n
        invariant
            k <= n,
            order@.len() == k,
            forall|q: int| 0 <= q < k ==> #[trigger] view_seq(order@)[q] == v[result@[q] as int].0,
        decreases n - k,
    {
        let nm = nodes[result[k]].0.clone();
        proof {
            crate::seq_view::lemma_view_seq_push_any(order@, nm);
        }
        order.push(nm);
        k += 1;
    }
    let ghost ord = view_seq(order@);
    proof {
        lemma_build_order(v, result@, ord, n as int);
    }
    Ok(order)
}

} // verus!
verus! {

/// The position of the first `[` in the text, or the length.
pub open spec fn first_bracket(s: Seq<char>, i: int) -> int
    decreases s.len() - i,
{
    if i < 0 || i >= s.len() {
        s.len() as int
    } else if s[i] == '[' {
        i
    } else {
        first_bracket(s, i + 1)
    }
}

/// The text of a field type up to its first `[`: the base type an LIR
/// field refers to.
pub open spec fn base_of(s: Seq<char>) -> Seq<char> {
    s.take(first_bracket(s, 0))
}

fn extract_base_type(type_str: &str) -> (r: String)
    ensures
        r@ == base_of(type_str@),
{
    let chars = crate::strutil::chars_of(type_str);
    let mut prefix: Vec<char> = Vec::new();
    let mut i: usize = 0;
    while i < chars.len()
        invariant
            i <= chars@.len(),
            chars@ == type_str@,
            prefix@ == type_str@.subrange(0, i as int),
            first_bracket(type_str@, 0) == first_bracket(type_str@, i as int),
        decreases chars@.len() - i,
    {
        if chars[i] == '[' {
            proof {
                assert(prefix@ =~= base_of(type_str@));
            }
            return crate::strutil::string_from_chars(&prefix);
        }
        prefix.push(chars[i]);
        proof {
            assert(prefix@ =~= type_str@.subrange(0, i + 1 as int));
        }
        i += 1;
    }
    proof {
        assert(prefix@ =~= base_of(type_str@));
    }
    crate::strutil::string_from_chars(&prefix)
}

/// Every referenced base type stands earlier in the type list than its
/// user.
pub open spec fn topo_ordered(types: Seq<crate::lir::SpecLirType>) -> bool {
    forall|ka: int, fi: int, kb: int|
        #![trigger types[ka].fields[fi], types[kb].name]
        0 <= ka < types.len() && 0 <= fi < types[ka].fields.len() && 0 <= kb < types.len()
            && types[kb].name == base_of(types[ka].fields[fi].type_info) ==> kb < ka
            || kb == ka
}

/// Member `m` of the set is the name of a type one of whose fields has
/// its base type inside the set itself.
pub open spec fn type_stuck_member(
    types: Seq<crate::lir::SpecLirType>,
    bad: Seq<Seq<char>>,
    m: int,
) -> bool {
    exists|k: int, fi: int|
        #![trigger types[k].fields[fi]]
        0 <= k < types.len() && types[k].name == bad[m] && 0 <= fi < types[k].fields.len()
            && bad.contains(base_of(types[k].fields[fi].type_info))
}

/// A witness of a reference cycle among the types: a nonempty set of type
/// names, each of which references a type inside the set.  In a finite
/// format such a set always contains a cycle.
pub open spec fn type_stuck_set(
    types: Seq<crate::lir::SpecLirType>,
    bad: Seq<Seq<char>>,
) -> bool {
    &&& bad.len() > 0
    &&& forall|m: int| 0 <= m < bad.len() ==> type_stuck_member(types, bad, m)
}

/// The names are picked from the type list at strictly increasing
/// indices: a subsequence of the type names, in declaration order.
pub open spec fn type_selection_by(
    types: Seq<crate::lir::SpecLirType>,
    bad: Seq<Seq<char>>,
    idxs: Seq<int>,
) -> bool {
    &&& idxs.len() == bad.len()
    &&& (forall|m: int|
        0 <= m < idxs.len() ==> 0 <= #[trigger] idxs[m] < types.len() && bad[m] == types[
            idxs[m]
        ].name)
    &&& (forall|m1: int, m2: int| 0 <= m1 < m2 < idxs.len() ==> idxs[m1] < idxs[m2])
}

/// The names list a subset of the type names, in declaration order.
pub open spec fn type_name_selection(
    types: Seq<crate::lir::SpecLirType>,
    bad: Seq<Seq<char>>,
) -> bool {
    exists|idxs: Seq<int>| type_selection_by(types, bad, idxs)
}

proof fn lemma_no_unknown(v: Seq<(Seq<char>, Seq<Seq<char>>)>, u: int, j: int)
    requires
        forall|a: int, b: int|
            0 <= a < v.len() && 0 <= b < v[a].1.len() ==> is_node(v, #[trigger] v[a].1[b]),
        u >= 0,
        j >= 0,
    ensures
        first_unknown_model(v, u, j) is None,
    decreases v.len() - u, v[u].1.len() - j + 1,
{
    if u < v.len() {
        if j >= v[u].1.len() {
            lemma_no_unknown(v, u + 1, 0);
        } else {
            lemma_no_unknown(v, u, j + 1);
        }
    }
}

fn find_lir_type(types: &Vec<crate::lir::LirType>, name: &String) -> (r: Option<usize>)
    ensures
        match r {
            Some(t) => 0 <= t < types@.len() && view_seq(types@)[t as int].name == name@,
            None => forall|t: int|
                0 <= t < types@.len() ==> view_seq(types@)[t].name != name@,
        },
{
    proof {
        assert(view_seq(types@).len() == types@.len());
    }
    let mut i: usize = 0;
    while i < types.len()
        invariant
            i <= types@.len(),
            forall|t: int| 0 <= t < i ==> view_seq(types@)[t].name != name@,
        decreases types@.len() - i,
    {
        proof {
            crate::seq_view::lemma_view_seq_index(types@, i as int);
        }
        if crate::strutil::str_eq(types[i].name.as_str(), name.as_str()) {
            return Some(i);
        }
        i += 1;
    }
    None
}

} // verus!
verus! {

/// Some type of the list carries this name.
pub open spec fn type_present(types: Seq<crate::lir::SpecLirType>, name: Seq<char>) -> bool {
    exists|k: int| 0 <= k < types.len() && types[k].name == name
}

/// Entry `q` of the reordered list is one of the old types.
pub open spec fn comes_from(
    tv: Seq<crate::lir::SpecLirType>,
    newv: Seq<crate::lir::SpecLirType>,
    q: int,
) -> bool {
    exists|t: int| 0 <= t < tv.len() && newv[q] == tv[t]
}

/// Entry `q` of the reordered list is one of the old types, carrying the
/// `q`-th name of the order.
pub open spec fn from_old(
    tv: Seq<crate::lir::SpecLirType>,
    newv: Seq<crate::lir::SpecLirType>,
    ordv: Seq<Seq<char>>,
    q: int,
) -> bool {
    exists|t: int| 0 <= t < tv.len() && newv[q] == tv[t] && tv[t].name == ordv[q]
}

proof fn lemma_view_graph_push(s: Seq<(String, Vec<String>)>, name: String, deps: Vec<String>)
    ensures
        view_graph(s.push((name, deps))) == view_graph(s).push((name@, view_seq(deps@))),
{
    assert(view_graph(s).len() == s.len());
    assert(view_graph(s.push((name, deps))) =~= view_graph(s).push((name@, view_seq(deps@))));
}

proof fn lemma_sorted_ok(
    tv: Seq<crate::lir::SpecLirType>,
    v: Seq<(Seq<char>, Seq<Seq<char>>)>,
    ordv: Seq<Seq<char>>,
    newv: Seq<crate::lir::SpecLirType>,
)
    requires
        v.len() == tv.len(),
        forall|u: int| 0 <= u < v.len() ==> #[trigger] v[u].0 == tv[u].name,
        forall|i: int, j: int| 0 <= i < j < tv.len() ==> tv[i].name != tv[j].name,
        forall|u: int, j: int|
            0 <= u < v.len() && 0 <= j < v[u].1.len() ==> exists|w: int|
                0 <= w < tv.len() && #[trigger] v[u].1[j] == tv[w].name,
        forall|u: int, fi: int|
            0 <= u < v.len() && 0 <= fi < tv[u].fields.len() && type_present(
                tv,
                base_of(#[trigger] tv[u].fields[fi].type_info),
            ) ==> v[u].1.contains(base_of(tv[u].fields[fi].type_info)),
        valid_order(v, ordv),
        newv.len() == ordv.len(),
        forall|q: int| 0 <= q < newv.len() ==> #[trigger] from_old(tv, newv, ordv, q),
    ensures
        topo_ordered(newv),
        forall|t: int| 0 <= t < tv.len() ==> type_present(newv, #[trigger] tv[t].name),
{
    assert(distinct_names(v)) by {
        assert forall|i: int, j: int|
            0 <= i < j < v.len() implies graph_names(v)[i] != graph_names(v)[j] by {
            assert(graph_names(v)[i] == v[i].0);
            assert(graph_names(v)[j] == v[j].0);
        };
    };
    assert forall|t: int| 0 <= t < tv.len() implies type_present(
        newv,
        #[trigger] tv[t].name,
    ) by {
        assert(appears(ordv, graph_names(v)[t]));
        assert(graph_names(v)[t] == v[t].0);
        let q = choose|q: int| 0 <= q < ordv.len() && ordv[q] == v[t].0;
        assert(from_old(tv, newv, ordv, q));
        let t2 = choose|t2: int|
            0 <= t2 < tv.len() && newv[q] == tv[t2] && tv[t2].name == ordv[q];
        assert(newv[q].name == tv[t].name);
    };
    assert forall|ka: int, fi: int, kb: int|
        #![trigger newv[ka].fields[fi], newv[kb].name]
        0 <= ka < newv.len() && 0 <= fi < newv[ka].fields.len() && 0 <= kb < newv.len()
            && newv[kb].name == base_of(newv[ka].fields[fi].type_info) implies kb < ka || kb
        == ka by {
        if kb != ka {
            let b = base_of(newv[ka].fields[fi].type_info);
            assert(from_old(tv, newv, ordv, ka));
            let ta = choose|t: int|
                0 <= t < tv.len() && newv[ka] == tv[t] && tv[t].name == ordv[ka];
            assert(from_old(tv, newv, ordv, kb));
            let tb = choose|t: int|
                0 <= t < tv.len() && newv[kb] == tv[t] && tv[t].name == ordv[kb];
            assert(b == tv[tb].name);
            assert(type_present(tv, b));
            assert(tv[ta].fields[fi].type_info == newv[ka].fields[fi].type_info);
            assert(v[ta].1.contains(base_of(tv[ta].fields[fi].type_info)));
            let j = choose|j: int| 0 <= j < v[ta].1.len() && v[ta].1[j] == b;
            lemma_find_self(v, ta);
            assert(ordv[ka] == v[ta].0);
            assert(find_name_model(v, ordv[ka], 0) == Some(ta));
            assert(is_node(v, v[ta].1[j])) by {
                let w = choose|w: int| 0 <= w < tv.len() && v[ta].1[j] == tv[w].name;
                assert(v[w].0 == tv[w].name);
                lemma_find_self_weak(v, w);
            };
            assert(order_respects_dep(v, ordv, ka, j));
            let k2 = choose|k2: int| 0 <= k2 < ka && ordv[k2] == v[ta].1[j];
            assert(ordv[kb] == b);
            if k2 != kb {
                assert(ordv[k2] != ordv[kb]);
                assert(false);
            }
        }
    };
}

/// The name is the base type of one of the first `bound` fields of the
/// type at index `u`.
pub open spec fn dep_from_field_upto(
    tv: Seq<crate::lir::SpecLirType>,
    u: int,
    bound: int,
    name: Seq<char>,
) -> bool {
    exists|f: int|
        #![trigger tv[u].fields[f]]
        0 <= f < bound && name == base_of(tv[u].fields[f].type_info)
}

/// The name is the base type of one of the fields of the type at `u`.
pub open spec fn dep_from_field(
    tv: Seq<crate::lir::SpecLirType>,
    u: int,
    name: Seq<char>,
) -> bool {
    dep_from_field_upto(tv, u, tv[u].fields.len() as int, name)
}

proof fn lemma_dep_upto_widen(
    tv: Seq<crate::lir::SpecLirType>,
    u: int,
    b1: int,
    b2: int,
    name: Seq<char>,
)
    requires
        b1 <= b2,
        dep_from_field_upto(tv, u, b1, name),
    ensures
        dep_from_field_upto(tv, u, b2, name),
{
    let f = choose|f: int|
        #![trigger tv[u].fields[f]]
        0 <= f < b1 && name == base_of(tv[u].fields[f].type_info);
    assert(0 <= f < b2 && name == base_of(tv[u].fields[f].type_info));
}

proof fn lemma_dep_member(
    tv: Seq<crate::lir::SpecLirType>,
    u: int,
    name: Seq<char>,
    bad: Seq<Seq<char>>,
    m: int,
)
    requires
        0 <= u < tv.len(),
        dep_from_field(tv, u, name),
        bad.contains(name),
        0 <= m < bad.len(),
        tv[u].name == bad[m],
    ensures
        type_stuck_member(tv, bad, m),
{
    let f = choose|f: int|
        #![trigger tv[u].fields[f]]
        0 <= f < tv[u].fields.len() && name == base_of(tv[u].fields[f].type_info);
    assert(0 <= u < tv.len() && tv[u].name == bad[m] && 0 <= f < tv[u].fields.len()
        && bad.contains(base_of(tv[u].fields[f].type_info)));
}

/// Reorders the types of a lowered format so that every referenced
/// user-defined type precedes its user, detecting cycles.  The dependency
/// of a type is the base type (the text before any `[`) of each of its
/// fields, where that base names another type of the format.
#[verifier::loop_isolation(false)]
#[verifier::rlimit(100)]
pub fn topological_sort(format: &mut LirFormat) -> (r: Result<(), TopoSortError>)
    requires
        forall|i: int, j: int|
            0 <= i < j < old(format)@.types.len() ==> old(format)@.types[i].name != old(
                format,
            )@.types[j].name,
    ensures
        match r {
            Ok(()) => {
                &&& final(format)@.name == old(format)@.name
                &&& final(format)@.endianness == old(format)@.endianness
                &&& final(format)@.enums == old(format)@.enums
                &&& final(format)@.types.len() == old(format)@.types.len()
                &&& forall|q: int|
                    0 <= q < final(format)@.types.len() ==> #[trigger] comes_from(
                        old(format)@.types,
                        final(format)@.types,
                        q,
                    )
                &&& forall|t: int|
                    0 <= t < old(format)@.types.len() ==> type_present(
                        final(format)@.types,
                        #[trigger] old(format)@.types[t].name,
                    )
                &&& topo_ordered(final(format)@.types)
            },
            Err(e) => {
                &&& *final(format) == *old(format)
                &&& (e@ matches SpecTopoSortError::CircularDependency(t) && exists|
                    bad: Seq<Seq<char>>,
                |
                    {
                        &&& type_stuck_set(old(format)@.types, bad)
                        &&& type_name_selection(old(format)@.types, bad)
                        &&& (forall|m1: int, m2: int|
                            0 <= m1 < m2 < bad.len() ==> bad[m1] != bad[m2])
                        &&& (forall|s2: Seq<Seq<char>>, m: int|
                            #![trigger type_stuck_set(old(format)@.types, s2), s2[m]]
                            type_stuck_set(old(format)@.types, s2) && 0 <= m < s2.len()
                                ==> bad.contains(s2[m]))
                        &&& t == comma_join(bad, bad.len() as int)
                    })
            },
        },
{
    let ghost tv = old(format)@.types;
    proof {
        assert(tv.len() == format.types@.len());
    }
    let mut nodes: Vec<(String, Vec<String>)> = Vec::new();
    let mut i: usize = 0;
    while i < format.types.len()
        invariant
            *format == *old(format),
            i <= tv.len(),
            view_graph(nodes@).len() == i,
            forall|u: int| 0 <= u < i ==> #[trigger] view_graph(nodes@)[u].0 == tv[u].name,
            forall|u: int, j: int|
                0 <= u < i && 0 <= j < view_graph(nodes@)[u].1.len() ==> exists|w: int|
                    0 <= w < tv.len() && #[trigger] view_graph(nodes@)[u].1[j] == tv[w].name,
            forall|u: int, j: int|
                0 <= u < i && 0 <= j < view_graph(nodes@)[u].1.len() ==> dep_from_field(
                    tv,
                    u,
                    #[trigger] view_graph(nodes@)[u].1[j],
                ),
            forall|u: int, fi: int|
                0 <= u < i && 0 <= fi < tv[u].fields.len() && type_present(
                    tv,
                    base_of(#[trigger] tv[u].fields[fi].type_info),
                ) ==> view_graph(nodes@)[u].1.contains(base_of(tv[u].fields[fi].type_info)),
        decreases tv.len() - i,
    {
        proof {
            crate::seq_view::lemma_view_seq_index(format.types@, i as int);
            assert(tv[i as int] == format.types@[i as int]@);
        }
        let mut deps: Vec<String> = Vec::new();
        let nfields = format.types[i].fields.len();
        proof {
            assert(tv[i as int].fields.len() == nfields);
        }
        let mut fi: usize = 0;
        while fi < nfields
            invariant
                fi <= nfields,
                forall|j: int|
                    0 <= j < view_seq(deps@).len() ==> exists|w: int|
                        0 <= w < tv.len() && #[trigger] view_seq(deps@)[j] == tv[w].name,
                forall|j: int|
                    0 <= j < view_seq(deps@).len() ==> dep_from_field_upto(
                        tv,
                        i as int,
                        fi as int,
                        #[trigger] view_seq(deps@)[j],
                    ),
                forall|f: int|
                    0 <= f < fi && type_present(
                        tv,
                        base_of(#[trigger] tv[i as int].fields[f].type_info),
                    ) ==> view_seq(deps@).contains(
                        base_of(tv[i as int].fields[f].type_info),
                    ),
            decreases nfields - fi,
        {
            proof {
                crate::seq_view::lemma_view_seq_index(format.types@[i as int].fields@, fi as int);
                assert(tv[i as int].fields[fi as int] == format.types@[i as int].fields@[
                    fi as int
                ]@);
            }
            let base = extract_base_type(format.types[i].fields[fi].type_info.as_str());
            let ghost deps0 = view_seq(deps@);
            match find_lir_type(&format.types, &base) {
                Some(w) => {
                    proof {
                        crate::seq_view::lemma_view_seq_push_any(deps@, base);
                        assert(view_seq(format.types@)[w as int].name == tv[w as int].name);
                    }
                    deps.push(base);
                    proof {
                        assert forall|j: int|
                            0 <= j < view_seq(deps@).len() implies dep_from_field_upto(
                            tv,
                            i as int,
                            fi + 1,
                            #[trigger] view_seq(deps@)[j],
                        ) by {
                            if j < deps0.len() {
                                assert(view_seq(deps@)[j] == deps0[j]);
                                assert(dep_from_field_upto(tv, i as int, fi as int, deps0[j]));
                                lemma_dep_upto_widen(tv, i as int, fi as int, fi + 1, deps0[j]);
                            } else {
                                assert(view_seq(deps@)[j] == base@);
                                assert(view_seq(deps@)[j] == base_of(
                                    tv[i as int].fields[fi as int].type_info,
                                ));
                            }
                        };
                        assert forall|f: int|
                            0 <= f < fi + 1 && type_present(
                                tv,
                                base_of(#[trigger] tv[i as int].fields[f].type_info),
                            ) implies view_seq(deps@).contains(
                            base_of(tv[i as int].fields[f].type_info),
                        ) by {
                            if f < fi {
                                let j = choose|j: int|
                                    0 <= j < deps0.len() && deps0[j] == base_of(
                                        tv[i as int].fields[f].type_info,
                                    );
                                assert(view_seq(deps@)[j] == deps0[j]);
                            } else {
                                assert(view_seq(deps@)[deps0.len() as int] == base_of(
                                    tv[i as int].fields[f].type_info,
                                ));
                            }
                        };
                    }
                },
                None => {
                    proof {
                        assert forall|j: int|
                            0 <= j < view_seq(deps@).len() implies dep_from_field_upto(
                            tv,
                            i as int,
                            fi + 1,
                            #[trigger] view_seq(deps@)[j],
                        ) by {
                            assert(dep_from_field_upto(tv, i as int, fi as int, view_seq(
                                deps@,
                            )[j]));
                            lemma_dep_upto_widen(tv, i as int, fi as int, fi + 1, view_seq(
                                deps@,
                            )[j]);
                        };
                        assert forall|f: int|
                            0 <= f < fi + 1 && type_present(
                                tv,
                                base_of(#[trigger] tv[i as int].fields[f].type_info),
                            ) implies view_seq(deps@).contains(
                            base_of(tv[i as int].fields[f].type_info),
                        ) by {
                            if f == fi {
                                let k = choose|k: int|
                                    0 <= k < tv.len() && tv[k].name == base_of(
                                        tv[i as int].fields[f].type_info,
                                    );
                                assert(view_seq(format.types@)[k].name == tv[k].name);
                                assert(false);
                            }
                        };
                    }
                },
            }
            fi += 1;
        }
        proof {
            assert forall|j: int|
                0 <= j < view_seq(deps@).len() implies dep_from_field(
                tv,
                i as int,
                #[trigger] view_seq(deps@)[j],
            ) by {
                assert(dep_from_field_upto(tv, i as int, fi as int, view_seq(deps@)[j]));
                assert(fi as int == tv[i as int].fields.len());
            };
        }
        let name_key = format.types[i].name.clone();
        let ghost g0 = view_graph(nodes@);
        let ghost dv = view_seq(deps@);
        proof {
            lemma_view_graph_push(nodes@, name_key, deps);
        }
        nodes.push((name_key, deps));
        proof {
            assert forall|u: int, j: int|
                0 <= u < i + 1 && 0 <= j < view_graph(nodes@)[u].1.len() implies dep_from_field(
                tv,
                u,
                #[trigger] view_graph(nodes@)[u].1[j],
            ) by {
                if u < i {
                    assert(view_graph(nodes@)[u] == g0[u]);
                    assert(dep_from_field(tv, u, g0[u].1[j]));
                } else {
                    assert(u == i as int);
                    assert(view_graph(nodes@)[u].1 == dv);
                    assert(dep_from_field(tv, i as int, dv[j]));
                }
            };
        }
        i += 1;
    }
    let ghost v = view_graph(nodes@);
    proof {
        assert(distinct_names(v)) by {
            assert forall|a: int, b: int|
                0 <= a < b < v.len() implies graph_names(v)[a] != graph_names(v)[b] by {
                assert(graph_names(v)[a] == v[a].0);
                assert(graph_names(v)[b] == v[b].0);
            };
        };
    }
    let order = match kahn_sort(&nodes) {
        Ok(order) => order,
        Err(e) => {
            proof {
                assert forall|a: int, b: int|
                    0 <= a < v.len() && 0 <= b < v[a].1.len() implies is_node(
                    v,
                    #[trigger] v[a].1[b],
                ) by {
                    let w = choose|w: int| 0 <= w < tv.len() && v[a].1[b] == tv[w].name;
                    assert(v[w].0 == tv[w].name);
                    lemma_find_self_weak(v, w);
                };
                lemma_no_unknown(v, 0, 0);
                match e@ {
                    SpecTopoSortError::CircularDependency(t) => {
                        let bad = choose|bad: Seq<Seq<char>>|
                            {
                                &&& stuck_set(v, bad)
                                &&& name_selection(v, bad)
                                &&& (forall|m1: int, m2: int|
                                    0 <= m1 < m2 < bad.len() ==> bad[m1] != bad[m2])
                                &&& (forall|s2: Seq<Seq<char>>, m: int|
                                    #![trigger stuck_set(v, s2), s2[m]]
                                    stuck_set(v, s2) && 0 <= m < s2.len() ==> bad.contains(
                                        s2[m],
                                    ))
                                &&& t == comma_join(bad, bad.len() as int)
                            };
                        assert forall|m: int|
                            0 <= m < bad.len() implies type_stuck_member(tv, bad, m) by {
                            assert(stuck_member(v, bad, m));
                            lemma_find_found(v, bad[m], 0);
                            let u = find_name_model(v, bad[m], 0)->0;
                            assert(v[u].0 == bad[m]);
                            assert(tv[u].name == bad[m]);
                            let di = choose|di: int|
                                0 <= di < v[u].1.len() && bad.contains(v[u].1[di]);
                            assert(dep_from_field(tv, u, v[u].1[di]));
                            lemma_dep_member(tv, u, v[u].1[di], bad, m);
                        };
                        assert(type_stuck_set(tv, bad));
                        assert(type_name_selection(tv, bad)) by {
                            let idxs = choose|idxs: Seq<int>| selection_by(v, bad, idxs);
                            assert forall|m: int|
                                0 <= m < idxs.len() implies 0 <= #[trigger] idxs[m] < tv.len()
                                && bad[m] == tv[idxs[m]].name by {
                                assert(v[idxs[m]].0 == tv[idxs[m]].name);
                            };
                            assert(type_selection_by(tv, bad, idxs));
                        };
                        assert forall|s2: Seq<Seq<char>>, m: int|
                            #![trigger type_stuck_set(tv, s2), s2[m]]
                            type_stuck_set(tv, s2) && 0 <= m < s2.len() implies bad.contains(
                            s2[m],
                        ) by {
                            assert forall|m2: int|
                                0 <= m2 < s2.len() implies stuck_member(v, s2, m2) by {
                                assert(type_stuck_member(tv, s2, m2));
                                let (k, fi) = choose|k: int, fi: int|
                                    #![trigger tv[k].fields[fi]]
                                    0 <= k < tv.len() && tv[k].name == s2[m2] && 0 <= fi < tv[
                                        k
                                    ].fields.len() && s2.contains(
                                        base_of(tv[k].fields[fi].type_info),
                                    );
                                let b = base_of(tv[k].fields[fi].type_info);
                                let mb = choose|mb: int| 0 <= mb < s2.len() && s2[mb] == b;
                                assert(type_stuck_member(tv, s2, mb));
                                let (kb, fib) = choose|kb: int, fib: int|
                                    #![trigger tv[kb].fields[fib]]
                                    0 <= kb < tv.len() && tv[kb].name == s2[mb] && 0 <= fib < tv[
                                        kb
                                    ].fields.len() && s2.contains(
                                        base_of(tv[kb].fields[fib].type_info),
                                    );
                                assert(type_present(tv, b)) by {
                                    assert(tv[kb].name == b);
                                };
                                assert(view_graph(nodes@)[k].1.contains(b));
                                let j = choose|j: int|
                                    0 <= j < v[k].1.len() && v[k].1[j] == b;
                                lemma_find_self(v, k);
                                assert(v[k].0 == s2[m2]);
                                assert(find_name_model(v, s2[m2], 0) == Some(k));
                                let fk = find_name_model(v, s2[m2], 0)->0;
                                assert(fk == k);
                                assert(0 <= j < v[fk].1.len() && s2.contains(v[fk].1[j]));
                                assert(exists|di: int|
                                    0 <= di < v[fk].1.len() && s2.contains(v[fk].1[di]));
                                assert(stuck_member(v, s2, m2));
                            };
                            assert(stuck_set(v, s2));
                            assert(bad.contains(s2[m]));
                        };
                        assert(exists|bad2: Seq<Seq<char>>|
                            {
                                &&& type_stuck_set(tv, bad2)
                                &&& type_name_selection(tv, bad2)
                                &&& (forall|m1: int, m2: int|
                                    0 <= m1 < m2 < bad2.len() ==> bad2[m1] != bad2[m2])
                                &&& (forall|s2: Seq<Seq<char>>, m: int|
                                    #![trigger type_stuck_set(tv, s2), s2[m]]
                                    type_stuck_set(tv, s2) && 0 <= m < s2.len() ==> bad2.contains(
                                        s2[m],
                                    ))
                                &&& t == comma_join(bad2, bad2.len() as int)
                            });
                    },
                    SpecTopoSortError::UnknownType(_) => {
                        assert(false);
                    },
                }
            }
            return Err(e);
        },
    };
    let ghost ordv = view_seq(order@);
    let mut sorted: Vec<crate::lir::LirType> = Vec::new();
    let mut k: usize = 0;
    while k < order.len()
        invariant
            *format == *old(format),
            k <= ordv.len(),
            ordv.len() == tv.len(),
            view_seq(sorted@).len() == k,
            forall|q: int| 0 <= q < k ==> #[trigger] from_old(tv, view_seq(sorted@), ordv, q),
        decreases ordv.len() - k,
    {
        proof {
            crate::seq_view::lemma_view_seq_index(order@, k as int);
        }
        match find_lir_type(&format.types, &order[k]) {
            Some(t_idx) => {
                let lt = format.types[t_idx].clone();
                let ghost s0 = view_seq(sorted@);
                proof {
                    crate::seq_view::lemma_view_seq_push_any(sorted@, lt);
                    crate::seq_view::lemma_view_seq_index(format.types@, t_idx as int);
                }
                sorted.push(lt);
                proof {
                    assert forall|q: int|
                        0 <= q < k + 1 implies #[trigger] from_old(
                        tv,
                        view_seq(sorted@),
                        ordv,
                        q,
                    ) by {
                        if q < k {
                            assert(from_old(tv, s0, ordv, q));
                            let t = choose|t: int|
                                0 <= t < tv.len() && s0[q] == tv[t] && tv[t].name == ordv[q];
                            assert(view_seq(sorted@)[q] == s0[q]);
                        } else {
                            assert(view_seq(sorted@)[q] == tv[t_idx as int]);
                            assert(tv[t_idx as int].name == ordv[q]);
                        }
                    };
                }
            },
            None => {
                proof {
                    assert(is_node(v, ordv[k as int]));
                    let w = find_name_model(v, ordv[k as int], 0)->0;
                    lemma_find_found(v, ordv[k as int], 0);
                    assert(v[w].0 == tv[w].name);
                    assert(view_seq(format.types@)[w].name == tv[w].name);
                    assert(false);
                }
                return Err(TopoSortError::UnknownType(order[k].clone()));
            },
        }
        k += 1;
    }
    proof {
        lemma_sorted_ok(tv, v, ordv, view_seq(sorted@));
        assert forall|q: int|
            0 <= q < view_seq(sorted@).len() implies #[trigger] comes_from(
            tv,
            view_seq(sorted@),
            q,
        ) by {
            assert(from_old(tv, view_seq(sorted@), ordv, q));
            let t = choose|t: int|
                0 <= t < tv.len() && view_seq(sorted@)[q] == tv[t] && tv[t].name == ordv[q];
            assert(0 <= t < tv.len() && view_seq(sorted@)[q] == tv[t]);
        };
    }
    format.types = sorted;
    Ok(())
}

} // verus!
verus! {

/// Two distinct types cannot reference each other in a topologically
/// ordered list: each would have to precede the other.  A format with
/// such a cycle therefore never leaves the sort with `Ok`.
pub proof fn lemma_no_mutual_reference(
    types: Seq<crate::lir::SpecLirType>,
    ka: int,
    fa: int,
    kb: int,
    fb: int,
)
    requires
        topo_ordered(types),
        0 <= ka < types.len(),
        0 <= kb < types.len(),
        ka != kb,
        0 <= fa < types[ka].fields.len(),
        0 <= fb < types[kb].fields.len(),
        types[kb].name == base_of(types[ka].fields[fa].type_info),
    ensures
        types[ka].name != base_of(types[kb].fields[fb].type_info),
{
}

} // verus!
