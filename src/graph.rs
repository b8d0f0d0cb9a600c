use vstd::prelude::*;

use crate::json::{get, Json};

verus! {

/// Why a set of subtasks does not form a usable dependency graph.
#[derive(Debug, Clone, Copy, PartialEq, Eq, Structural)]
pub enum GraphError {
    /// A subtask that lists prerequisites has an id that is not a
    /// non-negative integer.
    InvalidId,
    /// Following prerequisites leads from some subtask back to itself.
    CycleDetected,
}

/// `b` is among the prerequisites of `a`.
pub open spec fn is_edge(g: Map<u64, Seq<u64>>, a: u64, b: u64) -> bool {
    g.contains_key(a) && g[a].contains(b)
}

/// `w` is a closed walk: each id has the next one as a prerequisite, and the
/// last has the first.
pub open spec fn is_cycle(g: Map<u64, Seq<u64>>, w: Seq<u64>) -> bool {
    &&& w.len() > 0
    &&& forall|k: int| 0 <= k < w.len() - 1 ==> #[trigger] is_edge(g, w[k], w[k + 1])
    &&& is_edge(g, w.last(), w[0])
}

pub open spec fn cyclic(g: Map<u64, Seq<u64>>) -> bool {
    exists|w: Seq<u64>| is_cycle(g, w)
}

/// A rank that strictly drops along every edge between two ids of `g`.
pub open spec fn is_ranking(g: Map<u64, Seq<u64>>, rank: spec_fn(u64) -> int) -> bool {
    forall|a: u64, b: u64| #[trigger] is_edge(g, a, b) && g.contains_key(b) ==> rank(b) < rank(a)
}

proof fn lemma_ranked_prefix(g: Map<u64, Seq<u64>>, rank: spec_fn(u64) -> int, w: Seq<u64>, m: int)
    requires
        is_ranking(g, rank),
        is_cycle(g, w),
        0 <= m < w.len(),
    ensures
        g.contains_key(w[m]),
        rank(w[m]) + m <= rank(w[0]),
    decreases m,
{
    if m < w.len() - 1 {
        assert(is_edge(g, w[m], w[m + 1]));
    } else {
        assert(is_edge(g, w.last(), w[0]));
    }
    if m > 0 {
        let k = m - 1;
        lemma_ranked_prefix(g, rank, w, k);
        assert(is_edge(g, w[k], w[k + 1]));
    }
}

proof fn lemma_ranked_walk(g: Map<u64, Seq<u64>>, rank: spec_fn(u64) -> int, w: Seq<u64>)
    requires
        is_ranking(g, rank),
    ensures
        !is_cycle(g, w),
{
    if is_cycle(g, w) {
        lemma_ranked_prefix(g, rank, w, w.len() - 1);
        lemma_ranked_prefix(g, rank, w, 0);
        assert(is_edge(g, w.last(), w[0]));
    }
}

/// A graph with a ranking has no cycle.
pub proof fn lemma_ranked_acyclic(g: Map<u64, Seq<u64>>, rank: spec_fn(u64) -> int)
    requires
        is_ranking(g, rank),
    ensures
        !cyclic(g),
{
    assert forall|w: Seq<u64>| !is_cycle(g, w) by {
        lemma_ranked_walk(g, rank, w);
    }
}

/// Subtask ids, each with the ids of its prerequisites.
pub struct DependencyGraph {
    pub ids: Vec<u64>,
    pub prerequisites: Vec<Vec<u64>>,
}

impl DependencyGraph {
    /// Each id stands once, with one list of prerequisites.
    pub open spec fn wf(&self) -> bool {
        &&& self.ids.len() == self.prerequisites.len()
        &&& self.ids@.no_duplicates()
    }

    pub open spec fn slot(&self, a: u64) -> int {
        choose|i: int| 0 <= i < self.ids.len() && self.ids@[i] == a
    }

    pub open spec fn view(&self) -> Map<u64, Seq<u64>> {
        Map::new(|a: u64| self.ids@.contains(a), |a: u64| self.prerequisites@[self.slot(a)]@)
    }

    pub proof fn lemma_view(&self)
        requires
            self.wf(),
        ensures
            forall|i: int|
                0 <= i < self.ids.len() ==> #[trigger] self@.contains_key(self.ids@[i])
                    && self@[self.ids@[i]] == self.prerequisites@[i]@ && self.slot(self.ids@[i]) == i,
            forall|a: u64| #[trigger] self@.contains_key(a) <==> self.ids@.contains(a),
    {
        assert forall|i: int| 0 <= i < self.ids.len() implies #[trigger] self@.contains_key(self.ids@[i])
            && self@[self.ids@[i]] == self.prerequisites@[i]@ && self.slot(self.ids@[i]) == i by {
            assert(self.ids@.contains(self.ids@[i]));
            let j = self.slot(self.ids@[i]);
            assert(0 <= j < self.ids.len() && self.ids@[j] == self.ids@[i]);
        }
    }
}

fn find_id(ids: &Vec<u64>, b: u64) -> (r: Option<usize>)
    ensures
        match r {
            Some(j) => j < ids.len() && ids@[j as int] == b,
            None => !ids@.contains(b),
        },
{
    let mut j: usize = 0;
    while j < ids.len()
        invariant
            0 <= j <= ids.len(),
            forall|k: int| 0 <= k < j ==> ids@[k] != b,
        decreases ids.len() - j,
    {
        if ids[j] == b {
            return Some(j);
        }
        j = j + 1;
    }
    None
}

/// How many entries of `c` equal `x`.
pub open spec fn count(c: Seq<u8>, x: u8) -> nat
    decreases c.len(),
{
    if c.len() == 0 {
        0
    } else {
        count(c.drop_last(), x) + if c.last() == x { 1nat } else { 0nat }
    }
}

proof fn lemma_count_update(c: Seq<u8>, i: int, v: u8, x: u8)
    requires
        0 <= i < c.len(),
    ensures
        count(c.update(i, v), x) + (if c[i] == x { 1int } else { 0int }) == count(c, x) + (if v == x { 1int } else { 0int }),
    decreases c.len(),
{
    let d = c.update(i, v);
    if i == c.len() - 1 {
        assert(d.drop_last() =~= c.drop_last());
    } else {
        assert(d.drop_last() =~= c.drop_last().update(i, v));
        lemma_count_update(c.drop_last(), i, v, x);
    }
}

proof fn lemma_count_bound(c: Seq<u8>, x: u8, i: int)
    requires
        0 <= i < c.len(),
        c[i] != x,
    ensures
        count(c, x) < c.len(),
    decreases c.len(),
{
    if i < c.len() - 1 {
        lemma_count_bound(c.drop_last(), x, i);
    } else {
        lemma_count_le(c.drop_last(), x);
    }
}

proof fn lemma_count_le(c: Seq<u8>, x: u8)
    ensures
        count(c, x) <= c.len(),
    decreases c.len(),
{
    if c.len() > 0 {
        lemma_count_le(c.drop_last(), x);
    }
}

/// The prerequisites of the subtask at position `u` of `g`.
pub open spec fn pre(g: &DependencyGraph, u: int) -> Seq<u64> {
    g.prerequisites@[u]@
}

/// The state of a depth-first walk over `g`. `color` marks each subtask
/// unseen (0), on the current path (1) or done (2); `stack` is the current
/// path and `pos[k]` the next prerequisite of `stack[k]` to look at; `fin`
/// numbers done subtasks in the order they were finished, below `counter`.
pub open spec fn walk_inv(
    g: &DependencyGraph,
    color: Seq<u8>,
    fin: Seq<usize>,
    stack: Seq<usize>,
    pos: Seq<usize>,
    counter: usize,
) -> bool {
    let n = g.ids.len() as int;
    &&& g.wf()
    &&& color.len() == n
    &&& fin.len() == n
    &&& stack.len() == pos.len()
    &&& counter == count(color, 2)
    &&& forall|u: int| 0 <= u < n ==> #[trigger] color[u] <= 2
    // the path holds exactly the subtasks marked 1, once each
    &&& forall|k: int|
        0 <= k < stack.len() ==> #[trigger] stack[k] < n && color[stack[k] as int] == 1 && pos[k]
            <= pre(g, stack[k] as int).len()
    &&& forall|u: int| 0 <= u < n && #[trigger] color[u] == 1 ==> exists|k: int| 0 <= k < stack.len() && stack[k] == u
    &&& forall|k1: int, k2: int| 0 <= k1 < k2 < stack.len() ==> stack[k1] != stack[k2]
    // each step of the path follows a prerequisite
    &&& forall|k: int|
        0 <= k < stack.len() - 1 ==> #[trigger] pos[k] < pre(g, stack[k] as int).len() && pre(
            g,
            stack[k] as int,
        )[pos[k] as int] == g.ids@[stack[k + 1] as int]
    // the prerequisites already looked at are done
    &&& forall|k: int, q: int, j: int|
        #![trigger g.ids@[j], pre(g, stack[k] as int)[q]]
        0 <= k < stack.len() && 0 <= q < pos[k] && 0 <= j < n && g.ids@[j] == pre(g, stack[k] as int)[q]
            ==> color[j] == 2
    // a done subtask's prerequisites are done, and finished before it
    &&& forall|u: int| 0 <= u < n && #[trigger] color[u] == 2 ==> fin[u] < counter
    &&& forall|u: int, q: int, j: int|
        #![trigger g.ids@[j], pre(g, u)[q]]
        0 <= u < n && color[u] == 2 && 0 <= q < pre(g, u).len() && 0 <= j < n && g.ids@[j] == pre(g, u)[q]
            ==> color[j] == 2 && fin[j] < fin[u]
}

/// Whether following prerequisites can lead from some subtask back to
/// itself.
pub fn has_cycle(graph: &DependencyGraph) -> (r: bool)
    requires
        graph.wf(),
    ensures
        r == cyclic(graph@),
{
    let n = graph.ids.len();
    let mut color: Vec<u8> = Vec::new();
    let mut fin: Vec<usize> = Vec::new();
    let mut i: usize = 0;
    while i < n
        invariant
            0 <= i <= n,
            color@.len() == i,
            fin@.len() == i,
            forall|u: int| 0 <= u < i ==> color@[u] == 0,
        decreases n - i,
    {
        color.push(0);
        fin.push(0);
        i = i + 1;
    }
    let mut stack: Vec<usize> = Vec::new();
    let mut pos: Vec<usize> = Vec::new();
    let mut counter: usize = 0;
    proof {
        graph.lemma_view();
        assert(count(color@, 2) == 0) by {
            lemma_count_zero(color@, 2);
        }
    }
    let mut root: usize = 0;
    while root < n
        invariant
            n == graph.ids.len(),
            0 <= root <= n,
            walk_inv(graph, color@, fin@, stack@, pos@, counter),
            stack@.len() == 0,
            forall|u: int| 0 <= u < root ==> color@[u] == 2,
        decreases n - root,
    {
        if color[root] == 0 {
            proof {
                lemma_count_update(color@, root as int, 1, 2);
                lemma_count_update(color@, root as int, 1, 0);
            }
            let ghost c0 = color@;
            color.set(root, 1);
            stack.push(root);
            pos.push(0);
            proof {
                assert forall|x: int| 0 <= x < n as int && #[trigger] color@[x] == 1 implies exists|k: int|
                    0 <= k < stack@.len() && stack@[k] == x by {
                    if x == root as int {
                        assert(stack@[0] == root);
                    } else {
                        assert(c0[x] == 1);
                    }
                }
            }
            while stack.len() > 0
                invariant
                    n == graph.ids.len(),
                    0 <= root < n,
                    walk_inv(graph, color@, fin@, stack@, pos@, counter),
                    forall|u: int| 0 <= u <= root ==> color@[u] != 0,
                decreases
                    n - count(color@, 2),
                    count(color@, 0),
                    if stack@.len() > 0 {
                        pre(graph, stack@.last() as int).len() - pos@.last()
                    } else {
                        0
                    },
            {
                let top = stack.len() - 1;
                let u = stack[top];
                let p = pos[top];
                if p < graph.prerequisites[u].len() {
                    let b = graph.prerequisites[u][p];
                    match find_id(&graph.ids, b) {
                        None => {
                            pos.set(top, p + 1);
                        },
                        Some(v) => {
                            if color[v] == 2 {
                                pos.set(top, p + 1);
                            } else if color[v] == 1 {
                                // v is on the path: the path from v up to u, closed by
                                // the step from u back to v, is a cycle
                                proof {
                                    let k = choose|k: int| 0 <= k < stack@.len() && stack@[k] == v;
                                    let w = stack@.subrange(k, stack@.len() as int).map_values(
                                        |x: usize| graph.ids@[x as int],
                                    );
                                    assert forall|m: int| 0 <= m < w.len() - 1 implies #[trigger] is_edge(
                                        graph@,
                                        w[m],
                                        w[m + 1],
                                    ) by {
                                        let km = k + m;
                                        assert(pos@[km] < pre(graph, stack@[km] as int).len());
                                        assert(pre(graph, stack@[km] as int).contains(w[m + 1]));
                                    }
                                    assert(pre(graph, u as int)[p as int] == w[0]);
                                    assert(pre(graph, u as int).contains(w[0]));
                                    assert(is_cycle(graph@, w));
                                }
                                return true;
                            } else {
                                proof {
                                    lemma_count_update(color@, v as int, 1, 2);
                                    lemma_count_update(color@, v as int, 1, 0);
                                }
                                let ghost c0 = color@;
                                let ghost s0 = stack@;
                                color.set(v, 1);
                                stack.push(v);
                                pos.push(0);
                                proof {
                                    assert forall|x: int| 0 <= x < n as int && #[trigger] color@[x] == 1 implies exists|k: int|
                                        0 <= k < stack@.len() && stack@[k] == x by {
                                        if x == v as int {
                                            assert(stack@[stack@.len() - 1] == v);
                                        } else {
                                            assert(c0[x] == 1);
                                            let k = choose|k: int| 0 <= k < s0.len() && s0[k] == x;
                                            assert(stack@[k] == x);
                                        }
                                    }
                                }
                            }
                        },
                    }
                } else {
                    proof {
                        lemma_count_update(color@, u as int, 2, 2);
                        lemma_count_update(color@, u as int, 2, 0);
                        lemma_count_bound(color@, 2, u as int);
                    }
                    let ghost c0 = color@;
                    let ghost s0 = stack@;
                    color.set(u, 2);
                    fin.set(u, counter);
                    counter = counter + 1;
                    stack.pop();
                    pos.pop();
                    proof {
                        assert forall|x: int| 0 <= x < n as int && #[trigger] color@[x] == 1 implies exists|k: int|
                            0 <= k < stack@.len() && stack@[k] == x by {
                            assert(c0[x] == 1);
                            let k = choose|k: int| 0 <= k < s0.len() && s0[k] == x;
                            assert(k != top);
                            assert(stack@[k] == x);
                        }
                    }
                }
            }
        }
        root = root + 1;
    }
    // every subtask is done, and finishing order ranks the graph
    proof {
        let rank = |a: u64| fin@[graph.slot(a)] as int;
        assert(is_ranking(graph@, rank)) by {
            assert forall|a: u64, b: u64| #[trigger] is_edge(graph@, a, b) && graph@.contains_key(b) implies rank(b)
                < rank(a) by {
                let ia = graph.slot(a);
                let ib = graph.slot(b);
                assert(graph.ids@.contains(a));
                assert(graph.ids@.contains(b));
                let q = choose|q: int| 0 <= q < pre(graph, ia).len() && pre(graph, ia)[q] == b;
                assert(color@[ia] == 2);
            }
        }
        lemma_ranked_acyclic(graph@, rank);
    }
    false
}

proof fn lemma_count_zero(c: Seq<u8>, x: u8)
    requires
        forall|i: int| 0 <= i < c.len() ==> c[i] != x,
    ensures
        count(c, x) == 0,
    decreases c.len(),
{
    if c.len() > 0 {
        lemma_count_zero(c.drop_last(), x);
    }
}

/// A non-negative integer that fits in `u64`.
pub open spec fn as_u64(v: Json) -> Option<u64> {
    match v {
        Json::Int(n) => if 0 <= n <= u64::MAX { Some(n as u64) } else { None },
        _ => None,
    }
}

/// The subtask's `id`, where it is a non-negative integer.
pub open spec fn id_of(v: Json) -> Option<u64> {
    match get(v, "id"@) {
        Some(j) => as_u64(j),
        None => None,
    }
}

/// The entries of `dependencies.prerequisite_tasks`, where that is an array.
pub open spec fn prerequisite_array(v: Json) -> Option<Seq<Json>> {
    match get(v, "dependencies"@) {
        Some(d) => match get(d, "prerequisite_tasks"@) {
            Some(Json::Array(a)) => Some(a@),
            _ => None,
        },
        None => None,
    }
}

/// The entries that are non-negative integers, in order; others are skipped.
pub open spec fn id_list(s: Seq<Json>) -> Seq<u64>
    decreases s.len(),
{
    if s.len() == 0 {
        Seq::empty()
    } else {
        let r = id_list(s.drop_last());
        match as_u64(s.last()) {
            Some(x) => r.push(x),
            None => r,
        }
    }
}

/// The graph that the subtasks declare: each subtask with an array of
/// prerequisites maps its id to them (a later subtask with the same id
/// replaces an earlier one). `None` where such a subtask has no valid id.
pub open spec fn graph_of(items: Seq<Json>) -> Option<Map<u64, Seq<u64>>>
    decreases items.len(),
{
    if items.len() == 0 {
        Some(Map::empty())
    } else {
        match graph_of(items.drop_last()) {
            None => None,
            Some(g) => match prerequisite_array(items.last()) {
                None => Some(g),
                Some(ps) => match id_of(items.last()) {
                    Some(id) => Some(g.insert(id, id_list(ps))),
                    None => None,
                },
            },
        }
    }
}

/// What checking the subtasks' dependencies gives.
pub open spec fn acyclic_result(items: Seq<Json>) -> Result<(), GraphError> {
    match graph_of(items) {
        None => Err(GraphError::InvalidId),
        Some(g) => if cyclic(g) { Err(GraphError::CycleDetected) } else { Ok(()) },
    }
}

fn json_u64(v: &Json) -> (r: Option<u64>)
    ensures
        r == as_u64(*v),
{
    match v {
        Json::Int(n) => if 0 <= *n && *n <= u64::MAX as i128 { Some(*n as u64) } else { None },
        _ => None,
    }
}

fn subtask_id(v: &Json) -> (r: Option<u64>)
    ensures
        r == id_of(*v),
{
    match v.get_member("id") {
        Some(j) => json_u64(j),
        None => None,
    }
}

fn prerequisite_entries(v: &Json) -> (r: Option<&Vec<Json>>)
    ensures
        match r {
            Some(a) => prerequisite_array(*v) == Some(a@),
            None => prerequisite_array(*v) is None,
        },
{
    match v.get_member("dependencies") {
        Some(d) => match d.get_member("prerequisite_tasks") {
            Some(Json::Array(a)) => Some(a),
            _ => None,
        },
        None => None,
    }
}

/// The entries of `s` that are non-negative integers, in order.
pub fn collect_ids(s: &Vec<Json>) -> (r: Vec<u64>)
    ensures
        r@ == id_list(s@),
{
    let mut r: Vec<u64> = Vec::new();
    let mut i: usize = 0;
    while i < s.len()
        invariant
            0 <= i <= s.len(),
            r@ == id_list(s@.subrange(0, i as int)),
        decreases s.len() - i,
    {
        assert(s@.subrange(0, i + 1).drop_last() =~= s@.subrange(0, i as int));
        match json_u64(&s[i]) {
            Some(x) => r.push(x),
            None => {},
        }
        i = i + 1;
    }
    assert(s@.subrange(0, s.len() as int) =~= s@);
    r
}

/// Builds the graph that the subtasks declare.
pub fn build_graph(items: &Vec<Json>) -> (r: Result<DependencyGraph, GraphError>)
    ensures
        match graph_of(items@) {
            None => r == Err::<DependencyGraph, GraphError>(GraphError::InvalidId),
            Some(g) => r is Ok && r->Ok_0.wf() && r->Ok_0@ == g,
        },
{
    let mut gr = DependencyGraph { ids: Vec::new(), prerequisites: Vec::new() };
    let mut i: usize = 0;
    assert(gr@ =~= Map::empty());
    assert(items@.subrange(0, 0) =~= Seq::<Json>::empty());
    while i < items.len()
        invariant
            0 <= i <= items.len(),
            gr.wf(),
            graph_of(items@.subrange(0, i as int)) == Some(gr@),
        decreases items.len() - i,
    {
        assert(items@.subrange(0, i + 1).drop_last() =~= items@.subrange(0, i as int));
        match prerequisite_entries(&items[i]) {
            None => {},
            Some(a) => {
                match subtask_id(&items[i]) {
                    None => {
                        proof {
                            lemma_graph_of_none(items@, i as int);
                        }
                        return Err(GraphError::InvalidId);
                    },
                    Some(id) => {
                        let ps = collect_ids(a);
                        let ghost old_view = gr@;
                        proof {
                            gr.lemma_view();
                        }
                        let ghost old_ids = gr.ids@;
                        let ghost old_pre = gr.prerequisites@;
                        let ghost mut at: int = 0;
                        match find_id(&gr.ids, id) {
                            Some(k) => {
                                gr.prerequisites.set(k, ps);
                                proof {
                                    at = k as int;
                                }
                            },
                            None => {
                                gr.ids.push(id);
                                gr.prerequisites.push(ps);
                                proof {
                                    at = old_ids.len() as int;
                                    assert forall|x: int, y: int| 0 <= x < y < gr.ids@.len() implies gr.ids@[x]
                                        != gr.ids@[y] by {
                                        if y < old_ids.len() {
                                            assert(old_ids[x] != old_ids[y]);
                                        } else {
                                            assert(old_ids.contains(old_ids[x]));
                                        }
                                    }
                                }
                            },
                        }
                        proof {
                            gr.lemma_view();
                            let m = old_view.insert(id, id_list(a@));
                            assert forall|x: u64| #[trigger] gr@.contains_key(x) == m.contains_key(x) by {
                                if gr.ids@.contains(x) {
                                    let j = choose|j: int| 0 <= j < gr.ids@.len() && gr.ids@[j] == x;
                                    if j < old_ids.len() {
                                        assert(old_ids.contains(x));
                                    }
                                }
                                if old_ids.contains(x) {
                                    let j = choose|j: int| 0 <= j < old_ids.len() && old_ids[j] == x;
                                    assert(gr.ids@[j] == x);
                                }
                                assert(gr.ids@[at] == id);
                            }
                            assert forall|x: u64| #[trigger] gr@.contains_key(x) implies gr@[x] == m[x] by {
                                let j = choose|j: int| 0 <= j < gr.ids@.len() && gr.ids@[j] == x;
                                assert(gr@[gr.ids@[j]] == gr.prerequisites@[j]@);
                                if x != id {
                                    assert(j < old_ids.len());
                                    assert(old_view[old_ids[j]] == old_pre[j]@);
                                }
                            }
                            assert(gr@ =~= m);
                        }
                    },
                }
            },
        }
        i = i + 1;
    }
    assert(items@.subrange(0, items.len() as int) =~= items@);
    Ok(gr)
}

proof fn lemma_graph_of_none(items: Seq<Json>, i: int)
    requires
        0 <= i < items.len(),
        graph_of(items.subrange(0, i + 1)) is None,
    ensures
        graph_of(items) is None,
    decreases items.len() - i,
{
    if i + 1 < items.len() {
        assert(items.subrange(0, i + 2).drop_last() =~= items.subrange(0, i + 1));
        lemma_graph_of_none(items, i + 1);
    } else {
        assert(items.subrange(0, i + 1) =~= items);
    }
}

/// Checks that the prerequisites that the subtasks declare form no cycle.
pub fn check_acyclic(items: &Vec<Json>) -> (r: Result<(), GraphError>)
    ensures
        r == acyclic_result(items@),
{
    match build_graph(items) {
        Err(e) => Err(e),
        Ok(g) => if has_cycle(&g) { Err(GraphError::CycleDetected) } else { Ok(()) },
    }
}

} // verus!
