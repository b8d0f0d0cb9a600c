use vstd::prelude::*;

use crate::decode::{decode_item, decode_result, SubTaskView};
use crate::graph::{acyclic_result, cyclic, graph_of, id_of, is_cycle, is_edge, GraphError};
use crate::json::{get, int_in, Json};
use crate::schema::{
    element_error,
    energy_value,
    first_error,
    first_missing,
    lemma_first_error_stays,
    task_types_valid,
    validation_result,
    ValidationError,
};

verus! {

/// A batch with fewer than two or more than six subtasks is refused for
/// its size, whatever the subtasks hold.
pub proof fn lemma_count_out_of_range(v: Json)
    requires
        v is Array,
        v->Array_0@.len() < 2 || v->Array_0@.len() > 6,
    ensures
        validation_result(v) == Err::<(), ValidationError>(
            ValidationError::CountOutOfRange(v->Array_0@.len() as usize),
        ),
{
}

/// A subtask that lacks a required member is refused for it, naming the
/// first member it lacks, when the subtasks before it pass and its own time
/// estimate, if it has one, is in range.
pub proof fn lemma_missing_field(v: Json, i: int)
    requires
        v is Array,
        2 <= v->Array_0@.len() <= 6,
        0 <= i < v->Array_0@.len(),
        first_error(v->Array_0@, i as nat) is None,
        v->Array_0@[i] is Object,
        first_missing(v->Array_0@[i]) is Some,
        get(v->Array_0@[i], "time_estimate_minutes"@) is Some ==> int_in(
            get(v->Array_0@[i], "time_estimate_minutes"@)->Some_0,
            15,
            240,
        ) is Some,
    ensures
        validation_result(v) == Err::<(), ValidationError>(
            ValidationError::MissingField(i as usize, first_missing(v->Array_0@[i])->Some_0),
        ),
{
    let items = v->Array_0@;
    assert(first_error(items, (i + 1) as nat) == element_error(i as usize, items[i]));
    lemma_first_error_stays(items, (i + 1) as nat, items.len());
}

/// A subtask whose time estimate is not an integer from 15 to 240 is
/// refused for it, when the subtasks before it pass.
pub proof fn lemma_time_out_of_range(v: Json, i: int)
    requires
        v is Array,
        2 <= v->Array_0@.len() <= 6,
        0 <= i < v->Array_0@.len(),
        first_error(v->Array_0@, i as nat) is None,
        v->Array_0@[i] is Object,
        get(v->Array_0@[i], "time_estimate_minutes"@) is Some,
        int_in(get(v->Array_0@[i], "time_estimate_minutes"@)->Some_0, 15, 240) is None,
    ensures
        validation_result(v) == Err::<(), ValidationError>(
            ValidationError::TimeEstimateOutOfRange(i as usize),
        ),
{
    let items = v->Array_0@;
    assert(first_error(items, (i + 1) as nat) == element_error(i as usize, items[i]));
    lemma_first_error_stays(items, (i + 1) as nat, items.len());
}

/// Two subtasks that are each other's prerequisites, or one that is its
/// own, make the dependency check fail with a cycle.
pub proof fn lemma_mutual_prerequisites(items: Seq<Json>, a: u64, b: u64)
    requires
        graph_of(items) is Some,
        is_edge(graph_of(items)->Some_0, a, b),
        is_edge(graph_of(items)->Some_0, b, a),
    ensures
        acyclic_result(items) == Err::<(), GraphError>(GraphError::CycleDetected),
{
    let g = graph_of(items)->Some_0;
    let w = seq![a, b];
    assert(is_edge(g, w[0], w[1]));
    assert(is_cycle(g, w));
}

/// A prerequisite that names no subtask of the graph adds no cycle.
pub proof fn lemma_dangling_prerequisite(g: Map<u64, Seq<u64>>, a: u64, b: u64)
    requires
        g.contains_key(a),
        !g.contains_key(b),
    ensures
        cyclic(g.insert(a, g[a].push(b))) == cyclic(g),
{
    let h = g.insert(a, g[a].push(b));
    assert forall|x: u64, y: u64| is_edge(g, x, y) implies #[trigger] is_edge(h, x, y) by {
        if x == a {
            assert(g[a].push(b)[g[a].index_of(y)] == y);
        }
    }
    if cyclic(g) {
        let w = choose|w: Seq<u64>| is_cycle(g, w);
        assert forall|k: int| 0 <= k < w.len() - 1 implies #[trigger] is_edge(h, w[k], w[k + 1]) by {
            assert(is_edge(g, w[k], w[k + 1]));
        }
        assert(is_cycle(h, w));
    }
    if cyclic(h) {
        let w = choose|w: Seq<u64>| is_cycle(h, w);
        assert forall|k: int| 0 <= k < w.len() implies g.contains_key(#[trigger] w[k]) by {
            if k < w.len() - 1 {
                assert(is_edge(h, w[k], w[k + 1]));
            } else {
                assert(is_edge(h, w.last(), w[0]));
            }
        }
        assert forall|x: u64, y: u64| #[trigger] is_edge(h, x, y) && g.contains_key(y) implies is_edge(g, x, y) by {
            if x == a {
                let j = choose|j: int| 0 <= j < h[a].len() && h[a][j] == y;
                assert(j < g[a].len());
                assert(g[a][j] == y);
            }
        }
        assert forall|k: int| 0 <= k < w.len() - 1 implies #[trigger] is_edge(g, w[k], w[k + 1]) by {
            assert(is_edge(h, w[k], w[k + 1]));
            assert(g.contains_key(w[k + 1]));
        }
        assert(is_edge(h, w.last(), w[0]));
        assert(g.contains_key(w[0]));
        assert(is_cycle(g, w));
    }
}

/// A mental energy given as a string and as an array that holds only that
/// string read the same.
pub proof fn lemma_energy_forms_agree(x: Json, y: Json)
    requires
        x is Str,
        y is Array,
        y->Array_0@.len() == 1,
        y->Array_0@[0] == x,
    ensures
        energy_value(x) == energy_value(y),
{
}

proof fn lemma_item_passes(i: usize, v: Json, t: SubTaskView)
    requires
        decode_item(v) == Some(t),
        15 <= t.time_estimate_minutes <= 240,
    ensures
        element_error(i, v) is None,
        id_of(v) is Some,
{
    assert(get(v, "id"@) is Some);
    assert(v is Object);
    let tt = get(v, "task_type"@)->Some_0;
    if tt is Array {
        assert(tt->Array_0@.len() == 1);
        assert(task_types_valid(tt));
    }
}

proof fn lemma_graph_defined(items: Seq<Json>)
    requires
        forall|i: int| 0 <= i < items.len() ==> id_of(#[trigger] items[i]) is Some,
    ensures
        graph_of(items) is Some,
    decreases items.len(),
{
    if items.len() > 0 {
        let p = items.drop_last();
        assert forall|i: int| 0 <= i < p.len() implies id_of(#[trigger] p[i]) is Some by {
            assert(p[i] == items[i]);
        }
        lemma_graph_defined(p);
        assert(id_of(items[items.len() - 1]) is Some);
    }
}

proof fn lemma_no_first_error(items: Seq<Json>, ts: Seq<SubTaskView>, n: nat)
    requires
        n <= items.len() == ts.len(),
        forall|i: int|
            0 <= i < items.len() ==> decode_item(#[trigger] items[i]) == Some(ts[i]) && 15
                <= ts[i].time_estimate_minutes <= 240,
    ensures
        first_error(items, n) is None,
    decreases n,
{
    if n > 0 {
        lemma_no_first_error(items, ts, (n - 1) as nat);
        let k = n - 1;
        assert(decode_item(items[k]) == Some(ts[k]));
        lemma_item_passes((n - 1) as usize, items[k], ts[k]);
    }
}

/// A batch of 2 to 6 subtasks that each hold a complete record with a time
/// estimate from 15 to 240, and whose prerequisites form no cycle, passes
/// validation, and decoding it gives back exactly those records in order.
pub proof fn lemma_valid_batch(v: Json, ts: Seq<SubTaskView>)
    requires
        v is Array,
        v->Array_0@.len() == ts.len(),
        2 <= ts.len() <= 6,
        forall|i: int|
            0 <= i < ts.len() ==> decode_item(#[trigger] v->Array_0@[i]) == Some(ts[i]) && 15
                <= ts[i].time_estimate_minutes <= 240,
        forall|g: Map<u64, Seq<u64>>| graph_of(v->Array_0@) == Some(g) ==> !cyclic(g),
    ensures
        validation_result(v) == Ok::<(), ValidationError>(()),
        decode_result(v) == Ok::<Seq<SubTaskView>, crate::decode::DecodeError>(ts),
{
    let items = v->Array_0@;
    lemma_no_first_error(items, ts, items.len());
    assert forall|i: int| 0 <= i < items.len() implies id_of(#[trigger] items[i]) is Some by {
        lemma_item_passes(i as usize, items[i], ts[i]);
    }
    lemma_graph_defined(items);
    assert(forall|i: int| 0 <= i < items.len() ==> decode_item(#[trigger] items[i]) is Some);
    assert(items.map_values(|j: Json| decode_item(j)->Some_0) =~= ts);
}

} // verus!
