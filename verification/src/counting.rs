//! What an ingestion counts when every write succeeds: each file, each
//! entity and each edge of its plan, and no error.

use vstd::prelude::*;
use crate::ingest::{IngestStats, IngestionView, batch_end, lemma_batch_end_bounds, starts_batch};
use crate::plan::{
    Role, StepView, all_file_steps, all_import_steps, edge_step, file_id_of, file_steps,
    import_steps, node_step, plan_steps, relation_steps, removal_steps, symbol_steps,
    synthetic_steps,
};
use crate::model::{EdgeType, NodeView};
use crate::parser::ParsedView;

verus! {

/// The state of an ingestion that has the given writes before it.
pub open spec fn fresh(steps: Seq<StepView>) -> IngestionView {
    IngestionView {
        steps: steps,
        cursor: 0,
        stats: IngestStats { files_processed: 0, symbols_created: 0, edges_created: 0 },
        had_errors: false,
        aborted: false,
    }
}

/// The state after the first `k` writes have been reported as successful.
pub open spec fn after_successes(steps: Seq<StepView>, k: nat) -> IngestionView
    decreases k,
{
    if k == 0 {
        fresh(steps)
    } else {
        after_successes(steps, (k - 1) as nat).after(true)
    }
}

/// The number of steps with the given role.
pub open spec fn count_role(steps: Seq<StepView>, role: Role) -> nat
    decreases steps.len(),
{
    if steps.len() == 0 {
        0
    } else {
        count_role(steps.drop_last(), role) + if steps.last().role == role {
            1nat
        } else {
            0nat
        }
    }
}

/// Whether a step with this role belongs to the batch of a file.
pub open spec fn in_file_batch(role: Role) -> bool {
    role == Role::FileStart || role == Role::FileNode || role == Role::Symbol || role
        == Role::FileEdge
}

/// Whether step `i` is the last of a file's batch.
pub open spec fn closes_batch(steps: Seq<StepView>, i: int) -> bool {
    &&& 0 <= i < steps.len()
    &&& in_file_batch(steps[i].role)
    &&& (i + 1 == steps.len() || starts_batch(steps[i + 1].role))
}

/// The number of batches that end among the first `k` steps.
pub open spec fn batches_closed(steps: Seq<StepView>, k: nat) -> nat
    decreases k,
{
    if k == 0 {
        0
    } else {
        batches_closed(steps, (k - 1) as nat) + if closes_batch(steps, k - 1) {
            1nat
        } else {
            0nat
        }
    }
}

/// Whether every step that continues a batch follows a step of a batch.
/// `before` tells whether a step of a batch stands before the first step.
pub open spec fn orderly_after(before: bool, steps: Seq<StepView>) -> bool {
    forall|i: int| 0 <= i < steps.len() ==> #[trigger] in_order(before, steps, i)
}

/// Whether step `i` starts a batch or follows a step of a batch. `before`
/// tells whether a step of a batch stands before the first step.
pub open spec fn in_order(before: bool, steps: Seq<StepView>, i: int) -> bool {
    starts_batch(steps[i].role) || if i == 0 {
        before
    } else {
        in_file_batch(steps[i - 1].role)
    }
}

/// Whether a step of a batch stands at the end of `steps`, or before them
/// where there are none.
pub open spec fn ends_in_batch(before: bool, steps: Seq<StepView>) -> bool {
    if steps.len() == 0 {
        before
    } else {
        in_file_batch(steps.last().role)
    }
}

/// The number of entities of all files.
pub open spec fn total_nodes(files: Seq<(Seq<char>, ParsedView)>) -> nat
    decreases files.len(),
{
    if files.len() == 0 {
        0
    } else {
        total_nodes(files.drop_last()) + files.last().1.nodes.len()
    }
}

/// The number of edges within the files.
pub open spec fn total_edges(files: Seq<(Seq<char>, ParsedView)>) -> nat
    decreases files.len(),
{
    if files.len() == 0 {
        0
    } else {
        total_edges(files.drop_last()) + files.last().1.edges.len()
    }
}

/// The number of imports that lead from a file to a file.
pub open spec fn total_imports(files: Seq<(Seq<char>, ParsedView)>) -> nat
    decreases files.len(),
{
    if files.len() == 0 {
        0
    } else {
        total_imports(files.drop_last()) + files.last().1.import_edges.len()
    }
}

proof fn lemma_count_bound(steps: Seq<StepView>, role: Role)
    ensures
        count_role(steps, role) <= steps.len(),
    decreases steps.len(),
{
    if steps.len() > 0 {
        lemma_count_bound(steps.drop_last(), role);
    }
}

proof fn lemma_closed_bound(steps: Seq<StepView>, k: nat)
    ensures
        batches_closed(steps, k) <= k,
    decreases k,
{
    if k > 0 {
        lemma_closed_bound(steps, (k - 1) as nat);
    }
}

proof fn lemma_count_concat(a: Seq<StepView>, b: Seq<StepView>, role: Role)
    ensures
        count_role(a + b, role) == count_role(a, role) + count_role(b, role),
    decreases b.len(),
{
    if b.len() == 0 {
        assert(a + b =~= a);
    } else {
        assert((a + b).drop_last() =~= a + b.drop_last());
        lemma_count_concat(a, b.drop_last(), role);
    }
}

proof fn lemma_count_push(steps: Seq<StepView>, step: StepView, role: Role)
    ensures
        count_role(steps.push(step), role) == count_role(steps, role) + if step.role == role {
            1nat
        } else {
            0nat
        },
{
    assert(steps.push(step).drop_last() =~= steps);
}

proof fn lemma_count_uniform(steps: Seq<StepView>, only: Role, role: Role)
    requires
        forall|i: int| 0 <= i < steps.len() ==> (#[trigger] steps[i]).role == only,
    ensures
        count_role(steps, role) == if role == only {
            steps.len()
        } else {
            0
        },
    decreases steps.len(),
{
    if steps.len() > 0 {
        let rest = steps.drop_last();
        assert forall|i: int| 0 <= i < rest.len() implies (#[trigger] rest[i]).role == only by {
            assert(rest[i] == steps[i]);
        }
        lemma_count_uniform(rest, only, role);
    }
}

proof fn lemma_count_symbols(file_id: Seq<char>, nodes: Seq<NodeView>, role: Role)
    ensures
        count_role(symbol_steps(file_id, nodes), role) == if role == Role::Symbol || role
            == Role::FileEdge {
            nodes.len()
        } else {
            0
        },
    decreases nodes.len(),
{
    if nodes.len() > 0 {
        lemma_count_symbols(file_id, nodes.drop_last(), role);
        let before = symbol_steps(file_id, nodes.drop_last());
        let node = node_step(nodes.last(), Role::Symbol);
        let edge = edge_step(
            file_id,
            nodes.last().id,
            EdgeType::Contains,
            Role::FileEdge,
        );
        assert(symbol_steps(file_id, nodes) == before.push(node).push(edge));
        lemma_count_push(before, node, role);
        lemma_count_push(before.push(node), edge, role);
    }
}

proof fn lemma_count_file(path: Seq<char>, parsed: ParsedView, role: Role)
    ensures
        count_role(file_steps(path, parsed), role) == if role == Role::FileStart || role
            == Role::FileNode {
            1
        } else if role == Role::Symbol {
            parsed.nodes.len()
        } else if role == Role::FileEdge {
            parsed.nodes.len() + parsed.edges.len()
        } else {
            0
        },
{
    let head = file_steps(path, parsed).subrange(0, 2);
    let symbols = symbol_steps(file_id_of(path), parsed.nodes);
    let relations = relation_steps(parsed.edges);
    assert(file_steps(path, parsed) =~= head + symbols + relations);
    lemma_count_concat(head + symbols, relations, role);
    lemma_count_concat(head, symbols, role);
    lemma_count_symbols(file_id_of(path), parsed.nodes, role);
    lemma_count_uniform(relations, Role::FileEdge, role);
    let none = Seq::<StepView>::empty();
    assert(head =~= none.push(head[0]).push(head[1]));
    lemma_count_push(none, head[0], role);
    lemma_count_push(none.push(head[0]), head[1], role);
    assert(head[0].role == Role::FileStart);
    assert(head[1].role == Role::FileNode);
}

proof fn lemma_count_files(files: Seq<(Seq<char>, ParsedView)>, role: Role)
    ensures
        count_role(all_file_steps(files), role) == if role == Role::FileStart || role
            == Role::FileNode {
            files.len()
        } else if role == Role::Symbol {
            total_nodes(files)
        } else if role == Role::FileEdge {
            total_nodes(files) + total_edges(files)
        } else {
            0
        },
    decreases files.len(),
{
    if files.len() > 0 {
        lemma_count_files(files.drop_last(), role);
        lemma_count_file(files.last().0, files.last().1, role);
        lemma_count_concat(
            all_file_steps(files.drop_last()),
            file_steps(files.last().0, files.last().1),
            role,
        );
    }
}

proof fn lemma_count_imports(files: Seq<(Seq<char>, ParsedView)>, role: Role)
    ensures
        count_role(all_import_steps(files), role) == if role == Role::CrossEdge {
            total_imports(files)
        } else {
            0
        },
    decreases files.len(),
{
    if files.len() > 0 {
        lemma_count_imports(files.drop_last(), role);
        lemma_count_uniform(import_steps(files.last().1.import_edges), Role::CrossEdge, role);
        lemma_count_concat(
            all_import_steps(files.drop_last()),
            import_steps(files.last().1.import_edges),
            role,
        );
    }
}

/// The plan of an ingestion holds one batch for each file, one entity
/// insertion for each entity, one edge insertion within a batch for each
/// entity and each edge of a file, and one edge insertion between files for
/// each import that leads to a file.
pub proof fn lemma_plan_counts(
    root: Seq<char>,
    to_delete: Seq<Seq<char>>,
    files: Seq<(Seq<char>, ParsedView)>,
)
    ensures
        count_role(plan_steps(root, to_delete, files), Role::FileStart) == files.len(),
        count_role(plan_steps(root, to_delete, files), Role::Symbol) == total_nodes(files),
        count_role(plan_steps(root, to_delete, files), Role::FileEdge) == total_nodes(files)
            + total_edges(files),
        count_role(plan_steps(root, to_delete, files), Role::CrossEdge) == total_imports(files),
        count_role(plan_steps(root, to_delete, files), Role::Removal) == to_delete.len(),
{
    let a = removal_steps(to_delete);
    let b = synthetic_steps(root);
    let c = all_file_steps(files);
    let d = all_import_steps(files);
    assert forall|role: Role| #![auto]
        count_role(plan_steps(root, to_delete, files), role) == count_role(a, role) + count_role(
            b,
            role,
        ) + count_role(c, role) + count_role(d, role) by {
        lemma_count_concat(a + b + c, d, role);
        lemma_count_concat(a + b, c, role);
        lemma_count_concat(a, b, role);
    }
    assert forall|role: Role| #![auto]
        count_role(a, role) == if role == Role::Removal {
            to_delete.len()
        } else {
            0
        } by {
        lemma_count_uniform(a, Role::Removal, role);
    }
    assert forall|role: Role| #![auto]
        role != Role::Synthetic implies count_role(b, role) == 0 by {
        lemma_count_uniform(b, Role::Synthetic, role);
    }
    lemma_count_files(files, Role::FileStart);
    lemma_count_files(files, Role::Symbol);
    lemma_count_files(files, Role::FileEdge);
    lemma_count_files(files, Role::CrossEdge);
    lemma_count_files(files, Role::Removal);
    lemma_count_imports(files, Role::FileStart);
    lemma_count_imports(files, Role::Symbol);
    lemma_count_imports(files, Role::FileEdge);
    lemma_count_imports(files, Role::CrossEdge);
    lemma_count_imports(files, Role::Removal);
}

/// After `k` successful writes the cursor stands at `k`, no error is
/// noted, and what has been counted is what the first `k` steps hold: their
/// entity insertions, their edge insertions, and the batches that end
/// among them.
pub proof fn lemma_successes_count_steps(steps: Seq<StepView>, k: nat)
    requires
        k <= steps.len() <= usize::MAX,
    ensures
        after_successes(steps, k).steps == steps,
        after_successes(steps, k).cursor == k,
        !after_successes(steps, k).had_errors,
        !after_successes(steps, k).aborted,
        after_successes(steps, k).stats.symbols_created == count_role(
            steps.take(k as int),
            Role::Symbol,
        ),
        after_successes(steps, k).stats.edges_created == count_role(
            steps.take(k as int),
            Role::FileEdge,
        ) + count_role(steps.take(k as int), Role::CrossEdge),
        after_successes(steps, k).stats.files_processed == batches_closed(steps, k),
    decreases k,
{
    if k == 0 {
        assert(steps.take(0) =~= Seq::<StepView>::empty());
    } else {
        let j = (k - 1) as nat;
        lemma_successes_count_steps(steps, j);
        let before = after_successes(steps, j);
        let step = steps[j as int];
        assert(before.current() == Some(step));
        assert(steps.take(k as int).drop_last() =~= steps.take(j as int));
        assert(steps.take(k as int).last() == step);
        lemma_count_bound(steps.take(j as int), Role::Symbol);
        lemma_count_bound(steps.take(j as int), Role::FileEdge);
        lemma_count_bound(steps.take(j as int), Role::CrossEdge);
        lemma_count_bound(steps.take(k as int), Role::FileEdge);
        lemma_count_bound(steps.take(k as int), Role::CrossEdge);
        lemma_closed_bound(steps, j);
        lemma_edges_bound(steps.take(k as int));
        lemma_edges_bound(steps.take(j as int));
        if k < steps.len() {
            lemma_batch_end_bounds(steps, k as int + 1);
        }
        assert(batch_end(steps, k as int) == k <==> (k == steps.len() || starts_batch(
            steps[k as int].role,
        )));
    }
}

proof fn lemma_edges_bound(steps: Seq<StepView>)
    ensures
        count_role(steps, Role::FileEdge) + count_role(steps, Role::CrossEdge) <= steps.len(),
    decreases steps.len(),
{
    if steps.len() > 0 {
        lemma_edges_bound(steps.drop_last());
    }
}

/// Whether a batch is open after the first `k` steps: step `k - 1` belongs
/// to a batch that step `k` continues.
pub open spec fn batch_open(steps: Seq<StepView>, k: nat) -> bool {
    0 < k < steps.len() && in_file_batch(steps[k - 1].role) && !starts_batch(steps[k as int].role)
}

/// In a list of steps in which every step that continues a batch follows a
/// step of a batch, the batches that have begun among the first `k` steps
/// are those that have ended there and the one that is open.
pub proof fn lemma_batches_begun(steps: Seq<StepView>, k: nat)
    requires
        orderly_after(false, steps),
        k <= steps.len(),
    ensures
        count_role(steps.take(k as int), Role::FileStart) == batches_closed(steps, k) + if batch_open(
            steps,
            k,
        ) {
            1nat
        } else {
            0nat
        },
    decreases k,
{
    if k == 0 {
        assert(steps.take(0) =~= Seq::<StepView>::empty());
    } else {
        let j = (k - 1) as nat;
        lemma_batches_begun(steps, j);
        assert(steps.take(k as int).drop_last() =~= steps.take(j as int));
        assert(steps.take(k as int).last() == steps[j as int]);
        assert(in_order(false, steps, j as int));
        if k < steps.len() {
            assert(in_order(false, steps, k as int));
        }
    }
}

proof fn lemma_orderly_concat(before: bool, a: Seq<StepView>, b: Seq<StepView>)
    requires
        orderly_after(before, a),
        orderly_after(ends_in_batch(before, a), b),
    ensures
        orderly_after(before, a + b),
        ends_in_batch(before, a + b) == ends_in_batch(ends_in_batch(before, a), b),
{
    let all = a + b;
    assert forall|i: int| 0 <= i < all.len() implies #[trigger] in_order(before, all, i) by {
        if i < a.len() {
            assert(in_order(before, a, i));
            assert(all[i] == a[i]);
            if i > 0 {
                assert(all[i - 1] == a[i - 1]);
            }
        } else {
            assert(in_order(ends_in_batch(before, a), b, i - a.len()));
            assert(all[i] == b[i - a.len()]);
            if i > a.len() {
                assert(all[i - 1] == b[i - a.len() - 1]);
            } else if i > 0 {
                assert(all[i - 1] == a.last());
            }
        }
    }
    if b.len() > 0 {
        assert(all.last() == b.last());
    } else {
        assert(all =~= a);
    }
}

proof fn lemma_orderly_uniform(before: bool, steps: Seq<StepView>, only: Role)
    requires
        forall|i: int| 0 <= i < steps.len() ==> (#[trigger] steps[i]).role == only,
        starts_batch(only) || (before && in_file_batch(only)),
    ensures
        orderly_after(before, steps),
        ends_in_batch(before, steps) == if steps.len() == 0 {
            before
        } else {
            in_file_batch(only)
        },
{
    assert forall|i: int| 0 <= i < steps.len() implies #[trigger] in_order(before, steps, i) by {
        assert(steps[i].role == only);
        if i > 0 {
            assert(steps[i - 1].role == only);
        }
    }
}

proof fn lemma_orderly_symbols(file_id: Seq<char>, nodes: Seq<NodeView>)
    ensures
        orderly_after(true, symbol_steps(file_id, nodes)),
        ends_in_batch(true, symbol_steps(file_id, nodes)),
        forall|i: int|
            0 <= i < symbol_steps(file_id, nodes).len() ==> in_file_batch(
                (#[trigger] symbol_steps(file_id, nodes)[i]).role,
            ),
    decreases nodes.len(),
{
    if nodes.len() > 0 {
        lemma_orderly_symbols(file_id, nodes.drop_last());
        let before = symbol_steps(file_id, nodes.drop_last());
        let all = symbol_steps(file_id, nodes);
        assert forall|i: int| 0 <= i < all.len() implies in_file_batch((#[trigger] all[i]).role) by {
            if i < before.len() {
                assert(all[i] == before[i]);
            }
        }
        assert forall|i: int| 0 <= i < all.len() implies #[trigger] in_order(true, all, i) by {
            if i > 0 {
                assert(in_file_batch(all[i - 1].role));
            }
        }
    }
}

proof fn lemma_orderly_file(before: bool, path: Seq<char>, parsed: ParsedView)
    ensures
        orderly_after(before, file_steps(path, parsed)),
        ends_in_batch(before, file_steps(path, parsed)),
{
    let head = file_steps(path, parsed).subrange(0, 2);
    let symbols = symbol_steps(file_id_of(path), parsed.nodes);
    let relations = relation_steps(parsed.edges);
    assert(file_steps(path, parsed) =~= head + symbols + relations);
    assert(head[0].role == Role::FileStart && head[1].role == Role::FileNode);
    assert forall|i: int| 0 <= i < head.len() implies #[trigger] in_order(before, head, i) by {}
    assert(orderly_after(before, head));
    assert(ends_in_batch(before, head));
    lemma_orderly_symbols(file_id_of(path), parsed.nodes);
    lemma_orderly_concat(before, head, symbols);
    lemma_orderly_uniform(true, relations, Role::FileEdge);
    lemma_orderly_concat(before, head + symbols, relations);
}

proof fn lemma_orderly_files(before: bool, files: Seq<(Seq<char>, ParsedView)>)
    ensures
        orderly_after(before, all_file_steps(files)),
    decreases files.len(),
{
    if files.len() > 0 {
        lemma_orderly_files(before, files.drop_last());
        let earlier = all_file_steps(files.drop_last());
        lemma_orderly_file(
            ends_in_batch(before, earlier),
            files.last().0,
            files.last().1,
        );
        lemma_orderly_concat(before, earlier, file_steps(files.last().0, files.last().1));
    }
}

proof fn lemma_orderly_imports(before: bool, files: Seq<(Seq<char>, ParsedView)>)
    ensures
        orderly_after(before, all_import_steps(files)),
    decreases files.len(),
{
    if files.len() > 0 {
        lemma_orderly_imports(before, files.drop_last());
        let earlier = all_import_steps(files.drop_last());
        let last = import_steps(files.last().1.import_edges);
        lemma_orderly_uniform(ends_in_batch(before, earlier), last, Role::CrossEdge);
        lemma_orderly_concat(before, earlier, last);
    }
}

/// In the plan of an ingestion every step that continues a batch follows a
/// step of that batch.
pub proof fn lemma_plan_is_orderly(
    root: Seq<char>,
    to_delete: Seq<Seq<char>>,
    files: Seq<(Seq<char>, ParsedView)>,
)
    ensures
        orderly_after(false, plan_steps(root, to_delete, files)),
{
    let a = removal_steps(to_delete);
    let b = synthetic_steps(root);
    let c = all_file_steps(files);
    let d = all_import_steps(files);
    lemma_orderly_uniform(false, a, Role::Removal);
    lemma_orderly_uniform(ends_in_batch(false, a), b, Role::Synthetic);
    lemma_orderly_concat(false, a, b);
    lemma_orderly_files(ends_in_batch(false, a + b), files);
    lemma_orderly_concat(false, a + b, c);
    lemma_orderly_imports(ends_in_batch(false, a + b + c), files);
    lemma_orderly_concat(false, a + b + c, d);
}

/// An ingestion whose writes all succeed notes no error, and counts every
/// file that it took, every entity of those files, and every edge: for each
/// file one `Contains` edge for each entity and the edges between its
/// entities, and between files one edge for each import that leads to a
/// file.
pub proof fn lemma_successful_ingestion_counts_all(
    root: Seq<char>,
    to_delete: Seq<Seq<char>>,
    files: Seq<(Seq<char>, ParsedView)>,
)
    requires
        plan_steps(root, to_delete, files).len() <= usize::MAX,
    ensures
        ({
            let steps = plan_steps(root, to_delete, files);
            let end = after_successes(steps, steps.len());
            &&& end.finished()
            &&& !end.had_errors
            &&& !end.aborted
            &&& end.stats.files_processed == files.len()
            &&& end.stats.symbols_created == total_nodes(files)
            &&& end.stats.edges_created == total_nodes(files) + total_edges(files) + total_imports(
                files,
            )
        }),
{
    let steps = plan_steps(root, to_delete, files);
    lemma_successes_count_steps(steps, steps.len());
    lemma_plan_counts(root, to_delete, files);
    lemma_plan_is_orderly(root, to_delete, files);
    lemma_batches_begun(steps, steps.len());
    assert(steps.take(steps.len() as int) =~= steps);
}

} // verus!
