//! What holds of every dependency graph that the library builds.

use crate::graph::{
    empty_graph, exports_of, missing_of, reconciled, replay, unit_of, with_declaration,
    with_occurrence, GraphView, OccurrenceView,
};
use crate::orchestrator::{graph_after, FileOutcome};
use crate::syntax::Role;
use crate::table::sites_of;
use crate::unit::UnitView;
use vstd::prelude::*;

verus! {

/// Whether an occurrence declares the unit `name`.
pub open spec fn declares(occurrence: OccurrenceView, name: Seq<char>) -> bool {
    occurrence.role == Role::Declaration && occurrence.name == Some(name)
}

/// The site that an occurrence adds under `name`, if it instantiates that
/// unit.
pub open spec fn site_naming(name: Seq<char>) -> spec_fn(OccurrenceView) -> Option<UnitView> {
    |occurrence: OccurrenceView|
        if occurrence.role == Role::Instance && occurrence.name == Some(name) {
            unit_of(occurrence)
        } else {
            None
        }
}

/// The instantiation sites of `name` among a list of occurrences, in the
/// order of the list.
pub open spec fn sites_naming(occurrences: Seq<OccurrenceView>, name: Seq<char>) -> Seq<UnitView> {
    occurrences.filter_map(site_naming(name))
}

/// The occurrences of all parsed files, file by file in the order of the
/// source list and within a file in source order.
pub open spec fn all_occurrences(outcomes: Seq<FileOutcome>) -> Seq<OccurrenceView>
    decreases outcomes.len(),
{
    if outcomes.len() == 0 {
        Seq::empty()
    } else {
        let earlier = all_occurrences(outcomes.drop_last());
        match outcomes.last() {
            FileOutcome::Parsed(found) => earlier + found,
            FileOutcome::Rejected => earlier,
        }
    }
}

/// After reconciliation no export is instantiated and no missing unit is
/// declared; the exports are the declarations that are not instantiated, with
/// their occurrences, and the missing units are the instantiated names that
/// are not declared, with all their sites.
pub proof fn lemma_reconciled_partition(graph: GraphView)
    ensures
        reconciled(graph).exports.dom().disjoint(reconciled(graph).instances.dom()),
        reconciled(graph).missing.dom().disjoint(reconciled(graph).declarations.dom()),
        reconciled(graph).exports.dom().union(
            graph.declarations.dom().intersect(graph.instances.dom()),
        ) == graph.declarations.dom(),
        reconciled(graph).missing.dom().union(
            graph.declarations.dom().intersect(graph.instances.dom()),
        ) == graph.instances.dom(),
        reconciled(graph).exports.submap_of(graph.declarations),
        reconciled(graph).missing.submap_of(graph.instances),
        reconciled(graph).declarations == graph.declarations,
        reconciled(graph).instances == graph.instances,
{
    let done = reconciled(graph);
    let both = graph.declarations.dom().intersect(graph.instances.dom());
    assert(done.exports.dom().union(both) =~= graph.declarations.dom());
    assert(done.missing.dom().union(both) =~= graph.instances.dom());
}

/// Reconciling a reconciled graph changes nothing.
pub proof fn lemma_reconcile_idempotent(graph: GraphView)
    ensures
        reconciled(reconciled(graph)) == reconciled(graph),
{
}

/// Recording two lists one after the other is recording their
/// concatenation.
pub proof fn lemma_replay_concat(
    graph: GraphView,
    first: Seq<OccurrenceView>,
    second: Seq<OccurrenceView>,
)
    ensures
        replay(graph, first + second) == replay(replay(graph, first), second),
    decreases second.len(),
{
    if second.len() == 0 {
        assert(first + second =~= first);
    } else {
        lemma_replay_concat(graph, first, second.drop_last());
        assert((first + second).drop_last() =~= first + second.drop_last());
        assert((first + second).last() == second.last());
    }
}

/// The graph of a run is the graph of all occurrences of its parsed files,
/// recorded in file order and, within a file, in source order.
pub proof fn lemma_graph_of_run(outcomes: Seq<FileOutcome>)
    ensures
        graph_after(outcomes) == replay(empty_graph(), all_occurrences(outcomes)),
    decreases outcomes.len(),
{
    if outcomes.len() > 0 {
        lemma_graph_of_run(outcomes.drop_last());
        match outcomes.last() {
            FileOutcome::Parsed(found) => {
                lemma_replay_concat(empty_graph(), all_occurrences(outcomes.drop_last()), found);
            },
            FileOutcome::Rejected => {},
        }
    }
}

/// The sites recorded under a name are the sites that were there before,
/// followed by the instantiations of that name among the occurrences, one
/// for each and in their order. The name is a key exactly when there is at
/// least one site.
pub proof fn lemma_instances_in_order(
    graph: GraphView,
    occurrences: Seq<OccurrenceView>,
    name: Seq<char>,
)
    ensures
        sites_of(replay(graph, occurrences).instances, name) == sites_of(graph.instances, name)
            + sites_naming(occurrences, name),
        replay(graph, occurrences).instances.dom().contains(name) <==> (
        graph.instances.dom().contains(name) || sites_naming(occurrences, name).len() > 0),
    decreases occurrences.len(),
{
    if occurrences.len() == 0 {
        assert(sites_of(graph.instances, name) + sites_naming(occurrences, name) =~= sites_of(
            graph.instances,
            name,
        ));
    } else {
        let earlier = occurrences.drop_last();
        let last = occurrences.last();
        lemma_instances_in_order(graph, earlier, name);
        let before = replay(graph, earlier);
        let after = with_occurrence(before, last);
        match site_naming(name)(last) {
            Some(unit) => {
                assert(sites_naming(occurrences, name) == sites_naming(earlier, name) + seq![unit]);
                assert(sites_of(after.instances, name) =~= sites_of(before.instances, name).push(
                    unit,
                ));
                assert(sites_of(graph.instances, name) + (sites_naming(earlier, name) + seq![unit])
                    =~= (sites_of(graph.instances, name) + sites_naming(earlier, name)).push(unit));
            },
            None => {
                assert(sites_naming(occurrences, name) == sites_naming(earlier, name));
                assert(sites_of(after.instances, name) == sites_of(before.instances, name));
            },
        }
    }
}

/// For every name, the sites of a run's graph are the instantiations of
/// that name in all parsed files, as many as there are and in file order,
/// then source order. Reconciliation leaves them as they are.
pub proof fn lemma_instances_of_run(outcomes: Seq<FileOutcome>, name: Seq<char>)
    ensures
        sites_of(reconciled(graph_after(outcomes)).instances, name) == sites_naming(
            all_occurrences(outcomes),
            name,
        ),
        reconciled(graph_after(outcomes)).instances.dom().contains(name) <==> sites_naming(
            all_occurrences(outcomes),
            name,
        ).len() > 0,
{
    lemma_graph_of_run(outcomes);
    lemma_instances_in_order(empty_graph(), all_occurrences(outcomes), name);
    assert(Seq::<UnitView>::empty() + sites_naming(all_occurrences(outcomes), name)
        =~= sites_naming(all_occurrences(outcomes), name));
}

/// Declaring a name again leaves one entry for it, that of the later
/// declaration.
pub proof fn lemma_redeclaration(graph: GraphView, earlier: UnitView, later: UnitView)
    requires
        earlier.name == later.name,
    ensures
        with_declaration(with_declaration(graph, earlier), later) == with_declaration(
            graph,
            later,
        ),
        with_declaration(with_declaration(graph, earlier), later).declarations[later.name]
            == later,
{
    assert(graph.declarations.insert(earlier.name, earlier).insert(later.name, later)
        =~= graph.declarations.insert(later.name, later));
}

/// The declaration table holds for a name the unit of the last occurrence
/// that declares it, wherever the earlier declarations stood.
pub proof fn lemma_last_declaration_wins(
    graph: GraphView,
    occurrences: Seq<OccurrenceView>,
    last: int,
    name: Seq<char>,
)
    requires
        0 <= last < occurrences.len(),
        declares(occurrences[last], name),
        forall|later: int| last < later < occurrences.len() ==> !declares(occurrences[later], name),
    ensures
        replay(graph, occurrences).declarations.dom().contains(name),
        replay(graph, occurrences).declarations[name] == unit_of(occurrences[last]).unwrap(),
    decreases occurrences.len(),
{
    let earlier = occurrences.drop_last();
    if last < occurrences.len() - 1 {
        lemma_last_declaration_wins(graph, earlier, last, name);
    }
}

/// A name is declared in the graph exactly when it was declared before or
/// one of the occurrences declares it.
pub proof fn lemma_declared_names(
    graph: GraphView,
    occurrences: Seq<OccurrenceView>,
    name: Seq<char>,
)
    ensures
        replay(graph, occurrences).declarations.dom().contains(name) <==> (
        graph.declarations.dom().contains(name) || exists|at: int|
            0 <= at < occurrences.len() && declares(#[trigger] occurrences[at], name)),
    decreases occurrences.len(),
{
    if occurrences.len() > 0 {
        let earlier = occurrences.drop_last();
        lemma_declared_names(graph, earlier, name);
        if exists|at: int| 0 <= at < earlier.len() && declares(#[trigger] earlier[at], name) {
            let at = choose|at: int| 0 <= at < earlier.len() && declares(#[trigger] earlier[at], name);
            assert(declares(occurrences[at], name));
        }
        if declares(occurrences.last(), name) {
            assert(declares(occurrences[occurrences.len() - 1], name));
        }
        if exists|at: int|
            0 <= at < occurrences.len() && declares(#[trigger] occurrences[at], name) {
            let at = choose|at: int|
                0 <= at < occurrences.len() && declares(#[trigger] occurrences[at], name);
            if at < earlier.len() {
                assert(declares(earlier[at], name));
            }
        }
    }
}

/// With the same outcomes for its files, a run gives the same graph: the
/// graph depends on nothing else.
pub proof fn lemma_same_outcomes_same_graph(first: Seq<FileOutcome>, second: Seq<FileOutcome>)
    requires
        first.len() == second.len(),
        forall|i: int| 0 <= i < first.len() ==> first[i] == second[i],
    ensures
        reconciled(graph_after(first)) == reconciled(graph_after(second)),
{
    assert(first =~= second);
}

/// The derived sets of a graph without instantiations and without
/// declarations are empty.
pub proof fn lemma_empty_graph_reconciled()
    ensures
        reconciled(graph_after(Seq::empty())) == empty_graph(),
{
    assert(exports_of(Map::empty(), Map::empty()) =~= Map::empty());
    assert(missing_of(Map::empty(), Map::empty()) =~= Map::empty());
}

} // verus!
