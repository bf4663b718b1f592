//! The orchestrator: feeds the source files to the front end one by one,
//! carries the macro definitions from each file to the next, and hands every
//! tree that was built to the visitor.

use crate::frontend::{describe, parse_source};
use crate::graph::{empty_graph, reconciled, replay, GraphView, Modules, OccurrenceView};
use crate::unit::UnitView;
use crate::visitor::{analyze_defs, occurrences, resolvable, tree_sites};
use std::collections::HashMap;
use sv_parser::{Define, Error, SyntaxTree};
use vstd::prelude::*;

verus! {

/// The files of one analysis: the directories searched for included files,
/// and the sources in the order in which they are read.
#[derive(Debug)]
pub struct FilesInput {
    pub include_dirs: Vec<String>,
    pub source: Vec<String>,
}

/// The request for one analysis.
#[derive(Debug)]
pub struct Input {
    pub files: FilesInput,
}

/// The result of one analysis.
pub struct Output {
    pub modules: Modules,
}

/// A source file that the front end rejected, with its diagnostic.
#[derive(Debug)]
pub struct ParseFailure {
    pub path: String,
    pub diagnostic: String,
}

/// The graph of an analysis and the files that it had to skip, in the order
/// of the source list.
pub struct Analysis {
    pub output: Output,
    pub failures: Vec<ParseFailure>,
}

/// What became of one source file: it was parsed and gave a list of
/// occurrences, or it was rejected.
pub ghost enum FileOutcome {
    Parsed(Seq<OccurrenceView>),
    Rejected,
}

/// The graph after the files with the given outcomes, before the derived
/// sets are computed. A rejected file leaves no trace.
pub open spec fn graph_after(outcomes: Seq<FileOutcome>) -> GraphView
    decreases outcomes.len(),
{
    if outcomes.len() == 0 {
        empty_graph()
    } else {
        let earlier = graph_after(outcomes.drop_last());
        match outcomes.last() {
            FileOutcome::Parsed(found) => replay(earlier, found),
            FileOutcome::Rejected => earlier,
        }
    }
}

/// The paths of the rejected files, in the order of the source list.
pub open spec fn rejected_paths(paths: Seq<Seq<char>>, outcomes: Seq<FileOutcome>) -> Seq<
    Seq<char>,
>
    recommends
        paths.len() == outcomes.len(),
    decreases outcomes.len(),
{
    if outcomes.len() == 0 || paths.len() == 0 {
        Seq::empty()
    } else {
        let earlier = rejected_paths(paths.drop_last(), outcomes.drop_last());
        match outcomes.last() {
            FileOutcome::Parsed(_) => earlier,
            FileOutcome::Rejected => earlier.push(paths.last()),
        }
    }
}

/// The paths of a list of names.
pub open spec fn path_views(paths: Seq<String>) -> Seq<Seq<char>> {
    paths.map_values(|p: String| p@)
}

/// The paths of a list of failures.
pub open spec fn failure_paths(failures: Seq<ParseFailure>) -> Seq<Seq<char>> {
    failures.map_values(|f: ParseFailure| f.path@)
}

/// Takes in what the front end made of the file at `path`.
///
/// A tree is handed to the visitor, and the macro definitions that came with
/// it are the ones for the next file. A diagnostic is noted behind the
/// earlier failures with the file's path; the graph and the macro
/// definitions stay as they were.
pub fn absorb(
    parsed: Result<(SyntaxTree, HashMap<String, Option<Define>>), Error>,
    path: &String,
    defines: HashMap<String, Option<Define>>,
    output: &mut Modules,
    failures: &mut Vec<ParseFailure>,
) -> (next: HashMap<String, Option<Define>>)
    ensures
        match parsed {
            Ok((tree, updated)) => {
                &&& next == updated
                &&& final(failures)@ == old(failures)@
                &&& exists|origins: Seq<Option<Seq<char>>>|
                    resolvable(tree, tree_sites(tree), origins) && final(output)@ == replay(
                        old(output)@,
                        #[trigger] occurrences(tree, tree_sites(tree), origins),
                    )
            },
            Err(_) => {
                &&& next == defines
                &&& final(output)@ == old(output)@
                &&& final(failures)@.len() == old(failures)@.len() + 1
                &&& final(failures)@.drop_last() == old(failures)@
                &&& final(failures)@.last().path@ == path@
            },
        },
{
    match parsed {
        Ok((tree, updated)) => {
            analyze_defs(&tree, output);
            updated
        },
        Err(error) => {
            let failure = ParseFailure { path: path.clone(), diagnostic: describe(&error) };
            failures.push(failure);
            assert(failures@.drop_last() =~= old(failures)@);
            defines
        },
    }
}

/// Analyses the source files in order and reconciles the graph.
///
/// Every file ends in one of two outcomes, and the result is the reconciled
/// graph of those outcomes: a parsed file adds its occurrences behind those
/// of the files before it, a rejected file adds nothing and is listed among
/// the failures. Which outcome a file has is the front end's decision. With
/// no source file the graph is empty and nothing failed.
pub fn run_parser(data: &Input) -> (analysis: Analysis)
    ensures
        exists|outcomes: Seq<FileOutcome>|
            {
                &&& outcomes.len() == data.files.source@.len()
                &&& analysis.output.modules@ == reconciled(#[trigger] graph_after(outcomes))
                &&& failure_paths(analysis.failures@) == rejected_paths(
                    path_views(data.files.source@),
                    outcomes,
                )
            },
        data.files.source@.len() == 0 ==> analysis.output.modules@ == empty_graph()
            && analysis.failures@.len() == 0,
{
    let mut modules = Modules::new();
    let mut failures: Vec<ParseFailure> = Vec::new();
    let mut defines: HashMap<String, Option<Define>> = HashMap::new();
    let ghost mut outcomes: Seq<FileOutcome> = Seq::empty();
    let sources = &data.files.source;
    let mut i: usize = 0;
    assert(failure_paths(failures@) =~= Seq::<Seq<char>>::empty());
    while i < sources.len()
        invariant
            i <= sources.len(),
            outcomes.len() == i,
            modules@ == graph_after(outcomes),
            failure_paths(failures@) == rejected_paths(
                path_views(sources@).take(i as int),
                outcomes,
            ),
            i == 0 ==> failures@.len() == 0,
        decreases sources.len() - i,
    {
        let path = &sources[i];
        let parsed = parse_source(path, &defines, &data.files.include_dirs);
        let ghost graph_before = modules@;
        let ghost failures_before = failures@;
        let ghost front = parsed;
        defines = absorb(parsed, path, defines, &mut modules, &mut failures);
        proof {
            let paths = path_views(sources@);
            let outcome = if let Ok((tree, _)) = front {
                let origins = choose|origins: Seq<Option<Seq<char>>>|
                    resolvable(tree, tree_sites(tree), origins) && modules@ == replay(
                        graph_before,
                        #[trigger] occurrences(tree, tree_sites(tree), origins),
                    );
                FileOutcome::Parsed(occurrences(tree, tree_sites(tree), origins))
            } else {
                FileOutcome::Rejected
            };
            let extended = outcomes.push(outcome);
            assert(extended.drop_last() =~= outcomes);
            assert(paths.take(i + 1).drop_last() =~= paths.take(i as int));
            assert(paths.take(i + 1).last() == path@);
            if front.is_err() {
                assert(failure_paths(failures@) =~= failure_paths(failures_before).push(path@));
            }
            outcomes = extended;
        }
        i += 1;
    }
    proof {
        assert(path_views(sources@).take(sources.len() as int) =~= path_views(sources@));
    }
    modules.reconcile();
    proof {
        if sources@.len() == 0 {
            assert(outcomes =~= Seq::<FileOutcome>::empty());
            assert(modules@.exports =~= Map::<Seq<char>, UnitView>::empty());
            assert(modules@.missing =~= Map::<Seq<char>, Seq<UnitView>>::empty());
        }
    }
    Analysis { output: Output { modules }, failures }
}

} // verus!
