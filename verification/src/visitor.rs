//! The visitor: one pass over a syntax tree that records every recognised
//! construct in the dependency graph.

use crate::frontend::{
    canonical, origin_known, path_text, raw_views, same_text, syntax_events, token_origin,
    token_str, token_text, walk, RawEvent, RawEventView,
};
use crate::graph::{replay, Modules, Occurrence, OccurrenceView};
use crate::syntax::{collect_sites, sites, NodeKind, Site, Token, WalkEvent};
use sv_parser::SyntaxTree;
use vstd::prelude::*;

verus! {

/// The kind of node that the front end gives a name.
pub open spec fn kind_of_label(label: Seq<char>) -> NodeKind {
    if label == "ModuleDeclarationNonansi"@ {
        NodeKind::ModuleDeclarationNonansi
    } else if label == "ModuleDeclarationAnsi"@ {
        NodeKind::ModuleDeclarationAnsi
    } else if label == "PackageDeclaration"@ {
        NodeKind::PackageDeclaration
    } else if label == "InterfaceDeclarationNonansi"@ {
        NodeKind::InterfaceDeclarationNonansi
    } else if label == "InterfaceDeclarationAnsi"@ {
        NodeKind::InterfaceDeclarationAnsi
    } else if label == "ModuleInstantiation"@ {
        NodeKind::ModuleInstantiation
    } else if label == "PackageImportItem"@ {
        NodeKind::PackageImportItem
    } else if label == "PackageScope"@ {
        NodeKind::PackageScope
    } else if label == "ModuleIdentifier"@ {
        NodeKind::ModuleIdentifier
    } else if label == "PackageIdentifier"@ {
        NodeKind::PackageIdentifier
    } else if label == "InterfaceIdentifier"@ {
        NodeKind::InterfaceIdentifier
    } else if label == "SimpleIdentifier"@ {
        NodeKind::SimpleIdentifier
    } else if label == "EscapedIdentifier"@ {
        NodeKind::EscapedIdentifier
    } else {
        NodeKind::Other
    }
}

/// An event of the front end as the analysis reads it.
pub open spec fn classified(event: RawEventView) -> WalkEvent {
    match event {
        RawEventView::Enter(label) => WalkEvent::Enter(kind_of_label(label)),
        RawEventView::Token(token) => WalkEvent::Token(token),
        RawEventView::Leave => WalkEvent::Leave,
    }
}

/// A walk of the front end as the analysis reads it.
pub open spec fn classified_all(events: Seq<RawEventView>) -> Seq<WalkEvent> {
    events.map_values(|e: RawEventView| classified(e))
}

/// Tells the kind of a node from the name that the front end gives it.
pub fn node_kind(label: &str) -> (kind: NodeKind)
    ensures
        kind == kind_of_label(label@),
{
    if same_text(label, "ModuleDeclarationNonansi") {
        NodeKind::ModuleDeclarationNonansi
    } else if same_text(label, "ModuleDeclarationAnsi") {
        NodeKind::ModuleDeclarationAnsi
    } else if same_text(label, "PackageDeclaration") {
        NodeKind::PackageDeclaration
    } else if same_text(label, "InterfaceDeclarationNonansi") {
        NodeKind::InterfaceDeclarationNonansi
    } else if same_text(label, "InterfaceDeclarationAnsi") {
        NodeKind::InterfaceDeclarationAnsi
    } else if same_text(label, "ModuleInstantiation") {
        NodeKind::ModuleInstantiation
    } else if same_text(label, "PackageImportItem") {
        NodeKind::PackageImportItem
    } else if same_text(label, "PackageScope") {
        NodeKind::PackageScope
    } else if same_text(label, "ModuleIdentifier") {
        NodeKind::ModuleIdentifier
    } else if same_text(label, "PackageIdentifier") {
        NodeKind::PackageIdentifier
    } else if same_text(label, "InterfaceIdentifier") {
        NodeKind::InterfaceIdentifier
    } else if same_text(label, "SimpleIdentifier") {
        NodeKind::SimpleIdentifier
    } else if same_text(label, "EscapedIdentifier") {
        NodeKind::EscapedIdentifier
    } else {
        NodeKind::Other
    }
}

/// Turns the events of the front end into the events that the analysis
/// reads, one for one.
pub fn classify(events: &Vec<RawEvent>) -> (read: Vec<WalkEvent>)
    ensures
        read@ == classified_all(raw_views(events@)),
{
    let mut read: Vec<WalkEvent> = Vec::new();
    let mut i: usize = 0;
    while i < events.len()
        invariant
            i <= events.len(),
            read.len() == i,
            forall|k: int| 0 <= k < i ==> read[k] == classified(events[k]@),
        decreases events.len() - i,
    {
        let event = match &events[i] {
            RawEvent::Enter(label) => WalkEvent::Enter(node_kind(label.as_str())),
            RawEvent::Token(token) => WalkEvent::Token(*token),
            RawEvent::Leave => WalkEvent::Leave,
        };
        read.push(event);
        i += 1;
    }
    assert(read@ =~= classified_all(raw_views(events@)));
    read
}

/// The recognised constructs of a tree that have a name, in source order.
pub open spec fn tree_sites(tree: SyntaxTree) -> Seq<Site> {
    sites(classified_all(syntax_events(tree)))
}

/// What the front end resolves of a list of sites, given for each site the
/// path that its origin resolves to, or `None` where it does not resolve.
pub open spec fn occurrences(
    tree: SyntaxTree,
    found: Seq<Site>,
    origins: Seq<Option<Seq<char>>>,
) -> Seq<OccurrenceView>
    recommends
        origins.len() == found.len(),
{
    Seq::new(
        found.len(),
        |i: int|
            OccurrenceView {
                role: found[i].role,
                name: token_str(tree, found[i].token),
                origin: origins[i],
                line: found[i].token.line,
            },
    )
}

/// Whether `origins` can be what the origins of the sites resolve to: one
/// for each site, and none for a site whose origin the front end does not
/// know. What a known origin resolves to is the file system's decision.
pub open spec fn resolvable(
    tree: SyntaxTree,
    found: Seq<Site>,
    origins: Seq<Option<Seq<char>>>,
) -> bool {
    &&& origins.len() == found.len()
    &&& forall|i: int|
        0 <= i < found.len() && !origin_known(tree, #[trigger] found[i].token) ==> origins[i]
            is None
}

/// Resolves the file that a token of the tree stems from to an absolute
/// path without symbolic links. `None` where the front end knows no origin,
/// the file system does not resolve the path, or the path is not text.
///
/// Only the first of the three can be told from the tree: what the file
/// system makes of a path that the front end did record is not known here.
fn resolve_origin(tree: &SyntaxTree, token: &Token) -> (origin: Option<String>)
    requires
        syntax_events(*tree).contains(RawEventView::Token(*token)),
    ensures
        !origin_known(*tree, *token) ==> origin is None,
{
    let recorded = match token_origin(tree, token) {
        Some(path) => path,
        None => { return None; },
    };
    match canonical(&recorded) {
        Some(resolved) => path_text(&resolved),
        None => None,
    }
}

/// Asks the front end for the name and the origin of one site of the tree.
fn resolve(tree: &SyntaxTree, site: &Site) -> (occurrence: Occurrence)
    requires
        syntax_events(*tree).contains(RawEventView::Token(site.token)),
    ensures
        occurrence@.role == site.role,
        occurrence@.name == token_str(*tree, site.token),
        occurrence@.line == site.token.line,
        !origin_known(*tree, site.token) ==> occurrence@.origin is None,
{
    let origin = resolve_origin(tree, &site.token);
    let name = token_text(tree, &site.token);
    Occurrence { role: site.role, name, origin, line: site.token.line }
}

/// Visits every node of the tree once, in source order, and records each
/// recognised construct in `output`.
///
/// The graph afterwards is the graph before with the tree's occurrences
/// recorded in order. A construct without a name records nothing. A site
/// whose origin the front end does not know is recorded without one. The
/// other origins depend on the file system, so the contract holds for the
/// paths that were resolved, whatever they are.
pub fn analyze_defs(tree: &SyntaxTree, output: &mut Modules)
    ensures
        exists|origins: Seq<Option<Seq<char>>>|
            resolvable(*tree, tree_sites(*tree), origins) && final(output)@ == replay(
                old(output)@,
                #[trigger] occurrences(*tree, tree_sites(*tree), origins),
            ),
{
    let raw = walk(tree);
    let events = classify(&raw);
    let found = collect_sites(&events);
    let ghost mut origins: Seq<Option<Seq<char>>> = Seq::empty();
    let mut i: usize = 0;
    assert(occurrences(*tree, found@.take(0), origins) =~= Seq::empty());
    while i < found.len()
        invariant
            i <= found.len(),
            resolvable(*tree, found@.take(i as int), origins),
            found@ == tree_sites(*tree),
            events@ == classified_all(syntax_events(*tree)),
            forall|k: int|
                0 <= k < found.len() ==> events@.contains(
                    WalkEvent::Token(#[trigger] found[k].token),
                ),
            output@ == replay(old(output)@, occurrences(*tree, found@.take(i as int), origins)),
        decreases found.len() - i,
    {
        let site = &found[i];
        proof {
            let at = choose|at: int|
                0 <= at < events@.len() && events@[at] == WalkEvent::Token(site.token);
            assert(syntax_events(*tree)[at] == RawEventView::Token(site.token));
        }
        let occurrence = resolve(tree, site);
        proof {
            let before = occurrences(*tree, found@.take(i as int), origins);
            origins = origins.push(occurrence@.origin);
            let after = occurrences(*tree, found@.take(i + 1), origins);
            assert(after.drop_last() =~= before);
            assert(after.last() == occurrence@);
        }
        output.record_occurrence(occurrence);
        i += 1;
    }
    assert(found@.take(found.len() as int) =~= found@);
}

} // verus!
