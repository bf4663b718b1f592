//! The dependency graph: what is declared, what is instantiated, and the two
//! sets derived from them.

use crate::frontend::text_view;
use crate::syntax::Role;
use crate::table::{lemma_take_step_to_set, sites_of, NameTable};
use crate::unit::{clone_units, ModuleInfo, UnitView};
use vstd::prelude::*;

verus! {

/// The four tables of a dependency graph.
///
/// `declarations` holds one occurrence for each declared name, the one that
/// was recorded last. `instances` holds for each instantiated name every site
/// that names it, in the order of recording. `exports` and `missing` are
/// filled by [`Modules::reconcile`].
pub struct Modules {
    pub declarations: NameTable<ModuleInfo>,
    pub instances: NameTable<Vec<ModuleInfo>>,
    pub exports: NameTable<ModuleInfo>,
    pub missing: NameTable<Vec<ModuleInfo>>,
}

/// The mathematical value of a [`Modules`].
pub ghost struct GraphView {
    pub declarations: Map<Seq<char>, UnitView>,
    pub instances: Map<Seq<char>, Seq<UnitView>>,
    pub exports: Map<Seq<char>, UnitView>,
    pub missing: Map<Seq<char>, Seq<UnitView>>,
}

impl View for Modules {
    type V = GraphView;

    open spec fn view(&self) -> GraphView {
        GraphView {
            declarations: self.declarations@,
            instances: self.instances@,
            exports: self.exports@,
            missing: self.missing@,
        }
    }
}

/// The graph in which nothing is recorded.
pub open spec fn empty_graph() -> GraphView {
    GraphView {
        declarations: Map::empty(),
        instances: Map::empty(),
        exports: Map::empty(),
        missing: Map::empty(),
    }
}

/// The graph after a declaration is recorded: the occurrence stands under its
/// name, in place of any earlier one.
pub open spec fn with_declaration(graph: GraphView, unit: UnitView) -> GraphView {
    GraphView { declarations: graph.declarations.insert(unit.name, unit), ..graph }
}

/// The graph after an instantiation site is recorded: the site is added
/// behind the sites already recorded under its name.
pub open spec fn with_instance(graph: GraphView, unit: UnitView) -> GraphView {
    GraphView {
        instances: graph.instances.insert(
            unit.name,
            sites_of(graph.instances, unit.name).push(unit),
        ),
        ..graph
    }
}

/// A recognised construct after the front end has been asked for its name
/// and its origin. Either answer may be missing.
#[derive(Debug)]
pub struct Occurrence {
    pub role: Role,
    /// The unit's name, or `None` where the front end has no text for it.
    pub name: Option<String>,
    /// The resolved path of the file that the name stands in, or `None` where
    /// it could not be resolved.
    pub origin: Option<String>,
    /// The line of the name's token.
    pub line: u32,
}

/// The mathematical value of an [`Occurrence`].
pub ghost struct OccurrenceView {
    pub role: Role,
    pub name: Option<Seq<char>>,
    pub origin: Option<Seq<char>>,
    pub line: u32,
}

impl View for Occurrence {
    type V = OccurrenceView;

    open spec fn view(&self) -> OccurrenceView {
        OccurrenceView {
            role: self.role,
            name: text_view(self.name),
            origin: text_view(self.origin),
            line: self.line,
        }
    }
}

/// The unit that an occurrence records: none without a name; with a name,
/// the resolved file and the token's line, or an empty file and line 0 where
/// the origin is not resolved.
pub open spec fn unit_of(occurrence: OccurrenceView) -> Option<UnitView> {
    match occurrence.name {
        Some(name) => Some(
            match occurrence.origin {
                Some(file) => UnitView { name, file, line: occurrence.line as nat },
                None => UnitView { name, file: Seq::empty(), line: 0 },
            },
        ),
        None => None,
    }
}

/// The graph after an occurrence is recorded in the table of its role. An
/// occurrence without a name leaves the graph as it is.
pub open spec fn with_occurrence(graph: GraphView, occurrence: OccurrenceView) -> GraphView {
    match unit_of(occurrence) {
        Some(unit) => match occurrence.role {
            Role::Declaration => with_declaration(graph, unit),
            Role::Instance => with_instance(graph, unit),
        },
        None => graph,
    }
}

/// The graph after a list of occurrences is recorded, first to last.
pub open spec fn replay(graph: GraphView, occurrences: Seq<OccurrenceView>) -> GraphView
    decreases occurrences.len(),
{
    if occurrences.len() == 0 {
        graph
    } else {
        with_occurrence(replay(graph, occurrences.drop_last()), occurrences.last())
    }
}

/// The declared units that are never instantiated.
pub open spec fn exports_of(
    declarations: Map<Seq<char>, UnitView>,
    instances: Map<Seq<char>, Seq<UnitView>>,
) -> Map<Seq<char>, UnitView> {
    declarations.remove_keys(instances.dom())
}

/// The instantiated units that are never declared, each with all its sites.
pub open spec fn missing_of(
    declarations: Map<Seq<char>, UnitView>,
    instances: Map<Seq<char>, Seq<UnitView>>,
) -> Map<Seq<char>, Seq<UnitView>> {
    instances.remove_keys(declarations.dom())
}

/// The graph with its two derived sets brought up to date.
pub open spec fn reconciled(graph: GraphView) -> GraphView {
    GraphView {
        exports: exports_of(graph.declarations, graph.instances),
        missing: missing_of(graph.declarations, graph.instances),
        ..graph
    }
}

/// Computes the exports and the missing units of a pair of tables, which it
/// leaves as they are.
pub fn reconcile(
    declarations: &NameTable<ModuleInfo>,
    instances: &NameTable<Vec<ModuleInfo>>,
) -> (derived: (NameTable<ModuleInfo>, NameTable<Vec<ModuleInfo>>))
    ensures
        derived.0@ == exports_of(declarations@, instances@),
        derived.1@ == missing_of(declarations@, instances@),
{
    let mut exports: NameTable<ModuleInfo> = NameTable::new();
    let declared = declarations.len();
    let mut i: usize = 0;
    while i < declared
        invariant
            i <= declared,
            declared == declarations.keys().len(),
            declarations.consistent(),
            exports@ == exports_of(
                declarations@.restrict(declarations.keys().take(i as int).to_set()),
                instances@,
            ),
        decreases declared - i,
    {
        let name = declarations.name_at(i);
        proof {
            lemma_take_step_to_set(declarations.keys(), i as int);
        }
        if !instances.contains_key(name) {
            let unit = declarations.value_at(i).clone();
            exports.insert(name.clone(), unit);
        }
        assert(exports@ =~= exports_of(
            declarations@.restrict(declarations.keys().take(i + 1).to_set()),
            instances@,
        ));
        i += 1;
    }
    proof {
        assert(declarations.keys().take(declared as int) =~= declarations.keys());
        assert(exports@ =~= exports_of(declarations@, instances@));
    }

    let mut missing: NameTable<Vec<ModuleInfo>> = NameTable::new();
    let instantiated = instances.len();
    let mut j: usize = 0;
    while j < instantiated
        invariant
            j <= instantiated,
            instantiated == instances.keys().len(),
            instances.consistent(),
            missing@ == missing_of(
                declarations@,
                instances@.restrict(instances.keys().take(j as int).to_set()),
            ),
        decreases instantiated - j,
    {
        let name = instances.name_at(j);
        proof {
            lemma_take_step_to_set(instances.keys(), j as int);
        }
        if !declarations.contains_key(name) {
            let sites = clone_units(instances.value_at(j));
            missing.insert(name.clone(), sites);
        }
        assert(missing@ =~= missing_of(
            declarations@,
            instances@.restrict(instances.keys().take(j + 1).to_set()),
        ));
        j += 1;
    }
    proof {
        assert(instances.keys().take(instantiated as int) =~= instances.keys());
        assert(missing@ =~= missing_of(declarations@, instances@));
    }
    (exports, missing)
}

impl Modules {
    /// A graph in which nothing is recorded.
    pub fn new() -> (graph: Modules)
        ensures
            graph@ == empty_graph(),
    {
        Modules {
            declarations: NameTable::new(),
            instances: NameTable::new(),
            exports: NameTable::new(),
            missing: NameTable::new(),
        }
    }

    /// Records a declaration under its name. An earlier declaration of the
    /// same name is replaced.
    pub fn record_declaration(&mut self, info: ModuleInfo)
        ensures
            final(self)@ == with_declaration(old(self)@, info@),
    {
        let name = info.name.clone();
        self.declarations.insert(name, info);
    }

    /// Records an instantiation site under the name of the unit that it
    /// instantiates. Sites recorded earlier stay, in their order.
    pub fn record_instance(&mut self, info: ModuleInfo)
        ensures
            final(self)@ == with_instance(old(self)@, info@),
    {
        let name = info.name.clone();
        self.instances.append(name, info);
    }

    /// Records what the front end resolved of one construct: nothing where
    /// the name is missing, else a unit in the table of the construct's role,
    /// with an empty file and line 0 where the origin is missing.
    pub fn record_occurrence(&mut self, occurrence: Occurrence)
        ensures
            final(self)@ == with_occurrence(old(self)@, occurrence@),
    {
        let Occurrence { role, name, origin, line } = occurrence;
        let name = match name {
            Some(name) => name,
            None => { return ; },
        };
        let info = match origin {
            Some(file) => ModuleInfo { name, file, line },
            None => ModuleInfo { name, file: String::new(), line: 0 },
        };
        match role {
            Role::Declaration => self.record_declaration(info),
            Role::Instance => self.record_instance(info),
        }
    }

    /// Brings `exports` and `missing` up to date with the other two tables.
    pub fn reconcile(&mut self)
        ensures
            final(self)@ == reconciled(old(self)@),
    {
        let (exports, missing) = reconcile(&self.declarations, &self.instances);
        self.exports = exports;
        self.missing = missing;
    }
}

} // verus!
