//! A syntax tree as the analysis reads it: the events of one walk over it,
//! and the search for the name of a construct.

use vstd::prelude::*;

verus! {

/// A token of the source text: where it starts, how long it is, and the
/// 1-based line it stands on.
#[derive(Clone, Copy, Debug, PartialEq, Eq, Structural)]
pub struct Token {
    pub offset: usize,
    pub len: usize,
    pub line: u32,
}

/// The kinds of syntax node that the analysis tells apart.
#[derive(Clone, Copy, Debug, PartialEq, Eq, Structural)]
pub enum NodeKind {
    ModuleDeclarationNonansi,
    ModuleDeclarationAnsi,
    PackageDeclaration,
    InterfaceDeclarationNonansi,
    InterfaceDeclarationAnsi,
    ModuleInstantiation,
    PackageImportItem,
    PackageScope,
    ModuleIdentifier,
    PackageIdentifier,
    InterfaceIdentifier,
    SimpleIdentifier,
    EscapedIdentifier,
    /// Every node that plays no part in the analysis.
    Other,
}

/// One step of a walk over a syntax tree in source order. A node is entered,
/// its children are walked, and it is left; a token is entered like a node
/// and left by the `Leave` behind it.
#[derive(Clone, Copy, Debug)]
pub enum WalkEvent {
    Enter(NodeKind),
    Token(Token),
    Leave,
}

/// What a search in a subtree is looking for.
#[derive(Clone, Copy, Debug)]
pub enum Goal {
    /// A node of the given kind.
    Node(NodeKind),
    /// A plain or an escaped identifier.
    Identifier,
    /// A token.
    Token,
}

/// Whether a construct declares a unit or uses one.
#[derive(Clone, Copy, Debug, PartialEq, Eq, Structural)]
pub enum Role {
    Declaration,
    Instance,
}

/// A recognised construct whose name was found: what it does, and the token
/// of the name.
#[derive(Clone, Copy, Debug)]
pub struct Site {
    pub role: Role,
    pub token: Token,
}

/// Whether an event is what the search is looking for.
pub open spec fn meets(event: WalkEvent, goal: Goal) -> bool {
    match goal {
        Goal::Node(kind) => event == WalkEvent::Enter(kind),
        Goal::Identifier => event == WalkEvent::Enter(NodeKind::SimpleIdentifier) || event
            == WalkEvent::Enter(NodeKind::EscapedIdentifier),
        Goal::Token => event is Token,
    }
}

/// The first position from `pos` on that meets `goal`, before the walk
/// leaves the node that it is in when `open` nodes are still entered.
pub open spec fn search(events: Seq<WalkEvent>, pos: int, open: nat, goal: Goal) -> Option<int>
    decreases events.len() - pos,
{
    if pos < 0 || pos >= events.len() {
        None
    } else if meets(events[pos], goal) {
        Some(pos)
    } else if events[pos] is Leave {
        if open <= 1 {
            None
        } else {
            search(events, pos + 1, (open - 1) as nat, goal)
        }
    } else {
        search(events, pos + 1, open + 1, goal)
    }
}

/// The first position that meets `goal` in the subtree of the node entered
/// at `start`, that node included.
pub open spec fn find_in_subtree(events: Seq<WalkEvent>, start: int, goal: Goal) -> Option<int> {
    search(events, start, 0, goal)
}

/// The role of a construct and the kind of node that holds its name, for the
/// kinds that the analysis records.
pub open spec fn construct_of(kind: NodeKind) -> Option<(Role, NodeKind)> {
    match kind {
        NodeKind::ModuleDeclarationNonansi => Some((Role::Declaration, NodeKind::ModuleIdentifier)),
        NodeKind::ModuleDeclarationAnsi => Some((Role::Declaration, NodeKind::ModuleIdentifier)),
        NodeKind::PackageDeclaration => Some((Role::Declaration, NodeKind::PackageIdentifier)),
        NodeKind::InterfaceDeclarationNonansi => Some(
            (Role::Declaration, NodeKind::InterfaceIdentifier),
        ),
        NodeKind::InterfaceDeclarationAnsi => Some(
            (Role::Declaration, NodeKind::InterfaceIdentifier),
        ),
        NodeKind::ModuleInstantiation => Some((Role::Instance, NodeKind::ModuleIdentifier)),
        NodeKind::PackageImportItem => Some((Role::Instance, NodeKind::PackageIdentifier)),
        NodeKind::PackageScope => Some((Role::Instance, NodeKind::PackageIdentifier)),
        _ => None,
    }
}

/// The token that names the construct entered at `start`: the first token of
/// the first identifier inside the first node of kind `name_kind` in its
/// subtree. `None` where one of the three is not there.
pub open spec fn name_token(events: Seq<WalkEvent>, start: int, name_kind: NodeKind) -> Option<
    Token,
> {
    match find_in_subtree(events, start, Goal::Node(name_kind)) {
        Some(unit) => match find_in_subtree(events, unit, Goal::Identifier) {
            Some(identifier) => match find_in_subtree(events, identifier, Goal::Token) {
                Some(at) => Some(events[at]->Token_0),
                None => None,
            },
            None => None,
        },
        None => None,
    }
}

/// The site that the event at `at` gives rise to, if it enters a recognised
/// construct that has a name.
pub open spec fn site_at(events: Seq<WalkEvent>, at: int) -> Option<Site> {
    match events[at] {
        WalkEvent::Enter(kind) => match construct_of(kind) {
            Some((role, name_kind)) => match name_token(events, at, name_kind) {
                Some(token) => Some(Site { role, token }),
                None => None,
            },
            None => None,
        },
        _ => None,
    }
}

/// The sites of the events from `from` on, in the order of the walk.
pub open spec fn sites_from(events: Seq<WalkEvent>, from: int) -> Seq<Site>
    decreases events.len() - from,
{
    if from < 0 || from >= events.len() {
        Seq::empty()
    } else {
        match site_at(events, from) {
            Some(site) => seq![site] + sites_from(events, from + 1),
            None => sites_from(events, from + 1),
        }
    }
}

/// All sites of a walk, in its order.
pub open spec fn sites(events: Seq<WalkEvent>) -> Seq<Site> {
    sites_from(events, 0)
}

/// A search that succeeds stops at an event that meets its goal.
pub proof fn lemma_search_hit(events: Seq<WalkEvent>, pos: int, open: nat, goal: Goal)
    requires
        search(events, pos, open, goal).is_some(),
    ensures
        pos <= search(events, pos, open, goal).unwrap() < events.len(),
        meets(events[search(events, pos, open, goal).unwrap()], goal),
    decreases events.len() - pos,
{
    if 0 <= pos < events.len() && !meets(events[pos], goal) {
        if events[pos] is Leave {
            lemma_search_hit(events, pos + 1, (open - 1) as nat, goal);
        } else {
            lemma_search_hit(events, pos + 1, open + 1, goal);
        }
    }
}

/// The token that names a construct is one of the walk's tokens.
pub proof fn lemma_name_token_occurs(events: Seq<WalkEvent>, start: int, name_kind: NodeKind)
    requires
        0 <= start,
        name_token(events, start, name_kind).is_some(),
    ensures
        events.contains(WalkEvent::Token(name_token(events, start, name_kind).unwrap())),
{
    let unit = find_in_subtree(events, start, Goal::Node(name_kind)).unwrap();
    lemma_search_hit(events, start, 0, Goal::Node(name_kind));
    let identifier = find_in_subtree(events, unit, Goal::Identifier).unwrap();
    lemma_search_hit(events, unit, 0, Goal::Identifier);
    let at = find_in_subtree(events, identifier, Goal::Token).unwrap();
    lemma_search_hit(events, identifier, 0, Goal::Token);
    assert(events[at] == WalkEvent::Token(events[at]->Token_0));
}

/// Every site of a walk is named by one of the walk's tokens.
pub proof fn lemma_site_tokens_occur(events: Seq<WalkEvent>, from: int)
    requires
        0 <= from,
    ensures
        forall|k: int|
            0 <= k < sites_from(events, from).len() ==> events.contains(
                WalkEvent::Token(#[trigger] sites_from(events, from)[k].token),
            ),
    decreases events.len() - from,
{
    if from < events.len() {
        lemma_site_tokens_occur(events, from + 1);
        match site_at(events, from) {
            Some(site) => {
                let kind = events[from]->Enter_0;
                let name_kind = construct_of(kind).unwrap().1;
                lemma_name_token_occurs(events, from, name_kind);
                let rest = sites_from(events, from + 1);
                assert forall|k: int| 0 <= k < sites_from(events, from).len() implies events.contains(
                    WalkEvent::Token(#[trigger] sites_from(events, from)[k].token),
                ) by {
                    if k > 0 {
                        assert(sites_from(events, from)[k] == rest[k - 1]);
                    }
                }
            },
            None => {},
        }
    }
}

/// Tells whether an event is what a search is looking for.
pub fn event_meets(event: &WalkEvent, goal: &Goal) -> (hit: bool)
    ensures
        hit == meets(*event, *goal),
{
    match (goal, event) {
        (Goal::Node(wanted), WalkEvent::Enter(kind)) => *kind == *wanted,
        (Goal::Identifier, WalkEvent::Enter(kind)) => *kind == NodeKind::SimpleIdentifier || *kind
            == NodeKind::EscapedIdentifier,
        (Goal::Token, WalkEvent::Token(_)) => true,
        _ => false,
    }
}

/// Searches the subtree of the node entered at `start`, that node included,
/// for the first event that meets `goal`.
pub fn find(events: &Vec<WalkEvent>, start: usize, goal: Goal) -> (found: Option<usize>)
    ensures
        found.is_some() == find_in_subtree(events@, start as int, goal).is_some(),
        found matches Some(at) ==> find_in_subtree(events@, start as int, goal) == Some(at as int)
            && at < events.len() && meets(events@[at as int], goal),
{
    let mut pos: usize = start;
    let mut open: usize = 0;
    while pos < events.len()
        invariant
            start <= pos,
            open <= pos - start,
            find_in_subtree(events@, start as int, goal) == search(
                events@,
                pos as int,
                open as nat,
                goal,
            ),
        decreases events.len() - pos,
    {
        if event_meets(&events[pos], &goal) {
            return Some(pos);
        }
        match events[pos] {
            WalkEvent::Leave => {
                if open <= 1 {
                    return None;
                }
                open -= 1;
            },
            _ => {
                open += 1;
            },
        }
        pos += 1;
    }
    None
}

/// The role and the name's node kind of a recognised construct.
pub fn construct(kind: NodeKind) -> (recognised: Option<(Role, NodeKind)>)
    ensures
        recognised == construct_of(kind),
{
    match kind {
        NodeKind::ModuleDeclarationNonansi => Some((Role::Declaration, NodeKind::ModuleIdentifier)),
        NodeKind::ModuleDeclarationAnsi => Some((Role::Declaration, NodeKind::ModuleIdentifier)),
        NodeKind::PackageDeclaration => Some((Role::Declaration, NodeKind::PackageIdentifier)),
        NodeKind::InterfaceDeclarationNonansi => Some(
            (Role::Declaration, NodeKind::InterfaceIdentifier),
        ),
        NodeKind::InterfaceDeclarationAnsi => Some(
            (Role::Declaration, NodeKind::InterfaceIdentifier),
        ),
        NodeKind::ModuleInstantiation => Some((Role::Instance, NodeKind::ModuleIdentifier)),
        NodeKind::PackageImportItem => Some((Role::Instance, NodeKind::PackageIdentifier)),
        NodeKind::PackageScope => Some((Role::Instance, NodeKind::PackageIdentifier)),
        _ => None,
    }
}

/// Finds the token that names the construct entered at `start`.
pub fn get_identifier(events: &Vec<WalkEvent>, start: usize, name_kind: NodeKind) -> (token:
    Option<Token>)
    ensures
        token == name_token(events@, start as int, name_kind),
{
    let unit = match find(events, start, Goal::Node(name_kind)) {
        Some(unit) => unit,
        None => { return None; },
    };
    let identifier = match find(events, unit, Goal::Identifier) {
        Some(identifier) => identifier,
        None => { return None; },
    };
    match find(events, identifier, Goal::Token) {
        Some(at) => match events[at] {
            WalkEvent::Token(token) => Some(token),
            _ => None,
        },
        None => None,
    }
}

/// Lists the recognised constructs of a walk that have a name, in the order
/// in which the walk enters them.
pub fn collect_sites(events: &Vec<WalkEvent>) -> (found: Vec<Site>)
    ensures
        found@ == sites(events@),
        forall|k: int|
            0 <= k < found.len() ==> events@.contains(WalkEvent::Token(#[trigger] found[k].token)),
{
    proof {
        lemma_site_tokens_occur(events@, 0);
    }
    let mut found: Vec<Site> = Vec::new();
    let mut at: usize = 0;
    while at < events.len()
        invariant
            at <= events.len(),
            sites(events@) == found@ + sites_from(events@, at as int),
        decreases events.len() - at,
    {
        let ghost before = found@;
        if let WalkEvent::Enter(kind) = events[at] {
            if let Some((role, name_kind)) = construct(kind) {
                if let Some(token) = get_identifier(events, at, name_kind) {
                    found.push(Site { role, token });
                }
            }
        }
        proof {
            match site_at(events@, at as int) {
                Some(site) => {
                    assert(found@ =~= before.push(site));
                    assert(before + (seq![site] + sites_from(events@, at + 1)) =~= found@
                        + sites_from(events@, at + 1));
                },
                None => {
                    assert(found@ == before);
                },
            }
        }
        at += 1;
    }
    assert(found@ + sites_from(events@, events.len() as int) =~= found@);
    found
}

} // verus!
