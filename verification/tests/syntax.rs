use sv_depgraph::syntax::{
    collect_sites, construct, event_meets, find, get_identifier, Goal, NodeKind, Role, Token,
    WalkEvent,
};

fn token(offset: usize, len: usize, line: u32) -> WalkEvent {
    WalkEvent::Token(Token { offset, len, line })
}

/// A declaration of kind `kind` named by the token at `offset`, as the
/// parser lays it out: header, unit identifier, identifier, token.
fn named(kind: NodeKind, name_kind: NodeKind, offset: usize, line: u32) -> Vec<WalkEvent> {
    vec![
        WalkEvent::Enter(kind),
        WalkEvent::Enter(NodeKind::Other),
        token(offset - 7, 6, line),
        WalkEvent::Leave,
        WalkEvent::Enter(name_kind),
        WalkEvent::Enter(NodeKind::Other),
        WalkEvent::Enter(NodeKind::SimpleIdentifier),
        token(offset, 3, line),
        WalkEvent::Leave,
        WalkEvent::Leave,
        WalkEvent::Leave,
        WalkEvent::Leave,
        WalkEvent::Leave,
        WalkEvent::Leave,
    ]
}

#[test]
fn construct_roles() {
    assert_eq!(
        construct(NodeKind::ModuleDeclarationNonansi),
        Some((Role::Declaration, NodeKind::ModuleIdentifier))
    );
    assert_eq!(
        construct(NodeKind::ModuleDeclarationAnsi),
        Some((Role::Declaration, NodeKind::ModuleIdentifier))
    );
    assert_eq!(
        construct(NodeKind::PackageDeclaration),
        Some((Role::Declaration, NodeKind::PackageIdentifier))
    );
    assert_eq!(
        construct(NodeKind::InterfaceDeclarationNonansi),
        Some((Role::Declaration, NodeKind::InterfaceIdentifier))
    );
    assert_eq!(
        construct(NodeKind::InterfaceDeclarationAnsi),
        Some((Role::Declaration, NodeKind::InterfaceIdentifier))
    );
    assert_eq!(
        construct(NodeKind::ModuleInstantiation),
        Some((Role::Instance, NodeKind::ModuleIdentifier))
    );
    assert_eq!(
        construct(NodeKind::PackageImportItem),
        Some((Role::Instance, NodeKind::PackageIdentifier))
    );
    assert_eq!(
        construct(NodeKind::PackageScope),
        Some((Role::Instance, NodeKind::PackageIdentifier))
    );
    assert_eq!(construct(NodeKind::ModuleIdentifier), None);
    assert_eq!(construct(NodeKind::SimpleIdentifier), None);
    assert_eq!(construct(NodeKind::Other), None);
}

#[test]
fn event_meets_goal() {
    let enter = WalkEvent::Enter(NodeKind::ModuleIdentifier);
    assert!(event_meets(&enter, &Goal::Node(NodeKind::ModuleIdentifier)));
    assert!(!event_meets(&enter, &Goal::Node(NodeKind::PackageIdentifier)));
    assert!(!event_meets(&enter, &Goal::Identifier));
    assert!(!event_meets(&enter, &Goal::Token));
    assert!(event_meets(&WalkEvent::Enter(NodeKind::SimpleIdentifier), &Goal::Identifier));
    assert!(event_meets(&WalkEvent::Enter(NodeKind::EscapedIdentifier), &Goal::Identifier));
    assert!(event_meets(&token(0, 1, 1), &Goal::Token));
    assert!(!event_meets(&WalkEvent::Leave, &Goal::Token));
    assert!(!event_meets(&WalkEvent::Leave, &Goal::Identifier));
}

#[test]
fn find_stays_inside_the_subtree() {
    let events = vec![
        WalkEvent::Enter(NodeKind::Other),
        WalkEvent::Enter(NodeKind::Other),
        WalkEvent::Leave,
        WalkEvent::Leave,
        WalkEvent::Enter(NodeKind::ModuleIdentifier),
        WalkEvent::Leave,
    ];
    assert_eq!(find(&events, 0, Goal::Node(NodeKind::ModuleIdentifier)), None);
    assert_eq!(find(&events, 1, Goal::Node(NodeKind::ModuleIdentifier)), None);
    assert_eq!(find(&events, 4, Goal::Node(NodeKind::ModuleIdentifier)), Some(4));
    assert_eq!(find(&events, 0, Goal::Node(NodeKind::Other)), Some(0));
    assert_eq!(find(&events, 2, Goal::Node(NodeKind::ModuleIdentifier)), None);
    assert_eq!(find(&events, 6, Goal::Node(NodeKind::Other)), None);
    assert_eq!(find(&events, 60, Goal::Token), None);
}

#[test]
fn find_takes_the_first_in_source_order() {
    let events = vec![
        WalkEvent::Enter(NodeKind::Other),
        WalkEvent::Enter(NodeKind::Other),
        token(10, 2, 1),
        WalkEvent::Leave,
        WalkEvent::Leave,
        token(20, 2, 2),
        WalkEvent::Leave,
        WalkEvent::Leave,
    ];
    assert_eq!(find(&events, 0, Goal::Token), Some(2));
    assert_eq!(find(&events, 3, Goal::Token), None);
    assert_eq!(find(&events, 5, Goal::Token), Some(5));
}

#[test]
fn identifier_of_a_declaration() {
    let events = named(NodeKind::ModuleDeclarationAnsi, NodeKind::ModuleIdentifier, 7, 1);
    assert_eq!(
        get_identifier(&events, 0, NodeKind::ModuleIdentifier),
        Some(Token { offset: 7, len: 3, line: 1 })
    );
    assert_eq!(get_identifier(&events, 0, NodeKind::PackageIdentifier), None);
}

#[test]
fn escaped_identifier_is_found() {
    let events = vec![
        WalkEvent::Enter(NodeKind::ModuleInstantiation),
        WalkEvent::Enter(NodeKind::ModuleIdentifier),
        WalkEvent::Enter(NodeKind::Other),
        WalkEvent::Enter(NodeKind::EscapedIdentifier),
        token(40, 5, 9),
        WalkEvent::Leave,
        WalkEvent::Leave,
        WalkEvent::Leave,
        WalkEvent::Leave,
        WalkEvent::Leave,
    ];
    assert_eq!(
        get_identifier(&events, 0, NodeKind::ModuleIdentifier),
        Some(Token { offset: 40, len: 5, line: 9 })
    );
    let sites = collect_sites(&events);
    assert_eq!(sites.len(), 1);
    assert_eq!(sites[0].role, Role::Instance);
    assert_eq!(sites[0].token.line, 9);
}

#[test]
fn construct_without_identifier_is_skipped() {
    let events = vec![
        WalkEvent::Enter(NodeKind::ModuleDeclarationNonansi),
        WalkEvent::Enter(NodeKind::Other),
        token(0, 6, 1),
        WalkEvent::Leave,
        WalkEvent::Leave,
        WalkEvent::Leave,
        WalkEvent::Enter(NodeKind::ModuleIdentifier),
        WalkEvent::Enter(NodeKind::SimpleIdentifier),
        token(30, 4, 3),
        WalkEvent::Leave,
        WalkEvent::Leave,
        WalkEvent::Leave,
    ];
    assert_eq!(get_identifier(&events, 0, NodeKind::ModuleIdentifier), None);
    assert_eq!(collect_sites(&events).len(), 0);
}

#[test]
fn unit_identifier_without_plain_identifier_is_skipped() {
    let events = vec![
        WalkEvent::Enter(NodeKind::ModuleInstantiation),
        WalkEvent::Enter(NodeKind::ModuleIdentifier),
        WalkEvent::Leave,
        WalkEvent::Enter(NodeKind::SimpleIdentifier),
        token(5, 2, 1),
        WalkEvent::Leave,
        WalkEvent::Leave,
        WalkEvent::Leave,
    ];
    assert_eq!(get_identifier(&events, 0, NodeKind::ModuleIdentifier), None);
    assert_eq!(collect_sites(&events).len(), 0);
}

#[test]
fn sites_follow_source_order_and_nesting() {
    let mut events = vec![WalkEvent::Enter(NodeKind::Other)];
    let mut module = named(NodeKind::ModuleDeclarationAnsi, NodeKind::ModuleIdentifier, 7, 1);
    let leave = module.pop().unwrap();
    module.extend(named(NodeKind::ModuleInstantiation, NodeKind::ModuleIdentifier, 20, 2));
    module.extend(named(NodeKind::ModuleInstantiation, NodeKind::ModuleIdentifier, 40, 3));
    module.push(leave);
    events.extend(module);
    events.extend(named(NodeKind::PackageDeclaration, NodeKind::PackageIdentifier, 70, 5));
    events.push(WalkEvent::Leave);
    let sites = collect_sites(&events);
    assert_eq!(sites.len(), 4);
    assert_eq!(sites[0].role, Role::Declaration);
    assert_eq!(sites[0].token, Token { offset: 7, len: 3, line: 1 });
    assert_eq!(sites[1].role, Role::Instance);
    assert_eq!(sites[1].token, Token { offset: 20, len: 3, line: 2 });
    assert_eq!(sites[2].role, Role::Instance);
    assert_eq!(sites[2].token, Token { offset: 40, len: 3, line: 3 });
    assert_eq!(sites[3].role, Role::Declaration);
    assert_eq!(sites[3].token, Token { offset: 70, len: 3, line: 5 });
}

#[test]
fn no_events_no_sites() {
    let events: Vec<WalkEvent> = Vec::new();
    assert_eq!(collect_sites(&events).len(), 0);
    assert_eq!(find(&events, 0, Goal::Token), None);
    assert_eq!(get_identifier(&events, 0, NodeKind::ModuleIdentifier), None);
}
