use sv_depgraph::graph::{reconcile, Modules, Occurrence};
use sv_depgraph::syntax::Role;
use sv_depgraph::table::NameTable;
use sv_depgraph::unit::{clone_units, ModuleInfo};

fn unit(name: &str, file: &str, line: u32) -> ModuleInfo {
    ModuleInfo { name: name.to_string(), file: file.to_string(), line }
}

fn key(name: &str) -> String {
    name.to_string()
}

#[test]
fn new_graph_is_empty() {
    let graph = Modules::new();
    assert_eq!(graph.declarations.len(), 0);
    assert_eq!(graph.instances.len(), 0);
    assert_eq!(graph.exports.len(), 0);
    assert_eq!(graph.missing.len(), 0);
}

#[test]
fn table_insert_and_get() {
    let mut table: NameTable<ModuleInfo> = NameTable::new();
    assert!(!table.contains_key(&key("top")));
    assert!(table.get(&key("top")).is_none());
    assert_eq!(table.position(&key("top")), None);
    table.insert(key("top"), unit("top", "/a.sv", 1));
    table.insert(key("leaf"), unit("leaf", "/b.sv", 2));
    assert_eq!(table.len(), 2);
    assert!(table.contains_key(&key("top")));
    assert_eq!(table.position(&key("leaf")), Some(1));
    assert_eq!(table.name_at(0), "top");
    assert_eq!(table.name_at(1), "leaf");
    assert_eq!(table.value_at(1).line, 2);
    let found = table.get(&key("leaf")).unwrap();
    assert_eq!(found.file, "/b.sv");
}

#[test]
fn table_insert_overwrites_in_place() {
    let mut table: NameTable<ModuleInfo> = NameTable::new();
    table.insert(key("a"), unit("a", "/1.sv", 1));
    table.insert(key("b"), unit("b", "/2.sv", 2));
    table.insert(key("a"), unit("a", "/3.sv", 3));
    assert_eq!(table.len(), 2);
    assert_eq!(table.name_at(0), "a");
    assert_eq!(table.get(&key("a")).unwrap().file, "/3.sv");
    assert_eq!(table.get(&key("a")).unwrap().line, 3);
    assert_eq!(table.get(&key("b")).unwrap().line, 2);
}

#[test]
fn table_append_keeps_order() {
    let mut table: NameTable<Vec<ModuleInfo>> = NameTable::new();
    table.append(key("leaf"), unit("leaf", "/a.sv", 3));
    table.append(key("other"), unit("other", "/a.sv", 4));
    table.append(key("leaf"), unit("leaf", "/b.sv", 9));
    assert_eq!(table.len(), 2);
    let sites = table.get(&key("leaf")).unwrap();
    assert_eq!(sites.len(), 2);
    assert_eq!(sites[0].line, 3);
    assert_eq!(sites[1].line, 9);
    assert_eq!(sites[1].file, "/b.sv");
    assert_eq!(table.get(&key("other")).unwrap().len(), 1);
}

#[test]
fn clone_keeps_fields() {
    let first = unit("top", "/a.sv", 7);
    let copy = first.clone();
    assert_eq!(copy.name, "top");
    assert_eq!(copy.file, "/a.sv");
    assert_eq!(copy.line, 7);
    let list = vec![unit("a", "/x", 1), unit("b", "/y", 2)];
    let copied = clone_units(&list);
    assert_eq!(copied.len(), 2);
    assert_eq!(copied[0].name, "a");
    assert_eq!(copied[1].file, "/y");
}

#[test]
fn duplicate_declaration_keeps_the_later_one() {
    let mut graph = Modules::new();
    graph.record_declaration(unit("top", "/first.sv", 1));
    graph.record_declaration(unit("other", "/first.sv", 5));
    graph.record_declaration(unit("top", "/second.sv", 12));
    assert_eq!(graph.declarations.len(), 2);
    let top = graph.declarations.get(&key("top")).unwrap();
    assert_eq!(top.file, "/second.sv");
    assert_eq!(top.line, 12);
}

#[test]
fn duplicate_declaration_in_one_file() {
    let mut graph = Modules::new();
    graph.record_declaration(unit("top", "/a.sv", 1));
    graph.record_declaration(unit("top", "/a.sv", 4));
    assert_eq!(graph.declarations.len(), 1);
    assert_eq!(graph.declarations.get(&key("top")).unwrap().line, 4);
}

#[test]
fn instances_are_kept_in_order_of_recording() {
    let mut graph = Modules::new();
    graph.record_instance(unit("leaf", "/a.sv", 2));
    graph.record_instance(unit("mid", "/a.sv", 3));
    graph.record_instance(unit("leaf", "/a.sv", 4));
    graph.record_instance(unit("leaf", "/b.sv", 1));
    assert_eq!(graph.instances.len(), 2);
    let leaf = graph.instances.get(&key("leaf")).unwrap();
    assert_eq!(leaf.len(), 3);
    assert_eq!((leaf[0].file.as_str(), leaf[0].line), ("/a.sv", 2));
    assert_eq!((leaf[1].file.as_str(), leaf[1].line), ("/a.sv", 4));
    assert_eq!((leaf[2].file.as_str(), leaf[2].line), ("/b.sv", 1));
    assert_eq!(graph.instances.get(&key("mid")).unwrap().len(), 1);
    assert_eq!(graph.declarations.len(), 0);
}

#[test]
fn occurrence_without_name_records_nothing() {
    let mut graph = Modules::new();
    graph.record_occurrence(Occurrence {
        role: Role::Declaration,
        name: None,
        origin: Some("/a.sv".to_string()),
        line: 3,
    });
    graph.record_occurrence(Occurrence {
        role: Role::Instance,
        name: None,
        origin: None,
        line: 4,
    });
    assert_eq!(graph.declarations.len(), 0);
    assert_eq!(graph.instances.len(), 0);
}

#[test]
fn occurrence_without_origin_has_empty_file_and_line_zero() {
    let mut graph = Modules::new();
    graph.record_occurrence(Occurrence {
        role: Role::Declaration,
        name: Some("top".to_string()),
        origin: None,
        line: 17,
    });
    graph.record_occurrence(Occurrence {
        role: Role::Instance,
        name: Some("leaf".to_string()),
        origin: None,
        line: 21,
    });
    let top = graph.declarations.get(&key("top")).unwrap();
    assert_eq!(top.name, "top");
    assert_eq!(top.file, "");
    assert_eq!(top.line, 0);
    let leaf = graph.instances.get(&key("leaf")).unwrap();
    assert_eq!(leaf[0].file, "");
    assert_eq!(leaf[0].line, 0);
}

#[test]
fn occurrence_with_origin_keeps_file_and_line() {
    let mut graph = Modules::new();
    graph.record_occurrence(Occurrence {
        role: Role::Instance,
        name: Some("leaf".to_string()),
        origin: Some("/src/top.sv".to_string()),
        line: 21,
    });
    graph.record_occurrence(Occurrence {
        role: Role::Declaration,
        name: Some("top".to_string()),
        origin: Some("/src/top.sv".to_string()),
        line: 1,
    });
    let leaf = graph.instances.get(&key("leaf")).unwrap();
    assert_eq!(leaf[0].name, "leaf");
    assert_eq!(leaf[0].file, "/src/top.sv");
    assert_eq!(leaf[0].line, 21);
    let top = graph.declarations.get(&key("top")).unwrap();
    assert_eq!(top.file, "/src/top.sv");
    assert_eq!(top.line, 1);
}

#[test]
fn declared_and_never_instantiated() {
    let mut graph = Modules::new();
    graph.record_declaration(unit("top", "/file1.sv", 1));
    graph.reconcile();
    assert_eq!(graph.declarations.len(), 1);
    assert!(graph.declarations.contains_key(&key("top")));
    assert_eq!(graph.instances.len(), 0);
    assert_eq!(graph.exports.len(), 1);
    assert_eq!(graph.exports.get(&key("top")).unwrap().file, "/file1.sv");
    assert_eq!(graph.missing.len(), 0);
}

#[test]
fn instantiated_and_never_declared() {
    let mut graph = Modules::new();
    graph.record_declaration(unit("top", "/file1.sv", 1));
    graph.record_instance(unit("top", "/file2.sv", 2));
    graph.record_instance(unit("leaf", "/file2.sv", 3));
    graph.reconcile();
    assert_eq!(graph.declarations.len(), 1);
    assert!(graph.declarations.contains_key(&key("top")));
    assert_eq!(graph.instances.len(), 2);
    assert_eq!(graph.instances.get(&key("top")).unwrap().len(), 1);
    assert_eq!(graph.instances.get(&key("leaf")).unwrap().len(), 1);
    assert_eq!(graph.exports.len(), 0);
    assert_eq!(graph.missing.len(), 1);
    let leaf = graph.missing.get(&key("leaf")).unwrap();
    assert_eq!(leaf.len(), 1);
    assert_eq!(leaf[0].file, "/file2.sv");
    assert_eq!(leaf[0].line, 3);
}

#[test]
fn reconcile_partitions_the_names() {
    let mut declarations: NameTable<ModuleInfo> = NameTable::new();
    let mut instances: NameTable<Vec<ModuleInfo>> = NameTable::new();
    declarations.insert(key("a"), unit("a", "/1", 1));
    declarations.insert(key("b"), unit("b", "/1", 2));
    declarations.insert(key("c"), unit("c", "/1", 3));
    instances.append(key("b"), unit("b", "/2", 1));
    instances.append(key("d"), unit("d", "/2", 2));
    instances.append(key("d"), unit("d", "/2", 3));
    let (exports, missing) = reconcile(&declarations, &instances);
    assert_eq!(exports.len(), 2);
    assert!(exports.contains_key(&key("a")));
    assert!(exports.contains_key(&key("c")));
    assert!(!exports.contains_key(&key("b")));
    assert_eq!(missing.len(), 1);
    assert_eq!(missing.get(&key("d")).unwrap().len(), 2);
    assert_eq!(missing.get(&key("d")).unwrap()[1].line, 3);
    assert!(!missing.contains_key(&key("b")));
    let mut i = 0;
    while i < exports.len() {
        assert!(!instances.contains_key(exports.name_at(i)));
        i += 1;
    }
    let mut j = 0;
    while j < missing.len() {
        assert!(!declarations.contains_key(missing.name_at(j)));
        j += 1;
    }
    assert_eq!(declarations.len(), 3);
    assert_eq!(instances.len(), 2);
}

#[test]
fn reconcile_twice_gives_the_same_sets() {
    let mut graph = Modules::new();
    graph.record_declaration(unit("a", "/1", 1));
    graph.record_instance(unit("b", "/1", 2));
    graph.reconcile();
    graph.reconcile();
    assert_eq!(graph.exports.len(), 1);
    assert_eq!(graph.missing.len(), 1);
    assert!(graph.exports.contains_key(&key("a")));
    assert!(graph.missing.contains_key(&key("b")));
}
