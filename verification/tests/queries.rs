use tablegen::RecordKeeper;
use tablegen::RecordMap;
use tablegen::Registry;

fn sample_registry() -> Registry {
    let mut reg = Registry::new();
    assert!(reg.add_class(String::from("Insn")));
    assert!(reg.add_class(String::from("Pseudo")));
    assert!(reg.add_def(String::from("ADD"), vec![String::from("Insn")]));
    assert!(reg.add_def(
        String::from("NOP"),
        vec![String::from("Insn"), String::from("Pseudo")]
    ));
    assert!(reg.add_def(String::from("SUB"), vec![String::from("Insn")]));
    reg
}

fn map_names(m: &RecordMap) -> Vec<String> {
    let mut names: Vec<String> = Vec::new();
    let mut i: usize = 0;
    while i < m.len() {
        names.push(m.get(i).name().clone());
        i += 1;
    }
    names
}

#[test]
fn present_class_found_under_its_name() {
    let reg = sample_registry();
    let keeper = RecordKeeper::new(&reg);
    let rec = keeper.get_class("Insn").expect("class is present");
    assert_eq!(rec.name(), "Insn");
    let rec = keeper.get_class("Pseudo").expect("class is present");
    assert_eq!(rec.name(), "Pseudo");
    let rec = keeper.get_def("NOP").expect("def is present");
    assert_eq!(rec.name(), "NOP");
}

#[test]
fn absent_name_not_found_in_either_namespace() {
    let reg = sample_registry();
    let keeper = RecordKeeper::new(&reg);
    assert!(keeper.get_class("Missing").is_none());
    assert!(keeper.get_def("Missing").is_none());
}

#[test]
fn namespaces_are_independent() {
    let reg = sample_registry();
    let keeper = RecordKeeper::new(&reg);
    assert!(keeper.get_def("Insn").is_none());
    assert!(keeper.get_class("ADD").is_none());
}

#[test]
fn enumeration_has_registry_sizes_and_order() {
    let reg = sample_registry();
    let keeper = RecordKeeper::new(&reg);
    let classes = keeper.classes();
    assert_eq!(classes.len(), 2);
    assert_eq!(map_names(&classes), vec!["Insn", "Pseudo"]);
    let defs = keeper.defs();
    assert_eq!(defs.len(), 3);
    assert_eq!(map_names(&defs), vec!["ADD", "NOP", "SUB"]);
}

#[test]
fn repeated_enumeration_is_identical() {
    let reg = sample_registry();
    let keeper = RecordKeeper::new(&reg);
    assert_eq!(map_names(&keeper.classes()), map_names(&keeper.classes()));
    assert_eq!(map_names(&keeper.defs()), map_names(&keeper.defs()));
}

#[test]
fn nul_name_lookup_is_not_found() {
    let reg = sample_registry();
    let keeper = RecordKeeper::new(&reg);
    assert!(keeper.get_class("Insn\0trail").is_none());
    assert!(keeper.get_def("ADD\0trail").is_none());
    assert!(keeper.get_class("\0").is_none());
}

#[test]
fn builder_refuses_duplicates_and_nul_names() {
    let mut reg = sample_registry();
    assert!(!reg.add_class(String::from("Insn")));
    assert!(!reg.add_def(String::from("ADD"), Vec::new()));
    assert!(!reg.add_class(String::from("bad\0name")));
    assert!(!reg.add_def(String::from("bad\0name"), Vec::new()));
    let keeper = RecordKeeper::new(&reg);
    assert_eq!(keeper.classes().len(), 2);
    assert_eq!(keeper.defs().len(), 3);
}

#[test]
fn one_name_may_live_in_both_namespaces() {
    let mut reg = sample_registry();
    assert!(reg.add_def(String::from("Insn"), Vec::new()));
    let keeper = RecordKeeper::new(&reg);
    assert_eq!(keeper.get_class("Insn").expect("class").name(), "Insn");
    assert_eq!(keeper.get_def("Insn").expect("def").name(), "Insn");
}

#[test]
fn empty_registry_has_empty_views() {
    let reg = Registry::new();
    let keeper = RecordKeeper::new(&reg);
    assert_eq!(keeper.classes().len(), 0);
    assert_eq!(keeper.defs().len(), 0);
    assert!(keeper.get_class("anything").is_none());
    assert!(keeper.get_def("anything").is_none());
}

#[test]
fn empty_name_is_a_valid_name() {
    let mut reg = Registry::new();
    let absent = RecordKeeper::new(&reg).get_class("").is_none();
    assert!(absent);
    assert!(reg.add_class(String::new()));
    let keeper = RecordKeeper::new(&reg);
    assert_eq!(keeper.get_class("").expect("empty name stored").name(), "");
}
