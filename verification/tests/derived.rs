use tablegen::InvalidName;
use tablegen::RecordKeeper;
use tablegen::Registry;

fn instruction_registry() -> Registry {
    let mut reg = Registry::new();
    assert!(reg.add_class(String::from("Insn")));
    assert!(reg.add_class(String::from("Pseudo")));
    assert!(reg.add_class(String::from("Unused")));
    assert!(reg.add_def(String::from("ADD"), vec![String::from("Insn")]));
    assert!(reg.add_def(String::from("BR"), vec![String::from("Pseudo")]));
    assert!(reg.add_def(
        String::from("NOP"),
        vec![String::from("Insn"), String::from("Pseudo")]
    ));
    assert!(reg.add_def(String::from("SUB"), vec![String::from("Insn")]));
    reg
}

#[test]
fn class_without_derived_definitions_yields_nothing() {
    let reg = instruction_registry();
    let keeper = RecordKeeper::new(&reg);
    let mut it = match keeper.get_all_derived_definitions("Unused") {
        Ok(it) => it,
        Err(_) => panic!("a well-formed name must be accepted"),
    };
    assert!(it.next().is_none());
}

#[test]
fn unknown_class_name_yields_nothing() {
    let reg = instruction_registry();
    let keeper = RecordKeeper::new(&reg);
    let mut it = match keeper.get_all_derived_definitions("NoSuchClass") {
        Ok(it) => it,
        Err(_) => panic!("a well-formed name must be accepted"),
    };
    assert!(it.next().is_none());
}

#[test]
fn derived_definitions_come_in_registry_order() {
    let reg = instruction_registry();
    let keeper = RecordKeeper::new(&reg);
    let mut it = match keeper.get_all_derived_definitions("Insn") {
        Ok(it) => it,
        Err(_) => panic!("a well-formed name must be accepted"),
    };
    assert_eq!(it.next().expect("first match").name(), "ADD");
    assert_eq!(it.next().expect("second match").name(), "NOP");
    assert_eq!(it.next().expect("third match").name(), "SUB");
    assert!(it.next().is_none());
    assert!(it.next().is_none());
}

#[test]
fn derivation_respects_the_declared_superclasses() {
    let reg = instruction_registry();
    let keeper = RecordKeeper::new(&reg);
    let mut it = match keeper.get_all_derived_definitions("Pseudo") {
        Ok(it) => it,
        Err(_) => panic!("a well-formed name must be accepted"),
    };
    assert_eq!(it.next().expect("first match").name(), "BR");
    assert_eq!(it.next().expect("second match").name(), "NOP");
    assert!(it.next().is_none());
}

#[test]
fn nul_name_is_an_explicit_error() {
    let reg = instruction_registry();
    let keeper = RecordKeeper::new(&reg);
    match keeper.get_all_derived_definitions("Insn\0trail") {
        Ok(_) => panic!("a name with an embedded null must be refused"),
        Err(e) => assert_eq!(e, InvalidName),
    }
}

#[test]
fn early_drop_leaves_the_keeper_usable() {
    let reg = instruction_registry();
    let keeper = RecordKeeper::new(&reg);
    let mut it = match keeper.get_all_derived_definitions("Insn") {
        Ok(it) => it,
        Err(_) => panic!("a well-formed name must be accepted"),
    };
    assert_eq!(it.next().expect("first match").name(), "ADD");
    drop(it);
    assert_eq!(keeper.get_def("SUB").expect("still answers").name(), "SUB");
    let mut again = match keeper.get_all_derived_definitions("Insn") {
        Ok(it) => it,
        Err(_) => panic!("a well-formed name must be accepted"),
    };
    assert_eq!(again.next().expect("fresh stream").name(), "ADD");
    assert_eq!(again.next().expect("fresh stream").name(), "NOP");
    assert_eq!(again.next().expect("fresh stream").name(), "SUB");
    assert!(again.next().is_none());
}

#[test]
fn query_on_empty_registry_is_empty() {
    let reg = Registry::new();
    let keeper = RecordKeeper::new(&reg);
    let mut it = match keeper.get_all_derived_definitions("Insn") {
        Ok(it) => it,
        Err(_) => panic!("a well-formed name must be accepted"),
    };
    assert!(it.next().is_none());
}
