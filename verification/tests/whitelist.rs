use whitelist_mutation::whitelist::FieldsMutatedByWhitelist;

#[test]
fn new_whitelist_permits_nothing() {
    let whitelist = FieldsMutatedByWhitelist::new();
    assert!(whitelist.is_empty());
    assert!(whitelist.functions().is_empty());
    assert!(whitelist.allowed_functions().is_empty());
    assert!(!whitelist.allows("reset"));
    assert!(!whitelist.allows(""));
}

#[test]
fn add_function_permits_that_name_only() {
    let mut whitelist = FieldsMutatedByWhitelist::new();
    whitelist.add_function("reset");
    assert!(whitelist.allows("reset"));
    assert!(!whitelist.allows("rese"));
    assert!(!whitelist.allows("reset2"));
    assert!(!whitelist.allows("Reset"));
    assert!(!whitelist.is_empty());
    assert_eq!(whitelist.functions(), &vec!["reset".to_string()]);
}

#[test]
fn add_function_twice_is_add_function_once() {
    let mut whitelist = FieldsMutatedByWhitelist::new();
    whitelist.add_function("reset");
    whitelist.add_function("reset");
    whitelist.add_function("reset");
    assert_eq!(whitelist.functions(), &vec!["reset".to_string()]);
    assert_eq!(whitelist.allowed_functions().len(), 1);
    assert!(whitelist.allows("reset"));
}

#[test]
fn functions_come_in_the_order_of_first_addition() {
    let mut whitelist = FieldsMutatedByWhitelist::new();
    for name in ["set", "clear", "set", "new", "clear", "bump"] {
        whitelist.add_function(name);
    }
    assert_eq!(
        whitelist.functions(),
        &vec!["set".to_string(), "clear".to_string(), "new".to_string(), "bump".to_string()]
    );
}

#[test]
fn allowed_functions_holds_what_functions_lists() {
    let mut whitelist = FieldsMutatedByWhitelist::new();
    for name in ["b", "a", "c", "a"] {
        whitelist.add_function(name);
    }
    let set = whitelist.allowed_functions();
    assert_eq!(set.len(), 3);
    for name in whitelist.functions() {
        assert!(set.contains(name));
    }
    assert!(set.contains("a") && set.contains("b") && set.contains("c"));
    assert!(!set.contains("d"));
}

#[test]
fn names_are_matched_exactly() {
    let mut whitelist = FieldsMutatedByWhitelist::new();
    whitelist.add_function("T::reset");
    whitelist.add_function("");
    assert!(whitelist.allows("T::reset"));
    assert!(whitelist.allows(""));
    assert!(!whitelist.allows("reset"));
    assert!(!whitelist.allows(" "));
}
