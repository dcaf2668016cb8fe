use ketchup::namespaces::{list_namespaces, missing_namespaces, verify_namespaces, NamespaceError};

fn names(list: &[&str]) -> Vec<String> {
    list.iter().map(|s| s.to_string()).collect()
}

#[test]
fn verify_keeps_the_namespaces_that_exist() {
    let available = names(&["ns-a"]);
    let requested = names(&["ns-a", "does-not-exist"]);
    assert_eq!(verify_namespaces(&available, &requested), Ok(names(&["ns-a"])));
    assert_eq!(missing_namespaces(&available, &requested), names(&["does-not-exist"]));
}

#[test]
fn verify_fails_where_no_namespace_exists() {
    let available = names(&["ns-a"]);
    let requested = names(&["does-not-exist"]);
    assert_eq!(verify_namespaces(&available, &requested), Err(NamespaceError::NoValidNamespaces));
    assert_eq!(verify_namespaces(&available, &Vec::new()), Err(NamespaceError::NoValidNamespaces));
    assert_eq!(verify_namespaces(&Vec::new(), &requested), Err(NamespaceError::NoValidNamespaces));
    assert_eq!(NamespaceError::NoValidNamespaces.message(), "No valid namespaces found");
}

#[test]
fn verify_keeps_the_order_and_the_repeats_of_the_request() {
    let available = names(&["a", "b", "c"]);
    let requested = names(&["c", "x", "a", "c", "", "b"]);
    assert_eq!(verify_namespaces(&available, &requested), Ok(names(&["c", "a", "c", "b"])));
    assert_eq!(missing_namespaces(&available, &requested), names(&["x", ""]));
}

#[test]
fn verify_compares_names_exactly() {
    let available = names(&["Default"]);
    assert_eq!(
        verify_namespaces(&available, &names(&["default"])),
        Err(NamespaceError::NoValidNamespaces)
    );
}

#[test]
fn list_passes_over_namespaces_without_a_name() {
    let listed = vec![Some("default".to_string()), None, Some("kube-system".to_string()), None];
    assert_eq!(list_namespaces(listed), names(&["default", "kube-system"]));
    assert_eq!(list_namespaces(Vec::new()), Vec::<String>::new());
    assert_eq!(list_namespaces(vec![None]), Vec::<String>::new());
}
