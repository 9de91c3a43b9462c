use object_syncer::configuration::{
    api_scope, env_var, metrics_address, ApiScope, Configuration, Namespaces,
};

fn some(s: &str) -> Option<String> {
    Some(s.to_string())
}

#[test]
fn variables_are_trimmed() {
    assert_eq!(env_var(some("  a b ")), some("a b"));
    assert_eq!(env_var(some(" \n")), None);
    assert_eq!(env_var(None), None);
}

#[test]
fn nothing_is_restricted_by_default() {
    let c = Configuration::new(None, some(""), some("  "));
    assert_eq!(c.resource_sync, ApiScope::All);
    assert!(c.watch_namespaces.is_none());
    assert!(c.source_namespaces.is_none());
    assert!(c.target_namespaces.is_none());
    assert!(c.watches("a") && c.reads_from("b") && c.targets("c"));
}

#[test]
fn single_namespace_is_asked_for_alone() {
    let c = Configuration::new(some("one,one"), None, some("a,b"));
    assert_eq!(c.resource_sync, ApiScope::Namespaced("one".to_string()));
    assert!(c.watches("one") && !c.watches("two"));
    assert!(c.targets("a") && c.targets("b") && !c.targets("one"));
    assert_eq!(api_scope(&c.target_namespaces), ApiScope::All);
    assert_eq!(api_scope(&c.watch_namespaces), ApiScope::Namespaced("one".to_string()));
}

#[test]
fn wildcard_and_empty_name_lift_a_restriction() {
    let c = Configuration::new(some("a,*"), some("a,,b"), some("*"));
    assert!(c.watch_namespaces.is_none());
    assert!(c.source_namespaces.is_none());
    assert!(c.target_namespaces.is_none());
    assert_eq!(c.resource_sync, ApiScope::All);
    // Names are taken as they stand between the commas.
    let c = Configuration::new(None, some("a, b"), None);
    assert!(c.reads_from("a") && c.reads_from(" b") && !c.reads_from("b"));
}

#[test]
fn sets_of_namespaces() {
    let s = Namespaces::from_list(vec!["a".to_string(), "b".to_string(), "a".to_string()]);
    assert!(s.contains("a") && s.contains("b") && !s.contains("c"));
    assert!(!s.is_empty());
    assert_eq!(s.only(), None);
    let one = Namespaces::from_list(vec!["a".to_string(), "a".to_string()]);
    assert_eq!(one.only(), Some(&"a".to_string()));
    assert!(Namespaces::from_list(vec![]).is_empty());
    assert_eq!(Namespaces::from_list(vec![]).only(), None);
    assert!(Namespaces::from_list(vec![]).clone().is_empty());
}

#[test]
fn metrics_are_served_at_port_9000_by_default() {
    assert_eq!(metrics_address(None, None), "0.0.0.0:9000");
    assert_eq!(metrics_address(some(" 127.0.0.1 "), some("81")), "127.0.0.1:81");
    assert_eq!(metrics_address(some(" "), some("81")), "0.0.0.0:81");
}
