use fingest_client::modules::{
    Capabilities, CapabilitiesDto, ModuleDescriptor, ModuleError,
    ModuleRegistry, NavEntry,
};

const NAV: NavEntry = NavEntry { label: "Wallets", path: "/wallets" };

fn capabilities(names: &[&str]) -> Capabilities {
    Capabilities::from_names(names.iter().map(|n| (*n).to_owned()).collect())
}

fn registry() -> ModuleRegistry {
    let mut registry = ModuleRegistry::new();
    registry.register(ModuleDescriptor::core_module("wallets", Some(NAV))).unwrap();
    registry
        .register(ModuleDescriptor::gated(
            "forecast",
            "budget-forecast",
            Some(NavEntry { label: "Forecast", path: "/forecast" }),
        ))
        .unwrap();
    registry
}

#[test]
fn a_core_module_renders_even_with_nothing_reported() {
    assert!(registry().is_enabled("wallets", &Capabilities::none()));
}

#[test]
fn a_gated_module_needs_its_capability() {
    let registry = registry();

    assert!(!registry.is_enabled("forecast", &Capabilities::none()));
    assert!(registry.is_enabled("forecast", &capabilities(&["budget-forecast"])));
}

#[test]
fn an_unrelated_capability_does_not_unlock_a_module() {
    assert!(!registry().is_enabled("forecast", &capabilities(&["audit-trail"])));
}

#[test]
fn an_unregistered_module_is_never_enabled() {
    assert!(!registry().is_enabled("does-not-exist", &capabilities(&["budget-forecast"])));
}

#[test]
fn navigation_hides_what_cannot_be_reached() {
    let registry = registry();

    assert_eq!(registry.nav(&Capabilities::none()), vec![NAV]);
    assert_eq!(registry.nav(&capabilities(&["budget-forecast"])).len(), 2);
}

#[test]
fn registering_the_same_name_twice_is_rejected() {
    let mut registry = registry();

    let err = registry.register(ModuleDescriptor::core_module("wallets", None)).unwrap_err();

    assert_eq!(err, ModuleError::Duplicate("wallets".into()));
}

#[test]
fn plugin_names_do_not_leak_into_the_gate() {
    let dto = CapabilitiesDto {
        enabled: vec!["forecast".into()],
        available: vec!["forecast".into()],
        capabilities: vec![],
    };

    let capabilities = Capabilities::from_dto(&dto);

    assert!(capabilities.is_empty());
    assert!(!registry().is_enabled("forecast", &capabilities));
}

#[test]
fn a_declared_capability_unlocks_its_module() {
    let dto = CapabilitiesDto {
        enabled: vec!["forecast".into()],
        available: vec!["forecast".into()],
        capabilities: vec!["budget-forecast".into()],
    };

    assert!(registry().is_enabled("forecast", &Capabilities::from_dto(&dto)));
}

#[test]
fn an_absent_report_degrades_to_core_modules_only() {
    let registry = registry();
    let enabled = registry.enabled(&Capabilities::none());

    assert_eq!(enabled.len(), 1);
    assert_eq!(enabled[0].name, "wallets");
}

#[test]
fn a_refused_registration_changes_nothing() {
    let mut registry = registry();
    let before = registry.all().to_vec();

    assert!(registry.register(ModuleDescriptor::gated("forecast", "other", None)).is_err());

    assert_eq!(registry.all().to_vec(), before);
}


#[test]
fn the_default_report_is_nothing_and_order_does_not_matter() {
    let none = Capabilities::none();

    assert_eq!(none, Capabilities::default());
    assert!(none.is_empty());
    assert!(!none.contains("budgets"));
    let ab = Capabilities::from_names(vec!["a".into(), "b".into()]);
    let ba = Capabilities::from_names(vec!["b".into(), "a".into(), "b".into()]);
    assert_eq!(ab, ba);
    assert_ne!(ab, Capabilities::from_names(vec!["a".into()]));
    assert!(ab.includes(&Capabilities::from_names(vec!["a".into()])));
    assert!(!Capabilities::from_names(vec!["a".into()]).includes(&ab));
    assert!(ModuleRegistry::default().enabled(&ab).is_empty());
}
