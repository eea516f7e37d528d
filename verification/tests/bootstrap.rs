use fingest_client::error::ClientError;
use fingest_client::modules::{resolve_capabilities, Capabilities, CapabilitiesDto};
use fingest_client::{mobile, web};

fn capabilities(names: &[&str]) -> Capabilities {
    Capabilities::from_names(names.iter().map(|name| (*name).to_owned()).collect())
}

#[test]
fn modules_the_registry_builds_without_duplicates() {
    assert!(mobile::module_registry().is_ok());
}

#[test]
fn modules_core_modules_survive_a_capabilities_outage() {
    let registry = mobile::module_registry().unwrap();

    assert!(!registry.is_enabled("forecast", &Capabilities::none()));
}

#[test]
fn forecast_tab_is_hidden_without_capability() {
    let entries = mobile::module_registry().unwrap().nav(&Capabilities::none());
    assert!(entries.iter().all(|entry| entry.path != "/forecast"));
}

#[test]
fn the_forecast_tab_appears_when_its_capability_is_reported() {
    let registry = mobile::module_registry().unwrap();
    let entries = registry.nav(&capabilities(&["budget-forecast"]));
    assert!(entries.iter().any(|entry| entry.path == "/forecast"));
    assert!(registry.is_enabled("forecast", &capabilities(&["budget-forecast"])));
}

#[test]
fn the_registry_builds_without_duplicates() {
    assert!(web::module_registry().is_ok());
}

#[test]
fn core_modules_survive_a_capabilities_outage() {
    let registry = web::module_registry().unwrap();

    assert!(!registry.is_enabled("forecast", &Capabilities::none()));
}

#[test]
fn forecast_navigation_is_hidden_without_its_capability() {
    let registry = web::module_registry().unwrap();
    let entries = registry.nav(&Capabilities::none());

    assert!(entries.iter().all(|entry| entry.path != "/forecast"));
}

#[test]
fn forecast_navigation_is_visible_when_capability_is_reported() {
    let registry = web::module_registry().unwrap();
    let entries = registry.nav(&capabilities(&["budget-forecast"]));

    assert!(entries.iter().any(|entry| entry.path == "/forecast"));
    assert!(registry.is_enabled("forecast", &capabilities(&["budget-forecast"])));
}

#[test]
fn every_core_module_renders_with_nothing_reported() {
    for registry in [web::module_registry().unwrap(), mobile::module_registry().unwrap()] {
        for module in registry.all() {
            if module.required_capability.is_none() {
                assert!(registry.is_enabled(module.name, &Capabilities::none()));
            }
        }
    }
}

#[test]
fn a_reported_capability_is_granted() {
    let capabilities = resolve_capabilities(Ok(CapabilitiesDto {
        enabled: vec!["forecast".into()],
        available: vec!["forecast".into()],
        capabilities: vec!["budget-forecast".into()],
    }));

    assert!(capabilities.contains("budget-forecast"));
}

#[test]
fn a_server_without_the_endpoint_grants_nothing() {
    let capabilities = resolve_capabilities(Err(ClientError::NotFound("".into())));

    assert!(capabilities.is_empty());
}

#[test]
fn an_unreachable_server_grants_nothing() {
    let capabilities = resolve_capabilities(Err(ClientError::Network("offline".into())));

    assert!(capabilities.is_empty());
}

#[test]
fn lib_an_unreachable_server_grants_nothing() {
    let capabilities = resolve_capabilities(Err(ClientError::Network("offline".into())));

    assert!(capabilities.is_empty());
    assert!(!mobile::module_registry().unwrap().is_enabled("forecast", &capabilities));
}

#[test]
fn lib_a_reported_capability_is_granted() {
    let capabilities = resolve_capabilities(Ok(CapabilitiesDto {
        enabled: vec!["forecast".into()],
        available: vec!["forecast".into()],
        capabilities: vec!["budget-forecast".into()],
    }));

    assert!(capabilities.contains("budget-forecast"));
    assert!(mobile::module_registry().unwrap().is_enabled("forecast", &capabilities));
}

#[test]
fn an_enabled_plugin_alone_grants_nothing() {
    let capabilities = resolve_capabilities(Ok(CapabilitiesDto {
        enabled: vec!["tracing".into()],
        available: vec!["tracing".into(), "in-process".into()],
        capabilities: vec![],
    }));

    assert!(capabilities.is_empty());
}

#[test]
fn the_fallback_registry_is_the_full_one() {
    assert_eq!(web::module_registry_or_empty().all().len(), 6);
    assert_eq!(mobile::module_registry_or_empty().all().len(), 4);
    assert_eq!(
        web::module_registry_or_empty().nav(&Capabilities::none()).iter().map(|e| e.path).collect::<Vec<_>>(),
        vec!["/", "/wallets", "/categories", "/budgets"]
    );
}
