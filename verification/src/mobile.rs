//! The module set of the mobile client.
use vstd::prelude::*;

use crate::modules::{ModuleDescriptor, ModuleError, ModuleRegistry, ModuleView, NavEntry};

verus! {

/// The modules of the mobile client, in registration order.
pub open spec fn mobile_modules() -> Seq<ModuleView> {
    seq![
        ("wallets"@, None, Some(("Wallets"@, "/"@))),
        ("budgets"@, None, Some(("Budgets"@, "/budgets"@))),
        ("categories"@, None, Some(("Categories"@, "/categories"@))),
        ("forecast"@, Some("budget-forecast"@), Some(("Forecast"@, "/forecast"@))),
    ]
}

/// Every feature module compiled into the mobile app.
///
/// Deliberately not the web set: a bottom bar holds about five tabs, and account
/// administration is not something anyone does from a phone.
pub fn module_registry() -> (r: Result<ModuleRegistry, ModuleError>)
    ensures
        r matches Ok(registry) && registry@ == mobile_modules(),
{
    proof {
        reveal_strlit("wallets");
        reveal_strlit("budgets");
        reveal_strlit("categories");
        reveal_strlit("forecast");
        assert("wallets"@.len() == 7 && "budgets"@.len() == 7);
        assert("categories"@.len() == 10 && "forecast"@.len() == 8);
        assert("budgets"@[0] == 'b' && "wallets"@[0] == 'w');
    }
    let mut registry = ModuleRegistry::new();
    let wallets = ModuleDescriptor::core_module(
        "wallets",
        Some(NavEntry { label: "Wallets", path: "/" }),
    );
    registry.register(wallets)?;
    assert(registry@ =~= mobile_modules().take(1));
    let budgets = ModuleDescriptor::core_module(
        "budgets",
        Some(NavEntry { label: "Budgets", path: "/budgets" }),
    );
    registry.register(budgets)?;
    assert(registry@ =~= mobile_modules().take(2));
    let categories = ModuleDescriptor::core_module(
        "categories",
        Some(NavEntry { label: "Categories", path: "/categories" }),
    );
    registry.register(categories)?;
    assert(registry@ =~= mobile_modules().take(3));
    let forecast = ModuleDescriptor::gated(
        "forecast",
        "budget-forecast",
        Some(NavEntry { label: "Forecast", path: "/forecast" }),
    );
    registry.register(forecast)?;
    assert(registry@ =~= mobile_modules());
    Ok(registry)
}


/// The registry to start with. A duplicate module name is a programming error, not a
/// runtime condition, so it would leave the client running with no module rather than
/// failing at start-up; the set above has none.
pub fn module_registry_or_empty() -> (r: ModuleRegistry)
    ensures
        r@ == mobile_modules(),
{
    match module_registry() {
        Ok(registry) => registry,
        Err(_) => ModuleRegistry::new(),
    }
}

} // verus!
