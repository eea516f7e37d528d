//! The module set of the web client.
use vstd::prelude::*;

use crate::modules::{ModuleDescriptor, ModuleError, ModuleRegistry, ModuleView, NavEntry};

verus! {

/// The modules of the web client, in registration order.
pub open spec fn web_modules() -> Seq<ModuleView> {
    seq![
        ("home"@, None, Some(("Home"@, "/"@))),
        ("wallets"@, None, Some(("Wallets"@, "/wallets"@))),
        ("categories"@, None, Some(("Categories"@, "/categories"@))),
        ("budgets"@, None, Some(("Budgets"@, "/budgets"@))),
        ("forecast"@, Some("budget-forecast"@), Some(("Forecast"@, "/forecast"@))),
        ("accounts"@, None, None),
    ]
}

/// Every feature module compiled into the web client.
///
/// Core modules carry no capability; only the forecast waits for the server to report
/// `budget-forecast`. The account roster has no navigation entry: it is admin-only, and the
/// page says so rather than the bar advertising a route most accounts cannot use.
pub fn module_registry() -> (r: Result<ModuleRegistry, ModuleError>)
    ensures
        r matches Ok(registry) && registry@ == web_modules(),
{
    proof {
        reveal_strlit("home");
        reveal_strlit("wallets");
        reveal_strlit("categories");
        reveal_strlit("budgets");
        reveal_strlit("forecast");
        reveal_strlit("accounts");
        assert("home"@.len() == 4 && "wallets"@.len() == 7 && "categories"@.len() == 10);
        assert("budgets"@.len() == 7 && "forecast"@.len() == 8 && "accounts"@.len() == 8);
        assert("budgets"@[0] == 'b' && "wallets"@[0] == 'w');
        assert("forecast"@[0] == 'f' && "accounts"@[0] == 'a');
    }
    let mut registry = ModuleRegistry::new();
    let home = ModuleDescriptor::core_module("home", Some(NavEntry { label: "Home", path: "/" }));
    registry.register(home)?;
    assert(registry@ =~= web_modules().take(1));
    let wallets = ModuleDescriptor::core_module(
        "wallets",
        Some(NavEntry { label: "Wallets", path: "/wallets" }),
    );
    assert(registry@[0].0 != "wallets"@);
    registry.register(wallets)?;
    assert(registry@ =~= web_modules().take(2));
    let categories = ModuleDescriptor::core_module(
        "categories",
        Some(NavEntry { label: "Categories", path: "/categories" }),
    );
    assert(registry@[0].0 != "categories"@);
    assert(registry@[1].0 != "categories"@);
    registry.register(categories)?;
    assert(registry@ =~= web_modules().take(3));
    let budgets = ModuleDescriptor::core_module(
        "budgets",
        Some(NavEntry { label: "Budgets", path: "/budgets" }),
    );
    registry.register(budgets)?;
    let forecast = ModuleDescriptor::gated(
        "forecast",
        "budget-forecast",
        Some(NavEntry { label: "Forecast", path: "/forecast" }),
    );
    registry.register(forecast)?;
    let accounts = ModuleDescriptor::core_module("accounts", None);
    registry.register(accounts)?;
    assert(registry@ =~= web_modules());
    Ok(registry)
}


/// The registry to start with. A duplicate module name is a programming error, not a
/// runtime condition, so it would leave the client running with no module rather than
/// failing at start-up; the set above has none.
pub fn module_registry_or_empty() -> (r: ModuleRegistry)
    ensures
        r@ == web_modules(),
{
    match module_registry() {
        Ok(registry) => registry,
        Err(_) => ModuleRegistry::new(),
    }
}

} // verus!
