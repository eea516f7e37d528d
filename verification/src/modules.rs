//! Which feature modules a client may render.
//!
//! Everything here fails closed. A capability that was not positively reported is absent,
//! so a network failure, an old server or a typo hides a feature rather than exposing one.
use vstd::prelude::*;

use crate::text::same_text;
use crate::error::ClientError;

verus! {

broadcast use vstd::seq_lib::group_seq_properties;

#[derive(Debug, Clone, PartialEq, Eq)]
pub enum ModuleError {
    /// Two modules were registered under one name.
    Duplicate(String),
}

/// The capability report of `GET /api/capabilities`.
///
/// `enabled` and `available` list the server's plugins, for people reading a report; the
/// gate looks at `capabilities` alone.
#[derive(Debug, Clone, PartialEq, Eq)]
pub struct CapabilitiesDto {
    pub enabled: Vec<String>,
    pub available: Vec<String>,
    pub capabilities: Vec<String>,
}

/// What the running server said it can do.
#[derive(Debug, Clone)]
pub struct Capabilities {
    names: Vec<String>,
}

impl View for Capabilities {
    type V = Set<Seq<char>>;

    closed spec fn view(&self) -> Set<Seq<char>> {
        self.names@.map_values(|s: String| s@).to_set()
    }
}

/// The names in `v`, as character sequences.
pub open spec fn names_of(v: Seq<String>) -> Set<Seq<char>> {
    v.map_values(|s: String| s@).to_set()
}

/// A copy of `names`, string by string.
fn copy_names(names: &Vec<String>) -> (r: Vec<String>)
    ensures
        r@.map_values(|s: String| s@) == names@.map_values(|s: String| s@),
{
    let mut r: Vec<String> = Vec::new();
    let mut i: usize = 0;
    while i < names.len()
        invariant
            i <= names.len(),
            r@.len() == i,
            forall|k: int| 0 <= k < i ==> #[trigger] r@[k]@ == names@[k]@,
        decreases names.len() - i,
    {
        r.push(names[i].as_str().to_owned());
        i = i + 1;
    }
    assert(r@.map_values(|s: String| s@) =~= names@.map_values(|s: String| s@));
    r
}

impl Capabilities {
    /// The only correct answer when the server could not be asked: nothing.
    pub fn none() -> (r: Capabilities)
        ensures
            r@ == Set::<Seq<char>>::empty(),
    {
        let r = Capabilities { names: Vec::new() };
        assert(r@ =~= Set::<Seq<char>>::empty());
        r
    }

    /// Exactly the capabilities named in `names`.
    pub fn from_names(names: Vec<String>) -> (r: Capabilities)
        ensures
            r@ == names_of(names@),
    {
        Capabilities { names }
    }

    /// Reads the declared capabilities, never the plugin names: a plugin name is how the
    /// server's build is packaged, a capability is the contract.
    pub fn from_dto(dto: &CapabilitiesDto) -> (r: Capabilities)
        ensures
            r@ == names_of(dto.capabilities@),
    {
        Capabilities { names: copy_names(&dto.capabilities) }
    }

    pub fn contains(&self, capability: &str) -> (r: bool)
        ensures
            r == self@.contains(capability@),
    {
        let mut i: usize = 0;
        while i < self.names.len()
            invariant
                i <= self.names@.len(),
                forall|k: int| 0 <= k < i ==> #[trigger] self.names@[k]@ != capability@,
            decreases self.names.len() - i,
        {
            if same_text(self.names[i].as_str(), capability) {
                assert(self.names@.map_values(|s: String| s@)[i as int] == capability@);
                return true;
            }
            i = i + 1;
        }
        proof {
            if self@.contains(capability@) {
                let k = self.names@.map_values(|s: String| s@).index_of(capability@);
                assert(self.names@[k]@ == capability@);
            }
        }
        false
    }

    pub fn is_empty(&self) -> (r: bool)
        ensures
            r == (self@ == Set::<Seq<char>>::empty()),
    {
        proof {
            if self.names@.len() > 0 {
                let mapped = self.names@.map_values(|s: String| s@);
                assert(mapped[0] == self.names@[0]@);
                assert(mapped.contains(mapped[0]));
                assert(self@.contains(self.names@[0]@));
            } else {
                assert(self@ =~= Set::<Seq<char>>::empty());
            }
        }
        self.names.len() == 0
    }
}

/// Turns whatever the capabilities endpoint did into a capability set.
///
/// Every failure (a 404 from a server that predates the endpoint, an outage, a body that
/// does not parse) resolves to nothing enabled, so no failure can widen what is exposed.
pub fn resolve_capabilities(reported: Result<CapabilitiesDto, ClientError>) -> (r: Capabilities)
    ensures
        r@ == match reported {
            Ok(dto) => names_of(dto.capabilities@),
            Err(_) => Set::<Seq<char>>::empty(),
        },
{
    match reported {
        Ok(dto) => Capabilities::from_dto(&dto),
        Err(_) => Capabilities::none(),
    }
}

/// A navigation entry: what the link says and where it goes.
#[derive(Debug, Clone, Copy, PartialEq, Eq)]
pub struct NavEntry {
    pub label: &'static str,
    pub path: &'static str,
}

impl View for NavEntry {
    type V = (Seq<char>, Seq<char>);

    open spec fn view(&self) -> (Seq<char>, Seq<char>) {
        (self.label@, self.path@)
    }
}

/// A module as plain text: its name, the capability it needs, its navigation entry.
pub type ModuleView = (Seq<char>, Option<Seq<char>>, Option<(Seq<char>, Seq<char>)>);

/// One feature area of the UI.
#[derive(Debug, Clone, Copy, PartialEq, Eq)]
pub struct ModuleDescriptor {
    pub name: &'static str,
    /// `None` marks a core module. Core modules are always present, so a capabilities
    /// outage cannot blank the application.
    pub required_capability: Option<&'static str>,
    pub nav: Option<NavEntry>,
}

impl View for ModuleDescriptor {
    type V = ModuleView;

    open spec fn view(&self) -> ModuleView {
        (
            self.name@,
            match self.required_capability {
                Some(c) => Some(c@),
                None => None,
            },
            match self.nav {
                Some(n) => Some(n@),
                None => None,
            },
        )
    }
}

/// Whether a module needing `required` renders given `capabilities`.
pub open spec fn module_enabled(m: ModuleView, capabilities: Set<Seq<char>>) -> bool {
    match m.1 {
        None => true,
        Some(required) => capabilities.contains(required),
    }
}

impl ModuleDescriptor {
    /// A module that is always present.
    pub fn core_module(name: &'static str, nav: Option<NavEntry>) -> (r: ModuleDescriptor)
        ensures
            r.name == name,
            r.required_capability.is_none(),
            r.nav == nav,
    {
        ModuleDescriptor { name, required_capability: None, nav }
    }

    /// A module that renders only where `required_capability` was reported.
    pub fn gated(name: &'static str, required_capability: &'static str, nav: Option<NavEntry>) -> (r:
        ModuleDescriptor)
        ensures
            r.name == name,
            r.required_capability == Some(required_capability),
            r.nav == nav,
    {
        ModuleDescriptor { name, required_capability: Some(required_capability), nav }
    }

    pub fn is_enabled(&self, capabilities: &Capabilities) -> (r: bool)
        ensures
            r == module_enabled(self@, capabilities@),
    {
        match self.required_capability {
            None => true,
            Some(required) => capabilities.contains(required),
        }
    }
}

/// The modules of `ms` that render given `capabilities`, in order.
pub open spec fn enabled_modules(ms: Seq<ModuleView>, capabilities: Set<Seq<char>>) -> Seq<
    ModuleView,
> {
    ms.filter(|m: ModuleView| module_enabled(m, capabilities))
}

/// The navigation entries of the modules of `ms` that render given `capabilities`, in order.
pub open spec fn nav_entries(ms: Seq<ModuleView>, capabilities: Set<Seq<char>>) -> Seq<
    (Seq<char>, Seq<char>),
> {
    ms.filter_map(
        |m: ModuleView|
            if module_enabled(m, capabilities) {
                m.2
            } else {
                None
            },
    )
}

/// No two modules of `ms` share a name.
pub open spec fn distinct_names(ms: Seq<ModuleView>) -> bool {
    forall|i: int, j: int| 0 <= i < j < ms.len() ==> #[trigger] ms[i].0 != #[trigger] ms[j].0
}

impl Capabilities {
    /// Whether every capability of `other` is one of these.
    pub fn includes(&self, other: &Capabilities) -> (r: bool)
        ensures
            r == other@.subset_of(self@),
    {
        let mut i: usize = 0;
        while i < other.names.len()
            invariant
                i <= other.names@.len(),
                forall|k: int| 0 <= k < i ==> self@.contains(#[trigger] other.names@[k]@),
            decreases other.names.len() - i,
        {
            if !self.contains(other.names[i].as_str()) {
                proof {
                    let mapped = other.names@.map_values(|s: String| s@);
                    assert(mapped[i as int] == other.names@[i as int]@);
                    assert(other@.contains(other.names@[i as int]@));
                }
                return false;
            }
            i = i + 1;
        }
        proof {
            assert forall|c: Seq<char>| other@.contains(c) implies self@.contains(c) by {
                let mapped = other.names@.map_values(|s: String| s@);
                let k = mapped.index_of(c);
                assert(other.names@[k]@ == c);
            }
        }
        true
    }
}

/// Two reports are equal when they name the same capabilities, in whatever order.
impl PartialEq for Capabilities {
    fn eq(&self, other: &Capabilities) -> (r: bool) {
        let r = self.includes(other) && other.includes(self);
        proof {
            if r {
                assert(self@ =~= other@);
            }
        }
        r
    }
}

impl vstd::std_specs::cmp::PartialEqSpecImpl for Capabilities {
    open spec fn obeys_eq_spec() -> bool {
        true
    }

    open spec fn eq_spec(&self, other: &Capabilities) -> bool {
        self@ == other@
    }
}

impl Eq for Capabilities {

}

impl Default for Capabilities {
    /// Nothing, as [`Capabilities::none`].
    fn default() -> (r: Capabilities)
        ensures
            r@ == Set::<Seq<char>>::empty(),
    {
        Capabilities::none()
    }
}

/// Every module compiled into a client. Capabilities select which are reachable.
#[derive(Debug, Clone)]
pub struct ModuleRegistry {
    modules: Vec<ModuleDescriptor>,
}

impl View for ModuleRegistry {
    type V = Seq<ModuleView>;

    closed spec fn view(&self) -> Seq<ModuleView> {
        self.modules@.map_values(|m: ModuleDescriptor| m@)
    }
}

impl ModuleRegistry {
    pub fn new() -> (r: ModuleRegistry)
        ensures
            r@ == Seq::<ModuleView>::empty(),
    {
        let r = ModuleRegistry { modules: Vec::new() };
        assert(r@ =~= Seq::<ModuleView>::empty());
        r
    }
}

impl Default for ModuleRegistry {
    /// No module registered, as [`ModuleRegistry::new`].
    fn default() -> (r: ModuleRegistry)
        ensures
            r@ == Seq::<ModuleView>::empty(),
    {
        ModuleRegistry::new()
    }
}

impl ModuleRegistry {

    /// Adds `module` after the others; a name already registered is refused rather than
    /// shadowed, and then nothing changes.
    pub fn register(&mut self, module: ModuleDescriptor) -> (r: Result<(), ModuleError>)
        ensures
            (exists|i: int| 0 <= i < old(self)@.len() && #[trigger] old(self)@[i].0 == module.name@)
                ==> {
                &&& r matches Err(ModuleError::Duplicate(n)) && n@ == module.name@
                &&& final(self)@ == old(self)@
            },
            !(exists|i: int| 0 <= i < old(self)@.len() && #[trigger] old(self)@[i].0 == module.name@)
                ==> {
                &&& r is Ok
                &&& final(self)@ == old(self)@.push(module@)
            },
            distinct_names(old(self)@) ==> distinct_names(final(self)@),
    {
        let mut i: usize = 0;
        while i < self.modules.len()
            invariant
                i <= self.modules@.len(),
                self == old(self),
                forall|k: int| 0 <= k < i ==> #[trigger] self.modules@[k].name@ != module.name@,
            decreases self.modules.len() - i,
        {
            if same_text(self.modules[i].name, module.name) {
                assert(self@[i as int].0 == module.name@);
                return Err(ModuleError::Duplicate(module.name.to_owned()));
            }
            i = i + 1;
        }
        proof {
            assert forall|k: int| 0 <= k < old(self)@.len() implies #[trigger] old(self)@[k].0
                != module.name@ by {
                assert(self.modules@[k].name@ != module.name@);
            }
        }
        self.modules.push(module);
        proof {
            assert(self@ =~= old(self)@.push(module@));
        }
        Ok(())
    }

    pub fn all(&self) -> (r: &[ModuleDescriptor])
        ensures
            r@.map_values(|m: ModuleDescriptor| m@) == self@,
    {
        self.modules.as_slice()
    }

    /// The modules that render given `capabilities`, in registration order.
    pub fn enabled(&self, capabilities: &Capabilities) -> (r: Vec<ModuleDescriptor>)
        ensures
            r@.map_values(|m: ModuleDescriptor| m@) == enabled_modules(self@, capabilities@),
    {
        let ghost pred = |m: ModuleView| module_enabled(m, capabilities@);
        let mut r: Vec<ModuleDescriptor> = Vec::new();
        let mut i: usize = 0;
        while i < self.modules.len()
            invariant
                i <= self.modules@.len(),
                pred == (|m: ModuleView| module_enabled(m, capabilities@)),
                r@.map_values(|m: ModuleDescriptor| m@) == self@.take(i as int).filter(pred),
            decreases self.modules.len() - i,
        {
            let m = self.modules[i];
            let on = m.is_enabled(capabilities);
            if on {
                r.push(m);
            }
            proof {
                assert(self@.take(i + 1) =~= self@.take(i as int).push(m@));
                self@.take(i as int).lemma_filter_push(m@, pred);
                assert(r@.map_values(|m: ModuleDescriptor| m@) =~= self@.take(i + 1).filter(
                    pred,
                ));
            }
            i = i + 1;
        }
        assert(self@.take(i as int) =~= self@);
        r
    }

    /// Whether the module named `name` may render. An unregistered name is not enabled, so
    /// a deep link into a disabled module behaves as one into a route that does not exist.
    pub fn is_enabled(&self, name: &str, capabilities: &Capabilities) -> (r: bool)
        ensures
            r == exists|i: int|
                0 <= i < self@.len() && #[trigger] self@[i].0 == name@ && module_enabled(
                    self@[i],
                    capabilities@,
                ),
            (forall|i: int| 0 <= i < self@.len() ==> #[trigger] self@[i].0 != name@) ==> !r,
    {
        let mut i: usize = 0;
        while i < self.modules.len()
            invariant
                i <= self.modules@.len(),
                forall|k: int|
                    0 <= k < i ==> #[trigger] self@[k].0 != name@ || !module_enabled(
                        self@[k],
                        capabilities@,
                    ),
            decreases self.modules.len() - i,
        {
            if same_text(self.modules[i].name, name) {
                let on = self.modules[i].is_enabled(capabilities);
                if on {
                    assert(self@[i as int].0 == name@);
                    return true;
                }
            }
            i = i + 1;
        }
        false
    }

    /// Navigation for the modules a session can actually reach, in registration order.
    pub fn nav(&self, capabilities: &Capabilities) -> (r: Vec<NavEntry>)
        ensures
            r@.map_values(|n: NavEntry| n@) == nav_entries(self@, capabilities@),
    {
        let ghost f = |m: ModuleView|
            if module_enabled(m, capabilities@) {
                m.2
            } else {
                None
            };
        let mut r: Vec<NavEntry> = Vec::new();
        let mut i: usize = 0;
        while i < self.modules.len()
            invariant
                i <= self.modules@.len(),
                f == (|m: ModuleView|
                    if module_enabled(m, capabilities@) {
                        m.2
                    } else {
                        None
                    }),
                r@.map_values(|n: NavEntry| n@) == self@.take(i as int).filter_map(f),
            decreases self.modules.len() - i,
        {
            let m = self.modules[i];
            let on = m.is_enabled(capabilities);
            proof {
                self@.lemma_filter_map_take_succ(f, i as int);
            }
            if on {
                match m.nav {
                    Some(entry) => {
                        r.push(entry);
                    },
                    None => {},
                }
            }
            proof {
                assert(r@.map_values(|n: NavEntry| n@) =~= self@.take(i + 1).filter_map(f));
            }
            i = i + 1;
        }
        assert(self@.take(i as int) =~= self@);
        r
    }
}

/// A core module renders whatever the server reported, so a capabilities outage cannot
/// blank the application.
pub proof fn lemma_core_modules_always_render(m: ModuleView, capabilities: Set<Seq<char>>)
    requires
        m.1 is None,
    ensures
        module_enabled(m, capabilities),
{
}

/// With nothing reported, which is what every failure of the capabilities call resolves to,
/// exactly the core modules render, in registration order.
pub proof fn lemma_nothing_reported_leaves_the_core(ms: Seq<ModuleView>)
    ensures
        enabled_modules(ms, Set::empty()) == ms.filter(|m: ModuleView| m.1 is None),
{
    let empty = Set::<Seq<char>>::empty();
    assert((|m: ModuleView| module_enabled(m, empty)) =~= (|m: ModuleView| m.1 is None));
}

/// A report only ever unlocks: a module that renders under some report still renders under
/// any report naming more capabilities. In particular nothing that renders when the
/// capabilities call fails is hidden by a successful one, and no failure shows more.
pub proof fn lemma_reports_only_unlock(
    ms: Seq<ModuleView>,
    fewer: Set<Seq<char>>,
    more: Set<Seq<char>>,
)
    requires
        fewer.subset_of(more),
    ensures
        forall|m: ModuleView| #[trigger]
            enabled_modules(ms, fewer).contains(m) ==> enabled_modules(ms, more).contains(m),
{
    let low = |m: ModuleView| module_enabled(m, fewer);
    let high = |m: ModuleView| module_enabled(m, more);
    assert forall|m: ModuleView| #[trigger]
        enabled_modules(ms, fewer).contains(m) implies enabled_modules(ms, more).contains(m) by {
        let filtered = ms.filter(low);
        let k = choose|k: int| 0 <= k < filtered.len() && filtered[k] == m;
        ms.lemma_filter_pred(low, k);
        ms.lemma_filter_contains_rev(low, m);
        let i = choose|i: int| 0 <= i < ms.len() && ms[i] == m;
        ms.lemma_filter_contains(high, i);
    }
}

/// Navigation leads only to what can be reached: every entry shown under a report is the
/// entry of a registered module that renders under that report.
pub proof fn lemma_nav_only_reaches_enabled(ms: Seq<ModuleView>, capabilities: Set<Seq<char>>)
    ensures
        forall|e: (Seq<char>, Seq<char>)| #[trigger]
            nav_entries(ms, capabilities).contains(e) ==> exists|i: int|
                0 <= i < ms.len() && module_enabled(#[trigger] ms[i], capabilities) && ms[i].2
                    == Some(e),
{
    let f = |m: ModuleView|
        if module_enabled(m, capabilities) {
            m.2
        } else {
            None
        };
    assert forall|e: (Seq<char>, Seq<char>)| #[trigger]
        nav_entries(ms, capabilities).contains(e) implies exists|i: int|
        0 <= i < ms.len() && module_enabled(#[trigger] ms[i], capabilities) && ms[i].2 == Some(
            e,
        ) by {
        ms.lemma_filter_map_contains(f, e);
        let t = choose|t: ModuleView| #[trigger] ms.contains(t) && f(t) == Some(e);
        let i = choose|i: int| 0 <= i < ms.len() && ms[i] == t;
        assert(module_enabled(ms[i], capabilities) && ms[i].2 == Some(e));
    }
}

/// Whether `a` is `b` with some elements left out, the order of the rest kept.
pub open spec fn subsequence_of<A>(a: Seq<A>, b: Seq<A>) -> bool
    decreases b.len(),
{
    if a.len() == 0 {
        true
    } else if b.len() == 0 {
        false
    } else if a.last() == b.last() {
        subsequence_of(a.drop_last(), b.drop_last())
    } else {
        subsequence_of(a, b.drop_last())
    }
}

proof fn lemma_subsequence_push_both<A>(a: Seq<A>, b: Seq<A>, x: A)
    requires
        subsequence_of(a, b),
    ensures
        subsequence_of(a.push(x), b.push(x)),
{
    assert(a.push(x).drop_last() =~= a);
    assert(b.push(x).drop_last() =~= b);
}

proof fn lemma_subsequence_push_right<A>(a: Seq<A>, b: Seq<A>, x: A)
    requires
        subsequence_of(a, b),
    ensures
        subsequence_of(a, b.push(x)),
    decreases b.len(), 1nat,
{
    assert(b.push(x).drop_last() =~= b);
    if a.len() > 0 && a.last() == x {
        lemma_subsequence_drop_last(a, b);
    }
}

proof fn lemma_subsequence_drop_last<A>(a: Seq<A>, b: Seq<A>)
    requires
        subsequence_of(a, b),
        a.len() > 0,
    ensures
        subsequence_of(a.drop_last(), b),
    decreases b.len(), 0nat,
{
    if a.last() == b.last() {
        lemma_subsequence_push_right(a.drop_last(), b.drop_last(), b.last());
        assert(b.drop_last().push(b.last()) =~= b);
    } else {
        lemma_subsequence_drop_last(a, b.drop_last());
        lemma_subsequence_push_right(a.drop_last(), b.drop_last(), b.last());
        assert(b.drop_last().push(b.last()) =~= b);
    }
}

/// A richer report only adds to what renders, in order: the modules enabled under `fewer`
/// are those enabled under `more` with some left out, and so are their navigation entries.
/// With `fewer` empty, the answer every failed report gets, no failure ever shows more or
/// in another order than a successful report.
pub proof fn lemma_reports_only_add_in_order(
    ms: Seq<ModuleView>,
    fewer: Set<Seq<char>>,
    more: Set<Seq<char>>,
)
    requires
        fewer.subset_of(more),
    ensures
        subsequence_of(enabled_modules(ms, fewer), enabled_modules(ms, more)),
        subsequence_of(nav_entries(ms, fewer), nav_entries(ms, more)),
    decreases ms.len(),
{
    let low = |m: ModuleView| module_enabled(m, fewer);
    let high = |m: ModuleView| module_enabled(m, more);
    let f1 = |m: ModuleView|
        if module_enabled(m, fewer) {
            m.2
        } else {
            None
        };
    let f2 = |m: ModuleView|
        if module_enabled(m, more) {
            m.2
        } else {
            None
        };
    if ms.len() > 0 {
        let rest = ms.drop_last();
        let m = ms.last();
        lemma_reports_only_add_in_order(rest, fewer, more);
        reveal(Seq::filter);
        assert(ms.filter(low) == if low(m) {
            rest.filter(low).push(m)
        } else {
            rest.filter(low)
        });
        assert(ms.filter(high) == if high(m) {
            rest.filter(high).push(m)
        } else {
            rest.filter(high)
        });
        if low(m) {
            lemma_subsequence_push_both(rest.filter(low), rest.filter(high), m);
        } else if high(m) {
            lemma_subsequence_push_right(rest.filter(low), rest.filter(high), m);
        }
        let n1 = rest.filter_map(f1);
        let n2 = rest.filter_map(f2);
        match f1(m) {
            Some(e) => {
                assert(ms.filter_map(f1) =~= n1.push(e));
                assert(ms.filter_map(f2) =~= n2.push(e));
                lemma_subsequence_push_both(n1, n2, e);
            },
            None => {
                assert(ms.filter_map(f1) =~= n1);
                match f2(m) {
                    Some(e) => {
                        assert(ms.filter_map(f2) =~= n2.push(e));
                        lemma_subsequence_push_right(n1, n2, e);
                    },
                    None => {
                        assert(ms.filter_map(f2) =~= n2);
                    },
                }
            },
        }
    }
}

} // verus!
