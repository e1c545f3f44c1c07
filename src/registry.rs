//! The table of registered filters, and the slot that holds it once built.
use vstd::prelude::*;
use crate::filter::{FilterFactory, FilterType};
use crate::table::{find_name, keys_distinct, lemma_pairs_map_update, lemma_push_fresh, pairs_map};

verus! {

/// What is registered under one name: the filter's category and its constructor.
pub struct FilterDescriptor {
    pub kind: FilterType,
    pub factory: Box<dyn FilterFactory>,
}

impl FilterDescriptor {
    /// A descriptor for filters of category `kind` built by `constructor`.
    pub fn new<C: FilterFactory + 'static>(kind: FilterType, constructor: C) -> (r: FilterDescriptor)
        ensures
            r.kind == kind,
    {
        FilterDescriptor { kind, factory: Box::new(constructor) }
    }
}

/// Names and descriptors of a sequence of registry entries.
pub open spec fn entry_views(entries: Seq<(String, FilterDescriptor)>) -> Seq<(Seq<char>, FilterDescriptor)> {
    entries.map_values(|e: (String, FilterDescriptor)| (e.0@, e.1))
}

/// Registered filters by name. Registering a name again replaces what was
/// registered under it before.
pub struct FilterRegistry {
    factories: Vec<(String, FilterDescriptor)>,
}

impl View for FilterRegistry {
    type V = Map<Seq<char>, FilterDescriptor>;

    closed spec fn view(&self) -> Map<Seq<char>, FilterDescriptor> {
        pairs_map(entry_views(self.factories@))
    }
}

impl FilterRegistry {
    #[verifier::type_invariant]
    closed spec fn names_distinct(&self) -> bool {
        keys_distinct(entry_views(self.factories@))
    }

    /// A registry with no filters.
    pub fn new() -> (r: FilterRegistry)
        ensures
            r@ == Map::<Seq<char>, FilterDescriptor>::empty(),
    {
        let r = FilterRegistry { factories: Vec::new() };
        assert(entry_views(r.factories@) =~= Seq::empty());
        r
    }

    /// Registers `descriptor` under `name`; whatever was registered under
    /// `name` before is replaced.
    pub fn register(&mut self, name: &str, descriptor: FilterDescriptor)
        ensures
            final(self)@ == old(self)@.insert(name@, descriptor),
    {
        let mut current = FilterRegistry::new();
        core::mem::swap(self, &mut current);
        proof {
            use_type_invariant(&current);
        }
        let FilterRegistry { factories: mut entries } = current;
        let key = name.to_owned();
        let ghost s = entry_views(entries@);
        let ghost d = descriptor;
        match find_name(&entries, &key) {
            Some(j) => {
                proof {
                    lemma_pairs_map_update(s, j as int, d);
                }
                entries.set(j, (key, descriptor));
                assert(entry_views(entries@) =~= s.update(j as int, (s[j as int].0, d)));
            },
            None => {
                proof {
                    lemma_push_fresh(s, name@, d);
                }
                entries.push((key, descriptor));
                assert(entry_views(entries@) =~= s.push((name@, d)));
            },
        }
        *self = FilterRegistry { factories: entries };
    }

    /// Registers `constructor` under `name` with category `kind`; whatever was
    /// registered under `name` before is replaced, and other names keep their
    /// descriptors.
    pub fn add_filter<C: FilterFactory + 'static>(&mut self, name: &str, kind: FilterType, constructor: C)
        ensures
            final(self)@ == old(self)@.insert(name@, final(self)@[name@]),
            final(self)@[name@].kind == kind,
    {
        let descriptor = FilterDescriptor::new(kind, constructor);
        self.register(name, descriptor);
    }

    /// The descriptor registered under `name`, if any.
    pub fn lookup(&self, name: &str) -> (r: Option<&FilterDescriptor>)
        ensures
            match r {
                Some(d) => self@.contains_key(name@) && *d == self@[name@],
                None => !self@.contains_key(name@),
            },
    {
        proof {
            use_type_invariant(self);
        }
        let key = name.to_owned();
        let ghost s = entry_views(self.factories@);
        match find_name(&self.factories, &key) {
            Some(j) => {
                proof {
                    crate::table::lemma_pairs_map_value(s, j as int);
                }
                Some(&self.factories[j].1)
            },
            None => {
                proof {
                    crate::table::lemma_pairs_map_domain(s, name@);
                }
                None
            },
        }
    }

    /// The number of registered names.
    pub fn len(&self) -> (r: usize)
        ensures
            r == self@.len(),
    {
        proof {
            use_type_invariant(self);
            crate::table::lemma_pairs_map_len(entry_views(self.factories@));
        }
        self.factories.len()
    }
}

/// The holder of a process's registry: empty until first use, then built once
/// and never rebuilt.
pub struct RegistrySlot {
    registry: Option<FilterRegistry>,
}

impl View for RegistrySlot {
    type V = Option<Map<Seq<char>, FilterDescriptor>>;

    closed spec fn view(&self) -> Option<Map<Seq<char>, FilterDescriptor>> {
        match self.registry {
            Some(r) => Some(r@),
            None => None,
        }
    }
}

impl RegistrySlot {
    /// Whether the registry has been built.
    pub open spec fn is_ready(&self) -> bool {
        self@ is Some
    }

    /// An empty slot, before any initializer has run.
    pub fn new() -> (r: RegistrySlot)
        ensures
            !r.is_ready(),
    {
        RegistrySlot { registry: None }
    }

    /// The registry, once it has been built.
    pub fn registry(&self) -> (r: Option<&FilterRegistry>)
        ensures
            match r {
                Some(reg) => self@ == Some(reg@),
                None => self@ is None,
            },
    {
        match &self.registry {
            Some(reg) => Some(reg),
            None => None,
        }
    }
}

/// The relation between a slot before and after a call of [`_init_registry`]:
/// afterwards the registry is built, and a slot that was already built is left
/// as it was.
pub open spec fn init_step(pre: RegistrySlot, post: RegistrySlot) -> bool {
    &&& post.is_ready()
    &&& pre.is_ready() ==> post == pre
}

/// Makes sure that `slot` holds a registry: on first use `init` builds it;
/// afterwards `init` is not run and the registry stays as it is.
pub fn _init_registry<F: FnOnce() -> FilterRegistry>(slot: &mut RegistrySlot, init: F)
    requires
        old(slot)@ is None ==> call_requires(init, ()),
    ensures
        init_step(*old(slot), *final(slot)),
        old(slot)@ is None ==> exists|built: FilterRegistry|
            call_ensures(init, (), built) && final(slot)@ == Some(built@),
{
    if slot.registry.is_none() {
        let built = init();
        *slot = RegistrySlot { registry: Some(built) };
    }
}

/// However often the registry is asked for, it is built once: after any number
/// of calls of [`_init_registry`] (here two) the slot holds what the first call
/// built, and a call on a built slot changes nothing.
pub proof fn lemma_init_runs_once(s0: RegistrySlot, s1: RegistrySlot, s2: RegistrySlot)
    requires
        init_step(s0, s1),
        init_step(s1, s2),
    ensures
        s2 == s1,
        s2.is_ready(),
        s0.is_ready() ==> s2 == s0,
{
}

/// For registrations under distinct names, the registry has exactly those
/// names: a lookup succeeds for each of them and fails for any other.
/// `pairs_map(regs)` is the view of a registry that [`FilterRegistry::new`] made
/// and [`FilterRegistry::register`] then filled with `regs` in order, as the
/// first clause below shows step by step.
pub proof fn lemma_registered_names(regs: Seq<(Seq<char>, FilterDescriptor)>)
    requires
        keys_distinct(regs),
    ensures
        regs.len() == 0 ==> pairs_map(regs) == Map::<Seq<char>, FilterDescriptor>::empty(),
        regs.len() > 0 ==> pairs_map(regs) == pairs_map(regs.drop_last()).insert(
            regs.last().0,
            regs.last().1,
        ),
        pairs_map(regs).len() == regs.len(),
        forall|name: Seq<char>|
            #[trigger] pairs_map(regs).contains_key(name) <==> exists|i: int|
                0 <= i < regs.len() && regs[i].0 == name,
{
    crate::table::lemma_pairs_map_len(regs);
    assert forall|name: Seq<char>|
        #[trigger] pairs_map(regs).contains_key(name) <==> exists|i: int|
            0 <= i < regs.len() && regs[i].0 == name by {
        crate::table::lemma_pairs_map_domain(regs, name);
    }
}

} // verus!
