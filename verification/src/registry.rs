//! The extension registry: the four pillars Action, Condition, Hook and
//! Component.
//!
//! Every game capability joins by registering an extension under a unique
//! name; the architecture itself never changes.  A name can be registered
//! once per pillar.  Hooks carry the lifecycle phase they belong to and a
//! priority: the smaller the priority, the earlier the hook runs.

use crate::sorting::{sort_by_rank, sorted_by_rank};
use crate::table::{Table, lemma_pairs_map};
use vstd::prelude::*;
use vstd::seq_lib::*;

verus! {

/// The runtimes an extension component can support.
#[derive(Clone, Copy, Debug, PartialEq, Eq, Structural)]
pub enum RuntimeType {
    Light,
    Cocos,
    Godot,
    Unreal,
}

/// The phases of a game's lifecycle in which hooks run.
#[derive(Clone, Copy, Debug, PartialEq, Eq, Structural, PartialOrd, Ord)]
pub enum HookPhase {
    OnInit,
    OnUpdate,
    OnRender,
    OnEvent,
    OnShutdown,
}

/// What an action asks of the actions that follow it.
#[derive(Debug)]
pub enum ActionResult {
    /// Go on with the next action.
    Continue,
    /// Stop the actions that follow.
    Stop,
    /// Switch to the named scene.
    SwitchScene(String),
}

/// Why a registry operation failed.
#[derive(Debug)]
pub enum RegistryError {
    /// No extension has that name.
    NotFound(String),
    /// An extension of that name is registered already.
    Duplicate(String),
    /// An extension's configuration is not valid.
    InvalidConfig(String),
}

impl RegistryError {
    /// The text that describes the error.
    pub open spec fn spec_message(&self) -> Seq<char> {
        match self {
            RegistryError::NotFound(n) => "extension '"@ + n@ + "' not found"@,
            RegistryError::Duplicate(n) => "extension '"@ + n@ + "' already registered"@,
            RegistryError::InvalidConfig(m) => "invalid extension config: "@ + m@,
        }
    }

    /// The text that describes the error.
    pub fn message(&self) -> (s: String)
        ensures
            s@ == self.spec_message(),
    {
        match self {
            RegistryError::NotFound(n) => String::from_str("extension '").concat(n.as_str()).concat(
                "' not found",
            ),
            RegistryError::Duplicate(n) => String::from_str("extension '").concat(
                n.as_str(),
            ).concat("' already registered"),
            RegistryError::InvalidConfig(m) => String::from_str(
                "invalid extension config: ",
            ).concat(m.as_str()),
        }
    }
}

/// A registered lifecycle hook: its phase, its priority and its handler.
pub struct HookEntry<H> {
    pub phase: HookPhase,
    pub priority: i32,
    pub handler: H,
}

/// The registry of the four kinds of extension, each keyed by name.
pub struct ExtensionRegistry<A, C, H, P> {
    actions: Table<A>,
    conditions: Table<C>,
    hooks: Table<HookEntry<H>>,
    components: Table<P>,
}

/// The hooks of `entries` that belong to `phase`, in registration order.
pub open spec fn hooks_of_phase<H>(entries: Seq<(Seq<char>, HookEntry<H>)>, phase: HookPhase) -> Seq<
    HookEntry<H>,
> {
    entries.map_values(|e: (Seq<char>, HookEntry<H>)| e.1).filter(
        |h: HookEntry<H>| h.phase == phase,
    )
}

/// The hooks of `s` are ordered by priority, smallest first.
pub open spec fn sorted_by_priority<H>(s: Seq<HookEntry<H>>) -> bool {
    forall|i: int, j: int|
        0 <= i <= j < s.len() ==> (#[trigger] s[i]).priority <= (#[trigger] s[j]).priority
}

impl<A, C, H, P> ExtensionRegistry<A, C, H, P> {
    /// The registered actions by name.
    pub closed spec fn actions(&self) -> Map<Seq<char>, A> {
        self.actions@
    }

    /// The registered conditions by name.
    pub closed spec fn conditions(&self) -> Map<Seq<char>, C> {
        self.conditions@
    }

    /// The registered hooks by name.
    pub closed spec fn hooks(&self) -> Map<Seq<char>, HookEntry<H>> {
        self.hooks@
    }

    /// The registered hooks in registration order.
    pub closed spec fn hook_pairs(&self) -> Seq<(Seq<char>, HookEntry<H>)> {
        self.hooks.pairs()
    }

    /// The registered action names in registration order.
    pub closed spec fn action_order(&self) -> Seq<Seq<char>> {
        self.actions.pairs().map_values(|e: (Seq<char>, A)| e.0)
    }

    /// The registered components by name.
    pub closed spec fn components(&self) -> Map<Seq<char>, P> {
        self.components@
    }

    /// The registry's tables are well formed.
    pub closed spec fn wf(&self) -> bool {
        &&& self.actions.wf()
        &&& self.conditions.wf()
        &&& self.hooks.wf()
        &&& self.components.wf()
    }

    /// An empty registry.
    pub fn new() -> (r: Self)
        ensures
            r.wf(),
            r.actions() == Map::<Seq<char>, A>::empty(),
            r.conditions() == Map::<Seq<char>, C>::empty(),
            r.hooks() == Map::<Seq<char>, HookEntry<H>>::empty(),
            r.components() == Map::<Seq<char>, P>::empty(),
    {
        ExtensionRegistry {
            actions: Table::new(),
            conditions: Table::new(),
            hooks: Table::new(),
            components: Table::new(),
        }
    }

    // === Action ===
    /// Registers an action under `name`, unless an action of that name exists.
    pub fn register_action(&mut self, name: String, handler: A) -> (r: Result<(), RegistryError>)
        requires
            old(self).wf(),
        ensures
            final(self).wf(),
            old(self).actions().contains_key(name@) ==> (r matches Err(RegistryError::Duplicate(n))
                && n@ == name@ && final(self).actions() == old(self).actions()),
            !old(self).actions().contains_key(name@) ==> r is Ok && final(self).actions() == old(self).actions().insert(name@, handler),
            final(self).conditions() == old(self).conditions(),
            final(self).hooks() == old(self).hooks(),
            final(self).hook_pairs() == old(self).hook_pairs(),
            final(self).components() == old(self).components(),
    {
        if self.actions.contains_key(name.as_str()) {
            return Err(RegistryError::Duplicate(name));
        }
        self.actions.insert(name, handler);
        Ok(())
    }

    /// The action registered under `name`.
    pub fn get_action(&self, name: &str) -> (r: Option<&A>)
        requires
            self.wf(),
        ensures
            match r {
                Some(a) => self.actions().contains_key(name@) && *a == self.actions()[name@],
                None => !self.actions().contains_key(name@),
            },
    {
        self.actions.get(name)
    }

    /// The names of the registered actions, in registration order.
    pub fn action_names(&self) -> (names: Vec<&str>)
        requires
            self.wf(),
        ensures
            names@.map_values(|s: &str| s@) == self.action_order(),
            names@.map_values(|s: &str| s@).to_set() == self.actions().dom(),
            names@.map_values(|s: &str| s@).no_duplicates(),
    {
        let mut names: Vec<&str> = Vec::new();
        let mut i: usize = 0;
        while i < self.actions.len()
            invariant
                i <= self.actions.pairs().len(),
                names@.map_values(|s: &str| s@) == self.action_order().take(i as int),
                self.action_order().len() == self.actions.pairs().len(),
            decreases self.actions.pairs().len() - i,
        {
            let k = self.actions.key_at(i);
            names.push(k.as_str());
            assert(self.action_order().take(i + 1) =~= self.action_order().take(i as int).push(
                k@,
            ));
            assert(names@.map_values(|s: &str| s@) =~= self.action_order().take(i + 1));
            i = i + 1;
        }
        proof {
            assert(self.action_order().take(i as int) =~= self.action_order());
            let ks = self.action_order();
            lemma_pairs_map(&self.actions);
            assert(ks.to_set() =~= self.actions().dom()) by {
                assert forall|k: Seq<char>| ks.to_set().contains(k) implies self.actions().dom().contains(k) by {
                    let i = choose|i: int| 0 <= i < ks.len() && ks[i] == k;
                    assert(self.actions.pairs()[i].0 == k);
                }
                assert forall|k: Seq<char>| self.actions().dom().contains(k) implies ks.to_set().contains(k) by {
                    let i = crate::table::index_of(self.actions.pairs(), k);
                    assert(ks[i] == k);
                }
            }
            assert(ks.no_duplicates()) by {
                assert forall|i: int, j: int| 0 <= i < ks.len() && 0 <= j < ks.len() && i != j implies ks[i] != ks[j] by {
                    assert(ks[i] == self.actions.pairs()[i].0);
                    assert(ks[j] == self.actions.pairs()[j].0);
                }
            }
        }
        names
    }

    // === Condition ===
    /// Registers a condition under `name`, unless a condition of that name exists.
    pub fn register_condition(&mut self, name: String, handler: C) -> (r: Result<(), RegistryError>)
        requires
            old(self).wf(),
        ensures
            final(self).wf(),
            old(self).conditions().contains_key(name@) ==> (r matches Err(
                RegistryError::Duplicate(n),
            ) && n@ == name@ && final(self).conditions() == old(self).conditions()),
            !old(self).conditions().contains_key(name@) ==> r is Ok && final(self).conditions()
                == old(self).conditions().insert(name@, handler),
            final(self).actions() == old(self).actions(),
            final(self).action_order() == old(self).action_order(),
            final(self).hooks() == old(self).hooks(),
            final(self).hook_pairs() == old(self).hook_pairs(),
            final(self).components() == old(self).components(),
    {
        if self.conditions.contains_key(name.as_str()) {
            return Err(RegistryError::Duplicate(name));
        }
        self.conditions.insert(name, handler);
        Ok(())
    }

    /// The condition registered under `name`.
    pub fn get_condition(&self, name: &str) -> (r: Option<&C>)
        requires
            self.wf(),
        ensures
            match r {
                Some(c) => self.conditions().contains_key(name@) && *c == self.conditions()[name@],
                None => !self.conditions().contains_key(name@),
            },
    {
        self.conditions.get(name)
    }

    // === Hook ===
    /// Registers a hook under `name` for `phase` with `priority`, unless a
    /// hook of that name exists.
    pub fn register_hook(&mut self, name: String, phase: HookPhase, priority: i32, handler: H) -> (r:
        Result<(), RegistryError>)
        requires
            old(self).wf(),
        ensures
            final(self).wf(),
            old(self).hooks().contains_key(name@) ==> (r matches Err(RegistryError::Duplicate(n))
                && n@ == name@ && final(self).hook_pairs() == old(self).hook_pairs()),
            !old(self).hooks().contains_key(name@) ==> r is Ok && final(self).hook_pairs() == old(self).hook_pairs().push((name@, HookEntry { phase, priority, handler })),
            final(self).hooks() == if old(self).hooks().contains_key(name@) {
                old(self).hooks()
            } else {
                old(self).hooks().insert(name@, HookEntry { phase, priority, handler })
            },
            final(self).actions() == old(self).actions(),
            final(self).action_order() == old(self).action_order(),
            final(self).conditions() == old(self).conditions(),
            final(self).components() == old(self).components(),
    {
        if self.hooks.contains_key(name.as_str()) {
            return Err(RegistryError::Duplicate(name));
        }
        self.hooks.insert(name, HookEntry { phase, priority, handler });
        Ok(())
    }

    /// The hooks registered for `phase`, ordered by priority (smallest first).
    pub fn get_hooks_by_phase(&self, phase: HookPhase) -> (r: Vec<&HookEntry<H>>)
        requires
            self.wf(),
        ensures
            r@.map_values(|h: &HookEntry<H>| *h).to_multiset() == hooks_of_phase(
                self.hook_pairs(),
                phase,
            ).to_multiset(),
            sorted_by_priority(r@.map_values(|h: &HookEntry<H>| *h)),
    {
        let ghost entries = self.hooks.pairs();
        let ghost all = entries.map_values(|e: (Seq<char>, HookEntry<H>)| e.1);
        let ghost pred = |h: HookEntry<H>| h.phase == phase;
        let mut ranked: Vec<(i32, &HookEntry<H>)> = Vec::new();
        let mut i: usize = 0;
        assert(all.take(0).filter(pred) =~= Seq::<HookEntry<H>>::empty()) by {
            reveal(Seq::filter);
        }
        while i < self.hooks.len()
            invariant
                i <= entries.len(),
                entries == self.hooks.pairs(),
                all == entries.map_values(|e: (Seq<char>, HookEntry<H>)| e.1),
                pred == (|h: HookEntry<H>| h.phase == phase),
                ranked@.map_values(|x: (i32, &HookEntry<H>)| *x.1) == all.take(i as int).filter(
                    pred,
                ),
                forall|j: int| 0 <= j < ranked@.len() ==> (#[trigger] ranked@[j]).0 == ranked@[j].1.priority,
            decreases entries.len() - i,
        {
            let h = self.hooks.value_at(i);
            let ghost before = ranked@;
            assert(all.take(i + 1) =~= all.take(i as int).push(*h));
            proof {
                all.take(i as int).lemma_filter_push(*h, pred);
            }
            if h.phase == phase {
                ranked.push((h.priority, h));
                assert(ranked@.map_values(|x: (i32, &HookEntry<H>)| *x.1) =~= before.map_values(
                    |x: (i32, &HookEntry<H>)| *x.1,
                ).push(*h));
            }
            i = i + 1;
        }
        assert(all.take(i as int) =~= all);
        let ghost unsorted = ranked@;
        let sorted = sort_by_rank(ranked);
        proof {
            assert forall|j: int| 0 <= j < sorted@.len() implies (#[trigger] sorted@[j]).0
                == sorted@[j].1.priority by {
                assert(sorted@.contains(sorted@[j]));
                to_multiset_contains(sorted@, sorted@[j]);
                to_multiset_contains(unsorted, sorted@[j]);
                assert(unsorted.contains(sorted@[j]));
            }
        }
        let mut out: Vec<&HookEntry<H>> = Vec::new();
        let mut k: usize = 0;
        while k < sorted.len()
            invariant
                k <= sorted@.len(),
                out@.len() == k,
                forall|j: int| 0 <= j < k ==> out@[j] == (#[trigger] sorted@[j]).1,
            decreases sorted@.len() - k,
        {
            out.push(sorted[k].1);
            k = k + 1;
        }
        proof {
            let f = |x: (i32, &HookEntry<H>)| *x.1;
            assert(out@.map_values(|h: &HookEntry<H>| *h) =~= sorted@.map_values(f));
            lemma_map_values_multiset(sorted@, unsorted, f);
            assert(unsorted.map_values(f) == hooks_of_phase(self.hook_pairs(), phase));
            let outs = out@.map_values(|h: &HookEntry<H>| *h);
            assert forall|a: int, b: int| 0 <= a <= b < outs.len() implies (#[trigger] outs[a]).priority
                <= (#[trigger] outs[b]).priority by {
                assert(sorted@[a].0 <= sorted@[b].0);
            }
        }
        out
    }

    // === Component ===
    /// Registers a component under `name`, unless a component of that name exists.
    pub fn register_component(&mut self, name: String, handler: P) -> (r: Result<(), RegistryError>)
        requires
            old(self).wf(),
        ensures
            final(self).wf(),
            old(self).components().contains_key(name@) ==> (r matches Err(
                RegistryError::Duplicate(n),
            ) && n@ == name@ && final(self).components() == old(self).components()),
            !old(self).components().contains_key(name@) ==> r is Ok && final(self).components()
                == old(self).components().insert(name@, handler),
            final(self).actions() == old(self).actions(),
            final(self).action_order() == old(self).action_order(),
            final(self).conditions() == old(self).conditions(),
            final(self).hooks() == old(self).hooks(),
            final(self).hook_pairs() == old(self).hook_pairs(),
    {
        if self.components.contains_key(name.as_str()) {
            return Err(RegistryError::Duplicate(name));
        }
        self.components.insert(name, handler);
        Ok(())
    }

    /// The component registered under `name`.
    pub fn get_component(&self, name: &str) -> (r: Option<&P>)
        requires
            self.wf(),
        ensures
            match r {
                Some(p) => self.components().contains_key(name@) && *p == self.components()[name@],
                None => !self.components().contains_key(name@),
            },
    {
        self.components.get(name)
    }
}

impl<A, C, H, P> Default for ExtensionRegistry<A, C, H, P> {
    /// An empty registry.
    fn default() -> (r: Self)
        ensures
            r.wf(),
            r.actions() == Map::<Seq<char>, A>::empty(),
            r.conditions() == Map::<Seq<char>, C>::empty(),
            r.hooks() == Map::<Seq<char>, HookEntry<H>>::empty(),
            r.components() == Map::<Seq<char>, P>::empty(),
    {
        Self::new()
    }
}

/// Two sequences with the same items map to sequences with the same items.
pub proof fn lemma_map_values_multiset<A, B>(s: Seq<A>, t: Seq<A>, f: spec_fn(A) -> B)
    requires
        s.to_multiset() == t.to_multiset(),
    ensures
        s.map_values(f).to_multiset() == t.map_values(f).to_multiset(),
    decreases s.len(),
{
    broadcast use vstd::multiset::group_multiset_axioms;
    broadcast use group_to_multiset_ensures;

    if s.len() == 0 {
        to_multiset_len(t);
        assert(t.len() == 0);
        assert(s.map_values(f) =~= t.map_values(f));
    } else {
        let x = s.last();
        let s0 = s.drop_last();
        assert(s =~= s0.push(x));
        to_multiset_build(s0, x);
        assert(t.to_multiset().count(x) > 0);
        assert(t.contains(x));
        let i = choose|i: int| 0 <= i < t.len() && t[i] == x;
        let t0 = t.remove(i);
        to_multiset_remove(t, i);
        assert(s0.to_multiset() =~= t0.to_multiset());
        lemma_map_values_multiset(s0, t0, f);
        assert(s.map_values(f) =~= s0.map_values(f).push(f(x)));
        to_multiset_build(s0.map_values(f), f(x));
        assert(t0.map_values(f) =~= t.map_values(f).remove(i));
        to_multiset_remove(t.map_values(f), i);
        assert(t.map_values(f).to_multiset() =~= t0.map_values(f).to_multiset().insert(f(x)));
    }
}

} // verus!
