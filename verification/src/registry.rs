//! The module registry.
//!
//! Modules are discovered as artefact files; each file whose name carries
//! the module-artefact extension yields a module named after its stem.
//! The registry keeps the modules in discovery order; on a name collision
//! the first one wins and the duplicate is skipped with a warning, and a
//! module whose load failed is skipped without aborting the rest.

use vstd::prelude::*;

use crate::textutil::{chars_of, string_of_chars};

verus! {

/// The stem of a module-artefact file name: the name without its `.wasm`
/// extension, or nothing when the file is no module artefact. A name that
/// is only the extension (a hidden file) has no stem.
pub open spec fn wasm_stem(name: Seq<char>) -> Option<Seq<char>> {
    if name.len() >= 6 && name[name.len() - 5] == '.' && name[name.len() - 4] == 'w' && name[
        name.len() - 3] == 'a' && name[name.len() - 2] == 's' && name[name.len() - 1] == 'm' {
        Some(name.take(name.len() - 5))
    } else {
        None
    }
}

/// The module name a file yields: the stem of its `.wasm` name, or
/// nothing when the file is to be ignored.
pub fn module_name_of(file_name: &str) -> (r: Option<String>)
    ensures
        match r {
            Some(name) => wasm_stem(file_name@) == Some(name@),
            None => wasm_stem(file_name@) is None,
        },
{
    let chars = chars_of(file_name);
    let n = chars.len();
    if n >= 6 && chars[n - 5] == '.' && chars[n - 4] == 'w' && chars[n - 3] == 'a' && chars[n - 2]
        == 's' && chars[n - 1] == 'm' {
        let mut stem_chars: Vec<char> = Vec::new();
        let mut i: usize = 0;
        while i < n - 5
            invariant
                n == chars@.len(),
                n >= 6,
                i <= n - 5,
                stem_chars@ =~= chars@.take(i as int),
            decreases n - 5 - i,
        {
            stem_chars.push(chars[i]);
            i = i + 1;
        }
        let stem = string_of_chars(stem_chars.as_slice());
        proof {
            assert(stem@ =~= file_name@.take(file_name@.len() - 5));
        }
        Some(stem)
    } else {
        None
    }
}

/// One discovery outcome: the module's name, and its loaded guest when
/// compiling, instantiating and initializing it succeeded.
pub struct LoadOutcome<H> {
    pub name: String,
    pub guest: Option<H>,
}

/// One loaded module: its name and its guest handle.
pub struct ModuleEntry<H> {
    pub name: String,
    pub guest: H,
}

/// The names the registry ends up with, from the discovery outcomes in
/// order: a failed load is skipped, and of equal names the first wins.
pub open spec fn dedupe_names(outcomes: Seq<(Seq<char>, bool)>) -> Seq<Seq<char>>
    decreases outcomes.len(),
{
    if outcomes.len() == 0 {
        Seq::empty()
    } else {
        let prefix = dedupe_names(outcomes.drop_last());
        if outcomes.last().1 && !prefix.contains(outcomes.last().0) {
            prefix.push(outcomes.last().0)
        } else {
            prefix
        }
    }
}

/// How many loaded modules were skipped as duplicates.
pub open spec fn dup_count(outcomes: Seq<(Seq<char>, bool)>) -> int
    decreases outcomes.len(),
{
    if outcomes.len() == 0 {
        0
    } else {
        dup_count(outcomes.drop_last()) + if outcomes.last().1 && dedupe_names(
            outcomes.drop_last(),
        ).contains(outcomes.last().0) {
            1int
        } else {
            0int
        }
    }
}

/// The ordered collection of loaded modules.
pub struct WasmModules<H> {
    modules: Vec<ModuleEntry<H>>,
}

impl<H> WasmModules<H> {
    /// The names of the loaded modules, in order.
    pub closed spec fn spec_names(&self) -> Seq<Seq<char>> {
        self.modules@.map_values(|m: ModuleEntry<H>| m.name@)
    }

    /// Builds the registry from discovery outcomes, in order: a failed
    /// load is skipped, and of two modules with the same name the first
    /// wins while the duplicate is skipped with one warning line.
    pub fn new(outcomes: Vec<LoadOutcome<H>>) -> (r: (WasmModules<H>, Vec<String>))
        ensures
            r.0.spec_names() == dedupe_names(
                outcomes@.map_values(|o: LoadOutcome<H>| (o.name@, o.guest is Some)),
            ),
            r.1@.len() == dup_count(
                outcomes@.map_values(|o: LoadOutcome<H>| (o.name@, o.guest is Some)),
            ),
    {
        let ghost outcome_views = outcomes@.map_values(
            |o: LoadOutcome<H>| (o.name@, o.guest is Some),
        );
        let mut modules: Vec<ModuleEntry<H>> = Vec::new();
        let mut warnings: Vec<String> = Vec::new();
        let mut rest = outcomes;
        let n = rest.len();
        let mut i: usize = 0;
        while i < n
            invariant
                i <= n,
                n == outcome_views.len(),
                rest@.len() == n - i,
                forall|k: int|
                    0 <= k < rest@.len() ==> (#[trigger] rest@[k].name@, rest@[k].guest is Some)
                        == outcome_views[i + k],
                modules@.map_values(|m: ModuleEntry<H>| m.name@) =~= dedupe_names(
                    outcome_views.take(i as int),
                ),
                warnings@.len() == dup_count(outcome_views.take(i as int)),
            decreases n - i,
        {
            proof {
                assert((rest@[0].name@, rest@[0].guest is Some) == outcome_views[i as int]);
                assert(outcome_views.take(i + 1).drop_last() =~= outcome_views.take(i as int));
                assert(outcome_views.take(i + 1).last() == outcome_views[i as int]);
            }
            let LoadOutcome { name, guest } = rest.remove(0);
            let ghost name_view = name@;
            match guest {
                Some(g) => {
                    if contains_name(&modules, &name) {
                        let mut warning = "skipping duplicate module ".to_owned();
                        warning.append(name.as_str());
                        warnings.push(warning);
                    } else {
                        modules.push(ModuleEntry { name, guest: g });
                        proof {
                            assert(modules@.map_values(|m: ModuleEntry<H>| m.name@)
                                =~= dedupe_names(outcome_views.take(i as int)).push(name_view));
                        }
                    }
                },
                None => {},
            }
            i = i + 1;
        }
        proof {
            assert(outcome_views.take(n as int) =~= outcome_views);
        }
        (WasmModules { modules }, warnings)
    }

    /// How many modules are loaded.
    pub fn len(&self) -> (r: usize)
        ensures
            r == self.spec_names().len(),
    {
        self.modules.len()
    }

    /// The name of the module at the given position.
    pub fn name_at(&self, i: usize) -> (r: &str)
        requires
            i < self.spec_names().len(),
        ensures
            r@ == self.spec_names()[i as int],
    {
        self.modules[i].name.as_str()
    }

    /// The guest handle of the module at the given position.
    pub fn guest_at(&mut self, i: usize) -> (r: &mut H)
        requires
            i < old(self).spec_names().len(),
        ensures
            final(self).spec_names() == old(self).spec_names(),
    {
        &mut self.modules[i].guest
    }

    /// The names of the loaded modules, in order.
    pub fn names(&self) -> (r: Vec<String>)
        ensures
            r@.map_values(|s: String| s@) == self.spec_names(),
    {
        let mut out: Vec<String> = Vec::new();
        let n = self.modules.len();
        let mut i: usize = 0;
        while i < n
            invariant
                i <= n,
                n == self.spec_names().len(),
                out@.len() == i,
                forall|k: int| 0 <= k < i ==> #[trigger] out@[k]@ == self.spec_names()[k],
            decreases n - i,
        {
            proof {
                assert(self.spec_names()[i as int] == self.modules@[i as int].name@);
            }
            out.push(self.modules[i].name.clone());
            i = i + 1;
        }
        proof {
            assert(out@.map_values(|s: String| s@) =~= self.spec_names());
        }
        out
    }
}

/// Whether a module of the given name is already present.
fn contains_name<H>(modules: &Vec<ModuleEntry<H>>, name: &String) -> (r: bool)
    ensures
        r == modules@.map_values(|m: ModuleEntry<H>| m.name@).contains(name@),
{
    let ghost names = modules@.map_values(|m: ModuleEntry<H>| m.name@);
    let n = modules.len();
    let mut i: usize = 0;
    while i < n
        invariant
            i <= n,
            n == names.len(),
            n == modules@.len(),
            names == modules@.map_values(|m: ModuleEntry<H>| m.name@),
            forall|k: int| 0 <= k < i ==> names[k] != name@,
            forall|k: int| 0 <= k < n ==> names[k] == #[trigger] modules@[k].name@,
        decreases n - i,
    {
        if modules[i].name.eq(name) {
            proof {
                assert(names[i as int] == name@);
            }
            return true;
        }
        i = i + 1;
    }
    proof {
        if names.contains(name@) {
            let k = choose|k: int| 0 <= k < names.len() && names[k] == name@;
            assert(names[k] != name@);
        }
    }
    false
}

/// Law: the registry never holds two modules of the same name; the first
/// discovered wins.
pub proof fn lemma_registry_names_unique(outcomes: Seq<(Seq<char>, bool)>)
    ensures
        dedupe_names(outcomes).no_duplicates(),
    decreases outcomes.len(),
{
    if outcomes.len() > 0 {
        lemma_registry_names_unique(outcomes.drop_last());
    }
}

/// Law: a module stands in the registry exactly when some successful
/// load bears its name; in particular a module whose load or `init`
/// failed is absent, and the others are present.
pub proof fn lemma_registry_membership(outcomes: Seq<(Seq<char>, bool)>, name: Seq<char>)
    ensures
        dedupe_names(outcomes).contains(name) <==> exists|i: int|
            0 <= i < outcomes.len() && outcomes[i] == (name, true),
    decreases outcomes.len(),
{
    if outcomes.len() > 0 {
        lemma_registry_membership(outcomes.drop_last(), name);
        if dedupe_names(outcomes).contains(name) {
            if outcomes.last().1 && outcomes.last().0 == name {
                assert(outcomes[outcomes.len() - 1] == (name, true));
            } else {
                assert(dedupe_names(outcomes.drop_last()).contains(name) ==> exists|i: int|
                    0 <= i < outcomes.len() - 1 && outcomes.drop_last()[i] == (name, true));
                if dedupe_names(outcomes.drop_last()).contains(name) {
                    let i = choose|i: int|
                        0 <= i < outcomes.len() - 1 && outcomes.drop_last()[i] == (name, true);
                    assert(outcomes[i] == (name, true));
                }
            }
        }
        if exists|i: int| 0 <= i < outcomes.len() && outcomes[i] == (name, true) {
            let i = choose|i: int| 0 <= i < outcomes.len() && outcomes[i] == (name, true);
            if i < outcomes.len() - 1 {
                assert(outcomes.drop_last()[i] == (name, true));
                assert(dedupe_names(outcomes.drop_last()).contains(name));
                if !(outcomes.last().1 && !dedupe_names(outcomes.drop_last()).contains(
                    outcomes.last().0,
                )) {
                    assert(dedupe_names(outcomes) == dedupe_names(outcomes.drop_last()));
                } else {
                    let prefix = dedupe_names(outcomes.drop_last());
                    assert(dedupe_names(outcomes) == prefix.push(outcomes.last().0));
                    let j = choose|j: int| 0 <= j < prefix.len() && prefix[j] == name;
                    assert(prefix.push(outcomes.last().0)[j] == name);
                    assert(dedupe_names(outcomes).contains(name));
                }
            } else {
                assert(outcomes.last() == (name, true));
                if !dedupe_names(outcomes.drop_last()).contains(name) {
                    assert(dedupe_names(outcomes).last() == name);
                    assert(dedupe_names(outcomes).contains(name));
                }
            }
        }
    }
}

} // verus!
