//! The hot-reload scheduler.
//!
//! Filesystem events on the module directories are filtered down to
//! create, modify and remove events that touch a module artefact; the
//! first such event sets a flag and schedules one reload after the
//! debounce delay, later ones are absorbed while the flag is set, and
//! when the rebuilt registry arrives it replaces the old one only on
//! success.

use vstd::prelude::*;

use crate::registry::{wasm_stem, WasmModules};
use crate::textutil::chars_of;

verus! {

/// The kind of a filesystem event.
pub enum FsEventKind {
    Create,
    Modify,
    Remove,
    Access,
    Any,
    Other,
}

/// True for the event kinds that can change a module artefact.
pub open spec fn relevant_kind(kind: FsEventKind) -> bool {
    match kind {
        FsEventKind::Create => true,
        FsEventKind::Modify => true,
        FsEventKind::Remove => true,
        _ => false,
    }
}

/// True when an event with these file names and kind must trigger a
/// reload: the kind is relevant and some touched file is a module
/// artefact.
pub open spec fn qualifying_event(names: Seq<Seq<char>>, kind: FsEventKind) -> bool {
    relevant_kind(kind) && exists|i: int| 0 <= i < names.len() && wasm_stem(names[i]) is Some
}

/// What one event does to the debounce flag: it schedules a reload
/// exactly when it qualifies and the flag was clear, and it leaves the
/// flag set exactly when it qualifies or the flag was set.
pub open spec fn spec_on_event(flag: bool, qualifying: bool) -> (bool, bool) {
    (qualifying && !flag, flag || qualifying)
}

/// How many reloads a run of events schedules, from a given flag state;
/// each event is abstracted to whether it qualifies.
pub open spec fn schedules_of(flag: bool, events: Seq<bool>) -> int
    decreases events.len(),
{
    if events.len() == 0 {
        0
    } else {
        let step = spec_on_event(flag, events[0]);
        (if step.0 {
            1int
        } else {
            0int
        }) + schedules_of(step.1, events.drop_first())
    }
}

/// The debounce state of the hot-reload watcher.
pub struct ReloadScheduler {
    needs_recompile: bool,
}

impl ReloadScheduler {
    /// Whether a reload is pending.
    pub closed spec fn spec_flag(&self) -> bool {
        self.needs_recompile
    }

    pub fn new() -> (r: ReloadScheduler)
        ensures
            !r.spec_flag(),
    {
        ReloadScheduler { needs_recompile: false }
    }

    /// Takes one filesystem event, given as the touched file names and
    /// the event kind. Returns true exactly when the caller must schedule
    /// a reload after the debounce delay: on the first qualifying event
    /// while no reload is pending. Further qualifying events are absorbed
    /// until the pending reload finishes.
    pub fn on_event(&mut self, file_names: &Vec<String>, kind: &FsEventKind) -> (r: bool)
        ensures
            ({
                let q = qualifying_event(
                    file_names@.map_values(|s: String| s@),
                    *kind,
                );
                r == spec_on_event(old(self).spec_flag(), q).0 && final(self).spec_flag()
                    == spec_on_event(old(self).spec_flag(), q).1
            }),
    {
        let relevant = match kind {
            FsEventKind::Create => true,
            FsEventKind::Modify => true,
            FsEventKind::Remove => true,
            FsEventKind::Access => false,
            FsEventKind::Any => false,
            FsEventKind::Other => false,
        };
        let qualifying = relevant && any_wasm_name(file_names);
        proof {
            let mapped = file_names@.map_values(|s: String| s@);
            if exists|i: int| 0 <= i < mapped.len() && wasm_stem(mapped[i]) is Some {
                let i = choose|i: int| 0 <= i < mapped.len() && wasm_stem(mapped[i]) is Some;
                assert(wasm_stem(file_names@[i]@) is Some);
            }
            if exists|i: int|
                0 <= i < file_names@.len() && wasm_stem(#[trigger] file_names@[i]@) is Some {
                let i = choose|i: int|
                    0 <= i < file_names@.len() && wasm_stem(#[trigger] file_names@[i]@) is Some;
                assert(wasm_stem(mapped[i]) is Some);
            }
        }
        if !qualifying {
            return false;
        }
        if self.needs_recompile {
            return false;
        }
        self.needs_recompile = true;
        true
    }

    /// Takes the outcome of the scheduled rebuild: on success the new
    /// registry replaces the old one, on failure the old registry is kept
    /// unchanged; either way the flag is cleared so later events can
    /// schedule the next reload.
    pub fn apply_reload<H>(
        &mut self,
        current: WasmModules<H>,
        outcome: Result<WasmModules<H>, String>,
    ) -> (r: WasmModules<H>)
        ensures
            !final(self).spec_flag(),
            match outcome {
                Ok(fresh) => r == fresh,
                Err(_) => r == current,
            },
    {
        self.needs_recompile = false;
        match outcome {
            Ok(fresh) => fresh,
            Err(_) => current,
        }
    }
}

/// True when some file name in the list is a module artefact.
fn any_wasm_name(file_names: &Vec<String>) -> (r: bool)
    ensures
        r == exists|i: int|
            0 <= i < file_names@.len() && wasm_stem(#[trigger] file_names@[i]@) is Some,
{
    let n = file_names.len();
    let mut i: usize = 0;
    while i < n
        invariant
            i <= n,
            n == file_names@.len(),
            forall|k: int| 0 <= k < i ==> wasm_stem(#[trigger] file_names@[k]@) is None,
        decreases n - i,
    {
        if crate::registry::module_name_of(file_names[i].as_str()).is_some() {
            proof {
                assert(wasm_stem(file_names@[i as int]@) is Some);
            }
            return true;
        }
        i = i + 1;
    }
    false
}

/// Law: events coalesce. However many qualifying events arrive while no
/// reload is pending, exactly one reload is scheduled: the first event
/// schedules it and every later one is absorbed.
pub proof fn lemma_debounce_single_reload(events: Seq<bool>)
    requires
        events.len() > 0,
        forall|i: int| 0 <= i < events.len() ==> events[i],
    ensures
        schedules_of(false, events) == 1,
{
    assert(spec_on_event(false, events[0]) == (true, true));
    lemma_no_reload_while_pending(events.drop_first());
}

/// Law: while a reload is pending, no run of events schedules another.
pub proof fn lemma_no_reload_while_pending(events: Seq<bool>)
    ensures
        schedules_of(true, events) == 0,
    decreases events.len(),
{
    if events.len() > 0 {
        lemma_no_reload_while_pending(events.drop_first());
    }
}

} // verus!
