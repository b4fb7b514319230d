//! The `log` capability and the guest-side log adapter.
//!
//! The host prefixes every guest log line with the module's name, so a
//! guest cannot impersonate another module in the logs; the sink the
//! lines go to is the host program's concern.

use vstd::prelude::*;

verus! {

/// The severity levels a guest can log at, lowest first after `Off`.
pub enum LevelFilter {
    Off,
    Error,
    Warn,
    Info,
    Debug,
    Trace,
}

/// The rank of a level; a message passes a filter when its level's rank
/// is at most the filter's.
pub open spec fn level_rank(l: LevelFilter) -> int {
    match l {
        LevelFilter::Off => 0,
        LevelFilter::Error => 1,
        LevelFilter::Warn => 2,
        LevelFilter::Info => 3,
        LevelFilter::Debug => 4,
        LevelFilter::Trace => 5,
    }
}

/// The rank of a level, as executable code.
pub fn level_rank_of(l: &LevelFilter) -> (r: u8)
    ensures
        r as int == level_rank(*l),
{
    match l {
        LevelFilter::Off => 0,
        LevelFilter::Error => 1,
        LevelFilter::Warn => 2,
        LevelFilter::Info => 3,
        LevelFilter::Debug => 4,
        LevelFilter::Trace => 5,
    }
}

/// The log capability handed to one guest module: it stamps each line
/// with the module's name.
pub struct LogApi {
    module_name: String,
}

impl LogApi {
    /// The module name every line is prefixed with.
    pub closed spec fn spec_module_name(&self) -> Seq<char> {
        self.module_name@
    }

    pub fn new(module_name: &str) -> (r: LogApi)
        ensures
            r.spec_module_name() == module_name@,
    {
        LogApi { module_name: module_name.to_owned() }
    }

    /// The line forwarded to the host logger for one guest message: the
    /// module's name, a separator, and the message.
    pub fn line(&self, msg: &str) -> (r: String)
        ensures
            r@ == self.spec_module_name() + " - "@ + msg@,
    {
        let mut out = self.module_name.clone();
        out.append(" - ");
        out.append(msg);
        out
    }
}

/// The guest-side log adapter: a level filter in front of the host's log
/// capability.
pub struct WitLog {
    enabled: bool,
    max_level: LevelFilter,
}

impl WitLog {
    pub closed spec fn spec_enabled(&self) -> bool {
        self.enabled
    }

    pub closed spec fn spec_max_level(&self) -> LevelFilter {
        self.max_level
    }

    pub fn new() -> (r: WitLog)
        ensures
            r.spec_enabled(),
            r.spec_max_level() == LevelFilter::Trace,
    {
        WitLog { enabled: true, max_level: LevelFilter::Trace }
    }

    pub fn set_enabled(&mut self, enabled: bool)
        ensures
            final(self).spec_enabled() == enabled,
            final(self).spec_max_level() == old(self).spec_max_level(),
    {
        self.enabled = enabled;
    }

    pub fn set_max_level(&mut self, level: LevelFilter)
        ensures
            final(self).spec_max_level() == level,
            final(self).spec_enabled() == old(self).spec_enabled(),
    {
        self.max_level = level;
    }

    /// Whether a message at the given level passes the filter.
    pub fn enabled_for(&self, level: &LevelFilter) -> (r: bool)
        ensures
            r == (self.spec_enabled() && level_rank(*level) <= level_rank(self.spec_max_level())),
    {
        if !self.enabled {
            return false;
        }
        level_rank_of(level) <= level_rank_of(&self.max_level)
    }

    /// One log call: the message to forward to the host, or nothing when
    /// the filter swallows it or the level is `Off`.
    pub fn log(&self, level: &LevelFilter, msg: &str) -> (r: Option<String>)
        ensures
            r is Some <==> self.spec_enabled() && level_rank(*level) <= level_rank(
                self.spec_max_level(),
            ) && level_rank(*level) != 0,
            r is Some ==> r->0@ == msg@,
    {
        if !self.enabled_for(level) {
            return None;
        }
        match level {
            LevelFilter::Off => None,
            _ => Some(msg.to_owned()),
        }
    }
}

} // verus!
