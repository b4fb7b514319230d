//! The guest-side command layer: the capability bundle each module owns,
//! and the trait a native guest module implements.

use vstd::prelude::*;

use crate::logging::LogApi;
use crate::messaging::CommandClient;
use crate::request::SyncRequestApi;
use crate::store::KeyValueStoreApi;
use crate::sys::SysApi;

verus! {

/// The capability instances owned by one guest module: its log context,
/// its blocking HTTP client, its namespaced key/value handle, and its
/// system context.
pub struct Apis {
    pub sys: SysApi,
    pub log: LogApi,
    pub sync_request: SyncRequestApi,
    pub kv_store: KeyValueStoreApi,
}

impl Apis {
    /// Builds the capability bundle for the module of the given name;
    /// fails when the name is empty or reserved (the host's own `@admin`
    /// table), or when the HTTP client cannot be constructed.
    pub fn new(module_name: &str) -> (r: Result<Apis, String>)
        ensures
            r matches Ok(apis) ==> apis.kv_store.spec_module_name() == module_name@
                && apis.log.spec_module_name() == module_name@,
    {
        if module_name.is_empty() {
            return Err("module name must not be empty".to_owned());
        }
        if module_name.to_owned().eq(&"@admin".to_owned()) {
            return Err("the admin namespace is reserved".to_owned());
        }
        let sync_request = match SyncRequestApi::new() {
            Ok(s) => s,
            Err(e) => {
                return Err(e);
            },
        };
        Ok(
            Apis {
                sys: SysApi::new(),
                log: LogApi::new(module_name),
                sync_request,
                kv_store: KeyValueStoreApi::new(module_name),
            },
        )
    }
}

/// The state owned by one guest module for its lifetime: its capability
/// instances. It is created at module instantiation and dropped when the
/// module is evicted.
pub struct ModuleState {
    pub apis: Apis,
}

impl ModuleState {
    pub fn new(module_name: &str) -> (r: Result<ModuleState, String>)
        ensures
            r matches Ok(s) ==> s.apis.kv_store.spec_module_name() == module_name@,
    {
        match Apis::new(module_name) {
            Ok(apis) => Ok(ModuleState { apis }),
            Err(e) => Err(e),
        }
    }
}

/// What a native guest module implements. The host calls `init` once at
/// load, `on_help` for help requests, `on_msg` for ordinary messages, and
/// `on_admin` for admin commands; the client collects the module's
/// responses and reactions. Every call runs synchronously while the
/// module's state and the database are exclusively borrowed.
pub trait TrinityCommand {
    /// Called once when the module is loaded, with its configuration.
    fn init(state: &mut ModuleState, db: &mut redb::Database, config: Option<Vec<(String, String)>>);

    /// Handle an ordinary message received in a room the bot is in.
    fn on_msg(client: &mut CommandClient, state: &mut ModuleState, db: &mut redb::Database, content: &str);

    /// Respond to a help request, for this specific module.
    fn on_help(topic: Option<&str>) -> String;

    /// Handle a command the admin sent with the admin prefix.
    fn on_admin(client: &mut CommandClient, state: &mut ModuleState, db: &mut redb::Database, cmd: &str);
}

} // verus!
