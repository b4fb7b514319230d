//! The `mastodon` sample module: posts statuses to a Mastodon instance.
//!
//! Each room's configuration — its allowed posters, the API token, and
//! the instance's base URL — lives in the module's key/value namespace
//! under the room id, as a flat list of strings: the token, the base
//! URL, then the posters.

use vstd::prelude::*;

use crate::codec::{dec_str_list, decode_str_list, enc_str_list, encode_str_list};
use crate::command::{ModuleState, TrinityCommand};
use crate::messaging::CommandClient;
use crate::request::{Request, ResponseStatus};
use crate::store::{kv_tables, spec_kv_remove, spec_kv_set, table_of, KeyValueStoreApi, KvError};
use crate::textutil::{
    chars_of, find_space, skip_chars, starts_with_chars, string_of_chars, take_chars, trim_chars,
};

verus! {

use vstd::utf8::encode_utf8;

/// The JSON string literal for a string value; it depends on the
/// characters alone.
pub uninterp spec fn json_string(s: Seq<char>) -> Seq<char>;

/// Relies on `serde_json::to_string` on a plain string value: the JSON
/// string literal for it, quotes and escapes included.
#[verifier::external_body]
fn json_quote(s: &str) -> (r: String)
    ensures
        r@ == json_string(s@),
{
    serde_json::to_string(s).unwrap_or_else(|_| String::new())
}

/// A room's configuration: who may post, the API token, and the
/// instance's base URL.
pub struct RoomConfig {
    pub admins: Vec<String>,
    pub token: String,
    pub base_url: String,
}

impl RoomConfig {
    pub open spec fn spec_admins(&self) -> Seq<Seq<char>> {
        self.admins@.map_values(|s: String| s@)
    }

    /// Whether this author may post from this room.
    pub fn is_admin(&self, author: &str) -> (r: bool)
        ensures
            r == self.spec_admins().contains(author@),
    {
        let author_string = author.to_owned();
        let ghost views = self.spec_admins();
        let n = self.admins.len();
        let mut i: usize = 0;
        while i < n
            invariant
                i <= n,
                n == views.len(),
                views == self.spec_admins(),
                author_string@ == author@,
                forall|k: int| 0 <= k < i ==> views[k] != author@,
                forall|k: int| 0 <= k < n ==> views[k] == #[trigger] self.admins@[k]@,
            decreases n - i,
        {
            if self.admins[i].eq(&author_string) {
                proof {
                    assert(views[i as int] == author@);
                }
                return true;
            }
            i = i + 1;
        }
        proof {
            if views.contains(author@) {
                let k = choose|k: int| 0 <= k < views.len() && views[k] == author@;
                assert(views[k] != author@);
            }
        }
        false
    }
}

/// The key a room's configuration is stored under: the room id itself.
pub open spec fn config_key(room: Seq<char>) -> Seq<u8> {
    encode_utf8(room)
}

/// A room's stored configuration, when present and readable: the token,
/// the base URL, and the posters.
pub open spec fn stored_mastodon_config(table: Map<Seq<u8>, Seq<u8>>, room: Seq<char>) -> Option<
    (Seq<char>, Seq<char>, Seq<Seq<char>>),
> {
    if table.contains_key(config_key(room)) {
        match dec_str_list(table[config_key(room)]) {
            Some(ss) => if ss.len() >= 2 {
                Some((ss[0], ss[1], ss.skip(2)))
            } else {
                None
            },
            None => None,
        }
    } else {
        None
    }
}

/// The URL statuses are posted to: the base URL, a slash when it lacks
/// one, and the statuses endpoint.
pub open spec fn spec_statuses_url(base: Seq<char>) -> Seq<char> {
    (if base.len() > 0 && base.last() == '/' {
        base
    } else {
        base + "/"@
    }) + "api/v1/statuses"@
}

/// The `mastodon` module.
pub struct Component;

impl Component {
    /// The room's stored configuration, if present and readable.
    pub fn get_config(kv: &KeyValueStoreApi, db: &redb::Database, room: &str) -> (r: Option<
        RoomConfig,
    >)
        ensures
            match r {
                Some(rc) => stored_mastodon_config(
                    table_of(kv_tables(*db), kv.spec_module_name()),
                    room@,
                ) == Some((rc.token@, rc.base_url@, rc.spec_admins())),
                None => true,
            },
    {
        let key = vstd::slice::slice_to_vec(room.as_bytes());
        match kv.get(db, key.as_slice()) {
            Ok(Some(bytes)) => {
                match decode_str_list(&bytes) {
                    Some(ss) => {
                        if ss.len() >= 2 {
                            let mut ss = ss;
                            let token = ss.remove(0);
                            let base_url = ss.remove(0);
                            let ghost token_v = token@;
                            let ghost base_v = base_url@;
                            proof {
                                let stored = dec_str_list(
                                    table_of(kv_tables(*db), kv.spec_module_name()).index(
                                        config_key(room@),
                                    ),
                                )->0;
                                assert(ss@.map_values(|s: String| s@) =~= stored.skip(2));
                            }
                            Some(RoomConfig { admins: ss, token, base_url })
                        } else {
                            None
                        }
                    },
                    None => None,
                }
            },
            _ => None,
        }
    }

    /// Stores a room's configuration; on success the module's table holds
    /// exactly its encoding under the room's key.
    pub fn set_config(
        kv: &KeyValueStoreApi,
        db: &mut redb::Database,
        room: &str,
        rc: &RoomConfig,
    ) -> (r: Result<(), KvError>)
        ensures
            r is Ok ==> kv_tables(*final(db)) == spec_kv_set(
                kv_tables(*old(db)),
                kv.spec_module_name(),
                config_key(room@),
                enc_str_list(seq![rc.token@, rc.base_url@] + rc.spec_admins()),
            ),
            r is Err ==> kv_tables(*final(db)) == kv_tables(*old(db)),
    {
        let mut flat: Vec<String> = Vec::new();
        flat.push(rc.token.clone());
        flat.push(rc.base_url.clone());
        let n = rc.admins.len();
        let mut i: usize = 0;
        while i < n
            invariant
                i <= n,
                n == rc.spec_admins().len(),
                flat@.len() == 2 + i,
                flat@[0]@ == rc.token@,
                flat@[1]@ == rc.base_url@,
                forall|k: int| 0 <= k < i ==> #[trigger] flat@[2 + k]@ == rc.spec_admins()[k],
                forall|k: int| 0 <= k < n ==> rc.spec_admins()[k] == #[trigger] rc.admins@[k]@,
            decreases n - i,
        {
            flat.push(rc.admins[i].clone());
            i = i + 1;
        }
        if !fits(&flat) {
            return Err(KvError::Internal("configuration does not fit the storage format".to_owned()));
        }
        let bytes = encode_str_list(&flat);
        proof {
            assert forall|j: int| 0 <= j < flat@.len() implies flat@[j]@ == (seq![
                rc.token@,
                rc.base_url@,
            ] + rc.spec_admins())[j] by {
                if j >= 2 {
                    let k = j - 2;
                    assert(flat@[2 + k]@ == rc.spec_admins()[k]);
                }
            }
            assert(flat@.map_values(|s: String| s@) =~= seq![rc.token@, rc.base_url@]
                + rc.spec_admins());
        }
        let key = vstd::slice::slice_to_vec(room.as_bytes());
        kv.set(db, key.as_slice(), bytes.as_slice())
    }

    /// Drops a room's configuration.
    pub fn remove_config(kv: &KeyValueStoreApi, db: &mut redb::Database, room: &str) -> (r: Result<
        (),
        KvError,
    >)
        ensures
            r is Ok ==> kv_tables(*final(db)) == spec_kv_remove(
                kv_tables(*old(db)),
                kv.spec_module_name(),
                config_key(room@),
            ),
            r is Err ==> kv_tables(*final(db)) == kv_tables(*old(db)),
    {
        let key = vstd::slice::slice_to_vec(room.as_bytes());
        kv.remove(db, key.as_slice())
    }

    /// The URL and JSON body of the status post for this room and text.
    pub fn toot_request_parts(rc: &RoomConfig, content: &str) -> (r: (String, String))
        ensures
            r.0@ == spec_statuses_url(rc.base_url@),
            r.1@ == "{\"status\":"@ + json_string(content@) + "}"@,
    {
        let base_chars = chars_of(rc.base_url.as_str());
        let mut url = rc.base_url.clone();
        let n = base_chars.len();
        if n == 0 || base_chars[n - 1] != '/' {
            url.append("/");
        }
        url.append("api/v1/statuses");
        let mut body = "{\"status\":".to_owned();
        let quoted = json_quote(content);
        body.append(quoted.as_str());
        body.append("}");
        (url, body)
    }
}

/// True when the list and each of its strings fit the storage format.
fn fits(ss: &Vec<String>) -> (r: bool)
    ensures
        r == (ss@.len() <= u32::MAX && forall|k: int|
            0 <= k < ss@.len() ==> (#[trigger] ss@[k])@.len() <= u32::MAX),
{
    crate::linkify::lengths_fit(ss)
}

/// The names without the first occurrence of this one.
pub open spec fn without_first_name(names: Seq<Seq<char>>, name: Seq<char>) -> Seq<Seq<char>>
    decreases names.len(),
{
    if names.len() == 0 {
        Seq::empty()
    } else if names[0] == name {
        names.drop_first()
    } else {
        seq![names[0]] + without_first_name(names.drop_first(), name)
    }
}

/// The names joined with a comma and a space.
pub open spec fn spec_joined_names(names: Seq<Seq<char>>) -> Seq<char>
    decreases names.len(),
{
    if names.len() == 0 {
        Seq::empty()
    } else if names.len() == 1 {
        names[0]
    } else {
        spec_joined_names(names.drop_last()) + ", "@ + names.last()
    }
}

/// What storing a decision does to the room's configuration.
pub enum ConfigAction {
    /// Leave the stored configuration as it is.
    Keep,
    /// Store this configuration under the room's key.
    Put(RoomConfig),
    /// Drop the room's configuration.
    Clear,
}

/// A configuration action as views.
pub open spec fn action_view(a: ConfigAction) -> SpecConfigAction {
    match a {
        ConfigAction::Keep => SpecConfigAction::Keep,
        ConfigAction::Put(c) => SpecConfigAction::Put((c.token@, c.base_url@, c.spec_admins())),
        ConfigAction::Clear => SpecConfigAction::Clear,
    }
}

/// The view-level counterpart of [`ConfigAction`].
pub enum SpecConfigAction {
    Keep,
    Put((Seq<char>, Seq<char>, Seq<Seq<char>>)),
    Clear,
}

/// The outcome of one admin command: the reply to queue, whether to react
/// with the approval emoji instead, and what to store.
pub struct AdminOutcome {
    pub reply: Option<String>,
    pub react_ok: bool,
    pub action: ConfigAction,
}

impl AdminOutcome {
    /// The outcome as views, matching [`spec_mastodon_admin`].
    pub open spec fn view3(&self) -> (Option<Seq<char>>, bool, SpecConfigAction) {
        (
            match self.reply {
                Some(ref t) => Some(t@),
                None => None,
            },
            self.react_ok,
            action_view(self.action),
        )
    }
}

/// What one admin command decides, from the room's configuration as it
/// was read: `set-config BASE TOKEN` stores a fresh configuration with
/// the sender as its only poster, `remove-config` drops it, `allow` and
/// `disallow` edit the poster list, `list-posters` prints it, and
/// anything else is unknown. A successful change is acknowledged with the
/// approval reaction rather than a reply.
pub open spec fn spec_mastodon_admin(
    config: Option<(Seq<char>, Seq<char>, Seq<Seq<char>>)>,
    cmd: Seq<char>,
    sender: Seq<char>,
) -> (Option<Seq<char>>, bool, SpecConfigAction) {
    if crate::textutil::spec_starts_with(cmd, "set-config"@) {
        let tail = crate::textutil::spec_trim(cmd.skip("set-config"@.len() as int));
        if tail.len() == 0 {
            (Some("missing base url"@), false, SpecConfigAction::Keep)
        } else {
            match crate::textutil::spec_split_once_space(tail) {
                None => (Some("missing token"@), false, SpecConfigAction::Keep),
                Some(p) => {
                    let t2 = crate::textutil::spec_trim(p.1);
                    if t2.len() == 0 {
                        (Some("missing token"@), false, SpecConfigAction::Keep)
                    } else {
                        (
                            None,
                            true,
                            SpecConfigAction::Put(
                                (crate::linkify::first_word(t2), p.0, seq![sender]),
                            ),
                        )
                    }
                },
            }
        }
    } else if crate::textutil::spec_starts_with(cmd, "remove-config"@) {
        (None, true, SpecConfigAction::Clear)
    } else if crate::textutil::spec_starts_with(cmd, "allow"@) {
        let tail = crate::textutil::spec_trim(cmd.skip("allow"@.len() as int));
        if tail.len() == 0 {
            (Some("missing user id"@), false, SpecConfigAction::Keep)
        } else {
            let user = crate::linkify::first_word(tail);
            match config {
                None => (
                    Some("couldn't read room config for room"@),
                    false,
                    SpecConfigAction::Keep,
                ),
                Some(c) => (None, true, SpecConfigAction::Put((c.0, c.1, c.2.push(user)))),
            }
        }
    } else if crate::textutil::spec_starts_with(cmd, "disallow"@) {
        let tail = crate::textutil::spec_trim(cmd.skip("disallow"@.len() as int));
        if tail.len() == 0 {
            (Some("missing user id"@), false, SpecConfigAction::Keep)
        } else {
            let user = crate::linkify::first_word(tail);
            match config {
                None => (
                    Some("couldn't read room config for room"@),
                    false,
                    SpecConfigAction::Keep,
                ),
                Some(c) => if c.2.contains(user) {
                    (None, true, SpecConfigAction::Put((c.0, c.1, without_first_name(c.2, user))))
                } else {
                    (Some("admin not found"@), false, SpecConfigAction::Keep)
                },
            }
        }
    } else if crate::textutil::spec_starts_with(cmd, "list-posters"@) {
        match config {
            None => (
                Some("couldn't read room config, or no config for this room"@),
                false,
                SpecConfigAction::Keep,
            ),
            Some(c) => (Some(spec_joined_names(c.2)), false, SpecConfigAction::Keep),
        }
    } else {
        (Some("unknown command!"@), false, SpecConfigAction::Keep)
    }
}

impl Component {
    /// Decides one admin command over the configuration as read, exactly
    /// as [`spec_mastodon_admin`] says.
    pub fn admin_decision(config: Option<RoomConfig>, cmd: &str, sender: &str) -> (r: AdminOutcome)
        ensures
            r.view3() == spec_mastodon_admin(
                match config {
                    Some(c) => Some((c.token@, c.base_url@, c.spec_admins())),
                    None => None,
                },
                cmd@,
                sender@,
            ),
    {
        let chars = chars_of(cmd);
        let p_set = chars_of("set-config");
        let p_remove = chars_of("remove-config");
        let p_allow = chars_of("allow");
        let p_disallow = chars_of("disallow");
        let p_list = chars_of("list-posters");
        if starts_with_chars(&chars, &p_set) {
            let tail = skip_chars(&chars, p_set.len());
            let rest = trim_chars(&tail);
            if rest.len() == 0 {
                return AdminOutcome {
                    reply: Some("missing base url".to_owned()),
                    react_ok: false,
                    action: ConfigAction::Keep,
                };
            }
            let i = match find_space(&rest) {
                Some(i) => i,
                None => {
                    return AdminOutcome {
                        reply: Some("missing token".to_owned()),
                        react_ok: false,
                        action: ConfigAction::Keep,
                    };
                },
            };
            let rest_len = rest.len();
            proof {
                assert(i < rest_len);
            }
            let base_url = string_of_chars(take_chars(&rest, i).as_slice());
            let after = skip_chars(&rest, i + 1);
            let t2 = trim_chars(&after);
            if t2.len() == 0 {
                return AdminOutcome {
                    reply: Some("missing token".to_owned()),
                    react_ok: false,
                    action: ConfigAction::Keep,
                };
            }
            let token = match find_space(&t2) {
                Some(j) => string_of_chars(take_chars(&t2, j).as_slice()),
                None => string_of_chars(t2.as_slice()),
            };
            let mut admins: Vec<String> = Vec::new();
            admins.push(sender.to_owned());
            let config = RoomConfig { admins, token, base_url };
            proof {
                assert(config.spec_admins() =~= seq![sender@]);
            }
            return AdminOutcome { reply: None, react_ok: true, action: ConfigAction::Put(config) };
        }
        if starts_with_chars(&chars, &p_remove) {
            return AdminOutcome { reply: None, react_ok: true, action: ConfigAction::Clear };
        }
        if starts_with_chars(&chars, &p_allow) {
            let tail = skip_chars(&chars, p_allow.len());
            let rest = trim_chars(&tail);
            if rest.len() == 0 {
                return AdminOutcome {
                    reply: Some("missing user id".to_owned()),
                    react_ok: false,
                    action: ConfigAction::Keep,
                };
            }
            let user = match find_space(&rest) {
                Some(i) => string_of_chars(take_chars(&rest, i).as_slice()),
                None => string_of_chars(rest.as_slice()),
            };
            let mut config = match config {
                Some(c) => c,
                None => {
                    return AdminOutcome {
                        reply: Some("couldn't read room config for room".to_owned()),
                        react_ok: false,
                        action: ConfigAction::Keep,
                    };
                },
            };
            let ghost old_admins = config.spec_admins();
            let ghost user_v = user@;
            config.admins.push(user);
            proof {
                assert(config.spec_admins() =~= old_admins.push(user_v));
            }
            return AdminOutcome { reply: None, react_ok: true, action: ConfigAction::Put(config) };
        }
        if starts_with_chars(&chars, &p_disallow) {
            let tail = skip_chars(&chars, p_disallow.len());
            let rest = trim_chars(&tail);
            if rest.len() == 0 {
                return AdminOutcome {
                    reply: Some("missing user id".to_owned()),
                    react_ok: false,
                    action: ConfigAction::Keep,
                };
            }
            let user = match find_space(&rest) {
                Some(i) => string_of_chars(take_chars(&rest, i).as_slice()),
                None => string_of_chars(rest.as_slice()),
            };
            let mut config = match config {
                Some(c) => c,
                None => {
                    return AdminOutcome {
                        reply: Some("couldn't read room config for room".to_owned()),
                        react_ok: false,
                        action: ConfigAction::Keep,
                    };
                },
            };
            if !config.is_admin(user.as_str()) {
                return AdminOutcome {
                    reply: Some("admin not found".to_owned()),
                    react_ok: false,
                    action: ConfigAction::Keep,
                };
            }
            let remaining = drop_admin(config.admins, &user);
            config.admins = remaining;
            return AdminOutcome { reply: None, react_ok: true, action: ConfigAction::Put(config) };
        }
        if starts_with_chars(&chars, &p_list) {
            let config = match config {
                Some(c) => c,
                None => {
                    return AdminOutcome {
                        reply: Some(
                            "couldn't read room config, or no config for this room".to_owned(),
                        ),
                        react_ok: false,
                        action: ConfigAction::Keep,
                    };
                },
            };
            return AdminOutcome {
                reply: Some(join_names(&config.admins)),
                react_ok: false,
                action: ConfigAction::Keep,
            };
        }
        AdminOutcome {
            reply: Some("unknown command!".to_owned()),
            react_ok: false,
            action: ConfigAction::Keep,
        }
    }
}

/// How one admin call relates what was read, what was queued, and what
/// the tables became: the reply or approval reaction is the decision's,
/// and the store it asks for either took effect or was dropped by a
/// fault, which is then reported instead.
pub open spec fn mastodon_admin_post(
    config: Option<(Seq<char>, Seq<char>, Seq<Seq<char>>)>,
    cmd: Seq<char>,
    sender: Seq<char>,
    room: Seq<char>,
    module: Seq<char>,
    tables_old: Map<Seq<char>, Map<Seq<u8>, Seq<u8>>>,
    tables_new: Map<Seq<char>, Map<Seq<u8>, Seq<u8>>>,
    old_msgs: Seq<(Seq<char>, Seq<char>)>,
    new_msgs: Seq<(Seq<char>, Seq<char>)>,
    old_reacts: Seq<Seq<char>>,
    new_reacts: Seq<Seq<char>>,
) -> bool {
    let d = spec_mastodon_admin(config, cmd, sender);
    let stored = match d.2 {
        SpecConfigAction::Keep => tables_new == tables_old,
        SpecConfigAction::Put(c) => tables_new == spec_kv_set(
            tables_old,
            module,
            config_key(room),
            enc_str_list(seq![c.0, c.1] + c.2),
        ),
        SpecConfigAction::Clear => tables_new == spec_kv_remove(
            tables_old,
            module,
            config_key(room),
        ),
    };
    ||| {
        &&& stored
        &&& match d.0 {
            Some(t) => new_msgs == old_msgs.push((sender, t)),
            None => new_msgs == old_msgs,
        }
        &&& if d.1 {
            new_reacts == old_reacts.push("👌"@)
        } else {
            new_reacts == old_reacts
        }
    }
    ||| {
        &&& !(d.2 is Keep)
        &&& tables_new == tables_old
        &&& new_reacts == old_reacts
        &&& new_msgs == old_msgs.push((sender, "writing to kv store failed"@))
    }
}

impl TrinityCommand for Component {
    fn init(
        _state: &mut ModuleState,
        _db: &mut redb::Database,
        _config: Option<Vec<(String, String)>>,
    ) {
    }

    fn on_msg(
        client: &mut CommandClient,
        state: &mut ModuleState,
        db: &mut redb::Database,
        content: &str,
    )
        ensures
            kv_tables(*final(db)) == kv_tables(*old(db)),
            final(client).spec_from() == old(client).spec_from(),
            final(client).spec_room() == old(client).spec_room(),
            !crate::textutil::spec_starts_with(content@, "!toot"@)
                ==> final(client).spec_messages() == old(client).spec_messages()
                && final(client).spec_reactions() == old(client).spec_reactions(),
            crate::textutil::spec_starts_with(content@, "!toot"@) ==> ({
                // Exactly one action is queued, whatever the POST returned:
                // one response to the sender, or the approval reaction.
                ||| {
                    &&& final(client).spec_reactions() == old(client).spec_reactions()
                    &&& final(client).spec_messages().len() == old(client).spec_messages().len()
                        + 1
                    &&& final(client).spec_messages().take(
                        old(client).spec_messages().len() as int,
                    ) == old(client).spec_messages()
                    &&& final(client).spec_messages().last().0 == old(client).spec_from()
                }
                ||| {
                    &&& final(client).spec_messages() == old(client).spec_messages()
                    &&& final(client).spec_reactions() == old(client).spec_reactions().push("👌"@)
                }
            }),
    {
        let chars = chars_of(content);
        let prefix = chars_of("!toot");
        if !starts_with_chars(&chars, &prefix) {
            return ;
        }
        let tail = skip_chars(&chars, prefix.len());
        let text = string_of_chars(trim_chars(&tail).as_slice());
        let room = client.room().to_owned();
        let author = client.from().to_owned();
        let config = match Component::get_config(&state.apis.kv_store, db, room.as_str()) {
            Some(c) => c,
            None => {
                client.respond("couldn't read room configuration (error or missing)".to_owned());
                proof {
                    lemma_one_respond_shape(old(client).spec_messages(), client.spec_messages());
                }
                return ;
            },
        };
        if !config.is_admin(author.as_str()) {
            client.respond("you're not allowed to post, sorry!".to_owned());
            proof {
                lemma_one_respond_shape(old(client).spec_messages(), client.spec_messages());
            }
            return ;
        }
        let parts = Component::toot_request_parts(&config, text.as_str());
        let mut auth = "Bearer ".to_owned();
        auth.append(config.token.as_str());
        let req = Request::post(parts.0.as_str()).header("Authorization", auth.as_str()).header(
            "Content-Type",
            "application/json",
        ).body(parts.1.as_str());
        let resp = match req.run(&state.apis.sync_request) {
            Ok(resp) => resp,
            Err(_) => {
                client.respond("didn't receive a response from the server".to_owned());
                proof {
                    lemma_one_respond_shape(old(client).spec_messages(), client.spec_messages());
                }
                return ;
            },
        };
        if !matches!(resp.status, ResponseStatus::Success) {
            client.respond("error when sending toot, see logs!".to_owned());
            proof {
                lemma_one_respond_shape(old(client).spec_messages(), client.spec_messages());
            }
            return ;
        }
        client.react_with_ok();
    }

    fn on_help(topic: Option<&str>) -> String {
        match topic {
            Some(topic) => {
                if topic.to_owned().eq(&"admin".to_owned()) {
                    "available admin commands:\n- set-config #BASE_URL #TOKEN\n- remove-config\n- allow #USER_ID\n- disallow #USER_ID\n- list-posters".to_owned()
                } else if topic.to_owned().eq(&"toot".to_owned()) || topic.to_owned().eq(
                    &"!toot".to_owned(),
                ) {
                    "Toot a message with !toot MESSAGE".to_owned()
                } else {
                    "i don't know this command!".to_owned()
                }
            },
            None => "Post mastodon statuses from Matrix! Help topics: admin, toot".to_owned(),
        }
    }

    fn on_admin(
        client: &mut CommandClient,
        state: &mut ModuleState,
        db: &mut redb::Database,
        cmd: &str,
    )
        ensures
            final(client).spec_from() == old(client).spec_from(),
            final(client).spec_room() == old(client).spec_room(),
            exists|cfg: Option<(Seq<char>, Seq<char>, Seq<Seq<char>>)>|
                {
                    &&& (cfg == stored_mastodon_config(
                        table_of(
                            kv_tables(*old(db)),
                            old(state).apis.kv_store.spec_module_name(),
                        ),
                        old(client).spec_room(),
                    ) || cfg is None)
                    &&& #[trigger] mastodon_admin_post(
                        cfg,
                        cmd@,
                        old(client).spec_from(),
                        old(client).spec_room(),
                        old(state).apis.kv_store.spec_module_name(),
                        kv_tables(*old(db)),
                        kv_tables(*final(db)),
                        old(client).spec_messages(),
                        final(client).spec_messages(),
                        old(client).spec_reactions(),
                        final(client).spec_reactions(),
                    )
                },
    {
        let room = client.room().to_owned();
        let sender = client.from().to_owned();
        let config = Component::get_config(&state.apis.kv_store, db, room.as_str());
        let ghost cfg_v: Option<(Seq<char>, Seq<char>, Seq<Seq<char>>)> = match config {
            Some(ref c) => Some((c.token@, c.base_url@, c.spec_admins())),
            None => None,
        };
        let outcome = Component::admin_decision(config, cmd, sender.as_str());
        let AdminOutcome { reply, react_ok, action } = outcome;
        match action {
            ConfigAction::Keep => {},
            ConfigAction::Put(new_config) => {
                if Component::set_config(&state.apis.kv_store, db, room.as_str(), &new_config)
                    .is_err() {
                    client.respond("writing to kv store failed".to_owned());
                    proof {
                        assert(mastodon_admin_post(
                            cfg_v,
                            cmd@,
                            old(client).spec_from(),
                            old(client).spec_room(),
                            old(state).apis.kv_store.spec_module_name(),
                            kv_tables(*old(db)),
                            kv_tables(*db),
                            old(client).spec_messages(),
                            client.spec_messages(),
                            old(client).spec_reactions(),
                            client.spec_reactions(),
                        ));
                    }
                    return ;
                }
            },
            ConfigAction::Clear => {
                if Component::remove_config(&state.apis.kv_store, db, room.as_str()).is_err() {
                    client.respond("writing to kv store failed".to_owned());
                    proof {
                        assert(mastodon_admin_post(
                            cfg_v,
                            cmd@,
                            old(client).spec_from(),
                            old(client).spec_room(),
                            old(state).apis.kv_store.spec_module_name(),
                            kv_tables(*old(db)),
                            kv_tables(*db),
                            old(client).spec_messages(),
                            client.spec_messages(),
                            old(client).spec_reactions(),
                            client.spec_reactions(),
                        ));
                    }
                    return ;
                }
            },
        }
        match reply {
            Some(t) => client.respond(t),
            None => {},
        }
        if react_ok {
            client.react_with_ok();
        }
        proof {
            assert(mastodon_admin_post(
                cfg_v,
                cmd@,
                old(client).spec_from(),
                old(client).spec_room(),
                old(state).apis.kv_store.spec_module_name(),
                kv_tables(*old(db)),
                kv_tables(*db),
                old(client).spec_messages(),
                client.spec_messages(),
                old(client).spec_reactions(),
                client.spec_reactions(),
            ));
        }
    }
}

/// The names without the first occurrence of this one.
fn drop_admin(names: Vec<String>, name: &String) -> (r: Vec<String>)
    ensures
        r@.map_values(|s: String| s@) == without_first_name(
            names@.map_values(|s: String| s@),
            name@,
        ),
    decreases names@.len(),
{
    let ghost views = names@.map_values(|s: String| s@);
    let mut names = names;
    if names.len() == 0 {
        proof {
            assert(names@.map_values(|s: String| s@) =~= without_first_name(views, name@));
        }
        return names;
    }
    let first = names.remove(0);
    proof {
        assert(names@.map_values(|s: String| s@) =~= views.drop_first());
    }
    if first.eq(name) {
        return names;
    }
    let ghost first_v = first@;
    let rest = drop_admin(names, name);
    let mut out: Vec<String> = Vec::new();
    out.push(first);
    let mut rest = rest;
    out.append(&mut rest);
    proof {
        assert(out@.map_values(|s: String| s@) =~= seq![first_v] + without_first_name(
            views.drop_first(),
            name@,
        ));
        assert(out@.map_values(|s: String| s@) =~= without_first_name(views, name@));
    }
    out
}

/// The names joined with a comma and a space.
fn join_names(names: &Vec<String>) -> (r: String)
    ensures
        r@ == spec_joined_names(names@.map_values(|s: String| s@)),
{
    let ghost views = names@.map_values(|s: String| s@);
    let mut out = String::new();
    let n = names.len();
    let mut i: usize = 0;
    while i < n
        invariant
            i <= n,
            n == views.len(),
            views == names@.map_values(|s: String| s@),
            forall|k: int| 0 <= k < n ==> views[k] == #[trigger] names@[k]@,
            out@ == spec_joined_names(views.take(i as int)),
        decreases n - i,
    {
        proof {
            assert(views.take(i + 1).drop_last() =~= views.take(i as int));
            assert(views.take(i + 1).last() == views[i as int]);
        }
        if i > 0 {
            out.append(", ");
        }
        out.append(names[i].as_str());
        i = i + 1;
    }
    proof {
        assert(views.take(n as int) =~= views);
    }
    out
}

/// Appending one message is appending one message: the shape the queue
/// takes after exactly one response.
proof fn lemma_one_respond_shape(
    old_msgs: Seq<(Seq<char>, Seq<char>)>,
    new_msgs: Seq<(Seq<char>, Seq<char>)>,
)
    requires
        exists|x: (Seq<char>, Seq<char>)| new_msgs == #[trigger] old_msgs.push(x),
    ensures
        new_msgs.len() == old_msgs.len() + 1,
        new_msgs.take(old_msgs.len() as int) == old_msgs,
        new_msgs.last() == choose|x: (Seq<char>, Seq<char>)| new_msgs == #[trigger] old_msgs.push(
            x,
        ),
{
    let x = choose|x: (Seq<char>, Seq<char>)| new_msgs == #[trigger] old_msgs.push(x);
    assert(old_msgs.push(x).take(old_msgs.len() as int) =~= old_msgs);
}

} // verus!
