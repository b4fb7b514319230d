use trinity::command::{ModuleState, TrinityCommand};
use trinity::dispatch::{Dispatch, GuestOp, Reply, Step};
use trinity::linkify;
use trinity::mastodon;
use trinity::pun;
use trinity::messaging::{client_actions, Action, CommandClient};
use trinity::store::open_database;
use trinity::sys::{RoomResolution, RoomResolver};
use trinity::uuid;

enum GuestKind {
    Linkify,
    Uuid,
}

struct NativeModule {
    name: String,
    kind: GuestKind,
    state: ModuleState,
}

fn native_module(name: &str, kind: GuestKind) -> NativeModule {
    NativeModule { name: name.to_owned(), kind, state: ModuleState::new(name).unwrap() }
}

fn call_on_msg(
    module: &mut NativeModule,
    db: &mut redb::Database,
    content: &str,
    sender: &str,
    room: &str,
) -> Vec<Action> {
    let mut client = CommandClient::new(room.to_owned(), sender.to_owned());
    match module.kind {
        GuestKind::Linkify => {
            linkify::Component::on_msg(&mut client, &mut module.state, db, content)
        }
        GuestKind::Uuid => uuid::Component::on_msg(&mut client, &mut module.state, db, content),
    }
    client_actions(client)
}

fn call_admin(
    module: &mut NativeModule,
    db: &mut redb::Database,
    cmd: &str,
    sender: &str,
    room: &str,
) -> Vec<Action> {
    let mut client = CommandClient::new(room.to_owned(), sender.to_owned());
    match module.kind {
        GuestKind::Linkify => {
            linkify::Component::on_admin(&mut client, &mut module.state, db, cmd)
        }
        GuestKind::Uuid => uuid::Component::on_admin(&mut client, &mut module.state, db, cmd),
    }
    client_actions(client)
}

fn call_help(module: &NativeModule, topic: Option<&str>) -> String {
    match module.kind {
        GuestKind::Linkify => linkify::Component::on_help(topic),
        GuestKind::Uuid => uuid::Component::on_help(topic),
    }
}

/// Runs one inbound event through the dispatcher against native guests.
fn dispatch_event(
    modules: &mut Vec<NativeModule>,
    db: &mut redb::Database,
    resolver: &mut RoomResolver,
    content: &str,
    sender: &str,
    room: &str,
    admin_user: &str,
) -> Vec<Action> {
    let names: Vec<String> = modules.iter().map(|m| m.name.clone()).collect();
    let mut dispatch = Dispatch::new(
        content.to_owned(),
        sender.to_owned(),
        room.to_owned(),
        admin_user,
        names,
    );
    let mut step = dispatch.step(None);
    loop {
        step = match step {
            Step::Done(actions) => return actions,
            Step::Resolve(token) => {
                let reply = match resolver.resolve_room(&token) {
                    RoomResolution::RoomId(id) => Ok(Some(id)),
                    RoomResolution::Cached(id) => Ok(Some(id)),
                    RoomResolution::NotARoom => Ok(None),
                    RoomResolution::NeedsQuery => Ok(None),
                    RoomResolution::InvalidAlias => Err("invalid alias".to_owned()),
                };
                dispatch.step(Some(Reply::Resolved(reply)))
            }
            Step::Call(GuestOp::Help { module, topic }) => {
                let text = call_help(&modules[module], topic.as_deref());
                dispatch.step(Some(Reply::HelpText(Ok(text))))
            }
            Step::Call(GuestOp::Admin { module, cmd, sender, room }) => {
                let actions = call_admin(&mut modules[module], db, &cmd, &sender, &room);
                dispatch.step(Some(Reply::Actions(Ok(actions))))
            }
            Step::Call(GuestOp::OnMsg { module, content, sender, room }) => {
                let actions = call_on_msg(&mut modules[module], db, &content, &sender, &room);
                dispatch.step(Some(Reply::Actions(Ok(actions))))
            }
        };
    }
}

fn texts(actions: &[Action]) -> Vec<String> {
    actions
        .iter()
        .filter_map(|a| match a {
            Action::Respond(m) => Some(m.text.clone()),
            Action::React(_) => None,
        })
        .collect()
}

fn temp_db() -> (tempfile::TempDir, redb::Database) {
    let dir = tempfile::tempdir().unwrap();
    let path = dir.path().join("kv.redb");
    let db = open_database(path.to_str().unwrap()).unwrap();
    (dir, db)
}

const ADMIN: &str = "@admin:server";

#[test]
fn uuid_module_answers_uuid_requests() {
    let (_dir, mut db) = temp_db();
    let mut modules = vec![native_module("uuid", GuestKind::Uuid)];
    let mut resolver = RoomResolver::new();
    let actions =
        dispatch_event(&mut modules, &mut db, &mut resolver, "!uuid", "!user", "!room", ADMIN);
    assert_eq!(actions.len(), 1);
    match &actions[0] {
        Action::Respond(m) => {
            assert_eq!(m.to, "!user");
            assert_eq!(m.text.len(), 36);
            assert!(m.text.chars().all(|c| c == '-' || c.is_ascii_hexdigit()));
        }
        _ => panic!("expected one response"),
    }
    let none =
        dispatch_event(&mut modules, &mut db, &mut resolver, "hello", "!user", "!room", ADMIN);
    assert!(none.is_empty());
}

#[test]
fn uuid_formatting_is_canonical() {
    assert_eq!(uuid::format_uuid(0, 0), "00000000-0000-0000-0000-000000000000");
    assert_eq!(
        uuid::format_uuid(0x0123456789abcdef, 0xfedcba9876543210),
        "01234567-89ab-cdef-fedc-ba9876543210"
    );
}

#[test]
fn linkify_full_scenario() {
    let (_dir, mut db) = temp_db();
    let mut modules = vec![native_module("linkify", GuestKind::Linkify)];
    let mut resolver = RoomResolver::new();

    // The admin creates a rule.
    let created = dispatch_event(
        &mut modules,
        &mut db,
        &mut resolver,
        "!admin linkify new issue \"#([0-9]+)\" https://example/$1",
        ADMIN,
        "!R",
        ADMIN,
    );
    assert_eq!(texts(&created), vec!["Rule has been created!".to_owned()]);

    // The admin enables it in room !R.
    let enabled = dispatch_event(
        &mut modules,
        &mut db,
        &mut resolver,
        "!admin linkify enable issue",
        ADMIN,
        "!R",
        ADMIN,
    );
    assert_eq!(texts(&enabled), vec!["Rule 'issue' has been enabled!".to_owned()]);

    // A user's message in !R is linkified.
    let answered =
        dispatch_event(&mut modules, &mut db, &mut resolver, "see #42", "@user:server", "!R", ADMIN);
    assert_eq!(texts(&answered), vec!["https://example/42".to_owned()]);

    // The same message in another room yields nothing.
    let silent =
        dispatch_event(&mut modules, &mut db, &mut resolver, "see #42", "@user:server", "!S", ADMIN);
    assert!(silent.is_empty());
}

#[test]
fn linkify_admin_rule_lifecycle() {
    let (_dir, mut db) = temp_db();
    let mut modules = vec![native_module("linkify", GuestKind::Linkify)];
    fn run(cmd: &str, db: &mut redb::Database, modules: &mut Vec<NativeModule>) -> Vec<String> {
        let mut line = "!admin linkify ".to_owned();
        line.push_str(cmd);
        let mut r = RoomResolver::new();
        texts(&dispatch_event(modules, db, &mut r, &line, ADMIN, "!R", ADMIN))
    }
    assert_eq!(
        run("new issue \"#([0-9]+)\" https://example/$1", &mut db, &mut modules),
        vec!["Rule has been created!".to_owned()]
    );
    assert_eq!(
        run("new issue \"x\" y", &mut db, &mut modules),
        vec!["Rule 'issue' already exists!".to_owned()]
    );
    assert_eq!(
        run("new broken \"(\" y", &mut db, &mut modules),
        vec!["Invalid regex `(`!".to_owned()]
    );
    assert_eq!(
        run("new half x", &mut db, &mut modules),
        vec!["Error parsing rule: Three inputs expected: name/re/sub".to_owned()]
    );
    assert_eq!(
        run("enable nosuch", &mut db, &mut modules),
        vec!["Rule 'nosuch' not found!".to_owned()]
    );
    assert_eq!(
        run("enable issue", &mut db, &mut modules),
        vec!["Rule 'issue' has been enabled!".to_owned()]
    );
    assert_eq!(
        run("enable issue", &mut db, &mut modules),
        vec!["Rule 'issue' is already enabled!".to_owned()]
    );
    assert_eq!(
        run("disable issue", &mut db, &mut modules),
        vec!["Rule 'issue' has been disabled!".to_owned()]
    );
    assert_eq!(
        run("disable issue", &mut db, &mut modules),
        vec!["Rule 'issue' is already disabled!".to_owned()]
    );
    assert_eq!(
        run("delete issue", &mut db, &mut modules),
        vec!["Rule has been deleted!".to_owned()]
    );
    assert_eq!(
        run("delete issue", &mut db, &mut modules),
        vec!["Rule 'issue' not found!".to_owned()]
    );
    assert_eq!(run("list", &mut db, &mut modules), vec!["No rules found.".to_owned()]);
    assert_eq!(
        run("frobnicate the flux", &mut db, &mut modules),
        vec!["Unknown command 'frobnicate'!".to_owned()]
    );
    assert_eq!(run("delete", &mut db, &mut modules), vec!["missing name".to_owned()]);
}

#[test]
fn linkify_replace_uses_first_matching_enabled_rule() {
    let rules = vec![
        linkify::Rule {
            name: "first".to_owned(),
            re: "#([0-9]+)".to_owned(),
            sub: "https://a/$1".to_owned(),
        },
        linkify::Rule {
            name: "second".to_owned(),
            re: "#([0-9]+)".to_owned(),
            sub: "https://b/$1".to_owned(),
        },
    ];
    let both = linkify::RoomConfig {
        enabled_rules: vec!["first".to_owned(), "second".to_owned()],
    };
    let only_second = linkify::RoomConfig { enabled_rules: vec!["second".to_owned()] };
    let none = linkify::RoomConfig { enabled_rules: Vec::new() };
    assert_eq!(
        linkify::Component::replace(&rules, &both, "see #7").as_deref(),
        Some("https://a/7")
    );
    assert_eq!(
        linkify::Component::replace(&rules, &only_second, "see #7").as_deref(),
        Some("https://b/7")
    );
    assert_eq!(linkify::Component::replace(&rules, &none, "see #7"), None);
    assert_eq!(linkify::Component::replace(&rules, &both, "no number"), None);
}

#[test]
fn linkify_rule_parsing() {
    let rule = linkify::Rule::try_from("issue \"#([0-9]+)\" https://example/$1").unwrap();
    assert_eq!(rule.name, "issue");
    assert_eq!(rule.re, "#([0-9]+)");
    assert_eq!(rule.sub, "https://example/$1");
    assert!(linkify::Rule::try_from("too few").is_err());
    assert!(linkify::Rule::try_from("unclosed \"quote").is_err());
}

#[test]
fn linkify_help_topics() {
    assert!(linkify::Component::on_help(None).contains("Help topics: admin"));
    assert!(linkify::Component::on_help(Some("admin")).contains("new NAME RE SUB"));
    assert_eq!(linkify::Component::on_help(Some("other")), "Invalid command!");
}

#[test]
fn help_listing_through_native_modules() {
    let (_dir, mut db) = temp_db();
    let mut modules = vec![
        native_module("uuid", GuestKind::Uuid),
        native_module("linkify", GuestKind::Linkify),
    ];
    let mut resolver = RoomResolver::new();
    let actions =
        dispatch_event(&mut modules, &mut db, &mut resolver, "!help", "@user:server", "!room", ADMIN);
    let t = texts(&actions);
    assert_eq!(t.len(), 1);
    assert!(t[0].contains("uuid"));
    assert!(t[0].contains("linkify"));
}

#[test]
fn mastodon_is_admin_checks_the_posters() {
    let rc = mastodon::RoomConfig {
        admins: vec!["@a:server".to_owned(), "@b:server".to_owned()],
        token: "T".to_owned(),
        base_url: "https://masto".to_owned(),
    };
    assert!(rc.is_admin("@a:server"));
    assert!(rc.is_admin("@b:server"));
    assert!(!rc.is_admin("@c:server"));
}

#[test]
fn mastodon_builds_the_status_request() {
    let rc = mastodon::RoomConfig {
        admins: Vec::new(),
        token: "T".to_owned(),
        base_url: "https://masto.example".to_owned(),
    };
    let (url, body) = mastodon::Component::toot_request_parts(&rc, "hi there");
    assert_eq!(url, "https://masto.example/api/v1/statuses");
    assert_eq!(body, "{\"status\":\"hi there\"}");
    let rc2 = mastodon::RoomConfig {
        admins: Vec::new(),
        token: "T".to_owned(),
        base_url: "https://masto.example/".to_owned(),
    };
    let (url2, _) = mastodon::Component::toot_request_parts(&rc2, "x");
    assert_eq!(url2, "https://masto.example/api/v1/statuses");
}

#[test]
fn mastodon_config_round_trips() {
    let (_dir, mut db) = temp_db();
    let state = ModuleState::new("mastodon").unwrap();
    let kv = &state.apis.kv_store;
    let rc = mastodon::RoomConfig {
        admins: vec!["@a:server".to_owned()],
        token: "SECRET-REDACTED".to_owned(),
        base_url: "https://masto".to_owned(),
    };
    mastodon::Component::set_config(kv, &mut db, "!R", &rc).unwrap();
    let read = mastodon::Component::get_config(kv, &db, "!R").unwrap();
    assert_eq!(read.admins, vec!["@a:server".to_owned()]);
    assert_eq!(read.token, "SECRET-REDACTED");
    assert_eq!(read.base_url, "https://masto");
    mastodon::Component::remove_config(kv, &mut db, "!R").unwrap();
    assert!(mastodon::Component::get_config(kv, &db, "!R").is_none());
}

#[test]
fn pun_extracts_the_joke_field() {
    let body = "{\"id\":\"abc\",\"joke\":\"Why did the chicken cross the road?\",\"status\":200}";
    assert_eq!(
        pun::Component::joke_from_body(body).as_deref(),
        Some("Why did the chicken cross the road?")
    );
    assert_eq!(pun::Component::joke_from_body("{\"joke\": 7}"), None);
    assert_eq!(pun::Component::joke_from_body("not json"), None);
    assert_eq!(pun::Component::joke_from_body("{}"), None);
}

#[test]
fn pun_ignores_other_messages() {
    let api = trinity::request::SyncRequestApi::new().unwrap();
    assert_eq!(pun::Component::get_pun(&api, "hello"), None);
}

#[test]
fn pun_help_topics() {
    assert!(pun::Component::on_help(None).contains("puns"));
    assert!(pun::Component::on_help(Some("toxic")).contains("toxic"));
}

#[test]
fn mastodon_admin_decisions() {
    let cfg = || {
        Some(mastodon::RoomConfig {
            admins: vec!["@a:server".to_owned()],
            token: "T".to_owned(),
            base_url: "https://masto".to_owned(),
        })
    };
    let d = mastodon::Component::admin_decision(None, "set-config https://masto T", "@s:server");
    assert!(d.reply.is_none() && d.react_ok);
    match d.action {
        mastodon::ConfigAction::Put(c) => {
            assert_eq!(c.base_url, "https://masto");
            assert_eq!(c.token, "T");
            assert_eq!(c.admins, vec!["@s:server".to_owned()]);
        }
        _ => panic!("set-config stores a fresh configuration"),
    }
    let d = mastodon::Component::admin_decision(None, "set-config", "@s:server");
    assert_eq!(d.reply.as_deref(), Some("missing base url"));
    let d = mastodon::Component::admin_decision(None, "set-config https://masto", "@s:server");
    assert_eq!(d.reply.as_deref(), Some("missing token"));
    let d = mastodon::Component::admin_decision(cfg(), "remove-config", "@s:server");
    assert!(d.react_ok && matches!(d.action, mastodon::ConfigAction::Clear));
    let d = mastodon::Component::admin_decision(cfg(), "allow @b:server", "@s:server");
    match d.action {
        mastodon::ConfigAction::Put(c) => {
            assert_eq!(c.admins, vec!["@a:server".to_owned(), "@b:server".to_owned()]);
        }
        _ => panic!("allow extends the posters"),
    }
    let d = mastodon::Component::admin_decision(None, "allow @b:server", "@s:server");
    assert_eq!(d.reply.as_deref(), Some("couldn't read room config for room"));
    let d = mastodon::Component::admin_decision(cfg(), "disallow @a:server", "@s:server");
    match d.action {
        mastodon::ConfigAction::Put(c) => assert!(c.admins.is_empty()),
        _ => panic!("disallow drops the poster"),
    }
    let d = mastodon::Component::admin_decision(cfg(), "disallow @nobody:server", "@s:server");
    assert_eq!(d.reply.as_deref(), Some("admin not found"));
    let d = mastodon::Component::admin_decision(cfg(), "list-posters", "@s:server");
    assert_eq!(d.reply.as_deref(), Some("@a:server"));
    let d = mastodon::Component::admin_decision(cfg(), "frobnicate", "@s:server");
    assert_eq!(d.reply.as_deref(), Some("unknown command!"));
}
