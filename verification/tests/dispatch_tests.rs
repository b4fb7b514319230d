use trinity::dispatch::{parse_admin, parse_help, AdminParse, Dispatch, GuestOp, HelpParse, Reply, Step};
use trinity::messaging::Action;

fn names(ns: &[&str]) -> Vec<String> {
    ns.iter().map(|n| n.to_string()).collect()
}

fn respond_text(actions: &[Action]) -> Vec<(String, Option<String>, String)> {
    actions
        .iter()
        .map(|a| match a {
            Action::Respond(m) => (m.text.clone(), m.html.clone(), m.to.clone()),
            Action::React(r) => (format!("<react {r}>"), None, String::new()),
        })
        .collect()
}

fn new_dispatch(content: &str, sender: &str, names_list: &[&str]) -> Dispatch {
    Dispatch::new(
        content.to_owned(),
        sender.to_owned(),
        "!room:server".to_owned(),
        "@admin:server",
        names(names_list),
    )
}

#[test]
fn admin_alone_reports_missing_module_and_command() {
    let mut d = new_dispatch("!admin", "@admin:server", &["uuid"]);
    match d.step(None) {
        Step::Done(a) => {
            let msgs = respond_text(&a);
            assert_eq!(msgs.len(), 1);
            assert_eq!(msgs[0].0, "missing module and command");
            assert_eq!(msgs[0].2, "@admin:server");
        }
        _ => panic!("expected a direct reply"),
    }
}

#[test]
fn admin_without_command_reports_missing_command() {
    let mut d = new_dispatch("!admin uuid", "@admin:server", &["uuid"]);
    match d.step(None) {
        Step::Done(a) => {
            let msgs = respond_text(&a);
            assert_eq!(msgs.len(), 1);
            assert_eq!(msgs[0].0, "missing command");
        }
        _ => panic!("expected a direct reply"),
    }
}

#[test]
fn admin_unknown_module_is_reported() {
    let mut d = new_dispatch("!admin nosuch do things", "@admin:server", &["uuid"]);
    match d.step(None) {
        Step::Done(a) => {
            let msgs = respond_text(&a);
            assert_eq!(msgs.len(), 1);
            assert_eq!(msgs[0].0, "Module 'nosuch' not found");
        }
        _ => panic!("expected a direct reply"),
    }
}

#[test]
fn admin_routing_resolves_target_room() {
    // An admin command whose second word resolves to a room id targets
    // that room and keeps the remainder as the command.
    let mut d = new_dispatch(
        "!admin mastodon !OtherRoom:server set-config http://x TOKEN",
        "@admin:server",
        &["mastodon"],
    );
    let token = match d.step(None) {
        Step::Resolve(t) => t,
        _ => panic!("expected a room resolution"),
    };
    assert_eq!(token, "!OtherRoom:server");
    match d.step(Some(Reply::Resolved(Ok(Some("!OtherRoom:server".to_owned()))))) {
        Step::Call(GuestOp::Admin { module, cmd, sender, room }) => {
            assert_eq!(module, 0);
            assert_eq!(cmd, "set-config http://x TOKEN");
            assert_eq!(sender, "@admin:server");
            assert_eq!(room, "!OtherRoom:server");
        }
        _ => panic!("expected the admin call"),
    }
}

#[test]
fn admin_unresolved_token_stays_in_current_room() {
    let mut d = new_dispatch("!admin linkify enable issue", "@admin:server", &["linkify"]);
    match d.step(None) {
        Step::Resolve(t) => assert_eq!(t, "enable"),
        _ => panic!("expected a room resolution"),
    }
    match d.step(Some(Reply::Resolved(Ok(None)))) {
        Step::Call(GuestOp::Admin { module, cmd, room, .. }) => {
            assert_eq!(module, 0);
            assert_eq!(cmd, "enable issue");
            assert_eq!(room, "!room:server");
        }
        _ => panic!("expected the admin call"),
    }
}

#[test]
fn admin_from_non_admin_sender_is_an_ordinary_message() {
    // The admin export is never invoked: the walk starts directly.
    let mut d = new_dispatch("!admin uuid do things", "@user:server", &["uuid", "pun"]);
    match d.step(None) {
        Step::Call(GuestOp::OnMsg { module, content, .. }) => {
            assert_eq!(module, 0);
            assert_eq!(content, "!admin uuid do things");
        }
        _ => panic!("expected the ordinary walk"),
    }
}

#[test]
fn admin_nonempty_actions_short_circuit() {
    let mut d = new_dispatch("!admin uuid go", "@admin:server", &["uuid"]);
    match d.step(None) {
        Step::Resolve(_) => {}
        _ => panic!("expected a room resolution"),
    }
    match d.step(Some(Reply::Resolved(Ok(None)))) {
        Step::Call(GuestOp::Admin { .. }) => {}
        _ => panic!("expected the admin call"),
    }
    let actions = vec![Action::React("ok".to_owned())];
    match d.step(Some(Reply::Actions(Ok(actions)))) {
        Step::Done(a) => assert_eq!(a.len(), 1),
        _ => panic!("expected the admin reply to finish the dispatch"),
    }
}

#[test]
fn admin_error_falls_through_to_walk() {
    let mut d = new_dispatch("!admin uuid go", "@admin:server", &["uuid"]);
    d.step(None);
    d.step(Some(Reply::Resolved(Ok(None))));
    match d.step(Some(Reply::Actions(Err("trap".to_owned())))) {
        Step::Call(GuestOp::OnMsg { module, .. }) => assert_eq!(module, 0),
        _ => panic!("expected the walk after the failed admin call"),
    }
}

#[test]
fn help_listing_contains_every_module_name() {
    let mut d = new_dispatch("!help", "@user:server", &["uuid", "pun", "linkify"]);
    let mut step = d.step(None);
    for help in ["one", "two", "three"] {
        match step {
            Step::Call(GuestOp::Help { topic: None, .. }) => {}
            _ => panic!("expected a help call"),
        }
        step = d.step(Some(Reply::HelpText(Ok(help.to_owned()))));
    }
    match step {
        Step::Done(a) => {
            let msgs = respond_text(&a);
            assert_eq!(msgs.len(), 1);
            let text = &msgs[0].0;
            assert_eq!(text.matches("uuid").count(), 1);
            assert_eq!(text.matches("pun").count(), 1);
            assert_eq!(text.matches("linkify").count(), 1);
            assert!(text.contains("one") && text.contains("two") && text.contains("three"));
            assert!(msgs[0].1.is_some());
        }
        _ => panic!("expected the listing"),
    }
}

#[test]
fn help_trap_lists_module_as_missing() {
    let mut d = new_dispatch("!help", "@user:server", &["uuid"]);
    let step = d.step(None);
    match step {
        Step::Call(GuestOp::Help { module: 0, topic: None }) => {}
        _ => panic!("expected a help call"),
    }
    match d.step(Some(Reply::HelpText(Err("trap".to_owned())))) {
        Step::Done(a) => {
            let msgs = respond_text(&a);
            assert!(msgs[0].0.contains("<missing>"));
        }
        _ => panic!("expected the listing"),
    }
}

#[test]
fn help_for_one_module_returns_exactly_its_text() {
    let mut d = new_dispatch("!help uuid generation", "@user:server", &["pun", "uuid"]);
    match d.step(None) {
        Step::Call(GuestOp::Help { module, topic }) => {
            assert_eq!(module, 1);
            assert_eq!(topic.as_deref(), Some("generation"));
        }
        _ => panic!("expected the help call"),
    }
    match d.step(Some(Reply::HelpText(Ok("THE HELP".to_owned())))) {
        Step::Done(a) => {
            let msgs = respond_text(&a);
            assert_eq!(msgs.len(), 1);
            assert_eq!(msgs[0].0, "THE HELP");
            assert_eq!(msgs[0].1.as_deref(), Some("THE HELP"));
        }
        _ => panic!("expected the help reply"),
    }
}

#[test]
fn help_for_unknown_module_is_reported() {
    let mut d = new_dispatch("!help nosuch", "@user:server", &["uuid"]);
    match d.step(None) {
        Step::Done(a) => {
            let msgs = respond_text(&a);
            assert_eq!(msgs[0].0, "module nosuch not found");
        }
        _ => panic!("expected a direct reply"),
    }
}

#[test]
fn walk_first_nonempty_module_wins() {
    // Both modules would answer; only the earlier one runs.
    let mut d = new_dispatch("hello", "@user:server", &["first", "second"]);
    match d.step(None) {
        Step::Call(GuestOp::OnMsg { module: 0, .. }) => {}
        _ => panic!("expected the first module"),
    }
    let actions = vec![Action::React("1".to_owned())];
    match d.step(Some(Reply::Actions(Ok(actions)))) {
        Step::Done(a) => match &a[0] {
            Action::React(r) => assert_eq!(r, "1"),
            _ => panic!("expected the first module's action"),
        },
        _ => panic!("the first non-empty reply must finish the walk"),
    }
    assert!(d.finished());
}

#[test]
fn walk_trap_does_not_stop_later_modules() {
    let mut d = new_dispatch("hello", "@user:server", &["first", "second"]);
    match d.step(None) {
        Step::Call(GuestOp::OnMsg { module: 0, .. }) => {}
        _ => panic!("expected the first module"),
    }
    match d.step(Some(Reply::Actions(Err("trap".to_owned())))) {
        Step::Call(GuestOp::OnMsg { module, .. }) => assert_eq!(module, 1),
        _ => panic!("the trap must move on to the next module"),
    }
}

#[test]
fn walk_empty_actions_move_on() {
    let mut d = new_dispatch("hello", "@user:server", &["first", "second"]);
    d.step(None);
    match d.step(Some(Reply::Actions(Ok(Vec::new())))) {
        Step::Call(GuestOp::OnMsg { module, .. }) => assert_eq!(module, 1),
        _ => panic!("an empty reply must move on to the next module"),
    }
}

#[test]
fn walk_ends_with_no_actions() {
    let mut d = new_dispatch("hello", "@user:server", &["only"]);
    d.step(None);
    match d.step(Some(Reply::Actions(Ok(Vec::new())))) {
        Step::Done(a) => assert!(a.is_empty()),
        _ => panic!("expected the empty finish"),
    }
}

#[test]
fn empty_registry_finishes_immediately() {
    let mut d = new_dispatch("hello", "@user:server", &[]);
    match d.step(None) {
        Step::Done(a) => assert!(a.is_empty()),
        _ => panic!("expected the empty finish"),
    }
}

#[test]
fn parse_admin_cases() {
    assert!(matches!(parse_admin("hello"), AdminParse::NotAdmin));
    assert!(matches!(parse_admin("!adminx"), AdminParse::MissingModuleAndCommand));
    assert!(matches!(parse_admin("!admin  "), AdminParse::MissingCommand));
    match parse_admin("!admin linkify new issue RE SUB") {
        AdminParse::Parsed { module, possible_room, rest } => {
            assert_eq!(module, "linkify");
            assert_eq!(possible_room, "new");
            assert_eq!(rest, "issue RE SUB");
        }
        _ => panic!("expected a full parse"),
    }
}

#[test]
fn parse_help_cases() {
    assert!(matches!(parse_help("hello"), HelpParse::NotHelp));
    assert!(matches!(parse_help("!helpful"), HelpParse::NotHelp));
    assert!(matches!(parse_help("!help"), HelpParse::Listing));
    assert!(matches!(parse_help("!help   "), HelpParse::Listing));
    match parse_help("!help uuid") {
        HelpParse::One { module, topic } => {
            assert_eq!(module, "uuid");
            assert!(topic.is_none());
        }
        _ => panic!("expected a one-module parse"),
    }
    match parse_help("!help linkify admin  ") {
        HelpParse::One { module, topic } => {
            assert_eq!(module, "linkify");
            assert_eq!(topic.as_deref(), Some("admin"));
        }
        _ => panic!("expected a one-module parse"),
    }
}
