use trinity::codec::{decode_str_list, encode_str_list};
use trinity::config::split_paths;
use trinity::messaging::{client_actions, Action, CommandClient};
use trinity::logging::{LevelFilter, LogApi, WitLog};
use trinity::request::{bucket_response, Request, ResponseStatus, RunRequestError, SyncRequestApi};
use trinity::sys::{RoomResolution, RoomResolver, SysApi};

#[test]
fn status_bucketing_is_2xx() {
    assert!(matches!(bucket_response(200, None).status, ResponseStatus::Success));
    assert!(matches!(bucket_response(204, None).status, ResponseStatus::Success));
    assert!(matches!(bucket_response(299, None).status, ResponseStatus::Success));
    assert!(matches!(bucket_response(199, None).status, ResponseStatus::Error));
    assert!(matches!(bucket_response(300, None).status, ResponseStatus::Error));
    assert!(matches!(bucket_response(404, None).status, ResponseStatus::Error));
    assert!(matches!(bucket_response(500, None).status, ResponseStatus::Error));
}

#[test]
fn bucketing_keeps_the_body() {
    let r = bucket_response(404, Some("gone".to_owned()));
    assert_eq!(r.body.as_deref(), Some("gone"));
}

#[test]
fn malformed_request_fails_as_builder() {
    let api = SyncRequestApi::new().unwrap();
    let r = Request::get("not a url").run(&api);
    assert!(matches!(r, Err(RunRequestError::Builder(_))));
}

#[test]
fn unreachable_server_fails_as_execute() {
    let api = SyncRequestApi::new().unwrap();
    let r = Request::get("http://127.0.0.1:1/").run(&api);
    assert!(matches!(r, Err(RunRequestError::Execute(_))));
}

#[test]
fn request_builders_carry_the_verb() {
    // The builders exist for all four verbs and are chainable.
    let _ = Request::get("http://x/").header("a", "1").body("B");
    let _ = Request::put("http://x/").header("a", "1").header("a", "2");
    let _ = Request::delete("http://x/");
    let _ = Request::post("http://x/").body("B").body("C");
}

#[test]
fn rand_u64_returns_values() {
    let mut sys = SysApi::new();
    let a = sys.rand_u64();
    let b = sys.rand_u64();
    let c = sys.rand_u64();
    // Three draws are extremely unlikely to collide all together; this
    // only checks the call goes through to a source of values.
    let _ = (a, b, c);
}

#[test]
fn room_id_resolves_to_itself() {
    let resolver = RoomResolver::new();
    match resolver.resolve_room("!abc:server") {
        RoomResolution::RoomId(id) => assert_eq!(id, "!abc:server"),
        _ => panic!("a canonical room id resolves to itself"),
    }
}

#[test]
fn non_room_strings_are_not_rooms() {
    let resolver = RoomResolver::new();
    assert!(matches!(resolver.resolve_room("new"), RoomResolution::NotARoom));
    assert!(matches!(resolver.resolve_room(""), RoomResolution::NotARoom));
}

#[test]
fn malformed_reference_is_invalid() {
    let resolver = RoomResolver::new();
    assert!(matches!(resolver.resolve_room("#x"), RoomResolution::InvalidAlias));
    assert!(matches!(resolver.resolve_room("!x"), RoomResolution::InvalidAlias));
}

#[test]
fn alias_is_queried_once_then_cached() {
    let mut resolver = RoomResolver::new();
    match resolver.resolve_room("#alias:server") {
        RoomResolution::NeedsQuery => {}
        _ => panic!("an unknown alias asks for a transport query"),
    }
    resolver.note_alias("#alias:server", "!resolved:server");
    match resolver.resolve_room("#alias:server") {
        RoomResolution::Cached(id) => assert_eq!(id, "!resolved:server"),
        _ => panic!("a second resolution answers from the cache"),
    }
}

#[test]
fn codec_round_trips_string_lists() {
    let values = vec!["".to_owned(), "héllo wörld".to_owned(), "a b c".to_owned()];
    let bytes = encode_str_list(&values);
    assert_eq!(decode_str_list(&bytes), Some(values));
}

#[test]
fn codec_round_trips_the_empty_list() {
    let values: Vec<String> = Vec::new();
    let bytes = encode_str_list(&values);
    assert_eq!(decode_str_list(&bytes), Some(values));
}

#[test]
fn codec_rejects_garbage() {
    assert_eq!(decode_str_list(&vec![1, 2, 3]), None);
    assert_eq!(decode_str_list(&Vec::new()), None);
    // A trailing byte after a well-formed list is rejected.
    let mut bytes = encode_str_list(&vec!["x".to_owned()]);
    bytes.push(0);
    assert_eq!(decode_str_list(&bytes), None);
}

#[test]
fn log_lines_carry_the_module_prefix() {
    let log = LogApi::new("linkify");
    assert_eq!(log.line("hello"), "linkify - hello");
}

#[test]
fn wit_log_filters_by_level() {
    let mut log = WitLog::new();
    assert_eq!(log.log(&LevelFilter::Trace, "m").as_deref(), Some("m"));
    log.set_max_level(LevelFilter::Warn);
    assert_eq!(log.log(&LevelFilter::Error, "m").as_deref(), Some("m"));
    assert_eq!(log.log(&LevelFilter::Warn, "m").as_deref(), Some("m"));
    assert_eq!(log.log(&LevelFilter::Info, "m"), None);
    assert_eq!(log.log(&LevelFilter::Off, "m"), None);
    log.set_enabled(false);
    assert_eq!(log.log(&LevelFilter::Error, "m"), None);
}

#[test]
fn split_paths_splits_on_commas() {
    assert_eq!(split_paths("a,b,c"), vec!["a".to_owned(), "b".to_owned(), "c".to_owned()]);
    assert_eq!(split_paths("only"), vec!["only".to_owned()]);
    assert_eq!(split_paths(""), vec!["".to_owned()]);
}

#[test]
fn client_queue_turns_into_actions_in_order() {
    let mut client = CommandClient::new("!r:server".to_owned(), "@a:server".to_owned());
    assert_eq!(client.from(), "@a:server");
    assert_eq!(client.room(), "!r:server");
    client.respond("first".to_owned());
    client.respond_to("second".to_owned(), "@other:server".to_owned());
    client.react_with_ok();
    let actions = client_actions(client);
    assert_eq!(actions.len(), 3);
    match &actions[0] {
        Action::Respond(m) => {
            assert_eq!(m.text, "first");
            assert_eq!(m.to, "@a:server");
            assert!(m.html.is_none());
        }
        _ => panic!("expected a response"),
    }
    match &actions[1] {
        Action::Respond(m) => {
            assert_eq!(m.text, "second");
            assert_eq!(m.to, "@other:server");
        }
        _ => panic!("expected a response"),
    }
    match &actions[2] {
        Action::React(r) => assert_eq!(r, "👌"),
        _ => panic!("expected a reaction"),
    }
}
