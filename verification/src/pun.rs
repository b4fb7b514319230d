//! The `pun` sample module: on `!pun`, fetch a joke from a public joke
//! service and respond with it.

use vstd::prelude::*;

use crate::command::{ModuleState, TrinityCommand};
use crate::messaging::CommandClient;
use crate::request::{Request, ResponseStatus, SyncRequestApi};
use crate::textutil::{chars_of, spec_starts_with, starts_with_chars};

verus! {

/// The string at the named top-level field of a JSON document, or nothing
/// when the document does not parse or the field is absent or not a
/// string; it depends on the document and the field alone.
pub uninterp spec fn json_str_field(doc: Seq<char>, field: Seq<char>) -> Option<Seq<char>>;

/// Relies on `serde_json::from_str`, `Value::get` and `Value::as_str`,
/// taken together because the parsed value cannot outlive the call: the
/// string at the named top-level field of the document.
#[verifier::external_body]
fn json_field_str(doc: &str, field: &str) -> (r: Option<String>)
    ensures
        match r {
            Some(s) => json_str_field(doc@, field@) == Some(s@),
            None => json_str_field(doc@, field@) is None,
        },
{
    let value: serde_json::Value = serde_json::from_str(doc).ok()?;
    Some(value.get(field)?.as_str()?.to_owned())
}

/// The `pun` module.
pub struct Component;

impl Component {
    /// The joke a service response carries: the string under its `joke`
    /// field.
    pub fn joke_from_body(body: &str) -> (r: Option<String>)
        ensures
            match r {
                Some(s) => json_str_field(body@, "joke"@) == Some(s@),
                None => json_str_field(body@, "joke"@) is None,
            },
    {
        json_field_str(body, "joke")
    }

    /// Fetches one joke for a `!pun` request; any other message, and any
    /// failure of the transport or of the response's decoding, yields
    /// nothing.
    pub fn get_pun(api: &SyncRequestApi, msg: &str) -> (r: Option<String>)
        ensures
            !spec_starts_with(msg@, "!pun"@) ==> r is None,
            r matches Some(joke) ==> exists|body: Seq<char>|
                #[trigger] json_str_field(body, "joke"@) == Some(joke@),
    {
        let chars = chars_of(msg);
        let prefix = chars_of("!pun");
        if !starts_with_chars(&chars, &prefix) {
            return None;
        }
        let resp = match Request::get("https://icanhazdadjoke.com/").header(
            "Accept",
            "application/json",
        ).run(api) {
            Ok(resp) => resp,
            Err(_) => {
                return None;
            },
        };
        // A non-success status still carries a usable body on this
        // service; the decode decides, as it always has.
        let _success = matches!(resp.status, ResponseStatus::Success);
        let body = match resp.body {
            Some(b) => b,
            None => {
                return None;
            },
        };
        match Component::joke_from_body(body.as_str()) {
            Some(joke) => {
                proof {
                    assert(json_str_field(body@, "joke"@) == Some(joke@));
                }
                Some(joke)
            },
            None => None,
        }
    }
}

impl TrinityCommand for Component {
    fn init(
        _state: &mut ModuleState,
        _db: &mut redb::Database,
        _config: Option<Vec<(String, String)>>,
    ) {
    }

    fn on_msg(
        client: &mut CommandClient,
        state: &mut ModuleState,
        _db: &mut redb::Database,
        content: &str,
    )
        ensures
            crate::store::kv_tables(*final(_db)) == crate::store::kv_tables(*old(_db)),
            final(client).spec_reactions() == old(client).spec_reactions(),
            final(client).spec_from() == old(client).spec_from(),
            final(client).spec_room() == old(client).spec_room(),
            !spec_starts_with(content@, "!pun"@) ==> final(client).spec_messages() == old(
                client,
            ).spec_messages(),
            final(client).spec_messages() == old(client).spec_messages() || exists|j: Seq<char>|
                #![trigger old(client).spec_messages().push((old(client).spec_from(), j))]
                {
                    &&& final(client).spec_messages() == old(client).spec_messages().push(
                        (old(client).spec_from(), j),
                    )
                    &&& exists|body: Seq<char>| #[trigger] json_str_field(body, "joke"@) == Some(j)
                },
    {
        match Component::get_pun(&state.apis.sync_request, content) {
            Some(joke) => {
                let ghost j = joke@;
                client.respond(joke);
                proof {
                    assert(client.spec_messages() == old(client).spec_messages().push(
                        (old(client).spec_from(), j),
                    ));
                }
            },
            None => {},
        }
    }

    fn on_help(topic: Option<&str>) -> String {
        if matches!(topic, Some("toxic")) {
            "this is content fetched from a website on the internet, so this may be toxic!".to_owned()
        } else {
            "Get radioactive puns straight from the internet! (ask '!help pun toxic' for details on radioactivity)".to_owned()
        }
    }

    fn on_admin(
        _client: &mut CommandClient,
        _state: &mut ModuleState,
        _db: &mut redb::Database,
        _cmd: &str,
    ) {
    }
}

} // verus!
