//! The configuration the host runs with, as plain values.
//!
//! The on-disk and environment loaders live with the host program; the
//! library receives a fully formed value and only parses the one list
//! the environment packs into a single variable: the comma-separated
//! module search paths.

use vstd::prelude::*;

use crate::textutil::{chars_of, find_char, find_from, skip_chars, string_of_chars, take_chars};

verus! {

/// The configuration to run a bot instance with.
pub struct BotConfig {
    /// The homeserver the bot connects to.
    pub home_server: String,
    /// The user id to be used on the homeserver.
    pub user_id: String,
    /// The password used to log into the homeserver.
    pub password: String,
    /// Where the transport stores its internal data.
    pub matrix_store_path: String,
    /// Where the key/value database file lives.
    pub redb_path: String,
    /// The admin user id for the bot.
    pub admin_user_id: String,
    /// The paths modules are loaded from, in order.
    pub modules_paths: Vec<String>,
    /// Per-module configuration, as ordered key/value pairs per module.
    pub modules_config: Option<Vec<(String, Vec<(String, String)>)>>,
}

/// A comma-separated list split at every comma; an empty string is one
/// empty element, as the environment loader has always read it.
pub open spec fn spec_split_commas(s: Seq<char>) -> Seq<Seq<char>>
    decreases s.len(),
{
    let i = find_from(s, ',', 0);
    if 0 <= i < s.len() {
        seq![s.take(i)] + spec_split_commas(s.skip(i + 1))
    } else {
        seq![s]
    }
}

/// Splits the packed module-paths value at every comma.
pub fn split_paths(s: &str) -> (r: Vec<String>)
    ensures
        r@.map_values(|p: String| p@) == spec_split_commas(s@),
{
    split_commas(chars_of(s))
}

fn split_commas(chars: Vec<char>) -> (r: Vec<String>)
    ensures
        r@.map_values(|p: String| p@) == spec_split_commas(chars@),
    decreases chars@.len(),
{
    match find_char(&chars, ',') {
        None => {
            let mut out: Vec<String> = Vec::new();
            out.push(string_of_chars(chars.as_slice()));
            proof {
                assert(out@.map_values(|p: String| p@) =~= spec_split_commas(chars@));
            }
            out
        },
        Some(i) => {
            let chars_len = chars.len();
            proof {
                assert(i < chars_len);
            }
            let head = string_of_chars(take_chars(&chars, i).as_slice());
            let ghost head_view = head@;
            let tail = skip_chars(&chars, i + 1);
            let rest = split_commas(tail);
            let ghost rest_views = rest@.map_values(|p: String| p@);
            let mut out: Vec<String> = Vec::new();
            out.push(head);
            let mut rest = rest;
            out.append(&mut rest);
            proof {
                assert(out@.map_values(|p: String| p@) =~= seq![head_view] + rest_views);
                assert(out@.map_values(|p: String| p@) =~= spec_split_commas(chars@));
            }
            out
        },
    }
}

} // verus!
