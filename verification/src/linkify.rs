//! The `linkify` sample module: admins create named regex substitution
//! rules and enable them room by room; an ordinary message is answered
//! with the expansion of the first enabled rule that matches it.
//!
//! Rules are persisted in the module's key/value namespace as a flat list
//! of strings, three per rule, under the `rules` key; each room's enabled
//! rule names are a list of strings under `room:<room>`.

use vstd::prelude::*;
use vstd::string::StrSliceExecFns;

use crate::codec::{dec_str_list, decode_str_list, enc_str_list, encode_str_list};
use crate::command::{ModuleState, TrinityCommand};
use crate::messaging::CommandClient;
use crate::store::{kv_tables, spec_kv_set, table_of, KeyValueStoreApi, KvError};
use crate::textutil::{
    chars_of, find_space, skip_chars, spec_starts_with, spec_trim, starts_with_chars,
    string_of_chars, take_chars, trim_chars,
};

verus! {

use vstd::utf8::encode_utf8;

/// What `shlex::split` yields for a command line, or nothing when the
/// line has no shell-style reading (an unclosed quote).
pub uninterp spec fn shlex_split(s: Seq<char>) -> Option<Seq<Seq<char>>>;

/// Relies on `shlex::split`: the shell-style words of the line, which
/// depend on the line alone.
#[verifier::external_body]
fn shlex_words(s: &str) -> (r: Option<Vec<String>>)
    ensures
        match r {
            Some(ws) => shlex_split(s@) == Some(ws@.map_values(|w: String| w@)),
            None => shlex_split(s@) is None,
        },
{
    shlex::split(s)
}

/// Whether the pattern compiles as a regular expression; it depends on
/// the pattern alone.
pub uninterp spec fn regex_ok(pat: Seq<char>) -> bool;

/// Relies on `regex::Regex::new`: whether the pattern compiles.
#[verifier::external_body]
fn regex_is_valid(pat: &str) -> (r: bool)
    ensures
        r == regex_ok(pat@),
{
    regex::Regex::new(pat).is_ok()
}

/// What expanding the substitution over the first match of the pattern in
/// the text yields, or nothing when the pattern does not match; for a
/// valid pattern it depends on the three strings alone.
pub uninterp spec fn regex_expansion(pat: Seq<char>, text: Seq<char>, sub: Seq<char>) -> Option<
    Seq<char>,
>;

/// Relies on `regex::Regex::new`, `Regex::captures` and
/// `Captures::expand`, taken together because the intermediate capture
/// value cannot outlive the call: the substitution expanded over the
/// first match, or nothing when the pattern does not match.
#[verifier::external_body]
fn regex_expand(pat: &str, text: &str, sub: &str) -> (r: Option<String>)
    requires
        regex_ok(pat@),
    ensures
        match r {
            Some(s) => regex_expansion(pat@, text@, sub@) == Some(s@),
            None => regex_expansion(pat@, text@, sub@) is None,
        },
{
    let re = match regex::Regex::new(pat) {
        Ok(re) => re,
        Err(_) => return None,
    };
    match re.captures(text) {
        Some(caps) => {
            let mut dest = String::new();
            caps.expand(sub, &mut dest);
            Some(dest)
        },
        None => None,
    }
}

/// One substitution rule: its name, its pattern, and its substitution.
pub struct Rule {
    pub name: String,
    pub re: String,
    pub sub: String,
}

/// A rule as a triple of views.
pub open spec fn rule_view(r: Rule) -> (Seq<char>, Seq<char>, Seq<char>) {
    (r.name@, r.re@, r.sub@)
}

impl Rule {
    /// Parses `NAME RE SUB` as three shell-style words.
    pub fn try_from(cmd: &str) -> (r: Result<Rule, String>)
        ensures
            match r {
                Ok(rule) => shlex_split(cmd@) matches Some(ws) && ws.len() == 3 && rule.name@
                    == ws[0] && rule.re@ == ws[1] && rule.sub@ == ws[2],
                Err(e) => e@ == "Three inputs expected: name/re/sub"@ && !(shlex_split(cmd@)
                    matches Some(ws) && ws.len() == 3),
            },
    {
        let words = match shlex_words(cmd) {
            Some(ws) => ws,
            None => Vec::new(),
        };
        if words.len() != 3 {
            return Err("Three inputs expected: name/re/sub".to_owned());
        }
        let mut words = words;
        let name = words.remove(0);
        let re = words.remove(0);
        let sub = words.remove(0);
        Ok(Rule { name, re, sub })
    }
}

/// A room's configuration: the names of the rules enabled in it.
pub struct RoomConfig {
    pub enabled_rules: Vec<String>,
}

impl RoomConfig {
    pub open spec fn spec_enabled(&self) -> Seq<Seq<char>> {
        self.enabled_rules@.map_values(|s: String| s@)
    }
}

/// The key the rules are stored under.
pub open spec fn rules_key() -> Seq<u8> {
    encode_utf8("rules"@)
}

/// The key a room's configuration is stored under.
pub open spec fn room_key(room: Seq<char>) -> Seq<u8> {
    encode_utf8("room:"@ + room)
}

/// Rules from the flat string list that stores them, three strings each.
pub open spec fn rules_of_strings(ss: Seq<Seq<char>>) -> Seq<(Seq<char>, Seq<char>, Seq<char>)>
    decreases ss.len(),
{
    if ss.len() < 3 {
        Seq::empty()
    } else {
        seq![(ss[0], ss[1], ss[2])] + rules_of_strings(ss.skip(3))
    }
}

/// The flat string list that stores the rules, three strings each.
pub open spec fn strings_of_rules(rs: Seq<(Seq<char>, Seq<char>, Seq<char>)>) -> Seq<Seq<char>>
    decreases rs.len(),
{
    if rs.len() == 0 {
        Seq::empty()
    } else {
        seq![rs[0].0, rs[0].1, rs[0].2] + strings_of_rules(rs.drop_first())
    }
}

/// The rules the module's table holds; unreadable or absent data reads as
/// no rules.
pub open spec fn stored_rules(table: Map<Seq<u8>, Seq<u8>>) -> Seq<(Seq<char>, Seq<char>, Seq<char>)> {
    if table.contains_key(rules_key()) {
        match dec_str_list(table[rules_key()]) {
            Some(ss) => if ss.len() % 3 == 0 {
                rules_of_strings(ss)
            } else {
                Seq::empty()
            },
            None => Seq::empty(),
        }
    } else {
        Seq::empty()
    }
}

/// The rule names enabled in a room; unreadable or absent data reads as
/// none enabled.
pub open spec fn stored_config(table: Map<Seq<u8>, Seq<u8>>, room: Seq<char>) -> Seq<Seq<char>> {
    if table.contains_key(room_key(room)) {
        match dec_str_list(table[room_key(room)]) {
            Some(ss) => ss,
            None => Seq::empty(),
        }
    } else {
        Seq::empty()
    }
}

/// What an ordinary message is replaced with: the expansion of the first
/// rule, in rule order, that is enabled in the room, compiles, and
/// matches the message; or nothing.
pub open spec fn spec_replace(
    rules: Seq<(Seq<char>, Seq<char>, Seq<char>)>,
    enabled: Seq<Seq<char>>,
    msg: Seq<char>,
) -> Option<Seq<char>>
    decreases rules.len(),
{
    if rules.len() == 0 {
        None
    } else if enabled.contains(rules[0].0) && regex_ok(rules[0].1) && regex_expansion(
        rules[0].1,
        msg,
        rules[0].2,
    ) is Some {
        regex_expansion(rules[0].1, msg, rules[0].2)
    } else {
        spec_replace(rules.drop_first(), enabled, msg)
    }
}

/// True when some rule bears this name.
pub open spec fn has_rule(rules: Seq<(Seq<char>, Seq<char>, Seq<char>)>, name: Seq<char>) -> bool {
    exists|k: int| 0 <= k < rules.len() && rules[k].0 == name
}

/// The rules without the first one bearing this name.
pub open spec fn remove_first_rule(
    rules: Seq<(Seq<char>, Seq<char>, Seq<char>)>,
    name: Seq<char>,
) -> Seq<(Seq<char>, Seq<char>, Seq<char>)>
    decreases rules.len(),
{
    if rules.len() == 0 {
        Seq::empty()
    } else if rules[0].0 == name {
        rules.drop_first()
    } else {
        seq![rules[0]] + remove_first_rule(rules.drop_first(), name)
    }
}

/// The names without every occurrence of this one.
pub open spec fn without_name(names: Seq<Seq<char>>, name: Seq<char>) -> Seq<Seq<char>>
    decreases names.len(),
{
    if names.len() == 0 {
        Seq::empty()
    } else {
        (if names[0] == name {
            Seq::empty()
        } else {
            seq![names[0]]
        }) + without_name(names.drop_first(), name)
    }
}

/// The bytes for the key `rules`.
fn rules_key_bytes() -> (r: Vec<u8>)
    ensures
        r@ == rules_key(),
{
    vstd::slice::slice_to_vec("rules".as_bytes())
}

/// The bytes for a room's configuration key.
fn room_key_bytes(room: &str) -> (r: Vec<u8>)
    ensures
        r@ == room_key(room@),
{
    let mut key = "room:".to_owned();
    key.append(room);
    vstd::slice::slice_to_vec(key.as_str().as_bytes())
}

/// Regroups the stored flat string list into rules, three strings each.
fn group_rules(ss: Vec<String>) -> (r: Vec<Rule>)
    ensures
        r@.map_values(|x: Rule| rule_view(x)) == rules_of_strings(ss@.map_values(|s: String| s@)),
    decreases ss@.len(),
{
    let ghost views = ss@.map_values(|s: String| s@);
    if ss.len() < 3 {
        let r: Vec<Rule> = Vec::new();
        proof {
            assert(r@.map_values(|x: Rule| rule_view(x)) =~= rules_of_strings(views));
        }
        return r;
    }
    let mut ss = ss;
    let name = ss.remove(0);
    let re = ss.remove(0);
    let sub = ss.remove(0);
    let ghost name_v = name@;
    let ghost re_v = re@;
    let ghost sub_v = sub@;
    proof {
        assert(ss@.map_values(|s: String| s@) =~= views.skip(3));
    }
    let rest = group_rules(ss);
    let mut out: Vec<Rule> = Vec::new();
    out.push(Rule { name, re, sub });
    let mut rest = rest;
    out.append(&mut rest);
    proof {
        assert(out@.map_values(|x: Rule| rule_view(x)) =~= seq![(name_v, re_v, sub_v)]
            + rules_of_strings(views.skip(3)));
        assert(out@.map_values(|x: Rule| rule_view(x)) =~= rules_of_strings(views));
    }
    out
}

/// Flattens rules into the stored string list, three strings each.
fn flatten_rules(rules: Vec<Rule>) -> (r: Vec<String>)
    ensures
        r@.map_values(|s: String| s@) == strings_of_rules(
            rules@.map_values(|x: Rule| rule_view(x)),
        ),
    decreases rules@.len(),
{
    let ghost views = rules@.map_values(|x: Rule| rule_view(x));
    if rules.len() == 0 {
        let r: Vec<String> = Vec::new();
        proof {
            assert(r@.map_values(|s: String| s@) =~= strings_of_rules(views));
        }
        return r;
    }
    let mut rules = rules;
    let Rule { name, re, sub } = rules.remove(0);
    let ghost name_v = name@;
    let ghost re_v = re@;
    let ghost sub_v = sub@;
    proof {
        assert(rules@.map_values(|x: Rule| rule_view(x)) =~= views.drop_first());
    }
    let rest = flatten_rules(rules);
    let mut out: Vec<String> = Vec::new();
    out.push(name);
    out.push(re);
    out.push(sub);
    let mut rest = rest;
    out.append(&mut rest);
    proof {
        assert(out@.map_values(|s: String| s@) =~= seq![name_v, re_v, sub_v] + strings_of_rules(
            views.drop_first(),
        ));
        assert(out@.map_values(|s: String| s@) =~= strings_of_rules(views));
    }
    out
}

/// True when some rule bears this name.
fn rules_contain(rules: &Vec<Rule>, name: &String) -> (r: bool)
    ensures
        r == has_rule(rules@.map_values(|x: Rule| rule_view(x)), name@),
{
    let ghost views = rules@.map_values(|x: Rule| rule_view(x));
    let n = rules.len();
    let mut i: usize = 0;
    while i < n
        invariant
            i <= n,
            n == views.len(),
            views == rules@.map_values(|x: Rule| rule_view(x)),
            forall|k: int| 0 <= k < i ==> views[k].0 != name@,
            forall|k: int| 0 <= k < n ==> views[k] == rule_view(#[trigger] rules@[k]),
        decreases n - i,
    {
        if rules[i].name.eq(name) {
            proof {
                assert(views[i as int].0 == name@);
            }
            return true;
        }
        i = i + 1;
    }
    proof {
        if has_rule(views, name@) {
            let k = choose|k: int| 0 <= k < views.len() && views[k].0 == name@;
            assert(views[k].0 != name@);
        }
    }
    false
}

/// True when this name is among the given names.
fn names_contain(names: &Vec<String>, name: &String) -> (r: bool)
    ensures
        r == names@.map_values(|s: String| s@).contains(name@),
{
    let ghost views = names@.map_values(|s: String| s@);
    let n = names.len();
    let mut i: usize = 0;
    while i < n
        invariant
            i <= n,
            n == views.len(),
            views == names@.map_values(|s: String| s@),
            forall|k: int| 0 <= k < i ==> views[k] != name@,
            forall|k: int| 0 <= k < n ==> views[k] == #[trigger] names@[k]@,
        decreases n - i,
    {
        if names[i].eq(name) {
            proof {
                assert(views[i as int] == name@);
            }
            return true;
        }
        i = i + 1;
    }
    proof {
        if views.contains(name@) {
            let k = choose|k: int| 0 <= k < views.len() && views[k] == name@;
            assert(views[k] != name@);
        }
    }
    false
}

/// The rules without the first one bearing this name.
fn remove_rule(rules: Vec<Rule>, name: &String) -> (r: Vec<Rule>)
    ensures
        r@.map_values(|x: Rule| rule_view(x)) == remove_first_rule(
            rules@.map_values(|x: Rule| rule_view(x)),
            name@,
        ),
    decreases rules@.len(),
{
    let ghost views = rules@.map_values(|x: Rule| rule_view(x));
    if rules.len() == 0 {
        let r: Vec<Rule> = Vec::new();
        proof {
            assert(r@.map_values(|x: Rule| rule_view(x)) =~= remove_first_rule(views, name@));
        }
        return r;
    }
    let mut rules = rules;
    let first = rules.remove(0);
    proof {
        assert(rules@.map_values(|x: Rule| rule_view(x)) =~= views.drop_first());
    }
    if first.name.eq(name) {
        proof {
            assert(views[0].0 == name@);
        }
        return rules;
    }
    let ghost first_v = rule_view(first);
    let rest = remove_rule(rules, name);
    let mut out: Vec<Rule> = Vec::new();
    out.push(first);
    let mut rest = rest;
    out.append(&mut rest);
    proof {
        assert(out@.map_values(|x: Rule| rule_view(x)) =~= seq![first_v] + remove_first_rule(
            views.drop_first(),
            name@,
        ));
        assert(out@.map_values(|x: Rule| rule_view(x)) =~= remove_first_rule(views, name@));
    }
    out
}

/// The names without every occurrence of this one.
fn remove_name(names: Vec<String>, name: &String) -> (r: Vec<String>)
    ensures
        r@.map_values(|s: String| s@) == without_name(
            names@.map_values(|s: String| s@),
            name@,
        ),
    decreases names@.len(),
{
    let ghost views = names@.map_values(|s: String| s@);
    if names.len() == 0 {
        let r: Vec<String> = Vec::new();
        proof {
            assert(r@.map_values(|s: String| s@) =~= without_name(views, name@));
        }
        return r;
    }
    let mut names = names;
    let first = names.remove(0);
    proof {
        assert(names@.map_values(|s: String| s@) =~= views.drop_first());
    }
    let keep = !first.eq(name);
    let ghost first_v = first@;
    let rest = remove_name(names, name);
    let mut out: Vec<String> = Vec::new();
    if keep {
        out.push(first);
    }
    let mut rest = rest;
    out.append(&mut rest);
    proof {
        if keep {
            assert(out@.map_values(|s: String| s@) =~= seq![first_v] + without_name(
                views.drop_first(),
                name@,
            ));
        } else {
            assert(out@.map_values(|s: String| s@) =~= without_name(views.drop_first(), name@));
        }
        assert(out@.map_values(|s: String| s@) =~= without_name(views, name@));
    }
    out
}

/// The `linkify` module.
pub struct Component;

impl Component {
    /// The rules the module's namespace holds; a storage fault, like
    /// absent or unreadable data, reads as no rules.
    pub fn get_rules(kv: &KeyValueStoreApi, db: &redb::Database) -> (r: Vec<Rule>)
        ensures
            r@.map_values(|x: Rule| rule_view(x)) == stored_rules(
                table_of(kv_tables(*db), kv.spec_module_name()),
            ) || r@.len() == 0,
    {
        let key = rules_key_bytes();
        match kv.get(db, key.as_slice()) {
            Ok(Some(bytes)) => {
                match decode_str_list(&bytes) {
                    Some(ss) => {
                        if ss.len() % 3 == 0 {
                            group_rules(ss)
                        } else {
                            Vec::new()
                        }
                    },
                    None => Vec::new(),
                }
            },
            _ => Vec::new(),
        }
    }

    /// The room's configuration; a storage fault, like absent or
    /// unreadable data, reads as nothing enabled.
    pub fn get_room_config(kv: &KeyValueStoreApi, db: &redb::Database, room: &str) -> (r:
        RoomConfig)
        ensures
            r.spec_enabled() == stored_config(
                table_of(kv_tables(*db), kv.spec_module_name()),
                room@,
            ) || r.spec_enabled().len() == 0,
    {
        let key = room_key_bytes(room);
        match kv.get(db, key.as_slice()) {
            Ok(Some(bytes)) => {
                match decode_str_list(&bytes) {
                    Some(ss) => RoomConfig { enabled_rules: ss },
                    None => RoomConfig { enabled_rules: Vec::new() },
                }
            },
            _ => RoomConfig { enabled_rules: Vec::new() },
        }
    }

    /// Stores the rules; on success the module's table holds exactly
    /// their encoding under the rules key.
    fn set_rules(kv: &KeyValueStoreApi, db: &mut redb::Database, rules: Vec<Rule>) -> (r: Result<
        (),
        KvError,
    >)
        ensures
            r is Ok ==> kv_tables(*final(db)) == spec_kv_set(
                kv_tables(*old(db)),
                kv.spec_module_name(),
                rules_key(),
                enc_str_list(strings_of_rules(rules@.map_values(|x: Rule| rule_view(x)))),
            ),
            r is Err ==> kv_tables(*final(db)) == kv_tables(*old(db)),
    {
        let flat = flatten_rules(rules);
        if !lengths_fit(&flat) {
            return Err(KvError::Internal("rule list does not fit the storage format".to_owned()));
        }
        let bytes = encode_str_list(&flat);
        let key = rules_key_bytes();
        kv.set(db, key.as_slice(), bytes.as_slice())
    }

    /// Stores a room's configuration; on success the module's table holds
    /// exactly its encoding under the room's key.
    fn set_room_config(
        kv: &KeyValueStoreApi,
        db: &mut redb::Database,
        room: &str,
        rc: RoomConfig,
    ) -> (r: Result<(), KvError>)
        ensures
            r is Ok ==> kv_tables(*final(db)) == spec_kv_set(
                kv_tables(*old(db)),
                kv.spec_module_name(),
                room_key(room@),
                enc_str_list(rc.spec_enabled()),
            ),
            r is Err ==> kv_tables(*final(db)) == kv_tables(*old(db)),
    {
        if !lengths_fit(&rc.enabled_rules) {
            return Err(KvError::Internal("name list does not fit the storage format".to_owned()));
        }
        let bytes = encode_str_list(&rc.enabled_rules);
        let key = room_key_bytes(room);
        kv.set(db, key.as_slice(), bytes.as_slice())
    }

    /// What an ordinary message is replaced with, walking the given rules
    /// in order and trying the ones enabled in the room: the expansion of
    /// the first that matches, or nothing.
    pub fn replace(rules: &Vec<Rule>, rc: &RoomConfig, msg: &str) -> (r: Option<String>)
        ensures
            match r {
                Some(s) => spec_replace(
                    rules@.map_values(|x: Rule| rule_view(x)),
                    rc.spec_enabled(),
                    msg@,
                ) == Some(s@),
                None => spec_replace(
                    rules@.map_values(|x: Rule| rule_view(x)),
                    rc.spec_enabled(),
                    msg@,
                ) is None,
            },
    {
        let ghost views = rules@.map_values(|x: Rule| rule_view(x));
        proof {
            assert(views.skip(0) =~= views);
        }
        let n = rules.len();
        let mut i: usize = 0;
        while i < n
            invariant
                i <= n,
                n == views.len(),
                views == rules@.map_values(|x: Rule| rule_view(x)),
                forall|k: int| 0 <= k < n ==> views[k] == rule_view(#[trigger] rules@[k]),
                spec_replace(views, rc.spec_enabled(), msg@) == spec_replace(
                    views.skip(i as int),
                    rc.spec_enabled(),
                    msg@,
                ),
            decreases n - i,
        {
            proof {
                assert(views.skip(i as int)[0] == views[i as int]);
                assert(views.skip(i as int).drop_first() =~= views.skip(i as int + 1));
            }
            let enabled = names_contain(&rc.enabled_rules, &rules[i].name);
            if enabled {
                if regex_is_valid(rules[i].re.as_str()) {
                    match regex_expand(
                        rules[i].re.as_str(),
                        msg,
                        rules[i].sub.as_str(),
                    ) {
                        Some(dest) => {
                            return Some(dest);
                        },
                        None => {},
                    }
                }
                // An invalid pattern should not arise, since rules are
                // validated at creation; it is skipped like a non-match.
            }
            i = i + 1;
        }
        proof {
            assert(views.skip(n as int) =~= Seq::<(Seq<char>, Seq<char>, Seq<char>)>::empty());
        }
        None
    }
}

/// True when the list and each of its strings fit the storage format.
pub(crate) fn lengths_fit(ss: &Vec<String>) -> (r: bool)
    ensures
        r == (ss@.len() <= u32::MAX && forall|k: int|
            0 <= k < ss@.len() ==> (#[trigger] ss@[k])@.len() <= u32::MAX),
{
    if ss.len() > 0xffff_ffffusize {
        return false;
    }
    let n = ss.len();
    let mut i: usize = 0;
    while i < n
        invariant
            i <= n,
            n == ss@.len(),
            n <= u32::MAX,
            forall|k: int| 0 <= k < i ==> (#[trigger] ss@[k])@.len() <= u32::MAX,
        decreases n - i,
    {
        let len_i = ss[i].as_str().unicode_len();
        if len_i > 0xffff_ffffusize {
            proof {
                assert(ss@[i as int]@.len() > u32::MAX);
            }
            return false;
        }
        i = i + 1;
    }
    true
}


/// The first space-separated word of a string, or all of it when it
/// holds no space.
pub open spec fn first_word(t: Seq<char>) -> Seq<char> {
    match crate::textutil::spec_split_once_space(t) {
        None => t,
        Some(p) => p.0,
    }
}

/// The plain-text rule listing: one line per rule.
pub open spec fn list_text(rs: Seq<(Seq<char>, Seq<char>, Seq<char>)>) -> Seq<char>
    decreases rs.len(),
{
    if rs.len() == 0 {
        Seq::empty()
    } else {
        list_text(rs.drop_last()) + "\n"@ + rs.last().0 + ": "@ + rs.last().1 + " -> "@
            + rs.last().2
    }
}

/// What one admin command decides, from the current rules and the room's
/// enabled names: the reply, and the new rule list or room configuration
/// when the command changes one.
///
/// `new NAME RE SUB` creates a rule unless the name is taken or the
/// pattern is invalid; `delete NAME` drops it; `enable NAME` and
/// `disable NAME` toggle it for the room; `list` prints the rules; a
/// missing name is an error, and anything else is unknown.
pub open spec fn spec_admin_decision(
    rv: Seq<(Seq<char>, Seq<char>, Seq<char>)>,
    en: Seq<Seq<char>>,
    cmd: Seq<char>,
) -> (Result<Seq<char>, Seq<char>>, Option<Seq<(Seq<char>, Seq<char>, Seq<char>)>>, Option<
    Seq<Seq<char>>,
>) {
    if spec_starts_with(cmd, "new"@) {
        let input = cmd.skip("new"@.len() as int);
        match shlex_split(input) {
            Some(w) => if w.len() == 3 {
                if has_rule(rv, w[0]) {
                    (Ok("Rule '"@ + w[0] + "' already exists!"@), None, None)
                } else if !regex_ok(w[1]) {
                    (Ok("Invalid regex `"@ + w[1] + "`!"@), None, None)
                } else {
                    (Ok("Rule has been created!"@), Some(rv.push((w[0], w[1], w[2]))), None)
                }
            } else {
                (Ok("Error parsing rule: "@ + "Three inputs expected: name/re/sub"@), None, None)
            },
            None => (
                Ok("Error parsing rule: "@ + "Three inputs expected: name/re/sub"@),
                None,
                None,
            ),
        }
    } else if spec_starts_with(cmd, "delete"@) {
        let tail = spec_trim(cmd.skip("delete"@.len() as int));
        if tail.len() == 0 {
            (Err("missing name"@), None, None)
        } else {
            let name = first_word(tail);
            if has_rule(rv, name) {
                (Ok("Rule has been deleted!"@), Some(remove_first_rule(rv, name)), None)
            } else {
                (Ok("Rule '"@ + name + "' not found!"@), None, None)
            }
        }
    } else if spec_starts_with(cmd, "enable"@) {
        let tail = spec_trim(cmd.skip("enable"@.len() as int));
        if tail.len() == 0 {
            (Err("missing name"@), None, None)
        } else {
            let name = first_word(tail);
            if has_rule(rv, name) {
                if en.contains(name) {
                    (Ok("Rule '"@ + name + "' is already enabled!"@), None, None)
                } else {
                    (Ok("Rule '"@ + name + "' has been enabled!"@), None, Some(en.push(name)))
                }
            } else {
                (Ok("Rule '"@ + name + "' not found!"@), None, None)
            }
        }
    } else if spec_starts_with(cmd, "disable"@) {
        let tail = spec_trim(cmd.skip("disable"@.len() as int));
        if tail.len() == 0 {
            (Err("missing name"@), None, None)
        } else {
            let name = first_word(tail);
            if has_rule(rv, name) {
                if en.contains(name) {
                    (Ok("Rule '"@ + name + "' has been disabled!"@), None, Some(
                        without_name(en, name),
                    ))
                } else {
                    (Ok("Rule '"@ + name + "' is already disabled!"@), None, None)
                }
            } else {
                (Ok("Rule '"@ + name + "' not found!"@), None, None)
            }
        }
    } else if cmd == "list"@ {
        if rv.len() == 0 {
            (Ok("No rules found."@), None, None)
        } else {
            (Ok(list_text(rv)), None, None)
        }
    } else {
        let word = if spec_trim(cmd).len() == 0 {
            "none"@
        } else {
            first_word(spec_trim(cmd))
        };
        (Ok("Unknown command '"@ + word + "'!"@), None, None)
    }
}

/// The outcome of one admin command.
pub struct AdminOutcome {
    pub reply: Result<String, String>,
    pub new_rules: Option<Vec<Rule>>,
    pub new_config: Option<RoomConfig>,
}

impl AdminOutcome {
    /// The outcome as views, matching [`spec_admin_decision`].
    pub open spec fn view3(&self) -> (Result<Seq<char>, Seq<char>>, Option<
        Seq<(Seq<char>, Seq<char>, Seq<char>)>,
    >, Option<Seq<Seq<char>>>) {
        (
            match self.reply {
                Ok(ref s) => Ok(s@),
                Err(ref e) => Err(e@),
            },
            match self.new_rules {
                Some(ref rs) => Some(rs@.map_values(|x: Rule| rule_view(x))),
                None => None,
            },
            match self.new_config {
                Some(ref rc) => Some(rc.spec_enabled()),
                None => None,
            },
        )
    }
}

/// The trimmed tail and its first word, for the commands that take a name.
fn name_token(chars: &Vec<char>, prefix_len: usize) -> (r: Option<String>)
    requires
        prefix_len <= chars@.len(),
    ensures
        ({
            let tail = spec_trim(chars@.skip(prefix_len as int));
            match r {
                Some(name) => tail.len() > 0 && name@ == first_word(tail),
                None => tail.len() == 0,
            }
        }),
{
    let tail = skip_chars(chars, prefix_len);
    let trimmed = trim_chars(&tail);
    if trimmed.len() == 0 {
        return None;
    }
    match find_space(&trimmed) {
        None => Some(string_of_chars(trimmed.as_slice())),
        Some(i) => Some(string_of_chars(take_chars(&trimmed, i).as_slice())),
    }
}

impl Component {
    /// Decides one admin command over the given rules and room
    /// configuration, exactly as [`spec_admin_decision`] says.
    pub fn admin_decision(rules: Vec<Rule>, rc: &RoomConfig, cmd: &str) -> (r: AdminOutcome)
        ensures
            r.view3() == spec_admin_decision(
                rules@.map_values(|x: Rule| rule_view(x)),
                rc.spec_enabled(),
                cmd@,
            ),
    {
        let chars = chars_of(cmd);
        let p_new = chars_of("new");
        let p_delete = chars_of("delete");
        let p_enable = chars_of("enable");
        let p_disable = chars_of("disable");
        if starts_with_chars(&chars, &p_new) {
            let input = string_of_chars(skip_chars(&chars, p_new.len()).as_slice());
            let rule = match Rule::try_from(input.as_str()) {
                Ok(rule) => rule,
                Err(e) => {
                    let mut msg = "Error parsing rule: ".to_owned();
                    msg.append(e.as_str());
                    return AdminOutcome { reply: Ok(msg), new_rules: None, new_config: None };
                },
            };
            if rules_contain(&rules, &rule.name) {
                let mut msg = "Rule '".to_owned();
                msg.append(rule.name.as_str());
                msg.append("' already exists!");
                return AdminOutcome { reply: Ok(msg), new_rules: None, new_config: None };
            }
            if !regex_is_valid(rule.re.as_str()) {
                let mut msg = "Invalid regex `".to_owned();
                msg.append(rule.re.as_str());
                msg.append("`!");
                return AdminOutcome { reply: Ok(msg), new_rules: None, new_config: None };
            }
            let ghost old_views = rules@.map_values(|x: Rule| rule_view(x));
            let ghost new_view = rule_view(rule);
            let mut rules = rules;
            rules.push(rule);
            proof {
                assert(rules@.map_values(|x: Rule| rule_view(x)) =~= old_views.push(new_view));
            }
            return AdminOutcome {
                reply: Ok("Rule has been created!".to_owned()),
                new_rules: Some(rules),
                new_config: None,
            };
        }
        if starts_with_chars(&chars, &p_delete) {
            let name = match name_token(&chars, p_delete.len()) {
                Some(name) => name,
                None => {
                    return AdminOutcome {
                        reply: Err("missing name".to_owned()),
                        new_rules: None,
                        new_config: None,
                    };
                },
            };
            if rules_contain(&rules, &name) {
                let remaining = remove_rule(rules, &name);
                return AdminOutcome {
                    reply: Ok("Rule has been deleted!".to_owned()),
                    new_rules: Some(remaining),
                    new_config: None,
                };
            }
            let mut msg = "Rule '".to_owned();
            msg.append(name.as_str());
            msg.append("' not found!");
            return AdminOutcome { reply: Ok(msg), new_rules: None, new_config: None };
        }
        if starts_with_chars(&chars, &p_enable) {
            let name = match name_token(&chars, p_enable.len()) {
                Some(name) => name,
                None => {
                    return AdminOutcome {
                        reply: Err("missing name".to_owned()),
                        new_rules: None,
                        new_config: None,
                    };
                },
            };
            if rules_contain(&rules, &name) {
                if names_contain(&rc.enabled_rules, &name) {
                    let mut msg = "Rule '".to_owned();
                    msg.append(name.as_str());
                    msg.append("' is already enabled!");
                    return AdminOutcome { reply: Ok(msg), new_rules: None, new_config: None };
                }
                let mut msg = "Rule '".to_owned();
                msg.append(name.as_str());
                msg.append("' has been enabled!");
                let ghost en_views = rc.spec_enabled();
                let ghost name_view = name@;
                let mut enabled = clone_names(&rc.enabled_rules);
                enabled.push(name);
                proof {
                    assert(enabled@.map_values(|s: String| s@) =~= en_views.push(name_view));
                }
                return AdminOutcome {
                    reply: Ok(msg),
                    new_rules: None,
                    new_config: Some(RoomConfig { enabled_rules: enabled }),
                };
            }
            let mut msg = "Rule '".to_owned();
            msg.append(name.as_str());
            msg.append("' not found!");
            return AdminOutcome { reply: Ok(msg), new_rules: None, new_config: None };
        }
        if starts_with_chars(&chars, &p_disable) {
            let name = match name_token(&chars, p_disable.len()) {
                Some(name) => name,
                None => {
                    return AdminOutcome {
                        reply: Err("missing name".to_owned()),
                        new_rules: None,
                        new_config: None,
                    };
                },
            };
            if rules_contain(&rules, &name) {
                if names_contain(&rc.enabled_rules, &name) {
                    let mut msg = "Rule '".to_owned();
                    msg.append(name.as_str());
                    msg.append("' has been disabled!");
                    let enabled = remove_name(clone_names(&rc.enabled_rules), &name);
                    return AdminOutcome {
                        reply: Ok(msg),
                        new_rules: None,
                        new_config: Some(RoomConfig { enabled_rules: enabled }),
                    };
                }
                let mut msg = "Rule '".to_owned();
                msg.append(name.as_str());
                msg.append("' is already disabled!");
                return AdminOutcome { reply: Ok(msg), new_rules: None, new_config: None };
            }
            let mut msg = "Rule '".to_owned();
            msg.append(name.as_str());
            msg.append("' not found!");
            return AdminOutcome { reply: Ok(msg), new_rules: None, new_config: None };
        }
        if cmd.to_owned().eq(&"list".to_owned()) {
            if rules.len() == 0 {
                return AdminOutcome {
                    reply: Ok("No rules found.".to_owned()),
                    new_rules: None,
                    new_config: None,
                };
            }
            return AdminOutcome {
                reply: Ok(rules_listing(&rules)),
                new_rules: None,
                new_config: None,
            };
        }
        let trimmed = trim_chars(&chars);
        let word = if trimmed.len() == 0 {
            "none".to_owned()
        } else {
            match find_space(&trimmed) {
                None => string_of_chars(trimmed.as_slice()),
                Some(i) => string_of_chars(take_chars(&trimmed, i).as_slice()),
            }
        };
        let mut msg = "Unknown command '".to_owned();
        msg.append(word.as_str());
        msg.append("'!");
        AdminOutcome { reply: Ok(msg), new_rules: None, new_config: None }
    }
}

/// A copy of the given names.
fn clone_names(names: &Vec<String>) -> (r: Vec<String>)
    ensures
        r@.map_values(|s: String| s@) == names@.map_values(|s: String| s@),
{
    let n = names.len();
    let mut out: Vec<String> = Vec::new();
    let mut i: usize = 0;
    while i < n
        invariant
            i <= n,
            n == names@.len(),
            out@.len() == i,
            forall|k: int| 0 <= k < i ==> #[trigger] out@[k]@ == names@[k]@,
        decreases n - i,
    {
        out.push(names[i].clone());
        i = i + 1;
    }
    proof {
        assert(out@.map_values(|s: String| s@) =~= names@.map_values(|s: String| s@));
    }
    out
}

/// The plain-text rule listing, one line per rule.
fn rules_listing(rules: &Vec<Rule>) -> (r: String)
    ensures
        r@ == list_text(rules@.map_values(|x: Rule| rule_view(x))),
{
    let ghost views = rules@.map_values(|x: Rule| rule_view(x));
    let mut out = String::new();
    let n = rules.len();
    let mut i: usize = 0;
    while i < n
        invariant
            i <= n,
            n == views.len(),
            views == rules@.map_values(|x: Rule| rule_view(x)),
            forall|k: int| 0 <= k < n ==> views[k] == rule_view(#[trigger] rules@[k]),
            out@ == list_text(views.take(i as int)),
        decreases n - i,
    {
        proof {
            assert(views.take(i + 1).drop_last() =~= views.take(i as int));
            assert(views.take(i + 1).last() == views[i as int]);
        }
        out.append("\n");
        out.append(rules[i].name.as_str());
        out.append(": ");
        out.append(rules[i].re.as_str());
        out.append(" -> ");
        out.append(rules[i].sub.as_str());
        i = i + 1;
    }
    proof {
        assert(views.take(n as int) =~= views);
    }
    out
}


impl Component {
    /// Handles one admin command: reads the rules and the room's
    /// configuration, decides as [`spec_admin_decision`] says, stores what
    /// the decision changes, and returns its reply. The decision is taken
    /// over the stored rules and configuration, except that a storage
    /// fault can make a read come back empty; a dropped write likewise
    /// leaves the tables unchanged.
    pub fn handle_admin(
        kv: &KeyValueStoreApi,
        db: &mut redb::Database,
        cmd: &str,
        _sender: &str,
        room: &str,
    ) -> (r: Result<String, String>)
        ensures
            exists|rv: Seq<(Seq<char>, Seq<char>, Seq<char>)>, en: Seq<Seq<char>>|
                {
                    &&& (rv == stored_rules(
                        table_of(kv_tables(*old(db)), kv.spec_module_name()),
                    ) || rv == Seq::<(Seq<char>, Seq<char>, Seq<char>)>::empty())
                    &&& (en == stored_config(
                        table_of(kv_tables(*old(db)), kv.spec_module_name()),
                        room@,
                    ) || en == Seq::<Seq<char>>::empty())
                    &&& #[trigger] admin_call_post(
                        rv,
                        en,
                        kv_tables(*old(db)),
                        kv_tables(*final(db)),
                        kv.spec_module_name(),
                        cmd@,
                        room@,
                        r,
                    )
                },
    {
        let ghost tables_old = kv_tables(*db);
        let rules = Component::get_rules(kv, db);
        let rc = Component::get_room_config(kv, db, room);
        let ghost rv0 = rules@.map_values(|x: Rule| rule_view(x));
        let ghost en0 = rc.spec_enabled();
        proof {
            if rv0.len() == 0 {
                assert(rv0 =~= Seq::<(Seq<char>, Seq<char>, Seq<char>)>::empty());
            }
            if en0.len() == 0 {
                assert(en0 =~= Seq::<Seq<char>>::empty());
            }
        }
        let outcome = Component::admin_decision(rules, &rc, cmd);
        match outcome.new_rules {
            Some(new_rules) => {
                // A failed store is deliberately ignored, as the reply was
                // already decided.
                let stored = Component::set_rules(kv, db, new_rules);
                proof {
                    if stored is Err {
                        assert(kv_tables(*db) == tables_old);
                    }
                }
            },
            None => {},
        }
        match outcome.new_config {
            Some(new_config) => {
                let stored = Component::set_room_config(kv, db, room, new_config);
                proof {
                    if stored is Err {
                        assert(kv_tables(*db) == tables_old);
                    }
                }
            },
            None => {},
        }
        let r = outcome.reply;
        proof {
            assert(admin_call_post(
                rv0,
                en0,
                tables_old,
                kv_tables(*db),
                kv.spec_module_name(),
                cmd@,
                room@,
                r,
            ));
        }
        r
    }

    /// Respond to a help request for this module.
    pub fn on_help_text(topic: Option<&str>) -> (r: String) {
        match topic {
            Some(topic) => {
                if topic.to_owned().eq(&"admin".to_owned()) {
                    "Available admin commands:\n- new NAME RE SUB\n- delete NAME\n- enable NAME\n- disable NAME\n- list\nRules are created with `new` and then enabled room by room with `enable`; the regex capture groups can be interpolated into the substitution with $1, $2 or named groups.".to_owned()
                } else {
                    "Invalid command!".to_owned()
                }
            },
            None => "Create regex based substition rules per channel! Help topics: admin".to_owned(),
        }
    }
}

/// How one admin call relates what was read, what was replied, and what
/// the tables became: the reply is the decision's, and each store the
/// decision asks for either took effect or was dropped by a fault.
pub open spec fn admin_call_post(
    rv: Seq<(Seq<char>, Seq<char>, Seq<char>)>,
    en: Seq<Seq<char>>,
    tables_old: Map<Seq<char>, Map<Seq<u8>, Seq<u8>>>,
    tables_new: Map<Seq<char>, Map<Seq<u8>, Seq<u8>>>,
    module: Seq<char>,
    cmd: Seq<char>,
    room: Seq<char>,
    r: Result<String, String>,
) -> bool {
    let d = spec_admin_decision(rv, en, cmd);
    &&& match r {
        Ok(s) => d.0 == Ok::<Seq<char>, Seq<char>>(s@),
        Err(e) => d.0 == Err::<Seq<char>, Seq<char>>(e@),
    }
    &&& match d.1 {
        Some(nr) => tables_new == spec_kv_set(
            tables_old,
            module,
            rules_key(),
            enc_str_list(strings_of_rules(nr)),
        ) || tables_new == tables_old,
        None => true,
    }
    &&& match d.2 {
        Some(nc) => tables_new == spec_kv_set(
            tables_old,
            module,
            room_key(room),
            enc_str_list(nc),
        ) || tables_new == tables_old,
        None => true,
    }
    &&& (d.1 is None && d.2 is None ==> tables_new == tables_old)
}

/// How one ordinary message changes the client, given the rules and the
/// room's enabled names the module read: the first matching enabled
/// rule's expansion is queued once to the sender, or nothing is queued.
pub open spec fn on_msg_post(
    rules: Seq<(Seq<char>, Seq<char>, Seq<char>)>,
    enabled: Seq<Seq<char>>,
    content: Seq<char>,
    from: Seq<char>,
    old_msgs: Seq<(Seq<char>, Seq<char>)>,
    new_msgs: Seq<(Seq<char>, Seq<char>)>,
) -> bool {
    match spec_replace(rules, enabled, content) {
        Some(t) => new_msgs == old_msgs.push((from, t)),
        None => new_msgs == old_msgs,
    }
}

/// The reply text of an admin decision, whether it decided a reply or an
/// error.
pub open spec fn admin_reply_of(d0: Result<Seq<char>, Seq<char>>) -> Seq<char> {
    match d0 {
        Ok(s) => s,
        Err(e) => e,
    }
}

impl TrinityCommand for Component {
    fn init(
        _state: &mut ModuleState,
        _db: &mut redb::Database,
        _config: Option<Vec<(String, String)>>,
    ) {
    }

    fn on_msg(
        client: &mut CommandClient,
        state: &mut ModuleState,
        db: &mut redb::Database,
        content: &str,
    )
        ensures
            kv_tables(*final(db)) == kv_tables(*old(db)),
            final(client).spec_reactions() == old(client).spec_reactions(),
            final(client).spec_from() == old(client).spec_from(),
            final(client).spec_room() == old(client).spec_room(),
            exists|rules: Seq<(Seq<char>, Seq<char>, Seq<char>)>, enabled: Seq<Seq<char>>|
                {
                    &&& (rules == stored_rules(
                        table_of(
                            kv_tables(*old(db)),
                            old(state).apis.kv_store.spec_module_name(),
                        ),
                    ) || rules == Seq::<(Seq<char>, Seq<char>, Seq<char>)>::empty())
                    &&& (enabled == stored_config(
                        table_of(
                            kv_tables(*old(db)),
                            old(state).apis.kv_store.spec_module_name(),
                        ),
                        old(client).spec_room(),
                    ) || enabled == Seq::<Seq<char>>::empty())
                    &&& #[trigger] on_msg_post(
                        rules,
                        enabled,
                        content@,
                        old(client).spec_from(),
                        old(client).spec_messages(),
                        final(client).spec_messages(),
                    )
                },
    {
        let room = client.room().to_owned();
        let rc = Component::get_room_config(&state.apis.kv_store, db, room.as_str());
        let rules = Component::get_rules(&state.apis.kv_store, db);
        let ghost rules_v = rules@.map_values(|x: Rule| rule_view(x));
        let ghost enabled_v = rc.spec_enabled();
        proof {
            if rules_v.len() == 0 {
                assert(rules_v =~= Seq::<(Seq<char>, Seq<char>, Seq<char>)>::empty());
            }
            if enabled_v.len() == 0 {
                assert(enabled_v =~= Seq::<Seq<char>>::empty());
            }
        }
        match Component::replace(&rules, &rc, content) {
            Some(text) => {
                client.respond(text);
                proof {
                    assert(on_msg_post(
                        rules_v,
                        enabled_v,
                        content@,
                        old(client).spec_from(),
                        old(client).spec_messages(),
                        client.spec_messages(),
                    ));
                }
            },
            None => {
                proof {
                    assert(on_msg_post(
                        rules_v,
                        enabled_v,
                        content@,
                        old(client).spec_from(),
                        old(client).spec_messages(),
                        client.spec_messages(),
                    ));
                }
            },
        }
    }

    fn on_help(topic: Option<&str>) -> String {
        Component::on_help_text(topic)
    }

    fn on_admin(
        client: &mut CommandClient,
        state: &mut ModuleState,
        db: &mut redb::Database,
        cmd: &str,
    )
        ensures
            final(client).spec_reactions() == old(client).spec_reactions(),
            final(client).spec_from() == old(client).spec_from(),
            final(client).spec_room() == old(client).spec_room(),
            exists|rv: Seq<(Seq<char>, Seq<char>, Seq<char>)>, en: Seq<Seq<char>>|
                {
                    &&& (rv == stored_rules(
                        table_of(
                            kv_tables(*old(db)),
                            old(state).apis.kv_store.spec_module_name(),
                        ),
                    ) || rv == Seq::<(Seq<char>, Seq<char>, Seq<char>)>::empty())
                    &&& (en == stored_config(
                        table_of(
                            kv_tables(*old(db)),
                            old(state).apis.kv_store.spec_module_name(),
                        ),
                        old(client).spec_room(),
                    ) || en == Seq::<Seq<char>>::empty())
                    &&& final(client).spec_messages() == old(client).spec_messages().push(
                        (
                            old(client).spec_from(),
                            admin_reply_of(
                                #[trigger] spec_admin_decision(rv, en, cmd@).0,
                            ),
                        ),
                    )
                    &&& match spec_admin_decision(rv, en, cmd@).1 {
                        Some(nr) => kv_tables(*final(db)) == spec_kv_set(
                            kv_tables(*old(db)),
                            old(state).apis.kv_store.spec_module_name(),
                            rules_key(),
                            enc_str_list(strings_of_rules(nr)),
                        ) || kv_tables(*final(db)) == kv_tables(*old(db)),
                        None => true,
                    }
                    &&& match spec_admin_decision(rv, en, cmd@).2 {
                        Some(nc) => kv_tables(*final(db)) == spec_kv_set(
                            kv_tables(*old(db)),
                            old(state).apis.kv_store.spec_module_name(),
                            room_key(old(client).spec_room()),
                            enc_str_list(nc),
                        ) || kv_tables(*final(db)) == kv_tables(*old(db)),
                        None => true,
                    }
                    &&& (spec_admin_decision(rv, en, cmd@).1 is None && spec_admin_decision(
                        rv,
                        en,
                        cmd@,
                    ).2 is None ==> kv_tables(*final(db)) == kv_tables(*old(db)))
                },
    {
        let room = client.room().to_owned();
        let sender = client.from().to_owned();
        let result = Component::handle_admin(
            &state.apis.kv_store,
            db,
            cmd,
            sender.as_str(),
            room.as_str(),
        );
        let ghost table_old = table_of(
            kv_tables(*old(db)),
            old(state).apis.kv_store.spec_module_name(),
        );
        let ghost picked = choose|rv: Seq<(Seq<char>, Seq<char>, Seq<char>)>, en: Seq<Seq<char>>|
            {
                &&& (rv == stored_rules(table_old) || rv == Seq::<(
                    Seq<char>,
                    Seq<char>,
                    Seq<char>,
                )>::empty())
                &&& (en == stored_config(table_old, room@) || en == Seq::<Seq<char>>::empty())
                &&& #[trigger] admin_call_post(
                    rv,
                    en,
                    kv_tables(*old(db)),
                    kv_tables(*db),
                    old(state).apis.kv_store.spec_module_name(),
                    cmd@,
                    room@,
                    result,
                )
            };
        let reply = match result {
            Ok(s) => s,
            Err(e) => e,
        };
        client.respond(reply);
        proof {
            assert(admin_call_post(
                picked.0,
                picked.1,
                kv_tables(*old(db)),
                kv_tables(*db),
                old(state).apis.kv_store.spec_module_name(),
                cmd@,
                room@,
                result,
            ));
            assert(client.spec_messages() == old(client).spec_messages().push(
                (
                    old(client).spec_from(),
                    admin_reply_of(spec_admin_decision(picked.0, picked.1, cmd@).0),
                ),
            ));
        }
    }
}


/// Law: the rule framing is lossless. The flat string list of a rule
/// list regroups to the same rules, three strings per rule.
pub proof fn lemma_rules_strings_roundtrip(rs: Seq<(Seq<char>, Seq<char>, Seq<char>)>)
    ensures
        strings_of_rules(rs).len() == 3 * rs.len(),
        rules_of_strings(strings_of_rules(rs)) == rs,
    decreases rs.len(),
{
    if rs.len() == 0 {
        assert(rules_of_strings(strings_of_rules(rs)) =~= rs);
    } else {
        let rest = rs.drop_first();
        lemma_rules_strings_roundtrip(rest);
        let ss = strings_of_rules(rs);
        assert(ss.skip(3) =~= strings_of_rules(rest));
        assert(rules_of_strings(ss) =~= rs);
    }
}

/// Law: stored rules read back. After the rules are written under the
/// rules key, the module's table holds exactly those rules, provided they
/// fit the storage format.
pub proof fn lemma_rules_survive_storage(
    tables: Map<Seq<char>, Map<Seq<u8>, Seq<u8>>>,
    module: Seq<char>,
    rules: Seq<(Seq<char>, Seq<char>, Seq<char>)>,
)
    requires
        3 * rules.len() <= u32::MAX,
        forall|k: int|
            0 <= k < strings_of_rules(rules).len() ==> (#[trigger] strings_of_rules(rules)[
                k]).len() <= u32::MAX,
    ensures
        stored_rules(
            table_of(
                spec_kv_set(
                    tables,
                    module,
                    rules_key(),
                    enc_str_list(strings_of_rules(rules)),
                ),
                module,
            ),
        ) == rules,
{
    lemma_rules_strings_roundtrip(rules);
    crate::codec::lemma_str_list_roundtrip(strings_of_rules(rules));
    let table = table_of(
        spec_kv_set(tables, module, rules_key(), enc_str_list(strings_of_rules(rules))),
        module,
    );
    assert(table.contains_key(rules_key()));
    assert(table[rules_key()] == enc_str_list(strings_of_rules(rules)));
}

} // verus!
