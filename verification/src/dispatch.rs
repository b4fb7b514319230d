//! The dispatcher.
//!
//! One inbound room event is routed in up to three stages: an `!admin`
//! command from the admin user, an `!help` request, and otherwise the
//! ordinary walk over the registry where the first module that returns a
//! non-empty action list wins. The dispatcher is a step machine: each
//! step either asks the driver to perform one guest call or one room
//! resolution, or finishes with the actions to send.

use vstd::prelude::*;

use crate::messaging::{Action, Message};
use crate::textutil::{
    chars_of, find_space, skip_chars, spec_split_once_space, spec_starts_with,
    spec_trim, starts_with_chars, string_of_chars, take_chars, trim_chars,
};

verus! {

/// How an `!admin` line parses.
pub enum AdminParse {
    /// The content does not start with the admin prefix.
    NotAdmin,
    /// Bare prefix with no tail at all.
    MissingModuleAndCommand,
    /// A module name but no command after it.
    MissingCommand,
    /// A module name, the word that may name a target room, and the rest.
    Parsed { module: String, possible_room: String, rest: String },
}

/// The admin line's tail: what follows the prefix, trimmed.
pub open spec fn spec_admin_rest(content: Seq<char>) -> Seq<char> {
    spec_trim(content.skip("!admin "@.len() as int))
}

/// Parses the admin command grammar: after `!admin `, the module name,
/// then optionally a word that may name a target room, then the command.
pub fn parse_admin(content: &str) -> (r: AdminParse)
    ensures
        match r {
            AdminParse::NotAdmin => !spec_starts_with(content@, "!admin"@),
            AdminParse::MissingModuleAndCommand => spec_starts_with(content@, "!admin"@)
                && !spec_starts_with(content@, "!admin "@),
            AdminParse::MissingCommand => spec_starts_with(content@, "!admin "@)
                && spec_split_once_space(spec_admin_rest(content@)) is None,
            AdminParse::Parsed { module, possible_room, rest } => spec_starts_with(
                content@,
                "!admin "@,
            ) && match spec_split_once_space(spec_admin_rest(content@)) {
                Some(p) => module@ == p.0 && {
                    let rest2 = spec_trim(p.1);
                    match spec_split_once_space(rest2) {
                        None => possible_room@ == rest2 && rest@.len() == 0,
                        Some(q) => possible_room@ == q.0 && rest@ == spec_trim(q.1),
                    }
                },
                None => false,
            },
        },
{
    let chars = chars_of(content);
    let prefix = chars_of("!admin");
    let prefix_sp = chars_of("!admin ");
    if !starts_with_chars(&chars, &prefix) {
        return AdminParse::NotAdmin;
    }
    if !starts_with_chars(&chars, &prefix_sp) {
        return AdminParse::MissingModuleAndCommand;
    }
    let tail = skip_chars(&chars, prefix_sp.len());
    let rest = trim_chars(&tail);
    match find_space(&rest) {
        None => AdminParse::MissingCommand,
        Some(i) => {
            let rest_len = rest.len();
            proof {
                assert(i < rest_len);
            }
            let module = string_of_chars(take_chars(&rest, i).as_slice());
            let after = skip_chars(&rest, i + 1);
            let rest2 = trim_chars(&after);
            match find_space(&rest2) {
                None => {
                    let possible_room = string_of_chars(rest2.as_slice());
                    AdminParse::Parsed { module, possible_room, rest: String::new() }
                },
                Some(j) => {
                    let rest2_len = rest2.len();
                    proof {
                        assert(j < rest2_len);
                    }
                    let possible_room = string_of_chars(take_chars(&rest2, j).as_slice());
                    let after2 = skip_chars(&rest2, j + 1);
                    let rest3 = trim_chars(&after2);
                    let rest_string = string_of_chars(rest3.as_slice());
                    AdminParse::Parsed { module, possible_room, rest: rest_string }
                },
            }
        },
    }
}

/// How an `!help` line parses.
pub enum HelpParse {
    /// The content does not start with a help request.
    NotHelp,
    /// Bare `!help`: list every module.
    Listing,
    /// Help on one module, with an optional topic.
    One { module: String, topic: Option<String> },
}

/// The help line's tail after `!help `, trimmed.
pub open spec fn spec_help_rest(content: Seq<char>) -> Seq<char> {
    spec_trim(content.skip("!help "@.len() as int))
}

/// Parses the help grammar: bare `!help` lists the modules, `!help MOD`
/// and `!help MOD TOPIC` ask one module.
pub fn parse_help(content: &str) -> (r: HelpParse)
    ensures
        match r {
            HelpParse::NotHelp => !spec_starts_with(content@, "!help"@) || (spec_trim(
                content@.skip("!help"@.len() as int),
            ).len() > 0 && !spec_starts_with(content@, "!help "@)),
            HelpParse::Listing => spec_starts_with(content@, "!help"@) && spec_trim(
                content@.skip("!help"@.len() as int),
            ).len() == 0,
            HelpParse::One { module, topic } => spec_starts_with(content@, "!help "@) && spec_trim(
                content@.skip("!help"@.len() as int),
            ).len() > 0 && match spec_split_once_space(spec_help_rest(content@)) {
                None => module@ == spec_help_rest(content@) && topic is None,
                Some(p) => module@ == p.0 && (topic matches Some(t) && t@ == spec_trim(p.1)),
            },
        },
{
    let chars = chars_of(content);
    let prefix = chars_of("!help");
    let prefix_sp = chars_of("!help ");
    if !starts_with_chars(&chars, &prefix) {
        return HelpParse::NotHelp;
    }
    let tail0 = skip_chars(&chars, prefix.len());
    let trimmed0 = trim_chars(&tail0);
    if trimmed0.len() == 0 {
        return HelpParse::Listing;
    }
    if !starts_with_chars(&chars, &prefix_sp) {
        return HelpParse::NotHelp;
    }
    let tail = skip_chars(&chars, prefix_sp.len());
    let rest = trim_chars(&tail);
    match find_space(&rest) {
        None => {
            let module = string_of_chars(rest.as_slice());
            HelpParse::One { module, topic: None }
        },
        Some(i) => {
            let rest_len = rest.len();
            proof {
                assert(i < rest_len);
            }
            let module = string_of_chars(take_chars(&rest, i).as_slice());
            let after = skip_chars(&rest, i + 1);
            let topic = string_of_chars(trim_chars(&after).as_slice());
            HelpParse::One { module, topic: Some(topic) }
        },
    }
}

/// One call the driver must make into a guest module.
pub enum GuestOp {
    /// Call `help(topic)` on the module at this position.
    Help { module: usize, topic: Option<String> },
    /// Call `admin(cmd, sender, room)` on the module at this position.
    Admin { module: usize, cmd: String, sender: String, room: String },
    /// Call `on_msg(content, sender, room)` on the module at this position.
    OnMsg { module: usize, content: String, sender: String, room: String },
}

/// What the driver hands back after performing the asked work.
pub enum Reply {
    /// The help text a module returned, or the trap message.
    HelpText(Result<String, String>),
    /// The actions a module returned, or the trap message.
    Actions(Result<Vec<Action>, String>),
    /// The resolver's answer for a room token: a room id, `None` when the
    /// token is no room reference, or an error.
    Resolved(Result<Option<String>, String>),
}

/// What one dispatcher step asks of the driver.
pub enum Step {
    /// Perform this guest call and feed the reply to the next step.
    Call(GuestOp),
    /// Resolve this room token and feed the reply to the next step.
    Resolve(String),
    /// Dispatch is finished: forward these actions to the transport.
    Done(Vec<Action>),
}

/// Where the dispatcher stands between steps.
pub enum Phase {
    /// Nothing decided yet.
    Start,
    /// Waiting for the resolver's answer on the admin target-room token.
    AdminResolve { module_idx: usize, possible_room: String, rest: String },
    /// Waiting for the admin call's actions.
    AdminCall,
    /// Waiting for `help(None)` of the module at `idx`, with the texts
    /// collected so far.
    HelpList { idx: usize, helps: Vec<String> },
    /// Waiting for one module's `help(topic)`.
    HelpOne { module: String },
    /// Waiting for `on_msg` of the module at `idx`.
    Walk { idx: usize },
    /// The dispatch has produced its actions.
    Finished,
}

/// The position of the first name equal to `m`, or the length when none is.
pub open spec fn spec_first_index(names: Seq<Seq<char>>, m: Seq<char>) -> int
    decreases names.len(),
{
    if names.len() == 0 {
        0
    } else if names[0] == m {
        0
    } else {
        1 + spec_first_index(names.drop_first(), m)
    }
}

proof fn lemma_first_index_found(names: Seq<Seq<char>>, m: Seq<char>, i: int)
    requires
        0 <= i < names.len(),
        names[i] == m,
        forall|k: int| 0 <= k < i ==> names[k] != m,
    ensures
        spec_first_index(names, m) == i,
    decreases i,
{
    if i > 0 {
        lemma_first_index_found(names.drop_first(), m, i - 1);
    }
}

proof fn lemma_first_index_absent(names: Seq<Seq<char>>, m: Seq<char>)
    requires
        forall|k: int| 0 <= k < names.len() ==> names[k] != m,
    ensures
        spec_first_index(names, m) == names.len(),
    decreases names.len(),
{
    if names.len() > 0 {
        lemma_first_index_absent(names.drop_first(), m);
    }
}

/// The position of the first name equal to `m`, or the length when none is.
fn first_index_of(names: &Vec<String>, m: &String) -> (r: usize)
    ensures
        r == spec_first_index(names@.map_values(|s: String| s@), m@),
        r <= names@.len(),
{
    let ghost views = names@.map_values(|s: String| s@);
    let n = names.len();
    let mut i: usize = 0;
    while i < n
        invariant
            i <= n,
            n == views.len(),
            views == names@.map_values(|s: String| s@),
            forall|k: int| 0 <= k < i ==> views[k] != m@,
            forall|k: int| 0 <= k < n ==> views[k] == #[trigger] names@[k]@,
        decreases n - i,
    {
        if names[i].eq(m) {
            proof {
                lemma_first_index_found(views, m@, i as int);
            }
            return i;
        }
        i = i + 1;
    }
    proof {
        lemma_first_index_absent(views, m@);
    }
    n
}

/// The plain-text module listing: a heading, then one line per module
/// with its name and its help text.
pub open spec fn listing_text(names: Seq<Seq<char>>, helps: Seq<Seq<char>>) -> Seq<char>
    recommends
        names.len() == helps.len(),
    decreases names.len(),
{
    if names.len() == 0 {
        "Available modules:"@
    } else {
        listing_text(names.drop_last(), helps.drop_last()) + "\n- "@ + names.last() + ": "@
            + helps.last()
    }
}

/// The HTML module listing: a heading and one list item per module.
pub open spec fn listing_html(names: Seq<Seq<char>>, helps: Seq<Seq<char>>) -> Seq<char>
    recommends
        names.len() == helps.len(),
    decreases names.len(),
{
    if names.len() == 0 {
        "Available modules: <ul>"@
    } else {
        listing_html(names.drop_last(), helps.drop_last()) + "<li><b>"@ + names.last() + "</b>: "@
            + helps.last() + "</li>"@
    }
}

/// Builds the `!help` directory listing: the plain text and the HTML
/// body, one entry per module in registry order. Every module's name
/// stands in the text exactly where the listing shape puts it.
pub fn build_help_listing(names: &Vec<String>, helps: &Vec<String>) -> (r: (String, String))
    requires
        names@.len() == helps@.len(),
    ensures
        r.0@ == listing_text(
            names@.map_values(|s: String| s@),
            helps@.map_values(|s: String| s@),
        ),
        r.1@ == listing_html(
            names@.map_values(|s: String| s@),
            helps@.map_values(|s: String| s@),
        ) + "</ul>"@,
{
    let ghost name_views = names@.map_values(|s: String| s@);
    let ghost help_views = helps@.map_values(|s: String| s@);
    let mut text = "Available modules:".to_owned();
    let mut html = "Available modules: <ul>".to_owned();
    let n = names.len();
    let mut i: usize = 0;
    while i < n
        invariant
            i <= n,
            n == name_views.len(),
            n == help_views.len(),
            name_views == names@.map_values(|s: String| s@),
            help_views == helps@.map_values(|s: String| s@),
            text@ == listing_text(name_views.take(i as int), help_views.take(i as int)),
            html@ == listing_html(name_views.take(i as int), help_views.take(i as int)),
        decreases n - i,
    {
        proof {
            assert(name_views[i as int] == names@[i as int]@);
            assert(help_views[i as int] == helps@[i as int]@);
            assert(name_views.take(i + 1).drop_last() =~= name_views.take(i as int));
            assert(help_views.take(i + 1).drop_last() =~= help_views.take(i as int));
            assert(name_views.take(i + 1).last() == name_views[i as int]);
            assert(help_views.take(i + 1).last() == help_views[i as int]);
        }
        text.append("\n- ");
        text.append(names[i].as_str());
        text.append(": ");
        text.append(helps[i].as_str());
        html.append("<li><b>");
        html.append(names[i].as_str());
        html.append("</b>: ");
        html.append(helps[i].as_str());
        html.append("</li>");
        i = i + 1;
    }
    proof {
        assert(name_views.take(n as int) =~= name_views);
        assert(help_views.take(n as int) =~= help_views);
    }
    html.append("</ul>");
    (text, html)
}

/// True when the step finishes with exactly one plain response.
pub open spec fn one_respond(
    s: Step,
    text: Seq<char>,
    html: Option<Seq<char>>,
    to: Seq<char>,
) -> bool {
    match s {
        Step::Done(a) => a@.len() == 1 && match a@[0] {
            Action::Respond(m) => m.text@ == text && m.to@ == to && match (m.html, html) {
                (Some(x), Some(y)) => x@ == y,
                (None, None) => true,
                _ => false,
            },
            _ => false,
        },
        _ => false,
    }
}

proof fn lemma_help_prefixes(c: Seq<char>)
    ensures
        spec_starts_with(c, "!help "@) ==> spec_starts_with(c, "!help"@),
{
    reveal_strlit("!help ");
    reveal_strlit("!help");
    if spec_starts_with(c, "!help "@) {
        assert(c.subrange(0, "!help"@.len() as int) =~= "!help"@);
    }
}

proof fn lemma_admin_prefixes(c: Seq<char>)
    ensures
        spec_starts_with(c, "!admin "@) ==> spec_starts_with(c, "!admin"@),
{
    reveal_strlit("!admin ");
    reveal_strlit("!admin");
    if spec_starts_with(c, "!admin "@) {
        assert(c.subrange(0, "!admin"@.len() as int) =~= "!admin"@);
    }
}

/// The dispatcher for one inbound event, as a step machine the driver
/// runs: feed it the replies it asks for until it is `Done`.
pub struct Dispatch {
    content: String,
    sender: String,
    room: String,
    is_admin: bool,
    names: Vec<String>,
    phase: Phase,
}

impl Dispatch {
    pub closed spec fn spec_content(&self) -> Seq<char> {
        self.content@
    }

    pub closed spec fn spec_sender(&self) -> Seq<char> {
        self.sender@
    }

    pub closed spec fn spec_room(&self) -> Seq<char> {
        self.room@
    }

    pub closed spec fn spec_is_admin(&self) -> bool {
        self.is_admin
    }

    pub closed spec fn spec_names(&self) -> Seq<Seq<char>> {
        self.names@.map_values(|s: String| s@)
    }

    pub closed spec fn spec_phase(&self) -> Phase {
        self.phase
    }

    /// The machine's phase is consistent with its module list.
    pub open spec fn wf(&self) -> bool {
        match self.spec_phase() {
            Phase::AdminResolve { module_idx, .. } => module_idx < self.spec_names().len(),
            Phase::HelpList { idx, helps } => idx < self.spec_names().len() && helps@.len() == idx,
            Phase::Walk { idx } => idx < self.spec_names().len(),
            _ => true,
        }
    }

    /// Whether this reply is the one the machine awaits; `None` only
    /// before the first step.
    pub open spec fn awaits(&self, reply: Option<Reply>) -> bool {
        match self.spec_phase() {
            Phase::Start => reply is None,
            Phase::AdminResolve { .. } => reply matches Some(Reply::Resolved(_)),
            Phase::AdminCall => reply matches Some(Reply::Actions(_)),
            Phase::HelpList { .. } => reply matches Some(Reply::HelpText(_)),
            Phase::HelpOne { .. } => reply matches Some(Reply::HelpText(_)),
            Phase::Walk { .. } => reply matches Some(Reply::Actions(_)),
            Phase::Finished => false,
        }
    }

    pub fn new(
        content: String,
        sender: String,
        room: String,
        admin_user: &str,
        names: Vec<String>,
    ) -> (d: Dispatch)
        ensures
            d.spec_content() == content@,
            d.spec_sender() == sender@,
            d.spec_room() == room@,
            d.spec_is_admin() == (sender@ == admin_user@),
            d.spec_names() == names@.map_values(|s: String| s@),
            d.spec_phase() is Start,
            d.wf(),
    {
        let is_admin = sender.eq(&admin_user.to_owned());
        Dispatch { content, sender, room, is_admin, names, phase: Phase::Start }
    }

    /// Whether the dispatch still wants steps.
    pub fn finished(&self) -> (r: bool)
        ensures
            r == (self.spec_phase() is Finished),
    {
        match self.phase {
            Phase::Finished => true,
            _ => false,
        }
    }
}


/// The transition that begins the ordinary walk: ask the first module,
/// or finish with no actions when no modules are loaded.
pub open spec fn walk_start_trans(
    content: Seq<char>,
    sender: Seq<char>,
    room: Seq<char>,
    names: Seq<Seq<char>>,
    post: Phase,
    step: Step,
) -> bool {
    if names.len() == 0 {
        post is Finished && (step matches Step::Done(a) && a@.len() == 0)
    } else {
        &&& post matches Phase::Walk { idx } && idx == 0
        &&& step matches Step::Call(op) && (op matches GuestOp::OnMsg {
            module,
            content: c,
            sender: s,
            room: r,
        } && module == 0 && c@ == content && s@ == sender && r@ == room)
    }
}

/// The transition that continues the ordinary walk after module `idx`
/// produced nothing: ask the next module, or finish with no actions.
pub open spec fn walk_continue_trans(
    content: Seq<char>,
    sender: Seq<char>,
    room: Seq<char>,
    names: Seq<Seq<char>>,
    idx: int,
    post: Phase,
    step: Step,
) -> bool {
    if idx + 1 < names.len() {
        &&& post matches Phase::Walk { idx: i2 } && i2 == idx + 1
        &&& step matches Step::Call(op) && (op matches GuestOp::OnMsg {
            module,
            content: c,
            sender: s,
            room: r,
        } && module == idx + 1 && c@ == content && s@ == sender && r@ == room)
    } else {
        post is Finished && (step matches Step::Done(a) && a@.len() == 0)
    }
}

/// The transition for the help stage and, failing that, the start of the
/// ordinary walk, as the help grammar decides: bare `!help` starts the
/// listing over all modules, `!help MOD [TOPIC]` asks that module or
/// reports it unknown, and anything else starts the walk.
pub open spec fn help_or_walk_trans(
    content: Seq<char>,
    sender: Seq<char>,
    room: Seq<char>,
    names: Seq<Seq<char>>,
    post: Phase,
    step: Step,
) -> bool {
    if spec_starts_with(content, "!help"@) && spec_trim(
        content.skip("!help"@.len() as int),
    ).len() == 0 {
        if names.len() == 0 {
            post is Finished && one_respond(
                step,
                listing_text(Seq::empty(), Seq::empty()),
                Some(listing_html(Seq::empty(), Seq::empty()) + "</ul>"@),
                sender,
            )
        } else {
            &&& post matches Phase::HelpList { idx, helps } && idx == 0 && helps@.len() == 0
            &&& step matches Step::Call(op) && (op matches GuestOp::Help { module, topic }
                && module == 0 && topic is None)
        }
    } else if spec_starts_with(content, "!help "@) && spec_trim(
        content.skip("!help"@.len() as int),
    ).len() > 0 {
        let parsed = match spec_split_once_space(spec_help_rest(content)) {
            None => (spec_help_rest(content), None::<Seq<char>>),
            Some(p) => (p.0, Some(spec_trim(p.1))),
        };
        let i = spec_first_index(names, parsed.0);
        if i < names.len() {
            &&& post matches Phase::HelpOne { module: m } && m@ == parsed.0
            &&& step matches Step::Call(op) && (op matches GuestOp::Help { module: mi, topic: t }
                && mi == i && match (t, parsed.1) {
                    (Some(x), Some(y)) => x@ == y,
                    (None, None) => true,
                    _ => false,
                })
        } else {
            post is Finished && one_respond(
                step,
                "module "@ + parsed.0 + " not found"@,
                Some("module "@ + parsed.0 + " not found"@),
                sender,
            )
        }
    } else {
        walk_start_trans(content, sender, room, names, post, step)
    }
}

/// The first transition: the admin stage when the sender is the admin
/// user and the content carries the admin prefix, otherwise the help
/// stage or the walk. A parse shortfall answers the sender directly; an
/// unknown module name is reported; otherwise the target-room token goes
/// to the resolver.
pub open spec fn start_trans(
    content: Seq<char>,
    sender: Seq<char>,
    room: Seq<char>,
    is_admin: bool,
    names: Seq<Seq<char>>,
    post: Phase,
    step: Step,
) -> bool {
    if is_admin && spec_starts_with(content, "!admin"@) {
        if !spec_starts_with(content, "!admin "@) {
            post is Finished && one_respond(step, "missing module and command"@, None, sender)
        } else {
            match spec_split_once_space(spec_admin_rest(content)) {
                None => post is Finished && one_respond(step, "missing command"@, None, sender),
                Some(p) => {
                    let rest2 = spec_trim(p.1);
                    let split2 = match spec_split_once_space(rest2) {
                        None => (rest2, Seq::<char>::empty()),
                        Some(q) => (q.0, spec_trim(q.1)),
                    };
                    let i = spec_first_index(names, p.0);
                    if i < names.len() {
                        &&& post matches Phase::AdminResolve { module_idx, possible_room, rest }
                            && module_idx == i && possible_room@ == split2.0 && rest@ == split2.1
                        &&& step matches Step::Resolve(t) && t@ == split2.0
                    } else {
                        post is Finished && one_respond(
                            step,
                            "Module '"@ + p.0 + "' not found"@,
                            None,
                            sender,
                        )
                    }
                },
            }
        }
    } else {
        help_or_walk_trans(content, sender, room, names, post, step)
    }
}


/// Law: the listing names every module. For each loaded module, the
/// plain-text `!help` listing contains that module's name, standing
/// right after its line marker.
pub proof fn lemma_listing_contains_names(names: Seq<Seq<char>>, helps: Seq<Seq<char>>, i: int)
    requires
        names.len() == helps.len(),
        0 <= i < names.len(),
    ensures
        exists|j: int|
            0 <= j && j + names[i].len() <= listing_text(names, helps).len() && #[trigger] listing_text(
                names,
                helps,
            ).subrange(j, j + names[i].len() as int) == names[i],
    decreases names.len(),
{
    let full = listing_text(names, helps);
    if i == names.len() - 1 {
        let pre = listing_text(names.drop_last(), helps.drop_last()) + "\n- "@;
        let j = pre.len() as int;
        assert(full.subrange(j, j + names[i].len() as int) =~= names[i]);
        assert(0 <= j && j + names[i].len() <= full.len() && full.subrange(
            j,
            j + names[i].len() as int,
        ) == names[i]);
    } else {
        lemma_listing_contains_names(names.drop_last(), helps.drop_last(), i);
        let prefix = listing_text(names.drop_last(), helps.drop_last());
        let j = choose|j: int|
            0 <= j && j + names.drop_last()[i].len() <= prefix.len() && #[trigger] prefix.subrange(
                j,
                j + names.drop_last()[i].len() as int,
            ) == names.drop_last()[i];
        assert(names.drop_last()[i] == names[i]);
        assert(full.subrange(j, j + names[i].len() as int) =~= prefix.subrange(
            j,
            j + names[i].len() as int,
        ));
        assert(0 <= j && j + names[i].len() <= full.len() && full.subrange(
            j,
            j + names[i].len() as int,
        ) == names[i]);
    }
}

/// Law: a sender who is not the admin user cannot reach the admin stage.
/// For such a sender the first transition is exactly the one an ordinary
/// message takes, whatever prefix the content carries.
pub proof fn lemma_non_admin_sender_is_ordinary(
    content: Seq<char>,
    sender: Seq<char>,
    room: Seq<char>,
    names: Seq<Seq<char>>,
    post: Phase,
    step: Step,
)
    ensures
        start_trans(content, sender, room, false, names, post, step) <==> help_or_walk_trans(
            content,
            sender,
            room,
            names,
            post,
            step,
        ),
{
}

impl Dispatch {
    /// One step of the dispatch. The first call takes no reply; every
    /// later call takes the reply to the step before. The returned step
    /// asks for one guest call or one room resolution, or carries the
    /// final actions.
    ///
    /// The contract pins each transition down; in particular:
    /// in the walk, a module's non-empty action list finishes the
    /// dispatch with exactly those actions and no later module is asked,
    /// while an error or an empty list moves to the next module; a
    /// non-admin sender's `!admin` line is routed exactly as an ordinary
    /// message; and one module's help reply is returned verbatim.
    pub fn step(&mut self, reply: Option<Reply>) -> (r: Step)
        requires
            old(self).wf(),
            old(self).awaits(reply),
        ensures
            final(self).wf(),
            final(self).spec_content() == old(self).spec_content(),
            final(self).spec_sender() == old(self).spec_sender(),
            final(self).spec_room() == old(self).spec_room(),
            final(self).spec_is_admin() == old(self).spec_is_admin(),
            final(self).spec_names() == old(self).spec_names(),
            r is Done <==> final(self).spec_phase() is Finished,
            match old(self).spec_phase() {
                Phase::Start => start_trans(
                    old(self).spec_content(),
                    old(self).spec_sender(),
                    old(self).spec_room(),
                    old(self).spec_is_admin(),
                    old(self).spec_names(),
                    final(self).spec_phase(),
                    r,
                ),
                Phase::AdminResolve { module_idx, possible_room, rest } => reply matches Some(
                    Reply::Resolved(res),
                ) && {
                    let chosen = match res {
                        Ok(Some(id)) => (id@, rest@),
                        _ => (old(self).spec_room(), possible_room@ + " "@ + rest@),
                    };
                    &&& final(self).spec_phase() is AdminCall
                    &&& r matches Step::Call(op) && (op matches GuestOp::Admin {
                        module,
                        cmd,
                        sender: s,
                        room: rm,
                    } && module == module_idx && cmd@ == spec_trim(chosen.1) && s@ == old(
                        self,
                    ).spec_sender() && rm@ == chosen.0)
                },
                Phase::AdminCall => reply matches Some(Reply::Actions(res)) && match res {
                    Ok(a) => if a@.len() > 0 {
                        final(self).spec_phase() is Finished && (r matches Step::Done(d) && d == a)
                    } else {
                        help_or_walk_trans(
                            old(self).spec_content(),
                            old(self).spec_sender(),
                            old(self).spec_room(),
                            old(self).spec_names(),
                            final(self).spec_phase(),
                            r,
                        )
                    },
                    Err(_) => help_or_walk_trans(
                        old(self).spec_content(),
                        old(self).spec_sender(),
                        old(self).spec_room(),
                        old(self).spec_names(),
                        final(self).spec_phase(),
                        r,
                    ),
                },
                Phase::HelpList { idx, helps } => reply matches Some(Reply::HelpText(res)) && {
                    let new_help = match res {
                        Ok(t) => t@,
                        Err(_) => "<missing>"@,
                    };
                    let helps2 = helps@.map_values(|h: String| h@).push(new_help);
                    if idx + 1 < old(self).spec_names().len() {
                        &&& final(self).spec_phase() matches Phase::HelpList { idx: i2, helps: h2 }
                            && i2 == idx + 1 && h2@.map_values(|h: String| h@) == helps2
                        &&& r matches Step::Call(op) && (op matches GuestOp::Help {
                            module,
                            topic,
                        } && module == idx + 1 && topic is None)
                    } else {
                        final(self).spec_phase() is Finished && one_respond(
                            r,
                            listing_text(old(self).spec_names(), helps2),
                            Some(listing_html(old(self).spec_names(), helps2) + "</ul>"@),
                            old(self).spec_sender(),
                        )
                    }
                },
                Phase::HelpOne { module } => reply matches Some(Reply::HelpText(res)) && match res {
                    Ok(t) => final(self).spec_phase() is Finished && one_respond(
                        r,
                        t@,
                        Some(t@),
                        old(self).spec_sender(),
                    ),
                    Err(_) => final(self).spec_phase() is Finished && one_respond(
                        r,
                        "module "@ + module@ + " not found"@,
                        Some("module "@ + module@ + " not found"@),
                        old(self).spec_sender(),
                    ),
                },
                Phase::Walk { idx } => reply matches Some(Reply::Actions(res)) && match res {
                    Ok(a) => if a@.len() > 0 {
                        final(self).spec_phase() is Finished && (r matches Step::Done(d) && d == a)
                    } else {
                        walk_continue_trans(
                            old(self).spec_content(),
                            old(self).spec_sender(),
                            old(self).spec_room(),
                            old(self).spec_names(),
                            idx as int,
                            final(self).spec_phase(),
                            r,
                        )
                    },
                    Err(_) => walk_continue_trans(
                        old(self).spec_content(),
                        old(self).spec_sender(),
                        old(self).spec_room(),
                        old(self).spec_names(),
                        idx as int,
                        final(self).spec_phase(),
                        r,
                    ),
                },
                Phase::Finished => false,
            },
    {
        let mut phase = Phase::Finished;
        core::mem::swap(&mut phase, &mut self.phase);
        match phase {
            Phase::Start => {
                proof {
                    lemma_admin_prefixes(self.content@);
                }
                if self.is_admin {
                    match parse_admin(self.content.as_str()) {
                        AdminParse::NotAdmin => self.help_or_walk(),
                        AdminParse::MissingModuleAndCommand => self.finish_respond(
                            "missing module and command".to_owned(),
                            None,
                        ),
                        AdminParse::MissingCommand => self.finish_respond(
                            "missing command".to_owned(),
                            None,
                        ),
                        AdminParse::Parsed { module, possible_room, rest } => {
                            proof {
                                if rest@.len() == 0 {
                                    assert(rest@ =~= Seq::<char>::empty());
                                }
                            }
                            let i = first_index_of(&self.names, &module);
                            if i < self.names.len() {
                                let token = possible_room.clone();
                                self.phase = Phase::AdminResolve {
                                    module_idx: i,
                                    possible_room,
                                    rest,
                                };
                                Step::Resolve(token)
                            } else {
                                let mut text = "Module '".to_owned();
                                text.append(module.as_str());
                                text.append("' not found");
                                self.finish_respond(text, None)
                            }
                        },
                    }
                } else {
                    self.help_or_walk()
                }
            },
            Phase::AdminResolve { module_idx, possible_room, rest } => {
                let res = match reply {
                    Some(Reply::Resolved(res)) => res,
                    _ => {
                        proof {
                            assert(false);
                        }
                        Err(String::new())
                    },
                };
                let chosen: (String, String) = match res {
                    Ok(Some(id)) => (id, rest),
                    _ => {
                        let mut joined = possible_room;
                        joined.append(" ");
                        joined.append(rest.as_str());
                        (self.room.clone(), joined)
                    },
                };
                let cmd_chars = chars_of(chosen.1.as_str());
                let cmd = string_of_chars(trim_chars(&cmd_chars).as_slice());
                self.phase = Phase::AdminCall;
                Step::Call(
                    GuestOp::Admin {
                        module: module_idx,
                        cmd,
                        sender: self.sender.clone(),
                        room: chosen.0,
                    },
                )
            },
            Phase::AdminCall => {
                let res = match reply {
                    Some(Reply::Actions(res)) => res,
                    _ => {
                        proof {
                            assert(false);
                        }
                        Err(String::new())
                    },
                };
                match res {
                    Ok(a) => {
                        if a.len() > 0 {
                            self.phase = Phase::Finished;
                            Step::Done(a)
                        } else {
                            self.help_or_walk()
                        }
                    },
                    Err(_) => self.help_or_walk(),
                }
            },
            Phase::HelpList { idx, helps } => {
                let res = match reply {
                    Some(Reply::HelpText(res)) => res,
                    _ => {
                        proof {
                            assert(false);
                        }
                        Err(String::new())
                    },
                };
                let new_help = match res {
                    Ok(t) => t,
                    Err(_) => "<missing>".to_owned(),
                };
                let mut helps2 = helps;
                let ghost helps2_before = helps2@.map_values(|h: String| h@);
                let ghost new_help_view = new_help@;
                helps2.push(new_help);
                proof {
                    assert(helps2@.map_values(|h: String| h@) =~= helps2_before.push(
                        new_help_view,
                    ));
                }
                let n = self.names.len();
                proof {
                    assert(idx < n);
                }
                if idx + 1 < n {
                    self.phase = Phase::HelpList { idx: idx + 1, helps: helps2 };
                    Step::Call(GuestOp::Help { module: idx + 1, topic: None })
                } else {
                    let listing = build_help_listing(&self.names, &helps2);
                    self.finish_respond(listing.0, Some(listing.1))
                }
            },
            Phase::HelpOne { module } => {
                let res = match reply {
                    Some(Reply::HelpText(res)) => res,
                    _ => {
                        proof {
                            assert(false);
                        }
                        Err(String::new())
                    },
                };
                match res {
                    Ok(t) => {
                        let html = t.clone();
                        self.finish_respond(t, Some(html))
                    },
                    Err(_) => {
                        let mut text = "module ".to_owned();
                        text.append(module.as_str());
                        text.append(" not found");
                        let html = text.clone();
                        self.finish_respond(text, Some(html))
                    },
                }
            },
            Phase::Walk { idx } => {
                let res = match reply {
                    Some(Reply::Actions(res)) => res,
                    _ => {
                        proof {
                            assert(false);
                        }
                        Err(String::new())
                    },
                };
                match res {
                    Ok(a) => {
                        if a.len() > 0 {
                            self.phase = Phase::Finished;
                            Step::Done(a)
                        } else {
                            self.walk_continue(idx)
                        }
                    },
                    Err(_) => self.walk_continue(idx),
                }
            },
            Phase::Finished => {
                proof {
                    assert(false);
                }
                Step::Done(Vec::new())
            },
        }
    }

    /// Finishes the dispatch with one response to the sender.
    fn finish_respond(&mut self, text: String, html: Option<String>) -> (r: Step)
        ensures
            final(self).spec_phase() is Finished,
            final(self).spec_content() == old(self).spec_content(),
            final(self).spec_sender() == old(self).spec_sender(),
            final(self).spec_room() == old(self).spec_room(),
            final(self).spec_is_admin() == old(self).spec_is_admin(),
            final(self).spec_names() == old(self).spec_names(),
            one_respond(
                r,
                text@,
                match html {
                    Some(h) => Some(h@),
                    None => None,
                },
                old(self).spec_sender(),
            ),
    {
        self.phase = Phase::Finished;
        let mut actions: Vec<Action> = Vec::new();
        actions.push(Action::Respond(Message { text, html, to: self.sender.clone() }));
        Step::Done(actions)
    }

    /// The help stage or the start of the walk, from the current content.
    fn help_or_walk(&mut self) -> (r: Step)
        ensures
            final(self).wf(),
            final(self).spec_content() == old(self).spec_content(),
            final(self).spec_sender() == old(self).spec_sender(),
            final(self).spec_room() == old(self).spec_room(),
            final(self).spec_is_admin() == old(self).spec_is_admin(),
            final(self).spec_names() == old(self).spec_names(),
            r is Done <==> final(self).spec_phase() is Finished,
            help_or_walk_trans(
                old(self).spec_content(),
                old(self).spec_sender(),
                old(self).spec_room(),
                old(self).spec_names(),
                final(self).spec_phase(),
                r,
            ),
    {
        proof {
            lemma_help_prefixes(self.content@);
        }
        match parse_help(self.content.as_str()) {
            HelpParse::Listing => {
                if self.names.len() == 0 {
                    let empty_helps: Vec<String> = Vec::new();
                    let empty_names: Vec<String> = Vec::new();
                    let listing = build_help_listing(&empty_names, &empty_helps);
                    proof {
                        assert(empty_names@.map_values(|s: String| s@) =~= Seq::<Seq<char>>::empty());
                        assert(empty_helps@.map_values(|s: String| s@) =~= Seq::<Seq<char>>::empty());
                    }
                    self.finish_respond(listing.0, Some(listing.1))
                } else {
                    self.phase = Phase::HelpList { idx: 0, helps: Vec::new() };
                    Step::Call(GuestOp::Help { module: 0, topic: None })
                }
            },
            HelpParse::One { module, topic } => {
                let i = first_index_of(&self.names, &module);
                if i < self.names.len() {
                    self.phase = Phase::HelpOne { module };
                    Step::Call(GuestOp::Help { module: i, topic })
                } else {
                    let mut text = "module ".to_owned();
                    text.append(module.as_str());
                    text.append(" not found");
                    let html = text.clone();
                    self.finish_respond(text, Some(html))
                }
            },
            HelpParse::NotHelp => self.walk_start(),
        }
    }

    /// Starts the ordinary walk.
    fn walk_start(&mut self) -> (r: Step)
        ensures
            final(self).wf(),
            final(self).spec_content() == old(self).spec_content(),
            final(self).spec_sender() == old(self).spec_sender(),
            final(self).spec_room() == old(self).spec_room(),
            final(self).spec_is_admin() == old(self).spec_is_admin(),
            final(self).spec_names() == old(self).spec_names(),
            r is Done <==> final(self).spec_phase() is Finished,
            walk_start_trans(
                old(self).spec_content(),
                old(self).spec_sender(),
                old(self).spec_room(),
                old(self).spec_names(),
                final(self).spec_phase(),
                r,
            ),
    {
        if self.names.len() == 0 {
            self.phase = Phase::Finished;
            Step::Done(Vec::new())
        } else {
            self.phase = Phase::Walk { idx: 0 };
            Step::Call(
                GuestOp::OnMsg {
                    module: 0,
                    content: self.content.clone(),
                    sender: self.sender.clone(),
                    room: self.room.clone(),
                },
            )
        }
    }

    /// Continues the walk past module `idx`.
    fn walk_continue(&mut self, idx: usize) -> (r: Step)
        requires
            idx < old(self).spec_names().len(),
        ensures
            final(self).wf(),
            final(self).spec_content() == old(self).spec_content(),
            final(self).spec_sender() == old(self).spec_sender(),
            final(self).spec_room() == old(self).spec_room(),
            final(self).spec_is_admin() == old(self).spec_is_admin(),
            final(self).spec_names() == old(self).spec_names(),
            r is Done <==> final(self).spec_phase() is Finished,
            walk_continue_trans(
                old(self).spec_content(),
                old(self).spec_sender(),
                old(self).spec_room(),
                old(self).spec_names(),
                idx as int,
                final(self).spec_phase(),
                r,
            ),
    {
        let n = self.names.len();
        proof {
            assert(idx < n);
        }
        if idx + 1 < n {
            self.phase = Phase::Walk { idx: idx + 1 };
            Step::Call(
                GuestOp::OnMsg {
                    module: idx + 1,
                    content: self.content.clone(),
                    sender: self.sender.clone(),
                    room: self.room.clone(),
                },
            )
        } else {
            self.phase = Phase::Finished;
            Step::Done(Vec::new())
        }
    }
}

} // verus!
