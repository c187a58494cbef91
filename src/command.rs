//! Reading a command line, running the command on a guild, and the replies.
use vstd::prelude::*;

use crate::guild::{
    admin_spec, is_admin, seq_insert, seq_remove, set_insert, set_remove, ConfigView, GuildState, StateView,
};
use crate::leaderboard::{leaderboard, Leaderboard, Placed, Row};
use crate::reaction::{parse_reaction, reaction_reading, reaction_text, Reaction};
use crate::text::{
    chars_of, decimal, parse_u64, parse_unsigned, push_decimal, split_words, views, words, IntError,
};

verus! {

/// How many lines a leaderboard page shows.
pub const PAGE_SIZE: usize = 10;

/// The help every user gets.
pub const HELP: &'static str = " === PotatoBoard Help ===\n- `help`: Get this message.\n- `receivers <page_number>`: See the most protatolific receivers of potatoes. `page_number` is optional.\n- `givers <page_number>`: See the most protatolific givers of potatoes. `page_number` is optional.";

/// The help admins get as well.
pub const ADMIN_HELP: &'static str = "You're an admin! Here's the admin commands:\n- `set_pin_channel <channel_id>`: Set the channel that pinned messages to go, and adds it to the potato blacklist.\n- `set_potato <emoji>`: Set the given emoji to be the operative one.\n- `set_threshold <number>`: Set how many potatoes have to be on a message before it is pinned.\n- `blacklist <channel_id>`: Make the channel no longer eligible for pinning messages, regardless of potato count.\n- `unblacklist <channel_id>`: Unblacklist this channel so messages from it can be pinned again.\n- `show_blacklist`: Show which channels are ineligible for pinning messages.\n- `admin <user_id>`: Let this user access this bot's admin commands on this server.\n- `unadmin <user_id>`: Stops this user from being an admin on this server.\n- `list_admins`: Print a list of admins.\n- `save`: Flush any in-memory state to disk.\nPeople with any role with an Administrator privilege are always admins of this bot.";

/// Which count table a leaderboard ranks.
#[derive(Clone, Copy, Debug, PartialEq, Eq, Structural)]
pub enum Board {
    Receivers,
    Givers,
}

/// A decoded command.
#[derive(Debug)]
pub enum Command {
    Help,
    Leaderboard { board: Board, page: usize },
    SetPinChannel(u64),
    SetThreshold(u64),
    Blacklist(u64),
    Unblacklist(u64),
    ShowBlacklist,
    SetPotato { text: String, reaction: Reaction },
    Admin(u64),
    Unadmin(u64),
    ListAdmins,
    Save,
    /// A name that is no command, or an admin command asked for by a non-admin.
    Unknown(String),
}

/// Why an admin command's argument was refused.
#[derive(Clone, Copy, Debug, PartialEq, Eq, Structural)]
pub enum ArgError {
    Missing,
    BadInteger(IntError),
    BadReaction,
}

/// Whether `name` is one of the commands only admins may run.
pub open spec fn admin_only(name: Seq<char>) -> bool {
    name == "set_pin_channel"@ || name == "set_threshold"@ || name == "blacklist"@
        || name == "unblacklist"@ || name == "show_blacklist"@ || name == "set_potato"@
        || name == "admin"@ || name == "unadmin"@ || name == "list_admins"@ || name == "save"@
}

/// The id argument of a command line.
pub open spec fn id_arg(w: Seq<Seq<char>>) -> Result<u64, ArgError> {
    if w.len() < 3 {
        Err(ArgError::Missing)
    } else {
        match parse_unsigned(w[2], u64::MAX as nat) {
            Ok(v) => Ok(v as u64),
            Err(e) => Err(ArgError::BadInteger(e)),
        }
    }
}

/// The page argument of a leaderboard line: zero when absent or unreadable.
pub open spec fn page_arg(w: Seq<Seq<char>>) -> usize {
    if w.len() < 3 {
        0
    } else {
        match parse_unsigned(w[2], usize::MAX as nat) {
            Ok(v) => v as usize,
            Err(_) => 0,
        }
    }
}

/// `f` applied to the id argument of `w`.
pub open spec fn with_id(w: Seq<Seq<char>>, f: spec_fn(u64) -> Command) -> Result<Command, ArgError> {
    match id_arg(w) {
        Ok(v) => Ok(f(v)),
        Err(e) => Err(e),
    }
}

/// Whether `r` is what the words `w` of a command line (trigger first) decode to,
/// for a user who is (`admin`) or is not an admin.
pub open spec fn decoded(w: Seq<Seq<char>>, admin: bool, r: Result<Command, ArgError>) -> bool {
    let name = w[1];
    if name == "help"@ {
        r == Ok::<Command, ArgError>(Command::Help)
    } else if name == "receivers"@ {
        r == Ok::<Command, ArgError>(Command::Leaderboard { board: Board::Receivers, page: page_arg(w) })
    } else if name == "givers"@ {
        r == Ok::<Command, ArgError>(Command::Leaderboard { board: Board::Givers, page: page_arg(w) })
    } else if admin && name == "set_pin_channel"@ {
        r == with_id(w, |v: u64| Command::SetPinChannel(v))
    } else if admin && name == "set_threshold"@ {
        r == with_id(w, |v: u64| Command::SetThreshold(v))
    } else if admin && name == "blacklist"@ {
        r == with_id(w, |v: u64| Command::Blacklist(v))
    } else if admin && name == "unblacklist"@ {
        r == with_id(w, |v: u64| Command::Unblacklist(v))
    } else if admin && name == "show_blacklist"@ {
        r == Ok::<Command, ArgError>(Command::ShowBlacklist)
    } else if admin && name == "set_potato"@ {
        if w.len() < 3 {
            r == Err::<Command, ArgError>(ArgError::Missing)
        } else {
            match r {
                Ok(Command::SetPotato { text, reaction }) => text@ == w[2] && reaction_reading(w[2], Some(reaction)),
                Err(ArgError::BadReaction) => reaction_reading(w[2], None),
                _ => false,
            }
        }
    } else if admin && name == "admin"@ {
        r == with_id(w, |v: u64| Command::Admin(v))
    } else if admin && name == "unadmin"@ {
        r == with_id(w, |v: u64| Command::Unadmin(v))
    } else if admin && name == "list_admins"@ {
        r == Ok::<Command, ArgError>(Command::ListAdmins)
    } else if admin && name == "save"@ {
        r == Ok::<Command, ArgError>(Command::Save)
    } else {
        match r {
            Ok(Command::Unknown(s)) => s@ == name,
            _ => false,
        }
    }
}

/// Relies on `String::from_iter`: the string holds the given characters, in order.
#[verifier::external_body]
fn string_of(c: &Vec<char>) -> (r: String)
    ensures
        r@ == c@,
{
    String::from_iter(c.iter())
}

/// Whether the characters `w` spell `lit`.
fn word_is(w: &Vec<char>, lit: &str) -> (r: bool)
    ensures
        r == (w@ == lit@),
{
    let n = lit.unicode_len();
    if w.len() != n {
        return false;
    }
    let mut i: usize = 0;
    while i < n
        invariant
            n == lit@.len(),
            w@.len() == n,
            i <= n,
            forall|j: int| 0 <= j < i ==> w@[j] == lit@[j],
        decreases n - i,
    {
        if w[i] != lit.get_char(i) {
            return false;
        }
        i = i + 1;
    }
    assert(w@ =~= lit@);
    true
}

/// Whether `s` begins with `prefix`.
fn starts_with(s: &Vec<char>, prefix: &str) -> (r: bool)
    ensures
        r == prefix@.is_prefix_of(s@),
{
    let n = prefix.unicode_len();
    if n > s.len() {
        return false;
    }
    let mut i: usize = 0;
    while i < n
        invariant
            n == prefix@.len(),
            n <= s@.len(),
            i <= n,
            forall|j: int| 0 <= j < i ==> s@[j] == prefix@[j],
        decreases n - i,
    {
        if s[i] != prefix.get_char(i) {
            return false;
        }
        i = i + 1;
    }
    assert(prefix@ =~= s@.take(n as int));
    true
}

/// Reads the id argument of `w`.
fn read_id(w: &Vec<Vec<char>>) -> (r: Result<u64, ArgError>)
    ensures
        r == id_arg(views(w@)),
{
    if w.len() < 3 {
        return Err(ArgError::Missing);
    }
    assert(views(w@)[2] == w@[2]@);
    match parse_u64(&w[2]) {
        Ok(v) => Ok(v),
        Err(e) => Err(ArgError::BadInteger(e)),
    }
}

/// Reads the page argument of `w`.
fn read_page(w: &Vec<Vec<char>>) -> (r: usize)
    ensures
        r == page_arg(views(w@)),
{
    if w.len() < 3 {
        return 0;
    }
    assert(views(w@)[2] == w@[2]@);
    match parse_u64(&w[2]) {
        Ok(v) => {
            if v <= usize::MAX as u64 {
                v as usize
            } else {
                0
            }
        },
        Err(_) => 0,
    }
}

/// Decodes a command line split into words, the trigger word first, for a user who is
/// (`admin`) or is not an admin. Admin commands asked for by others decode as unknown.
pub fn decode(w: &Vec<Vec<char>>, admin: bool) -> (r: Result<Command, ArgError>)
    requires
        w@.len() >= 2,
    ensures
        decoded(views(w@), admin, r),
{
    let ghost ws = views(w@);
    assert(ws[1] == w@[1]@);
    let name = &w[1];
    if word_is(name, "help") {
        Ok(Command::Help)
    } else if word_is(name, "receivers") {
        Ok(Command::Leaderboard { board: Board::Receivers, page: read_page(w) })
    } else if word_is(name, "givers") {
        Ok(Command::Leaderboard { board: Board::Givers, page: read_page(w) })
    } else if admin && word_is(name, "set_pin_channel") {
        match read_id(w) {
            Ok(v) => Ok(Command::SetPinChannel(v)),
            Err(e) => Err(e),
        }
    } else if admin && word_is(name, "set_threshold") {
        match read_id(w) {
            Ok(v) => Ok(Command::SetThreshold(v)),
            Err(e) => Err(e),
        }
    } else if admin && word_is(name, "blacklist") {
        match read_id(w) {
            Ok(v) => Ok(Command::Blacklist(v)),
            Err(e) => Err(e),
        }
    } else if admin && word_is(name, "unblacklist") {
        match read_id(w) {
            Ok(v) => Ok(Command::Unblacklist(v)),
            Err(e) => Err(e),
        }
    } else if admin && word_is(name, "show_blacklist") {
        Ok(Command::ShowBlacklist)
    } else if admin && word_is(name, "set_potato") {
        if w.len() < 3 {
            Err(ArgError::Missing)
        } else {
            assert(ws[2] == w@[2]@);
            let text = string_of(&w[2]);
            match parse_reaction(text.as_str()) {
                Some(reaction) => Ok(Command::SetPotato { text, reaction }),
                None => Err(ArgError::BadReaction),
            }
        }
    } else if admin && word_is(name, "admin") {
        match read_id(w) {
            Ok(v) => Ok(Command::Admin(v)),
            Err(e) => Err(e),
        }
    } else if admin && word_is(name, "unadmin") {
        match read_id(w) {
            Ok(v) => Ok(Command::Unadmin(v)),
            Err(e) => Err(e),
        }
    } else if admin && word_is(name, "list_admins") {
        Ok(Command::ListAdmins)
    } else if admin && word_is(name, "save") {
        Ok(Command::Save)
    } else {
        Ok(Command::Unknown(string_of(name)))
    }
}

/// How a channel is mentioned in a message.
pub open spec fn channel_mention(c: u64) -> Seq<char> {
    "<#"@ + decimal(c as nat) + ">"@
}

/// How a user is mentioned in a message.
pub open spec fn user_mention(u: u64) -> Seq<char> {
    "<@"@ + decimal(u as nat) + ">"@
}

/// The blacklist as one line per channel.
pub open spec fn channel_lines(s: Seq<u64>) -> Seq<char>
    decreases s.len(),
{
    if s.len() == 0 {
        Seq::empty()
    } else if s.len() == 1 {
        "- "@ + channel_mention(s[0])
    } else {
        channel_lines(s.drop_last()) + "\n- "@ + channel_mention(s.last())
    }
}

/// What an argument error tells the user.
pub open spec fn arg_error_text(e: ArgError) -> Seq<char> {
    "An error occured: \n"@ + match e {
        ArgError::Missing => "Not enough arguments (1 expected)"@,
        ArgError::BadInteger(IntError::Empty) => "cannot parse integer from empty string"@,
        ArgError::BadInteger(IntError::InvalidDigit) => "invalid digit found in string"@,
        ArgError::BadInteger(IntError::TooLarge) => "number too large to fit in target type"@,
        ArgError::BadReaction => "failed to convert from a string to ReactionType"@,
    }
}

/// What a command that answers in plain text says, run on state `v`.
pub open spec fn reply_text(v: StateView, cmd: Command) -> Seq<char> {
    match cmd {
        Command::SetPinChannel(c) => if v.config.blacklist.contains(c) {
            "Set pins channel to `"@ + channel_mention(c) + "`, and it was already blacklisted"@
        } else {
            "Set pins channel to `"@ + channel_mention(c) + "` and added it to the blacklist"@
        },
        Command::SetThreshold(n) => "Threshold changed to "@ + decimal(n as nat),
        Command::Blacklist(c) => if v.config.blacklist.contains(c) {
            "`"@ + channel_mention(c) + "` was already blacklisted"@
        } else {
            "Blacklisted `"@ + channel_mention(c) + "`"@
        },
        Command::Unblacklist(c) => if v.config.blacklist.contains(c) {
            "Unblacklisted `"@ + channel_mention(c) + "`"@
        } else {
            "`"@ + channel_mention(c) + "` was not blacklisted"@
        },
        Command::ShowBlacklist => channel_lines(v.config.blacklist),
        Command::SetPotato { text, reaction } =>
            "Set potato emoji to "@ + text@ + " (from "@ + reaction_text(v.config.tater_emoji) + ")"@,
        Command::Admin(u) => if v.config.admins.contains(u) {
            "`"@ + decimal(u as nat) + "` was already an admin"@
        } else {
            "Added `"@ + decimal(u as nat) + "` as a new admin"@
        },
        Command::Unadmin(u) => if v.config.admins.contains(u) {
            "Removed `"@ + decimal(u as nat) + "` from being an admin"@
        } else {
            "`"@ + decimal(u as nat) + "` was not an admin"@
        },
        _ => Seq::empty(),
    }
}

/// The state after running `cmd` on state `v`.
pub open spec fn step(v: StateView, cmd: Command) -> StateView {
    let c = v.config;
    let config = match cmd {
        Command::SetPinChannel(ch) => ConfigView { pin_channel: Some(ch), blacklist: seq_insert(c.blacklist, ch), ..c },
        Command::SetThreshold(n) => ConfigView { threshold: n, ..c },
        Command::Blacklist(ch) => ConfigView { blacklist: seq_insert(c.blacklist, ch), ..c },
        Command::Unblacklist(ch) => ConfigView { blacklist: seq_remove(c.blacklist, ch), ..c },
        Command::SetPotato { text, reaction } => ConfigView { tater_emoji: reaction, ..c },
        Command::Admin(u) => ConfigView { admins: seq_insert(c.admins, u), ..c },
        Command::Unadmin(u) => ConfigView { admins: seq_remove(c.admins, u), ..c },
        _ => c,
    };
    StateView { config, ..v }
}

/// The table a board ranks.
pub open spec fn board_table(v: StateView, board: Board) -> Seq<Row> {
    match board {
        Board::Receivers => v.received,
        Board::Givers => v.given,
    }
}

/// A leaderboard page to be shown once the users on it have been looked up.
pub struct BoardReply {
    pub board: Board,
    pub view: Leaderboard,
    /// The 0-based page asked for.
    pub page_index: usize,
    /// How the guild's tater reaction shows.
    pub emoji: String,
}

/// One reply to send back.
pub enum Reply {
    /// A plain message.
    Text(String),
    /// A message whose mentions must not notify anyone.
    Quiet(String),
    /// A leaderboard page.
    Board(BoardReply),
    /// The admin list, to be shown by user tag once each id has been looked up.
    Admins(Vec<u64>),
}

/// Whether `r` are the replies to `cmd`, run on state `v` by `asker`, who is (`admin`) or
/// is not an admin.
pub open spec fn replies_to(v: StateView, cmd: Command, asker: u64, admin: bool, r: Seq<Reply>) -> bool {
    match cmd {
        Command::Help => if admin {
            r.len() == 2 && is_text(r[0], HELP@) && is_text(r[1], ADMIN_HELP@)
        } else {
            r.len() == 1 && is_text(r[0], HELP@)
        },
        Command::Leaderboard { board, page } => r.len() == 1 && match r[0] {
            Reply::Board(b) => b.board == board && b.page_index == page && b.emoji@ == reaction_text(v.config.tater_emoji)
                && b.view.describes(board_table(v, board), asker, page as nat, PAGE_SIZE as nat),
            _ => false,
        },
        Command::ListAdmins => r.len() == 1 && match r[0] {
            Reply::Admins(a) => a@ == v.config.admins,
            _ => false,
        },
        Command::Save => r.len() == 0,
        Command::Unknown(name) => r.len() == 1 && match r[0] {
            Reply::Quiet(s) => s@ == "Unknown command: "@ + name@,
            _ => false,
        },
        _ => r.len() == 1 && is_text(r[0], reply_text(v, cmd)),
    }
}

/// Whether `r` is a plain message saying `s`.
pub open spec fn is_text(r: Reply, s: Seq<char>) -> bool {
    match r {
        Reply::Text(a) => a@ == s,
        _ => false,
    }
}

fn push_channel_mention(s: &mut String, c: u64)
    ensures
        final(s)@ == old(s)@ + channel_mention(c),
{
    s.append("<#");
    push_decimal(s, c as u128);
    s.append(">");
    assert(s@ =~= old(s)@ + channel_mention(c));
}

/// The text an argument error shows.
pub fn arg_error_message(e: ArgError) -> (r: String)
    ensures
        r@ == arg_error_text(e),
{
    let mut s = String::from_str("An error occured: \n");
    match e {
        ArgError::Missing => s.append("Not enough arguments (1 expected)"),
        ArgError::BadInteger(IntError::Empty) => s.append("cannot parse integer from empty string"),
        ArgError::BadInteger(IntError::InvalidDigit) => s.append("invalid digit found in string"),
        ArgError::BadInteger(IntError::TooLarge) => s.append("number too large to fit in target type"),
        ArgError::BadReaction => s.append("failed to convert from a string to ReactionType"),
    }
    s
}

/// A message about channel `c`: `pre`, the channel's mention, then `post`.
fn channel_message(pre: &str, c: u64, post: &str) -> (r: String)
    ensures
        r@ == pre@ + channel_mention(c) + post@,
{
    let mut s = String::from_str(pre);
    push_channel_mention(&mut s, c);
    s.append(post);
    s
}

/// A message about user `u`: `pre`, the user's id, then `post`.
fn user_message(pre: &str, u: u64, post: &str) -> (r: String)
    ensures
        r@ == pre@ + decimal(u as nat) + post@,
{
    let mut s = String::from_str(pre);
    push_decimal(&mut s, u as u128);
    s.append(post);
    s
}

/// One line per blacklisted channel.
fn blacklist_message(b: &Vec<u64>) -> (r: String)
    ensures
        r@ == channel_lines(b@),
{
    let mut s = String::new();
    let mut i: usize = 0;
    while i < b.len()
        invariant
            i <= b@.len(),
            s@ == channel_lines(b@.take(i as int)),
        decreases b.len() - i,
    {
        proof {
            let t = b@.take(i as int + 1);
            assert(t.drop_last() =~= b@.take(i as int));
            assert(t.last() == b@[i as int]);
        }
        if i == 0 {
            s.append("- ");
            assert(b@.take(0) =~= Seq::<u64>::empty());
        } else {
            s.append("\n- ");
        }
        push_channel_mention(&mut s, b[i]);
        i = i + 1;
    }
    assert(b@.take(b@.len() as int) =~= b@);
    s
}

impl GuildState {
    /// Runs `cmd`, asked for by `asker`, who is (`admin`) or is not an admin.
    pub fn execute(&mut self, cmd: Command, asker: u64, admin: bool) -> (r: Vec<Reply>)
        requires
            old(self).wf(),
        ensures
            final(self).wf(),
            final(self)@ == step(old(self)@, cmd),
            replies_to(old(self)@, cmd, asker, admin, r@),
    {
        let ghost v = self@;
        let ghost c = cmd;
        let mut out: Vec<Reply> = Vec::new();
        match cmd {
            Command::Help => {
                out.push(Reply::Text(String::from_str(HELP)));
                if admin {
                    out.push(Reply::Text(String::from_str(ADMIN_HELP)));
                }
            },
            Command::Leaderboard { board, page } => {
                let table = match board {
                    Board::Receivers => &self.received,
                    Board::Givers => &self.given,
                };
                let view = leaderboard(table, asker, page, PAGE_SIZE);
                let emoji = self.config.tater_emoji.text();
                out.push(Reply::Board(BoardReply { board, view, page_index: page, emoji }));
            },
            Command::SetPinChannel(ch) => {
                self.config.pin_channel = Some(ch);
                let added = set_insert(&mut self.config.blacklist, ch);
                let m = if added {
                    channel_message("Set pins channel to `", ch, "` and added it to the blacklist")
                } else {
                    channel_message("Set pins channel to `", ch, "`, and it was already blacklisted")
                };
                out.push(Reply::Text(m));
            },
            Command::SetThreshold(n) => {
                self.config.threshold = n;
                let mut m = String::from_str("Threshold changed to ");
                push_decimal(&mut m, n as u128);
                out.push(Reply::Text(m));
            },
            Command::Blacklist(ch) => {
                let added = set_insert(&mut self.config.blacklist, ch);
                let m = if added {
                    channel_message("Blacklisted `", ch, "`")
                } else {
                    channel_message("`", ch, "` was already blacklisted")
                };
                out.push(Reply::Text(m));
            },
            Command::Unblacklist(ch) => {
                let removed = set_remove(&mut self.config.blacklist, ch);
                let m = if removed {
                    channel_message("Unblacklisted `", ch, "`")
                } else {
                    channel_message("`", ch, "` was not blacklisted")
                };
                out.push(Reply::Text(m));
            },
            Command::ShowBlacklist => {
                out.push(Reply::Text(blacklist_message(&self.config.blacklist)));
            },
            Command::SetPotato { text, reaction } => {
                let mut m = String::from_str("Set potato emoji to ");
                m.append(text.as_str());
                m.append(" (from ");
                let previous = self.config.tater_emoji.text();
                m.append(previous.as_str());
                m.append(")");
                self.config.tater_emoji = reaction;
                out.push(Reply::Text(m));
            },
            Command::Admin(u) => {
                let added = set_insert(&mut self.config.admins, u);
                let m = if added {
                    user_message("Added `", u, "` as a new admin")
                } else {
                    user_message("`", u, "` was already an admin")
                };
                out.push(Reply::Text(m));
            },
            Command::Unadmin(u) => {
                let removed = set_remove(&mut self.config.admins, u);
                let m = if removed {
                    user_message("Removed `", u, "` from being an admin")
                } else {
                    user_message("`", u, "` was not an admin")
                };
                out.push(Reply::Text(m));
            },
            Command::ListAdmins => {
                out.push(Reply::Admins(self.config.admins.clone()));
            },
            Command::Save => {},
            Command::Unknown(name) => {
                let mut m = String::from_str("Unknown command: ");
                m.append(name.as_str());
                out.push(Reply::Quiet(m));
            },
        }
        assert(self@ =~= step(v, c));
        out
    }
}

/// What handling one command line calls for.
pub struct Outcome {
    /// The replies to send, in order.
    pub replies: Vec<Reply>,
    /// Whether the count tables must be saved.
    pub save_counts: bool,
    /// Whether the configuration must be saved.
    pub save_config: bool,
}

/// Whether a message is left alone: sent by the bot itself, not starting with the
/// trigger word, or holding fewer than two words.
pub open spec fn ignored(v: StateView, author: u64, bot: u64, line: Seq<char>) -> bool {
    author == bot || !v.config.trigger_word.is_prefix_of(line) || words(line).len() < 2
}

/// Whether `o`, and the move from state `v` to `v2`, are what running a command that
/// decoded as `d` calls for, for `author`, who is (`admin`) or is not an admin.
pub open spec fn handled(v: StateView, v2: StateView, d: Result<Command, ArgError>, author: u64, admin: bool, o: Outcome) -> bool {
    match d {
        Ok(cmd) => {
            &&& v2 == step(v, cmd)
            &&& replies_to(v, cmd, author, admin, o.replies@)
            &&& o.save_config == admin
            &&& o.save_counts == cmd is Save
        },
        Err(e) => {
            &&& v2 == v
            &&& o.replies@.len() == 1
            &&& is_text(o.replies@[0], arg_error_text(e))
            &&& !o.save_config
            &&& !o.save_counts
        },
    }
}

/// Whether `r`, and the move from state `v` to `v2`, are what handling the message
/// `line` calls for (see `GuildState::dispatch`).
pub open spec fn dispatched(v: StateView, v2: StateView, author: u64, bot: u64, role_admin: bool, line: Seq<char>, r: Option<Outcome>) -> bool {
    if ignored(v, author, bot, line) {
        r is None && v2 == v
    } else {
        r is Some && exists|d: Result<Command, ArgError>|
            #[trigger] decoded(words(line), admin_spec(v.config, author, role_admin), d)
            && handled(v, v2, d, author, admin_spec(v.config, author, role_admin), r->0)
    }
}

impl GuildState {
    /// Whether the message `line` from `author` is a command here (see `ignored`).
    pub fn is_command(&self, author: u64, bot: u64, line: &str) -> (r: bool)
        ensures
            r == !ignored(self@, author, bot, line@),
    {
        if author == bot {
            return false;
        }
        let chars = chars_of(line);
        if !starts_with(&chars, self.config.trigger_word.as_str()) {
            return false;
        }
        split_words(&chars).len() >= 2
    }

    /// Handles the message `line`, sent by `author`, where the bot itself is `bot` and
    /// `role_admin` says whether one of the author's roles carries the administrator
    /// permission. `None` when the message is no command.
    pub fn dispatch(&mut self, author: u64, bot: u64, role_admin: bool, line: &str) -> (r: Option<Outcome>)
        requires
            old(self).wf(),
        ensures
            final(self).wf(),
            dispatched(old(self)@, final(self)@, author, bot, role_admin, line@, r),
    {
        if author == bot {
            return None;
        }
        let chars = chars_of(line);
        if !starts_with(&chars, self.config.trigger_word.as_str()) {
            return None;
        }
        let w = split_words(&chars);
        if w.len() < 2 {
            return None;
        }
        let admin = is_admin(&self.config, author, role_admin);
        let ghost v = self@;
        let d = decode(&w, admin);
        let ghost dg = d;
        match d {
            Ok(cmd) => {
                let save_counts = match &cmd {
                    Command::Save => true,
                    _ => false,
                };
                let replies = self.execute(cmd, author, admin);
                let o = Outcome { replies, save_counts, save_config: admin };
                assert(decoded(words(line@), admin, dg));
                assert(handled(v, self@, dg, author, admin, o));
                Some(o)
            },
            Err(e) => {
                let mut replies: Vec<Reply> = Vec::new();
                replies.push(Reply::Text(arg_error_message(e)));
                let o = Outcome { replies, save_counts: false, save_config: false };
                assert(decoded(words(line@), admin, dg));
                assert(handled(v, self@, dg, author, admin, o));
                Some(o)
            },
        }
    }
}

/// Blacklisting a channel that is already blacklisted changes nothing, and the reply
/// says it already was.
pub proof fn blacklist_again_changes_nothing(v: StateView, c: u64)
    requires
        v.config.blacklist.contains(c),
    ensures
        step(v, Command::Blacklist(c)) == v,
        reply_text(v, Command::Blacklist(c)) == "`"@ + channel_mention(c) + "` was already blacklisted"@,
{
}

/// Making an admin of a user who already is one changes nothing, and the reply says
/// they already were.
pub proof fn admin_again_changes_nothing(v: StateView, u: u64)
    requires
        v.config.admins.contains(u),
    ensures
        step(v, Command::Admin(u)) == v,
        reply_text(v, Command::Admin(u)) == "`"@ + decimal(u as nat) + "` was already an admin"@,
{
}

/// Right after a channel is made the pin channel, it is blacklisted.
pub proof fn pin_channel_is_blacklisted(v: StateView, c: u64)
    ensures
        step(v, Command::SetPinChannel(c)).config.pin_channel == Some(c),
        step(v, Command::SetPinChannel(c)).config.blacklist.contains(c),
{
    let b = v.config.blacklist;
    if !b.contains(c) {
        assert(b.push(c)[b.len() as int] == c);
    }
}

/// Whether `name` is an admin command that takes an id.
pub open spec fn takes_id(name: Seq<char>) -> bool {
    name == "set_pin_channel"@ || name == "set_threshold"@ || name == "blacklist"@
        || name == "unblacklist"@ || name == "admin"@ || name == "unadmin"@
}

/// An admin command whose id argument is missing or unreadable changes nothing, asks
/// for no saving, and answers with the argument's error.
pub proof fn bad_argument_changes_nothing(
    v: StateView,
    v2: StateView,
    author: u64,
    bot: u64,
    role_admin: bool,
    line: Seq<char>,
    r: Option<Outcome>,
)
    requires
        dispatched(v, v2, author, bot, role_admin, line, r),
        !ignored(v, author, bot, line),
        admin_spec(v.config, author, role_admin),
        takes_id(words(line)[1]),
        id_arg(words(line)) is Err,
    ensures
        v2 == v,
        r is Some,
        !r->0.save_config,
        !r->0.save_counts,
        r->0.replies@.len() == 1,
        is_text(r->0.replies@[0], arg_error_text(id_arg(words(line))->Err_0)),
{
    let w = words(line);
    let admin = admin_spec(v.config, author, role_admin);
    let d = choose|d: Result<Command, ArgError>| #[trigger] decoded(w, admin, d) && handled(v, v2, d, author, admin, r->0);
    reveal_strlit("help");
    reveal_strlit("receivers");
    reveal_strlit("givers");
    reveal_strlit("set_pin_channel");
    reveal_strlit("set_threshold");
    reveal_strlit("blacklist");
    reveal_strlit("unblacklist");
    reveal_strlit("show_blacklist");
    reveal_strlit("set_potato");
    reveal_strlit("admin");
    reveal_strlit("unadmin");
    assert(w[1].len() != 9 || w[1][0] != 'r');
    assert(w[1] != "receivers"@);
    assert(w[1] != "help"@);
    assert(w[1] != "givers"@);
    let e = id_arg(w)->Err_0;
    if w[1] == "set_pin_channel"@ {
        assert(d == with_id(w, |x: u64| Command::SetPinChannel(x)));
    } else if w[1] == "set_threshold"@ {
        assert(d == with_id(w, |x: u64| Command::SetThreshold(x)));
    } else if w[1] == "blacklist"@ {
        assert(d == with_id(w, |x: u64| Command::Blacklist(x)));
    } else if w[1] == "unblacklist"@ {
        assert(d == with_id(w, |x: u64| Command::Unblacklist(x)));
    } else if w[1] == "admin"@ {
        assert(d == with_id(w, |x: u64| Command::Admin(x)));
    } else {
        assert(d == with_id(w, |x: u64| Command::Unadmin(x)));
    }
    assert(d == Err::<Command, ArgError>(e));
}

/// A user who is not an admin asking for an admin command changes nothing, asks for no
/// saving, and gets the answer an unknown command gets.
pub proof fn non_admin_is_refused(
    v: StateView,
    v2: StateView,
    author: u64,
    bot: u64,
    role_admin: bool,
    line: Seq<char>,
    r: Option<Outcome>,
)
    requires
        dispatched(v, v2, author, bot, role_admin, line, r),
        !ignored(v, author, bot, line),
        !admin_spec(v.config, author, role_admin),
        admin_only(words(line)[1]),
    ensures
        v2 == v,
        r is Some,
        !r->0.save_config,
        !r->0.save_counts,
        r->0.replies@.len() == 1,
        r->0.replies@[0] matches Reply::Quiet(s) && s@ == "Unknown command: "@ + words(line)[1],
{
    let w = words(line);
    let d = choose|d: Result<Command, ArgError>| #[trigger] decoded(w, false, d) && handled(v, v2, d, author, false, r->0);
    reveal_strlit("help");
    reveal_strlit("receivers");
    reveal_strlit("givers");
    reveal_strlit("set_pin_channel");
    reveal_strlit("set_threshold");
    reveal_strlit("blacklist");
    reveal_strlit("unblacklist");
    reveal_strlit("show_blacklist");
    reveal_strlit("set_potato");
    reveal_strlit("admin");
    reveal_strlit("unadmin");
    reveal_strlit("list_admins");
    reveal_strlit("save");
    assert(w[1].len() != 4 || w[1][0] != 'h');
    assert(w[1] != "help"@);
    assert(w[1].len() != 9 || w[1][0] != 'r');
    assert(w[1] != "receivers"@);
    assert(w[1] != "givers"@);
    assert(d matches Ok(Command::Unknown(s)) && s@ == w[1]);
}

/// The verb a board uses.
pub open spec fn verb(board: Board) -> Seq<char> {
    match board {
        Board::Receivers => "received"@,
        Board::Givers => "given"@,
    }
}

/// The medal shown beside a place.
pub open spec fn medal(place: nat) -> Seq<char> {
    if place == 1 {
        "\u{1F3C5}"@
    } else if place == 2 {
        "\u{1F948}"@
    } else if place == 3 {
        "\u{1F949}"@
    } else {
        "\u{1F396}\u{FE0F}"@
    }
}

/// The line a board shows for one participant.
pub open spec fn board_line(board: Board, p: Placed) -> Seq<char> {
    medal(p.place as nat) + " "@ + decimal(p.place as nat) + ": "@ + user_mention(p.id) + " has "@ + verb(board) + " "@
        + decimal(p.count as nat) + "x taters\n"@
}

/// The lines of a board page, one per participant.
pub open spec fn board_lines(board: Board, page: Seq<Placed>) -> Seq<char>
    decreases page.len(),
{
    if page.len() == 0 {
        Seq::empty()
    } else {
        board_lines(board, page.drop_last()) + board_line(board, page.last())
    }
}

/// The footer of a board: the asker's place (`?` when they are not on it), and the page.
pub open spec fn board_footer(b: BoardReply) -> Seq<char> {
    let (place, score) = match b.view.asker {
        Some((p, c)) => (decimal(p as nat), decimal(c as nat)),
        None => ("?"@, "?"@),
    };
    "Your place: #"@ + place + "/"@ + decimal(b.view.total_entries as nat) + " with "@ + score + "x "@ + b.emoji@
        + " | Page "@ + decimal(b.page_index as nat + 1) + "/"@ + decimal(b.view.total_pages as nat)
}

fn verb_str(board: Board) -> (r: &'static str)
    ensures
        r@ == verb(board),
{
    match board {
        Board::Receivers => "received",
        Board::Givers => "given",
    }
}

fn medal_str(place: usize) -> (r: &'static str)
    ensures
        r@ == medal(place as nat),
{
    if place == 1 {
        "\u{1F3C5}"
    } else if place == 2 {
        "\u{1F948}"
    } else if place == 3 {
        "\u{1F949}"
    } else {
        "\u{1F396}\u{FE0F}"
    }
}

fn line_text(board: Board, p: Placed) -> (r: String)
    ensures
        r@ == board_line(board, p),
{
    let mut s = String::from_str(medal_str(p.place));
    s.append(" ");
    push_decimal(&mut s, p.place as u128);
    s.append(": ");
    s.append("<@");
    push_decimal(&mut s, p.id as u128);
    s.append(">");
    s.append(" has ");
    s.append(verb_str(board));
    s.append(" ");
    push_decimal(&mut s, p.count as u128);
    s.append("x taters\n");
    assert(s@ =~= board_line(board, p));
    s
}

impl BoardReply {
    /// The title of the board.
    pub fn title(&self) -> (r: String)
        ensures
            r@ == "Leaderboard - Taters "@ + verb(self.board),
    {
        let mut s = String::from_str("Leaderboard - Taters ");
        s.append(verb_str(self.board));
        s
    }

    /// The body of the board: one line per participant on the page.
    pub fn description(&self) -> (r: String)
        ensures
            r@ == board_lines(self.board, self.view.page@),
    {
        let page = &self.view.page;
        let mut s = String::new();
        let mut i: usize = 0;
        while i < page.len()
            invariant
                i <= page@.len(),
                s@ == board_lines(self.board, page@.take(i as int)),
            decreases page.len() - i,
        {
            let p = page[i];
            let ghost before = s@;
            let line = line_text(self.board, p);
            s.append(line.as_str());
            proof {
                let t = page@.take(i as int + 1);
                assert(t.drop_last() =~= page@.take(i as int));
                assert(t.last() == p);
            }
            i = i + 1;
        }
        assert(page@.take(page@.len() as int) =~= page@);
        s
    }

    /// The footer of the board.
    pub fn footer(&self) -> (r: String)
        ensures
            r@ == board_footer(*self),
    {
        let mut s = String::from_str("Your place: #");
        match self.view.asker {
            Some((p, _)) => push_decimal(&mut s, p as u128),
            None => s.append("?"),
        }
        s.append("/");
        push_decimal(&mut s, self.view.total_entries as u128);
        s.append(" with ");
        match self.view.asker {
            Some((_, c)) => push_decimal(&mut s, c as u128),
            None => s.append("?"),
        }
        s.append("x ");
        s.append(self.emoji.as_str());
        s.append(" | Page ");
        push_decimal(&mut s, self.page_index as u128 + 1);
        s.append("/");
        push_decimal(&mut s, self.view.total_pages);
        assert(s@ =~= board_footer(*self));
        s
    }
}

/// The admin list, given each admin's tag.
pub open spec fn admin_list_text(tags: Seq<Seq<char>>) -> Seq<char>
    decreases tags.len(),
{
    if tags.len() == 0 {
        "Admins:"@
    } else {
        admin_list_text(tags.drop_last()) + "\n- "@ + tags.last()
    }
}

/// The text listing the admins whose tags are `tags`.
pub fn admin_list(tags: &Vec<String>) -> (r: String)
    ensures
        r@ == admin_list_text(tags@.map_values(|t: String| t@)),
{
    let ghost all = tags@.map_values(|t: String| t@);
    let mut s = String::from_str("Admins:");
    let mut i: usize = 0;
    while i < tags.len()
        invariant
            i <= tags@.len(),
            all == tags@.map_values(|t: String| t@),
            s@ == admin_list_text(all.take(i as int)),
        decreases tags.len() - i,
    {
        let ghost before = s@;
        s.append("\n- ");
        s.append(tags[i].as_str());
        proof {
            let t = all.take(i as int + 1);
            assert(t.drop_last() =~= all.take(i as int));
            assert(t.last() == tags@[i as int]@);
            assert(s@ =~= before + "\n- "@ + tags@[i as int]@);
        }
        i = i + 1;
    }
    assert(all.take(all.len() as int) =~= all);
    s
}

} // verus!
