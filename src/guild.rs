//! One guild's configuration and count tables.
use vstd::prelude::*;

use crate::leaderboard::{CountTable, Row};
use crate::reaction::Reaction;

verus! {

/// The threshold a new guild starts with.
pub const DEFAULT_THRESHOLD: u64 = 5;

/// Whether no value appears twice in `s`.
pub open spec fn no_dup(s: Seq<u64>) -> bool {
    forall|i: int, j: int| 0 <= i < s.len() && 0 <= j < s.len() && i != j ==> #[trigger] s[i] != #[trigger] s[j]
}

/// `s` with `x` added at the end, unless it is already there.
pub open spec fn seq_insert(s: Seq<u64>, x: u64) -> Seq<u64> {
    if s.contains(x) { s } else { s.push(x) }
}

/// `s` without `x`.
pub open spec fn seq_remove(s: Seq<u64>, x: u64) -> Seq<u64> {
    s.filter(|y: u64| y != x)
}

/// Adds `x` to the set held in `v`; true when it was not there before.
pub fn set_insert(v: &mut Vec<u64>, x: u64) -> (r: bool)
    requires
        no_dup(old(v)@),
    ensures
        r == !old(v)@.contains(x),
        final(v)@ == seq_insert(old(v)@, x),
        no_dup(final(v)@),
{
    let mut i: usize = 0;
    while i < v.len()
        invariant
            i <= v@.len(),
            forall|j: int| 0 <= j < i ==> #[trigger] v@[j] != x,
            v@ == old(v)@,
            no_dup(v@),
        decreases v.len() - i,
    {
        if v[i] == x {
            assert(v@.contains(x));
            return false;
        }
        i = i + 1;
    }
    assert(!v@.contains(x));
    v.push(x);
    true
}

proof fn lemma_filter_without(s: Seq<u64>, x: u64)
    requires
        !s.contains(x),
    ensures
        seq_remove(s, x) == s,
    decreases s.len(),
{
    reveal(Seq::filter);
    if s.len() > 0 {
        lemma_filter_without(s.drop_last(), x);
        assert(s.drop_last().push(s.last()) =~= s);
    }
    assert(seq_remove(s, x) =~= s);
}

proof fn lemma_filter_remove(s: Seq<u64>, x: u64, i: int)
    requires
        0 <= i < s.len(),
        s[i] == x,
        no_dup(s),
    ensures
        seq_remove(s, x) == s.remove(i),
    decreases s.len(),
{
    reveal(Seq::filter);
    if i == s.len() - 1 {
        assert(!s.drop_last().contains(x));
        lemma_filter_without(s.drop_last(), x);
        assert(s.remove(i) =~= s.drop_last());
    } else {
        let t = s.drop_last();
        assert(t[i] == x);
        assert(no_dup(t));
        lemma_filter_remove(t, x, i);
        assert(s.last() != x);
        assert(s.remove(i) =~= t.remove(i).push(s.last()));
    }
}

/// Takes `x` out of the set held in `v`; true when it was there.
pub fn set_remove(v: &mut Vec<u64>, x: u64) -> (r: bool)
    requires
        no_dup(old(v)@),
    ensures
        r == old(v)@.contains(x),
        final(v)@ == seq_remove(old(v)@, x),
        no_dup(final(v)@),
{
    let mut i: usize = 0;
    while i < v.len()
        invariant
            i <= v@.len(),
            forall|j: int| 0 <= j < i ==> #[trigger] v@[j] != x,
            v@ == old(v)@,
            no_dup(v@),
        decreases v.len() - i,
    {
        if v[i] == x {
            assert(v@.contains(x));
            proof {
                lemma_filter_remove(v@, x, i as int);
            }
            let ghost before = v@;
            v.remove(i);
            assert forall|a: int, b: int|
                0 <= a < v@.len() && 0 <= b < v@.len() && a != b implies #[trigger] v@[a] != #[trigger] v@[b] by {
                let a2 = if a < i { a } else { a + 1 };
                let b2 = if b < i { b } else { b + 1 };
                assert(v@[a] == before[a2]);
                assert(v@[b] == before[b2]);
            }
            return true;
        }
        i = i + 1;
    }
    assert(!v@.contains(x));
    proof {
        lemma_filter_without(v@, x);
    }
    false
}

/// Whether `v` holds `x`.
pub fn set_contains(v: &Vec<u64>, x: u64) -> (r: bool)
    ensures
        r == v@.contains(x),
{
    let mut i: usize = 0;
    while i < v.len()
        invariant
            i <= v@.len(),
            forall|j: int| 0 <= j < i ==> #[trigger] v@[j] != x,
        decreases v.len() - i,
    {
        if v[i] == x {
            assert(v@[i as int] == x);
            return true;
        }
        i = i + 1;
    }
    assert(!v@.contains(x));
    false
}

/// A guild's settings.
pub struct GuildConfig {
    /// The word a message must start with to be read as a command.
    pub trigger_word: String,
    /// Users allowed to run admin commands, each once.
    pub admins: Vec<u64>,
    /// Channels whose messages are never pinned, each once.
    pub blacklist: Vec<u64>,
    /// The channel pinned messages go to, once one has been set.
    pub pin_channel: Option<u64>,
    /// How many taters a message needs before it is pinned.
    pub threshold: u64,
    /// The reaction that counts as a tater.
    pub tater_emoji: Reaction,
}

/// The mathematical content of a guild's settings.
pub struct ConfigView {
    pub trigger_word: Seq<char>,
    pub admins: Seq<u64>,
    pub blacklist: Seq<u64>,
    pub pin_channel: Option<u64>,
    pub threshold: u64,
    pub tater_emoji: Reaction,
}

impl View for GuildConfig {
    type V = ConfigView;

    open spec fn view(&self) -> ConfigView {
        ConfigView {
            trigger_word: self.trigger_word@,
            admins: self.admins@,
            blacklist: self.blacklist@,
            pin_channel: self.pin_channel,
            threshold: self.threshold,
            tater_emoji: self.tater_emoji,
        }
    }
}

/// Everything kept for one guild.
pub struct GuildState {
    pub config: GuildConfig,
    /// Taters each participant has received.
    pub received: CountTable,
    /// Taters each participant has given.
    pub given: CountTable,
}

/// The mathematical content of a guild's state.
pub struct StateView {
    pub config: ConfigView,
    pub received: Seq<Row>,
    pub given: Seq<Row>,
}

impl View for GuildState {
    type V = StateView;

    open spec fn view(&self) -> StateView {
        StateView { config: self.config@, received: self.received@, given: self.given@ }
    }
}

/// Whether `v` is a guild's state before anything has happened in it.
pub open spec fn fresh(v: StateView, trigger_word: Seq<char>) -> bool {
    &&& v.config.trigger_word == trigger_word
    &&& v.config.admins.len() == 0
    &&& v.config.blacklist.len() == 0
    &&& v.config.pin_channel is None
    &&& v.config.threshold == DEFAULT_THRESHOLD
    &&& v.config.tater_emoji is Unicode
    &&& v.config.tater_emoji->Unicode_0@ == "\u{1F954}"@
    &&& v.received.len() == 0
    &&& v.given.len() == 0
}

impl GuildState {
    /// The sets hold no duplicates and the tables no participant twice.
    pub open spec fn wf(&self) -> bool {
        &&& no_dup(self.config.admins@)
        &&& no_dup(self.config.blacklist@)
        &&& self.received.wf()
        &&& self.given.wf()
    }

    /// A fresh guild: no admins, nothing blacklisted, no pin channel, the default
    /// threshold and reaction, and empty tables.
    pub fn new(trigger_word: &str) -> (r: GuildState)
        ensures
            r.wf(),
            fresh(r@, trigger_word@),
    {
        GuildState {
            config: GuildConfig {
                trigger_word: String::from_str(trigger_word),
                admins: Vec::new(),
                blacklist: Vec::new(),
                pin_channel: None,
                threshold: DEFAULT_THRESHOLD,
                tater_emoji: Reaction::potato(),
            },
            received: CountTable::new(),
            given: CountTable::new(),
        }
    }
}

/// Whether `user` may run admin commands: a listed admin, or a holder of an
/// administrator role.
pub open spec fn admin_spec(config: ConfigView, user: u64, role_admin: bool) -> bool {
    config.admins.contains(user) || role_admin
}

/// Whether `user` may run admin commands in a guild with settings `config`, where
/// `role_admin` says whether one of their roles carries the administrator permission.
pub fn is_admin(config: &GuildConfig, user: u64, role_admin: bool) -> (r: bool)
    ensures
        r == admin_spec(config@, user, role_admin),
{
    set_contains(&config.admins, user) || role_admin
}

} // verus!
