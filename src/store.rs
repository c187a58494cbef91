//! All guilds' states, one per guild, created on first use.
use vstd::prelude::*;

use crate::command::{dispatched, ignored, Outcome};
use crate::guild::{fresh, GuildState};

verus! {

/// Whether no guild appears twice in `s`.
pub open spec fn guilds_unique(s: Seq<(u64, GuildState)>) -> bool {
    forall|i: int, j: int| 0 <= i < s.len() && 0 <= j < s.len() && i != j ==> #[trigger] s[i].0 != #[trigger] s[j].0
}

/// The position of guild `g` in `s`, if it is there.
pub open spec fn guild_position(s: Seq<(u64, GuildState)>, g: u64) -> Option<int> {
    if exists|i: int| 0 <= i < s.len() && #[trigger] s[i].0 == g {
        Some(choose|i: int| 0 <= i < s.len() && #[trigger] s[i].0 == g)
    } else {
        None
    }
}

/// The registry of guild states. Callers that share it across tasks hold it behind
/// one lock, so at most one command runs at a time anywhere.
pub struct GuildStore {
    entries: Vec<(u64, GuildState)>,
    trigger_word: String,
}

impl GuildStore {
    /// The guilds and their states, in the order they were first used.
    pub closed spec fn entries(&self) -> Seq<(u64, GuildState)> {
        self.entries@
    }

    /// The trigger word new guilds start with.
    pub closed spec fn default_trigger(&self) -> Seq<char> {
        self.trigger_word@
    }

    /// Each guild appears once, and each state is well formed.
    pub open spec fn wf(&self) -> bool {
        &&& guilds_unique(self.entries())
        &&& forall|i: int| 0 <= i < self.entries().len() ==> (#[trigger] self.entries()[i]).1.wf()
    }

    /// An empty registry whose new guilds start with `trigger_word`.
    pub fn new(trigger_word: &str) -> (r: GuildStore)
        ensures
            r.wf(),
            r.entries().len() == 0,
            r.default_trigger() == trigger_word@,
    {
        GuildStore { entries: Vec::new(), trigger_word: String::from_str(trigger_word) }
    }

    fn find(&self, g: u64) -> (r: Option<usize>)
        requires
            guilds_unique(self.entries()),
        ensures
            match r {
                Some(k) => guild_position(self.entries(), g) == Some(k as int),
                None => guild_position(self.entries(), g) is None,
            },
            r is Some ==> r->0 < self.entries().len(),
            r is Some ==> self.entries()[r->0 as int].0 == g,
    {
        let mut i: usize = 0;
        while i < self.entries.len()
            invariant
                i <= self.entries@.len(),
                forall|j: int| 0 <= j < i ==> #[trigger] self.entries@[j].0 != g,
                guilds_unique(self.entries@),
            decreases self.entries.len() - i,
        {
            if self.entries[i].0 == g {
                let ghost s = self.entries@;
                assert(s[i as int].0 == g);
                let ghost c = choose|j: int| 0 <= j < s.len() && #[trigger] s[j].0 == g;
                assert(c == i as int) by {
                    if c < i as int {
                        assert(s[c].0 != g);
                    } else if c > i as int {
                        assert(s[c].0 != s[i as int].0);
                    }
                }
                return Some(i);
            }
            i = i + 1;
        }
        None
    }

    /// The state of guild `g`, if it has been used.
    pub fn get(&self, g: u64) -> (r: Option<&GuildState>)
        requires
            self.wf(),
        ensures
            match guild_position(self.entries(), g) {
                Some(k) => r is Some && *r->0 == self.entries()[k].1,
                None => r is None,
            },
    {
        match self.find(g) {
            Some(k) => Some(&self.entries[k].1),
            None => None,
        }
    }

    /// Whether the message `line` from `author` in guild `g` is a command there; a guild
    /// not used yet has a fresh state.
    pub fn is_command(&self, g: u64, author: u64, bot: u64, line: &str) -> (r: bool)
        requires
            self.wf(),
        ensures
            match guild_position(self.entries(), g) {
                Some(k) => r == !ignored(self.entries()[k].1@, author, bot, line@),
                None => exists|s: GuildState| fresh(s@, self.default_trigger()) && r == !ignored(#[trigger] s@, author, bot, line@),
            },
    {
        match self.find(g) {
            Some(k) => self.entries[k].1.is_command(author, bot, line),
            None => {
                let s = GuildState::new(self.trigger_word.as_str());
                let r = s.is_command(author, bot, line);
                assert(fresh(s@, self.default_trigger()));
                r
            },
        }
    }

    /// Puts in `state` as guild `g`'s, replacing any state it had; used when states are
    /// loaded from storage.
    pub fn put(&mut self, g: u64, state: GuildState)
        requires
            old(self).wf(),
            state.wf(),
        ensures
            final(self).wf(),
            final(self).default_trigger() == old(self).default_trigger(),
            match guild_position(old(self).entries(), g) {
                Some(k) => final(self).entries() == old(self).entries().update(k, (g, state)),
                None => final(self).entries() == old(self).entries().push((g, state)),
            },
    {
        match self.find(g) {
            Some(k) => {
                self.entries.set(k, (g, state));
                assert(guilds_unique(self.entries@));
            },
            None => {
                self.entries.push((g, state));
                assert(guilds_unique(self.entries@));
            },
        }
    }

    /// Handles the message `line` sent in guild `g` (see `GuildState::dispatch`), on
    /// the guild's state, which is created fresh when the guild has not been used.
    pub fn dispatch(&mut self, g: u64, author: u64, bot: u64, role_admin: bool, line: &str) -> (r: Option<Outcome>)
        requires
            old(self).wf(),
        ensures
            final(self).wf(),
            final(self).default_trigger() == old(self).default_trigger(),
            match guild_position(old(self).entries(), g) {
                Some(k) => {
                    &&& final(self).entries().len() == old(self).entries().len()
                    &&& final(self).entries()[k].0 == g
                    &&& forall|j: int| 0 <= j < old(self).entries().len() && j != k
                        ==> #[trigger] final(self).entries()[j] == old(self).entries()[j]
                    &&& dispatched(old(self).entries()[k].1@, final(self).entries()[k].1@, author, bot, role_admin, line@, r)
                },
                None => {
                    let n = old(self).entries().len() as int;
                    &&& final(self).entries().len() == n + 1
                    &&& final(self).entries()[n].0 == g
                    &&& final(self).entries().take(n) == old(self).entries()
                    &&& exists|s: GuildState| fresh(s@, old(self).default_trigger())
                        && dispatched(#[trigger] s@, final(self).entries()[n].1@, author, bot, role_admin, line@, r)
                },
            },
    {
        let k = match self.find(g) {
            Some(k) => k,
            None => {
                let s = GuildState::new(self.trigger_word.as_str());
                self.entries.push((g, s));
                assert(guilds_unique(self.entries@));
                assert(self.entries@.take(self.entries@.len() - 1) =~= old(self).entries@);
                self.entries.len() - 1
            },
        };
        let ghost before = self.entries@;
        let (id, mut state) = self.entries.remove(k);
        let ghost s0 = state;
        let r = state.dispatch(author, bot, role_admin, line);
        self.entries.insert(k, (id, state));
        assert(self.entries@ =~= before.update(k as int, (id, state)));
        assert(guilds_unique(self.entries@));
        proof {
            if guild_position(old(self).entries(), g) is None {
                assert(self.entries@.take(k as int) =~= before.take(k as int));
                assert(fresh(s0@, old(self).default_trigger()));
            }
        }
        r
    }
}

} // verus!
