use vstd::prelude::*;

use crate::queue::{Notification, Op, TrackQueue};
use crate::track::Track;

verus! {

/// Why a registry operation could not be carried out.
#[derive(Clone, Copy, PartialEq, Eq, Structural, Debug)]
pub enum SessionError {
    /// A create raced with an existing session: the caller should observe
    /// the winner's session instead of making a duplicate.
    AlreadyJoined,
    /// The guild has no live session to act on.
    NotJoined,
}

/// Why a per-guild playback command could not be carried out.
#[derive(Clone, Copy, PartialEq, Eq, Structural, Debug)]
pub enum CommandError {
    /// The guild has no live session.
    NotJoined,
    /// The session exists but its queue has no current track.
    NothingPlaying,
}

/// The bot's attachment to one guild: its identity and its track queue.
pub struct GuildSession {
    pub guild: u64,
    pub queue: TrackQueue,
}

/// Whether some session in `s` belongs to guild `g`.
pub open spec fn has_guild(s: Seq<GuildSession>, g: u64) -> bool {
    exists|i: int| 0 <= i < s.len() && (#[trigger] s[i]).guild == g
}

/// The index of guild `g`'s session in `s`; meaningful only when
/// [`has_guild`] holds, and unambiguous only under [`unique_guilds`].
pub open spec fn guild_index(s: Seq<GuildSession>, g: u64) -> int {
    choose|i: int| 0 <= i < s.len() && (#[trigger] s[i]).guild == g
}

/// The session of guild `g` in `s`.
pub open spec fn session_of(s: Seq<GuildSession>, g: u64) -> GuildSession {
    s[guild_index(s, g)]
}

/// No two sessions in `s` belong to the same guild.
pub open spec fn unique_guilds(s: Seq<GuildSession>) -> bool {
    forall|i: int, j: int|
        0 <= i < j < s.len() ==> (#[trigger] s[i]).guild != (#[trigger] s[j]).guild
}

/// How many sessions in `s` belong to guild `g`.
pub open spec fn count_guild(s: Seq<GuildSession>, g: u64) -> nat
    decreases s.len(),
{
    if s.len() == 0 {
        0
    } else {
        count_guild(s.drop_last(), g) + if s.last().guild == g {
            1nat
        } else {
            0nat
        }
    }
}

/// Under [`unique_guilds`] the witness index of a guild is unique, so
/// [`guild_index`] names exactly the index where the guild was found.
pub proof fn lemma_guild_index(s: Seq<GuildSession>, i: int, g: u64)
    requires
        unique_guilds(s),
        0 <= i < s.len(),
        s[i].guild == g,
    ensures
        has_guild(s, g),
        guild_index(s, g) == i,
        session_of(s, g) == s[i],
{
    assert(has_guild(s, g));
    let j = guild_index(s, g);
    assert(0 <= j < s.len() && s[j].guild == g);
    if i < j {
        assert(s[i].guild != s[j].guild);
    } else if j < i {
        assert(s[j].guild != s[i].guild);
    }
}

/// Removing the session at index `i` keeps the remaining guilds unique and
/// untouched, and leaves no session for the removed guild.
pub proof fn lemma_remove_guild(s: Seq<GuildSession>, i: int)
    requires
        unique_guilds(s),
        0 <= i < s.len(),
    ensures
        unique_guilds(s.remove(i)),
        !has_guild(s.remove(i), s[i].guild),
        forall|h: u64| h != s[i].guild ==> (has_guild(s.remove(i), h) <==> has_guild(s, h)),
        forall|h: u64|
            h != s[i].guild && has_guild(s, h) ==> session_of(s.remove(i), h) == session_of(s, h),
{
    let t = s.remove(i);
    assert forall|h: u64| h != s[i].guild implies (has_guild(t, h) <==> has_guild(s, h)) by {
        if has_guild(t, h) {
            let k = choose|k: int| 0 <= k < t.len() && (#[trigger] t[k]).guild == h;
            let m = if k < i {
                k
            } else {
                k + 1
            };
            assert(s[m].guild == h);
        }
        if has_guild(s, h) {
            let m = choose|m: int| 0 <= m < s.len() && (#[trigger] s[m]).guild == h;
            let k = if m < i {
                m
            } else {
                m - 1
            };
            assert(t[k].guild == h);
        }
    }
    assert forall|h: u64| h != s[i].guild && has_guild(s, h) implies session_of(t, h)
        == session_of(s, h) by {
        let m = guild_index(s, h);
        assert(0 <= m < s.len() && s[m].guild == h);
        lemma_guild_index(s, m, h);
        let k = if m < i {
            m
        } else {
            m - 1
        };
        assert(t[k] == s[m]);
        assert forall|a: int, b: int|
            0 <= a < b < t.len() implies (#[trigger] t[a]).guild != (#[trigger] t[b]).guild by {
            let a0 = if a < i {
                a
            } else {
                a + 1
            };
            let b0 = if b < i {
                b
            } else {
                b + 1
            };
            assert(t[a] == s[a0] && t[b] == s[b0]);
        }
        lemma_guild_index(t, k, h);
    }
    assert forall|a: int, b: int|
        0 <= a < b < t.len() implies (#[trigger] t[a]).guild != (#[trigger] t[b]).guild by {
        let a0 = if a < i {
            a
        } else {
            a + 1
        };
        let b0 = if b < i {
            b
        } else {
            b + 1
        };
        assert(t[a] == s[a0] && t[b] == s[b0]);
    }
    if has_guild(t, s[i].guild) {
        let k = choose|k: int| 0 <= k < t.len() && (#[trigger] t[k]).guild == s[i].guild;
        let m = if k < i {
            k
        } else {
            k + 1
        };
        assert(s[m].guild == s[i].guild);
        if m < i {
            assert(s[m].guild != s[i].guild);
        } else {
            assert(s[i].guild != s[m].guild);
        }
    }
}

/// Appending a session for a guild not yet present keeps the guilds unique
/// and the existing sessions untouched.
pub proof fn lemma_push_guild(s: Seq<GuildSession>, sess: GuildSession)
    requires
        unique_guilds(s),
        !has_guild(s, sess.guild),
    ensures
        unique_guilds(s.push(sess)),
        has_guild(s.push(sess), sess.guild),
        session_of(s.push(sess), sess.guild) == sess,
        forall|h: u64| h != sess.guild ==> (has_guild(s.push(sess), h) <==> has_guild(s, h)),
        forall|h: u64|
            h != sess.guild && has_guild(s, h) ==> session_of(s.push(sess), h) == session_of(s, h),
{
    let t = s.push(sess);
    assert forall|a: int, b: int|
        0 <= a < b < t.len() implies (#[trigger] t[a]).guild != (#[trigger] t[b]).guild by {
        if b < s.len() {
            assert(t[a] == s[a] && t[b] == s[b]);
        } else {
            assert(t[b] == sess);
            assert(t[a] == s[a]);
            if s[a].guild == sess.guild {
                assert(has_guild(s, sess.guild));
            }
        }
    }
    assert(t[s.len() as int] == sess);
    lemma_guild_index(t, s.len() as int, sess.guild);
    assert forall|h: u64| h != sess.guild implies (has_guild(t, h) <==> has_guild(s, h)) by {
        if has_guild(t, h) {
            let k = choose|k: int| 0 <= k < t.len() && (#[trigger] t[k]).guild == h;
            assert(k < s.len());
            assert(s[k].guild == h);
        }
        if has_guild(s, h) {
            let m = choose|m: int| 0 <= m < s.len() && (#[trigger] s[m]).guild == h;
            assert(t[m].guild == h);
        }
    }
    assert forall|h: u64| h != sess.guild && has_guild(s, h) implies session_of(t, h)
        == session_of(s, h) by {
        let m = guild_index(s, h);
        assert(0 <= m < s.len() && s[m].guild == h);
        lemma_guild_index(s, m, h);
        assert(t[m] == s[m]);
        lemma_guild_index(t, m, h);
    }
}

/// Under [`unique_guilds`], a guild has exactly one session when present and
/// none otherwise.
pub proof fn lemma_count_guild_unique(s: Seq<GuildSession>, g: u64)
    requires
        unique_guilds(s),
    ensures
        count_guild(s, g) <= 1,
        count_guild(s, g) == 1 <==> has_guild(s, g),
    decreases s.len(),
{
    if s.len() == 0 {
        if has_guild(s, g) {
            let i = choose|i: int| 0 <= i < s.len() && (#[trigger] s[i]).guild == g;
        }
    } else {
        let t = s.drop_last();
        assert forall|a: int, b: int|
            0 <= a < b < t.len() implies (#[trigger] t[a]).guild != (#[trigger] t[b]).guild by {
            assert(t[a] == s[a] && t[b] == s[b]);
        }
        lemma_count_guild_unique(t, g);
        if s.last().guild == g {
            if has_guild(t, g) {
                let i = choose|i: int| 0 <= i < t.len() && (#[trigger] t[i]).guild == g;
                assert(s[i].guild == g);
                assert(s[i].guild != s[s.len() - 1].guild);
            }
            assert(count_guild(t, g) == 0);
            assert(s[s.len() - 1].guild == g);
            assert(has_guild(s, g));
        } else {
            if has_guild(s, g) {
                let i = choose|i: int| 0 <= i < s.len() && (#[trigger] s[i]).guild == g;
                assert(i < s.len() - 1);
                assert(t[i].guild == g);
                assert(has_guild(t, g));
            }
            if has_guild(t, g) {
                let i = choose|i: int| 0 <= i < t.len() && (#[trigger] t[i]).guild == g;
                assert(s[i].guild == g);
                assert(has_guild(s, g));
            }
        }
    }
}

/// The per-process registry of live guild sessions.
///
/// It owns every [`GuildSession`] and guarantees at most one session per
/// guild: every operation preserves [`SessionRegistry::wf`], which callers
/// establish once through [`SessionRegistry::new`].
pub struct SessionRegistry {
    sessions: Vec<GuildSession>,
}

impl SessionRegistry {
    /// The sessions it holds, in insertion order.
    pub closed spec fn sessions_seq(self) -> Seq<GuildSession> {
        self.sessions@
    }

    /// Well-formedness: no guild appears twice.
    pub open spec fn wf(self) -> bool {
        unique_guilds(self.sessions_seq())
    }

    /// Whether guild `g` has a live session.
    pub open spec fn contains_guild(self, g: u64) -> bool {
        has_guild(self.sessions_seq(), g)
    }

    /// The set of guilds with a live session.
    pub open spec fn guild_set(self) -> Set<u64> {
        Set::new(|g: u64| self.contains_guild(g))
    }

    /// The queue contents of guild `g`'s session.
    pub open spec fn queue_of(self, g: u64) -> Seq<Track> {
        session_of(self.sessions_seq(), g).queue@
    }

    /// Whether guild `g`'s session has playback paused.
    pub open spec fn paused_of(self, g: u64) -> bool {
        session_of(self.sessions_seq(), g).queue.is_paused()
    }

    /// How many live sessions guild `g` has.
    pub open spec fn session_count_for(self, g: u64) -> nat {
        count_guild(self.sessions_seq(), g)
    }

    /// An empty registry.
    pub fn new() -> (r: SessionRegistry)
        ensures
            r.wf(),
            r.sessions_seq() == Seq::<GuildSession>::empty(),
            forall|g: u64| !r.contains_guild(g),
    {
        let r = SessionRegistry { sessions: Vec::new() };
        proof {
            assert forall|g: u64| !r.contains_guild(g) by {
                if has_guild(r.sessions@, g) {
                    let i = choose|i: int|
                        0 <= i < r.sessions@.len() && (#[trigger] r.sessions@[i]).guild == g;
                }
            }
        }
        r
    }

    /// How many sessions are live in all.
    pub fn session_count(&self) -> (n: usize)
        ensures
            n == self.sessions_seq().len(),
    {
        self.sessions.len()
    }

    fn find(&self, g: u64) -> (r: Option<usize>)
        ensures
            match r {
                Some(i) => i < self.sessions_seq().len() && self.sessions_seq()[i as int].guild
                    == g,
                None => !self.contains_guild(g),
            },
    {
        let mut i: usize = 0;
        while i < self.sessions.len()
            invariant
                i <= self.sessions@.len(),
                forall|j: int| 0 <= j < i ==> (#[trigger] self.sessions@[j]).guild != g,
            decreases self.sessions@.len() - i,
        {
            if self.sessions[i].guild == g {
                return Some(i);
            }
            i = i + 1;
        }
        proof {
            if has_guild(self.sessions@, g) {
                let j = choose|j: int|
                    0 <= j < self.sessions@.len() && (#[trigger] self.sessions@[j]).guild == g;
            }
        }
        None
    }

    /// Creates a fresh session for guild `g` with an empty queue.  When the
    /// guild already has one — a lost join race — nothing changes and the
    /// caller is pointed at the existing session.
    pub fn create(&mut self, g: u64) -> (r: Result<(), SessionError>)
        requires
            old(self).wf(),
        ensures
            final(self).wf(),
            old(self).contains_guild(g) ==> r == Result::<(), SessionError>::Err(
                SessionError::AlreadyJoined,
            ) && *final(self) == *old(self),
            !old(self).contains_guild(g) ==> r == Result::<(), SessionError>::Ok(())
                && final(self).contains_guild(g) && final(self).queue_of(g) == Seq::<
                Track,
            >::empty() && !final(self).paused_of(g) && final(self).guild_set() =~= old(self).guild_set().insert(g),
            forall|h: u64|
                h != g ==> (final(self).contains_guild(h) <==> old(self).contains_guild(h)),
            forall|h: u64|
                h != g && old(self).contains_guild(h) ==> final(self).queue_of(h) == old(self).queue_of(h) && final(self).paused_of(h) == old(self).paused_of(h),
    {
        match self.find(g) {
            Some(_) => {
                proof {
                    assert(old(self).contains_guild(g));
                }
                Err(SessionError::AlreadyJoined)
            },
            None => {
                let sess = GuildSession { guild: g, queue: TrackQueue::new() };
                proof {
                    lemma_push_guild(self.sessions@, sess);
                }
                self.sessions.push(sess);
                Ok(())
            },
        }
    }

    /// Non-blocking lookup of guild `g`'s session.
    pub fn get(&self, g: u64) -> (r: Option<&GuildSession>)
        requires
            self.wf(),
        ensures
            match r {
                Some(sess) => self.contains_guild(g) && sess.guild == g && sess.queue@
                    == self.queue_of(g),
                None => !self.contains_guild(g),
            },
    {
        match self.find(g) {
            Some(i) => {
                proof {
                    lemma_guild_index(self.sessions@, i as int, g);
                }
                Some(&self.sessions[i])
            },
            None => None,
        }
    }

    /// Removes and hands out guild `g`'s session so the caller can operate
    /// on its queue; [`SessionRegistry::put`] returns it.  While taken, the
    /// guild counts as having no session.
    pub fn take(&mut self, g: u64) -> (r: Option<GuildSession>)
        requires
            old(self).wf(),
        ensures
            final(self).wf(),
            match r {
                Some(sess) => old(self).contains_guild(g) && sess.guild == g && sess.queue@ == old(self).queue_of(g) && sess.queue.is_paused() == old(self).paused_of(g) && !final(self).contains_guild(g) && final(self).guild_set() =~= old(self).guild_set().remove(g),
                None => !old(self).contains_guild(g) && *final(self) == *old(self),
            },
            forall|h: u64|
                h != g ==> (final(self).contains_guild(h) <==> old(self).contains_guild(h)),
            forall|h: u64|
                h != g && old(self).contains_guild(h) ==> final(self).queue_of(h) == old(self).queue_of(h) && final(self).paused_of(h) == old(self).paused_of(h),
    {
        match self.find(g) {
            Some(i) => {
                proof {
                    lemma_guild_index(self.sessions@, i as int, g);
                    lemma_remove_guild(self.sessions@, i as int);
                }
                let sess = self.sessions.remove(i);
                Some(sess)
            },
            None => None,
        }
    }

    /// Returns a session taken with [`SessionRegistry::take`].  When the
    /// guild meanwhile acquired a session — a lost race — nothing changes
    /// and the returned session is dropped with the error.
    pub fn put(&mut self, sess: GuildSession) -> (r: Result<(), SessionError>)
        requires
            old(self).wf(),
        ensures
            final(self).wf(),
            old(self).contains_guild(sess.guild) ==> r == Result::<(), SessionError>::Err(
                SessionError::AlreadyJoined,
            ) && *final(self) == *old(self),
            !old(self).contains_guild(sess.guild) ==> r == Result::<(), SessionError>::Ok(())
                && final(self).contains_guild(sess.guild) && final(self).queue_of(sess.guild)
                == sess.queue@ && final(self).paused_of(sess.guild) == sess.queue.is_paused()
                && final(self).guild_set() =~= old(self).guild_set().insert(sess.guild),
            forall|h: u64|
                h != sess.guild ==> (final(self).contains_guild(h) <==> old(self).contains_guild(
                    h,
                )),
            forall|h: u64|
                h != sess.guild && old(self).contains_guild(h) ==> final(self).queue_of(h) == old(self).queue_of(h) && final(self).paused_of(h) == old(self).paused_of(h),
    {
        match self.find(sess.guild) {
            Some(_) => Err(SessionError::AlreadyJoined),
            None => {
                proof {
                    lemma_push_guild(self.sessions@, sess);
                }
                self.sessions.push(sess);
                Ok(())
            },
        }
    }

    /// Appends a resolved track to guild `g`'s queue, reporting its
    /// one-based position; without a live session nothing changes.
    pub fn enqueue_in(&mut self, g: u64, t: Track) -> (r: Result<usize, CommandError>)
        requires
            old(self).wf(),
        ensures
            final(self).wf(),
            final(self).guild_set() =~= old(self).guild_set(),
            !old(self).contains_guild(g) ==> r == Result::<usize, CommandError>::Err(
                CommandError::NotJoined,
            ) && *final(self) == *old(self),
            old(self).contains_guild(g) ==> r == Result::<usize, CommandError>::Ok(
                (old(self).queue_of(g).len() + 1) as usize,
            ) && final(self).contains_guild(g) && final(self).queue_of(g) == old(self).queue_of(
                g,
            ).push(t) && final(self).paused_of(g) == old(self).paused_of(g),
            forall|h: u64|
                h != g ==> (final(self).contains_guild(h) <==> old(self).contains_guild(h)),
            forall|h: u64|
                h != g && old(self).contains_guild(h) ==> final(self).queue_of(h) == old(self).queue_of(h) && final(self).paused_of(h) == old(self).paused_of(h),
    {
        match self.take(g) {
            None => Err(CommandError::NotJoined),
            Some(mut sess) => {
                let pos = sess.queue.enqueue(t);
                let _ = self.put(sess);
                proof {
                    assert(old(self).guild_set().remove(g).insert(g) =~= old(self).guild_set());
                }
                Ok(pos)
            },
        }
    }

    /// Pauses or resumes guild `g`'s current track; cleanly reports when no
    /// session or no current track exists.
    pub fn play_pause_in(&mut self, g: u64, op: Op) -> (r: Result<(), CommandError>)
        requires
            old(self).wf(),
        ensures
            final(self).wf(),
            final(self).guild_set() =~= old(self).guild_set(),
            !old(self).contains_guild(g) ==> r == Result::<(), CommandError>::Err(
                CommandError::NotJoined,
            ) && *final(self) == *old(self),
            old(self).contains_guild(g) ==> final(self).contains_guild(g) && final(self).queue_of(
                g,
            ) == old(self).queue_of(g),
            old(self).contains_guild(g) && old(self).queue_of(g).len() == 0 ==> r == Result::<
                (),
                CommandError,
            >::Err(CommandError::NothingPlaying) && final(self).paused_of(g) == old(self).paused_of(g),
            old(self).contains_guild(g) && old(self).queue_of(g).len() > 0 ==> r == Result::<
                (),
                CommandError,
            >::Ok(()) && final(self).paused_of(g) == (op is Pause),
            forall|h: u64|
                h != g ==> (final(self).contains_guild(h) <==> old(self).contains_guild(h)),
            forall|h: u64|
                h != g && old(self).contains_guild(h) ==> final(self).queue_of(h) == old(self).queue_of(h) && final(self).paused_of(h) == old(self).paused_of(h),
    {
        match self.take(g) {
            None => Err(CommandError::NotJoined),
            Some(mut sess) => {
                let r = match sess.queue.play_pause(op) {
                    Ok(()) => Ok(()),
                    Err(_) => Err(CommandError::NothingPlaying),
                };
                let _ = self.put(sess);
                proof {
                    assert(old(self).guild_set().remove(g).insert(g) =~= old(self).guild_set());
                }
                r
            },
        }
    }

    /// Skips guild `g`'s current track; cleanly reports when no session or
    /// no current track exists.
    pub fn skip_in(&mut self, g: u64) -> (r: Result<(), CommandError>)
        requires
            old(self).wf(),
        ensures
            final(self).wf(),
            final(self).guild_set() =~= old(self).guild_set(),
            !old(self).contains_guild(g) ==> r == Result::<(), CommandError>::Err(
                CommandError::NotJoined,
            ) && *final(self) == *old(self),
            old(self).contains_guild(g) ==> final(self).contains_guild(g) && final(self).paused_of(g) == old(self).paused_of(g),
            old(self).contains_guild(g) && old(self).queue_of(g).len() == 0 ==> r == Result::<
                (),
                CommandError,
            >::Err(CommandError::NothingPlaying) && final(self).queue_of(g) == old(self).queue_of(
                g,
            ),
            old(self).contains_guild(g) && old(self).queue_of(g).len() > 0 ==> r == Result::<
                (),
                CommandError,
            >::Ok(()) && final(self).queue_of(g) == old(self).queue_of(g).skip(1),
            forall|h: u64|
                h != g ==> (final(self).contains_guild(h) <==> old(self).contains_guild(h)),
            forall|h: u64|
                h != g && old(self).contains_guild(h) ==> final(self).queue_of(h) == old(self).queue_of(h) && final(self).paused_of(h) == old(self).paused_of(h),
    {
        match self.take(g) {
            None => Err(CommandError::NotJoined),
            Some(mut sess) => {
                let r = match sess.queue.skip() {
                    Ok(()) => Ok(()),
                    Err(_) => Err(CommandError::NothingPlaying),
                };
                let _ = self.put(sess);
                proof {
                    assert(old(self).guild_set().remove(g).insert(g) =~= old(self).guild_set());
                }
                r
            },
        }
    }

    /// Clears guild `g`'s entire queue; cleanly reports when no session or
    /// no current track exists.
    pub fn stop_in(&mut self, g: u64) -> (r: Result<(), CommandError>)
        requires
            old(self).wf(),
        ensures
            final(self).wf(),
            final(self).guild_set() =~= old(self).guild_set(),
            !old(self).contains_guild(g) ==> r == Result::<(), CommandError>::Err(
                CommandError::NotJoined,
            ) && *final(self) == *old(self),
            old(self).contains_guild(g) ==> final(self).contains_guild(g) && final(self).paused_of(g) == old(self).paused_of(g),
            old(self).contains_guild(g) && old(self).queue_of(g).len() == 0 ==> r == Result::<
                (),
                CommandError,
            >::Err(CommandError::NothingPlaying) && final(self).queue_of(g) == old(self).queue_of(
                g,
            ),
            old(self).contains_guild(g) && old(self).queue_of(g).len() > 0 ==> r == Result::<
                (),
                CommandError,
            >::Ok(()) && final(self).queue_of(g) == Seq::<Track>::empty(),
            forall|h: u64|
                h != g ==> (final(self).contains_guild(h) <==> old(self).contains_guild(h)),
            forall|h: u64|
                h != g && old(self).contains_guild(h) ==> final(self).queue_of(h) == old(self).queue_of(h) && final(self).paused_of(h) == old(self).paused_of(h),
    {
        match self.take(g) {
            None => Err(CommandError::NotJoined),
            Some(mut sess) => {
                let r = match sess.queue.stop() {
                    Ok(()) => Ok(()),
                    Err(_) => Err(CommandError::NothingPlaying),
                };
                let _ = self.put(sess);
                proof {
                    assert(old(self).guild_set().remove(g).insert(g) =~= old(self).guild_set());
                }
                r
            },
        }
    }

    /// Applies the playback-finished reaction to guild `g`'s queue: the
    /// head is popped and the notification to announce comes back.  The
    /// whole reaction happens under one exclusive borrow of the registry,
    /// so no later command observes the queue before the pop landed.
    pub fn finish_track_in(&mut self, g: u64) -> (r: Option<Notification>)
        requires
            old(self).wf(),
        ensures
            final(self).wf(),
            final(self).guild_set() =~= old(self).guild_set(),
            !old(self).contains_guild(g) ==> r is None && *final(self) == *old(self),
            old(self).contains_guild(g) ==> r is Some && final(self).contains_guild(g) && final(self).paused_of(g) == old(self).paused_of(g),
            old(self).contains_guild(g) && old(self).queue_of(g).len() == 0 ==> final(self).queue_of(g) == old(self).queue_of(g) && r == Some(Notification::QueueEmpty),
            old(self).contains_guild(g) && old(self).queue_of(g).len() > 0 ==> final(self).queue_of(g) == old(self).queue_of(g).skip(1),
            old(self).contains_guild(g) && old(self).queue_of(g).len() == 1 ==> r == Some(
                Notification::QueueEmpty,
            ),
            old(self).contains_guild(g) && old(self).queue_of(g).len() > 1 ==> r == Some(
                Notification::NowPlaying(old(self).queue_of(g)[1]),
            ),
            forall|h: u64|
                h != g ==> (final(self).contains_guild(h) <==> old(self).contains_guild(h)),
            forall|h: u64|
                h != g && old(self).contains_guild(h) ==> final(self).queue_of(h) == old(self).queue_of(h) && final(self).paused_of(h) == old(self).paused_of(h),
    {
        match self.take(g) {
            None => None,
            Some(mut sess) => {
                let n = sess.queue.on_track_finished();
                let _ = self.put(sess);
                proof {
                    assert(old(self).guild_set().remove(g).insert(g) =~= old(self).guild_set());
                }
                Some(n)
            },
        }
    }

    /// Detaches and removes guild `g`'s session.  A second call for the
    /// same guild cleanly reports [`SessionError::NotJoined`].
    pub fn destroy(&mut self, g: u64) -> (r: Result<(), SessionError>)
        requires
            old(self).wf(),
        ensures
            final(self).wf(),
            r == spec_destroy(old(self).guild_set(), g).1,
            final(self).guild_set() =~= spec_destroy(old(self).guild_set(), g).0,
            !old(self).contains_guild(g) ==> *final(self) == *old(self),
            !final(self).contains_guild(g),
            forall|h: u64|
                h != g ==> (final(self).contains_guild(h) <==> old(self).contains_guild(h)),
            forall|h: u64|
                h != g && old(self).contains_guild(h) ==> final(self).queue_of(h) == old(self).queue_of(h) && final(self).paused_of(h) == old(self).paused_of(h),
    {
        match self.find(g) {
            Some(i) => {
                proof {
                    lemma_guild_index(self.sessions@, i as int, g);
                    lemma_remove_guild(self.sessions@, i as int);
                }
                self.sessions.remove(i);
                Ok(())
            },
            None => Err(SessionError::NotJoined),
        }
    }
}

/// The effect of destroying guild `g`'s session on the set of live guilds,
/// and the reported outcome.
pub open spec fn spec_destroy(guilds: Set<u64>, g: u64) -> (Set<u64>, Result<(), SessionError>) {
    if guilds.contains(g) {
        (guilds.remove(g), Result::<(), SessionError>::Ok(()))
    } else {
        (guilds, Result::<(), SessionError>::Err(SessionError::NotJoined))
    }
}

/// The effect of creating a session for guild `g` on the set of live
/// guilds, and the reported outcome.
pub open spec fn spec_create(guilds: Set<u64>, g: u64) -> (Set<u64>, Result<(), SessionError>) {
    if guilds.contains(g) {
        (guilds, Result::<(), SessionError>::Err(SessionError::AlreadyJoined))
    } else {
        (guilds.insert(g), Result::<(), SessionError>::Ok(()))
    }
}

/// Single-session law: a well-formed registry holds at most one session per
/// guild — exactly one when the guild is present at all.
pub proof fn lemma_single_session(r: SessionRegistry, g: u64)
    requires
        r.wf(),
    ensures
        r.session_count_for(g) <= 1,
        r.session_count_for(g) == 1 <==> r.contains_guild(g),
{
    lemma_count_guild_unique(r.sessions_seq(), g);
}

/// Join-race law: of two create calls for the same guild, serialized in
/// either order, the first wins and the second observes the existing
/// session through [`SessionError::AlreadyJoined`], leaving it intact.
pub proof fn lemma_join_race(guilds: Set<u64>, g: u64)
    requires
        !guilds.contains(g),
    ensures
        ({
            let (after1, r1) = spec_create(guilds, g);
            let (after2, r2) = spec_create(after1, g);
            r1 == Result::<(), SessionError>::Ok(()) && after1.contains(g) && r2 == Result::<
                (),
                SessionError,
            >::Err(SessionError::AlreadyJoined) && after2 == after1
        }),
{
}

/// Idempotent-leave law: destroying a guild's session twice in sequence
/// succeeds the first time exactly when a session exists, and the second
/// call reports [`SessionError::NotJoined`] without touching anything.
pub proof fn lemma_destroy_idempotent(guilds: Set<u64>, g: u64)
    ensures
        ({
            let (after1, r1) = spec_destroy(guilds, g);
            let (after2, r2) = spec_destroy(after1, g);
            (guilds.contains(g) ==> r1 == Result::<(), SessionError>::Ok(())) && !after1.contains(
                g,
            ) && r2 == Result::<(), SessionError>::Err(SessionError::NotJoined) && after2 == after1
        }),
{
}

} // verus!
