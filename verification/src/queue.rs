use vstd::prelude::*;

use crate::track::Track;

verus! {

/// Why a queue operation could not be carried out.
#[derive(Clone, Copy, PartialEq, Eq, Structural, Debug)]
pub enum QueueError {
    /// The command needs a current track, but the queue is empty.
    NothingPlaying,
}

/// What the guild should be told after the playback engine reports that a
/// track finished.
pub enum Notification {
    /// A new head exists: announce it and show it as the bot's activity.
    NowPlaying(Track),
    /// Nothing is left to play: announce the empty queue and go idle.
    QueueEmpty,
}

/// Selector shared by the pause and resume commands.
#[derive(Clone, Copy, PartialEq, Eq, Structural, Debug)]
pub enum Op {
    Pause,
    Resume,
}

/// The FIFO track queue of one guild session.
///
/// The head of the sequence, when present, is the track now playing; the
/// reported length always counts it.  Insertion order is play order.
pub struct TrackQueue {
    tracks: Vec<Track>,
    paused: bool,
}

impl View for TrackQueue {
    type V = Seq<Track>;

    closed spec fn view(&self) -> Seq<Track> {
        self.tracks@
    }
}

impl TrackQueue {
    /// Whether playback is currently paused.
    pub closed spec fn is_paused(self) -> bool {
        self.paused
    }

    /// An empty queue with playback not paused.
    pub fn new() -> (q: TrackQueue)
        ensures
            q@ == Seq::<Track>::empty(),
            !q.is_paused(),
    {
        TrackQueue { tracks: Vec::new(), paused: false }
    }

    /// The pending count, including the now-playing head.
    pub fn len(&self) -> (n: usize)
        ensures
            n == self@.len(),
    {
        self.tracks.len()
    }

    /// Appends a resolved track at the tail and reports its one-based
    /// position, which equals the queue length after the append.
    pub fn enqueue(&mut self, t: Track) -> (pos: usize)
        ensures
            final(self)@ == old(self)@.push(t),
            pos == final(self)@.len(),
            final(self).is_paused() == old(self).is_paused(),
    {
        self.tracks.push(t);
        self.tracks.len()
    }

    /// The track now being played, if any: the head of the sequence.
    pub fn now_playing(&self) -> (r: Option<&Track>)
        ensures
            match r {
                Some(t) => self@.len() > 0 && *t == self@[0],
                None => self@.len() == 0,
            },
    {
        if self.tracks.len() > 0 {
            Some(&self.tracks[0])
        } else {
            None
        }
    }

    /// A read-only snapshot of the whole queue in play order.
    pub fn list(&self) -> (r: Vec<Track>)
        ensures
            r@ == self@,
    {
        let mut out: Vec<Track> = Vec::new();
        let mut i: usize = 0;
        while i < self.tracks.len()
            invariant
                i <= self.tracks.len(),
                out@ == self.tracks@.take(i as int),
            decreases self.tracks.len() - i,
        {
            out.push(self.tracks[i].clone());
            proof {
                assert(self.tracks@.take(i + 1 as int) =~= self.tracks@.take(i as int).push(
                    self.tracks@[i as int],
                ));
            }
            i = i + 1;
        }
        proof {
            assert(self.tracks@.take(self.tracks@.len() as int) =~= self.tracks@);
        }
        out
    }

    /// A snapshot of at most the first `limit` tracks, for display.
    pub fn front(&self, limit: usize) -> (r: Vec<Track>)
        ensures
            r@ == self@.take(if limit <= self@.len() {
                limit as int
            } else {
                self@.len() as int
            }),
    {
        let n: usize = if limit <= self.tracks.len() {
            limit
        } else {
            self.tracks.len()
        };
        let mut out: Vec<Track> = Vec::new();
        let mut i: usize = 0;
        while i < n
            invariant
                i <= n,
                n <= self.tracks.len(),
                out@ == self.tracks@.take(i as int),
            decreases n - i,
        {
            out.push(self.tracks[i].clone());
            proof {
                assert(self.tracks@.take(i + 1 as int) =~= self.tracks@.take(i as int).push(
                    self.tracks@[i as int],
                ));
            }
            i = i + 1;
        }
        out
    }

    /// Pauses the current track; fails when nothing is playing.
    pub fn pause(&mut self) -> (r: Result<(), QueueError>)
        ensures
            final(self)@ == old(self)@,
            old(self)@.len() == 0 ==> r == Result::<(), QueueError>::Err(
                QueueError::NothingPlaying,
            ) && final(self).is_paused() == old(self).is_paused(),
            old(self)@.len() > 0 ==> r == Result::<(), QueueError>::Ok(()) && final(self).is_paused(),
    {
        if self.tracks.len() == 0 {
            Err(QueueError::NothingPlaying)
        } else {
            self.paused = true;
            Ok(())
        }
    }

    /// Resumes the current track; fails when nothing is playing.
    pub fn resume(&mut self) -> (r: Result<(), QueueError>)
        ensures
            final(self)@ == old(self)@,
            old(self)@.len() == 0 ==> r == Result::<(), QueueError>::Err(
                QueueError::NothingPlaying,
            ) && final(self).is_paused() == old(self).is_paused(),
            old(self)@.len() > 0 ==> r == Result::<(), QueueError>::Ok(()) && !final(self).is_paused(),
    {
        if self.tracks.len() == 0 {
            Err(QueueError::NothingPlaying)
        } else {
            self.paused = false;
            Ok(())
        }
    }

    /// Dispatches the shared pause/resume command on its selector.
    pub fn play_pause(&mut self, op: Op) -> (r: Result<(), QueueError>)
        ensures
            final(self)@ == old(self)@,
            old(self)@.len() == 0 ==> r == Result::<(), QueueError>::Err(
                QueueError::NothingPlaying,
            ) && final(self).is_paused() == old(self).is_paused(),
            old(self)@.len() > 0 ==> r == Result::<(), QueueError>::Ok(()) && final(self).is_paused() == (op is Pause),
    {
        match op {
            Op::Pause => self.pause(),
            Op::Resume => self.resume(),
        }
    }

    /// Drops the head and moves on to the next track; fails when nothing is
    /// playing.
    pub fn skip(&mut self) -> (r: Result<(), QueueError>)
        ensures
            final(self).is_paused() == old(self).is_paused(),
            old(self)@.len() == 0 ==> r == Result::<(), QueueError>::Err(
                QueueError::NothingPlaying,
            ) && final(self)@ == old(self)@,
            old(self)@.len() > 0 ==> r == Result::<(), QueueError>::Ok(()) && final(self)@ == old(self)@.skip(1),
    {
        if self.tracks.len() == 0 {
            Err(QueueError::NothingPlaying)
        } else {
            self.tracks.remove(0);
            proof {
                assert(old(self)@.remove(0) =~= old(self)@.skip(1));
            }
            Ok(())
        }
    }

    /// Clears the entire pending sequence, head included; fails when nothing
    /// is playing.
    pub fn stop(&mut self) -> (r: Result<(), QueueError>)
        ensures
            final(self).is_paused() == old(self).is_paused(),
            old(self)@.len() == 0 ==> r == Result::<(), QueueError>::Err(
                QueueError::NothingPlaying,
            ) && final(self)@ == old(self)@,
            old(self)@.len() > 0 ==> r == Result::<(), QueueError>::Ok(()) && final(self)@
                == Seq::<Track>::empty(),
    {
        if self.tracks.len() == 0 {
            Err(QueueError::NothingPlaying)
        } else {
            self.tracks.clear();
            Ok(())
        }
    }

    /// Reaction to the playback engine's "track finished" event: the former
    /// head is popped, and the caller is told either the new head to announce
    /// or that the queue ran empty.
    pub fn on_track_finished(&mut self) -> (n: Notification)
        ensures
            final(self).is_paused() == old(self).is_paused(),
            old(self)@.len() == 0 ==> final(self)@ == old(self)@ && n is QueueEmpty,
            old(self)@.len() > 0 ==> final(self)@ == old(self)@.skip(1),
            old(self)@.len() == 1 ==> n is QueueEmpty,
            old(self)@.len() > 1 ==> n == Notification::NowPlaying(old(self)@[1]),
    {
        if self.tracks.len() == 0 {
            Notification::QueueEmpty
        } else {
            self.tracks.remove(0);
            proof {
                assert(old(self)@.remove(0) =~= old(self)@.skip(1));
            }
            if self.tracks.len() > 0 {
                Notification::NowPlaying(self.tracks[0].clone())
            } else {
                Notification::QueueEmpty
            }
        }
    }
}

/// Whether a user-supplied source string is recognizable as a fetchable
/// resource: it starts with `http`.  Anything else is rejected before any
/// resolution is attempted.
pub open spec fn spec_is_fetchable(s: Seq<char>) -> bool {
    s.len() >= 4 && s.subrange(0, 4) =~= "http"@
}

/// Screens a source string before handing it to the resolver.
pub fn source_is_fetchable(url: &str) -> (r: bool)
    ensures
        r == spec_is_fetchable(url@),
{
    proof {
        reveal_strlit("http");
    }
    if url.unicode_len() < 4 {
        return false;
    }
    let r = url.get_char(0) == 'h' && url.get_char(1) == 't' && url.get_char(2) == 't'
        && url.get_char(3) == 'p';
    proof {
        if r {
            assert(url@.subrange(0, 4) =~= "http"@);
        } else {
            if url@.subrange(0, 4) =~= "http"@ {
                assert(url@[0] == "http"@[0]);
                assert(url@[1] == "http"@[1]);
                assert(url@[2] == "http"@[2]);
                assert(url@[3] == "http"@[3]);
            }
        }
    }
    r
}

/// The queue contents after enqueueing the tracks of `ts` one after another
/// onto a queue holding `q`, with no intervening skip or stop.
pub open spec fn after_enqueues(q: Seq<Track>, ts: Seq<Track>) -> Seq<Track>
    decreases ts.len(),
{
    if ts.len() == 0 {
        q
    } else {
        after_enqueues(q.push(ts[0]), ts.skip(1))
    }
}

/// FIFO law: any sequence of enqueues, with no intervening skip or stop,
/// leaves the queue holding its old contents followed by the new tracks in
/// enqueue order.  Starting from the empty queue the snapshot is exactly the
/// enqueued sequence and the head is the first track enqueued.
pub proof fn lemma_queue_fifo(q: Seq<Track>, ts: Seq<Track>)
    ensures
        after_enqueues(q, ts) == q + ts,
        q.len() == 0 ==> after_enqueues(q, ts) == ts,
        q.len() == 0 && ts.len() > 0 ==> after_enqueues(q, ts)[0] == ts[0],
    decreases ts.len(),
{
    if ts.len() == 0 {
        assert(q + ts =~= q);
    } else {
        lemma_queue_fifo(q.push(ts[0]), ts.skip(1));
        assert(q.push(ts[0]) + ts.skip(1) =~= q + ts);
    }
    if q.len() == 0 {
        assert(q + ts =~= ts);
    }
}

} // verus!
