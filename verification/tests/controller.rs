use jukebox::queue::{Notification, Op, QueueError, TrackQueue};
use jukebox::registry::{CommandError, SessionError, SessionRegistry};
use jukebox::router::{
    ack_is_ephemeral, route, validate_join_target, ChannelKind, ChannelOption, Command, JoinError,
};
use jukebox::track::{duration_format, Track};
use jukebox::vote::{
    confirm_outcome, eligible_voters, Choice, ConfirmReply, Outcome, VoteSession, VoteState,
};

fn track(title: &str) -> Track {
    Track {
        title: Some(title.to_string()),
        source_url: Some(format!("https://example.invalid/{}", title)),
        duration_secs: Some(180),
        thumbnail: None,
    }
}

#[test]
fn single_session_per_guild() {
    let mut reg = SessionRegistry::new();
    assert!(matches!(reg.create(7), Ok(())));
    assert!(matches!(reg.create(7), Err(SessionError::AlreadyJoined)));
    assert_eq!(reg.session_count(), 1);
    assert!(reg.get(7).is_some());
    assert!(matches!(reg.create(8), Ok(())));
    assert_eq!(reg.session_count(), 2);
}

#[test]
fn idempotent_leave() {
    let mut reg = SessionRegistry::new();
    reg.create(7).unwrap();
    assert!(matches!(reg.destroy(7), Ok(())));
    assert!(matches!(reg.destroy(7), Err(SessionError::NotJoined)));
    assert_eq!(reg.session_count(), 0);
}

#[test]
fn take_and_put_round_trip() {
    let mut reg = SessionRegistry::new();
    reg.create(7).unwrap();
    let mut sess = reg.take(7).expect("session was just created");
    assert_eq!(sess.guild, 7);
    sess.queue.enqueue(track("a"));
    assert!(matches!(reg.put(sess), Ok(())));
    let got = reg.get(7).expect("session was put back");
    assert_eq!(got.queue.list().len(), 1);
    assert!(reg.take(99).is_none());
}

#[test]
fn queue_fifo_order() {
    let mut q = TrackQueue::new();
    assert_eq!(q.enqueue(track("one")), 1);
    assert_eq!(q.enqueue(track("two")), 2);
    assert_eq!(q.enqueue(track("three")), 3);
    let listed = q.list();
    let titles: Vec<&str> = listed.iter().map(|t| t.title.as_deref().unwrap()).collect();
    assert_eq!(titles, ["one", "two", "three"]);
    assert_eq!(q.now_playing().unwrap().title.as_deref(), Some("one"));
    assert_eq!(q.len(), 3);
}

#[test]
fn finished_event_pops_head_and_announces_next() {
    let mut q = TrackQueue::new();
    q.enqueue(track("one"));
    q.enqueue(track("two"));
    match q.on_track_finished() {
        Notification::NowPlaying(t) => assert_eq!(t.title.as_deref(), Some("two")),
        Notification::QueueEmpty => panic!("a next track exists"),
    }
    assert_eq!(q.len(), 1);
    assert_eq!(q.now_playing().unwrap().title.as_deref(), Some("two"));
}

#[test]
fn finished_event_on_last_track_reports_empty() {
    let mut q = TrackQueue::new();
    q.enqueue(track("only"));
    assert!(matches!(q.on_track_finished(), Notification::QueueEmpty));
    assert_eq!(q.len(), 0);
    assert!(matches!(q.on_track_finished(), Notification::QueueEmpty));
    assert_eq!(q.len(), 0);
}

#[test]
fn pause_resume_need_a_current_track() {
    let mut q = TrackQueue::new();
    assert!(matches!(q.pause(), Err(QueueError::NothingPlaying)));
    assert!(matches!(q.resume(), Err(QueueError::NothingPlaying)));
    q.enqueue(track("one"));
    assert!(matches!(q.play_pause(Op::Pause), Ok(())));
    assert!(matches!(q.play_pause(Op::Resume), Ok(())));
}

#[test]
fn skip_drops_only_the_head() {
    let mut q = TrackQueue::new();
    assert!(matches!(q.skip(), Err(QueueError::NothingPlaying)));
    q.enqueue(track("one"));
    q.enqueue(track("two"));
    assert!(matches!(q.skip(), Ok(())));
    assert_eq!(q.len(), 1);
    assert_eq!(q.now_playing().unwrap().title.as_deref(), Some("two"));
}

#[test]
fn stop_clears_everything() {
    let mut q = TrackQueue::new();
    assert!(matches!(q.stop(), Err(QueueError::NothingPlaying)));
    q.enqueue(track("one"));
    q.enqueue(track("two"));
    assert!(matches!(q.stop(), Ok(())));
    assert_eq!(q.len(), 0);
    assert!(q.now_playing().is_none());
}

#[test]
fn front_truncates_to_the_display_limit() {
    let mut q = TrackQueue::new();
    for i in 0..12 {
        q.enqueue(track(&format!("t{}", i)));
    }
    assert_eq!(q.front(10).len(), 10);
    assert_eq!(q.front(10)[0].title.as_deref(), Some("t0"));
    assert_eq!(q.front(10)[9].title.as_deref(), Some("t9"));
    let mut short = TrackQueue::new();
    short.enqueue(track("a"));
    assert_eq!(short.front(10).len(), 1);
}

#[test]
fn vote_tally_counts_latest_ballot_only() {
    // Repeated ballots from one voter overwrite; no double-count.
    let mut s = VoteSession::new(1, vec![1, 2, 3]);
    assert_eq!(s.state(), VoteState::Collecting);
    assert_eq!(s.tally(), (1, 0));
    assert!(s.cast(2, Choice::Reject));
    assert_eq!(s.tally(), (1, 1));
    assert!(s.cast(2, Choice::Approve));
    assert_eq!(s.tally(), (2, 0));
    assert!(s.cast(2, Choice::Approve));
    assert_eq!(s.tally(), (2, 0));
    assert!(s.cast(3, Choice::Reject));
    assert_eq!(s.tally(), (2, 1));
    let approvers = s.approver_roster();
    assert_eq!(approvers.len(), 2);
    assert!(approvers.contains(&1) && approvers.contains(&2));
    assert_eq!(s.rejecter_roster(), vec![3]);
}

#[test]
fn fast_path_with_empty_eligible_set() {
    let s = VoteSession::new(1, vec![]);
    assert_eq!(s.state(), VoteState::Resolved(Outcome::Approved));
}

#[test]
fn fast_path_with_only_the_initiator() {
    let s = VoteSession::new(1, vec![1]);
    assert_eq!(s.state(), VoteState::Resolved(Outcome::Approved));
    let mut t = VoteSession::new(1, vec![1, 1]);
    assert_eq!(t.state(), VoteState::Resolved(Outcome::Approved));
    // Terminal: a later ballot is not accepted and resolution stands.
    assert!(!t.cast(1, Choice::Reject));
    assert_eq!(t.resolve_at_deadline(), Outcome::Approved);
}

#[test]
fn deadline_majority_approves() {
    // Eligible {A,B,C}, initiator A auto-approves, B approves, C silent:
    // 2 approve vs 0 reject at the deadline.
    let mut s = VoteSession::new(1, vec![1, 2, 3]);
    assert_eq!(s.state(), VoteState::Collecting);
    assert!(s.cast(2, Choice::Approve));
    assert_eq!(s.tally(), (2, 0));
    assert_eq!(s.resolve_at_deadline(), Outcome::Approved);
    assert_eq!(s.state(), VoteState::Resolved(Outcome::Approved));
}

#[test]
fn tie_resolves_to_rejected() {
    // Eligible {A,B}, initiator A auto-approves, B rejects: 1 vs 1 is a tie
    // and ties favor rejection.
    let mut s = VoteSession::new(1, vec![1, 2]);
    assert!(s.cast(2, Choice::Reject));
    assert_eq!(s.tally(), (1, 1));
    assert_eq!(s.resolve_at_deadline(), Outcome::Rejected);
}

#[test]
fn ineligible_ballot_is_ignored() {
    let mut s = VoteSession::new(1, vec![1, 2]);
    let before = s.tally();
    assert!(!s.cast(99, Choice::Reject));
    assert_eq!(s.tally(), before);
    assert_eq!(s.state(), VoteState::Collecting);
}

#[test]
fn eligible_voters_screens_out_bots() {
    let members = vec![(1, false), (2, true), (3, false), (4, true)];
    let voters = eligible_voters(&members);
    assert_eq!(voters.len(), 2);
    assert!(voters.contains(&1) && voters.contains(&3));
}

#[test]
fn stop_confirmation_outcomes() {
    assert_eq!(confirm_outcome(Some(ConfirmReply::Proceed)), Outcome::Approved);
    assert_eq!(confirm_outcome(Some(ConfirmReply::Cancel)), Outcome::Rejected);
    assert_eq!(confirm_outcome(None), Outcome::NoQuorumExpired);
}

#[test]
fn route_dispatches_known_names() {
    assert_eq!(route("join"), Some(Command::Join));
    assert_eq!(route("leave"), Some(Command::Leave));
    assert_eq!(route("queue"), Some(Command::Queue));
    assert_eq!(route("pause"), Some(Command::Pause));
    assert_eq!(route("resume"), Some(Command::Resume));
    assert_eq!(route("skip"), Some(Command::Skip));
    assert_eq!(route("stop"), Some(Command::Stop));
    assert_eq!(route("list"), Some(Command::List));
    assert_eq!(route("dance"), None);
    assert_eq!(route(""), None);
}

#[test]
fn only_skip_acknowledges_publicly() {
    assert!(!ack_is_ephemeral(Command::Skip));
    assert!(ack_is_ephemeral(Command::Join));
    assert!(ack_is_ephemeral(Command::Stop));
    assert!(ack_is_ephemeral(Command::List));
}

#[test]
fn join_target_must_be_a_voice_channel() {
    assert_eq!(
        validate_join_target(ChannelOption::Channel(42, ChannelKind::Voice)),
        Ok(42)
    );
    assert_eq!(
        validate_join_target(ChannelOption::Channel(42, ChannelKind::Other)),
        Err(JoinError::MustBeVoiceChannel)
    );
    assert_eq!(
        validate_join_target(ChannelOption::NotAChannel),
        Err(JoinError::MustProvideChannel)
    );
}

#[test]
fn source_screening_requires_a_url() {
    assert!(jukebox::queue::source_is_fetchable("https://example.invalid/a"));
    assert!(jukebox::queue::source_is_fetchable("http://example.invalid/a"));
    assert!(jukebox::queue::source_is_fetchable("http"));
    assert!(!jukebox::queue::source_is_fetchable("htt"));
    assert!(!jukebox::queue::source_is_fetchable(""));
    assert!(!jukebox::queue::source_is_fetchable("file://x"));
}

#[test]
fn duration_rendering() {
    assert_eq!(duration_format(Some(3661)), "1h 1m 1s");
    assert_eq!(duration_format(Some(90)), "1m 30s");
    assert_eq!(duration_format(Some(45)), "45s");
    assert_eq!(duration_format(Some(0)), "Live");
    assert_eq!(duration_format(None), "Live");
}

#[test]
fn display_title_falls_back() {
    assert_eq!(track("one").display_title(), "one");
    let untitled = Track {
        title: None,
        source_url: None,
        duration_secs: None,
        thumbnail: None,
    };
    assert_eq!(untitled.display_title(), "Unknown title");
}

#[test]
fn commands_resolve_through_the_registry() {
    let mut reg = SessionRegistry::new();
    assert_eq!(reg.enqueue_in(7, track("a")), Err(CommandError::NotJoined));
    assert_eq!(reg.skip_in(7), Err(CommandError::NotJoined));
    reg.create(7).unwrap();
    assert_eq!(reg.enqueue_in(7, track("a")), Ok(1));
    assert_eq!(reg.enqueue_in(7, track("b")), Ok(2));
    assert_eq!(reg.play_pause_in(7, Op::Pause), Ok(()));
    assert_eq!(reg.play_pause_in(7, Op::Resume), Ok(()));
    assert_eq!(reg.skip_in(7), Ok(()));
    let listed = reg.get(7).unwrap().queue.list();
    assert_eq!(listed.len(), 1);
    assert_eq!(listed[0].title.as_deref(), Some("b"));
    assert_eq!(reg.stop_in(7), Ok(()));
    assert_eq!(reg.skip_in(7), Err(CommandError::NothingPlaying));
    assert_eq!(reg.play_pause_in(7, Op::Pause), Err(CommandError::NothingPlaying));
    // A command against one guild leaves another guild's queue alone.
    reg.create(8).unwrap();
    assert_eq!(reg.enqueue_in(8, track("c")), Ok(1));
    assert_eq!(reg.stop_in(7), Err(CommandError::NothingPlaying));
    assert_eq!(reg.get(8).unwrap().queue.list().len(), 1);
}

#[test]
fn finished_event_through_the_registry() {
    let mut reg = SessionRegistry::new();
    assert!(reg.finish_track_in(7).is_none());
    reg.create(7).unwrap();
    reg.enqueue_in(7, track("a")).unwrap();
    reg.enqueue_in(7, track("b")).unwrap();
    match reg.finish_track_in(7) {
        Some(Notification::NowPlaying(t)) => assert_eq!(t.title.as_deref(), Some("b")),
        other => panic!("expected the next track, got {:?}", other.is_some()),
    }
    assert!(matches!(
        reg.finish_track_in(7),
        Some(Notification::QueueEmpty)
    ));
    assert!(matches!(
        reg.finish_track_in(7),
        Some(Notification::QueueEmpty)
    ));
}
