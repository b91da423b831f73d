use vstd::prelude::*;

verus! {

/// The user-facing commands the controller understands.
#[derive(Clone, Copy, PartialEq, Eq, Structural, Debug)]
pub enum Command {
    Join,
    Leave,
    Queue,
    Pause,
    Resume,
    Skip,
    Stop,
    List,
}

/// Which command a given command name dispatches to; `None` stands for the
/// generic not-implemented reply.
pub open spec fn spec_route(name: Seq<char>) -> Option<Command> {
    if name =~= "join"@ {
        Some(Command::Join)
    } else if name =~= "leave"@ {
        Some(Command::Leave)
    } else if name =~= "queue"@ {
        Some(Command::Queue)
    } else if name =~= "pause"@ {
        Some(Command::Pause)
    } else if name =~= "resume"@ {
        Some(Command::Resume)
    } else if name =~= "skip"@ {
        Some(Command::Skip)
    } else if name =~= "stop"@ {
        Some(Command::Stop)
    } else if name =~= "list"@ {
        Some(Command::List)
    } else {
        None
    }
}

fn str_eq(a: &str, b: &str) -> (r: bool)
    ensures
        r == (a@ == b@),
{
    let x = a.to_owned();
    let y = b.to_owned();
    x == y
}

/// Stateless dispatch from a command name to the command it names; an
/// unknown name yields `None`, for which the caller sends the generic
/// not-implemented reply.
pub fn route(name: &str) -> (r: Option<Command>)
    ensures
        r == spec_route(name@),
{
    if str_eq(name, "join") {
        Some(Command::Join)
    } else if str_eq(name, "leave") {
        Some(Command::Leave)
    } else if str_eq(name, "queue") {
        Some(Command::Queue)
    } else if str_eq(name, "pause") {
        Some(Command::Pause)
    } else if str_eq(name, "resume") {
        Some(Command::Resume)
    } else if str_eq(name, "skip") {
        Some(Command::Skip)
    } else if str_eq(name, "stop") {
        Some(Command::Stop)
    } else if str_eq(name, "list") {
        Some(Command::List)
    } else {
        None
    }
}

/// What kind of channel a join request points at.
#[derive(Clone, Copy, PartialEq, Eq, Structural, Debug)]
pub enum ChannelKind {
    Voice,
    Other,
}

/// The resolved value of the join command's channel option.
#[derive(Clone, Copy, PartialEq, Eq, Structural, Debug)]
pub enum ChannelOption {
    /// A channel of the given kind, by platform identifier.
    Channel(u64, ChannelKind),
    /// The option resolved to something that is not a channel.
    NotAChannel,
}

/// Why a join request was rejected before any attach was attempted.
#[derive(Clone, Copy, PartialEq, Eq, Structural, Debug)]
pub enum JoinError {
    /// The option did not name a channel at all.
    MustProvideChannel,
    /// The named channel is not voice-capable.
    MustBeVoiceChannel,
}

/// Validates the join command's channel argument: only a voice channel may
/// be attached to, and its identifier is handed back; anything else is
/// rejected with no state mutated.
pub fn validate_join_target(opt: ChannelOption) -> (r: Result<u64, JoinError>)
    ensures
        match opt {
            ChannelOption::Channel(id, ChannelKind::Voice) => r == Result::<u64, JoinError>::Ok(
                id,
            ),
            ChannelOption::Channel(_, ChannelKind::Other) => r == Result::<u64, JoinError>::Err(
                JoinError::MustBeVoiceChannel,
            ),
            ChannelOption::NotAChannel => r == Result::<u64, JoinError>::Err(
                JoinError::MustProvideChannel,
            ),
        },
{
    match opt {
        ChannelOption::Channel(id, ChannelKind::Voice) => Ok(id),
        ChannelOption::Channel(_, ChannelKind::Other) => Err(JoinError::MustBeVoiceChannel),
        ChannelOption::NotAChannel => Err(JoinError::MustProvideChannel),
    }
}

/// Whether a command's single initial acknowledgment is visible only to
/// its caller: every command acknowledges privately except skip, whose
/// vote is public to the channel.
pub fn ack_is_ephemeral(c: Command) -> (r: bool)
    ensures
        r == (c != Command::Skip),
{
    match c {
        Command::Skip => false,
        _ => true,
    }
}

} // verus!
