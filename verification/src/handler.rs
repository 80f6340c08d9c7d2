use vstd::prelude::*;
use crate::event::{Direction, Emoji, ReactionEvent, Role};
use crate::filter::{accepts, spec_accepts, ChannelInfo};
use crate::parser::{has_sep, last_block, lines_of, malformed_lines, parse, winner, ParseError};
use crate::resolver::{has_role_named, is_first_named, resolve, ResolveError};

verus! {

// ---------------------------------------------------------------------------
// The per-event pipeline, as a state machine.
//
// One reaction event runs: filter the channel, fetch the message, parse the
// role list for the event's symbol, resolve the role name against the
// guild's roles, fetch the member, apply the mutation. Every network-bound
// step is a command handed to the surrounding driver, which answers with an
// input; all decisions stand here.
// ---------------------------------------------------------------------------

/// Why an event's pipeline stopped short of applying a mutation.
#[derive(Debug, Clone, PartialEq, Eq)]
pub enum Abort {
    /// The event's channel could not be fetched.
    ChannelUnavailable,
    /// The channel is not the watched guild channel.
    FilterRejected,
    /// The reacted-to message could not be fetched.
    MessageUnavailable,
    /// The event carries no guild identifier.
    MissingGuildId,
    /// The event carries no user identifier.
    MissingUserId,
    /// The reaction uses a custom-server symbol, which is unsupported.
    UnsupportedEmoji(String),
    /// The role list could not be parsed for the event's symbol.
    Parse(ParseError),
    /// The parsed role name is not a role of the guild.
    Resolve(ResolveError),
    /// The guild's role set could not be fetched.
    GuildFetchFailed,
    /// The member could not be fetched.
    MemberFetchFailed,
}

/// Expected absences abort silently; everything else is reported.
pub open spec fn spec_abort_is_silent(a: Abort) -> bool {
    match a {
        Abort::ChannelUnavailable => true,
        Abort::FilterRejected => true,
        Abort::MessageUnavailable => true,
        Abort::MissingGuildId => true,
        Abort::MissingUserId => true,
        _ => false,
    }
}

/// Which aborts are routine (not logged): the expected absences — channel or
/// message gone, filter rejection, missing identifiers. Unsupported symbols,
/// parse and resolution failures, and collaborator-call failures are logged.
pub fn abort_is_silent(a: &Abort) -> (b: bool)
    ensures
        b == spec_abort_is_silent(*a),
{
    match a {
        Abort::ChannelUnavailable => true,
        Abort::FilterRejected => true,
        Abort::MessageUnavailable => true,
        Abort::MissingGuildId => true,
        Abort::MissingUserId => true,
        _ => false,
    }
}

/// Terminal outcome of one event's pipeline.
#[derive(Debug, Clone, PartialEq, Eq)]
pub enum Outcome {
    /// The mutation matching the event's direction was issued; `ok` is the
    /// collaborator's verdict, logged and not retried either way.
    Applied { role_id: u64, direction: Direction, ok: bool },
    Aborted(Abort),
}

/// The pipeline's waiting points between commands.
#[derive(Debug, Clone, PartialEq, Eq)]
pub enum State {
    Received,
    ChannelChecked,
    RoleNameParsed { role_name: String },
    RoleResolved { role_id: u64 },
    MemberFetched { role_id: u64 },
    Finished,
}

/// What the driver must do next with the collaborator interfaces.
#[derive(Debug, Clone, PartialEq, Eq)]
pub enum Command {
    FetchChannel { channel_id: u64 },
    FetchMessage { channel_id: u64, message_id: u64 },
    FetchGuildRoles { guild_id: u64 },
    FetchMember { guild_id: u64, user_id: u64 },
    Grant { role_id: u64 },
    Revoke { role_id: u64 },
    Finish(Outcome),
}

/// The driver's answer to the previous command; `None` is a fetch failure.
#[derive(Debug)]
pub enum Input {
    Channel(Option<ChannelInfo>),
    Message(Option<String>),
    GuildRoles(Option<Vec<Role>>),
    Member(bool),
    Mutation(bool),
}

/// One step's result: the next waiting point, the next command, and the
/// matching-but-colonless lines to report as malformed, if any were met.
#[derive(Debug)]
pub struct StepResult {
    pub state: State,
    pub command: Command,
    pub malformed: Vec<String>,
}

/// Begins an event's pipeline: the channel is fetched first.
pub fn start(event: &ReactionEvent) -> (r: (State, Command))
    ensures
        r.0 == State::Received,
        r.1 == (Command::FetchChannel { channel_id: event.channel_id }),
{
    (State::Received, Command::FetchChannel { channel_id: event.channel_id })
}

/// The input kind each waiting point awaits.
pub open spec fn awaits(state: State, input: Input) -> bool {
    match (state, input) {
        (State::Received, Input::Channel(_)) => true,
        (State::ChannelChecked, Input::Message(_)) => true,
        (State::RoleNameParsed { .. }, Input::GuildRoles(_)) => true,
        (State::RoleResolved { .. }, Input::Member(_)) => true,
        (State::MemberFetched { .. }, Input::Mutation(_)) => true,
        _ => false,
    }
}

/// States past the message stage exist only for events carrying both
/// identifiers: the pipeline has already checked them.
pub open spec fn needs_ids(state: State) -> bool {
    match state {
        State::RoleNameParsed { .. } => true,
        State::RoleResolved { .. } => true,
        State::MemberFetched { .. } => true,
        _ => false,
    }
}

pub open spec fn no_reports(r: StepResult) -> bool {
    r.malformed@ == Seq::<String>::empty()
}

/// The step aborted the event for reason `a`, reporting nothing else.
pub open spec fn finishes(r: StepResult, a: Abort) -> bool {
    &&& r.state == State::Finished
    &&& r.command == Command::Finish(Outcome::Aborted(a))
    &&& no_reports(r)
}

pub open spec fn step_post_channel(
    ev: ReactionEvent,
    watch: Seq<char>,
    ch: Option<ChannelInfo>,
    r: StepResult,
) -> bool {
    match ch {
        None => finishes(r, Abort::ChannelUnavailable),
        Some(c) => if spec_accepts(c, watch) {
            &&& r.state == State::ChannelChecked
            &&& r.command == (Command::FetchMessage {
                channel_id: ev.channel_id,
                message_id: ev.message_id,
            })
            &&& no_reports(r)
        } else {
            finishes(r, Abort::FilterRejected)
        },
    }
}

pub open spec fn step_post_message(ev: ReactionEvent, msg: Option<String>, r: StepResult) -> bool {
    match msg {
        None => finishes(r, Abort::MessageUnavailable),
        Some(text) => if ev.guild_id is None {
            finishes(r, Abort::MissingGuildId)
        } else if ev.user_id is None {
            finishes(r, Abort::MissingUserId)
        } else {
            match ev.emoji {
                Emoji::Custom(tag) => finishes(r, Abort::UnsupportedEmoji(tag)),
                Emoji::Unicode(sym) => if !has_sep(text@) {
                    finishes(r, Abort::Parse(ParseError::NoRoleListFound))
                } else {
                    &&& r.malformed@.map_values(|s: String| s@) == malformed_lines(
                        lines_of(last_block(text@)),
                        sym@,
                    )
                    &&& match winner(lines_of(last_block(text@)), sym@) {
                        Some(w) => {
                            &&& (r.state matches State::RoleNameParsed { role_name } && role_name@
                                == w)
                            &&& (ev.guild_id matches Some(g) && r.command == (
                            Command::FetchGuildRoles { guild_id: g }))
                        },
                        None => {
                            &&& r.state == State::Finished
                            &&& (r.command matches Command::Finish(
                                Outcome::Aborted(Abort::Parse(ParseError::NoRoleForEmoji(s))),
                            ) && s@ == sym@)
                        },
                    }
                },
            }
        },
    }
}

pub open spec fn step_post_roles(
    ev: ReactionEvent,
    role_name: String,
    rs: Option<Vec<Role>>,
    r: StepResult,
) -> bool {
    match rs {
        None => finishes(r, Abort::GuildFetchFailed),
        Some(roles) => if has_role_named(roles@, role_name@) {
            &&& (r.state matches State::RoleResolved { role_id } && is_first_named(
                roles@,
                role_name@,
                role_id,
            ))
            &&& (ev.guild_id matches Some(g) && ev.user_id matches Some(u) && r.command == (
            Command::FetchMember { guild_id: g, user_id: u }))
            &&& no_reports(r)
        } else {
            &&& r.state == State::Finished
            &&& (r.command matches Command::Finish(
                Outcome::Aborted(Abort::Resolve(ResolveError::RoleNotFound(n))),
            ) && n@ == role_name@)
            &&& no_reports(r)
        },
    }
}

pub open spec fn step_post_member(ev: ReactionEvent, role_id: u64, ok: bool, r: StepResult) -> bool {
    if ok {
        &&& r.state == (State::MemberFetched { role_id })
        &&& r.command == (match ev.direction {
            Direction::Added => Command::Grant { role_id },
            Direction::Removed => Command::Revoke { role_id },
        })
        &&& no_reports(r)
    } else {
        finishes(r, Abort::MemberFetchFailed)
    }
}

/// The full transition relation of one pipeline step.
pub open spec fn step_post(
    ev: ReactionEvent,
    watch: Seq<char>,
    state: State,
    input: Input,
    r: StepResult,
) -> bool {
    match (state, input) {
        (State::Received, Input::Channel(ch)) => step_post_channel(ev, watch, ch, r),
        (State::ChannelChecked, Input::Message(msg)) => step_post_message(ev, msg, r),
        (State::RoleNameParsed { role_name }, Input::GuildRoles(rs)) => step_post_roles(
            ev,
            role_name,
            rs,
            r,
        ),
        (State::RoleResolved { role_id }, Input::Member(ok)) => step_post_member(
            ev,
            role_id,
            ok,
            r,
        ),
        (State::MemberFetched { role_id }, Input::Mutation(ok)) => {
            &&& r.state == State::Finished
            &&& r.command == Command::Finish(
                Outcome::Applied { role_id, direction: ev.direction, ok },
            )
            &&& no_reports(r)
        },
        _ => true,
    }
}

/// A step never enters an identifier-needing state for an event missing
/// either identifier: the pipeline checks both before parsing, so a driver
/// that answers each command in kind can always meet `step`'s precondition.
pub proof fn lemma_step_preserves_ids(
    ev: ReactionEvent,
    watch: Seq<char>,
    state: State,
    input: Input,
    r: StepResult,
)
    requires
        awaits(state, input),
        needs_ids(state) ==> ev.guild_id is Some && ev.user_id is Some,
        step_post(ev, watch, state, input, r),
    ensures
        needs_ids(r.state) ==> ev.guild_id is Some && ev.user_id is Some,
{
}

fn abort_result(a: Abort) -> (r: StepResult)
    ensures
        finishes(r, a),
{
    let r = StepResult {
        state: State::Finished,
        command: Command::Finish(Outcome::Aborted(a)),
        malformed: Vec::new(),
    };
    proof {
        assert(r.malformed@ =~= Seq::<String>::empty());
    }
    r
}

/// One step of the pipeline: consumes the driver's answer to the previous
/// command and decides the next waiting point and command, per `step_post`.
pub fn step(event: &ReactionEvent, watch_name: &str, state: State, input: Input) -> (r: StepResult)
    requires
        awaits(state, input),
        needs_ids(state) ==> event.guild_id is Some && event.user_id is Some,
    ensures
        step_post(*event, watch_name@, state, input, r),
{
    match (state, input) {
        (State::Received, Input::Channel(ch)) => match ch {
            None => abort_result(Abort::ChannelUnavailable),
            Some(c) => {
                if accepts(&c, watch_name) {
                    StepResult {
                        state: State::ChannelChecked,
                        command: Command::FetchMessage {
                            channel_id: event.channel_id,
                            message_id: event.message_id,
                        },
                        malformed: Vec::new(),
                    }
                } else {
                    abort_result(Abort::FilterRejected)
                }
            },
        },
        (State::ChannelChecked, Input::Message(msg)) => match msg {
            None => abort_result(Abort::MessageUnavailable),
            Some(text) => {
                if event.guild_id.is_none() {
                    abort_result(Abort::MissingGuildId)
                } else if event.user_id.is_none() {
                    abort_result(Abort::MissingUserId)
                } else {
                    match &event.emoji {
                        Emoji::Custom(tag) => abort_result(Abort::UnsupportedEmoji(tag.clone())),
                        Emoji::Unicode(sym) => {
                            let out = parse(text.as_str(), sym.as_str());
                            match out.resolution {
                                Ok(role_name) => StepResult {
                                    state: State::RoleNameParsed { role_name },
                                    command: Command::FetchGuildRoles {
                                        guild_id: event.guild_id.unwrap(),
                                    },
                                    malformed: out.malformed,
                                },
                                Err(e) => StepResult {
                                    state: State::Finished,
                                    command: Command::Finish(Outcome::Aborted(Abort::Parse(e))),
                                    malformed: out.malformed,
                                },
                            }
                        },
                    }
                }
            },
        },
        (State::RoleNameParsed { role_name }, Input::GuildRoles(rs)) => match rs {
            None => abort_result(Abort::GuildFetchFailed),
            Some(roles) => match resolve(&roles, role_name.as_str()) {
                Ok(role_id) => StepResult {
                    state: State::RoleResolved { role_id },
                    command: Command::FetchMember {
                        guild_id: event.guild_id.unwrap(),
                        user_id: event.user_id.unwrap(),
                    },
                    malformed: Vec::new(),
                },
                Err(e) => StepResult {
                    state: State::Finished,
                    command: Command::Finish(Outcome::Aborted(Abort::Resolve(e))),
                    malformed: Vec::new(),
                },
            },
        },
        (State::RoleResolved { role_id }, Input::Member(ok)) => {
            if ok {
                let command = match event.direction {
                    Direction::Added => Command::Grant { role_id },
                    Direction::Removed => Command::Revoke { role_id },
                };
                StepResult { state: State::MemberFetched { role_id }, command, malformed: Vec::new() }
            } else {
                abort_result(Abort::MemberFetchFailed)
            }
        },
        (State::MemberFetched { role_id }, Input::Mutation(ok)) => StepResult {
            state: State::Finished,
            command: Command::Finish(Outcome::Applied { role_id, direction: event.direction, ok }),
            malformed: Vec::new(),
        },
        // unreachable under `awaits`; a harmless silent abort keeps the
        // match total
        _ => abort_result(Abort::ChannelUnavailable),
    }
}

} // verus!
