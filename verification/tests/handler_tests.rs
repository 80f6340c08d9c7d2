use reaction_roles::event::{Direction, Emoji, ReactionEvent, Role};
use reaction_roles::filter::{watch_channel_name, ChannelInfo};
use reaction_roles::handler::{abort_is_silent, start, step, Abort, Command, Input, Outcome, State};
use reaction_roles::member::Member;
use reaction_roles::parser::ParseError;
use reaction_roles::resolver::ResolveError;

fn event(emoji: Emoji, direction: Direction) -> ReactionEvent {
    ReactionEvent {
        channel_id: 1,
        message_id: 2,
        guild_id: Some(10),
        user_id: Some(20),
        emoji,
        direction,
    }
}

fn watched_channel() -> ChannelInfo {
    ChannelInfo::Guild { name: "channel-management".to_string() }
}

#[test]
fn start_fetches_the_channel() {
    let ev = event(Emoji::Unicode("🎨".to_string()), Direction::Added);
    let (state, command) = start(&ev);
    assert_eq!(state, State::Received);
    assert_eq!(command, Command::FetchChannel { channel_id: 1 });
}

#[test]
fn added_reaction_grants_the_mapped_role() {
    let ev = event(Emoji::Unicode("🎨".to_string()), Direction::Added);
    let watch = watch_channel_name();

    let r = step(&ev, watch, State::Received, Input::Channel(Some(watched_channel())));
    assert_eq!(r.state, State::ChannelChecked);
    assert_eq!(r.command, Command::FetchMessage { channel_id: 1, message_id: 2 });

    let text = "React to get a role!\n\n🎮: Gamer\n🎨: Artist".to_string();
    let r = step(&ev, watch, r.state, Input::Message(Some(text)));
    assert_eq!(r.state, State::RoleNameParsed { role_name: "Artist".to_string() });
    assert_eq!(r.command, Command::FetchGuildRoles { guild_id: 10 });

    let roles = vec![
        Role { id: 55, name: "Gamer".to_string() },
        Role { id: 77, name: "Artist".to_string() },
    ];
    let r = step(&ev, watch, r.state, Input::GuildRoles(Some(roles)));
    assert_eq!(r.state, State::RoleResolved { role_id: 77 });
    assert_eq!(r.command, Command::FetchMember { guild_id: 10, user_id: 20 });

    let r = step(&ev, watch, r.state, Input::Member(true));
    assert_eq!(r.state, State::MemberFetched { role_id: 77 });
    assert_eq!(r.command, Command::Grant { role_id: 77 });

    let mut member = Member::new();
    member.grant(77);
    assert!(member.has_role(77));

    let r = step(&ev, watch, r.state, Input::Mutation(true));
    assert_eq!(r.state, State::Finished);
    assert_eq!(
        r.command,
        Command::Finish(Outcome::Applied { role_id: 77, direction: Direction::Added, ok: true })
    );
}

#[test]
fn removed_reaction_revokes_the_mapped_role() {
    let ev = event(Emoji::Unicode("🎮".to_string()), Direction::Removed);
    let watch = watch_channel_name();
    let r = step(&ev, watch, State::Received, Input::Channel(Some(watched_channel())));
    let text = "React!\n\n🎮: Gamer".to_string();
    let r = step(&ev, watch, r.state, Input::Message(Some(text)));
    let roles = vec![Role { id: 55, name: "Gamer".to_string() }];
    let r = step(&ev, watch, r.state, Input::GuildRoles(Some(roles)));
    let r = step(&ev, watch, r.state, Input::Member(true));
    assert_eq!(r.command, Command::Revoke { role_id: 55 });
}

#[test]
fn duplicate_symbol_resolves_to_later_line() {
    let ev = event(Emoji::Unicode("🎮".to_string()), Direction::Added);
    let watch = watch_channel_name();
    let r = step(&ev, watch, State::Received, Input::Channel(Some(watched_channel())));
    let text = "React!\n\n🎮: Gamer\n🎮: Retro-Gamer".to_string();
    let r = step(&ev, watch, r.state, Input::Message(Some(text)));
    assert_eq!(r.state, State::RoleNameParsed { role_name: "Retro-Gamer".to_string() });
}

#[test]
fn text_without_separator_aborts_with_parse_error() {
    let ev = event(Emoji::Unicode("🎮".to_string()), Direction::Added);
    let watch = watch_channel_name();
    let r = step(&ev, watch, State::Received, Input::Channel(Some(watched_channel())));
    let text = "🎮: Gamer just one line".to_string();
    let r = step(&ev, watch, r.state, Input::Message(Some(text)));
    assert_eq!(r.state, State::Finished);
    assert_eq!(
        r.command,
        Command::Finish(Outcome::Aborted(Abort::Parse(ParseError::NoRoleListFound)))
    );
    assert!(!abort_is_silent(&Abort::Parse(ParseError::NoRoleListFound)));
}

#[test]
fn custom_server_symbol_is_rejected_before_any_further_fetch() {
    let ev = event(Emoji::Custom("pepe".to_string()), Direction::Added);
    let watch = watch_channel_name();
    let r = step(&ev, watch, State::Received, Input::Channel(Some(watched_channel())));
    let text = "React!\n\n🎮: Gamer".to_string();
    let r = step(&ev, watch, r.state, Input::Message(Some(text)));
    // the pipeline ends here: no guild-role or member fetch is commanded
    assert_eq!(r.state, State::Finished);
    assert_eq!(
        r.command,
        Command::Finish(Outcome::Aborted(Abort::UnsupportedEmoji("pepe".to_string())))
    );
    // unsupported input is the one rejection that is reported, not silent
    assert!(!abort_is_silent(&Abort::UnsupportedEmoji("pepe".to_string())));
}

#[test]
fn unknown_role_name_aborts_without_mutation() {
    let ev = event(Emoji::Unicode("🛡".to_string()), Direction::Added);
    let watch = watch_channel_name();
    let r = step(&ev, watch, State::Received, Input::Channel(Some(watched_channel())));
    let text = "React!\n\n🛡: Moderator".to_string();
    let r = step(&ev, watch, r.state, Input::Message(Some(text)));
    assert_eq!(r.state, State::RoleNameParsed { role_name: "Moderator".to_string() });
    let roles = vec![Role { id: 55, name: "Gamer".to_string() }];
    let r = step(&ev, watch, r.state, Input::GuildRoles(Some(roles)));
    assert_eq!(r.state, State::Finished);
    assert_eq!(
        r.command,
        Command::Finish(Outcome::Aborted(Abort::Resolve(ResolveError::RoleNotFound(
            "Moderator".to_string()
        ))))
    );
}

#[test]
fn channel_fetch_failure_aborts_silently() {
    let ev = event(Emoji::Unicode("🎮".to_string()), Direction::Added);
    let r = step(&ev, watch_channel_name(), State::Received, Input::Channel(None));
    assert_eq!(r.command, Command::Finish(Outcome::Aborted(Abort::ChannelUnavailable)));
    assert!(abort_is_silent(&Abort::ChannelUnavailable));
}

#[test]
fn wrong_channel_is_filtered_out_silently() {
    let ev = event(Emoji::Unicode("🎮".to_string()), Direction::Added);
    let other = ChannelInfo::Guild { name: "general".to_string() };
    let r = step(&ev, watch_channel_name(), State::Received, Input::Channel(Some(other)));
    assert_eq!(r.command, Command::Finish(Outcome::Aborted(Abort::FilterRejected)));
    assert!(abort_is_silent(&Abort::FilterRejected));
}

#[test]
fn missing_guild_id_aborts_silently() {
    let mut ev = event(Emoji::Unicode("🎮".to_string()), Direction::Added);
    ev.guild_id = None;
    let watch = watch_channel_name();
    let r = step(&ev, watch, State::Received, Input::Channel(Some(watched_channel())));
    let r = step(&ev, watch, r.state, Input::Message(Some("a\n\nb".to_string())));
    assert_eq!(r.command, Command::Finish(Outcome::Aborted(Abort::MissingGuildId)));
    assert!(abort_is_silent(&Abort::MissingGuildId));
}

#[test]
fn deleted_message_aborts_silently() {
    let ev = event(Emoji::Unicode("🎮".to_string()), Direction::Added);
    let watch = watch_channel_name();
    let r = step(&ev, watch, State::Received, Input::Channel(Some(watched_channel())));
    let r = step(&ev, watch, r.state, Input::Message(None));
    assert_eq!(r.command, Command::Finish(Outcome::Aborted(Abort::MessageUnavailable)));
    assert!(abort_is_silent(&Abort::MessageUnavailable));
}

#[test]
fn guild_roles_fetch_failure_aborts_loudly() {
    let ev = event(Emoji::Unicode("🎮".to_string()), Direction::Added);
    let watch = watch_channel_name();
    let r = step(&ev, watch, State::Received, Input::Channel(Some(watched_channel())));
    let r = step(&ev, watch, r.state, Input::Message(Some("a\n\n🎮: Gamer".to_string())));
    let r = step(&ev, watch, r.state, Input::GuildRoles(None));
    assert_eq!(r.command, Command::Finish(Outcome::Aborted(Abort::GuildFetchFailed)));
    assert!(!abort_is_silent(&Abort::GuildFetchFailed));
}

#[test]
fn member_fetch_failure_aborts_the_event_only() {
    let ev = event(Emoji::Unicode("🎮".to_string()), Direction::Added);
    let watch = watch_channel_name();
    let r = step(&ev, watch, State::Received, Input::Channel(Some(watched_channel())));
    let r = step(&ev, watch, r.state, Input::Message(Some("a\n\n🎮: Gamer".to_string())));
    let roles = vec![Role { id: 55, name: "Gamer".to_string() }];
    let r = step(&ev, watch, r.state, Input::GuildRoles(Some(roles)));
    let r = step(&ev, watch, r.state, Input::Member(false));
    assert_eq!(r.command, Command::Finish(Outcome::Aborted(Abort::MemberFetchFailed)));
    assert!(!abort_is_silent(&Abort::MemberFetchFailed));
}

#[test]
fn malformed_lines_are_reported_and_skipped() {
    let ev = event(Emoji::Unicode("🎮".to_string()), Direction::Added);
    let watch = watch_channel_name();
    let r = step(&ev, watch, State::Received, Input::Channel(Some(watched_channel())));
    let text = "Menu\n\n🎮 NoColon\n🎮: Ok".to_string();
    let r = step(&ev, watch, r.state, Input::Message(Some(text)));
    assert_eq!(r.malformed, vec!["🎮 NoColon".to_string()]);
    assert_eq!(r.state, State::RoleNameParsed { role_name: "Ok".to_string() });
}
