use twitch_chat::irc_parser::{parse, IRCCommandType, ParseError};

#[test]
fn ping_parse_test() {
    let input = "PING :tmi.twitch.tv";
    let parsed = parse(input);

    assert_eq!(parsed.is_ok(), true);
    let parsed = parsed.unwrap();

    assert_eq!(parsed.command.command, IRCCommandType::PING);
    assert_eq!(parsed.params, Some("tmi.twitch.tv".to_string()));
}

#[test]
fn privmsg_parse_test() {
    let input = "@badges=staff/1,broadcaster/1,turbo/1;color=#FF0000;display-name=PetsgomOO;emote-only=1;emotes=33:0-7;flags=0-7:A.6/P.6,25-36:A.1/I.2;id=c285c9ed-8b1b-4702-ae1c-c64d76cc74ef;mod=0;room-id=81046256;subscriber=0;turbo=0;tmi-sent-ts=1550868292494;user-id=81046256;user-type=staff :petsgomoo!petsgomoo@petsgomoo.tmi.twitch.tv PRIVMSG #petsgomoo :DansGame";

    let parsed = parse(input);
    assert_eq!(parsed.is_ok(), true);
    let parsed = parsed.unwrap();

    let tags = parsed.privmsg_tags();
    assert_eq!(tags.is_some(), true);
    let tags = tags.unwrap();

    assert_eq!(parsed.command.command, IRCCommandType::PRIVMSG);
    assert_eq!(parsed.params, Some("DansGame".to_string()));
    assert_eq!(parsed.source.nick, "petsgomoo");
    assert_eq!(parsed.source.host, "petsgomoo@petsgomoo.tmi.twitch.tv");
    assert_eq!(tags.admin, true);
    assert_eq!(tags.room_id, 81046256);
}

#[test]
fn repeated_tag_keeps_last_value() {
    let parsed = parse("@a=1;b=2;a=3 PING :x").unwrap();
    let tags = parsed.tags.unwrap();
    assert_eq!(tags.len(), 2);
    assert_eq!(tags.get("a"), Some(&"3".to_string()));
    assert_eq!(tags.get("b"), Some(&"2".to_string()));
    assert_eq!(tags.get("c"), None);
}

#[test]
fn tag_value_is_text_after_first_equals() {
    let parsed = parse("@k=v=w;flag PING").unwrap();
    let tags = parsed.tags.unwrap();
    assert_eq!(tags.get("k"), Some(&"v=w".to_string()));
    assert_eq!(tags.get("flag"), Some(&"".to_string()));
}

#[test]
fn line_without_tags_has_none() {
    let parsed = parse("PING :tmi.twitch.tv").unwrap();
    assert!(parsed.tags.is_none());
    assert_eq!(parsed.source.nick, "");
    assert_eq!(parsed.source.host, "");
    assert!(parsed.chat_command.is_none());
}

#[test]
fn unterminated_tag_block_is_malformed() {
    assert_eq!(parse("@a=1;b=2").err(), Some(ParseError::Malformed));
}

#[test]
fn unterminated_prefix_is_malformed() {
    assert_eq!(parse(":nick!host").err(), Some(ParseError::Malformed));
    assert_eq!(parse("@a=1 :nick!host").err(), Some(ParseError::Malformed));
}

#[test]
fn unknown_verb_still_parses() {
    let parsed = parse("FOO bar baz").unwrap();
    assert_eq!(parsed.command.command, IRCCommandType::UNKNOWN);
    assert_eq!(parsed.command.params, vec!["bar".to_string(), "baz".to_string()]);
    assert_eq!(parsed.params, None);
}

#[test]
fn verbs_are_case_sensitive() {
    assert_eq!(parse("ping :x").unwrap().command.command, IRCCommandType::UNKNOWN);
    assert_eq!(parse("CLEARMSG #c :id").unwrap().command.command, IRCCommandType::CLEARMSG);
}

#[test]
fn join_line_has_channel_parameter() {
    let parsed = parse(":ronni!ronni@ronni.tmi.twitch.tv JOIN #dallas").unwrap();
    assert_eq!(parsed.command.command, IRCCommandType::JOIN);
    assert_eq!(parsed.command.params, vec!["#dallas".to_string()]);
    assert_eq!(parsed.source.nick, "ronni");
    assert_eq!(parsed.source.host, "ronni@ronni.tmi.twitch.tv");
    assert_eq!(parsed.params, None);
}

#[test]
fn bare_host_prefix_leaves_nick_empty() {
    let parsed = parse(":tmi.twitch.tv 001 bot :Welcome, GLHF!").unwrap();
    assert_eq!(parsed.source.nick, "");
    assert_eq!(parsed.source.host, "tmi.twitch.tv");
    assert_eq!(parsed.command.params, vec!["bot".to_string()]);
    assert_eq!(parsed.params, Some("Welcome, GLHF!".to_string()));
}

#[test]
fn trailing_keeps_spaces_and_colons() {
    let parsed = parse(":a!b PRIVMSG #c :hi: there :)").unwrap();
    assert_eq!(parsed.params, Some("hi: there :)".to_string()));
    assert_eq!(parsed.command.params, vec!["#c".to_string()]);
}

#[test]
fn chat_command_is_lowercased_without_marker() {
    let parsed = parse(":a!b PRIVMSG #c :!HeLLo World x").unwrap();
    let cmd = parsed.chat_command.unwrap();
    assert_eq!(cmd.command, "hello");
    assert_eq!(cmd.params, vec!["World".to_string(), "x".to_string()]);
}

#[test]
fn chat_command_strips_only_the_leading_marker() {
    let parsed = parse(":a!b PRIVMSG #c :!A!B").unwrap();
    let cmd = parsed.chat_command.unwrap();
    assert_eq!(cmd.command, "a!b");
    assert!(cmd.params.is_empty());
}

#[test]
fn trailing_without_marker_has_no_chat_command() {
    let parsed = parse(":a!b PRIVMSG #c :hello !there").unwrap();
    assert!(parsed.chat_command.is_none());
}
