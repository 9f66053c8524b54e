use twitch_chat::decode::{DecodeError, TagName};
use twitch_chat::irc_parser::parse;
use twitch_chat::privmsg_tag::UserType;
use twitch_chat::tags::Tags;

fn tags_of(pairs: &[(&str, &str)]) -> Tags {
    let mut t = Tags::new();
    for (k, v) in pairs {
        t.insert(k.to_string(), v.to_string());
    }
    t
}

fn chat_tags() -> Vec<(&'static str, &'static str)> {
    vec![
        ("badges", "moderator/1,subscriber/12"),
        ("color", "#1E90FF"),
        ("display-name", "Viewer"),
        ("id", "abc-123"),
        ("mod", "1"),
        ("room-id", "42"),
        ("subscriber", "1"),
        ("tmi-sent-ts", "1700000000000"),
        ("user-id", "-7"),
    ]
}

#[test]
fn privmsg_decodes_required_and_defaults() {
    let t = twitch_chat::privmsg_tag::parse(&tags_of(&chat_tags())).ok().unwrap();
    assert_eq!(t.badges, vec!["moderator/1".to_string(), "subscriber/12".to_string()]);
    assert!(!t.admin);
    assert_eq!(t.bits, 0);
    assert_eq!(t.color, "#1E90FF");
    assert_eq!(t.display_name, "Viewer");
    assert_eq!(t.id, "abc-123");
    assert!(t.moderator);
    assert!(t.subscriber);
    assert_eq!(t.room_id, 42);
    assert_eq!(t.user_id, -7);
    assert_eq!(t.tmi_sent_ts, "1700000000000");
    assert_eq!(t.badge_info, None);
    assert_eq!(t.emotes, None);
    assert_eq!(t.reply_parent_msg_id, None);
    assert_eq!(t.reply_parent_body, None);
    assert!(!t.turbo);
    assert!(!t.vip);
    assert_eq!(t.user_type, UserType::Normal);
}

#[test]
fn privmsg_missing_room_id_is_an_error() {
    let pairs: Vec<_> = chat_tags().into_iter().filter(|(k, _)| *k != "room-id").collect();
    let r = twitch_chat::privmsg_tag::parse(&tags_of(&pairs));
    assert_eq!(r.err(), Some(DecodeError::Missing(TagName::RoomId)));
}

#[test]
fn privmsg_line_without_room_id_parses_but_does_not_decode() {
    let parsed = parse("@badges=;color=;display-name=x;id=1;mod=0;subscriber=0;tmi-sent-ts=5;user-id=3 :x!x@x PRIVMSG #x :hi").unwrap();
    assert!(parsed.privmsg_tags().is_none());
}

#[test]
fn privmsg_non_numeric_ids_are_errors() {
    let mut pairs = chat_tags();
    pairs.push(("room-id", "4x2"));
    let r = twitch_chat::privmsg_tag::parse(&tags_of(&pairs));
    assert_eq!(r.err(), Some(DecodeError::NotANumber(TagName::RoomId)));

    let mut pairs = chat_tags();
    pairs.push(("user-id", "99999999999"));
    let r = twitch_chat::privmsg_tag::parse(&tags_of(&pairs));
    assert_eq!(r.err(), Some(DecodeError::NotANumber(TagName::UserId)));
}

#[test]
fn privmsg_non_numeric_sent_time_is_an_error() {
    let mut pairs = chat_tags();
    pairs.push(("tmi-sent-ts", "soon"));
    let r = twitch_chat::privmsg_tag::parse(&tags_of(&pairs));
    assert_eq!(r.err(), Some(DecodeError::NotANumber(TagName::TmiSentTs)));
}

#[test]
fn privmsg_first_missing_tag_is_reported() {
    let r = twitch_chat::privmsg_tag::parse(&tags_of(&[("color", "red")]));
    assert_eq!(r.err(), Some(DecodeError::Missing(TagName::Badges)));
    let pairs: Vec<_> = chat_tags().into_iter().filter(|(k, _)| *k != "mod" && *k != "user-id").collect();
    let r = twitch_chat::privmsg_tag::parse(&tags_of(&pairs));
    assert_eq!(r.err(), Some(DecodeError::Missing(TagName::Mod)));
    let pairs: Vec<_> = chat_tags().into_iter().filter(|(k, _)| *k != "user-id").collect();
    let r = twitch_chat::privmsg_tag::parse(&tags_of(&pairs));
    assert_eq!(r.err(), Some(DecodeError::Missing(TagName::UserId)));
}

#[test]
fn privmsg_optional_tags() {
    let mut pairs = chat_tags();
    pairs.push(("badges", "broadcaster/1"));
    pairs.push(("bits", "+100"));
    pairs.push(("badge-info", "subscriber/3"));
    pairs.push(("emotes", "25:0-4"));
    pairs.push(("reply-parent-msg-id", "parent-7"));
    pairs.push(("reply-parent-user-login", "someone"));
    pairs.push(("reply-parent-display-name", "Someone"));
    pairs.push(("reply-parent-msg-body", "hello\\sthere\\\\sfriend"));
    pairs.push(("turbo", "0"));
    pairs.push(("vip", "1"));
    pairs.push(("user-type", "global_mod"));
    let t = twitch_chat::privmsg_tag::parse(&tags_of(&pairs)).ok().unwrap();
    assert!(t.admin);
    assert_eq!(t.bits, 100);
    assert_eq!(t.badge_info, Some("subscriber/3".to_string()));
    assert_eq!(t.emotes, Some("25:0-4".to_string()));
    assert_eq!(t.reply_parent_msg_id, Some("parent-7".to_string()));
    assert_eq!(t.reply_parent_user_nick, Some("someone".to_string()));
    assert_eq!(t.reply_parent_user_display_name, Some("Someone".to_string()));
    assert_eq!(t.reply_parent_body, Some("hello there\\ friend".to_string()));
    assert!(t.turbo);
    assert!(t.vip);
    assert_eq!(t.user_type, UserType::Globalmod);
}

#[test]
fn privmsg_bits_fall_back_to_zero() {
    let mut pairs = chat_tags();
    pairs.push(("bits", "lots"));
    let t = twitch_chat::privmsg_tag::parse(&tags_of(&pairs)).ok().unwrap();
    assert_eq!(t.bits, 0);
}

#[test]
fn privmsg_empty_badges_is_one_empty_badge() {
    let mut pairs = chat_tags();
    pairs.push(("badges", ""));
    pairs.push(("user-type", "admin"));
    let t = twitch_chat::privmsg_tag::parse(&tags_of(&pairs)).ok().unwrap();
    assert_eq!(t.badges, vec!["".to_string()]);
    assert_eq!(t.user_type, UserType::Globaladmin);
}

#[test]
fn clearmsg_decodes() {
    let t = twitch_chat::clearmsg_tag::parse(&tags_of(&[
        ("login", "ronni"),
        ("room-id", "abc"),
        ("target-msg-id", "m-1"),
        ("tmi-sent-ts", "1642720582342"),
    ]))
    .ok()
    .unwrap();
    assert_eq!(t.login, "ronni");
    assert_eq!(t.room_id, None);
    assert_eq!(t.target_msg_id, "m-1");
    assert_eq!(t.tmi_sent_ts, 1642720582342);

    let t = twitch_chat::clearmsg_tag::parse(&tags_of(&[
        ("login", "ronni"),
        ("room-id", "12"),
        ("target-msg-id", "m-1"),
        ("tmi-sent-ts", "-3"),
    ]))
    .ok()
    .unwrap();
    assert_eq!(t.room_id, Some(12));
    assert_eq!(t.tmi_sent_ts, -3);
}

#[test]
fn clearmsg_errors() {
    let r = twitch_chat::clearmsg_tag::parse(&tags_of(&[("room-id", "1")]));
    assert_eq!(r.err(), Some(DecodeError::Missing(TagName::Login)));
    let r = twitch_chat::clearmsg_tag::parse(&tags_of(&[("login", "a"), ("target-msg-id", "m")]));
    assert_eq!(r.err(), Some(DecodeError::Missing(TagName::RoomId)));
    let r = twitch_chat::clearmsg_tag::parse(&tags_of(&[("login", "a"), ("room-id", "1")]));
    assert_eq!(r.err(), Some(DecodeError::Missing(TagName::TargetMsgId)));
    let r = twitch_chat::clearmsg_tag::parse(&tags_of(&[("login", "a"), ("room-id", "1"), ("target-msg-id", "m")]));
    assert_eq!(r.err(), Some(DecodeError::Missing(TagName::TmiSentTs)));
    let r = twitch_chat::clearmsg_tag::parse(&tags_of(&[
        ("login", "a"),
        ("room-id", "1"),
        ("target-msg-id", "m"),
        ("tmi-sent-ts", "1.5"),
    ]));
    assert_eq!(r.err(), Some(DecodeError::NotANumber(TagName::TmiSentTs)));
}

#[test]
fn tags_insert_replaces_and_lists_pairs() {
    let mut t = Tags::new();
    assert_eq!(t.len(), 0);
    t.insert("x".to_string(), "1".to_string());
    t.insert("y".to_string(), "2".to_string());
    t.insert("x".to_string(), "3".to_string());
    assert_eq!(t.len(), 2);
    assert_eq!(t.pairs(), &vec![("x".to_string(), "3".to_string()), ("y".to_string(), "2".to_string())]);
}
