use twitch_chat::messages::{auth_message, join_channels_message, pong_message, split_frame};
use twitch_chat::watch::{chatter_ids, watch_changes, Chatter};

#[test]
fn auth_lines() {
    assert_eq!(
        auth_message("abc", "botty"),
        vec![
            "CAP REQ :twitch.tv/tags twitch.tv/commands twitch.tv/membership".to_string(),
            "PASS oauth:abc".to_string(),
            "NICK botty".to_string(),
        ]
    );
}

#[test]
fn join_line() {
    assert_eq!(join_channels_message(&vec!["striikzx".to_string(), "anniislost".to_string()]), "JOIN #striikzx,#anniislost");
    assert_eq!(join_channels_message(&vec!["one".to_string()]), "JOIN #one");
    assert_eq!(join_channels_message(&vec![]), "JOIN ");
}

#[test]
fn pong_line() {
    assert_eq!(pong_message(), "PONG :tmi.twitch.tv");
}

#[test]
fn frame_splits_into_non_empty_lines() {
    assert_eq!(
        split_frame("PING :tmi.twitch.tv\r\n:a!b PRIVMSG #c :x\r\n"),
        vec!["PING :tmi.twitch.tv".to_string(), ":a!b PRIVMSG #c :x".to_string()]
    );
    assert_eq!(split_frame("a\r\n\r\nb"), vec!["a".to_string(), "b".to_string()]);
    assert_eq!(split_frame("a\rb\nc\r\r\n"), vec!["a\rb\nc\r".to_string()]);
    assert!(split_frame("").is_empty());
    assert!(split_frame("\r\n").is_empty());
}

#[test]
fn watch_sessions_change() {
    let (ended, started) = watch_changes(&vec![1, 2, 3], &vec![3, 4, 1, 5]);
    assert_eq!(ended, vec![2]);
    assert_eq!(started, vec![4, 5]);
    let (ended, started) = watch_changes(&vec![], &vec![]);
    assert!(ended.is_empty() && started.is_empty());
}

#[test]
fn chatter_ids_parse_or_refuse() {
    let c = |id: &str| Chatter { user_id: id.to_string(), user_login: "l".to_string(), user_name: "N".to_string() };
    assert_eq!(chatter_ids(&vec![c("12"), c("7")]), Some(vec![12, 7]));
    assert_eq!(chatter_ids(&vec![c("12"), c("x7")]), None);
    assert_eq!(chatter_ids(&vec![]), Some(vec![]));
}
