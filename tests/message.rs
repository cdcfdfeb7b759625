use twitch_rs::message::{Command, CommandType, Message, ParseError, Prefix, Tag};

#[test]
fn roll_test() {
    let messages = vec![
        "@room-id=12345678;target-user-id=87654321;tmi-sent-ts=1642715756806 :tmi.twitch.tv CLEARCHAT #dallas :ronni\r\n",
        "@room-id=12345678;tmi-sent-ts=1642715695392 :tmi.twitch.tv CLEARCHAT #dallas\r\n",
        "@ban-duration=350;room-id=12345678;target-user-id=87654321;tmi-sent-ts=1642719320727 :tmi.twitch.tv CLEARCHAT #dallas :ronni\r\n",
        "@msg-id=delete_message_success :tmi.twitch.tv NOTICE #bar :The message from foo is now deleted.\r\n",
        "@badge-info=;badges=turbo/1;color=#0D4200;display-name=ronni;emotes=25:0-4,12-16/1902:6-10;id=b34ccfc7-4977-403a-8a94-33c6bac34fb8;mod=0;room-id=1337;subscriber=0;tmi-sent-ts=1507246572675;turbo=1;user-id=1337;user-type=global_mod :ronni!ronni@ronni.tmi.twitch.tv PRIVMSG #ronni :Kappa Keepo Kappa\r\n",
        "@emote-only=0;followers-only=0;r9k=0;slow=0;subs-only=0 :tmi.twitch.tv ROOMSTATE #dallas\r\n",
        "@badges=staff/1,bits-charity/1;color=#8A2BE2;display-name=PetsgomOO;emotes=;message-id=306;thread-id=12345678_87654321;turbo=0;user-id=87654321;user-type=staff :petsgomoo!petsgomoo@petsgomoo.tmi.twitch.tv WHISPER foo :hello\r\n",

        ":tmi.twitch.tv CLEARCHAT #dallas :ronni\r\n",
        ":tmi.twitch.tv CLEARCHAT #dallas\r\n",
        ":tmi.twitch.tv CLEARCHAT #dallas :ronni\r\n",
        ":petsgomoo!petsgomoo@petsgomoo.tmi.twitch.tv WHISPER foo :hello\r\n",
    ];

    for message in messages {
        let parsed = Message::from_string(message.trim().to_string()).unwrap().to_string();
        assert_eq!(message, parsed);
    }
}

#[test]
fn concrete_privmsg_fixture() {
    let line = "@badge-info=;badges=turbo/1;color=#0D4200;display-name=ronni;user-id=1337 :ronni!ronni@ronni.tmi.twitch.tv PRIVMSG #ronni :Kappa Keepo Kappa";
    let m = Message::from_string(line.to_string()).unwrap();
    assert_eq!(m.prefix.nick, Some("ronni".to_string()));
    assert_eq!(m.prefix.host, "tmi.twitch.tv");
    assert_eq!(m.command.command_type, CommandType::PRIVMSG);
    assert_eq!(m.command.content, Some("#ronni :Kappa Keepo Kappa".to_string()));
    assert_eq!(m.tags.len(), 5);
    assert_eq!(m.tags[0], Tag { name: "badge-info".to_string(), value: None });
    assert_eq!(m.tags[1], Tag { name: "badges".to_string(), value: Some("turbo/1".to_string()) });
    assert_eq!(m.to_string(), format!("{}\r\n", line));
}

#[test]
fn tag_with_empty_value_is_absent() {
    let t = Tag::from_string("name=");
    assert_eq!(t, Tag { name: "name".to_string(), value: None });
    assert_eq!(t.to_string(), "name=");
    let again = Tag::from_string(&t.to_string());
    assert_eq!(again, t);
    assert_eq!(again.to_string(), "name=");
}

#[test]
fn tag_without_equals_sign() {
    let t = Tag::from_string("flag");
    assert_eq!(t, Tag { name: "flag".to_string(), value: None });
    assert_eq!(t.to_string(), "flag=");
}

#[test]
fn tag_value_keeps_later_equals_signs() {
    let t = Tag::from_string("k=a=b");
    assert_eq!(t, Tag { name: "k".to_string(), value: Some("a=b".to_string()) });
    assert_eq!(t.to_string(), "k=a=b");
}

#[test]
fn prefix_forms() {
    let p = Prefix::from_string(":tmi.twitch.tv").unwrap();
    assert_eq!(p, Prefix { nick: None, host: "tmi.twitch.tv".to_string() });
    assert_eq!(p.to_string(), ":tmi.twitch.tv");
    let p = Prefix::from_string(":bob!bob@bob.tmi.twitch.tv").unwrap();
    assert_eq!(p, Prefix { nick: Some("bob".to_string()), host: "tmi.twitch.tv".to_string() });
    assert_eq!(p.to_string(), ":bob!bob@bob.tmi.twitch.tv");
}

#[test]
fn prefix_without_bang_has_empty_nick() {
    let p = Prefix::from_string(":x@abc").unwrap();
    assert_eq!(p, Prefix { nick: Some(String::new()), host: "bc".to_string() });
}

#[test]
fn prefix_errors() {
    assert_eq!(Prefix::from_string("tmi.twitch.tv"), Err(ParseError::InvalidPrefix));
    assert_eq!(Prefix::from_string(""), Err(ParseError::InvalidPrefix));
    assert_eq!(Prefix::from_string(":@"), Err(ParseError::InvalidPrefix));
}

#[test]
fn classification_of_known_words() {
    let cases = vec![
        ("JOIN #a", CommandType::JOIN),
        ("NICK bot", CommandType::NICK),
        ("PART #a", CommandType::PART),
        ("PASS oauth", CommandType::PASS),
        ("PING :x", CommandType::PING),
        ("PONG :x", CommandType::PONG),
        ("PRIVMSG #a :hi", CommandType::PRIVMSG),
        ("CLEARCHAT #a", CommandType::CLEARCHAT),
        ("CLEARMSG #a :x", CommandType::CLEARMSG),
        ("GLOBALUSERSTATE", CommandType::GLOBALUSERSTATE),
        ("HOSTTARGET #a :b 1", CommandType::HOSTTARGET),
        ("NOTICE #a :x", CommandType::NOTICE),
        ("RECONNECT", CommandType::RECONNECT),
        ("ROOMSTATE #a", CommandType::ROOMSTATE),
        ("USERNOTICE #a :x", CommandType::USERNOTICE),
        ("USERSTATE #a", CommandType::USERSTATE),
        ("WHISPER foo :hi", CommandType::WHISPER),
        ("CAP REQ :twitch.tv/tags", CommandType::CAPREQ),
        ("CAP * ACK :twitch.tv/tags", CommandType::CAPACK),
        ("CAP * NAK :twitch.tv/tags", CommandType::CAPNAK),
    ];
    for (text, kind) in cases {
        assert_eq!(CommandType::from_string(text), kind, "{}", text);
    }
}

#[test]
fn unknown_word_is_numeric() {
    assert_eq!(CommandType::from_string("001 bot :Welcome"), CommandType::NUMERIC("001".to_string()));
    assert_eq!(CommandType::from_string("FOOBAR x"), CommandType::NUMERIC("FOO".to_string()));
    assert_eq!(CommandType::from_string("abc"), CommandType::NUMERIC("abc".to_string()));
    assert_eq!(CommandType::NUMERIC("353".to_string()).to_string(), "353");
}

#[test]
fn short_words_fall_back_inside_their_family() {
    assert_eq!(CommandType::from_string("CLEAR"), CommandType::CLEARCHAT);
    assert_eq!(CommandType::from_string("USER"), CommandType::USERNOTICE);
    assert_eq!(CommandType::from_string("CAP "), CommandType::CAPNAK);
}

#[test]
fn command_type_words() {
    assert_eq!(CommandType::CAPREQ.to_string(), "CAP REQ");
    assert_eq!(CommandType::CAPACK.to_string(), "CAP * ACK");
    assert_eq!(CommandType::GLOBALUSERSTATE.as_str(), "GLOBALUSERSTATE");
}

#[test]
fn command_content() {
    let c = Command::from_string("PRIVMSG #a :hello there").unwrap();
    assert_eq!(c.command_type, CommandType::PRIVMSG);
    assert_eq!(c.content, Some("#a :hello there".to_string()));
    assert_eq!(c.to_string(), "PRIVMSG #a :hello there");
    let c = Command::from_string("RECONNECT").unwrap();
    assert_eq!(c.content, None);
    assert_eq!(c.to_string(), "RECONNECT ");
    let c = Command::from_string("CAP * ACK :twitch.tv/tags twitch.tv/commands").unwrap();
    assert_eq!(c.command_type, CommandType::CAPACK);
    assert_eq!(c.content, Some(":twitch.tv/tags twitch.tv/commands".to_string()));
    let c = Command::from_string("CAP REQ :twitch.tv/tags").unwrap();
    assert_eq!(c.command_type, CommandType::CAPREQ);
    assert_eq!(c.content, Some(":twitch.tv/tags".to_string()));
    assert_eq!(Command::from_string("AB"), Err(ParseError::InvalidCommand));
}

#[test]
fn capability_and_numeric_lines_round_trip() {
    let lines = vec![
        ":tmi.twitch.tv CAP * ACK :twitch.tv/tags twitch.tv/commands",
        ":tmi.twitch.tv CAP * NAK :twitch.tv/foo",
        ":tmi.twitch.tv CAP REQ :twitch.tv/membership",
        ":tmi.twitch.tv 001 bot :Welcome, GLHF!",
        ":tmi.twitch.tv 353 bot = #chan :bot",
        "@a=1 :bob!bob@bob.tmi.twitch.tv JOIN #chan",
    ];
    for line in lines {
        let m = Message::from_string(line.to_string()).unwrap();
        assert_eq!(m.to_string(), format!("{}\r\n", line));
    }
}

#[test]
fn line_errors() {
    assert_eq!(Message::from_string("@a=b".to_string()), Err(ParseError::MissingTagEnd));
    assert_eq!(Message::from_string(":tmi.twitch.tv".to_string()), Err(ParseError::MissingPrefixEnd));
    assert_eq!(Message::from_string("tmi.twitch.tv PRIVMSG #a".to_string()), Err(ParseError::InvalidPrefix));
    assert_eq!(Message::from_string(":tmi.twitch.tv AB".to_string()), Err(ParseError::InvalidCommand));
}
