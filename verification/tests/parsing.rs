use chatbot::{parse_tags, Command, CommandType, EventContent, TextMessage};

fn user_message_helper(raw_message: &str, user_name: &str, expected: &str) {
    let parsed = EventContent::new(raw_message);
    assert!(parsed.is_some());
    if let EventContent::TextMessage(user_message) = parsed.unwrap() {
        assert_eq!(user_message.user_name, user_name);
        assert_eq!(user_message.text, expected);
    } else {
        unreachable!();
    }
}

#[test]
fn parsing_user_messages() {
    let raw_message = ":carkhy!carkhy@carkhy.tmi.twitch.tv PRIVMSG #captaincallback :a function that takes a string and returns the message";
    let expected_text = "a function that takes a string and returns the message";
    let expected_user = "carkhy";
    user_message_helper(raw_message, expected_user, expected_text);
}

#[test]
fn parsing_user_messages_with_trailing_newlines() {
    let raw_message = ":carkhy!carkhy@carkhy.tmi.twitch.tv PRIVMSG #captaincallback :a function that takes a string and returns the message\n";
    let expected_text = "a function that takes a string and returns the message";
    let expected_user = "carkhy";
    user_message_helper(raw_message, expected_user, expected_text);
}

fn command_helper(raw_message: &str, expected_command_type: CommandType, expected_user_name: &str) {
    let parsed = EventContent::new(raw_message);
    assert!(parsed.is_some());
    if let EventContent::Command(command) = parsed.unwrap() {
        assert_eq!(command.commmand_type, expected_command_type);
        assert_eq!(command.user_name, expected_user_name);
        assert_eq!(command.options, Vec::<String>::new());
    } else {
        unreachable!();
    }
}

#[test]
fn parsing_help_command_in_event_parser() {
    let raw_message = ":carkhy!carkhy@carkhy.tmi.twitch.tv PRIVMSG #captaincallback :!help";
    let expected_command_type = CommandType::Help;
    let expected_user_name = "carkhy";
    command_helper(raw_message, expected_command_type, expected_user_name)
}

#[test]
fn parsing_info_command_in_event_parser() {
    let raw_message = ":carkhy!carkhy@carkhy.tmi.twitch.tv PRIVMSG #captaincallback :!info";
    let expected_command_type = CommandType::Info;
    let expected_user_name = "carkhy";
    command_helper(raw_message, expected_command_type, expected_user_name)
}

#[test]
fn parsing_help_command_in_command_parser_without_options() {
    let raw_command = "!help";
    let expected_command_type = CommandType::Help;
    let parsed = Command::new(raw_command, "testuser");
    assert!(parsed.is_some());
    let unwrapped_parsed = parsed.unwrap();
    assert_eq!(unwrapped_parsed.commmand_type, expected_command_type);
    assert_eq!(unwrapped_parsed.user_name, "testuser");
    assert_eq!(unwrapped_parsed.options, Vec::<String>::new());
}

#[test]
fn parsing_command_in_command_parser_with_options() {
    let raw_command = "!help option1 option2";
    let expected_command_type = CommandType::Help;
    let expected_options = vec!["option1".to_owned(), "option2".to_owned()];
    let parsed = Command::new(raw_command, "testuser");
    assert!(parsed.is_some());
    let unwrapped_parsed = parsed.unwrap();
    assert_eq!(unwrapped_parsed.commmand_type, expected_command_type);
    assert_eq!(unwrapped_parsed.user_name, "testuser");
    assert_eq!(unwrapped_parsed.options, expected_options);
}

const TAGGED: &str = "@badge-info=;badges=;client-nonce=1e51cee7513a4516545bbc36a22f27eb;color=;display-name=carkhy;emotes=;first-msg=0;flags=;id=60904094-3684-4871-9e8c-1400648a804d;mod=0;room-id=120630112;subscriber=0;tmi-sent-ts=1637614002702;turbo=0;user-id=70346833;user-type= :carkhy!carkhy@carkhy.tmi.twitch.tv PRIVMSG #captaincallback :copy/paste that in your code to keep that valuable test case";

#[test]
fn tagged_line_gives_author_after_prefix_marker() {
    user_message_helper(
        TAGGED,
        "carkhy",
        "copy/paste that in your code to keep that valuable test case",
    );
}

#[test]
fn tagged_line_without_prefix_marker_gives_nothing() {
    assert!(EventContent::new("@a=b carkhy!carkhy@host PRIVMSG #c :hello").is_none());
    assert!(EventContent::new("@a=b").is_none());
    assert!(EventContent::new("@a=b ").is_none());
}

#[test]
fn end_to_end_command_with_options() {
    let parsed = EventContent::new(
        ":carkhy!carkhy@carkhy.tmi.twitch.tv PRIVMSG #captaincallback :!help option1 option2",
    );
    match parsed {
        Some(EventContent::Command(command)) => {
            assert_eq!(command.commmand_type, CommandType::Help);
            assert_eq!(command.options, vec!["option1".to_owned(), "option2".to_owned()]);
            assert_eq!(command.user_name, "carkhy");
        }
        _ => unreachable!(),
    }
}

#[test]
fn end_to_end_join() {
    match EventContent::new(":carkhy!carkhy@carkhy.tmi.twitch.tv JOIN #captaincallback") {
        Some(EventContent::Join(author)) => assert_eq!(author, "carkhy"),
        _ => unreachable!(),
    }
}

#[test]
fn end_to_end_part() {
    match EventContent::new(":carkhy!carkhy@carkhy.tmi.twitch.tv PART #captaincallback\r\n") {
        Some(EventContent::Part(author)) => assert_eq!(author, "carkhy"),
        _ => unreachable!(),
    }
}

#[test]
fn join_ignores_what_follows_the_verb() {
    match EventContent::new(":a!b@c JOIN :!nonsense   !! :: \n") {
        Some(EventContent::Join(author)) => assert_eq!(author, "a"),
        _ => unreachable!(),
    }
    match EventContent::new(":a!b@c PART ") {
        Some(EventContent::Part(author)) => assert_eq!(author, "a"),
        _ => unreachable!(),
    }
}

#[test]
fn verb_must_end_at_a_space() {
    assert!(EventContent::new(":a!b@c JOIN").is_none());
    assert!(EventContent::new(":a!b@c PRIVMSG").is_none());
}

#[test]
fn end_to_end_ping_gives_nothing() {
    assert!(EventContent::new("PING :tmi.twitch.tv").is_none());
}

#[test]
fn lines_of_other_shapes_give_nothing() {
    assert!(EventContent::new("").is_none());
    assert!(EventContent::new("hello").is_none());
    assert!(EventContent::new(" :a!b@c JOIN #d").is_none());
    assert!(EventContent::new(":").is_none());
    assert!(EventContent::new(":tmi.twitch.tv 001 bot :Welcome, GLHF!").is_none());
    assert!(EventContent::new(":a b!c JOIN #d").is_none());
    assert!(EventContent::new(":a!b@c").is_none());
    assert!(EventContent::new(":a!b@c NOTICE #d :text").is_none());
    assert!(EventContent::new(":a!b@c privmsg #d :text").is_none());
    assert!(EventContent::new(":a!b@c PRIVMSG #d").is_none());
    assert!(EventContent::new(":a!b@c PRIVMSG #d :").is_none());
}

#[test]
fn empty_author_gives_nothing() {
    assert!(EventContent::new(":!b@c JOIN #d").is_none());
    assert!(EventContent::new(":!b@c PRIVMSG #d :text").is_none());
    assert!(EventContent::new("@k=v :!b@c PART #d").is_none());
}

#[test]
fn unknown_command_gives_nothing() {
    assert!(EventContent::new(":a!b@c PRIVMSG #d :!dance now").is_none());
    assert!(EventContent::new(":a!b@c PRIVMSG #d :!Help").is_none());
    assert!(EventContent::new(":a!b@c PRIVMSG #d :!").is_none());
    assert!(Command::new("!helpme", "u").is_none());
    assert!(Command::new("!", "u").is_none());
    assert!(Command::new("help", "u").is_none());
    assert!(Command::new("", "u").is_none());
}

#[test]
fn slap_command_keeps_argument_order() {
    let command = Command::new("!slap b a  c", "u").unwrap();
    assert_eq!(command.commmand_type, CommandType::Slap);
    assert_eq!(
        command.options,
        vec!["b".to_owned(), "a".to_owned(), "".to_owned(), "c".to_owned()]
    );
}

#[test]
fn space_after_the_name_alone_gives_no_argument() {
    let command = Command::new("!info ", "u").unwrap();
    assert_eq!(command.commmand_type, CommandType::Info);
    assert_eq!(command.options, Vec::<String>::new());
    let help = Command::new("!help ", "testuser").unwrap();
    assert_eq!(help.commmand_type, CommandType::Help);
    assert_eq!(help.options, Vec::<String>::new());
    assert_eq!(help.user_name, "testuser");
}

#[test]
fn spaces_after_the_name_split_what_follows() {
    let two = Command::new("!info  ", "u").unwrap();
    assert_eq!(two.options, vec!["".to_owned(), "".to_owned()]);
    let trailing = Command::new("!info a ", "u").unwrap();
    assert_eq!(trailing.options, vec!["a".to_owned(), "".to_owned()]);
    let one = Command::new("!info a", "u").unwrap();
    assert_eq!(one.options, vec!["a".to_owned()]);
}

#[test]
fn body_is_trimmed_at_its_end_only() {
    user_message_helper(":a!b@c PRIVMSG #d : hi there \t\r\n", "a", " hi there");
    user_message_helper(":a!b@c PRIVMSG #d :hi\u{2003}\u{3000}\u{85}", "a", "hi");
    user_message_helper(":a!b@c PRIVMSG #d :  \n", "a", "");
    user_message_helper(":a!b@c PRIVMSG #d : !help", "a", " !help");
    user_message_helper(":a!b@c PRIVMSG #d :hi\u{200B}", "a", "hi\u{200B}");
}

#[test]
fn command_body_is_trimmed_before_it_is_read() {
    command_helper(":a!b@c PRIVMSG #d :!help \r\n", CommandType::Help, "a");
}

#[test]
fn body_starts_after_the_first_colon_behind_the_verb() {
    user_message_helper(":a!b@c PRIVMSG #d :x: y :z", "a", "x: y :z");
    user_message_helper(":a!b@c PRIVMSG :no channel", "a", "no channel");
}

#[test]
fn multi_byte_text_is_kept() {
    let line = ":\u{540D}\u{524D}\u{1F980}!\u{E9}@host PRIVMSG #\u{E7}a :h\u{E9}llo w\u{F6}rld \u{1F600}\n";
    user_message_helper(line, "\u{540D}\u{524D}\u{1F980}", "h\u{E9}llo w\u{F6}rld \u{1F600}");
    let command = Command::new("!help \u{E9}t\u{E9} \u{1F600}", "\u{FC}ser").unwrap();
    assert_eq!(command.options, vec!["\u{E9}t\u{E9}".to_owned(), "\u{1F600}".to_owned()]);
    assert_eq!(command.user_name, "\u{FC}ser");
    match EventContent::new("@k=\u{E9} :\u{FC}!x JOIN #c") {
        Some(EventContent::Join(author)) => assert_eq!(author, "\u{FC}"),
        _ => unreachable!(),
    }
}

#[test]
fn parsing_twice_gives_the_same_event() {
    let line = ":carkhy!carkhy@carkhy.tmi.twitch.tv PRIVMSG #captaincallback :!slap someone";
    let first = EventContent::new(line);
    let second = EventContent::new(line);
    assert_eq!(format!("{:?}", first), format!("{:?}", second));
    assert!(first.is_some());
    let tagged_first = EventContent::new(TAGGED);
    let tagged_second = EventContent::new(TAGGED);
    assert_eq!(format!("{:?}", tagged_first), format!("{:?}", tagged_second));
}

#[test]
fn text_message_holds_what_it_was_given() {
    let message = TextMessage::new("some text", "someone");
    assert_eq!(message.text, "some text");
    assert_eq!(message.user_name, "someone");
}

#[test]
fn tags_with_empty_values() {
    let tags = parse_tags("badge-info=;subscriber=0;turbo=0");
    assert_eq!(tags.len(), 3);
    assert_eq!(tags.get("badge-info"), Some(&"".to_owned()));
    assert_eq!(tags.get("subscriber"), Some(&"0".to_owned()));
    assert_eq!(tags.get("turbo"), Some(&"0".to_owned()));
    assert_eq!(tags.get("badges"), None);
}

#[test]
fn tags_later_value_wins() {
    let tags = parse_tags("a=1;b=2;a=3");
    assert_eq!(tags.len(), 2);
    assert_eq!(tags.get("a"), Some(&"3".to_owned()));
    assert_eq!(tags.get("b"), Some(&"2".to_owned()));
}

#[test]
fn tags_split_at_the_first_equals_sign() {
    let tags = parse_tags("key=a=b;bare;=v;\u{E9}=\u{1F600}");
    assert_eq!(tags.len(), 4);
    assert_eq!(tags.get("key"), Some(&"a=b".to_owned()));
    assert_eq!(tags.get("bare"), Some(&"".to_owned()));
    assert_eq!(tags.get(""), Some(&"v".to_owned()));
    assert_eq!(tags.get("\u{E9}"), Some(&"\u{1F600}".to_owned()));
}

#[test]
fn tags_of_empty_text() {
    let tags = parse_tags("");
    assert_eq!(tags.len(), 1);
    assert_eq!(tags.get(""), Some(&"".to_owned()));
}
