use chatbot::machine::{step, ParsingState, Step};

fn chars(text: &str) -> Vec<char> {
    text.chars().collect()
}

#[test]
fn start_tells_tags_from_prefix() {
    assert!(matches!(
        step(ParsingState::Start, &chars("@a=b :x!y JOIN #c"), 0),
        Step::Next(ParsingState::Tags)
    ));
    assert!(matches!(
        step(ParsingState::Start, &chars(":x!y JOIN #c"), 0),
        Step::Next(ParsingState::UserName { marker: 0 })
    ));
    assert!(matches!(step(ParsingState::Start, &chars("PING :tmi.twitch.tv"), 0), Step::Fail));
}

#[test]
fn tags_end_at_the_first_space() {
    let line = chars("@a=b :x!y JOIN #c");
    assert!(matches!(step(ParsingState::Tags, &line, 1), Step::Next(ParsingState::Tags)));
    assert!(matches!(
        step(ParsingState::Tags, &line, 4),
        Step::Next(ParsingState::UserName { marker: 5 })
    ));
    assert!(matches!(
        step(ParsingState::UserName { marker: 5 }, &line, 5),
        Step::Next(ParsingState::UserName { marker: 5 })
    ));
    assert!(matches!(step(ParsingState::UserName { marker: 4 }, &line, 4), Step::Fail));
}

#[test]
fn user_name_ends_at_the_bang() {
    let line = chars(":ab!y JOIN #c");
    assert!(matches!(
        step(ParsingState::UserName { marker: 0 }, &line, 1),
        Step::Next(ParsingState::UserName { marker: 0 })
    ));
    assert!(matches!(
        step(ParsingState::UserName { marker: 0 }, &line, 3),
        Step::Next(ParsingState::AdditionalUserInfo { marker: 0, bang: 3 })
    ));
    assert!(matches!(step(ParsingState::UserName { marker: 0 }, &chars(":a b!"), 2), Step::Fail));
    assert!(matches!(step(ParsingState::UserName { marker: 0 }, &chars(":!b"), 1), Step::Fail));
}

#[test]
fn user_info_ends_at_a_space() {
    let line = chars(":ab!y JOIN #c");
    let state = ParsingState::AdditionalUserInfo { marker: 0, bang: 3 };
    assert!(matches!(
        step(state, &line, 4),
        Step::Next(ParsingState::AdditionalUserInfo { marker: 0, bang: 3 })
    ));
    assert!(matches!(
        step(state, &line, 5),
        Step::Next(ParsingState::MessageToken { marker: 0, bang: 3, verb_start: 6 })
    ));
}

#[test]
fn verb_decides_at_its_space() {
    let token = ParsingState::MessageToken { marker: 0, bang: 3, verb_start: 6 };
    assert!(matches!(
        step(token, &chars(":ab!y JOIN #c"), 7),
        Step::Next(ParsingState::MessageToken { marker: 0, bang: 3, verb_start: 6 })
    ));
    assert!(matches!(
        step(token, &chars(":ab!y JOIN #c"), 10),
        Step::Join { marker: 0, bang: 3 }
    ));
    assert!(matches!(
        step(token, &chars(":ab!y PART #c"), 10),
        Step::Part { marker: 0, bang: 3 }
    ));
    assert!(matches!(
        step(token, &chars(":ab!y PRIVMSG #c :hi"), 13),
        Step::Next(ParsingState::Channel { marker: 0, bang: 3 })
    ));
    assert!(matches!(step(token, &chars(":ab!y NOTICE #c :hi"), 12), Step::Fail));
    assert!(matches!(step(token, &chars(":ab!y  #c"), 6), Step::Fail));
}

#[test]
fn channel_ends_at_the_body_marker() {
    let line = chars(":ab!y PRIVMSG #c :hi");
    let channel = ParsingState::Channel { marker: 0, bang: 3 };
    assert!(matches!(
        step(channel, &line, 14),
        Step::Next(ParsingState::Channel { marker: 0, bang: 3 })
    ));
    assert!(matches!(
        step(channel, &line, 17),
        Step::Next(ParsingState::MessageBody { marker: 0, bang: 3 })
    ));
    assert!(matches!(
        step(ParsingState::MessageBody { marker: 0, bang: 3 }, &line, 18),
        Step::Body { marker: 0, bang: 3, from: 18 }
    ));
}
