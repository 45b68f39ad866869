use animal_bot::channel::{find_target_channel, ChannelInfo, ChannelKind};

fn ch(id: u64, kind: ChannelKind, name: &str) -> ChannelInfo {
    ChannelInfo { id, kind, name: name.to_string() }
}

#[test]
fn finds_named_text_channel() {
    let chs = vec![ch(1, ChannelKind::Text, "rules"), ch(2, ChannelKind::Text, "general")];
    assert_eq!(find_target_channel(&chs, &"general".to_string()), Some(2));
}

#[test]
fn skips_channel_of_other_kind() {
    let chs = vec![ch(1, ChannelKind::Other, "general"), ch(2, ChannelKind::Text, "general")];
    assert_eq!(find_target_channel(&chs, &"general".to_string()), Some(2));
}

#[test]
fn first_of_equal_names_wins() {
    let chs = vec![
        ch(7, ChannelKind::Text, "general"),
        ch(3, ChannelKind::Text, "general"),
    ];
    assert_eq!(find_target_channel(&chs, &"general".to_string()), Some(7));
}

#[test]
fn no_target_channel() {
    let chs = vec![ch(1, ChannelKind::Text, "General"), ch(2, ChannelKind::Other, "general")];
    assert_eq!(find_target_channel(&chs, &"general".to_string()), None);
    assert_eq!(find_target_channel(&Vec::new(), &"general".to_string()), None);
}
