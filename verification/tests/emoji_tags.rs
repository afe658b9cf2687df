use botcore::emoji_tags::{emoji_data_uri, extract_emojis, name_taken, NewEmoji};

#[test]
fn new_emoji_builds_url_and_content_type() {
    let e = NewEmoji::new("ferris", "123", false);
    assert_eq!(e.name, "ferris");
    assert_eq!(e.url, "https://cdn.discordapp.com/emojis/123.png");
    assert_eq!(e.content_type, "image/png");

    let e = NewEmoji::new("wave", "456", true);
    assert_eq!(e.url, "https://cdn.discordapp.com/emojis/456.gif");
    assert_eq!(e.content_type, "image/gif");
}

#[test]
fn extraction_finds_still_emoji_then_animated() {
    let text = "look <:smile:123> and <a:wave:456> and <:frown:789>!".to_string();
    let found = extract_emojis(text);
    assert_eq!(found.len(), 3);
    assert_eq!(found[0].name, "smile");
    assert_eq!(found[0].url, "https://cdn.discordapp.com/emojis/123.png");
    assert_eq!(found[1].name, "frown");
    assert_eq!(found[1].url, "https://cdn.discordapp.com/emojis/789.png");
    assert_eq!(found[2].name, "wave");
    assert_eq!(found[2].url, "https://cdn.discordapp.com/emojis/456.gif");
    assert_eq!(found[2].content_type, "image/gif");
}

#[test]
fn malformed_tags_are_passed_over() {
    assert!(extract_emojis("no emoji here".to_string()).is_empty());
    assert!(extract_emojis("<:noid:>".to_string()).is_empty());
    assert!(extract_emojis("<:_:12".to_string()).is_empty());
    assert!(extract_emojis("<::123>".to_string()).is_empty());
    assert!(extract_emojis("<a:x:12a>".to_string()).is_empty());

    // a failed prefix does not hide a tag starting inside it
    let found = extract_emojis("<:<:ok:1>".to_string());
    assert_eq!(found.len(), 1);
    assert_eq!(found[0].name, "ok");
}

#[test]
fn matches_never_overlap() {
    let found = extract_emojis("<:a:1><:b:2>".to_string());
    assert_eq!(found.len(), 2);
    assert_eq!(found[0].name, "a");
    assert_eq!(found[1].name, "b");
}

#[test]
fn data_uri_carries_the_real_base64_encoding() {
    let bytes: Vec<u8> = vec![0x89, b'P', b'N', b'G'];
    let uri = emoji_data_uri("image/png", &bytes);
    let expected = format!(
        "data:image/png;base64,{}",
        base64::Engine::encode(&base64::engine::general_purpose::STANDARD, &bytes)
    );
    assert_eq!(uri, expected);
    assert_eq!(uri, "data:image/png;base64,iVBORw==");
}

#[test]
fn duplicate_names_are_noticed() {
    let existing = vec!["ferris".to_string(), "wave".to_string()];
    assert!(name_taken(&existing, &"wave".to_string()));
    assert!(!name_taken(&existing, &"smile".to_string()));
    assert!(!name_taken(&Vec::new(), &"wave".to_string()));
}
