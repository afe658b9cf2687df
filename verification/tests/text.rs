use botcore::text::{page_message, reminder_message, u64_to_string, user_mention};

#[test]
fn numbers_render_in_decimal() {
    assert_eq!(u64_to_string(0), "0");
    assert_eq!(u64_to_string(7), "7");
    assert_eq!(u64_to_string(10), "10");
    assert_eq!(u64_to_string(1056), "1056");
    assert_eq!(u64_to_string(u64::MAX), "18446744073709551615");
}

#[test]
fn mentions_embed_the_id() {
    assert_eq!(user_mention(80351110224678912), "<@80351110224678912>");
}

#[test]
fn reminder_replies_mention_their_owner() {
    assert_eq!(
        reminder_message("water the plants", 42),
        "Reminder for water the plants | <@42>"
    );
}

#[test]
fn page_headers_are_one_based() {
    assert_eq!(page_message(0, 3, "NAME\n"), "**Page 1/3**```NAME\n```");
    assert_eq!(page_message(2, 3, "x"), "**Page 3/3**```x```");
}
