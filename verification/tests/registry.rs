use botcore::emoji_id::{render_identity, EmojiReaction, SurrogateTable, SURROGATE_TAG};
use botcore::registry::{Binding, BindingError, ReactionEffect, Registry};

fn smile() -> EmojiReaction {
    EmojiReaction::Unicode { grapheme: "😄".to_string() }
}

fn frown() -> EmojiReaction {
    EmojiReaction::Unicode { grapheme: "🙁".to_string() }
}

#[test]
fn resolving_a_grapheme_twice_yields_the_same_identity() {
    let mut table = SurrogateTable::new();
    let a = table.resolve(&"😄".to_string());
    let b = table.resolve(&"🙁".to_string());
    let a_again = table.resolve(&"😄".to_string());
    assert_eq!(a, a_again);
    assert_ne!(a, b);
    assert_eq!(table.len(), 2);
}

#[test]
fn surrogate_identities_round_trip_to_their_grapheme() {
    let mut table = SurrogateTable::new();
    let id = table.resolve(&"😄".to_string());
    assert_eq!(table.grapheme_of(id).unwrap(), "😄");
    assert!(table.grapheme_of(id + 1).is_none());
    assert!(table.grapheme_of(7).is_none());
}

#[test]
fn identities_render_back_to_a_display_form() {
    let mut table = SurrogateTable::new();
    let id = table.resolve(&"😄".to_string());
    assert_eq!(render_identity(id, &table, None), "😄");
    // a surrogate this table never minted falls back to the raw id
    assert_eq!(render_identity(id + 5, &table, None), (id + 5).to_string());
    // a custom emoji renders as its tag; a deleted one as its raw id
    assert_eq!(render_identity(555, &table, Some("ferris")), "<:ferris:555>");
    assert_eq!(render_identity(555, &table, None), "555");
}

#[test]
fn surrogate_and_custom_identities_never_collide() {
    let mut table = SurrogateTable::new();
    let surrogate = table.resolve(&"😄".to_string());
    assert!(surrogate >= SURROGATE_TAG);
    // a realistic platform snowflake
    let custom = 1313272092879360040u64;
    assert!(custom < SURROGATE_TAG);
    assert_ne!(surrogate, custom);
}

#[test]
fn add_binding_rejects_bad_role_and_foreign_emoji_without_writes() {
    let mut reg = Registry::new();
    let err = reg
        .add_binding(1, 2, 10, 42, &smile(), false, true)
        .unwrap_err();
    assert_eq!(err, BindingError::UnknownRole);
    assert_eq!(reg.binding_count(), 0);
    assert_eq!(reg.emoji_count(), 0);

    let custom = EmojiReaction::Custom { id: 555, animated: false };
    let err = reg
        .add_binding(1, 2, 10, 42, &custom, true, false)
        .unwrap_err();
    assert_eq!(err, BindingError::ForeignEmoji);
    assert_eq!(reg.binding_count(), 0);
    assert!(!reg.is_flagged(10));
}

#[test]
fn duplicate_binding_is_rejected_without_mutating_the_first() {
    let mut reg = Registry::new();
    let eid = reg.add_binding(1, 2, 10, 42, &smile(), true, true).unwrap();
    let before = reg.bindings().clone();

    // same (message, emoji), different role: rejected, nothing changes
    let err = reg
        .add_binding(1, 2, 10, 77, &smile(), true, true)
        .unwrap_err();
    assert_eq!(err, BindingError::Duplicate);
    assert_eq!(reg.bindings(), &before);
    assert_eq!(reg.bindings()[0].role_id, 42);
    assert_eq!(reg.bindings()[0].emoji_id, eid);
}

#[test]
fn membership_flag_follows_bindings() {
    let mut reg = Registry::new();
    assert!(!reg.is_flagged(10));
    reg.add_binding(1, 2, 10, 42, &smile(), true, true).unwrap();
    assert!(reg.is_flagged(10));
    reg.add_binding(1, 2, 10, 43, &frown(), true, true).unwrap();
    assert!(reg.is_flagged(10));

    // one binding removed, another remains: still flagged
    assert!(reg.remove_binding(10, &smile()));
    assert!(reg.is_flagged(10));

    // last binding removed: the flag is cleared
    assert!(reg.remove_binding(10, &frown()));
    assert!(!reg.is_flagged(10));

    // removing what is not there is no failure
    assert!(!reg.remove_binding(10, &frown()));
}

#[test]
fn unflagged_message_is_skipped_without_touching_anything() {
    let mut reg = Registry::new();
    reg.add_binding(1, 2, 10, 42, &smile(), true, true).unwrap();
    let bindings_before = reg.bindings().clone();
    let emojis_before = reg.emoji_count();

    // a reaction on a message with no bindings: the fast path answers
    // without resolving the emoji or looking anything up
    let effect = reg.on_reaction(99, &frown(), 7, false, true);
    assert_eq!(effect, ReactionEffect::Skipped);
    assert_eq!(reg.bindings(), &bindings_before);
    assert_eq!(reg.emoji_count(), emojis_before);

    // a bot reacting on a flagged message is skipped too
    let effect = reg.on_reaction(10, &smile(), 7, true, true);
    assert_eq!(effect, ReactionEffect::Skipped);
    assert_eq!(reg.emoji_count(), emojis_before);
}

#[test]
fn reaction_grants_and_revokes_the_bound_role() {
    let mut reg = Registry::new();
    reg.add_binding(1, 2, 10, 42, &smile(), true, true).unwrap();

    let effect = reg.on_reaction(10, &smile(), 7, false, true);
    assert_eq!(
        effect,
        ReactionEffect::Grant { guild_id: 1, user_id: 7, role_id: 42 }
    );

    let effect = reg.on_reaction(10, &smile(), 7, false, false);
    assert_eq!(
        effect,
        ReactionEffect::Revoke { guild_id: 1, user_id: 7, role_id: 42 }
    );

    // an unrelated emoji on the same message: no role change, no error
    let effect = reg.on_reaction(10, &frown(), 7, false, true);
    assert_eq!(effect, ReactionEffect::Unmatched);
}

#[test]
fn custom_emoji_keep_their_native_identity() {
    let mut reg = Registry::new();
    let custom = EmojiReaction::Custom { id: 987654321, animated: true };
    let eid = reg.add_binding(1, 2, 11, 5, &custom, true, true).unwrap();
    assert_eq!(eid, 987654321);
    assert_eq!(reg.emoji_count(), 0);

    let effect = reg.on_reaction(11, &custom, 3, false, true);
    assert_eq!(
        effect,
        ReactionEffect::Grant { guild_id: 1, user_id: 3, role_id: 5 }
    );
}

#[test]
fn startup_load_flags_every_bound_message() {
    let rows = vec![
        Binding { message_id: 10, channel_id: 2, guild_id: 1, role_id: 42, emoji_id: 7 },
        Binding { message_id: 11, channel_id: 2, guild_id: 1, role_id: 43, emoji_id: 7 },
        Binding { message_id: 10, channel_id: 2, guild_id: 1, role_id: 44, emoji_id: 8 },
    ];
    let reg = Registry::from_rows(rows, SurrogateTable::new());
    assert!(reg.is_flagged(10));
    assert!(reg.is_flagged(11));
    assert!(!reg.is_flagged(12));
    assert_eq!(reg.binding_count(), 3);
}
