//! The reaction-role registry.
//!
//! A binding says: reacting with a given emoji on a given message grants (or
//! revokes) a given role. Bindings are unique on `(message, emoji identity)`.
//! Beside the binding table the registry keeps a membership set of message
//! ids — the O(1) fast path that answers "does this message have any
//! bindings at all" so the event path can skip the lookup for the
//! overwhelming majority of reactions.
//!
//! The registry only decides; it performs no I/O. Callers fetch the facts a
//! decision needs (does the role exist, is the custom emoji from this
//! guild, is the reacting user a bot) and carry out the actions a decision
//! names (grant or revoke the role, place or strip the platform reaction).

use vstd::prelude::*;

use crate::emoji_id::EmojiReaction;
use crate::emoji_id::SurrogateTable;
use crate::emoji_id::reaction_resolve_spec;
use crate::emoji_id::table_wf;

verus! {

/// One persisted reaction-role rule.
#[derive(Clone, Copy, PartialEq, Eq, Structural, Debug)]
pub struct Binding {
    pub message_id: u64,
    pub channel_id: u64,
    pub guild_id: u64,
    pub role_id: u64,
    pub emoji_id: u64,
}

/// Why an `add_binding` request was turned down. All of these are user
/// errors: nothing has been written when one comes back.
#[derive(Clone, Copy, PartialEq, Eq, Structural, Debug)]
pub enum BindingError {
    /// The role does not exist in the guild.
    UnknownRole,
    /// The custom emoji belongs to another guild.
    ForeignEmoji,
    /// The message already binds this emoji.
    Duplicate,
}

/// What a platform reaction event amounts to.
#[derive(Clone, Copy, PartialEq, Eq, Structural, Debug)]
pub enum ReactionEffect {
    /// Fast path: the message has no bindings, or a bot reacted. Decided
    /// without touching any durable state.
    Skipped,
    /// The message is flagged but this emoji is bound to nothing — a stray
    /// reaction, worth a warning and nothing else.
    Unmatched,
    /// Grant `role_id` to `user_id` in `guild_id`.
    Grant { guild_id: u64, user_id: u64, role_id: u64 },
    /// Revoke `role_id` from `user_id` in `guild_id`.
    Revoke { guild_id: u64, user_id: u64, role_id: u64 },
}

/// Whether position `i` of `s` binds `(msg, eid)`.
pub open spec fn pair_at(s: Seq<Binding>, i: int, msg: u64, eid: u64) -> bool {
    s[i].message_id == msg && s[i].emoji_id == eid
}

/// Whether some binding for `(msg, eid)` exists in `s`.
pub open spec fn has_pair(s: Seq<Binding>, msg: u64, eid: u64) -> bool {
    exists|i: int| 0 <= i < s.len() && pair_at(s, i, msg, eid)
}

/// Whether any binding in `s` concerns message `msg`.
pub open spec fn has_message(s: Seq<Binding>, msg: u64) -> bool {
    exists|i: int| 0 <= i < s.len() && s[i].message_id == msg
}

/// The first binding for `(msg, eid)` in `s`, if any.
pub open spec fn find_pair(s: Seq<Binding>, msg: u64, eid: u64) -> Option<Binding>
    decreases s.len(),
{
    if s.len() == 0 {
        None
    } else if pair_at(s, 0, msg, eid) {
        Some(s[0])
    } else {
        find_pair(s.drop_first(), msg, eid)
    }
}

/// `s` without its first binding for `(msg, eid)`; `s` itself if there is
/// none.
pub open spec fn remove_pair(s: Seq<Binding>, msg: u64, eid: u64) -> Seq<Binding>
    decreases s.len(),
{
    if s.len() == 0 {
        s
    } else if pair_at(s, 0, msg, eid) {
        s.drop_first()
    } else {
        seq![s[0]] + remove_pair(s.drop_first(), msg, eid)
    }
}

/// No two positions bind the same `(message, emoji)` pair.
pub open spec fn unique_pairs(s: Seq<Binding>) -> bool {
    forall|i: int, j: int|
        0 <= i < j < s.len() ==> !(s[i].message_id == s[j].message_id && s[i].emoji_id
            == s[j].emoji_id)
}

/// Every message that has a binding is in the membership set.
pub open spec fn flags_cover(bindings: Seq<Binding>, flags: Seq<u64>) -> bool {
    forall|i: int|
        0 <= i < bindings.len() ==> flags.contains(#[trigger] bindings[i].message_id)
}

/// Each message id appears in the membership set at most once.
pub open spec fn distinct_ids(s: Seq<u64>) -> bool {
    forall|i: int, j: int| 0 <= i < j < s.len() ==> s[i] != s[j]
}

/// The in-process registry: the binding table, the membership fast path,
/// and the emoji surrogate table the identities come from.
pub struct Registry {
    bindings: Vec<Binding>,
    flagged: Vec<u64>,
    emojis: SurrogateTable,
}

impl Registry {
    /// The persisted bindings, in insertion order.
    pub closed spec fn bindings_seq(self) -> Seq<Binding> {
        self.bindings@
    }

    /// The membership set of message ids.
    pub closed spec fn flags_seq(self) -> Seq<u64> {
        self.flagged@
    }

    /// The surrogate-emoji table.
    pub closed spec fn emoji_table(self) -> Seq<Seq<char>> {
        self.emojis@
    }

    pub open spec fn spec_flagged(self, msg: u64) -> bool {
        self.flags_seq().contains(msg)
    }

    pub open spec fn spec_has_binding(self, msg: u64, eid: u64) -> bool {
        has_pair(self.bindings_seq(), msg, eid)
    }

    /// The registry invariant: bindings are unique per `(message, emoji)`,
    /// the membership set lists every message that has a binding (it may
    /// also keep stale entries — a false positive only costs one lookup),
    /// each message id is flagged at most once, and the emoji table is
    /// well formed.
    pub open spec fn wf(self) -> bool {
        &&& unique_pairs(self.bindings_seq())
        &&& flags_cover(self.bindings_seq(), self.flags_seq())
        &&& distinct_ids(self.flags_seq())
        &&& table_wf(self.emoji_table())
    }

    /// Room for at least one more surrogate emoji.
    pub open spec fn emoji_room(self) -> bool {
        self.emoji_table().len() < crate::emoji_id::SURROGATE_CAPACITY
    }

    pub fn new() -> (r: Registry)
        ensures
            r.wf(),
            r.emoji_room(),
            r.bindings_seq() == Seq::<Binding>::empty(),
            r.flags_seq() == Seq::<u64>::empty(),
            r.emoji_table() == Seq::<Seq<char>>::empty(),
    {
        let r = Registry {
            bindings: Vec::new(),
            flagged: Vec::new(),
            emojis: SurrogateTable::new(),
        };
        proof {
            assert(r.bindings_seq() =~= Seq::<Binding>::empty());
            assert(r.flags_seq() =~= Seq::<u64>::empty());
        }
        r
    }

    /// The startup load: take the rows of the durable binding table and
    /// derive the membership set from them. Rows are unique on
    /// `(message, emoji)` — the store's unique constraint guarantees it.
    pub fn from_rows(rows: Vec<Binding>, emojis: SurrogateTable) -> (r: Registry)
        requires
            forall|i: int, j: int|
                0 <= i < j < rows@.len() ==> !(rows@[i].message_id == rows@[j].message_id
                    && rows@[i].emoji_id == rows@[j].emoji_id),
            emojis.wf(),
        ensures
            r.wf(),
            r.bindings_seq() == rows@,
            r.emoji_table() == emojis@,
            forall|m: u64| r.spec_flagged(m) <==> has_message(rows@, m),
    {
        let mut flagged: Vec<u64> = Vec::new();
        let n = rows.len();
        let mut i: usize = 0;
        while i < n
            invariant
                i <= n,
                n == rows@.len(),
                forall|a: int, b: int| 0 <= a < b < flagged@.len() ==> flagged@[a] != flagged@[b],
                forall|k: int|
                    0 <= k < i ==> flagged@.contains(#[trigger] rows@[k].message_id),
                forall|j: int|
                    0 <= j < flagged@.len() ==> exists|k: int|
                        0 <= k < i && rows@[k].message_id == #[trigger] flagged@[j],
            decreases n - i,
        {
            let ghost fl0 = flagged@;
            let m = rows[i].message_id;
            if !contains_u64(&flagged, m) {
                flagged.push(m);
            }
            proof {
                assert forall|k: int|
                    0 <= k < i + 1 implies flagged@.contains(#[trigger] rows@[k].message_id) by {
                    if k < i {
                        let j = choose|j: int|
                            0 <= j < fl0.len() && fl0[j] == rows@[k].message_id;
                        assert(flagged@[j] == rows@[k].message_id);
                    } else {
                        if fl0.contains(m) {
                            let j = choose|j: int| 0 <= j < fl0.len() && fl0[j] == m;
                            assert(flagged@[j] == m);
                        } else {
                            assert(flagged@[fl0.len() as int] == m);
                        }
                    }
                }
                assert forall|j: int|
                    0 <= j < flagged@.len() implies exists|k: int|
                        0 <= k < i + 1 && rows@[k].message_id == #[trigger] flagged@[j] by {
                    if j < fl0.len() {
                        let k0 = choose|k: int|
                            0 <= k < i && rows@[k].message_id == #[trigger] fl0[j];
                        assert(flagged@[j] == fl0[j]);
                        assert(0 <= k0 < i + 1 && rows@[k0].message_id == flagged@[j]);
                    } else {
                        assert(flagged@[j] == m);
                        assert(rows@[i as int].message_id == flagged@[j]);
                    }
                }
            }
            i = i + 1;
        }
        let r = Registry { bindings: rows, flagged, emojis };
        proof {
            assert forall|m: u64| r.spec_flagged(m) implies has_message(rows@, m) by {
                let j = choose|j: int|
                    0 <= j < r.flags_seq().len() && r.flags_seq()[j] == m;
                let k0 = choose|k: int|
                    0 <= k < n && rows@[k].message_id == #[trigger] r.flags_seq()[j];
                assert(0 <= k0 < rows@.len() && rows@[k0].message_id == m);
            }
            assert forall|m: u64| has_message(rows@, m) implies r.spec_flagged(m) by {
                let k = choose|k: int| 0 <= k < rows@.len() && rows@[k].message_id == m;
                assert(r.flags_seq().contains(rows@[k].message_id));
            }
        }
        r
    }

    /// Create a new reaction-role binding.
    ///
    /// The caller reports two facts only the platform knows: whether the
    /// role exists in the guild, and — for a custom emoji — whether the
    /// emoji belongs to this guild. Validation failures and duplicates are
    /// user errors; nothing durable changes when one is returned (except
    /// that resolving the emoji may have minted its surrogate id, which is
    /// idempotent). On success the binding is appended, the message is
    /// marked as having bindings, and the emoji identity is handed back so
    /// the caller can place the matching platform reaction.
    pub fn add_binding(
        &mut self,
        guild_id: u64,
        channel_id: u64,
        message_id: u64,
        role_id: u64,
        emoji: &EmojiReaction,
        role_exists: bool,
        emoji_in_guild: bool,
    ) -> (r: Result<u64, BindingError>)
        requires
            old(self).wf(),
            old(self).emoji_room(),
            emoji.wf(),
        ensures
            final(self).wf(),
            !role_exists ==> r == Err::<u64, BindingError>(BindingError::UnknownRole) && *final(self) == *old(self),
            role_exists && emoji.is_custom() && !emoji_in_guild ==> r == Err::<u64, BindingError>(
                BindingError::ForeignEmoji,
            ) && *final(self) == *old(self),
            role_exists && (!emoji.is_custom() || emoji_in_guild) ==> ({
                let resolved = reaction_resolve_spec(old(self).emoji_table(), *emoji);
                let eid = resolved.1;
                &&& final(self).emoji_table() == resolved.0
                &&& old(self).spec_has_binding(message_id, eid) ==> {
                    &&& r == Err::<u64, BindingError>(BindingError::Duplicate)
                    &&& final(self).bindings_seq() == old(self).bindings_seq()
                    &&& final(self).flags_seq() == old(self).flags_seq()
                }
                &&& !old(self).spec_has_binding(message_id, eid) ==> {
                    &&& r == Ok::<u64, BindingError>(eid)
                    &&& final(self).bindings_seq() == old(self).bindings_seq().push(
                        Binding { message_id, channel_id, guild_id, role_id, emoji_id: eid },
                    )
                    &&& final(self).spec_flagged(message_id)
                    &&& final(self).flags_seq() == (if old(self).spec_flagged(message_id) {
                        old(self).flags_seq()
                    } else {
                        old(self).flags_seq().push(message_id)
                    })
                }
            }),
    {
        if !role_exists {
            return Err(BindingError::UnknownRole);
        }
        match emoji {
            EmojiReaction::Custom { .. } => {
                if !emoji_in_guild {
                    return Err(BindingError::ForeignEmoji);
                }
            },
            EmojiReaction::Unicode { .. } => {},
        }
        let eid = self.emojis.resolve_reaction(emoji);
        match self.find_index(message_id, eid) {
            Some(_) => Err(BindingError::Duplicate),
            None => {
                let b = Binding { message_id, channel_id, guild_id, role_id, emoji_id: eid };
                let ghost bs0 = self.bindings@;
                let ghost fl0 = self.flagged@;
                self.bindings.push(b);
                if !contains_u64(&self.flagged, message_id) {
                    self.flagged.push(message_id);
                }
                proof {
                    assert(bs0 == old(self).bindings_seq());
                    assert(fl0 == old(self).flags_seq());
                    assert forall|i: int, j: int|
                        0 <= i < j < self.bindings@.len() implies !(
                    self.bindings@[i].message_id == self.bindings@[j].message_id
                        && self.bindings@[i].emoji_id == self.bindings@[j].emoji_id) by {
                        if j == bs0.len() {
                            assert(!has_pair(bs0, message_id, eid));
                            assert(!pair_at(bs0, i, message_id, eid));
                            assert(self.bindings@[i] == bs0[i]);
                        } else {
                            assert(self.bindings@[i] == bs0[i]);
                            assert(self.bindings@[j] == bs0[j]);
                            assert(!(bs0[i].message_id == bs0[j].message_id && bs0[i].emoji_id
                                == bs0[j].emoji_id));
                        }
                    }
                    assert forall|i: int|
                        0 <= i < self.bindings@.len() implies self.flagged@.contains(
                        #[trigger] self.bindings@[i].message_id,
                    ) by {
                        let m = self.bindings@[i].message_id;
                        if i < bs0.len() {
                            assert(self.bindings@[i] == bs0[i]);
                            assert(fl0.contains(bs0[i].message_id));
                            if !fl0.contains(message_id) {
                                lemma_push_preserves_contains(fl0, message_id, m);
                            }
                        } else {
                            if fl0.contains(message_id) {
                                assert(self.flagged@ == fl0);
                            } else {
                                assert(self.flagged@[fl0.len() as int] == message_id);
                            }
                        }
                    }
                    if !fl0.contains(message_id) {
                        assert(self.flagged@[fl0.len() as int] == message_id);
                        assert forall|a: int, b: int|
                            0 <= a < b < self.flagged@.len() implies self.flagged@[a]
                            != self.flagged@[b] by {
                            if b == fl0.len() {
                                assert(fl0[a] != message_id);
                            } else {
                                assert(self.flagged@[a] == fl0[a]);
                                assert(self.flagged@[b] == fl0[b]);
                            }
                        }
                    } else {
                        assert(self.flagged@ == fl0);
                    }
                }
                Ok(eid)
            },
        }
    }

    /// Delete the binding for `(message, emoji)`, if any. Absence is not a
    /// failure for a delete: the result only reports whether a binding was
    /// there. Afterwards the message's membership flag reflects whether any
    /// binding for it remains.
    pub fn remove_binding(&mut self, message_id: u64, emoji: &EmojiReaction) -> (removed: bool)
        requires
            old(self).wf(),
            old(self).emoji_room(),
            emoji.wf(),
        ensures
            final(self).wf(),
            final(self).emoji_table() == reaction_resolve_spec(old(self).emoji_table(), *emoji).0,
            ({
                let eid = reaction_resolve_spec(old(self).emoji_table(), *emoji).1;
                &&& removed == has_pair(old(self).bindings_seq(), message_id, eid)
                &&& final(self).bindings_seq() == remove_pair(
                    old(self).bindings_seq(),
                    message_id,
                    eid,
                )
            }),
            forall|m: u64|
                m != message_id ==> (final(self).spec_flagged(m) <==> old(self).spec_flagged(m)),
            final(self).spec_flagged(message_id) <==> (old(self).spec_flagged(message_id)
                && has_message(final(self).bindings_seq(), message_id)),
    {
        let eid = self.emojis.resolve_reaction(emoji);
        let ghost bs0 = self.bindings@;
        let removed = match self.find_index(message_id, eid) {
            None => {
                proof {
                    lemma_remove_pair_absent(bs0, message_id, eid);
                }
                false
            },
            Some(i) => {
                self.bindings.remove(i);
                proof {
                    lemma_remove_pair_at(bs0, message_id, eid, i as int);
                    bs0.remove_ensures(i as int);
                    assert(self.bindings@ == bs0.remove(i as int));
                    assert(bs0 == old(self).bindings_seq());
                    assert forall|a: int, b: int|
                        0 <= a < b < self.bindings@.len() implies !(
                    self.bindings@[a].message_id == self.bindings@[b].message_id
                        && self.bindings@[a].emoji_id == self.bindings@[b].emoji_id) by {
                        let a0: int = if a < i { a } else { a + 1 };
                        let b0: int = if b < i { b } else { b + 1 };
                        assert(bs0.remove(i as int)[a] == bs0[a0]);
                        assert(bs0.remove(i as int)[b] == bs0[b0]);
                        assert(!(bs0[a0].message_id == bs0[b0].message_id && bs0[a0].emoji_id
                            == bs0[b0].emoji_id));
                    }
                }
                true
            },
        };
        let ghost bs1 = self.bindings@;
        let ghost fl0 = self.flagged@;
        proof {
            assert(fl0 == old(self).flags_seq());
            assert(distinct_ids(self.flags_seq()));
        }
        if !self.has_any_binding(message_id) {
            self.unflag(message_id);
        }
        proof {
            lemma_remove_pair_elems(bs0, message_id, eid);
            assert(bs0 == old(self).bindings_seq());
            assert(self.bindings@ == bs1);
            assert(flags_cover(bs0, fl0));
            assert forall|k: int|
                0 <= k < self.bindings@.len() implies self.flagged@.contains(
                #[trigger] self.bindings@[k].message_id,
            ) by {
                let b = self.bindings@[k];
                assert(bs0.contains(b));
                let k0 = choose|k0: int| 0 <= k0 < bs0.len() && bs0[k0] == b;
                assert(fl0.contains(bs0[k0].message_id));
                assert(fl0.contains(b.message_id));
                if b.message_id == message_id {
                    assert(self.bindings@[k].message_id == message_id);
                    assert(has_message(bs1, message_id));
                    assert(self.flagged@ == fl0);
                } else {
                    if !has_message(bs1, message_id) {
                        assert(self.spec_flagged(b.message_id));
                    } else {
                        assert(self.flagged@ == fl0);
                    }
                }
            }
            assert forall|m: u64|
                m != message_id implies (self.spec_flagged(m) <==> fl0.contains(m)) by {
                if has_message(bs1, message_id) {
                    assert(self.flagged@ == fl0);
                } else {
                    assert(self.spec_flagged(m) <==> (fl0.contains(m) && m != message_id));
                }
            }
            if has_message(bs1, message_id) {
                assert(self.flagged@ == fl0);
            } else {
                assert(!self.spec_flagged(message_id));
            }
        }
        removed
    }

    /// The decision for one platform reaction event, add or remove.
    ///
    /// The hot path: a message without bindings, or a bot user, is skipped
    /// without touching anything — no lookup, no resolution, no write.
    /// Otherwise the emoji is resolved and the binding looked up; a flagged
    /// message whose reaction matches no binding is merely unmatched (this
    /// can legitimately happen once any binding existed), and a match names
    /// the role to grant or revoke. The caller performs the role change and
    /// must treat its failure as non-fatal: one bad reaction must never
    /// stop the event path.
    pub fn on_reaction(
        &mut self,
        message_id: u64,
        emoji: &EmojiReaction,
        user_id: u64,
        user_is_bot: bool,
        added: bool,
    ) -> (r: ReactionEffect)
        requires
            old(self).wf(),
            old(self).emoji_room(),
            emoji.wf(),
        ensures
            final(self).wf(),
            final(self).bindings_seq() == old(self).bindings_seq(),
            final(self).flags_seq() == old(self).flags_seq(),
            (!old(self).spec_flagged(message_id) || user_is_bot) ==> r
                == ReactionEffect::Skipped && *final(self) == *old(self),
            (old(self).spec_flagged(message_id) && !user_is_bot) ==> ({
                let resolved = reaction_resolve_spec(old(self).emoji_table(), *emoji);
                &&& final(self).emoji_table() == resolved.0
                &&& match find_pair(old(self).bindings_seq(), message_id, resolved.1) {
                    None => r == ReactionEffect::Unmatched,
                    Some(b) => r == (if added {
                        ReactionEffect::Grant {
                            guild_id: b.guild_id,
                            user_id,
                            role_id: b.role_id,
                        }
                    } else {
                        ReactionEffect::Revoke {
                            guild_id: b.guild_id,
                            user_id,
                            role_id: b.role_id,
                        }
                    }),
                }
            }),
    {
        if !self.is_flagged(message_id) || user_is_bot {
            return ReactionEffect::Skipped;
        }
        let eid = self.emojis.resolve_reaction(emoji);
        match self.find_index(message_id, eid) {
            None => {
                proof {
                    lemma_find_pair_absent(self.bindings@, message_id, eid);
                }
                ReactionEffect::Unmatched
            },
            Some(i) => {
                proof {
                    lemma_find_pair_at(self.bindings@, message_id, eid, i as int);
                }
                let b = &self.bindings[i];
                if added {
                    ReactionEffect::Grant { guild_id: b.guild_id, user_id, role_id: b.role_id }
                } else {
                    ReactionEffect::Revoke { guild_id: b.guild_id, user_id, role_id: b.role_id }
                }
            },
        }
    }

    /// Whether any binding for `msg` remains.
    fn has_any_binding(&self, msg: u64) -> (r: bool)
        ensures
            r == has_message(self.bindings_seq(), msg),
    {
        let n = self.bindings.len();
        let mut i: usize = 0;
        while i < n
            invariant
                i <= n,
                n == self.bindings@.len(),
                self.bindings_seq() == self.bindings@,
                forall|j: int| 0 <= j < i ==> self.bindings@[j].message_id != msg,
            decreases n - i,
        {
            if self.bindings[i].message_id == msg {
                return true;
            }
            i = i + 1;
        }
        false
    }

    /// Drop `msg` from the membership set, if present.
    fn unflag(&mut self, msg: u64)
        requires
            distinct_ids(old(self).flags_seq()),
        ensures
            final(self).bindings_seq() == old(self).bindings_seq(),
            final(self).emoji_table() == old(self).emoji_table(),
            distinct_ids(final(self).flags_seq()),
            forall|m: u64|
                final(self).spec_flagged(m) <==> (old(self).spec_flagged(m) && m != msg),
    {
        let n = self.flagged.len();
        let ghost fl0 = self.flagged@;
        let mut i: usize = 0;
        while i < n
            invariant
                i <= n,
                n == fl0.len(),
                self.flagged@ == fl0,
                fl0 == old(self).flags_seq(),
                self.bindings_seq() == old(self).bindings_seq(),
                self.emoji_table() == old(self).emoji_table(),
                distinct_ids(fl0),
                forall|j: int| 0 <= j < i ==> fl0[j] != msg,
            decreases n - i,
        {
            if self.flagged[i] == msg {
                self.flagged.remove(i);
                proof {
                    fl0.remove_ensures(i as int);
                    assert forall|a: int, b: int|
                        0 <= a < b < self.flagged@.len() implies self.flagged@[a]
                        != self.flagged@[b] by {
                        let a0: int = if a < i { a } else { a + 1 };
                        let b0: int = if b < i { b } else { b + 1 };
                        assert(self.flagged@[a] == fl0[a0]);
                        assert(self.flagged@[b] == fl0[b0]);
                    }
                    assert forall|m: u64|
                        self.flagged@.contains(m) implies (fl0.contains(m) && m != msg) by {
                        let j = choose|j: int| 0 <= j < self.flagged@.len() && self.flagged@[j] == m;
                        let j0: int = if j < i { j } else { j + 1 };
                        assert(fl0[j0] == m);
                        if m == msg {
                            assert(fl0[i as int] == msg);
                        }
                    }
                    assert forall|m: u64|
                        (fl0.contains(m) && m != msg) implies self.flagged@.contains(m) by {
                        let j0 = choose|j0: int| 0 <= j0 < fl0.len() && fl0[j0] == m;
                        if j0 < i {
                            assert(self.flagged@[j0] == m);
                        } else {
                            assert(fl0[i as int] == msg);
                            assert(j0 != i);
                            assert(self.flagged@[j0 - 1] == m);
                        }
                    }
                }
                return ;
            }
            i = i + 1;
        }
        proof {
            assert forall|m: u64| fl0.contains(m) implies m != msg by {
                let j = choose|j: int| 0 <= j < fl0.len() && fl0[j] == m;
            }
        }
    }

    /// The O(1)-intent fast-path check: is this message known to carry
    /// bindings?
    pub fn is_flagged(&self, msg: u64) -> (r: bool)
        ensures
            r == self.spec_flagged(msg),
    {
        contains_u64(&self.flagged, msg)
    }

    /// The stored bindings, for listing.
    pub fn bindings(&self) -> (r: &Vec<Binding>)
        ensures
            r@ == self.bindings_seq(),
    {
        &self.bindings
    }

    /// How many bindings are stored.
    pub fn binding_count(&self) -> (r: usize)
        ensures
            r == self.bindings_seq().len(),
    {
        self.bindings.len()
    }

    /// How many surrogate emoji ids have been minted.
    pub fn emoji_count(&self) -> (r: usize)
        ensures
            r == self.emoji_table().len(),
    {
        self.emojis.len()
    }

    /// First position of a binding for `(msg, eid)`.
    fn find_index(&self, msg: u64, eid: u64) -> (r: Option<usize>)
        ensures
            match r {
                Some(i) => {
                    &&& i < self.bindings_seq().len()
                    &&& pair_at(self.bindings_seq(), i as int, msg, eid)
                    &&& forall|j: int| 0 <= j < i ==> !pair_at(self.bindings_seq(), j, msg, eid)
                },
                None => !has_pair(self.bindings_seq(), msg, eid),
            },
    {
        let n = self.bindings.len();
        let mut i: usize = 0;
        while i < n
            invariant
                i <= n,
                n == self.bindings_seq().len(),
                self.bindings_seq() == self.bindings@,
                forall|j: int| 0 <= j < i ==> !pair_at(self.bindings_seq(), j, msg, eid),
            decreases n - i,
        {
            let b = &self.bindings[i];
            if b.message_id == msg && b.emoji_id == eid {
                return Some(i);
            }
            i = i + 1;
        }
        None
    }
}

/// The membership flag never reads "no bindings" while a binding for the
/// message still exists: the fast path may be stale towards false
/// positives, never towards false negatives.
pub proof fn lemma_flag_covers_bindings(r: Registry, msg: u64)
    requires
        r.wf(),
        has_message(r.bindings_seq(), msg),
    ensures
        r.spec_flagged(msg),
{
    let k = choose|k: int|
        0 <= k < r.bindings_seq().len() && r.bindings_seq()[k].message_id == msg;
    assert(r.flags_seq().contains(r.bindings_seq()[k].message_id));
}

proof fn lemma_push_preserves_contains(s: Seq<u64>, y: u64, x: u64)
    requires
        s.contains(x),
    ensures
        s.push(y).contains(x),
{
    let j = choose|j: int| 0 <= j < s.len() && s[j] == x;
    assert(s.push(y)[j] == x);
}

proof fn lemma_find_pair_at(s: Seq<Binding>, msg: u64, eid: u64, i: int)
    requires
        0 <= i < s.len(),
        pair_at(s, i, msg, eid),
        forall|j: int| 0 <= j < i ==> !pair_at(s, j, msg, eid),
    ensures
        find_pair(s, msg, eid) == Some(s[i]),
    decreases i,
{
    if i == 0 {
    } else {
        assert(!pair_at(s, 0, msg, eid));
        let st = s.drop_first();
        assert(st[i - 1] == s[i]);
        assert(pair_at(st, i - 1, msg, eid));
        assert forall|j: int| 0 <= j < i - 1 implies !pair_at(st, j, msg, eid) by {
            assert(st[j] == s[j + 1]);
            assert(!pair_at(s, j + 1, msg, eid));
        }
        lemma_find_pair_at(st, msg, eid, i - 1);
    }
}

proof fn lemma_find_pair_absent(s: Seq<Binding>, msg: u64, eid: u64)
    requires
        !has_pair(s, msg, eid),
    ensures
        find_pair(s, msg, eid) is None,
    decreases s.len(),
{
    if s.len() == 0 {
    } else {
        assert(!pair_at(s, 0, msg, eid));
        let st = s.drop_first();
        assert forall|j: int| 0 <= j < st.len() implies !pair_at(st, j, msg, eid) by {
            assert(st[j] == s[j + 1]);
            assert(!pair_at(s, j + 1, msg, eid));
        }
        assert(!has_pair(st, msg, eid));
        lemma_find_pair_absent(st, msg, eid);
    }
}

proof fn lemma_remove_pair_at(s: Seq<Binding>, msg: u64, eid: u64, i: int)
    requires
        0 <= i < s.len(),
        pair_at(s, i, msg, eid),
        forall|j: int| 0 <= j < i ==> !pair_at(s, j, msg, eid),
    ensures
        remove_pair(s, msg, eid) == s.remove(i),
    decreases i,
{
    s.remove_ensures(i);
    if i == 0 {
        assert(remove_pair(s, msg, eid) == s.drop_first());
        assert(s.drop_first() =~= s.remove(0));
    } else {
        assert(!pair_at(s, 0, msg, eid));
        let st = s.drop_first();
        assert(st[i - 1] == s[i]);
        assert(pair_at(st, i - 1, msg, eid));
        assert forall|j: int| 0 <= j < i - 1 implies !pair_at(st, j, msg, eid) by {
            assert(st[j] == s[j + 1]);
            assert(!pair_at(s, j + 1, msg, eid));
        }
        lemma_remove_pair_at(st, msg, eid, i - 1);
        st.remove_ensures(i - 1);
        assert(remove_pair(s, msg, eid) =~= s.remove(i)) by {
            let lhs = seq![s[0]] + st.remove(i - 1);
            assert(remove_pair(s, msg, eid) == lhs);
            assert(lhs.len() == s.len() - 1);
            assert forall|k: int| 0 <= k < lhs.len() implies lhs[k] == s.remove(i)[k] by {
                if k == 0 {
                } else if k < i {
                    assert(lhs[k] == st.remove(i - 1)[k - 1]);
                    assert(st.remove(i - 1)[k - 1] == st[k - 1]);
                    assert(st[k - 1] == s[k]);
                } else {
                    assert(lhs[k] == st.remove(i - 1)[k - 1]);
                    assert(st.remove(i - 1)[k - 1] == st[k]);
                    assert(st[k] == s[k + 1]);
                }
            }
        }
    }
}

proof fn lemma_remove_pair_absent(s: Seq<Binding>, msg: u64, eid: u64)
    requires
        !has_pair(s, msg, eid),
    ensures
        remove_pair(s, msg, eid) == s,
    decreases s.len(),
{
    if s.len() == 0 {
    } else {
        assert(!pair_at(s, 0, msg, eid));
        let st = s.drop_first();
        assert forall|j: int| 0 <= j < st.len() implies !pair_at(st, j, msg, eid) by {
            assert(st[j] == s[j + 1]);
            assert(!pair_at(s, j + 1, msg, eid));
        }
        assert(!has_pair(st, msg, eid));
        lemma_remove_pair_absent(st, msg, eid);
        assert(remove_pair(s, msg, eid) =~= s);
    }
}

proof fn lemma_remove_pair_elems(s: Seq<Binding>, msg: u64, eid: u64)
    ensures
        forall|k: int|
            0 <= k < remove_pair(s, msg, eid).len() ==> s.contains(
                #[trigger] remove_pair(s, msg, eid)[k],
            ),
    decreases s.len(),
{
    if s.len() == 0 {
    } else if pair_at(s, 0, msg, eid) {
        let st = s.drop_first();
        assert forall|k: int| 0 <= k < st.len() implies s.contains(#[trigger] st[k]) by {
            assert(st[k] == s[k + 1]);
        }
    } else {
        let st = s.drop_first();
        lemma_remove_pair_elems(st, msg, eid);
        let r = remove_pair(s, msg, eid);
        assert(r == seq![s[0]] + remove_pair(st, msg, eid));
        assert forall|k: int| 0 <= k < r.len() implies s.contains(#[trigger] r[k]) by {
            if k == 0 {
                assert(r[0] == s[0]);
            } else {
                assert(r[k] == remove_pair(st, msg, eid)[k - 1]);
                assert(st.contains(remove_pair(st, msg, eid)[k - 1]));
                let w = choose|w: int|
                    0 <= w < st.len() && st[w] == remove_pair(st, msg, eid)[k - 1];
                assert(s[w + 1] == st[w]);
            }
        }
    }
}

/// Linear membership test on a plain id vector.
fn contains_u64(v: &Vec<u64>, x: u64) -> (r: bool)
    ensures
        r == v@.contains(x),
{
    let n = v.len();
    let mut i: usize = 0;
    while i < n
        invariant
            i <= n,
            n == v@.len(),
            forall|j: int| 0 <= j < i ==> v@[j] != x,
        decreases n - i,
    {
        if v[i] == x {
            return true;
        }
        i = i + 1;
    }
    false
}

} // verus!
