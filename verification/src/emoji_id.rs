//! Emoji identity resolution.
//!
//! A platform reaction names its emoji in one of two ways: a custom guild
//! emoji carries a numeric snowflake id, while a plain Unicode emoji is just
//! a grapheme string with no number attached. The rest of the system wants a
//! single stable integer key for either kind, usable as a database join key.
//!
//! Custom emoji keep their native id. Unicode graphemes are lazily assigned
//! surrogate ids from a table that grows on first sight. Surrogate ids carry
//! an explicit tag bit ([`SURROGATE_TAG`]) so that the two ranges are
//! disjoint by construction rather than by luck of the snowflake epoch.

use vstd::prelude::*;

verus! {

/// Identities of surrogate (Unicode) emoji carry this tag bit; native
/// custom-emoji snowflakes are required to stay below it, so the two ranges
/// can never meet. Both kinds therefore fit in 63 bits.
pub const SURROGATE_TAG: u64 = 0x4000_0000_0000_0000;

/// Capacity of a surrogate table: more distinct graphemes than Unicode will
/// ever define, yet small enough that every identity stays below 2^63.
pub const SURROGATE_CAPACITY: u64 = 0x1_0000_0000;

/// A reaction as the platform reports it: either a custom guild emoji with
/// its numeric id, or a bare Unicode grapheme.
pub enum EmojiReaction {
    Custom { id: u64, animated: bool },
    Unicode { grapheme: String },
}

impl EmojiReaction {
    /// A reaction the platform can actually deliver: custom ids are
    /// snowflakes and stay clear of the surrogate tag bit.
    pub open spec fn wf(&self) -> bool {
        match self {
            EmojiReaction::Custom { id, .. } => *id < SURROGATE_TAG,
            EmojiReaction::Unicode { .. } => true,
        }
    }

    pub open spec fn is_custom(&self) -> bool {
        matches!(self, EmojiReaction::Custom { .. })
    }
}

/// Index of the first occurrence of `g` in `s`; meaningful only when
/// `s.contains(g)`.
pub open spec fn first_index(s: Seq<Seq<char>>, g: Seq<char>) -> int
    decreases s.len(),
{
    if s.len() == 0 {
        0
    } else if s[0] == g {
        0
    } else {
        1 + first_index(s.drop_first(), g)
    }
}

/// The surrogate identity read off a table position: the tag bit plus the
/// grapheme's index in the table.
pub open spec fn surrogate_id_at(i: int) -> u64 {
    (SURROGATE_TAG + i) as u64
}

/// What resolving `g` against table `t` yields: the table afterwards and the
/// identity handed out. A known grapheme leaves the table alone; a new one is
/// appended and named by its fresh position.
pub open spec fn resolve_spec(t: Seq<Seq<char>>, g: Seq<char>) -> (Seq<Seq<char>>, u64) {
    if t.contains(g) {
        (t, surrogate_id_at(first_index(t, g)))
    } else {
        (t.push(g), surrogate_id_at(t.len() as int))
    }
}

/// What resolving a whole reaction yields: a custom emoji keeps its native
/// id and leaves the table alone, a Unicode grapheme goes through
/// [`resolve_spec`].
pub open spec fn reaction_resolve_spec(t: Seq<Seq<char>>, e: EmojiReaction) -> (
    Seq<Seq<char>>,
    u64,
) {
    match e {
        EmojiReaction::Custom { id, .. } => (t, id),
        EmojiReaction::Unicode { grapheme } => resolve_spec(t, grapheme@),
    }
}

/// Graphemes are unique (the table is keyed on the string) and the table
/// never outgrows its capacity.
pub open spec fn table_wf(t: Seq<Seq<char>>) -> bool {
    &&& forall|i: int, j: int| 0 <= i < j < t.len() ==> t[i] != t[j]
    &&& t.len() <= SURROGATE_CAPACITY
}

/// The durable `{grapheme <-> surrogate id}` table, insert-if-absent.
///
/// The grapheme at position `i` owns surrogate identity `SURROGATE_TAG + i`.
pub struct SurrogateTable {
    graphemes: Vec<String>,
}

impl View for SurrogateTable {
    type V = Seq<Seq<char>>;

    closed spec fn view(&self) -> Seq<Seq<char>> {
        self.graphemes.deep_view()
    }
}

impl SurrogateTable {
    /// See [`table_wf`].
    pub open spec fn wf(&self) -> bool {
        table_wf(self@)
    }

    /// Whether one more grapheme may still be minted.
    pub open spec fn has_room(&self) -> bool {
        self@.len() < SURROGATE_CAPACITY
    }

    pub fn new() -> (r: SurrogateTable)
        ensures
            r.wf(),
            r.has_room(),
            r@ == Seq::<Seq<char>>::empty(),
    {
        let r = SurrogateTable { graphemes: Vec::new() };
        proof {
            assert(r@ =~= Seq::<Seq<char>>::empty());
        }
        r
    }

    /// How many graphemes have been assigned a surrogate so far.
    pub fn len(&self) -> (r: usize)
        ensures
            r == self@.len(),
    {
        self.graphemes.len()
    }

    /// Position of `g` in the table, if present.
    fn position_of(&self, g: &String) -> (r: Option<usize>)
        ensures
            match r {
                Some(i) => {
                    &&& i < self@.len()
                    &&& self@[i as int] == g@
                    &&& i == first_index(self@, g@)
                    &&& self@.contains(g@)
                },
                None => !self@.contains(g@),
            },
    {
        let n = self.graphemes.len();
        let mut i: usize = 0;
        while i < n
            invariant
                i <= n,
                n == self@.len(),
                self@ == self.graphemes.deep_view(),
                forall|j: int| 0 <= j < i ==> self@[j] != g@,
            decreases n - i,
        {
            proof {
                assert(self.graphemes.deep_view()[i as int] == self.graphemes@[i as int]@);
            }
            if self.graphemes[i].eq(g) {
                proof {
                    lemma_first_index_of_present(self@, g@, i as int);
                }
                return Some(i);
            }
            i = i + 1;
        }
        proof {
            assert(forall|j: int| 0 <= j < self@.len() ==> self@[j] != g@);
        }
        None
    }

    /// Resolve a grapheme to its surrogate identity, minting one on first
    /// sight. Models the durable insert-if-absent followed by the lookup: the
    /// same grapheme always converges on the same identity.
    pub fn resolve(&mut self, g: &String) -> (id: u64)
        requires
            old(self).wf(),
            old(self).has_room(),
        ensures
            final(self).wf(),
            (final(self)@, id) == resolve_spec(old(self)@, g@),
            final(self)@.contains(g@),
            SURROGATE_TAG <= id < SURROGATE_TAG + SURROGATE_CAPACITY,
    {
        match self.position_of(g) {
            Some(i) => {
                proof {
                    lemma_first_index_in_range(self@, g@);
                }
                SURROGATE_TAG + (i as u64)
            },
            None => {
                let i = self.graphemes.len();
                let ghost t0 = self@;
                self.graphemes.push(g.clone());
                proof {
                    assert(self@ =~= t0.push(g@));
                    assert(self@[i as int] == g@);
                    assert(self@.contains(g@));
                    assert forall|a: int, b: int|
                        0 <= a < b < self@.len() implies self@[a] != self@[b] by {
                        if b == t0.len() {
                            assert(!t0.contains(g@));
                            assert(t0[a] != g@);
                        }
                    }
                }
                SURROGATE_TAG + (i as u64)
            },
        }
    }

    /// Resolve any platform reaction to its 63-bit identity: custom emoji
    /// keep their snowflake, Unicode graphemes go through [`resolve`].
    pub fn resolve_reaction(&mut self, e: &EmojiReaction) -> (id: u64)
        requires
            old(self).wf(),
            old(self).has_room(),
            e.wf(),
        ensures
            final(self).wf(),
            (final(self)@, id) == reaction_resolve_spec(old(self)@, *e),
            e.is_custom() ==> id < SURROGATE_TAG && final(self)@ == old(self)@,
            !e.is_custom() ==> SURROGATE_TAG <= id,
    {
        match e {
            EmojiReaction::Custom { id, .. } => *id,
            EmojiReaction::Unicode { grapheme } => self.resolve(grapheme),
        }
    }

    /// Render a surrogate identity back to its grapheme, if the identity was
    /// ever minted by this table. The inverse direction of [`resolve`].
    pub fn grapheme_of(&self, id: u64) -> (r: Option<String>)
        ensures
            match r {
                Some(g) => {
                    &&& SURROGATE_TAG <= id
                    &&& id - SURROGATE_TAG < self@.len()
                    &&& g@ == self@[id - SURROGATE_TAG]
                },
                None => id < SURROGATE_TAG || self@.len() <= id - SURROGATE_TAG,
            },
    {
        if id < SURROGATE_TAG {
            return None;
        }
        let i = id - SURROGATE_TAG;
        if i < self.graphemes.len() as u64 {
            let idx = i as usize;
            proof {
                assert(self.graphemes.deep_view()[idx as int] == self.graphemes@[idx as int]@);
            }
            Some(self.graphemes[idx].clone())
        } else {
            None
        }
    }
}

/// Render an identity back to a display form — the inverse of resolution.
///
/// A surrogate identity shows its grapheme; a custom identity shows the
/// usual `<:name:id>` tag, with the emoji's current name fetched from the
/// guild by the caller. When the lookup finds nothing (the custom emoji
/// was deleted, or the surrogate was never minted here) the raw id is
/// printed rather than failing: a stale binding should still be listable.
pub fn render_identity(identity: u64, table: &SurrogateTable, custom_name: Option<&str>) -> (r:
    String)
    ensures
        identity >= SURROGATE_TAG ==> ({
            let i = identity - SURROGATE_TAG;
            if i < table@.len() {
                r@ == table@[i as int]
            } else {
                r@ == crate::text::decimal_digits(identity as nat)
            }
        }),
        identity < SURROGATE_TAG ==> match custom_name {
            Some(name) => r@ == "<:"@ + name@ + ":"@ + crate::text::decimal_digits(
                identity as nat,
            ) + ">"@,
            None => r@ == crate::text::decimal_digits(identity as nat),
        },
{
    if identity >= SURROGATE_TAG {
        match table.grapheme_of(identity) {
            Some(g) => g,
            None => crate::text::u64_to_string(identity),
        }
    } else {
        match custom_name {
            Some(name) => {
                let digits = crate::text::u64_to_string(identity);
                String::from_str("<:").concat(name).concat(":").concat(digits.as_str()).concat(
                    ">",
                )
            },
            None => crate::text::u64_to_string(identity),
        }
    }
}

proof fn lemma_first_index_of_present(s: Seq<Seq<char>>, g: Seq<char>, i: int)
    requires
        0 <= i < s.len(),
        s[i] == g,
        forall|j: int| 0 <= j < i ==> s[j] != g,
    ensures
        first_index(s, g) == i,
        s.contains(g),
    decreases i,
{
    if i == 0 {
    } else {
        assert(s[0] != g);
        assert(s.drop_first()[i - 1] == g);
        assert(forall|j: int| 0 <= j < i - 1 ==> s.drop_first()[j] == s[j + 1] && s[j + 1] != g);
        lemma_first_index_of_present(s.drop_first(), g, i - 1);
    }
}

proof fn lemma_first_index_in_range(s: Seq<Seq<char>>, g: Seq<char>)
    requires
        s.contains(g),
    ensures
        0 <= first_index(s, g) < s.len(),
        s[first_index(s, g)] == g,
    decreases s.len(),
{
    if s[0] == g {
    } else {
        assert(s.drop_first().contains(g)) by {
            let w = choose|i: int| 0 <= i < s.len() && s[i] == g;
            assert(s.drop_first()[w - 1] == g);
        }
        lemma_first_index_in_range(s.drop_first(), g);
    }
}

/// Resolving the same grapheme twice yields the same identity, and the second
/// resolution leaves the table untouched: identities, once minted, are
/// stable.
pub proof fn lemma_resolve_stable(t: Seq<Seq<char>>, g: Seq<char>)
    ensures
        resolve_spec(resolve_spec(t, g).0, g) == resolve_spec(t, g),
{
    if t.contains(g) {
        lemma_first_index_in_range(t, g);
    } else {
        let t2 = t.push(g);
        assert(t2[t.len() as int] == g);
        assert(t2.contains(g));
        assert(forall|j: int| 0 <= j < t.len() ==> t2[j] == t[j] && t[j] != g);
        lemma_first_index_of_present(t2, g, t.len() as int);
    }
}

/// Distinct graphemes never share an identity: a well-formed table holds
/// each grapheme once, so two different graphemes resolve to different
/// positions and so to different surrogate ids.
pub proof fn lemma_distinct_graphemes_distinct_ids(t: Seq<Seq<char>>, g1: Seq<char>, g2: Seq<char>)
    requires
        table_wf(t),
        t.contains(g1),
        t.contains(g2),
        g1 != g2,
    ensures
        resolve_spec(t, g1).1 != resolve_spec(t, g2).1,
{
    lemma_first_index_in_range(t, g1);
    lemma_first_index_in_range(t, g2);
    let i1 = first_index(t, g1);
    let i2 = first_index(t, g2);
    assert(t[i1] == g1 && t[i2] == g2);
    assert(i1 != i2);
    assert(surrogate_id_at(i1) == SURROGATE_TAG + i1);
    assert(surrogate_id_at(i2) == SURROGATE_TAG + i2);
}

/// A custom-emoji identity (a snowflake below the tag bit) can never equal a
/// surrogate identity handed out by a table with room: the tag bit keeps the
/// two ranges disjoint.
pub proof fn lemma_identities_disjoint(t: Seq<Seq<char>>, g: Seq<char>, custom_id: u64)
    requires
        custom_id < SURROGATE_TAG,
        t.len() <= SURROGATE_CAPACITY,
    ensures
        resolve_spec(t, g).1 != custom_id,
        resolve_spec(t, g).1 >= SURROGATE_TAG,
{
    if t.contains(g) {
        lemma_first_index_in_range(t, g);
    }
}

} // verus!
