use vstd::prelude::*;
use vstd::pervasive::unreached;

use crate::interaction::InteractionType;
use crate::inventory::Inventory;
use crate::range::Range;
use crate::rng::random_below;
use crate::strmap::StrMap;
use crate::strmap::assoc_contains;
use crate::strmap::lookup_or_zero;
use crate::strutil::drop_string;
use crate::strutil::join_strings;
use crate::strutil::lemma_drop_string_membership;
use crate::strutil::seq_has_string;
use crate::strutil::seq_views;
use crate::strutil::spec_opt_seq;
use crate::strutil::spec_join;
use crate::strutil::vec_filter_out_string;
use crate::strutil::vec_has_string;

verus! {

/// One attack of a combat entity template, drawn by integer weight.
#[derive(Clone)]
pub struct EntityAttack {
    pub name: String,
    pub strength: u64,
    pub weight: u8,
    pub effects: Option<StrMap<u64>>,
}

impl EntityAttack {
    /// Lands the attack on the player: health drops by `strength`
    /// (saturating at zero) and each inflicted status effect's remaining
    /// duration grows by the given amount, starting from zero when absent.
    pub fn apply(&self, player: &mut Player)
        requires
            old(player).vitality.effects.wf(),
            self.strength <= i64::MAX,
            match self.effects {
                Option::Some(m) => m.wf() && forall|j: int|
                    0 <= j < m.entries().len() ==> lookup_or_zero(
                        old(player).vitality.effects.entries(),
                        m.entries()[j].0@,
                    ) + m.entries()[j].1 <= u64::MAX,
                Option::None => true,
            },
        ensures
            final(player).vitality.health.max == old(player).vitality.health.max,
            final(player).vitality.health.value == if old(player).vitality.health.value
                <= self.strength {
                0u64
            } else {
                (old(player).vitality.health.value - self.strength) as u64
            },
            final(player).vitality.effects.wf(),
            *final(player) == (Player {
                vitality: (PlayerVitality {
                    health: final(player).vitality.health,
                    effects: final(player).vitality.effects,
                }),
                ..*old(player)
            }),
            match self.effects {
                Option::Some(m) => (forall|j: int|
                    0 <= j < m.entries().len() ==> final(player).vitality.effects.get_of(
                        m.entries()[j].0@,
                    ) == Some(
                        (lookup_or_zero(old(player).vitality.effects.entries(), m.entries()[j].0@)
                            + m.entries()[j].1) as u64,
                    )) && (forall|k2: Seq<char>|
                    !assoc_contains(m.entries(), k2) ==> final(player).vitality.effects.get_of(k2)
                        == old(player).vitality.effects.get_of(k2)),
                Option::None => final(player).vitality.effects.entries() == old(
                    player,
                ).vitality.effects.entries(),
            },
    {
        let ghost orig = *old(player);
        let d: i64 = -(self.strength as i64);
        player.vitality.health.set(d);
        match &self.effects {
            Option::Some(m) => {
                let mut j: usize = 0;
                while j < m.len()
                    invariant
                        j <= m.entries().len(),
                        m.wf(),
                        orig.vitality.effects.wf(),
                        player.vitality.effects.wf(),
                        forall|q: int|
                            0 <= q < m.entries().len() ==> lookup_or_zero(
                                orig.vitality.effects.entries(),
                                m.entries()[q].0@,
                            ) + m.entries()[q].1 <= u64::MAX,
                        forall|q: int|
                            0 <= q < j ==> player.vitality.effects.get_of(m.entries()[q].0@)
                                == Some(
                                (lookup_or_zero(orig.vitality.effects.entries(), m.entries()[q].0@)
                                    + m.entries()[q].1) as u64,
                            ),
                        forall|k2: Seq<char>|
                            (forall|q: int| 0 <= q < j ==> m.entries()[q].0@ != k2)
                                ==> player.vitality.effects.get_of(k2)
                                == orig.vitality.effects.get_of(k2),
                        player.vitality.health.max == orig.vitality.health.max,
                        player.vitality.health.value == if orig.vitality.health.value
                            <= self.strength {
                            0u64
                        } else {
                            (orig.vitality.health.value - self.strength) as u64
                        },
                        *player == (Player {
                            vitality: (PlayerVitality {
                                health: player.vitality.health,
                                effects: player.vitality.effects,
                            }),
                            ..orig
                        }),
                    decreases m.entries().len() - j,
                {
                    proof {
                        assert(forall|q: int|
                            0 <= q < j ==> m.entries()[q].0@ != m.entries()[j as int].0@);
                        assert(player.vitality.effects.get_of(m.entries()[j as int].0@)
                            == orig.vitality.effects.get_of(m.entries()[j as int].0@));
                    }
                    let pair = m.pair_at(j);
                    let n = pair.1;
                    let cur: Option<u64> = match player.vitality.effects.get(&pair.0) {
                        Option::Some(v) => Some(*v),
                        Option::None => None,
                    };
                    match cur {
                        Option::Some(v) => {
                            player.vitality.effects.set(&pair.0, v + n);
                        },
                        Option::None => {
                            player.vitality.effects.set(&pair.0, n);
                        },
                    }
                    j = j + 1;
                }
            },
            Option::None => {},
        }
    }
}

/// The total integer weight of a list of attacks.
pub open spec fn sum_weights(s: Seq<EntityAttack>) -> int
    decreases s.len(),
{
    if s.len() == 0 {
        0
    } else {
        s[0].weight + sum_weights(s.drop_first())
    }
}

proof fn lemma_sum_weights_split(s: Seq<EntityAttack>, j: int)
    requires
        0 <= j <= s.len(),
    ensures
        sum_weights(s) == sum_weights(s.take(j)) + sum_weights(s.skip(j)),
    decreases j,
{
    if j == 0 {
        assert(s.take(0).len() == 0);
        assert(s.skip(0) =~= s);
    } else {
        let t = s.drop_first();
        lemma_sum_weights_split(t, j - 1);
        assert(s.take(j)[0] == s[0]);
        assert(s.take(j).drop_first() =~= t.take(j - 1));
        assert(s.skip(j) =~= t.skip(j - 1));
    }
}

proof fn lemma_sum_weights_nonneg(s: Seq<EntityAttack>)
    ensures
        0 <= sum_weights(s),
    decreases s.len(),
{
    if s.len() > 0 {
        lemma_sum_weights_nonneg(s.drop_first());
    }
}

/// A combat entity template.
pub struct Entity {
    pub health: u64,
    pub name: String,
    pub inventory: Inventory,
    pub attacks: Vec<EntityAttack>,
}

fn total_weight(attacks: &Vec<EntityAttack>) -> (t: u64)
    requires
        sum_weights(attacks@) <= u64::MAX,
    ensures
        t == sum_weights(attacks@),
{
    let mut i: usize = 0;
    let mut acc: u64 = 0;
    while i < attacks.len()
        invariant
            i <= attacks@.len(),
            acc == sum_weights(attacks@.take(i as int)),
            sum_weights(attacks@) <= u64::MAX,
        decreases attacks@.len() - i,
    {
        proof {
            lemma_sum_weights_split(attacks@, i as int + 1);
            lemma_sum_weights_nonneg(attacks@.skip(i as int + 1));
            assert(attacks@.take(i as int + 1).drop_last() =~= attacks@.take(i as int));
            assert(attacks@.take(i as int + 1).last() == attacks@[i as int]);
            lemma_sum_weights_drop_last(attacks@.take(i as int + 1));
        }
        acc = acc + (attacks[i].weight as u64);
        i = i + 1;
    }
    proof {
        assert(attacks@.take(attacks@.len() as int) =~= attacks@);
    }
    acc
}

/// Splitting off the last element splits the sum.
proof fn lemma_sum_weights_drop_last(s: Seq<EntityAttack>)
    requires
        s.len() > 0,
    ensures
        sum_weights(s) == sum_weights(s.drop_last()) + s.last().weight,
    decreases s.len(),
{
    if s.len() == 1 {
        assert(s.drop_last().len() == 0);
        assert(s.drop_first().len() == 0);
        assert(sum_weights(s.drop_last()) == 0);
        assert(sum_weights(s.drop_first()) == 0);
        assert(sum_weights(s) == s[0].weight + sum_weights(s.drop_first()));
        assert(s.last() == s[0]);
    } else {
        lemma_sum_weights_drop_last(s.drop_first());
        assert(s.drop_last()[0] == s[0]);
        assert(s.drop_last().drop_first() =~= s.drop_first().drop_last());
        assert(s.drop_first().last() == s.last());
        assert(sum_weights(s) == s[0].weight + sum_weights(s.drop_first()));
        assert(sum_weights(s.drop_last()) == s[0].weight + sum_weights(s.drop_last().drop_first()));
    }
}

/// The attack index a roll below the total weight lands on: the first index
/// whose cumulative weight bracket holds the roll.
fn pick_weighted(attacks: &Vec<EntityAttack>, roll: u64) -> (i: usize)
    requires
        sum_weights(attacks@) <= u64::MAX,
        roll < sum_weights(attacks@),
    ensures
        i < attacks@.len(),
        attacks@[i as int].weight > 0,
        sum_weights(attacks@.take(i as int)) <= roll < sum_weights(attacks@.take(i as int))
            + attacks@[i as int].weight,
{
    let mut i: usize = 0;
    let mut acc: u64 = 0;
    while i < attacks.len()
        invariant
            i <= attacks@.len(),
            acc == sum_weights(attacks@.take(i as int)),
            acc <= roll,
            sum_weights(attacks@) <= u64::MAX,
            roll < sum_weights(attacks@),
        decreases attacks@.len() - i,
    {
        proof {
            lemma_sum_weights_split(attacks@, i as int + 1);
            lemma_sum_weights_nonneg(attacks@.skip(i as int + 1));
            assert(attacks@.take(i as int + 1).drop_last() =~= attacks@.take(i as int));
            assert(attacks@.take(i as int + 1).last() == attacks@[i as int]);
            lemma_sum_weights_drop_last(attacks@.take(i as int + 1));
        }
        let w = attacks[i].weight as u64;
        if roll < acc + w {
            return i;
        }
        acc = acc + w;
        i = i + 1;
    }
    proof {
        assert(attacks@.take(attacks@.len() as int) =~= attacks@);
        assert(false);
    }
    unreached()
}

impl Entity {
    /// Draws one of the template's attacks, each with probability in
    /// proportion to its integer weight; an attack of weight zero is never
    /// drawn.
    pub fn choose_attack(&self) -> (r: &EntityAttack)
        requires
            self.attacks@.len() > 0,
            0 < sum_weights(self.attacks@),
            sum_weights(self.attacks@) <= u64::MAX,
        ensures
            exists|i: int|
                0 <= i < self.attacks@.len() && *r == self.attacks@[i] && self.attacks@[i].weight
                    > 0,
    {
        let total = total_weight(&self.attacks);
        let roll = random_below(total);
        let i = pick_weighted(&self.attacks, roll);
        &self.attacks[i]
    }
}

/// A combat-ready, per-encounter copy of an entity template, carrying its
/// own health state.
#[derive(Clone)]
pub struct EntityInstance {
    pub base: String,
    pub health: Range,
}

impl EntityInstance {
    /// A fresh, full-health instance of template `e`, recorded under the
    /// template id `base`.
    pub fn from(e: &Entity, base: String) -> (r: EntityInstance)
        ensures
            r.base == base,
            r.health.max == e.health,
            r.health.value == e.health,
    {
        EntityInstance { base, health: Range::new(e.health) }
    }
}

/// A named, conversable character of the content set.
#[derive(Clone)]
pub struct Character {
    pub name: String,
    pub description: String,
    pub interaction: InteractionType,
}

/// Per-encounter combat state: the live enemy instances and whose turn it
/// is. Created on entering combat, discarded on leaving it.
pub struct PlayerCombatData {
    pub entities: Vec<EntityInstance>,
    pub turn: bool,
}

/// The player-mode state machine's states.
pub enum PlayerStatus {
    Combat(PlayerCombatData),
    House(String),
    Location,
    Idle,
}

/// An assigned list after one quest id is taken out: the id's occurrences
/// drop, and a list that empties collapses to absent.
pub open spec fn spec_assigned_without(a: Option<Seq<String>>, q: String) -> Option<Seq<String>> {
    match a {
        Option::Some(s) => {
            if seq_has_string(s, q@) {
                if drop_string(s, q@).len() == 0 {
                    None
                } else {
                    Some(drop_string(s, q@))
                }
            } else {
                Some(s)
            }
        },
        Option::None => None,
    }
}

/// A completed list after one quest id is appended: an absent list starts
/// fresh.
pub open spec fn spec_completed_with(c: Option<Seq<String>>, q: String) -> Seq<String> {
    match c {
        Option::Some(s) => s.push(q),
        Option::None => seq![q],
    }
}

/// The player's assigned and completed quest ids. An empty list is
/// represented as absent; a quest id is never in both lists at once.
pub struct PlayerQuestData {
    pub assigned: Option<Vec<String>>,
    pub completed: Option<Vec<String>>,
}

impl PlayerQuestData {
    /// Drops `q` from the assigned list, clearing the list when it empties;
    /// absent lists and absent ids are left alone.
    pub fn remove(&mut self, q: &String)
        ensures
            final(self).completed == old(self).completed,
            spec_opt_seq(final(self).assigned) == spec_assigned_without(
                spec_opt_seq(old(self).assigned),
                *q,
            ),
    {
        let replacement: Option<Option<Vec<String>>> = match &self.assigned {
            Option::Some(v) => {
                if vec_has_string(v, q) {
                    let out = vec_filter_out_string(v, q);
                    if out.len() == 0 {
                        Some(None)
                    } else {
                        Some(Some(out))
                    }
                } else {
                    None
                }
            },
            Option::None => None,
        };
        match replacement {
            Option::Some(a) => {
                self.assigned = a;
            },
            Option::None => {},
        }
    }

    /// Finishes quest `q`: drops it from the assigned list and appends it to
    /// the completed list, starting that list when absent.
    pub fn complete(&mut self, q: &String)
        ensures
            spec_opt_seq(final(self).assigned) == spec_assigned_without(
                spec_opt_seq(old(self).assigned),
                *q,
            ),
            spec_opt_seq(final(self).completed) == Some(
                spec_completed_with(spec_opt_seq(old(self).completed), *q),
            ),
    {
        self.remove(q);
        match &mut self.completed {
            Option::Some(v) => {
                v.push(q.clone());
            },
            Option::None => {
                let mut w: Vec<String> = Vec::new();
                w.push(q.clone());
                self.completed = Some(w);
            },
        }
    }
}

/// Finishing an assigned quest takes it out of the assigned list (the list
/// collapsing to absent when it empties) and makes it a member of the
/// completed list. Finishing an id again keeps completed membership; with
/// nothing assigned, the assigned list stays absent.
pub proof fn lemma_complete_membership(a: Option<Seq<String>>, c: Option<Seq<String>>, q: String)
    ensures
        match spec_assigned_without(a, q) {
            Option::Some(s) => !seq_has_string(s, q@),
            Option::None => true,
        },
        seq_has_string(spec_completed_with(c, q), q@),
        a is None ==> spec_assigned_without(a, q) is None,
{
    match a {
        Option::Some(s) => {
            crate::strutil::lemma_drop_string_membership(s, q@, q@);
            if !seq_has_string(s, q@) {
                match spec_assigned_without(a, q) {
                    Option::Some(s2) => {
                        assert(s2 == s);
                    },
                    Option::None => {},
                }
            }
        },
        Option::None => {},
    }
    let w = spec_completed_with(c, q);
    assert(w.last() == q);
    assert(w[w.len() - 1]@ == q@);
}

/// Completed membership survives later completions: whoever is on the
/// completed list stays on it when another quest finishes.
pub proof fn lemma_completed_membership_kept(s: Seq<String>, q: String, q2: String)
    requires
        seq_has_string(s, q@),
    ensures
        seq_has_string(spec_completed_with(Some(s), q2), q@),
{
    let i = choose|i: int| 0 <= i < s.len() && s[i]@ == q@;
    assert(spec_completed_with(Some(s), q2)[i]@ == q@);
}

/// Reputation, defeat counts, earned marks and the adventure log.
pub struct PlayerStats {
    pub reputation: StrMap<u64>,
    pub defeated: StrMap<u64>,
    pub marks: Option<Vec<String>>,
    pub log: Option<Vec<String>>,
}

impl PlayerStats {
    /// The adventure log: with `last` only the newest entry, otherwise all
    /// entries separated by blank lines; a placeholder when nothing was
    /// logged yet.
    pub fn log(&self, last: bool) -> (r: String)
        requires
            match self.log {
                Option::Some(v) => v@.len() > 0,
                Option::None => true,
            },
        ensures
            match self.log {
                Option::Some(v) => if last {
                    r@ == v@.last()@
                } else {
                    r@ == spec_join(seq_views(v@), "\n\n"@)
                },
                Option::None => r@ == "Nothing here..."@,
            },
    {
        match &self.log {
            Option::Some(v) => {
                if last {
                    v[v.len() - 1].clone()
                } else {
                    join_strings(v, "\n\n")
                }
            },
            Option::None => String::from_str("Nothing here..."),
        }
    }
}

/// Health and the active status effects (id to remaining duration).
pub struct PlayerVitality {
    pub health: Range,
    pub effects: StrMap<u64>,
}

/// The one mutable game-state aggregate of a session.
pub struct Player {
    pub name: String,
    pub class: String,
    pub skills: Vec<String>,
    pub vitality: PlayerVitality,
    pub status: PlayerStatus,
    pub location: String,
    pub inventory: Inventory,
    pub quests: PlayerQuestData,
    pub stats: PlayerStats,
}

} // verus!
