use vstd::prelude::*;

use crate::entity::Player;
use crate::entity::PlayerVitality;
use crate::named::Named;
use crate::num::neg_magnitude;
use crate::range::Range;
use crate::strmap::StrMap;
use crate::strmap::assoc_get;

verus! {

/// One per-cycle mutation of an active status effect: a signed health
/// delta, or a stat enhancement (defined but with no effect yet).
#[derive(Clone)]
pub enum StatusEffectType {
    Health(i64),
    Enhance(StrMap<i64>),
}

/// The signed health change one mutation asks for.
pub open spec fn spec_health_delta(e: StatusEffectType) -> int {
    match e {
        StatusEffectType::Health(n) => n as int,
        StatusEffectType::Enhance(_) => 0,
    }
}

/// Health after one mutation: decrements saturate at zero, increments are
/// unbounded above.
pub open spec fn spec_health_after(h: int, e: StatusEffectType) -> int {
    if h + spec_health_delta(e) < 0 {
        0
    } else {
        h + spec_health_delta(e)
    }
}

/// Health after a whole cycle list, applied in order.
pub open spec fn spec_health_after_all(h: int, v: Seq<StatusEffectType>) -> int
    decreases v.len(),
{
    if v.len() == 0 {
        h
    } else {
        spec_health_after_all(spec_health_after(h, v[0]), v.drop_first())
    }
}

/// Every intermediate health value along the cycle list stays within the
/// machine range.
pub open spec fn spec_health_steps_ok(h: int, v: Seq<StatusEffectType>) -> bool
    decreases v.len(),
{
    if v.len() == 0 {
        true
    } else {
        spec_health_after(h, v[0]) <= u64::MAX && spec_health_steps_ok(
            spec_health_after(h, v[0]),
            v.drop_first(),
        )
    }
}

/// Health never goes below zero along a cycle list.
pub proof fn lemma_health_after_all_nonneg(h: int, v: Seq<StatusEffectType>)
    requires
        h >= 0,
    ensures
        spec_health_after_all(h, v) >= 0,
    decreases v.len(),
{
    if v.len() > 0 {
        lemma_health_after_all_nonneg(spec_health_after(h, v[0]), v.drop_first());
    }
}

/// When every step stays in range, so does the final health value.
pub proof fn lemma_health_after_all_le_max(h: int, v: Seq<StatusEffectType>)
    requires
        h <= u64::MAX,
        spec_health_steps_ok(h, v),
    ensures
        spec_health_after_all(h, v) <= u64::MAX,
    decreases v.len(),
{
    if v.len() > 0 {
        lemma_health_after_all_le_max(spec_health_after(h, v[0]), v.drop_first());
    }
}

impl StatusEffectType {
    /// Applies one mutation to the player: a health delta moves the health
    /// range, an enhancement is a no-op.
    pub fn apply(&self, player: &mut Player)
        requires
            spec_health_after(old(player).vitality.health.value as int, *self) <= u64::MAX,
        ensures
            *final(player) == (Player {
                vitality: (PlayerVitality {
                    health: (Range {
                        max: old(player).vitality.health.max,
                        value: spec_health_after(
                            old(player).vitality.health.value as int,
                            *self,
                        ) as u64,
                    }),
                    ..old(player).vitality
                }),
                ..*old(player)
            }),
    {
        match self {
            StatusEffectType::Health(n) => {
                player.vitality.health.set(*n);
            },
            StatusEffectType::Enhance(_) => {},
        }
    }

    /// Applies a cycle list in order.
    pub fn apply_all(v: &Vec<StatusEffectType>, player: &mut Player)
        requires
            spec_health_steps_ok(old(player).vitality.health.value as int, v@),
        ensures
            *final(player) == (Player {
                vitality: (PlayerVitality {
                    health: (Range {
                        max: old(player).vitality.health.max,
                        value: spec_health_after_all(
                            old(player).vitality.health.value as int,
                            v@,
                        ) as u64,
                    }),
                    ..old(player).vitality
                }),
                ..*old(player)
            }),
    {
        let ghost orig = *old(player);
        proof {
            assert(v@.skip(0) =~= v@);
        }
        let mut i: usize = 0;
        while i < v.len()
            invariant
                i <= v@.len(),
                spec_health_steps_ok(player.vitality.health.value as int, v@.skip(i as int)),
                spec_health_after_all(orig.vitality.health.value as int, v@)
                    == spec_health_after_all(
                    player.vitality.health.value as int,
                    v@.skip(i as int),
                ),
                *player == (Player {
                    vitality: (PlayerVitality {
                        health: (Range {
                            max: orig.vitality.health.max,
                            value: player.vitality.health.value,
                        }),
                        ..orig.vitality
                    }),
                    ..orig
                }),
            decreases v@.len() - i,
        {
            proof {
                assert(v@.skip(i as int)[0] == v@[i as int]);
                assert(v@.skip(i as int).drop_first() =~= v@.skip(i as int + 1));
            }
            v[i].apply(player);
            i = i + 1;
        }
        proof {
            assert(v@.skip(v@.len() as int).len() == 0);
        }
    }
}

/// A timed status effect template; `cycle` is applied once per combat turn
/// while the effect is active.
#[derive(Clone)]
pub struct StatusEffect {
    pub name: String,
    pub description: String,
    pub cycle: Vec<StatusEffectType>,
}

impl Named for StatusEffect {
    open spec fn spec_name(&self) -> Seq<char> {
        self.name@
    }

    fn name(&self) -> (r: String) {
        self.name.clone()
    }
}

impl StatusEffect {
    /// Runs the effect's per-turn mutations against the player.
    pub fn cycle(&self, player: &mut Player)
        requires
            spec_health_steps_ok(old(player).vitality.health.value as int, self.cycle@),
        ensures
            *final(player) == (Player {
                vitality: (PlayerVitality {
                    health: (Range {
                        max: old(player).vitality.health.max,
                        value: spec_health_after_all(
                            old(player).vitality.health.value as int,
                            self.cycle@,
                        ) as u64,
                    }),
                    ..old(player).vitality
                }),
                ..*old(player)
            }),
    {
        StatusEffectType::apply_all(&self.cycle, player);
    }
}

/// A consumable item's payload.
#[derive(Clone)]
pub struct Consumable {
    pub restore: u64,
    pub effect: StrMap<u64>,
}

/// An equippable item's payload.
#[derive(Clone)]
pub struct Equippable {
    pub strength: u64,
    pub proficiency: Vec<String>,
}

/// What kind of item a template describes.
#[derive(Clone)]
pub enum ItemType {
    Consumable(Consumable),
    Weapon(Equippable),
    Armor(Equippable),
    Material,
    Special,
}

/// An item template.
#[derive(Clone)]
pub struct Item {
    pub name: String,
    pub description: String,
    pub i_type: ItemType,
}

impl Named for Item {
    open spec fn spec_name(&self) -> Seq<char> {
        self.name@
    }

    fn name(&self) -> (r: String) {
        self.name.clone()
    }
}

/// The player's money. Reward-driven changes clamp at zero; player-initiated
/// spends fail with a message instead and leave the amount untouched.
#[derive(Clone)]
pub struct Currency {
    pub value: u64,
}

impl Currency {
    /// Shifts the amount by `n`. With `plural` absent a shortfall clamps to
    /// zero silently; with it present a shortfall is an error naming the
    /// currency, and nothing changes.
    pub fn add(&mut self, n: i64, plural: Option<&String>) -> (r: Result<(), String>)
        requires
            n > 0 ==> old(self).value + n <= u64::MAX,
        ensures
            old(self).value + n >= 0 ==> r is Ok && final(self).value == old(self).value + n,
            old(self).value + n < 0 ==> match plural {
                Option::Some(p) => final(self).value == old(self).value && match r {
                    Result::Err(m) => m@ == "You don't have enough "@ + p@,
                    Result::Ok(_) => false,
                },
                Option::None => r is Ok && final(self).value == 0,
            },
    {
        if n >= 0 {
            self.value = self.value + (n as u64);
            Ok(())
        } else {
            let d = neg_magnitude(n);
            if d > self.value {
                match plural {
                    Option::Some(p) => Err(
                        String::from_str("You don't have enough ").concat(p.as_str()),
                    ),
                    Option::None => {
                        self.value = 0;
                        Ok(())
                    },
                }
            } else {
                self.value = self.value - d;
                Ok(())
            }
        }
    }

    /// An amount rendered with the world's currency symbol.
    pub fn display(n: u64, game: &crate::game::GameData) -> (r: String)
        ensures
            r@ == crate::strutil::spec_digits(n as nat) + game.config.world.currency.symbol@,
    {
        crate::strutil::u64_to_string(n).concat(game.config.world.currency.symbol.as_str())
    }
}

/// References to the equipped weapon and armor.
#[derive(Clone)]
pub struct Equipped {
    pub weapon: Option<String>,
    pub armor: Option<String>,
}

/// The player's stacked items, money and equipment.
#[derive(Clone)]
pub struct Inventory {
    pub items: StrMap<u64>,
    pub currency: Currency,
    pub equipped: Equipped,
}

impl Inventory {
    /// One stack shift: the count a stack holding `cur` shows after a signed
    /// delta of `n`. `None` is an absent stack, on either side.
    pub open spec fn spec_stack_after(cur: Option<u64>, n: i64) -> Option<u64> {
        match cur {
            Option::Some(v) => {
                if n > 0 {
                    Some((v + n) as u64)
                } else if -n >= v {
                    None
                } else {
                    Some((v + n) as u64)
                }
            },
            Option::None => {
                if n > 0 {
                    Some(n as u64)
                } else {
                    None
                }
            },
        }
    }

    /// The items list after one stack shift, as an association list.
    pub open spec fn spec_items_step(
        s: Seq<(String, u64)>,
        k: String,
        n: i64,
    ) -> Seq<(String, u64)> {
        match Inventory::spec_stack_after(assoc_get(s, k@), n) {
            Option::Some(nv) => crate::strmap::assoc_set(s, k, nv),
            Option::None => crate::strmap::assoc_drop(s, k@),
        }
    }

    /// Whether one stack shift stays within the machine range.
    pub open spec fn spec_stack_ok(cur: Option<u64>, n: i64) -> bool {
        match cur {
            Option::Some(v) => n > 0 ==> v + n <= u64::MAX,
            Option::None => true,
        }
    }
}

impl Inventory {
    /// Shifts the stacked count of item `i` by `n`. A first positive delta
    /// inserts a new stack; removing at least as much as is owned deletes the
    /// stack entirely; a stack never goes negative.
    pub fn add(&mut self, i: &String, n: i64)
        requires
            old(self).items.wf(),
            Inventory::spec_stack_ok(old(self).items.get_of(i@), n),
        ensures
            final(self).items.wf(),
            final(self).currency == old(self).currency,
            final(self).equipped == old(self).equipped,
            forall|k2: Seq<char>| k2 != i@ ==> final(self).items.get_of(k2) == old(
                self,
            ).items.get_of(k2),
            forall|k2: Seq<char>| k2 != i@ ==> (final(self).items.contains_key(k2) == old(
                self,
            ).items.contains_key(k2)),
            final(self).items.get_of(i@) == Inventory::spec_stack_after(
                old(self).items.get_of(i@),
                n,
            ),
            final(self).items.contains_key(i@) == (Inventory::spec_stack_after(
                old(self).items.get_of(i@),
                n,
            ) is Some),
            final(self).items.entries() == Inventory::spec_items_step(
                old(self).items.entries(),
                *i,
                n,
            ),
    {
        let cur: Option<u64> = match self.items.get(i) {
            Option::Some(v) => Some(*v),
            Option::None => None,
        };
        match cur {
            Option::Some(v) => {
                if n > 0 {
                    self.items.set(i, v + (n as u64));
                } else {
                    let d: u64 = if n == 0 {
                        0
                    } else {
                        neg_magnitude(n)
                    };
                    if d >= v {
                        self.items.remove_key(i);
                    } else {
                        self.items.set(i, v - d);
                    }
                }
            },
            Option::None => {
                if n > 0 {
                    self.items.set(i, n as u64);
                } else {
                    proof {
                        crate::strmap::lemma_assoc_drop_keeps_all(self.items.entries(), i@);
                    }
                }
            },
        }
    }

    /// The stacked count of `item`, when any is owned.
    pub fn get(&self, item: &String) -> (r: Option<&u64>)
        ensures
            match r {
                Option::Some(v) => self.items.get_of(item@) == Some(*v),
                Option::None => !self.items.contains_key(item@),
            },
    {
        self.items.get(item)
    }

    /// Empties this inventory into `other`: the money is added outright
    /// and every stack lands on a stack `other` already has.
    pub fn drop(&self, other: &mut Inventory)
        requires
            self.items.wf(),
            old(other).items.wf(),
            old(other).currency.value + self.currency.value <= u64::MAX,
            forall|j: int|
                0 <= j < self.items.entries().len() ==> crate::strmap::assoc_contains(
                    old(other).items.entries(),
                    (#[trigger] self.items.entries()[j]).0@,
                ) && crate::strmap::lookup_or_zero(
                    old(other).items.entries(),
                    self.items.entries()[j].0@,
                ) + self.items.entries()[j].1 <= u64::MAX,
        ensures
            final(other).items.wf(),
            final(other).currency.value == old(other).currency.value + self.currency.value,
            final(other).equipped == old(other).equipped,
            forall|j: int|
                0 <= j < self.items.entries().len() ==> final(other).items.get_of(
                    (#[trigger] self.items.entries()[j]).0@,
                ) == Some(
                    (crate::strmap::lookup_or_zero(
                        old(other).items.entries(),
                        self.items.entries()[j].0@,
                    ) + self.items.entries()[j].1) as u64,
                ),
            forall|k2: Seq<char>|
                !crate::strmap::assoc_contains(self.items.entries(), k2)
                    ==> final(other).items.get_of(k2) == old(other).items.get_of(k2),
    {
        let ghost orig = *old(other);
        other.currency.value = other.currency.value + self.currency.value;

        let mut j: usize = 0;
        while j < self.items.len()
            invariant
                j <= self.items.entries().len(),
                self.items.wf(),
                other.items.wf(),
                other.currency.value == orig.currency.value + self.currency.value,
                other.equipped == orig.equipped,
                forall|q: int|
                    0 <= q < self.items.entries().len() ==> crate::strmap::assoc_contains(
                        orig.items.entries(),
                        (#[trigger] self.items.entries()[q]).0@,
                    ) && crate::strmap::lookup_or_zero(
                        orig.items.entries(),
                        self.items.entries()[q].0@,
                    ) + self.items.entries()[q].1 <= u64::MAX,
                forall|q: int|
                    0 <= q < j ==> other.items.get_of((#[trigger] self.items.entries()[q]).0@)
                        == Some(
                        (crate::strmap::lookup_or_zero(
                            orig.items.entries(),
                            self.items.entries()[q].0@,
                        ) + self.items.entries()[q].1) as u64,
                    ),
                forall|k2: Seq<char>|
                    (forall|q: int| 0 <= q < j ==> (#[trigger] self.items.entries()[q]).0@ != k2)
                        ==> other.items.get_of(k2) == orig.items.get_of(k2),
            decreases self.items.entries().len() - j,
        {
            proof {
                assert(forall|q: int|
                    0 <= q < j ==> (#[trigger] self.items.entries()[q]).0@
                        != self.items.entries()[j as int].0@);
                assert(other.items.get_of(self.items.entries()[j as int].0@) == orig.items.get_of(
                    self.items.entries()[j as int].0@,
                ));
                crate::strmap::lemma_assoc_get_some_iff(
                    orig.items.entries(),
                    self.items.entries()[j as int].0@,
                );
            }
            let pair = self.items.pair_at(j);
            let cur: u64 = match other.items.get(&pair.0) {
                Option::Some(v) => *v,
                Option::None => vstd::pervasive::unreached(),
            };
            other.items.set(&pair.0, cur + pair.1);
            j = j + 1;
        }
    }

    /// Each stack rendered as count and item name; absent when nothing is
    /// owned.
    pub fn display(&self, game: &crate::game::GameData) -> (r: Option<Vec<String>>)
        requires
            forall|i: int|
                0 <= i < self.items.entries().len() ==> crate::strmap::assoc_contains(
                    game.items.entries(),
                    (#[trigger] self.items.entries()[i]).0@,
                ),
        ensures
            match r {
                Option::Some(v) => self.items.entries().len() > 0 && crate::strutil::seq_views(v@)
                    == crate::condition::spec_item_req_texts(self.items.entries(), *game),
                Option::None => self.items.entries().len() == 0,
            },
    {
        if self.items.is_empty() {
            return None;
        }

        let ghost texts = crate::condition::spec_item_req_texts(self.items.entries(), *game);
        let mut parts: Vec<String> = Vec::new();
        let mut i: usize = 0;
        while i < self.items.len()
            invariant
                i <= self.items.entries().len(),
                texts == crate::condition::spec_item_req_texts(self.items.entries(), *game),
                forall|j: int|
                    0 <= j < self.items.entries().len() ==> crate::strmap::assoc_contains(
                        game.items.entries(),
                        (#[trigger] self.items.entries()[j]).0@,
                    ),
                crate::strutil::seq_views(parts@) == texts.take(i as int),
            decreases self.items.entries().len() - i,
        {
            let pair = self.items.pair_at(i);
            let item = match game.items.get(&pair.0) {
                Option::Some(it) => it,
                Option::None => vstd::pervasive::unreached(),
            };
            let mut part = crate::strutil::u64_to_string(pair.1);
            part.append(" ");
            part.append(item.name.as_str());
            proof {
                assert(part@ == texts[i as int]);
            }
            let ghost parts_before = parts@;
            parts.push(part);
            proof {
                crate::strutil::lemma_seq_views_push(parts_before, parts@.last());
                assert(texts.take(i as int).push(texts[i as int]) =~= texts.take(i as int + 1));
                assert(crate::strutil::seq_views(parts@) =~= texts.take(i as int + 1));
            }
            i = i + 1;
        }
        proof {
            assert(texts.take(texts.len() as int) =~= texts);
        }
        Some(parts)
    }

    /// The stacks on one line, or a placeholder for an empty inventory.
    pub fn display_line(&self, game: &crate::game::GameData) -> (r: String)
        requires
            forall|i: int|
                0 <= i < self.items.entries().len() ==> crate::strmap::assoc_contains(
                    game.items.entries(),
                    (#[trigger] self.items.entries()[i]).0@,
                ),
        ensures
            self.items.entries().len() > 0 ==> r@ == crate::strutil::spec_join(
                crate::condition::spec_item_req_texts(self.items.entries(), *game),
                ", "@,
            ),
            self.items.entries().len() == 0 ==> r@ == "Nothing"@,
    {
        match self.display(game) {
            Option::Some(v) => crate::strutil::join_strings(&v, ", "),
            Option::None => String::from_str("Nothing"),
        }
    }

    /// The stacks as a dashed list, or a placeholder for an empty
    /// inventory.
    pub fn display_list(&self, game: &crate::game::GameData) -> (r: String)
        requires
            forall|i: int|
                0 <= i < self.items.entries().len() ==> crate::strmap::assoc_contains(
                    game.items.entries(),
                    (#[trigger] self.items.entries()[i]).0@,
                ),
        ensures
            self.items.entries().len() > 0 ==> r@ == crate::strutil::spec_join(
                crate::quest::spec_dashed(
                    crate::condition::spec_item_req_texts(self.items.entries(), *game),
                ),
                "\n"@,
            ),
            self.items.entries().len() == 0 ==> r@ == "Nothing"@,
    {
        match self.display(game) {
            Option::Some(v) => {
                let ghost texts = crate::quest::spec_dashed(
                    crate::condition::spec_item_req_texts(self.items.entries(), *game),
                );
                let mut parts: Vec<String> = Vec::new();
                let mut i: usize = 0;
                while i < v.len()
                    invariant
                        i <= v@.len(),
                        crate::strutil::seq_views(v@) == crate::condition::spec_item_req_texts(
                            self.items.entries(),
                            *game,
                        ),
                        texts == crate::quest::spec_dashed(
                            crate::condition::spec_item_req_texts(self.items.entries(), *game),
                        ),
                        crate::strutil::seq_views(parts@) == texts.take(i as int),
                    decreases v@.len() - i,
                {
                    let mut part = String::from_str("- ");
                    part.append(v[i].as_str());
                    proof {
                        assert(crate::strutil::seq_views(v@)[i as int] == v@[i as int]@);
                        assert(part@ == texts[i as int]);
                    }
                    let ghost parts_before = parts@;
                    parts.push(part);
                    proof {
                        crate::strutil::lemma_seq_views_push(parts_before, parts@.last());
                        assert(texts.take(i as int).push(texts[i as int]) =~= texts.take(
                            i as int + 1,
                        ));
                        assert(crate::strutil::seq_views(parts@) =~= texts.take(i as int + 1));
                    }
                    i = i + 1;
                }
                proof {
                    assert(texts.take(texts.len() as int) =~= texts);
                }
                crate::strutil::join_strings(&parts, "\n")
            },
            Option::None => String::from_str("Nothing"),
        }
    }
}

} // verus!
