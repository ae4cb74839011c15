use vstd::prelude::*;

use crate::attribute::Class;
use crate::attribute::Skill;
use crate::config::Config;
use crate::entity::Player;
use crate::entity::PlayerStatus;
use crate::inventory::Item;
use crate::inventory::StatusEffect;
use crate::location::House;
use crate::location::Location;
use crate::named::Named;
use crate::quest::Quest;
use crate::strmap::StrMap;
use crate::strutil::lower_of;
use crate::strutil::spec_opt_seq;
use crate::strutil::lowercase;
use crate::strutil::string_eq;
use crate::strutil::string_eq_str;
use crate::time::GameTime;

verus! {

/// The per-session mutable state: the player and the world clock.
pub struct GlobalData {
    pub player: Player,
    pub time: GameTime,
}

/// The loaded content set plus the session's mutable state.
pub struct GameData {
    pub config: Config,
    pub classes: StrMap<Class>,
    pub effects: StrMap<StatusEffect>,
    pub entities: StrMap<crate::entity::Entity>,
    pub houses: StrMap<House>,
    pub items: StrMap<Item>,
    pub locations: StrMap<Location>,
    pub skills: StrMap<Skill>,
    pub quests: StrMap<Quest>,
    pub global: GlobalData,
}

/// One decay pass over the active status effects: every remaining duration
/// falls by exactly one, and the effects that reach zero leave the map.
pub open spec fn spec_decay(s: Seq<(String, u64)>) -> Seq<(String, u64)>
    decreases s.len(),
{
    if s.len() == 0 {
        Seq::empty()
    } else if s[0].1 == 1 {
        spec_decay(s.drop_first())
    } else {
        seq![(s[0].0, (s[0].1 - 1) as u64)] + spec_decay(s.drop_first())
    }
}

/// The per-cycle health mutations of each surviving effect, applied in map
/// order: health after them all.
pub open spec fn spec_effects_health(
    h: int,
    rem: Seq<(String, u64)>,
    catalog: Seq<(String, StatusEffect)>,
) -> int
    decreases rem.len(),
{
    if rem.len() == 0 {
        h
    } else {
        let cyc = match crate::strmap::assoc_get(catalog, rem[0].0@) {
            Option::Some(e) => e.cycle@,
            Option::None => Seq::empty(),
        };
        spec_effects_health(
            crate::inventory::spec_health_after_all(h, cyc),
            rem.drop_first(),
            catalog,
        )
    }
}

/// Every intermediate health value along those mutations stays in range.
pub open spec fn spec_effects_health_ok(
    h: int,
    rem: Seq<(String, u64)>,
    catalog: Seq<(String, StatusEffect)>,
) -> bool
    decreases rem.len(),
{
    if rem.len() == 0 {
        true
    } else {
        let cyc = match crate::strmap::assoc_get(catalog, rem[0].0@) {
            Option::Some(e) => e.cycle@,
            Option::None => Seq::empty(),
        };
        crate::inventory::spec_health_steps_ok(h, cyc) && spec_effects_health_ok(
            crate::inventory::spec_health_after_all(h, cyc),
            rem.drop_first(),
            catalog,
        )
    }
}

/// A status effect entering the turn cycle with one remaining turn is
/// pruned in that same cycle: it is gone from the decayed map, so the
/// application pass (which walks only the decayed map) never applies it.
pub proof fn lemma_duration_one_pruned(s: Seq<(String, u64)>, k: Seq<char>)
    requires
        forall|i: int, j: int| 0 <= i < j < s.len() ==> s[i].0@ != s[j].0@,
        crate::strmap::assoc_get(s, k) == Some(1u64),
    ensures
        !crate::strmap::assoc_contains(spec_decay(s), k),
    decreases s.len(),
{
    if s.len() > 0 {
        let rest = s.drop_first();
        assert forall|i: int, j: int| 0 <= i < j < rest.len() implies rest[i].0@ != rest[j].0@ by {
            assert(rest[i] == s[i + 1]);
            assert(rest[j] == s[j + 1]);
        }
        if s[0].0@ == k {
            assert(s[0].1 == 1);
            assert forall|i: int| 0 <= i < rest.len() implies rest[i].0@ != k by {
                assert(rest[i] == s[i + 1]);
            }
            lemma_decay_keeps_no_new_keys(rest, k);
        } else {
            lemma_duration_one_pruned(rest, k);
            let d = spec_decay(rest);
            let whole = seq![(s[0].0, (s[0].1 - 1) as u64)] + d;
            if crate::strmap::assoc_contains(whole, k) {
                let i = choose|i: int| 0 <= i < whole.len() && whole[i].0@ == k;
                assert(i > 0);
                assert(d[i - 1].0@ == k);
            }
        }
    }
}

/// Decaying introduces no key that was not there.
proof fn lemma_decay_keeps_no_new_keys(s: Seq<(String, u64)>, k: Seq<char>)
    requires
        forall|i: int| 0 <= i < s.len() ==> s[i].0@ != k,
    ensures
        !crate::strmap::assoc_contains(spec_decay(s), k),
    decreases s.len(),
{
    if s.len() > 0 {
        let rest = s.drop_first();
        assert forall|i: int| 0 <= i < rest.len() implies rest[i].0@ != k by {
            assert(rest[i] == s[i + 1]);
        }
        lemma_decay_keeps_no_new_keys(rest, k);
        if s[0].1 != 1 {
            let d = spec_decay(rest);
            let whole = seq![(s[0].0, (s[0].1 - 1) as u64)] + d;
            if crate::strmap::assoc_contains(whole, k) {
                let i = choose|i: int| 0 <= i < whole.len() && whole[i].0@ == k;
                assert(i > 0);
                assert(d[i - 1].0@ == k);
            }
        }
    }
}

/// Every enemy instance's health has reached zero.
pub open spec fn spec_all_defeated(es: Seq<crate::entity::EntityInstance>) -> bool {
    forall|i: int| 0 <= i < es.len() ==> (#[trigger] es[i]).health.value == 0
}

/// How a combat round left the encounter.
#[derive(Clone, Copy, Debug, PartialEq, Eq, Structural)]
pub enum CombatOutcome {
    Ongoing,
    Victory,
    Defeat,
}

/// What a typed command asks for, once the player's mode has had its say.
#[derive(Clone, Copy, Debug, PartialEq, Eq, Structural)]
pub enum Command {
    Talk,
    Leave,
    Travel,
    Visit,
    Debug,
    Inventory,
    Log,
    Recent,
    QuestInfo,
    QuestBook,
    Invalid,
}

/// The commands available in any mode: inspection commands, or nothing.
pub open spec fn spec_fallback_command(cmd: Seq<char>) -> Command {
    if cmd == "dbg"@ {
        Command::Debug
    } else if cmd == "inv"@ {
        Command::Inventory
    } else if cmd == "log"@ {
        Command::Log
    } else if cmd == "recent"@ {
        Command::Recent
    } else if cmd == "quest"@ {
        Command::QuestInfo
    } else if cmd == "quests"@ {
        Command::QuestBook
    } else {
        Command::Invalid
    }
}

/// Mode-driven command dispatch: in a house one can talk or leave; at a
/// location one can travel, or visit when the location has houses; in
/// combat or idle nothing mode-specific is available. Anything else falls
/// back to the inspection commands, and failing those is invalid.
pub open spec fn spec_dispatch(status: PlayerStatus, cmd: Seq<char>, has_houses: bool) -> Command {
    match status {
        PlayerStatus::House(_) => {
            if cmd == "talk"@ {
                Command::Talk
            } else if cmd == "leave"@ {
                Command::Leave
            } else {
                spec_fallback_command(cmd)
            }
        },
        PlayerStatus::Location => {
            if cmd == "travel"@ {
                Command::Travel
            } else if cmd == "visit"@ && has_houses {
                Command::Visit
            } else {
                spec_fallback_command(cmd)
            }
        },
        _ => spec_fallback_command(cmd),
    }
}

/// Resolves a typed command against the player's mode. `has_houses` says
/// whether the current location exposes a house list.
pub fn dispatch(status: &PlayerStatus, cmd: &String, has_houses: bool) -> (r: Command)
    ensures
        r == spec_dispatch(*status, cmd@, has_houses),
{
    match status {
        PlayerStatus::House(_) => {
            if string_eq_str(cmd, "talk") {
                Command::Talk
            } else if string_eq_str(cmd, "leave") {
                Command::Leave
            } else {
                fallback_command(cmd)
            }
        },
        PlayerStatus::Location => {
            if string_eq_str(cmd, "travel") {
                Command::Travel
            } else if string_eq_str(cmd, "visit") && has_houses {
                Command::Visit
            } else {
                fallback_command(cmd)
            }
        },
        _ => fallback_command(cmd),
    }
}

fn fallback_command(cmd: &String) -> (r: Command)
    ensures
        r == spec_fallback_command(cmd@),
{
    if string_eq_str(cmd, "dbg") {
        Command::Debug
    } else if string_eq_str(cmd, "inv") {
        Command::Inventory
    } else if string_eq_str(cmd, "log") {
        Command::Log
    } else if string_eq_str(cmd, "recent") {
        Command::Recent
    } else if string_eq_str(cmd, "quest") {
        Command::QuestInfo
    } else if string_eq_str(cmd, "quests") {
        Command::QuestBook
    } else {
        Command::Invalid
    }
}

/// Each listed quest id paired with the quest's display name.
pub open spec fn spec_quest_pairs(ids: Seq<String>, g: GameData) -> Seq<(String, String)> {
    ids.map_values(
        |id: String|
            (
                match crate::strmap::assoc_get(g.quests.entries(), id@) {
                    Option::Some(q) => q.name,
                    Option::None => id,
                },
                id,
            ),
    )
}

/// One quest-book line per pair: a dash, the name, and a tick when asked
/// for and the quest's requirements hold.
pub open spec fn spec_quest_line_texts(
    pairs: Seq<(String, String)>,
    show: bool,
    g: GameData,
) -> Seq<Seq<char>> {
    pairs.map_values(
        |p: (String, String)|
            "- "@ + p.0@ + (if show && (match crate::strmap::assoc_get(g.quests.entries(), p.1@) {
                Option::Some(q) => crate::condition::spec_conds_hold(q.requirements@, g),
                Option::None => false,
            }) {
                " \u{2714}"@
            } else {
                Seq::<char>::empty()
            }),
    )
}

/// One quest-book section: the rendered list for the ids, or a placeholder
/// when the list is absent.
pub open spec fn spec_quest_section(ids: Option<Seq<String>>, show: bool, g: GameData) -> Seq<
    char,
> {
    match ids {
        Option::Some(s) => "\n"@ + crate::strutil::spec_join(
            spec_quest_line_texts(spec_quest_pairs(s, g), show, g),
            "\n"@,
        ),
        Option::None => "\nNothing here..."@,
    }
}

/// Whether an id-or-name matcher hits a catalogue entry: the id equals the
/// lowercased matcher as-is, or the names agree case-insensitively.
pub open spec fn spec_name_hit<T: Named>(entry: (String, T), matcher: Seq<char>) -> bool {
    entry.0@ == lower_of(matcher) || lower_of(entry.1.spec_name()) == lower_of(matcher)
}

impl GameData {
    /// The location the player stands at.
    pub fn location(&self) -> (r: &Location)
        requires
            self.locations.contains_key(self.global.player.location@),
        ensures
            Some(*r) == self.locations.get_of(self.global.player.location@),
    {
        match self.locations.get(&self.global.player.location) {
            Option::Some(l) => l,
            Option::None => vstd::pervasive::unreached(),
        }
    }

    /// The house the player is in, when the mode says so.
    pub fn house(&self) -> (r: Option<&House>)
        requires
            match self.global.player.status {
                PlayerStatus::House(h) => self.houses.contains_key(h@),
                _ => true,
            },
        ensures
            match self.global.player.status {
                PlayerStatus::House(h) => match r {
                    Option::Some(house) => Some(*house) == self.houses.get_of(h@),
                    Option::None => false,
                },
                _ => r is None,
            },
    {
        match &self.global.player.status {
            PlayerStatus::House(h) => match self.houses.get(h) {
                Option::Some(house) => Some(house),
                Option::None => vstd::pervasive::unreached(),
            },
            _ => None,
        }
    }

    /// The subset of currently assigned quest ids whose requirements
    /// already evaluate true, in assignment order; absent when nothing is
    /// assigned. This powers the `Finished` condition kind alone — it does
    /// not mark anything complete.
    pub fn finished_quests(&self) -> (r: Option<Vec<String>>)
        requires
            crate::condition::spec_finished_ready(*self),
        ensures
            crate::strutil::spec_opt_seq(r) == crate::condition::spec_finished_ids(*self),
        decreases 0int, 4int,
    {
        match &self.global.player.quests.assigned {
            Option::Some(v) => {
                let mut out: Vec<String> = Vec::new();
                proof {
                    assert(v@.skip(0) =~= v@);
                    assert(Seq::<String>::empty() + crate::condition::spec_finished_filter(
                        v@,
                        *self,
                    ) =~= crate::condition::spec_finished_filter(v@, *self));
                }
                let mut i: usize = 0;
                while i < v.len()
                    invariant
                        i <= v@.len(),
                        crate::condition::spec_finished_ready(*self),
                        spec_opt_seq(self.global.player.quests.assigned) == Some(v@),
                        crate::condition::spec_finished_filter(v@, *self) == out@
                            + crate::condition::spec_finished_filter(v@.skip(i as int), *self),
                    decreases v@.len() - i,
                {
                    proof {
                        assert(v@.skip(i as int)[0] == v@[i as int]);
                        assert(v@.skip(i as int).drop_first() =~= v@.skip(i as int + 1));
                    }
                    let quest = match self.quests.get(&v[i]) {
                        Option::Some(q) => q,
                        Option::None => vstd::pervasive::unreached(),
                    };
                    proof {
                        crate::condition::lemma_conds_hold_base(quest.requirements@, *self);
                    }
                    let keep = quest.check(self);
                    if keep {
                        let ghost out_before = out@;
                        out.push(v[i].clone());
                        proof {
                            assert(out@ + crate::condition::spec_finished_filter(
                                v@.skip(i as int + 1),
                                *self,
                            ) =~= out_before + (seq![v@[i as int]]
                                + crate::condition::spec_finished_filter(
                                v@.skip(i as int + 1),
                                *self,
                            )));
                        }
                    }
                    i = i + 1;
                }
                proof {
                    assert(crate::condition::spec_finished_filter(v@.skip(v@.len() as int), *self)
                        =~= Seq::<String>::empty());
                    assert(out@ + Seq::<String>::empty() =~= out@);
                }
                Some(out)
            },
            Option::None => None,
        }
    }

    /// One combat turn cycle, in this fixed order: flip the turn flag,
    /// decrement every active effect's remaining duration by one, remove
    /// the effects that reached zero, then apply the per-cycle mutations of
    /// the effects still present. An effect entering at duration one is
    /// pruned before it would apply.
    pub fn cycle_combat(&mut self)
        requires
            old(self).global.player.vitality.effects.wf(),
            forall|j: int|
                0 <= j < old(self).global.player.vitality.effects.entries().len() ==> (
                #[trigger] old(self).global.player.vitality.effects.entries()[j]).1 >= 1,
            forall|j: int|
                0 <= j < spec_decay(old(self).global.player.vitality.effects.entries()).len()
                    ==> crate::strmap::assoc_contains(
                    old(self).effects.entries(),
                    (#[trigger] spec_decay(old(self).global.player.vitality.effects.entries())[j]).0@,
                ),
            spec_effects_health_ok(
                old(self).global.player.vitality.health.value as int,
                spec_decay(old(self).global.player.vitality.effects.entries()),
                old(self).effects.entries(),
            ),
        ensures
            final(self).global.player.vitality.effects.wf(),
            final(self).global.player.vitality.effects.entries() == spec_decay(
                old(self).global.player.vitality.effects.entries(),
            ),
            final(self).global.player.vitality.health.max == old(
                self,
            ).global.player.vitality.health.max,
            final(self).global.player.vitality.health.value == spec_effects_health(
                old(self).global.player.vitality.health.value as int,
                spec_decay(old(self).global.player.vitality.effects.entries()),
                old(self).effects.entries(),
            ),
            final(self).global.player.status == match old(self).global.player.status {
                PlayerStatus::Combat(c) => PlayerStatus::Combat(
                    (crate::entity::PlayerCombatData { entities: c.entities, turn: !c.turn }),
                ),
                other => other,
            },
            *final(self) == (GameData {
                global: (GlobalData {
                    player: (Player {
                        vitality: (crate::entity::PlayerVitality {
                            health: final(self).global.player.vitality.health,
                            effects: final(self).global.player.vitality.effects,
                        }),
                        status: final(self).global.player.status,
                        ..old(self).global.player
                    }),
                    ..old(self).global
                }),
                ..*old(self)
            }),
    {
        let ghost orig = *old(self);
        let ghost orig_entries = old(self).global.player.vitality.effects.entries();

        match &mut self.global.player.status {
            PlayerStatus::Combat(c) => {
                c.turn = !c.turn;
            },
            _ => {},
        }

        let mut decayed: StrMap<u64> = StrMap::new();
        proof {
            assert(orig_entries.skip(0) =~= orig_entries);
            assert(Seq::<(String, u64)>::empty() + spec_decay(orig_entries) =~= spec_decay(
                orig_entries,
            ));
        }
        let count = self.global.player.vitality.effects.len();
        let mut i: usize = 0;
        while i < count
            invariant
                i <= orig_entries.len(),
                count == orig_entries.len(),
                self.global.player.vitality.effects.entries() == orig_entries,
                self.global.player.vitality.effects.wf(),
                forall|j: int| 0 <= j < orig_entries.len() ==> (#[trigger] orig_entries[j]).1 >= 1,
                decayed.wf(),
                spec_decay(orig_entries) == decayed.entries() + spec_decay(
                    orig_entries.skip(i as int),
                ),
                forall|a: int, b: int|
                    0 <= a < decayed.entries().len() && i <= b < orig_entries.len()
                        ==> decayed.entries()[a].0@ != orig_entries[b].0@,
            decreases orig_entries.len() - i,
        {
            proof {
                assert(orig_entries.skip(i as int)[0] == orig_entries[i as int]);
                assert(orig_entries.skip(i as int).drop_first() =~= orig_entries.skip(i as int + 1));
            }
            let pair = self.global.player.vitality.effects.pair_at(i);
            if pair.1 > 1 {
                let ghost decayed_before = decayed.entries();
                decayed.set(&pair.0, pair.1 - 1);
                proof {
                    assert(decayed.entries() =~= decayed_before.push(
                        (orig_entries[i as int].0, (orig_entries[i as int].1 - 1) as u64),
                    ));
                    assert(decayed.entries() + spec_decay(orig_entries.skip(i as int + 1))
                        =~= decayed_before + (seq![
                        (orig_entries[i as int].0, (orig_entries[i as int].1 - 1) as u64),
                    ] + spec_decay(orig_entries.skip(i as int + 1))));
                }
            }
            i = i + 1;
        }
        proof {
            assert(spec_decay(orig_entries.skip(orig_entries.len() as int)) =~= Seq::<
                (String, u64),
            >::empty());
            assert(decayed.entries() + Seq::<(String, u64)>::empty() =~= decayed.entries());
        }
        self.global.player.vitality.effects = decayed;

        let ghost rem = self.global.player.vitality.effects.entries();
        let ghost h0 = self.global.player.vitality.health.value as int;
        proof {
            assert(rem.skip(0) =~= rem);
        }
        let total = self.global.player.vitality.effects.len();
        let mut k: usize = 0;
        while k < total
            invariant
                k <= rem.len(),
                total == rem.len(),
                self.global.player.vitality.effects.entries() == rem,
                rem == spec_decay(orig_entries),
                self.effects.entries() == orig.effects.entries(),
                forall|j: int|
                    0 <= j < rem.len() ==> crate::strmap::assoc_contains(
                        orig.effects.entries(),
                        (#[trigger] rem[j]).0@,
                    ),
                spec_effects_health_ok(
                    self.global.player.vitality.health.value as int,
                    rem.skip(k as int),
                    orig.effects.entries(),
                ),
                spec_effects_health(
                    self.global.player.vitality.health.value as int,
                    rem.skip(k as int),
                    orig.effects.entries(),
                ) == spec_effects_health(h0, rem, orig.effects.entries()),
                self.global.player.vitality.health.max == orig.global.player.vitality.health.max,
                self.global.player.status == match orig.global.player.status {
                    PlayerStatus::Combat(c) => PlayerStatus::Combat(
                        (crate::entity::PlayerCombatData { entities: c.entities, turn: !c.turn }),
                    ),
                    other => other,
                },
                *self == (GameData {
                    global: (GlobalData {
                        player: (Player {
                            vitality: (crate::entity::PlayerVitality {
                                health: self.global.player.vitality.health,
                                effects: self.global.player.vitality.effects,
                            }),
                            status: self.global.player.status,
                            ..orig.global.player
                        }),
                        ..orig.global
                    }),
                    ..orig
                }),
            decreases rem.len() - k,
        {
            proof {
                assert(rem.skip(k as int)[0] == rem[k as int]);
                assert(rem.skip(k as int).drop_first() =~= rem.skip(k as int + 1));
            }
            let key = self.global.player.vitality.effects.pair_at(k).0.clone();
            let effect = match self.effects.get(&key) {
                Option::Some(e) => e,
                Option::None => vstd::pervasive::unreached(),
            };
            proof {
                assert(crate::strmap::assoc_get(orig.effects.entries(), rem[k as int].0@)
                    == Some(*effect));
                crate::inventory::lemma_health_after_all_nonneg(
                    self.global.player.vitality.health.value as int,
                    effect.cycle@,
                );
                crate::inventory::lemma_health_after_all_le_max(
                    self.global.player.vitality.health.value as int,
                    effect.cycle@,
                );
            }
            effect.cycle(&mut self.global.player);
            k = k + 1;
        }
        proof {
            assert(rem.skip(rem.len() as int).len() == 0);
        }
    }

    /// One full combat round: the turn cycle runs, then the encounter ends
    /// in victory once every enemy instance's health is zero, or in defeat
    /// once the player's health is zero; either exit returns the player to
    /// their location. Otherwise combat goes on.
    pub fn combat_round(&mut self) -> (r: CombatOutcome)
        requires
            old(self).global.player.status is Combat,
            old(self).global.player.vitality.effects.wf(),
            forall|j: int|
                0 <= j < old(self).global.player.vitality.effects.entries().len() ==> (
                #[trigger] old(self).global.player.vitality.effects.entries()[j]).1 >= 1,
            forall|j: int|
                0 <= j < spec_decay(old(self).global.player.vitality.effects.entries()).len()
                    ==> crate::strmap::assoc_contains(
                    old(self).effects.entries(),
                    (#[trigger] spec_decay(old(self).global.player.vitality.effects.entries())[j]).0@,
                ),
            spec_effects_health_ok(
                old(self).global.player.vitality.health.value as int,
                spec_decay(old(self).global.player.vitality.effects.entries()),
                old(self).effects.entries(),
            ),
        ensures
            final(self).global.player.vitality.effects.wf(),
            final(self).global.player.vitality.effects.entries() == spec_decay(
                old(self).global.player.vitality.effects.entries(),
            ),
            final(self).global.player.vitality.health.max == old(
                self,
            ).global.player.vitality.health.max,
            final(self).global.player.vitality.health.value == spec_effects_health(
                old(self).global.player.vitality.health.value as int,
                spec_decay(old(self).global.player.vitality.effects.entries()),
                old(self).effects.entries(),
            ),
            match old(self).global.player.status {
                PlayerStatus::Combat(c) => {
                    if spec_all_defeated(c.entities@) {
                        r == CombatOutcome::Victory && final(self).global.player.status
                            == PlayerStatus::Location
                    } else if final(self).global.player.vitality.health.value == 0 {
                        r == CombatOutcome::Defeat && final(self).global.player.status
                            == PlayerStatus::Location
                    } else {
                        r == CombatOutcome::Ongoing && final(self).global.player.status
                            == PlayerStatus::Combat(
                            (crate::entity::PlayerCombatData {
                                entities: c.entities,
                                turn: !c.turn,
                            }),
                        )
                    }
                },
                _ => false,
            },
            *final(self) == (GameData {
                global: (GlobalData {
                    player: (Player {
                        vitality: (crate::entity::PlayerVitality {
                            health: final(self).global.player.vitality.health,
                            effects: final(self).global.player.vitality.effects,
                        }),
                        status: final(self).global.player.status,
                        ..old(self).global.player
                    }),
                    ..old(self).global
                }),
                ..*old(self)
            }),
    {
        self.cycle_combat();

        let victorious = match &self.global.player.status {
            PlayerStatus::Combat(c) => {
                let mut all_down = true;
                let mut i: usize = 0;
                while i < c.entities.len()
                    invariant
                        i <= c.entities@.len(),
                        all_down == (forall|j: int|
                            0 <= j < i ==> (#[trigger] c.entities@[j]).health.value == 0),
                    decreases c.entities@.len() - i,
                {
                    if c.entities[i].health.value != 0 {
                        all_down = false;
                    }
                    i = i + 1;
                }
                all_down
            },
            _ => false,
        };

        if victorious {
            self.global.player.status = PlayerStatus::Location;
            CombatOutcome::Victory
        } else if self.global.player.vitality.health.value == 0 {
            self.global.player.status = PlayerStatus::Location;
            CombatOutcome::Defeat
        } else {
            CombatOutcome::Ongoing
        }
    }

    /// Commits a travel decision after the prompt. Riding pays the fare;
    /// a shortfall is a recoverable failure that reports the message and
    /// leaves everything as it was. Walking spends the minutes instead —
    /// exactly one of the two resources is ever consumed. On a committed
    /// travel the destination's reputation entry is recorded on a first
    /// visit, the player moves there, and the payment-or-walk message comes
    /// back with the entry line.
    pub fn travel_commit(
        &mut self,
        id: &String,
        next: &Location,
        ride: bool,
        cost: u64,
        time: u64,
    ) -> (r: Result<(String, String), String>)
        requires
            old(self).global.player.stats.reputation.wf(),
            ride ==> cost <= i64::MAX,
            !ride ==> old(self).global.time.min + 1439 <= u64::MAX && old(self).global.time.day
                + time / 1440 + 1 <= u64::MAX,
        ensures
            r is Err <==> (ride && old(self).global.player.inventory.currency.value < cost),
            match r {
                Result::Err(m) => *final(self) == *old(self) && m@ == "You don't have enough "@
                    + old(self).config.world.currency.plural@,
                Result::Ok(msgs) => {
                    let entry = crate::location::spec_reputation_entry(
                        *next,
                        id@,
                        old(self).global.player.stats.reputation,
                    );
                    &&& msgs.1@ == crate::location::spec_entry_text(*next, entry.0, entry.1)
                    &&& final(self).global.player.stats.reputation.wf()
                    &&& (entry.1 ==> final(self).global.player.stats.reputation.get_of(id@)
                        == Some(entry.0) && (forall|k2: Seq<char>|
                        k2 != id@ ==> final(self).global.player.stats.reputation.get_of(k2) == old(
                            self,
                        ).global.player.stats.reputation.get_of(k2)))
                    &&& (!entry.1 ==> final(self).global.player.stats.reputation == old(
                        self,
                    ).global.player.stats.reputation)
                    &&& final(self).global.player.location == *id
                    &&& (ride ==> final(self).global.time == old(self).global.time && ({
                        let have = old(self).global.player.inventory.currency.value;
                        final(self).global.player.inventory.currency.value == have - cost
                            && msgs.0@ == "You paid the fee. You now have "@
                            + crate::strutil::spec_digits((have - cost) as nat) + old(
                            self,
                        ).config.world.currency.symbol@ + "."@
                    }))
                    &&& (!ride ==> final(self).global.player.inventory.currency == old(
                        self,
                    ).global.player.inventory.currency && msgs.0@ == "You decided to walk."@ && ({
                        let days = time / 1440;
                        let mins = time % 1440;
                        if old(self).global.time.min + mins > 1440 {
                            final(self).global.time.min == old(self).global.time.min + mins - 1440
                                && final(self).global.time.day == old(self).global.time.day + days
                                + 1
                        } else {
                            final(self).global.time.min == old(self).global.time.min + mins
                                && final(self).global.time.day == old(self).global.time.day + days
                        }
                    }))
                    &&& *final(self) == (GameData {
                        global: (GlobalData {
                            player: (Player {
                                inventory: (crate::inventory::Inventory {
                                    currency: final(self).global.player.inventory.currency,
                                    ..old(self).global.player.inventory
                                }),
                                stats: (crate::entity::PlayerStats {
                                    reputation: final(self).global.player.stats.reputation,
                                    ..old(self).global.player.stats
                                }),
                                location: final(self).global.player.location,
                                ..old(self).global.player
                            }),
                            time: final(self).global.time,
                        }),
                        ..*old(self)
                    })
                },
            },
    {
        let message: String;
        if ride {
            let outcome = self.global.player.inventory.currency.add(
                -(cost as i64),
                Some(&self.config.world.currency.plural),
            );
            match outcome {
                Result::Ok(_) => {
                    let mut m = String::from_str("You paid the fee. You now have ");
                    m.append(
                        crate::inventory::Currency::display(
                            self.global.player.inventory.currency.value,
                            self,
                        ).as_str(),
                    );
                    m.append(".");
                    message = m;
                },
                Result::Err(e) => {
                    return Err(e);
                },
            }
        } else {
            self.global.time.advance(time);
            message = String::from_str("You decided to walk.");
        }

        let entry = next.entry(id, &self.global.player.stats.reputation);

        if entry.2 {
            self.global.player.stats.reputation.set(id, entry.1);
        }

        self.global.player.location = id.clone();

        Ok((message, entry.0))
    }

    /// Commits a house visit: the player's mode becomes being inside that
    /// house, and the house's entry lines are rendered after the door line.
    pub fn visit_commit(&mut self, house_id: &String, house_name: &String) -> (r: String)
        requires
            old(self).houses.contains_key(house_id@),
        ensures
            final(self).global.player.status == PlayerStatus::House(*house_id),
            match crate::strmap::assoc_get(old(self).houses.entries(), house_id@) {
                Option::Some(house) => r@ == "You entered the "@ + house_name@ + ".\n\n"@
                    + crate::interaction::spec_lines_all(house.entry@),
                Option::None => false,
            },
            *final(self) == (GameData {
                global: (GlobalData {
                    player: (Player {
                        status: PlayerStatus::House(*house_id),
                        ..old(self).global.player
                    }),
                    ..old(self).global
                }),
                ..*old(self)
            }),
    {
        let house = match self.houses.get(house_id) {
            Option::Some(h) => h,
            Option::None => vstd::pervasive::unreached(),
        };

        let mut text = String::from_str("You entered the ");
        text.append(house_name.as_str());
        text.append(".\n\n");
        text.append(crate::interaction::InteractionLine::all(&house.entry).as_str());

        self.global.player.status = PlayerStatus::House(house_id.clone());

        text
    }

    /// Leaves the current house: the player stands at the location again.
    /// Always valid while in a house.
    pub fn leave_house(&mut self)
        ensures
            *final(self) == (GameData {
                global: (GlobalData {
                    player: (Player { status: PlayerStatus::Location, ..old(self).global.player }),
                    ..old(self).global
                }),
                ..*old(self)
            }),
    {
        self.global.player.status = PlayerStatus::Location;
    }

    /// Pairs each listed quest id with its display name, in order.
    pub fn quest_list(&self, v: &Option<Vec<String>>) -> (r: Option<Vec<(String, String)>>)
        requires
            match spec_opt_seq(*v) {
                Option::Some(ids) => forall|i: int|
                    0 <= i < ids.len() ==> crate::strmap::assoc_contains(
                        self.quests.entries(),
                        (#[trigger] ids[i])@,
                    ),
                Option::None => true,
            },
        ensures
            match spec_opt_seq(*v) {
                Option::Some(ids) => match r {
                    Option::Some(pairs) => pairs@ == spec_quest_pairs(ids, *self),
                    Option::None => false,
                },
                Option::None => r is None,
            },
    {
        match v {
            Option::Some(ids) => {
                proof {
                    assert(spec_opt_seq(*v) == Some(ids@));
                    assert forall|j: int| 0 <= j < ids@.len() implies crate::strmap::assoc_contains(
                        self.quests.entries(),
                        (#[trigger] ids@[j])@,
                    ) by {
                        assert(spec_opt_seq(*v)->Some_0 == ids@);
                        assert(spec_opt_seq(*v)->Some_0[j] == ids@[j]);
                    }
                }
                let ghost want = spec_quest_pairs(ids@, *self);
                let mut pairs: Vec<(String, String)> = Vec::new();
                let mut i: usize = 0;
                while i < ids.len()
                    invariant
                        i <= ids@.len(),
                        want == spec_quest_pairs(ids@, *self),
                        forall|j: int|
                            0 <= j < ids@.len() ==> crate::strmap::assoc_contains(
                                self.quests.entries(),
                                (#[trigger] ids@[j])@,
                            ),
                        pairs@ =~= want.take(i as int),
                    decreases ids@.len() - i,
                {
                    let quest = match self.quests.get(&ids[i]) {
                        Option::Some(q) => q,
                        Option::None => vstd::pervasive::unreached(),
                    };
                    pairs.push((quest.name.clone(), ids[i].clone()));
                    proof {
                        assert(want[i as int] == (quest.name, ids@[i as int]));
                        assert(pairs@ =~= want.take(i as int + 1));
                    }
                    i = i + 1;
                }
                proof {
                    assert(want.take(want.len() as int) =~= want);
                }
                Some(pairs)
            },
            Option::None => None,
        }
    }

    /// Renders a quest list as a dashed block, ticking the quests whose
    /// requirements already hold when asked to; a placeholder when the
    /// list is absent.
    pub fn display_quests(&self, v: &Option<Vec<(String, String)>>, show_completed: bool) -> (r:
        String)
        requires
            match *v {
                Option::Some(pairs) => forall|i: int|
                    0 <= i < pairs@.len() ==> match crate::strmap::assoc_get(
                        self.quests.entries(),
                        (#[trigger] pairs@[i]).1@,
                    ) {
                        Option::Some(q) => show_completed ==> (crate::condition::spec_conds_rank(
                            q.requirements@,
                        ) == 1 ==> crate::condition::spec_finished_ready(*self)),
                        Option::None => false,
                    },
                Option::None => true,
            },
        ensures
            match *v {
                Option::Some(pairs) => r@ == "\n"@ + crate::strutil::spec_join(
                    spec_quest_line_texts(pairs@, show_completed, *self),
                    "\n"@,
                ),
                Option::None => r@ == "\nNothing here..."@,
            },
    {
        match v {
            Option::Some(pairs) => {
                let ghost texts = spec_quest_line_texts(pairs@, show_completed, *self);
                let mut parts: Vec<String> = Vec::new();
                let mut i: usize = 0;
                while i < pairs.len()
                    invariant
                        i <= pairs@.len(),
                        texts == spec_quest_line_texts(pairs@, show_completed, *self),
                        forall|j: int|
                            0 <= j < pairs@.len() ==> match crate::strmap::assoc_get(
                                self.quests.entries(),
                                (#[trigger] pairs@[j]).1@,
                            ) {
                                Option::Some(q) => show_completed ==> (
                                crate::condition::spec_conds_rank(q.requirements@) == 1
                                    ==> crate::condition::spec_finished_ready(*self)),
                                Option::None => false,
                            },
                        crate::strutil::seq_views(parts@) == texts.take(i as int),
                    decreases pairs@.len() - i,
                {
                    let ticked: bool = if show_completed {
                        let quest = match self.quests.get(&pairs[i].1) {
                            Option::Some(q) => q,
                            Option::None => vstd::pervasive::unreached(),
                        };
                        quest.check(self)
                    } else {
                        false
                    };
                    let mut part = String::from_str("- ");
                    part.append(pairs[i].0.as_str());
                    if ticked {
                        part.append(" \u{2714}");
                    }
                    proof {
                        assert(part@ == texts[i as int]);
                    }
                    let ghost parts_before = parts@;
                    parts.push(part);
                    proof {
                        crate::strutil::lemma_seq_views_push(parts_before, parts@.last());
                        assert(texts.take(i as int).push(texts[i as int]) =~= texts.take(
                            i as int + 1,
                        ));
                        assert(crate::strutil::seq_views(parts@) =~= texts.take(i as int + 1));
                    }
                    i = i + 1;
                }
                proof {
                    assert(texts.take(texts.len() as int) =~= texts);
                }
                let mut r = String::from_str("\n");
                r.append(crate::strutil::join_strings(&parts, "\n").as_str());
                r
            },
            Option::None => String::from_str("\nNothing here..."),
        }
    }

    /// The quest book: the assigned quests (ticked when their requirements
    /// already hold) and the completed ones.
    pub fn quest_book(&mut self) -> (r: String)
        requires
            crate::condition::spec_finished_ready(*old(self)),
            match spec_opt_seq(old(self).global.player.quests.completed) {
                Option::Some(ids) => forall|i: int|
                    0 <= i < ids.len() ==> crate::strmap::assoc_contains(
                        old(self).quests.entries(),
                        (#[trigger] ids[i])@,
                    ),
                Option::None => true,
            },
        ensures
            *final(self) == *old(self),
            r@ == "Assigned:\n"@ + spec_quest_section(
                spec_opt_seq(old(self).global.player.quests.assigned),
                true,
                *old(self),
            ) + "\n\nCompleted:\n"@ + spec_quest_section(
                spec_opt_seq(old(self).global.player.quests.completed),
                false,
                *old(self),
            ),
    {
        proof {
            if self.global.player.quests.assigned is Some {
                let ids = self.global.player.quests.assigned->Some_0@;
                assert forall|i: int| 0 <= i < ids.len() implies crate::strmap::assoc_contains(
                    self.quests.entries(),
                    (#[trigger] ids[i])@,
                ) by {
                    crate::strmap::lemma_assoc_get_some_iff(self.quests.entries(), ids[i]@);
                }
            }
        }
        let assigned_list = self.quest_list(&self.global.player.quests.assigned);
        let completed_list = self.quest_list(&self.global.player.quests.completed);
        proof {
            match &assigned_list {
                Option::Some(pairs) => {
                    let ids = self.global.player.quests.assigned->Some_0@;
                    assert(pairs@ == spec_quest_pairs(ids, *self));
                    assert forall|i: int| 0 <= i < pairs@.len() implies match
                        crate::strmap::assoc_get(
                        self.quests.entries(),
                        (#[trigger] pairs@[i]).1@,
                    ) {
                        Option::Some(q) => true ==> (crate::condition::spec_conds_rank(
                            q.requirements@,
                        ) == 1 ==> crate::condition::spec_finished_ready(*self)),
                        Option::None => false,
                    } by {
                        assert(pairs@[i].1 == ids[i]);
                    }
                },
                Option::None => {},
            }
            match &completed_list {
                Option::Some(pairs) => {
                    let ids = self.global.player.quests.completed->Some_0@;
                    assert(pairs@ == spec_quest_pairs(ids, *self));
                    assert forall|i: int| 0 <= i < pairs@.len() implies crate::strmap::assoc_get(
                        self.quests.entries(),
                        (#[trigger] pairs@[i]).1@,
                    ) is Some by {
                        assert(pairs@[i].1 == ids[i]);
                        crate::strmap::lemma_assoc_get_some_iff(self.quests.entries(), ids[i]@);
                    }
                },
                Option::None => {},
            }
        }

        let mut r = String::from_str("Assigned:\n");
        r.append(self.display_quests(&assigned_list, true).as_str());
        r.append("\n\nCompleted:\n");
        r.append(self.display_quests(&completed_list, false).as_str());
        r
    }

    /// Resolves a user-typed matcher against a catalogue,
    /// case-insensitively, by id or display name; the first hit in
    /// catalogue order wins. The returned value is a copy of the entry.
    pub fn match_best<T: Named + Clone>(&self, matcher: &String, m: &StrMap<T>) -> (r: Option<
        (String, T),
    >)
        ensures
            match r {
                Option::Some(p) => exists|i: int|
                    0 <= i < m.entries().len() && spec_name_hit(#[trigger] m.entries()[i], matcher@)
                        && p.0 == m.entries()[i].0 && vstd::pervasive::cloned::<T>(
                        m.entries()[i].1,
                        p.1,
                    ) && (forall|j: int|
                        0 <= j < i ==> !spec_name_hit(#[trigger] m.entries()[j], matcher@)),
                Option::None => forall|i: int|
                    0 <= i < m.entries().len() ==> !spec_name_hit(
                        #[trigger] m.entries()[i],
                        matcher@,
                    ),
            },
    {
        let wanted = lowercase(matcher.as_str());
        let mut i: usize = 0;
        while i < m.len()
            invariant
                i <= m.entries().len(),
                wanted@ == lower_of(matcher@),
                forall|j: int| 0 <= j < i ==> !spec_name_hit(#[trigger] m.entries()[j], matcher@),
            decreases m.entries().len() - i,
        {
            let pair = m.pair_at(i);
            let named_lower = lowercase(pair.1.name().as_str());
            if string_eq(&pair.0, &wanted) || string_eq(&named_lower, &wanted) {
                return Some((pair.0.clone(), pair.1.clone()));
            }
            i = i + 1;
        }
        None
    }
}

} // verus!
