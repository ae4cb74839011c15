use vstd::prelude::*;

use crate::game::GameData;
use crate::strmap::StrMap;
use crate::strmap::assoc_get;
use crate::strmap::lookup_or_zero;
use crate::strutil::seq_has_string;
use crate::strutil::spec_opt_seq;
use crate::strutil::vec_has_string;

verus! {

/// A predicate over player/world state: gates dialogue choices and defines
/// quest requirements.
#[derive(Clone)]
pub enum Condition {
    Currency(u64),
    Health(u64),
    Items(StrMap<u64>),
    Reputation(StrMap<u64>),
    Defeated(StrMap<u64>),
    Completed(StrMap<bool>),
    Finished(StrMap<bool>),
    Assigned(StrMap<bool>),
    Marks(StrMap<bool>),
}

/// The uniform numeric-map rule: every required count is covered by the
/// owned count, an absent id counting as zero.
pub open spec fn spec_map_meets(req: Seq<(String, u64)>, have: Seq<(String, u64)>) -> bool {
    forall|i: int| 0 <= i < req.len() ==> req[i].1 <= lookup_or_zero(have, #[trigger] req[i].0@)
}

/// The uniform boolean-map rule: every id's actual membership equals the
/// expected flag; an absent list has no members.
pub open spec fn spec_bool_map_matches(req: Seq<(String, bool)>, members: Seq<String>) -> bool {
    forall|i: int| 0 <= i < req.len() ==> seq_has_string(members, #[trigger] req[i].0@) == req[i].1
}

/// The member list a boolean-map condition reads: absent means empty.
pub open spec fn spec_members(o: Option<Seq<String>>) -> Seq<String> {
    match o {
        Option::Some(s) => s,
        Option::None => Seq::empty(),
    }
}

/// Rank 1 marks the one condition kind whose evaluation consults the
/// computed finished-quest set; everything else is rank 0.
pub open spec fn spec_cond_rank(c: Condition) -> int {
    match c {
        Condition::Finished(_) => 1,
        _ => 0,
    }
}

/// The highest rank among a requirement list.
pub open spec fn spec_conds_rank(v: Seq<Condition>) -> int {
    if exists|i: int| 0 <= i < v.len() && spec_cond_rank(#[trigger] v[i]) == 1 {
        1
    } else {
        0
    }
}

/// Evaluation of the rank-0 condition kinds against game state. The
/// `Finished` kind is not among them; here it counts as failed.
pub open spec fn spec_cond_holds_base(c: Condition, g: GameData) -> bool {
    match c {
        Condition::Currency(n) => g.global.player.inventory.currency.value >= n,
        Condition::Health(n) => g.global.player.vitality.health.value >= n,
        Condition::Items(m) => spec_map_meets(
            m.entries(),
            g.global.player.inventory.items.entries(),
        ),
        Condition::Reputation(m) => spec_map_meets(
            m.entries(),
            g.global.player.stats.reputation.entries(),
        ),
        Condition::Defeated(m) => spec_map_meets(
            m.entries(),
            g.global.player.stats.defeated.entries(),
        ),
        Condition::Completed(m) => spec_bool_map_matches(
            m.entries(),
            spec_members(spec_opt_seq(g.global.player.quests.completed)),
        ),
        Condition::Assigned(m) => spec_bool_map_matches(
            m.entries(),
            spec_members(spec_opt_seq(g.global.player.quests.assigned)),
        ),
        Condition::Marks(m) => spec_bool_map_matches(
            m.entries(),
            spec_members(spec_opt_seq(g.global.player.stats.marks)),
        ),
        Condition::Finished(_) => false,
    }
}

/// All requirements hold, evaluated at base rank.
pub open spec fn spec_reqs_hold_base(v: Seq<Condition>, g: GameData) -> bool {
    forall|i: int| 0 <= i < v.len() ==> spec_cond_holds_base(#[trigger] v[i], g)
}

/// The assigned ids whose quest's requirements hold right now, in order.
pub open spec fn spec_finished_filter(v: Seq<String>, g: GameData) -> Seq<String>
    decreases v.len(),
{
    if v.len() == 0 {
        Seq::empty()
    } else {
        let rest = spec_finished_filter(v.drop_first(), g);
        let keep = match assoc_get(g.quests.entries(), v[0]@) {
            Option::Some(q) => spec_reqs_hold_base(q.requirements@, g),
            Option::None => false,
        };
        if keep {
            seq![v[0]] + rest
        } else {
            rest
        }
    }
}

/// The computed finished-quest set: the currently assigned ids whose
/// requirements already evaluate true, or absent when nothing is assigned.
pub open spec fn spec_finished_ids(g: GameData) -> Option<Seq<String>> {
    match spec_opt_seq(g.global.player.quests.assigned) {
        Option::Some(v) => Some(spec_finished_filter(v, g)),
        Option::None => None,
    }
}

/// Full condition evaluation: `Finished` checks membership in the computed
/// finished-quest set, everything else evaluates at base rank.
pub open spec fn spec_cond_holds(c: Condition, g: GameData) -> bool {
    match c {
        Condition::Finished(m) => spec_bool_map_matches(
            m.entries(),
            spec_members(spec_finished_ids(g)),
        ),
        _ => spec_cond_holds_base(c, g),
    }
}

/// A short-circuit conjunction over a requirement list; empty is true.
pub open spec fn spec_conds_hold(v: Seq<Condition>, g: GameData) -> bool {
    forall|i: int| 0 <= i < v.len() ==> spec_cond_holds(#[trigger] v[i], g)
}

/// What the `Finished` kind needs of the game: every assigned quest id is
/// in the catalogue, and its requirements stay at base rank — the
/// evaluator would otherwise recurse without end.
pub open spec fn spec_finished_ready(g: GameData) -> bool {
    match spec_opt_seq(g.global.player.quests.assigned) {
        Option::Some(v) => forall|i: int|
            0 <= i < v.len() ==> match assoc_get(g.quests.entries(), #[trigger] v[i]@) {
                Option::Some(q) => spec_conds_rank(q.requirements@) == 0,
                Option::None => false,
            },
        Option::None => true,
    }
}

/// At base rank, full and base evaluation agree.
pub proof fn lemma_conds_hold_base(v: Seq<Condition>, g: GameData)
    requires
        spec_conds_rank(v) == 0,
    ensures
        spec_conds_hold(v, g) == spec_reqs_hold_base(v, g),
{
    assert forall|i: int| 0 <= i < v.len() implies spec_cond_holds(#[trigger] v[i], g)
        == spec_cond_holds_base(v[i], g) by {
        assert(spec_cond_rank(v[i]) != 1);
    }
}

/// An empty condition list is vacuously true, whatever the game state.
pub proof fn lemma_check_all_empty(g: GameData)
    ensures
        spec_conds_hold(Seq::empty(), g),
{
}

/// An `Items` condition with an empty map holds in any state.
pub proof fn lemma_items_empty_condition(m: StrMap<u64>, g: GameData)
    requires
        m.entries().len() == 0,
    ensures
        spec_cond_holds(Condition::Items(m), g),
{
}

/// An `Items` requirement of zero can never fail, owned or not: a map
/// whose required counts are all zero holds in any state.
pub proof fn lemma_items_zero_requirement(m: StrMap<u64>, g: GameData)
    requires
        forall|i: int| 0 <= i < m.entries().len() ==> (#[trigger] m.entries()[i]).1 == 0,
    ensures
        spec_cond_holds(Condition::Items(m), g),
{
}

impl Condition {
    /// Evaluates this condition against the game state.
    pub fn check(&self, game: &GameData) -> (r: bool)
        requires
            self is Finished ==> spec_finished_ready(*game),
        ensures
            r == spec_cond_holds(*self, *game),
        decreases spec_cond_rank(*self), 1int,
    {
        let player = &game.global.player;

        match self {
            Condition::Currency(n) => player.inventory.currency.value >= *n,
            Condition::Health(n) => player.vitality.health.value >= *n,
            Condition::Items(m) => compare_map(m, &player.inventory.items),
            Condition::Reputation(m) => compare_map(m, &player.stats.reputation),
            Condition::Defeated(m) => compare_map(m, &player.stats.defeated),
            Condition::Completed(m) => compare_map_bool(m, player.quests.completed.as_ref()),
            Condition::Finished(m) => {
                let f = game.finished_quests();
                compare_map_bool(m, f.as_ref())
            },
            Condition::Assigned(m) => compare_map_bool(m, player.quests.assigned.as_ref()),
            Condition::Marks(m) => compare_map_bool(m, player.stats.marks.as_ref()),
        }
    }

    /// A short-circuiting logical AND over a condition list; an empty list
    /// is vacuously true.
    pub fn check_all(v: &Vec<Condition>, game: &GameData) -> (r: bool)
        requires
            spec_conds_rank(v@) == 1 ==> spec_finished_ready(*game),
        ensures
            r == spec_conds_hold(v@, *game),
        decreases spec_conds_rank(v@), 2int,
    {
        let mut i: usize = 0;
        while i < v.len()
            invariant
                i <= v@.len(),
                spec_conds_rank(v@) == 1 ==> spec_finished_ready(*game),
                forall|j: int| 0 <= j < i ==> spec_cond_holds(#[trigger] v@[j], *game),
            decreases v@.len() - i,
        {
            proof {
                if v@[i as int] is Finished {
                    assert(spec_cond_rank(v@[i as int]) == 1);
                    assert(spec_conds_rank(v@) == 1);
                }
            }
            if !v[i].check(game) {
                return false;
            }
            i = i + 1;
        }
        true
    }
}

/// The rendered requirement for each item entry: count and item name.
pub open spec fn spec_item_req_texts(entries: Seq<(String, u64)>, g: GameData) -> Seq<Seq<char>> {
    entries.map_values(
        |p: (String, u64)|
            crate::strutil::spec_digits(p.1 as nat) + " "@ + (match assoc_get(
                g.items.entries(),
                p.0@,
            ) {
                Option::Some(it) => it.name@,
                Option::None => Seq::<char>::empty(),
            }),
    )
}

/// The rendered requirement for each reputation entry: score and location.
pub open spec fn spec_rep_req_texts(entries: Seq<(String, u64)>, g: GameData) -> Seq<Seq<char>> {
    entries.map_values(
        |p: (String, u64)|
            crate::strutil::spec_digits(p.1 as nat) + " in "@ + (match assoc_get(
                g.locations.entries(),
                p.0@,
            ) {
                Option::Some(l) => l.name@,
                Option::None => Seq::<char>::empty(),
            }),
    )
}

/// The rendered expectation for each quest entry: the quest's name,
/// negated when the flag asks for absence.
pub open spec fn spec_quest_flag_texts(entries: Seq<(String, bool)>, g: GameData) -> Seq<
    Seq<char>,
> {
    entries.map_values(
        |p: (String, bool)|
            (if p.1 {
                Seq::<char>::empty()
            } else {
                "NOT "@
            }) + (match assoc_get(g.quests.entries(), p.0@) {
                Option::Some(q) => q.name@,
                Option::None => Seq::<char>::empty(),
            }),
    )
}

/// The human-readable requirement text of a condition.
pub open spec fn spec_cond_display(c: Condition, g: GameData) -> Seq<char> {
    match c {
        Condition::Currency(n) => "Have at least "@ + crate::strutil::spec_digits(n as nat)
            + g.config.world.currency.symbol@,
        Condition::Health(n) => "Have at least "@ + crate::strutil::spec_digits(n as nat)
            + " health"@,
        Condition::Items(m) => "Have "@ + crate::strutil::spec_join(
            spec_item_req_texts(m.entries(), g),
            ", "@,
        ),
        Condition::Reputation(m) => "Have reputation "@ + crate::strutil::spec_join(
            spec_rep_req_texts(m.entries(), g),
            ", "@,
        ),
        Condition::Defeated(_) => "Defeat (todo)"@,
        Condition::Completed(m) => "Complete"@ + " "@ + crate::strutil::spec_join(
            spec_quest_flag_texts(m.entries(), g),
            ", "@,
        ),
        Condition::Finished(m) => "Finish"@ + " "@ + crate::strutil::spec_join(
            spec_quest_flag_texts(m.entries(), g),
            ", "@,
        ),
        Condition::Assigned(m) => "Be assigned"@ + " "@ + crate::strutil::spec_join(
            spec_quest_flag_texts(m.entries(), g),
            ", "@,
        ),
        Condition::Marks(_) => Seq::empty(),
    }
}

/// What rendering a condition needs of the content set: each referenced id
/// is in its catalogue.
pub open spec fn spec_cond_display_ready(c: Condition, g: GameData) -> bool {
    match c {
        Condition::Items(m) => forall|i: int|
            0 <= i < m.entries().len() ==> crate::strmap::assoc_contains(
                g.items.entries(),
                (#[trigger] m.entries()[i]).0@,
            ),
        Condition::Reputation(m) => forall|i: int|
            0 <= i < m.entries().len() ==> crate::strmap::assoc_contains(
                g.locations.entries(),
                (#[trigger] m.entries()[i]).0@,
            ),
        Condition::Completed(m) => forall|i: int|
            0 <= i < m.entries().len() ==> crate::strmap::assoc_contains(
                g.quests.entries(),
                (#[trigger] m.entries()[i]).0@,
            ),
        Condition::Finished(m) => forall|i: int|
            0 <= i < m.entries().len() ==> crate::strmap::assoc_contains(
                g.quests.entries(),
                (#[trigger] m.entries()[i]).0@,
            ),
        Condition::Assigned(m) => forall|i: int|
            0 <= i < m.entries().len() ==> crate::strmap::assoc_contains(
                g.quests.entries(),
                (#[trigger] m.entries()[i]).0@,
            ),
        _ => true,
    }
}

/// Renders a boolean quest-expectation map after a header word.
pub fn display_quest_map(m: &StrMap<bool>, header: &str, game: &GameData) -> (r: String)
    requires
        forall|i: int|
            0 <= i < m.entries().len() ==> crate::strmap::assoc_contains(
                game.quests.entries(),
                (#[trigger] m.entries()[i]).0@,
            ),
    ensures
        r@ == header@ + " "@ + crate::strutil::spec_join(
            spec_quest_flag_texts(m.entries(), *game),
            ", "@,
        ),
{
    let ghost texts = spec_quest_flag_texts(m.entries(), *game);
    let mut parts: Vec<String> = Vec::new();
    let mut i: usize = 0;
    while i < m.len()
        invariant
            i <= m.entries().len(),
            texts == spec_quest_flag_texts(m.entries(), *game),
            forall|j: int|
                0 <= j < m.entries().len() ==> crate::strmap::assoc_contains(
                    game.quests.entries(),
                    (#[trigger] m.entries()[j]).0@,
                ),
            crate::strutil::seq_views(parts@) == texts.take(i as int),
        decreases m.entries().len() - i,
    {
        let pair = m.pair_at(i);
        let quest = match game.quests.get(&pair.0) {
            Option::Some(q) => q,
            Option::None => vstd::pervasive::unreached(),
        };
        let mut part = String::from_str(
            if pair.1 {
                ""
            } else {
                "NOT "
            },
        );
        part.append(quest.name.as_str());
        proof {
            reveal_strlit("");
            assert(part@ == texts[i as int]);
        }
        let ghost parts_before = parts@;
        parts.push(part);
        proof {
            crate::strutil::lemma_seq_views_push(parts_before, parts@.last());
            assert(texts.take(i as int).push(texts[i as int]) =~= texts.take(i as int + 1));
            assert(crate::strutil::seq_views(parts@) =~= texts.take(i as int + 1));
        }
        i = i + 1;
    }
    proof {
        assert(texts.take(texts.len() as int) =~= texts);
    }
    let mut r = String::from_str(header);
    r.append(" ");
    r.append(crate::strutil::join_strings(&parts, ", ").as_str());
    r
}

impl Condition {
    /// The human-readable requirement this condition asks for, with ids
    /// resolved to display names. Pure presentation.
    pub fn display(&self, game: &GameData) -> (r: String)
        requires
            spec_cond_display_ready(*self, *game),
        ensures
            r@ == spec_cond_display(*self, *game),
    {
        match self {
            Condition::Currency(n) => {
                let mut r = String::from_str("Have at least ");
                r.append(crate::inventory::Currency::display(*n, game).as_str());
                r
            },
            Condition::Health(n) => {
                let mut r = String::from_str("Have at least ");
                r.append(crate::strutil::u64_to_string(*n).as_str());
                r.append(" health");
                r
            },
            Condition::Items(m) => {
                let ghost texts = spec_item_req_texts(m.entries(), *game);
                let mut parts: Vec<String> = Vec::new();
                let mut i: usize = 0;
                while i < m.len()
                    invariant
                        i <= m.entries().len(),
                        texts == spec_item_req_texts(m.entries(), *game),
                        forall|j: int|
                            0 <= j < m.entries().len() ==> crate::strmap::assoc_contains(
                                game.items.entries(),
                                (#[trigger] m.entries()[j]).0@,
                            ),
                        crate::strutil::seq_views(parts@) == texts.take(i as int),
                    decreases m.entries().len() - i,
                {
                    let pair = m.pair_at(i);
                    let item = match game.items.get(&pair.0) {
                        Option::Some(it) => it,
                        Option::None => vstd::pervasive::unreached(),
                    };
                    let mut part = crate::strutil::u64_to_string(pair.1);
                    part.append(" ");
                    part.append(item.name.as_str());
                    proof {
                        assert(part@ == texts[i as int]);
                    }
                    let ghost parts_before = parts@;
                    parts.push(part);
                    proof {
                        crate::strutil::lemma_seq_views_push(parts_before, parts@.last());
                        assert(texts.take(i as int).push(texts[i as int]) =~= texts.take(
                            i as int + 1,
                        ));
                        assert(crate::strutil::seq_views(parts@) =~= texts.take(i as int + 1));
                    }
                    i = i + 1;
                }
                proof {
                    assert(texts.take(texts.len() as int) =~= texts);
                }
                let mut r = String::from_str("Have ");
                r.append(crate::strutil::join_strings(&parts, ", ").as_str());
                r
            },
            Condition::Reputation(m) => {
                let ghost texts = spec_rep_req_texts(m.entries(), *game);
                let mut parts: Vec<String> = Vec::new();
                let mut i: usize = 0;
                while i < m.len()
                    invariant
                        i <= m.entries().len(),
                        texts == spec_rep_req_texts(m.entries(), *game),
                        forall|j: int|
                            0 <= j < m.entries().len() ==> crate::strmap::assoc_contains(
                                game.locations.entries(),
                                (#[trigger] m.entries()[j]).0@,
                            ),
                        crate::strutil::seq_views(parts@) == texts.take(i as int),
                    decreases m.entries().len() - i,
                {
                    let pair = m.pair_at(i);
                    let loc = match game.locations.get(&pair.0) {
                        Option::Some(l) => l,
                        Option::None => vstd::pervasive::unreached(),
                    };
                    let mut part = crate::strutil::u64_to_string(pair.1);
                    part.append(" in ");
                    part.append(loc.name.as_str());
                    proof {
                        assert(part@ == texts[i as int]);
                    }
                    let ghost parts_before = parts@;
                    parts.push(part);
                    proof {
                        crate::strutil::lemma_seq_views_push(parts_before, parts@.last());
                        assert(texts.take(i as int).push(texts[i as int]) =~= texts.take(
                            i as int + 1,
                        ));
                        assert(crate::strutil::seq_views(parts@) =~= texts.take(i as int + 1));
                    }
                    i = i + 1;
                }
                proof {
                    assert(texts.take(texts.len() as int) =~= texts);
                }
                let mut r = String::from_str("Have reputation ");
                r.append(crate::strutil::join_strings(&parts, ", ").as_str());
                r
            },
            Condition::Defeated(_) => String::from_str("Defeat (todo)"),
            Condition::Completed(m) => display_quest_map(m, "Complete", game),
            Condition::Finished(m) => display_quest_map(m, "Finish", game),
            Condition::Assigned(m) => display_quest_map(m, "Be assigned", game),
            Condition::Marks(_) => String::new(),
        }
    }

    /// Renders each condition of a list.
    pub fn display_all(v: &Vec<Condition>, game: &GameData) -> (r: Vec<String>)
        requires
            forall|i: int| 0 <= i < v@.len() ==> spec_cond_display_ready(#[trigger] v@[i], *game),
        ensures
            r@.len() == v@.len(),
            forall|i: int|
                0 <= i < v@.len() ==> (#[trigger] r@[i])@ == spec_cond_display(v@[i], *game),
    {
        let mut out: Vec<String> = Vec::new();
        let mut i: usize = 0;
        while i < v.len()
            invariant
                i <= v@.len(),
                out@.len() == i,
                forall|j: int|
                    0 <= j < v@.len() ==> spec_cond_display_ready(#[trigger] v@[j], *game),
                forall|j: int|
                    0 <= j < i ==> (#[trigger] out@[j])@ == spec_cond_display(v@[j], *game),
            decreases v@.len() - i,
        {
            out.push(v[i].display(game));
            i = i + 1;
        }
        out
    }
}

/// Checks a numeric requirement map against an owned-count map.
pub fn compare_map(m1: &StrMap<u64>, m2: &StrMap<u64>) -> (r: bool)
    ensures
        r == spec_map_meets(m1.entries(), m2.entries()),
{
    let mut i: usize = 0;
    while i < m1.len()
        invariant
            i <= m1.entries().len(),
            forall|j: int|
                0 <= j < i ==> m1.entries()[j].1 <= lookup_or_zero(
                    m2.entries(),
                    #[trigger] m1.entries()[j].0@,
                ),
        decreases m1.entries().len() - i,
    {
        let pair = m1.pair_at(i);
        match m2.get(&pair.0) {
            Option::Some(v) => {
                if *v < pair.1 {
                    return false;
                }
            },
            Option::None => {
                if pair.1 > 0 {
                    return false;
                }
            },
        }
        i = i + 1;
    }
    true
}

/// Checks a boolean expectation map against an optional member list.
pub fn compare_map_bool(m: &StrMap<bool>, o: Option<&Vec<String>>) -> (r: bool)
    ensures
        r == spec_bool_map_matches(
            m.entries(),
            spec_members(
                match o {
                    Option::Some(v) => Some(v@),
                    Option::None => None,
                },
            ),
        ),
{
    let mut i: usize = 0;
    while i < m.len()
        invariant
            i <= m.entries().len(),
            forall|j: int|
                0 <= j < i ==> seq_has_string(
                    spec_members(
                        match o {
                            Option::Some(v) => Some(v@),
                            Option::None => None,
                        },
                    ),
                    #[trigger] m.entries()[j].0@,
                ) == m.entries()[j].1,
        decreases m.entries().len() - i,
    {
        let pair = m.pair_at(i);
        let member = match o {
            Option::Some(v) => vec_has_string(v, &pair.0),
            Option::None => false,
        };
        proof {
            if o is None {
                assert(!seq_has_string(Seq::<String>::empty(), m.entries()[i as int].0@));
            }
        }
        if member != pair.1 {
            return false;
        }
        i = i + 1;
    }
    true
}

} // verus!
