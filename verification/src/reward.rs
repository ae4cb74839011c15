use vstd::prelude::*;

use crate::entity::Player;
use crate::entity::PlayerQuestData;
use crate::entity::PlayerStats;
use crate::entity::spec_assigned_without;
use crate::entity::spec_completed_with;
use crate::inventory::Inventory;
use crate::strmap::StrMap;
use crate::strmap::assoc_get;
use crate::strutil::clone_string_vec;
use crate::strutil::seq_has_string;
use crate::strutil::spec_opt_seq;
use crate::strutil::vec_has_string;

verus! {

/// A state mutation granted at a terminal interaction node or on quest
/// completion.
#[derive(Clone)]
pub enum Reward {
    Currency(i64),
    Items(StrMap<i64>),
    Quests(Vec<String>),
    Marks(Vec<String>),
    Logs(Vec<String>),
    Complete(Vec<String>),
}

/// Appends to `items` the strings of `v` that are not yet present, in order.
pub open spec fn spec_append_missing(items: Seq<String>, v: Seq<String>) -> Seq<String>
    decreases v.len(),
{
    if v.len() == 0 {
        items
    } else {
        let next = if seq_has_string(items, v[0]@) {
            items
        } else {
            items.push(v[0])
        };
        spec_append_missing(next, v.drop_first())
    }
}

/// The list after `apply_vec`: ids not yet present are appended in order,
/// never twice; an absent list starts empty, so duplicates inside `v`
/// itself are dropped too.
pub open spec fn spec_apply_vec(v: Seq<String>, p: Option<Seq<String>>) -> Seq<String> {
    match p {
        Option::Some(items) => spec_append_missing(items, v),
        Option::None => spec_append_missing(Seq::empty(), v),
    }
}

/// Appends each string of `v` that the optional list does not yet hold,
/// starting the list empty when absent.
pub fn apply_vec(v: &Vec<String>, p: &mut Option<Vec<String>>)
    ensures
        spec_opt_seq(*final(p)) == Some(spec_apply_vec(v@, spec_opt_seq(*old(p)))),
{
    let ghost before = spec_opt_seq(*p);
    if p.is_none() {
        *p = Some(Vec::new());
    }
    match p {
        Option::Some(items) => {
            let ghost orig_items = items@;
            proof {
                assert(v@.skip(0) =~= v@);
                assert(spec_apply_vec(v@, before) == spec_append_missing(orig_items, v@));
            }
            let mut i: usize = 0;
            while i < v.len()
                invariant
                    i <= v@.len(),
                    spec_append_missing(items@, v@.skip(i as int)) == spec_append_missing(
                        orig_items,
                        v@,
                    ),
                decreases v@.len() - i,
            {
                proof {
                    assert(v@.skip(i as int)[0] == v@[i as int]);
                    assert(v@.skip(i as int).drop_first() =~= v@.skip(i as int + 1));
                }
                if !vec_has_string(items, &v[i]) {
                    items.push(v[i].clone());
                }
                i = i + 1;
            }
            proof {
                assert(v@.skip(v@.len() as int).len() == 0);
            }
        },
        Option::None => {},
    }
}

/// Currency after one reward: a `Currency` delta added, clamped at zero.
pub open spec fn spec_currency_after(c: int, r: Reward) -> int {
    match r {
        Reward::Currency(n) => if c + n < 0 {
            0
        } else {
            c + n
        },
        _ => c,
    }
}

/// Item stacks after a whole map of signed deltas, applied entry by entry.
pub open spec fn spec_items_steps(
    s: Seq<(String, u64)>,
    ms: Seq<(String, i64)>,
) -> Seq<(String, u64)>
    decreases ms.len(),
{
    if ms.len() == 0 {
        s
    } else {
        spec_items_steps(Inventory::spec_items_step(s, ms[0].0, ms[0].1), ms.drop_first())
    }
}

/// Every stack shift of the map stays within the machine range.
pub open spec fn spec_items_steps_ok(s: Seq<(String, u64)>, ms: Seq<(String, i64)>) -> bool
    decreases ms.len(),
{
    if ms.len() == 0 {
        true
    } else {
        Inventory::spec_stack_ok(assoc_get(s, ms[0].0@), ms[0].1) && spec_items_steps_ok(
            Inventory::spec_items_step(s, ms[0].0, ms[0].1),
            ms.drop_first(),
        )
    }
}

/// Item stacks after one reward.
pub open spec fn spec_items_after(s: Seq<(String, u64)>, r: Reward) -> Seq<(String, u64)> {
    match r {
        Reward::Items(m) => spec_items_steps(s, m.entries()),
        _ => s,
    }
}

/// Assigned/completed lists after finishing each quest of `v` in order.
pub open spec fn spec_complete_all(
    a: Option<Seq<String>>,
    c: Option<Seq<String>>,
    v: Seq<String>,
) -> (Option<Seq<String>>, Option<Seq<String>>)
    decreases v.len(),
{
    if v.len() == 0 {
        (a, c)
    } else {
        spec_complete_all(
            spec_assigned_without(a, v[0]),
            Some(spec_completed_with(c, v[0])),
            v.drop_first(),
        )
    }
}

/// Assigned/completed lists after one reward.
pub open spec fn spec_quests_after(
    a: Option<Seq<String>>,
    c: Option<Seq<String>>,
    r: Reward,
) -> (Option<Seq<String>>, Option<Seq<String>>) {
    match r {
        Reward::Quests(v) => (Some(spec_apply_vec(v@, a)), c),
        Reward::Complete(v) => spec_complete_all(a, c, v@),
        _ => (a, c),
    }
}

/// Marks after one reward.
pub open spec fn spec_marks_after(m: Option<Seq<String>>, r: Reward) -> Option<Seq<String>> {
    match r {
        Reward::Marks(v) => Some(spec_apply_vec(v@, m)),
        _ => m,
    }
}

/// The list after unconditional appending: log entries are never
/// deduplicated; an absent list starts as a copy of `v`.
pub open spec fn spec_append_log(v: Seq<String>, p: Option<Seq<String>>) -> Seq<String> {
    match p {
        Option::Some(items) => items + v,
        Option::None => v,
    }
}

/// Appends every string of `v`, duplicates included, starting the list
/// when absent.
pub fn append_log_vec(v: &Vec<String>, p: &mut Option<Vec<String>>)
    ensures
        spec_opt_seq(*final(p)) == Some(spec_append_log(v@, spec_opt_seq(*old(p)))),
{
    match p {
        Option::Some(items) => {
            let ghost orig_items = items@;
            let mut i: usize = 0;
            while i < v.len()
                invariant
                    i <= v@.len(),
                    items@ =~= orig_items + v@.take(i as int),
                decreases v@.len() - i,
            {
                items.push(v[i].clone());
                proof {
                    assert(items@ =~= orig_items + v@.take(i as int + 1));
                }
                i = i + 1;
            }
            proof {
                assert(orig_items + v@.take(v@.len() as int) =~= orig_items + v@);
            }
        },
        Option::None => {
            *p = Some(clone_string_vec(v));
        },
    }
}

/// The log after one reward.
pub open spec fn spec_log_after(l: Option<Seq<String>>, r: Reward) -> Option<Seq<String>> {
    match r {
        Reward::Logs(v) => Some(spec_append_log(v@, l)),
        _ => l,
    }
}

/// Whether one reward's arithmetic stays within the machine range, given
/// the currency and item state it will meet.
pub open spec fn spec_reward_ok(currency: int, items: Seq<(String, u64)>, r: Reward) -> bool {
    match r {
        Reward::Currency(n) => n > 0 ==> currency + n <= u64::MAX,
        Reward::Items(m) => m.wf() && spec_items_steps_ok(items, m.entries()),
        _ => true,
    }
}

/// Whether a whole reward list's arithmetic stays in range, applied in
/// order.
pub open spec fn spec_rewards_ok(currency: int, items: Seq<(String, u64)>, rs: Seq<Reward>) -> bool
    decreases rs.len(),
{
    if rs.len() == 0 {
        true
    } else {
        spec_reward_ok(currency, items, rs[0]) && spec_rewards_ok(
            spec_currency_after(currency, rs[0]),
            spec_items_after(items, rs[0]),
            rs.drop_first(),
        )
    }
}

/// Currency after a reward list.
pub open spec fn spec_currency_after_all(c: int, rs: Seq<Reward>) -> int
    decreases rs.len(),
{
    if rs.len() == 0 {
        c
    } else {
        spec_currency_after_all(spec_currency_after(c, rs[0]), rs.drop_first())
    }
}

/// Item stacks after a reward list.
pub open spec fn spec_items_after_all(
    s: Seq<(String, u64)>,
    rs: Seq<Reward>,
) -> Seq<(String, u64)>
    decreases rs.len(),
{
    if rs.len() == 0 {
        s
    } else {
        spec_items_after_all(spec_items_after(s, rs[0]), rs.drop_first())
    }
}

/// Assigned/completed lists after a reward list.
pub open spec fn spec_quests_after_all(
    a: Option<Seq<String>>,
    c: Option<Seq<String>>,
    rs: Seq<Reward>,
) -> (Option<Seq<String>>, Option<Seq<String>>)
    decreases rs.len(),
{
    if rs.len() == 0 {
        (a, c)
    } else {
        let next = spec_quests_after(a, c, rs[0]);
        spec_quests_after_all(next.0, next.1, rs.drop_first())
    }
}

/// Marks after a reward list.
pub open spec fn spec_marks_after_all(m: Option<Seq<String>>, rs: Seq<Reward>) -> Option<
    Seq<String>,
>
    decreases rs.len(),
{
    if rs.len() == 0 {
        m
    } else {
        spec_marks_after_all(spec_marks_after(m, rs[0]), rs.drop_first())
    }
}

/// The log after a reward list.
pub open spec fn spec_log_after_all(l: Option<Seq<String>>, rs: Seq<Reward>) -> Option<Seq<String>>
    decreases rs.len(),
{
    if rs.len() == 0 {
        l
    } else {
        spec_log_after_all(spec_log_after(l, rs[0]), rs.drop_first())
    }
}

impl Reward {
    /// Applies this reward to the player, in place. A currency shortfall
    /// clamps to zero silently; item stacks shift per entry; quest, mark and
    /// log lists grow by the listed ids; `Complete` finishes each listed
    /// quest.
    pub fn apply(&self, player: &mut Player)
        requires
            old(player).inventory.items.wf(),
            spec_reward_ok(
                old(player).inventory.currency.value as int,
                old(player).inventory.items.entries(),
                *self,
            ),
        ensures
            final(player).inventory.items.wf(),
            final(player).inventory.currency.value == spec_currency_after(
                old(player).inventory.currency.value as int,
                *self,
            ),
            final(player).inventory.items.entries() == spec_items_after(
                old(player).inventory.items.entries(),
                *self,
            ),
            spec_opt_seq(final(player).quests.assigned) == spec_quests_after(
                spec_opt_seq(old(player).quests.assigned),
                spec_opt_seq(old(player).quests.completed),
                *self,
            ).0,
            spec_opt_seq(final(player).quests.completed) == spec_quests_after(
                spec_opt_seq(old(player).quests.assigned),
                spec_opt_seq(old(player).quests.completed),
                *self,
            ).1,
            spec_opt_seq(final(player).stats.marks) == spec_marks_after(
                spec_opt_seq(old(player).stats.marks),
                *self,
            ),
            spec_opt_seq(final(player).stats.log) == spec_log_after(
                spec_opt_seq(old(player).stats.log),
                *self,
            ),
            *final(player) == (Player {
                inventory: (Inventory {
                    currency: final(player).inventory.currency,
                    items: final(player).inventory.items,
                    ..old(player).inventory
                }),
                quests: (PlayerQuestData {
                    assigned: final(player).quests.assigned,
                    completed: final(player).quests.completed,
                }),
                stats: (PlayerStats {
                    marks: final(player).stats.marks,
                    log: final(player).stats.log,
                    ..old(player).stats
                }),
                ..*old(player)
            }),
    {
        match self {
            Reward::Currency(n) => {
                let _ = player.inventory.currency.add(*n, None);
            },
            Reward::Items(m) => {
                let ghost orig_items = player.inventory.items.entries();
                proof {
                    assert(m.entries().skip(0) =~= m.entries());
                }
                let mut j: usize = 0;
                while j < m.len()
                    invariant
                        j <= m.entries().len(),
                        player.inventory.items.wf(),
                        spec_items_steps(
                            player.inventory.items.entries(),
                            m.entries().skip(j as int),
                        ) == spec_items_steps(orig_items, m.entries()),
                        spec_items_steps_ok(
                            player.inventory.items.entries(),
                            m.entries().skip(j as int),
                        ),
                        *player == (Player {
                            inventory: (Inventory {
                                items: player.inventory.items,
                                ..old(player).inventory
                            }),
                            ..*old(player)
                        }),
                    decreases m.entries().len() - j,
                {
                    proof {
                        assert(m.entries().skip(j as int)[0] == m.entries()[j as int]);
                        assert(m.entries().skip(j as int).drop_first() =~= m.entries().skip(
                            j as int + 1,
                        ));
                    }
                    let pair = m.pair_at(j);
                    player.inventory.add(&pair.0, pair.1);
                    j = j + 1;
                }
                proof {
                    assert(m.entries().skip(m.entries().len() as int).len() == 0);
                }
            },
            Reward::Quests(v) => {
                apply_vec(v, &mut player.quests.assigned);
            },
            Reward::Marks(v) => {
                apply_vec(v, &mut player.stats.marks);
            },
            Reward::Logs(v) => {
                append_log_vec(v, &mut player.stats.log);
            },
            Reward::Complete(v) => {
                let ghost orig_a = spec_opt_seq(player.quests.assigned);
                let ghost orig_c = spec_opt_seq(player.quests.completed);
                proof {
                    assert(v@.skip(0) =~= v@);
                }
                let mut i: usize = 0;
                while i < v.len()
                    invariant
                        i <= v@.len(),
                        spec_complete_all(
                            spec_opt_seq(player.quests.assigned),
                            spec_opt_seq(player.quests.completed),
                            v@.skip(i as int),
                        ) == spec_complete_all(orig_a, orig_c, v@),
                        *player == (Player {
                            quests: (PlayerQuestData {
                                assigned: player.quests.assigned,
                                completed: player.quests.completed,
                            }),
                            ..*old(player)
                        }),
                    decreases v@.len() - i,
                {
                    proof {
                        assert(v@.skip(i as int)[0] == v@[i as int]);
                        assert(v@.skip(i as int).drop_first() =~= v@.skip(i as int + 1));
                    }
                    player.quests.complete(&v[i]);
                    i = i + 1;
                }
                proof {
                    assert(v@.skip(v@.len() as int).len() == 0);
                }
            },
        }
    }

    /// Applies a list of rewards sequentially, in list order.
    pub fn apply_all(v: &Vec<Reward>, player: &mut Player)
        requires
            old(player).inventory.items.wf(),
            spec_rewards_ok(
                old(player).inventory.currency.value as int,
                old(player).inventory.items.entries(),
                v@,
            ),
        ensures
            final(player).inventory.items.wf(),
            final(player).inventory.currency.value == spec_currency_after_all(
                old(player).inventory.currency.value as int,
                v@,
            ),
            final(player).inventory.items.entries() == spec_items_after_all(
                old(player).inventory.items.entries(),
                v@,
            ),
            spec_opt_seq(final(player).quests.assigned) == spec_quests_after_all(
                spec_opt_seq(old(player).quests.assigned),
                spec_opt_seq(old(player).quests.completed),
                v@,
            ).0,
            spec_opt_seq(final(player).quests.completed) == spec_quests_after_all(
                spec_opt_seq(old(player).quests.assigned),
                spec_opt_seq(old(player).quests.completed),
                v@,
            ).1,
            spec_opt_seq(final(player).stats.marks) == spec_marks_after_all(
                spec_opt_seq(old(player).stats.marks),
                v@,
            ),
            spec_opt_seq(final(player).stats.log) == spec_log_after_all(
                spec_opt_seq(old(player).stats.log),
                v@,
            ),
            *final(player) == (Player {
                inventory: (Inventory {
                    currency: final(player).inventory.currency,
                    items: final(player).inventory.items,
                    ..old(player).inventory
                }),
                quests: (PlayerQuestData {
                    assigned: final(player).quests.assigned,
                    completed: final(player).quests.completed,
                }),
                stats: (PlayerStats {
                    marks: final(player).stats.marks,
                    log: final(player).stats.log,
                    ..old(player).stats
                }),
                ..*old(player)
            }),
    {
        let ghost orig = *old(player);
        proof {
            assert(v@.skip(0) =~= v@);
        }
        let mut i: usize = 0;
        while i < v.len()
            invariant
                i <= v@.len(),
                player.inventory.items.wf(),
                spec_rewards_ok(
                    player.inventory.currency.value as int,
                    player.inventory.items.entries(),
                    v@.skip(i as int),
                ),
                spec_currency_after_all(
                    player.inventory.currency.value as int,
                    v@.skip(i as int),
                ) == spec_currency_after_all(orig.inventory.currency.value as int, v@),
                spec_items_after_all(player.inventory.items.entries(), v@.skip(i as int))
                    == spec_items_after_all(orig.inventory.items.entries(), v@),
                spec_quests_after_all(
                    spec_opt_seq(player.quests.assigned),
                    spec_opt_seq(player.quests.completed),
                    v@.skip(i as int),
                ) == spec_quests_after_all(
                    spec_opt_seq(orig.quests.assigned),
                    spec_opt_seq(orig.quests.completed),
                    v@,
                ),
                spec_marks_after_all(spec_opt_seq(player.stats.marks), v@.skip(i as int))
                    == spec_marks_after_all(spec_opt_seq(orig.stats.marks), v@),
                spec_log_after_all(spec_opt_seq(player.stats.log), v@.skip(i as int))
                    == spec_log_after_all(spec_opt_seq(orig.stats.log), v@),
                *player == (Player {
                    inventory: (Inventory {
                        currency: player.inventory.currency,
                        items: player.inventory.items,
                        ..orig.inventory
                    }),
                    quests: (PlayerQuestData {
                        assigned: player.quests.assigned,
                        completed: player.quests.completed,
                    }),
                    stats: (PlayerStats {
                        marks: player.stats.marks,
                        log: player.stats.log,
                        ..orig.stats
                    }),
                    ..orig
                }),
            decreases v@.len() - i,
        {
            proof {
                assert(v@.skip(i as int)[0] == v@[i as int]);
                assert(v@.skip(i as int).drop_first() =~= v@.skip(i as int + 1));
            }
            v[i].apply(player);
            i = i + 1;
        }
        proof {
            assert(v@.skip(v@.len() as int).len() == 0);
        }
    }
}

} // verus!
