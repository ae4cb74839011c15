use vstd::prelude::*;

use crate::condition::Condition;
use crate::game::GameData;
use crate::entity::PlayerStatus;
use crate::reward::Reward;
use crate::strmap::StrMap;
use crate::strutil::join_strings;
use crate::strutil::seq_views;
use crate::strutil::spec_join;

verus! {

/// One line of interaction text: an action renders verbatim, a spoken line
/// renders quoted.
#[derive(Clone)]
pub enum InteractionLine {
    Action(String),
    Dialogue(String),
}

/// The rendered characters of one line.
pub open spec fn spec_line_text(l: InteractionLine) -> Seq<char> {
    match l {
        InteractionLine::Action(s) => s@,
        InteractionLine::Dialogue(s) => seq!['"'] + s@ + seq!['"'],
    }
}

/// The rendered characters of each line, in order.
pub open spec fn spec_line_texts(s: Seq<InteractionLine>) -> Seq<Seq<char>> {
    s.map_values(|l: InteractionLine| spec_line_text(l))
}

/// A block of lines rendered in order, separated by blank lines.
pub open spec fn spec_lines_all(s: Seq<InteractionLine>) -> Seq<char> {
    spec_join(spec_line_texts(s), "\n\n"@)
}

impl InteractionLine {
    /// Renders this line.
    pub fn render(&self) -> (r: String)
        ensures
            r@ == spec_line_text(*self),
    {
        match self {
            InteractionLine::Action(s) => s.clone(),
            InteractionLine::Dialogue(s) => {
                proof {
                    reveal_strlit("\"");
                }
                let mut r = String::from_str("\"");
                r.append(s.as_str());
                r.append("\"");
                proof {
                    assert(r@ =~= seq!['"'] + s@ + seq!['"']);
                }
                r
            },
        }
    }

    /// Renders a block of lines, joined by blank lines.
    pub fn all(v: &Vec<InteractionLine>) -> (r: String)
        ensures
            r@ == spec_lines_all(v@),
    {
        let mut rendered: Vec<String> = Vec::new();
        let mut i: usize = 0;
        while i < v.len()
            invariant
                i <= v@.len(),
                seq_views(rendered@) == spec_line_texts(v@.take(i as int)),
            decreases v@.len() - i,
        {
            let ghost before = rendered@;
            let line = v[i].render();
            rendered.push(line);
            proof {
                assert(seq_views(before).len() == before.len());
                assert(spec_line_texts(v@.take(i as int)).len() == i as int);
                assert(before.len() == i as int);
                assert forall|j: int| 0 <= j < rendered@.len() implies seq_views(rendered@)[j]
                    == spec_line_texts(v@.take(i as int + 1))[j] by {
                    if j < i {
                        assert(rendered@[j] == before[j]);
                        assert(seq_views(before)[j] == spec_line_texts(v@.take(i as int))[j]);
                        assert(v@.take(i as int)[j] == v@.take(i as int + 1)[j]);
                    } else {
                        assert(v@.take(i as int + 1)[j] == v@[i as int]);
                    }
                }
                assert(seq_views(rendered@) =~= spec_line_texts(v@.take(i as int + 1)));
            }
            i = i + 1;
        }
        proof {
            assert(v@.take(v@.len() as int) =~= v@);
        }
        join_strings(&rendered, "\n\n")
    }
}

/// A terminal node: text plus optional rewards, applied when reached.
#[derive(Clone)]
pub struct StaticInteraction {
    pub lines: Vec<InteractionLine>,
    pub rewards: Option<Vec<Reward>>,
}

/// A branching node: text plus conditionally filtered choices.
pub struct DynamicInteraction {
    pub lines: Vec<InteractionLine>,
    pub choices: Vec<DynamicChoice>,
}

/// A node that starts a combat encounter from an engagement map of entity
/// template id to instance count.
#[derive(Clone)]
pub struct CombatInteraction {
    pub lines: Vec<InteractionLine>,
    pub engage: StrMap<u64>,
}

/// One selectable branch of a dynamic node.
pub struct DynamicChoice {
    pub response: String,
    pub interaction: InteractionType,
    pub conditions: Option<Vec<Condition>>,
}

/// A node of the branching dialogue tree.
pub enum InteractionType {
    Static(StaticInteraction),
    Dynamic(DynamicInteraction),
    Combat(CombatInteraction),
}

impl Clone for InteractionType {
    /// The tree is recursive, so its clone is written out by hand.
    fn clone(&self) -> Self
        decreases *self,
    {
        match self {
            InteractionType::Static(i) => InteractionType::Static(i.clone()),
            InteractionType::Dynamic(i) => InteractionType::Dynamic(i.clone()),
            InteractionType::Combat(i) => InteractionType::Combat(i.clone()),
        }
    }
}

impl Clone for DynamicInteraction {
    fn clone(&self) -> Self
        decreases *self,
    {
        let mut choices: Vec<DynamicChoice> = Vec::new();
        let mut i: usize = 0;
        while i < self.choices.len()
            invariant
                i <= self.choices@.len(),
            decreases self.choices@.len() - i,
        {
            proof {
                vstd::std_specs::vec::axiom_vec_index_decreases(self.choices, i as int);
            }
            choices.push(self.choices[i].clone());
            i = i + 1;
        }
        DynamicInteraction { lines: self.lines.clone(), choices }
    }
}

impl Clone for DynamicChoice {
    fn clone(&self) -> Self
        decreases *self,
    {
        DynamicChoice {
            response: self.response.clone(),
            interaction: self.interaction.clone(),
            conditions: self.conditions.clone(),
        }
    }
}

/// Whether a choice is open to the player: no conditions, or all of them
/// hold.
pub open spec fn spec_choice_passes(c: DynamicChoice, g: GameData) -> bool {
    match c.conditions {
        Option::Some(cs) => crate::condition::spec_conds_hold(cs@, g),
        Option::None => true,
    }
}

/// What evaluating a choice list needs of the game (see the `Finished`
/// condition kind).
pub open spec fn spec_choices_ready(choices: Seq<DynamicChoice>, g: GameData) -> bool {
    forall|i: int|
        0 <= i < choices.len() ==> match (#[trigger] choices[i]).conditions {
            Option::Some(cs) => crate::condition::spec_conds_rank(cs@) == 1
                ==> crate::condition::spec_finished_ready(g),
            Option::None => true,
        }
}

/// `picks` lists exactly the open choices' indices, in order, densely
/// re-indexed: a selection into `picks` can only name an open choice.
pub open spec fn spec_is_choice_filter(
    picks: Seq<usize>,
    choices: Seq<DynamicChoice>,
    g: GameData,
) -> bool {
    &&& forall|a: int, b: int| 0 <= a < b < picks.len() ==> picks[a] < picks[b]
    &&& forall|a: int|
        0 <= a < picks.len() ==> (#[trigger] picks[a]) < choices.len() && spec_choice_passes(
            choices[picks[a] as int],
            g,
        )
    &&& forall|i: int|
        0 <= i < choices.len() && spec_choice_passes(#[trigger] choices[i], g) ==> exists|a: int|
            0 <= a < picks.len() && picks[a] == i
}

/// Filters a dynamic node's choices to the ones open to the player,
/// before anything is displayed: the returned indices are the only way a
/// selection can reach a choice.
pub fn filter_choices(choices: &Vec<DynamicChoice>, game: &GameData) -> (r: Vec<usize>)
    requires
        spec_choices_ready(choices@, *game),
    ensures
        spec_is_choice_filter(r@, choices@, *game),
        r@.len() <= choices@.len(),
{
    let mut picks: Vec<usize> = Vec::new();
    let mut i: usize = 0;
    while i < choices.len()
        invariant
            i <= choices@.len(),
            spec_choices_ready(choices@, *game),
            forall|a: int, b: int| 0 <= a < b < picks@.len() ==> picks@[a] < picks@[b],
            forall|a: int|
                0 <= a < picks@.len() ==> (#[trigger] picks@[a]) < i && spec_choice_passes(
                    choices@[picks@[a] as int],
                    *game,
                ),
            forall|j: int|
                0 <= j < i && spec_choice_passes(#[trigger] choices@[j], *game) ==> exists|a: int|
                    0 <= a < picks@.len() && picks@[a] == j,
            picks@.len() <= i,
        decreases choices@.len() - i,
    {
        let passes = match &choices[i].conditions {
            Option::Some(cs) => Condition::check_all(cs, game),
            Option::None => true,
        };
        let ghost picks_before = picks@;
        if passes {
            picks.push(i);
        }
        proof {
            assert forall|j: int|
                0 <= j < i + 1 && spec_choice_passes(#[trigger] choices@[j], *game) implies exists|a: int|
                0 <= a < picks@.len() && picks@[a] == j by {
                if j == i {
                    assert(picks@[picks@.len() - 1] == i as usize);
                } else {
                    let a = choose|a: int| 0 <= a < picks_before.len() && picks_before[a] == j;
                    assert(picks@[a] == j);
                }
            }
        }
        i = i + 1;
    }
    picks
}

/// The text a walked node produces, and — for a branching node — the open
/// choices (densely re-indexed) and their response texts.
pub enum NodeAction {
    Text(String),
    Menu(String, Vec<usize>, Vec<String>),
}

/// A freshly instantiated enemy list for an engagement map: for each
/// entry, `count` independent full-health instances of the template.
pub open spec fn spec_copies(inst: crate::entity::EntityInstance, n: nat) -> Seq<
    crate::entity::EntityInstance,
>
    decreases n,
{
    if n == 0 {
        Seq::empty()
    } else {
        seq![inst] + spec_copies(inst, (n - 1) as nat)
    }
}

/// The instance a template spawns: full health at the template's value.
pub open spec fn spec_instance_of(
    base: String,
    e: crate::entity::Entity,
) -> crate::entity::EntityInstance {
    crate::entity::EntityInstance {
        base,
        health: (crate::range::Range { max: e.health, value: e.health }),
    }
}

/// All instances an engagement map spawns, in map order.
pub open spec fn spec_engagement(
    engage: Seq<(String, u64)>,
    catalog: Seq<(String, crate::entity::Entity)>,
) -> Seq<crate::entity::EntityInstance>
    decreases engage.len(),
{
    if engage.len() == 0 {
        Seq::empty()
    } else {
        let copies = match crate::strmap::assoc_get(catalog, engage[0].0@) {
            Option::Some(e) => spec_copies(spec_instance_of(engage[0].0, e), engage[0].1 as nat),
            Option::None => Seq::empty(),
        };
        copies + spec_engagement(engage.drop_first(), catalog)
    }
}

/// Walks one node of the dialogue tree.
///
/// A terminal node applies its rewards and yields its text. A branching
/// node filters its choices first, then yields its text with the open
/// choices; the caller recurses into the choice a selection names, and a
/// cancelled selection ends the interaction with no effect. A combat node
/// instantiates its engagement, puts the player in combat with the turn
/// flag down, and yields its text.
pub fn resolve_node(node: &InteractionType, game: &mut GameData) -> (r: NodeAction)
    requires
        match *node {
            InteractionType::Static(i) => old(game).global.player.inventory.items.wf() && match i.rewards {
                Option::Some(rs) => crate::reward::spec_rewards_ok(
                    old(game).global.player.inventory.currency.value as int,
                    old(game).global.player.inventory.items.entries(),
                    rs@,
                ),
                Option::None => true,
            },
            InteractionType::Dynamic(i) => spec_choices_ready(i.choices@, *old(game)),
            InteractionType::Combat(i) => forall|j: int|
                0 <= j < i.engage.entries().len() ==> crate::strmap::assoc_contains(
                    old(game).entities.entries(),
                    (#[trigger] i.engage.entries()[j]).0@,
                ),
        },
    ensures
        match *node {
            InteractionType::Static(i) => match r {
                NodeAction::Text(t) => t@ == spec_lines_all(i.lines@) && ({
                    let rs: Seq<crate::reward::Reward> = match i.rewards {
                        Option::Some(v) => v@,
                        Option::None => Seq::empty(),
                    };
                    &&& final(game).global.player.inventory.items.wf()
                    &&& final(game).global.player.inventory.currency.value
                        == crate::reward::spec_currency_after_all(
                        old(game).global.player.inventory.currency.value as int,
                        rs,
                    )
                    &&& final(game).global.player.inventory.items.entries()
                        == crate::reward::spec_items_after_all(
                        old(game).global.player.inventory.items.entries(),
                        rs,
                    )
                    &&& crate::strutil::spec_opt_seq(final(game).global.player.quests.assigned)
                        == crate::reward::spec_quests_after_all(
                        crate::strutil::spec_opt_seq(old(game).global.player.quests.assigned),
                        crate::strutil::spec_opt_seq(old(game).global.player.quests.completed),
                        rs,
                    ).0
                    &&& crate::strutil::spec_opt_seq(final(game).global.player.quests.completed)
                        == crate::reward::spec_quests_after_all(
                        crate::strutil::spec_opt_seq(old(game).global.player.quests.assigned),
                        crate::strutil::spec_opt_seq(old(game).global.player.quests.completed),
                        rs,
                    ).1
                    &&& crate::strutil::spec_opt_seq(final(game).global.player.stats.marks)
                        == crate::reward::spec_marks_after_all(
                        crate::strutil::spec_opt_seq(old(game).global.player.stats.marks),
                        rs,
                    )
                    &&& crate::strutil::spec_opt_seq(final(game).global.player.stats.log)
                        == crate::reward::spec_log_after_all(
                        crate::strutil::spec_opt_seq(old(game).global.player.stats.log),
                        rs,
                    )
                    &&& *final(game) == (GameData {
                        global: (crate::game::GlobalData {
                            player: (crate::entity::Player {
                                inventory: (crate::inventory::Inventory {
                                    currency: final(game).global.player.inventory.currency,
                                    items: final(game).global.player.inventory.items,
                                    ..old(game).global.player.inventory
                                }),
                                quests: (crate::entity::PlayerQuestData {
                                    assigned: final(game).global.player.quests.assigned,
                                    completed: final(game).global.player.quests.completed,
                                }),
                                stats: (crate::entity::PlayerStats {
                                    marks: final(game).global.player.stats.marks,
                                    log: final(game).global.player.stats.log,
                                    ..old(game).global.player.stats
                                }),
                                ..old(game).global.player
                            }),
                            ..old(game).global
                        }),
                        ..*old(game)
                    })
                }),
                NodeAction::Menu(_, _, _) => false,
            },
            InteractionType::Dynamic(i) => match r {
                NodeAction::Menu(lines, picks, responses) => *final(game) == *old(game) && lines@
                    == spec_lines_all(i.lines@) && spec_is_choice_filter(
                    picks@,
                    i.choices@,
                    *old(game),
                ) && picks@.len() <= i.choices@.len() && responses@.len() == picks@.len() && (
                forall|a: int|
                    0 <= a < picks@.len() ==> (#[trigger] responses@[a])@ == i.choices@[picks@[a] as int].response@),
                NodeAction::Text(_) => false,
            },
            InteractionType::Combat(i) => match r {
                NodeAction::Text(t) => t@ == spec_lines_all(i.lines@)
                    && final(game).global.player.status == PlayerStatus::Combat(
                    (crate::entity::PlayerCombatData {
                        entities: final(game).global.player.status->Combat_0.entities,
                        turn: false,
                    }),
                ) && final(game).global.player.status->Combat_0.entities@ == spec_engagement(
                    i.engage.entries(),
                    old(game).entities.entries(),
                ) && *final(game) == (GameData {
                    global: (crate::game::GlobalData {
                        player: (crate::entity::Player {
                            status: final(game).global.player.status,
                            ..old(game).global.player
                        }),
                        ..old(game).global
                    }),
                    ..*old(game)
                }),
                NodeAction::Menu(_, _, _) => false,
            },
        },
{
    match node {
        InteractionType::Static(i) => {
            match &i.rewards {
                Option::Some(rs) => {
                    crate::reward::Reward::apply_all(rs, &mut game.global.player);
                },
                Option::None => {},
            }
            NodeAction::Text(InteractionLine::all(&i.lines))
        },
        InteractionType::Dynamic(i) => {
            let picks = filter_choices(&i.choices, game);
            let mut responses: Vec<String> = Vec::new();
            let mut a: usize = 0;
            while a < picks.len()
                invariant
                    a <= picks@.len(),
                    spec_is_choice_filter(picks@, i.choices@, *game),
                    responses@.len() == a,
                    forall|b: int|
                        0 <= b < a ==> (#[trigger] responses@[b])@ == i.choices@[picks@[b] as int].response@,
                decreases picks@.len() - a,
            {
                responses.push(i.choices[picks[a]].response.clone());
                a = a + 1;
            }
            NodeAction::Menu(InteractionLine::all(&i.lines), picks, responses)
        },
        InteractionType::Combat(i) => {
            let mut entities: Vec<crate::entity::EntityInstance> = Vec::new();
            let ghost engage = i.engage.entries();
            proof {
                assert(engage.skip(0) =~= engage);
                assert(Seq::<crate::entity::EntityInstance>::empty() + spec_engagement(
                    engage,
                    game.entities.entries(),
                ) =~= spec_engagement(engage, game.entities.entries()));
            }
            let count = i.engage.len();
            let mut j: usize = 0;
            while j < count
                invariant
                    j <= engage.len(),
                    count == engage.len(),
                    i.engage.entries() == engage,
                    forall|q: int|
                        0 <= q < engage.len() ==> crate::strmap::assoc_contains(
                            game.entities.entries(),
                            (#[trigger] engage[q]).0@,
                        ),
                    spec_engagement(engage, game.entities.entries()) == entities@
                        + spec_engagement(engage.skip(j as int), game.entities.entries()),
                    *game == *old(game),
                decreases engage.len() - j,
            {
                proof {
                    assert(engage.skip(j as int)[0] == engage[j as int]);
                    assert(engage.skip(j as int).drop_first() =~= engage.skip(j as int + 1));
                }
                let pair = i.engage.pair_at(j);
                let template = match game.entities.get(&pair.0) {
                    Option::Some(e) => e,
                    Option::None => vstd::pervasive::unreached(),
                };
                let n = pair.1;
                let ghost inst = spec_instance_of(engage[j as int].0, *template);
                let ghost entities_before = entities@;
                let mut c: u64 = 0;
                while c < n
                    invariant
                        c <= n,
                        j < engage.len(),
                        n == engage[j as int].1,
                        *pair == engage[j as int],
                        entities@ =~= entities_before + spec_copies(inst, c as nat),
                        inst == spec_instance_of(engage[j as int].0, *template),
                    decreases n - c,
                {
                    let fresh = crate::entity::EntityInstance::from(template, pair.0.clone());
                    proof {
                        assert(fresh == inst);
                    }
                    entities.push(fresh);
                    proof {
                        lemma_copies_push(inst, c as nat);
                        assert(entities@ =~= (entities_before + spec_copies(inst, c as nat)).push(
                            inst,
                        ));
                        assert((entities_before + spec_copies(inst, c as nat)).push(inst)
                            =~= entities_before + spec_copies(inst, c as nat).push(inst));
                    }
                    c = c + 1;
                }
                proof {
                    assert(entities@ + spec_engagement(engage.skip(j as int + 1), game.entities.entries())
                        =~= entities_before + (spec_copies(inst, engage[j as int].1 as nat)
                        + spec_engagement(engage.skip(j as int + 1), game.entities.entries())));
                }
                j = j + 1;
            }
            proof {
                assert(spec_engagement(engage.skip(engage.len() as int), game.entities.entries())
                    =~= Seq::<crate::entity::EntityInstance>::empty());
                assert(entities@ + Seq::<crate::entity::EntityInstance>::empty() =~= entities@);
            }

            let data = crate::entity::PlayerCombatData { entities, turn: false };
            game.global.player.status = PlayerStatus::Combat(data);

            NodeAction::Text(InteractionLine::all(&i.lines))
        },
    }
}

/// One more copy extends the copy list at its end.
proof fn lemma_copies_push(inst: crate::entity::EntityInstance, n: nat)
    ensures
        spec_copies(inst, n).push(inst) =~= spec_copies(inst, n + 1),
    decreases n,
{
    if n > 0 {
        lemma_copies_push(inst, (n - 1) as nat);
        assert(spec_copies(inst, n) =~= seq![inst] + spec_copies(inst, (n - 1) as nat));
        assert(spec_copies(inst, n + 1) =~= seq![inst] + spec_copies(inst, n));
    }
}

} // verus!
