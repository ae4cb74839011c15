use jage::args::Args;
use jage::named::Named;
use jage::attribute::{Class, Skill};
use jage::condition::Condition;
use jage::config::{Config, CurrencyData, Metadata, World};
use jage::entity::{
    Entity, EntityAttack, EntityInstance, Player, PlayerCombatData, PlayerQuestData, PlayerStats,
    PlayerStatus, PlayerVitality,
};
use jage::game::{Command, CombatOutcome, GameData, GlobalData, dispatch};
use jage::interaction::{
    CombatInteraction, DynamicChoice, DynamicInteraction, InteractionLine, InteractionType,
    NodeAction, StaticInteraction, filter_choices, resolve_node,
};
use jage::inventory::{
    Currency, Equipped, Inventory, Item, ItemType, StatusEffect, StatusEffectType,
};
use jage::location::{Coordinates, Location, LocationType, ReputationLevel};
use jage::quest::Quest;
use jage::range::Range;
use jage::reward::Reward;
use jage::strmap::StrMap;
use jage::time::GameTime;

fn s(x: &str) -> String {
    String::from(x)
}

fn empty_inventory() -> Inventory {
    Inventory {
        items: StrMap::new(),
        currency: Currency { value: 0 },
        equipped: Equipped { weapon: None, armor: None },
    }
}

fn base_player() -> Player {
    Player {
        name: s("Hero"),
        class: s("knight"),
        skills: Vec::new(),
        vitality: PlayerVitality { health: Range::new(20), effects: StrMap::new() },
        status: PlayerStatus::Location,
        location: s("village"),
        inventory: empty_inventory(),
        quests: PlayerQuestData { assigned: None, completed: None },
        stats: PlayerStats {
            reputation: StrMap::new(),
            defeated: StrMap::new(),
            marks: None,
            log: None,
        },
    }
}

fn base_config() -> Config {
    Config {
        metadata: Metadata {
            title: s("Adventure"),
            description: s("A small world"),
            authors: vec![s("someone")],
        },
        prompt: s("> "),
        exposition: s("It begins."),
        world: World {
            name: s("Terra"),
            description: s("A continent"),
            currency: CurrencyData {
                singular: s("gild"),
                plural: s("gilds"),
                symbol: s("g"),
                dist_cost: 10,
            },
        },
    }
}

fn base_game() -> GameData {
    GameData {
        config: base_config(),
        classes: StrMap::new(),
        effects: StrMap::new(),
        entities: StrMap::new(),
        houses: StrMap::new(),
        items: StrMap::new(),
        locations: StrMap::new(),
        skills: StrMap::new(),
        quests: StrMap::new(),
        global: GlobalData { player: base_player(), time: GameTime { day: 1, min: 480 } },
    }
}

#[test]
fn range_grows_past_max_and_saturates_at_zero() {
    let mut r = Range::new(10);
    assert_eq!(r.max, 10);
    assert_eq!(r.value, 10);
    r.set(15);
    assert_eq!(r.value, 25);
    assert_eq!(r.max, 10);
    r.set(-100);
    assert_eq!(r.value, 0);
    r.set(3);
    r.set(-2);
    assert_eq!(r.value, 1);
}

#[test]
fn check_all_empty_is_true() {
    let game = base_game();
    let none: Vec<Condition> = Vec::new();
    assert!(Condition::check_all(&none, &game));
}

#[test]
fn items_condition_edges() {
    let game = base_game();

    let empty = Condition::Items(StrMap::new());
    assert!(empty.check(&game));

    let mut zero_req = StrMap::new();
    zero_req.set(&s("x"), 0u64);
    assert!(Condition::Items(zero_req).check(&game));

    let mut three_req = StrMap::new();
    three_req.set(&s("x"), 3u64);
    let cond = Condition::Items(three_req);
    assert!(!cond.check(&game));

    let mut game2 = base_game();
    game2.global.player.inventory.add(&s("x"), 2);
    assert!(!cond.check(&game2));
    game2.global.player.inventory.add(&s("x"), 1);
    assert!(cond.check(&game2));
}

#[test]
fn currency_and_health_conditions() {
    let mut game = base_game();
    game.global.player.inventory.currency.value = 7;
    assert!(Condition::Currency(7).check(&game));
    assert!(!Condition::Currency(8).check(&game));
    assert!(Condition::Health(20).check(&game));
    assert!(!Condition::Health(21).check(&game));
}

#[test]
fn membership_conditions_with_absent_lists() {
    let game = base_game();
    let mut want_absent = StrMap::new();
    want_absent.set(&s("q1"), false);
    assert!(Condition::Completed(want_absent).check(&game));

    let mut want_present = StrMap::new();
    want_present.set(&s("q1"), true);
    assert!(!Condition::Assigned(want_present).check(&game));
}

#[test]
fn complete_moves_between_lists() {
    let mut q = PlayerQuestData { assigned: Some(vec![s("q1")]), completed: None };
    q.complete(&s("q1"));
    assert!(q.assigned.is_none());
    assert_eq!(q.completed, Some(vec![s("q1")]));

    // A second completion is a no-op on the absent assigned list and keeps
    // completed membership.
    q.complete(&s("q1"));
    assert!(q.assigned.is_none());
    assert_eq!(q.completed, Some(vec![s("q1"), s("q1")]));
}

#[test]
fn complete_keeps_other_assignments() {
    let mut q = PlayerQuestData { assigned: Some(vec![s("q1"), s("q2")]), completed: None };
    q.complete(&s("q1"));
    assert_eq!(q.assigned, Some(vec![s("q2")]));
    assert_eq!(q.completed, Some(vec![s("q1")]));
}

#[test]
fn reward_currency_clamps_at_zero() {
    let mut player = base_player();
    player.inventory.currency.value = 5;
    Reward::Currency(-9).apply(&mut player);
    assert_eq!(player.inventory.currency.value, 0);
    Reward::Currency(12).apply(&mut player);
    assert_eq!(player.inventory.currency.value, 12);
}

#[test]
fn reward_items_insert_and_delete_stack() {
    let mut player = base_player();
    let mut gain = StrMap::new();
    gain.set(&s("sword"), 2i64);
    Reward::Items(gain).apply(&mut player);
    assert_eq!(player.inventory.get(&s("sword")), Some(&2));

    let mut lose = StrMap::new();
    lose.set(&s("sword"), -5i64);
    Reward::Items(lose).apply(&mut player);
    assert_eq!(player.inventory.get(&s("sword")), None);
}

#[test]
fn reward_quests_skips_duplicates_and_logs_do_not() {
    let mut player = base_player();
    Reward::Quests(vec![s("q1")]).apply(&mut player);
    Reward::Quests(vec![s("q1"), s("q2")]).apply(&mut player);
    assert_eq!(player.quests.assigned, Some(vec![s("q1"), s("q2")]));

    Reward::Logs(vec![s("met the elder")]).apply(&mut player);
    Reward::Logs(vec![s("met the elder")]).apply(&mut player);
    assert_eq!(player.stats.log, Some(vec![s("met the elder"), s("met the elder")]));
}

#[test]
fn currency_spend_fails_with_message_and_changes_nothing() {
    let mut c = Currency { value: 3 };
    let plural = s("gilds");
    let r = c.add(-5, Some(&plural));
    assert_eq!(r, Err(s("You don't have enough gilds")));
    assert_eq!(c.value, 3);

    let r2 = c.add(-5, None);
    assert!(r2.is_ok());
    assert_eq!(c.value, 0);
}

#[test]
fn filter_choices_keeps_only_open_ones() {
    let game = base_game();
    let empty_lines: Vec<InteractionLine> = Vec::new();
    let leaf = |text: &str| {
        InteractionType::Static(StaticInteraction {
            lines: vec![InteractionLine::Action(s(text))],
            rewards: None,
        })
    };
    let mut blocked = StrMap::new();
    blocked.set(&s("gold"), 100u64);
    let choices = vec![
        DynamicChoice { response: s("hello"), interaction: leaf("a"), conditions: None },
        DynamicChoice {
            response: s("bribe"),
            interaction: leaf("b"),
            conditions: Some(vec![Condition::Items(blocked)]),
        },
        DynamicChoice {
            response: s("bye"),
            interaction: leaf("c"),
            conditions: Some(Vec::new()),
        },
    ];
    let node = DynamicInteraction { lines: empty_lines, choices };
    let picks = filter_choices(&node.choices, &game);
    assert_eq!(picks, vec![0, 2]);
    assert!(picks.len() <= node.choices.len());
    // Every resolved selection index lands inside the filtered list.
    for &p in picks.iter() {
        assert!(p < node.choices.len());
    }
}

#[test]
fn combat_node_spawns_full_health_instances() {
    let mut game = base_game();
    game.entities.set(
        &s("wolf"),
        Entity {
            health: 8,
            name: s("Wolf"),
            inventory: empty_inventory(),
            attacks: Vec::new(),
        },
    );
    let mut engage = StrMap::new();
    engage.set(&s("wolf"), 2u64);
    let node = InteractionType::Combat(CombatInteraction {
        lines: vec![InteractionLine::Action(s("Wolves attack!"))],
        engage,
    });

    let action = resolve_node(&node, &mut game);
    match action {
        NodeAction::Text(t) => assert_eq!(t, s("Wolves attack!")),
        _ => panic!("expected text"),
    }
    match &game.global.player.status {
        PlayerStatus::Combat(c) => {
            assert_eq!(c.entities.len(), 2);
            assert!(!c.turn);
            for e in c.entities.iter() {
                assert_eq!(e.base, s("wolf"));
                assert_eq!(e.health.max, 8);
                assert_eq!(e.health.value, 8);
            }
        }
        _ => panic!("expected combat"),
    }
}

#[test]
fn static_node_applies_rewards_and_renders_quoted_lines() {
    let mut game = base_game();
    let node = InteractionType::Static(StaticInteraction {
        lines: vec![
            InteractionLine::Action(s("The elder nods.")),
            InteractionLine::Dialogue(s("Take this.")),
        ],
        rewards: Some(vec![Reward::Currency(4)]),
    });
    let action = resolve_node(&node, &mut game);
    match action {
        NodeAction::Text(t) => assert_eq!(t, s("The elder nods.\n\n\"Take this.\"")),
        _ => panic!("expected text"),
    }
    assert_eq!(game.global.player.inventory.currency.value, 4);
}

#[test]
fn effect_with_duration_one_is_pruned_without_applying() {
    let mut game = base_game();
    game.effects.set(
        &s("poison"),
        StatusEffect {
            name: s("Poison"),
            description: s("It stings."),
            cycle: vec![StatusEffectType::Health(-3)],
        },
    );
    game.global.player.status =
        PlayerStatus::Combat(PlayerCombatData { entities: Vec::new(), turn: false });
    game.global.player.vitality.effects.set(&s("poison"), 1u64);

    game.cycle_combat();

    assert_eq!(game.global.player.vitality.health.value, 20);
    assert!(game.global.player.vitality.effects.get(&s("poison")).is_none());
    match &game.global.player.status {
        PlayerStatus::Combat(c) => assert!(c.turn),
        _ => panic!("expected combat"),
    }
}

#[test]
fn effect_with_longer_duration_applies_after_decay() {
    let mut game = base_game();
    game.effects.set(
        &s("poison"),
        StatusEffect {
            name: s("Poison"),
            description: s("It stings."),
            cycle: vec![StatusEffectType::Health(-3)],
        },
    );
    game.global.player.status =
        PlayerStatus::Combat(PlayerCombatData { entities: Vec::new(), turn: false });
    game.global.player.vitality.effects.set(&s("poison"), 2u64);

    game.cycle_combat();

    assert_eq!(game.global.player.vitality.health.value, 17);
    assert_eq!(game.global.player.vitality.effects.get(&s("poison")), Some(&1));
}

#[test]
fn combat_ends_in_victory_when_enemies_fall() {
    let mut game = base_game();
    let downed = EntityInstance { base: s("wolf"), health: Range { max: 8, value: 0 } };
    game.global.player.status =
        PlayerStatus::Combat(PlayerCombatData { entities: vec![downed], turn: false });
    let outcome = game.combat_round();
    assert_eq!(outcome, CombatOutcome::Victory);
    assert!(matches!(game.global.player.status, PlayerStatus::Location));
}

#[test]
fn combat_ends_in_defeat_when_player_falls() {
    let mut game = base_game();
    let standing = EntityInstance { base: s("wolf"), health: Range { max: 8, value: 8 } };
    game.global.player.vitality.health.value = 0;
    game.global.player.status =
        PlayerStatus::Combat(PlayerCombatData { entities: vec![standing], turn: true });
    let outcome = game.combat_round();
    assert_eq!(outcome, CombatOutcome::Defeat);
    assert!(matches!(game.global.player.status, PlayerStatus::Location));
}

fn grid_location(name: &str, x: u64, y: u64) -> Location {
    Location {
        position: Coordinates { x, y },
        name: s(name),
        description: s("somewhere"),
        entry: None,
        l_type: LocationType::Monument,
        quests: None,
    }
}

#[test]
fn travel_prompt_distance_formula() {
    let game = base_game();
    let from = grid_location("Village", 0, 0);
    let to = grid_location("City", 3, 4);

    let (prompt, cost, time) = from.travel_prompt(&to, &game);

    // distance = sqrt(|4 + 3|) = sqrt(7); cost = floor(10 * sqrt(7)) = 26;
    // time = floor(20 * sqrt(7)) = 52.
    assert_eq!(cost, 26);
    assert_eq!(time, 52);
    assert_eq!(
        prompt,
        s("You are traveling from Village to City.\n\nYou can ride the carriage, costing 26g, \
           or...\nYou can walk, taking 52 minutes.")
    );
}

#[test]
fn reputation_entry_reports_first_visit_once() {
    let mut rep: StrMap<u64> = StrMap::new();
    let loc = grid_location("Village", 0, 0);

    let first = loc.reputation(&s("village"), &rep);
    assert_eq!(first, (50, true));

    rep.set(&s("village"), first.0);
    let second = loc.reputation(&s("village"), &rep);
    assert_eq!(second, (50, false));

    let mut fancy = grid_location("Palace", 1, 1);
    fancy.entry = Some(70);
    let entry = fancy.reputation(&s("palace"), &rep);
    assert_eq!(entry, (70, true));
}

#[test]
fn reputation_tiers() {
    assert_eq!(ReputationLevel::name(ReputationLevel::value(0)), "hostile");
    assert_eq!(ReputationLevel::name(ReputationLevel::value(9)), "hostile");
    assert_eq!(ReputationLevel::name(ReputationLevel::value(10)), "suspicious");
    assert_eq!(ReputationLevel::name(ReputationLevel::value(24)), "suspicious");
    assert_eq!(ReputationLevel::name(ReputationLevel::value(25)), "indifferent");
    assert_eq!(ReputationLevel::name(ReputationLevel::value(59)), "indifferent");
    assert_eq!(ReputationLevel::name(ReputationLevel::value(60)), "esteemed");
    assert_eq!(ReputationLevel::name(ReputationLevel::value(84)), "esteemed");
    assert_eq!(ReputationLevel::name(ReputationLevel::value(85)), "benevolent");
    assert_eq!(ReputationLevel::name(ReputationLevel::value(100)), "benevolent");
    assert_eq!(ReputationLevel::name(ReputationLevel::value(101)), "indifferent");
}

#[test]
fn location_entry_text() {
    let rep: StrMap<u64> = StrMap::new();
    let loc = grid_location("Village", 0, 0);
    let (text, value, first) = loc.entry(&s("village"), &rep);
    assert_eq!(value, 50);
    assert!(first);
    assert_eq!(
        text,
        s("You're entering Village for the first time. Your reputation here is 50 (indifferent).")
    );
}

#[test]
fn travel_commit_walking_spends_time_and_moves() {
    let mut game = base_game();
    let to = grid_location("City", 3, 4);
    let (msg, entry) = game.travel_commit(&s("city"), &to, false, 26, 52).unwrap();
    assert_eq!(msg, s("You decided to walk."));
    assert_eq!(game.global.time.min, 480 + 52);
    assert_eq!(game.global.player.location, s("city"));
    assert_eq!(game.global.player.stats.reputation.get(&s("city")), Some(&50));
    assert!(entry.starts_with("You're entering City for the first time."));
}

#[test]
fn travel_commit_riding_without_funds_changes_nothing() {
    let mut game = base_game();
    game.global.player.inventory.currency.value = 5;
    let to = grid_location("City", 3, 4);
    let r = game.travel_commit(&s("city"), &to, true, 26, 52);
    assert_eq!(r, Err(s("You don't have enough gilds")));
    assert_eq!(game.global.player.inventory.currency.value, 5);
    assert_eq!(game.global.player.location, s("village"));
    assert!(game.global.player.stats.reputation.get(&s("city")).is_none());
    assert_eq!(game.global.time.min, 480);
}

#[test]
fn travel_commit_riding_pays_the_fare() {
    let mut game = base_game();
    game.global.player.inventory.currency.value = 30;
    let to = grid_location("City", 3, 4);
    let (msg, _) = game.travel_commit(&s("city"), &to, true, 26, 52).unwrap();
    assert_eq!(msg, s("You paid the fee. You now have 4g."));
    assert_eq!(game.global.player.inventory.currency.value, 4);
    assert_eq!(game.global.time.min, 480);
}

#[test]
fn game_time_advance_and_rendering() {
    let mut t = GameTime { day: 1, min: 1400 };
    t.advance(100);
    assert_eq!(t.day, 2);
    assert_eq!(t.min, 60);

    let noonish = GameTime { day: 3, min: 785 };
    assert_eq!(noonish.display_time(), s("1:05 PM"));
    let midnight = GameTime { day: 3, min: 0 };
    assert_eq!(midnight.display_time(), s("12:00 AM"));
    assert_eq!(
        midnight.display(),
        s("The time is 12:00 AM. It is day 3 of your journey.")
    );

    assert_eq!(GameTime::duration(59), s("59 minutes"));
    assert_eq!(GameTime::duration(125), s("2 hours and 5 minutes"));
    assert_eq!(GameTime::duration(1500), s("1 days, 25 hours, and 0 minutes"));
}

#[test]
fn args_parse_lowercases_and_joins() {
    let args = Args::parse("Travel North  Gate");
    assert_eq!(args.command, s("travel"));
    assert_eq!(args.list, vec![s("North"), s("Gate")]);
    assert_eq!(args.input, s("North Gate"));

    assert!(args.check(2));
    assert!(!args.check(3));
    assert_eq!(args.input_from(1), s("Gate"));

    let bare = Args::parse("look");
    assert_eq!(bare.command, s("look"));
    assert!(bare.list.is_empty());
    assert_eq!(bare.input, s(""));
    assert_eq!(
        bare.check_err(1),
        Err(s("You didn't supply enough arguments for that."))
    );
}

#[test]
fn dispatch_follows_player_mode() {
    let house = PlayerStatus::House(s("inn"));
    assert_eq!(dispatch(&house, &s("talk"), false), Command::Talk);
    assert_eq!(dispatch(&house, &s("leave"), false), Command::Leave);
    assert_eq!(dispatch(&house, &s("travel"), false), Command::Invalid);

    let at = PlayerStatus::Location;
    assert_eq!(dispatch(&at, &s("travel"), false), Command::Travel);
    assert_eq!(dispatch(&at, &s("visit"), true), Command::Visit);
    assert_eq!(dispatch(&at, &s("visit"), false), Command::Invalid);
    assert_eq!(dispatch(&at, &s("quests"), false), Command::QuestBook);

    let combat = PlayerStatus::Combat(PlayerCombatData { entities: Vec::new(), turn: false });
    assert_eq!(dispatch(&combat, &s("talk"), false), Command::Invalid);
    assert_eq!(dispatch(&combat, &s("inv"), false), Command::Inventory);

    assert_eq!(dispatch(&PlayerStatus::Idle, &s("dbg"), false), Command::Debug);
    assert_eq!(dispatch(&PlayerStatus::Idle, &s("log"), false), Command::Log);
    assert_eq!(dispatch(&PlayerStatus::Idle, &s("recent"), false), Command::Recent);
    assert_eq!(dispatch(&PlayerStatus::Idle, &s("quest"), false), Command::QuestInfo);
}

#[test]
fn match_best_is_case_insensitive_on_names() {
    let mut game = base_game();
    game.items.set(
        &s("sword"),
        Item { name: s("Iron Sword"), description: s("sharp"), i_type: ItemType::Material },
    );
    let hit = game.match_best(&s("IRON SWORD"), &game.items);
    assert!(hit.is_some());
    assert_eq!(hit.unwrap().0, s("sword"));

    let by_id = game.match_best(&s("SWORD"), &game.items);
    assert!(by_id.is_some());

    let miss = game.match_best(&s("axe"), &game.items);
    assert!(miss.is_none());
}

#[test]
fn finished_quests_lists_ready_assigned_quests() {
    let mut game = base_game();
    game.quests.set(
        &s("rich"),
        Quest {
            name: s("Get Rich"),
            description: s("Hold 10 gilds."),
            requirements: vec![Condition::Currency(10)],
        },
    );
    game.quests.set(
        &s("easy"),
        Quest { name: s("Just Exist"), description: s("No demands."), requirements: Vec::new() },
    );
    game.global.player.quests.assigned = Some(vec![s("rich"), s("easy")]);

    assert_eq!(game.finished_quests(), Some(vec![s("easy")]));

    game.global.player.inventory.currency.value = 10;
    assert_eq!(game.finished_quests(), Some(vec![s("rich"), s("easy")]));

    let mut want = StrMap::new();
    want.set(&s("easy"), true);
    assert!(Condition::Finished(want).check(&game));
}

#[test]
fn choose_attack_never_picks_zero_weight() {
    let entity = Entity {
        health: 5,
        name: s("Bandit"),
        inventory: empty_inventory(),
        attacks: vec![
            EntityAttack { name: s("feint"), strength: 0, weight: 0, effects: None },
            EntityAttack { name: s("slash"), strength: 3, weight: 5, effects: None },
        ],
    };
    for _ in 0..20 {
        let attack = entity.choose_attack();
        assert_eq!(attack.name, s("slash"));
    }
}

#[test]
fn attack_applies_damage_and_effects() {
    let mut player = base_player();
    let mut inflicted = StrMap::new();
    inflicted.set(&s("bleed"), 2u64);
    let attack = EntityAttack {
        name: s("slash"),
        strength: 25,
        weight: 1,
        effects: Some(inflicted),
    };
    attack.apply(&mut player);
    assert_eq!(player.vitality.health.value, 0);
    assert_eq!(player.vitality.effects.get(&s("bleed")), Some(&2));
    attack.apply(&mut player);
    assert_eq!(player.vitality.effects.get(&s("bleed")), Some(&4));
}

#[test]
fn stats_log_rendering() {
    let mut stats = PlayerStats {
        reputation: StrMap::new(),
        defeated: StrMap::new(),
        marks: None,
        log: None,
    };
    assert_eq!(stats.log(false), s("Nothing here..."));
    stats.log = Some(vec![s("first"), s("second")]);
    assert_eq!(stats.log(true), s("second"));
    assert_eq!(stats.log(false), s("first\n\nsecond"));
}

#[test]
fn inventory_display_line_lists_stacks() {
    let mut game = base_game();
    game.items.set(
        &s("sword"),
        Item { name: s("Iron Sword"), description: s("sharp"), i_type: ItemType::Material },
    );
    game.items.set(
        &s("herb"),
        Item { name: s("Herb"), description: s("green"), i_type: ItemType::Material },
    );
    let mut inv = empty_inventory();
    assert_eq!(inv.display_line(&game), s("Nothing"));
    inv.add(&s("sword"), 1);
    inv.add(&s("herb"), 3);
    assert_eq!(inv.display_line(&game), s("1 Iron Sword, 3 Herb"));
    assert_eq!(inv.display_list(&game), s("- 1 Iron Sword\n- 3 Herb"));
}

#[test]
fn condition_display_resolves_names() {
    let mut game = base_game();
    game.items.set(
        &s("herb"),
        Item { name: s("Herb"), description: s("green"), i_type: ItemType::Material },
    );
    game.quests.set(
        &s("rich"),
        Quest { name: s("Get Rich"), description: s("money"), requirements: Vec::new() },
    );

    let mut need = StrMap::new();
    need.set(&s("herb"), 2u64);
    assert_eq!(Condition::Items(need).display(&game), s("Have 2 Herb"));

    assert_eq!(Condition::Currency(9).display(&game), s("Have at least 9g"));
    assert_eq!(Condition::Health(4).display(&game), s("Have at least 4 health"));

    let mut done = StrMap::new();
    done.set(&s("rich"), false);
    assert_eq!(Condition::Completed(done).display(&game), s("Complete NOT Get Rich"));
}

#[test]
fn quest_book_renders_both_sections() {
    let mut game = base_game();
    game.quests.set(
        &s("easy"),
        Quest { name: s("Just Exist"), description: s("No demands."), requirements: Vec::new() },
    );
    game.quests.set(
        &s("old"),
        Quest { name: s("Old Deed"), description: s("done"), requirements: Vec::new() },
    );
    game.global.player.quests.assigned = Some(vec![s("easy")]);
    game.global.player.quests.completed = Some(vec![s("old")]);

    let book = game.quest_book();
    assert_eq!(
        book,
        s("Assigned:\n\n- Just Exist \u{2714}\n\nCompleted:\n\n- Old Deed")
    );
}

#[test]
fn visit_and_leave_house() {
    let mut game = base_game();
    game.houses.set(
        &s("inn"),
        jage::location::House {
            name: s("Sleepy Inn"),
            entry: vec![InteractionLine::Dialogue(s("Welcome!"))],
            residents: Vec::new(),
        },
    );
    let text = game.visit_commit(&s("inn"), &s("Sleepy Inn"));
    assert_eq!(text, s("You entered the Sleepy Inn.\n\n\"Welcome!\""));
    assert!(matches!(game.global.player.status, PlayerStatus::House(_)));

    game.leave_house();
    assert!(matches!(game.global.player.status, PlayerStatus::Location));
}

#[test]
fn house_talk_citizen_and_character() {
    let greeting = InteractionType::Static(StaticInteraction {
        lines: vec![InteractionLine::Dialogue(s("Hello, traveler."))],
        rewards: None,
    });
    let house = jage::location::House {
        name: s("Sleepy Inn"),
        entry: Vec::new(),
        residents: vec![
            jage::location::HouseResident::Citizen(jage::location::Citizen {
                name: s("Mara"),
                dialogue: vec![s("Nice weather.")],
            }),
            jage::location::HouseResident::Citizen(jage::location::Citizen {
                name: s("Tom"),
                dialogue: Vec::new(),
            }),
            jage::location::HouseResident::Character(jage::entity::Character {
                name: s("Elder"),
                description: s("wise"),
                interaction: greeting,
            }),
        ],
    };
    assert_eq!(house.list(), vec![s("Mara"), s("Tom"), s("Elder")]);

    match house.talk(0) {
        jage::location::TalkAction::Line(Some(line)) => assert_eq!(line, s("Nice weather.")),
        _ => panic!("expected the one remark"),
    }
    match house.talk(1) {
        jage::location::TalkAction::Line(None) => {}
        _ => panic!("expected silence"),
    }
    match house.talk(2) {
        jage::location::TalkAction::Converse(node) => match node {
            InteractionType::Static(i) => assert_eq!(i.lines.len(), 1),
            _ => panic!("expected the greeting node"),
        },
        _ => panic!("expected a conversation"),
    }
}

#[test]
fn skills_and_classes_expose_names() {
    let sk = Skill { name: s("Smithing"), description: s("hammer work") };
    assert_eq!(sk.name(), s("Smithing"));
    let cl = Class { name: s("Knight"), description: s("armored"), proficiency: Vec::new() };
    assert_eq!(cl.name(), s("Knight"));
}

#[test]
fn quest_display_lists_requirements() {
    let mut game = base_game();
    let quest = Quest {
        name: s("Get Rich"),
        description: s("Hold some money."),
        requirements: vec![Condition::Currency(10), Condition::Health(5)],
    };
    game.quests.set(&s("rich"), quest);
    let q = Quest {
        name: s("Get Rich"),
        description: s("Hold some money."),
        requirements: vec![Condition::Currency(10), Condition::Health(5)],
    };
    assert_eq!(
        q.display(&game),
        s("Get Rich\n\nHold some money.\n\nRequirements:\n- Have at least 10g\n- Have at least 5 health")
    );
}

#[test]
fn inventory_drop_merges_into_other() {
    let mut mine = empty_inventory();
    mine.currency.value = 7;
    mine.add(&s("herb"), 2);

    let mut yours = empty_inventory();
    yours.currency.value = 10;
    yours.add(&s("herb"), 1);
    yours.add(&s("rope"), 4);

    mine.drop(&mut yours);
    assert_eq!(yours.currency.value, 17);
    assert_eq!(yours.get(&s("herb")), Some(&3));
    assert_eq!(yours.get(&s("rope")), Some(&4));
}

#[test]
fn strmap_replaces_and_removes_bindings() {
    let mut m: StrMap<u64> = StrMap::new();
    assert!(m.is_empty());
    m.set(&s("a"), 1);
    m.set(&s("b"), 2);
    m.set(&s("a"), 9);
    assert_eq!(m.len(), 2);
    assert_eq!(m.get(&s("a")), Some(&9));
    assert_eq!(m.get(&s("b")), Some(&2));
    m.remove_key(&s("a"));
    assert_eq!(m.get(&s("a")), None);
    assert_eq!(m.get(&s("b")), Some(&2));
    assert!(!m.contains(&s("a")));
    assert!(m.contains(&s("b")));
}

#[test]
fn travel_prompt_zero_distance() {
    let game = base_game();
    let from = grid_location("Here", 2, 2);
    let to = grid_location("There", 2, 2);
    let (_, cost, time) = from.travel_prompt(&to, &game);
    assert_eq!(cost, 0);
    assert_eq!(time, 0);
}

#[test]
fn travel_prompt_negative_offsets_take_magnitude() {
    let game = base_game();
    let from = grid_location("High", 10, 10);
    let to = grid_location("Low", 1, 2);
    // radicand = |(2 - 10) + (1 - 10)| = 17; time = floor(20 * sqrt(17)) = 82.
    let (_, _, time) = from.travel_prompt(&to, &game);
    assert_eq!(time, 82);
}

#[test]
fn status_effect_cycle_saturates_health_at_zero() {
    let mut player = base_player();
    player.vitality.health.value = 2;
    let effect = StatusEffect {
        name: s("Venom"),
        description: s("burns"),
        cycle: vec![StatusEffectType::Health(-5), StatusEffectType::Health(1)],
    };
    effect.cycle(&mut player);
    assert_eq!(player.vitality.health.value, 1);
}

#[test]
fn marks_reward_initialises_then_deduplicates() {
    let mut player = base_player();
    Reward::Marks(vec![s("hero"), s("hero")]).apply(&mut player);
    assert_eq!(player.stats.marks, Some(vec![s("hero")]));
    Reward::Marks(vec![s("hero"), s("savior")]).apply(&mut player);
    assert_eq!(player.stats.marks, Some(vec![s("hero"), s("savior")]));
}

#[test]
fn complete_reward_moves_assigned_quests() {
    let mut player = base_player();
    player.quests.assigned = Some(vec![s("q1"), s("q2")]);
    Reward::Complete(vec![s("q1"), s("q2")]).apply(&mut player);
    assert!(player.quests.assigned.is_none());
    assert_eq!(player.quests.completed, Some(vec![s("q1"), s("q2")]));
}

#[test]
fn args_parse_skips_extra_spaces_in_list() {
    let args = Args::parse("quest   the   lost  ring");
    assert_eq!(args.command, s("quest"));
    assert_eq!(args.list, vec![s("the"), s("lost"), s("ring")]);
    assert_eq!(args.input, s("the lost ring"));
    assert_eq!(args.input_from(0), s("the lost ring"));
}
