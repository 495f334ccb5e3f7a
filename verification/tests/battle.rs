use worldlib::battle::closer::BattleCloser;
use worldlib::battle::closer::BattleManagerState;
use worldlib::battle::closer::BattleTransition;
use worldlib::battle::closer::WildBattleCloser;
use worldlib::battle::growth::times;
use worldlib::battle::growth::Drawn;
use worldlib::battle::growth::TypeChart;
use worldlib::battle::gui::BattleGuiPosition;
use worldlib::battle::gui::BattleGuiPositionIndex;
use worldlib::battle::option::PokemonOption;
use worldlib::battle::pokemon::default_friendship;
use worldlib::battle::pokemon::default_iv;
use worldlib::battle::pokemon::BaseStatSet;
use worldlib::battle::pokemon::Gender;
use worldlib::battle::pokemon::LearnableMove;
use worldlib::battle::pokemon::MoveInstance;
use worldlib::battle::pokemon::Pokemon;
use worldlib::battle::pokemon::PokemonData;
use worldlib::battle::pokemon::PokemonInstance;
use worldlib::battle::pokemon::StatSet;
use worldlib::battle::text::BattleText;
use worldlib::battle::text::Timer;

fn species() -> Pokemon {
    Pokemon {
        id: 4,
        name: String::from("Charmander-x"),
        primary_type: 1,
        secondary_type: None,
        base_exp: 62,
        growth: vec![0, 10, 20, 30, 40, 50, 60, 70, 80],
        moves: vec![
            LearnableMove { level: 1, move_id: 10, pp: 35 },
            LearnableMove { level: 7, move_id: 52, pp: 25 },
            LearnableMove { level: 1, move_id: 45, pp: 40 },
            LearnableMove { level: 7, move_id: 99, pp: 5 },
            LearnableMove { level: 6, move_id: 61, pp: 15 },
            LearnableMove { level: 8, move_id: 80, pp: 10 },
        ],
    }
}

fn monster(level: u8, hp: u16) -> PokemonInstance {
    PokemonInstance {
        pokemon: species(),
        data: PokemonData {
            nickname: None,
            level,
            gender: Gender::Male,
            status: None,
            ivs: default_iv(),
            evs: StatSet::default(),
            experience: 0,
            friendship: default_friendship(),
        },
        item: None,
        moves: vec![MoveInstance { move_id: 10, pp: 35 }],
        base: BaseStatSet { hp: 20, atk: 11, def: 10, sp_atk: 12, sp_def: 11, speed: 13 },
        current_hp: hp,
    }
}

#[test]
fn defaults_of_a_monster() {
    assert_eq!(default_iv(), StatSet { hp: 15, atk: 15, def: 15, sp_atk: 15, sp_def: 15, speed: 15 });
    assert_eq!(default_friendship(), 70);
    assert_eq!(StatSet::uniform(3).speed, 3);
    assert_eq!(StatSet::default(), StatSet::uniform(0));
}

#[test]
fn monster_faints_at_zero() {
    assert!(monster(5, 0).fainted());
    assert!(!monster(5, 1).fainted());
}

#[test]
fn monster_name_is_nickname_or_species_in_capitals() {
    let mut m = monster(5, 10);
    assert_eq!(m.name(), "CHARMANDER-X");
    m.data.nickname = Some(String::from("Flame"));
    assert_eq!(m.name(), "Flame");
}

#[test]
fn moves_at_level_keep_their_order() {
    assert_eq!(monster(1, 1).moves_at_level(), vec![10, 45]);
    assert_eq!(monster(7, 1).moves_at_level(), vec![52, 99]);
    assert!(monster(2, 1).moves_at_level().is_empty());
}

#[test]
fn raw_experience_is_a_seventh() {
    assert_eq!(monster(7, 1).raw_exp_from(), 62);
    assert_eq!(monster(10, 1).raw_exp_from(), 88);
    assert_eq!(monster(1, 1).raw_exp_from(), 8);
}

#[test]
fn option_slots() {
    let mut slot = PokemonOption::Active(2, monster(5, 9));
    assert!(slot.is_active());
    assert_eq!(slot.index(), Some(2));
    assert_eq!(slot.as_ref().map(|m| m.current_hp), Some(9));
    slot.as_mut().unwrap().current_hp = 4;
    assert_eq!(slot.as_ref().map(|m| m.current_hp), Some(4));
    let out = slot.replace(5).expect("the monster comes out");
    assert_eq!(out.0, 2);
    assert_eq!(out.1.current_hp, 4);
    assert!(matches!(slot, PokemonOption::ToReplace(5)));
    assert!(!slot.is_active());
    assert_eq!(slot.index(), None);
    assert!(slot.as_ref().is_none());
    assert!(slot.as_mut().is_none());
    // a slot that waits already keeps waiting for the same
    assert!(slot.replace(6).is_none());
    assert!(matches!(slot, PokemonOption::ToReplace(5)));
    let taken = slot.take();
    assert!(matches!(taken, PokemonOption::ToReplace(5)));
    assert!(matches!(slot, PokemonOption::Empty));
    assert!(slot.replace(1).is_none());
    assert!(matches!(slot, PokemonOption::ToReplace(1)));
    assert!(matches!(PokemonOption::default(), PokemonOption::Empty));
}

#[test]
fn gui_position_index() {
    let p = BattleGuiPositionIndex::new(BattleGuiPosition::Top, 1, 3);
    assert_eq!(p.position, BattleGuiPosition::Top);
    assert_eq!(p.index, 1);
    assert_eq!(p.size, 3);
}

#[test]
fn timer_counts_to_its_length() {
    let mut t = Timer::new(3);
    assert!(!t.is_alive());
    t.update();
    assert_eq!(t.counter, 0);
    t.spawn();
    assert!(t.is_alive() && !t.is_finished());
    for _ in 0..5 {
        t.update();
    }
    assert_eq!(t.counter, 3);
    assert!(t.is_finished());
    t.despawn();
    assert!(!t.is_alive() && !t.is_finished());
    assert_eq!(t.counter, 0);
}

#[test]
fn battle_text_new_holds_one_line() {
    let text = BattleText::new(3, 113);
    assert!(!text.is_active());
    assert_eq!(text.text, vec![String::from("null")]);
    assert_eq!(text.font_id, 1);
    assert_eq!(text.current_line(), 0);
    assert_eq!(text.counter(), 0);
    assert!(!text.can_continue);
    assert_eq!((text.panel_x, text.panel_y), (3, 113));
    assert_eq!(text.timer, Timer::new(60));
}

#[test]
fn battle_text_says_what_happened() {
    let mut text = BattleText::new(0, 0);
    text.update_text(&String::from("Pidgey"), &String::from("Gust"));
    assert_eq!(text.text, vec![String::from("Pidgey used Gust!")]);
    text.update_faint(&String::from("Rattata"));
    assert_eq!(text.text, vec![String::from("Rattata fainted!")]);
}

#[test]
fn battle_text_appears_letter_by_letter() {
    let mut text = BattleText::new(0, 0);
    text.text = vec![String::from("ab"), String::from("c")];
    text.update();
    assert_eq!(text.counter(), 0);
    text.enable();
    assert!(text.is_active());
    // the first line has two letters: the counter runs to nine, then the line ends
    for expected in 1..=9u16 {
        text.update();
        assert_eq!((text.current_line(), text.counter()), (0, expected));
        assert!(!text.can_continue);
    }
    text.update();
    assert_eq!((text.current_line(), text.counter()), (1, 0));
    for expected in 1..=5u16 {
        text.update();
        assert_eq!((text.current_line(), text.counter()), (1, expected));
    }
    text.update();
    assert_eq!((text.current_line(), text.counter()), (1, 4));
    assert!(text.can_continue);
    text.update();
    assert_eq!((text.current_line(), text.counter()), (1, 4));
    text.disable();
    assert!(!text.is_active());
    text.enable();
    assert_eq!((text.current_line(), text.counter()), (0, 0));
    assert!(!text.can_continue);
}

#[test]
fn wild_closer_fades_in_and_out() {
    let mut closer = WildBattleCloser::default();
    assert!(!closer.world_active());
    assert!(!closer.finished());
    closer.update(100_000);
    assert_eq!(closer.alpha, 900_000);
    closer.update(100_000);
    assert_eq!(closer.alpha, 1_800_000);
    assert!(!closer.world_active());
    closer.update(100_000);
    assert_eq!(closer.alpha, 2_700_000);
    assert!(closer.world_active());
    closer.update(200_000);
    assert_eq!(closer.alpha, 900_000);
    assert!(!closer.finished());
    closer.update(200_000);
    assert_eq!(closer.alpha, 0);
    assert!(closer.finished());
    closer.reset();
    assert_eq!(closer, WildBattleCloser::default());
    assert_eq!(BattleManagerState::default(), BattleManagerState::Begin);
}

fn stats_by_level() -> Vec<BaseStatSet> {
    (0..20u16)
        .map(|l| BaseStatSet { hp: 10 + 2 * l, atk: 5 + l, def: 5 + l, sp_atk: 6 + l, sp_def: 6 + l, speed: 7 + l })
        .collect()
}

#[test]
fn experience_counts_fivefold_and_raises_the_level() {
    let stats = stats_by_level();
    let mut m = monster(5, 9);
    // 2 * 5 = 10: not more than level 5 can hold
    assert_eq!(m.add_exp(2, &stats), None);
    assert_eq!((m.data.level, m.data.experience), (5, 10));
    assert_eq!(m.base, BaseStatSet { hp: 20, atk: 11, def: 10, sp_atk: 12, sp_def: 11, speed: 13 });
    // 10 + 41 * 5 = 215: pays 50 and 60 and 70, and is left with 35 on level 8
    let r = m.add_exp(41, &stats);
    assert_eq!((m.data.level, m.data.experience), (8, 35));
    assert_eq!(m.base, stats[8]);
    assert_eq!(m.current_hp, 9);
    // it knew one move; on level 6 it learns 61, on level 7 first 99, then 52;
    // on level 8 it has no room: 80 waits
    let known: Vec<u128> = m.moves.iter().map(|i| i.move_id).collect();
    assert_eq!(known, vec![10, 61, 99, 52]);
    assert_eq!(m.moves[2].pp, 5);
    assert_eq!(r, Some((8, Some(vec![80]))));
}

#[test]
fn moves_wait_where_there_is_no_room() {
    let stats = stats_by_level();
    let mut m = monster(6, 9);
    m.moves = vec![
        MoveInstance { move_id: 1, pp: 1 },
        MoveInstance { move_id: 2, pp: 1 },
        MoveInstance { move_id: 3, pp: 1 },
    ];
    // 13 * 5 = 65 > 60: one level, to 7, where two moves are learned
    let r = m.add_exp(13, &stats);
    assert_eq!((m.data.level, m.data.experience), (7, 5));
    let known: Vec<u128> = m.moves.iter().map(|i| i.move_id).collect();
    // the last of the level comes first; the other is forgotten for want of room
    assert_eq!(known, vec![1, 2, 3, 99]);
    assert_eq!(r, Some((7, None)));
    let mut full = monster(6, 9);
    full.moves = vec![MoveInstance { move_id: 1, pp: 1 }; 4];
    let r = full.add_exp(13, &stats);
    assert_eq!(r, Some((7, Some(vec![52, 99]))));
    assert_eq!(full.moves.len(), 4);
    // past the table nothing rises
    let mut top = monster(9, 9);
    assert_eq!(top.add_exp(1000, &stats), None);
    assert_eq!((top.data.level, top.data.experience), (9, 5000));
}

#[test]
fn new_monsters_start_fresh() {
    let drawn = Drawn { level: 4, ivs: StatSet::uniform(9), gender: Gender::Female };
    let base = BaseStatSet { hp: 18, atk: 9, def: 9, sp_atk: 10, sp_def: 10, speed: 11 };
    let moves = vec![MoveInstance { move_id: 10, pp: 35 }];
    let m = PokemonInstance::generate(species(), 3, 6, None, drawn, base, moves.clone());
    assert_eq!(m.data.level, 4);
    assert_eq!(m.data.ivs, StatSet::uniform(9));
    assert_eq!(m.data.evs, StatSet::uniform(0));
    assert_eq!(m.data.gender, Gender::Female);
    assert_eq!((m.data.experience, m.data.friendship), (0, 70));
    assert_eq!(m.current_hp, 18);
    assert_eq!(m.base, base);
    assert_eq!(m.moves, moves);
    assert!(m.data.nickname.is_none() && m.item.is_none() && m.data.status.is_none());
    let same = PokemonInstance::generate(species(), 6, 6, Some(default_iv()), drawn, base, moves.clone());
    assert_eq!(same.data.level, 6);
    assert_eq!(same.data.ivs, default_iv());
    let fixed = PokemonInstance::generate_with_level(species(), 12, None, drawn, base, moves);
    assert_eq!(fixed.data.level, 12);
    assert_eq!(fixed.data.ivs, StatSet::uniform(9));
}

#[test]
fn level_up_takes_the_stats_of_the_level() {
    let stats = stats_by_level();
    let mut m = monster(3, 9);
    m.on_level_up(&stats);
    assert_eq!(m.base, stats[3]);
    m.data.level = 200;
    m.on_level_up(&stats);
    assert_eq!(m.base, stats[3]);
    assert_eq!(m.data.level, 200);
}

#[test]
fn hits_multiply_over_both_types() {
    // rows: the type of the move; columns: the type of the monster
    let chart = TypeChart { rows: vec![vec![4, 4, 4], vec![4, 2, 8], vec![0, 8, 2]] };
    let mut m = monster(5, 9);
    assert_eq!(m.effective(&chart, 1), 2);
    assert_eq!(m.effective(&chart, 2), 8);
    assert_eq!(m.effective(&chart, 7), 4);
    m.pokemon.secondary_type = Some(2);
    assert_eq!(m.effective(&chart, 1), 4);
    assert_eq!(m.effective(&chart, 2), 4);
    m.pokemon.primary_type = 0;
    assert_eq!(m.effective(&chart, 2), 0);
    m.pokemon.primary_type = 2;
    assert_eq!(m.effective(&chart, 1), 16);
    assert_eq!(times(2, 2), 1);
    assert_eq!(chart.effective(0, 9), 4);
}
