use the_claw::actions::{Drift, PlayerProximityTest, SinePath, TrackToTarget};
use the_claw::game_manager::{
    init_game, point_update, respawn_player, start_respawn_timer, Game, PlayState, PointEvent,
};
use the_claw::input::{
    shoot_pressed, sum_directions, InputEventAction, InputEventType, InputMovementEvent,
    InputTriggerEvent,
};
use the_claw::ordering::{GameInit, GameLoading};
use the_claw::scheduling::{stages, GameSchedule};
use the_claw::state::{init_game_state, update_game_state, GameState, GameStateEvent};
use the_claw::timer::{Stopwatch, Timer, TimerMode};
use the_claw::vector::{Vec2, Vec3};
use the_claw::world::Entity;

#[test]
fn game_starts_with_two_lives_and_no_points() {
    let (game, state) = init_game();
    assert_eq!(
        game,
        Game { score: 0, lives: 2, respawn_timer: Timer::new(4_000_000_000, TimerMode::Once) }
    );
    assert_eq!(state, PlayState::Alive);
    assert_eq!(PlayState::default(), PlayState::NotInGame);
}

#[test]
fn points_add_up_and_stop_at_the_top() {
    let (mut game, _) = init_game();
    point_update(&mut game, &vec![]);
    assert_eq!(game.score, 0);
    point_update(&mut game, &vec![PointEvent(100), PointEvent(20)]);
    assert_eq!(game.score, 120);
    assert_eq!(game.lives, 2);
    point_update(&mut game, &vec![PointEvent(u64::MAX - 120)]);
    assert_eq!(game.score, u64::MAX);
    point_update(&mut game, &vec![PointEvent(1), PointEvent(u64::MAX)]);
    assert_eq!(game.score, u64::MAX);
}

#[test]
fn next_ship_comes_after_the_wait_and_costs_a_life() {
    let (mut game, _) = init_game();
    assert!(!respawn_player(&mut game, 3_999_999_999));
    assert_eq!(game.lives, 2);
    assert!(respawn_player(&mut game, 1));
    assert_eq!(game.lives, 1);
    assert!(!respawn_player(&mut game, 4_000_000_000));
    assert_eq!(game.lives, 1);
    start_respawn_timer(&mut game);
    assert_eq!(game.respawn_timer, Timer::new(4_000_000_000, TimerMode::Once));
    assert!(respawn_player(&mut game, 4_000_000_000));
    assert_eq!(game.lives, 0);
    start_respawn_timer(&mut game);
    assert!(respawn_player(&mut game, 5_000_000_000));
    assert_eq!(game.lives, 0);
}

#[test]
fn game_state_follows_the_last_request() {
    assert_eq!(init_game_state(), GameState::Loading);
    assert_eq!(GameState::default(), GameState::Loading);
    assert_eq!(update_game_state(GameState::Loading, &vec![]), GameState::Loading);
    assert_eq!(update_game_state(GameState::Playing, &vec![]), GameState::Playing);
    assert_eq!(
        update_game_state(
            GameState::Loading,
            &vec![GameStateEvent::new(GameState::Loading), GameStateEvent::new(GameState::Playing)]
        ),
        GameState::Playing
    );
    assert_eq!(
        update_game_state(
            GameState::Playing,
            &vec![GameStateEvent::new(GameState::Playing), GameStateEvent::new(GameState::Loading)]
        ),
        GameState::Loading
    );
}

#[test]
fn fire_button_is_read_from_the_events() {
    let press = InputTriggerEvent::new(InputEventAction::Shoot, InputEventType::Pressed);
    let release = InputTriggerEvent::new(InputEventAction::Shoot, InputEventType::Released);
    assert!(!shoot_pressed(&vec![]));
    assert!(!shoot_pressed(&vec![release, release]));
    assert!(shoot_pressed(&vec![release, press]));
    assert!(shoot_pressed(&vec![press, release]));
}

#[test]
fn directions_add_up() {
    assert_eq!(sum_directions(&vec![]), Vec2::new(0, 0));
    assert_eq!(
        sum_directions(&vec![
            InputMovementEvent::new(Vec2::new(-1_000, 0)),
            InputMovementEvent::new(Vec2::new(0, 1_000)),
            InputMovementEvent::new(Vec2::new(250, 250)),
        ]),
        Vec2::new(-750, 1_250)
    );
    assert_eq!(
        sum_directions(&vec![
            InputMovementEvent::new(Vec2::new(i32::MAX, 0)),
            InputMovementEvent::new(Vec2::new(1, 0)),
            InputMovementEvent::new(Vec2::new(-1, 0)),
        ]),
        Vec2::new(i32::MAX - 1, 0)
    );
}

#[test]
fn stages_run_in_their_order() {
    let order = stages();
    assert_eq!(
        order,
        [
            GameSchedule::HealthAdjust,
            GameSchedule::PreDespawnEntities,
            GameSchedule::DespawnEntities,
            GameSchedule::UserInput,
            GameSchedule::EntityUpdates,
            GameSchedule::CollisionDetection,
        ]
    );
    for (i, stage) in order.iter().enumerate() {
        assert_eq!(stage.position() as usize, i);
        for (j, other) in order.iter().enumerate() {
            assert_eq!(stage.runs_before(*other), i < j);
        }
    }
    let _ = (GameLoading, GameInit);
}

#[test]
fn sine_path_gives_the_phase_and_the_velocity() {
    let mut path = SinePath::new(Vec3::new(0, 0, 10_000), 1_500, 0);
    assert_eq!(path.live_time, Stopwatch::new());
    assert_eq!(path.advance(1_000_000_000), 1_500);
    assert_eq!(path.advance(500_000_000), 2_250);
    assert_eq!(path.live_time.elapsed, 1_500_000_000);
    assert_eq!(path.velocity(1_000), Vec3::new(0, 0, 10_000));
    assert_eq!(path.velocity(-500), Vec3::new(0, 0, -5_000));
    assert_eq!(path.velocity(0), Vec3::zero());
}

#[test]
fn tracking_steers_after_the_target() {
    let mut track = TrackToTarget::new(Entity(3), 10_000, 500_000_000);
    assert_eq!(track.update_timer, Timer::new(500_000_000, TimerMode::Repeating));
    assert!(!track.tick(499_999_999));
    assert!(track.tick(1));
    assert!(!track.tick(1));
    // the target is straight ahead on x: the wanted velocity is (20, 0, 0)
    let push = track.steer(Vec3::zero(), Vec3::new(0, 0, 0), Vec3::new(50_000, 0, 0), 20_000);
    assert_eq!(push, Vec3::new(10_000, 0, 0));
    let push = track.steer(Vec3::zero(), Vec3::new(20_000, 0, 15_000), Vec3::new(50_000, 0, 0), 20_000);
    assert_eq!(push, Vec3::new(0, 0, -10_000));
    let push = track.steer(Vec3::zero(), Vec3::new(20_000, 0, 0), Vec3::new(50_000, 0, 0), 20_000);
    assert_eq!(push, Vec3::zero());
}

#[test]
fn proximity_is_tested_at_its_pace() {
    let mut test = PlayerProximityTest::new(25_000_000, 250_000_000);
    assert!(!test.tick(100_000_000));
    assert!(test.tick(150_000_000));
    assert!(test.triggered(Vec3::new(1_000, 0, 0), Vec3::new(5_999, 0, 0)));
    assert!(!test.triggered(Vec3::new(1_000, 0, 0), Vec3::new(6_000, 0, 0)));
}

#[test]
fn drift_draws_a_push_at_its_pace() {
    let mut drift = Drift::new(Vec3::new(1_000, 0, 2_000), Vec3::new(100, 0, -100), 1_000_000_000);
    assert_eq!(drift.push(500), Vec3::new(600, 0, 900));
    assert_eq!(drift.push(-1_000), Vec3::new(-900, 0, -2_100));
    assert_eq!(drift.push(0), Vec3::new(100, 0, -100));
    assert_eq!(drift.drift(999_999_999), None);
    let mut seen = std::collections::BTreeSet::new();
    for _ in 0..200 {
        let push = drift.drift(1_000_000_000).unwrap();
        // the push is that of one draw between minus one and one
        let roll = push.x - 100;
        assert!((-1_000..1_000).contains(&roll));
        assert_eq!(push, drift.push(roll));
        seen.insert(roll);
        assert_eq!(drift.drift(0), None);
    }
    assert!(seen.len() > 20);
}

use the_claw::ai::{
    build_action, build_behaviour, build_criteria, build_options, config_path, find, names_action,
    parse_config,
    Action, ActionConfig, Ai, AiConfig, AiData, AiError, AiRegister, Behaviour, BehaviourConfig,
    BehaviourOption, Criteria, CriteriaConfig, EvaluationCriteria, Named, OptionConfig,
};

fn action(name: &str, kind: &str) -> ActionConfig {
    ActionConfig {
        name: name.to_string(),
        action_name: kind.to_string(),
        acceleration: Some(10_000),
        max_speed: None,
        turn_time: None,
        period: Some(20_000),
        offset: None,
        variance: Some((1_000, 1_000)),
        trend: None,
    }
}

fn behaviour(name: &str, action: &str) -> BehaviourConfig {
    BehaviourConfig {
        name: name.to_string(),
        action: action.to_string(),
        first_eval: 500,
        criteria: vec![],
        options: vec![],
    }
}

#[test]
fn configuration_paths() {
    assert_eq!(config_path("dropship"), "data/ai/dropship.aiconfig.json");
    assert_eq!(config_path(""), "data/ai/.aiconfig.json");
    let register = AiRegister::new("mine");
    assert_eq!(register, AiRegister { name: "mine".to_string(), index: None });
}

#[test]
fn ai_acts_at_intervals() {
    let mut ai = Ai { action_timer: Timer::new(1_000, TimerMode::Repeating), target: Some(Entity(1)) };
    assert!(!ai.do_action(999));
    assert!(ai.do_action(1));
    assert_eq!(ai.target, Some(Entity(1)));
}

#[test]
fn actions_and_criteria_are_named_letter_for_letter() {
    assert_eq!(Action::from_name(&"Idle".to_string()), Some(Action::Idle));
    assert_eq!(
        Action::from_name(&"SineWave".to_string()),
        Some(Action::SineWave { period: 0, offset: 0 })
    );
    assert_eq!(Action::from_name(&"Turn".to_string()), Some(Action::Turn { time: 0 }));
    assert_eq!(
        Action::from_name(&"Home".to_string()),
        Some(Action::Home { max_speed: 0, acceleration: 0 })
    );
    assert_eq!(
        Action::from_name(&"Drift".to_string()),
        Some(Action::Drift { variance: Vec3::zero(), trend: Vec3::zero() })
    );
    assert_eq!(Action::from_name(&"idle".to_string()), None);
    assert_eq!(Action::from_name(&"Idle ".to_string()), None);
    assert_eq!(Action::from_name(&"".to_string()), None);
    assert_eq!(Criteria::from_name(&"Value".to_string()), Some(Criteria::Value));
    assert_eq!(Criteria::from_name(&"Random".to_string()), Some(Criteria::Random));
    assert_eq!(Criteria::from_name(&"random".to_string()), None);
    // the numbers of the configuration do not reach the action
    assert!(names_action(&action("wave", "SineWave")));
    assert_eq!(build_action(&action("wave", "SineWave")), Action::SineWave { period: 0, offset: 0 });
    assert_eq!(build_action(&action("rest", "Idle")), Action::Idle);
    assert!(!names_action(&action("wave", "Wave")));
}

#[test]
fn the_last_entry_of_a_name_counts() {
    let entries = vec![
        Named { name: "a".to_string(), index: 0 },
        Named { name: "b".to_string(), index: 1 },
        Named { name: "a".to_string(), index: 2 },
    ];
    assert_eq!(find(&entries, &"a".to_string()), Some(2));
    assert_eq!(find(&entries, &"b".to_string()), Some(1));
    assert_eq!(find(&entries, &"c".to_string()), None);
    assert_eq!(find(&vec![], &"a".to_string()), None);
}

#[test]
fn criteria_and_options_take_their_defaults() {
    let mut config = behaviour("patrol", "fly");
    config.criteria = vec![
        CriteriaConfig { criteria: "Value".to_string(), weight: None, offset: None },
        CriteriaConfig { criteria: "Random".to_string(), weight: Some(2_500), offset: Some(-100) },
    ];
    config.options = vec![
        OptionConfig { behaviour: "attack".to_string(), high: None, low: None },
        OptionConfig { behaviour: "flee".to_string(), high: Some(800), low: Some(200) },
    ];
    assert_eq!(
        build_criteria(&config),
        Ok(vec![
            EvaluationCriteria { criteria: Criteria::Value, weight: 1_000, offset: 0 },
            EvaluationCriteria { criteria: Criteria::Random, weight: 2_500, offset: -100 },
        ])
    );
    let known = vec![
        Named { name: "flee".to_string(), index: 4 },
        Named { name: "attack".to_string(), index: 7 },
    ];
    assert_eq!(
        build_options(&config, &known),
        Ok(vec![
            BehaviourOption { behaviour_index: 7, high: i32::MAX, low: i32::MIN },
            BehaviourOption { behaviour_index: 4, high: 800, low: 200 },
        ])
    );
    assert_eq!(build_options(&config, &known[..1].to_vec()), Err(0));
    assert_eq!(build_options(&config, &known[1..].to_vec()), Err(1));
    config.criteria.push(CriteriaConfig { criteria: "Chance".to_string(), weight: None, offset: None });
    assert_eq!(build_criteria(&config), Err(2));
    let actions = vec![Named { name: "fly".to_string(), index: 3 }];
    assert_eq!(
        build_behaviour(&actions, &known, &config, 5),
        Err(AiError::UnknownCriteria { behaviour: 5, criteria: 2 })
    );
    config.criteria.pop();
    assert_eq!(
        build_behaviour(&vec![], &known, &config, 5),
        Err(AiError::ActionNotFound { behaviour: 5 })
    );
    assert_eq!(
        build_behaviour(&actions, &vec![], &config, 5),
        Err(AiError::BehaviourNotFound { behaviour: 5, option: 0 })
    );
    let built = build_behaviour(&actions, &known, &config, 5).unwrap();
    assert_eq!(built.first_eval, 500);
    assert_eq!(built.action, 3);
    assert_eq!(built.criteria.len(), 2);
    assert_eq!(built.options.len(), 2);
}

#[test]
fn configurations_resolve_names_to_places() {
    let config = AiConfig {
        actions: vec![action("fly", "SineWave"), action("wait", "Idle"), action("fly", "Drift")],
        behaviour: vec![behaviour("patrol", "wait"), behaviour("wait", "fly"), behaviour("rest", "wait")],
    };
    let data = parse_config(&"mine".to_string(), &config).unwrap();
    assert_eq!(
        data,
        AiData {
            name: "mine".to_string(),
            behaviour_indexes: vec![],
            action_indexes: vec![
                Named { name: "fly".to_string(), index: 0 },
                Named { name: "wait".to_string(), index: 1 },
                Named { name: "fly".to_string(), index: 2 },
                Named { name: "patrol".to_string(), index: 0 },
                Named { name: "wait".to_string(), index: 1 },
                Named { name: "rest".to_string(), index: 2 },
            ],
            actions: vec![
                Action::SineWave { period: 0, offset: 0 },
                Action::Idle,
                Action::Drift { variance: Vec3::zero(), trend: Vec3::zero() },
            ],
            behaviours: vec![
                Behaviour { first_eval: 500, action: 1, criteria: vec![], options: vec![] },
                Behaviour { first_eval: 500, action: 2, criteria: vec![], options: vec![] },
                Behaviour { first_eval: 500, action: 1, criteria: vec![], options: vec![] },
            ],
        }
    );
}

#[test]
fn configurations_report_what_is_first_found_wrong() {
    let mut config = AiConfig {
        actions: vec![action("fly", "SineWave"), action("wait", "Sleep"), action("x", "Nap")],
        behaviour: vec![behaviour("patrol", "swim")],
    };
    assert_eq!(parse_config(&"mine".to_string(), &config), Err(AiError::UnknownAction { action: 1 }));
    config.actions.truncate(1);
    assert_eq!(
        parse_config(&"mine".to_string(), &config),
        Err(AiError::ActionNotFound { behaviour: 0 })
    );
    config.behaviour = vec![behaviour("patrol", "fly"), behaviour("rest", "patrol")];
    config.behaviour[1].criteria =
        vec![CriteriaConfig { criteria: "Luck".to_string(), weight: None, offset: None }];
    config.behaviour[1].options =
        vec![OptionConfig { behaviour: "patrol".to_string(), high: None, low: None }];
    assert_eq!(
        parse_config(&"mine".to_string(), &config),
        Err(AiError::UnknownCriteria { behaviour: 1, criteria: 0 })
    );
    config.behaviour[1].criteria.clear();
    // no behaviour is entered under the names of behaviours: an option finds none
    assert_eq!(
        parse_config(&"mine".to_string(), &config),
        Err(AiError::BehaviourNotFound { behaviour: 1, option: 0 })
    );
    config.behaviour[1].options.clear();
    assert!(parse_config(&"mine".to_string(), &config).is_ok());
    assert!(parse_config(&"".to_string(), &AiConfig { actions: vec![], behaviour: vec![] }).is_ok());
}

use the_claw::effect_sprite::{EffectSpriteEvent, EffectSpriteType};
use the_claw::health::Health;
use the_claw::health_bars::{BarLayout, HealthBars};
use the_claw::splosion::{show_blasts, SplosionEvent};

#[test]
fn health_bar_is_drawn_when_the_health_changes() {
    let mut bars = HealthBars::new();
    assert_eq!(bars, HealthBars { value: None, max: None });
    let full = Health::new(30_000);
    assert_eq!(
        bars.health_update(&full),
        Some(BarLayout { frame_width: Some(4_500), bar_percent: 100_000, visible: true })
    );
    assert_eq!(bars, HealthBars { value: Some(30_000), max: Some(30_000) });
    assert_eq!(bars.health_update(&full), None);
    let hurt = Health { value: 10_000, max: 30_000, last_hurt_by: None };
    assert_eq!(
        bars.health_update(&hurt),
        Some(BarLayout { frame_width: None, bar_percent: 33_333, visible: true })
    );
    let dead = Health { value: 0, max: 30_000, last_hurt_by: None };
    assert_eq!(
        bars.health_update(&dead),
        Some(BarLayout { frame_width: None, bar_percent: 0, visible: false })
    );
    let grown = Health { value: -5_000, max: 100_000, last_hurt_by: None };
    assert_eq!(
        bars.health_update(&grown),
        Some(BarLayout { frame_width: Some(15_000), bar_percent: -5_000, visible: false })
    );
    let none = Health { value: 5, max: 0, last_hurt_by: None };
    assert_eq!(
        bars.health_update(&none),
        Some(BarLayout { frame_width: Some(0), bar_percent: 0, visible: true })
    );
}

#[test]
fn blasts_are_shown_as_animations() {
    let first = EffectSpriteEvent::new(Vec3::zero(), 1, Vec3::zero(), EffectSpriteType::Ricochet);
    let mut effects = vec![first];
    show_blasts(
        &vec![
            SplosionEvent::new(Vec3::new(1, 2, 3), 3_000, Vec3::new(4, 5, 6)),
            SplosionEvent::new(Vec3::new(7, 8, 9), 750, Vec3::zero()),
        ],
        &mut effects,
    );
    assert_eq!(
        effects,
        vec![
            first,
            EffectSpriteEvent::new(Vec3::new(1, 2, 3), 3_000, Vec3::new(4, 5, 6), EffectSpriteType::Splosion),
            EffectSpriteEvent::new(Vec3::new(7, 8, 9), 750, Vec3::zero(), EffectSpriteType::Splosion),
        ]
    );
    let _ = the_claw::dropship::DropShip::default();
}
