use flappy::config::{FRAME_DURATION, SCREEN_HEIGHT, SCREEN_WIDTH};
use flappy::draw::{Color, DrawCommand};
use flappy::obstacle::Obstacle;
use flappy::player::Player;
use flappy::state::{Frame, FrameInput, GameMode, Key, State};

const STEP: u32 = 75_001;

fn playing(player: Player, obstacles: Vec<Obstacle>, score: i32) -> State {
    State { player, frame_time: 0, mode: GameMode::Playing, obstacles, score }
}

fn idle(elapsed: u32) -> FrameInput {
    FrameInput { key: None, elapsed }
}

fn pressed(key: Key, elapsed: u32) -> FrameInput {
    FrameInput { key: Some(key), elapsed }
}

fn centered(y: i32, text: &str) -> DrawCommand {
    DrawCommand::Centered { y, text: text.to_string() }
}

fn text(x: i32, y: i32, text: &str) -> DrawCommand {
    DrawCommand::Text { x, y, text: text.to_string() }
}

fn bar(x: i32, y: i32) -> DrawCommand {
    DrawCommand::Glyph { x, y, fg: Color::Red, bg: Color::Black, glyph: 124 }
}

fn title_screen() -> Vec<DrawCommand> {
    vec![
        DrawCommand::Clear,
        centered(5, "Welcome to Flippy Bird"),
        centered(8, "(P) play"),
        centered(9, "(Q) quit"),
    ]
}

fn death_screen() -> Vec<DrawCommand> {
    vec![
        DrawCommand::Clear,
        centered(5, "You are dead"),
        centered(8, "(P) play again"),
        centered(9, "(Q) quit"),
    ]
}

fn opening(mode: GameMode, gap_y: i32) -> State {
    State {
        player: Player { x: 0, y: 25, velocity: 0 },
        frame_time: 0,
        mode,
        obstacles: vec![Obstacle { x: 80, gap_y, size: 20, passed: false }],
        score: 0,
    }
}

#[test]
fn a_new_game_waits_on_the_menu() {
    let state = State::with_gap(17);
    assert_eq!(state, opening(GameMode::Menu, 17));
    assert_eq!(state.obstacles[0].x, SCREEN_WIDTH);
}

#[test]
fn a_new_game_draws_its_first_gap() {
    for _ in 0..50 {
        let state = State::new();
        let gap_y = state.obstacles[0].gap_y;
        assert!(10 <= gap_y && gap_y < 40);
        assert_eq!(state, opening(GameMode::Menu, gap_y));
    }
}

#[test]
fn restart_resets_the_whole_game() {
    let mut state = playing(
        Player { x: 431, y: 60, velocity: 20 },
        vec![Obstacle::with_gap(430, 7, 12), Obstacle::with_gap(480, 8, 30)],
        8,
    );
    state.mode = GameMode::End;
    state.frame_time = 40_000;
    state.restart_with(21);
    assert_eq!(state, opening(GameMode::Playing, 21));
    assert_eq!(state.score, 0);
    assert_eq!(state.player, Player::new(0, 25));
    assert_eq!(state.obstacles.len(), 1);
    assert_eq!(state.obstacles[0].x, 80);
}

#[test]
fn restart_draws_a_new_first_gap() {
    let mut state = playing(Player { x: 431, y: 60, velocity: 20 }, vec![], 8);
    state.restart();
    let gap_y = state.obstacles[0].gap_y;
    assert!(10 <= gap_y && gap_y < 40);
    assert_eq!(state, opening(GameMode::Playing, gap_y));
}

#[test]
fn menu_shows_the_title_and_waits() {
    let mut state = State::with_gap(17);
    let frame = state.main_menu(idle(16_000), 30);
    assert_eq!(frame, Frame { commands: title_screen(), quit: false });
    assert_eq!(state, opening(GameMode::Menu, 17));
    let frame = state.main_menu(pressed(Key::Space, 16_000), 30);
    assert_eq!(frame, Frame { commands: title_screen(), quit: false });
    let frame = state.main_menu(pressed(Key::Other, 90_000), 30);
    assert!(!frame.quit);
    assert_eq!(state, opening(GameMode::Menu, 17));
}

#[test]
fn menu_starts_a_game_on_p() {
    let mut state = State::with_gap(17);
    let frame = state.main_menu(pressed(Key::P, 16_000), 30);
    assert_eq!(frame, Frame { commands: title_screen(), quit: false });
    assert_eq!(state, opening(GameMode::Playing, 30));
}

#[test]
fn menu_asks_to_leave_on_q() {
    let mut state = State::with_gap(17);
    let frame = state.main_menu(pressed(Key::Q, 16_000), 30);
    assert_eq!(frame, Frame { commands: title_screen(), quit: true });
    assert_eq!(state, opening(GameMode::Menu, 17));
}

#[test]
fn death_screen_offers_another_game() {
    let mut state = playing(Player { x: 80, y: 3, velocity: 4 }, vec![Obstacle::with_gap(80, 0, 25)], 0);
    state.mode = GameMode::End;
    let frame = state.dead(idle(16_000), 30);
    assert_eq!(frame, Frame { commands: death_screen(), quit: false });
    assert_eq!(state.mode, GameMode::End);
    assert_eq!(state.player, Player { x: 80, y: 3, velocity: 4 });
    let frame = state.dead(pressed(Key::Q, 16_000), 30);
    assert_eq!(frame, Frame { commands: death_screen(), quit: true });
    assert_eq!(state.mode, GameMode::End);
    let frame = state.dead(pressed(Key::P, 16_000), 31);
    assert_eq!(frame, Frame { commands: death_screen(), quit: false });
    assert_eq!(state, opening(GameMode::Playing, 31));
}

#[test]
fn tick_runs_the_handler_of_the_mode() {
    let mut state = State::with_gap(17);
    let frame = state.tick_with(pressed(Key::P, STEP), 30);
    assert_eq!(frame.commands, title_screen());
    assert_eq!(state, opening(GameMode::Playing, 30));
    let frame = state.tick_with(pressed(Key::Q, STEP), 31);
    assert!(!frame.quit);
    assert_eq!(frame.commands[0], DrawCommand::Fill { background: Color::Navy });
    assert_eq!(state.player, Player { x: 1, y: 25, velocity: 2 });
    state.mode = GameMode::End;
    let frame = state.tick_with(pressed(Key::Q, STEP), 31);
    assert_eq!(frame, Frame { commands: death_screen(), quit: true });
    assert_eq!(state.player, Player { x: 1, y: 25, velocity: 2 });
}

#[test]
fn clock_steps_once_more_than_the_frame_duration_has_gone_by() {
    let mut state = opening(GameMode::Playing, 25);
    state.play(idle(40_000), 30);
    assert_eq!(state.frame_time, 40_000);
    assert_eq!(state.player, Player::new(0, 25));
    state.play(idle(35_000), 30);
    assert_eq!(state.frame_time, FRAME_DURATION);
    assert_eq!(state.player, Player::new(0, 25));
    state.play(idle(1), 30);
    assert_eq!(state.frame_time, 0);
    assert_eq!(state.player, Player { x: 1, y: 25, velocity: 2 });
}

#[test]
fn a_long_frame_is_one_step_only() {
    let mut state = opening(GameMode::Playing, 25);
    state.play(idle(u32::MAX), 30);
    assert_eq!(state.frame_time, 0);
    assert_eq!(state.player, Player { x: 1, y: 25, velocity: 2 });
}

#[test]
fn flap_does_not_wait_for_the_clock() {
    let mut state = opening(GameMode::Playing, 25);
    state.play(pressed(Key::Space, 10), 30);
    assert_eq!(state.player, Player { x: 0, y: 25, velocity: -20 });
    assert_eq!(state.frame_time, 10);
}

#[test]
fn flap_comes_after_the_step() {
    let mut state = playing(Player { x: 0, y: 25, velocity: 18 }, vec![Obstacle::with_gap(80, 0, 25)], 0);
    state.play(pressed(Key::Space, STEP), 30);
    assert_eq!(state.player, Player { x: 1, y: 27, velocity: -20 });
}

#[test]
fn other_keys_do_not_flap() {
    let mut state = opening(GameMode::Playing, 25);
    state.play(pressed(Key::P, 10), 30);
    state.play(pressed(Key::Q, 10), 30);
    state.play(pressed(Key::Other, 10), 30);
    assert_eq!(state.player, Player::new(0, 25));
    assert_eq!(state.mode, GameMode::Playing);
}

#[test]
fn play_draws_background_player_display_and_walls() {
    let mut state = playing(Player { x: 4, y: 25, velocity: 8 }, vec![Obstacle::with_gap(80, 0, 25)], 12);
    let frame = state.play(idle(STEP), 30);
    let mut expected = vec![
        DrawCommand::Fill { background: Color::Navy },
        DrawCommand::Glyph { x: 10, y: 26, fg: Color::Yellow, bg: Color::Black, glyph: 64 },
        text(0, 0, "Press space to flap"),
        text(0, 1, "Score: 12"),
    ];
    for y in 0..15 {
        expected.push(bar(85, y));
    }
    for y in 35..50 {
        expected.push(bar(85, y));
    }
    assert_eq!(frame, Frame { commands: expected, quit: false });
}

#[test]
fn play_draws_both_obstacles_nearest_first() {
    let mut state = playing(
        Player { x: 85, y: 25, velocity: 0 },
        vec![Obstacle { x: 80, gap_y: 25, size: 20, passed: true }, Obstacle::with_gap(130, 18, 25)],
        1,
    );
    let frame = state.play(idle(0), 30);
    assert_eq!(frame.commands.len(), 4 + 30 + 48);
    assert_eq!(frame.commands[4], bar(5, 0));
    assert_eq!(frame.commands[33], bar(5, 49));
    assert_eq!(frame.commands[34], bar(55, 0));
    assert_eq!(frame.commands[81], bar(55, 49));
}

#[test]
fn second_obstacle_appears_fifty_columns_before_the_first_is_reached() {
    let mut state = playing(Player::new(29, 25), vec![Obstacle::with_gap(80, 0, 25)], 0);
    state.play(idle(STEP), 33);
    assert_eq!(state.player.x, 30);
    assert_eq!(state.obstacles, vec![Obstacle::with_gap(80, 0, 25)]);
    state.play(idle(STEP), 33);
    assert_eq!(state.player.x, 31);
    assert_eq!(
        state.obstacles,
        vec![
            Obstacle { x: 80, gap_y: 25, size: 20, passed: false },
            Obstacle { x: 130, gap_y: 33, size: 20, passed: false },
        ]
    );
    state.play(idle(STEP), 34);
    assert_eq!(state.obstacles.len(), 2);
}

#[test]
fn no_third_obstacle_however_near_the_last_one_is() {
    let first = Obstacle { x: 80, gap_y: 25, size: 20, passed: true };
    let second = Obstacle { x: 85, gap_y: 25, size: 19, passed: false };
    let mut state = playing(Player::new(84, 25), vec![first, second], 1);
    state.play(idle(0), 34);
    assert_eq!(state.obstacles, vec![first, second]);
}

#[test]
fn new_obstacle_has_the_gap_of_the_current_score() {
    let mut state = playing(Player::new(100, 25), vec![Obstacle::with_gap(130, 4, 25)], 5);
    state.play(idle(0), 11);
    assert_eq!(state.obstacles.len(), 2);
    assert_eq!(state.obstacles[1], Obstacle { x: 180, gap_y: 11, size: 15, passed: false });
}

#[test]
fn new_obstacle_counts_a_pass_of_the_same_frame() {
    let mut state = playing(Player::new(130, 25), vec![Obstacle::with_gap(130, 4, 25)], 5);
    state.play(idle(STEP), 11);
    assert_eq!(state.score, 6);
    assert_eq!(state.obstacles[1], Obstacle { x: 180, gap_y: 11, size: 14, passed: false });
}

#[test]
fn obstacle_off_the_left_edge_is_retired() {
    let mut state = playing(
        Player::new(20, 25),
        vec![Obstacle { x: 5, gap_y: 25, size: 20, passed: true }, Obstacle::with_gap(55, 1, 30)],
        1,
    );
    state.play(idle(0), 34);
    assert_eq!(state.obstacles, vec![Obstacle::with_gap(55, 1, 30)]);
}

#[test]
fn a_lone_obstacle_is_replaced_as_it_retires() {
    let mut state = playing(Player::new(20, 25), vec![Obstacle { x: 5, gap_y: 25, size: 20, passed: true }], 1);
    state.play(idle(0), 34);
    assert_eq!(state.obstacles, vec![Obstacle { x: 55, gap_y: 34, size: 19, passed: false }]);
}

#[test]
fn obstacle_in_the_first_column_of_the_screen_stays() {
    let first = Obstacle { x: 10, gap_y: 25, size: 20, passed: true };
    let second = Obstacle::with_gap(60, 1, 30);
    let mut state = playing(Player::new(20, 25), vec![first, second], 1);
    state.play(idle(0), 34);
    assert_eq!(state.obstacles, vec![first, second]);
    state.play(idle(STEP), 34);
    assert_eq!(state.obstacles, vec![second]);
}

#[test]
fn passing_an_obstacle_scores_once() {
    let mut state = playing(Player::new(79, 25), vec![Obstacle::with_gap(80, 0, 25)], 0);
    state.play(pressed(Key::Space, STEP), 30);
    assert_eq!(state.player.x, 80);
    assert_eq!(state.score, 0);
    assert!(!state.obstacles[0].passed);
    assert_eq!(state.mode, GameMode::Playing);
    let frame = state.play(idle(STEP), 30);
    assert_eq!(state.player.x, 81);
    assert_eq!(state.score, 1);
    assert!(state.obstacles[0].passed);
    assert_eq!(frame.commands[3], text(0, 1, "Score: 0"));
    let frame = state.play(idle(STEP), 30);
    assert_eq!(state.score, 1);
    assert_eq!(frame.commands[3], text(0, 1, "Score: 1"));
}

#[test]
fn flying_into_a_wall_ends_the_game() {
    let mut state = playing(Player::new(79, 3), vec![Obstacle::with_gap(80, 0, 25)], 0);
    state.play(idle(STEP), 30);
    assert_eq!(state.player.x, 80);
    assert_eq!(state.mode, GameMode::End);
    assert_eq!(state.score, 0);
}

#[test]
fn flying_through_the_gap_goes_on() {
    let mut state = playing(Player::new(79, 15), vec![Obstacle::with_gap(80, 0, 25)], 0);
    state.play(idle(STEP), 30);
    assert_eq!(state.player, Player { x: 80, y: 15, velocity: 2 });
    assert_eq!(state.mode, GameMode::Playing);
}

#[test]
fn a_wall_is_only_hit_in_its_very_column() {
    let mut state = playing(Player::new(79, 3), vec![Obstacle::with_gap(80, 0, 25)], 0);
    state.play(idle(0), 30);
    assert_eq!(state.mode, GameMode::Playing);
    let mut beyond = playing(Player::new(81, 3), vec![Obstacle::with_gap(80, 0, 25)], 0);
    beyond.play(idle(0), 30);
    assert_eq!(beyond.mode, GameMode::Playing);
}

#[test]
fn a_crash_does_not_stop_the_frame() {
    let first = Obstacle { x: 10, gap_y: 25, size: 20, passed: false };
    let second = Obstacle { x: 11, gap_y: 25, size: 20, passed: false };
    let mut state = playing(Player::new(10, 25), vec![first, second], 0);
    state.player.flap();
    state.player.y = 0;
    let frame = state.play(idle(STEP), 30);
    assert_eq!(state.player.x, 11);
    assert_eq!(state.mode, GameMode::End);
    assert_eq!(state.score, 1);
    assert!(state.obstacles[0].passed);
    assert!(!state.obstacles[1].passed);
    assert_eq!(frame.commands.len(), 4 + 30 + 30);
}

#[test]
fn falling_below_the_screen_ends_the_game() {
    let mut state = playing(Player { x: 0, y: 49, velocity: 8 }, vec![Obstacle::with_gap(80, 0, 25)], 0);
    state.play(idle(STEP), 30);
    assert_eq!(state.player.y, SCREEN_HEIGHT);
    assert_eq!(state.mode, GameMode::Playing);
    state.play(idle(STEP), 30);
    assert_eq!(state.player.y, 51);
    assert_eq!(state.mode, GameMode::End);
}

#[test]
fn can_play_until_the_integers_run_out() {
    let mut state = opening(GameMode::Playing, 25);
    assert!(state.can_play());
    state.player.x = i32::MAX - 1;
    assert!(state.can_play());
    state.player.x = i32::MAX;
    assert!(!state.can_play());
    state.player.x = 0;
    state.score = i32::MAX - 1;
    assert!(!state.can_play());
    state.score = i32::MAX - 2;
    assert!(state.can_play());
    state.obstacles[0].x = i32::MAX - 49;
    assert!(!state.can_play());
    state.obstacles[0].x = i32::MAX - 50;
    assert!(state.can_play());
    state.player.y = i32::MAX - 1;
    assert!(!state.can_play());
}

#[test]
fn a_whole_game_keeps_one_or_two_obstacles_in_order() {
    let mut state = State::new();
    state.tick(pressed(Key::P, 16_000));
    assert_eq!(state.mode, GameMode::Playing);
    let mut last_score = 0;
    let mut last_x = 0;
    for _ in 0..4000 {
        assert!(state.can_play());
        let ahead = state.obstacles.iter().find(|o| o.x >= state.player.x).map(|o| o.gap_y);
        let key = match ahead {
            Some(gap_y) if state.player.y > gap_y => Some(Key::Space),
            _ => None,
        };
        let frame = state.tick(FrameInput { key, elapsed: STEP });
        assert!(!frame.quit);
        assert!(state.obstacles.len() == 1 || state.obstacles.len() == 2);
        if state.obstacles.len() == 2 {
            assert_eq!(state.obstacles[0].x + 50, state.obstacles[1].x);
        }
        assert!(state.player.y >= 0);
        assert!(state.score >= last_score);
        assert!(state.player.x >= last_x);
        last_score = state.score;
        last_x = state.player.x;
        if state.mode != GameMode::Playing {
            break;
        }
    }
    assert!(state.player.x > 80);
    assert!(state.score >= 1);
}

#[test]
fn games_made_by_the_library_are_well_formed() {
    assert!(State::new().is_wf());
    assert!(State::with_gap(10).is_wf());
    assert!(State::with_gap(39).is_wf());
    assert!(!State::with_gap(40).is_wf());
    assert!(!State::with_gap(9).is_wf());
    assert!(State::new().can_tick());
}

#[test]
fn a_game_needs_one_or_two_obstacles_in_ascending_order() {
    let first = Obstacle::with_gap(80, 0, 25);
    let second = Obstacle::with_gap(130, 0, 25);
    assert!(playing(Player::new(0, 25), vec![first], 0).is_wf());
    assert!(playing(Player::new(0, 25), vec![first, second], 0).is_wf());
    assert!(!playing(Player::new(0, 25), vec![], 0).is_wf());
    assert!(!playing(Player::new(0, 25), vec![second, first], 0).is_wf());
    assert!(!playing(Player::new(0, 25), vec![first, first], 0).is_wf());
    assert!(!playing(Player::new(0, 25), vec![first, second, Obstacle::with_gap(180, 0, 25)], 0).is_wf());
}

#[test]
fn a_game_needs_a_player_on_the_grid_and_a_score_of_zero_or_more() {
    let first = Obstacle::with_gap(80, 0, 25);
    assert!(!playing(Player::new(-1, 25), vec![first], 0).is_wf());
    assert!(!playing(Player::new(0, -1), vec![first], 0).is_wf());
    assert!(!playing(Player::new(0, 25), vec![first], -1).is_wf());
    assert!(!playing(Player { x: 0, y: 25, velocity: 22 }, vec![first], 0).is_wf());
    assert!(!playing(Player { x: 0, y: 25, velocity: 3 }, vec![first], 0).is_wf());
    assert!(playing(Player { x: 0, y: 25, velocity: -20 }, vec![first], 0).is_wf());
    let mut late = playing(Player::new(0, 25), vec![first], 0);
    late.frame_time = FRAME_DURATION + 1;
    assert!(!late.is_wf());
}

#[test]
fn tick_may_run_on_the_menu_whatever_the_numbers() {
    let mut state = playing(Player::new(i32::MAX, 25), vec![Obstacle::with_gap(80, 0, 25)], 0);
    assert!(!state.can_tick());
    state.mode = GameMode::End;
    assert!(state.can_tick());
    let frame = state.tick(pressed(Key::P, 0));
    assert!(!frame.quit);
    assert_eq!(state.mode, GameMode::Playing);
    assert_eq!(state.player, Player::new(0, 25));
    assert!(state.can_tick());
}

#[test]
fn tick_asks_to_leave_on_q_outside_play() {
    let mut state = State::new();
    let before = State { obstacles: state.obstacles.clone(), ..State::with_gap(0) };
    let frame = state.tick(pressed(Key::Q, 16_000));
    assert!(frame.quit);
    assert_eq!(state, before);
}
