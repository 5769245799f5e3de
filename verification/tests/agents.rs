use genetic_tetris::{Agent, DrawConfig, GeneticAgent, KeyCode, RandomAgent, TetrisState};

/// Always names the same key.
struct Stubborn {
    key: Option<KeyCode>,
    asked: usize,
}

impl Agent for Stubborn {
    fn get_action(&mut self, _state: &TetrisState) -> Option<KeyCode> {
        self.asked += 1;
        self.key
    }
}

#[test]
fn frames_are_due_as_configured() {
    assert!(DrawConfig::AllFrame.frame_due(0));
    assert!(DrawConfig::AllFrame.frame_due(77));
    assert!(!DrawConfig::NoFrames.frame_due(0));
    assert!(!DrawConfig::NoFrames.frame_due(77));
    assert!(DrawConfig::EveryNFrames(7).frame_due(0));
    assert!(DrawConfig::EveryNFrames(7).frame_due(77));
    assert!(!DrawConfig::EveryNFrames(7).frame_due(78));
    assert!(DrawConfig::EveryNFrames(1).frame_due(78));
}

#[test]
fn the_random_agent_names_an_arrow_key() {
    let mut agent = RandomAgent::new();
    let state = TetrisState::new();
    let mut seen = Vec::new();
    for _ in 0..400 {
        let key = agent.get_action(&state);
        assert!(key.is_some());
        let key = key.unwrap();
        assert!(key != KeyCode::Space);
        if !seen.contains(&key) {
            seen.push(key);
        }
    }
    assert!(seen.len() >= 2);
}

#[test]
fn a_step_is_a_tick_with_the_key_and_a_tick_without() {
    let mut state = TetrisState::new();
    let mut agent = Stubborn { key: Some(KeyCode::Left), asked: 0 };
    let x = state.pos[0];
    assert_eq!(agent.step(&mut state), KeyCode::Left);
    assert_eq!(agent.asked, 1);
    assert_eq!(state.drop_count, 2);
    assert_eq!(state.pos, [x - 1, 2]);
    assert!(!state.pressed_map.left);
    agent.step(&mut state);
    assert_eq!(state.pos, [x - 2, 2]);
    assert_eq!(state.drop_count, 4);
}

#[test]
fn no_key_means_space() {
    let mut state = TetrisState::new();
    let mut agent = Stubborn { key: None, asked: 0 };
    assert_eq!(agent.step(&mut state), KeyCode::Space);
    assert_eq!(state.drop_count, 144);
    assert_eq!(state.score, 1);
    assert_eq!(state.pos, [3, 2]);
}

#[test]
fn a_game_is_played_to_its_end() {
    let mut state = TetrisState::new();
    let mut agent = Stubborn { key: None, asked: 0 };
    agent.run(&mut state);
    assert!(state.is_over);
    assert!(state.score >= 4);
    assert!(agent.asked as u32 >= state.score);
    let asked = agent.asked;
    let score = state.score;
    agent.run(&mut state);
    assert_eq!(agent.asked, asked);
    assert_eq!(state.score, score);
}

#[test]
fn the_random_agent_plays_a_game_to_its_end() {
    let mut state = TetrisState::new();
    let mut agent = RandomAgent::new();
    agent.run(&mut state);
    assert!(state.is_over);
    assert!(state.score >= 1);
}

#[test]
fn the_search_agent_plays_a_game_to_its_end() {
    let mut state = TetrisState::new();
    let mut agent = GeneticAgent { weights: [0, -1000, 0, 0] };
    agent.run(&mut state);
    assert!(state.is_over);
    assert!(state.score >= 1);
}

#[test]
fn evaluation_adds_up_the_games() {
    let mut state = TetrisState::new();
    let mut agent = Stubborn { key: None, asked: 0 };
    let total = agent.evaluate(&mut state, 5);
    assert!(total >= 20);
    assert!(agent.asked as u64 >= total);
    assert_eq!(state.score, 0);
    assert_eq!(state.drop_count, 0);
    assert!(!state.is_over);
}
