use neuroflap::generation::{game_over, Settings};
use neuroflap::genetics::MUTATION_STEP;
use neuroflap::pipe::{move_pipes, Pipe};
use neuroflap::player::{death, jump, physics, spawn, Player};

const TICK: u64 = 16_000_000;

fn run_generation(
    players: &mut Vec<Player>,
    pipes: &mut Vec<Pipe>,
    countdown: &mut i64,
    settings: &Settings,
) -> u64 {
    let mut ticks = 0u64;
    loop {
        if let Some(pipe) = neuroflap::pipe::spawn(countdown, TICK) {
            pipes.push(pipe);
        }
        move_pipes(pipes, TICK);
        let before: Vec<u64> = players.iter().map(|p| p.score).collect();
        physics(players, TICK);
        jump(players, pipes);
        death(players, pipes);
        for (player, score) in players.iter().zip(before.iter()) {
            assert!(player.score >= *score);
        }
        ticks += 1;
        if ticks == 20_000 {
            for player in players.iter_mut() {
                player.is_dead = true;
            }
        }
        if game_over(players, pipes, settings) {
            return ticks;
        }
    }
}

#[test]
fn generations_follow_one_another() {
    let settings = Settings {
        elite_count: 5,
        offspring_per_elite: 4,
        fresh_count: 10,
        carry_forward: 3,
        mutation_step: MUTATION_STEP,
    };
    let mut players = spawn(50);
    let mut pipes: Vec<Pipe> = Vec::new();
    let mut countdown = 0i64;
    for _ in 0..6 {
        let ticks = run_generation(&mut players, &mut pipes, &mut countdown, &settings);
        assert!(ticks > 0);
        assert!(pipes.is_empty());
        assert_eq!(players.len(), 5 * 4 + 10 + 3 + 1);
        for player in players.iter() {
            assert_eq!(player.position, 0);
            assert_eq!(player.velocity, 0);
            assert_eq!(player.score, 0);
            assert!(!player.is_dead);
        }
    }
}

#[test]
fn without_pipes_nobody_dies() {
    let mut players = spawn(8);
    let mut pipes: Vec<Pipe> = Vec::new();
    for tick in 1..=50u64 {
        physics(&mut players, TICK);
        assert!(players.iter().all(|p| p.velocity == -64_000_000_000));
        assert!(players.iter().all(|p| p.position == -1_024_000_000));
        jump(&mut players, &pipes);
        death(&mut players, &pipes);
        assert!(players.iter().all(|p| !p.is_dead && p.position == 0 && p.velocity == 0));
        assert!(players.iter().all(|p| p.score == tick * TICK));
        assert!(!game_over(&mut players, &mut pipes, &Settings::standard()));
    }
    assert_eq!(players.len(), 8);
}

#[test]
fn a_tick_is_physics_then_jump_then_death() {
    let pipes = vec![
        Pipe { height: 30_000_000_000, position: 400_000_000_000 },
        Pipe { height: -90_000_000_000, position: -480_000_000_000 },
    ];
    let mut players: Vec<Player> = Vec::new();
    for i in 0..60i64 {
        let mut player = Player::new(neuroflap::genetics::Brain::random());
        player.position = (i - 30) * 12_000_000_000;
        player.velocity = (i % 7 - 3) * 100_000_000_000;
        player.score = i as u64;
        player.is_dead = i % 11 == 0;
        players.push(player);
    }
    players[1].is_dead = false;
    players[1].position = 0;
    let mut stepwise = players.clone();
    physics(&mut stepwise, TICK);
    jump(&mut stepwise, &pipes);
    death(&mut stepwise, &pipes);
    assert!(stepwise.iter().any(|p| !p.is_dead));
    let mut at_once = players.clone();
    let mut course = pipes.clone();
    assert!(!neuroflap::generation::tick(&mut at_once, &mut course, TICK, &Settings::standard()));
    assert_eq!(at_once, stepwise);
    assert_eq!(course, pipes);
}

#[test]
fn a_tick_ends_the_generation_when_the_last_player_dies() {
    let settings = Settings {
        elite_count: 2,
        offspring_per_elite: 3,
        fresh_count: 4,
        carry_forward: 1,
        mutation_step: MUTATION_STEP,
    };
    let mut players = spawn(5);
    for (i, player) in players.iter_mut().enumerate() {
        player.position = 349_000_000_000;
        player.velocity = 1_400_000_000_000;
        player.score = 10 * i as u64;
    }
    let mut pipes = vec![Pipe { height: 0, position: 1_500_000_000_000 }];
    assert!(neuroflap::generation::tick(&mut players, &mut pipes, TICK, &settings));
    assert!(pipes.is_empty());
    assert_eq!(players.len(), 2 * 3 + 4 + 1 + 1);
    assert!(players.iter().all(|p| *p == Player::new(p.brain)));
    let mut nobody: Vec<Player> = Vec::new();
    let mut pipes = vec![Pipe { height: 0, position: 0 }];
    assert!(!neuroflap::generation::tick(&mut nobody, &mut pipes, TICK, &settings));
    assert!(nobody.is_empty());
    assert_eq!(pipes.len(), 1);
}
