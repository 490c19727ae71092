use snake_game::snake::Snake;
use snake_game::world::{GameError, World, MAX_DIM};

fn world_with(snake: Snake, size: (usize, usize), food: (isize, isize), reward: usize) -> World {
    World {
        snake,
        size,
        food_position: food,
        score: 0,
        speed: 1,
        reward,
        paused: false,
    }
}

#[test]
fn five_forward_steps_keep_length() {
    // Grid 20x20, snake of length 3 moving right, no food in its path.
    let snake = Snake::new((10, 5), 1, 3);
    assert_eq!(snake.blocks, vec![(10, 5), (10, 4), (10, 3)]);
    let mut world = world_with(snake, (20, 20), (0, 0), 1);
    for step in 1..=5isize {
        world.move_snake().unwrap();
        assert_eq!(world.snake.blocks.len(), 3);
        assert_eq!(world.snake.blocks[0], (10, 5 + step));
        assert!(world.snake.is_alive);
    }
    assert_eq!(world.score, 0);
    assert_eq!(world.speed, 1);
    assert_eq!(world.food_position, (0, 0));
}

#[test]
fn wrap_left_edge() {
    let snake = Snake::new((5, 0), 3, 3);
    assert_eq!(snake.blocks, vec![(5, 0), (5, 1), (5, 2)]);
    let mut world = world_with(snake, (20, 20), (0, 0), 1);
    world.move_snake().unwrap();
    assert_eq!(world.snake.blocks[0], (5, 19));
    assert!(world.snake.is_alive);
}

#[test]
fn wrap_top_edge() {
    let snake = Snake::new((0, 5), 0, 3);
    assert_eq!(snake.blocks, vec![(0, 5), (1, 5), (2, 5)]);
    let mut world = world_with(snake, (20, 20), (9, 9), 1);
    world.move_snake().unwrap();
    assert_eq!(world.snake.blocks[0], (19, 5));
    assert!(world.snake.is_alive);
}

#[test]
fn eating_grows_scores_and_relocates_food() {
    // Food directly ahead of the head; one move eats it.
    let snake = Snake::new((10, 10), 1, 3);
    let mut world = world_with(snake, (20, 20), (10, 11), 1);
    world.move_snake().unwrap();
    assert_eq!(world.score, 1);
    assert_eq!(world.speed, 2);
    assert_eq!(world.snake.blocks.len(), 4);
    assert_eq!(world.snake.blocks[0], (10, 11));
    // The vacated tail grew back.
    assert_eq!(world.snake.blocks[3], (10, 8));
    // Fresh food is on the grid and off the snake.
    let f = world.food_position;
    assert!(0 <= f.0 && f.0 < 20 && 0 <= f.1 && f.1 < 20);
    assert!(!world.snake.blocks.contains(&f));
}

#[test]
fn self_collision_kills_and_is_terminal() {
    // A hooked body; stepping right lands on a cell the body still holds.
    let snake = Snake {
        is_alive: true,
        blocks: vec![(5, 5), (4, 5), (4, 6), (5, 6), (6, 6)],
        direction: 1,
    };
    let mut world = world_with(snake, (20, 20), (0, 0), 1);
    world.move_snake().unwrap();
    assert!(!world.snake.is_alive);
    assert_eq!(world.snake.blocks[0], (5, 6));
    let blocks = world.snake.blocks.clone();
    let (score, speed) = (world.score, world.speed);
    // Death is terminal: further moves change nothing.
    world.move_snake().unwrap();
    world.move_snake().unwrap();
    assert!(!world.snake.is_alive);
    assert_eq!(world.snake.blocks, blocks);
    assert_eq!(world.score, score);
    assert_eq!(world.speed, speed);
}

#[test]
fn opposite_turns_in_one_tick() {
    // Up is accepted, the immediate Down is rejected: direction stays Up.
    let snake = Snake::new((10, 10), 1, 3);
    let mut world = world_with(snake, (20, 20), (0, 0), 1);
    world.turn_snake(0);
    world.turn_snake(2);
    assert_eq!(world.snake.direction, 0);
}

#[test]
fn turn_rules_on_the_snake() {
    let mut snake = Snake::new((10, 10), 0, 2);
    snake.turn(2); // reverse: rejected
    assert_eq!(snake.direction, 0);
    snake.turn(0); // same direction: rejected
    assert_eq!(snake.direction, 0);
    snake.turn(1); // other axis: accepted
    assert_eq!(snake.direction, 1);
    snake.turn(3); // reverse again: rejected
    assert_eq!(snake.direction, 1);
    snake.turn(2); // other axis: accepted
    assert_eq!(snake.direction, 2);
}

#[test]
fn new_world_spawns_centered() {
    let world = World::new((20, 20), 3, 5).unwrap();
    assert_eq!(world.score, 0);
    assert_eq!(world.speed, 1);
    assert_eq!(world.reward, 5);
    assert!(!world.paused);
    assert!(world.snake.is_alive);
    assert!(world.snake.direction < 4);
    assert_eq!(world.snake.blocks.len(), 3);
    let head = world.snake.blocks[0];
    assert!(3 <= head.0 && head.0 <= 15);
    assert!(3 <= head.1 && head.1 <= 15);
    for b in world.snake.blocks.iter() {
        assert!(0 <= b.0 && b.0 < 20 && 0 <= b.1 && b.1 < 20);
    }
    let f = world.food_position;
    assert!(0 <= f.0 && f.0 < 20 && 0 <= f.1 && f.1 < 20);
    assert!(!world.snake.blocks.contains(&f));
}

#[test]
fn new_world_rejects_bad_configs() {
    // Snake too long for the centered spawn band.
    assert!(matches!(World::new((20, 20), 10, 1), Err(GameError::InvalidConfig)));
    // Snake too short to move.
    assert!(matches!(World::new((20, 20), 1, 1), Err(GameError::InvalidConfig)));
    // Grid too large.
    assert!(matches!(World::new((MAX_DIM + 1, 20), 3, 1), Err(GameError::InvalidConfig)));
    // Smallest grid the band allows.
    assert!(World::new((6, 6), 2, 1).is_ok());
}

#[test]
fn food_exhausted_when_snake_covers_grid() {
    // On a 2x2 grid, eating the last free cell fills the grid entirely.
    let snake = Snake {
        is_alive: true,
        blocks: vec![(0, 0), (0, 1), (1, 1)],
        direction: 2,
    };
    let mut world = world_with(snake, (2, 2), (1, 0), 1);
    assert_eq!(world.move_snake(), Err(GameError::FoodPlacementExhausted));
    assert_eq!(world.score, 1);
    assert_eq!(world.speed, 2);
    assert_eq!(world.snake.blocks.len(), 4);
    assert!(world.snake.is_alive);
}

#[test]
fn get_state_renders_codes() {
    let snake = Snake {
        is_alive: true,
        blocks: vec![(2, 2), (2, 1)],
        direction: 1,
    };
    let world = world_with(snake, (5, 6), (0, 3), 1);
    let grid = world.get_state();
    assert_eq!(grid.len(), 5);
    for row in grid.iter() {
        assert_eq!(row.len(), 6);
    }
    assert_eq!(grid[2][2], 2);
    assert_eq!(grid[2][1], 1);
    assert_eq!(grid[0][3], 3);
    assert_eq!(grid[1][1], 0);
    assert_eq!(grid[4][5], 0);
}

#[test]
fn pause_freezes_turns_and_moves() {
    let snake = Snake::new((10, 10), 1, 3);
    let mut world = world_with(snake, (20, 20), (0, 0), 1);
    world.pause();
    assert!(world.paused);
    world.turn_snake(0);
    assert_eq!(world.snake.direction, 1);
    world.move_snake().unwrap();
    assert_eq!(world.snake.blocks[0], (10, 10));
    assert_eq!(world.snake.blocks.len(), 3);
    world.pause();
    assert!(!world.paused);
    world.move_snake().unwrap();
    assert_eq!(world.snake.blocks[0], (10, 11));
}
