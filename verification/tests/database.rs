use videojocs::database::{
    can_assign_id, create_game, delete_game, get_next_id, initialize, read_game_by_corporation,
    read_game_by_id, read_games, update_game, StoreError, VideoGame, VideoGameCreate,
};

fn game(id: i32, title: &str, year: &str, mode: &str, company: &str) -> VideoGame {
    VideoGame {
        id,
        title: title.to_string(),
        year: year.to_string(),
        mode: mode.to_string(),
        company: company.to_string(),
    }
}

fn candidate(title: &str, year: &str, mode: &str, company: &str) -> VideoGameCreate {
    VideoGameCreate {
        title: title.to_string(),
        year: year.to_string(),
        mode: mode.to_string(),
        company: company.to_string(),
    }
}

fn seeded() -> Vec<VideoGame> {
    initialize(&Vec::new()).expect("an empty catalog is seeded")
}

fn ids(games: &[VideoGame]) -> Vec<i32> {
    games.iter().map(|game| game.id).collect()
}

#[test]
fn next_id_of_empty_collection_is_one() {
    assert_eq!(get_next_id(&Vec::new()), 1);
}

#[test]
fn next_id_is_one_more_than_largest() {
    let games = vec![
        game(4, "a", "1", "m", "c"),
        game(9, "b", "2", "m", "c"),
        game(2, "c", "3", "m", "c"),
    ];
    assert_eq!(get_next_id(&games), 10);
}

#[test]
fn next_id_with_single_record() {
    assert_eq!(get_next_id(&vec![game(41, "a", "1", "m", "c")]), 42);
}

#[test]
fn next_id_with_negative_ids() {
    let games = vec![game(-7, "a", "1", "m", "c"), game(-3, "b", "2", "m", "c")];
    assert_eq!(get_next_id(&games), -2);
}

#[test]
fn next_id_with_repeated_largest() {
    let games = vec![game(5, "a", "1", "m", "c"), game(5, "b", "2", "m", "c")];
    assert_eq!(get_next_id(&games), 6);
}

#[test]
fn next_id_after_deleting_all_is_one_again() {
    let mut games = seeded();
    for id in [3, 1, 5, 2, 4] {
        games = delete_game(games, id);
    }
    assert!(games.is_empty());
    assert_eq!(get_next_id(&games), 1);
}

#[test]
fn id_can_be_assigned_below_the_limit() {
    assert!(can_assign_id(&Vec::new()));
    assert!(can_assign_id(&vec![game(i32::MAX - 1, "a", "1", "m", "c")]));
    assert_eq!(get_next_id(&vec![game(i32::MAX - 1, "a", "1", "m", "c")]), i32::MAX);
}

#[test]
fn id_cannot_be_assigned_at_the_limit() {
    let games = vec![game(1, "a", "1", "m", "c"), game(i32::MAX, "b", "2", "m", "c")];
    assert!(!can_assign_id(&games));
}

#[test]
fn from_takes_fields_and_next_id() {
    let games = vec![game(7, "a", "1", "m", "c")];
    let created = VideoGame::from(candidate("Tetris", "1984", "Puzzle", "Elorg"), &games);
    assert_eq!(created, game(8, "Tetris", "1984", "Puzzle", "Elorg"));
}

#[test]
fn from_on_empty_collection_gives_id_one() {
    let created = VideoGame::from(candidate("Tetris", "1984", "Puzzle", "Elorg"), &Vec::new());
    assert_eq!(created.id, 1);
}

#[test]
fn create_appends_at_the_end() {
    let games = vec![game(2, "a", "1", "m", "c"), game(1, "b", "2", "m", "d")];
    let stored = create_game(games.clone(), game(3, "c", "3", "m", "e"));
    assert_eq!(stored.len(), 3);
    assert_eq!(&stored[..2], &games[..]);
    assert_eq!(stored[2], game(3, "c", "3", "m", "e"));
}

#[test]
fn create_keeps_the_record_as_given() {
    let stored = create_game(vec![game(2, "a", "1", "m", "c")], game(2, "x", "y", "z", "w"));
    assert_eq!(ids(&stored), vec![2, 2]);
}

#[test]
fn created_ids_are_distinct_and_increase() {
    let mut games: Vec<VideoGame> = Vec::new();
    for n in 0..20 {
        let title = format!("game {}", n);
        let created = VideoGame::from(candidate(&title, "2000", "m", "c"), &games);
        games = create_game(games, created);
    }
    assert_eq!(ids(&games), (1..=20).collect::<Vec<i32>>());
    for n in 0..20 {
        assert_eq!(games[n].title, format!("game {}", n));
    }
}

#[test]
fn created_ids_exceed_those_present() {
    let mut games = vec![game(10, "a", "1", "m", "c"), game(3, "b", "2", "m", "c")];
    for _ in 0..3 {
        let created = VideoGame::from(candidate("t", "y", "m", "c"), &games);
        games = create_game(games, created);
    }
    assert_eq!(ids(&games), vec![10, 3, 11, 12, 13]);
}

#[test]
fn read_games_gives_what_was_decoded() {
    let games = vec![game(2, "a", "1", "m", "c"), game(1, "b", "2", "m", "d")];
    assert_eq!(read_games(Some(games.clone())), games);
}

#[test]
fn read_games_without_decoded_collection_is_empty() {
    assert_eq!(read_games(None), Vec::<VideoGame>::new());
}

#[test]
fn read_games_keeps_an_empty_collection() {
    assert_eq!(read_games(Some(Vec::new())), Vec::<VideoGame>::new());
}

#[test]
fn read_by_id_finds_the_record() {
    let games = seeded();
    assert_eq!(
        read_game_by_id(games, 4),
        Some(game(4, "The Elder Scrolls V: Skyrim", "2011", "Rol", "Bethesda"))
    );
}

#[test]
fn read_by_id_gives_the_first_of_several() {
    let games = vec![
        game(1, "a", "1", "m", "c"),
        game(2, "first", "2", "m", "c"),
        game(2, "second", "3", "m", "c"),
    ];
    assert_eq!(read_game_by_id(games, 2), Some(game(2, "first", "2", "m", "c")));
}

#[test]
fn read_by_id_of_absent_id_is_none() {
    assert_eq!(read_game_by_id(seeded(), 6), None);
    assert_eq!(read_game_by_id(Vec::new(), 1), None);
}

#[test]
fn read_by_corporation_on_seed_finds_the_nintendo_record() {
    let found = read_game_by_corporation(seeded(), "Nintendo");
    assert_eq!(found.len(), 1);
    assert_eq!(found[0].title, "The Legend of Zelda: Breath of the Wild");
    assert_eq!(
        found[0],
        game(1, "The Legend of Zelda: Breath of the Wild", "2017", "Aventura", "Nintendo")
    );
}

#[test]
fn read_by_corporation_keeps_stored_order() {
    let found = read_game_by_corporation(seeded(), "Rockstar");
    assert_eq!(
        found,
        vec![
            game(3, "Red Dead Redemption 2", "2018", "Aventura", "Rockstar"),
            game(5, "Grand Theft Auto V", "2013", "Aventura", "Rockstar"),
        ]
    );
}

#[test]
fn read_by_corporation_matches_exactly() {
    assert!(read_game_by_corporation(seeded(), "nintendo").is_empty());
    assert!(read_game_by_corporation(seeded(), "Nintend").is_empty());
    assert!(read_game_by_corporation(seeded(), "Nintendo ").is_empty());
    assert!(read_game_by_corporation(seeded(), "").is_empty());
    assert!(read_game_by_corporation(Vec::new(), "Nintendo").is_empty());
}

#[test]
fn update_replaces_in_place() {
    let stored = update_game(seeded(), 2, game(2, "Cyberpunk 2077", "2020", "Rol", "CD Projekt"));
    let mut expected = seeded();
    expected[1] = game(2, "Cyberpunk 2077", "2020", "Rol", "CD Projekt");
    assert_eq!(stored, Ok(expected));
}

#[test]
fn update_may_change_the_stored_id() {
    let games = vec![game(1, "a", "1", "m", "c"), game(2, "b", "2", "m", "c")];
    let stored = update_game(games, 1, game(9, "z", "0", "m", "c")).unwrap();
    assert_eq!(stored, vec![game(9, "z", "0", "m", "c"), game(2, "b", "2", "m", "c")]);
}

#[test]
fn update_touches_only_the_first_of_several() {
    let games = vec![
        game(2, "first", "1", "m", "c"),
        game(1, "a", "2", "m", "c"),
        game(2, "second", "3", "m", "c"),
    ];
    let stored = update_game(games, 2, game(2, "new", "4", "m", "c")).unwrap();
    assert_eq!(
        stored,
        vec![
            game(2, "new", "4", "m", "c"),
            game(1, "a", "2", "m", "c"),
            game(2, "second", "3", "m", "c"),
        ]
    );
}

#[test]
fn update_of_absent_id_is_refused() {
    assert_eq!(
        update_game(seeded(), 6, game(6, "x", "y", "z", "w")),
        Err(StoreError::NotFound)
    );
    assert_eq!(
        update_game(Vec::new(), 1, game(1, "x", "y", "z", "w")),
        Err(StoreError::NotFound)
    );
}

#[test]
fn update_looks_for_the_searched_id_not_the_new_one() {
    let games = vec![game(1, "a", "1", "m", "c")];
    assert_eq!(update_game(games, 2, game(1, "x", "y", "z", "w")), Err(StoreError::NotFound));
}

#[test]
fn delete_removes_the_record() {
    let stored = delete_game(seeded(), 3);
    assert_eq!(ids(&stored), vec![1, 2, 4, 5]);
    assert_eq!(stored[2], seeded()[3]);
}

#[test]
fn delete_removes_every_record_with_the_id() {
    let games = vec![
        game(2, "first", "1", "m", "c"),
        game(1, "a", "2", "m", "c"),
        game(2, "second", "3", "m", "c"),
        game(3, "b", "4", "m", "c"),
    ];
    assert_eq!(
        delete_game(games, 2),
        vec![game(1, "a", "2", "m", "c"), game(3, "b", "4", "m", "c")]
    );
}

#[test]
fn delete_of_absent_id_changes_nothing() {
    assert_eq!(delete_game(seeded(), 6), seeded());
    assert_eq!(delete_game(Vec::new(), 1), Vec::<VideoGame>::new());
}

#[test]
fn delete_below_the_largest_keeps_the_next_id() {
    let stored = delete_game(seeded(), 2);
    assert_eq!(get_next_id(&stored), 6);
}

#[test]
fn delete_of_the_largest_lowers_the_next_id() {
    let stored = delete_game(seeded(), 5);
    assert_eq!(get_next_id(&stored), 5);
}

#[test]
fn initialize_seeds_an_empty_collection() {
    assert_eq!(
        initialize(&Vec::new()),
        Some(vec![
            game(1, "The Legend of Zelda: Breath of the Wild", "2017", "Aventura", "Nintendo"),
            game(2, "The Witcher 3: Wild Hunt", "2015", "Rol", "CD Projekt"),
            game(3, "Red Dead Redemption 2", "2018", "Aventura", "Rockstar"),
            game(4, "The Elder Scrolls V: Skyrim", "2011", "Rol", "Bethesda"),
            game(5, "Grand Theft Auto V", "2013", "Aventura", "Rockstar"),
        ])
    );
}

#[test]
fn initialize_leaves_a_filled_collection_alone() {
    assert_eq!(initialize(&vec![game(9, "a", "1", "m", "c")]), None);
    assert_eq!(initialize(&seeded()), None);
}

#[test]
fn seed_create_delete_create_does_not_reuse_an_id() {
    let games = seeded();
    assert_eq!(ids(&games), vec![1, 2, 3, 4, 5]);

    let created = VideoGame::from(candidate("X", "2020", "Y", "Z"), &games);
    assert_eq!(created, game(6, "X", "2020", "Y", "Z"));
    let games = create_game(games, created);

    let games = delete_game(games, 3);
    assert_eq!(ids(&games), vec![1, 2, 4, 5, 6]);

    let created = VideoGame::from(candidate("X", "2020", "Y", "Z"), &games);
    assert_eq!(created.id, 7);
    let games = create_game(games, created);
    assert_eq!(ids(&games), vec![1, 2, 4, 5, 6, 7]);
}

#[test]
fn created_record_is_found_by_its_id() {
    let games = seeded();
    let created = VideoGame::from(candidate("X", "2020", "Y", "Z"), &games);
    let games = create_game(games, created);
    assert_eq!(read_game_by_id(games, 6), Some(game(6, "X", "2020", "Y", "Z")));
}

#[test]
fn deleted_record_is_no_longer_found() {
    assert_eq!(read_game_by_id(delete_game(seeded(), 4), 4), None);
}
