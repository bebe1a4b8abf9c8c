use asterbase::constants;
use asterbase::data_collection::{DataCollection, Msg};
use asterbase::file_buffer::{FileBuffer, LoadError};
use asterbase::game::Game;
use asterbase::player::Player;
use asterbase::player_items::Pending;

const DIRECTIONS: [(u32, &str); 12] = [
    (constants::COMMAND_ID_NORTH, "north"),
    (constants::COMMAND_ID_SOUTH, "south"),
    (constants::COMMAND_ID_EAST, "east"),
    (constants::COMMAND_ID_WEST, "west"),
    (constants::COMMAND_ID_NORTHEAST, "northeast"),
    (constants::COMMAND_ID_SOUTHWEST, "southwest"),
    (constants::COMMAND_ID_SOUTHEAST, "southeast"),
    (constants::COMMAND_ID_NORTHWEST, "northwest"),
    (constants::COMMAND_ID_UP, "up"),
    (constants::COMMAND_ID_DOWN, "down"),
    (constants::COMMAND_ID_OUT, "out"),
    (constants::COMMAND_ID_BACK, "back"),
];

fn command_lines() -> Vec<String> {
    let mut lines = Vec::new();
    for tag in 0..constants::EXPECTED_COMMANDS {
        if let Some((_, name)) = DIRECTIONS.iter().find(|(t, _)| *t == tag) {
            lines.push(format!("{}\t4\t{}", tag, name));
        } else if tag == constants::COMMAND_ID_LOOK {
            lines.push(format!("{}\t2\tlook\tl", tag));
        } else if tag == constants::COMMAND_ID_QUIT {
            lines.push(format!("{}\t0\tquit", tag));
        } else if tag == constants::COMMAND_ID_TAKE {
            lines.push(format!("{}\t31\ttake\tget", tag));
        } else if tag == constants::COMMAND_ID_LIGHT {
            lines.push(format!("{}\t11\tlight", tag));
        } else if tag == constants::COMMAND_ID_QUENCH {
            lines.push(format!("{}\t11\tquench", tag));
        } else if tag == constants::COMMAND_ID_DROP {
            lines.push(format!("{}\t9\tdrop", tag));
        } else if tag == constants::COMMAND_ID_HINT {
            lines.push(format!("{}\t2\thint", tag));
        } else {
            lines.push(format!("{}\t2\tcmd{}", tag, tag));
        }
    }
    lines
}

fn location_lines() -> Vec<String> {
    let mut lines = Vec::new();
    for id in 0..constants::EXPECTED_LOCATIONS {
        let mut links = vec![0u32; 10];
        if id == 9 {
            links[0] = 10;
        }
        if id == 10 {
            links[4] = 9;
            links[2] = 20;
        }
        let props = if id == 20 { "70d" } else { "70f" };
        let link_text: Vec<String> = links.iter().map(|l| l.to_string()).collect();
        lines.push(format!("{}\t{}\t{}\tloc{}\tLocation {}\tYou are in room {}.\tIt is quiet.\tIt is loud.",
            id, link_text.join("\t"), props, id, id, id));
    }
    lines
}

fn item_lines() -> Vec<String> {
    let mut lines = Vec::new();
    for k in 0..constants::EXPECTED_ITEMS {
        let id = constants::ITEM_INDEX_START + k;
        let (props, place, name) = if id == 1101 {
            ("2", 9, "key".to_string())
        } else if id == 1102 {
            ("a", 9, "torch".to_string())
        } else if (1106..=1108).contains(&id) {
            ("8000", constants::LOCATION_ID_TREASURESTORE, format!("gem{}", k))
        } else {
            ("0", 1, format!("thing{}", k))
        };
        lines.push(format!("{}\t{}\t{}\t1\t{}\ta {}\tIt is a {}.\t0", id, props, place, name, name, name));
    }
    lines
}

fn numbered(count: u32, word: &str) -> Vec<String> {
    (0..count).map(|k| format!("{}\t{} {} $0", k, word, k)).collect()
}

fn sections(parts: Vec<Vec<String>>) -> String {
    let joined: Vec<String> = parts.into_iter().map(|p| p.join("\n")).collect();
    // the last line of the data is never read, so a separator closes the file
    joined.join("\n---\n") + "\n---\n"
}

fn standard_parts() -> Vec<Vec<String>> {
    vec![
        command_lines(),
        location_lines(),
        item_lines(),
        vec!["default\tNo hint here.".to_string(), "lamp\tLight the lamp.".to_string()],
        vec!["default\tNothing to explain.".to_string()],
        numbered(constants::EXPECTED_STRINGS_RESPONSES, "Response"),
        numbered(constants::EXPECTED_STRINGS_PUZZLES, "Puzzle"),
        vec!["0\tA bird sings.".to_string(), "1\tThunder rolls.".to_string()],
    ]
}

fn load(text: &str) -> (DataCollection, Result<(), LoadError>) {
    let mut buffer = FileBuffer { data: text.chars().collect(), index: 0 };
    let mut data = DataCollection::new();
    let res = data.try_init(&mut buffer);
    (data, res)
}

fn loaded() -> DataCollection {
    let (data, res) = load(&sections(standard_parts()));
    assert!(res.is_ok());
    data
}

fn new_game() -> Game {
    let data = loaded();
    let player = Player::new(constants::LOCATION_ID_WAKE_INITIAL, constants::INVENTORY_ID_MAIN);
    Game::new(data, player)
}

fn words(line: &[&str]) -> Vec<String> {
    line.iter().map(|w| w.to_string()).collect()
}

fn response_ids(out: &[Msg]) -> Vec<u32> {
    out.iter()
        .filter_map(|m| match m {
            Msg::Response(k) => Some(*k),
            Msg::ResponseParam(k, _) => Some(*k),
            _ => None,
        })
        .collect()
}

#[test]
fn loads_a_complete_file() {
    let data = loaded();
    assert_eq!(data.items.items.len(), constants::EXPECTED_ITEMS as usize);
    assert_eq!(data.locations.locations.len(), constants::EXPECTED_LOCATIONS as usize);
    assert_eq!(data.inventories.len(), 3);
    assert_eq!(data.inventories[0].id, constants::INVENTORY_ID_MAIN);
    assert_eq!(data.inventories[2].id, constants::INVENTORY_ID_DREAM);
    // three treasure lines and all the puzzles
    assert_eq!(data.get_max_score(), 3 * constants::SCORE_TREASURE + constants::EXPECTED_STRINGS_PUZZLES * constants::SCORE_PUZZLE);
    assert_eq!(data.get_stowed_treasure_count(), 3);
    assert_eq!(data.get_response(3), "Response 3 $0");
    assert_eq!(data.get_hint_certain("lamp"), "Light the lamp.");
    assert_eq!(data.get_explanation("nothing"), "Nothing to explain.");
}

#[test]
fn event_turns_are_distinct_and_in_range() {
    let data = loaded();
    assert_eq!(data.event_turns.len(), 2);
    for (turn, _) in data.event_turns.iter() {
        assert!(*turn >= constants::MIN_MOVES_EVENT && *turn < constants::MAX_MOVES_EVENT);
    }
    assert_ne!(data.event_turns[0].0, data.event_turns[1].0);
    assert_eq!(data.event_turns[0].1, 0);
    assert_eq!(data.event_turns[1].1, 1);
}

#[test]
fn event_turns_are_drawn_at_random() {
    let mut always_lowest = true;
    for _ in 0..20 {
        let data = loaded();
        if data.event_turns[0].0 != constants::MIN_MOVES_EVENT || data.event_turns[1].0 != constants::MIN_MOVES_EVENT + 1 {
            always_lowest = false;
        }
    }
    assert!(!always_lowest);
}

#[test]
fn too_many_events_are_refused() {
    let mut parts = standard_parts();
    parts[7] = (0..200).map(|k| format!("{}\tEvent {}", k, k)).collect();
    let (_, res) = load(&sections(parts));
    assert!(matches!(res, Err(LoadError::BadSection)));
}

#[test]
fn teleports_are_set_up() {
    let data = loaded();
    assert_eq!(data.tp_map_sleep, vec![
        (constants::LOCATION_ID_SLEEP_0, (constants::LOCATION_ID_SLEEP_1, constants::INVENTORY_ID_DREAM)),
        (constants::LOCATION_ID_SLEEP_2, (constants::LOCATION_ID_SLEEP_0, constants::INVENTORY_ID_MAIN)),
    ]);
    assert_eq!(data.tp_map_witch.len(), 2);
    assert_eq!(asterbase::data_collection::tp_get(&data.tp_map_witch, constants::LOCATION_ID_WITCH_1),
        Some((constants::LOCATION_ID_WITCH_0, constants::INVENTORY_ID_MAIN)));
}

#[test]
fn command_line_without_name_is_missing_a_field() {
    let mut parts = standard_parts();
    parts[0][5] = "5\t2".to_string();
    let (_, res) = load(&sections(parts));
    assert!(matches!(res, Err(LoadError::MissingField)));
}

#[test]
fn command_tag_that_is_no_number_is_refused() {
    let mut parts = standard_parts();
    parts[0][5] = "five\t2\tcmd5".to_string();
    let (_, res) = load(&sections(parts));
    assert!(matches!(res, Err(LoadError::BadNumber)));
}

#[test]
fn missing_command_is_a_bad_section() {
    let mut parts = standard_parts();
    parts[0].pop();
    let (_, res) = load(&sections(parts));
    assert!(matches!(res, Err(LoadError::BadSection)));
}

#[test]
fn exit_to_unknown_location_is_a_bad_reference() {
    let mut parts = standard_parts();
    parts[1][3] = "3\t999\t0\t0\t0\t0\t0\t0\t0\t0\t0\t70f\tloc3\tLocation 3\tRoom.\tQuiet.\tLoud.".to_string();
    let (_, res) = load(&sections(parts));
    assert!(matches!(res, Err(LoadError::BadReference)));
}

#[test]
fn missing_default_hint_is_a_bad_section() {
    let mut parts = standard_parts();
    parts[3] = vec!["lamp\tLight the lamp.".to_string()];
    let (_, res) = load(&sections(parts));
    assert!(matches!(res, Err(LoadError::BadSection)));
}

#[test]
fn blank_line_does_nothing() {
    let mut game = new_game();
    let mut out = Vec::new();
    game.process_input(&Vec::new(), &mut out);
    assert!(out.is_empty());
    assert_eq!(game.player.instructions, 0);
}

#[test]
fn unknown_instruction_is_not_understood() {
    let mut game = new_game();
    let mut out = Vec::new();
    game.process_input(&words(&["frobnicate"]), &mut out);
    assert_eq!(response_ids(&out), vec![constants::STR_ID_NO_UNDERSTAND_INSTRUCTION]);
    assert_eq!(game.player.instructions, 1);
}

#[test]
fn moving_north_changes_location() {
    let mut game = new_game();
    let mut out = Vec::new();
    game.process_input(&words(&["north"]), &mut out);
    assert_eq!(game.player.location, 10);
    assert!(!out.is_empty());
}

#[test]
fn noun_verb_order_works_for_invertible_commands() {
    let mut game = new_game();
    let mut out = Vec::new();
    game.process_input(&words(&["key", "take"]), &mut out);
    assert!(game.data.inv_has(constants::INVENTORY_ID_MAIN, 1101));
    let mut game2 = new_game();
    let mut out2 = Vec::new();
    game2.process_input(&words(&["get", "key"]), &mut out2);
    assert!(game2.data.inv_has(constants::INVENTORY_ID_MAIN, 1101));
}

#[test]
fn quitting_asks_and_a_yes_ends_the_game() {
    let mut game = new_game();
    let mut out = Vec::new();
    game.process_input(&words(&["quit"]), &mut out);
    let q = game.question().expect("a question");
    assert!(matches!(q.pending, Pending::Quit));
    out.clear();
    game.answer_yes_no("perhaps", &mut out);
    assert_eq!(response_ids(&out), vec![constants::STR_ID_NO_UNDERSTAND_SELECTION]);
    assert!(game.question().is_some());
    out.clear();
    game.answer_yes_no("y", &mut out);
    assert!(!game.is_playing());
    assert!(game.question().is_none());
}

#[test]
fn declining_to_quit_goes_on() {
    let mut game = new_game();
    let mut out = Vec::new();
    game.process_input(&words(&["quit"]), &mut out);
    out.clear();
    game.answer_yes_no("no", &mut out);
    assert!(game.is_playing());
    assert_eq!(response_ids(&out), vec![constants::STR_ID_OK]);
}

#[test]
fn suffocation_kills_and_reincarnation_revives() {
    let mut game = new_game();
    game.player.location = 20;
    let mut out = Vec::new();
    game.end_turn(&mut out);
    let ids = response_ids(&out);
    assert_eq!(ids[0], constants::STR_ID_SUFFOCATE);
    assert_eq!(*ids.last().unwrap(), constants::STR_ID_DEAD);
    assert!(!game.player.alive);
    assert_eq!(game.player.deaths, 1);
    assert!(matches!(game.question().unwrap().pending, Pending::Reincarnate));
    out.clear();
    game.answer_yes_no("yes", &mut out);
    assert!(game.player.alive);
    assert_eq!(game.player.location, constants::LOCATION_ID_WAKE_INITIAL);
    assert_eq!(response_ids(&out), vec![constants::STR_ID_REINCARNATE_DO]);
}

#[test]
fn declining_reincarnation_ends_the_game() {
    let mut game = new_game();
    game.player.location = 20;
    let mut out = Vec::new();
    game.end_turn(&mut out);
    out.clear();
    game.answer_yes_no("false", &mut out);
    assert!(!game.is_playing());
}

#[test]
fn an_event_is_told_once_on_its_turn() {
    let mut game = new_game();
    let turn = game.data.event_turns[0].0;
    game.player.instructions = turn;
    let mut out = Vec::new();
    game.end_turn(&mut out);
    assert_eq!(out.len(), 1);
    match &out[0] {
        Msg::Text(t) => assert_eq!(t, "A bird sings."),
        _ => panic!("expected the event"),
    }
    out.clear();
    game.end_turn(&mut out);
    assert!(out.is_empty());
}

#[test]
fn a_hint_is_given_after_confirmation_and_counted() {
    let mut game = new_game();
    let mut out = Vec::new();
    game.process_input(&words(&["hint", "lamp"]), &mut out);
    assert_eq!(response_ids(&out), vec![constants::STR_ID_HINT_FOUND]);
    out.clear();
    game.answer_yes_no("yes", &mut out);
    assert_eq!(game.player.hints, 1);
    match &out[0] {
        Msg::Text(t) => assert_eq!(t, "Light the lamp."),
        _ => panic!("expected the hint"),
    }
}

#[test]
fn put_then_found() {
    let mut data = loaded();
    data.loc_insert(12, 1005);
    assert!(data.loc_has(12, 1005));
}

#[test]
fn rendering_fills_the_parameter() {
    let data = loaded();
    let text = data.render(&Msg::ResponseParam(7, "lamp".to_string()));
    assert_eq!(text, "Response 7 lamp");
    assert_eq!(data.render(&Msg::Response(7)), "Response 7 $0");
}

fn points_in(score: &str) -> String {
    let marker = format!("Response {} ", constants::STR_ID_SCORE_POINTS);
    let rest = &score[score.find(&marker).unwrap() + marker.len()..];
    rest.chars().take_while(|c| c.is_ascii_digit()).collect()
}

#[test]
fn final_score_counts_the_stowed_treasures() {
    let game = new_game();
    let score = game.final_score();
    assert!(score.starts_with(&format!("Response {} ", constants::STR_ID_SCORE_FINAL)));
    assert_eq!(points_in(&score), "30");
}

#[test]
fn a_hint_costs_points() {
    let mut game = new_game();
    let mut out = Vec::new();
    game.process_input(&words(&["hint", "lamp"]), &mut out);
    game.answer_yes_no("yes", &mut out);
    assert_eq!(points_in(&game.final_score()), "20");
}

#[test]
fn a_death_costs_points() {
    let mut game = new_game();
    game.player.location = 20;
    let mut out = Vec::new();
    game.end_turn(&mut out);
    assert_eq!(points_in(&game.final_score()), "5");
}

#[test]
fn stow_then_carried() {
    let mut data = loaded();
    data.inv_insert(constants::INVENTORY_ID_CHASM, 1007);
    assert!(data.inv_has(constants::INVENTORY_ID_CHASM, 1007));
    assert!(!data.inv_has(constants::INVENTORY_ID_MAIN, 1007));
}

#[test]
fn take_then_drop_leaves_the_item_here() {
    let mut game = new_game();
    let mut out = Vec::new();
    game.process_input(&words(&["take", "key"]), &mut out);
    game.end_turn(&mut out);
    assert!(game.data.inv_has(constants::INVENTORY_ID_MAIN, 1101));
    game.process_input(&words(&["drop", "key"]), &mut out);
    assert!(!game.data.inv_has(constants::INVENTORY_ID_MAIN, 1101));
    assert!(game.data.loc_has(constants::LOCATION_ID_WAKE_INITIAL, 1101));
}

#[test]
fn light_then_quench_leaves_the_torch_off() {
    let mut game = new_game();
    let mut out = Vec::new();
    game.process_input(&words(&["light", "torch"]), &mut out);
    assert!(game.data.items.items[102].on);
    assert_eq!(response_ids(&out), vec![constants::STR_ID_DONE]);
    out.clear();
    game.process_input(&words(&["quench", "torch"]), &mut out);
    assert!(!game.data.items.items[102].on);
    assert_eq!(response_ids(&out), vec![constants::STR_ID_DONE]);
}

#[test]
fn a_direction_tag_without_the_movement_flag_loads() {
    let mut parts = standard_parts();
    let k = constants::COMMAND_ID_OUT as usize;
    parts[0][k] = format!("{}\t2\tout", constants::COMMAND_ID_OUT);
    let (data, res) = load(&sections(parts));
    assert!(res.is_ok());
    assert!(data.get_command("out").is_some());
}

#[test]
fn the_movement_flag_on_a_tag_without_direction_is_refused() {
    let mut parts = standard_parts();
    let k = constants::COMMAND_ID_LOOK as usize;
    parts[0][k] = format!("{}\t6\tlook", constants::COMMAND_ID_LOOK);
    let (_, res) = load(&sections(parts));
    assert!(matches!(res, Err(LoadError::BadSection)));
}

#[test]
fn an_item_can_start_within_the_alien() {
    let mut parts = standard_parts();
    parts[2][0] = format!("{}\t1\t1\t1\talien\ta alien\tIt is a alien.\t0", constants::ITEM_ID_ALIEN);
    parts[2][101] = format!("{}\t2\t{}\t1\tkey\ta key\tIt is a key.\t0", 1101, constants::ITEM_ID_ALIEN);
    let (data, res) = load(&sections(parts));
    assert!(res.is_ok());
    let alien = data.items.get_by_id(constants::ITEM_ID_ALIEN).unwrap();
    assert_eq!(alien.within, Some(1101));
    assert!(alien.contains_item(&data.items, 1101));
}

#[test]
fn a_property_that_needs_the_item_on_counts_only_when_it_is_on() {
    let mut parts = standard_parts();
    parts[2][103] = format!("{}\t10\t9\t1\tlamp\ta lamp\tIt is a lamp.\t0", 1103);
    let (data, res) = load(&sections(parts));
    assert!(res.is_ok());
    let lamp = data.items.get_by_id(1103).unwrap();
    assert!(!lamp.is_on());
    assert!(lamp.has_or_contains_with_property(&data.items, constants::CTRL_ITEM_GIVES_LIGHT, false));
    assert!(!lamp.has_or_contains_with_property(&data.items, constants::CTRL_ITEM_GIVES_LIGHT, true));
}

#[test]
fn a_data_file_that_loads_whole_loads_without_a_result() {
    let text = sections(standard_parts());
    let mut buffer = FileBuffer { data: text.chars().collect(), index: 0 };
    let mut data = DataCollection::new();
    data.init(&mut buffer);
    assert!(data.get_command("look").is_some());
    assert!(data.items.get_by_id(1102).is_some());
}

fn dark_room_parts() -> Vec<Vec<String>> {
    let mut parts = standard_parts();
    parts[1][30] = parts[1][30].replacen("\t70f\t", "\t70e\t", 1);
    parts[2][103] = format!("{}\t1a\t30\t1\tlamp\ta lamp\tIt is a lamp.\t0", 1103);
    parts[2][104] = format!("{}\t22\t1\t1\tmask\ta mask\tIt is a mask.\t0", 1104);
    parts
}

#[test]
fn a_lamp_gives_light_only_when_switched_on() {
    let (data, res) = load(&sections(dark_room_parts()));
    assert!(res.is_ok());
    let mut game = Game::new(data, Player::new(30, constants::INVENTORY_ID_MAIN));
    assert!(!game.player.has_light(&game.data));
    game.data.items.items[103].on = true;
    assert!(game.player.has_light(&game.data));
    game.data.items.items[103].on = false;
    game.data.loc_remove(30, 1103);
    game.data.inv_insert(constants::INVENTORY_ID_MAIN, 1103);
    assert!(!game.player.has_light(&game.data));
    game.data.items.items[103].on = true;
    assert!(game.player.has_light(&game.data));
}

#[test]
fn an_item_that_gives_air_needs_no_switching() {
    let (data, res) = load(&sections(dark_room_parts()));
    assert!(res.is_ok());
    let mut game = Game::new(data, Player::new(20, constants::INVENTORY_ID_MAIN));
    assert!(!game.player.has_air(&game.data));
    game.data.inv_insert(constants::INVENTORY_ID_MAIN, 1104);
    assert!(!game.data.items.items[104].on);
    assert!(game.player.has_air(&game.data));
    let mut out = Vec::new();
    game.end_turn(&mut out);
    assert!(game.player.alive);
}
