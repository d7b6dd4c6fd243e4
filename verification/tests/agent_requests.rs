use smart_tavern::agent_requests::{
    check_turn_content, input_kind_of, candidate_filter, check_player_mode, check_session_world, check_world_name, compare_time_anchors,
    create_time_anchor, new_world_item, parse_detail_kind, session_kind_for, sort_agent_worlds,
    updated_turn_message, AgentSessionKind, AgentWorldListItem, CandidateFilter, CompareTimeAnchorsInput,
    CreateAgentWorldInput, CreateTimeAnchorInput, DetailKind, GetProvisionalCandidatesInput, PlayerMode,
};
use smart_tavern::json::JsonValue;
use smart_tavern::temporal_validator::{TimeAnchor, TimePrecision};

fn anchor(ordinal: i64) -> TimeAnchor {
    TimeAnchor {
        calendar_id: "default".to_string(),
        ordinal,
        precision: TimePrecision::Day,
        display_text: format!("day {}", ordinal),
    }
}

fn world(id: &str, updated: Option<&str>) -> AgentWorldListItem {
    AgentWorldListItem {
        world_id: id.to_string(),
        session_count: 1,
        active_session_count: 0,
        character_count: 2,
        mainline_time_anchor: None,
        updated_at: updated.map(|u| u.to_string()),
    }
}

#[test]
fn world_names_are_trimmed_and_required() {
    assert_eq!(check_world_name(&CreateAgentWorldInput { name: "  Realm ".to_string() }), Ok("Realm".to_string()));
    assert_eq!(
        check_world_name(&CreateAgentWorldInput { name: "   ".to_string() }),
        Err("World name must not be empty".to_string())
    );
    let item = new_world_item("realm-1".to_string(), anchor(5), "2024-01-01T00:00:00Z".to_string());
    assert_eq!((item.session_count, item.active_session_count, item.character_count), (0, 0, 0));
    assert_eq!(item.mainline_time_anchor.map(|a| a.ordinal), Some(5));
}

#[test]
fn worlds_are_listed_latest_first_then_by_id() {
    let sorted = sort_agent_worlds(vec![
        world("b", Some("2024-01-01")),
        world("z", None),
        world("c", Some("2024-03-01")),
        world("a", Some("2024-01-01")),
        world("y", None),
    ]);
    let ids: Vec<&str> = sorted.iter().map(|w| w.world_id.as_str()).collect();
    assert_eq!(ids, vec!["c", "a", "b", "y", "z"]);
}

#[test]
fn player_modes_must_match_the_character() {
    assert!(check_player_mode(PlayerMode::Character, &Some("hero".to_string())).is_ok());
    assert_eq!(
        check_player_mode(PlayerMode::Character, &None),
        Err("Character mode requires player_character_id".to_string())
    );
    assert!(check_player_mode(PlayerMode::Director, &None).is_ok());
    assert_eq!(
        check_player_mode(PlayerMode::Director, &Some("hero".to_string())),
        Err("Director mode must not have player_character_id".to_string())
    );
}

#[test]
fn sessions_stand_against_the_mainline() {
    assert_eq!(session_kind_for(3, 10), AgentSessionKind::Retrospective);
    assert_eq!(session_kind_for(12, 10), AgentSessionKind::FuturePreview);
    assert_eq!(session_kind_for(10, 10), AgentSessionKind::Mainline);
    assert!(check_session_world("w1", "w1").is_ok());
    assert_eq!(check_session_world("w1", "w2"), Err("Session does not belong to requested world".to_string()));
}

fn members(v: &JsonValue) -> Vec<(String, String)> {
    match v {
        JsonValue::Object(m) => m
            .iter()
            .map(|(k, v)| {
                let text = match v {
                    JsonValue::String(s) => s.clone(),
                    JsonValue::Bool(b) => b.to_string(),
                    _ => "?".to_string(),
                };
                (k.clone(), text)
            })
            .collect(),
        _ => panic!("not an object"),
    }
}

#[test]
fn turn_messages_take_the_new_text() {
    let obj = JsonValue::Object(vec![
        ("role".to_string(), JsonValue::String("user".to_string())),
        ("content".to_string(), JsonValue::String("old".to_string())),
    ]);
    let out = updated_turn_message(obj, "new".to_string());
    assert_eq!(members(&out), vec![("role".to_string(), "user".to_string()), ("content".to_string(), "new".to_string())]);
    let without = JsonValue::Object(vec![("role".to_string(), JsonValue::String("user".to_string()))]);
    let out = updated_turn_message(without, "new".to_string());
    assert_eq!(members(&out), vec![("role".to_string(), "user".to_string()), ("content".to_string(), "new".to_string())]);
    assert!(matches!(updated_turn_message(JsonValue::String("old".to_string()), "new".to_string()), JsonValue::String(s) if s == "new"));
    let out = updated_turn_message(JsonValue::Bool(true), "new".to_string());
    assert_eq!(members(&out), vec![("content".to_string(), "new".to_string())]);
}

#[test]
fn time_anchors_default_to_exact_on_the_default_calendar() {
    let a = create_time_anchor(CreateTimeAnchorInput { ordinal: 7, display_text: "dawn".to_string(), precision: None, calendar_id: None });
    assert_eq!((a.calendar_id.as_str(), a.ordinal, a.precision, a.display_text.as_str()), ("default", 7, TimePrecision::Exact, "dawn"));
    let b = create_time_anchor(CreateTimeAnchorInput {
        ordinal: -2,
        display_text: "x".to_string(),
        precision: Some(TimePrecision::Year),
        calendar_id: Some("elven".to_string()),
    });
    assert_eq!((b.calendar_id.as_str(), b.precision), ("elven", TimePrecision::Year));
    assert_eq!(compare_time_anchors(CompareTimeAnchorsInput { anchor1: anchor(10), anchor2: anchor(3) }), 7);
    assert_eq!(compare_time_anchors(CompareTimeAnchorsInput { anchor1: anchor(3), anchor2: anchor(10) }), -7);
}

#[test]
fn detail_kinds_and_candidate_filters() {
    assert_eq!(parse_detail_kind("motive"), Ok(DetailKind::Motive));
    assert_eq!(parse_detail_kind("local_cause"), Ok(DetailKind::LocalCause));
    assert_eq!(parse_detail_kind("weather"), Err("Unknown detail kind: weather".to_string()));
    let input = |f: Option<&str>| GetProvisionalCandidatesInput {
        world_id: "w".to_string(),
        session_id: "s".to_string(),
        status_filter: f.map(|x| x.to_string()),
    };
    assert_eq!(candidate_filter(&input(Some("pending"))), CandidateFilter::Pending);
    assert_eq!(candidate_filter(&input(Some("all"))), CandidateFilter::All);
    assert_eq!(candidate_filter(&input(None)), CandidateFilter::All);
}

#[test]
fn player_turns_need_text() {
    assert_eq!(check_turn_content("  I draw my sword. "), Ok("I draw my sword.".to_string()));
    assert_eq!(check_turn_content(" \n "), Err("Agent turn content must not be empty".to_string()));
    assert_eq!(input_kind_of(PlayerMode::Character), "character_roleplay");
    assert_eq!(input_kind_of(PlayerMode::Director), "director_or_scene");
}
