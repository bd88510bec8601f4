use paddlers_frontend::components::World;
use paddlers_frontend::entity::Entity;
use paddlers_frontend::game::{Game, Key, PlayerInfo, TestKind, BENCHMARK_FRAMES};
use paddlers_frontend::tiling::{Rectangle, ScreenResolution, Town};
use paddlers_frontend::view::{entry_view, StoryState, UiView, VisitorViewTab};
use paddlers_frontend::api::PlayerInitData;

fn game() -> Game {
    let town = Town::new(4, 4, 3, ScreenResolution { unit_length: 50 });
    Game::new(World::new(), town, PlayerInfo { prophets: 0, prophets_limit: 1 }, StoryState::TempleBuilt, 0)
}

#[test]
fn entry_view_opens_the_dialogue_where_the_story_has_a_scene() {
    assert_eq!(entry_view(StoryState::Initialized), UiView::Dialogue);
    assert_eq!(entry_view(StoryState::VisitorArrived), UiView::Dialogue);
    assert_eq!(entry_view(StoryState::TempleBuilt), UiView::Town);
    assert_eq!(entry_view(StoryState::GatheringSticks), UiView::Town);
    assert_eq!(game().view, UiView::Town);
}

#[test]
fn toggle_view_cycles_and_dialogue_stays() {
    let mut g = game();
    g.view = UiView::WorldMap;
    let expected = [
        UiView::Town,
        UiView::Visitors(VisitorViewTab::Letters),
        UiView::Leaderboard,
        UiView::WorldMap,
    ];
    for v in expected {
        g.toggle_view();
        assert_eq!(g.view, v);
    }
    g.view = UiView::Visitors(VisitorViewTab::IncomingSatisfied);
    g.toggle_view();
    assert_eq!(g.view, UiView::Leaderboard);
    g.view = UiView::Dialogue;
    g.ui.selected_entity = Some(Entity { id: 3 });
    g.toggle_view();
    assert_eq!(g.view, UiView::Dialogue);
    assert_eq!(g.ui.selected_entity, Some(Entity { id: 3 }));
}

#[test]
fn switching_view_leaves_the_old_one() {
    let mut g = game();
    g.ui.selected_entity = Some(Entity { id: 1 });
    g.switch_view(UiView::Leaderboard);
    assert_eq!(g.view, UiView::Leaderboard);
    assert_eq!(g.ui.selected_entity, None);
}

#[test]
fn dev_hooks_record_while_a_benchmark_runs() {
    let mut g = game();
    g.start_update(1);
    assert!(g.active_test.is_none());
    g.dev_view_event(Key::T, true, 10);
    let t = g.active_test.as_ref().unwrap();
    assert_eq!(t.kind, TestKind::Vanilla);
    assert_eq!(t.start, 10);
    g.start_update(11);
    g.end_update(12);
    g.start_draw(13);
    assert_eq!(g.end_draw(14), None);
    let t = g.active_test.as_ref().unwrap();
    assert_eq!(t.update_starts, vec![11]);
    assert_eq!(t.update_ends, vec![12]);
    assert_eq!(t.frame_starts, vec![13]);
    assert_eq!(t.frame_ends, vec![14]);
    // a second benchmark does not start while one runs
    g.dev_view_event(Key::Key1, true, 20);
    assert_eq!(g.active_test.as_ref().unwrap().kind, TestKind::Vanilla);
}

#[test]
fn keys_start_their_benchmarks() {
    let mut g = game();
    g.dev_view_event(Key::Key1, false, 1);
    assert!(g.active_test.is_none());
    g.dev_view_event(Key::Key1, true, 1);
    assert_eq!(g.active_test.as_ref().unwrap().kind, TestKind::Empty);
    let mut h = game();
    h.dev_view_event(Key::Key2, true, 1);
    assert_eq!(h.active_test.as_ref().unwrap().kind, TestKind::StandardVillage);
    let mut k = game();
    k.dev_view_event(Key::Other, true, 1);
    assert!(k.active_test.is_none());
}

#[test]
fn space_toggles_the_palette() {
    let mut g = game();
    assert_eq!(g.draw_dev_view(1000, 800), None);
    g.dev_view_event(Key::Space, true, 0);
    assert!(g.palette);
    assert_eq!(g.draw_dev_view(1000, 800), Some(Rectangle { x: 100, y: 100, width: 800, height: 600 }));
    assert_eq!(g.draw_dev_view(150, 800), Some(Rectangle { x: 100, y: 100, width: 0, height: 600 }));
    g.dev_view_event(Key::Space, false, 0);
    assert!(g.palette);
    g.dev_view_event(Key::Space, true, 0);
    assert!(!g.palette);
}

#[test]
fn player_init_data_holds_the_display_name() {
    let d = PlayerInitData { display_name: "Ada".to_string() };
    assert_eq!(d.clone(), d);
    assert_eq!(d.display_name, "Ada");
}

#[test]
fn benchmark_ends_after_its_frames() {
    let mut g = game();
    assert_eq!(g.end_draw(0), None);
    g.dev_view_event(Key::Key2, true, 0);
    for f in 1..BENCHMARK_FRAMES {
        assert_eq!(g.end_draw(f as i64), None);
        assert!(g.active_test.is_some());
    }
    let done = g.end_draw(1000).unwrap();
    assert_eq!(done.kind, TestKind::StandardVillage);
    assert_eq!(done.frame_ends.len(), BENCHMARK_FRAMES);
    assert_eq!(done.frame_ends[BENCHMARK_FRAMES - 1], 1000);
    assert!(g.active_test.is_none());
    g.dev_view_event(Key::T, true, 2000);
    assert_eq!(g.active_test.as_ref().unwrap().kind, TestKind::Vanilla);
}
