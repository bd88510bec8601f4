use paddlers_frontend::attributes::SpriteIndex;
use paddlers_frontend::components::{Moving, NetObj, RenderVariant, Renderable, Visitor, World};
use paddlers_frontend::entity::Entity;
use paddlers_frontend::errors::{ErrorChannel, FacetKind, PadlError, PadlErrorCode};
use paddlers_frontend::events::{
    GameEvent, GameState, Signal, StoryAction, VillageCoordinate, VillageKey,
};
use paddlers_frontend::game::{Game, NetRequest, PlayerInfo, UserMessage};
use paddlers_frontend::tiling::{ScreenResolution, Town};
use paddlers_frontend::view::{SceneIndex, StoryState, UiView, VisitorViewTab};

const NOW: i64 = 1_000_000;

fn duck() -> Renderable {
    Renderable { kind: RenderVariant::ImgWithImgBackground(SpriteIndex::Duck, SpriteIndex::Grass) }
}

fn happy_duck() -> Renderable {
    Renderable { kind: RenderVariant::ImgWithImgBackground(SpriteIndex::HappyDuck, SpriteIndex::Grass) }
}

/// A game with one visitor, standing still, known to the server as 77 if `net`.
fn game_with_visitor(hurried: bool, net: bool) -> (GameState, Entity) {
    let mut world = World::new();
    let e = world.create_entity().unwrap();
    world.renderables.insert(e, duck());
    world.visitors.insert(e, Visitor { hurried, speed: 30 });
    if net {
        world.net_objs.insert(e, NetObj { id: 77 });
    }
    let town = Town::new(10, 8, 6, ScreenResolution { unit_length: 100 });
    let player = PlayerInfo { prophets: 1, prophets_limit: 2 };
    let game = Game::new(world, town, player, StoryState::TempleBuilt, NOW);
    (GameState::new(game), e)
}

#[test]
fn satisfied_visitor_walks_on_and_server_is_told_once() {
    let (mut state, e) = game_with_visitor(false, true);
    state.push_event(GameEvent::HoboSatisfied(e));
    state.handle_game_events();
    assert_eq!(state.game.world.movings.get(e), Some(&Moving { start_ts: NOW, momentum: 30 }));
    assert_eq!(state.game.requests, vec![NetRequest::NotifyVisitorSatisfied { hobo: 77 }]);
    assert_eq!(state.game.world.renderables.get(e), Some(&happy_duck()));
    assert!(state.game.errors.is_empty());
    assert!(state.events.is_empty());
}

#[test]
fn satisfied_visitor_without_network_identity_fails_fatally() {
    let (mut state, e) = game_with_visitor(false, false);
    state.push_event(GameEvent::HoboSatisfied(e));
    state.handle_game_events();
    assert!(state.game.requests.is_empty());
    assert_eq!(
        state.game.errors,
        vec![PadlError {
            channel: ErrorChannel::Technical,
            code: PadlErrorCode::MissingComponent(FacetKind::NetObj)
        }]
    );
    assert!(state.game.errors[0].is_fatal());
    // appearance and movement were changed before the failure, and stay so
    assert_eq!(state.game.world.renderables.get(e), Some(&happy_duck()));
    assert_eq!(state.game.world.movings.get(e), Some(&Moving { start_ts: NOW, momentum: 30 }));
}

#[test]
fn hurried_visitor_only_looks_happy() {
    let (mut state, e) = game_with_visitor(true, true);
    state.push_event(GameEvent::HoboSatisfied(e));
    state.handle_game_events();
    assert_eq!(state.game.world.renderables.get(e), Some(&happy_duck()));
    assert!(!state.game.world.movings.contains(e));
    assert!(state.game.requests.is_empty());
    assert!(state.game.errors.is_empty());
}

#[test]
fn moving_visitor_keeps_its_movement() {
    let (mut state, e) = game_with_visitor(false, true);
    state.game.world.movings.insert(e, Moving { start_ts: 5, momentum: 9 });
    state.push_event(GameEvent::HoboSatisfied(e));
    state.handle_game_events();
    assert_eq!(state.game.world.movings.get(e), Some(&Moving { start_ts: 5, momentum: 9 }));
    assert_eq!(state.game.requests, vec![NetRequest::NotifyVisitorSatisfied { hobo: 77 }]);
}

#[test]
fn events_are_handled_in_the_order_they_were_queued() {
    let (mut state, _) = game_with_visitor(false, true);
    state.push_event(GameEvent::SwitchToView(UiView::Leaderboard));
    state.push_event(GameEvent::SendProphetAttack(VillageCoordinate { x: 4, y: -2 }));
    state.push_event(GameEvent::StoryActions(vec![
        StoryAction::StoryProgress(StoryState::VisitorArrived),
        StoryAction::OpenScene(SceneIndex::VisitorArrived, 1),
    ]));
    state.push_event(GameEvent::HttpBuyProphet);
    state.push_event(GameEvent::SwitchToView(UiView::Town));
    state.handle_game_events();
    assert_eq!(
        state.game.requests,
        vec![
            NetRequest::SendProphetAttack { x: 4, y: -2 },
            NetRequest::UpdateStoryState {
                before: StoryState::TempleBuilt,
                after: StoryState::VisitorArrived
            },
            NetRequest::BuyProphet,
        ]
    );
    assert_eq!(
        state.signals,
        vec![
            Signal::NewStoryState(StoryState::VisitorArrived),
            Signal::Scene(SceneIndex::VisitorArrived, 1),
        ]
    );
    assert_eq!(state.game.messages, vec![UserMessage::AttackingVillage { x: 4, y: -2 }]);
    assert_eq!(state.game.story_state, StoryState::VisitorArrived);
    assert_eq!(state.game.view, UiView::Town);
    assert!(state.events.is_empty());
}

#[test]
fn a_failing_event_does_not_stop_the_drain() {
    let (mut state, _) = game_with_visitor(false, true);
    state.game.player = PlayerInfo { prophets: 0, prophets_limit: 0 };
    state.push_event(GameEvent::HttpBuyProphet);
    state.push_event(GameEvent::SendProphetAttack(VillageCoordinate { x: 1, y: 1 }));
    state.push_event(GameEvent::SwitchToView(UiView::Visitors(VisitorViewTab::Letters)));
    state.handle_game_events();
    assert_eq!(
        state.game.errors,
        vec![
            PadlError { channel: ErrorChannel::UserFacing, code: PadlErrorCode::ProphetLimit },
            PadlError { channel: ErrorChannel::UserFacing, code: PadlErrorCode::NotEnoughUnits },
        ]
    );
    assert!(!state.game.errors[0].is_fatal());
    assert!(state.game.requests.is_empty());
    assert!(state.game.messages.is_empty());
    assert_eq!(state.game.view, UiView::Visitors(VisitorViewTab::Letters));
}

#[test]
fn loading_a_village_changes_nothing() {
    let (mut state, _) = game_with_visitor(false, true);
    state.push_event(GameEvent::LoadVillage(VillageKey { num: 3 }));
    state.handle_game_events();
    assert!(state.game.requests.is_empty());
    assert!(state.game.errors.is_empty());
    assert_eq!(state.game.view, UiView::Town);
}

#[test]
fn opening_a_scene_switches_to_the_dialogue() {
    let (mut state, e) = game_with_visitor(false, true);
    state.game.ui.selected_entity = Some(e);
    state.push_event(GameEvent::StoryActions(vec![StoryAction::OpenScene(SceneIndex::Entrance, 2)]));
    state.handle_game_events();
    assert_eq!(state.game.view, UiView::Dialogue);
    assert_eq!(state.game.ui.selected_entity, None);
    assert_eq!(state.signals, vec![Signal::Scene(SceneIndex::Entrance, 2)]);
}

#[test]
fn one_satisfied_visitor_event_handled_directly() {
    let (mut state, e) = game_with_visitor(false, true);
    assert_eq!(state.try_handle_event(&GameEvent::HoboSatisfied(e)), Ok(()));
    assert_eq!(state.game.requests, vec![NetRequest::NotifyVisitorSatisfied { hobo: 77 }]);
    let (mut unknown, f) = game_with_visitor(false, false);
    let evt = GameEvent::HoboSatisfied(f);
    assert_eq!(
        unknown.try_handle_event(&evt.clone()),
        Err(PadlError {
            channel: ErrorChannel::Technical,
            code: PadlErrorCode::MissingComponent(FacetKind::NetObj)
        })
    );
    assert!(unknown.game.requests.is_empty());
    assert!(unknown.game.errors.is_empty());
}
