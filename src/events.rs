use vstd::prelude::*;
use crate::attributes::SpriteIndex;
use crate::components::{Moving, NetObj, RenderVariant, Renderable, Timestamp, Visitor};
use crate::entity::Entity;
use crate::errors::{
    dev_error, user_error, FacetKind, PadlError, PadlErrorCode, PadlResult,
};
use crate::game::{Game, NetRequest, PlayerInfo, UserMessage};
use crate::view::{SceneIndex, StoryState, UiView};

verus! {

/// Coordinates of a village on the world map.
#[derive(Clone, Copy, Debug, PartialEq, Eq, Structural)]
pub struct VillageCoordinate {
    pub x: i32,
    pub y: i32,
}

/// The key of a village on the server.
#[derive(Clone, Copy, Debug, PartialEq, Eq, Structural)]
pub struct VillageKey {
    pub num: i64,
}

/// A step of the story.
#[derive(Clone, Copy, Debug, PartialEq, Eq, Structural)]
pub enum StoryAction {
    /// Opens a scene at a slide.
    OpenScene(SceneIndex, usize),
    /// Moves the story on to a new state.
    StoryProgress(StoryState),
}

/// A gameplay occurrence that a system hands to the coordinator.
#[derive(Clone, Debug, PartialEq, Eq)]
pub enum GameEvent {
    HoboSatisfied(Entity),
    HttpBuyProphet,
    LoadVillage(VillageKey),
    SendProphetAttack(VillageCoordinate),
    StoryActions(Vec<StoryAction>),
    SwitchToView(UiView),
}

/// A notice for the views.
#[derive(Clone, Copy, Debug, PartialEq, Eq, Structural)]
pub enum Signal {
    Scene(SceneIndex, usize),
    NewStoryState(StoryState),
}

/// The game, its queue of events and the notices for its views.
pub struct GameState {
    pub game: Game,
    /// Events not yet handled, oldest first.
    pub events: Vec<GameEvent>,
    /// Notices for the views, oldest first.
    pub signals: Vec<Signal>,
}

/// What the event handlers read and write.
pub struct GameView {
    pub renderables: Map<u32, Renderable>,
    pub movings: Map<u32, Moving>,
    pub visitors: Map<u32, Visitor>,
    pub net_objs: Map<u32, NetObj>,
    pub view: UiView,
    pub selected: Option<Entity>,
    pub story_state: StoryState,
    pub player: PlayerInfo,
    pub now: Timestamp,
    pub requests: Seq<NetRequest>,
    pub messages: Seq<UserMessage>,
    pub errors: Seq<PadlError>,
    pub signals: Seq<Signal>,
}

/// A duck's appearance once satisfied; other appearances stay.
pub open spec fn spec_happy(r: Renderable) -> Renderable {
    match r.kind {
        RenderVariant::ImgWithImgBackground(SpriteIndex::Duck, bg) => Renderable {
            kind: RenderVariant::ImgWithImgBackground(SpriteIndex::HappyDuck, bg),
        },
        _ => r,
    }
}

/// The movement of a released visitor: along the lane at its speed, from now.
pub open spec fn spec_release(v: Visitor, now: Timestamp) -> Moving {
    Moving { start_ts: now, momentum: v.speed }
}

pub fn change_duck_sprite_to_happy(r: &mut Renderable)
    ensures
        *final(r) == spec_happy(*old(r)),
{
    match r.kind {
        RenderVariant::ImgWithImgBackground(SpriteIndex::Duck, bg) => {
            r.kind = RenderVariant::ImgWithImgBackground(SpriteIndex::HappyDuck, bg);
        },
        _ => {},
    }
}

pub fn release_and_move_visitor(v: &Visitor, now: Timestamp) -> (r: Moving)
    ensures
        r == spec_release(*v, now),
{
    Moving { start_ts: now, momentum: v.speed }
}

/// A satisfied visitor looks happy; unless hurried, it walks on if it
/// stood still, and the server is told. Without a network identity that is
/// a developer error, which leaves the appearance and movement changed.
pub open spec fn spec_hobo_satisfied(s: GameView, e: Entity) -> (GameView, PadlResult<()>) {
    let s1 = if s.renderables.contains_key(e.id) {
        GameView { renderables: s.renderables.insert(e.id, spec_happy(s.renderables[e.id])), ..s }
    } else {
        s
    };
    if s1.visitors.contains_key(e.id) && !s1.visitors[e.id].hurried {
        let s2 = if !s1.movings.contains_key(e.id) {
            GameView {
                movings: s1.movings.insert(e.id, spec_release(s1.visitors[e.id], s1.now)),
                ..s1
            }
        } else {
            s1
        };
        if s2.net_objs.contains_key(e.id) {
            (
                GameView {
                    requests: s2.requests.push(
                        NetRequest::NotifyVisitorSatisfied { hobo: s2.net_objs[e.id].id },
                    ),
                    ..s2
                },
                Ok(()),
            )
        } else {
            (s2, Err(dev_error(PadlErrorCode::MissingComponent(FacetKind::NetObj))))
        }
    } else {
        (s1, Ok(()))
    }
}

/// A prophet is bought while the player has fewer than they may have.
pub open spec fn spec_buy_prophet(s: GameView) -> (GameView, PadlResult<()>) {
    if s.player.prophets < s.player.prophets_limit {
        (GameView { requests: s.requests.push(NetRequest::BuyProphet), ..s }, Ok(()))
    } else {
        (s, Err(user_error(PadlErrorCode::ProphetLimit)))
    }
}

/// An attack is sent where the player has a prophet, and the player is told.
pub open spec fn spec_send_prophet_attack(s: GameView, x: i32, y: i32) -> (GameView, PadlResult<()>) {
    if s.player.prophets == 0 {
        (s, Err(user_error(PadlErrorCode::NotEnoughUnits)))
    } else {
        (
            GameView {
                requests: s.requests.push(NetRequest::SendProphetAttack { x, y }),
                messages: s.messages.push(UserMessage::AttackingVillage { x, y }),
                ..s
            },
            Ok(()),
        )
    }
}

pub open spec fn spec_switch_view(s: GameView, v: UiView) -> GameView {
    GameView { view: v, selected: None, ..s }
}

pub open spec fn spec_story_action(s: GameView, a: StoryAction) -> GameView {
    match a {
        StoryAction::OpenScene(scene, slide) => spec_switch_view(
            GameView { signals: s.signals.push(Signal::Scene(scene, slide)), ..s },
            UiView::Dialogue,
        ),
        StoryAction::StoryProgress(new_state) => GameView {
            requests: s.requests.push(
                NetRequest::UpdateStoryState { before: s.story_state, after: new_state },
            ),
            signals: s.signals.push(Signal::NewStoryState(new_state)),
            story_state: new_state,
            ..s
        },
    }
}

/// The story actions, handled in order.
pub open spec fn spec_story_actions(s: GameView, actions: Seq<StoryAction>) -> GameView
    decreases actions.len(),
{
    if actions.len() == 0 {
        s
    } else {
        spec_story_action(spec_story_actions(s, actions.drop_last()), actions.last())
    }
}

/// The state after one event, and the handler's result.
pub open spec fn spec_handle_event(s: GameView, evt: GameEvent) -> (GameView, PadlResult<()>) {
    match evt {
        GameEvent::HoboSatisfied(e) => spec_hobo_satisfied(s, e),
        GameEvent::HttpBuyProphet => spec_buy_prophet(s),
        GameEvent::SendProphetAttack(v) => spec_send_prophet_attack(s, v.x, v.y),
        GameEvent::SwitchToView(v) => (spec_switch_view(s, v), Ok(())),
        GameEvent::StoryActions(actions) => (spec_story_actions(s, actions@), Ok(())),
        GameEvent::LoadVillage(_) => (s, Ok(())),
    }
}

/// A failing result is kept in the error log; a success leaves no trace.
pub open spec fn spec_check(s: GameView, r: PadlResult<()>) -> GameView {
    match r {
        Ok(_) => s,
        Err(e) => GameView { errors: s.errors.push(e), ..s },
    }
}

pub open spec fn spec_step(s: GameView, evt: GameEvent) -> GameView {
    let (s1, r) = spec_handle_event(s, evt);
    spec_check(s1, r)
}

/// The events, handled in order, each result checked before the next.
pub open spec fn spec_drain(s: GameView, events: Seq<GameEvent>) -> GameView
    decreases events.len(),
{
    if events.len() == 0 {
        s
    } else {
        spec_step(spec_drain(s, events.drop_last()), events.last())
    }
}

/// Draining a queue handles its front part first, then the rest.
pub proof fn lemma_drain_concat(s: GameView, first: Seq<GameEvent>, rest: Seq<GameEvent>)
    ensures
        spec_drain(s, first + rest) == spec_drain(spec_drain(s, first), rest),
    decreases rest.len(),
{
    if rest.len() == 0 {
        assert(first + rest =~= first);
    } else {
        assert((first + rest).drop_last() =~= first + rest.drop_last());
        lemma_drain_concat(s, first, rest.drop_last());
    }
}

/// Three events queued in order are handled in that order, each on the
/// state that the one before left.
pub proof fn lemma_drain_in_order(s: GameView, a: GameEvent, b: GameEvent, c: GameEvent)
    ensures
        spec_drain(s, seq![a, b, c]) == spec_step(spec_step(spec_step(s, a), b), c),
{
    let q = seq![a, b, c];
    assert(q.drop_last() =~= seq![a, b]);
    assert(seq![a, b].drop_last() =~= seq![a]);
    assert(seq![a].drop_last() =~= Seq::<GameEvent>::empty());
    assert(spec_drain(s, Seq::<GameEvent>::empty()) == s);
    assert(seq![a].last() == a);
    assert(spec_drain(s, seq![a]) == spec_step(s, a));
    assert(seq![a, b].last() == b);
    assert(q.last() == c);
    assert(spec_drain(s, seq![a, b]) == spec_step(spec_step(s, a), b));
}

/// A satisfied visitor that is not hurried and stands still walks on from
/// now, and the server is told of it exactly once.
pub proof fn lemma_satisfied_visitor_released(s: GameView, e: Entity)
    requires
        s.visitors.contains_key(e.id),
        !s.visitors[e.id].hurried,
        !s.movings.contains_key(e.id),
        s.net_objs.contains_key(e.id),
    ensures
        ({
            let t = spec_drain(s, seq![GameEvent::HoboSatisfied(e)]);
            &&& t.movings == s.movings.insert(e.id, spec_release(s.visitors[e.id], s.now))
            &&& t.requests == s.requests.push(
                NetRequest::NotifyVisitorSatisfied { hobo: s.net_objs[e.id].id },
            )
            &&& t.errors == s.errors
        }),
{
    let q = seq![GameEvent::HoboSatisfied(e)];
    assert(q.drop_last() =~= Seq::<GameEvent>::empty());
    assert(spec_drain(s, Seq::<GameEvent>::empty()) == s);
}

/// A satisfied visitor without a network identity is a developer error, and
/// the server is told nothing; its appearance and movement change all the same.
pub proof fn lemma_satisfied_visitor_unknown(s: GameView, e: Entity)
    requires
        s.visitors.contains_key(e.id),
        !s.visitors[e.id].hurried,
        !s.net_objs.contains_key(e.id),
    ensures
        ({
            let t = spec_drain(s, seq![GameEvent::HoboSatisfied(e)]);
            &&& t.requests == s.requests
            &&& t.errors == s.errors.push(
                dev_error(PadlErrorCode::MissingComponent(FacetKind::NetObj)),
            )
            &&& t.movings.contains_key(e.id)
        }),
{
    let q = seq![GameEvent::HoboSatisfied(e)];
    assert(q.drop_last() =~= Seq::<GameEvent>::empty());
    assert(spec_drain(s, Seq::<GameEvent>::empty()) == s);
}

impl GameState {
    /// What the handlers read and write, in spec values.
    pub open spec fn model(&self) -> GameView {
        GameView {
            renderables: self.game.world.renderables@,
            movings: self.game.world.movings@,
            visitors: self.game.world.visitors@,
            net_objs: self.game.world.net_objs@,
            view: self.game.view,
            selected: self.game.ui.selected_entity,
            story_state: self.game.story_state,
            player: self.game.player,
            now: self.game.now,
            requests: self.game.requests@,
            messages: self.game.messages@,
            errors: self.game.errors@,
            signals: self.signals@,
        }
    }

    /// What no handler touches is as in `o`.
    pub open spec fn untouched(&self, o: GameState) -> bool {
        &&& self.game.world.next_id == o.game.world.next_id
        &&& self.game.world.positions@ == o.game.world.positions@
        &&& self.game.world.clickables@ == o.game.world.clickables@
        &&& self.game.world.ranges@ == o.game.world.ranges@
        &&& self.game.world.auras@ == o.game.world.auras@
        &&& self.game.world.containers@ == o.game.world.containers@
        &&& self.game.town == o.game.town
        &&& self.game.active_test == o.game.active_test
        &&& self.game.palette == o.game.palette
    }

    pub fn new(game: Game) -> (r: GameState)
        ensures
            r.game == game,
            r.events@.len() == 0,
            r.signals@.len() == 0,
    {
        GameState { game, events: Vec::new(), signals: Vec::new() }
    }

    /// Queues an event for the next drain.
    pub fn push_event(&mut self, evt: GameEvent)
        ensures
            final(self).events@ == old(self).events@.push(evt),
            final(self).model() == old(self).model(),
            final(self).untouched(*old(self)),
    {
        self.events.push(evt);
    }

    /// Handles every event queued before the call, oldest first, and hands
    /// each failing result to the error log; events queued meanwhile wait for the
    /// next call.
    pub fn handle_game_events(&mut self)
        requires
            old(self).game.world.wf(),
        ensures
            final(self).game.world.wf(),
            final(self).events@.len() == 0,
            final(self).model() == spec_drain(old(self).model(), old(self).events@),
            final(self).untouched(*old(self)),
    {
        let mut backlog: Vec<GameEvent> = Vec::new();
        core::mem::swap(&mut backlog, &mut self.events);
        let ghost start = *self;
        assert(backlog@.take(0) =~= Seq::<GameEvent>::empty());
        let mut i: usize = 0;
        while i < backlog.len()
            invariant
                i <= backlog@.len(),
                backlog@ == old(self).events@,
                self.events@.len() == 0,
                self.game.world.wf(),
                start.model() == old(self).model(),
                start.untouched(*old(self)),
                self.model() == spec_drain(start.model(), backlog@.take(i as int)),
                self.untouched(start),
            decreases backlog@.len() - i,
        {
            let result = self.try_handle_event(&backlog[i]);
            self.check(result);
            assert(backlog@.take(i + 1).drop_last() =~= backlog@.take(i as int));
            i = i + 1;
        }
        assert(backlog@.take(backlog@.len() as int) =~= backlog@);
    }

    /// Keeps a failing result in the error log.
    fn check(&mut self, r: PadlResult<()>)
        ensures
            final(self).model() == spec_check(old(self).model(), r),
            final(self).untouched(*old(self)),
            final(self).events == old(self).events,
            final(self).game.world == old(self).game.world,
    {
        match r {
            Ok(()) => {},
            Err(e) => {
                self.game.errors.push(e);
            },
        }
    }

    /// Handles one event and returns its result.
    pub fn try_handle_event(&mut self, evt: &GameEvent) -> (r: PadlResult<()>)
        requires
            old(self).game.world.wf(),
        ensures
            final(self).game.world.wf(),
            (final(self).model(), r) == spec_handle_event(old(self).model(), *evt),
            final(self).untouched(*old(self)),
            final(self).events == old(self).events,
    {
        match evt {
            GameEvent::HoboSatisfied(id) => self.hobo_satisfied(*id),
            GameEvent::HttpBuyProphet => {
                let player = self.game.player;
                if player.prophets < player.prophets_limit {
                    self.game.requests.push(NetRequest::BuyProphet);
                    Ok(())
                } else {
                    Err(PadlError::user_err(PadlErrorCode::ProphetLimit))
                }
            },
            GameEvent::SendProphetAttack(v) => {
                if self.game.player.prophets == 0 {
                    return Err(PadlError::user_err(PadlErrorCode::NotEnoughUnits));
                }
                self.game.requests.push(NetRequest::SendProphetAttack { x: v.x, y: v.y });
                // The confirmation does not wait for the server's answer
                self.game.messages.push(UserMessage::AttackingVillage { x: v.x, y: v.y });
                Ok(())
            },
            GameEvent::SwitchToView(view) => {
                self.game.switch_view(*view);
                Ok(())
            },
            GameEvent::StoryActions(actions) => {
                let ghost start = self.model();
                let ghost pre = *self;
                assert(actions@.take(0) =~= Seq::<StoryAction>::empty());
                let mut i: usize = 0;
                while i < actions.len()
                    invariant
                        i <= actions@.len(),
                        self.game.world.wf(),
                        self.model() == spec_story_actions(start, actions@.take(i as int)),
                        self.untouched(pre),
                        self.events == pre.events,
                    decreases actions@.len() - i,
                {
                    self.try_handle_story_action(actions[i]);
                    assert(actions@.take(i + 1).drop_last() =~= actions@.take(i as int));
                    i = i + 1;
                }
                assert(actions@.take(actions@.len() as int) =~= actions@);
                Ok(())
            },
            GameEvent::LoadVillage(_) => {
                // Loading a foreign village is not defined yet
                Ok(())
            },
        }
    }

    /// Takes one step of the story.
    pub fn try_handle_story_action(&mut self, action: StoryAction)
        requires
            old(self).game.world.wf(),
        ensures
            final(self).game.world.wf(),
            final(self).model() == spec_story_action(old(self).model(), action),
            final(self).untouched(*old(self)),
            final(self).events == old(self).events,
    {
        match action {
            StoryAction::OpenScene(scene, slide) => {
                self.signals.push(Signal::Scene(scene, slide));
                self.game.switch_view(UiView::Dialogue);
            },
            StoryAction::StoryProgress(new_state) => {
                let before = self.game.story_state;
                self.game.requests.push(
                    NetRequest::UpdateStoryState { before, after: new_state },
                );
                self.signals.push(Signal::NewStoryState(new_state));
                self.game.story_state = new_state;
            },
        }
    }

    fn hobo_satisfied(&mut self, id: Entity) -> (r: PadlResult<()>)
        requires
            old(self).game.world.wf(),
        ensures
            final(self).game.world.wf(),
            (final(self).model(), r) == spec_hobo_satisfied(old(self).model(), id),
            final(self).untouched(*old(self)),
            final(self).events == old(self).events,
    {
        let now = self.game.now;
        if let Some(rend) = self.game.world.renderables.get(id) {
            let mut rend = *rend;
            change_duck_sprite_to_happy(&mut rend);
            self.game.world.renderables.insert(id, rend);
        }
        let hobo = match self.game.world.visitors.get(id) {
            Some(h) => *h,
            None => {
                return Ok(());
            },
        };
        if hobo.hurried {
            return Ok(());
        }
        if !self.game.world.movings.contains(id) {
            // The visitor stood still: it has been released, so it walks on
            let moving = release_and_move_visitor(&hobo, now);
            self.game.world.movings.insert(id, moving);
        }
        let net_id = match self.game.world.net_objs.get(id) {
            Some(n) => *n,
            None => {
                return Err(PadlError::dev_err(PadlErrorCode::MissingComponent(FacetKind::NetObj)));
            },
        };
        self.game.requests.push(NetRequest::NotifyVisitorSatisfied { hobo: net_id.id });
        Ok(())
    }
}

} // verus!
