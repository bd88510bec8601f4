use vstd::prelude::*;
use crate::entity::Entity;
use crate::game::Game;

verus! {

#[derive(Clone, Copy, Debug, PartialEq, Eq, Structural)]
pub enum VisitorViewTab {
    Letters,
    IncomingSatisfied,
}

/// The view that the player sees.
#[derive(Clone, Copy, Debug, PartialEq, Eq, Structural)]
pub enum UiView {
    WorldMap,
    Town,
    Visitors(VisitorViewTab),
    Leaderboard,
    Dialogue,
}

/// How far the player has come in the story.
#[derive(Clone, Copy, Debug, PartialEq, Eq, Structural)]
pub enum StoryState {
    Initialized,
    ServantAccepted,
    TempleBuilt,
    VisitorArrived,
    FirstVisitorWelcomed,
    FlowerPlanted,
    MoreHappyVisitors,
    TreePlanted,
    StickGatheringStationBuild,
    GatheringSticks,
}

/// A narrative scene.
#[derive(Clone, Copy, Debug, PartialEq, Eq, Structural)]
pub enum SceneIndex {
    Entrance,
    VisitorArrived,
}

/// State of the interface that belongs to the current view.
#[derive(Clone, Copy, Debug, PartialEq, Eq, Structural)]
pub struct UiState {
    pub selected_entity: Option<Entity>,
}

impl UiState {
    pub fn new() -> (r: UiState)
        ensures
            r.selected_entity is None,
    {
        UiState { selected_entity: None }
    }

    /// Forgets what belonged to the view being left.
    pub fn leave_view(&mut self)
        ensures
            final(self).selected_entity is None,
    {
        self.selected_entity = None;
    }
}

/// The scene, and its first slide, that a story state opens with; none
/// where the state needs no dialogue.
pub open spec fn spec_dialogue_scene(story_state: StoryState) -> Option<(SceneIndex, usize)> {
    match story_state {
        StoryState::Initialized => Some((SceneIndex::Entrance, 0)),
        StoryState::VisitorArrived => Some((SceneIndex::VisitorArrived, 0)),
        _ => None,
    }
}

pub fn select_dialogue_scene(story_state: StoryState) -> (r: Option<(SceneIndex, usize)>)
    ensures
        r == spec_dialogue_scene(story_state),
{
    match story_state {
        StoryState::Initialized => Some((SceneIndex::Entrance, 0)),
        StoryState::VisitorArrived => Some((SceneIndex::VisitorArrived, 0)),
        _ => None,
    }
}

pub open spec fn spec_entry_view(story_state: StoryState) -> UiView {
    if spec_dialogue_scene(story_state) is Some {
        UiView::Dialogue
    } else {
        UiView::Town
    }
}

/// The view that a session starts in: the dialogue where the story state
/// has a scene to show, else the town.
pub fn entry_view(story_state: StoryState) -> (r: UiView)
    ensures
        r == spec_entry_view(story_state),
{
    if select_dialogue_scene(story_state).is_some() {
        UiView::Dialogue
    } else {
        UiView::Town
    }
}

/// The view that follows `view` in the cycle map, town, visitors,
/// leaderboard; none from the dialogue, which is left otherwise.
pub open spec fn spec_next_view(view: UiView) -> Option<UiView> {
    match view {
        UiView::WorldMap => Some(UiView::Town),
        UiView::Town => Some(UiView::Visitors(VisitorViewTab::Letters)),
        UiView::Visitors(_) => Some(UiView::Leaderboard),
        UiView::Leaderboard => Some(UiView::WorldMap),
        UiView::Dialogue => None,
    }
}

impl Game {
    /// Leaves the current view for `view`.
    pub fn switch_view(&mut self, view: UiView)
        ensures
            final(self).view == view,
            final(self).ui.selected_entity is None,
            final(self).unchanged_but_view(*old(self)),
    {
        self.ui.leave_view();
        self.view = view;
    }

    /// Moves on to the next view of the cycle; the dialogue stays.
    pub fn toggle_view(&mut self)
        ensures
            match spec_next_view(old(self).view) {
                Some(next) => {
                    &&& final(self).view == next
                    &&& final(self).ui.selected_entity is None
                    &&& final(self).unchanged_but_view(*old(self))
                },
                None => *final(self) == *old(self),
            },
    {
        let next = match self.view {
            UiView::WorldMap => UiView::Town,
            UiView::Town => UiView::Visitors(VisitorViewTab::Letters),
            UiView::Visitors(_) => UiView::Leaderboard,
            UiView::Leaderboard => UiView::WorldMap,
            UiView::Dialogue => {
                return;
            },
        };
        self.switch_view(next);
    }
}

} // verus!
