use vstd::prelude::*;
use crate::components::{Timestamp, World};
use crate::errors::PadlError;
use crate::tiling::{Rectangle, Town};
use crate::view::{entry_view, spec_entry_view, StoryState, UiState, UiView};

verus! {

/// What the client knows of the player.
#[derive(Clone, Copy, Debug, PartialEq, Eq, Structural)]
pub struct PlayerInfo {
    /// Prophets that the player has.
    pub prophets: u32,
    /// Prophets that the player may have at most.
    pub prophets_limit: u32,
}

/// A request to the game master, queued for the network layer.
#[derive(Clone, Copy, Debug, PartialEq, Eq)]
pub enum NetRequest {
    NotifyVisitorSatisfied { hobo: i64 },
    BuyProphet,
    SendProphetAttack { x: i32, y: i32 },
    UpdateStoryState { before: StoryState, after: StoryState },
}

/// A message for the player.
#[derive(Clone, Copy, Debug, PartialEq, Eq)]
pub enum UserMessage {
    /// Prophets are on their way to the village at these coordinates.
    AttackingVillage { x: i32, y: i32 },
}

/// Frames that a benchmark measures before it reports.
pub const BENCHMARK_FRAMES: usize = 100;

/// The benchmark that a developer runs.
#[derive(Clone, Copy, Debug, PartialEq, Eq, Structural)]
pub enum TestKind {
    Vanilla,
    Empty,
    StandardVillage,
}

/// The times recorded by a running benchmark.
#[derive(Clone, Debug, PartialEq, Eq)]
pub struct TestData {
    pub kind: TestKind,
    pub start: Timestamp,
    pub update_starts: Vec<Timestamp>,
    pub update_ends: Vec<Timestamp>,
    pub frame_starts: Vec<Timestamp>,
    pub frame_ends: Vec<Timestamp>,
}

/// Keys that the developer view reacts to.
#[derive(Clone, Copy, Debug, PartialEq, Eq, Structural)]
pub enum Key {
    Space,
    T,
    Key1,
    Key2,
    Other,
}

/// Which of a benchmark's records a hook adds to.
#[derive(Clone, Copy, Debug, PartialEq, Eq, Structural)]
pub enum TestRecord {
    UpdateStart,
    UpdateEnd,
    FrameStart,
    FrameEnd,
}

impl TestData {
    pub fn start_test(kind: TestKind, now: Timestamp) -> (r: TestData)
        ensures
            r.kind == kind,
            r.start == now,
            r.update_starts@.len() == 0,
            r.update_ends@.len() == 0,
            r.frame_starts@.len() == 0,
            r.frame_ends@.len() == 0,
    {
        TestData {
            kind,
            start: now,
            update_starts: Vec::new(),
            update_ends: Vec::new(),
            frame_starts: Vec::new(),
            frame_ends: Vec::new(),
        }
    }

    /// `post` is `self` with `now` added to the records named by `which`.
    pub open spec fn recorded(self, post: TestData, which: TestRecord, now: Timestamp) -> bool {
        &&& post.kind == self.kind
        &&& post.start == self.start
        &&& post.update_starts@ == if which is UpdateStart {
            self.update_starts@.push(now)
        } else {
            self.update_starts@
        }
        &&& post.update_ends@ == if which is UpdateEnd {
            self.update_ends@.push(now)
        } else {
            self.update_ends@
        }
        &&& post.frame_starts@ == if which is FrameStart {
            self.frame_starts@.push(now)
        } else {
            self.frame_starts@
        }
        &&& post.frame_ends@ == if which is FrameEnd {
            self.frame_ends@.push(now)
        } else {
            self.frame_ends@
        }
    }

    pub fn record(&mut self, which: TestRecord, now: Timestamp)
        ensures
            old(self).recorded(*final(self), which, now),
    {
        match which {
            TestRecord::UpdateStart => self.update_starts.push(now),
            TestRecord::UpdateEnd => self.update_ends.push(now),
            TestRecord::FrameStart => self.frame_starts.push(now),
            TestRecord::FrameEnd => self.frame_ends.push(now),
        }
    }
}

/// The whole state of a game session that the core works on.
pub struct Game {
    pub world: World,
    pub town: Town,
    pub view: UiView,
    pub ui: UiState,
    pub story_state: StoryState,
    pub player: PlayerInfo,
    pub now: Timestamp,
    /// Requests to the game master, oldest first.
    pub requests: Vec<NetRequest>,
    /// Messages for the player, oldest first.
    pub messages: Vec<UserMessage>,
    /// The error log: errors that handlers returned, oldest first.
    pub errors: Vec<PadlError>,
    pub active_test: Option<TestData>,
    pub palette: bool,
}

/// The area that the color palette is drawn in: the screen less a border of 100 pixels.
pub open spec fn spec_palette_area(screen_width: u64, screen_height: u64) -> Rectangle {
    Rectangle {
        x: 100,
        y: 100,
        width: if screen_width >= 200 { (screen_width - 200) as u64 } else { 0 },
        height: if screen_height >= 200 { (screen_height - 200) as u64 } else { 0 },
    }
}

impl Game {
    /// A session on `town`, starting in the view that the story state calls for.
    pub fn new(
        world: World,
        town: Town,
        player: PlayerInfo,
        story_state: StoryState,
        now: Timestamp,
    ) -> (r: Game)
        ensures
            r.world == world,
            r.town == town,
            r.player == player,
            r.story_state == story_state,
            r.now == now,
            r.view == spec_entry_view(story_state),
            r.ui.selected_entity is None,
            r.requests@.len() == 0,
            r.messages@.len() == 0,
            r.errors@.len() == 0,
            r.active_test is None,
            !r.palette,
    {
        let view = entry_view(story_state);
        Game {
            world,
            town,
            view,
            ui: UiState::new(),
            story_state,
            player,
            now,
            requests: Vec::new(),
            messages: Vec::new(),
            errors: Vec::new(),
            active_test: None,
            palette: false,
        }
    }

    /// World, town, story, player, clock and the queues are those of `o`.
    pub open spec fn unchanged_core(&self, o: Game) -> bool {
        &&& self.world == o.world
        &&& self.town == o.town
        &&& self.story_state == o.story_state
        &&& self.player == o.player
        &&& self.now == o.now
        &&& self.requests == o.requests
        &&& self.messages == o.messages
        &&& self.errors == o.errors
    }

    /// All but the view and the interface state are those of `o`.
    pub open spec fn unchanged_but_view(&self, o: Game) -> bool {
        &&& self.unchanged_core(o)
        &&& self.active_test == o.active_test
        &&& self.palette == o.palette
    }

    /// All but the running benchmark are those of `o`.
    pub open spec fn unchanged_but_test(&self, o: Game) -> bool {
        &&& self.unchanged_core(o)
        &&& self.view == o.view
        &&& self.ui == o.ui
        &&& self.palette == o.palette
    }

    /// The outcome of a hook that adds `now` to the records `which` of the
    /// running benchmark, if one runs.
    pub open spec fn hook_recorded(&self, post: Game, which: TestRecord, now: Timestamp) -> bool {
        &&& post.unchanged_but_test(*self)
        &&& match self.active_test {
            Some(t) => post.active_test is Some && t.recorded(post.active_test->0, which, now),
            None => post.active_test is None,
        }
    }

    fn record_test(&mut self, which: TestRecord, now: Timestamp)
        ensures
            old(self).hook_recorded(*final(self), which, now),
    {
        let mut taken: Option<TestData> = None;
        core::mem::swap(&mut taken, &mut self.active_test);
        if let Some(mut test) = taken {
            test.record(which, now);
            self.active_test = Some(test);
        }
    }

    pub fn start_update(&mut self, now: Timestamp)
        ensures
            old(self).hook_recorded(*final(self), TestRecord::UpdateStart, now),
    {
        self.record_test(TestRecord::UpdateStart, now);
    }

    pub fn end_update(&mut self, now: Timestamp)
        ensures
            old(self).hook_recorded(*final(self), TestRecord::UpdateEnd, now),
    {
        self.record_test(TestRecord::UpdateEnd, now);
    }

    pub fn start_draw(&mut self, now: Timestamp)
        ensures
            old(self).hook_recorded(*final(self), TestRecord::FrameStart, now),
    {
        self.record_test(TestRecord::FrameStart, now);
    }

    /// Records the end of a frame. Once the benchmark has measured
    /// `BENCHMARK_FRAMES` frames it ends: it is handed back, for its result
    /// to be reported, and no benchmark runs any more.
    pub fn end_draw(&mut self, now: Timestamp) -> (r: Option<TestData>)
        ensures
            final(self).unchanged_but_test(*old(self)),
            match old(self).active_test {
                None => r is None && final(self).active_test is None,
                Some(t) => if t.frame_ends@.len() + 1 >= BENCHMARK_FRAMES {
                    &&& final(self).active_test is None
                    &&& r is Some
                    &&& t.recorded(r->0, TestRecord::FrameEnd, now)
                } else {
                    &&& r is None
                    &&& final(self).active_test is Some
                    &&& t.recorded(final(self).active_test->0, TestRecord::FrameEnd, now)
                },
            },
    {
        let mut taken: Option<TestData> = None;
        core::mem::swap(&mut taken, &mut self.active_test);
        match taken {
            None => None,
            Some(mut test) => {
                test.record(TestRecord::FrameEnd, now);
                if test.frame_ends.len() >= BENCHMARK_FRAMES {
                    Some(test)
                } else {
                    self.active_test = Some(test);
                    None
                }
            },
        }
    }

    /// Where the developer view draws the color palette, while it is shown.
    pub fn draw_dev_view(&self, screen_width: u64, screen_height: u64) -> (r: Option<Rectangle>)
        ensures
            r == if self.palette {
                Some(spec_palette_area(screen_width, screen_height))
            } else {
                None
            },
    {
        if self.palette {
            let width = if screen_width >= 200 { screen_width - 200 } else { 0 };
            let height = if screen_height >= 200 { screen_height - 200 } else { 0 };
            Some(Rectangle { x: 100, y: 100, width, height })
        } else {
            None
        }
    }

    /// Reacts to a key: a pressed space shows or hides the palette; while no
    /// benchmark runs, a pressed T, 1 or 2 starts one.
    pub fn dev_view_event(&mut self, key: Key, pressed: bool, now: Timestamp)
        ensures
            final(self).unchanged_core(*old(self)),
            final(self).view == old(self).view,
            final(self).ui == old(self).ui,
            (key is Space && pressed) ==> final(self).palette == !old(self).palette
                && final(self).active_test == old(self).active_test,
            !(key is Space && pressed) ==> final(self).palette == old(self).palette,
            (pressed && !(key is Space) && old(self).active_test is None && (key is T
                || key is Key1 || key is Key2)) ==> {
                &&& final(self).active_test is Some
                &&& final(self).active_test->0.kind == (if key is T {
                    TestKind::Vanilla
                } else if key is Key1 {
                    TestKind::Empty
                } else {
                    TestKind::StandardVillage
                })
                &&& final(self).active_test->0.start == now
                &&& final(self).active_test->0.update_starts@.len() == 0
                &&& final(self).active_test->0.update_ends@.len() == 0
                &&& final(self).active_test->0.frame_starts@.len() == 0
                &&& final(self).active_test->0.frame_ends@.len() == 0
            },
            !(pressed && !(key is Space) && old(self).active_test is None && (key is T
                || key is Key1 || key is Key2)) ==> final(self).active_test == old(
                self,
            ).active_test,
    {
        if pressed {
            match key {
                Key::Space => {
                    self.palette = !self.palette;
                },
                _ => {
                    if self.active_test.is_none() {
                        match key {
                            Key::T => {
                                self.active_test = Some(TestData::start_test(TestKind::Vanilla, now));
                            },
                            Key::Key1 => {
                                self.active_test = Some(TestData::start_test(TestKind::Empty, now));
                            },
                            Key::Key2 => {
                                self.active_test = Some(
                                    TestData::start_test(TestKind::StandardVillage, now),
                                );
                            },
                            _ => {},
                        }
                    }
                },
            }
        }
    }
}

} // verus!
