//! A game in play: the player, the screen, and the quests, and what a frame,
//! a click and a return after time away do to them.

use vstd::prelude::*;
use crate::activity::{activity_label, Activity, ActivityName};
use crate::constants::{
    ACTIVITY_DURATION, ACTIVITY_EXPERIENCE, STONE, TICKS_PER_SECOND, WHEAT, WOOD,
};
use crate::error::{report, GameError};
use crate::game_state::{GameState, QuestState};
use crate::item::Item;
use crate::job::JobName;
use crate::player::{is_new_player, Player, PlayerView};
use crate::quest::{is_fresh_quest_list, restore_quests, Completion, Quest, QuestData};
use crate::save::{seconds_since, Save};
use crate::ui::ButtonClicked;
use crate::utils::QuestDatabase;

verus! {

/// The state of a game in play.
#[derive(Debug, Clone, PartialEq)]
pub struct Game {
    pub player: Player,
    pub game_state: GameState,
    pub quests: Vec<Quest>,
}

/// A game as contracts speak of one.
pub struct GameView {
    pub player: PlayerView,
    pub game_state: GameState,
    pub quests: Seq<Quest>,
}

impl View for Game {
    type V = GameView;

    open spec fn view(&self) -> GameView {
        GameView { player: self.player@, game_state: self.game_state, quests: self.quests@ }
    }
}

/// The ticks in `seconds`, as far as a `u64` counts.
pub open spec fn ticks_in(seconds: u64) -> u64 {
    if seconds * TICKS_PER_SECOND <= u64::MAX {
        (seconds * TICKS_PER_SECOND) as u64
    } else {
        u64::MAX
    }
}

/// Turns seconds into ticks. A span too long to count in ticks counts as the
/// longest that can be counted.
pub fn seconds_to_ticks(seconds: u64) -> (ticks: u64)
    ensures
        ticks == ticks_in(seconds),
{
    if seconds <= u64::MAX / TICKS_PER_SECOND {
        assert(seconds * TICKS_PER_SECOND <= u64::MAX) by (nonlinear_arith)
            requires
                seconds <= u64::MAX / TICKS_PER_SECOND,
                TICKS_PER_SECOND == 1_000_000,
        ;
        seconds * TICKS_PER_SECOND
    } else {
        assert(seconds * TICKS_PER_SECOND > u64::MAX) by (nonlinear_arith)
            requires
                seconds > u64::MAX / TICKS_PER_SECOND,
                TICKS_PER_SECOND == 1_000_000,
        ;
        u64::MAX
    }
}

/// The job that a kind of work trains.
pub open spec fn job_of(name: ActivityName) -> JobName {
    match name {
        ActivityName::Woodcutting => JobName::Woodcutter,
        ActivityName::Mining => JobName::Miner,
        ActivityName::Farming => JobName::Farmer,
    }
}

/// The item that a kind of work yields.
pub open spec fn product_of(name: ActivityName) -> u128 {
    match name {
        ActivityName::Woodcutting => WOOD,
        ActivityName::Mining => STONE,
        ActivityName::Farming => WHEAT,
    }
}

/// `activity` is the standard activity of its kind, not yet begun: each
/// cycle takes the standard duration, trains the kind's job and yields one of
/// the kind's item.
pub open spec fn is_standard_activity(activity: Activity, name: ActivityName) -> bool {
    &&& activity.name == name
    &&& activity.description@ == activity_label(name)
    &&& activity.duration == ACTIVITY_DURATION
    &&& activity.timer == 0
    &&& activity.experience@ == seq![(job_of(name), ACTIVITY_EXPERIENCE)]
    &&& activity.items@ == seq![Item { id: product_of(name), quantity: 1 }]
}

/// The standard activity of a kind.
pub fn standard_activity(name: ActivityName) -> (activity: Activity)
    ensures
        is_standard_activity(activity, name),
        activity.wf(),
{
    let (job, product): (JobName, u128) = match name {
        ActivityName::Woodcutting => (JobName::Woodcutter, WOOD),
        ActivityName::Mining => (JobName::Miner, STONE),
        ActivityName::Farming => (JobName::Farmer, WHEAT),
    };
    let mut experience: Vec<(JobName, u128)> = Vec::new();
    experience.push((job, ACTIVITY_EXPERIENCE));
    let mut items: Vec<Item> = Vec::new();
    items.push(Item::new(product, 1));
    let activity = Activity::new(name, name.to_string(), ACTIVITY_DURATION, experience, items);
    assert(activity.experience@ =~= seq![(job_of(name), ACTIVITY_EXPERIENCE)]);
    assert(activity.items@ =~= seq![Item { id: product_of(name), quantity: 1 }]);
    activity
}

/// The screen that a click leads to. Clicks that do not change the screen
/// leave it as it is.
pub open spec fn screen_after(state: GameState, click: ButtonClicked) -> GameState {
    match click {
        ButtonClicked::Activity => GameState::Activity,
        ButtonClicked::Crafting => GameState::Crafting,
        ButtonClicked::Inventory => GameState::Inventory,
        ButtonClicked::Quest => GameState::Quest(QuestState::Available),
        ButtonClicked::AvailableQuests => GameState::Quest(QuestState::Available),
        ButtonClicked::CompletedQuests => GameState::Quest(QuestState::Completed),
        _ => state,
    }
}

/// The kind of work that a click chooses, if it chooses one.
pub open spec fn work_chosen(click: ButtonClicked) -> Option<ActivityName> {
    match click {
        ButtonClicked::Woodcutting => Some(ActivityName::Woodcutting),
        ButtonClicked::Mining => Some(ActivityName::Mining),
        ButtonClicked::Farming => Some(ActivityName::Farming),
        _ => None,
    }
}

/// `at` is the place of the first quest with id `id`.
pub open spec fn is_first_quest(quests: Seq<Quest>, id: u128, at: int) -> bool {
    &&& 0 <= at < quests.len()
    &&& quests[at].id == id
    &&& forall|before: int| 0 <= before < at ==> (#[trigger] quests[before]).id != id
}

/// Some quest has id `id`.
pub open spec fn has_quest(quests: Seq<Quest>, id: u128) -> bool {
    exists|at: int| is_first_quest(quests, id, at)
}

/// The place of the first quest with id `id`, where there is one.
pub open spec fn quest_position(quests: Seq<Quest>, id: u128) -> int {
    choose|at: int| is_first_quest(quests, id, at)
}

/// Looks for the first quest with id `id`.
pub fn find_quest(quests: &Vec<Quest>, id: u128) -> (found: Option<usize>)
    ensures
        match found {
            Some(at) => is_first_quest(quests@, id, at as int) && at == quest_position(quests@, id),
            None => !has_quest(quests@, id),
        },
        found is Some <==> has_quest(quests@, id),
{
    let mut at: usize = 0;
    while at < quests.len()
        invariant
            at <= quests@.len(),
            forall|before: int| 0 <= before < at ==> (#[trigger] quests@[before]).id != id,
        decreases quests@.len() - at,
    {
        if quests[at].id == id {
            assert(is_first_quest(quests@, id, at as int));
            return Some(at);
        }
        at = at + 1;
    }
    None
}

impl GameView {
    /// The game after a click on the quest with id `id`, and what the click
    /// reports: an attempt to complete the first quest with that id, or an
    /// error where there is none.
    pub open spec fn quest_clicked(self, id: u128, database: Map<u128, QuestData>) -> (
        GameView,
        Result<Option<Completion>, GameError>,
    ) {
        if has_quest(self.quests, id) {
            let at = quest_position(self.quests, id);
            let (quest, player, result) = self.quests[at].completion(self.player, database);
            (
                GameView { player, quests: self.quests.update(at, quest), ..self },
                match result {
                    Ok(completion) => Ok(Some(completion)),
                    Err(error) => Err(error),
                },
            )
        } else {
            (self, Err(GameError::QuestNotFound { id }))
        }
    }
}

impl Game {
    /// The player is well formed.
    pub open spec fn wf(self) -> bool {
        self.player.wf()
    }

    /// A game that starts from nothing: a new player on the opening screen,
    /// and no quests yet.
    pub fn new() -> (game: Game)
        ensures
            is_new_player(game.player@),
            game.game_state == GameState::Activity,
            game.quests@ == Seq::<Quest>::empty(),
            game.wf(),
    {
        Game { player: Player::new(), game_state: GameState::new(), quests: Vec::new() }
    }

    /// Takes a saved game up again at `current_time`, in seconds since the
    /// Unix epoch: the activity under way makes up for the time away, and a
    /// save without quests gets the quests of a new game. An error in making
    /// up is handed back beside the game, which goes on from where the error
    /// left it.
    pub fn resume(save: Save, current_time: u64, quest_database: &QuestDatabase) -> (resumed: (
        Game,
        Result<(), GameError>,
    ))
        requires
            save.player.current_activity is Some ==> save.player.current_activity->0.duration > 0,
        ensures
            ({
                let away = ticks_in(seconds_since(save.timestamp, current_time)) as nat;
                &&& resumed.0.player@ == save.player@.advanced(away).0
                &&& resumed.1 == report(save.player@.advanced(away).1)
            }),
            resumed.0.game_state == save.game_state,
            save.quests@.len() > 0 ==> resumed.0.quests@ == save.quests@,
            save.quests@.len() == 0 ==> is_fresh_quest_list(resumed.0.quests@, quest_database@)
                && resumed.0.quests@.len() == quest_database@.len(),
            save.player.wf() ==> resumed.0.wf(),
    {
        let away = seconds_to_ticks(save.time_elapsed(current_time));
        let Save { game_state, player, quests, timestamp: _ } = save;
        let mut player = player;
        let caught_up = player.update_from_time_elapsed(away);
        let quests = restore_quests(quests, quest_database);
        (Game { player, game_state, quests }, caught_up)
    }

    /// Lets the `delta_time` ticks of one frame pass.
    pub fn update(&mut self, delta_time: u64) -> (result: Result<(), GameError>)
        requires
            old(self).player.current_activity is Some ==> old(
                self,
            ).player.current_activity->0.duration > 0,
        ensures
            final(self)@ == (GameView {
                player: old(self).player@.advanced(delta_time as nat).0,
                ..old(self)@
            }),
            result == report(old(self).player@.advanced(delta_time as nat).1),
            old(self).wf() ==> final(self).wf(),
    {
        self.player.update(delta_time)
    }

    /// Does what a click asks for. A click on a screen button changes the
    /// screen. A click on a kind of work starts the standard activity of that
    /// kind in place of whatever was under way. A click on a quest tries to
    /// complete it. The other clicks do nothing.
    pub fn handle(&mut self, click: ButtonClicked, quest_database: &QuestDatabase) -> (result:
        Result<Option<Completion>, GameError>)
        ensures
            match click {
                ButtonClicked::QuestCompleteClicked(id) => (final(self)@, result) == old(
                    self,
                )@.quest_clicked(id, quest_database@),
                _ => {
                    &&& result == Ok::<Option<Completion>, GameError>(None)
                    &&& final(self).game_state == screen_after(old(self).game_state, click)
                    &&& final(self).quests@ == old(self).quests@
                    &&& final(self).player@ == (PlayerView {
                        activity: final(self).player.current_activity,
                        ..old(self).player@
                    })
                    &&& match work_chosen(click) {
                        Some(name) => final(self).player.current_activity is Some
                            && is_standard_activity(final(self).player.current_activity->0, name),
                        None => final(self).player.current_activity == old(
                            self,
                        ).player.current_activity,
                    }
                },
            },
            old(self).wf() ==> final(self).wf(),
    {
        match click {
            ButtonClicked::Activity => {
                self.game_state = GameState::Activity;
            },
            ButtonClicked::Crafting => {
                self.game_state = GameState::Crafting;
            },
            ButtonClicked::Inventory => {
                self.game_state = GameState::Inventory;
            },
            ButtonClicked::Quest => {
                self.game_state = GameState::Quest(QuestState::Available);
            },
            ButtonClicked::AvailableQuests => {
                self.game_state = GameState::Quest(QuestState::Available);
            },
            ButtonClicked::CompletedQuests => {
                self.game_state = GameState::Quest(QuestState::Completed);
            },
            ButtonClicked::Woodcutting => {
                self.player.set_activity(standard_activity(ActivityName::Woodcutting));
            },
            ButtonClicked::Mining => {
                self.player.set_activity(standard_activity(ActivityName::Mining));
            },
            ButtonClicked::Farming => {
                self.player.set_activity(standard_activity(ActivityName::Farming));
            },
            ButtonClicked::QuestCompleteClicked(id) => {
                return match find_quest(&self.quests, id) {
                    Some(at) => match self.quests[at].complete(&mut self.player, quest_database) {
                        Ok(completion) => Ok(Some(completion)),
                        Err(error) => Err(error),
                    },
                    None => Err(GameError::QuestNotFound { id }),
                };
            },
            ButtonClicked::Stats => {},
            ButtonClicked::Jobs => {},
        }
        Ok(None)
    }
}

} // verus!
