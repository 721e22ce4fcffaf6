//! Quests: a goal that is measured on the player as they are, and a reward
//! that is paid once.

use vstd::prelude::*;
use std::collections::HashMap;
use vstd::std_specs::iter::IteratorSpec;
use crate::error::{report, GameError};
use crate::inventory::{quantity_in, stock_after_grants};
use crate::item::Item;
use crate::job::{find_job, has_job, job_position, jobs_after_grant, JobName};
use crate::player::{Player, PlayerView};
use crate::utils::{quests_are_keyed, QuestDatabase};

verus! {

broadcast use vstd::std_specs::hash::group_hash_axioms;

/// What a save keeps of a quest: which one, and whether its reward was paid.
#[derive(Debug, Clone, Copy, PartialEq, Eq, Structural)]
pub struct Quest {
    pub id: u128,
    pub completed: bool,
}

/// The static record of a quest.
#[derive(Debug, Clone, PartialEq)]
pub struct QuestData {
    pub id: u128,
    pub name: String,
    pub description: String,
    pub reward: Reward,
    pub goal: Goal,
}

/// What has to be reached, and how much of it.
#[derive(Debug, Clone, Copy, PartialEq, Eq, Structural)]
pub struct Goal {
    pub objective: Objective,
    pub required_amount: u128,
}

/// What a goal counts.
#[derive(Debug, Clone, Copy, PartialEq, Eq, Structural)]
pub enum Objective {
    /// How many of the item with this id the inventory holds.
    CollectItem(u128),
    /// How much gold the inventory holds.
    CollectGold(),
    /// The level of this job.
    ReachJobLevel(JobName),
    /// The level of the player.
    ReachLevel(),
}

/// Experience for one job.
#[derive(Debug, Clone, Copy, PartialEq, Eq, Structural)]
pub struct JobExperience {
    pub job: JobName,
    pub amount: u128,
}

/// What a quest pays. Each part may be missing.
#[derive(Debug, Clone, PartialEq)]
pub struct Reward {
    pub experience: Option<JobExperience>,
    pub items: Option<Vec<Item>>,
    pub gold: Option<u128>,
}

/// How an attempt to complete a quest ended without an error.
#[derive(Debug, Clone, Copy, PartialEq, Eq, Structural)]
pub enum Completion {
    /// The goal was reached; the reward was paid and the quest is completed.
    Granted,
    /// The quest had been completed before; nothing was paid again.
    AlreadyCompleted,
    /// The goal is not reached yet; nothing happened.
    GoalNotReached,
}

impl Goal {
    /// How far the player has come towards the goal. A job that the player
    /// does not have counts as level 0.
    pub open spec fn progress(self, player: PlayerView) -> nat {
        match self.objective {
            Objective::CollectItem(id) => quantity_in(player.stock, id),
            Objective::CollectGold() => player.gold as nat,
            Objective::ReachJobLevel(name) => if has_job(player.jobs, name) {
                player.jobs[job_position(player.jobs, name)].level as nat
            } else {
                0
            },
            Objective::ReachLevel() => player.level as nat,
        }
    }

    /// The player has reached the goal. The level of a job that the player
    /// does not have reaches nothing.
    pub open spec fn reached(self, player: PlayerView) -> bool {
        match self.objective {
            Objective::ReachJobLevel(name) => has_job(player.jobs, name) && self.progress(player)
                >= self.required_amount,
            _ => self.progress(player) >= self.required_amount,
        }
    }

    /// Measures how far `player` has come towards the goal.
    pub fn current_progress(&self, player: &Player) -> (amount: u128)
        ensures
            amount == self.progress(player@),
    {
        match self.objective {
            Objective::CollectItem(id) => player.inventory.get_item_quantity(id),
            Objective::CollectGold() => player.inventory.gold,
            Objective::ReachJobLevel(name) => match find_job(&player.jobs, name) {
                Some(at) => player.jobs[at].level as u128,
                None => 0,
            },
            Objective::ReachLevel() => player.level as u128,
        }
    }

    /// Tells whether `player` has reached the goal.
    pub fn is_reached(&self, player: &Player) -> (reached: bool)
        ensures
            reached == self.reached(player@),
    {
        match self.objective {
            Objective::ReachJobLevel(name) => match find_job(&player.jobs, name) {
                Some(at) => player.jobs[at].level as u128 >= self.required_amount,
                None => false,
            },
            _ => self.current_progress(player) >= self.required_amount,
        }
    }
}

impl Reward {
    /// The player after the reward was paid: first the experience, then the
    /// items in their order, then the gold. The first part that fails stops
    /// the payment; what was paid before it stays paid.
    pub open spec fn granted(self, player: PlayerView) -> (PlayerView, Option<GameError>) {
        let trained = match self.experience {
            Some(experience) => jobs_after_grant(player.jobs, experience.job, experience.amount),
            None => Ok(player.jobs),
        };
        match trained {
            Err(error) => (player, Some(error)),
            Ok(jobs) => {
                let (stock, overflowed) = match self.items {
                    Some(items) => stock_after_grants(player.stock, items@),
                    None => (player.stock, None),
                };
                let paid = PlayerView { jobs, stock, ..player };
                if overflowed is Some {
                    (paid, overflowed)
                } else {
                    match self.gold {
                        Some(gold) => if player.gold + gold > u128::MAX {
                            (paid, Some(GameError::GoldOverflow))
                        } else {
                            (PlayerView { gold: (player.gold + gold) as u128, ..paid }, None)
                        },
                        None => (paid, None),
                    }
                }
            },
        }
    }

    /// Pays the reward to `player`.
    pub fn grant(&self, player: &mut Player) -> (result: Result<(), GameError>)
        ensures
            final(player)@ == self.granted(old(player)@).0,
            result == report(self.granted(old(player)@).1),
            old(player).wf() ==> final(player).wf(),
    {
        match &self.experience {
            Some(experience) => {
                match player.add_experience(experience.job, experience.amount) {
                    Ok(()) => {},
                    Err(error) => {
                        return Err(error);
                    },
                }
            },
            None => {},
        }
        match &self.items {
            Some(items) => {
                match player.inventory.try_add_items(items) {
                    Ok(()) => {},
                    Err(error) => {
                        return Err(error);
                    },
                }
            },
            None => {},
        }
        match self.gold {
            Some(gold) => {
                if gold > u128::MAX - player.inventory.gold {
                    return Err(GameError::GoldOverflow);
                }
                player.add_gold(gold);
            },
            None => {},
        }
        Ok(())
    }
}

impl Quest {
    /// What an attempt to complete the quest does to the quest and the player,
    /// and what it reports. A quest that the database does not know is an
    /// error. A quest that is completed already, or whose goal the player has
    /// not reached, is left alone with the player. Otherwise the reward is
    /// paid, and the quest is completed if all of it could be paid.
    pub open spec fn completion(
        self,
        player: PlayerView,
        database: Map<u128, QuestData>,
    ) -> (Quest, PlayerView, Result<Completion, GameError>) {
        if !database.contains_key(self.id) {
            (self, player, Err(GameError::QuestNotFound { id: self.id }))
        } else if self.completed {
            (self, player, Ok(Completion::AlreadyCompleted))
        } else if !database[self.id].goal.reached(player) {
            (self, player, Ok(Completion::GoalNotReached))
        } else {
            let (paid, failed) = database[self.id].reward.granted(player);
            match failed {
                Some(error) => (self, paid, Err(error)),
                None => (Quest { completed: true, ..self }, paid, Ok(Completion::Granted)),
            }
        }
    }

    /// The quest with id `id`.
    pub fn new(id: u128, completed: bool) -> (quest: Quest)
        ensures
            quest == (Quest { id, completed }),
    {
        Quest { id, completed }
    }

    /// Tells whether `player` has reached the goal of `quest_data`, as they
    /// are now.
    pub fn check_completion(&self, quest_data: &QuestData, player: &Player) -> (reached: bool)
        ensures
            reached == quest_data.goal.reached(player@),
    {
        quest_data.goal.is_reached(player)
    }

    /// Tries to complete the quest: pays its reward to `player` and marks it
    /// completed, if the goal is reached and the quest was not completed
    /// before.
    pub fn complete(&mut self, player: &mut Player, quest_database: &QuestDatabase) -> (result:
        Result<Completion, GameError>)
        ensures
            (*final(self), final(player)@, result) == old(self).completion(
                old(player)@,
                quest_database@,
            ),
            old(self).completed ==> final(self).completed,
            old(player).wf() ==> final(player).wf(),
    {
        let quest_data = match quest_database.get(&self.id) {
            Some(quest_data) => quest_data,
            None => {
                return Err(GameError::QuestNotFound { id: self.id });
            },
        };
        if self.completed {
            return Ok(Completion::AlreadyCompleted);
        }
        if !self.check_completion(quest_data, player) {
            return Ok(Completion::GoalNotReached);
        }
        match quest_data.reward.grant(player) {
            Ok(()) => {
                self.completed = true;
                Ok(Completion::Granted)
            },
            Err(error) => Err(error),
        }
    }
}

/// A quest database without entries.
pub fn quest_database() -> (database: QuestDatabase)
    ensures
        database@ == Map::<u128, QuestData>::empty(),
{
    HashMap::new()
}

/// A quest is paid once: completing a quest that was just completed changes
/// neither the quest nor the player, whatever the player has reached by then,
/// and a completed quest stays completed through any attempt.
pub proof fn lemma_complete_pays_once(
    quest: Quest,
    player: PlayerView,
    database: Map<u128, QuestData>,
)
    ensures
        ({
            let (first_quest, first_player, first_result) = quest.completion(player, database);
            &&& first_result == Ok::<Completion, GameError>(Completion::Granted)
                ==> first_quest.completed && first_quest.completion(first_player, database) == (
                first_quest,
                first_player,
                Ok::<Completion, GameError>(Completion::AlreadyCompleted),
            )
            &&& quest.completed ==> first_quest == quest && first_player == player
            &&& first_result is Ok ==> (first_quest.completed <==> quest.completed || first_result
                == Ok::<Completion, GameError>(Completion::Granted))
        }),
{
}

/// The quests of a new game: one for each entry of the database, none of
/// them completed, in the order `keys` of the entries.
pub open spec fn quests_of(keys: Seq<u128>, database: Map<u128, QuestData>) -> Seq<Quest> {
    Seq::new(keys.len(), |at: int| Quest { id: database[keys[at]].id, completed: false })
}

/// `quests` holds exactly one quest for each entry of the database, none of
/// them completed. The order is that of some walk through the entries.
pub open spec fn is_fresh_quest_list(quests: Seq<Quest>, database: Map<u128, QuestData>) -> bool {
    exists|keys: Seq<u128>|
        keys.no_duplicates() && keys.to_set() == database.dom() && #[trigger] quests_of(
            keys,
            database,
        ) == quests
}

/// The quests of a new game.
pub fn fresh_quests(database: &QuestDatabase) -> (quests: Vec<Quest>)
    ensures
        is_fresh_quest_list(quests@, database@),
        quests@.len() == database@.len(),
        forall|at: int| 0 <= at < quests@.len() ==> !(#[trigger] quests@[at]).completed,
{
    let mut quests: Vec<Quest> = Vec::new();
    for key in walk: database.keys()
        invariant
            walk.seq() == database.keys().remaining(),
            quests@ == quests_of(
                walk.seq().unref().subrange(0, walk.index() as int),
                database@,
            ),
    {
        let ghost keys = walk.seq().unref();
        assert(keys.to_set().contains(keys[walk.index() as int]));
        match database.get(key) {
            Some(quest_data) => {
                quests.push(Quest::new(quest_data.id, false));
            },
            None => {},
        }
        assert(quests@ =~= quests_of(keys.subrange(0, walk.index() + 1), database@));
    }
    let ghost keys = database.keys().remaining().unref();
    assert(keys.subrange(0, keys.len() as int) =~= keys);
    assert(quests@ == quests_of(keys, database@));
    quests
}

/// The quests to go on with: those the save held, or, where it held none,
/// the quests of a new game.
pub fn restore_quests(saved: Vec<Quest>, database: &QuestDatabase) -> (quests: Vec<Quest>)
    ensures
        saved@.len() > 0 ==> quests@ == saved@,
        saved@.len() == 0 ==> is_fresh_quest_list(quests@, database@) && quests@.len()
            == database@.len(),
{
    if saved.len() == 0 {
        fresh_quests(database)
    } else {
        saved
    }
}

/// In a fresh quest list over a database that keeps every record under its
/// id, each entry of the database has its quest, and no two quests share an
/// id.
pub proof fn lemma_fresh_quests_match_entries(quests: Seq<Quest>, database: Map<u128, QuestData>)
    requires
        is_fresh_quest_list(quests, database),
        quests_are_keyed(database),
    ensures
        forall|id: u128| #[trigger]
            database.contains_key(id) ==> exists|at: int|
                0 <= at < quests.len() && quests[at] == (Quest { id, completed: false }),
        forall|at: int| 0 <= at < quests.len() ==> database.contains_key((#[trigger] quests[at]).id),
        forall|first: int, second: int|
            0 <= first < second < quests.len() ==> (#[trigger] quests[first]).id != (
            #[trigger] quests[second]).id,
{
    let keys = choose|keys: Seq<u128>|
        keys.no_duplicates() && keys.to_set() == database.dom() && #[trigger] quests_of(
            keys,
            database,
        ) == quests;
    assert forall|at: int| 0 <= at < quests.len() implies database.contains_key(keys[at])
        && (#[trigger] quests[at]).id == keys[at] by {
        assert(keys.to_set().contains(keys[at]));
    }
    assert forall|id: u128| #[trigger] database.contains_key(id) implies exists|at: int|
        0 <= at < quests.len() && quests[at] == (Quest { id, completed: false }) by {
        assert(keys.to_set().contains(id));
        let at = choose|at: int| 0 <= at < keys.len() && keys[at] == id;
        assert(quests[at] == (Quest { id, completed: false }));
    }
}

} // verus!
