//! The player: stats, one job per profession, an inventory, and the activity
//! under way, if any.

use vstd::prelude::*;
use crate::activity::Activity;
use crate::constants::{level_up_experience, LEVEL_UP_EXPERIENCE};
use crate::error::{report, GameError};
use crate::inventory::{stock_can_take, stock_with, Inventory};
use crate::item::Item;
use crate::job::{
    find_job, grant_experience, has_job, job_position, jobs_after_grant, jobs_are_sound, Job,
    JobName,
};

verus! {

/// The root of the game's state. The stats and `level` are shown and saved;
/// nothing in the engine changes them.
#[derive(Debug, Clone, PartialEq)]
pub struct Player {
    pub health: u8,
    pub mana: u8,
    pub attack_power: u8,
    pub defense: u8,
    pub level: u8,
    pub jobs: Vec<Job>,
    pub inventory: Inventory,
    pub current_activity: Option<Activity>,
}

/// A player as contracts speak of one: the jobs as a sequence, the inventory
/// as its gold and its stock.
pub struct PlayerView {
    pub health: u8,
    pub mana: u8,
    pub attack_power: u8,
    pub defense: u8,
    pub level: u8,
    pub jobs: Seq<Job>,
    pub gold: u128,
    pub stock: Map<u128, Item>,
    pub activity: Option<Activity>,
}

impl View for Player {
    type V = PlayerView;

    open spec fn view(&self) -> PlayerView {
        PlayerView {
            health: self.health,
            mana: self.mana,
            attack_power: self.attack_power,
            defense: self.defense,
            level: self.level,
            jobs: self.jobs@,
            gold: self.inventory.gold,
            stock: self.inventory.items@,
            activity: self.current_activity,
        }
    }
}

/// A job as a new player has it: on level 1 of the standard curve, without
/// experience.
pub open spec fn is_fresh_job(job: Job, name: JobName, description: Seq<char>) -> bool {
    &&& job.name == name
    &&& job.description@ == description
    &&& job.level == 1
    &&& job.experience == 0
    &&& job.level_up_experience@ == LEVEL_UP_EXPERIENCE@
}

/// A player as a new game has one: the opening stats, one fresh job for each
/// profession, nothing owned, nothing under way.
pub open spec fn is_new_player(player: PlayerView) -> bool {
    &&& player.health == 100
    &&& player.mana == 100
    &&& player.attack_power == 1
    &&& player.defense == 1
    &&& player.level == 1
    &&& player.jobs.len() == 3
    &&& is_fresh_job(player.jobs[0], JobName::Woodcutter, "Cut down trees"@)
    &&& is_fresh_job(player.jobs[1], JobName::Miner, "Mine rocks"@)
    &&& is_fresh_job(player.jobs[2], JobName::Farmer, "Grow crops"@)
    &&& player.gold == 0
    &&& player.stock == Map::<u128, Item>::empty()
    &&& player.activity is None
}

impl PlayerView {
    /// The player after `elapsed` ticks: without an activity nothing happens;
    /// with one, its work is done on the jobs and the stock.
    pub open spec fn advanced(self, elapsed: nat) -> (PlayerView, Option<GameError>) {
        match self.activity {
            Some(activity) => {
                let after = activity.advance(elapsed, self.jobs, self.stock);
                (
                    PlayerView {
                        jobs: after.jobs,
                        stock: after.stock,
                        activity: Some(activity.at(after.timer)),
                        ..self
                    },
                    after.error,
                )
            },
            None => (self, None),
        }
    }
}

impl Player {
    /// The jobs are sound, the inventory is tidy, and the activity under way
    /// is well formed.
    pub open spec fn wf(self) -> bool {
        &&& jobs_are_sound(self.jobs@)
        &&& self.inventory.wf()
        &&& self.current_activity is Some ==> self.current_activity->0.wf()
    }

    /// A new player.
    pub fn new() -> (player: Player)
        ensures
            is_new_player(player@),
            player.wf(),
    {
        let mut jobs: Vec<Job> = Vec::new();
        jobs.push(
            Job::new(
                JobName::Woodcutter,
                "Cut down trees".to_string(),
                0,
                1,
                level_up_experience(),
            ),
        );
        jobs.push(Job::new(JobName::Miner, "Mine rocks".to_string(), 0, 1, level_up_experience()));
        jobs.push(Job::new(JobName::Farmer, "Grow crops".to_string(), 0, 1, level_up_experience()));
        Player {
            health: 100,
            mana: 100,
            attack_power: 1,
            defense: 1,
            level: 1,
            jobs,
            inventory: Inventory::new(),
            current_activity: None,
        }
    }

    /// Lets `delta_time` ticks pass for the activity under way.
    pub fn update(&mut self, delta_time: u64) -> (result: Result<(), GameError>)
        requires
            old(self).current_activity is Some ==> old(self).current_activity->0.duration > 0,
        ensures
            final(self)@ == old(self)@.advanced(delta_time as nat).0,
            result == report(old(self)@.advanced(delta_time as nat).1),
            old(self).wf() ==> final(self).wf(),
    {
        match &mut self.current_activity {
            Some(activity) => activity.update(delta_time, &mut self.jobs, &mut self.inventory),
            None => Ok(()),
        }
    }

    /// Makes up for `time_elapsed` ticks in one call.
    pub fn update_from_time_elapsed(&mut self, time_elapsed: u64) -> (result: Result<
        (),
        GameError,
    >)
        requires
            old(self).current_activity is Some ==> old(self).current_activity->0.duration > 0,
        ensures
            final(self)@ == old(self)@.advanced(time_elapsed as nat).0,
            result == report(old(self)@.advanced(time_elapsed as nat).1),
            old(self).wf() ==> final(self).wf(),
    {
        match &mut self.current_activity {
            Some(activity) => activity.update_from_time_elapsed(
                time_elapsed,
                &mut self.jobs,
                &mut self.inventory,
            ),
            None => Ok(()),
        }
    }

    /// Takes up `activity`. Whatever was under way is dropped with its timer.
    pub fn set_activity(&mut self, activity: Activity)
        ensures
            final(self)@ == (PlayerView { activity: Some(activity), ..old(self)@ }),
    {
        self.current_activity = Some(activity);
    }

    /// The activity under way, if any.
    pub fn get_activity(&self) -> (activity: Option<&Activity>)
        ensures
            match activity {
                Some(under_way) => self.current_activity == Some(*under_way),
                None => self.current_activity is None,
            },
    {
        self.current_activity.as_ref()
    }

    /// The player's jobs.
    pub fn get_jobs(&self) -> (jobs: &Vec<Job>)
        ensures
            *jobs == self.jobs,
    {
        &self.jobs
    }

    /// The first job called `job_name`, if the player has one.
    pub fn get_job(&self, job_name: JobName) -> (job: Option<&Job>)
        ensures
            match job {
                Some(found) => has_job(self.jobs@, job_name) && *found == self.jobs@[job_position(
                    self.jobs@,
                    job_name,
                )],
                None => !has_job(self.jobs@, job_name),
            },
    {
        match find_job(&self.jobs, job_name) {
            Some(at) => Some(&self.jobs[at]),
            None => None,
        }
    }

    /// The player's inventory.
    pub fn get_inventory(&self) -> (inventory: &Inventory)
        ensures
            *inventory == self.inventory,
    {
        &self.inventory
    }

    /// Grants `experience` to the job called `job_name`. Fails, and changes
    /// nothing, when the player has no such job or its curve gives out.
    pub fn add_experience(&mut self, job_name: JobName, experience: u128) -> (result: Result<
        (),
        GameError,
    >)
        ensures
            match jobs_after_grant(old(self).jobs@, job_name, experience) {
                Ok(jobs) => result is Ok && final(self)@ == (PlayerView { jobs, ..old(self)@ }),
                Err(error) => final(self)@ == old(self)@ && result == Err::<(), GameError>(error),
            },
            old(self).wf() ==> final(self).wf(),
    {
        grant_experience(&mut self.jobs, job_name, experience)
    }

    /// Puts `item` into the inventory.
    pub fn add_item(&mut self, item: &Item)
        requires
            stock_can_take(old(self).inventory.items@, *item),
        ensures
            final(self)@ == (PlayerView {
                stock: stock_with(old(self).inventory.items@, *item),
                ..old(self)@
            }),
            old(self).wf() ==> final(self).wf(),
    {
        self.inventory.add_item(item);
    }

    /// Adds `amount` of gold to the inventory.
    pub fn add_gold(&mut self, amount: u128)
        requires
            old(self).inventory.gold + amount <= u128::MAX,
        ensures
            final(self)@ == (PlayerView {
                gold: (old(self).inventory.gold + amount) as u128,
                ..old(self)@
            }),
            old(self).wf() ==> final(self).wf(),
    {
        self.inventory.add_gold(amount);
    }

    /// Pays `amount` of gold. Fails, and changes nothing, where less is held.
    pub fn remove_gold(&mut self, amount: u128) -> (result: Result<(), GameError>)
        ensures
            old(self).inventory.gold >= amount ==> result is Ok && final(self)@ == (PlayerView {
                gold: (old(self).inventory.gold - amount) as u128,
                ..old(self)@
            }),
            old(self).inventory.gold < amount ==> final(self)@ == old(self)@ && result == Err::<
                (),
                GameError,
            >(GameError::InsufficientGold),
            old(self).wf() ==> final(self).wf(),
    {
        self.inventory.remove_gold(amount)
    }
}

} // verus!
