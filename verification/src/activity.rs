//! Activities: timed work that pays experience and items each time its
//! duration has run.

use vstd::prelude::*;
use vstd::arithmetic::div_mod::{
    lemma_fundamental_div_mod, lemma_fundamental_div_mod_converse, lemma_mod_pos_bound,
};
use crate::error::{report, GameError};
use crate::inventory::{
    lemma_stock_after_grants_counts, quantity_in, stock_after_grants, yield_of, Inventory,
};
use crate::item::Item;
use crate::job::{
    grant_experience, is_first_job, job_position, jobs_after_grant, jobs_are_sound,
    lemma_grant_changes_one_job, lemma_same_names_same_places, same_names, Job, JobName,
};

verus! {

/// The kinds of work a player can take up.
#[derive(Debug, Clone, Copy, PartialEq, Eq, Structural)]
pub enum ActivityName {
    Woodcutting,
    Mining,
    Farming,
}

/// Work in progress. `timer` counts the ticks of the running cycle and stays
/// below `duration`; each time a cycle is full, every entry of `experience`
/// goes to its job and every entry of `items` into the inventory.
#[derive(Debug, Clone, PartialEq)]
pub struct Activity {
    pub name: ActivityName,
    pub description: String,
    pub duration: u64,
    pub timer: u64,
    pub experience: Vec<(JobName, u128)>,
    pub items: Vec<Item>,
}

/// Where a run of grants ended: the jobs and the stock that it reached, and
/// the error that stopped it, if one did.
pub struct Outcome {
    pub jobs: Seq<Job>,
    pub stock: Map<u128, Item>,
    pub error: Option<GameError>,
}

/// Where an advance of an activity ended: its timer, the jobs and the stock,
/// and the error that stopped it, if one did.
pub struct Advance {
    pub timer: nat,
    pub jobs: Seq<Job>,
    pub stock: Map<u128, Item>,
    pub error: Option<GameError>,
}

/// The jobs after each grant in turn went to the job it names. The first
/// grant that fails stops the run; those before it stay made.
pub open spec fn jobs_after_grants(jobs: Seq<Job>, grants: Seq<(JobName, u128)>) -> (
    Seq<Job>,
    Option<GameError>,
)
    decreases grants.len(),
{
    if grants.len() == 0 {
        (jobs, None)
    } else {
        match jobs_after_grant(jobs, grants[0].0, grants[0].1) {
            Ok(granted) => jobs_after_grants(granted, grants.drop_first()),
            Err(error) => (jobs, Some(error)),
        }
    }
}

/// One reward cycle: all experience grants, then all item grants.
pub open spec fn reward_cycle(
    grants: Seq<(JobName, u128)>,
    items: Seq<Item>,
    jobs: Seq<Job>,
    stock: Map<u128, Item>,
) -> Outcome {
    let (trained, failed) = jobs_after_grants(jobs, grants);
    if failed is Some {
        Outcome { jobs: trained, stock, error: failed }
    } else {
        let (filled, overflowed) = stock_after_grants(stock, items);
        Outcome { jobs: trained, stock: filled, error: overflowed }
    }
}

/// `count` reward cycles in a row. The first cycle that fails stops the run.
pub open spec fn reward_cycles(
    grants: Seq<(JobName, u128)>,
    items: Seq<Item>,
    count: nat,
    jobs: Seq<Job>,
    stock: Map<u128, Item>,
) -> Outcome
    decreases count,
{
    if count == 0 {
        Outcome { jobs, stock, error: None }
    } else {
        let paid = reward_cycle(grants, items, jobs, stock);
        if paid.error is Some {
            paid
        } else {
            reward_cycles(grants, items, (count - 1) as nat, paid.jobs, paid.stock)
        }
    }
}

/// The name of a kind of work as it is shown.
pub open spec fn activity_label(name: ActivityName) -> Seq<char> {
    match name {
        ActivityName::Woodcutting => "Woodcutting"@,
        ActivityName::Mining => "Mining"@,
        ActivityName::Farming => "Farming"@,
    }
}

impl ActivityName {
    /// The name of the kind of work as it is shown.
    pub fn to_string(&self) -> (label: String)
        ensures
            label@ == activity_label(*self),
    {
        match self {
            ActivityName::Woodcutting => "Woodcutting".to_string(),
            ActivityName::Mining => "Mining".to_string(),
            ActivityName::Farming => "Farming".to_string(),
        }
    }
}

impl Activity {
    /// A cycle takes time, and the running cycle is not yet full.
    pub open spec fn wf(self) -> bool {
        self.duration > 0 && self.timer < self.duration
    }

    /// This activity with its timer at `timer`.
    pub open spec fn at(self, timer: nat) -> Activity {
        Activity { timer: timer as u64, ..self }
    }

    /// The activity's work over `elapsed` ticks: as many reward cycles as the
    /// time in the running cycle plus `elapsed` holds full durations, and then
    /// the timer at what is left over. A cycle that fails stops the work and
    /// leaves the timer where it was.
    pub open spec fn advance(
        self,
        elapsed: nat,
        jobs: Seq<Job>,
        stock: Map<u128, Item>,
    ) -> Advance {
        let due = ((self.timer + elapsed) / (self.duration as int)) as nat;
        let paid = reward_cycles(self.experience@, self.items@, due, jobs, stock);
        Advance {
            timer: if paid.error is None {
                ((self.timer + elapsed) % (self.duration as int)) as nat
            } else {
                self.timer as nat
            },
            jobs: paid.jobs,
            stock: paid.stock,
            error: paid.error,
        }
    }

    /// An activity that has not begun. `duration` is the length of one
    /// cycle in ticks.
    pub fn new(
        name: ActivityName,
        description: String,
        duration: u64,
        experience: Vec<(JobName, u128)>,
        items: Vec<Item>,
    ) -> (activity: Activity)
        requires
            duration > 0,
        ensures
            activity == (Activity { name, description, duration, timer: 0, experience, items }),
            activity.wf(),
    {
        Activity { name, description, duration, experience, timer: 0, items }
    }

    /// Lets `delta_time` ticks pass. This is `update_from_time_elapsed`: a
    /// step that spans several cycles pays for each of them, and what a step
    /// runs past the end of a cycle counts towards the next.
    pub fn update(
        &mut self,
        delta_time: u64,
        jobs: &mut Vec<Job>,
        inventory: &mut Inventory,
    ) -> (result: Result<(), GameError>)
        requires
            old(self).duration > 0,
        ensures
            ({
                let after = old(self).advance(
                    delta_time as nat,
                    old(jobs)@,
                    old(inventory).items@,
                );
                &&& *final(self) == old(self).at(after.timer)
                &&& final(jobs)@ == after.jobs
                &&& final(inventory).items@ == after.stock
                &&& result == report(after.error)
            }),
            final(inventory).gold == old(inventory).gold,
            result is Ok || old(self).wf() ==> final(self).wf(),
            jobs_are_sound(old(jobs)@) ==> jobs_are_sound(final(jobs)@),
            old(inventory).wf() ==> final(inventory).wf(),
    {
        self.update_from_time_elapsed(delta_time, jobs, inventory)
    }

    /// Lets `time_elapsed` ticks pass: pays one reward cycle for every full
    /// duration in the time of the running cycle plus `time_elapsed`, then
    /// sets the timer to the remainder. A cycle that fails stops the run with
    /// its error; what was paid before stays paid and the timer is left alone.
    pub fn update_from_time_elapsed(
        &mut self,
        time_elapsed: u64,
        jobs: &mut Vec<Job>,
        inventory: &mut Inventory,
    ) -> (result: Result<(), GameError>)
        requires
            old(self).duration > 0,
        ensures
            ({
                let after = old(self).advance(
                    time_elapsed as nat,
                    old(jobs)@,
                    old(inventory).items@,
                );
                &&& *final(self) == old(self).at(after.timer)
                &&& final(jobs)@ == after.jobs
                &&& final(inventory).items@ == after.stock
                &&& result == report(after.error)
            }),
            final(inventory).gold == old(inventory).gold,
            result is Ok || old(self).wf() ==> final(self).wf(),
            jobs_are_sound(old(jobs)@) ==> jobs_are_sound(final(jobs)@),
            old(inventory).wf() ==> final(inventory).wf(),
    {
        let total: u128 = self.timer as u128 + time_elapsed as u128;
        let due: u128 = total / (self.duration as u128);
        let mut paid: u128 = 0;
        while paid < due
            invariant
                paid <= due,
                *self == *old(self),
                inventory.gold == old(inventory).gold,
                reward_cycles(
                    self.experience@,
                    self.items@,
                    (due - paid) as nat,
                    jobs@,
                    inventory.items@,
                ) == reward_cycles(
                    self.experience@,
                    self.items@,
                    due as nat,
                    old(jobs)@,
                    old(inventory).items@,
                ),
                due == (old(self).timer + time_elapsed) / (old(self).duration as int),
                jobs_are_sound(old(jobs)@) ==> jobs_are_sound(jobs@),
                old(inventory).wf() ==> inventory.wf(),
            decreases due - paid,
        {
            match self.reward(jobs, inventory) {
                Ok(()) => {},
                Err(error) => {
                    return Err(error);
                },
            }
            paid = paid + 1;
        }
        self.timer = (total % (self.duration as u128)) as u64;
        Ok(())
    }

    /// Pays one reward cycle.
    fn reward(&self, jobs: &mut Vec<Job>, inventory: &mut Inventory) -> (result: Result<
        (),
        GameError,
    >)
        ensures
            ({
                let paid = reward_cycle(
                    self.experience@,
                    self.items@,
                    old(jobs)@,
                    old(inventory).items@,
                );
                &&& final(jobs)@ == paid.jobs
                &&& final(inventory).items@ == paid.stock
                &&& result == report(paid.error)
            }),
            final(inventory).gold == old(inventory).gold,
            jobs_are_sound(old(jobs)@) ==> jobs_are_sound(final(jobs)@),
            old(inventory).wf() ==> final(inventory).wf(),
    {
        match self.reward_experience(jobs) {
            Ok(()) => self.reward_items(inventory),
            Err(error) => Err(error),
        }
    }

    /// Grants each entry of `experience` to the job it names, in order.
    fn reward_experience(&self, jobs: &mut Vec<Job>) -> (result: Result<(), GameError>)
        ensures
            ({
                let (trained, failed) = jobs_after_grants(old(jobs)@, self.experience@);
                final(jobs)@ == trained && result == report(failed)
            }),
            jobs_are_sound(old(jobs)@) ==> jobs_are_sound(final(jobs)@),
    {
        let count: usize = self.experience.len();
        let mut next: usize = 0;
        assert(self.experience@.subrange(0, count as int) =~= self.experience@);
        while next < count
            invariant
                next <= count,
                count == self.experience@.len(),
                jobs_after_grants(jobs@, self.experience@.subrange(next as int, count as int))
                    == jobs_after_grants(old(jobs)@, self.experience@),
                jobs_are_sound(old(jobs)@) ==> jobs_are_sound(jobs@),
            decreases count - next,
        {
            let (name, amount) = self.experience[next];
            assert(self.experience@.subrange(next as int, count as int).drop_first()
                =~= self.experience@.subrange(next + 1, count as int));
            match grant_experience(jobs, name, amount) {
                Ok(()) => {},
                Err(error) => {
                    return Err(error);
                },
            }
            next = next + 1;
        }
        Ok(())
    }

    /// Puts each entry of `items` into the inventory, in order.
    fn reward_items(&self, inventory: &mut Inventory) -> (result: Result<(), GameError>)
        ensures
            ({
                let (filled, overflowed) = stock_after_grants(old(inventory).items@, self.items@);
                final(inventory).items@ == filled && result == report(overflowed)
            }),
            final(inventory).gold == old(inventory).gold,
            old(inventory).wf() ==> final(inventory).wf(),
    {
        inventory.try_add_items(&self.items)
    }

    /// The name of the activity's kind as it is shown.
    pub fn to_string(&self) -> (label: String)
        ensures
            label@ == activity_label(self.name),
    {
        self.name.to_string()
    }
}

/// Time that passes in two steps fills the same cycles, and leaves the same
/// remainder, as the same time in one step.
pub proof fn lemma_time_in_two_steps(timer: int, duration: int, first: int, second: int)
    requires
        0 <= timer,
        0 < duration,
        0 <= first,
        0 <= second,
    ensures
        (timer + first) / duration + ((timer + first) % duration + second) / duration == (timer
            + first + second) / duration,
        ((timer + first) % duration + second) % duration == (timer + first + second) % duration,
        0 <= (timer + first) / duration,
        0 <= ((timer + first) % duration + second) / duration,
        0 <= (timer + first) % duration < duration,
{
    let q1 = (timer + first) / duration;
    let r1 = (timer + first) % duration;
    let q2 = (r1 + second) / duration;
    let r2 = (r1 + second) % duration;
    lemma_fundamental_div_mod(timer + first, duration);
    lemma_fundamental_div_mod(r1 + second, duration);
    lemma_mod_pos_bound(timer + first, duration);
    lemma_mod_pos_bound(r1 + second, duration);
    assert(timer + first + second == (q1 + q2) * duration + r2) by (nonlinear_arith)
        requires
            timer + first == duration * q1 + r1,
            r1 + second == duration * q2 + r2,
    ;
    lemma_fundamental_div_mod_converse(timer + first + second, duration, q1 + q2, r2);
    assert(0 <= q1) by (nonlinear_arith)
        requires
            timer + first == duration * q1 + r1,
            0 <= timer + first,
            0 <= r1 < duration,
    ;
    assert(0 <= q2) by (nonlinear_arith)
        requires
            r1 + second == duration * q2 + r2,
            0 <= r1 + second,
            0 <= r2 < duration,
    ;
}

/// Reward cycles paid in two runs are the cycles of one run: where the first
/// run fails, the whole run fails in the same place; where it does not, the
/// whole run ends where the second run ends.
pub proof fn lemma_reward_cycles_in_two_runs(
    grants: Seq<(JobName, u128)>,
    items: Seq<Item>,
    first: nat,
    second: nat,
    jobs: Seq<Job>,
    stock: Map<u128, Item>,
)
    ensures
        ({
            let whole = reward_cycles(grants, items, first + second, jobs, stock);
            let begun = reward_cycles(grants, items, first, jobs, stock);
            if begun.error is Some {
                whole == begun
            } else {
                whole == reward_cycles(grants, items, second, begun.jobs, begun.stock)
            }
        }),
    decreases first,
{
    if first > 0 {
        let paid = reward_cycle(grants, items, jobs, stock);
        if paid.error is None {
            assert((first + second - 1) as nat == (first - 1) as nat + second);
            lemma_reward_cycles_in_two_runs(
                grants,
                items,
                (first - 1) as nat,
                second,
                paid.jobs,
                paid.stock,
            );
        }
    }
}

/// The experience that `grants` hold for the job called `name`.
pub open spec fn experience_for(grants: Seq<(JobName, u128)>, name: JobName) -> nat
    decreases grants.len(),
{
    if grants.len() == 0 {
        0
    } else {
        (if grants[0].0 == name {
            grants[0].1 as nat
        } else {
            0
        }) + experience_for(grants.drop_first(), name)
    }
}

/// What one run of `grants` brings the job at place `at`: all that they hold
/// for its name if it is the first job of that name, and nothing if it is
/// not.
pub open spec fn credit(jobs: Seq<Job>, grants: Seq<(JobName, u128)>, at: int) -> nat {
    if is_first_job(jobs, jobs[at].name, at) {
        experience_for(grants, jobs[at].name)
    } else {
        0
    }
}

/// Where every grant of a run went through, each job has earned its credit
/// on top of what it had; names and curves are as they were.
pub proof fn lemma_grants_are_earned(jobs: Seq<Job>, grants: Seq<(JobName, u128)>)
    requires
        jobs_after_grants(jobs, grants).1 is None,
    ensures
        ({
            let after = jobs_after_grants(jobs, grants).0;
            &&& same_names(jobs, after)
            &&& forall|at: int|
                0 <= at < jobs.len() ==> {
                    &&& (#[trigger] after[at]).earned() == jobs[at].earned() + credit(
                        jobs,
                        grants,
                        at,
                    )
                    &&& after[at].level_up_experience == jobs[at].level_up_experience
                }
        }),
    decreases grants.len(),
{
    if grants.len() > 0 {
        let name = grants[0].0;
        let amount = grants[0].1;
        let rest = grants.drop_first();
        let granted = jobs_after_grant(jobs, name, amount)->Ok_0;
        let after = jobs_after_grants(jobs, grants).0;
        lemma_grant_changes_one_job(jobs, name, amount);
        lemma_grants_are_earned(granted, rest);
        assert forall|at: int| 0 <= at < jobs.len() implies {
            &&& (#[trigger] after[at]).earned() == jobs[at].earned() + credit(jobs, grants, at)
            &&& after[at].level_up_experience == jobs[at].level_up_experience
        } by {
            lemma_same_names_same_places(jobs, granted, jobs[at].name);
            assert(jobs[at].name == granted[at].name);
            assert(credit(granted, rest, at) == credit(jobs, rest, at));
            if at != job_position(jobs, name) {
                assert(granted[at] == jobs[at]);
            }
        }
    }
}

/// Reward cycles that all go through bring each job its credit once for each
/// cycle; names and curves are as they were.
pub proof fn lemma_reward_cycles_are_earned(
    grants: Seq<(JobName, u128)>,
    items: Seq<Item>,
    count: nat,
    jobs: Seq<Job>,
    stock: Map<u128, Item>,
)
    requires
        reward_cycles(grants, items, count, jobs, stock).error is None,
    ensures
        ({
            let after = reward_cycles(grants, items, count, jobs, stock).jobs;
            &&& same_names(jobs, after)
            &&& forall|at: int|
                0 <= at < jobs.len() ==> {
                    &&& (#[trigger] after[at]).earned() == jobs[at].earned() + count * credit(
                        jobs,
                        grants,
                        at,
                    )
                    &&& after[at].level_up_experience == jobs[at].level_up_experience
                }
        }),
    decreases count,
{
    let after = reward_cycles(grants, items, count, jobs, stock).jobs;
    if count == 0 {
        assert forall|at: int| 0 <= at < jobs.len() implies (#[trigger] after[at]).earned()
            == jobs[at].earned() + count * credit(jobs, grants, at) by {
            assert(count * credit(jobs, grants, at) == 0) by (nonlinear_arith)
                requires
                    count == 0,
            ;
        }
    } else {
        let paid = reward_cycle(grants, items, jobs, stock);
        let rest = (count - 1) as nat;
        lemma_grants_are_earned(jobs, grants);
        lemma_reward_cycles_are_earned(grants, items, rest, paid.jobs, paid.stock);
        assert forall|at: int| 0 <= at < jobs.len() implies {
            &&& (#[trigger] after[at]).earned() == jobs[at].earned() + count * credit(
                jobs,
                grants,
                at,
            )
            &&& after[at].level_up_experience == jobs[at].level_up_experience
        } by {
            lemma_same_names_same_places(jobs, paid.jobs, jobs[at].name);
            assert(jobs[at].name == paid.jobs[at].name);
            let each = credit(jobs, grants, at);
            assert(credit(paid.jobs, grants, at) == each);
            assert(paid.jobs[at].earned() == jobs[at].earned() + each);
            assert(after[at].earned() == paid.jobs[at].earned() + rest * each);
            assert(rest * each + each == count * each) by (nonlinear_arith)
                requires
                    rest + 1 == count,
            ;
        }
    }
}

/// An advance that goes through brings each job its credit once for each
/// full duration in the time of the running cycle plus the time elapsed.
pub proof fn lemma_advance_is_earned(
    activity: Activity,
    elapsed: nat,
    jobs: Seq<Job>,
    stock: Map<u128, Item>,
)
    requires
        activity.duration > 0,
        activity.advance(elapsed, jobs, stock).error is None,
    ensures
        ({
            let after = activity.advance(elapsed, jobs, stock);
            let due = (activity.timer + elapsed) / (activity.duration as int);
            &&& same_names(jobs, after.jobs)
            &&& forall|at: int|
                0 <= at < jobs.len() ==> (#[trigger] after.jobs[at]).earned() == jobs[at].earned()
                    + due * credit(jobs, activity.experience@, at)
        }),
{
    lemma_time_in_two_steps(activity.timer as int, activity.duration as int, elapsed as int, 0);
    let due = ((activity.timer + elapsed) / (activity.duration as int)) as nat;
    lemma_reward_cycles_are_earned(activity.experience@, activity.items@, due, jobs, stock);
}

/// Reward cycles that all go through raise the count of every item by what
/// one cycle yields of it, once for each cycle.
pub proof fn lemma_reward_cycles_count_items(
    grants: Seq<(JobName, u128)>,
    items: Seq<Item>,
    count: nat,
    jobs: Seq<Job>,
    stock: Map<u128, Item>,
)
    ensures
        reward_cycles(grants, items, count, jobs, stock).error is None ==> forall|id: u128|
            #[trigger] quantity_in(reward_cycles(grants, items, count, jobs, stock).stock, id)
                == quantity_in(stock, id) + count * yield_of(items, id),
    decreases count,
{
    let whole = reward_cycles(grants, items, count, jobs, stock);
    if count == 0 {
        assert forall|id: u128| #[trigger]
            quantity_in(whole.stock, id) == quantity_in(stock, id) + count * yield_of(
                items,
                id,
            ) by {
            assert(count * yield_of(items, id) == 0) by (nonlinear_arith)
                requires
                    count == 0,
            ;
        }
    } else {
        let paid = reward_cycle(grants, items, jobs, stock);
        if paid.error is None {
            let rest = (count - 1) as nat;
            lemma_stock_after_grants_counts(stock, items);
            lemma_reward_cycles_count_items(grants, items, rest, paid.jobs, paid.stock);
            assert(paid.stock == stock_after_grants(stock, items).0);
            assert(whole == reward_cycles(grants, items, rest, paid.jobs, paid.stock));
            if whole.error is None {
                assert forall|id: u128| #[trigger]
                    quantity_in(whole.stock, id) == quantity_in(stock, id) + count * yield_of(
                        items,
                        id,
                    ) by {
                    assert(quantity_in(paid.stock, id) == quantity_in(stock, id) + yield_of(
                        items,
                        id,
                    ));
                    assert(quantity_in(whole.stock, id) == quantity_in(paid.stock, id) + rest
                        * yield_of(items, id));
                    assert(rest * yield_of(items, id) + yield_of(items, id) == count * yield_of(
                        items,
                        id,
                    )) by (nonlinear_arith)
                        requires
                            rest + 1 == count,
                    ;
                }
            }
        }
    }
}

/// An advance that goes through raises the count of every item by what one
/// cycle yields of it, once for each full duration in the time of the running
/// cycle plus the time elapsed.
pub proof fn lemma_advance_counts_items(
    activity: Activity,
    elapsed: nat,
    jobs: Seq<Job>,
    stock: Map<u128, Item>,
)
    requires
        activity.duration > 0,
    ensures
        ({
            let after = activity.advance(elapsed, jobs, stock);
            let due = (activity.timer + elapsed) / (activity.duration as int);
            after.error is None ==> forall|id: u128|
                #[trigger] quantity_in(after.stock, id) == quantity_in(stock, id) + due * yield_of(
                    activity.items@,
                    id,
                )
        }),
{
    lemma_time_in_two_steps(activity.timer as int, activity.duration as int, elapsed as int, 0);
    let due = ((activity.timer + elapsed) / (activity.duration as int)) as nat;
    lemma_reward_cycles_count_items(activity.experience@, activity.items@, due, jobs, stock);
}

/// Advancing an activity by `first` ticks and then by `second` ticks pays the
/// same rewards as advancing it once by their sum, and where neither step
/// fails it leaves the same timer: however the elapsed time is cut up, the
/// timer, the jobs and the stock end up the same.
pub proof fn lemma_advance_in_two_steps(
    activity: Activity,
    first: nat,
    second: nat,
    jobs: Seq<Job>,
    stock: Map<u128, Item>,
)
    requires
        activity.duration > 0,
    ensures
        ({
            let whole = activity.advance(first + second, jobs, stock);
            let begun = activity.advance(first, jobs, stock);
            let ended = activity.at(begun.timer).advance(second, begun.jobs, begun.stock);
            if begun.error is Some {
                whole == begun
            } else {
                &&& whole.jobs == ended.jobs
                &&& whole.stock == ended.stock
                &&& whole.error == ended.error
                &&& ended.error is None ==> whole.timer == ended.timer
            }
        }),
{
    let timer = activity.timer as int;
    let duration = activity.duration as int;
    lemma_time_in_two_steps(timer, duration, first as int, second as int);
    let due_first = ((timer + first) / duration) as nat;
    let left = (timer + first) % duration;
    let due_second = ((left + second) / duration) as nat;
    assert(((timer + first + second) / duration) as nat == due_first + due_second);
    lemma_reward_cycles_in_two_runs(
        activity.experience@,
        activity.items@,
        due_first,
        due_second,
        jobs,
        stock,
    );
}

/// A step that ends before the cycle after the running one is full pays at
/// most once: nothing if the running cycle is not full yet, and else one
/// reward cycle, after which the timer holds what the step ran past the end
/// of the cycle.
pub proof fn lemma_advance_by_a_small_step(
    activity: Activity,
    elapsed: nat,
    jobs: Seq<Job>,
    stock: Map<u128, Item>,
)
    requires
        activity.duration > 0,
        activity.timer + elapsed < 2 * activity.duration,
    ensures
        ({
            let after = activity.advance(elapsed, jobs, stock);
            let paid = reward_cycle(activity.experience@, activity.items@, jobs, stock);
            if activity.timer + elapsed < activity.duration {
                after == (Advance {
                    timer: (activity.timer + elapsed) as nat,
                    jobs,
                    stock,
                    error: None,
                })
            } else {
                after == (Advance {
                    timer: if paid.error is None {
                        (activity.timer + elapsed - activity.duration) as nat
                    } else {
                        activity.timer as nat
                    },
                    jobs: paid.jobs,
                    stock: paid.stock,
                    error: paid.error,
                })
            }
        }),
{
    let total = activity.timer + elapsed;
    let duration = activity.duration as int;
    if total < duration {
        lemma_fundamental_div_mod_converse(total, duration, 0, total);
    } else {
        lemma_fundamental_div_mod_converse(total, duration, 1, total - duration);
        reveal_with_fuel(reward_cycles, 2);
    }
}

/// The ticks of all `steps` together.
pub open spec fn total_ticks(steps: Seq<nat>) -> nat
    decreases steps.len(),
{
    if steps.len() == 0 {
        0
    } else {
        steps[0] + total_ticks(steps.drop_first())
    }
}

/// The activity advanced by each of `steps` in turn, each step starting from
/// the timer, the jobs and the stock that the step before it left. The first
/// step that fails stops the run.
pub open spec fn advance_each(
    activity: Activity,
    steps: Seq<nat>,
    jobs: Seq<Job>,
    stock: Map<u128, Item>,
) -> Advance
    decreases steps.len(),
{
    if steps.len() == 0 {
        Advance { timer: activity.timer as nat, jobs, stock, error: None }
    } else {
        let stepped = activity.advance(steps[0], jobs, stock);
        if stepped.error is Some {
            stepped
        } else {
            advance_each(
                activity.at(stepped.timer),
                steps.drop_first(),
                stepped.jobs,
                stepped.stock,
            )
        }
    }
}

/// Many small updates and one update over the same total time pay the same
/// rewards, and where none of them fails they leave the same timer.
pub proof fn lemma_many_steps_are_one(
    activity: Activity,
    steps: Seq<nat>,
    jobs: Seq<Job>,
    stock: Map<u128, Item>,
)
    requires
        activity.wf(),
    ensures
        ({
            let stepwise = advance_each(activity, steps, jobs, stock);
            let whole = activity.advance(total_ticks(steps), jobs, stock);
            &&& whole.jobs == stepwise.jobs
            &&& whole.stock == stepwise.stock
            &&& whole.error == stepwise.error
            &&& stepwise.error is None ==> whole.timer == stepwise.timer
        }),
    decreases steps.len(),
{
    let timer = activity.timer as int;
    let duration = activity.duration as int;
    if steps.len() == 0 {
        assert(timer / duration == 0 && timer % duration == timer) by (nonlinear_arith)
            requires
                0 <= timer < duration,
        ;
    } else {
        let stepped = activity.advance(steps[0], jobs, stock);
        lemma_advance_in_two_steps(
            activity,
            steps[0],
            total_ticks(steps.drop_first()),
            jobs,
            stock,
        );
        if stepped.error is None {
            lemma_mod_pos_bound(timer + steps[0], duration);
            assert(activity.at(stepped.timer).wf());
            lemma_many_steps_are_one(
                activity.at(stepped.timer),
                steps.drop_first(),
                stepped.jobs,
                stepped.stock,
            );
        }
    }
}

} // verus!
