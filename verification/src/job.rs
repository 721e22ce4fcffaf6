//! Jobs: one level and one experience counter per profession.

use vstd::prelude::*;
use crate::error::GameError;

verus! {

/// The professions a player can work in.
#[derive(Debug, Clone, Copy, PartialEq, Eq, Structural)]
pub enum JobName {
    Woodcutter,
    Miner,
    Farmer,
}

/// A profession's progress. `level_up_experience[level - 1]` is the experience
/// that the job needs to leave its current level.
#[derive(Debug, Clone, PartialEq)]
pub struct Job {
    pub name: JobName,
    pub description: String,
    pub level: u8,
    pub experience: u128,
    pub level_up_experience: Vec<u128>,
}

/// Where a job comes to rest that stands at `level` with `total` experience in
/// hand: as long as `total` reaches the threshold of the level, the threshold is
/// paid and the level rises by one. The result is the final level with the
/// experience left over, or `None` when the walk starts at, or arrives at, a
/// level that the curve does not cover or that a `u8` cannot hold.
pub open spec fn settle(curve: Seq<u128>, level: int, total: int) -> Option<(int, int)>
    decreases curve.len() + 1 - level,
{
    if level < 1 || level > curve.len() || level > u8::MAX {
        None
    } else if total < curve[level - 1] {
        Some((level, total))
    } else {
        settle(curve, level + 1, total - curve[level - 1])
    }
}

/// A walk that comes to rest does so on a level of the curve, below that
/// level's threshold.
pub proof fn lemma_settle_rests_below_threshold(curve: Seq<u128>, level: int, total: int)
    requires
        0 <= total,
        settle(curve, level, total) is Some,
    ensures
        ({
            let (reached, left) = settle(curve, level, total)->0;
            &&& level <= reached <= curve.len()
            &&& 1 <= reached <= u8::MAX
            &&& 0 <= left < curve[reached - 1]
            &&& left <= total
        }),
    decreases curve.len() + 1 - level,
{
    if total >= curve[level - 1] {
        lemma_settle_rests_below_threshold(curve, level + 1, total - curve[level - 1]);
    }
}

/// The experience that it takes to come from level 1 to `level`: the
/// thresholds of all levels below it.
pub open spec fn paid_below(curve: Seq<u128>, level: int) -> int
    decreases level,
{
    if level <= 1 {
        0
    } else {
        paid_below(curve, level - 1) + curve[level - 2]
    }
}

/// A walk loses no experience and makes none: what the levels reached have
/// cost, together with what is left over, is what the levels at the start had
/// cost, together with what was in hand.
pub proof fn lemma_settle_keeps_total(curve: Seq<u128>, level: int, total: int)
    requires
        settle(curve, level, total) is Some,
    ensures
        ({
            let (reached, left) = settle(curve, level, total)->0;
            paid_below(curve, reached) + left == paid_below(curve, level) + total
        }),
    decreases curve.len() + 1 - level,
{
    if total >= curve[level - 1] {
        lemma_settle_keeps_total(curve, level + 1, total - curve[level - 1]);
    }
}

/// The name of a profession as it is shown.
pub open spec fn job_label(name: JobName) -> Seq<char> {
    match name {
        JobName::Woodcutter => "Woodcutter"@,
        JobName::Miner => "Miner"@,
        JobName::Farmer => "Farmer"@,
    }
}

impl JobName {
    /// The name of the profession as it is shown.
    pub fn to_string(&self) -> (label: String)
        ensures
            label@ == job_label(*self),
    {
        match self {
            JobName::Woodcutter => "Woodcutter".to_string(),
            JobName::Miner => "Miner".to_string(),
            JobName::Farmer => "Farmer".to_string(),
        }
    }
}

impl Job {
    /// The level lies on the curve and the experience below its threshold.
    pub open spec fn wf(self) -> bool {
        &&& 1 <= self.level <= self.level_up_experience@.len()
        &&& self.experience < self.level_up_experience@[self.level - 1]
    }

    /// All the experience that the job has earned: what its levels have cost,
    /// and what it holds towards the next.
    pub open spec fn earned(self) -> int {
        paid_below(self.level_up_experience@, self.level as int) + self.experience
    }

    /// The job after a grant of `amount`, or `None` when the curve gives out.
    pub open spec fn with_experience(self, amount: nat) -> Option<Job> {
        match settle(self.level_up_experience@, self.level as int, self.experience + amount) {
            Some((level, experience)) => Some(
                Job { level: level as u8, experience: experience as u128, ..self },
            ),
            None => None,
        }
    }

    /// A job with the given level and experience on the given curve.
    pub fn new(
        name: JobName,
        description: String,
        experience: u128,
        level: u8,
        level_up_experience: Vec<u128>,
    ) -> (job: Job)
        ensures
            job == (Job { name, description, level, experience, level_up_experience }),
    {
        Job { name, description, experience, level, level_up_experience }
    }

    /// Adds `amount` to the experience and climbs every level whose threshold
    /// the sum reaches. Fails, and changes nothing, when the job's level is not
    /// on its curve or the climb would leave the curve.
    pub fn add_experience(&mut self, amount: u128) -> (result: Result<(), GameError>)
        ensures
            match old(self).with_experience(amount as nat) {
                Some(job) => result is Ok && *final(self) == job,
                None => *final(self) == *old(self) && result == Err::<(), GameError>(
                    GameError::CurveExhausted { job: old(self).name },
                ),
            },
            result is Ok ==> final(self).wf(),
            result is Ok ==> final(self).earned() == old(self).earned() + amount,
    {
        proof {
            if old(self).with_experience(amount as nat) is Some {
                lemma_settle_keeps_total(
                    self.level_up_experience@,
                    self.level as int,
                    self.experience + amount,
                );
            }
        }
        match Self::level_up(&self.level_up_experience, self.level, self.experience, amount) {
            Some((level, experience)) => {
                self.level = level;
                self.experience = experience;
                Ok(())
            },
            None => Err(GameError::CurveExhausted { job: self.name }),
        }
    }

    /// Walks up the curve from `level` with `experience + amount` in hand. The
    /// sum is never formed, so it may exceed what a `u128` holds.
    fn level_up(curve: &Vec<u128>, level: u8, experience: u128, amount: u128) -> (settled: Option<
        (u8, u128),
    >)
        ensures
            match settle(curve@, level as int, experience + amount) {
                Some((reached, left)) => {
                    &&& settled == Some((reached as u8, left as u128))
                    &&& 1 <= reached <= curve@.len()
                    &&& reached <= u8::MAX
                    &&& 0 <= left < curve@[reached - 1]
                },
                None => settled is None,
            },
    {
        let mut at: u8 = level;
        let mut held: u128 = experience;
        let mut pending: u128 = amount;
        loop
            invariant
                settle(curve@, at as int, held + pending) == settle(
                    curve@,
                    level as int,
                    experience + amount,
                ),
            decreases curve@.len() + 1 - at,
        {
            if at == 0 || at as usize > curve.len() {
                return None;
            }
            let threshold: u128 = curve[at as usize - 1];
            if held < threshold && pending < threshold - held {
                return Some((at, held + pending));
            }
            if at == u8::MAX {
                assert(settle(curve@, at + 1, held + pending - threshold) is None);
                return None;
            }
            if held >= threshold {
                held = held - threshold;
            } else {
                pending = pending - (threshold - held);
                held = 0;
            }
            at = at + 1;
        }
    }

    /// Experience still missing to leave the current level.
    pub fn get_xp_needed_for_next_level(&self) -> (needed: u128)
        requires
            self.wf(),
        ensures
            needed == self.level_up_experience@[self.level - 1] - self.experience,
    {
        self.level_up_experience[self.level as usize - 1] - self.experience
    }
}

/// `at` is the place of the first job called `name`.
pub open spec fn is_first_job(jobs: Seq<Job>, name: JobName, at: int) -> bool {
    &&& 0 <= at < jobs.len()
    &&& jobs[at].name == name
    &&& forall|before: int| 0 <= before < at ==> (#[trigger] jobs[before]).name != name
}

/// Some job is called `name`.
pub open spec fn has_job(jobs: Seq<Job>, name: JobName) -> bool {
    exists|at: int| is_first_job(jobs, name, at)
}

/// The place of the first job called `name`, where there is one.
pub open spec fn job_position(jobs: Seq<Job>, name: JobName) -> int {
    choose|at: int| is_first_job(jobs, name, at)
}

/// Every job's experience lies below the threshold of its level.
pub open spec fn jobs_are_sound(jobs: Seq<Job>) -> bool {
    forall|at: int| 0 <= at < jobs.len() ==> (#[trigger] jobs[at]).wf()
}

/// The jobs after `amount` experience went to the first job called `name`, or
/// the reason why it could not.
pub open spec fn jobs_after_grant(jobs: Seq<Job>, name: JobName, amount: u128) -> Result<
    Seq<Job>,
    GameError,
> {
    if !has_job(jobs, name) {
        Err(GameError::JobNotFound { job: name })
    } else {
        let at = job_position(jobs, name);
        match jobs[at].with_experience(amount as nat) {
            Some(job) => Ok(jobs.update(at, job)),
            None => Err(GameError::CurveExhausted { job: name }),
        }
    }
}

/// The two sequences hold jobs of the same names in the same places.
pub open spec fn same_names(before: Seq<Job>, after: Seq<Job>) -> bool {
    &&& before.len() == after.len()
    &&& forall|at: int| 0 <= at < before.len() ==> (#[trigger] before[at]).name == after[at].name
}

/// Jobs of the same names in the same places are found in the same places.
pub proof fn lemma_same_names_same_places(before: Seq<Job>, after: Seq<Job>, name: JobName)
    requires
        same_names(before, after),
    ensures
        forall|at: int| is_first_job(before, name, at) <==> is_first_job(after, name, at),
        has_job(before, name) == has_job(after, name),
        has_job(before, name) ==> job_position(before, name) == job_position(after, name),
{
    assert forall|at: int| is_first_job(before, name, at) <==> is_first_job(after, name, at) by {
        if is_first_job(before, name, at) {
            assert(before[at].name == after[at].name);
            assert forall|earlier: int| 0 <= earlier < at implies (#[trigger] after[earlier]).name
                != name by {
                assert(before[earlier].name == after[earlier].name);
            }
        }
        if is_first_job(after, name, at) {
            assert(before[at].name == after[at].name);
            assert forall|earlier: int| 0 <= earlier < at implies (
            #[trigger] before[earlier]).name != name by {
                assert(before[earlier].name == after[earlier].name);
            }
        }
    }
    if has_job(before, name) {
        let at = job_position(before, name);
        assert(is_first_job(after, name, at));
        let other = job_position(after, name);
        assert(is_first_job(after, name, other));
        if other < at {
            assert(after[other].name != name);
        }
        if at < other {
            assert(after[at].name != name);
        }
    }
}

/// A grant that goes through changes one job: the first of its name has
/// earned the amount on top of what it had, on the same curve.
pub proof fn lemma_grant_changes_one_job(jobs: Seq<Job>, name: JobName, amount: u128)
    requires
        jobs_after_grant(jobs, name, amount) is Ok,
    ensures
        ({
            let after = jobs_after_grant(jobs, name, amount)->Ok_0;
            let at = job_position(jobs, name);
            &&& is_first_job(jobs, name, at)
            &&& same_names(jobs, after)
            &&& after[at].earned() == jobs[at].earned() + amount
            &&& after[at].level_up_experience == jobs[at].level_up_experience
            &&& forall|other: int|
                0 <= other < jobs.len() && other != at ==> #[trigger] after[other] == jobs[other]
        }),
{
    let at = job_position(jobs, name);
    lemma_settle_keeps_total(
        jobs[at].level_up_experience@,
        jobs[at].level as int,
        jobs[at].experience + amount,
    );
    lemma_settle_rests_below_threshold(
        jobs[at].level_up_experience@,
        jobs[at].level as int,
        jobs[at].experience + amount,
    );
}

/// Looks for the first job called `name`.
pub fn find_job(jobs: &Vec<Job>, name: JobName) -> (found: Option<usize>)
    ensures
        match found {
            Some(at) => is_first_job(jobs@, name, at as int) && at == job_position(jobs@, name),
            None => !has_job(jobs@, name),
        },
        found is Some <==> has_job(jobs@, name),
{
    let mut at: usize = 0;
    while at < jobs.len()
        invariant
            at <= jobs@.len(),
            forall|before: int| 0 <= before < at ==> (#[trigger] jobs@[before]).name != name,
        decreases jobs@.len() - at,
    {
        if jobs[at].name == name {
            assert(is_first_job(jobs@, name, at as int));
            return Some(at);
        }
        at = at + 1;
    }
    None
}

/// Grants `amount` experience to the first job called `name`. Fails, and
/// changes nothing, when no job has that name or its curve gives out.
pub fn grant_experience(jobs: &mut Vec<Job>, name: JobName, amount: u128) -> (result: Result<
    (),
    GameError,
>)
    ensures
        match jobs_after_grant(old(jobs)@, name, amount) {
            Ok(after) => result is Ok && final(jobs)@ == after,
            Err(error) => final(jobs)@ == old(jobs)@ && result == Err::<(), GameError>(error),
        },
        jobs_are_sound(old(jobs)@) ==> jobs_are_sound(final(jobs)@),
{
    match find_job(jobs, name) {
        Some(at) => jobs[at].add_experience(amount),
        None => Err(GameError::JobNotFound { job: name }),
    }
}

/// The job after each of `grants` in turn; a grant that fails leaves it as it was.
pub open spec fn after_grants(job: Job, grants: Seq<u128>) -> Job
    decreases grants.len(),
{
    if grants.len() == 0 {
        job
    } else {
        let next = match job.with_experience(grants[0] as nat) {
            Some(granted) => granted,
            None => job,
        };
        after_grants(next, grants.drop_first())
    }
}

/// Some grant of `grants` goes through when they are made in turn.
pub open spec fn any_granted(job: Job, grants: Seq<u128>) -> bool
    decreases grants.len(),
{
    grants.len() > 0 && (job.with_experience(grants[0] as nat) is Some || any_granted(
        job,
        grants.drop_first(),
    ))
}

/// Whatever is granted to a job, and in whatever portions, its experience
/// lies below the threshold of its level afterwards, if it did so before or
/// any of the grants went through.
pub proof fn lemma_grants_stay_below_threshold(job: Job, grants: Seq<u128>)
    requires
        job.wf() || any_granted(job, grants),
    ensures
        after_grants(job, grants).wf(),
    decreases grants.len(),
{
    if grants.len() > 0 {
        match job.with_experience(grants[0] as nat) {
            Some(granted) => {
                lemma_settle_rests_below_threshold(
                    job.level_up_experience@,
                    job.level as int,
                    job.experience + grants[0],
                );
                lemma_grants_stay_below_threshold(granted, grants.drop_first());
            },
            None => {
                lemma_grants_stay_below_threshold(job, grants.drop_first());
            },
        }
    }
}

} // verus!
