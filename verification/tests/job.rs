use idle_game::constants::LEVEL_UP_EXPERIENCE;
use idle_game::error::GameError;
use idle_game::job::{find_job, grant_experience, Job, JobName};

fn woodcutter() -> Job {
    Job::new(
        JobName::Woodcutter,
        "Woodcutter".to_string(),
        0,
        1,
        LEVEL_UP_EXPERIENCE.to_vec(),
    )
}

#[test]
fn test_job_new() {
    let job = Job::new(
        JobName::Woodcutter,
        "Woodcutter".to_string(),
        0,
        1,
        LEVEL_UP_EXPERIENCE.to_vec(),
    );
    assert_eq!(job.name, JobName::Woodcutter);
    assert_eq!(job.description, "Woodcutter");
    assert_eq!(job.experience, 0);
    assert_eq!(job.level, 1);
    assert_eq!(job.level_up_experience, LEVEL_UP_EXPERIENCE.to_vec());
}

#[test]
fn test_job_add_experience() {
    let mut job = Job::new(
        JobName::Woodcutter,
        "Woodcutter".to_string(),
        0,
        1,
        LEVEL_UP_EXPERIENCE.to_vec(),
    );
    job.add_experience(50).unwrap();
    assert_eq!(job.experience, 50);
    assert_eq!(job.level, 1);
}

#[test]
fn test_job_level_up() {
    let mut job = Job::new(
        JobName::Woodcutter,
        "Woodcutter".to_string(),
        0,
        1,
        LEVEL_UP_EXPERIENCE.to_vec(),
    );
    let xp_needed_for_level_2 = LEVEL_UP_EXPERIENCE[0];
    job.add_experience(xp_needed_for_level_2 - 1).unwrap();
    assert_eq!(job.level, 1);
    assert_eq!(job.experience, xp_needed_for_level_2 - 1);
    job.add_experience(1).unwrap();
    assert_eq!(job.level, 2);
    assert_eq!(job.experience, 0);
}

#[test]
fn test_job_level_up_multiple_times() {
    let mut job = Job::new(
        JobName::Woodcutter,
        "Woodcutter".to_string(),
        0,
        1,
        LEVEL_UP_EXPERIENCE.to_vec(),
    );
    job.add_experience(
        LEVEL_UP_EXPERIENCE[0] + LEVEL_UP_EXPERIENCE[1] + LEVEL_UP_EXPERIENCE[2] + 10,
    )
    .unwrap();
    assert_eq!(job.level, 4);
    assert_eq!(job.experience, 10);
}

#[test]
fn level_curve_doubles_from_one_hundred() {
    assert_eq!(LEVEL_UP_EXPERIENCE.len(), 32);
    assert_eq!(LEVEL_UP_EXPERIENCE[0], 100);
    assert_eq!(LEVEL_UP_EXPERIENCE[1], 200);
    assert_eq!(LEVEL_UP_EXPERIENCE[31], 214_748_364_800);
    for level in 1..32 {
        assert_eq!(LEVEL_UP_EXPERIENCE[level], 2 * LEVEL_UP_EXPERIENCE[level - 1]);
    }
    assert_eq!(idle_game::constants::level_up_experience(), LEVEL_UP_EXPERIENCE.to_vec());
}

#[test]
fn experience_stays_below_threshold_after_every_grant() {
    let mut job = woodcutter();
    let grants: [u128; 8] = [0, 1, 99, 100, 250, 12_345, 7, 1_000_000];
    for grant in grants {
        job.add_experience(grant).unwrap();
        assert!(job.level >= 1);
        assert!(job.experience < job.level_up_experience[job.level as usize - 1]);
    }
    // 1_012_802 in all: levels 1 to 13 cost 100 * (2^13 - 1) = 819_100.
    assert_eq!(job.level, 14);
    assert_eq!(job.experience, 1_012_802 - 819_100);
}

#[test]
fn grant_of_exactly_the_threshold_leaves_no_experience() {
    let mut job = woodcutter();
    job.add_experience(100).unwrap();
    assert_eq!((job.level, job.experience), (2, 0));
    job.add_experience(200).unwrap();
    assert_eq!((job.level, job.experience), (3, 0));
}

#[test]
fn grants_in_portions_equal_one_grant() {
    let mut whole = woodcutter();
    whole.add_experience(1_234).unwrap();
    let mut portions = woodcutter();
    for portion in [200u128, 34, 1_000] {
        portions.add_experience(portion).unwrap();
    }
    assert_eq!(whole, portions);
    assert_eq!((whole.level, whole.experience), (4, 534));
}

#[test]
fn curve_that_gives_out_is_an_error_and_changes_nothing() {
    let mut job = Job::new(JobName::Miner, "Miner".to_string(), 5, 1, vec![10, 20]);
    assert_eq!(job.add_experience(24), Ok(()));
    assert_eq!((job.level, job.experience), (2, 19));
    let before = job.clone();
    assert_eq!(
        job.add_experience(1),
        Err(GameError::CurveExhausted { job: JobName::Miner })
    );
    assert_eq!(job, before);
}

#[test]
fn level_off_the_curve_is_an_error() {
    let mut below = Job::new(JobName::Farmer, "Farmer".to_string(), 0, 0, vec![10, 20]);
    assert_eq!(
        below.add_experience(0),
        Err(GameError::CurveExhausted { job: JobName::Farmer })
    );
    let mut above = Job::new(JobName::Farmer, "Farmer".to_string(), 0, 3, vec![10, 20]);
    assert_eq!(
        above.add_experience(0),
        Err(GameError::CurveExhausted { job: JobName::Farmer })
    );
    assert_eq!((above.level, above.experience), (3, 0));
}

#[test]
fn level_cannot_pass_what_a_u8_holds() {
    let curve: Vec<u128> = vec![1; 300];
    let mut job = Job::new(JobName::Miner, "Miner".to_string(), 0, 1, curve);
    assert_eq!(job.add_experience(253), Ok(()));
    assert_eq!((job.level, job.experience), (254, 0));
    assert_eq!(job.add_experience(1), Ok(()));
    assert_eq!((job.level, job.experience), (255, 0));
    assert_eq!(
        job.add_experience(1),
        Err(GameError::CurveExhausted { job: JobName::Miner })
    );
    assert_eq!((job.level, job.experience), (255, 0));
}

#[test]
fn grant_larger_than_the_counter_is_settled_without_overflow() {
    let mut job = Job::new(
        JobName::Woodcutter,
        "Woodcutter".to_string(),
        u128::MAX - 1,
        1,
        vec![u128::MAX, u128::MAX, 10],
    );
    assert_eq!(job.add_experience(u128::MAX), Ok(()));
    // (MAX - 1) + MAX pays the first threshold and leaves MAX - 1 on level 2.
    assert_eq!((job.level, job.experience), (2, u128::MAX - 1));
    assert_eq!(job.add_experience(5), Ok(()));
    assert_eq!((job.level, job.experience), (3, 4));
}

#[test]
fn experience_above_the_threshold_is_settled_by_the_next_grant() {
    let mut job = Job::new(JobName::Miner, "Miner".to_string(), 35, 1, vec![10, 20, 40]);
    assert_eq!(job.add_experience(0), Ok(()));
    assert_eq!((job.level, job.experience), (3, 5));
}

#[test]
fn xp_needed_for_next_level_is_what_is_missing() {
    let mut job = woodcutter();
    assert_eq!(job.get_xp_needed_for_next_level(), 100);
    job.add_experience(130).unwrap();
    assert_eq!(job.get_xp_needed_for_next_level(), 170);
}

#[test]
fn job_names_as_shown() {
    assert_eq!(JobName::Woodcutter.to_string(), "Woodcutter");
    assert_eq!(JobName::Miner.to_string(), "Miner");
    assert_eq!(JobName::Farmer.to_string(), "Farmer");
}

#[test]
fn first_job_of_a_name_is_found_and_granted() {
    let mut jobs = vec![
        Job::new(JobName::Miner, "first".to_string(), 0, 1, vec![10, 20]),
        Job::new(JobName::Farmer, "second".to_string(), 0, 1, vec![10, 20]),
        Job::new(JobName::Farmer, "third".to_string(), 0, 1, vec![10, 20]),
    ];
    assert_eq!(find_job(&jobs, JobName::Miner), Some(0));
    assert_eq!(find_job(&jobs, JobName::Farmer), Some(1));
    assert_eq!(find_job(&jobs, JobName::Woodcutter), None);
    assert_eq!(grant_experience(&mut jobs, JobName::Farmer, 12), Ok(()));
    assert_eq!((jobs[1].level, jobs[1].experience), (2, 2));
    assert_eq!((jobs[2].level, jobs[2].experience), (1, 0));
    assert_eq!(
        grant_experience(&mut jobs, JobName::Woodcutter, 1),
        Err(GameError::JobNotFound { job: JobName::Woodcutter })
    );
    assert_eq!(
        grant_experience(&mut jobs, JobName::Farmer, 100),
        Err(GameError::CurveExhausted { job: JobName::Farmer })
    );
    assert_eq!((jobs[1].level, jobs[1].experience), (2, 2));
}
