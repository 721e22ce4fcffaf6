use idle_game::error::GameError;
use idle_game::item::Item;
use idle_game::job::{Job, JobName};
use idle_game::player::Player;
use idle_game::quest::{
    fresh_quests, quest_database, restore_quests, Completion, Goal, JobExperience, Objective,
    Quest, QuestData, Reward,
};
use idle_game::utils::{index_quests, QuestDatabase};

fn quest_data(id: u128, goal: Goal, reward: Reward) -> QuestData {
    QuestData {
        id,
        name: "Test Quest".to_string(),
        description: "Test Description".to_string(),
        reward,
        goal,
    }
}

fn full_reward() -> Reward {
    Reward {
        experience: Some(JobExperience { job: JobName::Woodcutter, amount: 150 }),
        items: Some(vec![Item::new(5, 2), Item::new(6, 1), Item::new(5, 3)]),
        gold: Some(40),
    }
}

fn database_of(records: Vec<QuestData>) -> QuestDatabase {
    index_quests(records)
}

#[test]
fn test_quest() {
    let quest_id = 1;
    let quest_name = "Test Quest".to_string();
    let quest_description = "Test Description".to_string();
    let quest_reward = Reward {
        experience: Some(JobExperience { job: JobName::Woodcutter, amount: 100 }),
        items: None,
        gold: Some(100),
    };
    let quest_goal = Goal { objective: Objective::CollectItem(1), required_amount: 10 };

    let quest_data = QuestData {
        id: quest_id,
        name: quest_name,
        description: quest_description,
        reward: quest_reward,
        goal: quest_goal,
    };
    let quest = Quest::new(quest_id, false);

    assert_eq!(quest.id, quest_id);
    assert_eq!(quest.completed, false);
    assert_eq!(quest_data.id, quest_id);
}

#[test]
fn test_check_completion_works_for_item() {
    let quest_id = 1;
    let quest_name = "Test Quest".to_string();
    let quest_description = "Test Description".to_string();
    let quest_reward = Reward {
        experience: Some(JobExperience { job: JobName::Woodcutter, amount: 100 }),
        items: None,
        gold: Some(100),
    };
    let quest_goal = Goal { objective: Objective::CollectItem(1), required_amount: 1 };

    let quest_data = QuestData {
        id: quest_id,
        name: quest_name,
        description: quest_description,
        reward: quest_reward,
        goal: quest_goal,
    };
    let quest = Quest::new(quest_id, false);
    let mut player = Player::new();

    assert_eq!(quest.check_completion(&quest_data, &player), false);

    let item = Item::new(1, 1);
    player.add_item(&item);

    assert_eq!(quest.check_completion(&quest_data, &player), true);
}

#[test]
fn test_check_completion_works_for_gold() {
    let quest_id = 1;
    let quest_name = "Test Quest".to_string();
    let quest_description = "Test Description".to_string();
    let quest_reward = Reward {
        experience: Some(JobExperience { job: JobName::Woodcutter, amount: 100 }),
        items: None,
        gold: Some(100),
    };
    let quest_goal = Goal { objective: Objective::CollectGold(), required_amount: 100 };

    let quest_data = QuestData {
        id: quest_id,
        name: quest_name,
        description: quest_description,
        reward: quest_reward,
        goal: quest_goal,
    };
    let quest = Quest::new(quest_id, false);
    let mut player = Player::new();

    assert_eq!(quest.check_completion(&quest_data, &player), false);

    player.add_gold(100);

    assert_eq!(quest.check_completion(&quest_data, &player), true);
}

#[test]
fn test_check_completion_works_for_job_level() {
    let quest_id = 1;
    let quest_name = "Test Quest".to_string();
    let quest_description = "Test Description".to_string();
    let quest_reward = Reward {
        experience: Some(JobExperience { job: JobName::Woodcutter, amount: 100 }),
        items: None,
        gold: Some(100),
    };
    let quest_goal = Goal {
        objective: Objective::ReachJobLevel(JobName::Woodcutter),
        required_amount: 2,
    };

    let quest_data = QuestData {
        id: quest_id,
        name: quest_name,
        description: quest_description,
        reward: quest_reward,
        goal: quest_goal,
    };
    let quest = Quest::new(quest_id, false);
    let mut player = Player::new();

    let initial_player_job = player.get_job(JobName::Woodcutter).unwrap();
    let needed_xp = initial_player_job.get_xp_needed_for_next_level();

    assert_eq!(&initial_player_job.level, &1);
    assert_eq!(quest.check_completion(&quest_data, &player), false);

    player.add_experience(JobName::Woodcutter, needed_xp).unwrap();

    let updated_player_job = player.get_job(JobName::Woodcutter).unwrap();
    assert_eq!(&updated_player_job.level, &2);
    assert_eq!(quest.check_completion(&quest_data, &player), true);
}

#[test]
fn test_check_completion_works_for_level() {
    let quest_id = 1;
    let quest_name = "Test Quest".to_string();
    let quest_description = "Test Description".to_string();
    let quest_reward = Reward {
        experience: Some(JobExperience { job: JobName::Woodcutter, amount: 100 }),
        items: None,
        gold: Some(100),
    };
    let quest_goal = Goal { objective: Objective::ReachLevel(), required_amount: 2 };

    let quest_data = QuestData {
        id: quest_id,
        name: quest_name,
        description: quest_description,
        reward: quest_reward,
        goal: quest_goal,
    };
    let quest = Quest::new(quest_id, false);
    let mut player = Player::new();

    assert_eq!(quest.check_completion(&quest_data, &player), false);

    player.level = 2;

    assert_eq!(quest.check_completion(&quest_data, &player), true);
}

#[test]
fn progress_is_measured_on_the_player_as_they_are() {
    let mut player = Player::new();
    let wood = Goal { objective: Objective::CollectItem(1), required_amount: 3 };
    let gold = Goal { objective: Objective::CollectGold(), required_amount: 50 };
    let mining = Goal { objective: Objective::ReachJobLevel(JobName::Miner), required_amount: 3 };
    let level = Goal { objective: Objective::ReachLevel(), required_amount: 1 };
    assert_eq!(wood.current_progress(&player), 0);
    assert_eq!(gold.current_progress(&player), 0);
    assert_eq!(mining.current_progress(&player), 1);
    assert_eq!(level.current_progress(&player), 1);
    assert!(level.is_reached(&player));

    player.add_item(&Item::new(1, 2));
    player.add_gold(50);
    player.add_experience(JobName::Miner, 300).unwrap();
    assert_eq!(wood.current_progress(&player), 2);
    assert!(!wood.is_reached(&player));
    assert_eq!(gold.current_progress(&player), 50);
    assert!(gold.is_reached(&player));
    assert_eq!(mining.current_progress(&player), 3);
    assert!(mining.is_reached(&player));

    player.inventory.remove_item(Item::new(1, 2)).unwrap();
    player.remove_gold(1).unwrap();
    assert_eq!(wood.current_progress(&player), 0);
    assert!(!gold.is_reached(&player));
}

#[test]
fn level_of_a_job_that_is_missing_reaches_nothing() {
    let mut player = Player::new();
    player.jobs.retain(|job| job.name != JobName::Farmer);
    let farming = Goal { objective: Objective::ReachJobLevel(JobName::Farmer), required_amount: 0 };
    assert_eq!(farming.current_progress(&player), 0);
    assert!(!farming.is_reached(&player));
    let mining = Goal { objective: Objective::ReachJobLevel(JobName::Miner), required_amount: 0 };
    assert!(mining.is_reached(&player));
}

#[test]
fn complete_pays_every_part_of_the_reward() {
    let goal = Goal { objective: Objective::CollectGold(), required_amount: 10 };
    let database = database_of(vec![quest_data(1, goal, full_reward())]);
    let mut quest = Quest::new(1, false);
    let mut player = Player::new();
    player.add_gold(10);

    assert_eq!(quest.complete(&mut player, &database), Ok(Completion::Granted));
    assert!(quest.completed);
    assert_eq!(player.inventory.gold, 50);
    assert_eq!(player.inventory.get_item_quantity(5), 5);
    assert_eq!(player.inventory.get_item_quantity(6), 1);
    let woodcutter = player.get_job(JobName::Woodcutter).unwrap();
    assert_eq!((woodcutter.level, woodcutter.experience), (2, 50));
}

#[test]
fn complete_twice_pays_once() {
    let goal = Goal { objective: Objective::CollectGold(), required_amount: 10 };
    let database = database_of(vec![quest_data(1, goal, full_reward())]);
    let mut quest = Quest::new(1, false);
    let mut player = Player::new();
    player.add_gold(10);

    assert_eq!(quest.complete(&mut player, &database), Ok(Completion::Granted));
    let paid_once = player.clone();
    assert!(quest.check_completion(&database[&1], &player));
    assert_eq!(
        quest.complete(&mut player, &database),
        Ok(Completion::AlreadyCompleted)
    );
    assert!(quest.completed);
    assert_eq!(player, paid_once);
}

#[test]
fn complete_before_the_goal_is_reached_does_nothing() {
    let goal = Goal { objective: Objective::CollectItem(1), required_amount: 2 };
    let database = database_of(vec![quest_data(1, goal, full_reward())]);
    let mut quest = Quest::new(1, false);
    let mut player = Player::new();
    player.add_item(&Item::new(1, 1));
    let before = player.clone();

    assert_eq!(
        quest.complete(&mut player, &database),
        Ok(Completion::GoalNotReached)
    );
    assert!(!quest.completed);
    assert_eq!(player, before);

    player.add_item(&Item::new(1, 1));
    assert_eq!(quest.complete(&mut player, &database), Ok(Completion::Granted));
    assert!(quest.completed);
    // The goal counts items; it does not take them.
    assert_eq!(player.inventory.get_item_quantity(1), 2);
}

#[test]
fn complete_of_a_quest_without_a_record_is_an_error() {
    let database = quest_database();
    assert!(database.is_empty());
    let mut quest = Quest::new(9, false);
    let mut player = Player::new();
    let before = player.clone();
    assert_eq!(
        quest.complete(&mut player, &database),
        Err(GameError::QuestNotFound { id: 9 })
    );
    assert!(!quest.completed);
    assert_eq!(player, before);
    let mut done = Quest::new(9, true);
    assert_eq!(
        done.complete(&mut player, &database),
        Err(GameError::QuestNotFound { id: 9 })
    );
    assert!(done.completed);
}

#[test]
fn reward_parts_may_be_missing() {
    let goal = Goal { objective: Objective::ReachLevel(), required_amount: 1 };
    let nothing = Reward { experience: None, items: None, gold: None };
    let gold_only = Reward { experience: None, items: None, gold: Some(5) };
    let database = database_of(vec![quest_data(1, goal, nothing), quest_data(2, goal, gold_only)]);
    let mut player = Player::new();
    let fresh = player.clone();

    let mut first = Quest::new(1, false);
    assert_eq!(first.complete(&mut player, &database), Ok(Completion::Granted));
    assert!(first.completed);
    assert_eq!(player, fresh);

    let mut second = Quest::new(2, false);
    assert_eq!(second.complete(&mut player, &database), Ok(Completion::Granted));
    assert_eq!(player.inventory.gold, 5);
    assert_eq!(player.jobs, fresh.jobs);
    assert_eq!(player.inventory.items.len(), 0);
}

#[test]
fn reward_for_a_missing_job_is_an_error_and_pays_nothing() {
    let goal = Goal { objective: Objective::ReachLevel(), required_amount: 1 };
    let database = database_of(vec![quest_data(1, goal, full_reward())]);
    let mut player = Player::new();
    player.jobs.retain(|job| job.name != JobName::Woodcutter);
    let before = player.clone();
    let mut quest = Quest::new(1, false);
    assert_eq!(
        quest.complete(&mut player, &database),
        Err(GameError::JobNotFound { job: JobName::Woodcutter })
    );
    assert!(!quest.completed);
    assert_eq!(player, before);
}

#[test]
fn reward_that_carries_a_job_off_its_curve_is_an_error() {
    let goal = Goal { objective: Objective::ReachLevel(), required_amount: 1 };
    let database = database_of(vec![quest_data(1, goal, full_reward())]);
    let mut player = Player::new();
    player.jobs[0] = Job::new(JobName::Woodcutter, "short".to_string(), 0, 1, vec![100]);
    let before = player.clone();
    let mut quest = Quest::new(1, false);
    assert_eq!(
        quest.complete(&mut player, &database),
        Err(GameError::CurveExhausted { job: JobName::Woodcutter })
    );
    assert!(!quest.completed);
    assert_eq!(player, before);
}

#[test]
fn reward_whose_gold_does_not_fit_is_an_error_after_the_rest_was_paid() {
    let goal = Goal { objective: Objective::ReachLevel(), required_amount: 1 };
    let database = database_of(vec![quest_data(1, goal, full_reward())]);
    let mut player = Player::new();
    player.add_gold(u128::MAX - 39);
    let mut quest = Quest::new(1, false);
    assert_eq!(quest.complete(&mut player, &database), Err(GameError::GoldOverflow));
    assert!(!quest.completed);
    assert_eq!(player.inventory.gold, u128::MAX - 39);
    assert_eq!(player.inventory.get_item_quantity(5), 5);
    assert_eq!(player.get_job(JobName::Woodcutter).unwrap().level, 2);
}

#[test]
fn reward_whose_items_do_not_fit_is_an_error_before_the_gold() {
    let goal = Goal { objective: Objective::ReachLevel(), required_amount: 1 };
    let database = database_of(vec![quest_data(1, goal, full_reward())]);
    let mut player = Player::new();
    player.add_item(&Item::new(6, u128::MAX));
    let mut quest = Quest::new(1, false);
    assert_eq!(
        quest.complete(&mut player, &database),
        Err(GameError::QuantityOverflow { id: 6 })
    );
    assert!(!quest.completed);
    assert_eq!(player.inventory.gold, 0);
    assert_eq!(player.inventory.get_item_quantity(5), 2);
    assert_eq!(player.inventory.get_item_quantity(6), u128::MAX);
}

#[test]
fn fresh_quests_hold_one_quest_for_each_record() {
    let goal = Goal { objective: Objective::ReachLevel(), required_amount: 1 };
    let nothing = Reward { experience: None, items: None, gold: None };
    let database = database_of(vec![
        quest_data(30, goal, nothing.clone()),
        quest_data(10, goal, nothing.clone()),
        quest_data(20, goal, nothing.clone()),
    ]);
    let quests = fresh_quests(&database);
    assert_eq!(quests.len(), 3);
    assert!(quests.iter().all(|quest| !quest.completed));
    let mut ids: Vec<u128> = quests.iter().map(|quest| quest.id).collect();
    ids.sort();
    assert_eq!(ids, vec![10, 20, 30]);
    assert_eq!(fresh_quests(&quest_database()), vec![]);
}

#[test]
fn a_save_without_quests_gets_the_quests_of_a_new_game() {
    let goal = Goal { objective: Objective::ReachLevel(), required_amount: 1 };
    let nothing = Reward { experience: None, items: None, gold: None };
    let database = database_of(vec![
        quest_data(1, goal, nothing.clone()),
        quest_data(2, goal, nothing.clone()),
    ]);
    let mut restored = restore_quests(vec![], &database);
    restored.sort_by_key(|quest| quest.id);
    assert_eq!(restored, vec![Quest::new(1, false), Quest::new(2, false)]);

    let saved = vec![Quest::new(2, true)];
    assert_eq!(restore_quests(saved.clone(), &database), saved);
}
