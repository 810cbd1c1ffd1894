use pagi_knowledge::oikos::{oikos_task_key, tasks_among};
use pagi_knowledge::{
    EthosPolicy, GovernedTask, KnowledgeStore, MentalState, SomaState, StoreError, TaskDifficulty,
    TaskGovernor,
};

fn open() -> (tempfile::TempDir, KnowledgeStore) {
    let dir = tempfile::tempdir().unwrap();
    let store = KnowledgeStore::open_with_key(dir.path().to_str().unwrap(), None).unwrap();
    (dir, store)
}

fn governor(grace: u32, burnout: u32, care: Option<u32>) -> TaskGovernor {
    TaskGovernor::new(
        SomaState::default(),
        MentalState { relational_stress: 0, burnout_risk: burnout, grace_multiplier: grace },
        care.map(|w| EthosPolicy { active_school: "Stoic".to_string(), core_maxims: Vec::new(), tone_weight: w }),
    )
}

fn priority(g: &TaskGovernor, base: u32, difficulty: TaskDifficulty) -> u32 {
    g.evaluate(&GovernedTask::new("t", "title", base, difficulty)).effective_priority
}

#[test]
fn task_governance_monotonicity() {
    let (_dir, mut store) = open();
    store.set_soma_state(&SomaState { sleep_hours: 5000, readiness_score: 80, resting_hr: 0, hrv: 0 }).unwrap();
    assert_eq!(store.get_effective_mental_state("default").grace_multiplier, 1600);
    store.set_governed_task(&GovernedTask::new("T_easy", "easy one", 1000, TaskDifficulty::Easy)).unwrap();
    store.set_governed_task(&GovernedTask::new("T_hard", "hard one", 1000, TaskDifficulty::Hard)).unwrap();
    let evaluated = store.evaluate_and_persist_tasks("default").unwrap();
    assert_eq!(evaluated.len(), 2);
    let easy = evaluated.iter().find(|t| t.task_id == "T_easy").unwrap();
    let hard = evaluated.iter().find(|t| t.task_id == "T_hard").unwrap();
    assert!(easy.effective_priority >= hard.effective_priority);
    assert_eq!(easy.effective_priority, 1000);
    assert_eq!(hard.effective_priority, 578);
    assert_eq!(evaluated[0].task_id, "T_easy");
    assert_eq!(store.get_governed_task("T_hard").unwrap().unwrap().effective_priority, 578);
    assert_eq!(store.get_governed_task("T_easy").unwrap().unwrap().effective_priority, 1000);
    assert_eq!(
        store.get_governance_summary().unwrap().unwrap(),
        "Task governance: 2 task(s) evaluated; grace multiplier 1.600; burnout risk 0.150; bio gate active; lens none"
    );
}

#[test]
fn multipliers_have_exact_values() {
    let calm = governor(1000, 0, None);
    assert_eq!(priority(&calm, 2000, TaskDifficulty::Easy), 2000);
    assert_eq!(priority(&calm, 2000, TaskDifficulty::Medium), 2000);
    assert_eq!(priority(&calm, 2000, TaskDifficulty::Hard), 2000);
    let eased = governor(1600, 0, None);
    assert_eq!(priority(&eased, 1000, TaskDifficulty::Easy), 1000);
    assert_eq!(priority(&eased, 1000, TaskDifficulty::Medium), 812);
    assert_eq!(priority(&eased, 1000, TaskDifficulty::Hard), 625);
    let strained = governor(1600, 1000, None);
    assert_eq!(priority(&strained, 1000, TaskDifficulty::Hard), 312);
    let shielded = governor(1600, 1000, Some(1000));
    assert_eq!(priority(&shielded, 1000, TaskDifficulty::Hard), 156);
    assert_eq!(priority(&shielded, 1000, TaskDifficulty::Easy), 1000);
    assert_eq!(priority(&governor(2000, 500, Some(400)), 3000, TaskDifficulty::Hard), 900);
    assert_eq!(priority(&eased, u32::MAX, TaskDifficulty::Easy), u32::MAX);
    assert_eq!(priority(&eased, 0, TaskDifficulty::Hard), 0);
}

#[test]
fn hard_priority_never_rises_with_grace_or_burnout() {
    let mut last = u32::MAX;
    for grace in [1000u32, 1001, 1100, 1500, 1600, 2000, 5000, 1_000_000, u32::MAX] {
        let now = priority(&governor(grace, 300, Some(200)), 10_000, TaskDifficulty::Hard);
        assert!(now <= last);
        last = now;
        assert_eq!(priority(&governor(grace, 300, Some(200)), 10_000, TaskDifficulty::Easy), 10_000);
    }
    let mut last = u32::MAX;
    for burnout in [0u32, 1, 150, 500, 999, 1000] {
        let now = priority(&governor(1300, burnout, None), 10_000, TaskDifficulty::Hard);
        assert!(now <= last);
        last = now;
    }
}

#[test]
fn governor_clamps_what_it_is_given() {
    let wild = TaskGovernor::new(
        SomaState::default(),
        MentalState { relational_stress: 9999, burnout_risk: 9999, grace_multiplier: 0 },
        Some(EthosPolicy { active_school: "X".to_string(), core_maxims: Vec::new(), tone_weight: 9999 }),
    );
    assert_eq!(priority(&wild, 1000, TaskDifficulty::Hard), 250);
    assert_eq!(
        wild.governance_summary(&Vec::new()),
        "Task governance: 0 task(s) evaluated; grace multiplier 1.000; burnout risk 1.000; bio gate inactive; lens X"
    );
}

#[test]
fn batch_is_ranked_by_priority_then_id() {
    let g = governor(1600, 0, None);
    let tasks = vec![
        GovernedTask::new("b", "", 1000, TaskDifficulty::Hard),
        GovernedTask::new("z", "", 625, TaskDifficulty::Easy),
        GovernedTask::new("a", "", 1000, TaskDifficulty::Hard),
        GovernedTask::new("m", "", 3000, TaskDifficulty::Medium),
        GovernedTask::new("c", "", 500, TaskDifficulty::Easy),
    ];
    let ranked = g.evaluate_batch(&tasks);
    let order: Vec<(String, u32)> = ranked.into_iter().map(|t| (t.task_id, t.effective_priority)).collect();
    assert_eq!(
        order,
        vec![
            ("m".to_string(), 2436),
            ("a".to_string(), 625),
            ("b".to_string(), 625),
            ("z".to_string(), 625),
            ("c".to_string(), 500),
        ]
    );
}

#[test]
fn tasks_are_listed_by_effective_priority() {
    let (_dir, mut store) = open();
    let mut low = GovernedTask::new("low", "", 100, TaskDifficulty::Easy);
    low.effective_priority = 50;
    let mut high = GovernedTask::new("high", "", 100, TaskDifficulty::Easy);
    high.effective_priority = 900;
    store.set_governed_task(&low).unwrap();
    store.set_governed_task(&high).unwrap();
    store.set_governed_task(&GovernedTask::new("mid", "", 500, TaskDifficulty::Hard)).unwrap();
    store.insert(2, "oikos/tasks/broken", b"{}").unwrap();
    store.insert(2, "oikos/other", &low.to_bytes()).unwrap();
    let ids: Vec<String> = store.list_governed_tasks().unwrap().into_iter().map(|t| t.task_id).collect();
    assert_eq!(ids, vec!["high", "mid", "low"]);
    assert!(matches!(store.get_governed_task("broken"), Err(StoreError::Serialization)));
    assert!(matches!(store.get_governed_task("absent"), Ok(None)));
}

#[test]
fn removing_a_task_tells_whether_it_was_there() {
    let (_dir, mut store) = open();
    store.set_governed_task(&GovernedTask::new("t1", "", 1, TaskDifficulty::Medium)).unwrap();
    assert_eq!(oikos_task_key("t1"), "oikos/tasks/t1");
    assert!(store.get(2, "oikos/tasks/t1").unwrap().is_some());
    assert!(store.remove_governed_task("t1").unwrap());
    assert!(!store.remove_governed_task("t1").unwrap());
    assert!(store.list_governed_tasks().unwrap().is_empty());
}

#[test]
fn tasks_round_trip_and_default() {
    let mut task = GovernedTask::new("t\"1", "Write \u{fc}ber report", 1250, TaskDifficulty::Hard);
    task.effective_priority = 700;
    let bytes = task.to_bytes();
    assert_eq!(
        String::from_utf8(bytes.clone()).unwrap(),
        "{\"task_id\":\"t\\\"1\",\"title\":\"Write \u{fc}ber report\",\"base_priority\":1.250,\"difficulty\":\"hard\",\"effective_priority\":0.700}"
    );
    let back = GovernedTask::from_bytes(&bytes).unwrap();
    assert_eq!(back.task_id, "t\"1");
    assert_eq!(back.title, "Write \u{fc}ber report");
    assert_eq!(back.base_priority, 1250);
    assert_eq!(back.difficulty, TaskDifficulty::Hard);
    assert_eq!(back.effective_priority, 700);
    let sparse = GovernedTask::from_bytes(b"{\"task_id\":\"s\",\"base_priority\":2.5}").unwrap();
    assert_eq!(sparse.difficulty, TaskDifficulty::Medium);
    assert_eq!(sparse.base_priority, 2500);
    assert_eq!(sparse.effective_priority, 2500);
    assert_eq!(GovernedTask::from_bytes(b"{\"task_id\":\"s\"}").unwrap().base_priority, 1000);
    assert!(GovernedTask::from_bytes(b"{\"task_id\":\"s\",\"difficulty\":\"brutal\"}").is_none());
    assert!(GovernedTask::from_bytes(b"{\"base_priority\":1}").is_none());
    assert_eq!(TaskDifficulty::from_name("easy"), Some(TaskDifficulty::Easy));
    assert_eq!(TaskDifficulty::from_name("Easy"), None);
    assert_eq!(TaskDifficulty::Medium.as_str(), "medium");
}

#[test]
fn evaluation_uses_the_stored_lens_and_rewrites_every_task() {
    let (_dir, mut store) = open();
    store
        .set_mental_state("a", &MentalState { relational_stress: 0, burnout_risk: 500, grace_multiplier: 2000 })
        .unwrap();
    store
        .set_ethos_philosophical_policy(&EthosPolicy {
            active_school: "Stoic".to_string(),
            core_maxims: vec!["Endure".to_string()],
            tone_weight: 400,
        })
        .unwrap();
    for (id, base, difficulty) in [
        ("one", 3000, TaskDifficulty::Hard),
        ("two", 1000, TaskDifficulty::Medium),
        ("three", 800, TaskDifficulty::Easy),
    ] {
        store.set_governed_task(&GovernedTask::new(id, "", base, difficulty)).unwrap();
    }
    let ranked = store.evaluate_and_persist_tasks("a").unwrap();
    let order: Vec<(String, u32)> = ranked.into_iter().map(|t| (t.task_id, t.effective_priority)).collect();
    assert_eq!(
        order,
        vec![("one".to_string(), 900), ("three".to_string(), 800), ("two".to_string(), 750)]
    );
    let listed: Vec<(String, u32)> =
        store.list_governed_tasks().unwrap().into_iter().map(|t| (t.task_id, t.effective_priority)).collect();
    assert_eq!(listed, order);
    assert_eq!(
        store.get_governance_summary().unwrap().unwrap(),
        "Task governance: 3 task(s) evaluated; grace multiplier 2.000; burnout risk 0.500; bio gate inactive; lens Stoic"
    );
    assert_eq!(store.count(2).unwrap(), 4);
}

#[test]
fn summary_that_is_not_text_is_surfaced() {
    let (_dir, mut store) = open();
    assert!(matches!(store.get_governance_summary(), Ok(None)));
    store.insert(2, "oikos/governance/summary", &[0xff, 0xfe]).unwrap();
    assert!(matches!(store.get_governance_summary(), Err(StoreError::Serialization)));
    let entries = vec![("oikos/tasks/x".to_string(), b"nope".to_vec())];
    assert!(tasks_among(&entries).is_empty());
}
