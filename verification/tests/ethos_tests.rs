use pagi_knowledge::ethos::{find_contained, lowercase_all};
use pagi_knowledge::{AlignmentResult, EthosPolicy, KnowledgeStore, PolicyRecord, StoreError};

fn open() -> (tempfile::TempDir, KnowledgeStore) {
    let dir = tempfile::tempdir().unwrap();
    let store = KnowledgeStore::open_with_key(dir.path().to_str().unwrap(), None).unwrap();
    (dir, store)
}

#[test]
fn ethos_block() {
    let (_dir, mut store) = open();
    let policy = PolicyRecord {
        forbidden_actions: Vec::new(),
        sensitive_keywords: vec!["api_key".to_string()],
        approval_required: true,
    };
    store.set_ethos_policy(&policy).unwrap();
    let installed = store.get_ethos_policy().unwrap().unwrap();
    let result = installed.allows("write_file", "... api_key=AKIA...");
    assert_eq!(
        result,
        AlignmentResult::Fail {
            reason: "Content contains sensitive keyword 'api_key'; policy requires approval".to_string()
        }
    );
}

#[test]
fn default_policy_blocks_credentials_and_passes_the_rest() {
    let policy = PolicyRecord::default();
    assert!(policy.forbidden_actions.is_empty());
    assert_eq!(
        policy.sensitive_keywords,
        vec!["api_key", "apikey", "secret", "password", "token", "credentials"]
    );
    assert!(policy.approval_required);
    assert_eq!(policy.allows("write_sandbox_file", "hello world"), AlignmentResult::Pass);
    assert_eq!(
        policy.allows("write_sandbox_file", "Do not store: api_key=sk-12345 and password=secret123"),
        AlignmentResult::Fail {
            reason: "Content contains sensitive keyword 'api_key'; policy requires approval".to_string()
        }
    );
    assert_eq!(
        policy.allows("anything", "my PASSWORD is hunter2"),
        AlignmentResult::Fail {
            reason: "Content contains sensitive keyword 'password'; policy requires approval".to_string()
        }
    );
}

#[test]
fn forbidden_actions_match_the_skill_name_without_regard_to_case() {
    let policy = PolicyRecord {
        forbidden_actions: vec!["Delete".to_string()],
        sensitive_keywords: vec!["secret".to_string()],
        approval_required: true,
    };
    assert_eq!(
        policy.allows("fs_DELETE_all", "a secret"),
        AlignmentResult::Fail { reason: "Skill 'fs_DELETE_all' is forbidden by policy".to_string() }
    );
    assert_eq!(policy.allows("fs_read", "nothing here"), AlignmentResult::Pass);
}

#[test]
fn sensitive_keywords_pass_where_no_approval_is_required() {
    let policy = PolicyRecord {
        forbidden_actions: vec!["rm".to_string()],
        sensitive_keywords: vec!["token".to_string()],
        approval_required: false,
    };
    assert_eq!(policy.allows("write", "token=abc"), AlignmentResult::Pass);
    assert!(matches!(policy.allows("rm_rf", "token=abc"), AlignmentResult::Fail { .. }));
}

#[test]
fn policy_round_trips_and_defaults_apply() {
    let policy = PolicyRecord {
        forbidden_actions: vec!["a\"b".to_string(), "c".to_string()],
        sensitive_keywords: Vec::new(),
        approval_required: false,
    };
    let bytes = policy.to_bytes();
    assert_eq!(
        String::from_utf8(bytes.clone()).unwrap(),
        "{\"forbidden_actions\":[\"a\\\"b\",\"c\"],\"sensitive_keywords\":[],\"approval_required\":false}"
    );
    let back = PolicyRecord::from_bytes(&bytes).unwrap();
    assert_eq!(back.forbidden_actions, vec!["a\"b", "c"]);
    assert!(back.sensitive_keywords.is_empty());
    assert!(!back.approval_required);
    let sparse = PolicyRecord::from_bytes(b"{}").unwrap();
    assert!(sparse.forbidden_actions.is_empty());
    assert!(sparse.sensitive_keywords.is_empty());
    assert!(sparse.approval_required);
    assert!(PolicyRecord::from_bytes(b"{\"forbidden_actions\":[1]}").is_none());
    assert!(PolicyRecord::from_bytes(b"{\"approval_required\":\"yes\"}").is_none());
}

#[test]
fn point_reads_surface_unreadable_bytes() {
    let (_dir, mut store) = open();
    assert!(matches!(store.get_ethos_policy(), Ok(None)));
    store.insert(6, "policy/default", b"not a policy").unwrap();
    assert!(matches!(store.get_ethos_policy(), Err(StoreError::Serialization)));
}

#[test]
fn philosophical_policy_is_stored_under_its_own_key() {
    let (_dir, mut store) = open();
    assert!(matches!(store.get_ethos_philosophical_policy(), Ok(None)));
    let policy = EthosPolicy {
        active_school: "Stoic".to_string(),
        core_maxims: vec!["Focus on what you control".to_string()],
        tone_weight: 800,
    };
    store.set_ethos_philosophical_policy(&policy).unwrap();
    assert!(store.get(6, "ethos/current").unwrap().is_some());
    assert!(matches!(store.get_ethos_policy(), Ok(None)));
    let back = store.get_ethos_philosophical_policy().unwrap().unwrap();
    assert_eq!(back.active_school, "Stoic");
    assert_eq!(back.core_maxims, vec!["Focus on what you control"]);
    assert_eq!(back.tone_weight, 800);
    let heavy = EthosPolicy::from_bytes(b"{\"active_school\":\"X\",\"tone_weight\":3.5}").unwrap();
    assert_eq!(heavy.tone_weight, 1000);
}

#[test]
fn the_verdict_follows_the_findings() {
    let policy = PolicyRecord::default();
    assert_eq!(policy.judge("write_file", None, None), AlignmentResult::Pass);
    assert_eq!(
        policy.judge("write_file", None, Some(3)),
        AlignmentResult::Fail {
            reason: "Content contains sensitive keyword 'password'; policy requires approval".to_string()
        }
    );
    assert_eq!(
        policy.judge("write_file", Some(0), Some(3)),
        AlignmentResult::Fail { reason: "Skill 'write_file' is forbidden by policy".to_string() }
    );
    assert_eq!(policy.judge("write_file", None, Some(6)), AlignmentResult::Pass);
    let lenient = PolicyRecord { approval_required: false, ..PolicyRecord::default() };
    assert_eq!(lenient.judge("write_file", None, Some(3)), AlignmentResult::Pass);
}

#[test]
fn patterns_are_found_in_order_and_lowered_as_a_whole() {
    let patterns = vec!["zebra".to_string(), "key".to_string(), "api".to_string()];
    assert_eq!(find_contained(&patterns, "my api key"), Some(1));
    assert_eq!(find_contained(&patterns, "my API KEY"), None);
    assert_eq!(find_contained(&patterns, ""), None);
    assert_eq!(find_contained(&vec![String::new()], "anything"), Some(0));
    assert_eq!(find_contained(&Vec::new(), "anything"), None);
    assert_eq!(
        lowercase_all(&vec!["API_Key".to_string(), "\u{c4}RGER".to_string(), String::new()]),
        vec!["api_key".to_string(), "\u{e4}rger".to_string(), String::new()]
    );
}

#[test]
fn records_read_from_members() {
    let members = vec![
        ("approval_required".to_string(), "false".to_string()),
        ("sensitive_keywords".to_string(), "[\"a\",\"b\"]".to_string()),
    ];
    let policy = PolicyRecord::from_members(&members).unwrap();
    assert!(!policy.approval_required);
    assert_eq!(policy.sensitive_keywords, vec!["a", "b"]);
    assert!(policy.forbidden_actions.is_empty());
    let broken = vec![("approval_required".to_string(), "False".to_string())];
    assert!(PolicyRecord::from_members(&broken).is_none());
}
