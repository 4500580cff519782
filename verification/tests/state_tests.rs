use easyvietsub::error::AppError;
use easyvietsub::models::TokenUsage;
use easyvietsub::registry::JobRegistry;
use easyvietsub::settings::{
    cache_cutoff, is_older_than, migrate_project_snapshot, pcm_cache_file_name, AppSettings,
    ProjectSnapshot,
};

fn usage(p: u64, c: u64, t: u64) -> TokenUsage {
    TokenUsage { prompt_tokens: p, completion_tokens: c, total_tokens: t }
}

#[test]
fn registering_again_replaces_and_hands_back_the_old_item() {
    let mut r: JobRegistry<u32> = JobRegistry::new();
    assert!(!r.contains(&"job".to_string()));
    assert_eq!(r.register("job".to_string(), 1), None);
    assert!(r.contains(&"job".to_string()));
    assert_eq!(r.register("job".to_string(), 2), Some(1));
    assert_eq!(r.take(&"job".to_string()), Some(2));
    assert_eq!(r.take(&"job".to_string()), None);
    assert!(!r.contains(&"job".to_string()));
}

#[test]
fn jobs_are_kept_apart() {
    let mut r: JobRegistry<&str> = JobRegistry::new();
    r.register("a".to_string(), "first");
    r.register("b".to_string(), "second");
    assert_eq!(r.take(&"a".to_string()), Some("first"));
    assert!(r.contains(&"b".to_string()));
    assert_eq!(r.take(&"b".to_string()), Some("second"));
}

#[test]
fn take_of_unknown_job_is_none() {
    let mut r: JobRegistry<u8> = JobRegistry::new();
    assert_eq!(r.take(&"nothing".to_string()), None);
}

#[test]
fn usage_accumulates_field_by_field() {
    let mut total = TokenUsage::default();
    assert_eq!(total, usage(0, 0, 0));
    total.accumulate(&usage(1, 2, 3));
    total.accumulate(&usage(10, 20, 30));
    assert_eq!(total, usage(11, 22, 33));
}

#[test]
fn usage_accumulation_order_does_not_matter() {
    let (a, b, c) = (usage(1, 2, 3), usage(40, 50, 60), usage(700, 800, 900));
    let mut left = a.clone();
    left.accumulate(&b);
    left.accumulate(&c);
    let mut bc = b.clone();
    bc.accumulate(&c);
    let mut right = a.clone();
    right.accumulate(&bc);
    assert_eq!(left, right);
    let mut ba = b.clone();
    ba.accumulate(&a);
    let mut ab = a.clone();
    ab.accumulate(&b);
    assert_eq!(ab, ba);
    let mut z = a.clone();
    z.accumulate(&TokenUsage::default());
    assert_eq!(z, a);
}

#[test]
fn default_settings_are_empty() {
    let s = AppSettings::default();
    assert_eq!(s.api_key, "");
    assert_eq!(s.output_directory, "");
    assert_eq!(s.last_opened_project_path, "");
    assert_eq!(s.saved_translation_instruction, "");
}

#[test]
fn version_one_snapshots_load_unchanged() {
    let job = serde_json::Value::String("job".to_string());
    let snapshot = ProjectSnapshot { version: 1, exported_at: "2024-01-01".to_string(), job: job.clone() };
    let migrated = migrate_project_snapshot(snapshot).unwrap();
    assert_eq!(migrated.version, 1);
    assert_eq!(migrated.exported_at, "2024-01-01");
    assert_eq!(migrated.job, job);
}

#[test]
fn other_snapshot_versions_are_refused() {
    for version in [0u32, 2, 99] {
        let snapshot = ProjectSnapshot { version, exported_at: String::new(), job: serde_json::Value::Null };
        assert_eq!(
            migrate_project_snapshot(snapshot).unwrap_err(),
            AppError::Validation {
                message: "Project schema version hiện chưa được hỗ trợ để migrate.".to_string(),
                field: None
            }
        );
    }
}

#[test]
fn cache_age_rule() {
    assert_eq!(cache_cutoff(1_000_000, 7), 1_000_000 - 7 * 86_400);
    assert_eq!(cache_cutoff(86_400, 1), 0);
    assert!(is_older_than(10, 11));
    assert!(!is_older_than(11, 11));
}

#[test]
fn pcm_cache_name() {
    assert_eq!(pcm_cache_file_name("job-42"), "job-42.raw");
}
