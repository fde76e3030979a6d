use glia_fab_desktop::errors::CommandError;
use glia_fab_desktop::env::Environment;
use glia_fab_desktop::job::{
    finish_job, job_failure, make_run_id, plan_job, start_job, EndAction, JobInfo, JobRequest,
    JobStage,
};
use glia_fab_desktop::json::JsonField;
use glia_fab_desktop::terminal::TerminalSize;

fn request() -> JobRequest {
    JobRequest {
        project_root: "/proj".to_string(),
        command: "echo hello".to_string(),
        label: None,
        env: None,
    }
}

const JOB_ID: u128 = 0xa1a2a3a4_b1b2_c1c2_d1d2_d3d4d5d6d7d8;

#[test]
fn plan_names_the_run_after_time_slug_and_identifier() {
    let plan = plan_job(&request(), 1700000000123, JOB_ID);
    assert_eq!(plan.info.job_id, "a1a2a3a4-b1b2-c1c2-d1d2-d3d4d5d6d7d8");
    assert_eq!(plan.info.run_id, "run_1700000000123_echo_hello_a1a2a3a4");
    assert_eq!(plan.runs_dir, "/proj/.glia-fab/runs");
    assert_eq!(plan.info.run_dir, "/proj/.glia-fab/runs/run_1700000000123_echo_hello_a1a2a3a4");
    assert_eq!(plan.meta_path, format!("{}/run_meta.json", plan.info.run_dir));
    assert_eq!(plan.log_path, format!("{}/terminal.log", plan.info.run_dir));
    assert_eq!(plan.result_path, format!("{}/job_result.json", plan.info.run_dir));
    assert_eq!(plan.started_ms, 1700000000123);
    assert_eq!(plan.size, TerminalSize { rows: 34, cols: 120, pixel_width: 0, pixel_height: 0 });
}

#[test]
fn plan_prefers_the_label_for_the_slug() {
    let mut req = request();
    req.label = Some("Nightly Build #7".to_string());
    let plan = plan_job(&req, 0, 0);
    assert_eq!(plan.info.run_id, "run_0_nightly_build_7_00000000");
    assert_eq!(plan.info.job_id, "00000000-0000-0000-0000-000000000000");
}

#[test]
fn run_id_formats_numbers_in_decimal() {
    assert_eq!(make_run_id(u64::MAX, "s", "0123456789abcdef"), "run_18446744073709551615_s_01234567");
    assert_eq!(make_run_id(10, "a-b", "ffffffff"), "run_10_a-b_ffffffff");
    assert_eq!(make_run_id(9, "", "abcdefgh-rest"), "run_9__abcdefgh");
}

#[test]
fn plan_spawns_a_login_shell_with_the_run_in_its_environment() {
    let mut req = request();
    let mut env = Environment::new();
    env.set("FOO", "bar");
    req.env = Some(env);
    let plan = plan_job(&req, 5, JOB_ID);
    assert_eq!(plan.spawn.program, "zsh");
    assert_eq!(plan.spawn.args, vec!["-lc".to_string(), "echo hello".to_string()]);
    assert_eq!(plan.spawn.cwd, Some("/proj".to_string()));
    assert_eq!(
        plan.spawn.env.to_pairs(),
        vec![
            ("GLIA_FAB_RUN_ID".to_string(), plan.info.run_id.clone()),
            ("GLIA_FAB_RUN_DIR".to_string(), plan.info.run_dir.clone()),
            ("FOO".to_string(), "bar".to_string()),
        ]
    );
    let plan = plan_job(&request(), 5, JOB_ID);
    assert_eq!(plan.spawn.env.len(), 2);
}

#[test]
fn requested_environment_overrides_the_run_variables() {
    let mut req = request();
    let mut env = Environment::new();
    env.set("FOO", "bar");
    env.set("GLIA_FAB_RUN_ID", "override");
    req.env = Some(env);
    let plan = plan_job(&req, 5, JOB_ID);
    assert_eq!(
        plan.spawn.env.to_pairs(),
        vec![
            ("GLIA_FAB_RUN_ID".to_string(), "override".to_string()),
            ("GLIA_FAB_RUN_DIR".to_string(), plan.info.run_dir.clone()),
            ("FOO".to_string(), "bar".to_string()),
        ]
    );
}

#[test]
fn environment_holds_every_name_once() {
    let mut env = Environment::new();
    assert_eq!(env.len(), 0);
    env.set("A", "1");
    env.set("B", "2");
    env.set("A", "3");
    assert_eq!(env.len(), 2);
    assert_eq!(
        env.to_pairs(),
        vec![("A".to_string(), "3".to_string()), ("B".to_string(), "2".to_string())]
    );
    env.set_all(&vec![
        ("C".to_string(), "4".to_string()),
        ("B".to_string(), "5".to_string()),
        ("C".to_string(), "6".to_string()),
    ]);
    assert_eq!(
        env.to_pairs(),
        vec![
            ("A".to_string(), "3".to_string()),
            ("B".to_string(), "5".to_string()),
            ("C".to_string(), "6".to_string()),
        ]
    );
    env.set("", "");
    assert_eq!(env.len(), 4);
}

#[test]
fn metadata_record_holds_the_request() {
    let plan = plan_job(&request(), 5, JOB_ID);
    let keys: Vec<&str> = plan.meta.fields.iter().map(|(k, _)| k.as_str()).collect();
    assert_eq!(keys, vec!["run_id", "project_root", "command", "label", "started_ms", "env"]);
    assert!(matches!(&plan.meta.fields[2].1, JsonField::Text(c) if c == "echo hello"));
    assert!(matches!(&plan.meta.fields[3].1, JsonField::Null));
    assert!(matches!(&plan.meta.fields[4].1, JsonField::Number(5)));
    let expected = "{\n  \"command\": \"echo hello\",\n  \"env\": {},\n  \"label\": null,\n  \"project_root\": \"/proj\",\n  \"run_id\": \"run_5_echo_hello_a1a2a3a4\",\n  \"started_ms\": 5\n}";
    assert_eq!(String::from_utf8(plan.meta_json.clone()).unwrap(), expected);
    assert_eq!(plan.meta.to_pretty_bytes(), plan.meta_json);
}

#[test]
fn metadata_record_renders_label_and_environment() {
    let mut req = request();
    req.label = Some("say \"hi\"".to_string());
    let mut env = Environment::new();
    env.set("B", "2");
    env.set("A", "1");
    req.env = Some(env);
    let plan = plan_job(&req, 7, 0);
    let text = String::from_utf8(plan.meta_json).unwrap();
    let value: serde_json::Value = serde_json::from_str(&text).unwrap();
    assert_eq!(value["label"], serde_json::Value::String("say \"hi\"".to_string()));
    assert_eq!(value["env"]["A"], serde_json::Value::String("1".to_string()));
    assert_eq!(value["env"]["B"], serde_json::Value::String("2".to_string()));
    assert_eq!(value["started_ms"].as_u64(), Some(7));
    assert_eq!(value["command"], serde_json::Value::String("echo hello".to_string()));
}

#[test]
fn start_job_plans_with_a_fresh_identifier() {
    let first = start_job(&request());
    let second = start_job(&request());
    assert_ne!(first.info.job_id, second.info.job_id);
    assert_eq!(first.info.job_id.len(), 36);
    assert_eq!(first.info.job_id.as_bytes()[14], b'4');
    assert!(first.info.run_id.starts_with("run_"));
    assert!(first.info.run_id.ends_with(&format!("_echo_hello_{}", &first.info.job_id[..8])));
    assert_eq!(
        first.info.run_id,
        format!("run_{}_echo_hello_{}", first.started_ms, &first.info.job_id[..8])
    );
    assert!(first.started_ms > 1_600_000_000_000);
}

fn end_parts(actions: Vec<EndAction>) -> (String, String, JsonField) {
    assert_eq!(actions.len(), 2);
    let mut actions = actions.into_iter();
    let (path, bytes) = match actions.next() {
        Some(EndAction::WriteResult { path, bytes }) => (path, bytes),
        _ => panic!("expected the result record first"),
    };
    let mut event = match actions.next() {
        Some(EndAction::Publish(event)) => event,
        _ => panic!("expected the event second"),
    };
    assert_eq!(event.topic, "job_exit");
    assert_eq!(event.payload.fields[2].0, "exit_code");
    (path, String::from_utf8(bytes).unwrap(), event.payload.fields.remove(2).1)
}

#[test]
fn finished_job_writes_its_result_then_publishes() {
    let info = JobInfo {
        job_id: "a1a2a3a4-b1b2-c1c2-d1d2-d3d4d5d6d7d8".to_string(),
        run_id: "run_5_echo_hello_a1a2a3a4".to_string(),
        run_dir: "/proj/.glia-fab/runs/run_5_echo_hello_a1a2a3a4".to_string(),
    };
    let (path, text, code) = end_parts(finish_job(&info, Some(0), 99));
    assert_eq!(path, "/proj/.glia-fab/runs/run_5_echo_hello_a1a2a3a4/job_result.json");
    let expected = "{\n  \"ended_ms\": 99,\n  \"exit_code\": 0,\n  \"job_id\": \"a1a2a3a4-b1b2-c1c2-d1d2-d3d4d5d6d7d8\",\n  \"run_id\": \"run_5_echo_hello_a1a2a3a4\"\n}";
    assert_eq!(text, expected);
    assert!(matches!(code, JsonField::Number(0)));

    let (_, text, code) = end_parts(finish_job(&info, None, 100));
    assert!(text.contains("\"exit_code\": null"));
    assert!(matches!(code, JsonField::Null));
}

#[test]
fn failures_before_the_spawn_are_file_system_failures() {
    for stage in [JobStage::CreateRunsDir, JobStage::CreateRunDir, JobStage::WriteMeta] {
        match job_failure(stage, "disk full".to_string()) {
            CommandError::Fs(detail) => assert_eq!(detail, "disk full"),
            _ => panic!("expected a file system failure"),
        }
    }
    for stage in [JobStage::OpenTerminal, JobStage::Spawn, JobStage::CloneReader] {
        match job_failure(stage, "no pty".to_string()) {
            CommandError::SpawnFailed(detail) => assert_eq!(detail, "no pty"),
            _ => panic!("expected a spawn failure"),
        }
    }
}
