use glia_fab_desktop::artifacts::{artifact_info, artifact_kind, run_artifacts, FoundFile};
use glia_fab_desktop::order::text_precedes;
use glia_fab_desktop::runs::{runs_list, RunInfo};
use glia_fab_desktop::session::plan_session;
use glia_fab_desktop::terminal::TerminalSize;
use std::path::Path;
use std::time::{Duration, UNIX_EPOCH};

fn run(id: &str, modified_ms: Option<u64>) -> RunInfo {
    RunInfo { id: id.to_string(), dir: format!("/runs/{}", id), modified_ms }
}

fn ids(runs: &[RunInfo]) -> Vec<&str> {
    runs.iter().map(|r| r.id.as_str()).collect()
}

#[test]
fn runs_are_listed_newest_first() {
    let runs = vec![
        run("b", Some(10)),
        run("none_1", None),
        run("a", Some(30)),
        run("c", Some(20)),
        run("none_2", None),
        run("d", Some(20)),
    ];
    let listed = runs_list(&runs);
    assert_eq!(ids(&listed), vec!["a", "d", "c", "b", "none_2", "none_1"]);
    assert_eq!(listed[0].dir, "/runs/a");
    assert_eq!(listed[0].modified_ms, Some(30));
    assert!(runs_list(&Vec::new()).is_empty());
}

#[test]
fn runs_list_agrees_with_the_standard_sort() {
    let names = ["run_10", "run_9", "Run", "", "\u{e9}", "z", "run_10_a", "e\u{301}", "\u{10000}", "\u{ffff}"];
    let mut runs = Vec::new();
    for (i, name) in names.iter().enumerate() {
        runs.push(run(name, if i % 3 == 0 { None } else { Some((i % 4) as u64) }));
    }
    let listed = runs_list(&runs);
    let mut expected: Vec<(Option<u64>, &str)> =
        runs.iter().map(|r| (r.modified_ms, r.id.as_str())).collect();
    expected.sort_by(|a, b| b.0.cmp(&a.0).then_with(|| b.1.cmp(a.1)));
    let got: Vec<(Option<u64>, &str)> =
        listed.iter().map(|r| (r.modified_ms, r.id.as_str())).collect();
    assert_eq!(got, expected);
}

#[test]
fn equal_runs_keep_their_order() {
    let mut first = run("same", Some(1));
    first.dir = "first".to_string();
    let mut second = run("same", Some(1));
    second.dir = "second".to_string();
    let listed = runs_list(&vec![first, run("top", Some(2)), second]);
    let dirs: Vec<&str> = listed.iter().map(|r| r.dir.as_str()).collect();
    assert_eq!(dirs, vec!["/runs/top", "first", "second"]);
}

#[test]
fn run_record_takes_its_time_from_the_clock() {
    let run = RunInfo::new("r", "/runs/r", Some(UNIX_EPOCH + Duration::from_millis(1234)));
    assert_eq!(run.id, "r");
    assert_eq!(run.dir, "/runs/r");
    assert_eq!(run.modified_ms, Some(1234));
    assert_eq!(RunInfo::new("r", "/runs/r", None).modified_ms, None);
    assert_eq!(
        RunInfo::new("r", "/runs/r", Some(UNIX_EPOCH - Duration::from_millis(1))).modified_ms,
        None
    );
}

#[test]
fn dictionary_order_agrees_with_the_standard_order() {
    let texts = ["", "a", "ab", "b", "B", "\u{e9}", "e\u{301}", "\u{7f}", "\u{80}", "\u{7ff}",
        "\u{800}", "\u{ffff}", "\u{10000}", "\u{10ffff}", "a\u{10000}", "a\u{ffff}"];
    for a in texts {
        for b in texts {
            let x: Vec<char> = a.chars().collect();
            let y: Vec<char> = b.chars().collect();
            assert_eq!(text_precedes(&x, &y), a < b, "{:?} against {:?}", a, b);
        }
    }
}

#[test]
fn kinds_by_extension() {
    assert_eq!(artifact_kind("/r/out/data.json"), "json");
    assert_eq!(artifact_kind("a.PNG"), "image");
    assert_eq!(artifact_kind("a.jpg"), "image");
    assert_eq!(artifact_kind("a.Jpeg"), "image");
    assert_eq!(artifact_kind("a.webp"), "image");
    assert_eq!(artifact_kind("model.glb"), "glb");
    assert_eq!(artifact_kind("index.html"), "html");
    assert_eq!(artifact_kind("index.HTM"), "html");
    assert_eq!(artifact_kind("notes.txt"), "text");
    assert_eq!(artifact_kind("terminal.log"), "text");
    assert_eq!(artifact_kind("README.md"), "text");
    assert_eq!(artifact_kind("c.yaml"), "text");
    assert_eq!(artifact_kind("c.yml"), "text");
    assert_eq!(artifact_kind("archive.tar.gz"), "other");
    assert_eq!(artifact_kind("Makefile"), "other");
    assert_eq!(artifact_kind(".json"), "other");
    assert_eq!(artifact_kind("dir.json/file"), "other");
    assert_eq!(artifact_kind("file.json/"), "json");
    assert_eq!(artifact_kind("a.json/."), "json");
    assert_eq!(artifact_kind("a.json/.."), "other");
    assert_eq!(artifact_kind("name."), "other");
    assert_eq!(artifact_kind(""), "other");
    assert_eq!(artifact_kind("x.\u{212a}son"), "other");
}

fn kind_by_standard_path(path: &str) -> &'static str {
    let ext = Path::new(path).extension().and_then(|e| e.to_str()).unwrap_or("").to_ascii_lowercase();
    match ext.as_str() {
        "json" => "json",
        "png" | "jpg" | "jpeg" | "webp" => "image",
        "glb" => "glb",
        "html" | "htm" => "html",
        "txt" | "log" | "md" | "yaml" | "yml" => "text",
        _ => "other",
    }
}

#[test]
fn kinds_agree_with_the_standard_path_extension() {
    let stems = ["", "a", ".", "..", "a.b", ".a", "a.", "..a", "a..", ".a.json", "x.JSON", "..json",
        "...", "a.json.", "foo.txt", ".txt", "a.b.md", "json", ".json.png"];
    let joins = ["", "/", "//", "/./", "/../", "./", "../"];
    let mut checked = 0;
    for first in stems {
        for sep in joins {
            for second in stems {
                for tail in ["", "/", "/.", "//", "/./"] {
                    let path = format!("{}{}{}{}", first, sep, second, tail);
                    assert_eq!(artifact_kind(&path), kind_by_standard_path(&path), "{:?}", path);
                    checked += 1;
                }
            }
        }
    }
    assert!(checked > 1000);
}

fn found(path: &str, rel: Option<&str>, size: Option<u64>) -> FoundFile {
    FoundFile { path: path.to_string(), rel_path: rel.map(|r| r.to_string()), size_bytes: size }
}

#[test]
fn artifact_is_described_by_path_size_and_address() {
    let info = artifact_info("run_1", &found("/runs/run_1/out\\pic.PNG", Some("out\\pic.PNG"), Some(12)))
        .unwrap();
    assert_eq!(info.rel_path, "out/pic.PNG");
    assert_eq!(info.kind, "image");
    assert_eq!(info.size_bytes, 12);
    assert_eq!(info.url, "/artifacts/run_1/out/pic.PNG");
    let info = artifact_info("r", &found("/runs/r/x", Some("x"), None)).unwrap();
    assert_eq!(info.size_bytes, 0);
    assert_eq!(info.kind, "other");
    assert!(artifact_info("r", &found("/elsewhere/x", None, Some(1))).is_none());
}

#[test]
fn artifacts_are_sorted_by_relative_path() {
    let files = vec![
        found("/runs/r/terminal.log", Some("terminal.log"), Some(5)),
        found("/elsewhere", None, Some(1)),
        found("/runs/r/run_meta.json", Some("run_meta.json"), Some(7)),
        found("/runs/r/out/model.glb", Some("out/model.glb"), None),
        found("/runs/r/job_result.json", Some("job_result.json"), Some(3)),
        found("/runs/r/Zed.txt", Some("Zed.txt"), Some(3)),
    ];
    let artifacts = run_artifacts("r", &files);
    let paths: Vec<&str> = artifacts.iter().map(|a| a.rel_path.as_str()).collect();
    assert_eq!(
        paths,
        vec!["Zed.txt", "job_result.json", "out/model.glb", "run_meta.json", "terminal.log"]
    );
    assert_eq!(artifacts[2].kind, "glb");
    assert_eq!(artifacts[2].size_bytes, 0);
    assert_eq!(artifacts[2].url, "/artifacts/r/out/model.glb");
    assert!(run_artifacts("r", &Vec::new()).is_empty());
}

#[test]
fn session_plan_uses_defaults_for_missing_dimensions() {
    let plan = plan_session(&Some("/work".to_string()), None, None);
    assert_eq!(plan.size, TerminalSize { rows: 34, cols: 120, pixel_width: 0, pixel_height: 0 });
    assert_eq!(plan.spawn.program, "zsh");
    assert_eq!(plan.spawn.args, vec!["-l".to_string()]);
    assert_eq!(plan.spawn.cwd, Some("/work".to_string()));
    assert_eq!(plan.spawn.env.len(), 0);
    let plan = plan_session(&None, Some(80), None);
    assert_eq!(plan.size, TerminalSize { rows: 34, cols: 80, pixel_width: 0, pixel_height: 0 });
    assert_eq!(plan.spawn.cwd, None);
    let plan = plan_session(&None, None, Some(50));
    assert_eq!(plan.size, TerminalSize::cells(120, 50));
    assert_eq!(TerminalSize::requested(Some(1), Some(2)), TerminalSize::cells(1, 2));
}
