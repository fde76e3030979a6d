use glia_fab_desktop::project::{detect_project, project_dirs};
use glia_fab_desktop::server::{
    after_probe, after_read, base_url, cache_control_value, plan_file, route_request, Probed,
    Routed, WebRoots,
};
use glia_fab_desktop::errors::{CommandError, Guard, SpawnStage};

fn roots() -> WebRoots {
    let mut roots = WebRoots::new();
    roots.set_server_roots(Some("/srv/viewer".to_string()), Some("/proj".to_string()));
    roots
}

fn reply_of(routed: Routed) -> (u16, Option<String>, Option<Vec<u8>>) {
    match routed {
        Routed::Reply(reply) => (reply.status, reply.content_type, reply.body),
        Routed::Probe { path } => panic!("expected a reply, got a probe of {}", path),
    }
}

fn probe_of(routed: Routed) -> String {
    match routed {
        Routed::Probe { path } => path,
        Routed::Reply(reply) => panic!("expected a probe, got status {}", reply.status),
    }
}

#[test]
fn roots_are_set_from_viewer_dir_and_project_root() {
    let roots = roots();
    assert_eq!(roots.viewer_dir, Some("/srv/viewer".to_string()));
    assert_eq!(roots.runs_dir, Some("/proj/.glia-fab/runs".to_string()));
    let mut roots = roots;
    roots.set_server_roots(None, None);
    assert_eq!(roots.viewer_dir, None);
    assert_eq!(roots.runs_dir, None);
}

#[test]
fn traversal_out_of_the_viewer_root_is_forbidden() {
    let (status, content_type, body) = reply_of(route_request(&roots(), "/viewer/../../etc/passwd"));
    assert_eq!(status, 403);
    assert_eq!(content_type, Some("text/plain".to_string()));
    assert_eq!(body, Some(b"Forbidden".to_vec()));
    let (status, _, _) = reply_of(route_request(&roots(), "/artifacts/run_1/../../../secret"));
    assert_eq!(status, 403);
    let (status, _, _) = reply_of(route_request(&roots(), "/viewer/a/b/.."));
    assert_eq!(status, 403);
}

#[test]
fn requests_are_resolved_below_their_root() {
    assert_eq!(probe_of(route_request(&roots(), "/viewer/index.html")), "/srv/viewer/index.html");
    assert_eq!(probe_of(route_request(&roots(), "/viewer")), "/srv/viewer/index.html");
    assert_eq!(probe_of(route_request(&roots(), "/viewer/")), "/srv/viewer/index.html");
    assert_eq!(probe_of(route_request(&roots(), "/viewer/js/")), "/srv/viewer/js/index.html");
    assert_eq!(
        probe_of(route_request(&roots(), "/viewer/app.js?v=3&x=../..")),
        "/srv/viewer/app.js"
    );
    assert_eq!(
        probe_of(route_request(&roots(), "/artifacts/run_1/out/model.glb")),
        "/proj/.glia-fab/runs/run_1/out/model.glb"
    );
    assert_eq!(probe_of(route_request(&roots(), "/viewer/viewer/x")), "/srv/viewer/x");
    assert_eq!(probe_of(route_request(&roots(), "/viewerx")), "/srv/viewer/x");
    assert_eq!(probe_of(route_request(&roots(), "/viewer/..a/.b/c..")), "/srv/viewer/..a/.b/c..");
}

#[test]
fn unknown_or_unconfigured_requests_are_not_found() {
    let (status, content_type, body) = reply_of(route_request(&roots(), "/other"));
    assert_eq!(status, 404);
    assert_eq!(content_type, Some("text/plain".to_string()));
    assert_eq!(body, Some(b"Not found".to_vec()));
    let (status, _, body) = reply_of(route_request(&WebRoots::new(), "/viewer/index.html"));
    assert_eq!(status, 404);
    assert_eq!(body, Some(b"Viewer root not configured".to_vec()));
    let (status, _, body) = reply_of(route_request(&WebRoots::new(), "/artifacts/x"));
    assert_eq!(status, 404);
    assert_eq!(body, Some(b"Artifacts root not configured".to_vec()));
    let (status, _, _) = reply_of(route_request(&roots(), ""));
    assert_eq!(status, 404);
}

#[test]
fn missing_file_is_not_found() {
    match after_probe("/srv/viewer/nope.html", false, "GET") {
        Probed::Reply(reply) => {
            assert_eq!(reply.status, 404);
            assert_eq!(reply.body, Some(b"Not found".to_vec()));
        }
        Probed::Read { .. } => panic!("expected a reply"),
    }
}

#[test]
fn content_type_is_guessed_from_the_extension() {
    match after_probe("/srv/viewer/index.html", true, "GET") {
        Probed::Read { path, content_type } => {
            assert_eq!(path, "/srv/viewer/index.html");
            assert_eq!(content_type, "text/html");
        }
        Probed::Reply(_) => panic!("expected a read"),
    }
    match after_probe("/srv/viewer/data.JSON", true, "GET") {
        Probed::Read { content_type, .. } => assert_eq!(content_type, "application/json"),
        Probed::Reply(_) => panic!("expected a read"),
    }
    match after_probe("/srv/viewer/blob", true, "GET") {
        Probed::Read { content_type, .. } => assert_eq!(content_type, "application/octet-stream"),
        Probed::Reply(_) => panic!("expected a read"),
    }
}

#[test]
fn head_is_answered_without_a_body() {
    match after_probe("/srv/viewer/pic.png", true, "HEAD") {
        Probed::Reply(reply) => {
            assert_eq!(reply.status, 200);
            assert_eq!(reply.content_type, Some("image/png".to_string()));
            assert_eq!(reply.body, None);
        }
        Probed::Read { .. } => panic!("expected a reply"),
    }
    assert!(matches!(plan_file("/a", "x/y".to_string(), "head"), Probed::Read { .. }));
    assert!(matches!(plan_file("/a", "x/y".to_string(), "POST"), Probed::Read { .. }));
}

#[test]
fn file_contents_are_sent_or_reading_failed() {
    let reply = after_read("text/css".to_string(), Some(b"body{}".to_vec()));
    assert_eq!(reply.status, 200);
    assert_eq!(reply.content_type, Some("text/css".to_string()));
    assert_eq!(reply.body, Some(b"body{}".to_vec()));
    let reply = after_read("text/css".to_string(), None);
    assert_eq!(reply.status, 500);
    assert_eq!(reply.content_type, Some("text/plain".to_string()));
    assert_eq!(reply.body, Some(b"Failed to read file".to_vec()));
    assert_eq!(cache_control_value(), "no-store");
}

#[test]
fn base_url_names_the_port() {
    assert_eq!(base_url(0), "http://127.0.0.1:0");
    assert_eq!(base_url(8080), "http://127.0.0.1:8080");
    assert_eq!(base_url(65535), "http://127.0.0.1:65535");
}

#[test]
fn project_is_described_by_the_directories_that_exist() {
    let dirs = project_dirs("/proj");
    assert_eq!(dirs.viewer_dir, "/proj/fab/outora-library/viewer");
    assert_eq!(dirs.dev_kernel_dir, "/proj/dev-kernel");
    let info = detect_project("/proj".to_string(), true, true, false).ok().unwrap();
    assert_eq!(info.root, "/proj");
    assert_eq!(info.viewer_dir, Some("/proj/fab/outora-library/viewer".to_string()));
    assert_eq!(info.dev_kernel_dir, None);
    let info = detect_project("/proj/".to_string(), true, false, true).ok().unwrap();
    assert_eq!(info.viewer_dir, None);
    assert_eq!(info.dev_kernel_dir, Some("/proj/dev-kernel".to_string()));
    match detect_project("/nowhere".to_string(), false, true, true) {
        Err(e) => assert_eq!(e.message(), "not a directory: /nowhere"),
        Ok(_) => panic!("expected an error"),
    }
}

#[test]
fn every_error_has_its_text() {
    assert_eq!(CommandError::NotFound.message(), "session not found");
    assert_eq!(CommandError::Spawn(SpawnStage::OpenTerminal).message(), "open pty");
    assert_eq!(CommandError::Spawn(SpawnStage::SpawnShell).message(), "spawn shell in pty");
    assert_eq!(CommandError::Spawn(SpawnStage::CloneReader).message(), "clone pty reader");
    assert_eq!(CommandError::Spawn(SpawnStage::TakeWriter).message(), "take pty writer");
    assert_eq!(CommandError::SpawnFailed("no pty".to_string()).message(), "no pty");
    assert_eq!(
        CommandError::LockPoisoned(Guard::Sessions).message(),
        "pty sessions lock poisoned"
    );
    assert_eq!(CommandError::LockPoisoned(Guard::Writer).message(), "pty writer lock poisoned");
    assert_eq!(CommandError::LockPoisoned(Guard::Master).message(), "pty master lock poisoned");
    assert_eq!(CommandError::LockPoisoned(Guard::Child).message(), "pty child lock poisoned");
    assert_eq!(
        CommandError::LockPoisoned(Guard::ServerRoots).message(),
        "server roots lock poisoned"
    );
    assert_eq!(CommandError::Write.message(), "write to pty");
    assert_eq!(CommandError::Resize.message(), "resize pty");
    assert_eq!(CommandError::Fs("disk full".to_string()).message(), "disk full");
    assert_eq!(CommandError::NotADirectory("/x".to_string()).message(), "not a directory: /x");
}
