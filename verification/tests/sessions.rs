use glia_fab_desktop::errors::{CommandError, SpawnStage};
use glia_fab_desktop::json::JsonField;
use glia_fab_desktop::session::SessionRegistry;
use glia_fab_desktop::terminal::TerminalSize;

fn is_hyphenated(id: &str) -> bool {
    id.len() == 36
        && id.chars().enumerate().all(|(i, c)| {
            if i == 8 || i == 13 || i == 18 || i == 23 {
                c == '-'
            } else {
                c.is_ascii_digit() || ('a'..='f').contains(&c)
            }
        })
}

#[test]
fn create_registers_one_session() {
    let mut registry: SessionRegistry<u32> = SessionRegistry::new();
    assert_eq!(registry.len(), 0);
    let id = registry.create(Some("/work".to_string()), Ok(7)).ok().unwrap();
    assert!(is_hyphenated(&id));
    assert_eq!(id.as_bytes()[14], b'4');
    assert!(matches!(id.as_bytes()[19], b'8' | b'9' | b'a' | b'b'));
    assert_eq!(registry.len(), 1);
    let infos = registry.list();
    assert_eq!(infos.len(), 1);
    assert_eq!(infos[0].id, id);
    assert_eq!(infos[0].cwd, Some("/work".to_string()));
    assert_eq!(infos[0].command, Some("zsh".to_string()));
    assert_eq!(infos.iter().filter(|info| info.id == id).count(), 1);
}

#[test]
fn list_holds_each_session_once() {
    let mut registry: SessionRegistry<usize> = SessionRegistry::new();
    let mut ids = Vec::new();
    for i in 0..5 {
        ids.push(registry.register(None, i));
    }
    let infos = registry.list();
    assert_eq!(infos.len(), 5);
    for id in &ids {
        assert_eq!(infos.iter().filter(|info| &info.id == id).count(), 1);
    }
}

#[test]
fn write_finds_the_session_and_keeps_the_bytes() {
    let mut registry: SessionRegistry<u32> = SessionRegistry::new();
    let id = registry.register(None, 11);
    let request = registry.write(&id, "ls -l\n").ok().unwrap();
    assert_eq!(*request.handle, 11);
    assert_eq!(request.bytes, b"ls -l\n".to_vec());
    let request = registry.write(&id, "h\u{e9}llo \u{1f600}").ok().unwrap();
    assert_eq!(request.bytes, "h\u{e9}llo \u{1f600}".as_bytes().to_vec());
}

#[test]
fn writes_in_order_accumulate_to_the_concatenation() {
    let mut registry: SessionRegistry<u32> = SessionRegistry::new();
    let id = registry.register(None, 1);
    let inputs = ["echo ", "one", " two\n", "", "\u{4e16}\u{754c}"];
    let mut delivered: Vec<u8> = Vec::new();
    for input in inputs {
        delivered.extend(registry.write(&id, input).ok().unwrap().bytes);
    }
    assert_eq!(delivered, inputs.concat().into_bytes());
}

#[test]
fn session_is_found_under_other_spellings_of_its_identifier() {
    let mut registry: SessionRegistry<u32> = SessionRegistry::new();
    let id = registry.register(None, 3);
    assert_eq!(registry.kill(&id.to_uppercase()), Some(&3));
    assert_eq!(registry.kill(&id.replace('-', "")), Some(&3));
    assert_eq!(registry.kill(&format!("{{{}}}", id)), Some(&3));
    assert_eq!(registry.kill(&format!("urn:uuid:{}", id)), Some(&3));
}

#[test]
fn commands_on_a_missing_session() {
    let mut registry: SessionRegistry<u32> = SessionRegistry::new();
    registry.register(None, 1);
    let missing = "00000000-0000-4000-8000-000000000000";
    assert!(matches!(registry.write(missing, "x"), Err(CommandError::NotFound)));
    assert!(registry.resize(missing, 80, 24).is_none());
    assert!(registry.kill(missing).is_none());
    assert!(registry.retire(missing, Some(0)).is_none());
    assert!(matches!(registry.write("not an identifier", "x"), Err(CommandError::NotFound)));
    assert!(registry.resize("not an identifier", 80, 24).is_none());
    assert!(registry.kill("not an identifier").is_none());
    assert!(registry.retire("", None).is_none());
    assert_eq!(registry.len(), 1);
}

#[test]
fn resize_carries_the_new_geometry() {
    let mut registry: SessionRegistry<u32> = SessionRegistry::new();
    let id = registry.register(None, 5);
    let request = registry.resize(&id, 100, 40).unwrap();
    assert_eq!(*request.handle, 5);
    assert_eq!(
        request.size,
        TerminalSize { rows: 40, cols: 100, pixel_width: 0, pixel_height: 0 }
    );
}

#[test]
fn kill_twice_leaves_the_session_registered() {
    let mut registry: SessionRegistry<u32> = SessionRegistry::new();
    let id = registry.register(None, 9);
    assert_eq!(registry.kill(&id), Some(&9));
    assert_eq!(registry.kill(&id), Some(&9));
    assert_eq!(registry.len(), 1);
    assert_eq!(registry.list().len(), 1);
}

#[test]
fn exit_is_published_once_and_the_session_is_gone() {
    let mut registry: SessionRegistry<u32> = SessionRegistry::new();
    let keep = registry.register(None, 1);
    let id = registry.register(None, 2);
    let event = registry.retire(&id, Some(3)).unwrap();
    assert_eq!(event.topic, "pty_exit");
    assert_eq!(event.payload.fields.len(), 2);
    assert_eq!(event.payload.fields[0].0, "session_id");
    assert!(matches!(&event.payload.fields[0].1, JsonField::Text(text) if *text == id));
    assert_eq!(event.payload.fields[1].0, "exit_code");
    assert!(matches!(event.payload.fields[1].1, JsonField::Number(3)));
    assert!(registry.retire(&id, Some(3)).is_none());
    let infos = registry.list();
    assert_eq!(infos.len(), 1);
    assert_eq!(infos[0].id, keep);
    assert!(matches!(registry.write(&id, "x"), Err(CommandError::NotFound)));
    assert!(registry.kill(&id).is_none());
    assert!(registry.resize(&id, 80, 24).is_none());
    assert_eq!(registry.kill(&keep), Some(&1));
}

#[test]
fn exit_without_a_code_is_published_as_null() {
    let mut registry: SessionRegistry<u32> = SessionRegistry::new();
    let id = registry.register(None, 2);
    let event = registry.retire(&id, None).unwrap();
    assert!(matches!(event.payload.fields[1].1, JsonField::Null));
}

#[test]
fn failed_spawn_leaves_the_registry_unchanged() {
    let mut registry: SessionRegistry<u32> = SessionRegistry::new();
    let kept = registry.register(None, 1);
    for stage in [
        SpawnStage::OpenTerminal,
        SpawnStage::SpawnShell,
        SpawnStage::CloneReader,
        SpawnStage::TakeWriter,
    ] {
        match registry.create(Some("/work".to_string()), Err(stage)) {
            Err(CommandError::Spawn(reported)) => assert_eq!(reported, stage),
            _ => panic!("expected a spawn failure"),
        }
    }
    assert_eq!(registry.len(), 1);
    let infos = registry.list();
    assert_eq!(infos.len(), 1);
    assert_eq!(infos[0].id, kept);
}

const ID: u128 = 0xa1a2a3a4_b1b2_c1c2_d1d2_d3d4d5d6d7d8;
const ID_TEXT: &str = "a1a2a3a4-b1b2-c1c2-d1d2-d3d4d5d6d7d8";

#[test]
fn session_is_known_by_the_text_of_its_identifier() {
    let mut registry: SessionRegistry<u32> = SessionRegistry::new();
    assert_eq!(registry.register_from(ID, Some("/w".to_string()), 4), ID_TEXT);
    assert_eq!(registry.register_from(0, None, 5), "00000000-0000-0000-0000-000000000000");
    assert_eq!(registry.register_from(u128::MAX, None, 6), "ffffffff-ffff-ffff-ffff-ffffffffffff");
    assert_eq!(registry.len(), 3);
    assert_eq!(registry.get(ID).map(|s| s.handle), Some(4));
    assert_eq!(registry.get(ID).map(|s| s.info.id.clone()), Some(ID_TEXT.to_string()));
    assert_eq!(registry.get(ID).and_then(|s| s.info.cwd.clone()), Some("/w".to_string()));
    assert!(registry.get(1).is_none());
    assert_eq!(registry.find(ID_TEXT).map(|s| s.handle), Some(4));
    assert_eq!(registry.find("A1A2A3A4B1B2C1C2D1D2D3D4D5D6D7D8").map(|s| s.handle), Some(4));
    assert!(registry.find("a1a2a3a4-b1b2-c1c2-d1d2-d3d4d5d6d7d9").is_none());
    let mut listed: Vec<String> = registry.list().into_iter().map(|info| info.id).collect();
    listed.sort();
    assert_eq!(
        listed,
        vec![
            "00000000-0000-0000-0000-000000000000".to_string(),
            ID_TEXT.to_string(),
            "ffffffff-ffff-ffff-ffff-ffffffffffff".to_string(),
        ]
    );
}

#[test]
fn an_identifier_is_never_issued_twice() {
    let mut registry: SessionRegistry<u32> = SessionRegistry::new();
    assert!(!registry.was_issued(ID));
    assert_eq!(registry.next_unissued(ID), ID);
    assert_eq!(registry.register_from(ID, Some("/old".to_string()), 1), ID_TEXT);
    assert!(registry.was_issued(ID));
    assert_eq!(registry.next_unissued(ID), ID + 1);
    let second = registry.register_from(ID, None, 2);
    assert_eq!(second, "a1a2a3a4-b1b2-c1c2-d1d2-d3d4d5d6d7d9");
    assert_eq!(registry.len(), 2);
    assert_eq!(registry.kill(ID_TEXT), Some(&1));
    assert_eq!(registry.kill(&second), Some(&2));
    assert!(registry.remove(ID, Some(0)).is_some());
    assert!(registry.was_issued(ID));
    let third = registry.register_from(ID, None, 3);
    assert_eq!(third, "a1a2a3a4-b1b2-c1c2-d1d2-d3d4d5d6d7da");
    assert!(registry.kill(ID_TEXT).is_none());
    assert_eq!(registry.len(), 2);
}

#[test]
fn identifiers_go_on_from_zero_after_the_greatest() {
    let mut registry: SessionRegistry<u32> = SessionRegistry::new();
    assert_eq!(registry.register_from(u128::MAX, None, 1), "ffffffff-ffff-ffff-ffff-ffffffffffff");
    assert_eq!(registry.register_from(u128::MAX, None, 2), "00000000-0000-0000-0000-000000000000");
    assert_eq!(registry.register_from(u128::MAX, None, 3), "00000000-0000-0000-0000-000000000001");
    assert_eq!(registry.register_from(0, None, 4), "00000000-0000-0000-0000-000000000002");
    assert_eq!(registry.len(), 4);
}

#[test]
fn created_sessions_have_different_identifiers() {
    let mut registry: SessionRegistry<usize> = SessionRegistry::new();
    let mut seen: Vec<String> = Vec::new();
    for i in 0..50 {
        let id = registry.create(None, Ok(i)).ok().unwrap();
        assert!(!seen.contains(&id));
        if i % 2 == 0 {
            assert!(registry.retire(&id, Some(0)).is_some());
        }
        seen.push(id);
    }
    assert_eq!(registry.len(), 25);
}

#[test]
fn removal_publishes_the_exit_of_a_live_session_only() {
    let mut registry: SessionRegistry<u32> = SessionRegistry::new();
    registry.register_from(ID, None, 1);
    assert!(registry.remove(ID + 1, Some(3)).is_none());
    assert_eq!(registry.len(), 1);
    let event = registry.remove(ID, Some(3)).unwrap();
    assert_eq!(event.topic, "pty_exit");
    assert!(matches!(&event.payload.fields[0].1, JsonField::Text(text) if text == ID_TEXT));
    assert!(matches!(event.payload.fields[1].1, JsonField::Number(3)));
    assert!(registry.remove(ID, Some(3)).is_none());
    assert_eq!(registry.len(), 0);
    assert!(registry.list().is_empty());
}
