use titlefetch::codec::{encode, ContentRecord, DecodeError, Header, MetaRecord};
use titlefetch::resolver::{Action, Event, Resolver, ResolverConfig};

fn config() -> ResolverConfig {
    ResolverConfig {
        base_url: String::from("https://cdn.example"),
        device_id: String::from("0000000000000000"),
        version_num: 65796,
        version_label: String::from("2.0.0"),
    }
}

fn meta(id: u64, ty: u8) -> MetaRecord {
    MetaRecord { title_id: id, title_version: 100 + id as u32, ty, flag: 0 }
}

fn root_payload(metas: Vec<MetaRecord>) -> Vec<u8> {
    let h = Header {
        title_id: 0x0100000000000816,
        title_version: 0,
        title_type: 3,
        table_offset: 0,
        content_entry_count: 0,
        meta_entry_count: metas.len() as u16,
    };
    encode(&h, &vec![], &metas)
}

fn title_payload(id: u64, contents: Vec<ContentRecord>) -> Vec<u8> {
    let h = Header {
        title_id: id,
        title_version: 0,
        title_type: 1,
        table_offset: 0,
        content_entry_count: contents.len() as u16,
        meta_entry_count: 0,
    };
    encode(&h, &contents, &vec![])
}

fn content(seed: u8) -> ContentRecord {
    ContentRecord {
        hash: vec![seed; 32],
        content_id: vec![seed; 16],
        size: seed as u64 * 1000,
        ty: 1,
    }
}

/// Drives the machine through fetch + extract + read of one title tier and
/// returns the path the tier's container was fetched to.
fn fetched_path(a: &Action) -> String {
    match a {
        Action::Fetch { path, .. } => path.clone(),
        other => panic!("expected a fetch, got {:?}", other),
    }
}

#[test]
fn walks_the_whole_graph_in_order() {
    let mut r = Resolver::new(config());
    let a = r.start();
    assert_eq!(fetched_path(&a), "2.0.0/0100000000000816.nca");
    match r.step(Event::Done) {
        Action::Extract { container, out_dir } => {
            assert_eq!(container, "2.0.0/0100000000000816.nca");
            assert_eq!(out_dir, "2.0.0/0100000000000816.nca.extracted");
        },
        other => panic!("expected extract, got {:?}", other),
    }
    match r.step(Event::Done) {
        Action::Read { path } => {
            assert_eq!(
                path,
                "2.0.0/0100000000000816.nca.extracted/SystemUpdate_0100000000000816.cnmt"
            );
        },
        other => panic!("expected read, got {:?}", other),
    }

    // The root names one title; its table lists two content files.
    let root = root_payload(vec![meta(0x0100000000000001, 1)]);
    let a = r.step(Event::Payload(root));
    assert_eq!(fetched_path(&a), "2.0.0/0100000000000001.cnmt.nca");
    match r.step(Event::Done) {
        Action::Extract { container, out_dir } => {
            assert_eq!(container, "2.0.0/0100000000000001.cnmt.nca");
            assert_eq!(out_dir, "2.0.0/0100000000000001.cnmt.nca.extracted");
        },
        other => panic!("expected extract, got {:?}", other),
    }
    match r.step(Event::Done) {
        Action::Read { path } => {
            assert_eq!(
                path,
                "2.0.0/0100000000000001.cnmt.nca.extracted/SystemProgram_0100000000000001.cnmt"
            );
        },
        other => panic!("expected read, got {:?}", other),
    }
    let title = title_payload(0x0100000000000001, vec![content(0xaa), content(0xbb)]);
    let a = r.step(Event::Payload(title));
    assert_eq!(fetched_path(&a), format!("2.0.0/{}.nca", "aa".repeat(16)));
    let a = r.step(Event::Done);
    assert_eq!(fetched_path(&a), format!("2.0.0/{}.nca", "bb".repeat(16)));
    match r.step(Event::Done) {
        Action::Finished => {},
        other => panic!("expected finished, got {:?}", other),
    }
}

fn titles_visited(metas: Vec<MetaRecord>) -> Vec<String> {
    let mut r = Resolver::new(config());
    r.start();
    r.step(Event::Done);
    r.step(Event::Done);
    let mut visited = Vec::new();
    let mut a = r.step(Event::Payload(root_payload(metas)));
    loop {
        match a {
            Action::Fetch { path, .. } => {
                visited.push(path);
                // Complete the title's fetch, extraction and read; its own
                // table is empty, so the machine moves to the next title.
                r.step(Event::Done);
                r.step(Event::Done);
                let id = u64::from_str_radix(
                    visited.last().unwrap().trim_start_matches("2.0.0/").trim_end_matches(
                        ".cnmt.nca",
                    ),
                    16,
                )
                .unwrap();
                a = r.step(Event::Payload(title_payload(id, vec![])));
            },
            Action::Finished => break,
            other => panic!("unexpected action {:?}", other),
        }
    }
    visited
}

#[test]
fn visits_titles_in_table_order() {
    let visited = titles_visited(vec![meta(0xa, 1), meta(0xb, 2), meta(0xc, 3)]);
    assert_eq!(
        visited,
        vec![
            String::from("2.0.0/000000000000000a.cnmt.nca"),
            String::from("2.0.0/000000000000000b.cnmt.nca"),
            String::from("2.0.0/000000000000000c.cnmt.nca"),
        ]
    );
}

#[test]
fn repeated_title_ids_are_visited_once() {
    let visited = titles_visited(vec![meta(7, 1), meta(7, 1), meta(8, 2), meta(7, 1)]);
    assert_eq!(
        visited,
        vec![
            String::from("2.0.0/0000000000000007.cnmt.nca"),
            String::from("2.0.0/0000000000000008.cnmt.nca"),
        ]
    );
}

#[test]
fn unknown_meta_type_aborts_with_the_byte() {
    let mut r = Resolver::new(config());
    r.start();
    r.step(Event::Done);
    r.step(Event::Done);
    let root = root_payload(vec![meta(1, 1), meta(2, 9), meta(3, 1)]);
    match r.step(Event::Payload(root)) {
        Action::Aborted { error } => {
            assert_eq!(error, Some(DecodeError::UnknownType(9)));
        },
        other => panic!("expected abort, got {:?}", other),
    }
}

#[test]
fn truncated_payload_aborts() {
    let mut r = Resolver::new(config());
    r.start();
    r.step(Event::Done);
    r.step(Event::Done);
    match r.step(Event::Payload(vec![0u8; 10])) {
        Action::Aborted { error } => {
            assert_eq!(error, Some(DecodeError::Truncated));
        },
        other => panic!("expected abort, got {:?}", other),
    }
}

#[test]
fn outside_failure_aborts_without_a_decode_error() {
    let mut r = Resolver::new(config());
    r.start();
    match r.step(Event::Failed) {
        Action::Aborted { error } => {
            assert_eq!(error, None);
        },
        other => panic!("expected abort, got {:?}", other),
    }
}

#[test]
fn empty_meta_table_finishes_at_once() {
    let mut r = Resolver::new(config());
    r.start();
    r.step(Event::Done);
    r.step(Event::Done);
    match r.step(Event::Payload(root_payload(vec![]))) {
        Action::Finished => {},
        other => panic!("expected finished, got {:?}", other),
    }
}
