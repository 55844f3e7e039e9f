use station_shell::messages::CoreMsg;
use station_shell::reader::{CardState, ReaderMonitor, ReaderName};

fn name(text: &str) -> ReaderName {
    ReaderName { raw: text.as_bytes().to_vec(), text: text.into() }
}

fn card(reader: &str, present: bool) -> CardState {
    CardState { reader: name(reader), present, atr: vec![0x3b, 0x01] }
}

fn monitor() -> ReaderMonitor {
    ReaderMonitor::new("uTrust".into())
}

fn look(m: &mut ReaderMonitor, states: Vec<CardState>) -> Vec<String> {
    m.observe(states)
        .into_iter()
        .map(|msg| match msg {
            CoreMsg::CardPresented { reader_id, atr, forced } => {
                assert_eq!(atr, vec![0x3b, 0x01]);
                assert!(forced.is_none());
                reader_id
            }
            other => panic!("unexpected {other:?}"),
        })
        .collect()
}

#[test]
fn a_card_fires_once_until_it_was_gone() {
    let mut m = monitor();
    m.list(vec![name("uTrust 0")]);
    assert!(look(&mut m, vec![card("uTrust 0", false)]).is_empty());
    assert_eq!(look(&mut m, vec![card("uTrust 0", true)]), vec!["uTrust 0"]);
    assert!(look(&mut m, vec![card("uTrust 0", true)]).is_empty());
    assert!(look(&mut m, vec![card("uTrust 0", false)]).is_empty());
    assert_eq!(look(&mut m, vec![card("uTrust 0", true)]), vec!["uTrust 0"]);
}

#[test]
fn a_card_at_the_start_keys_nothing() {
    let mut m = monitor();
    m.list(vec![name("uTrust 0")]);
    assert!(look(&mut m, vec![card("uTrust 0", true)]).is_empty());
    assert!(look(&mut m, vec![card("uTrust 0", true)]).is_empty());
}

#[test]
fn readers_fire_for_themselves() {
    let mut m = monitor();
    m.list(vec![name("uTrust 0"), name("uTrust 1")]);
    look(&mut m, vec![card("uTrust 0", false), card("uTrust 1", false)]);
    assert_eq!(
        look(&mut m, vec![card("uTrust 0", true), card("uTrust 1", true)]),
        vec!["uTrust 0", "uTrust 1"]
    );
}

#[test]
fn only_matching_readers_count_and_changes_are_reported() {
    let mut m = monitor();
    let listing = m.list(vec![name("Other")]);
    assert_eq!((listing.presence, listing.crowded, listing.rewatch), (Some(false), None, false));
    let listing = m.list(vec![name("Other"), name("my uTrust 0")]);
    assert_eq!((listing.presence, listing.crowded, listing.rewatch), (Some(true), None, true));
    assert_eq!(m.watched().len(), 1);
    let listing = m.list(vec![name("my uTrust 0"), name("uTrust 1")]);
    assert_eq!((listing.presence, listing.crowded, listing.rewatch), (None, Some(2), true));
    let listing = m.list(vec![name("my uTrust 0"), name("uTrust 1")]);
    assert_eq!((listing.presence, listing.crowded, listing.rewatch), (None, None, false));
    assert_eq!(m.report_presence(false), Some(false));
    assert_eq!(m.report_presence(false), None);
}

#[test]
fn a_replugged_reader_is_seen_for_the_first_time() {
    let mut m = monitor();
    m.list(vec![name("uTrust 0"), name("uTrust 1")]);
    look(&mut m, vec![card("uTrust 0", false), card("uTrust 1", false)]);
    m.list(vec![name("uTrust 1")]);
    m.list(vec![name("uTrust 0"), name("uTrust 1")]);
    assert_eq!(
        look(&mut m, vec![card("uTrust 0", true), card("uTrust 1", true)]),
        vec!["uTrust 1"],
        "the reader that stayed still remembers"
    );
    m.restart();
    assert!(m.watched().is_empty());
    assert!(look(&mut m, vec![card("uTrust 1", true)]).is_empty());
}
