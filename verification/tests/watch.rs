use pyaco::watch::{Debouncer, Orchestrator, WatchAction, WatchEvent};
use pyaco::sink::{Console, Sink};
use pyaco::validate::UsageEvent;
use pyaco::InputType;

#[test]
fn burst_of_events_becomes_one_batch() {
    let mut debouncer = Debouncer::new(10);
    debouncer.offer(0, WatchEvent::Changed("a.html".to_string()));
    debouncer.offer(3, WatchEvent::Changed("b.html".to_string()));
    debouncer.offer(7, WatchEvent::Other);
    // The window is not over yet: nothing comes out.
    assert!(debouncer.poll(5).is_none());
    assert!(debouncer.poll(9).is_none());
    // One window after the first event the whole burst comes out at once.
    let batch = debouncer.poll(10).unwrap();
    assert_eq!(batch.len(), 3);
    // And only once.
    assert!(debouncer.poll(11).is_none());
}

#[test]
fn late_poll_still_hands_out_a_single_batch() {
    let mut debouncer = Debouncer::new(10);
    for t in [1u64, 2, 3, 4, 5] {
        debouncer.offer(t, WatchEvent::Changed("x".to_string()));
    }
    let batch = debouncer.poll(100).unwrap();
    assert_eq!(batch.len(), 5);
    assert!(debouncer.poll(101).is_none());
}

#[test]
fn orchestrator_always_validates_once_then_reacts_to_batches() {
    let mut orchestrator = Orchestrator::new(Some("main.css".to_string()));
    assert_eq!(orchestrator.start(), WatchAction::Revalidate);
    // Noise alone asks for nothing.
    assert_eq!(orchestrator.on_batch(&vec![WatchEvent::Other]), WatchAction::Ignore);
    // A change asks for one fresh pass.
    assert_eq!(
        orchestrator.on_batch(&vec![
            WatchEvent::Other,
            WatchEvent::Changed("a.html".to_string()),
        ]),
        WatchAction::Revalidate
    );
    // Removal of some matched file is a change like any other.
    assert_eq!(
        orchestrator.on_batch(&vec![WatchEvent::Removed("a.html".to_string())]),
        WatchAction::Revalidate
    );
    // Removal of the watched CSS input stops the loop.
    assert_eq!(
        orchestrator.on_batch(&vec![WatchEvent::Removed("main.css".to_string())]),
        WatchAction::ExitInputRemoved
    );
}

#[test]
fn remote_css_input_is_never_stopped_by_removals() {
    let mut orchestrator = Orchestrator::new(None);
    assert_eq!(orchestrator.start(), WatchAction::Revalidate);
    assert_eq!(
        orchestrator.on_batch(&vec![WatchEvent::Removed("main.css".to_string())]),
        WatchAction::Revalidate
    );
}

#[test]
fn sink_validity_is_sticky() {
    let mut sink = Console::new(true);
    assert!(sink.is_valid());
    sink.send(&UsageEvent { line_number: 1, path: "a".to_string(), class: "x".to_string() });
    assert!(!sink.is_valid());
    sink.send(&UsageEvent { line_number: 2, path: "a".to_string(), class: "y".to_string() });
    assert!(!sink.is_valid());
    assert!(!sink.done());
}

#[test]
fn input_strings_are_classified_as_url_or_path() {
    assert!(matches!(
        InputType::from_path("https://example.com/main.css"),
        InputType::Url(_)
    ));
    assert!(matches!(InputType::from_path("./styles/main.css"), InputType::Path(_)));
}
