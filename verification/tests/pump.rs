use prism::protocol::FrontendEvent;
use prism::pump::pump_output;

#[test]
fn pump_on_an_empty_stream_reports_only_the_exit() {
    let delivered = pump_output(&"t".to_string(), &Vec::new());
    assert_eq!(delivered.len(), 1);
    assert_eq!(delivered[0].thread_id, "t");
    assert_eq!(delivered[0].event, FrontendEvent::ProcessExit { code: 0 });
}

#[test]
fn pump_keeps_stream_order_and_skips_noise() {
    let lines = vec![
        "  ".to_string(),
        "{\"type\":\"message_start\",\"message\":{\"usage\":{\"input_tokens\":3}}}".to_string(),
        "garbage".to_string(),
        "{\"type\":\"content_block_delta\",\"delta\":{\"type\":\"text_delta\",\"text\":\"hi\"}}"
            .to_string(),
        "{\"type\":\"ignored_kind\"}".to_string(),
        "{\"type\":\"message_stop\"}".to_string(),
    ];
    let delivered = pump_output(&"t7".to_string(), &lines);
    let events: Vec<&FrontendEvent> = delivered.iter().map(|p| &p.event).collect();
    assert_eq!(events.len(), 4);
    assert_eq!(
        *events[0],
        FrontendEvent::Usage { input_tokens: 3, output_tokens: 0 }
    );
    assert_eq!(*events[1], FrontendEvent::TextDelta { text: "hi".to_string() });
    assert_eq!(*events[2], FrontendEvent::MessageStop);
    assert_eq!(*events[3], FrontendEvent::ProcessExit { code: 0 });
    assert!(delivered.iter().all(|p| p.thread_id == "t7"));
}

#[test]
fn pump_reports_exactly_one_exit_and_last() {
    let lines = vec![
        "{\"type\":\"message_stop\"}".to_string(),
        "{\"type\":\"message_stop\"}".to_string(),
    ];
    let delivered = pump_output(&"t".to_string(), &lines);
    let exits = delivered
        .iter()
        .filter(|p| matches!(p.event, FrontendEvent::ProcessExit { .. }))
        .count();
    assert_eq!(exits, 1);
    assert!(matches!(
        delivered.last().unwrap().event,
        FrontendEvent::ProcessExit { code: 0 }
    ));
}
