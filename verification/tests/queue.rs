use devhaven::queue::{
    wire_bytes, CommandQueue, CONTROL_COMMAND_QUEUE_POLL_MS, CONTROL_COMMAND_TIMEOUT_MS,
};

#[test]
fn commands_leave_one_at_a_time_in_submission_order() {
    let mut queue: CommandQueue<u32> = CommandQueue::new();
    queue.enqueue("first".to_string(), 1);
    queue.enqueue("second".to_string(), 2);
    assert_eq!(queue.waiting_len(), 2);

    assert_eq!(queue.next_command(), Some("first".to_string()));
    assert!(queue.is_busy());
    assert_eq!(queue.next_command(), None);
    assert_eq!(queue.next_command(), None);
    assert_eq!(queue.waiting_len(), 1);

    assert_eq!(queue.complete(), Some(1));
    assert!(!queue.is_busy());
    assert_eq!(queue.next_command(), Some("second".to_string()));
    assert_eq!(queue.complete(), Some(2));
    assert_eq!(queue.next_command(), None);
    assert_eq!(queue.complete(), None);
}

#[test]
fn a_command_submitted_while_busy_waits_behind_the_others() {
    let mut queue: CommandQueue<&str> = CommandQueue::new();
    queue.enqueue("a".to_string(), "ta");
    assert_eq!(queue.next_command(), Some("a".to_string()));
    queue.enqueue("b".to_string(), "tb");
    queue.enqueue("c".to_string(), "tc");
    assert_eq!(queue.next_command(), None);
    assert_eq!(queue.complete(), Some("ta"));
    assert_eq!(queue.next_command(), Some("b".to_string()));
    assert_eq!(queue.complete(), Some("tb"));
    assert_eq!(queue.next_command(), Some("c".to_string()));
}

#[test]
fn wire_bytes_end_with_a_line_feed() {
    assert_eq!(wire_bytes("select-pane -t %1"), b"select-pane -t %1\n".to_vec());
    assert_eq!(wire_bytes(""), b"\n".to_vec());
    assert_eq!(wire_bytes("é"), vec![0xC3, 0xA9, 0x0A]);
}

#[test]
fn timing_constants() {
    assert_eq!(CONTROL_COMMAND_TIMEOUT_MS, 2500);
    assert_eq!(CONTROL_COMMAND_QUEUE_POLL_MS, 100);
}
