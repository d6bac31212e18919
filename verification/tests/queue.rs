use depot::queue::{enqueue_line, MessageQueue};

#[test]
fn queue_starts_empty() {
    let mut q: MessageQueue<String> = MessageQueue::new();
    assert!(q.is_empty());
    assert_eq!(q.len(), 0);
    assert_eq!(q.pop(), None);
}

#[test]
fn queue_is_first_in_first_out() {
    let mut q: MessageQueue<Vec<u8>> = MessageQueue::new();
    q.push(b"first".to_vec());
    q.push(b"second".to_vec());
    q.push(b"third".to_vec());
    assert!(!q.is_empty());
    assert_eq!(q.len(), 3);
    assert_eq!(q.pop(), Some(b"first".to_vec()));
    q.push(b"fourth".to_vec());
    assert_eq!(q.pop(), Some(b"second".to_vec()));
    assert_eq!(q.pop(), Some(b"third".to_vec()));
    assert_eq!(q.pop(), Some(b"fourth".to_vec()));
    assert_eq!(q.pop(), None);
    assert!(q.is_empty());
}

#[test]
fn push_then_pop_on_empty_queue() {
    let mut q: MessageQueue<u32> = MessageQueue::new();
    q.push(7);
    assert_eq!(q.pop(), Some(7));
    assert!(q.is_empty());
}

#[test]
fn enqueue_line_trims() {
    let mut q: MessageQueue<String> = MessageQueue::new();
    enqueue_line(&mut q, "  hello world \r\n");
    enqueue_line(&mut q, "\n");
    assert_eq!(q.pop(), Some("hello world".to_string()));
    assert_eq!(q.pop(), Some("".to_string()));
    assert_eq!(q.pop(), None);
}
