use crystal::queue::{Telegram, TelegramQueue, TelegramState};

fn tg(nation: &str) -> Telegram {
    Telegram::new(
        nation.to_string(),
        "tgid".to_string(),
        "tg_key".to_string(),
        "client_key".to_string(),
    )
}

#[test]
fn lifo_dequeue_order() {
    let mut q = TelegramQueue::new("recruit-permanent".to_string(), false, true);
    q.enqueue_tg(tg("a"));
    q.enqueue_tg(tg("b"));
    let first = q.dequeue_tg().expect("one pending");
    let second = q.dequeue_tg().expect("another pending");
    assert_eq!(first.nation, "b");
    assert_eq!(second.nation, "a");
    assert!(q.dequeue_tg().is_none());
}

#[test]
fn ephemeral_enqueue_replaces_pending() {
    let mut q = TelegramQueue::new("recruit-ephemeral".to_string(), true, true);
    q.enqueue_tg(tg("a"));
    q.enqueue_tg(tg("b"));
    let only = q.dequeue_tg().expect("one pending");
    assert_eq!(only.nation, "b");
    assert!(q.dequeue_tg().is_none());
}

#[test]
fn non_ephemeral_keeps_all_pending() {
    let mut q = TelegramQueue::new("regional".to_string(), false, false);
    q.enqueue_tg(tg("a"));
    q.enqueue_tg(tg("b"));
    q.enqueue_tg(tg("c"));
    assert_eq!(q.queue_len(), 3);
}

#[test]
fn queue_flags() {
    let q = TelegramQueue::new("x".to_string(), false, true);
    assert!(q.is_recruitment());
    let q = TelegramQueue::new("y".to_string(), true, false);
    assert!(!q.is_recruitment());
}

#[test]
fn add_to_queue_finds_named_queue() {
    let mut state = TelegramState::new();
    assert!(state.add_to_queue("regional", tg("a")));
    assert_eq!(state.queue_pending(2), 1);
    assert_eq!(state.queue_pending(0), 0);
    assert_eq!(state.queue_pending(1), 0);
}

#[test]
fn add_to_queue_rejects_unknown_name() {
    let mut state = TelegramState::new();
    assert!(!state.add_to_queue("nowhere", tg("a")));
    assert_eq!(state.queue_pending(0), 0);
    assert_eq!(state.queue_pending(1), 0);
    assert_eq!(state.queue_pending(2), 0);
}

#[test]
fn fixed_queue_set_layout() {
    let state = TelegramState::new();
    assert_eq!(state.queue_count(), 3);
    assert!(state.queue_is_recruitment(0));
    assert!(state.queue_is_recruitment(1));
    assert!(!state.queue_is_recruitment(2));
}
