use remotty::poller_guard::{already_polling_message, mutex_name, polling_conflict_message};

#[test]
fn mutex_name_uses_bot_id() {
    assert_eq!(
        mutex_name(8642321094),
        r"Global\remotty_telegram_bot_8642321094"
    );
}

#[test]
fn mutex_name_renders_negative_ids_with_sign() {
    assert_eq!(mutex_name(-5), r"Global\remotty_telegram_bot_-5");
}

#[test]
fn conflict_messages_point_to_get_process() {
    assert!(already_polling_message().contains("Get-Process"));
    assert!(polling_conflict_message().starts_with("telegram getUpdates returned 409 Conflict."));
    assert!(polling_conflict_message().contains("Stop-Process"));
}
