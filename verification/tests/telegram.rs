use remotty::attachment_file::safe_attachment_filename;
use remotty::telegram::{
    parse_control_command, parse_pairing_updates, parse_updates, select_largest_photo,
    ApiResponse, CallbackQuery, Chat, Document, IncomingMessage, Message, PhotoSize,
    TelegramAttachment, TelegramAttachmentKind, TelegramControlCommand, TelegramRemoteFile,
    Update, User,
};

fn message(message_id: i64, chat_id: i64, chat_type: &str, from: Option<i64>) -> Message {
    Message {
        message_id,
        date: None,
        text: None,
        caption: None,
        chat: Chat {
            id: chat_id,
            kind: chat_type.to_owned(),
        },
        from: from.map(|id| User { id }),
        message_thread_id: None,
        photo: None,
        document: None,
        payload_json: "{}".to_owned(),
    }
}

fn update_with(update_id: i64, message: Message) -> Update {
    Update {
        update_id,
        message: Some(message),
        edited_message: None,
        callback_query: None,
    }
}

#[test]
fn parses_plain_text_message_without_attachments() {
    let mut m = message(7, 42, "private", Some(9));
    m.text = Some("hello from telegram".to_owned());
    let messages = parse_updates(&ApiResponse {
        ok: true,
        result: vec![update_with(101, m)],
    })
    .expect("plain text update should parse");

    assert_eq!(messages.len(), 1);
    let message = &messages[0];
    assert_eq!(message.update_id, 101);
    assert_eq!(message.chat_id, 42);
    assert_eq!(message.chat_type, "private");
    assert_eq!(message.sender_id, Some(9));
    assert_eq!(message.text, "hello from telegram");
    assert_eq!(message.telegram_message_id, 7);
    assert_eq!(message.thread_key, "dm");
    assert!(message.attachments.is_empty());
}

#[test]
fn parses_photo_attachment_with_caption() {
    let mut m = message(11, -100, "supergroup", Some(12));
    m.caption = Some("see attached".to_owned());
    m.message_thread_id = Some(555);
    m.photo = Some(vec![
        PhotoSize {
            file_id: "small-file".to_owned(),
            file_unique_id: "photo-1".to_owned(),
            width: 90,
            height: 90,
            file_size: Some(1200),
        },
        PhotoSize {
            file_id: "large-file".to_owned(),
            file_unique_id: "photo-1".to_owned(),
            width: 1280,
            height: 720,
            file_size: Some(4800),
        },
    ]);
    let messages = parse_updates(&ApiResponse {
        ok: true,
        result: vec![update_with(202, m)],
    })
    .expect("photo update should parse");

    assert_eq!(messages.len(), 1);
    let message = &messages[0];
    assert_eq!(message.text, "see attached");
    assert_eq!(message.thread_key, "555");
    assert_eq!(message.attachments.len(), 1);

    let attachment = &message.attachments[0];
    assert_eq!(attachment.kind, TelegramAttachmentKind::Photo);
    assert_eq!(attachment.file_id, "large-file");
    assert_eq!(attachment.file_unique_id, "photo-1");
    assert_eq!(attachment.file_size, Some(4800));
    assert_eq!(attachment.width, Some(1280));
    assert_eq!(attachment.height, Some(720));
    assert_eq!(attachment.file_name, None);
    assert_eq!(attachment.mime_type, None);
}

#[test]
fn parses_document_attachment_without_caption() {
    let mut m = message(19, 77, "private", Some(21));
    m.document = Some(Document {
        file_id: "doc-file".to_owned(),
        file_unique_id: "doc-1".to_owned(),
        file_name: Some("report.pdf".to_owned()),
        mime_type: Some("application/pdf".to_owned()),
        file_size: Some(2048),
    });
    let messages = parse_updates(&ApiResponse {
        ok: true,
        result: vec![update_with(303, m)],
    })
    .expect("document update should parse");

    assert_eq!(messages.len(), 1);
    let message = &messages[0];
    assert_eq!(message.text, "[Document] report.pdf");
    assert_eq!(message.attachments.len(), 1);

    let attachment = &message.attachments[0];
    assert_eq!(attachment.kind, TelegramAttachmentKind::Document);
    assert_eq!(attachment.file_id, "doc-file");
    assert_eq!(attachment.file_unique_id, "doc-1");
    assert_eq!(attachment.file_name.as_deref(), Some("report.pdf"));
    assert_eq!(attachment.mime_type.as_deref(), Some("application/pdf"));
    assert_eq!(attachment.file_size, Some(2048));
    assert_eq!(attachment.width, None);
    assert_eq!(attachment.height, None);
}

#[test]
fn parses_callback_query_as_control_command() {
    let update = Update {
        update_id: 303,
        message: None,
        edited_message: None,
        callback_query: Some(CallbackQuery {
            id: "callback-1".to_owned(),
            from: User { id: 12 },
            data: Some("approve:req-9".to_owned()),
            message: Some(message(44, 42, "private", None)),
            payload_json: "{}".to_owned(),
        }),
    };
    let messages = parse_updates(&ApiResponse {
        ok: true,
        result: vec![update],
    })
    .expect("callback update should parse");

    assert_eq!(messages.len(), 1);
    let message = &messages[0];
    assert_eq!(message.callback_query_id.as_deref(), Some("callback-1"));
    assert_eq!(
        message.control_command(),
        Some(TelegramControlCommand::Approve {
            request_id: "req-9".to_owned(),
        })
    );
}

#[test]
fn parse_updates_refuses_failed_response() {
    let error = parse_updates(&ApiResponse {
        ok: false,
        result: Vec::new(),
    })
    .expect_err("ok=false should fail");
    assert_eq!(error, "telegram getUpdates returned ok=false");
}

#[test]
fn parse_updates_skips_updates_without_content() {
    let no_content = update_with(1, message(1, 42, "private", Some(3)));
    let empty = Update {
        update_id: 2,
        message: None,
        edited_message: None,
        callback_query: None,
    };
    let messages = parse_updates(&ApiResponse {
        ok: true,
        result: vec![no_content, empty],
    })
    .expect("updates should parse");
    assert!(messages.is_empty());
}

#[test]
fn parse_pairing_updates_keeps_text_messages_with_sender() {
    let mut m = message(5, 42, "private", Some(9));
    m.text = Some(" /pair ABC ".to_owned());
    m.date = Some(1_700_000_000);
    let blank = {
        let mut b = message(6, 42, "private", Some(9));
        b.text = Some("   ".to_owned());
        b
    };
    let updates = parse_pairing_updates(&ApiResponse {
        ok: true,
        result: vec![update_with(10, m), update_with(11, blank)],
    })
    .expect("pairing updates should parse");
    assert_eq!(updates.len(), 1);
    assert_eq!(updates[0].update_id, 10);
    assert_eq!(updates[0].message.text, "/pair ABC");
    assert_eq!(updates[0].message.sent_at_s, 1_700_000_000);
    assert_eq!(updates[0].message.sender_id, 9);
}

#[test]
fn select_largest_photo_prefers_file_size_then_dimensions() {
    let photos = vec![
        PhotoSize {
            file_id: "smaller".to_owned(),
            file_unique_id: "photo-1".to_owned(),
            width: 1024,
            height: 1024,
            file_size: Some(2_000),
        },
        PhotoSize {
            file_id: "larger".to_owned(),
            file_unique_id: "photo-1".to_owned(),
            width: 800,
            height: 800,
            file_size: Some(4_000),
        },
    ];

    let selected = select_largest_photo(Some(&photos)).expect("photo should be selected");
    assert_eq!(photos[selected].file_id, "larger");
}

#[test]
fn select_largest_photo_uses_area_when_sizes_tie() {
    let photos = vec![
        PhotoSize {
            file_id: "wide".to_owned(),
            file_unique_id: "p".to_owned(),
            width: 100,
            height: 100,
            file_size: None,
        },
        PhotoSize {
            file_id: "small".to_owned(),
            file_unique_id: "p".to_owned(),
            width: 10,
            height: 10,
            file_size: None,
        },
    ];
    assert_eq!(select_largest_photo(Some(&photos)), Some(0));
    assert_eq!(select_largest_photo(Some(&Vec::new())), None);
    assert_eq!(select_largest_photo(None), None);
}

#[test]
fn safe_attachment_filename_sanitizes_reserved_document_name() {
    let attachment = TelegramAttachment {
        kind: TelegramAttachmentKind::Document,
        file_id: "doc-file".to_owned(),
        file_unique_id: "doc:1".to_owned(),
        file_name: Some("../CON?.pdf".to_owned()),
        mime_type: Some("application/pdf".to_owned()),
        file_size: Some(2048),
        width: None,
        height: None,
    };
    let remote_file = TelegramRemoteFile {
        file_id: "doc-file".to_owned(),
        file_unique_id: "doc:1".to_owned(),
        file_path: "documents/report.bin".to_owned(),
        file_size: Some(2048),
    };

    let file_name = safe_attachment_filename(&attachment, &remote_file);
    assert_eq!(file_name, "_CON_doc_1.pdf");
}

#[test]
fn safe_attachment_filename_uses_remote_extension_for_photos() {
    let attachment = TelegramAttachment {
        kind: TelegramAttachmentKind::Photo,
        file_id: "photo-file".to_owned(),
        file_unique_id: "photo-1".to_owned(),
        file_name: None,
        mime_type: None,
        file_size: Some(5),
        width: Some(100),
        height: Some(100),
    };
    let remote_file = TelegramRemoteFile {
        file_id: "photo-file".to_owned(),
        file_unique_id: "photo-1".to_owned(),
        file_path: "photos/file_10.JPG".to_owned(),
        file_size: Some(5),
    };
    assert_eq!(
        safe_attachment_filename(&attachment, &remote_file),
        "photo_photo-1.jpg"
    );
}

#[test]
fn parses_help_command() {
    assert_eq!(
        parse_control_command(" /help "),
        Some(TelegramControlCommand::Help)
    );
}

#[test]
fn parses_status_command_with_bot_suffix() {
    assert_eq!(
        parse_control_command("/status@remotty_bot"),
        Some(TelegramControlCommand::Status)
    );
}

#[test]
fn parses_mode_command_argument() {
    assert_eq!(
        parse_control_command("/mode completion_checks"),
        Some(TelegramControlCommand::Mode {
            mode: "completion_checks".to_owned(),
            max_turns: None,
        })
    );
}

#[test]
fn parses_mode_command_with_max_turns_budget() {
    assert_eq!(
        parse_control_command("/mode max_turns 5"),
        Some(TelegramControlCommand::Mode {
            mode: "max_turns".to_owned(),
            max_turns: Some(5),
        })
    );
}

#[test]
fn ignores_mode_command_without_argument() {
    assert_eq!(parse_control_command("/mode"), None);
}

#[test]
fn parses_workspace_command_without_argument() {
    assert_eq!(
        parse_control_command("/workspace"),
        Some(TelegramControlCommand::Workspace { workspace_id: None })
    );
}

#[test]
fn parses_workspace_command_with_id() {
    assert_eq!(
        parse_control_command("/workspace docs"),
        Some(TelegramControlCommand::Workspace {
            workspace_id: Some("docs".to_owned())
        })
    );
}

#[test]
fn parses_sessions_command_without_id() {
    assert_eq!(
        parse_control_command("/remotty-sessions"),
        Some(TelegramControlCommand::Sessions { thread_id: None })
    );
}

#[test]
fn parses_sessions_command_with_id() {
    assert_eq!(
        parse_control_command("/sessions thread-1"),
        Some(TelegramControlCommand::Sessions {
            thread_id: Some("thread-1".to_owned())
        })
    );
}

#[test]
fn parses_sessions_command_with_title() {
    assert_eq!(
        parse_control_command("/remotty-sessions Start workspace session"),
        Some(TelegramControlCommand::Sessions {
            thread_id: Some("Start workspace session".to_owned())
        })
    );
}

#[test]
fn parses_sessions_command_preserves_inner_title_whitespace() {
    assert_eq!(
        parse_control_command("/remotty-sessions Start  workspace  session"),
        Some(TelegramControlCommand::Sessions {
            thread_id: Some("Start  workspace  session".to_owned())
        })
    );
}

#[test]
fn parses_stop_command() {
    assert_eq!(
        TelegramControlCommand::parse("/stop"),
        Some(TelegramControlCommand::Stop)
    );
}

#[test]
fn parses_approve_command() {
    assert_eq!(
        parse_control_command("/approve req-1"),
        Some(TelegramControlCommand::Approve {
            request_id: "req-1".to_owned(),
        })
    );
}

#[test]
fn parses_deny_command() {
    assert_eq!(
        parse_control_command("/deny req-2"),
        Some(TelegramControlCommand::Deny {
            request_id: "req-2".to_owned(),
        })
    );
}

#[test]
fn reads_control_command_from_incoming_message_text() {
    let message = IncomingMessage {
        update_id: 1,
        chat_id: 10,
        chat_type: "private".to_owned(),
        sender_id: Some(20),
        text: " /status ".to_owned(),
        attachments: Vec::new(),
        telegram_message_id: 30,
        thread_key: "dm".to_owned(),
        callback_query_id: None,
        control_command_override: None,
        payload_json: "{}".to_owned(),
    };

    assert_eq!(
        message.control_command(),
        Some(TelegramControlCommand::Status)
    );
}

#[test]
fn rejects_extra_arguments_for_simple_commands() {
    assert_eq!(parse_control_command("/help now"), None);
    assert_eq!(parse_control_command("/status now"), None);
    assert_eq!(parse_control_command("/stop now"), None);
    assert_eq!(parse_control_command("/approve req extra"), None);
    assert_eq!(parse_control_command("/deny req extra"), None);
    assert_eq!(parse_control_command("/workspace docs extra"), None);
}

#[test]
fn rejects_mode_command_with_extra_arguments() {
    assert_eq!(parse_control_command("/mode completion checks"), None);
    assert_eq!(parse_control_command("/mode max_turns 3 extra"), None);
    assert_eq!(parse_control_command("/mode max_turns 0"), None);
}

#[test]
fn plain_text_is_not_a_command() {
    assert_eq!(parse_control_command("hello /status"), None);
    assert_eq!(parse_control_command(""), None);
}

#[test]
fn parses_answer_command_with_request_id_and_value() {
    assert_eq!(
        parse_control_command("/answer req-1 yes"),
        Some(TelegramControlCommand::Answer {
            request_id: "req-1".to_owned(),
            value: "yes".to_owned(),
        })
    );
    assert_eq!(
        parse_control_command("/answer req-1 KEY=one two"),
        Some(TelegramControlCommand::Answer {
            request_id: "req-1".to_owned(),
            value: "KEY=one two".to_owned(),
        })
    );
    assert_eq!(parse_control_command("/answer req-1"), None);
    assert_eq!(parse_control_command("/answer"), None);
}
