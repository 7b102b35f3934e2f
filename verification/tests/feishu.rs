use codexhub::config::FeishuConfig;
use codexhub::feishu::{
    attachment_suffix, build_attachment_file_name, extension_for_mime, inbound_admission, message_verdict,
    parse_media_keys, sanitize_file_name, AttachmentKind, InboundAdmission, MessageVerdict, PbFrame, PbHeader,
};

fn frame(headers: &[(&str, &str)]) -> PbFrame {
    PbFrame {
        seq_id: 1,
        log_id: 2,
        service: 3,
        method: 0,
        headers: headers
            .iter()
            .map(|(k, v)| PbHeader { key: k.to_string(), value: v.to_string() })
            .collect(),
        payload: None,
    }
}

#[test]
fn header_value_takes_first_match_or_empty() {
    let f = frame(&[("type", "event"), ("message_id", "m1"), ("type", "ping")]);
    assert_eq!(f.header_value("type"), "event");
    assert_eq!(f.header_value("message_id"), "m1");
    assert_eq!(f.header_value("missing"), "");
}

#[test]
fn attachment_dirs_and_extensions() {
    assert_eq!(AttachmentKind::Image.as_dir(), "images");
    assert_eq!(AttachmentKind::File.as_dir(), "files");
    assert_eq!(AttachmentKind::Video.as_dir(), "videos");
    assert_eq!(extension_for_mime("image/jpeg"), "jpg");
    assert_eq!(extension_for_mime("image/webp"), "webp");
    assert_eq!(extension_for_mime("image/gif"), "gif");
    assert_eq!(extension_for_mime("application/octet-stream"), "png");
}

#[test]
fn file_names_are_sanitized() {
    assert_eq!(sanitize_file_name("a<b>c:d\"e/f\\g|h?i*j\u{7}k\u{85}l"), "a_b_c_d_e_f_g_h_i_j_k_l");
    assert_eq!(sanitize_file_name("报告 v2.pdf"), "报告 v2.pdf");
}

#[test]
fn stored_names_keep_stem_and_extension() {
    assert_eq!(build_attachment_file_name("  report.final.pdf ", "1a-2"), "report.final-1a-2.pdf");
    assert_eq!(build_attachment_file_name("", "s"), "attachment-s.bin");
    assert_eq!(build_attachment_file_name("   ", "s"), "attachment-s.bin");
    assert_eq!(build_attachment_file_name(".bashrc", "s"), ".bashrc-s");
    assert_eq!(build_attachment_file_name("noext", "s"), "noext-s");
    assert_eq!(build_attachment_file_name("trailing.", "s"), "trailing-s");
    assert_eq!(build_attachment_file_name("..", "s"), "attachment-s");
    assert_eq!(build_attachment_file_name("a/b.txt", "s"), "a_b-s.txt");
    assert_eq!(build_attachment_file_name(" .txt", "s"), ".txt-s");
}

#[test]
fn suffix_is_hexadecimal() {
    assert_eq!(attachment_suffix(255, 16), "ff-10");
    assert_eq!(attachment_suffix(0, 0), "0-0");
    assert_eq!(attachment_suffix(u128::MAX, 1), format!("{:x}-1", u128::MAX));
}

#[test]
fn stored_names_never_hold_reserved_characters() {
    let name = build_attachment_file_name("<evil>:name?.t|x*", "1-2");
    assert!(!name.chars().any(|c| "<>:\"/\\|?*".contains(c) || c.is_control()));
    assert_eq!(name, "_evil__name_-1-2.t_x_");
}

#[test]
fn text_content_reads_the_text_of_text_messages() {
    assert_eq!(codexhub::feishu::extract_text_content(r#"{"text":"hello"}"#, "text"), "hello");
    assert_eq!(codexhub::feishu::extract_text_content(r#"{"other":1}"#, "text"), r#"{"other":1}"#);
    assert_eq!(codexhub::feishu::extract_text_content("not json", "text"), "not json");
    assert_eq!(codexhub::feishu::extract_text_content(r#"{"image_key":"k"}"#, "image"), "");
    assert_eq!(codexhub::feishu::extract_text_content("  ", "text"), "");
    assert_eq!(codexhub::feishu::extract_text_content("<post>", "post"), "<post>");
}

#[test]
fn media_keys_follow_the_message_type() {
    let content = r#"{"image_key":"img","file_key":"f","file_name":"a.pdf"}"#;
    assert_eq!(parse_media_keys(content, "image"), (Some("img".to_string()), None, None));
    assert_eq!(parse_media_keys(content, "file"), (None, Some("f".to_string()), Some("a.pdf".to_string())));
    assert_eq!(
        parse_media_keys(r#"{"file_key":"f"}"#, "audio"),
        (None, Some("f".to_string()), Some("audio.bin".to_string()))
    );
    assert_eq!(
        parse_media_keys(r#"{"image_key":"cover","file_key":"v"}"#, "video"),
        (Some("cover".to_string()), Some("v".to_string()), Some("media.bin".to_string()))
    );
    assert_eq!(
        parse_media_keys(r#"{"file_key":"s"}"#, "sticker"),
        (None, Some("s".to_string()), Some("sticker.bin".to_string()))
    );
    assert_eq!(parse_media_keys(r#"{"file_key":"f"}"#, "file").2, Some("attachment.bin".to_string()));
    assert_eq!(parse_media_keys("oops", "image"), (None, None, None));
    assert_eq!(parse_media_keys(content, "text"), (None, None, None));
}

#[test]
fn inbound_admission_checks_type_sender_and_chat() {
    let mut settings = FeishuConfig::default();
    assert_eq!(
        inbound_admission("im.chat.updated_v1", "user", Some("ou_1"), "oc_1", &settings),
        InboundAdmission::NotAMessage
    );
    assert_eq!(
        inbound_admission("im.message.receive_v1", "bot", Some("ou_1"), "oc_1", &settings),
        InboundAdmission::FromBot
    );
    assert_eq!(
        inbound_admission("im.message.receive_v1", "user", None, "oc_1", &settings),
        InboundAdmission::Admitted("unknown".to_string())
    );
    settings.allowed_open_ids = vec!["ou_1".to_string()];
    assert_eq!(
        inbound_admission("im.message.receive_v1", "user", Some("ou_2"), "oc_1", &settings),
        InboundAdmission::SenderNotAllowed
    );
    settings.allowed_chat_ids = vec!["oc_9".to_string()];
    assert_eq!(
        inbound_admission("im.message.receive_v1", "user", Some("ou_1"), "oc_1", &settings),
        InboundAdmission::ChatNotAllowed
    );
    assert_eq!(
        inbound_admission("im.message.receive_v1", "user", Some("ou_1"), "oc_9", &settings),
        InboundAdmission::Admitted("ou_1".to_string())
    );
}

#[test]
fn message_verdict_requires_content_and_group_mentions() {
    assert_eq!(message_verdict("  ", false, "p2p", 0, true), MessageVerdict::Empty);
    assert_eq!(
        message_verdict("", true, "p2p", 0, true),
        MessageVerdict::Deliver { direct: true, mentioned: true }
    );
    assert_eq!(message_verdict("hi", false, "group", 0, true), MessageVerdict::GroupWithoutMention);
    assert_eq!(
        message_verdict("hi", false, "group", 0, false),
        MessageVerdict::Deliver { direct: false, mentioned: false }
    );
    assert_eq!(
        message_verdict("hi", false, "group", 2, true),
        MessageVerdict::Deliver { direct: false, mentioned: true }
    );
}
