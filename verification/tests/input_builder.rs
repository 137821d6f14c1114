//! What is written to the standard input of the command-line model.

use openhuman::input_builder::{
    build_stdin, can_encode, content_blocks, image_block, image_references, image_value,
    media_type_from_path, push_json_line, push_line, split, text_value, AttachedFile, ChatMessage,
    Part,
};

fn message(role: &str, content: &str) -> ChatMessage {
    ChatMessage {
        role: role.to_string(),
        content: content.to_string(),
        prose: content.to_string(),
    }
}

fn line_of(bytes: Vec<u8>) -> serde_json::Value {
    let text = String::from_utf8(bytes).unwrap();
    assert!(text.ends_with('\n'));
    assert_eq!(text.matches('\n').count(), 1);
    serde_json::from_str(&text).unwrap()
}

fn blocks_of(line: &serde_json::Value) -> Vec<serde_json::Value> {
    line["message"]["content"].as_array().unwrap().clone()
}

fn file(path: &str, managed: bool, bytes: Option<&[u8]>) -> AttachedFile {
    AttachedFile { path: path.to_string(), managed, bytes: bytes.map(|b| b.to_vec()) }
}

#[test]
fn a_single_turn_is_one_line() {
    let bytes = build_stdin(&vec![message("user", "hello")], true, &Vec::new());
    assert_eq!(
        String::from_utf8(bytes).unwrap(),
        "{\"message\":{\"content\":[{\"text\":\"hello\",\"type\":\"text\"}],\"role\":\"user\"},\"type\":\"user\"}\n"
    );
}

#[test]
fn line_breaks_and_other_letters_stay_inside_the_line() {
    let bytes = build_stdin(&vec![message("user", "a\nb \u{1F600} \"q\"")], false, &Vec::new());
    let line = line_of(bytes);
    assert_eq!(line["type"], "user");
    assert_eq!(line["message"]["role"], "user");
    assert_eq!(blocks_of(&line)[0]["text"], "a\nb \u{1F600} \"q\"");
}

#[test]
fn nothing_is_sent_without_a_user_turn() {
    assert!(build_stdin(&Vec::new(), true, &Vec::new()).is_empty());
    let messages = vec![message("system", "s"), message("assistant", "a")];
    assert!(build_stdin(&messages, true, &Vec::new()).is_empty());
    assert!(image_references(&messages).is_empty());
}

#[test]
fn a_new_session_is_told_what_came_before() {
    let messages = vec![
        message("system", "be kind"),
        message("user", "first"),
        message("assistant", "one"),
        message("user", "failed attempt"),
        message("user", "second"),
        message("tool", "looked up"),
        message("assistant", ""),
        message("user", "now"),
    ];
    let blocks = blocks_of(&line_of(build_stdin(&messages, true, &Vec::new())));
    assert_eq!(blocks.len(), 2);
    assert_eq!(
        blocks[0]["text"],
        "[Earlier in this conversation]\nUser: first\nAssistant: one\nUser: second\ntool: looked up\n[End of earlier conversation]\n"
    );
    assert_eq!(blocks[1]["text"], "now");
    let resumed = blocks_of(&line_of(build_stdin(&messages, false, &Vec::new())));
    assert_eq!(resumed.len(), 1);
    assert_eq!(resumed[0]["text"], "now");
}

#[test]
fn a_new_session_is_told_what_came_behind_the_last_turn() {
    let messages = vec![
        message("user", "first question"),
        message("assistant", "first answer"),
    ];
    let line = line_of(build_stdin(&messages, true, &Vec::new()));
    assert_eq!(line["type"], "user");
    assert_eq!(line["message"]["role"], "user");
    let blocks = blocks_of(&line);
    assert_eq!(blocks.len(), 2);
    assert_eq!(blocks[0]["text"], "first question");
    assert_eq!(
        blocks[1]["text"],
        "[Later in this conversation]\nAssistant: first answer\n[End of later conversation]\n"
    );
    let resumed = blocks_of(&line_of(build_stdin(&messages, false, &Vec::new())));
    assert_eq!(resumed.len(), 1);
    assert_eq!(resumed[0]["text"], "first question");
}

#[test]
fn a_new_session_is_told_of_every_role() {
    let messages = vec![
        message("tool", "earlier result"),
        message("user", "question"),
        message("assistant", "calling a tool"),
        message("tool", "later result"),
        message("assistant", "answer"),
    ];
    let blocks = blocks_of(&line_of(build_stdin(&messages, true, &Vec::new())));
    assert_eq!(blocks.len(), 3);
    assert_eq!(
        blocks[0]["text"],
        "[Earlier in this conversation]\ntool: earlier result\n[End of earlier conversation]\n"
    );
    assert_eq!(blocks[1]["text"], "question");
    assert_eq!(
        blocks[2]["text"],
        "[Later in this conversation]\nAssistant: calling a tool\ntool: later result\nAssistant: answer\n[End of later conversation]\n"
    );
}

#[test]
fn a_turn_without_a_reply_is_not_told() {
    let messages = vec![
        message("user", "asked"),
        message("tool", "half done"),
        message("user", "asked"),
    ];
    let blocks = blocks_of(&line_of(build_stdin(&messages, true, &Vec::new())));
    assert_eq!(blocks.len(), 2);
    assert_eq!(
        blocks[0]["text"],
        "[Earlier in this conversation]\ntool: half done\n[End of earlier conversation]\n"
    );
    assert_eq!(blocks[1]["text"], "asked");
}

#[test]
fn attachments_are_written_in_base64() {
    let vectors: [(&[u8], &str); 9] = [
        (b"", ""),
        (b"f", "Zg=="),
        (b"fo", "Zm8="),
        (b"foo", "Zm9v"),
        (b"foob", "Zm9vYg=="),
        (b"fooba", "Zm9vYmE="),
        (b"foobar", "Zm9vYmFy"),
        (&[0, 16, 131, 16, 81, 135], "ABCDEFGH"),
        (&[255, 239, 191], "/++/"),
    ];
    for (bytes, text) in vectors {
        let files = vec![file("/files/x.png", true, Some(bytes))];
        let made = image_block("/files/x.png", &files).unwrap();
        assert_eq!(made["source"]["data"], text, "{text}");
    }
}

#[test]
fn the_preamble_is_prose_without_images() {
    let mut turn = message("user", "see [IMAGE:/a/x.png]");
    turn.prose = "see".to_string();
    let messages = vec![turn, message("assistant", "seen"), message("user", "and now?")];
    let blocks = blocks_of(&line_of(build_stdin(&messages, true, &Vec::new())));
    assert_eq!(
        blocks[0]["text"],
        "[Earlier in this conversation]\nUser: see\nAssistant: seen\n[End of earlier conversation]\n"
    );
    assert!(image_references(&messages).is_empty());
}

#[test]
fn images_are_sent_inline() {
    let raw = "look: [IMAGE:data:image/png;base64,AAAA] and [IMAGE:/files/cat.GIF]!";
    let messages = vec![message("user", raw)];
    assert_eq!(
        image_references(&messages),
        vec!["data:image/png;base64,AAAA".to_string(), "/files/cat.GIF".to_string()]
    );
    let files = vec![file("/files/cat.GIF", true, Some(b"hello world~"))];
    assert!(can_encode(&files));
    let blocks = blocks_of(&line_of(build_stdin(&messages, false, &files)));
    assert_eq!(blocks.len(), 5);
    assert_eq!(blocks[0]["text"], "look: ");
    assert_eq!(blocks[1]["type"], "image");
    assert_eq!(blocks[1]["source"]["type"], "base64");
    assert_eq!(blocks[1]["source"]["media_type"], "image/png");
    assert_eq!(blocks[1]["source"]["data"], "AAAA");
    assert_eq!(blocks[2]["text"], " and ");
    assert_eq!(blocks[3]["source"]["media_type"], "image/gif");
    assert_eq!(blocks[3]["source"]["data"], "aGVsbG8gd29ybGR+");
    assert_eq!(blocks[4]["text"], "!");
}

#[test]
fn an_image_that_cannot_be_read_is_told() {
    let note = "[an attached image could not be read]";
    let blocks = |raw: &str, files: Vec<AttachedFile>| content_blocks(raw, &files);
    for (raw, files) in [
        ("[IMAGE:/etc/passwd]", vec![file("/etc/passwd", false, Some(b"x"))]),
        ("[IMAGE:/files/gone.png]", vec![file("/files/gone.png", true, None)]),
        ("[IMAGE:/files/unknown.png]", Vec::new()),
        ("[IMAGE:data:image/png,AAAA]", Vec::new()),
    ] {
        let made = blocks(raw, files);
        assert_eq!(made.len(), 1, "{raw}");
        assert_eq!(made[0]["type"], "text");
        assert_eq!(made[0]["text"], note, "{raw}");
    }
    assert!(image_block("/x.png", &vec![file("/x.png", true, Some(b""))]).is_some());
}

#[test]
fn a_message_is_split_without_loss() {
    for raw in [
        "",
        "plain",
        "[IMAGE:a]",
        "x[IMAGE:a][IMAGE:b]y",
        "open [IMAGE:never closed",
        "[IMAGE:]",
        "]]][IMAGE:a]]",
        "[IMAGE:[IMAGE:a]b]",
        "\u{e9}[IMAGE:\u{4e2d}.png]\u{e9}",
    ] {
        let spelled: String = split(raw)
            .iter()
            .map(|part| match part {
                Part::Prose(text) => text.clone(),
                Part::Image(reference) => format!("[IMAGE:{reference}]"),
            })
            .collect();
        assert_eq!(spelled, raw);
    }
    assert_eq!(
        split("[IMAGE:[IMAGE:a]b]"),
        vec![Part::Image("[IMAGE:a".to_string()), Part::Prose("b]".to_string())]
    );
    assert_eq!(
        split("open [IMAGE:never closed"),
        vec![Part::Prose("open [IMAGE:never closed".to_string())]
    );
}

#[test]
fn an_empty_message_is_one_empty_block() {
    let made = content_blocks("", &Vec::new());
    assert_eq!(made.len(), 1);
    assert_eq!(made[0]["type"], "text");
    assert_eq!(made[0]["text"], "");
}

#[test]
fn a_data_reference_is_cut_at_its_first_separator() {
    let image = image_block("data:a;base64,b;base64,c", &Vec::new()).unwrap();
    assert_eq!(image["source"]["media_type"], "a");
    assert_eq!(image["source"]["data"], "b;base64,c");
    assert!(image_block("data:;base64,", &Vec::new()).is_some());
}

#[test]
fn media_types_go_by_the_extension() {
    assert_eq!(media_type_from_path("a.png"), "image/png");
    assert_eq!(media_type_from_path("a.PnG"), "image/png");
    assert_eq!(media_type_from_path("a.gif"), "image/gif");
    assert_eq!(media_type_from_path("a.WEBP"), "image/webp");
    assert_eq!(media_type_from_path("a.jpg"), "image/jpeg");
    assert_eq!(media_type_from_path("png"), "image/jpeg");
    assert_eq!(media_type_from_path(""), "image/jpeg");
}

#[test]
fn blocks_and_lines_are_spelled_out() {
    assert_eq!(
        serde_json::to_string(&image_value("image/png", "QUJD")).unwrap(),
        r#"{"source":{"data":"QUJD","media_type":"image/png","type":"base64"},"type":"image"}"#
    );
    let mut buf = "x\n".to_string();
    push_json_line(&mut buf, &text_value("a\nb"));
    assert_eq!(buf, "x\n{\"text\":\"a\\nb\",\"type\":\"text\"}\n");
    push_line(&mut buf, "y");
    assert!(buf.ends_with("}\ny\n"));
}
