use notema_tui::body::{body_parts, BodyPart};
use notema_tui::markdown::image_label;
use notema_tui::tables::feelings_label;

fn describe(parts: &[BodyPart]) -> Vec<String> {
    parts
        .iter()
        .map(|part| match part {
            BodyPart::Blank => "blank".to_string(),
            BodyPart::Chunk(text) => format!("chunk {text:?}"),
            BodyPart::Image(index, alt) => image_label(*index, alt),
        })
        .collect()
}

#[test]
fn replaces_images_with_numbered_labels_and_records_positions() {
    let content = "Text above\n\n![a shot](2026-07-05T14-30-00-abc123.assets/x9k2.png)\n\n![](2026-07-05T14-30-00-abc123.assets/aa11.png)\n\nText below";
    let images = vec![
        None,
        None,
        Some("a shot".to_string()),
        None,
        Some(String::new()),
        None,
        None,
    ];
    let parts = body_parts(content, Some(&images));
    assert_eq!(
        describe(&parts),
        [
            "blank",
            "chunk \"Text above\\n\\n\"",
            "[Image 1: a shot - click here or press 1]",
            "blank",
            "[Image 2 - click here or press 2]",
            "blank",
            "chunk \"Text below\"",
        ]
    );
}

#[test]
fn no_labels_without_entry_path() {
    let parts = body_parts("just text", None);
    assert_eq!(describe(&parts), ["blank", "chunk \"just text\""]);
}

#[test]
fn text_after_an_image_starts_a_new_chunk() {
    let images = vec![Some("x".to_string()), None, None];
    let parts = body_parts("![x](a.png)\nmore\ntext", Some(&images));
    assert_eq!(
        describe(&parts),
        ["blank", "[Image 1: x - click here or press 1]", "chunk \"more\\ntext\""]
    );
}

#[test]
fn an_empty_body_is_just_the_leading_row() {
    let parts = body_parts("", Some(&vec![None]));
    assert_eq!(describe(&parts), ["blank"]);
}

#[test]
fn feelings_are_listed_with_their_counts() {
    assert_eq!(
        feelings_label(&[("calm".to_string(), 5), ("grateful".to_string(), 3)]),
        "calm (5), grateful (3)"
    );
    assert_eq!(feelings_label(&[("calm".to_string(), 12)]), "calm (12)");
    assert_eq!(feelings_label(&[]), "—");
}
