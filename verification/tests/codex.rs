use remotty::codex::CodexRequest;

#[test]
fn request_without_images_keeps_prompt_only() {
    let args = CodexRequest::new("hello".to_owned()).into_args();

    assert_eq!(args, vec!["hello".to_owned()]);
}

#[test]
fn request_with_images_appends_image_flags() {
    let args = CodexRequest::with_images(
        "hello".to_owned(),
        vec!["C:/tmp/one.png".to_owned(), "C:/tmp/two.png".to_owned()],
    )
    .into_args();

    assert_eq!(
        args,
        vec![
            "hello".to_owned(),
            "--image".to_owned(),
            "C:/tmp/one.png".to_owned(),
            "--image".to_owned(),
            "C:/tmp/two.png".to_owned(),
        ]
    );
}
