use merchant::files::{BufferedBytesStream, ImageOutputFormat, LocalFile};

#[test]
fn mime_names_parse_back() {
    assert_eq!(
        ImageOutputFormat::from_mime("image/jpeg"),
        Some(ImageOutputFormat::Jpeg)
    );
    assert_eq!(
        ImageOutputFormat::from_mime("image/png"),
        Some(ImageOutputFormat::Png)
    );
    assert_eq!(ImageOutputFormat::from_mime("image/webp"), None);
    assert_eq!(ImageOutputFormat::from_mime(""), None);
    assert_eq!(
        ImageOutputFormat::from_mime(ImageOutputFormat::Jpeg.as_mime()),
        Some(ImageOutputFormat::Jpeg)
    );
    assert_eq!(
        ImageOutputFormat::from_mime(ImageOutputFormat::Png.as_mime()),
        Some(ImageOutputFormat::Png)
    );
}

#[test]
fn local_file_image_detection() {
    let image = LocalFile::new(
        "k1".to_string(),
        "/tmp/k1.png".to_string(),
        Some("image/png".to_string()),
    );
    assert!(image.is_image());

    let text = LocalFile::new(
        "k2".to_string(),
        "/tmp/k2.txt".to_string(),
        Some("text/plain".to_string()),
    );
    assert!(!text.is_image());

    let unknown = LocalFile::new("k3".to_string(), "/tmp/k3".to_string(), None);
    assert!(!unknown.is_image());

    let bare_prefix = LocalFile::new(
        "k4".to_string(),
        "/tmp/k4".to_string(),
        Some("image/".to_string()),
    );
    assert!(bare_prefix.is_image());
}

#[test]
fn buffered_stream_wraps_reader() {
    let stream = BufferedBytesStream::new(vec![1u8, 2, 3]);
    assert_eq!(stream.0, vec![1u8, 2, 3]);
}
