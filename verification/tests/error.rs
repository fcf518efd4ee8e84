use less_avc::Error;

#[test]
fn test_error_texts() {
    assert_eq!(
        Error::DataShapeProblem {
            msg: "stride too small"
        }
        .to_string(),
        "Image data shape is problematic: stride too small"
    );
    assert_eq!(Error::UnsupportedFormat {}.to_string(), "unsupported format");
    assert_eq!(
        Error::UnsupportedImageSize {}.to_string(),
        "unsupported image size: even width and height required"
    );
    assert_eq!(
        Error::InconsistentState {}.to_string(),
        "internal error: inconsistent state"
    );
}

#[test]
fn test_io_error() {
    let source = std::io::Error::new(std::io::ErrorKind::WriteZero, "the disk is full");
    let e = Error::from(source);
    match &e {
        Error::IoError { source } => {
            assert_eq!(source.kind(), std::io::ErrorKind::WriteZero)
        }
        _ => panic!("an I/O error stays an I/O error"),
    }
    assert_eq!(e.to_string(), "IO error: the disk is full");
    let text = format!("{:?}", e);
    assert!(text.starts_with("IoError"));
}
