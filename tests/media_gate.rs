use media_converter::error::Error;
use media_converter::media::{Converter, Format};

#[test]
fn supported_pairs_are_accepted() {
    for sub in ["png", "jpeg", "avif"] {
        assert!(Converter::is_mime_supported("image", sub));
    }
    for sub in ["mp4", "av1", "vp8", "vp9"] {
        assert!(Converter::is_mime_supported("video", sub));
    }
}

#[test]
fn comparison_ignores_ascii_case() {
    assert!(Converter::is_mime_supported("IMAGE", "PNG"));
    assert!(Converter::is_mime_supported("Video", "Vp9"));
}

#[test]
fn other_pairs_are_rejected() {
    assert!(!Converter::is_mime_supported("image", "gif"));
    assert!(!Converter::is_mime_supported("video", "png"));
    assert!(!Converter::is_mime_supported("image", "mp4"));
    assert!(!Converter::is_mime_supported("text", "jpeg"));
    assert!(!Converter::is_mime_supported("audio", "vp8"));
    assert!(!Converter::is_mime_supported("", ""));
    assert!(!Converter::is_mime_supported("image", "pngx"));
}

#[test]
fn media_type_text_is_gated() {
    assert_eq!(Converter::check_media_type("image/png"), Ok(Format::Png));
    assert_eq!(Converter::check_media_type("VIDEO/VP9"), Ok(Format::Vp9));
    assert_eq!(Converter::check_media_type("image/gif"), Err(Error::MimeNotSupported));
    assert_eq!(Converter::check_media_type("text/jpeg"), Err(Error::MimeNotSupported));
}

#[test]
fn unparseable_media_type_is_a_distinct_error() {
    assert_eq!(Converter::check_media_type("png"), Err(Error::InvalidMediaType));
    assert_eq!(Converter::check_media_type(""), Err(Error::InvalidMediaType));
}

#[test]
fn format_names() {
    assert_eq!(Format::from_name("png"), Some(Format::Png));
    assert_eq!(Format::from_name("JPEG"), Some(Format::Jpeg));
    assert_eq!(Format::from_name("vp8"), Some(Format::Vp8));
    assert_eq!(Format::from_name("gif"), None);
    assert_eq!(Format::Avif.extension(), "avif");
    assert_eq!(Format::Av1.extension(), "av1");
}

#[test]
fn format_of_parsed_pair() {
    assert_eq!(Converter::format_of("image", "jpeg"), Some(Format::Jpeg));
    assert_eq!(Converter::format_of("video", "jpeg"), None);
}

#[test]
fn error_messages() {
    assert_eq!(Error::MimeNotSupported.message(), "Mime type is not supported");
    assert_eq!(Error::NotFound.message(), "Not found");
    assert_eq!(Error::MissingFileId.message(), "Missing file id");
    assert_eq!(Error::InvalidMediaType.message(), "Invalid media type");
    assert_eq!(Error::NotClaimed.message(), "Job is not claimed by this worker");
    assert_eq!(Error::InvalidTransition.message(), "Step does not fit the job state");
    assert_eq!(Error::StorageReadError.message(), "Storage read failed");
    assert_eq!(Error::StorageWriteError.message(), "Storage write failed");
}
