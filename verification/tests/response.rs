use hath_cache::info::ContentFileInfo;
use hath_cache::response::{
    cache_control, content_disposition, failure_status, stream_head, Failure, STATUS_FORBIDDEN,
    STATUS_NOT_FOUND, STATUS_OK,
};

#[test]
fn status_codes() {
    assert_eq!(STATUS_OK, 200);
    assert_eq!(STATUS_FORBIDDEN, 403);
    assert_eq!(STATUS_NOT_FOUND, 404);
}

#[test]
fn only_the_keystamp_is_forbidden() {
    assert_eq!(failure_status(Failure::Keystamp), 403);
    assert_eq!(failure_status(Failure::FileId), 404);
    assert_eq!(failure_status(Failure::Resolver), 404);
    assert_eq!(failure_status(Failure::TempPath), 404);
    assert_eq!(failure_status(Failure::NoFirstByte), 404);
}

#[test]
fn cache_hit() {
    // what the endpoint adds to a file that the cache serves itself
    assert_eq!(STATUS_OK, 200);
    assert_eq!(String::from_utf8(cache_control()).unwrap(), "public, max-age=31536000");
    assert_eq!(
        String::from_utf8(content_disposition(b"abc.png")).unwrap(),
        "inline; filename=\"abc.png\""
    );
}

#[test]
fn cache_control_allows_a_year() {
    assert_eq!(cache_control(), b"public, max-age=31536000".to_vec());
}

#[test]
fn content_disposition_echoes_the_filename() {
    assert_eq!(content_disposition(b"01.jpg"), b"inline; filename=\"01.jpg\"".to_vec());
    assert_eq!(content_disposition(b""), b"inline; filename=\"\"".to_vec());
}

#[test]
fn info_keeps_what_it_is_given() {
    let info = ContentFileInfo::new([7u8; 20], 1_048_576, b"image/png".to_vec());
    assert_eq!(info.hash(), [7u8; 20]);
    assert_eq!(info.size(), 1_048_576);
    assert_eq!(info.mime_type(), &b"image/png"[..]);
}

#[test]
fn stream_head_carries_the_declared_type_and_size() {
    let info = ContentFileInfo::new([7u8; 20], 1_048_576, b"image/jpeg".to_vec());
    let head = stream_head(&info, b"01.jpg");
    assert_eq!(head.content_type, b"image/jpeg".to_vec());
    assert_eq!(head.content_length, 1_048_576);
    assert_eq!(head.cache_control, b"public, max-age=31536000".to_vec());
    assert_eq!(head.content_disposition, b"inline; filename=\"01.jpg\"".to_vec());
}
