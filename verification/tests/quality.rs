use mimick_library::quality::{
    bucket_for_asset, bucket_for_row_height, cached_bucket, fallback_bucket, retry_bucket,
    GridQuality, ThumbnailSize, PREVIEW_BUCKET_THRESHOLD,
};

#[test]
fn bucket_thumbnail_under_threshold() {
    assert!(matches!(
        bucket_for_row_height(200, GridQuality::Auto),
        ThumbnailSize::Thumbnail
    ));
    assert!(matches!(
        bucket_for_row_height(PREVIEW_BUCKET_THRESHOLD, GridQuality::Auto),
        ThumbnailSize::Thumbnail
    ));
    assert!(matches!(
        bucket_for_row_height(PREVIEW_BUCKET_THRESHOLD + 1, GridQuality::Auto),
        ThumbnailSize::Preview
    ));
}

#[test]
fn explicit_quality_overrides_row_height() {
    assert!(matches!(
        bucket_for_row_height(2000, GridQuality::Thumbnail),
        ThumbnailSize::Thumbnail
    ));
    assert!(matches!(
        bucket_for_row_height(50, GridQuality::Fullsize),
        ThumbnailSize::Fullsize
    ));
}

#[test]
fn fallback_chain_degrades_fullsize_to_preview() {
    assert_eq!(fallback_bucket(ThumbnailSize::Fullsize), Some(ThumbnailSize::Preview));
    assert_eq!(fallback_bucket(ThumbnailSize::Preview), None);
    assert_eq!(fallback_bucket(ThumbnailSize::Thumbnail), None);
}

#[test]
fn quality_names_are_read() {
    assert_eq!(GridQuality::parse("thumbnail"), GridQuality::Thumbnail);
    assert_eq!(GridQuality::parse("preview"), GridQuality::Preview);
    assert_eq!(GridQuality::parse("fullsize"), GridQuality::Fullsize);
    assert_eq!(GridQuality::parse("auto"), GridQuality::Auto);
    assert_eq!(GridQuality::parse("Preview"), GridQuality::Auto);
    assert_eq!(GridQuality::default(), GridQuality::Thumbnail);
}

#[test]
fn only_missing_images_are_retried() {
    let full = ThumbnailSize::Fullsize;
    assert_eq!(retry_bucket(full, "HTTP 404 Not Found"), Some(ThumbnailSize::Preview));
    assert_eq!(retry_bucket(full, "HTTP 500"), None);
    assert_eq!(retry_bucket(ThumbnailSize::Preview, "HTTP 404"), None);
}

#[test]
fn local_rows_take_thumbnails() {
    let q = GridQuality::Fullsize;
    assert_eq!(bucket_for_asset("local::/a.jpg", "/a.jpg", 900, q), ThumbnailSize::Thumbnail);
    assert_eq!(bucket_for_asset("remote", "/a.jpg", 900, q), ThumbnailSize::Fullsize);
    assert_eq!(bucket_for_asset("local::/a.jpg", "", 900, q), ThumbnailSize::Fullsize);
}

#[test]
fn cache_is_asked_for_the_fallback_too() {
    let full = ThumbnailSize::Fullsize;
    assert_eq!(cached_bucket(full, true, true), Some(full));
    assert_eq!(cached_bucket(full, false, true), Some(ThumbnailSize::Preview));
    assert_eq!(cached_bucket(full, false, false), None);
    assert_eq!(cached_bucket(ThumbnailSize::Preview, false, true), None);
}
