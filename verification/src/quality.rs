//! Which thumbnail size the grid asks for, and what it falls back to.
use vstd::prelude::*;
use crate::local_source::{is_local_id, LOCAL_ID_PREFIX};
use crate::text;
use crate::text::{contains_text, same_text};

verus! {

/// The tallest row, in pixels, that the automatic quality fills with thumbnails.
pub const PREVIEW_BUCKET_THRESHOLD: i64 = 600;

/// The sizes in which the server offers an image.
#[derive(Clone, Copy, Debug, PartialEq, Eq, Structural)]
pub enum ThumbnailSize {
    Thumbnail,
    Preview,
    Fullsize,
}

/// How the photo grid is laid out.
#[derive(Clone, Copy, Debug, PartialEq, Eq, Structural)]
pub enum GridLayout {
    SquareGrid,
    Masonry,
}

/// The image quality of the photo grid.
#[derive(Clone, Copy, Debug, PartialEq, Eq, Structural)]
pub enum GridQuality {
    /// By the height of the row.
    Auto,
    Thumbnail,
    Preview,
    Fullsize,
}

impl Default for GridQuality {
    fn default() -> (r: Self)
        ensures
            r == GridQuality::Thumbnail,
    {
        GridQuality::Thumbnail
    }
}

impl GridQuality {
    /// The quality a setting names; automatic for anything unknown.
    pub fn parse(s: &str) -> (r: Self)
        ensures
            r == if s@ == "thumbnail"@ {
                GridQuality::Thumbnail
            } else if s@ == "preview"@ {
                GridQuality::Preview
            } else if s@ == "fullsize"@ {
                GridQuality::Fullsize
            } else {
                GridQuality::Auto
            },
    {
        if same_text(s, "thumbnail") {
            GridQuality::Thumbnail
        } else if same_text(s, "preview") {
            GridQuality::Preview
        } else if same_text(s, "fullsize") {
            GridQuality::Fullsize
        } else {
            GridQuality::Auto
        }
    }
}

/// The size for a row of the given height.
pub open spec fn bucket(h: i64, quality: GridQuality) -> ThumbnailSize {
    match quality {
        GridQuality::Thumbnail => ThumbnailSize::Thumbnail,
        GridQuality::Preview => ThumbnailSize::Preview,
        GridQuality::Fullsize => ThumbnailSize::Fullsize,
        GridQuality::Auto => if h <= PREVIEW_BUCKET_THRESHOLD {
            ThumbnailSize::Thumbnail
        } else {
            ThumbnailSize::Preview
        },
    }
}

/// The size for a row whose height, rounded up to whole pixels, is `h`.
pub fn bucket_for_row_height(h: i64, quality: GridQuality) -> (r: ThumbnailSize)
    ensures
        r == bucket(h, quality),
{
    match quality {
        GridQuality::Thumbnail => ThumbnailSize::Thumbnail,
        GridQuality::Preview => ThumbnailSize::Preview,
        GridQuality::Fullsize => ThumbnailSize::Fullsize,
        GridQuality::Auto => {
            if h <= PREVIEW_BUCKET_THRESHOLD {
                ThumbnailSize::Thumbnail
            } else {
                ThumbnailSize::Preview
            }
        },
    }
}

/// The row stands for a file that is only on disk.
pub open spec fn is_local_row(asset_id: Seq<char>, local_path: Seq<char>) -> bool {
    local_path.len() > 0 && LOCAL_ID_PREFIX@.is_prefix_of(asset_id)
}

/// Whether a row stands for a file that is only on disk.
pub fn local_row(asset_id: &str, local_path: &str) -> (r: bool)
    ensures
        r == is_local_row(asset_id@, local_path@),
{
    !local_path.is_empty() && is_local_id(asset_id)
}

/// The size for an asset: thumbnails for files that are only on disk, else by the row.
pub fn bucket_for_asset(asset_id: &str, local_path: &str, h: i64, quality: GridQuality) -> (r:
    ThumbnailSize)
    ensures
        r == if is_local_row(asset_id@, local_path@) {
            ThumbnailSize::Thumbnail
        } else {
            bucket(h, quality)
        },
{
    if local_row(asset_id, local_path) {
        ThumbnailSize::Thumbnail
    } else {
        bucket_for_row_height(h, quality)
    }
}

/// The size to try where the server lacks the given one.
pub open spec fn fallback(size: ThumbnailSize) -> Option<ThumbnailSize> {
    match size {
        ThumbnailSize::Fullsize => Some(ThumbnailSize::Preview),
        ThumbnailSize::Preview => None,
        ThumbnailSize::Thumbnail => None,
    }
}

/// The size to try where the server lacks the given one.
pub fn fallback_bucket(size: ThumbnailSize) -> (r: Option<ThumbnailSize>)
    ensures
        r == fallback(size),
{
    match size {
        ThumbnailSize::Fullsize => Some(ThumbnailSize::Preview),
        ThumbnailSize::Preview => None,
        ThumbnailSize::Thumbnail => None,
    }
}

/// The size to try after a load of `current` failed: the fallback where the image was not found,
/// none for any other error.
pub fn retry_bucket(current: ThumbnailSize, err: &str) -> (r: Option<ThumbnailSize>)
    ensures
        r == if text::occurs_in(err@, "404"@) {
            fallback(current)
        } else {
            None
        },
{
    if contains_text(err, "404") {
        fallback_bucket(current)
    } else {
        None
    }
}

/// The cached image to show: the wanted size, else its fallback.
pub fn cached_bucket(wanted: ThumbnailSize, has_wanted: bool, has_fallback: bool) -> (r: Option<
    ThumbnailSize,
>)
    ensures
        r == if has_wanted {
            Some(wanted)
        } else if has_fallback {
            fallback(wanted)
        } else {
            None
        },
{
    if has_wanted {
        Some(wanted)
    } else if has_fallback {
        fallback_bucket(wanted)
    } else {
        None
    }
}

/// The fallback of a fallback is none: after one retry a load ends.
pub proof fn fallback_chain_ends(size: ThumbnailSize)
    ensures
        fallback(size) matches Some(next) ==> fallback(next) is None && next != size,
{
}

/// The automatic quality asks for previews in rows of more than 600 pixels, for thumbnails in others,
/// and never for the full size; an explicit quality asks for its own size, whatever the row. A file
/// that is only on disk always has its thumbnail.
pub proof fn size_follows_quality_and_height(
    asset_id: &str,
    local_path: &str,
    h: i64,
    quality: GridQuality,
    row: ThumbnailSize,
    asset: ThumbnailSize,
)
    requires
        call_ensures(bucket_for_row_height, (h, quality), row),
        call_ensures(bucket_for_asset, (asset_id, local_path, h, quality), asset),
    ensures
        row == ThumbnailSize::Preview <==> quality == GridQuality::Preview || (quality
            == GridQuality::Auto && h > 600),
        row == ThumbnailSize::Fullsize <==> quality == GridQuality::Fullsize,
        asset == row || (asset == ThumbnailSize::Thumbnail && local_path@.len() > 0
            && LOCAL_ID_PREFIX@.is_prefix_of(asset_id@)),
        local_path@.len() > 0 && LOCAL_ID_PREFIX@.is_prefix_of(asset_id@) ==> asset
            == ThumbnailSize::Thumbnail,
{
}

/// A load is tried again only where the image was not found and a full size was asked for, then as a
/// preview; and the cache is asked for the same two sizes in the same order.
pub proof fn only_the_full_size_falls_back(
    size: ThumbnailSize,
    err: &str,
    retry: Option<ThumbnailSize>,
    fallback: Option<ThumbnailSize>,
    has_wanted: bool,
    has_fallback: bool,
    cached: Option<ThumbnailSize>,
)
    requires
        call_ensures(retry_bucket, (size, err), retry),
        call_ensures(fallback_bucket, (size,), fallback),
        call_ensures(cached_bucket, (size, has_wanted, has_fallback), cached),
    ensures
        retry is Some <==> text::occurs_in(err@, "404"@) && size == ThumbnailSize::Fullsize,
        retry is Some ==> retry == Some(ThumbnailSize::Preview),
        fallback is Some <==> size == ThumbnailSize::Fullsize,
        retry is Some ==> retry == fallback,
        has_wanted ==> cached == Some(size),
        !has_wanted && has_fallback ==> cached == fallback,
        !has_wanted && !has_fallback ==> cached is None,
{
}

} // verus!
