//! The metadata of local files: what is taken from a file's tags, and how it is cached.
use chrono::{DateTime, FixedOffset, NaiveDate};
use vstd::prelude::*;
use vstd::string::*;
use crate::decimals;
use crate::decimals::{quotient, quotient_text, Real};
use crate::path;
use crate::path::join_path;
use crate::text;
use crate::text::{chars_of, concat2, concat3, number, trim};

verus! {

/// The metadata that the details pane shows of a local file.
#[derive(Debug, PartialEq, Eq)]
pub struct LocalExif {
    pub make: Option<String>,
    pub model: Option<String>,
    pub lens_model: Option<String>,
    pub f_number: Option<Real>,
    pub focal_length: Option<Real>,
    pub iso: Option<u32>,
    pub exposure_time: Option<String>,
    /// An RFC 3339 time.
    pub date_time_original: Option<String>,
    pub latitude: Option<Real>,
    pub longitude: Option<Real>,
    pub image_width: Option<u32>,
    pub image_height: Option<u32>,
    pub description: Option<String>,
}

impl Clone for LocalExif {
    fn clone(&self) -> (r: Self)
        ensures
            r == *self,
    {
        LocalExif {
            make: self.make.clone(),
            model: self.model.clone(),
            lens_model: self.lens_model.clone(),
            f_number: self.f_number,
            focal_length: self.focal_length,
            iso: self.iso,
            exposure_time: self.exposure_time.clone(),
            date_time_original: self.date_time_original.clone(),
            latitude: self.latitude,
            longitude: self.longitude,
            image_width: self.image_width,
            image_height: self.image_height,
            description: self.description.clone(),
        }
    }
}

/// Metadata of which nothing is known.
pub open spec fn no_exif() -> LocalExif {
    LocalExif {
        make: None,
        model: None,
        lens_model: None,
        f_number: None,
        focal_length: None,
        iso: None,
        exposure_time: None,
        date_time_original: None,
        latitude: None,
        longitude: None,
        image_width: None,
        image_height: None,
        description: None,
    }
}

impl Default for LocalExif {
    fn default() -> (r: Self)
        ensures
            r == no_exif(),
    {
        LocalExif {
            make: None,
            model: None,
            lens_model: None,
            f_number: None,
            focal_length: None,
            iso: None,
            exposure_time: None,
            date_time_original: None,
            latitude: None,
            longitude: None,
            image_width: None,
            image_height: None,
            description: None,
        }
    }
}

impl LocalExif {
    /// Whether nothing is known.
    pub fn is_empty(&self) -> (r: bool)
        ensures
            r == (*self == no_exif()),
    {
        self.make.is_none() && self.model.is_none() && self.lens_model.is_none()
            && self.f_number.is_none() && self.focal_length.is_none() && self.iso.is_none()
            && self.exposure_time.is_none() && self.date_time_original.is_none()
            && self.latitude.is_none() && self.longitude.is_none() && self.image_width.is_none()
            && self.image_height.is_none() && self.description.is_none()
    }
}

/// The value of a tag that holds an integer.
#[derive(Clone, Copy, Debug, PartialEq, Eq, Structural)]
pub enum IntegerTag {
    Absent,
    U32(u32),
    U16(u16),
    U8(u8),
    /// A value of another type.
    Other,
}

/// The value of a tag that holds a number.
#[derive(Clone, Copy, Debug, PartialEq, Eq, Structural)]
pub enum NumberTag {
    Absent,
    Fraction { num: u32, den: u32 },
    Real(Real),
}

/// A date and time without a time zone.
#[derive(Clone, Copy, Debug, PartialEq, Eq, Structural)]
pub struct NaiveTime {
    pub year: i32,
    pub month: u32,
    pub day: u32,
    pub hour: u32,
    pub minute: u32,
    pub second: u32,
    pub nanos: u32,
}

/// The value of a tag that holds a date and time.
#[derive(Clone, Copy, Debug, PartialEq, Eq, Structural)]
pub enum TimeTag {
    Absent,
    /// With a time zone: seconds and nanoseconds since the start of 1970, and the offset from UTC
    /// in seconds.
    Aware { secs: i64, nanos: u32, offset: i32 },
    Naive(NaiveTime),
}

/// The tags of a file, as they were read.
#[derive(Debug, PartialEq, Eq)]
pub struct ExifTags {
    pub make: Option<String>,
    pub model: Option<String>,
    pub lens_model: Option<String>,
    pub lens_make: Option<String>,
    pub f_number: NumberTag,
    pub focal_length: NumberTag,
    pub iso: IntegerTag,
    pub exposure_time: NumberTag,
    pub date_time_original: TimeTag,
    pub offset_time_original: Option<String>,
    pub latitude: Option<Real>,
    pub longitude: Option<Real>,
    pub image_width: IntegerTag,
    pub exif_image_width: IntegerTag,
    pub image_height: IntegerTag,
    pub exif_image_height: IntegerTag,
    pub image_description: Option<String>,
}

/// A text without white space around it; none where nothing is left.
pub open spec fn clean(value: Option<String>) -> Option<Seq<char>> {
    match value {
        Some(s) => if text::trimmed(s@).len() == 0 {
            None
        } else {
            Some(text::trimmed(s@))
        },
        None => None,
    }
}

/// A text tag without white space around it; none where nothing is left.
pub fn text_value(value: &Option<String>) -> (r: Option<String>)
    ensures
        path::opt_view(r) == clean(*value),
{
    match value {
        Some(s) => {
            let t: String = trim(s.as_str());
            if t.as_str().is_empty() {
                None
            } else {
                Some(t)
            }
        },
        None => None,
    }
}

/// The number in an integer tag.
pub open spec fn integer(tag: IntegerTag) -> Option<u32> {
    match tag {
        IntegerTag::U32(v) => Some(v),
        IntegerTag::U16(v) => Some(v as u32),
        IntegerTag::U8(v) => Some(v as u32),
        IntegerTag::Absent => None,
        IntegerTag::Other => None,
    }
}

/// The number in an integer tag.
pub fn integer_u32(tag: IntegerTag) -> (r: Option<u32>)
    ensures
        r == integer(tag),
{
    match tag {
        IntegerTag::U32(v) => Some(v),
        IntegerTag::U16(v) => Some(v as u32),
        IntegerTag::U8(v) => Some(v as u32),
        IntegerTag::Absent => None,
        IntegerTag::Other => None,
    }
}

fn integer_or(first: IntegerTag, second: IntegerTag) -> (r: Option<u32>)
    ensures
        r == match integer(first) {
            Some(v) => Some(v),
            None => integer(second),
        },
{
    match integer_u32(first) {
        Some(v) => Some(v),
        None => integer_u32(second),
    }
}

/// The value of `r` is the number in a tag: none for a fraction with a zero.
pub open spec fn is_number_of(tag: NumberTag, r: Option<Real>) -> bool {
    match tag {
        NumberTag::Absent => r is None,
        NumberTag::Fraction { num, den } => if num == 0 || den == 0 {
            r is None
        } else {
            r is Some && r->0.bits == decimals::quotient_bits(num as int, den as int)
        },
        NumberTag::Real(v) => r == Some(v),
    }
}

/// The number in a tag, a fraction being divided; none for a fraction with a zero.
pub fn rational_f64(tag: NumberTag) -> (r: Option<Real>)
    ensures
        is_number_of(tag, r),
{
    match tag {
        NumberTag::Absent => None,
        NumberTag::Fraction { num, den } => {
            if den == 0 || num == 0 {
                None
            } else {
                Some(quotient(num, den))
            }
        },
        NumberTag::Real(v) => Some(v),
    }
}

/// The text of an exposure time: a fraction, or seconds with one decimal where it is over a second
/// and not one over something; none for a fraction with a zero.
pub open spec fn exposure(tag: NumberTag) -> Option<Seq<char>> {
    match tag {
        NumberTag::Fraction { num, den } => if num == 0 || den == 0 {
            None
        } else if num == 1 {
            Some("1/"@ + text::decimal(den as nat))
        } else if num > den {
            Some(
                decimals::tenths_text(decimals::quotient_tenths(num as int, den as int) as nat)
                    + " s"@,
            )
        } else {
            Some(text::decimal(num as nat) + "/"@ + text::decimal(den as nat))
        },
        NumberTag::Absent => None,
        NumberTag::Real(v) => None,
    }
}

/// The text of an exposure time.
pub fn exposure_time(tag: NumberTag) -> (r: Option<String>)
    ensures
        path::opt_view(r) == exposure(tag),
{
    match tag {
        NumberTag::Fraction { num, den } => {
            if den == 0 || num == 0 {
                None
            } else if num == 1 {
                Some(concat2("1/", number(den as u64).as_str()))
            } else if num > den {
                Some(concat2(quotient_text(num, den).as_str(), " s"))
            } else {
                Some(concat3(number(num as u64).as_str(), "/", number(den as u64).as_str()))
            }
        },
        NumberTag::Absent => None,
        NumberTag::Real(_) => None,
    }
}

/// The number that a decimal digit stands for.
pub open spec fn digit_value(c: char) -> Option<nat> {
    if '0' <= c && c <= '9' {
        Some((c as u32 - '0' as u32) as nat)
    } else {
        None
    }
}

/// The number that two digits stand for.
pub open spec fn two_digits(a: char, b: char) -> Option<nat> {
    match (digit_value(a), digit_value(b)) {
        (Some(x), Some(y)) => Some(10 * x + y),
        _ => None,
    }
}

fn digit_number(c: char) -> (r: Option<u8>)
    ensures
        match r {
            Some(v) => digit_value(c) == Some(v as nat) && v < 10,
            None => digit_value(c) is None,
        },
{
    if '0' <= c && c <= '9' {
        Some((c as u32 - 48) as u8)
    } else {
        None
    }
}

fn two_digit_number(a: char, b: char) -> (r: Option<u8>)
    ensures
        match r {
            Some(v) => two_digits(a, b) == Some(v as nat),
            None => two_digits(a, b) is None,
        },
{
    match (digit_number(a), digit_number(b)) {
        (Some(x), Some(y)) => Some(10 * x + y),
        _ => None,
    }
}

/// The text is an offset from UTC: a sign, hours up to fourteen, a colon, minutes.
pub open spec fn is_offset(s: Seq<char>) -> bool {
    &&& s.len() == 6
    &&& s[0] == '+' || s[0] == '-'
    &&& s[3] == ':'
    &&& two_digits(s[1], s[2]) matches Some(h) && h <= 14
    &&& two_digits(s[4], s[5]) matches Some(m) && m <= 59
}

/// An offset from UTC, without white space around it; none where the text is not one.
pub fn parse_offset(s: &str) -> (r: Option<String>)
    ensures
        path::opt_view(r) == if is_offset(text::trimmed(s@)) {
            Some(text::trimmed(s@))
        } else {
            None
        },
{
    let t: String = trim(s);
    let chars: Vec<char> = chars_of(t.as_str());
    if chars.len() != 6 {
        return None;
    }
    if chars[0] != '+' && chars[0] != '-' {
        return None;
    }
    if chars[3] != ':' {
        return None;
    }
    match two_digit_number(chars[1], chars[2]) {
        Some(h) => {
            if h > 14 {
                return None;
            }
        },
        None => {
            return None;
        },
    }
    match two_digit_number(chars[4], chars[5]) {
        Some(m) => {
            if m > 59 {
                return None;
            }
        },
        None => {
            return None;
        },
    }
    Some(t)
}

/// The RFC 3339 text of a point in time at an offset from UTC; none where one of them is out of
/// range.
pub uninterp spec fn offset_time_text(secs: i64, nanos: u32, offset: i32) -> Option<Seq<char>>;

/// `FixedOffset::east_opt` and `DateTime::from_timestamp` of the chrono crate, then `with_timezone`
/// and `to_rfc3339`: the text depends on the three numbers alone, and there is none where the
/// offset or the time is out of range.
#[verifier::external_body]
fn format_offset_time(secs: i64, nanos: u32, offset: i32) -> (r: Option<String>)
    ensures
        path::opt_view(r) == offset_time_text(secs, nanos, offset),
{
    let zone = FixedOffset::east_opt(offset)?;
    let time = DateTime::from_timestamp(secs, nanos)?;
    Some(time.with_timezone(&zone).to_rfc3339())
}

/// The text of a date and time without a time zone, as YYYY-MM-DDTHH:MM:SS; none where it does not
/// exist.
pub uninterp spec fn naive_time_text(time: NaiveTime) -> Option<Seq<char>>;

/// `NaiveDate::from_ymd_opt` and `and_hms_nano_opt` of the chrono crate, then `format` with
/// "%Y-%m-%dT%H:%M:%S": the text depends on the fields alone, and there is none where no such date
/// and time exists.
#[verifier::external_body]
fn format_naive_time(time: NaiveTime) -> (r: Option<String>)
    ensures
        path::opt_view(r) == naive_time_text(time),
{
    let date = NaiveDate::from_ymd_opt(time.year, time.month, time.day)?;
    let moment = date.and_hms_nano_opt(time.hour, time.minute, time.second, time.nanos)?;
    Some(moment.format("%Y-%m-%dT%H:%M:%S").to_string())
}

/// The offset that an offset tag gives; "Z" where it gives none.
pub open spec fn offset_or_zulu(offset: Option<String>) -> Seq<char> {
    match offset {
        Some(s) => if is_offset(text::trimmed(s@)) {
            text::trimmed(s@)
        } else {
            "Z"@
        },
        None => "Z"@,
    }
}

/// The text of a time tag: with its own offset, else with the one of the offset tag, else in UTC.
pub open spec fn taken(tag: TimeTag, offset: Option<String>) -> Option<Seq<char>> {
    match tag {
        TimeTag::Absent => None,
        TimeTag::Aware { secs, nanos, offset } => offset_time_text(secs, nanos, offset),
        TimeTag::Naive(time) => match naive_time_text(time) {
            Some(t) => Some(t + offset_or_zulu(offset)),
            None => None,
        },
    }
}

/// A time without an offset, completed by the offset tag: in UTC where that holds no offset.
pub fn with_offset(naive: &str, offset: &Option<String>) -> (r: String)
    ensures
        r@ == naive@ + offset_or_zulu(*offset),
{
    match offset {
        Some(s) => {
            match parse_offset(s.as_str()) {
                Some(o) => concat2(naive, o.as_str()),
                None => concat2(naive, "Z"),
            }
        },
        None => concat2(naive, "Z"),
    }
}

/// The RFC 3339 text of a time tag.
pub fn datetime_rfc3339(tag: TimeTag, offset: &Option<String>) -> (r: Option<String>)
    ensures
        path::opt_view(r) == taken(tag, *offset),
{
    match tag {
        TimeTag::Absent => None,
        TimeTag::Aware { secs, nanos, offset } => format_offset_time(secs, nanos, offset),
        TimeTag::Naive(time) => {
            match format_naive_time(time) {
                Some(t) => Some(with_offset(t.as_str(), offset)),
                None => None,
            }
        },
    }
}

/// What the details pane shows of a file's tags.
pub open spec fn shows(exif: LocalExif, tags: ExifTags) -> bool {
    &&& path::opt_view(exif.make) == clean(tags.make)
    &&& path::opt_view(exif.model) == clean(tags.model)
    &&& path::opt_view(exif.lens_model) == match clean(tags.lens_model) {
        Some(s) => Some(s),
        None => clean(tags.lens_make),
    }
    &&& is_number_of(tags.f_number, exif.f_number)
    &&& is_number_of(tags.focal_length, exif.focal_length)
    &&& exif.iso == integer(tags.iso)
    &&& path::opt_view(exif.exposure_time) == exposure(tags.exposure_time)
    &&& path::opt_view(exif.date_time_original) == taken(
        tags.date_time_original,
        tags.offset_time_original,
    )
    &&& exif.latitude == tags.latitude
    &&& exif.longitude == tags.longitude
    &&& exif.image_width == match integer(tags.image_width) {
        Some(v) => Some(v),
        None => integer(tags.exif_image_width),
    }
    &&& exif.image_height == match integer(tags.image_height) {
        Some(v) => Some(v),
        None => integer(tags.exif_image_height),
    }
    &&& path::opt_view(exif.description) == clean(tags.image_description)
}

/// The metadata in a file's tags; none where they hold nothing of use.
pub fn exif_from_tags(tags: &ExifTags) -> (r: Option<LocalExif>)
    ensures
        r matches Some(exif) ==> shows(exif, *tags) && exif != no_exif(),
        r is None ==> shows(no_exif(), *tags),
{
    let lens_model: Option<String> = match text_value(&tags.lens_model) {
        Some(s) => Some(s),
        None => text_value(&tags.lens_make),
    };
    let local: LocalExif = LocalExif {
        make: text_value(&tags.make),
        model: text_value(&tags.model),
        lens_model,
        f_number: rational_f64(tags.f_number),
        focal_length: rational_f64(tags.focal_length),
        iso: integer_u32(tags.iso),
        exposure_time: exposure_time(tags.exposure_time),
        date_time_original: datetime_rfc3339(tags.date_time_original, &tags.offset_time_original),
        latitude: tags.latitude,
        longitude: tags.longitude,
        image_width: integer_or(tags.image_width, tags.exif_image_width),
        image_height: integer_or(tags.image_height, tags.exif_image_height),
        description: text_value(&tags.image_description),
    };
    if local.is_empty() {
        None
    } else {
        Some(local)
    }
}

/// The BLAKE3 digest of some bytes, in hexadecimal.
pub uninterp spec fn blake3_hex(bytes: Seq<u8>) -> Seq<char>;

/// `hash` of the blake3 crate, then `to_hex`: the digest depends on the bytes alone.
#[verifier::external_body]
fn digest_of(bytes: &Vec<u8>) -> (r: String)
    ensures
        r@ == blake3_hex(bytes@),
{
    blake3::hash(bytes).to_hex().to_string()
}

/// What identifies the state of a file in the cache.
#[derive(Debug, PartialEq, Eq)]
pub struct CacheKey {
    pub digest: String,
    pub mtime_nanos: u128,
    pub size: u64,
}

/// The key of a file: the digest of the bytes of its canonical path, its size, and its
/// modification time in nanoseconds since the start of 1970, zero where it is before that.
pub fn cache_key(canonical_path: &Vec<u8>, size: u64, mtime_nanos: Option<u128>) -> (r: CacheKey)
    ensures
        r.digest@ == blake3_hex(canonical_path@),
        r.size == size,
        r.mtime_nanos == match mtime_nanos {
            Some(n) => n,
            None => 0,
        },
{
    CacheKey {
        digest: digest_of(canonical_path),
        mtime_nanos: match mtime_nanos {
            Some(n) => n,
            None => 0,
        },
        size,
    }
}

/// Where the metadata of a file is cached.
pub open spec fn cache_file(root: Seq<char>, digest: Seq<char>) -> Seq<char> {
    path::joined_path(path::joined_path(root, "exif"@), digest + ".json"@)
}

/// Where the metadata of a file is cached.
pub fn cache_path(root: &str, key: &CacheKey) -> (r: String)
    ensures
        r@ == cache_file(root@, key.digest@),
{
    join_path(join_path(root, "exif").as_str(), concat2(key.digest.as_str(), ".json").as_str())
}

/// What is stored of a file in the cache: its state and its metadata, also where it has none.
#[derive(Debug, PartialEq, Eq)]
pub struct CacheEntry {
    pub mtime_nanos: u128,
    pub size: u64,
    pub exif: Option<LocalExif>,
}

/// The entry is of the state that the key names.
pub open spec fn is_fresh(entry: CacheEntry, key: CacheKey) -> bool {
    entry.mtime_nanos == key.mtime_nanos && entry.size == key.size
}

/// The entry to store for a file.
pub open spec fn entry_of(key: CacheKey, exif: Option<LocalExif>) -> CacheEntry {
    CacheEntry { mtime_nanos: key.mtime_nanos, size: key.size, exif }
}

/// The entry to store for a file.
pub fn cache_entry(key: &CacheKey, exif: Option<LocalExif>) -> (r: CacheEntry)
    ensures
        r == entry_of(*key, exif),
{
    CacheEntry { mtime_nanos: key.mtime_nanos, size: key.size, exif }
}

/// What the cache answers.
#[derive(Debug, PartialEq, Eq)]
pub enum CacheAnswer {
    /// The metadata, or that the file has none.
    Hit(Option<LocalExif>),
    /// The file has to be read.
    Miss,
}

/// What the cache answers for a file, given the entry that was read, if one could be.
pub open spec fn answer(entry: Option<CacheEntry>, key: CacheKey) -> CacheAnswer {
    match entry {
        Some(e) => if is_fresh(e, key) {
            CacheAnswer::Hit(e.exif)
        } else {
            CacheAnswer::Miss
        },
        None => CacheAnswer::Miss,
    }
}

/// What the cache answers for a file, given the entry that was read, if one could be.
pub fn cached_exif(entry: Option<CacheEntry>, key: &CacheKey) -> (r: CacheAnswer)
    ensures
        r == answer(entry, *key),
{
    match entry {
        Some(e) => {
            if e.mtime_nanos == key.mtime_nanos && e.size == key.size {
                CacheAnswer::Hit(e.exif)
            } else {
                CacheAnswer::Miss
            }
        },
        None => CacheAnswer::Miss,
    }
}

/// What was stored for a file is answered as long as the file is unchanged, also that it has no
/// metadata.
pub proof fn cache_keeps_what_was_stored(key: CacheKey, exif: Option<LocalExif>)
    ensures
        answer(Some(entry_of(key, exif)), key) == CacheAnswer::Hit(exif),
{
}

/// Once the modification time or the size of a file has changed, the cache does not answer.
pub proof fn changed_file_misses_cache(key: CacheKey, now: CacheKey, exif: Option<LocalExif>)
    requires
        key.mtime_nanos != now.mtime_nanos || key.size != now.size,
    ensures
        answer(Some(entry_of(key, exif)), now) == CacheAnswer::Miss,
{
}

/// An offset tag gives an offset exactly where it is, without white space around it, a sign, two
/// digits of hours up to fourteen, a colon, and two digits of minutes up to fifty-nine; then it is
/// given as it stands.
pub proof fn offsets_have_one_form(s: &str, r: Option<String>)
    requires
        call_ensures(parse_offset, (s,), r),
    ensures
        ({
            let t = text::trimmed(s@);
            let digit = |i: int| '0' <= t[i] && t[i] <= '9';
            &&& r is Some <==> t.len() == 6 && (t[0] == '+' || t[0] == '-') && digit(1) && digit(2)
                && t[3] == ':' && digit(4) && digit(5) && (t[1] == '0' || (t[1] == '1' && t[2]
                <= '4')) && t[4] <= '5'
            &&& r is Some ==> r->0@ == t
        }),
{
}

/// What was stored for a file is answered as long as its time and size are the same, and no longer;
/// the file of the cache goes by the digest of the path alone.
pub proof fn cache_answers_for_unchanged_files(
    path: &Vec<u8>,
    size: u64,
    mtime: Option<u128>,
    new_size: u64,
    new_mtime: Option<u128>,
    root: &str,
    stored: CacheKey,
    now: CacheKey,
    exif: Option<LocalExif>,
    entry: CacheEntry,
    r: CacheAnswer,
    at: String,
    then: String,
)
    requires
        call_ensures(cache_key, (path, size, mtime), stored),
        call_ensures(cache_entry, (&stored, exif), entry),
        call_ensures(cache_key, (path, new_size, new_mtime), now),
        call_ensures(cached_exif, (Some(entry), &now), r),
        call_ensures(cache_path, (root, &stored), at),
        call_ensures(cache_path, (root, &now), then),
    ensures
        size == new_size && mtime == new_mtime ==> r == CacheAnswer::Hit(exif),
        size != new_size || (mtime is Some && new_mtime is Some && mtime != new_mtime) ==> r
            == CacheAnswer::Miss,
        at@ == then@,
{
}

/// The metadata of a file is taken from its own tags: the texts without white space around them, the
/// maker of the lens only where its model is not named, the other pixel size only where the first is
/// not there. A file of which nothing is known has none.
pub proof fn metadata_comes_from_its_tags(tags: &ExifTags, r: Option<LocalExif>)
    requires
        call_ensures(exif_from_tags, (tags,), r),
    ensures
        r is None ==> tags.latitude is None && tags.longitude is None && integer(tags.iso) is None
            && !names_something(tags.make) && !names_something(tags.model) && !names_something(
            tags.lens_model,
        ) && !names_something(tags.lens_make) && !names_something(tags.image_description),
        r matches Some(exif) ==> {
            &&& is_name_of(exif.make, tags.make)
            &&& is_name_of(exif.model, tags.model)
            &&& is_name_of(exif.description, tags.image_description)
            &&& names_something(tags.lens_model) ==> is_name_of(exif.lens_model, tags.lens_model)
            &&& !names_something(tags.lens_model) ==> is_name_of(exif.lens_model, tags.lens_make)
            &&& exif.latitude == tags.latitude && exif.longitude == tags.longitude
            &&& exif.iso == integer(tags.iso)
            &&& integer(tags.image_width) is Some ==> exif.image_width == integer(tags.image_width)
            &&& integer(tags.image_width) is None ==> exif.image_width == integer(
                tags.exif_image_width,
            )
            &&& integer(tags.image_height) is Some ==> exif.image_height == integer(
                tags.image_height,
            )
            &&& integer(tags.image_height) is None ==> exif.image_height == integer(
                tags.exif_image_height,
            )
            &&& tags.f_number is Absent ==> exif.f_number is None
            &&& tags.focal_length is Absent ==> exif.focal_length is None
        },
{
}

/// The tag holds more than white space.
pub open spec fn names_something(tag: Option<String>) -> bool {
    tag is Some && text::trimmed(tag->0@).len() > 0
}

/// The field holds the text of the tag without white space around it, where it has any.
pub open spec fn is_name_of(field: Option<String>, tag: Option<String>) -> bool {
    &&& field is Some <==> names_something(tag)
    &&& field is Some ==> field->0@ == text::trimmed(tag->0@)
}

} // verus!
