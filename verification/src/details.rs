//! The details of an asset: the rows of the details sheet, for assets of the server and for local
//! files.
use vstd::prelude::*;
use vstd::string::*;
use crate::clock;
use crate::clock::format_datetime_display;
use crate::decimals;
use crate::decimals::{format_bytes, Real};
use crate::local_exif;
use crate::local_exif::LocalExif;
use crate::path;
use crate::seqs;
use crate::text;
use crate::text::{begins_with, concat2, concat3, is_blank, join, number, owned, trim};

verus! {

/// The metadata of an asset, as the server gives it.
#[derive(Debug, PartialEq, Eq)]
pub struct ExifInfo {
    pub make: Option<String>,
    pub model: Option<String>,
    pub lens_model: Option<String>,
    pub f_number: Option<Real>,
    pub focal_length: Option<Real>,
    pub iso: Option<u32>,
    pub exposure_time: Option<String>,
    pub file_size_in_byte: Option<u64>,
    pub date_time_original: Option<String>,
    pub city: Option<String>,
    pub state: Option<String>,
    pub country: Option<String>,
    pub latitude: Option<Real>,
    pub longitude: Option<Real>,
    pub description: Option<String>,
    pub exif_image_width: Option<u32>,
    pub exif_image_height: Option<u32>,
}

/// The numbers of the metadata that are not whole, as text: the aperture with one decimal, the
/// focal length with none, the coordinates with five.
#[derive(Debug, PartialEq, Eq)]
pub struct NumberTexts {
    pub f_number: String,
    pub focal_length: String,
    pub latitude: String,
    pub longitude: String,
}

/// The metadata of a local file in the form of the server's; it has no place names.
pub open spec fn of_local(local: LocalExif, file_size: Option<u64>) -> ExifInfo {
    ExifInfo {
        make: local.make,
        model: local.model,
        lens_model: local.lens_model,
        f_number: local.f_number,
        focal_length: local.focal_length,
        iso: local.iso,
        exposure_time: local.exposure_time,
        file_size_in_byte: file_size,
        date_time_original: local.date_time_original,
        city: None,
        state: None,
        country: None,
        latitude: local.latitude,
        longitude: local.longitude,
        description: local.description,
        exif_image_width: local.image_width,
        exif_image_height: local.image_height,
    }
}

/// The metadata of a local file in the form of the server's.
pub fn exif_from_local(local: &LocalExif, file_size: Option<u64>) -> (r: ExifInfo)
    ensures
        r == of_local(*local, file_size),
{
    ExifInfo {
        make: local.make.clone(),
        model: local.model.clone(),
        lens_model: local.lens_model.clone(),
        f_number: local.f_number,
        focal_length: local.focal_length,
        iso: local.iso,
        exposure_time: local.exposure_time.clone(),
        file_size_in_byte: file_size,
        date_time_original: local.date_time_original.clone(),
        city: None,
        state: None,
        country: None,
        latitude: local.latitude,
        longitude: local.longitude,
        description: local.description.clone(),
        exif_image_width: local.image_width,
        exif_image_height: local.image_height,
    }
}

/// What can be learnt of a local file.
#[derive(Debug, PartialEq, Eq)]
pub struct LocalProbe {
    pub exif: Option<LocalExif>,
    pub file_size: Option<u64>,
    /// The modification time.
    pub mtime_iso: Option<String>,
    /// Width and height.
    pub dims: Option<(u32, u32)>,
}

/// The metadata to show, and what its date is called.
#[derive(Debug, PartialEq, Eq)]
pub struct ProbeDetails {
    pub exif: ExifInfo,
    pub taken_label: &'static str,
}

/// The metadata of a local file, completed by its size in pixels and its modification time.
pub open spec fn completed(probe: LocalProbe) -> LocalExif {
    let known = match probe.exif {
        Some(e) => e,
        None => local_exif::no_exif(),
    };
    LocalExif {
        image_width: match known.image_width {
            Some(w) => Some(w),
            None => match probe.dims {
                Some(d) => Some(d.0),
                None => None,
            },
        },
        image_height: match known.image_height {
            Some(h) => Some(h),
            None => match probe.dims {
                Some(d) => Some(d.1),
                None => None,
            },
        },
        date_time_original: match known.date_time_original {
            Some(t) => Some(t),
            None => probe.mtime_iso,
        },
        ..known
    }
}

/// The file has a date of its own.
pub open spec fn has_taken_date(probe: LocalProbe) -> bool {
    probe.exif matches Some(e) && e.date_time_original is Some
}

/// What the details sheet shows of a local file; nothing where nothing could be learnt. A date out
/// of the metadata is called "Taken", the modification time in its place "Modified".
pub fn probe_details(probe: &LocalProbe) -> (r: Option<ProbeDetails>)
    ensures
        r is None <==> probe.exif is None && probe.file_size is None && probe.dims is None
            && probe.mtime_iso is None,
        r matches Some(d) ==> d.exif == of_local(completed(*probe), probe.file_size)
            && d.taken_label@ == if has_taken_date(*probe) {
            "Taken"@
        } else {
            "Modified"@
        },
{
    if probe.exif.is_none() && probe.file_size.is_none() && probe.dims.is_none()
        && probe.mtime_iso.is_none() {
        return None;
    }
    let mut info: LocalExif = match &probe.exif {
        Some(e) => e.clone(),
        None => LocalExif::default(),
    };
    if info.image_width.is_none() {
        info.image_width =
        match probe.dims {
            Some(d) => Some(d.0),
            None => None,
        };
    }
    if info.image_height.is_none() {
        info.image_height =
        match probe.dims {
            Some(d) => Some(d.1),
            None => None,
        };
    }
    let fallback: bool = info.date_time_original.is_none();
    if fallback {
        info.date_time_original = probe.mtime_iso.clone();
    }
    Some(
        ProbeDetails {
            exif: exif_from_local(&info, probe.file_size),
            taken_label: if fallback {
                "Modified"
            } else {
                "Taken"
            },
        },
    )
}

/// The name of a camera: the model, with the make in front unless the model begins with it.
pub open spec fn camera(make: Option<String>, model: Option<String>) -> Seq<char> {
    match (make, model) {
        (Some(m), Some(n)) => if text::trimmed(m@).is_prefix_of(text::trimmed(n@)) {
            text::trimmed(n@)
        } else {
            text::trimmed(m@) + " "@ + text::trimmed(n@)
        },
        (Some(m), None) => text::trimmed(m@),
        (None, Some(n)) => text::trimmed(n@),
        (None, None) => Seq::empty(),
    }
}

/// The name of the camera; none where it is empty.
pub fn format_camera(exif: &ExifInfo) -> (r: Option<String>)
    ensures
        path::opt_view(r) == if camera(exif.make, exif.model).len() == 0 {
            None
        } else {
            Some(camera(exif.make, exif.model))
        },
{
    let name: String = match (&exif.make, &exif.model) {
        (Some(m), Some(n)) => {
            let make: String = trim(m.as_str());
            let model: String = trim(n.as_str());
            if begins_with(model.as_str(), make.as_str()) {
                model
            } else {
                concat3(make.as_str(), " ", model.as_str())
            }
        },
        (Some(m), None) => trim(m.as_str()),
        (None, Some(n)) => trim(n.as_str()),
        (None, None) => String::new(),
    };
    if name.as_str().is_empty() {
        None
    } else {
        Some(name)
    }
}

/// One text, or none of them.
pub open spec fn part(wanted: bool, s: Seq<char>) -> Seq<Seq<char>> {
    if wanted {
        seq![s]
    } else {
        Seq::empty()
    }
}

/// The optional text holds more than white space.
pub open spec fn is_filled(value: Option<String>) -> bool {
    value matches Some(s) && text::trimmed(s@).len() > 0
}

/// The parts of the exposure line: aperture, exposure time, sensitivity, focal length.
pub open spec fn exposure_parts(exif: ExifInfo, texts: NumberTexts) -> Seq<Seq<char>> {
    part(exif.f_number is Some, "ƒ/"@ + texts.f_number@) + part(
        is_filled(exif.exposure_time),
        text::trimmed(exif.exposure_time->0@),
    ) + part(exif.iso is Some, "ISO "@ + text::decimal(exif.iso->0 as nat)) + part(
        exif.focal_length is Some,
        texts.focal_length@ + "mm"@,
    )
}

fn push_part(parts: &mut Vec<String>, s: String)
    ensures
        text::views(final(parts)@) == text::views(old(parts)@) + part(true, s@),
{
    let ghost before = parts@;
    parts.push(s);
    assert(text::views(parts@) =~= text::views(before) + part(true, s@));
}

/// The exposure line; none where nothing of it is known.
pub fn format_exposure(exif: &ExifInfo, texts: &NumberTexts) -> (r: Option<String>)
    ensures
        path::opt_view(r) == if exposure_parts(*exif, *texts).len() == 0 {
            None
        } else {
            Some(text::joined(exposure_parts(*exif, *texts), " · "@))
        },
{
    let mut parts: Vec<String> = Vec::new();
    let ghost mut spec_parts: Seq<Seq<char>> = Seq::empty();
    assert(text::views(parts@) =~= spec_parts);
    if exif.f_number.is_some() {
        push_part(&mut parts, concat2("ƒ/", texts.f_number.as_str()));
    }
    proof {
        spec_parts = spec_parts + part(exif.f_number is Some, "ƒ/"@ + texts.f_number@);
        assert(text::views(parts@) =~= spec_parts);
    }
    if let Some(et) = &exif.exposure_time {
        if !is_blank(et.as_str()) {
            push_part(&mut parts, trim(et.as_str()));
        }
    }
    proof {
        spec_parts = spec_parts + part(
            is_filled(exif.exposure_time),
            text::trimmed(exif.exposure_time->0@),
        );
        assert(text::views(parts@) =~= spec_parts);
    }
    if let Some(iso) = exif.iso {
        push_part(&mut parts, concat2("ISO ", number(iso as u64).as_str()));
    }
    proof {
        spec_parts = spec_parts + part(
            exif.iso is Some,
            "ISO "@ + text::decimal(exif.iso->0 as nat),
        );
        assert(text::views(parts@) =~= spec_parts);
    }
    if exif.focal_length.is_some() {
        push_part(&mut parts, concat2(texts.focal_length.as_str(), "mm"));
    }
    proof {
        spec_parts = spec_parts + part(
            exif.focal_length is Some,
            texts.focal_length@ + "mm"@,
        );
        assert(text::views(parts@) =~= spec_parts);
        assert(spec_parts =~= exposure_parts(*exif, *texts));
    }
    if parts.len() == 0 {
        None
    } else {
        Some(join(&parts, " · "))
    }
}

/// The parts of the place: city, state and country, where they are known.
pub open spec fn location_parts(exif: ExifInfo) -> Seq<Seq<char>> {
    part(is_filled(exif.city), text::trimmed(exif.city->0@)) + part(
        is_filled(exif.state),
        text::trimmed(exif.state->0@),
    ) + part(is_filled(exif.country), text::trimmed(exif.country->0@))
}

fn push_filled(parts: &mut Vec<String>, value: &Option<String>)
    ensures
        text::views(final(parts)@) == text::views(old(parts)@) + part(
            is_filled(*value),
            text::trimmed(value->0@),
        ),
{
    match value {
        Some(s) => {
            let t: String = trim(s.as_str());
            if !t.as_str().is_empty() {
                push_part(parts, t);
            } else {
                assert(text::views(parts@) + part(false, t@) =~= text::views(parts@));
            }
        },
        None => {
            assert(text::views(parts@) + Seq::<Seq<char>>::empty() =~= text::views(parts@));
        },
    }
}

/// The place; none where nothing of it is known.
pub fn format_location(exif: &ExifInfo) -> (r: Option<String>)
    ensures
        path::opt_view(r) == if location_parts(*exif).len() == 0 {
            None
        } else {
            Some(text::joined(location_parts(*exif), ", "@))
        },
{
    let mut parts: Vec<String> = Vec::new();
    push_filled(&mut parts, &exif.city);
    push_filled(&mut parts, &exif.state);
    push_filled(&mut parts, &exif.country);
    assert(text::views(parts@) =~= location_parts(*exif));
    if parts.len() == 0 {
        None
    } else {
        Some(join(&parts, ", "))
    }
}

/// A row of the details sheet.
#[derive(Debug, PartialEq, Eq)]
pub struct DetailRow {
    pub icon: &'static str,
    pub accent: &'static str,
    pub title: String,
    pub value: String,
}

/// A titled group of rows.
#[derive(Debug, PartialEq, Eq)]
pub struct DetailGroup {
    pub title: &'static str,
    pub rows: Vec<DetailRow>,
}

/// What a row shows.
pub struct RowText {
    pub icon: Seq<char>,
    pub accent: Seq<char>,
    pub title: Seq<char>,
    pub value: Seq<char>,
}

/// What a group shows.
pub struct GroupText {
    pub title: Seq<char>,
    pub rows: Seq<RowText>,
}

impl View for DetailRow {
    type V = RowText;

    open spec fn view(&self) -> RowText {
        RowText {
            icon: self.icon@,
            accent: self.accent@,
            title: self.title@,
            value: self.value@,
        }
    }
}

/// What some rows show.
pub open spec fn row_texts(rows: Seq<DetailRow>) -> Seq<RowText> {
    rows.map_values(|r: DetailRow| r@)
}

/// What some groups show.
pub open spec fn group_texts(groups: Seq<DetailGroup>) -> Seq<GroupText> {
    groups.map_values(|g: DetailGroup| GroupText { title: g.title@, rows: row_texts(g.rows@) })
}

/// One row, or none.
pub open spec fn row(
    wanted: bool,
    icon: Seq<char>,
    accent: Seq<char>,
    title: Seq<char>,
    value: Seq<char>,
) -> Seq<RowText> {
    if wanted {
        seq![RowText { icon, accent, title, value }]
    } else {
        Seq::empty()
    }
}

fn push_row(
    rows: &mut Vec<DetailRow>,
    icon: &'static str,
    accent: &'static str,
    title: &str,
    value: String,
)
    ensures
        row_texts(final(rows)@) == row_texts(old(rows)@) + row(
            true,
            icon@,
            accent@,
            title@,
            value@,
        ),
{
    let ghost before = rows@;
    rows.push(DetailRow { icon, accent, title: owned(title), value });
    assert(row_texts(rows@) =~= row_texts(before) + row(true, icon@, accent@, title@, value@));
}

/// The rows on the camera: body, lens, exposure.
pub open spec fn camera_rows(exif: ExifInfo, texts: NumberTexts) -> Seq<RowText> {
    row(
        camera(exif.make, exif.model).len() > 0,
        "camera-photo-symbolic"@,
        "mimick-accent-camera"@,
        "Body"@,
        camera(exif.make, exif.model),
    ) + row(
        is_filled(exif.lens_model),
        "view-fullscreen-symbolic"@,
        "mimick-accent-camera"@,
        "Lens"@,
        exif.lens_model->0@,
    ) + row(
        exposure_parts(exif, texts).len() > 0,
        "weather-clear-symbolic"@,
        "mimick-accent-camera"@,
        "Exposure"@,
        text::joined(exposure_parts(exif, texts), " · "@),
    )
}

/// The rows on the camera.
pub fn build_camera_rows(exif: &ExifInfo, texts: &NumberTexts) -> (r: Vec<DetailRow>)
    ensures
        row_texts(r@) == camera_rows(*exif, *texts),
{
    let mut rows: Vec<DetailRow> = Vec::new();
    assert(row_texts(rows@) =~= Seq::<RowText>::empty());
    if let Some(c) = format_camera(exif) {
        push_row(&mut rows, "camera-photo-symbolic", "mimick-accent-camera", "Body", c);
    }
    if let Some(l) = &exif.lens_model {
        if !is_blank(l.as_str()) {
            push_row(
                &mut rows,
                "view-fullscreen-symbolic",
                "mimick-accent-camera",
                "Lens",
                owned(l.as_str()),
            );
        }
    }
    if let Some(e) = format_exposure(exif, texts) {
        push_row(&mut rows, "weather-clear-symbolic", "mimick-accent-camera", "Exposure", e);
    }
    assert(row_texts(rows@) =~= camera_rows(*exif, *texts));
    rows
}

/// The rows on the image: size in pixels, size in bytes, date. `shown_date` is the text of the date.
pub open spec fn image_rows(
    exif: ExifInfo,
    taken_label: Seq<char>,
    shown_date: Seq<char>,
) -> Seq<RowText> {
    row(
        exif.exif_image_width is Some && exif.exif_image_height is Some,
        "view-grid-symbolic"@,
        "mimick-accent-image"@,
        "Dimensions"@,
        text::decimal(exif.exif_image_width->0 as nat) + " × "@ + text::decimal(
            exif.exif_image_height->0 as nat,
        ),
    ) + row(
        exif.file_size_in_byte is Some,
        "drive-harddisk-symbolic"@,
        "mimick-accent-image"@,
        "Size"@,
        decimals::size_text(exif.file_size_in_byte->0 as nat),
    ) + row(
        is_filled(exif.date_time_original),
        "x-office-calendar-symbolic"@,
        "mimick-accent-image"@,
        taken_label,
        shown_date,
    )
}

/// The rows on the image.
pub fn build_image_rows(exif: &ExifInfo, taken_label: &str, shown_date: &str) -> (r: Vec<DetailRow>)
    ensures
        row_texts(r@) == image_rows(*exif, taken_label@, shown_date@),
{
    let mut rows: Vec<DetailRow> = Vec::new();
    assert(row_texts(rows@) =~= Seq::<RowText>::empty());
    if let Some(w) = exif.exif_image_width {
        if let Some(h) = exif.exif_image_height {
            let size: String = concat3(
                number(w as u64).as_str(),
                " × ",
                number(h as u64).as_str(),
            );
            push_row(&mut rows, "view-grid-symbolic", "mimick-accent-image", "Dimensions", size);
        }
    }
    if let Some(n) = exif.file_size_in_byte {
        let size: String = format_bytes(n);
        push_row(&mut rows, "drive-harddisk-symbolic", "mimick-accent-image", "Size", size);
    }
    if let Some(dt) = &exif.date_time_original {
        if !is_blank(dt.as_str()) {
            push_row(
                &mut rows,
                "x-office-calendar-symbolic",
                "mimick-accent-image",
                taken_label,
                owned(shown_date),
            );
        }
    }
    assert(row_texts(rows@) =~= image_rows(*exif, taken_label@, shown_date@));
    rows
}

/// The rows on the place: its name and its coordinates.
pub open spec fn location_rows(exif: ExifInfo, texts: NumberTexts) -> Seq<RowText> {
    row(
        location_parts(exif).len() > 0,
        "mark-location-symbolic"@,
        "mimick-accent-location"@,
        "Place"@,
        text::joined(location_parts(exif), ", "@),
    ) + row(
        exif.latitude is Some && exif.longitude is Some,
        "find-location-symbolic"@,
        "mimick-accent-location"@,
        "Coordinates"@,
        texts.latitude@ + ", "@ + texts.longitude@,
    )
}

/// The rows on the place.
pub fn build_location_rows(exif: &ExifInfo, texts: &NumberTexts) -> (r: Vec<DetailRow>)
    ensures
        row_texts(r@) == location_rows(*exif, *texts),
{
    let mut rows: Vec<DetailRow> = Vec::new();
    assert(row_texts(rows@) =~= Seq::<RowText>::empty());
    if let Some(l) = format_location(exif) {
        push_row(&mut rows, "mark-location-symbolic", "mimick-accent-location", "Place", l);
    }
    if exif.latitude.is_some() && exif.longitude.is_some() {
        let at: String = concat3(texts.latitude.as_str(), ", ", texts.longitude.as_str());
        push_row(&mut rows, "find-location-symbolic", "mimick-accent-location", "Coordinates", at);
    }
    assert(row_texts(rows@) =~= location_rows(*exif, *texts));
    rows
}

/// One group, or none where it has no rows.
pub open spec fn group(title: Seq<char>, rows: Seq<RowText>) -> Seq<GroupText> {
    if rows.len() > 0 {
        seq![GroupText { title, rows }]
    } else {
        Seq::empty()
    }
}

fn push_group(groups: &mut Vec<DetailGroup>, title: &'static str, rows: Vec<DetailRow>)
    ensures
        group_texts(final(groups)@) == group_texts(old(groups)@) + group(title@, row_texts(rows@)),
{
    let ghost before = groups@;
    let ghost shown = row_texts(rows@);
    if rows.len() > 0 {
        groups.push(DetailGroup { title, rows });
    }
    assert(group_texts(groups@) =~= group_texts(before) + group(title@, shown));
}

/// The groups of the details sheet, without those that would be empty.
pub open spec fn detail_groups(
    exif: ExifInfo,
    texts: NumberTexts,
    taken_label: Seq<char>,
    shown_date: Seq<char>,
) -> Seq<GroupText> {
    group("Camera"@, camera_rows(exif, texts)) + group(
        "Image"@,
        image_rows(exif, taken_label, shown_date),
    ) + group("Location"@, location_rows(exif, texts)) + group(
        "Description"@,
        row(
            is_filled(exif.description),
            Seq::empty(),
            Seq::empty(),
            exif.description->0@,
            Seq::empty(),
        ),
    )
}

/// The groups of the details sheet, given the text of the date.
pub fn build_details(
    exif: &ExifInfo,
    texts: &NumberTexts,
    taken_label: &str,
    shown_date: &str,
) -> (r: Vec<DetailGroup>)
    ensures
        group_texts(r@) == detail_groups(*exif, *texts, taken_label@, shown_date@),
{
    let mut groups: Vec<DetailGroup> = Vec::new();
    assert(group_texts(groups@) =~= Seq::<GroupText>::empty());
    push_group(&mut groups, "Camera", build_camera_rows(exif, texts));
    push_group(&mut groups, "Image", build_image_rows(exif, taken_label, shown_date));
    push_group(&mut groups, "Location", build_location_rows(exif, texts));
    let mut note: Vec<DetailRow> = Vec::new();
    assert(row_texts(note@) =~= Seq::<RowText>::empty());
    if let Some(d) = &exif.description {
        if !is_blank(d.as_str()) {
            proof {
                reveal_strlit("");
                assert(""@ =~= Seq::<char>::empty());
                assert(Seq::<RowText>::empty() + row(true, ""@, ""@, d@, Seq::empty()) =~= row(
                    true,
                    Seq::empty(),
                    Seq::empty(),
                    d@,
                    Seq::empty(),
                ));
            }
            push_row(&mut note, "", "", d.as_str(), String::new());
        }
    }
    push_group(&mut groups, "Description", note);
    assert(group_texts(groups@) =~= detail_groups(*exif, *texts, taken_label@, shown_date@));
    groups
}

/// The groups of the details sheet. The date is shown in the machine's time zone; where its text is
/// no time, as it stands.
pub fn fill_details(exif: &ExifInfo, texts: &NumberTexts, taken_label: &str) -> (r: Vec<DetailGroup>)
    ensures
        exists|shown: Seq<char>| #[trigger]
            detail_groups(*exif, *texts, taken_label@, shown) == group_texts(r@) && (
            exif.date_time_original is Some && !clock::is_time(exif.date_time_original->0@)
                ==> shown == exif.date_time_original->0@) && (
            exif.date_time_original is Some && clock::is_time(exif.date_time_original->0@)
                ==> clock::shows_local_time(
                shown,
                exif.date_time_original->0@,
                clock::TimeStyle::Compact,
            )),
{
    let shown: String = match &exif.date_time_original {
        Some(dt) => format_datetime_display(dt.as_str()),
        None => String::new(),
    };
    let groups: Vec<DetailGroup> = build_details(exif, texts, taken_label, shown.as_str());
    assert(detail_groups(*exif, *texts, taken_label@, shown@) == group_texts(groups@));
    groups
}

/// No group of the details sheet is empty.
pub proof fn detail_groups_have_rows(
    exif: ExifInfo,
    texts: NumberTexts,
    taken_label: Seq<char>,
    shown_date: Seq<char>,
)
    ensures
        forall|i: int|
            0 <= i < detail_groups(exif, texts, taken_label, shown_date).len() ==> (
            #[trigger] detail_groups(exif, texts, taken_label, shown_date)[i]).rows.len() > 0,
{
}

/// A person that was recognised in a photo.
#[derive(Debug, PartialEq, Eq)]
pub struct Person {
    pub id: String,
    pub name: String,
    pub is_hidden: bool,
}

impl Clone for Person {
    fn clone(&self) -> (r: Self)
        ensures
            r == *self,
    {
        Person { id: self.id.clone(), name: self.name.clone(), is_hidden: self.is_hidden }
    }
}

/// The people to show: all but the hidden ones, named or not.
pub fn visible_people(people: &Vec<Person>) -> (r: Vec<Person>)
    ensures
        r@ == people@.filter(|p: Person| !p.is_hidden),
{
    let ghost shown = |p: Person| !p.is_hidden;
    let mut out: Vec<Person> = Vec::new();
    let mut i: usize = 0;
    proof {
        seqs::filter_ends(people@, shown);
    }
    while i < people.len()
        invariant
            i <= people.len(),
            shown == |p: Person| !p.is_hidden,
            out@ == people@.take(i as int).filter(shown),
        decreases people.len() - i,
    {
        proof {
            seqs::filter_step(people@, shown, i as int);
        }
        if !people[i].is_hidden {
            out.push(people[i].clone());
        }
        i = i + 1;
    }
    out
}

/// The text of the description entry: that of the asset, else that of its metadata.
pub fn description_text(asset: &Option<String>, exif: &Option<ExifInfo>) -> (r: String)
    ensures
        r@ == match *asset {
            Some(d) => d@,
            None => match *exif {
                Some(e) => match e.description {
                    Some(d) => d@,
                    None => Seq::empty(),
                },
                None => Seq::empty(),
            },
        },
{
    match asset {
        Some(d) => owned(d.as_str()),
        None => {
            match exif {
                Some(e) => {
                    match &e.description {
                        Some(d) => owned(d.as_str()),
                        None => String::new(),
                    }
                },
                None => String::new(),
            }
        },
    }
}

/// What is shown of a local file is what its metadata says; the pixel size and the time of the file
/// step in only where the metadata has none, and the date is called "Modified" exactly then.
pub proof fn probe_fills_the_gaps(probe: &LocalProbe, r: Option<ProbeDetails>)
    requires
        call_ensures(probe_details, (probe,), r),
    ensures
        r is Some <==> probe.exif is Some || probe.file_size is Some || probe.dims is Some
            || probe.mtime_iso is Some,
        r matches Some(d) ==> {
            &&& d.exif.file_size_in_byte == probe.file_size
            &&& d.exif.city is None && d.exif.state is None && d.exif.country is None
            &&& d.taken_label@ == "Taken"@ || d.taken_label@ == "Modified"@
            &&& probe.exif is Some && probe.exif->0.date_time_original is Some
                ==> d.exif.date_time_original == probe.exif->0.date_time_original && d.taken_label@
                == "Taken"@
            &&& probe.exif is None || probe.exif->0.date_time_original is None
                ==> d.exif.date_time_original == probe.mtime_iso && d.taken_label@ == "Modified"@
            &&& probe.exif is Some && probe.exif->0.image_width is Some ==> d.exif.exif_image_width
                == probe.exif->0.image_width
            &&& (probe.exif is None || probe.exif->0.image_width is None) && probe.dims is Some
                ==> d.exif.exif_image_width == Some((probe.dims->0).0)
            &&& probe.exif is Some && probe.exif->0.image_height is Some
                ==> d.exif.exif_image_height == probe.exif->0.image_height
            &&& (probe.exif is None || probe.exif->0.image_height is None) && probe.dims is Some
                ==> d.exif.exif_image_height == Some((probe.dims->0).1)
            &&& probe.exif is Some ==> d.exif.make == probe.exif->0.make && d.exif.model
                == probe.exif->0.model && d.exif.lens_model == probe.exif->0.lens_model
                && d.exif.iso == probe.exif->0.iso && d.exif.latitude == probe.exif->0.latitude
                && d.exif.longitude == probe.exif->0.longitude && d.exif.f_number
                == probe.exif->0.f_number && d.exif.focal_length == probe.exif->0.focal_length
        },
{
}

/// The name of a camera ends with its model and names the make once: where the model begins with it,
/// the model is the whole name.
pub proof fn camera_names_the_make_once(exif: &ExifInfo, r: Option<String>)
    requires
        call_ensures(format_camera, (exif,), r),
        exif.make is Some,
        exif.model is Some,
        text::trimmed(exif.model->0@).len() > 0,
    ensures
        r is Some,
        ({
            let make = text::trimmed(exif.make->0@);
            let model = text::trimmed(exif.model->0@);
            &&& make.is_prefix_of(r->0@)
            &&& r->0@.skip(r->0@.len() - model.len()) == model
            &&& make.is_prefix_of(model) ==> r->0@ == model
            &&& !make.is_prefix_of(model) ==> r->0@.len() == make.len() + 1 + model.len()
        }),
{
    reveal_strlit(" ");
    let make = text::trimmed(exif.make->0@);
    let model = text::trimmed(exif.model->0@);
    assert(r->0@.skip(r->0@.len() - model.len()) =~= model);
}

/// The people shown of a photo are those that are not hidden.
pub proof fn hidden_people_are_not_shown(people: &Vec<Person>, shown: Vec<Person>, person: Person)
    requires
        call_ensures(visible_people, (people,), shown),
    ensures
        shown@.contains(person) <==> people@.contains(person) && !person.is_hidden,
{
    seqs::filter_contents(people@, |p: Person| !p.is_hidden);
}

} // verus!
