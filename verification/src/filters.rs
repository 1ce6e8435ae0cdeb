//! The form of the advanced search.
use vstd::prelude::*;
use vstd::string::*;
use crate::clock;
use crate::clock::normalise_iso_date;
use crate::path;
use crate::sources::MetadataSearchFilters;
use crate::text;
use crate::text::{owned, trim};

verus! {

/// What was entered into the form.
#[derive(Debug, PartialEq, Eq)]
pub struct FilterForm {
    pub filename: String,
    pub description: String,
    pub ocr: String,
    /// The choice of the asset type: any, images, videos.
    pub asset_type: u32,
    pub favorites_only: bool,
    pub archived_only: bool,
    pub motion_only: bool,
    pub not_in_album: bool,
    pub taken_after: String,
    pub taken_before: String,
    pub make: String,
    pub model: String,
    pub lens_model: String,
    pub country: String,
    pub state: String,
    pub city: String,
}

/// The text of an entry without white space around it; none where nothing is left.
pub open spec fn entered(s: Seq<char>) -> Option<Seq<char>> {
    if text::trimmed(s).len() == 0 {
        None
    } else {
        Some(text::trimmed(s))
    }
}

/// The text of an entry without white space around it; none where nothing is left.
pub fn opt_string(entry: &str) -> (r: Option<String>)
    ensures
        path::opt_view(r) == entered(entry@),
{
    let t: String = trim(entry);
    if t.as_str().is_empty() {
        None
    } else {
        Some(t)
    }
}

/// The condition of a switch: none where it is off.
pub open spec fn switched(active: bool) -> Option<bool> {
    if active {
        Some(true)
    } else {
        None
    }
}

/// The condition of a switch: none where it is off.
pub fn opt_true(active: bool) -> (r: Option<bool>)
    ensures
        r == switched(active),
{
    if active {
        Some(true)
    } else {
        None
    }
}

/// The asset type of a choice; none for any type.
pub open spec fn chosen_type(choice: u32) -> Option<Seq<char>> {
    if choice == 1 {
        Some("IMAGE"@)
    } else if choice == 2 {
        Some("VIDEO"@)
    } else {
        None
    }
}

/// The asset type of a choice.
pub fn asset_type_filter(choice: u32) -> (r: Option<String>)
    ensures
        path::opt_view(r) == chosen_type(choice),
{
    if choice == 1 {
        Some(owned("IMAGE"))
    } else if choice == 2 {
        Some(owned("VIDEO"))
    } else {
        None
    }
}

/// The condition of a date entry.
pub open spec fn entered_date(s: Seq<char>) -> Option<Seq<char>> {
    clock::filter_date(
        s,
        clock::rfc3339_month(text::trimmed(s)) is Some,
        clock::iso_date(text::trimmed(s)) is Some,
    )
}

/// The search that a form stands for: only what was entered is a condition.
pub fn filters_from_form(form: &FilterForm) -> (r: MetadataSearchFilters)
    ensures
        path::opt_view(r.original_file_name) == entered(form.filename@),
        path::opt_view(r.description) == entered(form.description@),
        path::opt_view(r.ocr) == entered(form.ocr@),
        path::opt_view(r.asset_type) == chosen_type(form.asset_type),
        path::opt_view(r.taken_after) == entered_date(form.taken_after@),
        path::opt_view(r.taken_before) == entered_date(form.taken_before@),
        path::opt_view(r.make) == entered(form.make@),
        path::opt_view(r.model) == entered(form.model@),
        path::opt_view(r.lens_model) == entered(form.lens_model@),
        path::opt_view(r.country) == entered(form.country@),
        path::opt_view(r.state) == entered(form.state@),
        path::opt_view(r.city) == entered(form.city@),
        r.is_favorite == switched(form.favorites_only),
        r.is_archived == switched(form.archived_only),
        r.is_motion == switched(form.motion_only),
        r.is_not_in_album == switched(form.not_in_album),
        r.is_trashed is None,
        r.with_exif is None,
        r.with_deleted is None,
        r.person_ids is None,
        r.tag_ids is None,
        r.order is None,
{
    MetadataSearchFilters {
        original_file_name: opt_string(form.filename.as_str()),
        description: opt_string(form.description.as_str()),
        ocr: opt_string(form.ocr.as_str()),
        asset_type: asset_type_filter(form.asset_type),
        taken_after: normalise_iso_date(form.taken_after.as_str()),
        taken_before: normalise_iso_date(form.taken_before.as_str()),
        make: opt_string(form.make.as_str()),
        model: opt_string(form.model.as_str()),
        lens_model: opt_string(form.lens_model.as_str()),
        country: opt_string(form.country.as_str()),
        state: opt_string(form.state.as_str()),
        city: opt_string(form.city.as_str()),
        is_favorite: opt_true(form.favorites_only),
        is_archived: opt_true(form.archived_only),
        is_motion: opt_true(form.motion_only),
        is_not_in_album: opt_true(form.not_in_album),
        is_trashed: None,
        with_exif: None,
        with_deleted: None,
        person_ids: None,
        tag_ids: None,
        order: None,
    }
}

/// A field of the search stands for an entry of the form: it holds the entered text without white
/// space around it, and is not there where nothing else was entered.
pub open spec fn stands_for(field: Option<String>, entry: String) -> bool {
    match field {
        Some(s) => s@.len() > 0 && s@ == text::trimmed(entry@),
        None => text::trimmed(entry@).len() == 0,
    }
}

/// Every entry of the form leads to its own condition of the search, and nothing that was left empty
/// or off does.
pub proof fn form_and_search_agree(form: &FilterForm, r: MetadataSearchFilters)
    requires
        call_ensures(filters_from_form, (form,), r),
    ensures
        stands_for(r.original_file_name, form.filename),
        stands_for(r.description, form.description),
        stands_for(r.ocr, form.ocr),
        stands_for(r.make, form.make),
        stands_for(r.model, form.model),
        stands_for(r.lens_model, form.lens_model),
        stands_for(r.country, form.country),
        stands_for(r.state, form.state),
        stands_for(r.city, form.city),
        r.asset_type is Some <==> form.asset_type == 1 || form.asset_type == 2,
        form.asset_type == 1 ==> r.asset_type->0@ == "IMAGE"@,
        form.asset_type == 2 ==> r.asset_type->0@ == "VIDEO"@,
        r.is_favorite == Some(true) <==> form.favorites_only,
        r.is_archived == Some(true) <==> form.archived_only,
        r.is_motion == Some(true) <==> form.motion_only,
        r.is_not_in_album == Some(true) <==> form.not_in_album,
        r.is_favorite != Some(false) && r.is_archived != Some(false) && r.is_motion != Some(false)
            && r.is_not_in_album != Some(false),
        text::trimmed(form.taken_after@).len() == 0 ==> r.taken_after is None,
        text::trimmed(form.taken_before@).len() == 0 ==> r.taken_before is None,
        clock::rfc3339_month(text::trimmed(form.taken_after@)) is Some && text::trimmed(
            form.taken_after@,
        ).len() > 0 ==> r.taken_after is Some && r.taken_after->0@ == text::trimmed(
            form.taken_after@,
        ),
        clock::rfc3339_month(text::trimmed(form.taken_before@)) is Some && text::trimmed(
            form.taken_before@,
        ).len() > 0 ==> r.taken_before is Some && r.taken_before->0@ == text::trimmed(
            form.taken_before@,
        ),
        r.person_ids is None && r.tag_ids is None && r.is_trashed is None && r.with_deleted is None,
{
}

} // verus!
