//! The explore page: its sections, the people row, the tiles of recent photos and things.
use vstd::prelude::*;
use vstd::string::*;
use crate::details::Person;
use crate::order;
use crate::order::{refs_sorted_by_keys, Descending};
use crate::seqs;
use crate::text;
use crate::text::{begins_with, chars_of, concat2, concat3, contains_text, first_chars, lower, number,
    number2, owned, same_text};

verus! {

/// How many recent photos are shown at first.
pub const INITIAL_TILE_COUNT: usize = 16;

/// How many recent photos are shown at most.
pub const RECENTS_EXPANDED_COUNT: usize = 30;

/// How many people are shown at most.
pub const PEOPLE_LIMIT: usize = 40;

/// How many tiles a section of things shows at most.
pub const THINGS_LIMIT: usize = 24;

/// What a browse page is made of.
#[derive(Clone, Copy, Debug, PartialEq, Eq, Structural)]
pub struct BrowseOptions {
    pub include_library_actions: bool,
    pub include_recents: bool,
    pub has_lead: bool,
    pub has_trail: bool,
    pub include_places: bool,
    pub include_things: bool,
}

impl Default for BrowseOptions {
    fn default() -> (r: Self)
        ensures
            r == (BrowseOptions {
                include_library_actions: false,
                include_recents: false,
                has_lead: false,
                has_trail: false,
                include_places: false,
                include_things: false,
            }),
    {
        BrowseOptions {
            include_library_actions: false,
            include_recents: false,
            has_lead: false,
            has_trail: false,
            include_places: false,
            include_things: false,
        }
    }
}

/// A part of a browse page.
#[derive(Clone, Copy, Debug, PartialEq, Eq, Structural)]
pub enum BrowsePart {
    Lead,
    LibraryActions,
    People,
    Places,
    Recents,
    Things,
    Trail,
}

/// One part, or none.
pub open spec fn part_if(wanted: bool, part: BrowsePart) -> Seq<BrowsePart> {
    if wanted {
        seq![part]
    } else {
        Seq::empty()
    }
}

/// The parts of a browse page, from top to bottom; people are always there.
pub open spec fn browse_parts(opts: BrowseOptions) -> Seq<BrowsePart> {
    part_if(opts.has_lead, BrowsePart::Lead) + part_if(
        opts.include_library_actions,
        BrowsePart::LibraryActions,
    ) + seq![BrowsePart::People] + part_if(opts.include_places, BrowsePart::Places) + part_if(
        opts.include_recents,
        BrowsePart::Recents,
    ) + part_if(opts.include_things, BrowsePart::Things) + part_if(
        opts.has_trail,
        BrowsePart::Trail,
    )
}

/// The parts of a browse page, from top to bottom.
pub fn build_browse_view(opts: BrowseOptions) -> (r: Vec<BrowsePart>)
    ensures
        r@ == browse_parts(opts),
{
    let mut parts: Vec<BrowsePart> = Vec::new();
    if opts.has_lead {
        parts.push(BrowsePart::Lead);
    }
    if opts.include_library_actions {
        parts.push(BrowsePart::LibraryActions);
    }
    parts.push(BrowsePart::People);
    if opts.include_places {
        parts.push(BrowsePart::Places);
    }
    if opts.include_recents {
        parts.push(BrowsePart::Recents);
    }
    if opts.include_things {
        parts.push(BrowsePart::Things);
    }
    if opts.has_trail {
        parts.push(BrowsePart::Trail);
    }
    assert(parts@ =~= browse_parts(opts));
    parts
}

/// The parts of the library tab: everything but lead and trail.
pub fn build_explore_view() -> (r: Vec<BrowsePart>)
    ensures
        r@ == seq![
            BrowsePart::LibraryActions,
            BrowsePart::People,
            BrowsePart::Places,
            BrowsePart::Recents,
            BrowsePart::Things,
        ],
{
    let parts: Vec<BrowsePart> = build_browse_view(
        BrowseOptions {
            include_library_actions: true,
            include_recents: true,
            has_lead: false,
            has_trail: false,
            include_places: true,
            include_things: true,
        },
    );
    assert(parts@ =~= seq![
        BrowsePart::LibraryActions,
        BrowsePart::People,
        BrowsePart::Places,
        BrowsePart::Recents,
        BrowsePart::Things,
    ]);
    parts
}

/// What the embedded map shows.
#[derive(Clone, Copy, Debug, PartialEq, Eq, Structural)]
pub enum PlacesState {
    Loading,
    Empty,
    Shown,
}

/// The state of a browse page.
#[derive(Debug, PartialEq, Eq)]
pub struct ExploreViewParts {
    pub populated: bool,
    pub cached_people: Vec<Person>,
    /// The people have been fetched, and so can be shown.
    pub people_ready: bool,
    pub search_query: String,
    pub people_visible: bool,
    pub people_loading: bool,
    pub recents_visible: bool,
    pub recents_loading: bool,
    pub places_visible: bool,
    pub places_loading: bool,
    pub things_visible: bool,
    pub things_loading: bool,
    pub places: PlacesState,
    /// How many places are known.
    pub cached_places: usize,
    /// The places have been put on the map, which happens once.
    pub places_map_populated: bool,
}

/// Which people are shown.
#[derive(Clone, Copy, Debug, PartialEq, Eq, Structural)]
pub struct PeopleSettings {
    pub show_unnamed: bool,
    pub show_hidden: bool,
}

/// The person passes the settings and the search.
pub open spec fn is_shown(person: Person, settings: PeopleSettings, query: Seq<char>) -> bool {
    &&& settings.show_hidden || !person.is_hidden
    &&& settings.show_unnamed || person.name@.len() > 0
    &&& query.len() == 0 || text::occurs_in(text::lowered(person.name@), text::lowered(query))
}

/// The people that pass the settings and the search.
pub open spec fn matching_people(
    people: Seq<Person>,
    settings: PeopleSettings,
    query: Seq<char>,
) -> Seq<Person> {
    people.filter(|p: Person| is_shown(p, settings, query))
}

fn shows_person(person: &Person, settings: PeopleSettings, query: &str) -> (r: bool)
    ensures
        r == is_shown(*person, settings, query@),
{
    if !settings.show_hidden && person.is_hidden {
        return false;
    }
    if !settings.show_unnamed && person.name.as_str().is_empty() {
        return false;
    }
    query.is_empty() || contains_text(lower(person.name.as_str()).as_str(), lower(query).as_str())
}

/// The people that pass the settings and the search.
pub fn filter_people(people: &Vec<Person>, settings: PeopleSettings, query: &str) -> (r: Vec<Person>)
    ensures
        r@ == matching_people(people@, settings, query@),
{
    let ghost pass = |p: Person| is_shown(p, settings, query@);
    let mut out: Vec<Person> = Vec::new();
    let mut i: usize = 0;
    proof {
        seqs::filter_ends(people@, pass);
    }
    while i < people.len()
        invariant
            i <= people.len(),
            pass == |p: Person| is_shown(p, settings, query@),
            out@ == people@.take(i as int).filter(pass),
        decreases people.len() - i,
    {
        proof {
            seqs::filter_step(people@, pass, i as int);
        }
        if shows_person(&people[i], settings, query) {
            out.push(people[i].clone());
        }
        i = i + 1;
    }
    out
}

/// The name of a person in the people row.
pub fn person_name(person: &Person) -> (r: String)
    ensures
        r@ == if person.name@.len() == 0 {
            "Unnamed"@
        } else {
            person.name@
        },
{
    if person.name.as_str().is_empty() {
        owned("Unnamed")
    } else {
        owned(person.name.as_str())
    }
}

impl ExploreViewParts {
    /// A page without contents.
    pub fn new() -> (r: Self)
        ensures
            !r.populated,
            r.cached_people@.len() == 0,
            !r.people_ready,
            r.search_query@.len() == 0,
            !r.people_visible && !r.recents_visible && !r.places_visible && !r.things_visible,
            !r.people_loading && !r.recents_loading && !r.places_loading && !r.things_loading,
            r.places == PlacesState::Loading,
            r.cached_places == 0,
            !r.places_map_populated,
    {
        ExploreViewParts {
            populated: false,
            cached_people: Vec::new(),
            people_ready: false,
            search_query: String::new(),
            people_visible: false,
            people_loading: false,
            recents_visible: false,
            recents_loading: false,
            places_visible: false,
            places_loading: false,
            things_visible: false,
            things_loading: false,
            places: PlacesState::Loading,
            cached_places: 0,
            places_map_populated: false,
        }
    }
}

/// Shows every section as loading.
pub fn show_loading(parts: &mut ExploreViewParts)
    ensures
        *final(parts) == (ExploreViewParts {
            people_visible: true,
            people_loading: true,
            recents_visible: true,
            recents_loading: true,
            places_visible: true,
            places_loading: true,
            things_visible: true,
            things_loading: true,
            ..*old(parts)
        }),
{
    parts.people_visible = true;
    parts.people_loading = true;
    parts.recents_visible = true;
    parts.recents_loading = true;
    parts.places_visible = true;
    parts.places_loading = true;
    parts.things_visible = true;
    parts.things_loading = true;
}

/// A landing page is visited: says whether it has to be filled. On the first visit every section is
/// shown as loading; afterwards the page stays as it is.
pub fn begin_landing(parts: &mut ExploreViewParts) -> (r: bool)
    ensures
        r == !old(parts).populated,
        *final(parts) == if r {
            ExploreViewParts {
                populated: true,
                people_visible: true,
                people_loading: true,
                recents_visible: true,
                recents_loading: true,
                places_visible: true,
                places_loading: true,
                things_visible: true,
                things_loading: true,
                ..*old(parts)
            }
        } else {
            *old(parts)
        },
{
    if parts.populated {
        return false;
    }
    parts.populated = true;
    show_loading(parts);
    true
}

/// The people row is visible, and `shown` is in it.
pub open spec fn shows_people(
    parts: ExploreViewParts,
    settings: PeopleSettings,
    shown: Seq<Person>,
) -> bool {
    let matching = matching_people(parts.cached_people@, settings, parts.search_query@);
    &&& parts.people_visible == (matching.len() > 0)
    &&& shown == if parts.people_ready {
        seqs::first_n(matching, PEOPLE_LIMIT as nat)
    } else {
        Seq::empty()
    }
}

/// The people row anew: the people to show. The row is visible where anyone matches.
pub fn render_people(parts: &mut ExploreViewParts, settings: PeopleSettings) -> (r: Vec<Person>)
    ensures
        shows_people(*final(parts), settings, r@),
        *final(parts) == (ExploreViewParts {
            people_visible: final(parts).people_visible,
            ..*old(parts)
        }),
{
    let mut shown: Vec<Person> = filter_people(
        &parts.cached_people,
        settings,
        parts.search_query.as_str(),
    );
    parts.people_visible = shown.len() > 0;
    if !parts.people_ready {
        return Vec::new();
    }
    shown.truncate(PEOPLE_LIMIT);
    assert(shown@ =~= seqs::first_n(
        matching_people(parts.cached_people@, settings, parts.search_query@),
        PEOPLE_LIMIT as nat,
    ));
    shown
}

/// The people were fetched: the people to show.
pub fn populate_people(
    parts: &mut ExploreViewParts,
    people: Vec<Person>,
    settings: PeopleSettings,
) -> (r: Vec<Person>)
    ensures
        shows_people(*final(parts), settings, r@),
        *final(parts) == (ExploreViewParts {
            cached_people: people,
            people_ready: true,
            people_loading: false,
            people_visible: final(parts).people_visible,
            ..*old(parts)
        }),
{
    parts.people_loading = false;
    parts.cached_people = people;
    parts.people_ready = true;
    render_people(parts, settings)
}

/// The search for people changed: the people to show. None where nothing changes: the query is the
/// same, or the people have not been fetched.
pub fn set_people_search(
    parts: &mut ExploreViewParts,
    query: &str,
    settings: PeopleSettings,
) -> (r: Option<Vec<Person>>)
    ensures
        r is Some <==> old(parts).search_query@ != query@ && old(parts).people_ready,
        final(parts).search_query@ == query@,
        match r {
            Some(shown) => shows_people(*final(parts), settings, shown@) && *final(parts) == (
            ExploreViewParts {
                search_query: final(parts).search_query,
                people_visible: final(parts).people_visible,
                ..*old(parts)
            }),
            None => *final(parts) == (ExploreViewParts {
                search_query: final(parts).search_query,
                ..*old(parts)
            }),
        },
{
    if same_text(parts.search_query.as_str(), query) {
        return None;
    }
    parts.search_query = owned(query);
    if !parts.people_ready {
        return None;
    }
    Some(render_people(parts, settings))
}

/// The places were fetched: says whether they have to be put on the map now.
pub fn populate_places(parts: &mut ExploreViewParts, markers: usize) -> (r: bool)
    ensures
        r == (markers > 0 && !old(parts).places_map_populated),
        *final(parts) == (ExploreViewParts {
            places_loading: false,
            places_visible: true,
            cached_places: markers,
            places: if markers == 0 {
                PlacesState::Empty
            } else {
                PlacesState::Shown
            },
            places_map_populated: old(parts).places_map_populated || markers > 0,
            ..*old(parts)
        }),
{
    parts.places_loading = false;
    parts.cached_places = markers;
    parts.places_visible = true;
    if markers == 0 {
        parts.places = PlacesState::Empty;
        return false;
    }
    let first: bool = !parts.places_map_populated;
    parts.places_map_populated = true;
    parts.places = PlacesState::Shown;
    first
}

/// Whether the places are known.
pub fn has_cached_places(parts: &ExploreViewParts) -> (r: bool)
    ensures
        r == (parts.cached_places > 0),
{
    parts.cached_places > 0
}

/// The page is shown again: says whether the known places have to be put on the map now.
pub fn render_cached_places(parts: &mut ExploreViewParts) -> (r: bool)
    ensures
        r == (old(parts).cached_places > 0 && !old(parts).places_map_populated),
        *final(parts) == if old(parts).cached_places == 0 {
            ExploreViewParts { places_loading: false, ..*old(parts) }
        } else {
            ExploreViewParts {
                places_loading: false,
                places_visible: true,
                places: PlacesState::Shown,
                places_map_populated: true,
                ..*old(parts)
            }
        },
{
    parts.places_loading = false;
    if parts.cached_places == 0 {
        return false;
    }
    parts.places_visible = true;
    let first: bool = !parts.places_map_populated;
    parts.places_map_populated = true;
    parts.places = PlacesState::Shown;
    first
}

/// A date and time in its parts.
#[derive(Clone, Copy, Debug, PartialEq, Eq, Structural)]
pub struct Stamp {
    pub year: i64,
    pub month: u32,
    pub day: u32,
    pub hour: u32,
    pub min: u32,
    pub sec: u32,
}

/// The character separates the parts of a time.
pub open spec fn is_separator(c: char) -> bool {
    c == '-' || c == ' ' || c == ':'
}

/// The stretches of a text between separators, empty ones included.
pub open spec fn stamp_parts(s: Seq<char>) -> Seq<Seq<char>>
    decreases s.len(),
{
    if s.len() == 0 {
        seq![Seq::empty()]
    } else if is_separator(s.last()) {
        stamp_parts(s.drop_last()).push(Seq::empty())
    } else {
        let front = stamp_parts(s.drop_last());
        front.update(front.len() - 1, front.last().push(s.last()))
    }
}

/// The first nineteen characters of a time, with a blank in place of "T" and without "Z".
pub open spec fn stamp_text(iso: Seq<char>) -> Seq<char> {
    let plain = text::replaced(iso, 'T', ' ').filter(|c: char| c != 'Z');
    seqs::first_n(plain, 19)
}

/// The text consists of digits alone.
pub open spec fn all_digits(s: Seq<char>) -> bool {
    forall|i: int| 0 <= i < s.len() ==> '0' <= #[trigger] s[i] && s[i] <= '9'
}

/// The number that some digits stand for.
pub open spec fn digits_value(s: Seq<char>) -> nat
    decreases s.len(),
{
    if s.len() == 0 {
        0
    } else {
        10 * digits_value(s.drop_last()) + (s.last() as u32 - '0' as u32) as nat
    }
}

/// The text without a leading plus sign.
pub open spec fn unsigned_digits(s: Seq<char>) -> Seq<char> {
    if s.len() > 0 && s[0] == '+' {
        s.drop_first()
    } else {
        s
    }
}

/// The number that a text without a minus sign stands for, up to a limit.
pub open spec fn parsed_number(s: Seq<char>, limit: nat) -> Option<nat> {
    let digits = unsigned_digits(s);
    if digits.len() > 0 && all_digits(digits) && digits_value(digits) <= limit {
        Some(digits_value(digits))
    } else {
        None
    }
}

/// The date and time in a text: its first six parts, where each of them is a number.
pub open spec fn stamp_of(iso: Seq<char>) -> Option<Stamp> {
    let parts = stamp_parts(stamp_text(iso));
    if parts.len() < 6 {
        None
    } else {
        let y = parsed_number(parts[0], i64::MAX as nat);
        let mo = parsed_number(parts[1], u32::MAX as nat);
        let d = parsed_number(parts[2], u32::MAX as nat);
        let h = parsed_number(parts[3], u32::MAX as nat);
        let mi = parsed_number(parts[4], u32::MAX as nat);
        let s = parsed_number(parts[5], u32::MAX as nat);
        if y is Some && mo is Some && d is Some && h is Some && mi is Some && s is Some {
            Some(
                Stamp {
                    year: y->0 as i64,
                    month: mo->0 as u32,
                    day: d->0 as u32,
                    hour: h->0 as u32,
                    min: mi->0 as u32,
                    sec: s->0 as u32,
                },
            )
        } else {
            None
        }
    }
}

proof fn digits_value_grows(s: Seq<char>, i: int)
    requires
        0 <= i <= s.len(),
    ensures
        digits_value(s.take(i)) <= digits_value(s),
    decreases s.len() - i,
{
    if i == s.len() {
        assert(s.take(i) =~= s);
    } else {
        digits_value_grows(s, i + 1);
        assert(s.take(i + 1).drop_last() =~= s.take(i));
    }
}

fn parse_number(s: &str, limit: u64) -> (r: Option<u64>)
    ensures
        match r {
            Some(v) => parsed_number(s@, limit as nat) == Some(v as nat),
            None => parsed_number(s@, limit as nat) is None,
        },
{
    let chars: Vec<char> = chars_of(s);
    let start: usize = if chars.len() > 0 && chars[0] == '+' {
        1
    } else {
        0
    };
    let ghost digits = unsigned_digits(s@);
    assert(digits =~= chars@.skip(start as int));
    if start == chars.len() {
        return None;
    }
    let mut v: u64 = 0;
    let mut i: usize = start;
    assert(digits.take(0) =~= Seq::<char>::empty());
    while i < chars.len()
        invariant
            start <= i <= chars.len(),
            digits == chars@.skip(start as int),
            digits.len() == chars.len() - start,
            v == digits_value(digits.take(i - start)),
            v <= limit,
            forall|k: int| 0 <= k < i - start ==> '0' <= #[trigger] digits[k] && digits[k] <= '9',
            digits == unsigned_digits(s@),
        decreases chars.len() - i,
    {
        let c: char = chars[i];
        assert(digits[i - start] == c);
        if !('0' <= c && c <= '9') {
            assert(!all_digits(digits));
            return None;
        }
        let d: u64 = (c as u32 - 48) as u64;
        proof {
            assert(digits.take(i + 1 - start).drop_last() =~= digits.take(i - start));
            assert(digits_value(digits.take(i + 1 - start)) == 10 * v + d);
            digits_value_grows(digits, i + 1 - start);
        }
        if v > (u64::MAX - d) / 10 || 10 * v + d > limit {
            assert(10 * v + d > limit);
            return None;
        }
        v = 10 * v + d;
        i = i + 1;
    }
    assert(digits.take(i - start) =~= digits);
    Some(v)
}

fn split_stamp(chars: &Vec<char>) -> (r: Vec<String>)
    ensures
        text::views(r@) == stamp_parts(chars@),
{
    let mut done: Vec<String> = Vec::new();
    let mut current: String = String::new();
    let mut i: usize = 0;
    proof {
        assert(chars@.take(0) =~= Seq::<char>::empty());
        assert(text::views(done@).push(current@) =~= seq![Seq::<char>::empty()]);
    }
    while i < chars.len()
        invariant
            i <= chars.len(),
            text::views(done@).push(current@) == stamp_parts(chars@.take(i as int)),
        decreases chars.len() - i,
    {
        let ghost before = text::views(done@).push(current@);
        assert(chars@.take(i + 1).drop_last() =~= chars@.take(i as int));
        let c: char = chars[i];
        if c == '-' || c == ' ' || c == ':' {
            done.push(current);
            assert(text::views(done@) =~= before);
            current = String::new();
            assert(current@ =~= Seq::<char>::empty());
        } else {
            current.push(c);
            assert(text::views(done@).push(current@) =~= before.update(
                before.len() - 1,
                before.last().push(c),
            ));
        }
        i = i + 1;
    }
    assert(chars@.take(i as int) =~= chars@);
    let ghost before = text::views(done@).push(current@);
    done.push(current);
    assert(text::views(done@) =~= before);
    done
}

fn plain_stamp(iso: &str) -> (r: Vec<char>)
    ensures
        r@ == stamp_text(iso@),
{
    let chars: Vec<char> = chars_of(text::replace_char(iso, 'T', ' ').as_str());
    let ghost all = text::replaced(iso@, 'T', ' ');
    let ghost keep = |c: char| c != 'Z';
    let mut out: Vec<char> = Vec::new();
    let mut i: usize = 0;
    proof {
        seqs::filter_ends(all, keep);
    }
    while i < chars.len()
        invariant
            i <= chars.len(),
            chars@ == all,
            keep == |c: char| c != 'Z',
            out@ == all.take(i as int).filter(keep),
        decreases chars.len() - i,
    {
        proof {
            seqs::filter_step(all, keep, i as int);
        }
        if chars[i] != 'Z' {
            out.push(chars[i]);
        }
        i = i + 1;
    }
    let ghost plain = all.filter(keep);
    out.truncate(19);
    assert(out@ =~= seqs::first_n(plain, 19));
    out
}

/// The date and time in a text.
pub fn parse_iso_date(iso: &str) -> (r: Option<Stamp>)
    ensures
        r == stamp_of(iso@),
{
    let parts: Vec<String> = split_stamp(&plain_stamp(iso));
    let ghost all = stamp_parts(stamp_text(iso@));
    if parts.len() < 6 {
        return None;
    }
    assert(all[0] == parts@[0]@ && all[1] == parts@[1]@ && all[2] == parts@[2]@ && all[3]
        == parts@[3]@ && all[4] == parts@[4]@ && all[5] == parts@[5]@);
    let year: Option<u64> = parse_number(parts[0].as_str(), i64::MAX as u64);
    let month: Option<u64> = parse_number(parts[1].as_str(), u32::MAX as u64);
    let day: Option<u64> = parse_number(parts[2].as_str(), u32::MAX as u64);
    let hour: Option<u64> = parse_number(parts[3].as_str(), u32::MAX as u64);
    let min: Option<u64> = parse_number(parts[4].as_str(), u32::MAX as u64);
    let sec: Option<u64> = parse_number(parts[5].as_str(), u32::MAX as u64);
    match (year, month, day, hour, min, sec) {
        (Some(y), Some(mo), Some(d), Some(h), Some(mi), Some(s)) => Some(
            Stamp {
                year: y as i64,
                month: mo as u32,
                day: d as u32,
                hour: h as u32,
                min: mi as u32,
                sec: s as u32,
            },
        ),
        _ => None,
    }
}

/// The year has a leap day.
pub open spec fn is_leap(year: int) -> bool {
    year % 4 == 0 && (year % 100 != 0 || year % 400 == 0)
}

/// How many days there are from the start of 1970 to the start of a year; none before 1970.
pub open spec fn days_before_year(year: int) -> nat
    decreases year - 1970,
{
    if year <= 1970 {
        0
    } else {
        days_before_year(year - 1) + if is_leap(year - 1) {
            366nat
        } else {
            365
        }
    }
}

/// How many days a month has.
pub open spec fn days_in_month(month: int, leap: bool) -> nat {
    if month == 2 {
        if leap {
            29
        } else {
            28
        }
    } else if month == 4 || month == 6 || month == 9 || month == 11 {
        30
    } else {
        31
    }
}

/// How many days of a year there are before a month.
pub open spec fn days_before_month(month: int, leap: bool) -> nat
    decreases month,
{
    if month <= 1 {
        0
    } else {
        days_before_month(month - 1, leap) + days_in_month(month - 1, leap)
    }
}

/// The seconds from the start of 1970 to a date and time.
pub open spec fn epoch_seconds(stamp: Stamp) -> int {
    let days = days_before_year(stamp.year as int) + days_before_month(
        stamp.month as int,
        is_leap(stamp.year as int),
    ) + (stamp.day - 1);
    days * 86400 + stamp.hour * 3600 + stamp.min * 60 + stamp.sec
}

proof fn days_grow(a: int, b: int)
    requires
        a <= b,
    ensures
        days_before_year(a) <= days_before_year(b),
    decreases b - a,
{
    if a < b {
        days_grow(a, b - 1);
    }
}

/// The month is one of the twelve, or the one after them; the day counts from one; the seconds can
/// be counted.
pub open spec fn is_countable(stamp: Stamp) -> bool {
    &&& stamp.month <= 13
    &&& stamp.day >= 1
    &&& epoch_seconds(stamp) <= i64::MAX
}

/// The seconds from the start of 1970 to a date and time; years before count as 1970.
pub fn compute_epoch_seconds(stamp: Stamp) -> (r: i64)
    requires
        is_countable(stamp),
    ensures
        r == epoch_seconds(stamp),
        r >= 0,
{
    let leap: bool = stamp.year % 4 == 0 && (stamp.year % 100 != 0 || stamp.year % 400 == 0);
    assert(leap == is_leap(stamp.year as int));
    let mut days: i64 = 0;
    let mut y: i64 = 1970;
    proof {
        month_days_are_few(stamp.month as int, leap);
    }
    while y < stamp.year
        invariant
            1970 <= y,
            y <= stamp.year || y == 1970,
            days == days_before_year(y as int),
            days_before_year(stamp.year as int) * 86400 <= i64::MAX,
        decreases stamp.year - y,
    {
        proof {
            days_grow(y + 1, stamp.year as int);
        }
        let y_leap: bool = y % 4 == 0 && (y % 100 != 0 || y % 400 == 0);
        days = days + if y_leap {
            366
        } else {
            365
        };
        y = y + 1;
    }
    assert(days == days_before_year(stamp.year as int));
    let ghost years = days;
    let mut m: u32 = 1;
    while m < stamp.month
        invariant
            1 <= m,
            m <= stamp.month || m == 1,
            stamp.month <= 13,
            0 <= years <= i64::MAX / 86400,
            days == years + days_before_month(m as int, leap),
            days_before_month(m as int, leap) <= 31 * (m - 1),
        decreases stamp.month - m,
    {
        let more: i64 = if m == 2 {
            if leap {
                29
            } else {
                28
            }
        } else if m == 4 || m == 6 || m == 9 || m == 11 {
            30
        } else {
            31
        };
        days = days + more;
        m = m + 1;
    }
    assert(days == years + days_before_month(stamp.month as int, leap));
    days = days + (stamp.day - 1) as i64;
    days * 86400 + stamp.hour as i64 * 3600 + stamp.min as i64 * 60 + stamp.sec as i64
}

proof fn month_days_are_few(month: int, leap: bool)
    requires
        month <= 13,
    ensures
        days_before_month(month, leap) <= 31 * 13,
    decreases month,
{
    reveal_with_fuel(days_before_month, 14);
}

/// A number with at least four digits.
pub open spec fn four_digits(n: nat) -> Seq<char> {
    if n < 10 {
        "000"@ + text::decimal(n)
    } else if n < 100 {
        "00"@ + text::decimal(n)
    } else if n < 1000 {
        "0"@ + text::decimal(n)
    } else {
        text::decimal(n)
    }
}

fn number4(n: u64) -> (r: String)
    ensures
        r@ == four_digits(n as nat),
{
    if n < 10 {
        concat2("000", number(n).as_str())
    } else if n < 100 {
        concat2("00", number(n).as_str())
    } else if n < 1000 {
        concat2("0", number(n).as_str())
    } else {
        number(n)
    }
}

/// How long ago a time is, `age` in seconds; its date where that is a week or more.
pub open spec fn age_text(age: int, stamp: Stamp) -> Seq<char> {
    if age < 60 {
        "Just now"@
    } else if age < 3600 {
        text::decimal((age / 60) as nat) + " min ago"@
    } else if age < 86400 {
        text::decimal((age / 3600) as nat) + "h ago"@
    } else if age < 604800 {
        text::decimal((age / 86400) as nat) + "d ago"@
    } else {
        four_digits(stamp.year as nat) + "-"@ + text::decimal2(stamp.month as nat) + "-"@
            + text::decimal2(stamp.day as nat)
    }
}

/// How long ago a time is, `now` being the seconds since the start of 1970; the first ten
/// characters of a text that is no time.
pub open spec fn relative_date(iso: Seq<char>, now: int) -> Seq<char> {
    match stamp_of(iso) {
        None => seqs::first_n(iso, 10),
        Some(stamp) => age_text(now - epoch_seconds(stamp), stamp),
    }
}

/// How long ago a time is. A time whose seconds cannot be counted is not accepted.
pub fn format_relative_date(iso: &str, now: i64) -> (r: String)
    requires
        now >= 0,
        stamp_of(iso@) matches Some(stamp) ==> is_countable(stamp),
    ensures
        r@ == relative_date(iso@, now as int),
{
    match parse_iso_date(iso) {
        None => first_chars(iso, 10),
        Some(stamp) => {
            let age: i64 = now - compute_epoch_seconds(stamp);
            if age < 60 {
                owned("Just now")
            } else if age < 3600 {
                concat2(number((age / 60) as u64).as_str(), " min ago")
            } else if age < 86400 {
                concat2(number((age / 3600) as u64).as_str(), "h ago")
            } else if age < 86400 * 7 {
                concat2(number((age / 86400) as u64).as_str(), "d ago")
            } else {
                proof {
                    parsed_year_is_positive(iso@);
                }
                let front: String = concat3(
                    number4(stamp.year as u64).as_str(),
                    "-",
                    number2(stamp.month as u64).as_str(),
                );
                concat3(front.as_str(), "-", number2(stamp.day as u64).as_str())
            }
        },
    }
}

proof fn parsed_year_is_positive(iso: Seq<char>)
    ensures
        stamp_of(iso) matches Some(stamp) ==> stamp.year >= 0,
{
}

/// An item of a section: a value and the asset that shows it.
#[derive(Debug, PartialEq, Eq)]
pub struct ExploreItem {
    pub value: String,
    pub asset_id: String,
}

/// A section that the server offers.
#[derive(Debug, PartialEq, Eq)]
pub struct ExploreSection {
    pub field_name: String,
    pub items: Vec<ExploreItem>,
}

/// What a section is shown as.
#[derive(Clone, Copy, Debug, PartialEq, Eq, Structural)]
pub enum SectionKind {
    /// Shown on the map instead.
    Places,
    Recents,
    Things,
    Unknown,
}

/// What a section is shown as.
pub open spec fn kind_of(field_name: Seq<char>) -> SectionKind {
    if text::occurs_in(field_name, "city"@) {
        SectionKind::Places
    } else if field_name == "createdAt"@ || field_name == "updatedAt"@ {
        SectionKind::Recents
    } else if "smartInfo"@.is_prefix_of(field_name) {
        SectionKind::Things
    } else {
        SectionKind::Unknown
    }
}

/// What a section is shown as.
pub fn section_kind(field_name: &str) -> (r: SectionKind)
    ensures
        r == kind_of(field_name@),
{
    if contains_text(field_name, "city") {
        SectionKind::Places
    } else if same_text(field_name, "createdAt") || same_text(field_name, "updatedAt") {
        SectionKind::Recents
    } else if begins_with(field_name, "smartInfo") {
        SectionKind::Things
    } else {
        SectionKind::Unknown
    }
}

/// A tile: its label and the asset that it shows.
#[derive(Debug, PartialEq, Eq)]
pub struct Tile {
    pub label: String,
    pub asset_id: String,
}

/// What a tile shows.
pub struct TileText {
    pub label: Seq<char>,
    pub asset_id: Seq<char>,
}

impl View for Tile {
    type V = TileText;

    open spec fn view(&self) -> TileText {
        TileText { label: self.label@, asset_id: self.asset_id@ }
    }
}

/// What some tiles show.
pub open spec fn tile_texts(tiles: Seq<Tile>) -> Seq<TileText> {
    tiles.map_values(|t: Tile| t@)
}

/// The tiles of a section of things.
pub open spec fn thing_tiles(items: Seq<ExploreItem>) -> Seq<TileText> {
    seqs::first_n(items, THINGS_LIMIT as nat).map_values(
        |i: ExploreItem| TileText { label: i.value@, asset_id: i.asset_id@ },
    )
}

/// The tiles of all sections of things, one after another.
pub open spec fn all_thing_tiles(sections: Seq<ExploreSection>) -> Seq<TileText>
    decreases sections.len(),
{
    if sections.len() == 0 {
        Seq::empty()
    } else if kind_of(sections.last().field_name@) == SectionKind::Things {
        all_thing_tiles(sections.drop_last()) + thing_tiles(sections.last().items@)
    } else {
        all_thing_tiles(sections.drop_last())
    }
}

/// There is a section of a kind.
pub open spec fn has_kind(sections: Seq<ExploreSection>, kind: SectionKind) -> bool {
    seqs::has(sections, |s: ExploreSection| kind_of(s.field_name@) == kind)
}

/// The place of the last section of recent photos; the length where there is none.
pub open spec fn last_recents(sections: Seq<ExploreSection>) -> int
    decreases sections.len(),
{
    if sections.len() == 0 {
        -1
    } else if kind_of(sections.last().field_name@) == SectionKind::Recents {
        sections.len() - 1
    } else {
        last_recents(sections.drop_last())
    }
}

/// What the explore page shows of the server's sections.
#[derive(Debug, PartialEq, Eq)]
pub struct ExploreContents {
    pub things: Vec<Tile>,
    pub things_visible: bool,
    pub recents_visible: bool,
    /// The section of recent photos that is shown, by its place.
    pub recents_section: Option<usize>,
}

/// What the explore page shows of the server's sections: the tiles of the things, and the last
/// section of recent photos. Cities are on the map; other sections are not shown.
pub fn populate_explore(sections: &Vec<ExploreSection>) -> (r: ExploreContents)
    ensures
        tile_texts(r.things@) == all_thing_tiles(sections@),
        r.things_visible == has_kind(sections@, SectionKind::Things),
        r.recents_visible == has_kind(sections@, SectionKind::Recents),
        r.recents_section is Some <==> r.recents_visible,
        r.recents_section matches Some(k) ==> k == last_recents(sections@) && k < sections@.len()
            && kind_of(sections@[k as int].field_name@) == SectionKind::Recents,
{
    let ghost is_thing = |s: ExploreSection| kind_of(s.field_name@) == SectionKind::Things;
    let ghost is_recent = |s: ExploreSection| kind_of(s.field_name@) == SectionKind::Recents;
    let mut things: Vec<Tile> = Vec::new();
    let mut things_visible: bool = false;
    let mut recents_section: Option<usize> = None;
    let mut i: usize = 0;
    proof {
        assert(sections@.take(0) =~= Seq::<ExploreSection>::empty());
        assert(tile_texts(things@) =~= all_thing_tiles(sections@.take(0)));
    }
    while i < sections.len()
        invariant
            i <= sections.len(),
            is_thing == |s: ExploreSection| kind_of(s.field_name@) == SectionKind::Things,
            is_recent == |s: ExploreSection| kind_of(s.field_name@) == SectionKind::Recents,
            tile_texts(things@) == all_thing_tiles(sections@.take(i as int)),
            things_visible == seqs::has(sections@.take(i as int), is_thing),
            recents_section is Some <==> seqs::has(sections@.take(i as int), is_recent),
            recents_section is None ==> last_recents(sections@.take(i as int)) == -1,
            recents_section matches Some(k) ==> k == last_recents(sections@.take(i as int)) && k < i
                && kind_of(sections@[k as int].field_name@) == SectionKind::Recents,
        decreases sections.len() - i,
    {
        let section: &ExploreSection = &sections[i];
        proof {
            assert(sections@.take(i + 1).drop_last() =~= sections@.take(i as int));
            assert(sections@.take(i + 1).last() == *section);
            seqs::has_step(sections@, is_thing, i as int);
            seqs::has_step(sections@, is_recent, i as int);
        }
        match section_kind(section.field_name.as_str()) {
            SectionKind::Recents => {
                recents_section = Some(i);
            },
            SectionKind::Things => {
                things_visible = true;
                append_things(&mut things, &section.items);
            },
            SectionKind::Places => {},
            SectionKind::Unknown => {},
        }
        i = i + 1;
    }
    assert(sections@.take(i as int) =~= sections@);
    ExploreContents {
        things,
        things_visible,
        recents_visible: recents_section.is_some(),
        recents_section,
    }
}

fn append_things(tiles: &mut Vec<Tile>, items: &Vec<ExploreItem>)
    ensures
        tile_texts(final(tiles)@) == tile_texts(old(tiles)@) + thing_tiles(items@),
{
    let ghost before = tiles@;
    let mut i: usize = 0;
    assert(tile_texts(tiles@) =~= tile_texts(before) + thing_tiles(items@).take(0));
    while i < items.len() && i < THINGS_LIMIT
        invariant
            i <= items.len(),
            i <= THINGS_LIMIT,
            tile_texts(tiles@) == tile_texts(before) + thing_tiles(items@).take(i as int),
        decreases items.len() - i,
    {
        let ghost now = tiles@;
        tiles.push(
            Tile { label: items[i].value.clone(), asset_id: items[i].asset_id.clone() },
        );
        assert(tile_texts(tiles@) =~= tile_texts(now).push(tiles@.last()@));
        assert(thing_tiles(items@).take(i + 1) =~= thing_tiles(items@).take(i as int).push(
            thing_tiles(items@)[i as int],
        ));
        assert(tile_texts(tiles@) =~= tile_texts(before) + thing_tiles(items@).take(i + 1));
        i = i + 1;
    }
    assert(thing_tiles(items@).take(i as int) =~= thing_tiles(items@));
}

/// Items with greater values first.
pub open spec fn newest_value_first() -> spec_fn(ExploreItem, ExploreItem) -> bool {
    |a: ExploreItem, b: ExploreItem| text::text_le(b.value@, a.value@)
}

/// The recent photos that are shown, newest first.
pub open spec fn shown_recents(items: Seq<ExploreItem>, expanded: bool) -> Seq<ExploreItem> {
    seqs::first_n(
        order::stable_sort(items, newest_value_first()),
        if expanded {
            RECENTS_EXPANDED_COUNT as nat
        } else {
            INITIAL_TILE_COUNT as nat
        },
    )
}

/// Newest first is a total order.
pub proof fn newest_value_first_is_a_ranking()
    ensures
        order::is_ranking(newest_value_first()),
{
    let le = newest_value_first();
    assert forall|a: ExploreItem, b: ExploreItem| #[trigger] le(a, b) || #[trigger] le(b, a) by {
        text::text_le_total(a.value@, b.value@);
    }
    assert forall|a: ExploreItem, b: ExploreItem, c: ExploreItem| #[trigger]
        le(a, b) && #[trigger] le(b, c) implies le(a, c) by {
        text::text_le_transitive(c.value@, b.value@, a.value@);
    }
}

/// The recent photos that are shown, newest first.
pub fn shown_recent_items<'a>(items: &'a Vec<ExploreItem>, expanded: bool) -> (r: Vec<
    &'a ExploreItem,
>)
    ensures
        order::behind(r@) == shown_recents(items@, expanded),
{
    let mut refs: Vec<&ExploreItem> = Vec::new();
    let mut keys: Vec<Descending<String>> = Vec::new();
    let mut i: usize = 0;
    while i < items.len()
        invariant
            i <= items.len(),
            refs.len() == i,
            keys.len() == i,
            forall|k: int| 0 <= k < i ==> *(#[trigger] refs@[k]) == items@[k],
            forall|k: int| 0 <= k < i ==> (#[trigger] keys@[k]).key@ == items@[k].value@,
        decreases items.len() - i,
    {
        refs.push(&items[i]);
        keys.push(Descending { key: items[i].value.clone() });
        i = i + 1;
    }
    assert(order::behind(refs@) =~= items@);
    let sorted: Vec<&ExploreItem> = refs_sorted_by_keys(
        &refs,
        &keys,
        Ghost(newest_value_first()),
    );
    let limit: usize = if expanded {
        RECENTS_EXPANDED_COUNT
    } else {
        INITIAL_TILE_COUNT
    };
    let mut shown: Vec<&ExploreItem> = Vec::new();
    let mut j: usize = 0;
    while j < sorted.len() && j < limit
        invariant
            j <= sorted.len(),
            j <= limit,
            shown@ == sorted@.take(j as int),
        decreases sorted.len() - j,
    {
        shown.push(sorted[j]);
        assert(sorted@.take(j + 1) =~= sorted@.take(j as int).push(sorted@[j as int]));
        j = j + 1;
    }
    assert(order::behind(shown@) =~= shown_recents(items@, expanded));
    shown
}

/// The tiles of the recent photos, each with how long ago it was added.
pub fn render_recents_tiles(items: &Vec<ExploreItem>, expanded: bool, now: i64) -> (r: Vec<Tile>)
    requires
        now >= 0,
        forall|k: int|
            0 <= k < shown_recents(items@, expanded).len() ==> (stamp_of(
                (#[trigger] shown_recents(items@, expanded)[k]).value@,
            ) matches Some(s) ==> is_countable(s)),
    ensures
        tile_texts(r@) == shown_recents(items@, expanded).map_values(
            |i: ExploreItem|
                TileText { label: relative_date(i.value@, now as int), asset_id: i.asset_id@ },
        ),
{
    let shown: Vec<&ExploreItem> = shown_recent_items(items, expanded);
    let ghost all = shown_recents(items@, expanded);
    let mut out: Vec<Tile> = Vec::new();
    let mut j: usize = 0;
    while j < shown.len()
        invariant
            j <= shown.len(),
            now >= 0,
            all == order::behind(shown@),
            forall|k: int|
                0 <= k < all.len() ==> (stamp_of((#[trigger] all[k]).value@) matches Some(s)
                    ==> is_countable(s)),
            out.len() == j,
            forall|k: int|
                0 <= k < j ==> (#[trigger] out@[k])@ == (TileText {
                    label: relative_date(all[k].value@, now as int),
                    asset_id: all[k].asset_id@,
                }),
        decreases shown.len() - j,
    {
        let item: &ExploreItem = shown[j];
        assert(all[j as int] == *item);
        out.push(
            Tile {
                label: format_relative_date(item.value.as_str(), now),
                asset_id: item.asset_id.clone(),
            },
        );
        j = j + 1;
    }
    assert(tile_texts(out@) =~= all.map_values(
        |i: ExploreItem|
            TileText { label: relative_date(i.value@, now as int), asset_id: i.asset_id@ },
    ));
    out
}

/// The label of the button that shows more recent photos; none where all are shown.
pub fn see_more_label(count: usize) -> (r: Option<String>)
    ensures
        r is Some <==> count > INITIAL_TILE_COUNT,
        r matches Some(label) ==> label@ == "See "@ + text::decimal(
            (if count < RECENTS_EXPANDED_COUNT {
                count as int
            } else {
                RECENTS_EXPANDED_COUNT as int
            } - INITIAL_TILE_COUNT) as nat,
        ) + " more"@,
{
    if count <= INITIAL_TILE_COUNT {
        return None;
    }
    let most: usize = if count < RECENTS_EXPANDED_COUNT {
        count
    } else {
        RECENTS_EXPANDED_COUNT
    };
    Some(concat3("See ", number((most - INITIAL_TILE_COUNT) as u64).as_str(), " more"))
}

/// A day has 86400 seconds.
pub proof fn next_day_is_a_day_later(stamp: Stamp)
    requires
        1 <= stamp.day < u32::MAX,
    ensures
        epoch_seconds(Stamp { day: (stamp.day + 1) as u32, ..stamp }) == epoch_seconds(stamp)
            + 86400,
{
}

/// The first of January follows the last of December, from 1970 on.
pub proof fn new_year_follows_december(year: i64)
    requires
        1970 <= year < i64::MAX,
    ensures
        epoch_seconds(
            Stamp { year: (year + 1) as i64, month: 1, day: 1, hour: 0, min: 0, sec: 0 },
        ) == epoch_seconds(Stamp { year, month: 12, day: 31, hour: 0, min: 0, sec: 0 }) + 86400,
{
    reveal_with_fuel(days_before_month, 13);
}

/// A person may be shown: not a hidden one or one without a name, unless that is wanted, and only one
/// whose name contains the searched text, without regard to case.
pub open spec fn may_be_shown(
    person: Person,
    show_hidden: bool,
    show_unnamed: bool,
    query: Seq<char>,
) -> bool {
    &&& person.is_hidden ==> show_hidden
    &&& person.name@.len() == 0 ==> show_unnamed
    &&& query.len() > 0 ==> text::occurs_in(text::lowered(person.name@), text::lowered(query))
}

/// The people row holds people that may be shown, in the order in which they came, at most forty; one
/// that may be shown is left out only where there are as many. The row is visible exactly where
/// anyone may be shown.
pub proof fn people_row_shows_who_may_be_shown(
    parts: &mut ExploreViewParts,
    people: Vec<Person>,
    settings: PeopleSettings,
    shown: Vec<Person>,
)
    requires
        call_ensures(populate_people, (parts, people, settings), shown),
    ensures
        final(parts).cached_people == people,
        final(parts).search_query == old(parts).search_query,
        !final(parts).people_loading,
        people_are_right(
            shown@,
            people@,
            settings,
            old(parts).search_query@,
            final(parts).people_visible,
        ),
{
    people_follow(*final(parts), settings, shown@);
}

/// A search in the people row shows, of the people that were fetched, those whose name contains the
/// text and that may be shown otherwise; the same text again changes nothing.
pub proof fn people_search_shows_who_matches(
    parts: &mut ExploreViewParts,
    query: &str,
    settings: PeopleSettings,
    r: Option<Vec<Person>>,
)
    requires
        call_ensures(set_people_search, (parts, query, settings), r),
    ensures
        final(parts).cached_people == old(parts).cached_people,
        final(parts).search_query@ == query@,
        r is Some <==> old(parts).people_ready && old(parts).search_query@ != query@,
        r matches Some(shown) ==> people_are_right(
            shown@,
            old(parts).cached_people@,
            settings,
            query@,
            final(parts).people_visible,
        ),
        r is None ==> final(parts).people_visible == old(parts).people_visible,
{
    if let Some(shown) = r {
        people_follow(*final(parts), settings, shown@);
    }
}

/// What the people row has to hold, whatever fills it: see [`people_row_shows_who_may_be_shown`].
pub open spec fn people_are_right(
    shown: Seq<Person>,
    people: Seq<Person>,
    settings: PeopleSettings,
    query: Seq<char>,
    visible: bool,
) -> bool {
    &&& shown.len() <= 40
    &&& forall|i: int|
        0 <= i < shown.len() ==> people.contains(#[trigger] shown[i]) && may_be_shown(
            shown[i],
            settings.show_hidden,
            settings.show_unnamed,
            query,
        )
    &&& forall|k: int|
        0 <= k < people.len() && may_be_shown(
            #[trigger] people[k],
            settings.show_hidden,
            settings.show_unnamed,
            query,
        ) ==> visible && (shown.contains(people[k]) || shown.len() == 40)
    &&& visible ==> exists|k: int|
        0 <= k < people.len() && may_be_shown(
            #[trigger] people[k],
            settings.show_hidden,
            settings.show_unnamed,
            query,
        )
    &&& forall|i: int, j: int|
        0 <= i < j < shown.len() ==> people_in_order(
            #[trigger] shown[i],
            #[trigger] shown[j],
            people,
        )
}

/// The first person stands before the second in the list.
pub open spec fn people_in_order(first: Person, second: Person, people: Seq<Person>) -> bool {
    exists|k: int, l: int|
        0 <= k < l < people.len() && #[trigger] people[k] == first && #[trigger] people[l]
            == second
}

proof fn people_follow(parts: ExploreViewParts, settings: PeopleSettings, shown: Seq<Person>)
    requires
        shows_people(parts, settings, shown),
        parts.people_ready,
    ensures
        people_are_right(
            shown,
            parts.cached_people@,
            settings,
            parts.search_query@,
            parts.people_visible,
        ),
{
    let people = parts.cached_people@;
    let query = parts.search_query@;
    let keep = |p: Person| is_shown(p, settings, query);
    let matching = people.filter(keep);
    seqs::filter_contents(people, keep);
    assert forall|i: int| 0 <= i < shown.len() implies people.contains(#[trigger] shown[i])
        && may_be_shown(shown[i], settings.show_hidden, settings.show_unnamed, query) by {
        assert(shown[i] == matching[i]);
        assert(matching.contains(shown[i]));
        assert(people.contains(shown[i]) && keep(shown[i]));
    }
    assert forall|k: int|
        0 <= k < people.len() && may_be_shown(
            #[trigger] people[k],
            settings.show_hidden,
            settings.show_unnamed,
            query,
        ) implies parts.people_visible && (shown.contains(people[k]) || shown.len() == 40) by {
        let p = people[k];
        assert(people.contains(p) && keep(p));
        assert(matching.contains(p));
        let i = matching.index_of(p);
        if matching.len() <= 40 {
            assert(shown[i] == p);
        }
    }
    if parts.people_visible {
        assert(matching.contains(matching[0]));
        let p = matching[0];
        assert(people.contains(p) && keep(p));
        let k = people.index_of(p);
        assert(people[k] == p);
        assert(may_be_shown(people[k], settings.show_hidden, settings.show_unnamed, query));
    }
    assert forall|i: int, j: int| 0 <= i < j < shown.len() implies people_in_order(
        #[trigger] shown[i],
        #[trigger] shown[j],
        people,
    ) by {
        let p = seqs::filter_places(people, keep, i, j);
        assert(people[p.0] == shown[i] && people[p.1] == shown[j]);
    }
}

/// The recent photos shown are the newest by their values, newest first: sixteen at first, thirty once
/// expanded, or all where there are fewer; each tile shows the asset of its item and how long ago it
/// was.
pub proof fn recents_are_the_newest(
    items: &Vec<ExploreItem>,
    expanded: bool,
    now: i64,
    shown: Vec<&ExploreItem>,
    tiles: Vec<Tile>,
    i: int,
    k: int,
    value: &str,
    label: String,
)
    requires
        call_ensures(shown_recent_items, (items, expanded), shown),
        call_ensures(render_recents_tiles, (items, expanded, now), tiles),
        0 <= i < shown@.len(),
        0 <= k < items@.len(),
        value@ == shown@[i].value@,
        call_ensures(format_relative_date, (value, now), label),
    ensures
        shown@.len() == if items@.len() < (if expanded {
            30int
        } else {
            16
        }) {
            items@.len() as int
        } else if expanded {
            30
        } else {
            16
        },
        items@.contains(*shown@[i]),
        forall|j: int|
            i < j < shown@.len() ==> text::text_le(
                (#[trigger] shown@[j]).value@,
                shown@[i].value@,
            ),
        (exists|j: int| 0 <= j < shown@.len() && *#[trigger] shown@[j] == items@[k])
            || text::text_le(items@[k].value@, shown@[i].value@),
        tiles@.len() == shown@.len(),
        tiles@[i].asset_id@ == shown@[i].asset_id@,
        tiles@[i].label@ == label@,
{
    let le = newest_value_first();
    let sorted = order::stable_sort(items@, le);
    let all = order::behind(shown@);
    newest_value_first_is_a_ranking();
    order::sort_keeps_elements(items@, le);
    assert(all == shown_recents(items@, expanded));
    assert(all.len() == shown@.len());
    assert(forall|j: int| 0 <= j < all.len() ==> all[j] == *#[trigger] shown@[j]);
    assert(forall|j: int| 0 <= j < all.len() ==> #[trigger] all[j] == sorted[j]);
    assert(*shown@[i] == sorted[i]);
    assert(sorted.contains(sorted[i]));
    assert forall|j: int| i < j < shown@.len() implies text::text_le(
        (#[trigger] shown@[j]).value@,
        shown@[i].value@,
    ) by {
        assert(*shown@[j] == all[j] && all[j] == sorted[j]);
        assert(le(sorted[i], sorted[j]));
    }
    assert(items@.contains(items@[k]));
    assert(sorted.contains(items@[k]));
    let j = sorted.index_of(items@[k]);
    if j < shown@.len() {
        assert(all[j] == sorted[j]);
        assert(*shown@[j] == items@[k]);
    } else {
        assert(le(sorted[i], sorted[j]));
    }
    let texts = tile_texts(tiles@);
    assert(texts.len() == tiles@.len());
    assert(texts[i] == tiles@[i]@);
    assert(texts[i].label == relative_date(all[i].value@, now as int));
}

/// How long ago a time is: under a minute, or in the future, "Just now"; then in whole minutes, hours
/// and days; from a week on its date.
pub proof fn age_is_told_in_whole_units(
    iso: &str,
    now: i64,
    stamp: Option<Stamp>,
    seconds: i64,
    label: String,
)
    requires
        call_ensures(parse_iso_date, (iso,), stamp),
        stamp is Some,
        call_ensures(compute_epoch_seconds, (stamp->0,), seconds),
        call_ensures(format_relative_date, (iso, now), label),
    ensures
        now - seconds < 60 ==> label@ == "Just now"@,
        60 <= now - seconds < 60 * 60 ==> label@ == text::decimal(((now - seconds) / 60) as nat)
            + " min ago"@,
        60 * 60 <= now - seconds < 24 * 60 * 60 ==> label@ == text::decimal(
            ((now - seconds) / 3600) as nat,
        ) + "h ago"@,
        24 * 60 * 60 <= now - seconds < 7 * 24 * 60 * 60 ==> label@ == text::decimal(
            ((now - seconds) / 86400) as nat,
        ) + "d ago"@,
        now - seconds >= 7 * 24 * 60 * 60 && stamp->0.year >= 1000 ==> label@ == text::decimal(
            stamp->0.year as nat,
        ) + "-"@ + text::decimal2(stamp->0.month as nat) + "-"@ + text::decimal2(
            stamp->0.day as nat,
        ),
{
}

/// The seconds count as the calendar does: from the start of 1970, a day has 86400 of them, a month
/// 31, 30, 28 or 29 days, and a year that is divisible by four, but not by a hundred unless by four
/// hundred, the 29th of February.
pub proof fn seconds_follow_the_calendar(
    at: Stamp,
    seconds: i64,
    next_month: i64,
    next_year: i64,
    start: i64,
)
    requires
        1970 <= at.year < i64::MAX,
        1 <= at.month <= 12,
        call_ensures(compute_epoch_seconds, (Stamp { day: 1, ..at },), seconds),
        call_ensures(
            compute_epoch_seconds,
            (Stamp { day: 1, month: (at.month + 1) as u32, ..at },),
            next_month,
        ),
        call_ensures(
            compute_epoch_seconds,
            (Stamp { day: 1, year: (at.year + 1) as i64, month: 1, ..at },),
            next_year,
        ),
        call_ensures(
            compute_epoch_seconds,
            (Stamp { year: 1970, month: 1, day: 1, hour: 0, min: 0, sec: 0 },),
            start,
        ),
    ensures
        start == 0,
        ({
            let leap = at.year % 4 == 0 && (at.year % 100 != 0 || at.year % 400 == 0);
            &&& next_month - seconds == 86400 * (if at.month == 2 {
                if leap {
                    29int
                } else {
                    28
                }
            } else if at.month == 4 || at.month == 6 || at.month == 9 || at.month == 11 {
                30
            } else {
                31
            })
            &&& at.month == 12 ==> next_year == next_month
        }),
{
    reveal_with_fuel(days_before_month, 13);
    reveal_with_fuel(days_before_year, 2);
    let year = at.year as int;
    assert(days_before_year(year + 1) == days_before_year(year) + if is_leap(year) {
        366nat
    } else {
        365
    });
}

/// A browse page has the people, and each other part exactly where it is wanted, none twice, always
/// in the same order from top to bottom.
pub proof fn browse_page_has_the_wanted_parts(
    opts: BrowseOptions,
    parts: Vec<BrowsePart>,
    part: BrowsePart,
)
    requires
        call_ensures(build_browse_view, (opts,), parts),
    ensures
        parts@.contains(part) <==> match part {
            BrowsePart::Lead => opts.has_lead,
            BrowsePart::LibraryActions => opts.include_library_actions,
            BrowsePart::People => true,
            BrowsePart::Places => opts.include_places,
            BrowsePart::Recents => opts.include_recents,
            BrowsePart::Things => opts.include_things,
            BrowsePart::Trail => opts.has_trail,
        },
        forall|a: int, b: int|
            0 <= a < b < parts@.len() ==> place_on_page(#[trigger] parts@[a]) < place_on_page(
                #[trigger] parts@[b],
            ),
{
    let a = part_if(opts.has_lead, BrowsePart::Lead);
    let b = a + part_if(opts.include_library_actions, BrowsePart::LibraryActions);
    let c = b + seq![BrowsePart::People];
    let d = c + part_if(opts.include_places, BrowsePart::Places);
    let e = d + part_if(opts.include_recents, BrowsePart::Recents);
    let f = e + part_if(opts.include_things, BrowsePart::Things);
    let g = f + part_if(opts.has_trail, BrowsePart::Trail);
    let none = Seq::<BrowsePart>::empty();
    assert(none + a =~= a);
    one_part_more(none, opts.has_lead, BrowsePart::Lead);
    one_part_more(a, opts.include_library_actions, BrowsePart::LibraryActions);
    one_part_more(b, true, BrowsePart::People);
    one_part_more(c, opts.include_places, BrowsePart::Places);
    one_part_more(d, opts.include_recents, BrowsePart::Recents);
    one_part_more(e, opts.include_things, BrowsePart::Things);
    one_part_more(f, opts.has_trail, BrowsePart::Trail);
    assert(parts@ == g);
    assert(!none.contains(part));
}

/// The parts stand in their order, and all before a place.
spec fn stands_before(parts: Seq<BrowsePart>, place: int) -> bool {
    &&& forall|a: int, b: int|
        0 <= a < b < parts.len() ==> place_on_page(#[trigger] parts[a]) < place_on_page(
            #[trigger] parts[b],
        )
    &&& forall|a: int| 0 <= a < parts.len() ==> place_on_page(#[trigger] parts[a]) < place
}

proof fn one_part_more(parts: Seq<BrowsePart>, wanted: bool, part: BrowsePart)
    requires
        stands_before(parts, place_on_page(part)),
    ensures
        stands_before(parts + part_if(wanted, part), place_on_page(part) + 1),
        forall|x: BrowsePart| #[trigger]
            (parts + part_if(wanted, part)).contains(x) <==> parts.contains(x) || (wanted && x
                == part),
{
    let more = parts + part_if(wanted, part);
    assert forall|x: BrowsePart| #[trigger] more.contains(x) <==> parts.contains(x) || (wanted && x
        == part) by {
        if more.contains(x) {
            let i = more.index_of(x);
            if i < parts.len() {
                assert(parts[i] == x);
            }
        }
        if parts.contains(x) {
            assert(more[parts.index_of(x)] == x);
        }
        if wanted && x == part {
            assert(more[parts.len() as int] == x);
        }
    }
}

/// The place of a part among all that a page can have.
pub open spec fn place_on_page(part: BrowsePart) -> int {
    match part {
        BrowsePart::Lead => 0,
        BrowsePart::LibraryActions => 1,
        BrowsePart::People => 2,
        BrowsePart::Places => 3,
        BrowsePart::Recents => 4,
        BrowsePart::Things => 5,
        BrowsePart::Trail => 6,
    }
}

/// The places are put on the map once, when there are any; a page without any says so.
pub proof fn places_are_put_on_the_map_once(
    first: &mut ExploreViewParts,
    second: &mut ExploreViewParts,
    markers: usize,
    put: bool,
    again: bool,
)
    requires
        !old(first).places_map_populated,
        call_ensures(populate_places, (first, markers), put),
        *old(second) == *final(first),
        call_ensures(render_cached_places, (second,), again),
    ensures
        put <==> markers > 0,
        put ==> final(first).places == PlacesState::Shown && !again,
        !put ==> final(first).places == PlacesState::Empty && !again,
        final(second).places == final(first).places,
        !final(first).places_loading,
{
}

/// What the explore page shows of a section goes by its name: a section on smart contents gives up to
/// 24 tiles, one for each item from the first on; sections of cities and unknown ones give none.
pub proof fn things_come_from_smart_sections(
    sections: &Vec<ExploreSection>,
    contents: ExploreContents,
    s: int,
    i: int,
)
    requires
        call_ensures(populate_explore, (sections,), contents),
        0 <= s < sections@.len(),
        "smartInfo"@.is_prefix_of(sections@[s].field_name@),
        !text::occurs_in(sections@[s].field_name@, "city"@),
        sections@[s].field_name@ != "createdAt"@,
        sections@[s].field_name@ != "updatedAt"@,
        0 <= i < sections@[s].items@.len(),
        i < 24,
    ensures
        contents.things_visible,
        exists|t: int|
            0 <= t < contents.things@.len() && (#[trigger] contents.things@[t]).label@
                == sections@[s].items@[i].value@ && contents.things@[t].asset_id@
                == sections@[s].items@[i].asset_id@,
{
    let pass = |x: ExploreSection| kind_of(x.field_name@) == SectionKind::Things;
    assert(pass(sections@[s]));
    let item = sections@[s].items@[i];
    let wanted = TileText { label: item.value@, asset_id: item.asset_id@ };
    let t = thing_is_among_all(sections@, s, i);
    let texts = tile_texts(contents.things@);
    assert(texts[t] == contents.things@[t]@);
    assert(contents.things@[t].label@ == wanted.label);
}

proof fn thing_is_among_all(sections: Seq<ExploreSection>, s: int, i: int) -> (t: int)
    requires
        0 <= s < sections.len(),
        kind_of(sections[s].field_name@) == SectionKind::Things,
        0 <= i < sections[s].items@.len(),
        i < 24,
    ensures
        0 <= t < all_thing_tiles(sections).len(),
        all_thing_tiles(sections)[t] == (TileText {
            label: sections[s].items@[i].value@,
            asset_id: sections[s].items@[i].asset_id@,
        }),
    decreases sections.len(),
{
    let front = sections.drop_last();
    if s < front.len() {
        thing_is_among_all(front, s, i)
    } else {
        let before = all_thing_tiles(front);
        let tiles = thing_tiles(sections.last().items@);
        assert(tiles[i] == all_thing_tiles(sections)[before.len() + i]);
        before.len() + i
    }
}

} // verus!
