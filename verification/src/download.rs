//! Downloads: names, conflicts with existing files, and what is said in the end.
use vstd::prelude::*;
use vstd::string::*;
use crate::album_actions::lists_text;
use crate::path;
use crate::path::{extension, file_name, file_stem, join_path};
use crate::sources::LibrarySource;
use crate::text;
use crate::text::{concat2, concat3, join, number, owned, same_text};

verus! {

/// The name a download is saved under: the safe form of the file name, else the asset's id.
pub fn target_name(safe_name: Option<String>, asset_id: &str) -> (r: String)
    ensures
        r@ == match safe_name {
            Some(name) => name@,
            None => asset_id@,
        },
{
    match safe_name {
        Some(name) => name,
        None => owned(asset_id),
    }
}

/// The name of the listed item: the last component of the path, else the path.
pub fn item_label(output_path: &str) -> (r: String)
    ensures
        r@ == match path::name_of(output_path@) {
            Some(name) => name,
            None => output_path@,
        },
{
    match file_name(output_path) {
        Some(name) => name,
        None => owned(output_path),
    }
}

/// What to do with a file that exists already.
#[derive(Clone, Copy, Debug, PartialEq, Eq, Structural)]
pub enum ConflictAction {
    Skip,
    Overwrite,
    Rename,
}

/// The action that an answer of the dialog stands for.
pub fn conflict_action(response: &str) -> (r: ConflictAction)
    ensures
        r == if response@ == "rename"@ {
            ConflictAction::Rename
        } else if response@ == "overwrite"@ {
            ConflictAction::Overwrite
        } else {
            ConflictAction::Skip
        },
{
    if same_text(response, "rename") {
        ConflictAction::Rename
    } else if same_text(response, "overwrite") {
        ConflictAction::Overwrite
    } else {
        ConflictAction::Skip
    }
}

/// The action after the user was asked: it becomes the rule where it is to hold for all the rest.
pub fn resolve_conflict(
    policy: &mut Option<ConflictAction>,
    answer: ConflictAction,
    apply_all: bool,
) -> (r: ConflictAction)
    ensures
        r == match *old(policy) {
            Some(rule) => rule,
            None => answer,
        },
        *final(policy) == if *old(policy) is None && apply_all {
            Some(answer)
        } else {
            *old(policy)
        },
{
    match *policy {
        Some(rule) => rule,
        None => {
            if apply_all {
                *policy = Some(answer);
            }
            answer
        },
    }
}

/// The last number that is tried for a free name.
pub const LAST_NUMBER: u32 = 999;

/// The `n`-th name next to a taken one: the number goes before the extension.
pub open spec fn numbered_sibling(filename: Seq<char>, n: nat) -> Seq<char> {
    let stem = match path::stem_of(filename) {
        Some(s) => s,
        None => filename,
    };
    match path::extension_of(filename) {
        Some(ext) => stem + " ("@ + text::decimal(n) + ")."@ + ext,
        None => stem + " ("@ + text::decimal(n) + ")"@,
    }
}

/// The path next to a taken one, for a number, or after the last one the path of a copy.
pub open spec fn sibling(dir: Seq<char>, filename: Seq<char>, n: nat) -> Seq<char> {
    path::joined_path(
        dir,
        if n <= LAST_NUMBER {
            numbered_sibling(filename, n)
        } else {
            filename + "_copy"@
        },
    )
}

fn sibling_name(filename: &str, n: u32) -> (r: String)
    ensures
        r@ == numbered_sibling(filename@, n as nat),
{
    let mut out: String = match file_stem(filename) {
        Some(s) => s,
        None => owned(filename),
    };
    out.append(" (");
    out.append(number(n as u64).as_str());
    match extension(filename) {
        Some(ext) => {
            out.append(").");
            out.append(ext.as_str());
        },
        None => {
            out.append(")");
        },
    }
    out
}

/// A path in the folder that nothing exists at: the first free numbered one, or, where none is
/// free, that of a copy. `existing` are the paths that exist.
pub fn unique_path(dir: &str, filename: &str, existing: &Vec<String>) -> (r: String)
    ensures
        exists|n: nat|
            1 <= n <= LAST_NUMBER + 1 && r@ == #[trigger] sibling(dir@, filename@, n) && (n
                <= LAST_NUMBER ==> !text::views(existing@).contains(r@)) && forall|m: nat|
                1 <= m < n ==> text::views(existing@).contains(
                    #[trigger] sibling(dir@, filename@, m),
                ),
{
    let mut n: u32 = 1;
    while n <= LAST_NUMBER
        invariant
            1 <= n <= LAST_NUMBER + 1,
            forall|m: nat|
                1 <= m < n ==> text::views(existing@).contains(
                    #[trigger] sibling(dir@, filename@, m),
                ),
        decreases LAST_NUMBER + 1 - n,
    {
        let candidate: String = join_path(dir, sibling_name(filename, n).as_str());
        assert(candidate@ == sibling(dir@, filename@, n as nat));
        if !lists_text(existing, candidate.as_str()) {
            return candidate;
        }
        n = n + 1;
    }
    let copy: String = join_path(dir, concat2(filename, "_copy").as_str());
    assert(copy@ == sibling(dir@, filename@, (LAST_NUMBER + 1) as nat));
    copy
}

/// What a batch does with one of its assets.
#[derive(Debug, PartialEq, Eq)]
pub enum BatchStep {
    Skip,
    Download { path: String },
}

/// The state of a batch of downloads.
#[derive(Clone, Copy, Debug, PartialEq, Eq, Structural)]
pub struct DownloadBatch {
    pub succeeded: u32,
    pub failed: u32,
    pub skipped: u32,
    /// The rule for all further conflicts.
    pub policy: Option<ConflictAction>,
}

impl DownloadBatch {
    /// A batch that has not begun.
    pub fn new() -> (r: Self)
        ensures
            r == (DownloadBatch { succeeded: 0, failed: 0, skipped: 0, policy: None }),
    {
        DownloadBatch { succeeded: 0, failed: 0, skipped: 0, policy: None }
    }

    /// How many assets are done.
    pub open spec fn done(self) -> int {
        self.succeeded + self.failed + self.skipped
    }

    /// Whether the user has to be asked about a file: where it exists and no rule was given.
    pub fn asks(&self, exists_already: bool) -> (r: bool)
        ensures
            r == (exists_already && self.policy is None),
    {
        exists_already && self.policy.is_none()
    }

    /// The next asset of the batch: downloaded to its path, unless that exists, in which case the
    /// rule or the user's answer decides. `existing` are the paths that exist.
    pub fn next(
        &mut self,
        dir: &str,
        safe_name: &str,
        existing: &Vec<String>,
        answer: ConflictAction,
        apply_all: bool,
    ) -> (r: BatchStep)
        requires
            old(self).done() < u32::MAX,
        ensures
            ({
                let plain = path::joined_path(dir@, safe_name@);
                let conflict = text::views(existing@).contains(plain);
                let action = match old(self).policy {
                    Some(rule) => rule,
                    None => answer,
                };
                &&& !conflict ==> *final(self) == *old(self) && (r matches BatchStep::Download {
                    path,
                } && path@ == plain)
                &&& conflict ==> final(self).policy == if old(self).policy is None && apply_all {
                    Some(answer)
                } else {
                    old(self).policy
                }
                &&& conflict && action == ConflictAction::Skip ==> r == BatchStep::Skip
                    && *final(self) == (DownloadBatch {
                    skipped: (old(self).skipped + 1) as u32,
                    policy: final(self).policy,
                    ..*old(self)
                })
                &&& conflict && action != ConflictAction::Skip ==> *final(self) == (DownloadBatch {
                    policy: final(self).policy,
                    ..*old(self)
                })
                &&& conflict && action == ConflictAction::Overwrite ==> (
                r matches BatchStep::Download { path } && path@ == plain)
                &&& conflict && action == ConflictAction::Rename ==> (
                r matches BatchStep::Download { path } && exists|n: nat|
                    1 <= n <= LAST_NUMBER + 1 && path@ == #[trigger] sibling(dir@, safe_name@, n)
                        && (n <= LAST_NUMBER ==> !text::views(existing@).contains(path@))
                        && forall|m: nat|
                        1 <= m < n ==> text::views(existing@).contains(
                            #[trigger] sibling(dir@, safe_name@, m),
                        ))
            }),
    {
        let plain: String = join_path(dir, safe_name);
        if !lists_text(existing, plain.as_str()) {
            return BatchStep::Download { path: plain };
        }
        match resolve_conflict(&mut self.policy, answer, apply_all) {
            ConflictAction::Skip => {
                self.skipped = self.skipped + 1;
                BatchStep::Skip
            },
            ConflictAction::Overwrite => BatchStep::Download { path: plain },
            ConflictAction::Rename => BatchStep::Download {
                path: unique_path(dir, safe_name, existing),
            },
        }
    }

    /// A download of the batch has ended.
    pub fn finished(&mut self, ok: bool)
        requires
            old(self).done() < u32::MAX,
        ensures
            final(self).done() == old(self).done() + 1,
            *final(self) == if ok {
                DownloadBatch { succeeded: (old(self).succeeded + 1) as u32, ..*old(self) }
            } else {
                DownloadBatch { failed: (old(self).failed + 1) as u32, ..*old(self) }
            },
    {
        if ok {
            self.succeeded = self.succeeded + 1;
        } else {
            self.failed = self.failed + 1;
        }
    }
}

/// The name of a folder in messages.
pub open spec fn folder_name(path: Seq<char>) -> Seq<char> {
    match path::name_of(path) {
        Some(name) => name,
        None => "selected folder"@,
    }
}

/// The name of a folder in messages.
pub fn folder_display_name(path: &str) -> (r: String)
    ensures
        r@ == folder_name(path@),
{
    match file_name(path) {
        Some(name) => name,
        None => owned("selected folder"),
    }
}

/// A message.
#[derive(Debug, PartialEq, Eq)]
pub struct Notice {
    pub heading: String,
    pub body: String,
}

/// The first line on what was downloaded.
pub open spec fn downloaded_line(succeeded: u32, folder: Seq<char>) -> Seq<char> {
    "Downloaded "@ + text::decimal(succeeded as nat) + " asset(s) to "@ + folder
}

/// The lines on a batch in which something was skipped or failed.
pub open spec fn summary_lines(
    succeeded: u32,
    failed: u32,
    skipped: u32,
    folder: Seq<char>,
) -> Seq<Seq<char>> {
    let first = seq![downloaded_line(succeeded, folder)];
    let second = if skipped > 0 {
        first.push(text::decimal(skipped as nat) + " skipped"@)
    } else {
        first
    };
    if failed > 0 {
        second.push(text::decimal(failed as nat) + " failed"@)
    } else {
        second
    }
}

/// What is said after a batch of downloads.
pub fn batch_summary(succeeded: u32, failed: u32, skipped: u32, target_dir: &str) -> (r: Notice)
    ensures
        ({
            let folder = folder_name(target_dir@);
            &&& r.heading@ == if succeeded == 0 && failed == 0 {
                "No Assets Downloaded"@
            } else if succeeded > 0 {
                "Download Complete"@
            } else {
                "Download Failed"@
            }
            &&& r.body@ == if succeeded == 0 && failed == 0 {
                "All "@ + text::decimal(skipped as nat) + " asset(s) were skipped"@
            } else {
                text::joined(summary_lines(succeeded, failed, skipped, folder), "\n"@)
            }
        }),
{
    let folder: String = folder_display_name(target_dir);
    if succeeded == 0 && failed == 0 {
        return Notice {
            heading: owned("No Assets Downloaded"),
            body: concat3("All ", number(skipped as u64).as_str(), " asset(s) were skipped"),
        };
    }
    let mut first: String = concat2("Downloaded ", number(succeeded as u64).as_str());
    first.append(" asset(s) to ");
    first.append(folder.as_str());
    let mut lines: Vec<String> = Vec::new();
    lines.push(first);
    assert(text::views(lines@) =~= seq![downloaded_line(succeeded, folder@)]);
    if skipped > 0 {
        let ghost before = text::views(lines@);
        lines.push(concat2(number(skipped as u64).as_str(), " skipped"));
        assert(text::views(lines@) =~= before.push(text::decimal(skipped as nat) + " skipped"@));
    }
    if failed > 0 {
        let ghost before = text::views(lines@);
        lines.push(concat2(number(failed as u64).as_str(), " failed"));
        assert(text::views(lines@) =~= before.push(text::decimal(failed as nat) + " failed"@));
    }
    Notice {
        heading: if succeeded > 0 {
            owned("Download Complete")
        } else {
            owned("Download Failed")
        },
        body: join(&lines, "\n"),
    }
}

/// What is said after a single download: the error where it failed.
pub fn download_notice(safe_name: &str, error: Option<String>) -> (r: Notice)
    ensures
        match error {
            None => r.heading@ == "Download Complete"@ && r.body@ == "Saved "@ + safe_name@,
            Some(e) => r.heading@ == "Download Failed"@ && r.body@ == e@,
        },
{
    match error {
        None => Notice {
            heading: owned("Download Complete"),
            body: concat2("Saved ", safe_name),
        },
        Some(e) => Notice { heading: owned("Download Failed"), body: e },
    }
}

/// The question whether a file is to be overwritten.
pub fn overwrite_question(filename: &str) -> (r: String)
    ensures
        r@ == "\""@ + filename@ + "\" already exists. Overwrite?"@,
{
    concat3("\"", filename, "\" already exists. Overwrite?")
}

/// The question what to do with a file of a batch.
pub fn conflict_question(filename: &str) -> (r: String)
    ensures
        r@ == "\""@ + filename@ + "\" already exists in the download folder."@,
{
    concat3("\"", filename, "\" already exists in the download folder.")
}

/// The source lists files on disk.
pub open spec fn lists_files(source: LibrarySource) -> bool {
    match source {
        LibrarySource::LocalAll => true,
        LibrarySource::LocalSearch { query } => true,
        LibrarySource::Unified => true,
        LibrarySource::UnifiedSearch { query } => true,
        LibrarySource::AlbumLocal { id, name } => true,
        LibrarySource::AlbumUnified { id, name } => true,
        _ => false,
    }
}

/// Whether the list has to be read again after a download: where it lists files on disk.
pub fn should_refresh_after_download(source: &LibrarySource) -> (r: bool)
    ensures
        r == lists_files(*source),
{
    match source {
        LibrarySource::LocalAll => true,
        LibrarySource::LocalSearch { query: _ } => true,
        LibrarySource::Unified => true,
        LibrarySource::UnifiedSearch { query: _ } => true,
        LibrarySource::AlbumLocal { id: _, name: _ } => true,
        LibrarySource::AlbumUnified { id: _, name: _ } => true,
        _ => false,
    }
}

/// Whether the library is refreshed after a download: once the whole session has succeeded, where
/// files on disk are listed.
pub fn refreshes_library(ok: bool, session_active: bool, source: &LibrarySource) -> (r: bool)
    ensures
        r == (ok && !session_active && lists_files(*source)),
{
    ok && !session_active && should_refresh_after_download(source)
}

/// The label of a session of several downloads.
pub fn group_label(count: usize) -> (r: String)
    ensures
        r@ == text::decimal(count as nat) + " items"@,
{
    concat2(number(count as u64).as_str(), " items")
}

/// The question whether a folder is to be the default.
pub fn default_folder_question(path: &str) -> (r: String)
    ensures
        r@ == "Always download to "@ + path@ + "?"@,
{
    concat3("Always download to ", path, "?")
}

proof fn joined_names_agree(dir: Seq<char>, x: Seq<char>, y: Seq<char>)
    requires
        x.len() > 0,
        y.len() > 0,
        x[0] == y[0],
        path::joined_path(dir, x) == path::joined_path(dir, y),
    ensures
        x == y,
{
    let base = if dir.len() == 0 || x[0] == '/' {
        Seq::empty()
    } else if dir.last() == '/' {
        dir
    } else {
        dir + "/"@
    };
    let whole = path::joined_path(dir, x);
    assert(whole =~= base + x);
    assert(whole =~= base + y);
    assert(x =~= whole.skip(base.len() as int));
    assert(y =~= whole.skip(base.len() as int));
}

proof fn sibling_numbers_agree(filename: Seq<char>, a: nat, b: nat)
    requires
        numbered_sibling(filename, a) == numbered_sibling(filename, b),
    ensures
        a == b,
{
    let stem = match path::stem_of(filename) {
        Some(s) => s,
        None => filename,
    };
    let tail = match path::extension_of(filename) {
        Some(ext) => ")."@ + ext,
        None => ")"@,
    };
    let front = stem + " ("@;
    assert(numbered_sibling(filename, a) =~= front + text::decimal(a) + tail);
    assert(numbered_sibling(filename, b) =~= front + text::decimal(b) + tail);
    let x = text::decimal(a);
    let y = text::decimal(b);
    let whole = front + x + tail;
    assert(whole == front + y + tail);
    assert(x.len() == y.len());
    let n = front.len() as int;
    assert(x =~= whole.subrange(n, n + x.len()));
    assert(y =~= whole.subrange(n, n + y.len()));
    text::decimal_is_injective(a, b);
}

/// Two numbers give two paths next to a taken one.
pub proof fn numbered_paths_differ(dir: Seq<char>, filename: Seq<char>, a: nat, b: nat)
    requires
        1 <= a <= LAST_NUMBER,
        1 <= b <= LAST_NUMBER,
        a != b,
    ensures
        sibling(dir, filename, a) != sibling(dir, filename, b),
{
    let x = numbered_sibling(filename, a);
    let y = numbered_sibling(filename, b);
    if sibling(dir, filename, a) == sibling(dir, filename, b) {
        let stem = match path::stem_of(filename) {
            Some(s) => s,
            None => filename,
        };
        let front = stem + " ("@;
        reveal_strlit(" (");
        assert(front.len() > 0);
        assert(x[0] == front[0]);
        assert(y[0] == front[0]);
        joined_names_agree(dir, x, y);
        sibling_numbers_agree(filename, a, b);
    }
}

/// The `n`-th name next to a taken one: "name (n).ext", or "name (n)" without an extension.
pub open spec fn is_numbered(name: Seq<char>, filename: Seq<char>, n: nat) -> bool {
    let stem = match path::stem_of(filename) {
        Some(s) => s,
        None => filename,
    };
    name == stem + " ("@ + text::decimal(n) + ")"@ + match path::extension_of(filename) {
        Some(ext) => "."@ + ext,
        None => Seq::<char>::empty(),
    }
}

/// The path lies in the folder, under the first numbered name that is free; under the name with
/// "_copy" behind it where all numbers from one to 999 are taken.
pub open spec fn is_free_or_copy(
    path: Seq<char>,
    dir: Seq<char>,
    filename: Seq<char>,
    existing: Seq<Seq<char>>,
) -> bool {
    ||| is_first_free(path, dir, filename, existing)
    ||| path == path::joined_path(dir, filename + "_copy"@) && all_taken(
        dir,
        filename,
        existing,
        1000,
    )
}

/// Every numbered name below `end` is taken.
pub open spec fn all_taken(
    dir: Seq<char>,
    filename: Seq<char>,
    existing: Seq<Seq<char>>,
    end: nat,
) -> bool {
    forall|m: nat, name: Seq<char>|
        1 <= m < end && #[trigger] is_numbered(name, filename, m) ==> existing.contains(
            path::joined_path(dir, name),
        )
}

/// The path is that of the first free numbered name.
pub open spec fn is_first_free(
    path: Seq<char>,
    dir: Seq<char>,
    filename: Seq<char>,
    existing: Seq<Seq<char>>,
) -> bool {
    &&& !existing.contains(path)
    &&& exists|n: nat, name: Seq<char>|
        1 <= n <= 999 && #[trigger] is_numbered(name, filename, n) && path == path::joined_path(
            dir,
            name,
        ) && all_taken(dir, filename, existing, n)
}

proof fn sibling_is_numbered(filename: Seq<char>, n: nat)
    ensures
        is_numbered(numbered_sibling(filename, n), filename, n),
{
    reveal_strlit(").");
    reveal_strlit(")");
    reveal_strlit(".");
    let stem = match path::stem_of(filename) {
        Some(s) => s,
        None => filename,
    };
    let front = stem + " ("@ + text::decimal(n);
    assert(")."@ =~= ")"@ + "."@);
    match path::extension_of(filename) {
        Some(ext) => {
            assert(front + ")."@ + ext =~= front + ")"@ + ("."@ + ext));
        },
        None => {
            assert(front + ")"@ =~= front + ")"@ + Seq::<char>::empty());
        },
    }
}

proof fn free_sibling(dir: Seq<char>, filename: Seq<char>, existing: Seq<Seq<char>>, n: nat)
    requires
        1 <= n <= LAST_NUMBER + 1,
        n <= LAST_NUMBER ==> !existing.contains(sibling(dir, filename, n)),
        forall|m: nat| 1 <= m < n ==> existing.contains(#[trigger] sibling(dir, filename, m)),
    ensures
        is_free_or_copy(sibling(dir, filename, n), dir, filename, existing),
{
    assert(all_taken(dir, filename, existing, n)) by {
        assert forall|m: nat, name: Seq<char>|
            1 <= m < n && #[trigger] is_numbered(name, filename, m) implies existing.contains(
            path::joined_path(dir, name),
        ) by {
            sibling_is_numbered(filename, m);
            assert(existing.contains(sibling(dir, filename, m)));
        }
    }
    sibling_is_numbered(filename, n);
}

/// A taken name gives way to the first free numbered one.
pub proof fn taken_name_gives_way(dir: &str, filename: &str, existing: &Vec<String>, r: String)
    requires
        call_ensures(unique_path, (dir, filename, existing), r),
    ensures
        is_free_or_copy(r@, dir@, filename@, text::views(existing@)),
{
    let n = choose|n: nat|
        1 <= n <= LAST_NUMBER + 1 && r@ == #[trigger] sibling(dir@, filename@, n) && (n
            <= LAST_NUMBER ==> !text::views(existing@).contains(r@)) && forall|m: nat|
            1 <= m < n ==> text::views(existing@).contains(
                #[trigger] sibling(dir@, filename@, m),
            );
    free_sibling(dir@, filename@, text::views(existing@), n);
}

/// A batch writes over an existing file only where the rule, or else the answer, says "overwrite". It
/// skips an asset only where its file exists and the rule or the answer says "skip". A rule, once
/// given, stays, and nobody is asked any more.
pub proof fn batch_keeps_existing_files(
    batch: &mut DownloadBatch,
    dir: &str,
    name: &str,
    existing: &Vec<String>,
    answer: ConflictAction,
    apply_all: bool,
    step: BatchStep,
    asks_again: bool,
)
    requires
        old(batch).succeeded + old(batch).failed + old(batch).skipped < u32::MAX,
        call_ensures(
            DownloadBatch::next,
            (batch, dir, name, existing, answer, apply_all),
            step,
        ),
        call_ensures(DownloadBatch::asks, (&*final(batch), true), asks_again),
    ensures
        ({
            let taken = text::views(existing@);
            let plain = path::joined_path(dir@, name@);
            let action = if old(batch).policy is Some {
                old(batch).policy->0
            } else {
                answer
            };
            match step {
                BatchStep::Skip => {
                    &&& taken.contains(plain)
                    &&& action == ConflictAction::Skip
                    &&& final(batch).skipped == old(batch).skipped + 1
                },
                BatchStep::Download { path } => {
                    &&& final(batch).skipped == old(batch).skipped
                    &&& !taken.contains(plain) ==> path@ == plain
                    &&& taken.contains(plain) && action == ConflictAction::Overwrite ==> path@
                        == plain
                    &&& taken.contains(plain) && action == ConflictAction::Rename
                        ==> is_free_or_copy(path@, dir@, name@, taken)
                    &&& taken.contains(plain) ==> action != ConflictAction::Skip
                },
            }
        }),
        final(batch).succeeded == old(batch).succeeded,
        final(batch).failed == old(batch).failed,
        old(batch).policy is Some ==> final(batch).policy == old(batch).policy,
        asks_again <==> final(batch).policy is None,
        text::views(existing@).contains(path::joined_path(dir@, name@)) && apply_all && old(
            batch,
        ).policy is None ==> final(batch).policy == Some(answer),
        !apply_all ==> final(batch).policy == old(batch).policy,
{
    let taken = text::views(existing@);
    let plain = path::joined_path(dir@, name@);
    let action = match old(batch).policy {
        Some(rule) => rule,
        None => answer,
    };
    if taken.contains(plain) && action == ConflictAction::Rename {
        let path = step->path;
        let n = choose|n: nat|
            1 <= n <= LAST_NUMBER + 1 && path@ == #[trigger] sibling(dir@, name@, n) && (n
                <= LAST_NUMBER ==> !taken.contains(path@)) && forall|m: nat|
                1 <= m < n ==> taken.contains(#[trigger] sibling(dir@, name@, m));
        free_sibling(dir@, name@, taken, n);
    }
}

/// The library is read again after a download exactly where its pages list the files of watched
/// folders, the download succeeded and no other is under way.
pub proof fn refresh_follows_the_pages(
    ok: bool,
    active: bool,
    source: &LibrarySource,
    order: Option<String>,
    plan: crate::sources::PagePlan,
    refreshes: bool,
)
    requires
        call_ensures(crate::sources::plan_source_page, (*source, 1u32, order), plan),
        call_ensures(refreshes_library, (ok, active, source), refreshes),
    ensures
        refreshes <==> ok && !active && (plan is LocalFiles || plan is LinkedFiles || plan is Unified
            || plan is AlbumUnified),
{
}

} // verus!
