//! The directory listing: from the entries of a directory to the data that
//! the listing page is rendered from.
//!
//! Entries that cannot be shown are passed over one by one; a listing is
//! never given up because of a single entry. Directories and files are
//! sorted apart, each by name and then by time of modification.

use crate::category::{file_category, get_file_type, FileCategory};
use crate::config::ServerConfig;
use crate::decode::{decode_for_display, decoded_or_notice};
use crate::path::{begins_with_dot, is_dot_segment};
use crate::sort::{
    entry_le, key_fn, key_of, lemma_sort_by, lemma_sort_by_map, lemma_sorted_is_unique, sort,
    sort_by, sorted_by, Keyed, SortKey,
};
use crate::text::{copy_of, split, split_text, views};
use crate::timefmt::{show_time, shown_time};
use vstd::prelude::*;

verus! {

/// What kind of thing a directory entry is.
#[derive(Clone, Copy, Debug, PartialEq, Eq, Structural)]
pub enum EntryKind {
    Directory,
    File,
    /// Neither a directory nor a regular file.
    Other,
}

/// What the file system tells of a directory entry.
#[derive(Clone, Copy, Debug, PartialEq, Eq)]
pub struct EntryMeta {
    pub kind: EntryKind,
    /// The size in bytes; read for files only.
    pub size: u64,
    /// The time of the last modification, in seconds since the epoch;
    /// absent where the file system could not tell.
    pub modified_at: Option<i64>,
}

/// A directory entry as enumeration found it.
#[derive(Clone, Debug, PartialEq, Eq)]
pub struct RawEntry {
    /// The name; absent where it is not text.
    pub name: Option<String>,
    /// The metadata; absent where it could not be read.
    pub meta: Option<EntryMeta>,
}

/// A directory entry as contracts speak of it.
pub struct RawEntryView {
    pub name: Option<Seq<char>>,
    pub meta: Option<EntryMeta>,
}

impl View for RawEntry {
    type V = RawEntryView;

    open spec fn view(&self) -> RawEntryView {
        RawEntryView {
            name: match self.name {
                Some(n) => Some(n@),
                None => None,
            },
            meta: self.meta,
        }
    }
}

/// The row of a directory.
#[derive(Clone, Debug, PartialEq, Eq)]
pub struct DirRow {
    pub name: String,
    /// Seconds since the epoch.
    pub modified_at: i64,
    /// `modified_at` as the page shows it.
    pub modified: String,
}

/// The row of a directory as contracts speak of it.
pub struct DirRowView {
    pub name: Seq<char>,
    pub modified_at: i64,
    pub modified: Seq<char>,
}

impl View for DirRow {
    type V = DirRowView;

    open spec fn view(&self) -> DirRowView {
        DirRowView { name: self.name@, modified_at: self.modified_at, modified: self.modified@ }
    }
}

/// The row of a file.
#[derive(Clone, Debug, PartialEq, Eq)]
pub struct FileRow {
    pub name: String,
    pub size: u64,
    pub category: FileCategory,
    /// Seconds since the epoch.
    pub modified_at: i64,
    /// `modified_at` as the page shows it.
    pub modified: String,
}

/// The row of a file as contracts speak of it.
pub struct FileRowView {
    pub name: Seq<char>,
    pub size: u64,
    pub category: FileCategory,
    pub modified_at: i64,
    pub modified: Seq<char>,
}

impl View for FileRow {
    type V = FileRowView;

    open spec fn view(&self) -> FileRowView {
        FileRowView {
            name: self.name@,
            size: self.size,
            category: self.category,
            modified_at: self.modified_at,
            modified: self.modified@,
        }
    }
}

impl Keyed for DirRow {
    open spec fn key(&self) -> SortKey {
        key_of(self.name@, self.modified_at as int)
    }

    fn may_precede(&self, other: &Self) -> (b: bool) {
        entry_le(self.name.as_str(), self.modified_at, other.name.as_str(), other.modified_at)
    }
}

impl Keyed for FileRow {
    open spec fn key(&self) -> SortKey {
        key_of(self.name@, self.modified_at as int)
    }

    fn may_precede(&self, other: &Self) -> (b: bool) {
        entry_le(self.name.as_str(), self.modified_at, other.name.as_str(), other.modified_at)
    }
}

/// What a listing page is rendered from.
#[derive(Clone, Debug, PartialEq, Eq)]
pub struct ListingData {
    /// The last breadcrumb, or `/` for the root.
    pub title: String,
    /// The breadcrumbs: the decoded pieces of the request path.
    pub paths: Vec<String>,
    pub dirs: Vec<DirRow>,
    pub files: Vec<FileRow>,
}

/// A listing as contracts speak of it.
pub struct ListingView {
    pub title: Seq<char>,
    pub paths: Seq<Seq<char>>,
    pub dirs: Seq<DirRowView>,
    pub files: Seq<FileRowView>,
}

/// The view of a directory row, as a function.
pub open spec fn dir_view() -> spec_fn(DirRow) -> DirRowView {
    |r: DirRow| r@
}

/// The view of a file row, as a function.
pub open spec fn file_view() -> spec_fn(FileRow) -> FileRowView {
    |r: FileRow| r@
}

/// The key of a directory row, as a function of its view.
pub open spec fn dir_key() -> spec_fn(DirRowView) -> SortKey {
    |r: DirRowView| key_of(r.name, r.modified_at as int)
}

/// The key of a file row, as a function of its view.
pub open spec fn file_key() -> spec_fn(FileRowView) -> SortKey {
    |r: FileRowView| key_of(r.name, r.modified_at as int)
}

impl View for ListingData {
    type V = ListingView;

    open spec fn view(&self) -> ListingView {
        ListingView {
            title: self.title@,
            paths: views(self.paths@),
            dirs: self.dirs@.map_values(dir_view()),
            files: self.files@.map_values(file_view()),
        }
    }
}

/// The views of the entries of `v`, in order.
pub open spec fn entry_views(v: Seq<RawEntry>) -> Seq<RawEntryView> {
    v.map_values(|e: RawEntry| e@)
}

/// The decoded pieces that are not empty, in order.
pub open spec fn crumbs_of(pieces: Seq<Seq<char>>) -> Seq<Seq<char>>
    decreases pieces.len(),
{
    if pieces.len() == 0 {
        Seq::empty()
    } else {
        let before = crumbs_of(pieces.drop_last());
        let crumb = decoded_or_notice(pieces.last());
        if crumb.len() == 0 {
            before
        } else {
            before.push(crumb)
        }
    }
}

/// The breadcrumbs of the raw request path `raw_path`: its pieces between
/// slashes, each decoded, the empty ones left out.
pub open spec fn breadcrumbs_of(raw_path: Seq<char>) -> Seq<Seq<char>> {
    crumbs_of(split(raw_path, '/'))
}

/// The title of the page with these breadcrumbs: the last of them, and `/`
/// where there is none.
pub open spec fn title_of(crumbs: Seq<Seq<char>>) -> Seq<char> {
    if crumbs.len() == 0 {
        "/"@
    } else {
        crumbs.last()
    }
}

/// The name, metadata and time of an entry that is shown: one whose name is
/// text and, unless dotfiles are shown, begins with no dot, and whose
/// metadata and time of modification could be read.
pub open spec fn listed(e: RawEntryView, show_dotfiles: bool) -> Option<(Seq<char>, EntryMeta, i64)> {
    match e.name {
        None => None,
        Some(name) => if !show_dotfiles && is_dot_segment(name) {
            None
        } else {
            match e.meta {
                None => None,
                Some(meta) => match meta.modified_at {
                    None => None,
                    Some(at) => Some((name, meta, at)),
                },
            }
        },
    }
}

/// The row of the entry `e`, if it is a directory that is shown.
pub open spec fn dir_row_of(e: RawEntryView, show_dotfiles: bool) -> Option<DirRowView> {
    match listed(e, show_dotfiles) {
        Some((name, meta, at)) => if meta.kind == EntryKind::Directory {
            Some(DirRowView { name, modified_at: at, modified: shown_time(at as int) })
        } else {
            None
        },
        None => None,
    }
}

/// The row of the entry `e`, if it is a file that is shown.
pub open spec fn file_row_of(e: RawEntryView, show_dotfiles: bool) -> Option<FileRowView> {
    match listed(e, show_dotfiles) {
        Some((name, meta, at)) => if meta.kind == EntryKind::File {
            Some(
                FileRowView {
                    name,
                    size: meta.size,
                    category: file_category(name),
                    modified_at: at,
                    modified: shown_time(at as int),
                },
            )
        } else {
            None
        },
        None => None,
    }
}

/// The rows of the directories among `entries`, in the order of the entries.
pub open spec fn dir_rows(entries: Seq<RawEntryView>, show_dotfiles: bool) -> Seq<DirRowView>
    decreases entries.len(),
{
    if entries.len() == 0 {
        Seq::empty()
    } else {
        let before = dir_rows(entries.drop_last(), show_dotfiles);
        match dir_row_of(entries.last(), show_dotfiles) {
            Some(row) => before.push(row),
            None => before,
        }
    }
}

/// The rows of the files among `entries`, in the order of the entries.
pub open spec fn file_rows(entries: Seq<RawEntryView>, show_dotfiles: bool) -> Seq<FileRowView>
    decreases entries.len(),
{
    if entries.len() == 0 {
        Seq::empty()
    } else {
        let before = file_rows(entries.drop_last(), show_dotfiles);
        match file_row_of(entries.last(), show_dotfiles) {
            Some(row) => before.push(row),
            None => before,
        }
    }
}

/// The listing of a directory with the entries `entries`, asked for under
/// the raw request path `raw_path`.
pub open spec fn listing_of(
    show_dotfiles: bool,
    raw_path: Seq<char>,
    entries: Seq<RawEntryView>,
) -> ListingView {
    ListingView {
        title: title_of(breadcrumbs_of(raw_path)),
        paths: breadcrumbs_of(raw_path),
        dirs: sort_by(dir_rows(entries, show_dotfiles), dir_key()),
        files: sort_by(file_rows(entries, show_dotfiles), file_key()),
    }
}

/// Every row of a listing stands for an entry that is shown: no entry with
/// a dotted name makes it into a listing unless dotfiles are shown.
pub proof fn lemma_rows_are_listed(entries: Seq<RawEntryView>, show_dotfiles: bool)
    ensures
        forall|k: int|
            0 <= k < dir_rows(entries, show_dotfiles).len() ==> (show_dotfiles || !is_dot_segment(
                (#[trigger] dir_rows(entries, show_dotfiles)[k]).name,
            )),
        forall|k: int|
            0 <= k < file_rows(entries, show_dotfiles).len() ==> (show_dotfiles || !is_dot_segment(
                (#[trigger] file_rows(entries, show_dotfiles)[k]).name,
            )),
        dir_rows(entries, show_dotfiles).len() + file_rows(entries, show_dotfiles).len()
            <= entries.len(),
    decreases entries.len(),
{
    if entries.len() > 0 {
        let init = entries.drop_last();
        lemma_rows_are_listed(init, show_dotfiles);
        let d = dir_rows(entries, show_dotfiles);
        let f = file_rows(entries, show_dotfiles);
        assert forall|k: int| 0 <= k < d.len() implies (show_dotfiles || !is_dot_segment(
            (#[trigger] d[k]).name,
        )) by {
            if k < dir_rows(init, show_dotfiles).len() {
                assert(d[k] == dir_rows(init, show_dotfiles)[k]);
            }
        }
        assert forall|k: int| 0 <= k < f.len() implies (show_dotfiles || !is_dot_segment(
            (#[trigger] f[k]).name,
        )) by {
            if k < file_rows(init, show_dotfiles).len() {
                assert(f[k] == file_rows(init, show_dotfiles)[k]);
            }
        }
    }
}

/// In every listing the directories and the files are each in ascending order
/// of name and then of time, and they are the rows of the entries that are
/// shown: none is lost and none is added.
pub proof fn lemma_listing_is_sorted(
    show_dotfiles: bool,
    raw_path: Seq<char>,
    entries: Seq<RawEntryView>,
)
    ensures
        sorted_by(listing_of(show_dotfiles, raw_path, entries).dirs, dir_key()),
        sorted_by(listing_of(show_dotfiles, raw_path, entries).files, file_key()),
        listing_of(show_dotfiles, raw_path, entries).dirs.to_multiset() == dir_rows(
            entries,
            show_dotfiles,
        ).to_multiset(),
        listing_of(show_dotfiles, raw_path, entries).files.to_multiset() == file_rows(
            entries,
            show_dotfiles,
        ).to_multiset(),
{
    lemma_sort_by(dir_rows(entries, show_dotfiles), dir_key());
    lemma_sort_by(file_rows(entries, show_dotfiles), file_key());
}

/// What `f` makes of the elements of `s`, in their order; an element of
/// which it makes nothing is left out.
pub open spec fn collect<A, B>(s: Seq<A>, f: spec_fn(A) -> Option<B>) -> Seq<B>
    decreases s.len(),
{
    if s.len() == 0 {
        Seq::empty()
    } else {
        let before = collect(s.drop_last(), f);
        match f(s.last()) {
            Some(b) => before.push(b),
            None => before,
        }
    }
}

/// The row of a directory, as a function of the entry.
pub open spec fn dir_row_fn(show_dotfiles: bool) -> spec_fn(RawEntryView) -> Option<DirRowView> {
    |e: RawEntryView| dir_row_of(e, show_dotfiles)
}

/// The row of a file, as a function of the entry.
pub open spec fn file_row_fn(show_dotfiles: bool) -> spec_fn(RawEntryView) -> Option<
    FileRowView,
> {
    |e: RawEntryView| file_row_of(e, show_dotfiles)
}

/// The rows are what the row functions make of the entries.
pub proof fn lemma_rows_are_collected(entries: Seq<RawEntryView>, show_dotfiles: bool)
    ensures
        dir_rows(entries, show_dotfiles) == collect(entries, dir_row_fn(show_dotfiles)),
        file_rows(entries, show_dotfiles) == collect(entries, file_row_fn(show_dotfiles)),
    decreases entries.len(),
{
    if entries.len() > 0 {
        lemma_rows_are_collected(entries.drop_last(), show_dotfiles);
    }
}

/// Everything collected was made of some element.
pub proof fn lemma_collect_members<A, B>(s: Seq<A>, f: spec_fn(A) -> Option<B>)
    ensures
        forall|k: int|
            0 <= k < collect(s, f).len() ==> exists|i: int|
                0 <= i < s.len() && f(#[trigger] s[i]) == Some(#[trigger] collect(s, f)[k]),
    decreases s.len(),
{
    if s.len() > 0 {
        let init = s.drop_last();
        lemma_collect_members(init, f);
        let all = collect(s, f);
        let before = collect(init, f);
        assert forall|k: int| 0 <= k < all.len() implies exists|i: int|
            0 <= i < s.len() && f(#[trigger] s[i]) == Some(#[trigger] all[k]) by {
            if k < before.len() {
                assert(all[k] == before[k]);
                let i = choose|i: int| 0 <= i < init.len() && f(#[trigger] init[i]) == Some(
                    before[k],
                );
                assert(s[i] == init[i]);
            } else {
                assert(f(s[s.len() - 1]) == Some(all[k]));
            }
        }
    }
}

/// Taking one element away takes away what was made of it, and nothing else.
pub proof fn lemma_collect_remove<A, B>(s: Seq<A>, f: spec_fn(A) -> Option<B>, j: int)
    requires
        0 <= j < s.len(),
    ensures
        collect(s, f).to_multiset() == (match f(s[j]) {
            Some(b) => collect(s.remove(j), f).to_multiset().insert(b),
            None => collect(s.remove(j), f).to_multiset(),
        }),
    decreases s.len(),
{
    let init = s.drop_last();
    let last = s.last();
    if j == s.len() - 1 {
        assert(s.remove(j) =~= init);
        match f(last) {
            Some(b) => {
                vstd::seq_lib::to_multiset_build(collect(init, f), b);
            },
            None => {},
        }
    } else {
        let rest = s.remove(j);
        assert(rest.drop_last() =~= init.remove(j));
        assert(rest.last() == last);
        assert(init[j] == s[j]);
        lemma_collect_remove(init, f, j);
        match f(last) {
            Some(b) => {
                vstd::seq_lib::to_multiset_build(collect(init, f), b);
                vstd::seq_lib::to_multiset_build(collect(init.remove(j), f), b);
                match f(s[j]) {
                    Some(c) => {
                        assert(collect(init.remove(j), f).to_multiset().insert(c).insert(b)
                            =~= collect(init.remove(j), f).to_multiset().insert(b).insert(c));
                    },
                    None => {},
                }
            },
            None => {},
        }
    }
}

/// What is collected from the same elements in another order is the same,
/// in another order.
pub proof fn lemma_collect_rearranged<A, B>(s: Seq<A>, t: Seq<A>, f: spec_fn(A) -> Option<B>)
    requires
        s.to_multiset() == t.to_multiset(),
    ensures
        collect(s, f).to_multiset() == collect(t, f).to_multiset(),
    decreases s.len(),
{
    vstd::seq_lib::to_multiset_len(s);
    vstd::seq_lib::to_multiset_len(t);
    if s.len() == 0 {
        assert(t =~= s);
    } else {
        let n = s.len() - 1;
        let x = s[n];
        assert(s.contains(x));
        vstd::seq_lib::to_multiset_contains(s, x);
        vstd::seq_lib::to_multiset_contains(t, x);
        let j = choose|j: int| 0 <= j < t.len() && t[j] == x;
        vstd::seq_lib::to_multiset_remove(s, n);
        vstd::seq_lib::to_multiset_remove(t, j);
        lemma_collect_rearranged(s.remove(n), t.remove(j), f);
        lemma_collect_remove(s, f, n);
        lemma_collect_remove(t, f, j);
    }
}

/// The order in which a directory hands out its children makes no
/// difference to its listing: the same children, whose names differ from
/// each other, give the same listing in whatever order they come.
pub proof fn lemma_listing_ignores_enumeration_order(
    show_dotfiles: bool,
    raw_path: Seq<char>,
    entries: Seq<RawEntryView>,
    rearranged: Seq<RawEntryView>,
)
    requires
        entries.to_multiset() == rearranged.to_multiset(),
        forall|i: int, j: int|
            0 <= i < j < entries.len() && (#[trigger] entries[i]).name is Some ==> entries[i].name
                != (#[trigger] entries[j]).name,
    ensures
        listing_of(show_dotfiles, raw_path, entries) == listing_of(
            show_dotfiles,
            raw_path,
            rearranged,
        ),
{
    let dirs = dir_rows(entries, show_dotfiles);
    let files = file_rows(entries, show_dotfiles);
    let dirs_again = dir_rows(rearranged, show_dotfiles);
    let files_again = file_rows(rearranged, show_dotfiles);
    lemma_rows_are_collected(entries, show_dotfiles);
    lemma_rows_are_collected(rearranged, show_dotfiles);
    lemma_collect_rearranged(entries, rearranged, dir_row_fn(show_dotfiles));
    lemma_collect_rearranged(entries, rearranged, file_row_fn(show_dotfiles));
    lemma_collect_members(entries, dir_row_fn(show_dotfiles));
    lemma_collect_members(entries, file_row_fn(show_dotfiles));
    lemma_sort_by(dirs, dir_key());
    lemma_sort_by(dirs_again, dir_key());
    lemma_sort_by(files, file_key());
    lemma_sort_by(files_again, file_key());
    let sorted_dirs = sort_by(dirs, dir_key());
    let sorted_files = sort_by(files, file_key());
    assert forall|p: DirRowView, q: DirRowView|
        sorted_dirs.contains(p) && sorted_dirs.contains(q) && dir_key()(p) == dir_key()(
            q,
        ) implies p == q by {
        vstd::seq_lib::to_multiset_contains(sorted_dirs, p);
        vstd::seq_lib::to_multiset_contains(sorted_dirs, q);
        vstd::seq_lib::to_multiset_contains(dirs, p);
        vstd::seq_lib::to_multiset_contains(dirs, q);
        let a = choose|a: int| 0 <= a < dirs.len() && dirs[a] == p;
        let b = choose|b: int| 0 <= b < dirs.len() && dirs[b] == q;
        let i = choose|i: int|
            0 <= i < entries.len() && dir_row_fn(show_dotfiles)(#[trigger] entries[i]) == Some(
                dirs[a],
            );
        let j = choose|j: int|
            0 <= j < entries.len() && dir_row_fn(show_dotfiles)(#[trigger] entries[j]) == Some(
                dirs[b],
            );
        vstd::utf8::encode_utf8_decode_utf8(p.name);
        vstd::utf8::encode_utf8_decode_utf8(q.name);
        assert(p.name == q.name);
        assert(p.modified_at == q.modified_at);
    }
    lemma_sorted_is_unique(sorted_dirs, sort_by(dirs_again, dir_key()), dir_key());
    assert forall|p: FileRowView, q: FileRowView|
        sorted_files.contains(p) && sorted_files.contains(q) && file_key()(p) == file_key()(
            q,
        ) implies p == q by {
        vstd::seq_lib::to_multiset_contains(sorted_files, p);
        vstd::seq_lib::to_multiset_contains(sorted_files, q);
        vstd::seq_lib::to_multiset_contains(files, p);
        vstd::seq_lib::to_multiset_contains(files, q);
        let a = choose|a: int| 0 <= a < files.len() && files[a] == p;
        let b = choose|b: int| 0 <= b < files.len() && files[b] == q;
        let i = choose|i: int|
            0 <= i < entries.len() && file_row_fn(show_dotfiles)(#[trigger] entries[i]) == Some(
                files[a],
            );
        let j = choose|j: int|
            0 <= j < entries.len() && file_row_fn(show_dotfiles)(#[trigger] entries[j]) == Some(
                files[b],
            );
        vstd::utf8::encode_utf8_decode_utf8(p.name);
        vstd::utf8::encode_utf8_decode_utf8(q.name);
        assert(p.name == q.name);
        assert(entries[i].name == Some(p.name));
        assert(entries[j].name == Some(q.name));
        if i < j {
            assert(entries[i].name != entries[j].name);
        } else if j < i {
            assert(entries[j].name != entries[i].name);
        }
        assert(i == j);
    }
    lemma_sorted_is_unique(sorted_files, sort_by(files_again, file_key()), file_key());
}

/// The breadcrumbs of a raw request path.
pub fn breadcrumbs(raw_path: &str) -> (crumbs: Vec<String>)
    ensures
        views(crumbs@) == breadcrumbs_of(raw_path@),
{
    let pieces = split_text(raw_path, '/');
    let ghost all = views(pieces@);
    let mut crumbs: Vec<String> = Vec::new();
    let mut i: usize = 0;
    proof {
        assert(all.take(0) =~= Seq::<Seq<char>>::empty());
        assert(views(crumbs@) =~= Seq::<Seq<char>>::empty());
    }
    while i < pieces.len()
        invariant
            i <= pieces.len(),
            all == views(pieces@),
            views(crumbs@) == crumbs_of(all.take(i as int)),
        decreases pieces.len() - i,
    {
        proof {
            assert(all.take(i + 1).drop_last() =~= all.take(i as int));
            assert(all.take(i + 1).last() == pieces@[i as int]@);
        }
        let crumb = decode_for_display(pieces[i].as_str());
        if !crumb.as_str().is_empty() {
            let ghost before = views(crumbs@);
            crumbs.push(crumb);
            proof {
                assert(views(crumbs@) =~= before.push(crumb@));
            }
        }
        i += 1;
    }
    proof {
        assert(all.take(i as int) =~= all);
    }
    crumbs
}

/// The rows of the directories and of the files among `entries`, each in
/// the order of the entries.
fn rows(entries: &Vec<RawEntry>, show_dotfiles: bool) -> (r: (Vec<DirRow>, Vec<FileRow>))
    ensures
        r.0@.map_values(dir_view()) == dir_rows(entry_views(entries@), show_dotfiles),
        r.1@.map_values(file_view()) == file_rows(entry_views(entries@), show_dotfiles),
{
    let ghost all = entry_views(entries@);
    let mut dirs: Vec<DirRow> = Vec::new();
    let mut files: Vec<FileRow> = Vec::new();
    let mut i: usize = 0;
    proof {
        assert(all.take(0) =~= Seq::<RawEntryView>::empty());
        assert(dirs@.map_values(dir_view()) =~= Seq::<DirRowView>::empty());
        assert(files@.map_values(file_view()) =~= Seq::<FileRowView>::empty());
    }
    while i < entries.len()
        invariant
            i <= entries.len(),
            all == entry_views(entries@),
            dirs@.map_values(dir_view()) == dir_rows(all.take(i as int), show_dotfiles),
            files@.map_values(file_view()) == file_rows(all.take(i as int), show_dotfiles),
        decreases entries.len() - i,
    {
        proof {
            assert(all.take(i + 1).drop_last() =~= all.take(i as int));
            assert(all.take(i + 1).last() == entries@[i as int]@);
        }
        let entry = &entries[i];
        match (&entry.name, &entry.meta) {
            (Some(name), Some(meta)) => {
                if show_dotfiles || !begins_with_dot(name.as_str()) {
                    match meta.modified_at {
                        Some(at) => {
                            match meta.kind {
                                EntryKind::Directory => {
                                    let ghost before = dirs@.map_values(dir_view());
                                    let row = DirRow {
                                        name: name.clone(),
                                        modified_at: at,
                                        modified: show_time(at),
                                    };
                                    dirs.push(row);
                                    proof {
                                        assert(dirs@.map_values(dir_view()) =~= before.push(row@));
                                    }
                                },
                                EntryKind::File => {
                                    let ghost before = files@.map_values(file_view());
                                    let row = FileRow {
                                        name: name.clone(),
                                        size: meta.size,
                                        category: get_file_type(name.as_str()),
                                        modified_at: at,
                                        modified: show_time(at),
                                    };
                                    files.push(row);
                                    proof {
                                        assert(files@.map_values(file_view()) =~= before.push(
                                            row@,
                                        ));
                                    }
                                },
                                EntryKind::Other => {},
                            }
                        },
                        None => {},
                    }
                }
            },
            _ => {},
        }
        i += 1;
    }
    proof {
        assert(all.take(i as int) =~= all);
    }
    (dirs, files)
}

/// The listing of a directory, from its entries as enumeration found them
/// and the raw path under which it was asked for. With listings switched
/// off there is none.
pub fn build_listing(config: &ServerConfig, raw_path: &str, entries: &Vec<RawEntry>) -> (listing:
    Option<ListingData>)
    ensures
        listing is Some <==> config.show_index,
        listing matches Some(data) ==> data@ == listing_of(
            config.show_dotfiles,
            raw_path@,
            entry_views(entries@),
        ),
{
    if !config.show_index {
        return None;
    }
    let paths = breadcrumbs(raw_path);
    let title = if paths.len() == 0 {
        copy_of("/")
    } else {
        paths[paths.len() - 1].clone()
    };
    let (dirs, files) = rows(entries, config.show_dotfiles);
    let ghost unsorted_dirs = dirs@;
    let ghost unsorted_files = files@;
    let dirs = sort(dirs);
    let files = sort(files);
    proof {
        assert forall|r: DirRow| #[trigger] key_fn::<DirRow>()(r) == dir_key()(dir_view()(r)) by {}
        assert forall|r: FileRow| #[trigger]
            key_fn::<FileRow>()(r) == file_key()(file_view()(r)) by {}
        lemma_sort_by_map(unsorted_dirs, dir_view(), key_fn::<DirRow>(), dir_key());
        lemma_sort_by_map(unsorted_files, file_view(), key_fn::<FileRow>(), file_key());
    }
    Some(ListingData { title, paths, dirs, files })
}

} // verus!
