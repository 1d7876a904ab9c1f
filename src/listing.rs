//! One-level directory listings: classification of each child, the
//! last-access timestamp text, and the choice between a listing, a file to
//! serve, and the empty listing of a missing path.

use chrono::{Datelike, TimeZone, Timelike};
use vstd::prelude::*;
use crate::paths::{trim_leading_slashes, trim_slashes, ConfinedPath};
use crate::text::{padded, push_padded, string_of};
use crate::types::{DirDesc, DirEntry, EntryView, FileType};

verus! {

/// A calendar time in the machine's local time zone, to the second.
#[derive(Clone, Copy, Debug, PartialEq, Eq, Structural)]
pub struct LocalTimestamp {
    pub year: i32,
    pub month: u32,
    pub day: u32,
    pub hour: u32,
    pub minute: u32,
    pub second: u32,
}

impl LocalTimestamp {
    /// Each field lies in its calendar range.
    pub open spec fn wf(&self) -> bool {
        &&& 1 <= self.month <= 12
        &&& 1 <= self.day <= 31
        &&& self.hour < 24
        &&& self.minute < 60
        &&& self.second < 60
    }
}

/// The UNIX time of the first second of year 1.
pub const EARLIEST_SECS: i64 = -62135596800;

/// The UNIX time of the last second of year 9999.
pub const LATEST_SECS: i64 = 253402300799;

/// The year, four digits wide; signed when outside `0..=9999`.
pub open spec fn year_text(y: int) -> Seq<char> {
    if 0 <= y <= 9999 {
        padded(y as nat, 4)
    } else if y < 0 {
        seq!['-'] + padded((-y) as nat, 4)
    } else {
        seq!['+'] + padded(y as nat, 4)
    }
}

/// `YYYY-MM-DD HH:MM:SS`.
pub open spec fn timestamp_text(t: LocalTimestamp) -> Seq<char> {
    year_text(t.year as int) + seq!['-'] + padded(t.month as nat, 2) + seq!['-'] + padded(
        t.day as nat,
        2,
    ) + seq![' '] + padded(t.hour as nat, 2) + seq![':'] + padded(t.minute as nat, 2) + seq![':']
        + padded(t.second as nat, 2)
}

/// Renders `t` as `YYYY-MM-DD HH:MM:SS`.
pub fn format_timestamp(t: &LocalTimestamp) -> (r: String)
    ensures
        r@ == timestamp_text(*t),
{
    let mut out: Vec<char> = Vec::new();
    if 0 <= t.year && t.year <= 9999 {
        push_padded(&mut out, t.year as u64, 4);
    } else if t.year < 0 {
        out.push('-');
        push_padded(&mut out, (-(t.year as i64)) as u64, 4);
    } else {
        out.push('+');
        push_padded(&mut out, t.year as u64, 4);
    }
    assert(out@ =~= year_text(t.year as int));
    out.push('-');
    push_padded(&mut out, t.month as u64, 2);
    out.push('-');
    push_padded(&mut out, t.day as u64, 2);
    out.push(' ');
    push_padded(&mut out, t.hour as u64, 2);
    out.push(':');
    push_padded(&mut out, t.minute as u64, 2);
    out.push(':');
    push_padded(&mut out, t.second as u64, 2);
    assert(out@ =~= timestamp_text(*t));
    string_of(out.as_slice())
}

/// Relies on `chrono::TimeZone::timestamp_opt` for `chrono::Local`: the
/// calendar fields of a UNIX time in the machine's time zone, read through
/// `Datelike` and `Timelike`, whose months and days count from one and whose
/// hours, minutes and seconds count from zero. Times outside the years 1 to
/// 9999 are left out: there the time-zone lookup may panic. Within them a
/// UTC time exists for every second with a sub-second part under one second,
/// and its local time is then a single one.
#[verifier::external_body]
fn local_calendar_time(secs: i64, nanos: u32) -> (r: Option<LocalTimestamp>)
    requires
        EARLIEST_SECS <= secs <= LATEST_SECS,
    ensures
        r matches Some(t) ==> t.wf(),
        nanos < 1_000_000_000 ==> r is Some,
{
    match chrono::Local.timestamp_opt(secs, nanos).single() {
        Some(t) => {
            let (year, month, day) = (t.year(), t.month(), t.day());
            let (hour, minute, second) = (t.hour(), t.minute(), t.second());
            Some(LocalTimestamp { year, month, day, hour, minute, second })
        },
        None => None,
    }
}

/// The local calendar time of a UNIX time given as seconds and nanoseconds;
/// `None` outside the years 1 to 9999 or when the time cannot be
/// represented, which a sub-second part under one second always is.
pub fn local_timestamp(secs: i64, nanos: u32) -> (r: Option<LocalTimestamp>)
    ensures
        !(EARLIEST_SECS <= secs <= LATEST_SECS) ==> r is None,
        EARLIEST_SECS <= secs <= LATEST_SECS && nanos < 1_000_000_000 ==> r is Some,
        r matches Some(t) ==> t.wf(),
{
    if secs < EARLIEST_SECS || secs > LATEST_SECS {
        None
    } else {
        local_calendar_time(secs, nanos)
    }
}

/// What the file system reported about one child of a listed directory.
#[derive(Clone, Debug)]
pub struct EntryFacts {
    pub name: String,
    /// The child, or its link target when followed, is a regular file.
    pub is_file: bool,
    /// The child, or its link target when followed, is a directory.
    pub is_dir: bool,
    /// Its length in bytes, when its metadata could be read.
    pub size: Option<u64>,
    /// Its last access, when its metadata and access time could be read.
    pub accessed: Option<LocalTimestamp>,
}

/// The mathematical content of [`EntryFacts`].
pub struct FactsView {
    pub name: Seq<char>,
    pub is_file: bool,
    pub is_dir: bool,
    pub size: Option<u64>,
    pub accessed: Option<LocalTimestamp>,
}

impl View for EntryFacts {
    type V = FactsView;

    open spec fn view(&self) -> FactsView {
        FactsView {
            name: self.name@,
            is_file: self.is_file,
            is_dir: self.is_dir,
            size: self.size,
            accessed: self.accessed,
        }
    }
}

/// The entry that the facts describe: a file, else a directory, else a
/// symbolic link; size 0 and an empty time when unknown.
pub open spec fn entry_of(f: FactsView) -> EntryView {
    EntryView {
        name: f.name,
        kind: if f.is_file {
            FileType::File
        } else if f.is_dir {
            FileType::Directory
        } else {
            FileType::SymbolicLink
        },
        size: match f.size {
            Some(n) => n,
            None => 0,
        },
        accessed: match f.accessed {
            Some(t) => timestamp_text(t),
            None => Seq::empty(),
        },
    }
}

/// Turns what the file system reported about a child into its entry.
pub fn convert_dir_entry(facts: &EntryFacts) -> (r: DirEntry)
    ensures
        r@ == entry_of(facts@),
{
    let file_type = if facts.is_file {
        FileType::File
    } else if facts.is_dir {
        FileType::Directory
    } else {
        FileType::SymbolicLink
    };
    let file_size = match facts.size {
        Some(n) => n,
        None => 0,
    };
    let last_accessed = match &facts.accessed {
        Some(t) => format_timestamp(t),
        None => String::new(),
    };
    let file_name = facts.name.clone();
    DirEntry { file_name, file_type, file_size, last_accessed }
}

/// What a resolved path turned out to be on disk.
#[derive(Clone, Copy, Debug, PartialEq, Eq, Structural)]
pub enum PathKind {
    /// A directory, or a link to one.
    Directory,
    /// A regular file, or a link to one.
    File,
    /// A symbolic link whose target is neither.
    Symlink,
    /// Nothing is there.
    Absent,
}

/// The answer to a listing request.
#[derive(Clone, Debug)]
pub enum ListOutcome {
    /// A one-level description of a directory; empty with an empty name
    /// when nothing is at the path.
    Listing(DirDesc),
    /// The path names a file: the caller redirects to this location, where
    /// it is served as static content.
    ServeAsFile(String),
}

/// The mathematical content of a [`ListOutcome`].
pub enum OutcomeView {
    Listing { name: Seq<char>, entries: Seq<EntryView> },
    ServeAsFile(Seq<char>),
}

impl View for ListOutcome {
    type V = OutcomeView;

    open spec fn view(&self) -> OutcomeView {
        match self {
            ListOutcome::Listing(d) => OutcomeView::Listing { name: d.dir_name@, entries: d.entries() },
            ListOutcome::ServeAsFile(s) => OutcomeView::ServeAsFile(s@),
        }
    }
}

/// Where files are served as static content.
pub open spec fn static_prefix() -> Seq<char> {
    seq!['/', 's', 't', 'a', 't', 'i', 'c', '/']
}

/// The views of a sequence of facts.
pub open spec fn facts_views(children: Seq<EntryFacts>) -> Seq<FactsView> {
    children.map_values(|f: EntryFacts| f@)
}

/// The answer for `relative`, of the given kind, whose children (when it is
/// a directory) were enumerated as `children`.
pub open spec fn listing_of(relative: Seq<char>, kind: PathKind, children: Seq<FactsView>) -> OutcomeView {
    let path = trim_leading_slashes(relative);
    match kind {
        PathKind::Directory => OutcomeView::Listing {
            name: seq!['/'] + path,
            entries: children.map_values(|f: FactsView| entry_of(f)),
        },
        PathKind::File | PathKind::Symlink => OutcomeView::ServeAsFile(static_prefix() + path),
        PathKind::Absent => OutcomeView::Listing { name: Seq::empty(), entries: Seq::empty() },
    }
}

/// Answers a listing request for `target`, a path confirmed inside the
/// root: the directory's children in enumeration order, a location to serve
/// a file from, or the empty listing when nothing is there. The display name
/// and the location are built from the text the client sent.
pub fn list_files(target: &ConfinedPath, kind: PathKind, children: &Vec<EntryFacts>) -> (r: ListOutcome)
    ensures
        r@ == listing_of(target.relative(), kind, facts_views(children@)),
{
    let path = crate::text::chars_of(trim_slashes(target.relative_str()).as_str());
    match kind {
        PathKind::Directory => {
            let mut name: Vec<char> = Vec::new();
            name.push('/');
            let mut rest = path.clone();
            name.append(&mut rest);
            let mut descendants: Vec<DirEntry> = Vec::new();
            let n = children.len();
            let mut i: usize = 0;
            while i < n
                invariant
                    n == children@.len(),
                    i <= n,
                    descendants@.len() == i,
                    forall|j: int|
                        0 <= j < i ==> #[trigger] descendants@[j]@ == entry_of(children@[j]@),
                decreases n - i,
            {
                descendants.push(convert_dir_entry(&children[i]));
                i = i + 1;
            }
            let d = DirDesc { dir_name: string_of(name.as_slice()), descendants };
            assert(d.entries() =~= facts_views(children@).map_values(|f: FactsView| entry_of(f)));
            ListOutcome::Listing(d)
        },
        PathKind::File | PathKind::Symlink => {
            let mut loc: Vec<char> = Vec::new();
            loc.push('/');
            loc.push('s');
            loc.push('t');
            loc.push('a');
            loc.push('t');
            loc.push('i');
            loc.push('c');
            loc.push('/');
            assert(loc@ =~= static_prefix());
            let mut rest = path.clone();
            loc.append(&mut rest);
            ListOutcome::ServeAsFile(string_of(loc.as_slice()))
        },
        PathKind::Absent => {
            let d = DirDesc { dir_name: String::new(), descendants: Vec::new() };
            assert(d.entries() =~= Seq::<EntryView>::empty());
            ListOutcome::Listing(d)
        },
    }
}

/// The entries for a sequence of children.
pub open spec fn entries_of(children: Seq<FactsView>) -> Seq<EntryView> {
    children.map_values(|f: FactsView| entry_of(f))
}

/// Listing is insensitive to enumeration order: two enumerations of an
/// unchanged directory that report the same children, each as often, in any
/// order, give listings with the same name and the same entries, each as
/// often.
pub proof fn lemma_listing_same_entries(
    relative: Seq<char>,
    first: Seq<FactsView>,
    second: Seq<FactsView>,
)
    requires
        first.to_multiset() == second.to_multiset(),
    ensures
        listing_of(relative, PathKind::Directory, first) matches OutcomeView::Listing {
            name: n1,
            entries: e1,
        } && listing_of(relative, PathKind::Directory, second) matches OutcomeView::Listing {
            name: n2,
            entries: e2,
        } && n1 == n2 && e1.to_multiset() == e2.to_multiset(),
{
    lemma_entries_multiset(first, second);
}

proof fn lemma_entries_multiset(a: Seq<FactsView>, b: Seq<FactsView>)
    requires
        a.to_multiset() == b.to_multiset(),
    ensures
        entries_of(a).to_multiset() == entries_of(b).to_multiset(),
    decreases a.len(),
{
    broadcast use vstd::seq_lib::group_to_multiset_ensures;

    if a.len() == 0 {
        assert(a.to_multiset().len() == 0);
        assert(b.to_multiset().len() == b.len());
        assert(b.len() == 0);
        assert(entries_of(a) =~= entries_of(b));
    } else {
        let x = a.last();
        let a1 = a.drop_last();
        assert(a1.push(x) =~= a);
        assert(a.to_multiset().count(x) > 0);
        assert(b.to_multiset().count(x) > 0);
        assert(b.contains(x));
        let k = choose|k: int| 0 <= k < b.len() && b[k] == x;
        let b1 = b.remove(k);
        assert(a1.to_multiset() =~= b1.to_multiset()) by {
            assert(a.to_multiset() == a1.to_multiset().insert(x));
            assert(b1.to_multiset() == b.to_multiset().remove(x));
        }
        lemma_entries_multiset(a1, b1);
        let ex = entry_of(x);
        assert(entries_of(a1).push(ex) =~= entries_of(a));
        assert(entries_of(b).remove(k) =~= entries_of(b1));
        assert(entries_of(b)[k] == ex);
        assert(entries_of(b1).to_multiset() == entries_of(b).to_multiset().remove(ex));
        assert(entries_of(b).to_multiset().count(ex) > 0);
        assert(entries_of(a).to_multiset() =~= entries_of(b).to_multiset());
    }
}

} // verus!
