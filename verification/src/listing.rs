//! Listing a directory: hidden entries are left out, directories come before
//! files, and each of the two groups is in ascending order of name.

use vstd::prelude::*;
use crate::error::{Error, ErrorView};
use crate::sequences::{lemma_filter_map_includes, lemma_filter_map_stems};
use crate::text::{
    begins_with, lex_le, lex_lt, lemma_lex_le_antisymmetric, lemma_lex_le_reflexive, lemma_lex_le_total,
    lemma_lex_le_transitive, starts_with_char, text_le,
};

verus! {

/// The character that marks a name as hidden when it comes first.
pub const HIDDEN_MARKER: char = '.';

/// One row of a listing.
#[derive(Clone, Debug, PartialEq, Eq)]
pub struct DirectoryEntry {
    pub name: String,
    pub is_directory: bool,
}

/// One row of an extended listing, with a hint for display.
#[derive(Clone, Debug, PartialEq, Eq)]
pub struct FileInfo {
    pub name: String,
    pub indent: usize,
    pub exists: bool,
    pub is_directory: bool,
}

/// What could be learned of the kind of a directory's child.
#[derive(Clone, Debug, PartialEq, Eq)]
pub enum RawKind {
    /// The child is a directory.
    Directory,
    /// The child is something else.
    Other,
    /// The kind could not be determined; the text says why.
    Unknown(String),
}

/// One child of a directory as it was read, before any filtering.
#[derive(Clone, Debug, PartialEq, Eq)]
pub enum RawEntry {
    /// Reading this child failed.
    Unreadable,
    /// A child with its name and kind.
    Found { name: String, kind: RawKind },
}

/// The outcome of looking at a path and reading it as a directory.
#[derive(Clone, Debug, PartialEq, Eq)]
pub enum DirectoryRead {
    /// The path names nothing.
    Missing,
    /// The path names something that is not a directory.
    NotADirectory,
    /// Access to the directory was refused.
    Denied,
    /// The directory could not be opened for another reason; the text says
    /// which.
    Failed(String),
    /// The children, in the order in which they were read.
    Entries(Vec<RawEntry>),
}

/// A row as plain values: what a listing is ordered and compared by.
pub struct Row {
    pub name: Seq<char>,
    pub is_directory: bool,
}

/// A [`FileInfo`] as plain values.
pub struct FileRow {
    pub name: Seq<char>,
    pub indent: usize,
    pub exists: bool,
    pub is_directory: bool,
}

/// A [`RawKind`] as plain values.
pub enum RawKindView {
    Directory,
    Other,
    Unknown(Seq<char>),
}

/// A [`RawEntry`] as plain values.
pub enum RawEntryView {
    Unreadable,
    Found { name: Seq<char>, kind: RawKindView },
}

/// A [`DirectoryRead`] as plain values.
pub enum DirectoryReadView {
    Missing,
    NotADirectory,
    Denied,
    Failed(Seq<char>),
    Entries(Seq<RawEntryView>),
}

impl View for DirectoryEntry {
    type V = Row;

    open spec fn view(&self) -> Row {
        Row { name: self.name@, is_directory: self.is_directory }
    }
}

impl View for FileInfo {
    type V = FileRow;

    open spec fn view(&self) -> FileRow {
        FileRow {
            name: self.name@,
            indent: self.indent,
            exists: self.exists,
            is_directory: self.is_directory,
        }
    }
}

impl View for RawKind {
    type V = RawKindView;

    open spec fn view(&self) -> RawKindView {
        match *self {
            RawKind::Directory => RawKindView::Directory,
            RawKind::Other => RawKindView::Other,
            RawKind::Unknown(detail) => RawKindView::Unknown(detail@),
        }
    }
}

impl View for RawEntry {
    type V = RawEntryView;

    open spec fn view(&self) -> RawEntryView {
        match *self {
            RawEntry::Unreadable => RawEntryView::Unreadable,
            RawEntry::Found { name, kind } => RawEntryView::Found { name: name@, kind: kind@ },
        }
    }
}

impl View for DirectoryRead {
    type V = DirectoryReadView;

    open spec fn view(&self) -> DirectoryReadView {
        match *self {
            DirectoryRead::Missing => DirectoryReadView::Missing,
            DirectoryRead::NotADirectory => DirectoryReadView::NotADirectory,
            DirectoryRead::Denied => DirectoryReadView::Denied,
            DirectoryRead::Failed(detail) => DirectoryReadView::Failed(detail@),
            DirectoryRead::Entries(entries) => DirectoryReadView::Entries(raw_views(entries@)),
        }
    }
}

/// The rows of a listing.
pub open spec fn rows_of(entries: Seq<DirectoryEntry>) -> Seq<Row> {
    entries.map_values(|e: DirectoryEntry| e@)
}

/// The rows of an extended listing, each with its display hints.
pub open spec fn file_rows_of(files: Seq<FileInfo>) -> Seq<FileRow> {
    files.map_values(|f: FileInfo| f@)
}

/// A row with the display hints of this layer: the child exists, and it is
/// not nested.
pub open spec fn with_hints(row: Row) -> FileRow {
    FileRow { name: row.name, indent: 0, exists: true, is_directory: row.is_directory }
}

/// The children that were read, as plain values.
pub open spec fn raw_views(entries: Seq<RawEntry>) -> Seq<RawEntryView> {
    entries.map_values(|e: RawEntry| e@)
}

/// A name is hidden when it begins with a dot.
pub open spec fn is_hidden(name: Seq<char>) -> bool {
    begins_with(name, HIDDEN_MARKER)
}

/// The order of a listing: a directory comes before a file, and two rows of
/// the same kind are ordered by name.
pub open spec fn row_le(a: Row, b: Row) -> bool {
    if a.is_directory != b.is_directory {
        a.is_directory
    } else {
        lex_le(a.name, b.name)
    }
}

/// Every row is at most each row that follows it.
pub open spec fn is_ordered(rows: Seq<Row>) -> bool {
    forall|i: int, j: int| 0 <= i < j < rows.len() ==> row_le(#[trigger] rows[i], #[trigger] rows[j])
}

/// The row that a child contributes to a listing: none when it could not be
/// read, when it is hidden, or when its kind is unknown.
pub open spec fn listed_row(entry: RawEntryView) -> Option<Row> {
    match entry {
        RawEntryView::Found { name, kind } => if is_hidden(name) {
            None
        } else {
            match kind {
                RawKindView::Directory => Some(Row { name, is_directory: true }),
                RawKindView::Other => Some(Row { name, is_directory: false }),
                RawKindView::Unknown(_) => None,
            }
        },
        RawEntryView::Unreadable => None,
    }
}

/// The rows that the children contribute, in the order in which they were read.
pub open spec fn listed_rows(entries: Seq<RawEntryView>) -> Seq<Row> {
    entries.filter_map(|e: RawEntryView| listed_row(e))
}

/// Why a child makes the whole listing fail: it is visible and its kind
/// could not be determined. Hidden and unreadable children never do.
pub open spec fn blocking_detail(entry: RawEntryView) -> Option<Seq<char>> {
    match entry {
        RawEntryView::Found { name, kind: RawKindView::Unknown(detail) } => if is_hidden(name) {
            None
        } else {
            Some(detail)
        },
        _ => None,
    }
}

/// The child at `index` is the first that makes the listing fail.
pub open spec fn first_blocking(entries: Seq<RawEntryView>, index: int) -> bool {
    &&& 0 <= index < entries.len()
    &&& blocking_detail(entries[index]) is Some
    &&& forall|j: int| 0 <= j < index ==> blocking_detail(#[trigger] entries[j]) is None
}

/// What a listing of the given children is: a failure with the detail of the
/// first blocking child, or else the listed rows in order.
pub open spec fn arranges(entries: Seq<RawEntryView>, result: Result<Seq<Row>, ErrorView>) -> bool {
    match result {
        Ok(rows) => {
            &&& forall|j: int| 0 <= j < entries.len() ==> blocking_detail(#[trigger] entries[j]) is None
            &&& is_ordered(rows)
            &&& rows.to_multiset() == listed_rows(entries).to_multiset()
        },
        Err(e) => exists|i: int|
            #![trigger entries[i]]
            first_blocking(entries, i) && e == ErrorView::IOError(blocking_detail(entries[i])->0),
    }
}

/// What reading a directory at `path` yields.
pub open spec fn lists(
    path: Seq<char>,
    read: DirectoryReadView,
    result: Result<Seq<Row>, ErrorView>,
) -> bool {
    match read {
        DirectoryReadView::Missing => result == Err::<Seq<Row>, ErrorView>(ErrorView::NotFound(path)),
        DirectoryReadView::NotADirectory => result == Err::<Seq<Row>, ErrorView>(
            ErrorView::NotADirectory(path),
        ),
        DirectoryReadView::Denied => result == Err::<Seq<Row>, ErrorView>(
            ErrorView::PermissionDenied(path),
        ),
        DirectoryReadView::Failed(detail) => result == Err::<Seq<Row>, ErrorView>(
            ErrorView::IOError(detail),
        ),
        DirectoryReadView::Entries(entries) => arranges(entries, result),
    }
}

/// What reading a directory at `path` yields as an extended listing: what
/// [`lists`] says, each row with its display hints.
pub open spec fn lists_files(
    path: Seq<char>,
    read: DirectoryReadView,
    result: Result<Seq<FileRow>, ErrorView>,
) -> bool {
    match result {
        Ok(files) => exists|rows: Seq<Row>|
            #![trigger lists(path, read, Ok(rows))]
            lists(path, read, Ok(rows)) && files == rows.map_values(|r: Row| with_hints(r)),
        Err(e) => lists(path, read, Err(e)),
    }
}

/// The order of rows is reflexive.
pub proof fn lemma_row_le_reflexive(a: Row)
    ensures
        row_le(a, a),
{
    lemma_lex_le_reflexive(a.name);
}

/// Any two rows are comparable.
pub proof fn lemma_row_le_total(a: Row, b: Row)
    ensures
        row_le(a, b) || row_le(b, a),
{
    lemma_lex_le_total(a.name, b.name);
}

/// The order of rows is transitive.
pub proof fn lemma_row_le_transitive(a: Row, b: Row, c: Row)
    requires
        row_le(a, b),
        row_le(b, c),
    ensures
        row_le(a, c),
{
    if a.is_directory == b.is_directory && b.is_directory == c.is_directory {
        lemma_lex_le_transitive(a.name, b.name, c.name);
    }
}

/// Two rows that are each at most the other are the same row.
pub proof fn lemma_row_le_antisymmetric(a: Row, b: Row)
    requires
        row_le(a, b),
        row_le(b, a),
    ensures
        a == b,
{
    lemma_lex_le_antisymmetric(a.name, b.name);
}

/// What a listing looks like. Every directory stands before every file, and
/// two rows of the same kind stand in ascending order of name. No row has a
/// hidden name. Each row is a child that was read, and each child that was
/// read, is not hidden and has a known kind is a row: nothing is lost and
/// nothing is added.
pub proof fn lemma_listing_shape(entries: Seq<RawEntryView>, rows: Seq<Row>)
    requires
        arranges(entries, Ok(rows)),
    ensures
        forall|i: int, j: int|
            0 <= i < j < rows.len() && (#[trigger] rows[j]).is_directory ==> (
            #[trigger] rows[i]).is_directory,
        forall|i: int, j: int|
            0 <= i < j < rows.len() && (#[trigger] rows[i]).is_directory == (
            #[trigger] rows[j]).is_directory ==> lex_le(rows[i].name, rows[j].name),
        forall|i: int| 0 <= i < rows.len() ==> !is_hidden((#[trigger] rows[i]).name),
        forall|i: int|
            0 <= i < rows.len() ==> exists|k: int|
                0 <= k < entries.len() && listed_row(#[trigger] entries[k]) == Some(
                    #[trigger] rows[i],
                ),
        forall|k: int|
            0 <= k < entries.len() && listed_row(#[trigger] entries[k]) is Some ==> rows.contains(
                listed_row(entries[k])->0,
            ),
        rows.len() == listed_rows(entries).len(),
{
    broadcast use vstd::seq_lib::group_to_multiset_ensures;

    let listed = listed_rows(entries);
    assert(rows.to_multiset().len() == listed.to_multiset().len());
    assert forall|i: int| 0 <= i < rows.len() implies exists|k: int|
        0 <= k < entries.len() && listed_row(#[trigger] entries[k]) == Some(
            #[trigger] rows[i],
        ) by {
        assert(rows.to_multiset().count(rows[i]) > 0);
        lemma_filter_map_stems(entries, |e: RawEntryView| listed_row(e), rows[i]);
    }
    assert forall|i: int| 0 <= i < rows.len() implies !is_hidden((#[trigger] rows[i]).name) by {
        let k = choose|k: int|
            0 <= k < entries.len() && listed_row(#[trigger] entries[k]) == Some(rows[i]);
    }
    assert forall|k: int|
        0 <= k < entries.len() && listed_row(#[trigger] entries[k]) is Some implies rows.contains(
        listed_row(entries[k])->0,
    ) by {
        lemma_filter_map_includes(entries, |e: RawEntryView| listed_row(e), k);
        assert(listed.to_multiset().count(listed_row(entries[k])->0) > 0);
    }
}

/// No two children that were read have the same name, as it is in a
/// directory.
pub open spec fn names_are_distinct(entries: Seq<RawEntryView>) -> bool {
    forall|i: int, j: int|
        0 <= i < j < entries.len() && (#[trigger] entries[i]) is Found && (
        #[trigger] entries[j]) is Found ==> entries[i]->name != entries[j]->name
}

/// Children with distinct names contribute distinct rows.
pub proof fn lemma_listed_rows_are_distinct(entries: Seq<RawEntryView>)
    requires
        names_are_distinct(entries),
    ensures
        listed_rows(entries).no_duplicates(),
    decreases entries.len(),
{
    if entries.len() > 0 {
        let rest = entries.drop_last();
        let keep = |e: RawEntryView| listed_row(e);
        assert(names_are_distinct(rest)) by {
            assert forall|i: int, j: int|
                0 <= i < j < rest.len() && (#[trigger] rest[i]) is Found && (
                #[trigger] rest[j]) is Found implies rest[i]->name != rest[j]->name by {
                assert(rest[i] == entries[i]);
                assert(rest[j] == entries[j]);
            }
        }
        lemma_listed_rows_are_distinct(rest);
        match listed_row(entries.last()) {
            Some(row) => {
                let before = listed_rows(rest);
                assert(listed_rows(entries) == before + seq![row]);
                if before.contains(row) {
                    lemma_filter_map_stems(rest, keep, row);
                    let k = choose|k: int| 0 <= k < rest.len() && keep(#[trigger] rest[k]) == Some(row);
                    assert(rest[k] == entries[k]);
                    assert(entries[k]->name == entries[entries.len() - 1]->name);
                }
                assert forall|i: int, j: int|
                    0 <= i < listed_rows(entries).len() && 0 <= j < listed_rows(entries).len() && i
                        != j implies listed_rows(entries)[i] != listed_rows(entries)[j] by {
                    if i < before.len() && j < before.len() {
                        assert(before[i] != before[j]);
                    } else if i < before.len() {
                        assert(before.contains(before[i]));
                    } else {
                        assert(before.contains(before[j]));
                    }
                }
            },
            None => {},
        }
    }
}

/// In the listing of a directory no name occurs twice within a kind: where
/// the children read have distinct names, the names of the directories stand
/// in strictly ascending order, and so do the names of the files.
pub proof fn lemma_listing_is_strict(entries: Seq<RawEntryView>, rows: Seq<Row>)
    requires
        arranges(entries, Ok(rows)),
        names_are_distinct(entries),
    ensures
        rows.no_duplicates(),
        forall|i: int, j: int|
            0 <= i < j < rows.len() && (#[trigger] rows[i]).is_directory == (
            #[trigger] rows[j]).is_directory ==> lex_lt(rows[i].name, rows[j].name),
{
    lemma_listed_rows_are_distinct(entries);
    listed_rows(entries).lemma_multiset_has_no_duplicates();
    rows.lemma_multiset_has_no_duplicates_conv();
    assert forall|i: int, j: int|
        0 <= i < j < rows.len() && (#[trigger] rows[i]).is_directory == (
        #[trigger] rows[j]).is_directory implies lex_lt(rows[i].name, rows[j].name) by {
        assert(row_le(rows[i], rows[j]));
        if rows[i].name == rows[j].name {
            assert(rows[i] == rows[j]);
        }
    }
}

/// The children decide the listing: two listings of the same children are
/// the same sequence of rows.
pub proof fn lemma_listing_is_determined(
    entries: Seq<RawEntryView>,
    first: Seq<Row>,
    second: Seq<Row>,
)
    requires
        arranges(entries, Ok(first)),
        arranges(entries, Ok(second)),
    ensures
        first == second,
{
    let leq = |a: Row, b: Row| row_le(a, b);
    assert forall|a: Row| #[trigger] leq(a, a) by {
        lemma_row_le_reflexive(a);
    }
    assert forall|a: Row, b: Row| #[trigger] leq(a, b) && #[trigger] leq(b, a) implies a == b by {
        lemma_row_le_antisymmetric(a, b);
    }
    assert forall|a: Row, b: Row, c: Row| #[trigger] leq(a, b) && #[trigger] leq(b, c) implies leq(
        a,
        c,
    ) by {
        lemma_row_le_transitive(a, b, c);
    }
    assert forall|a: Row, b: Row| #[trigger] leq(a, b) || #[trigger] leq(b, a) by {
        lemma_row_le_total(a, b);
    }
    vstd::seq_lib::lemma_sorted_unique(first, second, leq);
}

/// Whether a name is hidden.
pub fn is_hidden_name(name: &str) -> (hidden: bool)
    ensures
        hidden == is_hidden(name@),
{
    starts_with_char(name, HIDDEN_MARKER)
}

/// Whether `a` comes no later than `b` in a listing.
pub fn entry_le(a: &DirectoryEntry, b: &DirectoryEntry) -> (r: bool)
    ensures
        r == row_le(a@, b@),
{
    if a.is_directory != b.is_directory {
        a.is_directory
    } else {
        text_le(a.name.as_str(), b.name.as_str())
    }
}

/// Moves the last entry of `from` to the end of `to`.
fn move_last(from: &mut Vec<DirectoryEntry>, to: &mut Vec<DirectoryEntry>)
    requires
        old(from)@.len() > 0,
    ensures
        final(from)@ == old(from)@.drop_last(),
        final(to)@ == old(to)@.push(old(from)@.last()),
{
    let entry = from.pop().unwrap();
    to.push(entry);
}

/// Merges two ordered listings into one ordered listing that holds the
/// entries of both.
fn merge_ordered(left: Vec<DirectoryEntry>, right: Vec<DirectoryEntry>) -> (merged: Vec<
    DirectoryEntry,
>)
    requires
        is_ordered(rows_of(left@)),
        is_ordered(rows_of(right@)),
    ensures
        is_ordered(rows_of(merged@)),
        rows_of(merged@).to_multiset() == rows_of(left@).to_multiset().add(
            rows_of(right@).to_multiset(),
        ),
{
    broadcast use vstd::seq_lib::group_to_multiset_ensures;
    broadcast use vstd::multiset::group_multiset_axioms;

    let ghost total = rows_of(left@).to_multiset().add(rows_of(right@).to_multiset());
    let mut left = left;
    let mut right = right;
    // The largest entry that is left moves over first, so this holds the
    // entries from the largest down.
    let mut stack: Vec<DirectoryEntry> = Vec::new();
    while left.len() > 0 || right.len() > 0
        invariant
            is_ordered(rows_of(left@)),
            is_ordered(rows_of(right@)),
            forall|i: int, j: int|
                0 <= i < j < stack@.len() ==> row_le(
                    #[trigger] rows_of(stack@)[j],
                    #[trigger] rows_of(stack@)[i],
                ),
            forall|i: int, j: int|
                0 <= i < left@.len() && 0 <= j < stack@.len() ==> row_le(
                    #[trigger] rows_of(left@)[i],
                    #[trigger] rows_of(stack@)[j],
                ),
            forall|i: int, j: int|
                0 <= i < right@.len() && 0 <= j < stack@.len() ==> row_le(
                    #[trigger] rows_of(right@)[i],
                    #[trigger] rows_of(stack@)[j],
                ),
            rows_of(stack@).to_multiset().add(rows_of(left@).to_multiset()).add(
                rows_of(right@).to_multiset(),
            ) == total,
        decreases left@.len() + right@.len(),
    {
        let ghost old_left = rows_of(left@);
        let ghost old_right = rows_of(right@);
        let ghost old_stack = rows_of(stack@);
        let from_right = if left.len() == 0 {
            true
        } else if right.len() == 0 {
            false
        } else {
            entry_le(&left[left.len() - 1], &right[right.len() - 1])
        };
        if from_right {
            let ghost moved = old_right.last();
            move_last(&mut right, &mut stack);
            proof {
                assert(rows_of(right@) =~= old_right.drop_last());
                assert(rows_of(stack@) =~= old_stack.push(moved));
                assert(old_right =~= old_right.drop_last().push(moved));
                vstd::seq_lib::to_multiset_build(old_right.drop_last(), moved);
                vstd::seq_lib::to_multiset_build(old_stack, moved);
                assert forall|i: int| 0 <= i < old_left.len() implies row_le(
                    #[trigger] old_left[i],
                    moved,
                ) by {
                    lemma_row_le_reflexive(old_left.last());
                    lemma_row_le_transitive(old_left[i], old_left.last(), moved);
                }
            }
        } else {
            let ghost moved = old_left.last();
            move_last(&mut left, &mut stack);
            proof {
                assert(rows_of(left@) =~= old_left.drop_last());
                assert(rows_of(stack@) =~= old_stack.push(moved));
                assert(old_left =~= old_left.drop_last().push(moved));
                vstd::seq_lib::to_multiset_build(old_left.drop_last(), moved);
                vstd::seq_lib::to_multiset_build(old_stack, moved);
                assert forall|i: int| 0 <= i < old_right.len() implies row_le(
                    #[trigger] old_right[i],
                    moved,
                ) by {
                    lemma_row_le_total(moved, old_right.last());
                    lemma_row_le_reflexive(old_right.last());
                    lemma_row_le_transitive(old_right[i], old_right.last(), moved);
                }
            }
        }
    }
    let mut merged: Vec<DirectoryEntry> = Vec::new();
    while stack.len() > 0
        invariant
            is_ordered(rows_of(merged@)),
            forall|i: int, j: int|
                0 <= i < j < stack@.len() ==> row_le(
                    #[trigger] rows_of(stack@)[j],
                    #[trigger] rows_of(stack@)[i],
                ),
            forall|i: int, j: int|
                0 <= i < merged@.len() && 0 <= j < stack@.len() ==> row_le(
                    #[trigger] rows_of(merged@)[i],
                    #[trigger] rows_of(stack@)[j],
                ),
            rows_of(merged@).to_multiset().add(rows_of(stack@).to_multiset()) == total,
        decreases stack@.len(),
    {
        let ghost old_stack = rows_of(stack@);
        let ghost old_merged = rows_of(merged@);
        let ghost moved = old_stack.last();
        move_last(&mut stack, &mut merged);
        proof {
            assert(rows_of(stack@) =~= old_stack.drop_last());
            assert(rows_of(merged@) =~= old_merged.push(moved));
            assert(old_stack =~= old_stack.drop_last().push(moved));
            vstd::seq_lib::to_multiset_build(old_stack.drop_last(), moved);
            vstd::seq_lib::to_multiset_build(old_merged, moved);
            assert forall|i: int, j: int| 0 <= i < j < merged@.len() implies row_le(
                #[trigger] rows_of(merged@)[i],
                #[trigger] rows_of(merged@)[j],
            ) by {
                assert(rows_of(merged@)[i] == old_merged[i]);
            }
            assert forall|i: int, j: int|
                0 <= i < merged@.len() && 0 <= j < stack@.len() implies row_le(
                #[trigger] rows_of(merged@)[i],
                #[trigger] rows_of(stack@)[j],
            ) by {
                if i == old_merged.len() {
                    assert(row_le(old_stack[old_stack.len() - 1], old_stack[j]));
                } else {
                    assert(rows_of(merged@)[i] == old_merged[i]);
                }
            }
        }
    }
    merged
}

/// Puts a listing in order: the same entries, every directory before every
/// file and each of the two groups by name.
pub fn sort_listing(entries: Vec<DirectoryEntry>) -> (sorted: Vec<DirectoryEntry>)
    ensures
        is_ordered(rows_of(sorted@)),
        rows_of(sorted@).to_multiset() == rows_of(entries@).to_multiset(),
    decreases entries@.len(),
{
    let count: usize = entries.len();
    if count <= 1 {
        return entries;
    }
    let ghost all = rows_of(entries@);
    let mut left = entries;
    let right = left.split_off(count / 2);
    proof {
        assert(all =~= rows_of(left@) + rows_of(right@));
        vstd::seq_lib::lemma_multiset_commutative(rows_of(left@), rows_of(right@));
    }
    let left = sort_listing(left);
    let right = sort_listing(right);
    merge_ordered(left, right)
}

/// Arranges the children of a directory into a listing. Children that could
/// not be read and hidden children are left out. A visible child whose kind
/// is unknown makes the listing fail, the first such child deciding the
/// error.
pub fn arrange_entries(entries: &Vec<RawEntry>) -> (result: Result<Vec<DirectoryEntry>, Error>)
    ensures
        arranges(
            raw_views(entries@),
            match result {
                Ok(listing) => Ok(rows_of(listing@)),
                Err(e) => Err(e@),
            },
        ),
{
    let ghost raw = raw_views(entries@);
    let mut found: Vec<DirectoryEntry> = Vec::new();
    let mut i: usize = 0;
    while i < entries.len()
        invariant
            0 <= i <= entries.len(),
            raw == raw_views(entries@),
            forall|j: int| 0 <= j < i ==> blocking_detail(#[trigger] raw[j]) is None,
            rows_of(found@) == listed_rows(raw.take(i as int)),
        decreases entries.len() - i,
    {
        let ghost seen = raw.take(i as int);
        let ghost next = raw.take(i + 1);
        let ghost before = rows_of(found@);
        assert(next.drop_last() =~= seen);
        match &entries[i] {
            RawEntry::Unreadable => {},
            RawEntry::Found { name, kind } => {
                if !is_hidden_name(name.as_str()) {
                    match kind {
                        RawKind::Unknown(detail) => {
                            return Err(Error::IOError(detail.clone()));
                        },
                        RawKind::Directory => {
                            found.push(DirectoryEntry { name: name.clone(), is_directory: true });
                        },
                        RawKind::Other => {
                            found.push(DirectoryEntry { name: name.clone(), is_directory: false });
                        },
                    }
                }
            },
        }
        proof {
            match listed_row(raw[i as int]) {
                Some(row) => {
                    assert(rows_of(found@) =~= before + seq![row]);
                },
                None => {
                    assert(rows_of(found@) =~= before);
                },
            }
        }
        i += 1;
    }
    assert(raw.take(i as int) =~= raw);
    Ok(sort_listing(found))
}

/// Lists the directory at `path` from what was read there: an error when the
/// path names nothing or no directory or could not be opened, and otherwise
/// the visible children, directories first and each group by name. Only the
/// children of the directory itself are listed, never what is below them.
pub fn read_directory_structure(path: &str, read: &DirectoryRead) -> (result: Result<
    Vec<DirectoryEntry>,
    Error,
>)
    ensures
        lists(
            path@,
            read@,
            match result {
                Ok(listing) => Ok(rows_of(listing@)),
                Err(e) => Err(e@),
            },
        ),
{
    match read {
        DirectoryRead::Missing => Err(Error::NotFound(String::from_str(path))),
        DirectoryRead::NotADirectory => Err(Error::NotADirectory(String::from_str(path))),
        DirectoryRead::Denied => Err(Error::PermissionDenied(String::from_str(path))),
        DirectoryRead::Failed(detail) => Err(Error::IOError(detail.clone())),
        DirectoryRead::Entries(entries) => arrange_entries(entries),
    }
}

/// Lists the directory at `path` as [`read_directory_structure`] does, each
/// row with the display hints of a child that exists and is not nested.
pub fn read_directory_contents(path: &str, read: &DirectoryRead) -> (result: Result<
    Vec<FileInfo>,
    Error,
>)
    ensures
        lists_files(
            path@,
            read@,
            match result {
                Ok(files) => Ok(file_rows_of(files@)),
                Err(e) => Err(e@),
            },
        ),
        result matches Ok(files) ==> forall|i: int|
            0 <= i < files@.len() ==> (#[trigger] files@[i]).indent == 0 && files@[i].exists,
{
    match read_directory_structure(path, read) {
        Err(e) => Err(e),
        Ok(listing) => {
            let mut files: Vec<FileInfo> = Vec::new();
            let mut i: usize = 0;
            while i < listing.len()
                invariant
                    0 <= i <= listing.len(),
                    files@.len() == i,
                    forall|k: int|
                        0 <= k < i ==> (#[trigger] files@[k])@ == (FileRow {
                            name: listing@[k].name@,
                            indent: 0,
                            exists: true,
                            is_directory: listing@[k].is_directory,
                        }),
                decreases listing.len() - i,
            {
                files.push(
                    FileInfo {
                        name: listing[i].name.clone(),
                        indent: 0,
                        exists: true,
                        is_directory: listing[i].is_directory,
                    },
                );
                i += 1;
            }
            assert(file_rows_of(files@) =~= rows_of(listing@).map_values(|r: Row| with_hints(r)));
            assert(lists(path@, read@, Ok(rows_of(listing@))));
            Ok(files)
        },
    }
}

} // verus!
