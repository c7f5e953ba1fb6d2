//! Turning the bytes of a zip archive into a plan of directories to create
//! and files to write under a destination.

use vstd::prelude::*;
use std::io::Cursor;
use zip::result::ZipError;
use zip::ZipArchive;
use crate::error::{EntryFault, Error, ErrorView};
use crate::paths::{is_separator, is_separator_char, join, join_spec, SEPARATOR};
use crate::text::{chars_of, ends_with_char, finishes_with};

verus! {

/// `zip::ZipArchive`, the reader of a zip archive. Nothing inside it is
/// visible here; what it holds goes by the name [`archive_entries`].
#[verifier::external_type_specification]
#[verifier::external_body]
#[verifier::reject_recursive_types(R)]
pub struct ExZipArchive<R>(ZipArchive<R>);

/// `std::io::Cursor`, which lets bytes in memory be read like a file.
#[verifier::external_type_specification]
#[verifier::external_body]
#[verifier::reject_recursive_types(T)]
pub struct ExCursor<T>(Cursor<T>);

/// `zip::result::ZipError`, the failure of an operation on an archive.
#[verifier::external_type_specification]
#[verifier::external_body]
pub struct ExZipError(ZipError);

/// What an opened archive holds: for each entry in stored order, nothing
/// where the archive will not hand the entry out, or else the entry's name
/// with its decoded content, the content being absent where it cannot be
/// decoded.
pub uninterp spec fn archive_entries(archive: ZipArchive<Cursor<Vec<u8>>>) -> Seq<
    Option<(Seq<char>, Option<Seq<u8>>)>,
>;

/// What the given bytes hold when read as a zip archive: nothing where they
/// are not an archive that can be decoded, or else its entries.
pub uninterp spec fn decoded_entries(bytes: Seq<u8>) -> Option<
    Seq<Option<(Seq<char>, Option<Seq<u8>>)>>,
>;

/// `ZipArchive::new` on the bytes: it reads the central directory and either
/// yields an archive that holds the entries which the bytes encode, or fails.
#[verifier::external_body]
fn open_archive(bytes: Vec<u8>) -> (opened: Result<ZipArchive<Cursor<Vec<u8>>>, ZipError>)
    ensures
        opened is Ok <==> decoded_entries(bytes@) is Some,
        opened matches Ok(archive) ==> Some(archive_entries(archive)) == decoded_entries(bytes@),
{
    ZipArchive::new(Cursor::new(bytes))
}

/// `ZipArchive::len`: the number of entries in the archive.
#[verifier::external_body]
fn archive_len(archive: &ZipArchive<Cursor<Vec<u8>>>) -> (count: usize)
    ensures
        count == archive_entries(*archive).len(),
{
    archive.len()
}

/// `ZipError`'s `Display`: the text in which the archive's error describes
/// itself. Nothing is claimed of the text.
#[verifier::external_body]
fn error_text(error: &ZipError) -> (text: String) {
    error.to_string()
}

/// The character that follows a drive letter.
pub const DRIVE_MARKER: char = ':';

/// A letter of the ASCII alphabet, as drives are named by.
pub open spec fn is_ascii_letter(c: char) -> bool {
    ('a' <= c && c <= 'z') || ('A' <= c && c <= 'Z')
}

/// One entry of an archive as it was read.
#[derive(Debug, PartialEq, Eq)]
pub struct ArchiveEntry {
    /// The name that the archive stores for the entry.
    pub name: String,
    /// The decoded content, or the reason why it could not be decoded.
    pub data: Result<Vec<u8>, String>,
}

/// One thing to do on disk for an entry.
#[derive(Debug, PartialEq, Eq)]
pub enum ExtractStep {
    /// Create the directory and any missing ancestors.
    CreateDirectory { path: String },
    /// Make sure that the parent directory exists, then create the file and
    /// fill it with the data.
    WriteFile { path: String, data: Vec<u8> },
}

/// What to do on disk for an archive: create the destination, carry out the
/// steps in order, one for each entry, and then report the failure if there
/// is one. Steps carried out before a failure are not undone.
#[derive(Debug, PartialEq, Eq)]
pub struct ExtractPlan {
    pub destination: String,
    pub steps: Vec<ExtractStep>,
    pub failure: Option<Error>,
}

/// What an archive holds in the place of one entry: nothing where it will
/// not hand the entry out, or else its name and its content, if that can be
/// decoded.
pub type EntryModel = Option<(Seq<char>, Option<Seq<u8>>)>;

/// One entry as it was read, as plain values: the reason where the archive
/// would not hand it out, or else its name and its content or the reason why
/// that could not be decoded.
pub type EntryView = Result<(Seq<char>, Result<Seq<u8>, Seq<char>>), Seq<char>>;

/// An [`ExtractStep`] as plain values.
pub enum StepView {
    CreateDirectory { path: Seq<char> },
    WriteFile { path: Seq<char>, data: Seq<u8> },
}

/// An [`ExtractPlan`] as plain values.
pub struct PlanView {
    pub destination: Seq<char>,
    pub steps: Seq<StepView>,
    pub failure: Option<ErrorView>,
}

impl View for ArchiveEntry {
    type V = (Seq<char>, Result<Seq<u8>, Seq<char>>);

    open spec fn view(&self) -> (Seq<char>, Result<Seq<u8>, Seq<char>>) {
        (
            self.name@,
            match self.data {
                Ok(data) => Ok(data@),
                Err(cause) => Err(cause@),
            },
        )
    }
}

/// What the archive holds where this entry was read: the entry without the
/// reasons.
pub open spec fn held(entry: EntryView) -> EntryModel {
    match entry {
        Ok((name, Ok(data))) => Some((name, Some(data))),
        Ok((name, Err(_))) => Some((name, None)),
        Err(_) => None,
    }
}

/// An entry that was read, as plain values.
pub open spec fn entry_view(entry: Result<ArchiveEntry, String>) -> EntryView {
    match entry {
        Ok(read) => Ok(read@),
        Err(cause) => Err(cause@),
    }
}

/// The entries that were read, as plain values.
pub open spec fn entry_views(entries: Seq<Result<ArchiveEntry, String>>) -> Seq<EntryView> {
    entries.map_values(|e: Result<ArchiveEntry, String>| entry_view(e))
}

/// `ZipArchive::by_index`, then `ZipFile::name` and `std::io::copy` out of
/// the entry: the entry at `index` with its name and its decoded content, or
/// with the text of the copy's error where the content cannot be decoded in
/// full; or the archive's error where it will not hand the entry out, as it
/// does for an index past the end. The archive holds afterwards what it held
/// before. Nothing is claimed of the text of an error.
#[verifier::external_body]
fn read_entry(archive: &mut ZipArchive<Cursor<Vec<u8>>>, index: usize) -> (entry: Result<
    ArchiveEntry,
    ZipError,
>)
    ensures
        archive_entries(*final(archive)) == archive_entries(*old(archive)),
        index >= archive_entries(*old(archive)).len() ==> entry is Err,
        index < archive_entries(*old(archive)).len() ==> match entry {
            Ok(read) => archive_entries(*old(archive))[index as int] == held(Ok(read@)),
            Err(_) => archive_entries(*old(archive))[index as int] is None,
        },
{
    let mut file = archive.by_index(index)?;
    let name = file.name().to_string();
    let mut data: Vec<u8> = Vec::new();
    let data = match std::io::copy(&mut file, &mut data) {
        Ok(_) => Ok(data),
        Err(e) => Err(e.to_string()),
    };
    Ok(ArchiveEntry { name, data })
}

impl View for ExtractStep {
    type V = StepView;

    open spec fn view(&self) -> StepView {
        match *self {
            ExtractStep::CreateDirectory { path } => StepView::CreateDirectory { path: path@ },
            ExtractStep::WriteFile { path, data } => StepView::WriteFile { path: path@, data: data@ },
        }
    }
}

impl View for ExtractPlan {
    type V = PlanView;

    open spec fn view(&self) -> PlanView {
        PlanView {
            destination: self.destination@,
            steps: self.steps@.map_values(|s: ExtractStep| s@),
            failure: match self.failure {
                Some(e) => Some(e@),
                None => None,
            },
        }
    }
}

/// The name starts at a root.
pub open spec fn is_rooted(name: Seq<char>) -> bool {
    name.len() > 0 && is_separator(name[0])
}

/// The name starts at the root of a drive: an ASCII letter, the drive
/// marker and a separator. A colon anywhere else is part of the name.
pub open spec fn has_drive(name: Seq<char>) -> bool {
    &&& name.len() >= 3
    &&& is_ascii_letter(name[0])
    &&& name[1] == DRIVE_MARKER
    &&& is_separator(name[2])
}

/// The component of the name that starts at `at` is `..`, the step up to the
/// parent directory.
pub open spec fn parent_segment_at(name: Seq<char>, at: int) -> bool {
    &&& 0 <= at
    &&& at + 2 <= name.len()
    &&& name[at] == '.'
    &&& name[at + 1] == '.'
    &&& (at == 0 || is_separator(name[at - 1]))
    &&& (at + 2 == name.len() || is_separator(name[at + 2]))
}

/// A name is safe to extract when it is relative, starting neither at a
/// root nor at the root of a drive, and no component of it steps up to a
/// parent directory.
pub open spec fn is_safe_name(name: Seq<char>) -> bool {
    &&& !is_rooted(name)
    &&& !has_drive(name)
    &&& forall|at: int| !parent_segment_at(name, at)
}

/// A name that ends with the separator stands for a directory.
pub open spec fn is_directory_name(name: Seq<char>) -> bool {
    finishes_with(name, SEPARATOR)
}

/// Why an entry cannot be extracted, if it cannot, and the cause that is
/// reported with it. The archive would not hand it out, and gave the reason;
/// or its name is not safe, and the name is reported; or it is a file whose
/// content cannot be decoded, for the reason given. The content of a
/// directory entry is never looked at.
pub open spec fn entry_fault(entry: EntryView) -> Option<(EntryFault, Seq<char>)> {
    match entry {
        Err(cause) => Some((EntryFault::Inaccessible, cause)),
        Ok((name, data)) => if !is_safe_name(name) {
            Some((EntryFault::UnsafeName, name))
        } else if is_directory_name(name) {
            None
        } else {
            match data {
                Err(cause) => Some((EntryFault::Unreadable, cause)),
                Ok(_) => None,
            }
        },
    }
}

/// What is wrong with an entry, if anything is, without the cause.
pub open spec fn fault_kind(entry: EntryView) -> Option<EntryFault> {
    match entry_fault(entry) {
        Some((kind, _)) => Some(kind),
        None => None,
    }
}

/// The name of an entry that the archive hands out.
pub open spec fn name_of(entry: EntryView) -> Seq<char> {
    let (name, _) = entry->Ok_0;
    name
}

/// The step for an entry that can be extracted: its path is the destination
/// joined with its name.
pub open spec fn step_of(destination: Seq<char>, entry: EntryView) -> StepView {
    let (name, data) = entry->Ok_0;
    if is_directory_name(name) {
        StepView::CreateDirectory { path: join_spec(destination, name) }
    } else {
        StepView::WriteFile { path: join_spec(destination, name), data: data->Ok_0 }
    }
}

/// The path that a step creates or writes.
pub open spec fn step_path(step: StepView) -> Seq<char> {
    match step {
        StepView::CreateDirectory { path } => path,
        StepView::WriteFile { path, .. } => path,
    }
}

/// The error for an entry that cannot be extracted: its index, what is wrong
/// with it, and the cause.
pub open spec fn entry_error(index: usize, entry: EntryView) -> ErrorView {
    let (fault, cause) = entry_fault(entry)->0;
    ErrorView::ArchiveEntryError(index, fault, cause)
}

/// What extracting one entry comes to: its step, or its error.
pub open spec fn step_result(destination: Seq<char>, index: usize, entry: EntryView) -> Result<
    StepView,
    ErrorView,
> {
    if entry_fault(entry) is Some {
        Err(entry_error(index, entry))
    } else {
        Ok(step_of(destination, entry))
    }
}

/// `plan` is the plan for these entries under `destination`: it holds the
/// steps of the entries before the first one that cannot be extracted, in
/// order, and its failure names that entry with its fault and cause, or is
/// absent when there is none.
pub open spec fn plans(destination: Seq<char>, entries: Seq<EntryView>, plan: PlanView) -> bool {
    let done = plan.steps.len() as int;
    &&& plan.destination == destination
    &&& done <= entries.len()
    &&& forall|j: int|
        0 <= j < done ==> entry_fault(#[trigger] entries[j]) is None && plan.steps[j] == step_of(
            destination,
            entries[j],
        )
    &&& if done < entries.len() {
        &&& entry_fault(entries[done]) is Some
        &&& plan.failure == Some(entry_error(done as usize, entries[done]))
    } else {
        plan.failure is None
    }
}

/// The entries are what an archive that holds `stored` hands out: entry for
/// entry the same names and contents, with whatever reasons the archive
/// gives where it fails.
pub open spec fn reads_of(stored: Seq<EntryModel>, entries: Seq<EntryView>) -> bool {
    &&& entries.len() == stored.len()
    &&& forall|j: int| 0 <= j < stored.len() ==> held(#[trigger] entries[j]) == stored[j]
}

/// What extracting the given bytes under `destination` comes to. Where the
/// bytes are not an archive there is no plan, only the parse error with the
/// archive's reason. Otherwise it is the plan for the entries that the
/// archive hands out.
pub open spec fn extracts(
    destination: Seq<char>,
    decoded: Option<Seq<EntryModel>>,
    result: Result<PlanView, ErrorView>,
) -> bool {
    match (decoded, result) {
        (None, Err(ErrorView::ArchiveParseError(_))) => true,
        (Some(stored), Ok(plan)) => exists|entries: Seq<EntryView>|
            reads_of(stored, entries) && #[trigger] plans(destination, entries, plan),
        _ => false,
    }
}

/// A safe name keeps an entry inside the destination. Joined to any
/// destination, it leaves the destination standing at the front, follows it
/// unchanged at the end, and brings no step up to a parent directory.
pub proof fn lemma_safe_name_stays_inside(destination: Seq<char>, name: Seq<char>)
    requires
        is_safe_name(name),
    ensures
        destination.is_prefix_of(join_spec(destination, name)),
        name.is_suffix_of(join_spec(destination, name)),
        join_spec(destination, name).len() <= destination.len() + 1 + name.len(),
        forall|at: int|
            join_spec(destination, name).len() - name.len() <= at ==> !parent_segment_at(
                join_spec(destination, name),
                at,
            ),
{
    let joined = join_spec(destination, name);
    let offset = joined.len() - name.len();
    assert forall|at: int| offset <= at implies !parent_segment_at(joined, at) by {
        if parent_segment_at(joined, at) {
            let inner = at - offset;
            assert(parent_segment_at(name, inner));
        }
    }
}

/// Every step of a plan is for an entry with a safe name, and its path is
/// the destination joined with that name.
pub proof fn lemma_plan_stays_inside(destination: Seq<char>, entries: Seq<EntryView>, plan: PlanView)
    requires
        plans(destination, entries, plan),
    ensures
        forall|j: int|
            0 <= j < plan.steps.len() ==> (#[trigger] entries[j]) is Ok && is_safe_name(
                name_of(entries[j]),
            ) && step_path(plan.steps[j]) == join_spec(destination, name_of(entries[j])),
{
    assert forall|j: int| 0 <= j < plan.steps.len() implies (#[trigger] entries[j]) is Ok
        && is_safe_name(name_of(entries[j])) && step_path(plan.steps[j]) == join_spec(
        destination,
        name_of(entries[j]),
    ) by {}
}

/// The entries decide the plan: two plans for the same entries under the
/// same destination are the same plan.
pub proof fn lemma_plan_is_determined(
    destination: Seq<char>,
    entries: Seq<EntryView>,
    first: PlanView,
    second: PlanView,
)
    requires
        plans(destination, entries, first),
        plans(destination, entries, second),
    ensures
        first == second,
{
    let a = first.steps.len() as int;
    assert forall|j: int| 0 <= j < a implies first.steps[j] == second.steps[j] by {
        assert(entry_fault(entries[j]) is None);
    }
    assert(first.steps =~= second.steps);
}

/// Where a plan fails, if it does: the index of the entry and what is wrong
/// with it, without the cause.
pub open spec fn failure_place(failure: Option<ErrorView>) -> Option<(usize, EntryFault)> {
    match failure {
        Some(ErrorView::ArchiveEntryError(index, fault, _)) => Some((index, fault)),
        _ => None,
    }
}

/// What the archive holds decides which entries get a step and what the
/// steps are: two readings of the same archive give plans with the same
/// steps, and a failure at the same entry with the same fault. Only the
/// reason that the archive gives for a failure is its own.
pub proof fn lemma_archive_decides_the_steps(
    destination: Seq<char>,
    stored: Seq<EntryModel>,
    first_read: Seq<EntryView>,
    second_read: Seq<EntryView>,
    first: PlanView,
    second: PlanView,
)
    requires
        reads_of(stored, first_read),
        reads_of(stored, second_read),
        plans(destination, first_read, first),
        plans(destination, second_read, second),
    ensures
        first.steps == second.steps,
        failure_place(first.failure) == failure_place(second.failure),
{
    assert forall|j: int| 0 <= j < stored.len() implies fault_kind(first_read[j]) == fault_kind(
        second_read[j],
    ) && (fault_kind(first_read[j]) is None ==> step_of(destination, first_read[j]) == step_of(
        destination,
        second_read[j],
    )) by {
        assert(held(first_read[j]) == stored[j]);
        assert(held(second_read[j]) == stored[j]);
    }
    let a = first.steps.len() as int;
    let b = second.steps.len() as int;
    if a < b {
        assert(entry_fault(second_read[a]) is None);
    }
    if b < a {
        assert(entry_fault(first_read[b]) is None);
    }
    assert forall|j: int| 0 <= j < a implies first.steps[j] == second.steps[j] by {
        assert(entry_fault(first_read[j]) is None);
        assert(entry_fault(second_read[j]) is None);
    }
    assert(first.steps =~= second.steps);
}

/// Whether the character is a letter of the ASCII alphabet.
pub fn is_ascii_letter_char(c: char) -> (r: bool)
    ensures
        r == is_ascii_letter(c),
{
    ('a' <= c && c <= 'z') || ('A' <= c && c <= 'Z')
}

/// Whether the name stands for a directory.
pub fn is_directory_marker(name: &str) -> (r: bool)
    ensures
        r == is_directory_name(name@),
{
    ends_with_char(name, SEPARATOR)
}

/// Whether an entry of this name may be extracted: the name is relative and
/// never steps up to a parent directory.
pub fn is_safe_entry_name(name: &str) -> (safe: bool)
    ensures
        safe == is_safe_name(name@),
{
    let chars = chars_of(name);
    let n: usize = chars.len();
    if n > 0 && is_separator_char(chars[0]) {
        return false;
    }
    if n >= 3 && is_ascii_letter_char(chars[0]) && chars[1] == DRIVE_MARKER && is_separator_char(
        chars[2],
    ) {
        return false;
    }
    let mut at: usize = 0;
    while at < n
        invariant
            chars@ == name@,
            n == chars@.len(),
            0 <= at <= n,
            forall|k: int| 0 <= k < at ==> !parent_segment_at(name@, k),
        decreases n - at,
    {
        if n - at >= 2 && chars[at] == '.' && chars[at + 1] == '.' && (at == 0 || is_separator_char(
            chars[at - 1],
        )) && (n - at == 2 || is_separator_char(chars[at + 2])) {
            assert(parent_segment_at(name@, at as int));
            return false;
        }
        at += 1;
    }
    true
}

/// Why an entry that was read cannot be extracted, if it cannot, with the
/// cause to report.
pub fn fault_of(entry: &Result<ArchiveEntry, String>) -> (fault: Option<(EntryFault, String)>)
    ensures
        entry_fault(entry_view(*entry)) == (match fault {
            Some((kind, cause)) => Some((kind, cause@)),
            None => None,
        }),
{
    match entry {
        Err(cause) => Some((EntryFault::Inaccessible, cause.clone())),
        Ok(read) => {
            if !is_safe_entry_name(read.name.as_str()) {
                Some((EntryFault::UnsafeName, read.name.clone()))
            } else if is_directory_marker(read.name.as_str()) {
                None
            } else {
                match &read.data {
                    Err(cause) => Some((EntryFault::Unreadable, cause.clone())),
                    Ok(_) => None,
                }
            }
        },
    }
}

/// The step for one entry that was read, or the error that names its index,
/// what is wrong with it, and the cause.
pub fn entry_step(destination: &str, index: usize, entry: Result<ArchiveEntry, String>) -> (result:
    Result<ExtractStep, Error>)
    ensures
        step_result(destination@, index, entry_view(entry)) == (match result {
            Ok(step) => Ok::<StepView, ErrorView>(step@),
            Err(e) => Err::<StepView, ErrorView>(e@),
        }),
{
    match fault_of(&entry) {
        Some((fault, cause)) => Err(Error::ArchiveEntryError(index, fault, cause)),
        None => {
            let ArchiveEntry { name, data } = entry.unwrap();
            let path = join(destination, name.as_str());
            if is_directory_marker(name.as_str()) {
                Ok(ExtractStep::CreateDirectory { path })
            } else {
                Ok(ExtractStep::WriteFile { path, data: data.unwrap() })
            }
        },
    }
}

/// Plans the extraction of entries that were read, in their stored order,
/// under `destination`. The plan stops at the first entry that cannot be
/// extracted and names it.
pub fn plan_extraction(destination: &str, entries: Vec<Result<ArchiveEntry, String>>) -> (plan:
    ExtractPlan)
    ensures
        plans(destination@, entry_views(entries@), plan@),
{
    let ghost views = entry_views(entries@);
    let mut steps: Vec<ExtractStep> = Vec::new();
    let mut failure: Option<Error> = None;
    let mut index: usize = 0;
    let count: usize = entries.len();
    for entry in it: entries.into_iter()
        invariant
            it.seq() == entries@,
            count == entries@.len(),
            views == entry_views(entries@),
            index == it.index(),
            index <= entries@.len(),
            steps@.len() <= index,
            forall|j: int|
                0 <= j < steps@.len() ==> entry_fault(#[trigger] views[j]) is None && steps@[j]@
                    == step_of(destination@, views[j]),
            match failure {
                None => steps@.len() == index,
                Some(e) => steps@.len() < index && entry_fault(views[steps@.len() as int]) is Some
                    && e@ == entry_error(steps@.len() as usize, views[steps@.len() as int]),
            },
    {
        assert(index < entries@.len());
        assert(views[index as int] == entry_view(entry));
        if failure.is_none() {
            match entry_step(destination, index, entry) {
                Ok(step) => {
                    steps.push(step);
                },
                Err(e) => {
                    failure = Some(e);
                },
            }
        }
        index += 1;
    }
    ExtractPlan { destination: String::from_str(destination), steps, failure }
}

/// The entry at `index` as the archive hands it out, or the archive's reason
/// where it does not.
fn entry_at(archive: &mut ZipArchive<Cursor<Vec<u8>>>, index: usize) -> (entry: Result<
    ArchiveEntry,
    String,
>)
    requires
        index < archive_entries(*old(archive)).len(),
    ensures
        archive_entries(*final(archive)) == archive_entries(*old(archive)),
        held(entry_view(entry)) == archive_entries(*old(archive))[index as int],
{
    match read_entry(archive, index) {
        Ok(read) => Ok(read),
        Err(e) => Err(error_text(&e)),
    }
}

/// The entries that need to be read for a plan: those up to the first one
/// that cannot be extracted, that one included.
pub open spec fn is_read_prefix(entries: Seq<EntryView>, count: int) -> bool {
    &&& 0 <= count <= entries.len()
    &&& forall|j: int| 0 <= j < count - 1 ==> entry_fault(#[trigger] entries[j]) is None
    &&& count < entries.len() ==> count > 0 && entry_fault(entries[count - 1]) is Some
}

/// A plan for the entries up to the first one that cannot be extracted is
/// the plan for all entries: what follows that entry plays no part.
pub proof fn lemma_plan_of_read_prefix(
    destination: Seq<char>,
    entries: Seq<EntryView>,
    count: int,
    plan: PlanView,
)
    requires
        is_read_prefix(entries, count),
        plans(destination, entries.take(count), plan),
    ensures
        plans(destination, entries, plan),
{
    let read = entries.take(count);
    let done = plan.steps.len() as int;
    assert forall|j: int| 0 <= j < done implies entry_fault(#[trigger] entries[j]) is None
        && plan.steps[j] == step_of(destination, entries[j]) by {
        assert(read[j] == entries[j]);
    }
    if count < entries.len() {
        assert(read[count - 1] == entries[count - 1]);
        assert(done < count);
        assert(read[done] == entries[done]);
    } else {
        assert(read =~= entries);
    }
}

/// An entry as the archive holds it, read with no reason given for what
/// fails.
pub open spec fn read_bare(stored: EntryModel) -> EntryView {
    match stored {
        Some((name, Some(data))) => Ok((name, Ok(data))),
        Some((name, None)) => Ok((name, Err(Seq::empty()))),
        None => Err(Seq::empty()),
    }
}

/// Reads the entries of the archive in stored order, up to the first one
/// that cannot be extracted.
fn read_entries(archive: &mut ZipArchive<Cursor<Vec<u8>>>) -> (entries: Vec<
    Result<ArchiveEntry, String>,
>)
    ensures
        archive_entries(*final(archive)) == archive_entries(*old(archive)),
        entries@.len() <= archive_entries(*old(archive)).len(),
        forall|j: int|
            0 <= j < entries@.len() ==> held(entry_view(#[trigger] entries@[j]))
                == archive_entries(*old(archive))[j],
        forall|j: int|
            0 <= j < entries@.len() - 1 ==> entry_fault(entry_view(#[trigger] entries@[j])) is None,
        entries@.len() < archive_entries(*old(archive)).len() ==> entries@.len() > 0 && entry_fault(
            entry_view(entries@[entries@.len() - 1]),
        ) is Some,
{
    let ghost stored = archive_entries(*archive);
    let count: usize = archive_len(archive);
    let mut entries: Vec<Result<ArchiveEntry, String>> = Vec::new();
    let mut index: usize = 0;
    while index < count
        invariant_except_break
            0 <= index <= count,
            entries@.len() == index,
            forall|j: int| 0 <= j < index ==> entry_fault(entry_view(#[trigger] entries@[j])) is None,
        invariant
            archive_entries(*archive) == stored,
            count == stored.len(),
            entries@.len() <= stored.len(),
            forall|j: int|
                0 <= j < entries@.len() ==> held(entry_view(#[trigger] entries@[j])) == stored[j],
        ensures
            forall|j: int|
                0 <= j < entries@.len() - 1 ==> entry_fault(entry_view(#[trigger] entries@[j]))
                    is None,
            entries@.len() < stored.len() ==> entries@.len() > 0 && entry_fault(
                entry_view(entries@[entries@.len() - 1]),
            ) is Some,
        decreases count - index,
    {
        let entry = entry_at(archive, index);
        let stop = fault_of(&entry).is_some();
        entries.push(entry);
        if stop {
            break;
        }
        index += 1;
    }
    entries
}

/// Plans the extraction of the zip archive that `bytes` hold into
/// `destination_path`. Bytes that are no archive are refused, with the
/// archive's reason. Otherwise the plan creates a directory for each entry
/// whose name ends with `/` and writes a file for each other entry, in
/// stored order, up to the first entry that cannot be read or whose name
/// would leave the destination.
pub fn extract_zip(bytes: Vec<u8>, destination_path: &str) -> (result: Result<ExtractPlan, Error>)
    ensures
        extracts(
            destination_path@,
            decoded_entries(bytes@),
            match result {
                Ok(plan) => Ok(plan@),
                Err(e) => Err(e@),
            },
        ),
{
    match open_archive(bytes) {
        Err(e) => Err(Error::ArchiveParseError(error_text(&e))),
        Ok(mut archive) => {
            let ghost stored = archive_entries(archive);
            let entries = read_entries(&mut archive);
            let ghost read = entry_views(entries@);
            let plan = plan_extraction(destination_path, entries);
            proof {
                let all = Seq::new(
                    stored.len(),
                    |j: int| if j < read.len() {
                        read[j]
                    } else {
                        read_bare(stored[j])
                    },
                );
                assert(all.take(read.len() as int) =~= read);
                assert forall|j: int| 0 <= j < stored.len() implies held(#[trigger] all[j])
                    == stored[j] by {
                    if j < read.len() {
                        assert(read[j] == entry_view(entries@[j]));
                    }
                }
                assert(is_read_prefix(all, read.len() as int)) by {
                    assert forall|j: int| 0 <= j < read.len() - 1 implies entry_fault(
                        #[trigger] all[j],
                    ) is None by {
                        assert(all[j] == entry_view(entries@[j]));
                    }
                    if read.len() < all.len() {
                        assert(all[read.len() - 1] == entry_view(entries@[entries@.len() - 1]));
                    }
                }
                lemma_plan_of_read_prefix(destination_path@, all, read.len() as int, plan@);
                assert(reads_of(stored, all) && plans(destination_path@, all, plan@));
            }
            Ok(plan)
        },
    }
}

} // verus!
