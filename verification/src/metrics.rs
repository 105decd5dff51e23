//! The figures of a project: how many files, lines, bytes and tokens.

use vstd::prelude::*;
use crate::chunking::shown_path;
use crate::order::{par_sort_by_key, sorted_by_key, SortKey};
use crate::paths::relative_to;
use crate::text::chars_of;

verus! {

/// The figures of one file.
#[derive(Debug, Clone)]
pub struct FileMetrics {
    pub path: String,
    pub lines: usize,
    pub bytes: usize,
    pub bytes_readable: String,
    pub estimated_tokens: usize,
}

/// The figures of a project: the totals, and the figures of each file that
/// is not empty, sorted by path. A total that does not fit its type stays at
/// the type's greatest value.
#[derive(Debug, Clone)]
pub struct ProjectMetrics {
    pub total_files: usize,
    pub total_lines: usize,
    pub total_bytes: u128,
    pub total_bytes_readable: String,
    pub estimated_tokens: usize,
    pub files_details: Vec<FileMetrics>,
}

/// One file as it enters the figures: its absolute path, its text, its size
/// in bytes, and the number of tokens that its text was counted to have.
#[derive(Debug, Clone)]
pub struct MeasuredFile {
    pub path: String,
    pub content: String,
    pub size: usize,
    pub tokens: usize,
}

/// A number of bytes as a person reads it, in binary units.
pub uninterp spec fn readable_size(bytes: u128) -> Seq<char>;

/// `byte_unit`: a number of bytes in the binary unit that suits it, as text.
/// A number too large for the crate counts as zero.
#[verifier::external_body]
fn readable_bytes(bytes: u128) -> (r: String)
    ensures
        r@ == readable_size(bytes),
{
    byte_unit::Byte::from_u128(bytes).unwrap_or_default().get_appropriate_unit(
        byte_unit::UnitType::Binary,
    ).to_string()
}

/// The number of times `c` occurs in `s`.
pub open spec fn count_char(s: Seq<char>, c: char) -> nat
    decreases s.len(),
{
    if s.len() == 0 {
        0
    } else {
        count_char(s.drop_last(), c) + if s.last() == c {
            1nat
        } else {
            0nat
        }
    }
}

/// The number of lines of a text: one for each line break, and one more for
/// what follows the last line break, if anything does.
pub open spec fn line_count_spec(s: Seq<char>) -> nat {
    count_char(s, '\n') + if s.len() > 0 && s.last() != '\n' {
        1nat
    } else {
        0nat
    }
}

/// Counts the lines of a text.
pub fn line_count(text: &str) -> (r: usize)
    ensures
        r == line_count_spec(text@),
{
    let chars = chars_of(text);
    let n = chars.len();
    let mut breaks: usize = 0;
    let mut i: usize = 0;
    proof {
        assert(text@.take(0) =~= Seq::<char>::empty());
    }
    while i < n
        invariant
            0 <= i <= n,
            n == chars.len(),
            chars@ == text@,
            breaks == count_char(text@.take(i as int), '\n'),
            breaks <= i,
        decreases n - i,
    {
        proof {
            let upto = text@.take(i + 1);
            assert(upto.drop_last() =~= text@.take(i as int));
            assert(upto.last() == chars@[i as int]);
        }
        if chars[i] == '\n' {
            breaks = breaks + 1;
        }
        i = i + 1;
    }
    proof {
        assert(text@.take(n as int) =~= text@);
    }
    if n > 0 && chars[n - 1] != '\n' {
        proof {
            count_below_length(text@, '\n');
        }
        breaks + 1
    } else {
        breaks
    }
}

/// A text that does not end in `c` holds fewer `c` than characters.
proof fn count_below_length(s: Seq<char>, c: char)
    requires
        s.len() > 0,
        s.last() != c,
    ensures
        count_char(s, c) < s.len(),
{
    count_at_most_length(s.drop_last(), c);
}

/// A text holds at most as many `c` as characters.
proof fn count_at_most_length(s: Seq<char>, c: char)
    ensures
        count_char(s, c) <= s.len(),
    decreases s.len(),
{
    if s.len() > 0 {
        count_at_most_length(s.drop_last(), c);
    }
}

/// The totals of the files that are not empty.
pub ghost struct TotalsModel {
    pub files: usize,
    pub lines: usize,
    pub bytes: u128,
    pub tokens: usize,
}

/// The totals after all the given files, taken in order. Empty files do not
/// count.
pub open spec fn totals_of(files: Seq<MeasuredFile>) -> TotalsModel
    decreases files.len(),
{
    if files.len() == 0 {
        TotalsModel { files: 0, lines: 0, bytes: 0, tokens: 0 }
    } else {
        let earlier = totals_of(files.drop_last());
        let f = files.last();
        if f.size == 0 {
            earlier
        } else {
            TotalsModel {
                files: earlier.files.saturating_add(1),
                lines: earlier.lines.saturating_add(line_count_spec(f.content@) as usize),
                bytes: earlier.bytes.saturating_add(f.size as u128),
                tokens: earlier.tokens.saturating_add(f.tokens),
            }
        }
    }
}

/// The figures of one file are those of the measured file, under its shown
/// path.
pub open spec fn is_metrics_of(m: FileMetrics, f: MeasuredFile, project_root: Seq<char>) -> bool {
    &&& m.path@ == shown_path(f.path@, project_root)
    &&& m.lines == line_count_spec(f.content@)
    &&& m.bytes == f.size
    &&& m.bytes_readable@ == readable_size(f.size as u128)
    &&& m.estimated_tokens == f.tokens
}

/// The measured files that are not empty, in order.
pub open spec fn nonempty_files(files: Seq<MeasuredFile>) -> Seq<MeasuredFile>
    decreases files.len(),
{
    if files.len() == 0 {
        Seq::empty()
    } else {
        let earlier = nonempty_files(files.drop_last());
        if files.last().size == 0 {
            earlier
        } else {
            earlier.push(files.last())
        }
    }
}

/// The figures are, in order, those of the given files.
pub open spec fn details_of(
    details: Seq<FileMetrics>,
    files: Seq<MeasuredFile>,
    project_root: Seq<char>,
) -> bool {
    &&& details.len() == files.len()
    &&& forall|i: int|
        0 <= i < details.len() ==> is_metrics_of(#[trigger] details[i], files[i], project_root)
}

impl SortKey for FileMetrics {
    open spec fn key(&self) -> Seq<char> {
        self.path@
    }

    fn sort_key(&self) -> (r: &str) {
        self.path.as_str()
    }
}

/// Works out the figures of a project from its measured files.
pub fn calculate_metrics(files: &Vec<MeasuredFile>, project_root: &str) -> (r: ProjectMetrics)
    ensures
        r.total_files == totals_of(files@).files,
        r.total_lines == totals_of(files@).lines,
        r.total_bytes == totals_of(files@).bytes,
        r.estimated_tokens == totals_of(files@).tokens,
        r.total_bytes_readable@ == readable_size(totals_of(files@).bytes),
        sorted_by_key(r.files_details@),
        exists|unsorted: Seq<FileMetrics>|
            #![auto]
            details_of(unsorted, nonempty_files(files@), project_root@)
                && r.files_details@.to_multiset() == unsorted.to_multiset(),
{
    let mut total_files: usize = 0;
    let mut total_lines: usize = 0;
    let mut total_bytes: u128 = 0;
    let mut total_tokens: usize = 0;
    let mut files_details: Vec<FileMetrics> = Vec::new();
    let mut i: usize = 0;
    proof {
        assert(files@.take(0) =~= Seq::<MeasuredFile>::empty());
    }
    while i < files.len()
        invariant
            0 <= i <= files.len(),
            total_files == totals_of(files@.take(i as int)).files,
            total_lines == totals_of(files@.take(i as int)).lines,
            total_bytes == totals_of(files@.take(i as int)).bytes,
            total_tokens == totals_of(files@.take(i as int)).tokens,
            details_of(files_details@, nonempty_files(files@.take(i as int)), project_root@),
        decreases files.len() - i,
    {
        proof {
            let upto = files@.take(i + 1);
            assert(upto.drop_last() =~= files@.take(i as int));
            assert(upto.last() == files@[i as int]);
        }
        let file_info = &files[i];
        if file_info.size != 0 {
            let lines = line_count(file_info.content.as_str());
            let bytes = file_info.size;
            let tokens = file_info.tokens;
            let relative_path = match relative_to(file_info.path.as_str(), project_root) {
                Some(relative) => relative,
                None => file_info.path.clone(),
            };
            total_files = total_files.saturating_add(1);
            total_lines = total_lines.saturating_add(lines);
            total_bytes = total_bytes.saturating_add(bytes as u128);
            total_tokens = total_tokens.saturating_add(tokens);
            files_details.push(
                FileMetrics {
                    path: relative_path,
                    lines,
                    bytes,
                    bytes_readable: readable_bytes(bytes as u128),
                    estimated_tokens: tokens,
                },
            );
        }
        i = i + 1;
    }
    proof {
        assert(files@.take(i as int) =~= files@);
    }
    let ghost unsorted = files_details@;
    par_sort_by_key(&mut files_details);
    ProjectMetrics {
        total_files,
        total_lines,
        total_bytes,
        total_bytes_readable: readable_bytes(total_bytes),
        estimated_tokens: total_tokens,
        files_details,
    }
}

} // verus!
