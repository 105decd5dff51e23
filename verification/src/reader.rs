//! What becomes of the files that were read: which ones count as text, and
//! how failures are kept apart from files that are simply not text.

use vstd::prelude::*;
use vstd::utf8::{decode_utf8, valid_utf8};
use crate::error::AppError;
use crate::gather::FileInfo;

verus! {

/// What reading one file gave.
#[derive(Debug, Clone)]
pub enum ReadOutcome {
    /// The file was read and is text.
    Text(FileInfo),
    /// The file was read and is not UTF-8. This is expected of binary files
    /// and is no failure.
    NotText { path: String },
    /// The file could not be read.
    Failed { path: String, error: String },
}

/// The description of why bytes are not UTF-8.
pub uninterp spec fn utf8_error_text(bytes: Seq<u8>) -> Seq<char>;

/// `String::from_utf8`: the text that the bytes encode if they are valid
/// UTF-8, else the error's description.
#[verifier::external_body]
pub(crate) fn text_from_utf8(bytes: Vec<u8>) -> (r: Result<String, String>)
    ensures
        match r {
            Ok(text) => valid_utf8(bytes@) && text@ == decode_utf8(bytes@),
            Err(msg) => !valid_utf8(bytes@) && msg@ == utf8_error_text(bytes@),
        },
{
    String::from_utf8(bytes).map_err(|e| e.to_string())
}

/// Turns the bytes of a file into the outcome of reading it: text if they
/// are valid UTF-8, with the number of bytes as size; not text otherwise.
pub fn decode_file(path: String, bytes: Vec<u8>) -> (r: ReadOutcome)
    ensures
        match r {
            ReadOutcome::Text(file) => {
                &&& valid_utf8(bytes@)
                &&& file.path == path
                &&& file.content@ == decode_utf8(bytes@)
                &&& file.size == bytes@.len()
            },
            ReadOutcome::NotText { path: p } => !valid_utf8(bytes@) && p == path,
            ReadOutcome::Failed { .. } => false,
        },
{
    let size = bytes.len();
    match text_from_utf8(bytes) {
        Ok(content) => ReadOutcome::Text(FileInfo { path, content, size }),
        Err(_) => ReadOutcome::NotText { path },
    }
}

/// The files among the outcomes, in order.
pub open spec fn read_files(outcomes: Seq<ReadOutcome>) -> Seq<FileInfo>
    decreases outcomes.len(),
{
    if outcomes.len() == 0 {
        Seq::empty()
    } else {
        let earlier = read_files(outcomes.drop_last());
        match outcomes.last() {
            ReadOutcome::Text(file) => earlier.push(file),
            _ => earlier,
        }
    }
}

/// The failures among the outcomes, in order: each with its path and what
/// went wrong.
pub open spec fn read_failures(outcomes: Seq<ReadOutcome>) -> Seq<(Seq<char>, Seq<char>)>
    decreases outcomes.len(),
{
    if outcomes.len() == 0 {
        Seq::empty()
    } else {
        let earlier = read_failures(outcomes.drop_last());
        match outcomes.last() {
            ReadOutcome::Failed { path, error } => earlier.push((path@, error@)),
            _ => earlier,
        }
    }
}

/// The failures that a list of errors stands for: every error is a failed
/// read, with its path and what went wrong.
pub open spec fn are_read_errors(errors: Seq<AppError>, failures: Seq<(Seq<char>, Seq<char>)>) -> bool {
    &&& errors.len() == failures.len()
    &&& forall|i: int|
        0 <= i < errors.len() ==> is_read_error(#[trigger] errors[i], failures[i].0, failures[i].1)
}

/// `e` is the error of a read of `path` that failed with `source`.
pub open spec fn is_read_error(e: AppError, path: Seq<char>, source: Seq<char>) -> bool {
    e matches AppError::FileRead { path: p, source: s } && p@ == path && s@ == source
}

/// Sorts the outcomes of reading: the files that are text are kept, in
/// order; the failures are kept as errors, in order; files that are not text
/// are left out of both.
pub fn collect_read_results(outcomes: Vec<ReadOutcome>) -> (r: (Vec<FileInfo>, Vec<AppError>))
    ensures
        r.0@ == read_files(outcomes@),
        are_read_errors(r.1@, read_failures(outcomes@)),
{
    let mut files: Vec<FileInfo> = Vec::new();
    let mut errors: Vec<AppError> = Vec::new();
    let ghost all = outcomes@;
    proof {
        assert(all.take(0) =~= Seq::<ReadOutcome>::empty());
    }
    for outcome in it: outcomes
        invariant
            it.seq() == all,
            files@ == read_files(all.take(it.index() as int)),
            are_read_errors(errors@, read_failures(all.take(it.index() as int))),
    {
        proof {
            let upto = all.take(it.index() + 1);
            assert(upto.drop_last() =~= all.take(it.index() as int));
            assert(upto.last() == outcome);
        }
        match outcome {
            ReadOutcome::Text(file) => {
                files.push(file);
            },
            ReadOutcome::NotText { .. } => {},
            ReadOutcome::Failed { path, error } => {
                errors.push(AppError::FileRead { path, source: error });
            },
        }
    }
    proof {
        assert(all.take(all.len() as int) =~= all);
    }
    (files, errors)
}

/// The files and the failures of two runs of outcomes, one after the other,
/// are those of the first followed by those of the second.
pub proof fn lemma_read_concat(a: Seq<ReadOutcome>, b: Seq<ReadOutcome>)
    ensures
        read_files(a + b) == read_files(a) + read_files(b),
        read_failures(a + b) == read_failures(a) + read_failures(b),
    decreases b.len(),
{
    if b.len() == 0 {
        assert(a + b =~= a);
        assert(read_files(a) + read_files(b) =~= read_files(a));
        assert(read_failures(a) + read_failures(b) =~= read_failures(a));
    } else {
        let ab = a + b;
        assert(ab.drop_last() =~= a + b.drop_last());
        assert(ab.last() == b.last());
        lemma_read_concat(a, b.drop_last());
        assert(read_files(ab) =~= read_files(a) + read_files(b));
        assert(read_failures(ab) =~= read_failures(a) + read_failures(b));
    }
}

/// A file that is not UTF-8 leaves no trace: the files and the failures are
/// what they would be had that file never been read.
pub proof fn law_not_text_leaves_no_trace(outcomes: Seq<ReadOutcome>, i: int)
    requires
        0 <= i < outcomes.len(),
        outcomes[i] is NotText,
    ensures
        read_files(outcomes) == read_files(outcomes.remove(i)),
        read_failures(outcomes) == read_failures(outcomes.remove(i)),
{
    lemma_read_one_out(outcomes, i);
}

/// A read that fails does not touch the others: the files are what they
/// would be had the failing file never been read.
pub proof fn law_failure_keeps_others(outcomes: Seq<ReadOutcome>, i: int)
    requires
        0 <= i < outcomes.len(),
        outcomes[i] is Failed,
    ensures
        read_files(outcomes) == read_files(outcomes.remove(i)),
{
    lemma_read_one_out(outcomes, i);
}

/// What one outcome adds to the files and to the failures.
proof fn lemma_read_one_out(outcomes: Seq<ReadOutcome>, i: int)
    requires
        0 <= i < outcomes.len(),
    ensures
        !(outcomes[i] is Text) ==> read_files(outcomes) == read_files(outcomes.remove(i)),
        !(outcomes[i] is Failed) ==> read_failures(outcomes) == read_failures(outcomes.remove(i)),
{
    let before = outcomes.take(i);
    let one = seq![outcomes[i]];
    let after = outcomes.skip(i + 1);
    assert(outcomes =~= before + one + after);
    assert(outcomes.remove(i) =~= before + after);
    lemma_read_concat(before + one, after);
    lemma_read_concat(before, one);
    lemma_read_concat(before, after);
    assert(one.drop_last() =~= Seq::<ReadOutcome>::empty());
    assert(read_files(one.drop_last()) =~= Seq::<FileInfo>::empty());
    assert(read_failures(one.drop_last()) =~= Seq::<(Seq<char>, Seq<char>)>::empty());
    if !(outcomes[i] is Text) {
        assert(read_files(one) =~= Seq::<FileInfo>::empty());
        assert(read_files(before) + read_files(one) =~= read_files(before));
    }
    if !(outcomes[i] is Failed) {
        assert(read_failures(one) =~= Seq::<(Seq<char>, Seq<char>)>::empty());
        assert(read_failures(before) + read_failures(one) =~= read_failures(before));
    }
}

} // verus!
