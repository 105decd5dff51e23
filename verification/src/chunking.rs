//! Splitting the source files into chunks of bounded size.

use vstd::prelude::*;
use vstd::string::StringExecFns;
use vstd::utf8::encode_utf8;
use crate::error::AppError;
use crate::gather::FileInfo;
use crate::output_formats::{ChunkFile, ChunkInfo, FileContextInfo};
use crate::paths::{path_difference, relative_to};
use crate::text::concat2;

verus! {

/// What a text such as `5MB` or `1024kb` means as a size: a number of
/// bytes, or the description of why it is no size.
pub uninterp spec fn parsed_byte_size(text: Seq<char>) -> Result<u128, Seq<char>>;

/// `byte_unit::Byte::from_str`: reads a text such as `5MB` as a number of
/// bytes; a text that is no size gives the error's description.
#[verifier::external_body]
fn parse_byte_size(text: &str) -> (r: Result<u128, String>)
    ensures
        match r {
            Ok(bytes) => parsed_byte_size(text@) == Ok::<u128, Seq<char>>(bytes),
            Err(msg) => parsed_byte_size(text@) == Err::<u128, Seq<char>>(msg@),
        },
{
    <byte_unit::Byte as std::str::FromStr>::from_str(text).map(|b| b.as_u128()).map_err(
        |e| e.to_string(),
    )
}

/// The size that a file counts with: the length of its text in bytes.
pub open spec fn byte_len(file: FileContextInfo) -> usize {
    encode_utf8(file.content@).len() as usize
}

/// Where splitting stands: the chunks that are complete, the chunk that is
/// being filled, and the size of what it holds.
pub ghost struct ChunkState {
    pub done: Seq<Seq<FileContextInfo>>,
    pub current: Seq<FileContextInfo>,
    pub size: usize,
}

/// The chunks that are complete once the chunk being filled is closed.
pub open spec fn closed(state: ChunkState) -> Seq<Seq<FileContextInfo>> {
    if state.current.len() > 0 {
        state.done.push(state.current)
    } else {
        state.done
    }
}

/// Splitting after one more file.
///
/// An empty file is left out. A file larger than the target gets a chunk of
/// its own, after the chunk being filled has been closed. Any other file
/// goes into the chunk being filled, unless that would take the chunk over
/// the target: then the chunk is closed and the file begins the next one.
pub open spec fn chunk_step(state: ChunkState, file: FileContextInfo, target: usize) -> ChunkState {
    let n = byte_len(file);
    if n == 0 {
        state
    } else if n > target {
        ChunkState {
            done: closed(state).push(seq![file]),
            current: Seq::empty(),
            size: if state.current.len() > 0 {
                0
            } else {
                state.size
            },
        }
    } else if state.current.len() > 0 && state.size.saturating_add(n) > target {
        ChunkState { done: state.done.push(state.current), current: seq![file], size: n }
    } else {
        ChunkState {
            done: state.done,
            current: state.current.push(file),
            size: state.size.saturating_add(n),
        }
    }
}

/// Splitting after all the given files, taken in order.
pub open spec fn chunk_all(files: Seq<FileContextInfo>, target: usize) -> ChunkState
    decreases files.len(),
{
    if files.len() == 0 {
        ChunkState { done: Seq::empty(), current: Seq::empty(), size: 0 }
    } else {
        chunk_step(chunk_all(files.drop_last(), target), files.last(), target)
    }
}

/// The groups of files that the chunks hold, in order.
pub open spec fn chunk_groups(files: Seq<FileContextInfo>, target: usize) -> Seq<
    Seq<FileContextInfo>,
> {
    closed(chunk_all(files, target))
}

/// The chunks are the given groups, numbered from one, each knowing how
/// many there are.
pub open spec fn chunks_hold(chunks: Seq<ChunkFile>, groups: Seq<Seq<FileContextInfo>>) -> bool {
    &&& chunks.len() == groups.len()
    &&& forall|i: int|
        0 <= i < chunks.len() ==> {
            &&& (#[trigger] chunks[i]).files@ == groups[i]
            &&& chunks[i].chunk_info.current_part == i + 1
            &&& chunks[i].chunk_info.total_parts == groups.len()
        }
}

/// Splits files into chunks of at most `target` bytes, keeping their order.
/// A file larger than that is a chunk by itself; empty files are left out.
pub fn split_contexts_into_chunks(files: Vec<FileContextInfo>, target: usize) -> (r: Vec<
    ChunkFile,
>)
    ensures
        chunks_hold(r@, chunk_groups(files@, target)),
{
    let ghost all = files@;
    let mut chunks_data: Vec<Vec<FileContextInfo>> = Vec::new();
    let mut current_chunk_files: Vec<FileContextInfo> = Vec::new();
    let mut current_chunk_size: usize = 0;
    proof {
        assert(all.take(0) =~= Seq::<FileContextInfo>::empty());
    }
    for file_context in it: files
        invariant
            it.seq() == all,
            groups_of(chunks_data@) == chunk_all(all.take(it.index() as int), target).done,
            current_chunk_files@ == chunk_all(all.take(it.index() as int), target).current,
            current_chunk_size == chunk_all(all.take(it.index() as int), target).size,
    {
        proof {
            let upto = all.take(it.index() + 1);
            assert(upto.drop_last() =~= all.take(it.index() as int));
            assert(upto.last() == file_context);
        }
        let ghost done_before = groups_of(chunks_data@);
        let file_size = file_context.content.as_str().len();
        if file_size == 0 {
        } else if file_size > target {
            if current_chunk_files.len() > 0 {
                chunks_data.push(current_chunk_files);
                current_chunk_files = Vec::new();
                current_chunk_size = 0;
            }
            let mut alone: Vec<FileContextInfo> = Vec::new();
            alone.push(file_context);
            assert(alone@ =~= seq![file_context]);
            chunks_data.push(alone);
            proof {
                let state = chunk_all(all.take(it.index() as int), target);
                assert(groups_of(chunks_data@) =~= closed(state).push(seq![file_context]));
            }
        } else if current_chunk_files.len() > 0 && current_chunk_size.saturating_add(file_size)
            > target {
            let ghost full = current_chunk_files@;
            chunks_data.push(current_chunk_files);
            current_chunk_files = Vec::new();
            current_chunk_files.push(file_context);
            current_chunk_size = file_size;
            assert(current_chunk_files@ =~= seq![file_context]);
            assert(groups_of(chunks_data@) =~= done_before.push(full));
        } else {
            current_chunk_size = current_chunk_size.saturating_add(file_size);
            current_chunk_files.push(file_context);
        }
    }
    proof {
        assert(all.take(all.len() as int) =~= all);
    }
    let ghost before_close = groups_of(chunks_data@);
    if current_chunk_files.len() > 0 {
        chunks_data.push(current_chunk_files);
        assert(groups_of(chunks_data@) =~= before_close.push(
            chunk_all(all, target).current,
        ));
    }
    let ghost groups = groups_of(chunks_data@);
    assert(groups == chunk_groups(all, target));

    let total_parts = chunks_data.len();
    let mut final_chunks: Vec<ChunkFile> = Vec::new();
    for chunk_files in it: chunks_data
        invariant
            groups_of(it.seq()) == groups,
            it.seq().len() == total_parts,
            final_chunks@.len() == it.index(),
            forall|i: int|
                0 <= i < final_chunks@.len() ==> {
                    &&& (#[trigger] final_chunks@[i]).files@ == groups[i]
                    &&& final_chunks@[i].chunk_info.current_part == i + 1
                    &&& final_chunks@[i].chunk_info.total_parts == total_parts
                },
    {
        let chunk_num = final_chunks.len() + 1;
        assert(chunk_files@ == groups[it.index() as int]);
        final_chunks.push(
            ChunkFile {
                files: chunk_files,
                chunk_info: ChunkInfo { current_part: chunk_num, total_parts },
            },
        );
    }
    final_chunks
}

/// The groups that a list of lists stands for.
pub open spec fn groups_of(lists: Seq<Vec<FileContextInfo>>) -> Seq<Seq<FileContextInfo>> {
    Seq::new(lists.len(), |i: int| lists[i]@)
}

/// The path under which a file appears in the output: relative to the
/// project root where that can be worked out, else as it is.
pub open spec fn shown_path(path: Seq<char>, project_root: Seq<char>) -> Seq<char> {
    match path_difference(path, project_root) {
        Some(relative) => relative,
        None => path,
    }
}

/// The files are the given ones in order, each under its shown path and
/// with its text.
pub open spec fn contexts_of(
    contexts: Seq<FileContextInfo>,
    files: Seq<FileInfo>,
    project_root: Seq<char>,
) -> bool {
    &&& contexts.len() == files.len()
    &&& forall|i: int|
        0 <= i < contexts.len() ==> {
            &&& (#[trigger] contexts[i]).path@ == shown_path(files[i].path@, project_root)
            &&& contexts[i].content == files[i].content
        }
}

/// Turns files that were read into files as they appear in the output.
pub fn create_file_context_list(files_info: Vec<FileInfo>, project_root: &str) -> (r: Vec<
    FileContextInfo,
>)
    ensures
        contexts_of(r@, files_info@, project_root@),
{
    let ghost all = files_info@;
    let mut out: Vec<FileContextInfo> = Vec::new();
    for finfo in it: files_info
        invariant
            it.seq() == all,
            out@.len() == it.index(),
            forall|i: int|
                0 <= i < out@.len() ==> {
                    &&& (#[trigger] out@[i]).path@ == shown_path(all[i].path@, project_root@)
                    &&& out@[i].content == all[i].content
                },
    {
        let path = match relative_to(finfo.path.as_str(), project_root) {
            Some(relative) => relative,
            None => finfo.path,
        };
        out.push(FileContextInfo { path, content: finfo.content });
    }
    out
}

/// The text of the error for a chunk size that cannot be read.
pub open spec fn invalid_size_text(size: Seq<char>, detail: Seq<char>) -> Seq<char> {
    "Invalid chunk size format '"@ + size + "': "@ + detail + ". Use KB, MB, etc."@
}

/// What a chunk size text gives: the target size in bytes, or the text of
/// the error. A size must be readable, must fit the machine, and must not be
/// zero.
pub open spec fn chunk_target(chunk_size: Seq<char>) -> Result<usize, Seq<char>> {
    match parsed_byte_size(chunk_size) {
        Err(detail) => Err(invalid_size_text(chunk_size, detail)),
        Ok(bytes) => if bytes > usize::MAX {
            Err("Chunk size exceeds maximum usize value on this platform."@)
        } else if bytes == 0 {
            Err("Chunk size must be greater than 0 bytes"@)
        } else {
            Ok(bytes as usize)
        },
    }
}

/// Reads a chunk size.
pub fn parse_chunk_size(chunk_size_str: &str) -> (r: Result<usize, AppError>)
    ensures
        match r {
            Ok(target) => chunk_target(chunk_size_str@) == Ok::<usize, Seq<char>>(target),
            Err(e) => e matches AppError::Chunking(m) && chunk_target(chunk_size_str@) == Err::<
                usize,
                Seq<char>,
            >(m@),
        },
{
    match parse_byte_size(chunk_size_str) {
        Err(detail) => {
            let mut m = concat2("Invalid chunk size format '", chunk_size_str);
            m.append("': ");
            m.append(detail.as_str());
            m.append(". Use KB, MB, etc.");
            Err(AppError::Chunking(m))
        },
        Ok(bytes) => {
            if bytes > usize::MAX as u128 {
                Err(
                    AppError::Chunking(
                        String::from_str("Chunk size exceeds maximum usize value on this platform."),
                    ),
                )
            } else if bytes == 0 {
                Err(AppError::Chunking(String::from_str("Chunk size must be greater than 0 bytes")))
            } else {
                Ok(bytes as usize)
            }
        },
    }
}

/// Splits the source files into chunks of the given size, such as `5MB`.
///
/// The files keep their order and appear under their paths relative to the
/// project root. Nothing is split if the size cannot be read, does not fit
/// the machine, or is zero.
pub fn split_files_into_chunks(
    source_files: Vec<FileInfo>,
    chunk_size_str: &str,
    project_root: &str,
) -> (r: Result<Vec<ChunkFile>, AppError>)
    ensures
        match r {
            Ok(chunks) => chunk_target(chunk_size_str@) matches Ok(target) && exists|
                contexts: Seq<FileContextInfo>,
            |
                #![auto]
                contexts_of(contexts, source_files@, project_root@) && chunks_hold(
                    chunks@,
                    chunk_groups(contexts, target),
                ),
            Err(e) => e matches AppError::Chunking(m) && chunk_target(chunk_size_str@) == Err::<
                usize,
                Seq<char>,
            >(m@),
        },
{
    let target_chunk_size_bytes_usize = parse_chunk_size(chunk_size_str)?;
    let all_file_contexts = create_file_context_list(source_files, project_root);
    Ok(split_contexts_into_chunks(all_file_contexts, target_chunk_size_bytes_usize))
}

} // verus!
