use xcontext::chunking::{
    create_file_context_list, parse_chunk_size, split_contexts_into_chunks,
    split_files_into_chunks,
};
use xcontext::error::AppError;
use xcontext::gather::FileInfo;
use xcontext::output_formats::{ChunkFile, FileContextInfo};

fn file(path: &str, size: usize) -> FileInfo {
    FileInfo { path: path.to_string(), content: "x".repeat(size), size }
}

fn context(path: &str, size: usize) -> FileContextInfo {
    FileContextInfo { path: path.to_string(), content: "x".repeat(size) }
}

/// The chunks as lists of paths, after checking their numbering.
fn shape(chunks: &[ChunkFile]) -> Vec<Vec<String>> {
    for (i, chunk) in chunks.iter().enumerate() {
        assert_eq!(chunk.chunk_info.current_part, i + 1);
        assert_eq!(chunk.chunk_info.total_parts, chunks.len());
    }
    chunks
        .iter()
        .map(|c| c.files.iter().map(|f| f.path.clone()).collect())
        .collect()
}

fn paths(groups: &[&[&str]]) -> Vec<Vec<String>> {
    groups.iter().map(|g| g.iter().map(|p| p.to_string()).collect()).collect()
}

#[test]
fn chunk_sizes_are_read() {
    assert_eq!(parse_chunk_size("1KB").unwrap(), 1000);
    assert_eq!(parse_chunk_size("1KiB").unwrap(), 1024);
    assert_eq!(parse_chunk_size("5MB").unwrap(), 5_000_000);
    assert_eq!(parse_chunk_size("10").unwrap(), 10);
    assert_eq!(parse_chunk_size(" 2 MiB ").unwrap(), 2 * 1024 * 1024);
}

#[test]
fn chunk_sizes_that_make_no_sense_are_refused() {
    match parse_chunk_size("big") {
        Err(AppError::Chunking(m)) => {
            let detail = <byte_unit::Byte as std::str::FromStr>::from_str("big")
                .unwrap_err()
                .to_string();
            assert_eq!(m, format!("Invalid chunk size format 'big': {}. Use KB, MB, etc.", detail));
        }
        _ => panic!("expected a chunking error"),
    }
    assert!(matches!(
        parse_chunk_size("0"),
        Err(AppError::Chunking(ref m)) if m == "Chunk size must be greater than 0 bytes"
    ));
    assert!(matches!(
        parse_chunk_size("0KB"),
        Err(AppError::Chunking(ref m)) if m == "Chunk size must be greater than 0 bytes"
    ));
    assert!(matches!(parse_chunk_size(""), Err(AppError::Chunking(_))));
    assert_eq!(parse_chunk_size("").unwrap_err().exit_code(), 3);
}

#[test]
fn files_are_packed_in_order() {
    let files = vec![
        context("a", 4),
        context("b", 4),
        context("c", 4),
        context("d", 10),
        context("e", 1),
    ];
    let chunks = split_contexts_into_chunks(files, 10);
    assert_eq!(shape(&chunks), paths(&[&["a", "b"], &["c"], &["d"], &["e"]]));
}

#[test]
fn exact_fit_stays_in_one_chunk() {
    let chunks = split_contexts_into_chunks(vec![context("a", 5), context("b", 5)], 10);
    assert_eq!(shape(&chunks), paths(&[&["a", "b"]]));
    let chunks = split_contexts_into_chunks(vec![context("a", 5), context("b", 6)], 10);
    assert_eq!(shape(&chunks), paths(&[&["a"], &["b"]]));
}

#[test]
fn oversized_file_is_a_chunk_of_its_own() {
    let files = vec![context("a", 3), context("huge", 25), context("b", 3), context("c", 3)];
    let chunks = split_contexts_into_chunks(files, 10);
    assert_eq!(shape(&chunks), paths(&[&["a"], &["huge"], &["b", "c"]]));
    let chunks = split_contexts_into_chunks(vec![context("huge", 25)], 10);
    assert_eq!(shape(&chunks), paths(&[&["huge"]]));
    let chunks = split_contexts_into_chunks(vec![context("h1", 25), context("h2", 11)], 10);
    assert_eq!(shape(&chunks), paths(&[&["h1"], &["h2"]]));
}

#[test]
fn empty_files_are_left_out() {
    let files = vec![context("empty", 0), context("a", 1), context("none", 0)];
    let chunks = split_contexts_into_chunks(files, 10);
    assert_eq!(shape(&chunks), paths(&[&["a"]]));
    assert!(split_contexts_into_chunks(vec![context("empty", 0)], 10).is_empty());
    assert!(split_contexts_into_chunks(vec![], 10).is_empty());
}

#[test]
fn size_counts_bytes_not_characters() {
    let files = vec![
        FileContextInfo { path: "a".to_string(), content: "éé".to_string() },
        FileContextInfo { path: "b".to_string(), content: "é".to_string() },
    ];
    // 4 bytes and 2 bytes
    assert_eq!(shape(&split_contexts_into_chunks(files.clone(), 5)), paths(&[&["a"], &["b"]]));
    assert_eq!(shape(&split_contexts_into_chunks(files, 6)), paths(&[&["a", "b"]]));
}

#[test]
fn files_appear_under_relative_paths() {
    let files = vec![file("/p/src/a.rs", 1), file("/elsewhere/b.rs", 1), file("relative.rs", 1)];
    let contexts = create_file_context_list(files, "/p");
    let shown: Vec<&str> = contexts.iter().map(|c| c.path.as_str()).collect();
    assert_eq!(shown, vec!["src/a.rs", "../elsewhere/b.rs", "relative.rs"]);
    assert_eq!(contexts[0].content, "x");
}

#[test]
fn source_files_are_split_by_a_size_text() {
    let files = vec![file("/p/a", 600), file("/p/b", 600), file("/p/c", 100)];
    let chunks = split_files_into_chunks(files, "1KB", "/p").unwrap();
    assert_eq!(shape(&chunks), paths(&[&["a"], &["b", "c"]]));
    assert!(split_files_into_chunks(vec![], "1KB", "/p").unwrap().is_empty());
    assert!(matches!(
        split_files_into_chunks(vec![file("/p/a", 1)], "nonsense", "/p"),
        Err(AppError::Chunking(_))
    ));
}
