use colink::chunk::{
    append_plan, chunk_key, chunk_metadata_key, chunk_ranges, chunk_read_key, join_chunk_paths, response_timestamp,
    split_chunk_paths, ChunkError, CHUNK_SIZE,
};
use colink::storage_macro::{macro_key_name, parse_macro};

fn parts(k: &str) -> (String, String, String) {
    let m = parse_macro(k);
    (m.before, m.macro_type, m.after)
}

fn s3(a: &str, b: &str, c: &str) -> (String, String, String) {
    (a.to_string(), b.to_string(), c.to_string())
}

#[test]
fn chunk_ranges_cover_the_payload() {
    assert!(chunk_ranges(0).is_empty());
    assert_eq!(chunk_ranges(5), vec![(0, 5)]);
    assert_eq!(chunk_ranges(CHUNK_SIZE), vec![(0, CHUNK_SIZE)]);
    assert_eq!(
        chunk_ranges(2 * CHUNK_SIZE + 5),
        vec![(0, CHUNK_SIZE), (CHUNK_SIZE, 2 * CHUNK_SIZE), (2 * CHUNK_SIZE, 2 * CHUNK_SIZE + 5)]
    );
}

#[test]
fn append_tops_up_the_last_chunk() {
    let p = append_plan(CHUNK_SIZE - 10, 25);
    assert!(p.tops_up_last);
    assert_eq!(p.fill, 10);
    assert_eq!(p.new_chunks, vec![(10, 25)]);
    let p = append_plan(CHUNK_SIZE, 5);
    assert!(!p.tops_up_last);
    assert_eq!(p.fill, 0);
    assert_eq!(p.new_chunks, vec![(0, 5)]);
    let p = append_plan(3, 4);
    assert_eq!(p.fill, 4);
    assert!(p.new_chunks.is_empty());
}

#[test]
fn chunk_entry_names() {
    assert_eq!(chunk_key("storage_macro_test_chunk", 12), "storage_macro_test_chunk:12");
    assert_eq!(chunk_key("k", 0), "k:0");
    assert_eq!(chunk_metadata_key("k"), "k:chunk_metadata");
    assert_eq!(chunk_read_key("alice", "k", 3, "99"), "alice::k:3@99");
    assert_eq!(response_timestamp("alice::k:0@1234"), "1234");
    assert_eq!(response_timestamp("no-at"), "no-at");
}

#[test]
fn chunk_paths_round_trip() {
    let paths = vec!["1".to_string(), "22".to_string(), "333".to_string()];
    let joined = join_chunk_paths(&paths).unwrap();
    assert_eq!(joined, "1;22;333");
    assert_eq!(split_chunk_paths(&joined), paths);
    assert_eq!(split_chunk_paths(""), vec!["".to_string()]);
    assert_eq!(join_chunk_paths(&vec![]).unwrap(), "");
}

#[test]
fn too_many_chunks_are_refused() {
    let n = CHUNK_SIZE / 2 + 1;
    let paths = vec!["1".to_string(); n];
    assert_eq!(join_chunk_paths(&paths), Err(ChunkError::TooManyChunks));
    let fits = vec!["1".to_string(); n - 1];
    assert_eq!(join_chunk_paths(&fits).map(|s| s.len()), Ok(CHUNK_SIZE - 1));
}

#[test]
fn macro_keys_are_cut_around_the_last_macro() {
    assert_eq!(parts("storage_macro_test_chunk:$chunk"), s3("storage_macro_test_chunk", "chunk", ""));
    assert_eq!(parts("storage_macro_test_redis:$redis:redis_key"), s3("storage_macro_test_redis", "redis", "redis_key"));
    assert_eq!(
        parts("test_storage_macro_fs_dir:$fs:test-dir:test-file"),
        s3("test_storage_macro_fs_dir", "fs", "test-dir:test-file")
    );
    assert_eq!(
        parts("test_storage_macro_redis_chunk:$redis:redis_chunk:$chunk"),
        s3("test_storage_macro_redis_chunk:$redis:redis_chunk", "chunk", "")
    );
    assert_eq!(parts("plain:key"), s3("plain", "", "key"));
    assert_eq!(parts("$chunk"), s3("", "chunk", "$chunk"));
}

#[test]
fn macro_key_names_from_paths() {
    assert_eq!(macro_key_name("alice::k:$chunk@123"), Some("k:$chunk".to_string()));
    assert_eq!(macro_key_name("k:$chunk"), Some("k:$chunk".to_string()));
    assert_eq!(macro_key_name("alice::k"), Some("k".to_string()));
    assert_eq!(macro_key_name("@a::b"), None);
}
