use leviathan_plugins::fs_limits::{
    check_append, check_copy_source, check_read, check_write, READ_FILE_BYTE_LIMIT,
};

#[test]
fn read_refuses_non_files_and_oversized_files() {
    assert_eq!(check_read("/tmp/a", true, 10), Ok(()));
    assert_eq!(check_read("/tmp/a", true, READ_FILE_BYTE_LIMIT), Ok(()));
    assert_eq!(
        check_read("/tmp/d", false, 0),
        Err("not a regular file: /tmp/d".to_string())
    );
    assert_eq!(
        check_read("/tmp/big", true, READ_FILE_BYTE_LIMIT + 1),
        Err("file exceeds 8388608-byte read_file limit: /tmp/big".to_string())
    );
}

#[test]
fn copy_refuses_non_files_and_oversized_sources() {
    assert_eq!(check_copy_source("a", true, 1), Ok(()));
    assert_eq!(check_copy_source("d", false, 1), Err("not a regular file: d".to_string()));
    assert_eq!(
        check_copy_source("big", true, 8 * 1024 * 1024 + 1),
        Err("source exceeds 8388608-byte copy limit: big".to_string())
    );
}

#[test]
fn write_and_append_refuse_oversized_content() {
    assert_eq!(check_write("f", 8 * 1024 * 1024), Ok(()));
    assert_eq!(
        check_write("f", 8 * 1024 * 1024 + 1),
        Err("content exceeds 8388608-byte write_file limit: f".to_string())
    );
    assert_eq!(check_append("f", 0), Ok(()));
    assert_eq!(
        check_append("f", 8 * 1024 * 1024 + 1),
        Err("content exceeds 8388608-byte append_file limit: f".to_string())
    );
}
