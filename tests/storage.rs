use binder::entry::{FileEntry, LocalFile, StoreError};
use binder::ident::{generate_random_number, id_from_digits};
use binder::index::{
    fetch_file_entries, fetch_file_entry, fetch_file_entry_by_id, insert_file_entry,
    remove_file_entry, EntryIndex,
};
use binder::quota::{admit_write, get_container_size, limit_bytes, Admission, EntryStat};
use binder::storage::{
    create_file, create_file_with_id, entry_paths, fetch_all_files, fetch_file, insert_file,
    join_path, remove_file, resolve_entry, Storage,
};
use binder::content::ContentStore;
use binder::request::{decide_put, token_accepted, PutDecision};

fn local(name: &str) -> LocalFile {
    LocalFile { name: name.to_string(), path: name.to_string() }
}

#[test]
fn admit_rejects_over_limit() {
    assert_eq!(admit_write(4, 2, 5), Admission::Reject);
    assert_eq!(admit_write(3, 2, 5), Admission::Admit);
}

#[test]
fn admit_boundary_admits() {
    assert_eq!(admit_write(3, 2, 5), Admission::Admit);
    assert_eq!(admit_write(0, 0, 0), Admission::Admit);
    assert_eq!(admit_write(u64::MAX, 1, u64::MAX), Admission::Reject);
    assert_eq!(admit_write(0, 6, 5), Admission::Reject);
}

#[test]
fn limit_is_scaled_by_a_billion() {
    assert_eq!(limit_bytes(5), 5_000_000_000);
    assert_eq!(limit_bytes(0), 0);
    assert_eq!(limit_bytes(u64::MAX), u64::MAX);
}

#[test]
fn container_size_counts_regular_files_only() {
    let stats = vec![
        EntryStat { is_file: true, len: 10 },
        EntryStat { is_file: false, len: 4096 },
        EntryStat { is_file: true, len: 5 },
    ];
    assert_eq!(get_container_size(&stats), 15);
    assert_eq!(get_container_size(&Vec::new()), 0);
    let big = vec![EntryStat { is_file: true, len: u64::MAX }, EntryStat { is_file: true, len: 1 }];
    assert_eq!(get_container_size(&big), u64::MAX);
}

#[test]
fn random_number_has_sixteen_digits_below_nine() {
    for _ in 0..20 {
        let n = generate_random_number();
        assert!(n < 10_000_000_000_000_000);
        let mut m = n;
        for _ in 0..16 {
            assert!(m % 10 < 9);
            m /= 10;
        }
    }
}

#[test]
fn content_store_appends_and_removes() {
    let mut c = ContentStore::new();
    let p = "a.txt".to_string();
    c.write(&p, &vec![1, 2, 3]);
    c.write(&p, &vec![4, 5]);
    assert_eq!(c.read(&p), Some(vec![1, 2, 3, 4, 5]));
    assert_eq!(c.total_size(), 5);
    assert!(c.remove(&p));
    assert!(!c.remove(&p));
    assert_eq!(c.read(&p), None);
    assert_eq!(c.total_size(), 0);
}

#[test]
fn index_lookups_and_uniqueness() {
    let mut idx = EntryIndex::new();
    assert_eq!(insert_file_entry(FileEntry::new(7, "a.txt".to_string()), &mut idx), Ok(()));
    assert_eq!(
        insert_file_entry(FileEntry::new(8, "a.txt".to_string()), &mut idx),
        Err(StoreError::DuplicatePath)
    );
    assert_eq!(
        insert_file_entry(FileEntry::new(7, "b.txt".to_string()), &mut idx),
        Err(StoreError::DuplicateId)
    );
    assert_eq!(idx.len(), 1);
    let e = fetch_file_entry_by_id(7, &idx).unwrap();
    assert_eq!(e.entry_path, "a.txt");
    assert!(fetch_file_entry_by_id(8, &idx).is_none());
    assert_eq!(fetch_file_entry("a.txt".to_string(), &idx).unwrap().id, 7);
    assert!(fetch_file_entry("b.txt".to_string(), &idx).is_none());
    assert_eq!(fetch_file_entries(&idx).len(), 1);
    remove_file_entry("b.txt".to_string(), &mut idx);
    assert_eq!(idx.len(), 1);
    remove_file_entry("a.txt".to_string(), &mut idx);
    assert_eq!(idx.len(), 0);
}

#[test]
fn put_then_fetch_resolves_to_stored_bytes() {
    let mut s = Storage::new("bin".to_string());
    assert_eq!(create_file(&mut s, &local("a.txt"), vec![1, 2, 3]), Ok(()));
    let path = fetch_file(&s, "a.txt".to_string()).unwrap();
    assert_eq!(path, "bin/a.txt");
    assert_eq!(s.content.read(&"a.txt".to_string()), Some(vec![1, 2, 3]));
}

#[test]
fn put_then_remove_clears_both_stores() {
    let mut s = Storage::new("bin".to_string());
    assert_eq!(create_file_with_id(&mut s, &local("a.txt"), &vec![1, 2, 3], 11), Ok(()));
    assert_eq!(remove_file(&mut s, &"a.txt".to_string()), Ok(()));
    assert!(!s.content.contains(&"a.txt".to_string()));
    assert_eq!(s.index.len(), 0);
    assert_eq!(fetch_file(&s, "a.txt".to_string()), Err(StoreError::NotFound));
}

#[test]
fn quota_rejection_leaves_stores_unchanged() {
    let mut s = Storage::new("bin".to_string());
    assert_eq!(insert_file(&mut s, &local("a.txt"), vec![1, 2, 3, 4], 5), Ok(()));
    assert_eq!(
        insert_file(&mut s, &local("b.txt"), vec![1, 2], 5),
        Err(StoreError::QuotaExceeded)
    );
    assert!(!s.content.contains(&"b.txt".to_string()));
    assert_eq!(s.content.total_size(), 4);
    assert_eq!(s.index.len(), 1);
    assert_eq!(fetch_file(&s, "b.txt".to_string()), Err(StoreError::NotFound));
    assert_eq!(insert_file(&mut s, &local("c.txt"), vec![9], 5), Ok(()));
    assert_eq!(s.content.total_size(), 5);
}

#[test]
fn second_put_appends_and_index_refuses() {
    let mut s = Storage::new("bin".to_string());
    assert_eq!(create_file_with_id(&mut s, &local("a.txt"), &vec![1, 2, 3], 1), Ok(()));
    assert_eq!(
        create_file_with_id(&mut s, &local("a.txt"), &vec![4, 5], 2),
        Err(StoreError::DuplicatePath)
    );
    assert_eq!(s.content.read(&"a.txt".to_string()), Some(vec![1, 2, 3, 4, 5]));
    assert_eq!(s.index.len(), 1);
    assert_eq!(fetch_file_entry("a.txt".to_string(), &s.index).unwrap().id, 1);
}

#[test]
fn remove_missing_is_a_no_op() {
    let mut s = Storage::new("bin".to_string());
    assert_eq!(create_file_with_id(&mut s, &local("b.txt"), &vec![7], 3), Ok(()));
    assert_eq!(remove_file(&mut s, &"missing.txt".to_string()), Ok(()));
    assert_eq!(s.content.read(&"b.txt".to_string()), Some(vec![7]));
    assert_eq!(s.content.total_size(), 1);
    assert_eq!(s.index.len(), 1);
}

#[test]
fn remove_with_missing_blob_keeps_record() {
    let mut s = Storage::new("bin".to_string());
    assert_eq!(create_file_with_id(&mut s, &local("a.txt"), &vec![1], 3), Ok(()));
    assert!(s.content.remove(&"a.txt".to_string()));
    assert_eq!(remove_file(&mut s, &"a.txt".to_string()), Ok(()));
    assert_eq!(s.index.len(), 1);
    assert_eq!(fetch_file(&s, "a.txt".to_string()).unwrap(), "bin/a.txt");
}

#[test]
fn list_has_one_path_per_record() {
    let mut s = Storage::new("root".to_string());
    assert!(fetch_all_files(&s).is_empty());
    assert_eq!(create_file_with_id(&mut s, &local("a.txt"), &vec![1], 1), Ok(()));
    assert_eq!(create_file_with_id(&mut s, &local("b.txt"), &vec![2], 2), Ok(()));
    assert_eq!(
        create_file_with_id(&mut s, &local("c.txt"), &vec![3], 2),
        Err(StoreError::DuplicateId)
    );
    let all = fetch_all_files(&s);
    assert_eq!(all, vec!["root/a.txt".to_string(), "root/b.txt".to_string()]);
    assert_eq!(all.len(), s.index.len());
}

#[test]
fn path_helpers() {
    let root = "bin".to_string();
    assert_eq!(join_path(&root, &"x".to_string()), "bin/x");
    assert_eq!(resolve_entry(&root, None), Err(StoreError::NotFound));
    assert_eq!(resolve_entry(&root, Some(FileEntry::new(1, "y".to_string()))), Ok("bin/y".to_string()));
    let es = vec![FileEntry::new(1, "p".to_string()), FileEntry::new(2, "q".to_string())];
    assert_eq!(entry_paths(&root, &es), vec!["bin/p".to_string(), "bin/q".to_string()]);
}

#[test]
fn errors_map_to_status_codes() {
    assert_eq!(StoreError::QuotaExceeded.to_io_error().code, 400);
    assert_eq!(StoreError::QuotaExceeded.to_io_error().message, "exceeded container limit");
    assert_eq!(StoreError::NotFound.to_io_error().message, "not found");
    assert_eq!(StoreError::DuplicatePath.to_io_error().message, "internal server error");
    assert_eq!(StoreError::NotFound.to_io_error().code, 500);
    assert_eq!(StoreError::DuplicatePath.to_io_error().code, 500);
    assert_eq!(StoreError::DuplicateId.to_io_error().code, 500);
}

#[test]
fn token_must_match_exactly() {
    let secret = "s3cret".to_string();
    assert!(token_accepted(Some(&"s3cret".to_string()), &secret));
    assert!(!token_accepted(Some(&"xs3cretx".to_string()), &secret));
    assert!(!token_accepted(None, &secret));
}

#[test]
fn put_decisions_in_order() {
    let secret = "k".to_string();
    let good = "k".to_string();
    let bad = "nope".to_string();
    assert_eq!(decide_put(None, &secret, Some(1), 0, 5), PutDecision::Forbidden);
    assert_eq!(decide_put(Some(&bad), &secret, Some(1), 0, 5), PutDecision::Forbidden);
    assert_eq!(decide_put(Some(&good), &secret, None, 0, 5), PutDecision::NoContent);
    assert_eq!(decide_put(Some(&good), &secret, Some(2), 4, 5), PutDecision::TooLarge);
    assert_eq!(decide_put(Some(&good), &secret, Some(2), 3, 5), PutDecision::Store);
    assert_eq!(decide_put(Some(&bad), &secret, None, 0, 5), PutDecision::NoContent);
    assert_eq!(decide_put(Some(&bad), &secret, Some(2), 4, 5), PutDecision::TooLarge);
    assert_eq!(decide_put(None, &secret, None, 4, 5), PutDecision::Forbidden);
}

#[test]
fn digits_read_as_decimal_number() {
    let digits = vec![1, 2, 3, 4, 5, 6, 7, 8, 0, 1, 2, 3, 4, 5, 6, 7];
    assert_eq!(id_from_digits(&digits), 1_234_567_801_234_567);
    assert_eq!(id_from_digits(&vec![0; 16]), 0);
    assert_eq!(id_from_digits(&vec![9; 16]), 9_999_999_999_999_999);
    let mut leading = vec![0; 15];
    leading.push(8);
    assert_eq!(id_from_digits(&leading), 8);
}
