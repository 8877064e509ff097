use dataprep::fs_partition::{
    chop_plan, chop_step, num_parts, partition_file, ChopStep, CopyMetadata, MaybePartitioned,
    PartitionAction, PartitionStart, BUF_SIZE, MAX_FILE_SIZE,
};
use dataprep::types::FileMetadata;

fn copied(is_dir: bool, is_symlink: bool, len: u64) -> CopyMetadata {
    CopyMetadata {
        original_metadata: FileMetadata { is_dir, is_symlink, len },
        new_location: "/data/big.bin".to_string(),
    }
}

#[test]
fn part_counts_round_up() {
    assert_eq!(num_parts(0), 0);
    assert_eq!(num_parts(1), 1);
    assert_eq!(num_parts(MAX_FILE_SIZE), 1);
    assert_eq!(num_parts(MAX_FILE_SIZE + 1), 2);
    assert_eq!(num_parts(2 * MAX_FILE_SIZE), 2);
    assert_eq!(num_parts(10 * MAX_FILE_SIZE - 5), 10);
}

#[test]
fn part_count_saturates() {
    assert_eq!(num_parts(u64::MAX), u32::MAX);
    assert_eq!(num_parts(u32::MAX as u64 * MAX_FILE_SIZE), u32::MAX);
}

#[test]
fn chop_plan_offsets_and_names() {
    let p = chop_plan(&"/data/big.bin".to_string(), 3);
    assert_eq!(p.part, 3);
    assert_eq!(p.offset, 3 * 4294967296);
    assert_eq!(p.part_path, "/data/big.part-3");
    let p = chop_plan(&"/data/noext".to_string(), 12);
    assert_eq!(p.offset, 12 * MAX_FILE_SIZE);
    assert_eq!(p.part_path, "/data/noext.part-12");
    let p = chop_plan(&"/data/big.bin".to_string(), 0);
    assert_eq!(p.offset, 0);
    assert_eq!(p.part_path, "/data/big.part-0");
}

#[test]
fn chop_stops_on_empty_read() {
    assert_eq!(chop_step(17, 0), ChopStep::Finish { copied: 17 });
}

#[test]
fn chop_writes_and_continues() {
    assert_eq!(
        chop_step(0, BUF_SIZE),
        ChopStep::Write { len: BUF_SIZE, copied: BUF_SIZE as u64, read_more: true }
    );
}

#[test]
fn chop_stops_when_part_is_full() {
    assert_eq!(
        chop_step(MAX_FILE_SIZE - BUF_SIZE as u64, BUF_SIZE),
        ChopStep::Write { len: BUF_SIZE, copied: MAX_FILE_SIZE, read_more: false }
    );
    // after a short read, only the bytes that still fit are written
    assert_eq!(
        chop_step(MAX_FILE_SIZE - 10, BUF_SIZE),
        ChopStep::Write { len: 10, copied: MAX_FILE_SIZE, read_more: false }
    );
    assert_eq!(
        chop_step(MAX_FILE_SIZE - 10, 4),
        ChopStep::Write { len: 4, copied: MAX_FILE_SIZE - 6, read_more: true }
    );
}

#[test]
fn directories_and_links_are_kept_whole() {
    for meta in [copied(true, false, 10 * MAX_FILE_SIZE), copied(false, true, 10 * MAX_FILE_SIZE)] {
        match partition_file(meta) {
            PartitionStart::Done(m) => match m.parts {
                MaybePartitioned::Unpartitioned(loc) => assert_eq!(loc, "/data/big.bin"),
                MaybePartitioned::Partitioned(_) => panic!("partitioned"),
            },
            PartitionStart::Split(_) => panic!("split"),
        }
    }
}

#[test]
fn small_files_are_kept_whole() {
    for len in [0, 1, MAX_FILE_SIZE] {
        match partition_file(copied(false, false, len)) {
            PartitionStart::Done(m) => {
                assert_eq!(m.copy_metadata.original_metadata.len, len);
                assert!(matches!(m.parts, MaybePartitioned::Unpartitioned(ref l) if l == "/data/big.bin"));
            }
            PartitionStart::Split(_) => panic!("split"),
        }
    }
}

#[test]
fn large_file_is_cut_into_numbered_parts() {
    let mut job = match partition_file(copied(false, false, 2 * MAX_FILE_SIZE + 1)) {
        PartitionStart::Split(job) => job,
        PartitionStart::Done(_) => panic!("not split"),
    };
    let mut plans = Vec::new();
    loop {
        match job.next_action() {
            PartitionAction::Chop(plan) => {
                plans.push(plan);
                job.chop_done();
            }
            PartitionAction::RemoveOriginal { location } => {
                assert_eq!(location, "/data/big.bin");
                break;
            }
        }
    }
    assert_eq!(plans.len(), 3);
    for (i, plan) in plans.iter().enumerate() {
        assert_eq!(plan.part, i as u32);
        assert_eq!(plan.offset, i as u64 * MAX_FILE_SIZE);
        assert_eq!(plan.part_path, format!("/data/big.part-{}", i));
    }
    let meta = job.finish();
    match meta.parts {
        MaybePartitioned::Partitioned(parts) => assert_eq!(
            parts,
            vec![
                (0, "/data/big.part-0".to_string()),
                (1, "/data/big.part-1".to_string()),
                (2, "/data/big.part-2".to_string()),
            ]
        ),
        MaybePartitioned::Unpartitioned(_) => panic!("unpartitioned"),
    }
}
