use dataprep::types::{CompressionScheme, FileMetadata, PartitionScheme, SpiderMetadata, WriteoutScheme};
use dataprep::unpack_to_disk::{
    DataProcess, DataProcessDirectiveToDisk, DiskAction, DiskEvent, DiskStage, DiskUnpacker, EncryptedPiece,
    PieceEncryption, PipelineToDisk,
};

fn origin(location: &str) -> SpiderMetadata {
    SpiderMetadata {
        original_root: "/src".to_string(),
        original_location: location.to_string(),
        canonicalized_path: format!("/src/{}", location),
        original_metadata: FileMetadata { is_dir: false, is_symlink: false, len: 0 },
    }
}

fn file(chunks: &[(&str, &str)]) -> PipelineToDisk {
    PipelineToDisk {
        origin_data: origin("f.bin"),
        data_processing: DataProcessDirectiveToDisk::File(DataProcess {
            compression: CompressionScheme { compression_info: "GZIP".to_string() },
            partition: PartitionScheme { chunk_size: 10, num_chunks: chunks.len() as u64 },
            encryption: PieceEncryption {
                encrypted_pieces: chunks.iter().map(|c| EncryptedPiece { key: c.1.to_string() }).collect(),
            },
            writeout: WriteoutScheme { chunk_locations: chunks.iter().map(|c| c.0.to_string()).collect() },
        }),
    }
}

fn describe(a: &DiskAction) -> String {
    match a {
        DiskAction::CreateOutput { path } => format!("create {}", path),
        DiskAction::OpenChunk { index, location } => format!("open {} {}", index, location),
        DiskAction::CopyChunk { index, key } => format!("copy {} {}", index, key),
        DiskAction::CreateDirectory { path } => format!("mkdir {}", path),
        DiskAction::Finish => "done".to_string(),
    }
}

#[test]
fn test() {
    // compression and encryption: each gzip chunk is decrypted with its own key
    let mut u = DiskUnpacker::new(file(&[("/p/a", "k0"), ("/p/b", "k1")]), "/root".to_string());
    let events = [
        DiskEvent::Started,
        DiskEvent::OutputCreated,
        DiskEvent::ChunkOpened,
        DiskEvent::ChunkCopied,
        DiskEvent::ChunkOpened,
        DiskEvent::ChunkCopied,
    ];
    let seen: Vec<String> = events.iter().map(|e| describe(&u.step(*e))).collect();
    assert_eq!(
        seen,
        vec!["create /root/f.bin", "open 0 /p/a", "copy 0 k0", "open 1 /p/b", "copy 1 k1", "done"]
    );
    assert_eq!(u.stage, DiskStage::Done);
}

#[test]
fn disk_file_without_chunks() {
    let mut u = DiskUnpacker::new(file(&[]), "/root".to_string());
    assert_eq!(describe(&u.step(DiskEvent::Started)), "create /root/f.bin");
    assert_eq!(describe(&u.step(DiskEvent::OutputCreated)), "done");
}

#[test]
fn disk_directory_and_symlink_become_directories() {
    for kind in [DataProcessDirectiveToDisk::Directory, DataProcessDirectiveToDisk::Symlink] {
        let mut u = DiskUnpacker::new(
            PipelineToDisk { origin_data: origin("d"), data_processing: kind },
            "/root/".to_string(),
        );
        assert_eq!(describe(&u.step(DiskEvent::Started)), "mkdir /root/d");
        assert_eq!(describe(&u.step(DiskEvent::DirectoryCreated)), "done");
    }
}
