use dataprep::types::{
    CompressionScheme, EncryptionScheme, FileMetadata, PartitionScheme, SpiderMetadata,
    WriteoutScheme,
};
use dataprep::unpack::{
    DecryptorKind, UnpackAction, UnpackError, UnpackEvent, UnpackPipelinePlan, UnpackPlan,
    UnpackStage, UnpackType, Unpacker,
};

const IDENTITY: &str = "AGE-SECRET-KEY-1QQQQQQQQQQQQQQQQQQQQQQQQQQQQQQQQQQQQQQQQQQQQQQQQQQQQQQ";

fn origin(location: &str) -> SpiderMetadata {
    SpiderMetadata {
        original_root: "/src".to_string(),
        original_location: location.to_string(),
        canonicalized_path: format!("/src/{}", location),
        original_metadata: FileMetadata { is_dir: false, is_symlink: false, len: 3 },
    }
}

fn file_plan(compression: &str, chunks: &[&str]) -> UnpackPipelinePlan {
    UnpackPipelinePlan {
        origin_data: origin("a/b.txt"),
        data_processing: UnpackType::File(UnpackPlan {
            compression: CompressionScheme { compression_info: compression.to_string() },
            partition: PartitionScheme { chunk_size: 1024, num_chunks: chunks.len() as u64 },
            encryption: EncryptionScheme { identity: IDENTITY.to_string() },
            writeout: WriteoutScheme { chunk_locations: chunks.iter().map(|c| c.to_string()).collect() },
        }),
    }
}

fn unpacker(plan: UnpackPipelinePlan) -> Unpacker {
    Unpacker::new(plan, "/packed".to_string(), "/out".to_string())
}

fn describe(a: &UnpackAction) -> String {
    match a {
        UnpackAction::CheckOutput { path } => format!("check {}", path),
        UnpackAction::SkipExisting { path } => format!("skip {}", path),
        UnpackAction::CreateOutput { path } => format!("create {}", path),
        UnpackAction::OpenChunk { index, location } => format!("open {} {}", index, location),
        UnpackAction::DecodeChunk { index, identity } => format!("decode {} {}", index, identity),
        UnpackAction::CreateDirectory { path } => format!("mkdir {}", path),
        UnpackAction::CreateSymlink { original, link } => format!("link {} {}", original, link),
        UnpackAction::Finish(Ok(())) => "ok".to_string(),
        UnpackAction::Finish(Err(e)) => format!("err {}", e.to_string()),
    }
}

#[test]
fn unpack_compression_and_encryption() {
    // compression and encryption: ZSTD chunks decrypted with the plan's identity,
    // and a passphrase-encrypted chunk refused
    let mut u = unpacker(file_plan("ZSTD", &["/packed/c0", "/packed/c1"]));
    let mut seen = Vec::new();
    for e in [
        UnpackEvent::Started,
        UnpackEvent::OutputExists(false),
        UnpackEvent::OutputCreated,
        UnpackEvent::ChunkOpened(DecryptorKind::Recipients),
        UnpackEvent::ChunkDecoded,
        UnpackEvent::ChunkOpened(DecryptorKind::Passphrase),
    ] {
        seen.push(describe(&u.step(e)));
    }
    assert_eq!(
        seen,
        vec![
            "check /out/a/b.txt".to_string(),
            "create /out/a/b.txt".to_string(),
            "open 0 /packed/c0".to_string(),
            format!("decode 0 {}", IDENTITY),
            "open 1 /packed/c1".to_string(),
            "err Passphrase decryption not supported".to_string(),
        ]
    );
    assert_eq!(u.stage, UnpackStage::Done);
}

#[test]
fn file_chunks_are_decoded_in_order() {
    let mut u = unpacker(file_plan("ZSTD", &["/p/0", "/p/1", "/p/2"]));
    let mut events = vec![UnpackEvent::Started, UnpackEvent::OutputExists(false), UnpackEvent::OutputCreated];
    for _ in 0..3 {
        events.push(UnpackEvent::ChunkOpened(DecryptorKind::Recipients));
        events.push(UnpackEvent::ChunkDecoded);
    }
    let seen: Vec<String> = events.into_iter().map(|e| describe(&u.step(e))).collect();
    let mut expected = vec!["check /out/a/b.txt".to_string(), "create /out/a/b.txt".to_string()];
    for i in 0..3 {
        expected.push(format!("open {} /p/{}", i, i));
        expected.push(format!("decode {} {}", i, IDENTITY));
    }
    expected.push("ok".to_string());
    assert_eq!(seen, expected);
}

#[test]
fn file_without_chunks_is_left_empty() {
    let mut u = unpacker(file_plan("ZSTD", &[]));
    assert_eq!(describe(&u.step(UnpackEvent::Started)), "check /out/a/b.txt");
    assert_eq!(describe(&u.step(UnpackEvent::OutputExists(false))), "create /out/a/b.txt");
    assert_eq!(describe(&u.step(UnpackEvent::OutputCreated)), "ok");
}

#[test]
fn existing_output_is_skipped() {
    let mut u = unpacker(file_plan("ZSTD", &["/p/0"]));
    u.step(UnpackEvent::Started);
    assert_eq!(describe(&u.step(UnpackEvent::OutputExists(true))), "skip /out/a/b.txt");
    assert_eq!(u.stage, UnpackStage::Done);
}

#[test]
fn existing_output_is_skipped_whatever_the_compression() {
    let mut u = unpacker(file_plan("GZIP", &["/p/0"]));
    u.step(UnpackEvent::Started);
    assert_eq!(describe(&u.step(UnpackEvent::OutputExists(true))), "skip /out/a/b.txt");
}

#[test]
fn passphrase_chunk_fails() {
    let mut u = unpacker(file_plan("ZSTD", &["/p/0"]));
    u.step(UnpackEvent::Started);
    u.step(UnpackEvent::OutputExists(false));
    u.step(UnpackEvent::OutputCreated);
    match u.step(UnpackEvent::ChunkOpened(DecryptorKind::Passphrase)) {
        UnpackAction::Finish(Err(e)) => assert_eq!(e, UnpackError::PassphraseNotSupported),
        _ => panic!("expected failure"),
    }
}

#[test]
fn directory_is_created() {
    let mut u = unpacker(UnpackPipelinePlan { origin_data: origin("dir"), data_processing: UnpackType::Directory });
    assert_eq!(describe(&u.step(UnpackEvent::Started)), "mkdir /out/dir");
    assert_eq!(describe(&u.step(UnpackEvent::DirectoryCreated)), "ok");
}

#[test]
fn symlink_is_recreated_in_place() {
    let mut u = unpacker(UnpackPipelinePlan {
        origin_data: origin("link"),
        data_processing: UnpackType::Symlink("/elsewhere".to_string()),
    });
    assert_eq!(describe(&u.step(UnpackEvent::Started)), "link /elsewhere /out/link");
    assert_eq!(describe(&u.step(UnpackEvent::SymlinkCreated)), "ok");
    assert_eq!(u.stage, UnpackStage::Done);
}

#[test]
fn error_message() {
    assert_eq!(UnpackError::PassphraseNotSupported.to_string(), "Passphrase decryption not supported");
}
