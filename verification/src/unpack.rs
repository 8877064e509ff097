//! Unpacking one entry of a packed tree: a file is rebuilt from its
//! encrypted, compressed chunks; a directory or a symbolic link is recreated.
//!
//! `Unpacker` makes every decision; its caller does the file system work it
//! asks for and reports each outcome back as an event. An I/O error ends the
//! unpacking with that error at the caller.

use crate::paths::{path_join, pushed_path};
use crate::types::{
    CompressionScheme, EncryptionScheme, PartitionScheme, SpiderMetadata, WriteoutScheme,
};
use vstd::prelude::*;

verus! {

/// How a packed file is turned back into the original.
#[derive(Clone, Debug)]
pub struct UnpackPlan {
    /// How the chunks were compressed.
    pub compression: CompressionScheme,
    /// How the file was cut into chunks.
    pub partition: PartitionScheme,
    /// How the chunks were encrypted.
    pub encryption: EncryptionScheme,
    /// Where the chunks are.
    pub writeout: WriteoutScheme,
}

/// What kind of entry is unpacked.
#[derive(Clone, Debug)]
pub enum UnpackType {
    /// A file, rebuilt from its chunks.
    File(UnpackPlan),
    /// A directory.
    Directory,
    /// A symbolic link, pointing at the given destination.
    Symlink(String),
}

/// One entry to unpack.
#[derive(Clone, Debug)]
pub struct UnpackPipelinePlan {
    /// What the spider recorded of the original entry.
    pub origin_data: SpiderMetadata,
    /// How the entry is unpacked.
    pub data_processing: UnpackType,
}

/// The kind of age decryptor that a chunk's header asks for.
#[derive(Clone, Copy, Debug, PartialEq, Eq, Structural)]
pub enum DecryptorKind {
    /// Decryption with a list of identities.
    Recipients,
    /// Decryption with a passphrase.
    Passphrase,
}

/// Why unpacking failed, where the decision is the unpacker's own.
#[derive(Clone, Copy, Debug, PartialEq, Eq, Structural)]
pub enum UnpackError {
    /// A chunk was encrypted with a passphrase.
    PassphraseNotSupported,
}

impl UnpackError {
    /// The error's message.
    pub fn to_string(&self) -> (s: String)
        ensures
            s@ == "Passphrase decryption not supported"@,
    {
        String::from_str("Passphrase decryption not supported")
    }
}

/// What the caller reports back.
#[derive(Clone, Copy, Debug, PartialEq, Eq, Structural)]
pub enum UnpackEvent {
    /// The unpacking begins.
    Started,
    /// Whether the output file already exists.
    OutputExists(bool),
    /// The output file has been created.
    OutputCreated,
    /// The current chunk has been opened, and its header read.
    ChunkOpened(DecryptorKind),
    /// The current chunk has been decrypted and decompressed into the output.
    ChunkDecoded,
    /// The directory has been created.
    DirectoryCreated,
    /// The symbolic link has been created.
    SymlinkCreated,
}

/// What the caller does next.
#[derive(Debug)]
pub enum UnpackAction {
    /// Check whether the output file exists.
    CheckOutput { path: String },
    /// The output file exists already: report it, and stop with success.
    SkipExisting { path: String },
    /// Create the output file.
    CreateOutput { path: String },
    /// Open chunk `index` and read its age header.
    OpenChunk { index: usize, location: String },
    /// Decrypt the open chunk `index` with the identity, decompress it with
    /// zstd, and append it to the output file.
    DecodeChunk { index: usize, identity: String },
    /// Create the directory, with its parents.
    CreateDirectory { path: String },
    /// Create a symbolic link at `link` that points at `original`.
    CreateSymlink { original: String, link: String },
    /// Stop, with this outcome.
    Finish(Result<(), UnpackError>),
}

/// The view of an action: its paths as text.
pub enum UnpackActionView {
    CheckOutput(Seq<char>),
    SkipExisting(Seq<char>),
    CreateOutput(Seq<char>),
    OpenChunk(nat, Seq<char>),
    DecodeChunk(nat, Seq<char>),
    CreateDirectory(Seq<char>),
    CreateSymlink(Seq<char>, Seq<char>),
    Finish(Result<(), UnpackError>),
}

impl View for UnpackAction {
    type V = UnpackActionView;

    open spec fn view(&self) -> UnpackActionView {
        match self {
            UnpackAction::CheckOutput { path } => UnpackActionView::CheckOutput(path@),
            UnpackAction::SkipExisting { path } => UnpackActionView::SkipExisting(path@),
            UnpackAction::CreateOutput { path } => UnpackActionView::CreateOutput(path@),
            UnpackAction::OpenChunk { index, location } => UnpackActionView::OpenChunk(
                *index as nat,
                location@,
            ),
            UnpackAction::DecodeChunk { index, identity } => UnpackActionView::DecodeChunk(
                *index as nat,
                identity@,
            ),
            UnpackAction::CreateDirectory { path } => UnpackActionView::CreateDirectory(path@),
            UnpackAction::CreateSymlink { original, link } => UnpackActionView::CreateSymlink(
                original@,
                link@,
            ),
            UnpackAction::Finish(r) => UnpackActionView::Finish(*r),
        }
    }
}

/// Where an unpacking stands.
#[derive(Clone, Copy, Debug, PartialEq, Eq, Structural)]
pub enum UnpackStage {
    /// Not begun.
    Begin,
    /// Waiting to learn whether the output file exists.
    CheckingOutput,
    /// Waiting for the output file to be created.
    CreatingOutput,
    /// Waiting for chunk `i` to be opened.
    OpeningChunk(usize),
    /// Waiting for chunk `i` to be decoded.
    DecodingChunk(usize),
    /// Waiting for the directory to be created.
    MakingDirectory,
    /// Waiting for the symbolic link to be created.
    MakingSymlink,
    /// Finished.
    Done,
}

/// The unpacking of one entry into an output directory.
#[derive(Clone, Debug)]
pub struct Unpacker {
    /// The entry.
    pub plan: UnpackPipelinePlan,
    /// The directory that it is unpacked into.
    pub output_dir: String,
    /// Where the unpacking stands.
    pub stage: UnpackStage,
}

/// The location that the entry is unpacked to: the output directory joined
/// with the entry's original location.
pub open spec fn output_path(plan: UnpackPipelinePlan, output_dir: Seq<char>) -> Seq<char> {
    pushed_path(output_dir, plan.origin_data.original_location@)
}

/// The number of chunks of a file entry (zero for other entries).
pub open spec fn chunk_count(plan: UnpackPipelinePlan) -> nat {
    match plan.data_processing {
        UnpackType::File(p) => p.writeout.chunk_locations@.len(),
        _ => 0,
    }
}

/// The location of chunk `i` of a file entry.
pub open spec fn chunk_location(plan: UnpackPipelinePlan, i: nat) -> Seq<char> {
    match plan.data_processing {
        UnpackType::File(p) => p.writeout.chunk_locations@[i as int]@,
        _ => Seq::empty(),
    }
}

/// The identity that decrypts the chunks of a file entry.
pub open spec fn identity_of(plan: UnpackPipelinePlan) -> Seq<char> {
    match plan.data_processing {
        UnpackType::File(p) => p.encryption.identity@,
        _ => Seq::empty(),
    }
}

/// The compression of a file entry is the one that unpacking supports.
pub open spec fn is_zstd(plan: UnpackPipelinePlan) -> bool {
    match plan.data_processing {
        UnpackType::File(p) => p.compression.compression_info@ == "ZSTD"@,
        _ => true,
    }
}

/// The stage fits the entry: the file stages belong to a file, with chunk
/// indices in range, and the directory and link stages to their kinds.
pub open spec fn stage_fits(plan: UnpackPipelinePlan, stage: UnpackStage) -> bool {
    match stage {
        UnpackStage::CheckingOutput | UnpackStage::CreatingOutput => plan.data_processing is File,
        UnpackStage::OpeningChunk(i) | UnpackStage::DecodingChunk(i) => plan.data_processing is File
            && i < chunk_count(plan),
        UnpackStage::MakingDirectory => plan.data_processing is Directory,
        UnpackStage::MakingSymlink => plan.data_processing is Symlink,
        _ => true,
    }
}

/// The event is the one that the stage waits for.
pub open spec fn accepts(stage: UnpackStage, event: UnpackEvent) -> bool {
    match stage {
        UnpackStage::Begin => event is Started,
        UnpackStage::CheckingOutput => event is OutputExists,
        UnpackStage::CreatingOutput => event is OutputCreated,
        UnpackStage::OpeningChunk(_) => event is ChunkOpened,
        UnpackStage::DecodingChunk(_) => event is ChunkDecoded,
        UnpackStage::MakingDirectory => event is DirectoryCreated,
        UnpackStage::MakingSymlink => event is SymlinkCreated,
        UnpackStage::Done => false,
    }
}

/// Moving on to chunk `i`: open it if there is one, else finish with success.
pub open spec fn chunk_transition(plan: UnpackPipelinePlan, i: nat) -> (UnpackStage, UnpackActionView) {
    if i < chunk_count(plan) {
        (UnpackStage::OpeningChunk(i as usize), UnpackActionView::OpenChunk(i, chunk_location(plan, i)))
    } else {
        (UnpackStage::Done, UnpackActionView::Finish(Ok(())))
    }
}

/// The next stage and action, from a stage and the event reported in it.
pub open spec fn transition(
    plan: UnpackPipelinePlan,
    output_dir: Seq<char>,
    stage: UnpackStage,
    event: UnpackEvent,
) -> (UnpackStage, UnpackActionView) {
    let out = output_path(plan, output_dir);
    match stage {
        UnpackStage::Begin => match plan.data_processing {
            UnpackType::File(_) => (UnpackStage::CheckingOutput, UnpackActionView::CheckOutput(out)),
            UnpackType::Directory => (UnpackStage::MakingDirectory, UnpackActionView::CreateDirectory(out)),
            UnpackType::Symlink(to) => (UnpackStage::MakingSymlink, UnpackActionView::CreateSymlink(to@, out)),
        },
        UnpackStage::CheckingOutput => if event == UnpackEvent::OutputExists(true) {
            (UnpackStage::Done, UnpackActionView::SkipExisting(out))
        } else {
            (UnpackStage::CreatingOutput, UnpackActionView::CreateOutput(out))
        },
        UnpackStage::CreatingOutput => chunk_transition(plan, 0),
        UnpackStage::OpeningChunk(i) => if event == UnpackEvent::ChunkOpened(DecryptorKind::Recipients) {
            (UnpackStage::DecodingChunk(i), UnpackActionView::DecodeChunk(i as nat, identity_of(plan)))
        } else {
            (UnpackStage::Done, UnpackActionView::Finish(Err(UnpackError::PassphraseNotSupported)))
        },
        UnpackStage::DecodingChunk(i) => chunk_transition(plan, (i + 1) as nat),
        _ => (UnpackStage::Done, UnpackActionView::Finish(Ok(()))),
    }
}

/// The actions taken in answer to `events`, one for each, from `stage` on.
pub open spec fn run(
    plan: UnpackPipelinePlan,
    output_dir: Seq<char>,
    stage: UnpackStage,
    events: Seq<UnpackEvent>,
) -> Seq<UnpackActionView>
    decreases events.len(),
{
    if events.len() == 0 {
        Seq::empty()
    } else {
        let (next, action) = transition(plan, output_dir, stage, events[0]);
        seq![action] + run(plan, output_dir, next, events.drop_first())
    }
}

/// The events of `m` chunks that open with an identity decryptor and decode.
pub open spec fn decode_events(m: nat) -> Seq<UnpackEvent>
    decreases m,
{
    if m == 0 {
        Seq::empty()
    } else {
        seq![UnpackEvent::ChunkOpened(DecryptorKind::Recipients), UnpackEvent::ChunkDecoded]
            + decode_events((m - 1) as nat)
    }
}

/// The events of a file unpacking in which nothing fails: the output does
/// not exist yet, and every chunk opens with an identity decryptor.
pub open spec fn happy_events(plan: UnpackPipelinePlan) -> Seq<UnpackEvent> {
    seq![UnpackEvent::Started, UnpackEvent::OutputExists(false), UnpackEvent::OutputCreated]
        + decode_events(chunk_count(plan))
}

/// The `k`-th of the chunk actions: chunk `k / 2` is opened, then decoded.
pub open spec fn chunk_action(plan: UnpackPipelinePlan, k: nat) -> UnpackActionView {
    if k % 2 == 0 {
        UnpackActionView::OpenChunk(k / 2, chunk_location(plan, k / 2))
    } else {
        UnpackActionView::DecodeChunk(k / 2, identity_of(plan))
    }
}

/// The chunk actions from chunk `i` on, then success.
pub open spec fn chunk_actions_from(plan: UnpackPipelinePlan, i: nat) -> Seq<UnpackActionView> {
    Seq::new((2 * (chunk_count(plan) - i)) as nat, |k: int| chunk_action(plan, (2 * i + k) as nat))
        + seq![UnpackActionView::Finish(Ok(()))]
}

proof fn lemma_chunks_from(plan: UnpackPipelinePlan, output_dir: Seq<char>, i: nat)
    requires
        plan.data_processing is File,
        i <= chunk_count(plan),
    ensures
        ({
            let (stage, action) = chunk_transition(plan, i);
            seq![action] + run(plan, output_dir, stage, decode_events((chunk_count(plan) - i) as nat))
                == chunk_actions_from(plan, i)
        }),
    decreases chunk_count(plan) - i,
{
    let n = chunk_count(plan);
    let chunks = plan.data_processing->File_0.writeout.chunk_locations;
    assert(chunks.len() == chunks@.len());
    let (stage, action) = chunk_transition(plan, i);
    if i == n {
        assert(decode_events(0) =~= Seq::<UnpackEvent>::empty());
        assert(seq![action] + run(plan, output_dir, stage, decode_events(0)) =~= chunk_actions_from(
            plan,
            i,
        ));
    } else {
        lemma_chunks_from(plan, output_dir, i + 1);
        let rest = decode_events((n - i - 1) as nat);
        let evs = decode_events((n - i) as nat);
        assert(evs =~= seq![UnpackEvent::ChunkOpened(DecryptorKind::Recipients), UnpackEvent::ChunkDecoded] + rest);
        assert(evs[0] == UnpackEvent::ChunkOpened(DecryptorKind::Recipients));
        assert(evs.drop_first() =~= seq![UnpackEvent::ChunkDecoded] + rest);
        let evs1 = evs.drop_first();
        assert(evs1[0] == UnpackEvent::ChunkDecoded);
        assert(evs1.drop_first() =~= rest);
        let (st2, a2) = chunk_transition(plan, i + 1);
        let decode = UnpackActionView::DecodeChunk(i, identity_of(plan));
        assert(run(plan, output_dir, UnpackStage::DecodingChunk(i as usize), evs1) == seq![a2] + run(
            plan,
            output_dir,
            st2,
            rest,
        ));
        assert(run(plan, output_dir, stage, evs) == seq![decode] + run(
            plan,
            output_dir,
            UnpackStage::DecodingChunk(i as usize),
            evs1,
        ));
        let whole = seq![action] + run(plan, output_dir, stage, evs);
        let tail = chunk_actions_from(plan, i + 1);
        assert(whole =~= seq![action, decode] + tail);
        assert(chunk_action(plan, 2 * i) == action);
        assert(chunk_action(plan, 2 * i + 1) == decode);
        assert(whole =~= chunk_actions_from(plan, i)) by {
            assert forall|k: int| 0 <= k < whole.len() implies whole[k] == chunk_actions_from(plan, i)[k] by {
                if k >= 2 && k < whole.len() - 1 {
                    assert(tail[k - 2] == chunk_action(plan, (2 * (i + 1) + (k - 2)) as nat));
                }
            }
        }
    }
}

/// Unpacking a file in which nothing fails (the output does not exist yet,
/// every chunk opens with an identity decryptor, each step succeeds) checks
/// the output path, creates the output file, then opens and decodes each
/// chunk in turn, chunk `0` first and each exactly once, and finishes with
/// success.
pub proof fn lemma_file_unpacks_chunks_in_order(plan: UnpackPipelinePlan, output_dir: Seq<char>)
    requires
        plan.data_processing is File,
    ensures
        run(plan, output_dir, UnpackStage::Begin, happy_events(plan)) == seq![
            UnpackActionView::CheckOutput(output_path(plan, output_dir)),
            UnpackActionView::CreateOutput(output_path(plan, output_dir)),
        ] + chunk_actions_from(plan, 0),
{
    let out = output_path(plan, output_dir);
    let n = chunk_count(plan);
    let evs = happy_events(plan);
    lemma_chunks_from(plan, output_dir, 0);
    let e1 = evs.drop_first();
    let e2 = e1.drop_first();
    let e3 = e2.drop_first();
    assert(e3 =~= decode_events(n));
    assert(evs[0] == UnpackEvent::Started);
    assert(e1[0] == UnpackEvent::OutputExists(false));
    assert(e2[0] == UnpackEvent::OutputCreated);
    let (st, a) = chunk_transition(plan, 0);
    assert(run(plan, output_dir, UnpackStage::CreatingOutput, e2) == seq![a] + run(plan, output_dir, st, e3));
    assert(run(plan, output_dir, UnpackStage::CheckingOutput, e1) == seq![UnpackActionView::CreateOutput(out)]
        + run(plan, output_dir, UnpackStage::CreatingOutput, e2));
    assert(run(plan, output_dir, UnpackStage::Begin, evs) == seq![UnpackActionView::CheckOutput(out)] + run(
        plan,
        output_dir,
        UnpackStage::CheckingOutput,
        e1,
    ));
    assert(run(plan, output_dir, UnpackStage::Begin, evs) =~= seq![
        UnpackActionView::CheckOutput(out),
        UnpackActionView::CreateOutput(out),
    ] + chunk_actions_from(plan, 0));
}

/// Unpacking a file in which nothing fails, spelled out over the plan's own
/// fields: with `n` chunk locations, the actions are a check and then the
/// creation of `output_dir` joined with the entry's original location, then
/// for each `i < n` in turn an open of chunk location `i` and a decode of
/// chunk `i` with the plan's identity, then success; `2n + 3` actions in all.
pub proof fn lemma_file_unpack_actions(plan: UnpackPipelinePlan, output_dir: Seq<char>)
    requires
        plan.data_processing is File,
    ensures
        ({
            let p = plan.data_processing->File_0;
            let chunks = p.writeout.chunk_locations@;
            let n = chunks.len();
            let out = pushed_path(output_dir, plan.origin_data.original_location@);
            let acts = run(plan, output_dir, UnpackStage::Begin, happy_events(plan));
            &&& acts.len() == 2 * n + 3
            &&& acts[0] == UnpackActionView::CheckOutput(out)
            &&& acts[1] == UnpackActionView::CreateOutput(out)
            &&& forall|k: int|
                0 <= k < 2 * n ==> #[trigger] acts[2 + k] == if k % 2 == 0 {
                    UnpackActionView::OpenChunk((k / 2) as nat, chunks[k / 2]@)
                } else {
                    UnpackActionView::DecodeChunk((k / 2) as nat, p.encryption.identity@)
                }
            &&& acts[2 * n + 2 as int] == UnpackActionView::Finish(Ok(()))
        }),
{
    lemma_file_unpacks_chunks_in_order(plan, output_dir);
    let p = plan.data_processing->File_0;
    let chunks = p.writeout.chunk_locations@;
    let n = chunks.len();
    let acts = run(plan, output_dir, UnpackStage::Begin, happy_events(plan));
    let tail = chunk_actions_from(plan, 0);
    assert forall|k: int| 0 <= k < 2 * n implies #[trigger] acts[2 + k] == if k % 2 == 0 {
        UnpackActionView::OpenChunk((k / 2) as nat, chunks[k / 2]@)
    } else {
        UnpackActionView::DecodeChunk((k / 2) as nat, p.encryption.identity@)
    } by {
        assert(acts[2 + k] == tail[k]);
        assert(tail[k] == chunk_action(plan, k as nat));
    }
    assert(acts[2 * n + 2 as int] == tail[2 * n as int]);
}

proof fn lemma_run_two(
    plan: UnpackPipelinePlan,
    output_dir: Seq<char>,
    stage: UnpackStage,
    e0: UnpackEvent,
    e1: UnpackEvent,
)
    ensures
        run(plan, output_dir, stage, seq![e0, e1]) == seq![
            transition(plan, output_dir, stage, e0).1,
            transition(plan, output_dir, transition(plan, output_dir, stage, e0).0, e1).1,
        ],
{
    let evs = seq![e0, e1];
    let (s1, a1) = transition(plan, output_dir, stage, e0);
    let (s2, a2) = transition(plan, output_dir, s1, e1);
    let rest = evs.drop_first();
    assert(rest =~= seq![e1]);
    assert(rest.drop_first() =~= Seq::<UnpackEvent>::empty());
    assert(run(plan, output_dir, s2, rest.drop_first()) == Seq::<UnpackActionView>::empty());
    assert(run(plan, output_dir, s1, rest) == seq![a2] + run(plan, output_dir, s2, rest.drop_first()));
    assert(run(plan, output_dir, stage, evs) == seq![a1] + run(plan, output_dir, s1, rest));
    assert(run(plan, output_dir, stage, evs) =~= seq![a1, a2]);
}

/// A directory entry is made, whatever its recorded metadata: the first
/// action creates `output_dir` joined with the entry's original location, the
/// only event then accepted is the directory's creation, and after it the
/// unpacking finishes with success.
pub proof fn lemma_directory_unpack_actions(plan: UnpackPipelinePlan, output_dir: Seq<char>)
    requires
        plan.data_processing is Directory,
    ensures
        run(plan, output_dir, UnpackStage::Begin, seq![UnpackEvent::Started, UnpackEvent::DirectoryCreated])
            == seq![
            UnpackActionView::CreateDirectory(pushed_path(output_dir, plan.origin_data.original_location@)),
            UnpackActionView::Finish(Ok(())),
        ],
        transition(plan, output_dir, UnpackStage::Begin, UnpackEvent::Started).0
            == UnpackStage::MakingDirectory,
        forall|e: UnpackEvent| accepts(UnpackStage::MakingDirectory, e) <==> e == UnpackEvent::DirectoryCreated,
{
    let evs = seq![UnpackEvent::Started, UnpackEvent::DirectoryCreated];
    lemma_run_two(plan, output_dir, UnpackStage::Begin, UnpackEvent::Started, UnpackEvent::DirectoryCreated);
    assert(evs.drop_first().drop_first() =~= Seq::<UnpackEvent>::empty());
    assert(evs.drop_first()[0] == UnpackEvent::DirectoryCreated);
    assert(run(plan, output_dir, UnpackStage::Begin, evs) =~= seq![
        UnpackActionView::CreateDirectory(pushed_path(output_dir, plan.origin_data.original_location@)),
        UnpackActionView::Finish(Ok(())),
    ]);
}

/// A symbolic link entry is made, whatever its recorded metadata: the first
/// action links `output_dir` joined with the entry's original location to the
/// recorded destination, and after the link's creation the unpacking finishes
/// with success.
pub proof fn lemma_symlink_unpack_actions(plan: UnpackPipelinePlan, output_dir: Seq<char>)
    requires
        plan.data_processing is Symlink,
    ensures
        run(plan, output_dir, UnpackStage::Begin, seq![UnpackEvent::Started, UnpackEvent::SymlinkCreated])
            == seq![
            UnpackActionView::CreateSymlink(
                plan.data_processing->Symlink_0@,
                pushed_path(output_dir, plan.origin_data.original_location@),
            ),
            UnpackActionView::Finish(Ok(())),
        ],
        forall|e: UnpackEvent| accepts(UnpackStage::MakingSymlink, e) <==> e == UnpackEvent::SymlinkCreated,
{
    let evs = seq![UnpackEvent::Started, UnpackEvent::SymlinkCreated];
    lemma_run_two(plan, output_dir, UnpackStage::Begin, UnpackEvent::Started, UnpackEvent::SymlinkCreated);
    assert(evs.drop_first().drop_first() =~= Seq::<UnpackEvent>::empty());
    assert(evs.drop_first()[0] == UnpackEvent::SymlinkCreated);
    assert(run(plan, output_dir, UnpackStage::Begin, evs) =~= seq![
        UnpackActionView::CreateSymlink(
            plan.data_processing->Symlink_0@,
            pushed_path(output_dir, plan.origin_data.original_location@),
        ),
        UnpackActionView::Finish(Ok(())),
    ]);
}

/// A file entry's output that exists already is reported and left alone,
/// whatever the entry's recorded metadata: the unpacking stops there with
/// the report of `output_dir` joined with the original location.
pub proof fn lemma_existing_file_skipped(plan: UnpackPipelinePlan, output_dir: Seq<char>)
    requires
        plan.data_processing is File,
    ensures
        run(plan, output_dir, UnpackStage::Begin, seq![UnpackEvent::Started, UnpackEvent::OutputExists(true)])
            == seq![
            UnpackActionView::CheckOutput(pushed_path(output_dir, plan.origin_data.original_location@)),
            UnpackActionView::SkipExisting(pushed_path(output_dir, plan.origin_data.original_location@)),
        ],
{
    let evs = seq![UnpackEvent::Started, UnpackEvent::OutputExists(true)];
    lemma_run_two(plan, output_dir, UnpackStage::Begin, UnpackEvent::Started, UnpackEvent::OutputExists(true));
    assert(evs.drop_first().drop_first() =~= Seq::<UnpackEvent>::empty());
    assert(evs.drop_first()[0] == UnpackEvent::OutputExists(true));
    let out = pushed_path(output_dir, plan.origin_data.original_location@);
    assert(run(plan, output_dir, UnpackStage::Begin, evs) =~= seq![
        UnpackActionView::CheckOutput(out),
        UnpackActionView::SkipExisting(out),
    ]);
}

/// An output file that exists already is left alone: the unpacking reports
/// it and stops with success, and creates nothing.
pub proof fn lemma_existing_output_is_kept(plan: UnpackPipelinePlan, output_dir: Seq<char>)
    ensures
        transition(plan, output_dir, UnpackStage::CheckingOutput, UnpackEvent::OutputExists(true))
            == (UnpackStage::Done, UnpackActionView::SkipExisting(output_path(plan, output_dir))),
        forall|e: UnpackEvent| !accepts(UnpackStage::Done, e),
{
}

/// A symbolic link is recreated at its own place in the output directory,
/// pointing at its recorded destination; nothing is made at the destination.
pub proof fn lemma_symlink_recreated_in_place(plan: UnpackPipelinePlan, output_dir: Seq<char>)
    requires
        plan.data_processing is Symlink,
    ensures
        transition(plan, output_dir, UnpackStage::Begin, UnpackEvent::Started) == (
            UnpackStage::MakingSymlink,
            UnpackActionView::CreateSymlink(plan.data_processing->Symlink_0@, output_path(plan, output_dir)),
        ),
{
}

/// A chunk encrypted with a passphrase ends the unpacking with
/// `PassphraseNotSupported`, and nothing more is done.
pub proof fn lemma_passphrase_chunk_fails(plan: UnpackPipelinePlan, output_dir: Seq<char>, i: usize)
    ensures
        transition(
            plan,
            output_dir,
            UnpackStage::OpeningChunk(i),
            UnpackEvent::ChunkOpened(DecryptorKind::Passphrase),
        ) == (UnpackStage::Done, UnpackActionView::Finish(Err(UnpackError::PassphraseNotSupported))),
{
}

impl Unpacker {
    /// An unpacking of `plan` into `output_dir`, not begun. (The input
    /// directory is not read: the chunks carry their own locations.)
    pub fn new(plan: UnpackPipelinePlan, input_dir: String, output_dir: String) -> (u: Unpacker)
        ensures
            u.plan == plan,
            u.output_dir == output_dir,
            u.stage == UnpackStage::Begin,
    {
        Unpacker { plan, output_dir, stage: UnpackStage::Begin }
    }

    fn output_location(&self) -> (path: String)
        ensures
            path@ == output_path(self.plan, self.output_dir@),
    {
        path_join(&self.output_dir, &self.plan.origin_data.original_location)
    }

    fn enter_chunk(&mut self, i: usize) -> (action: UnpackAction)
        requires
            old(self).plan.data_processing is File,
            i <= chunk_count(old(self).plan),
        ensures
            final(self).plan == old(self).plan,
            final(self).output_dir == old(self).output_dir,
            (final(self).stage, action@) == chunk_transition(old(self).plan, i as nat),
    {
        match &self.plan.data_processing {
            UnpackType::File(p) => {
                if i < p.writeout.chunk_locations.len() {
                    let location = p.writeout.chunk_locations[i].clone();
                    self.stage = UnpackStage::OpeningChunk(i);
                    UnpackAction::OpenChunk { index: i, location }
                } else {
                    self.stage = UnpackStage::Done;
                    UnpackAction::Finish(Ok(()))
                }
            },
            _ => {
                self.stage = UnpackStage::Done;
                UnpackAction::Finish(Ok(()))
            },
        }
    }

    /// Takes the event reported in the current stage and says what to do
    /// next (see `transition`). A file whose chunks are not ZSTD-compressed
    /// cannot be unpacked: the event that would start on its chunks is not
    /// accepted.
    pub fn step(&mut self, event: UnpackEvent) -> (action: UnpackAction)
        requires
            stage_fits(old(self).plan, old(self).stage),
            accepts(old(self).stage, event),
            old(self).stage == UnpackStage::CreatingOutput ==> is_zstd(old(self).plan),
        ensures
            final(self).plan == old(self).plan,
            final(self).output_dir == old(self).output_dir,
            stage_fits(final(self).plan, final(self).stage),
            (final(self).stage, action@) == transition(
                old(self).plan,
                old(self).output_dir@,
                old(self).stage,
                event,
            ),
    {
        match self.stage {
            UnpackStage::Begin => {
                let out = self.output_location();
                match &self.plan.data_processing {
                    UnpackType::File(_) => {
                        self.stage = UnpackStage::CheckingOutput;
                        UnpackAction::CheckOutput { path: out }
                    },
                    UnpackType::Directory => {
                        self.stage = UnpackStage::MakingDirectory;
                        UnpackAction::CreateDirectory { path: out }
                    },
                    UnpackType::Symlink(to) => {
                        let original = to.clone();
                        self.stage = UnpackStage::MakingSymlink;
                        UnpackAction::CreateSymlink { original, link: out }
                    },
                }
            },
            UnpackStage::CheckingOutput => {
                let out = self.output_location();
                if event == UnpackEvent::OutputExists(true) {
                    self.stage = UnpackStage::Done;
                    UnpackAction::SkipExisting { path: out }
                } else {
                    self.stage = UnpackStage::CreatingOutput;
                    UnpackAction::CreateOutput { path: out }
                }
            },
            UnpackStage::CreatingOutput => self.enter_chunk(0),
            UnpackStage::OpeningChunk(i) => {
                if event == UnpackEvent::ChunkOpened(DecryptorKind::Recipients) {
                    let identity = match &self.plan.data_processing {
                        UnpackType::File(p) => p.encryption.identity.clone(),
                        _ => String::new(),
                    };
                    self.stage = UnpackStage::DecodingChunk(i);
                    UnpackAction::DecodeChunk { index: i, identity }
                } else {
                    self.stage = UnpackStage::Done;
                    UnpackAction::Finish(Err(UnpackError::PassphraseNotSupported))
                }
            },
            UnpackStage::DecodingChunk(i) => {
                let count = match &self.plan.data_processing {
                    UnpackType::File(p) => p.writeout.chunk_locations.len(),
                    _ => 0,
                };
                assert(i < count);
                self.enter_chunk(i + 1)
            },
            _ => {
                self.stage = UnpackStage::Done;
                UnpackAction::Finish(Ok(()))
            },
        }
    }
}

} // verus!
