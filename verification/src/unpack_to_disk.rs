//! Unpacking one entry straight under an output root: a file is rebuilt from
//! `num_chunks` gzip-compressed chunks, each decrypted with its own key; a
//! directory or a symbolic link entry is made as a directory.
//!
//! `DiskUnpacker` makes the decisions; its caller does the file system work
//! and reports each outcome back as an event. An I/O error ends the unpacking
//! with that error at the caller.

use crate::paths::{path_join, pushed_path};
use crate::types::{CompressionScheme, PartitionScheme, SpiderMetadata, WriteoutScheme};
use vstd::prelude::*;

verus! {

/// The key of one encrypted chunk.
#[derive(Clone, Debug)]
pub struct EncryptedPiece {
    /// The key that decrypts the chunk.
    pub key: String,
}

/// How the chunks of a file were encrypted: one piece per chunk.
#[derive(Clone, Debug)]
pub struct PieceEncryption {
    /// The piece of each chunk, in order.
    pub encrypted_pieces: Vec<EncryptedPiece>,
}

/// How a packed file is turned back into the original.
#[derive(Clone, Debug)]
pub struct DataProcess {
    /// How the chunks were compressed.
    pub compression: CompressionScheme,
    /// How the file was cut into chunks.
    pub partition: PartitionScheme,
    /// How the chunks were encrypted.
    pub encryption: PieceEncryption,
    /// Where the chunks are.
    pub writeout: WriteoutScheme,
}

/// What kind of entry is unpacked.
#[derive(Clone, Debug)]
pub enum DataProcessDirectiveToDisk {
    /// A file, rebuilt from its chunks.
    File(DataProcess),
    /// A directory.
    Directory,
    /// A symbolic link.
    Symlink,
    /// A duplicate of another entry, here the entry that it duplicates.
    Duplicate(SpiderMetadata),
}

/// One entry to unpack.
#[derive(Clone, Debug)]
pub struct PipelineToDisk {
    /// What the spider recorded of the original entry.
    pub origin_data: SpiderMetadata,
    /// How the entry is unpacked.
    pub data_processing: DataProcessDirectiveToDisk,
}

/// What the caller reports back.
#[derive(Clone, Copy, Debug, PartialEq, Eq, Structural)]
pub enum DiskEvent {
    /// The unpacking begins.
    Started,
    /// The output file has been created.
    OutputCreated,
    /// The current chunk has been opened.
    ChunkOpened,
    /// The current chunk has been decompressed, decrypted and appended to the output.
    ChunkCopied,
    /// The directory has been created.
    DirectoryCreated,
}

/// What the caller does next.
#[derive(Clone, Debug)]
pub enum DiskAction {
    /// Create the output file.
    CreateOutput { path: String },
    /// Open chunk `index`.
    OpenChunk { index: u64, location: String },
    /// Decompress the open chunk `index` with gzip, decrypt it with `key`, and
    /// append it to the output file.
    CopyChunk { index: u64, key: String },
    /// Create the directory, with its parents.
    CreateDirectory { path: String },
    /// Stop with success.
    Finish,
}

/// The view of an action: its texts as sequences.
pub enum DiskActionView {
    CreateOutput(Seq<char>),
    OpenChunk(nat, Seq<char>),
    CopyChunk(nat, Seq<char>),
    CreateDirectory(Seq<char>),
    Finish,
}

impl View for DiskAction {
    type V = DiskActionView;

    open spec fn view(&self) -> DiskActionView {
        match self {
            DiskAction::CreateOutput { path } => DiskActionView::CreateOutput(path@),
            DiskAction::OpenChunk { index, location } => DiskActionView::OpenChunk(*index as nat, location@),
            DiskAction::CopyChunk { index, key } => DiskActionView::CopyChunk(*index as nat, key@),
            DiskAction::CreateDirectory { path } => DiskActionView::CreateDirectory(path@),
            DiskAction::Finish => DiskActionView::Finish,
        }
    }
}

/// Where an unpacking stands.
#[derive(Clone, Copy, Debug, PartialEq, Eq, Structural)]
pub enum DiskStage {
    /// Not begun.
    Begin,
    /// Waiting for the output file to be created.
    CreatingOutput,
    /// Waiting for chunk `i` to be opened.
    OpeningChunk(u64),
    /// Waiting for chunk `i` to be copied.
    CopyingChunk(u64),
    /// Waiting for the directory to be created.
    MakingDirectory,
    /// Finished.
    Done,
}

/// The unpacking of one entry under an output root.
#[derive(Clone, Debug)]
pub struct DiskUnpacker {
    /// The entry.
    pub plan: PipelineToDisk,
    /// The directory that it is unpacked under.
    pub output_root: String,
    /// Where the unpacking stands.
    pub stage: DiskStage,
}

/// The number of chunks of a file entry.
pub open spec fn disk_chunk_count(plan: PipelineToDisk) -> nat {
    match plan.data_processing {
        DataProcessDirectiveToDisk::File(p) => p.partition.num_chunks as nat,
        _ => 0,
    }
}

/// A file entry has a location and a key for each of its chunks.
pub open spec fn chunks_described(plan: PipelineToDisk) -> bool {
    match plan.data_processing {
        DataProcessDirectiveToDisk::File(p) => {
            &&& p.partition.num_chunks <= p.writeout.chunk_locations@.len()
            &&& p.partition.num_chunks <= p.encryption.encrypted_pieces@.len()
        },
        _ => true,
    }
}

/// The location of chunk `i` of a file entry.
pub open spec fn disk_chunk_location(plan: PipelineToDisk, i: nat) -> Seq<char> {
    match plan.data_processing {
        DataProcessDirectiveToDisk::File(p) => p.writeout.chunk_locations@[i as int]@,
        _ => Seq::empty(),
    }
}

/// The key of chunk `i` of a file entry.
pub open spec fn disk_chunk_key(plan: PipelineToDisk, i: nat) -> Seq<char> {
    match plan.data_processing {
        DataProcessDirectiveToDisk::File(p) => p.encryption.encrypted_pieces@[i as int].key@,
        _ => Seq::empty(),
    }
}

/// The compression of a file entry is the one that this unpacking supports.
pub open spec fn is_gzip(plan: PipelineToDisk) -> bool {
    match plan.data_processing {
        DataProcessDirectiveToDisk::File(p) => p.compression.compression_info@ == "GZIP"@,
        _ => true,
    }
}

/// The location that the entry is unpacked to.
pub open spec fn disk_output_path(plan: PipelineToDisk, output_root: Seq<char>) -> Seq<char> {
    pushed_path(output_root, plan.origin_data.original_location@)
}

/// The stage fits the entry.
pub open spec fn disk_stage_fits(plan: PipelineToDisk, stage: DiskStage) -> bool {
    &&& chunks_described(plan)
    &&& !(plan.data_processing is Duplicate)
    &&& match stage {
        DiskStage::CreatingOutput => plan.data_processing is File,
        DiskStage::OpeningChunk(i) | DiskStage::CopyingChunk(i) => plan.data_processing is File && i
            < disk_chunk_count(plan),
        DiskStage::MakingDirectory => !(plan.data_processing is File),
        _ => true,
    }
}

/// The event is the one that the stage waits for.
pub open spec fn disk_accepts(stage: DiskStage, event: DiskEvent) -> bool {
    match stage {
        DiskStage::Begin => event is Started,
        DiskStage::CreatingOutput => event is OutputCreated,
        DiskStage::OpeningChunk(_) => event is ChunkOpened,
        DiskStage::CopyingChunk(_) => event is ChunkCopied,
        DiskStage::MakingDirectory => event is DirectoryCreated,
        DiskStage::Done => false,
    }
}

/// Moving on to chunk `i`: open it if there is one, else finish.
pub open spec fn disk_chunk_transition(plan: PipelineToDisk, i: nat) -> (DiskStage, DiskActionView) {
    if i < disk_chunk_count(plan) {
        (DiskStage::OpeningChunk(i as u64), DiskActionView::OpenChunk(i, disk_chunk_location(plan, i)))
    } else {
        (DiskStage::Done, DiskActionView::Finish)
    }
}

/// The next stage and action, from a stage and the event reported in it.
pub open spec fn disk_transition(plan: PipelineToDisk, output_root: Seq<char>, stage: DiskStage) -> (
    DiskStage,
    DiskActionView,
) {
    let out = disk_output_path(plan, output_root);
    match stage {
        DiskStage::Begin => if plan.data_processing is File {
            (DiskStage::CreatingOutput, DiskActionView::CreateOutput(out))
        } else {
            (DiskStage::MakingDirectory, DiskActionView::CreateDirectory(out))
        },
        DiskStage::CreatingOutput => disk_chunk_transition(plan, 0),
        DiskStage::OpeningChunk(i) => (
            DiskStage::CopyingChunk(i),
            DiskActionView::CopyChunk(i as nat, disk_chunk_key(plan, i as nat)),
        ),
        DiskStage::CopyingChunk(i) => disk_chunk_transition(plan, (i + 1) as nat),
        _ => (DiskStage::Done, DiskActionView::Finish),
    }
}

/// The actions taken over `steps` steps from `stage` on (the events carry no
/// choice: each stage waits for one kind of event).
pub open spec fn disk_run(plan: PipelineToDisk, output_root: Seq<char>, stage: DiskStage, steps: nat) -> Seq<
    DiskActionView,
>
    decreases steps,
{
    if steps == 0 {
        Seq::empty()
    } else {
        let (next, action) = disk_transition(plan, output_root, stage);
        seq![action] + disk_run(plan, output_root, next, (steps - 1) as nat)
    }
}

/// The `k`-th of the chunk actions: chunk `k / 2` is opened, then copied with
/// its own key.
pub open spec fn disk_chunk_action(plan: PipelineToDisk, k: nat) -> DiskActionView {
    if k % 2 == 0 {
        DiskActionView::OpenChunk(k / 2, disk_chunk_location(plan, k / 2))
    } else {
        DiskActionView::CopyChunk(k / 2, disk_chunk_key(plan, k / 2))
    }
}

/// The chunk actions from chunk `i` on, then the finish.
pub open spec fn disk_chunk_actions_from(plan: PipelineToDisk, i: nat) -> Seq<DiskActionView> {
    Seq::new((2 * (disk_chunk_count(plan) - i)) as nat, |k: int| disk_chunk_action(plan, (2 * i + k) as nat))
        + seq![DiskActionView::Finish]
}

proof fn lemma_disk_chunks_from(plan: PipelineToDisk, output_root: Seq<char>, i: nat)
    requires
        plan.data_processing is File,
        i <= disk_chunk_count(plan),
    ensures
        ({
            let (stage, action) = disk_chunk_transition(plan, i);
            seq![action] + disk_run(plan, output_root, stage, (2 * (disk_chunk_count(plan) - i)) as nat)
                == disk_chunk_actions_from(plan, i)
        }),
    decreases disk_chunk_count(plan) - i,
{
    let n = disk_chunk_count(plan);
    let (stage, action) = disk_chunk_transition(plan, i);
    if i == n {
        assert(seq![action] + disk_run(plan, output_root, stage, 0) =~= disk_chunk_actions_from(plan, i));
    } else {
        lemma_disk_chunks_from(plan, output_root, i + 1);
        let m = (2 * (n - i)) as nat;
        let (st2, a2) = disk_chunk_transition(plan, i + 1);
        let copy = DiskActionView::CopyChunk(i, disk_chunk_key(plan, i));
        assert(disk_run(plan, output_root, DiskStage::CopyingChunk(i as u64), (m - 1) as nat) == seq![a2]
            + disk_run(plan, output_root, st2, (m - 2) as nat));
        assert(disk_run(plan, output_root, stage, m) == seq![copy] + disk_run(
            plan,
            output_root,
            DiskStage::CopyingChunk(i as u64),
            (m - 1) as nat,
        ));
        let whole = seq![action] + disk_run(plan, output_root, stage, m);
        let tail = disk_chunk_actions_from(plan, i + 1);
        assert((m - 2) as nat == (2 * (n - (i + 1))) as nat);
        assert(whole =~= seq![action, copy] + tail);
        assert(disk_chunk_action(plan, 2 * i) == action);
        assert(disk_chunk_action(plan, 2 * i + 1) == copy);
        assert(whole =~= disk_chunk_actions_from(plan, i)) by {
            assert forall|k: int| 0 <= k < whole.len() implies whole[k] == disk_chunk_actions_from(
                plan,
                i,
            )[k] by {
                if k >= 2 && k < whole.len() - 1 {
                    assert(tail[k - 2] == disk_chunk_action(plan, (2 * (i + 1) + (k - 2)) as nat));
                }
            }
        }
    }
}

/// Unpacking a file in which every step succeeds creates the output file,
/// then opens and copies chunks `0` to `num_chunks - 1` in turn, each once and
/// each with its own key, and finishes.
pub proof fn lemma_disk_file_unpacks_chunks_in_order(plan: PipelineToDisk, output_root: Seq<char>)
    requires
        plan.data_processing is File,
    ensures
        disk_run(plan, output_root, DiskStage::Begin, 2 + 2 * disk_chunk_count(plan)) == seq![
            DiskActionView::CreateOutput(disk_output_path(plan, output_root)),
        ] + disk_chunk_actions_from(plan, 0),
{
    let n = disk_chunk_count(plan);
    lemma_disk_chunks_from(plan, output_root, 0);
    let (st, a) = disk_chunk_transition(plan, 0);
    assert(disk_run(plan, output_root, DiskStage::CreatingOutput, (1 + 2 * n) as nat) == seq![a] + disk_run(
        plan,
        output_root,
        st,
        (2 * n) as nat,
    ));
    assert(disk_run(plan, output_root, DiskStage::Begin, 2 + 2 * n) =~= seq![
        DiskActionView::CreateOutput(disk_output_path(plan, output_root)),
    ] + disk_chunk_actions_from(plan, 0));
}

/// A directory or symbolic link entry is made as a directory at the output
/// root joined with the entry's original location, whatever the entry's
/// recorded metadata, and the unpacking then finishes.
pub proof fn lemma_disk_non_file_actions(plan: PipelineToDisk, output_root: Seq<char>)
    requires
        plan.data_processing is Directory || plan.data_processing is Symlink,
    ensures
        disk_run(plan, output_root, DiskStage::Begin, 2) == seq![
            DiskActionView::CreateDirectory(pushed_path(output_root, plan.origin_data.original_location@)),
            DiskActionView::Finish,
        ],
        forall|e: DiskEvent| disk_accepts(DiskStage::MakingDirectory, e) <==> e == DiskEvent::DirectoryCreated,
{
    let out = pushed_path(output_root, plan.origin_data.original_location@);
    assert(disk_run(plan, output_root, DiskStage::MakingDirectory, 0) == Seq::<DiskActionView>::empty());
    assert(disk_run(plan, output_root, DiskStage::MakingDirectory, 1) == seq![DiskActionView::Finish]
        + disk_run(plan, output_root, DiskStage::Done, 0));
    assert(disk_run(plan, output_root, DiskStage::Begin, 2) == seq![DiskActionView::CreateDirectory(out)]
        + disk_run(plan, output_root, DiskStage::MakingDirectory, 1));
    assert(disk_run(plan, output_root, DiskStage::Begin, 2) =~= seq![
        DiskActionView::CreateDirectory(out),
        DiskActionView::Finish,
    ]);
}

/// Unpacking a file in which every step succeeds, spelled out over the plan's
/// own fields: with `n = num_chunks`, the actions are the creation of the
/// output root joined with the entry's original location, then for each
/// `i < n` in turn an open of chunk location `i` and a copy of chunk `i` with
/// encrypted piece `i`'s key, then the finish; `2n + 2` actions in all.
pub proof fn lemma_disk_file_actions(plan: PipelineToDisk, output_root: Seq<char>)
    requires
        plan.data_processing is File,
    ensures
        ({
            let p = plan.data_processing->File_0;
            let n = p.partition.num_chunks as nat;
            let acts = disk_run(plan, output_root, DiskStage::Begin, 2 + 2 * n);
            &&& acts.len() == 2 * n + 2
            &&& acts[0] == DiskActionView::CreateOutput(
                pushed_path(output_root, plan.origin_data.original_location@),
            )
            &&& forall|k: int|
                0 <= k < 2 * n ==> #[trigger] acts[1 + k] == if k % 2 == 0 {
                    DiskActionView::OpenChunk((k / 2) as nat, p.writeout.chunk_locations@[k / 2]@)
                } else {
                    DiskActionView::CopyChunk((k / 2) as nat, p.encryption.encrypted_pieces@[k / 2].key@)
                }
            &&& acts[2 * n + 1 as int] == DiskActionView::Finish
        }),
{
    lemma_disk_file_unpacks_chunks_in_order(plan, output_root);
    let p = plan.data_processing->File_0;
    let n = p.partition.num_chunks as nat;
    let acts = disk_run(plan, output_root, DiskStage::Begin, 2 + 2 * n);
    let tail = disk_chunk_actions_from(plan, 0);
    assert forall|k: int| 0 <= k < 2 * n implies #[trigger] acts[1 + k] == if k % 2 == 0 {
        DiskActionView::OpenChunk((k / 2) as nat, p.writeout.chunk_locations@[k / 2]@)
    } else {
        DiskActionView::CopyChunk((k / 2) as nat, p.encryption.encrypted_pieces@[k / 2].key@)
    } by {
        assert(acts[1 + k] == tail[k]);
        assert(tail[k] == disk_chunk_action(plan, k as nat));
    }
    assert(acts[2 * n + 1 as int] == tail[2 * n as int]);
}

impl DiskUnpacker {
    /// An unpacking of `plan` under `output_root`, not begun.
    pub fn new(plan: PipelineToDisk, output_root: String) -> (u: DiskUnpacker)
        ensures
            u.plan == plan,
            u.output_root == output_root,
            u.stage == DiskStage::Begin,
    {
        DiskUnpacker { plan, output_root, stage: DiskStage::Begin }
    }

    fn enter_chunk(&mut self, i: u64) -> (action: DiskAction)
        requires
            old(self).plan.data_processing is File,
            chunks_described(old(self).plan),
            i <= disk_chunk_count(old(self).plan),
        ensures
            final(self).plan == old(self).plan,
            final(self).output_root == old(self).output_root,
            (final(self).stage, action@) == disk_chunk_transition(old(self).plan, i as nat),
    {
        match &self.plan.data_processing {
            DataProcessDirectiveToDisk::File(p) => {
                if i < p.partition.num_chunks {
                    assert(p.writeout.chunk_locations@.len() == p.writeout.chunk_locations.len());
                    let location = p.writeout.chunk_locations[i as usize].clone();
                    self.stage = DiskStage::OpeningChunk(i);
                    DiskAction::OpenChunk { index: i, location }
                } else {
                    self.stage = DiskStage::Done;
                    DiskAction::Finish
                }
            },
            _ => {
                self.stage = DiskStage::Done;
                DiskAction::Finish
            },
        }
    }

    /// Takes the event reported in the current stage and says what to do
    /// next (see `disk_transition`). A duplicate entry cannot be unpacked this
    /// way, and the chunks must be gzip-compressed: the event that reports a
    /// chunk open is accepted only then.
    pub fn step(&mut self, event: DiskEvent) -> (action: DiskAction)
        requires
            disk_stage_fits(old(self).plan, old(self).stage),
            disk_accepts(old(self).stage, event),
            old(self).stage is OpeningChunk ==> is_gzip(old(self).plan),
        ensures
            final(self).plan == old(self).plan,
            final(self).output_root == old(self).output_root,
            disk_stage_fits(final(self).plan, final(self).stage),
            (final(self).stage, action@) == disk_transition(
                old(self).plan,
                old(self).output_root@,
                old(self).stage,
            ),
    {
        match self.stage {
            DiskStage::Begin => {
                let out = path_join(&self.output_root, &self.plan.origin_data.original_location);
                match &self.plan.data_processing {
                    DataProcessDirectiveToDisk::File(_) => {
                        self.stage = DiskStage::CreatingOutput;
                        DiskAction::CreateOutput { path: out }
                    },
                    _ => {
                        self.stage = DiskStage::MakingDirectory;
                        DiskAction::CreateDirectory { path: out }
                    },
                }
            },
            DiskStage::CreatingOutput => self.enter_chunk(0),
            DiskStage::OpeningChunk(i) => {
                let key = match &self.plan.data_processing {
                    DataProcessDirectiveToDisk::File(p) => {
                        assert(p.encryption.encrypted_pieces@.len() == p.encryption.encrypted_pieces.len());
                        p.encryption.encrypted_pieces[i as usize].key.clone()
                    },
                    _ => String::new(),
                };
                self.stage = DiskStage::CopyingChunk(i);
                DiskAction::CopyChunk { index: i, key }
            },
            DiskStage::CopyingChunk(i) => self.enter_chunk(i + 1),
            _ => {
                self.stage = DiskStage::Done;
                DiskAction::Finish
            },
        }
    }
}

} // verus!
