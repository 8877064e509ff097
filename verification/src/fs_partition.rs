//! Cutting a large copied file into parts of `MAX_FILE_SIZE` bytes each.
//!
//! The decisions live here; the reads, writes and removals are done by the
//! caller, which reports back as it goes.

use crate::paths::{
    decimal, has_no_separator, lemma_decimal_has_no_separator, lemma_decimal_injective, path_set_extension,
    path_with_extension, push_decimal,
};
use crate::types::FileMetadata;
use vstd::prelude::*;

verus! {

/// The largest part that a file is cut into (4 GiB).
pub const MAX_FILE_SIZE: u64 = 4294967296;

/// The size of the buffer that a part is copied through (1 MiB).
pub const BUF_SIZE: usize = 1048576;

/// A copied file system entry.
#[derive(Clone, Debug)]
pub struct CopyMetadata {
    /// The metadata of the original entry.
    pub original_metadata: FileMetadata,
    /// Where the copy lives.
    pub new_location: String,
}

/// A copied file, either cut into numbered parts or kept whole.
#[derive(Clone, Debug)]
pub enum MaybePartitioned {
    /// The parts, each with its number and location.
    Partitioned(Vec<(u32, String)>),
    /// The location of the whole file.
    Unpartitioned(String),
}

/// A copied entry together with how it was partitioned.
#[derive(Clone, Debug)]
pub struct PartitionMetadata {
    /// The copied entry.
    pub copy_metadata: CopyMetadata,
    /// Its parts.
    pub parts: MaybePartitioned,
}

/// `len / d`, rounded up.
pub open spec fn ceil_div(len: nat, d: nat) -> nat
    recommends
        d > 0,
{
    if d == 0 {
        0
    } else {
        ((len + d - 1) as nat) / d
    }
}

/// The number of parts that a file of `len` bytes is cut into: `len` over
/// `MAX_FILE_SIZE`, rounded up, saturating at `u32::MAX`.
pub open spec fn part_count(len: nat) -> nat {
    let c = ceil_div(len, MAX_FILE_SIZE as nat);
    if c > u32::MAX {
        u32::MAX as nat
    } else {
        c
    }
}

/// The extension that part `part` is named with.
pub open spec fn part_extension(part: nat) -> Seq<char> {
    "part-"@ + decimal(part)
}

/// The location of part `part` of the file at `location`.
pub open spec fn part_location(location: Seq<char>, part: nat) -> Seq<char> {
    path_with_extension(location, part_extension(part))
}

/// The parts of a file at `location` cut into `n` parts: part `i` is at the
/// `i`-th position, with its location.
pub open spec fn part_list(location: Seq<char>, n: nat) -> Seq<(u32, Seq<char>)> {
    Seq::new(n, |i: int| (i as u32, part_location(location, i as nat)))
}

/// The view of a list of numbered parts.
pub open spec fn parts_view(parts: Seq<(u32, String)>) -> Seq<(u32, Seq<char>)> {
    parts.map_values(|p: (u32, String)| (p.0, p.1@))
}

/// Whether an entry with this metadata is cut into parts.
pub open spec fn needs_partition(meta: FileMetadata) -> bool {
    !meta.is_dir && !meta.is_symlink && meta.len > MAX_FILE_SIZE
}

/// A regular file is kept whole exactly when it holds at most 4 GiB
/// (`MAX_FILE_SIZE`); directories and symbolic links are always kept whole.
/// So whatever partitioning yields, the whole file or each part (see
/// `lemma_parts_reassemble_file`), holds at most 4 GiB.
pub proof fn lemma_kept_whole_exactly_when_small(meta: FileMetadata)
    ensures
        MAX_FILE_SIZE == 4294967296,
        !meta.is_dir && !meta.is_symlink ==> (needs_partition(meta) <==> meta.len > 4294967296),
        meta.is_dir || meta.is_symlink ==> !needs_partition(meta),
        !needs_partition(meta) && !meta.is_dir && !meta.is_symlink ==> meta.len <= 4294967296,
        needs_partition(meta) ==> part_count(meta.len as nat) >= 2,
{
    if needs_partition(meta) {
        let m = MAX_FILE_SIZE as nat;
        let len = meta.len as nat;
        let c = ceil_div(len, m);
        assert(c * m <= len + m - 1 < c * m + m) by (nonlinear_arith)
            requires
                c == ((len + m - 1) as nat) / m,
                m > 0,
        ;
        assert(c >= 2) by (nonlinear_arith)
            requires
                len + m - 1 < c * m + m,
                len > m,
                m > 0,
        ;
    }
}

/// Distinct part numbers give distinct part extensions, `part-<n>`.
pub proof fn lemma_part_extensions_distinct(a: nat, b: nat)
    ensures
        part_extension(a) == part_extension(b) ==> a == b,
{
    if part_extension(a) == part_extension(b) {
        reveal_strlit("part-");
        let p = "part-"@;
        assert(part_extension(a).subrange(5, part_extension(a).len() as int) =~= decimal(a));
        assert(part_extension(b).subrange(5, part_extension(b).len() as int) =~= decimal(b));
        lemma_decimal_injective(a, b);
    }
}

/// A file that is cut into parts is covered by them, without an empty part:
/// with `n = part_count(len)` parts of `MAX_FILE_SIZE` bytes, part `i`
/// starting at byte `i * MAX_FILE_SIZE`, there are at least two parts, the
/// last one starts before the end of the file, and together they reach its
/// end. (Only files of more than `u32::MAX * MAX_FILE_SIZE` bytes, whose count
/// saturates, are left out.)
pub proof fn lemma_parts_cover_file(len: nat)
    requires
        len > MAX_FILE_SIZE,
        len <= u32::MAX as nat * MAX_FILE_SIZE as nat,
    ensures
        part_count(len) >= 2,
        (part_count(len) - 1) * MAX_FILE_SIZE < len,
        len <= part_count(len) * MAX_FILE_SIZE,
{
    let m = MAX_FILE_SIZE as nat;
    let c = ceil_div(len, m);
    assert(c == ((len + m - 1) as nat) / m);
    assert(c * m <= len + m - 1 < c * m + m) by (nonlinear_arith)
        requires
            c == ((len + m - 1) as nat) / m,
            m > 0,
    ;
    assert(c <= u32::MAX) by (nonlinear_arith)
        requires
            c * m <= len + m - 1,
            len <= u32::MAX as nat * m,
            m > 0,
    ;
    assert(c >= 2) by (nonlinear_arith)
        requires
            len + m - 1 < c * m + m,
            len > m,
            m > 0,
    ;
    assert((c - 1) * m < len) by (nonlinear_arith)
        requires
            c * m <= len + m - 1,
    ;
    assert(len <= c * m) by (nonlinear_arith)
        requires
            len + m - 1 < c * m + m,
    ;
}

/// The number of parts that a file of `len` bytes is cut into (see
/// `part_count`).
pub fn num_parts(len: u64) -> (n: u32)
    ensures
        n as nat == part_count(len as nat),
{
    let q: u64 = len / MAX_FILE_SIZE;
    let r: u64 = len % MAX_FILE_SIZE;
    assert(q <= u32::MAX) by {
        assert(len <= u64::MAX);
    }
    let c: u64 = if r == 0 { q } else { q + 1 };
    assert(c == ceil_div(len as nat, MAX_FILE_SIZE as nat));
    if c > u32::MAX as u64 {
        u32::MAX
    } else {
        c as u32
    }
}

/// Where part `part` of a file is read from, and where it is written.
#[derive(Clone, Debug)]
pub struct ChopPlan {
    /// The number of the part.
    pub part: u32,
    /// The byte offset in the file that the part starts at.
    pub offset: u64,
    /// The location that the part is written to.
    pub part_path: String,
}

/// The plan for part `part` of the file at `location`: it starts at byte
/// `part * MAX_FILE_SIZE` and goes to `location` with the extension
/// `part-<part>`.
pub fn chop_plan(location: &String, part: u32) -> (plan: ChopPlan)
    ensures
        plan.part == part,
        plan.offset == part as nat * MAX_FILE_SIZE as nat,
        plan.part_path@ == part_location(location@, part as nat),
{
    let mut extension = String::from_str("part-");
    push_decimal(&mut extension, part);
    proof {
        reveal_strlit("part-");
        lemma_decimal_has_no_separator(part as nat);
        let prefix = "part-"@;
        let digits = decimal(part as nat);
        assert(extension@ == prefix + digits);
        assert forall|i: int| 0 <= i < extension@.len() implies extension@[i] != '/' && extension@[i]
            != '\\' by {
            if i >= prefix.len() {
                assert(extension@[i] == digits[i - prefix.len()]);
            }
        }
        assert(has_no_separator(extension@));
    }
    let part_path = path_set_extension(location, &extension);
    let offset: u64 = part as u64 * MAX_FILE_SIZE;
    ChopPlan { part, offset, part_path }
}

/// What the copy of a part does after a read.
#[derive(Clone, Copy, Debug, PartialEq, Eq, Structural)]
pub enum ChopStep {
    /// The source is exhausted: the part is complete with `copied` bytes.
    Finish { copied: u64 },
    /// Write the first `len` bytes just read; the part then holds `copied`
    /// bytes, and another read follows exactly when `read_more` holds.
    Write { len: usize, copied: u64, read_more: bool },
}

/// The step of a part copy that holds `copied` bytes after a read of `n`
/// bytes: a read of zero bytes ends the part as it is; otherwise as many of
/// the bytes are written as the part has room for (up to `MAX_FILE_SIZE`),
/// and reading goes on while the part is short of `MAX_FILE_SIZE`.
pub open spec fn chop_next(copied: u64, n: usize) -> ChopStep {
    if n == 0 {
        ChopStep::Finish { copied }
    } else {
        let room = MAX_FILE_SIZE - copied;
        let len: int = if n <= room {
            n as int
        } else {
            room
        };
        ChopStep::Write {
            len: len as usize,
            copied: (copied + len) as u64,
            read_more: copied + len < MAX_FILE_SIZE,
        }
    }
}

/// A part copy only grows and never passes `MAX_FILE_SIZE`: a step writes
/// the read bytes that fit, at least one when the read returned any, and
/// reading stops once the part is full.
pub proof fn lemma_part_size_bounded(copied: u64, n: usize)
    requires
        copied < MAX_FILE_SIZE,
        n <= BUF_SIZE,
    ensures
        chop_next(copied, n) matches ChopStep::Finish { copied: c } ==> n == 0 && c == copied,
        chop_next(copied, n) matches ChopStep::Write { len, copied: c, read_more } ==> {
            &&& 0 < len <= n
            &&& len == n || c == MAX_FILE_SIZE
            &&& c == copied + len
            &&& c <= MAX_FILE_SIZE
            &&& read_more <==> c < MAX_FILE_SIZE
        },
{
}

/// The size that a part copy reaches from `copied` bytes on, stepping with
/// `chop_next` through the reads `reads` in turn; `None` when the reads run
/// out before the copy ends.
pub open spec fn part_copy(copied: u64, reads: Seq<nat>) -> Option<nat>
    decreases reads.len(),
{
    if reads.len() == 0 {
        None
    } else {
        match chop_next(copied, reads[0] as usize) {
            ChopStep::Finish { copied: c } => Some(c as nat),
            ChopStep::Write { copied: c, read_more, .. } => if read_more && copied < c < MAX_FILE_SIZE {
                part_copy(c, reads.drop_first())
            } else {
                Some(c as nat)
            },
        }
    }
}

/// The reads of a part copy, from `copied` bytes on, are ones that a file of
/// `len` bytes read from byte `offset` can give: each returns at most
/// `BUF_SIZE` bytes, none past the end of the file, and zero only at the end.
/// Their sizes are otherwise free: reads may return short.
pub open spec fn reads_fit(len: nat, offset: nat, copied: u64, reads: Seq<nat>) -> bool
    decreases reads.len(),
{
    reads.len() > 0 ==> {
        let pos = offset + copied;
        let n = reads[0];
        &&& n <= BUF_SIZE
        &&& (n == 0 <==> pos >= len)
        &&& (n == 0 || pos + n <= len)
        &&& match chop_next(copied, n as usize) {
            ChopStep::Write { copied: c, read_more, .. } => read_more && copied < c < MAX_FILE_SIZE
                ==> reads_fit(len, offset, c, reads.drop_first()),
            _ => true,
        }
    }
}

/// Where the share of a part that starts at byte `offset` of a file of `len`
/// bytes ends: `MAX_FILE_SIZE` bytes on, or at the end of the file.
pub open spec fn share_end(len: nat, offset: nat) -> nat {
    if offset + MAX_FILE_SIZE <= len {
        (offset + MAX_FILE_SIZE) as nat
    } else {
        len
    }
}

proof fn lemma_copy_run(len: nat, offset: nat, copied: u64, reads: Seq<nat>)
    requires
        copied < MAX_FILE_SIZE,
        offset + copied <= share_end(len, offset),
        offset <= len,
        reads_fit(len, offset, copied, reads),
        part_copy(copied, reads) is Some,
    ensures
        offset + part_copy(copied, reads)->0 == share_end(len, offset),
    decreases reads.len(),
{
    let n = reads[0];
    if n != 0 {
        if let ChopStep::Write { copied: c, read_more, .. } = chop_next(copied, n as usize) {
            if read_more && copied < c < MAX_FILE_SIZE {
                lemma_copy_run(len, offset, c, reads.drop_first());
            }
        }
    }
}

/// Each part copy takes exactly its share, whatever sizes the reads return:
/// once the copy of part `i` of a file of `len` bytes ends, the part holds the
/// bytes from `i * MAX_FILE_SIZE` up to `(i + 1) * MAX_FILE_SIZE` or the end of
/// the file, whichever comes first, so never more than `MAX_FILE_SIZE` bytes.
/// With `lemma_parts_cover_file`, the parts in order are the file.
pub proof fn lemma_part_holds_its_share(len: nat, part: nat, reads: Seq<nat>)
    requires
        part < part_count(len),
        reads_fit(len, part * MAX_FILE_SIZE as nat, 0, reads),
        part_copy(0, reads) is Some,
    ensures
        part * MAX_FILE_SIZE + part_copy(0, reads)->0 == share_end(len, part * MAX_FILE_SIZE as nat),
        part_copy(0, reads)->0 <= MAX_FILE_SIZE,
{
    let m = MAX_FILE_SIZE as nat;
    let c = ceil_div(len, m);
    assert(c == ((len + m - 1) as nat) / m);
    assert(c * m <= len + m - 1) by (nonlinear_arith)
        requires
            c == ((len + m - 1) as nat) / m,
            m > 0,
    ;
    assert(part * m < len) by (nonlinear_arith)
        requires
            part < c,
            c * m <= len + m - 1,
            m > 0,
    ;
    lemma_copy_run(len, part * m, 0, reads);
}

/// The parts of a file that is cut into parts reassemble it, whatever sizes
/// the reads of each part copy return: with `n = part_count(len)` parts, part
/// `i` ends up with between 1 and `MAX_FILE_SIZE` bytes, taken from byte
/// `i * MAX_FILE_SIZE` on; each part ends where the next one starts, the
/// first starts at byte 0 and the last ends at byte `len`. So the parts, in
/// order, hold the file's bytes exactly once each. (Files whose part count
/// saturates, of more than `u32::MAX * MAX_FILE_SIZE` bytes, are left out.)
pub proof fn lemma_parts_reassemble_file(len: nat, reads: spec_fn(nat) -> Seq<nat>)
    requires
        len > MAX_FILE_SIZE,
        len <= u32::MAX as nat * MAX_FILE_SIZE as nat,
        forall|i: nat| i < part_count(len) ==> reads_fit(len, i * MAX_FILE_SIZE as nat, 0, #[trigger] reads(i)),
        forall|i: nat| i < part_count(len) ==> (#[trigger] part_copy(0, reads(i))) is Some,
    ensures
        forall|i: nat| #![trigger part_copy(0, reads(i))] i < part_count(len) ==> {
            let size = part_copy(0, reads(i))->0;
            &&& 1 <= size <= MAX_FILE_SIZE
            &&& i * MAX_FILE_SIZE + size == if i + 1 < part_count(len) {
                (i + 1) * MAX_FILE_SIZE
            } else {
                len as int
            }
        },
{
    let n = part_count(len);
    let m = MAX_FILE_SIZE as nat;
    lemma_parts_cover_file(len);
    assert forall|i: nat| #![trigger part_copy(0, reads(i))] i < n implies {
        let size = part_copy(0, reads(i))->0;
        &&& 1 <= size <= MAX_FILE_SIZE
        &&& i * MAX_FILE_SIZE + size == if i + 1 < n {
            (i + 1) * MAX_FILE_SIZE
        } else {
            len as int
        }
    } by {
        assert(reads_fit(len, i * m, 0, reads(i)));
        lemma_part_holds_its_share(len, i, reads(i));
        assert((i + 1) * m == i * m + m) by (nonlinear_arith);
        if i + 1 < n {
            assert((i + 1) * m <= (n - 1) * m) by (nonlinear_arith)
                requires
                    i + 1 <= n - 1,
            ;
        } else {
            assert(i == n - 1);
        }
    }
}

/// One step of copying a part: `copied` bytes are in the part so far (fewer
/// than `MAX_FILE_SIZE`), and the last read, of a buffer of `BUF_SIZE`
/// bytes, returned `n` bytes (see `chop_next`).
pub fn chop_step(copied: u64, n: usize) -> (step: ChopStep)
    requires
        copied < MAX_FILE_SIZE,
        n <= BUF_SIZE,
    ensures
        step == chop_next(copied, n),
{
    if n == 0 {
        ChopStep::Finish { copied }
    } else {
        let room: u64 = MAX_FILE_SIZE - copied;
        let len: u64 = if (n as u64) <= room {
            n as u64
        } else {
            room
        };
        let total: u64 = copied + len;
        ChopStep::Write { len: len as usize, copied: total, read_more: total < MAX_FILE_SIZE }
    }
}

/// A file being cut into parts: the parts cut so far are parts `0`, `1`, ...
/// in order, each at its location.
pub struct PartitionJob {
    copy_metadata: CopyMetadata,
    num_parts: u32,
    parts: Vec<(u32, String)>,
}

/// What the caller does next for a file being cut into parts.
#[derive(Clone, Debug)]
pub enum PartitionAction {
    /// Copy one part out of the file.
    Chop(ChopPlan),
    /// Remove the original file: every part has been cut.
    RemoveOriginal { location: String },
}

/// How partitioning a copied entry begins.
pub enum PartitionStart {
    /// Nothing to cut: the entry is kept whole.
    Done(PartitionMetadata),
    /// The file is to be cut into parts.
    Split(PartitionJob),
}

impl PartitionJob {
    /// The copied entry being cut.
    pub closed spec fn spec_copy_metadata(self) -> CopyMetadata {
        self.copy_metadata
    }

    /// The number of parts that the file is cut into.
    pub closed spec fn spec_num_parts(self) -> nat {
        self.num_parts as nat
    }

    /// The parts cut so far.
    pub closed spec fn spec_parts(self) -> Seq<(u32, String)> {
        self.parts@
    }

    #[verifier::type_invariant]
    closed spec fn inv(self) -> bool {
        &&& self.parts@.len() <= self.num_parts
        &&& parts_view(self.parts@) == part_list(
            self.copy_metadata.new_location@,
            self.parts@.len(),
        )
    }

    /// The location of the file being cut.
    pub closed spec fn spec_location(self) -> Seq<char> {
        self.copy_metadata.new_location@
    }

    /// The next thing to do: cut the next part, or, once every part is cut,
    /// remove the original file.
    pub fn next_action(&self) -> (action: PartitionAction)
        ensures
            self.spec_parts().len() < self.spec_num_parts() ==> (action matches PartitionAction::Chop(plan)
                && plan.part == self.spec_parts().len()
                && plan.offset == self.spec_parts().len() * MAX_FILE_SIZE
                && plan.part_path@ == part_location(self.spec_location(), self.spec_parts().len())),
            self.spec_parts().len() >= self.spec_num_parts() ==> (action matches PartitionAction::RemoveOriginal { location }
                && location@ == self.spec_location()),
    {
        proof {
            use_type_invariant(self);
        }
        let done = self.parts.len();
        if done < self.num_parts as usize {
            PartitionAction::Chop(chop_plan(&self.copy_metadata.new_location, done as u32))
        } else {
            PartitionAction::RemoveOriginal { location: self.copy_metadata.new_location.clone() }
        }
    }

    /// Records that the next part has been cut.
    pub fn chop_done(&mut self)
        requires
            old(self).spec_parts().len() < old(self).spec_num_parts(),
        ensures
            final(self).spec_copy_metadata() == old(self).spec_copy_metadata(),
            final(self).spec_num_parts() == old(self).spec_num_parts(),
            final(self).spec_parts().len() == old(self).spec_parts().len() + 1,
            final(self).spec_parts().drop_last() == old(self).spec_parts(),
            final(self).spec_parts().last().0 == old(self).spec_parts().len(),
            final(self).spec_parts().last().1@ == part_location(
                old(self).spec_location(),
                old(self).spec_parts().len(),
            ),
    {
        proof {
            use_type_invariant(&*self);
        }
        let done = self.parts.len() as u32;
        let plan = chop_plan(&self.copy_metadata.new_location, done);
        let ghost old_parts = self.parts@;
        let ghost loc = self.copy_metadata.new_location@;
        let mut parts: Vec<(u32, String)> = Vec::new();
        proof {
            assert(parts_view(parts@) =~= part_list(loc, 0));
        }
        std::mem::swap(&mut parts, &mut self.parts);
        let ghost before = parts@;
        parts.push((done, plan.part_path));
        proof {
            assert forall|i: int| 0 <= i < parts@.len() implies #[trigger] parts_view(parts@)[i]
                == part_list(loc, parts@.len())[i] by {
                if i < before.len() {
                    assert(parts_view(before)[i] == part_list(loc, before.len())[i]);
                }
            }
            assert(parts_view(parts@) =~= part_list(loc, parts@.len()));
        }
        self.parts = parts;
    }

    /// The partitioned entry, once every part is cut.
    pub fn finish(self) -> (meta: PartitionMetadata)
        requires
            self.spec_parts().len() == self.spec_num_parts(),
        ensures
            meta.copy_metadata == self.spec_copy_metadata(),
            meta.parts matches MaybePartitioned::Partitioned(parts)
                && parts@ == self.spec_parts()
                && parts_view(parts@) == part_list(self.spec_location(), self.spec_num_parts()),
    {
        proof {
            use_type_invariant(&self);
        }
        let PartitionJob { copy_metadata, num_parts, parts } = self;
        PartitionMetadata { copy_metadata, parts: MaybePartitioned::Partitioned(parts) }
    }
}

/// Decides how a copied entry is partitioned. A directory, a symbolic link,
/// or a file of at most `MAX_FILE_SIZE` bytes is kept whole, at its new
/// location; a larger file is to be cut into `part_count(len)` parts, none
/// cut yet.
pub fn partition_file(copy_metadata: CopyMetadata) -> (start: PartitionStart)
    ensures
        !needs_partition(copy_metadata.original_metadata) ==> (start matches PartitionStart::Done(meta)
            && meta.copy_metadata == copy_metadata
            && (meta.parts matches MaybePartitioned::Unpartitioned(location)
            && location == copy_metadata.new_location)),
        start is Done <==> (copy_metadata.original_metadata.is_dir || copy_metadata.original_metadata.is_symlink
            || copy_metadata.original_metadata.len <= 4294967296),
        needs_partition(copy_metadata.original_metadata) ==> (start matches PartitionStart::Split(job)
            && job.spec_copy_metadata() == copy_metadata
            && job.spec_num_parts() == part_count(copy_metadata.original_metadata.len as nat)
            && job.spec_parts().len() == 0),
{
    let meta = copy_metadata.original_metadata;
    if meta.is_dir || meta.is_symlink || meta.len <= MAX_FILE_SIZE {
        let location = copy_metadata.new_location.clone();
        PartitionStart::Done(PartitionMetadata { copy_metadata, parts: MaybePartitioned::Unpartitioned(location) })
    } else {
        let num_parts = num_parts(meta.len);
        let parts: Vec<(u32, String)> = Vec::new();
        proof {
            assert(parts_view(parts@) =~= part_list(copy_metadata.new_location@, 0));
        }
        let job = PartitionJob { copy_metadata, num_parts, parts };
        PartitionStart::Split(job)
    }
}

} // verus!
