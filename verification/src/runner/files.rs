//! File transfer: what a walk over a directory lists, how a range is read and
//! where a chunk is written, and how each outcome is reported. The controller
//! drives chunking by looping over offsets.

use vstd::prelude::*;

use crate::proto::wire::{FileHash, RemoteError, RemoteErrorKind, Reply};
use crate::runner_core::{is_error, not_found, os_error, RemoteResult};
use crate::sync;
use crate::text;

verus! {

/// What a directory entry is.
#[derive(Debug, Clone, Copy, PartialEq, Eq, Structural)]
pub enum EntryKind {
    /// A directory.
    Directory,
    /// A regular file.
    File,
    /// Something else.
    Other,
}

/// What becomes of a directory entry in a walk.
pub enum Visit {
    /// Walk into the directory too.
    Descend,
    /// List this path.
    List(String),
    /// Leave it out.
    Skip,
}

/// Decides what becomes of a directory entry, given its name and its path relative
/// to the root of the walk. Build outputs and version control are left out.
pub fn list_tree(kind: EntryKind, name: &str, rel: &str, all: bool) -> (r: Visit)
    ensures
        match r {
            Visit::Descend => kind == EntryKind::Directory && !sync::is_skipped(name@, all),
            Visit::List(path) => kind == EntryKind::File && path@ == text::replaced(
                rel@,
                '\\',
                "/"@,
            ),
            Visit::Skip => kind == EntryKind::Other || (kind == EntryKind::Directory
                && sync::is_skipped(name@, all)),
        },
{
    match kind {
        EntryKind::Directory => if sync::skipped(name, all) {
            Visit::Skip
        } else {
            Visit::Descend
        },
        EntryKind::File => Visit::List(sync::forward_slashes(rel)),
        EntryKind::Other => Visit::Skip,
    }
}

/// How a system call on a file went wrong.
pub enum Fault {
    /// There is no such file.
    Missing,
    /// Anything else, with its message.
    Failed(String),
}

/// Reports a deletion. A missing file counts as deleted.
pub fn delete_file(path: &str, outcome: Result<(), Fault>) -> (r: RemoteResult<Reply>)
    ensures
        match outcome {
            Err(Fault::Failed(cause)) => r matches Err(e) && is_error(
                e,
                RemoteErrorKind::Os,
                "delete "@ + path@ + ": "@ + cause@,
            ),
            _ => r == Ok::<Reply, RemoteError>(Reply::Ack),
        },
{
    match outcome {
        Err(Fault::Failed(cause)) => {
            let mut m = text::join3("delete ", path, ": ");
            m.append(cause.as_str());
            Err(os_error(m.as_str()))
        },
        _ => Ok(Reply::Ack),
    }
}

/// Hashes a file for a comparison of trees. A file that could not be read has no
/// hash, so that the controller sends it.
pub fn hash_file(path: String, contents: Option<Vec<u8>>) -> (r: FileHash)
    ensures
        r.path == path,
        match (contents, r.hash) {
            (Some(data), Some(hash)) => hash@ == sync::content_hash(data@),
            (None, None) => true,
            _ => false,
        },
{
    let hash = match contents {
        Some(data) => Some(sync::blake2_hex(data.as_slice())),
        None => None,
    };
    FileHash { path, hash }
}

/// Reports that a file could not be opened for reading.
pub fn open_failed(path: &str, fault: Fault) -> (r: RemoteError)
    ensures
        match fault {
            Fault::Missing => is_error(r, RemoteErrorKind::NotFound, path@ + ": not found"@),
            Fault::Failed(cause) => is_error(
                r,
                RemoteErrorKind::Os,
                "open "@ + path@ + ": "@ + cause@,
            ),
        },
{
    match fault {
        Fault::Missing => not_found(text::join2(path, ": not found").as_str()),
        Fault::Failed(cause) => {
            let mut m = text::join3("open ", path, ": ");
            m.append(cause.as_str());
            os_error(m.as_str())
        },
    }
}

/// A read of at most so many bytes, put together from shorter ones.
pub struct Filling {
    /// What has come in.
    pub buffer: Vec<u8>,
    /// Most bytes wanted.
    pub wanted: u64,
}

impl Filling {
    /// No more bytes than wanted have come in.
    pub open spec fn well_formed(self) -> bool {
        self.buffer@.len() <= self.wanted
    }

    /// Starts a read of at most `wanted` bytes.
    pub fn new(wanted: u64) -> (s: Self)
        ensures
            s.well_formed(),
            s.buffer@ == Seq::<u8>::empty(),
            s.wanted == wanted,
    {
        Filling { buffer: Vec::new(), wanted }
    }

    /// How many bytes may still come in.
    pub fn missing(&self) -> (n: u64)
        requires
            self.well_formed(),
        ensures
            n == self.wanted - self.buffer@.len(),
    {
        self.wanted - self.buffer.len() as u64
    }

    /// Takes what one read gave, and says whether the read is complete: nothing
    /// came, or nothing is missing.
    pub fn absorb(&mut self, read: &[u8]) -> (done: bool)
        requires
            old(self).well_formed(),
            old(self).buffer@.len() + read@.len() <= old(self).wanted,
        ensures
            final(self).well_formed(),
            final(self).wanted == old(self).wanted,
            final(self).buffer@ == old(self).buffer@ + read@,
            done == (read@.len() == 0 || final(self).buffer@.len() == old(self).wanted),
    {
        let mut i: usize = 0;
        let ghost before = self.buffer@;
        assert(before + read@.take(0) =~= before);
        while i < read.len()
            invariant
                i <= read@.len(),
                self.wanted == old(self).wanted,
                self.buffer@ == before + read@.take(i as int),
            decreases read@.len() - i,
        {
            self.buffer.push(read[i]);
            i = i + 1;
            assert(self.buffer@ =~= before + read@.take(i as int));
        }
        assert(read@.take(i as int) =~= read@);
        read.len() == 0 || self.buffer.len() as u64 == self.wanted
    }
}

/// What reading a file in pieces of these sizes brings in: each read gives bytes
/// from where the last one stopped, until one gives nothing or enough is there.
pub open spec fn filled_from(file: Seq<u8>, start: int, wanted: nat, sizes: Seq<nat>) -> Seq<u8>
    decreases sizes.len(),
{
    let left = sync::least(wanted as int, file.len() - start);
    if sizes.len() == 0 || left <= 0 {
        Seq::empty()
    } else {
        let n = sync::least(sizes[0] as int, left);
        file.subrange(start, start + n) + filled_from(
            file,
            start + n,
            (wanted - n) as nat,
            sizes.skip(1),
        )
    }
}

proof fn lemma_filled(file: Seq<u8>, start: int, wanted: nat, sizes: Seq<nat>)
    requires
        0 <= start,
        forall|i: int| 0 <= i < sizes.len() ==> #[trigger] sizes[i] > 0,
        sizes.len() >= wanted,
    ensures
        filled_from(file, start, wanted, sizes) == if start < file.len() && wanted > 0 {
            file.subrange(start, sync::least(start + wanted, file.len() as int))
        } else {
            Seq::empty()
        },
    decreases sizes.len(),
{
    let left = sync::least(wanted as int, file.len() - start);
    if sizes.len() > 0 && left > 0 {
        let n = sync::least(sizes[0] as int, left);
        assert(sizes[0] > 0);
        let rest = sizes.skip(1);
        assert forall|i: int| 0 <= i < rest.len() implies #[trigger] rest[i] > 0 by {
            assert(rest[i] == sizes[i + 1]);
        }
        lemma_filled(file, start + n, (wanted - n) as nat, rest);
        assert(filled_from(file, start, wanted, sizes) =~= file.subrange(
            start,
            sync::least(start + wanted, file.len() as int),
        ));
    }
}

/// However short the reads of the system are, as long as each brings something, a
/// read in pieces brings in exactly the range that was asked for.
pub proof fn law_short_reads_fill(file: Seq<u8>, offset: nat, max_len: nat, sizes: Seq<nat>)
    requires
        max_len > 0,
        forall|i: int| 0 <= i < sizes.len() ==> #[trigger] sizes[i] > 0,
        sizes.len() >= max_len,
    ensures
        filled_from(file, offset as int, max_len, sizes) == sync::read_range(
            file,
            offset as int,
            max_len,
        ),
{
    lemma_filled(file, offset as int, max_len, sizes);
}

/// How a file is read.
#[derive(Debug, Clone, Copy, PartialEq, Eq, Structural)]
pub struct ReadMode {
    /// Where to go before reading, unless that is the start.
    pub seek: Option<u64>,
    /// How many bytes to read at most; none means up to the end.
    pub limit: Option<u64>,
}

/// Decides how a range of a file is read: a length of zero stands for all that
/// follows.
pub fn read_file(offset: u64, max_len: u64) -> (r: ReadMode)
    ensures
        r.seek == (if offset > 0 {
            Some(offset)
        } else {
            None
        }),
        r.limit == (if max_len > 0 {
            Some(max_len)
        } else {
            None
        }),
{
    ReadMode {
        seek: if offset > 0 {
            Some(offset)
        } else {
            None
        },
        limit: if max_len > 0 {
            Some(max_len)
        } else {
            None
        },
    }
}

/// How a file is opened for writing a chunk.
#[derive(Debug, Clone, Copy, PartialEq, Eq, Structural)]
pub enum WriteMode {
    /// Create it, or empty it.
    Create,
    /// Keep what it holds, and write from this offset on.
    Overwrite(u64),
}

/// Decides how a file is opened for a chunk: the first chunk starts it anew.
pub fn write_file(offset: u64) -> (r: WriteMode)
    ensures
        r == if offset == 0 {
            WriteMode::Create
        } else {
            WriteMode::Overwrite(offset)
        },
{
    if offset == 0 {
        WriteMode::Create
    } else {
        WriteMode::Overwrite(offset)
    }
}

/// Reports that a step of a transfer went wrong.
pub fn transfer_failed(step: &str, path: &str, cause: &str) -> (r: RemoteError)
    ensures
        is_error(r, RemoteErrorKind::Os, step@ + " "@ + path@ + ": "@ + cause@),
{
    let mut m = text::join3(step, " ", path);
    m.append(": ");
    m.append(cause);
    os_error(m.as_str())
}

/// A walk goes into every directory but those that are left alone, lists every file,
/// wherever it lies and with slashes alone, and passes over the rest.
pub proof fn law_walk_lists_files(
    kind: EntryKind,
    name: &str,
    rel: &str,
    all: bool,
    left_alone: bool,
    path: String,
    r: Visit,
)
    requires
        sync::skipped.ensures((name, all), left_alone),
        sync::forward_slashes.ensures((rel,), path),
        list_tree.ensures((kind, name, rel, all), r),
    ensures
        r is Descend <==> kind == EntryKind::Directory && !left_alone,
        r is List <==> kind == EntryKind::File,
        r matches Visit::List(p) ==> p@ == path@,
{
}

/// Deleting fails exactly if the system says so of a file that is there: one that is
/// not there is deleted already.
pub proof fn law_missing_file_is_deleted(
    path: &str,
    cause: String,
    done: RemoteResult<Reply>,
    gone: RemoteResult<Reply>,
    failed: RemoteResult<Reply>,
)
    requires
        delete_file.ensures((path, Ok::<(), Fault>(())), done),
        delete_file.ensures((path, Err::<(), Fault>(Fault::Missing)), gone),
        delete_file.ensures((path, Err::<(), Fault>(Fault::Failed(cause))), failed),
    ensures
        done == Ok::<Reply, RemoteError>(Reply::Ack),
        gone == done,
        failed matches Err(e) && e.kind == RemoteErrorKind::Os,
{
}

/// A file has the hash of its content, under its own path; one that cannot be read
/// has none. So the same content has the same hash on both sides.
pub proof fn law_hash_is_of_the_content(
    path: String,
    data: Vec<u8>,
    local: &[u8],
    ours: String,
    there: FileHash,
    absent: FileHash,
)
    requires
        local@ == data@,
        sync::blake2_hex.ensures((local,), ours),
        hash_file.ensures((path, Some(data)), there),
        hash_file.ensures((path, None::<Vec<u8>>), absent),
    ensures
        there.path == path && absent.path == path,
        there.hash matches Some(h) && h@ == ours@,
        absent.hash is None,
{
}

/// A file that is not there is not found; any other failure is the system's.
pub proof fn law_missing_file_is_not_found(path: &str, fault: Fault, e: RemoteError)
    requires
        open_failed.ensures((path, fault), e),
    ensures
        fault is Missing ==> e.kind == RemoteErrorKind::NotFound,
        fault is Failed ==> e.kind == RemoteErrorKind::Os,
{
}

/// A range is read from its offset on, and to the end exactly if no length is given.
pub proof fn law_range_is_read_from_its_offset(offset: u64, max_len: u64, r: ReadMode)
    requires
        read_file.ensures((offset, max_len), r),
    ensures
        offset > 0 ==> r.seek == Some(offset),
        offset == 0 ==> (r.seek matches Some(at) ==> at == 0),
        max_len > 0 ==> r.limit == Some(max_len),
        max_len == 0 ==> r.limit is None,
{
}

/// Only a chunk at the start makes a file anew; any other keeps what the file holds
/// and goes where it belongs.
pub proof fn law_first_chunk_starts_the_file(offset: u64, r: WriteMode)
    requires
        write_file.ensures((offset,), r),
    ensures
        r == WriteMode::Create <==> offset == 0,
        r matches WriteMode::Overwrite(at) ==> at == offset,
{
}

/// Pieces of a read are put one behind the other, until one is empty or all that was
/// wanted is there.
pub proof fn law_pieces_make_up_a_read(filling: &mut Filling, read: &[u8], done: bool)
    requires
        old(filling).well_formed(),
        old(filling).buffer@.len() + read@.len() <= old(filling).wanted,
        call_ensures(Filling::absorb, (filling, read), done),
    ensures
        final(filling).buffer@ == old(filling).buffer@ + read@,
        final(filling).wanted == old(filling).wanted,
        !done ==> read@.len() > 0 && final(filling).buffer@.len() < old(filling).wanted,
        done ==> read@.len() == 0 || final(filling).buffer@.len() == old(filling).wanted,
{
}

} // verus!
