//! File transfer between controller and runner: which directories are left
//! alone, how a file is cut into chunks, and what reading and writing chunks
//! means for the file.

use vstd::prelude::*;

use crate::number;
use crate::proto::crypto;
use crate::text;

verus! {

/// Bytes per file-transfer request: 8 MiB, under the frame limit.
pub const CHUNK: usize = 8 * 1024 * 1024;

/// Whether a directory of that name is never transferred: build outputs and
/// version control, or only version control if `all` is asked for.
pub open spec fn is_skipped(name: Seq<char>, all: bool) -> bool {
    name == ".git"@ || (!all && (name == "target"@ || name == "bin"@ || name == "obj"@ || name
        == "node_modules"@))
}

/// Whether a directory of that name is left alone.
pub fn skipped(name: &str, all: bool) -> (r: bool)
    ensures
        r == is_skipped(name@, all),
{
    text::same(name, ".git") || (!all && (text::same(name, "target") || text::same(name, "bin")
        || text::same(name, "obj") || text::same(name, "node_modules")))
}

/// Whether no piece of a slash-separated path is a directory that is left alone.
pub open spec fn is_transferred(path: Seq<char>, all: bool) -> bool {
    forall|i: int|
        0 <= i < text::split(path, '/').len() ==> !is_skipped(
            #[trigger] text::split(path, '/')[i],
            all,
        )
}

/// Whether a path lies outside the directories that are left alone.
pub fn is_syncable(path: &str, all: bool) -> (r: bool)
    ensures
        r == is_transferred(path@, all),
{
    let pieces = text::split_on(&text::chars_of(path), '/');
    let ghost parts = text::split(path@, '/');
    let mut i: usize = 0;
    while i < pieces.len()
        invariant
            i <= pieces@.len(),
            text::views(pieces@) == parts,
            parts == text::split(path@, '/'),
            forall|k: int| 0 <= k < i ==> !is_skipped(#[trigger] parts[k], all),
        decreases pieces@.len() - i,
    {
        assert(parts[i as int] == pieces@[i as int]@);
        if skipped(text::string_of(&pieces[i]).as_str(), all) {
            return false;
        }
        i = i + 1;
    }
    true
}

/// A relative path with forward slashes.
pub fn forward_slashes(path: &str) -> (r: String)
    ensures
        r@ == text::replaced(path@, '\\', "/"@),
{
    text::replace_char(path, '\\', "/")
}

/// `s` without the slashes it ends with.
pub open spec fn unslashed(s: Seq<char>) -> Seq<char>
    decreases s.len(),
{
    if s.len() > 0 && s.last() == '/' {
        unslashed(s.drop_last())
    } else {
        s
    }
}

/// A relative path below a remote directory.
pub open spec fn below(remote: Seq<char>, rel: Seq<char>) -> Seq<char> {
    unslashed(remote) + "/"@ + rel
}

/// Joins a remote directory and a relative path with exactly one slash.
pub fn join_remote(remote: &str, rel: &str) -> (r: String)
    ensures
        r@ == below(remote@, rel@),
{
    let chars = text::chars_of(remote);
    let mut n: usize = chars.len();
    assert(chars@.take(n as int) =~= chars@);
    while n > 0 && chars[n - 1] == '/'
        invariant
            n <= chars@.len(),
            unslashed(chars@) == unslashed(chars@.take(n as int)),
        decreases n,
    {
        assert(chars@.take(n as int).drop_last() =~= chars@.take(n - 1));
        n = n - 1;
    }
    let head = text::slice_chars(&chars, 0, n);
    assert(head@ =~= chars@.take(n as int));
    text::join3(text::string_of(&head).as_str(), "/", rel)
}

/// The content hash of a file: its BLAKE2s-256 digest in hexadecimal.
pub open spec fn content_hash(data: Seq<u8>) -> Seq<char> {
    number::hex(crypto::blake2s256(data))
}

/// Hashes the contents of a file.
pub fn blake2_hex(data: &[u8]) -> (r: String)
    ensures
        r@ == content_hash(data@),
{
    number::hex_text(crypto::digest(data).as_slice())
}

/// The smaller of two numbers.
pub open spec fn least(a: int, b: int) -> int {
    if a <= b {
        a
    } else {
        b
    }
}

/// The chunk of a file that starts at `offset`.
pub open spec fn chunk_from(data: Seq<u8>, offset: int) -> Seq<u8> {
    data.subrange(offset, least(offset + CHUNK, data.len() as int))
}

/// Cuts the chunk that starts at `offset`.
pub fn cut_chunk(data: &[u8], offset: usize) -> (r: Vec<u8>)
    requires
        offset <= data@.len(),
    ensures
        r@ == chunk_from(data@, offset as int),
{
    let left: usize = data.len() - offset;
    let size: usize = if left <= CHUNK {
        left
    } else {
        CHUNK
    };
    let part = vstd::slice::slice_subrange(data, offset, offset + size);
    let mut out: Vec<u8> = Vec::new();
    out.extend_from_slice(part);
    assert(out@ =~= chunk_from(data@, offset as int));
    out
}

/// What a file holds after a chunk is written: a write at the start replaces it,
/// one further on keeps what is before and after.
pub open spec fn written(file: Seq<u8>, contents: Seq<u8>, offset: int) -> Seq<u8> {
    if offset == 0 {
        contents
    } else {
        let kept = if offset <= file.len() {
            file.take(offset)
        } else {
            file + Seq::new((offset - file.len()) as nat, |i: int| 0u8)
        };
        kept + contents + (if offset + contents.len() < file.len() {
            file.skip(offset + contents.len())
        } else {
            Seq::empty()
        })
    }
}

/// What a file holds after all chunks of `data` from `offset` on are written.
pub open spec fn written_from(file: Seq<u8>, data: Seq<u8>, offset: int) -> Seq<u8>
    decreases data.len() - offset,
{
    let chunk = chunk_from(data, offset);
    let after = written(file, chunk, offset);
    if 0 <= offset && offset + CHUNK < data.len() {
        written_from(after, data, offset + CHUNK)
    } else {
        after
    }
}

proof fn lemma_written_from(file: Seq<u8>, data: Seq<u8>, offset: int)
    requires
        0 <= offset <= data.len(),
        offset == 0 || file == data.take(offset),
    ensures
        written_from(file, data, offset) == data,
    decreases data.len() - offset,
{
    let chunk = chunk_from(data, offset);
    let after = written(file, chunk, offset);
    assert(after =~= data.take(least(offset + CHUNK, data.len() as int)));
    if offset + CHUNK < data.len() {
        lemma_written_from(after, data, offset + CHUNK);
    } else {
        assert(data.take(data.len() as int) =~= data);
    }
}

/// Writing the chunks of some data in order, from the first one on, leaves
/// exactly that data in the file, whatever it held before.
pub proof fn law_chunks_rebuild_file(file: Seq<u8>, data: Seq<u8>)
    ensures
        written_from(file, data, 0) == data,
{
    lemma_written_from(file, data, 0);
}

/// What reading up to `max_len` bytes from `offset` gives; zero reads to the end.
pub open spec fn read_range(file: Seq<u8>, offset: int, max_len: nat) -> Seq<u8> {
    if offset >= file.len() {
        Seq::empty()
    } else if max_len == 0 {
        file.skip(offset)
    } else {
        file.subrange(offset, least(offset + max_len, file.len() as int))
    }
}

/// What comes in when a file is read chunk by chunk from `offset` on, until a
/// chunk is short.
pub open spec fn fetched_from(file: Seq<u8>, offset: int) -> Seq<u8>
    decreases file.len() - offset,
{
    let part = read_range(file, offset, CHUNK as nat);
    if 0 <= offset && part.len() < CHUNK {
        part
    } else if 0 <= offset < file.len() {
        part + fetched_from(file, offset + CHUNK)
    } else {
        part
    }
}

proof fn lemma_fetched_from(file: Seq<u8>, offset: int)
    requires
        0 <= offset <= file.len(),
    ensures
        fetched_from(file, offset) == file.skip(offset),
    decreases file.len() - offset,
{
    let part = read_range(file, offset, CHUNK as nat);
    if part.len() < CHUNK {
        assert(part =~= file.skip(offset));
    } else {
        lemma_fetched_from(file, offset + CHUNK);
        assert(part + file.skip(offset + CHUNK) =~= file.skip(offset));
    }
}

/// Reading a file chunk by chunk until one is short gives the whole file.
pub proof fn law_chunks_fetch_file(file: Seq<u8>)
    ensures
        fetched_from(file, 0) == file,
{
    lemma_fetched_from(file, 0);
    assert(file.skip(0) =~= file);
}

/// A remote path is joined by one slash, whether or not the directory ends with any.
pub proof fn law_join_uses_one_slash(
    remote: &str,
    slashed: &str,
    rel: &str,
    r: String,
    again: String,
)
    requires
        slashed@ == remote@.push('/'),
        join_remote.ensures((remote, rel), r),
        join_remote.ensures((slashed, rel), again),
    ensures
        again@ == r@,
        remote@.len() > 0 && remote@.last() != '/' ==> r@ == remote@ + "/"@ + rel@,
        remote@.len() == 0 ==> r@ == "/"@ + rel@,
{
    assert(slashed@.drop_last() =~= remote@);
    assert(Seq::<char>::empty() + "/"@ =~= "/"@);
}

/// Below one directory, different paths stay different.
pub proof fn law_join_keeps_paths_apart(remote: &str, a: &str, b: &str, x: String, y: String)
    requires
        join_remote.ensures((remote, a), x),
        join_remote.ensures((remote, b), y),
        x@ == y@,
    ensures
        a@ == b@,
{
    let head = unslashed(remote@) + "/"@;
    assert(x@ == head + a@ && y@ == head + b@);
    assert(x@.skip(head.len() as int) =~= a@);
    assert(y@.skip(head.len() as int) =~= b@);
}

/// Version control is never transferred. Build outputs are transferred exactly if
/// all is asked for; any other directory always.
pub proof fn law_directories_left_alone(name: &str, usually: bool, asked: bool)
    requires
        skipped.ensures((name, false), usually),
        skipped.ensures((name, true), asked),
    ensures
        asked <==> name@ == ".git"@,
        usually <==> name@ == ".git"@ || name@ == "target"@ || name@ == "bin"@ || name@ == "obj"@
            || name@ == "node_modules"@,
{
}

/// A path is transferred exactly if both what is before a slash and what is after it
/// are; one without a slash exactly if a directory of that name is.
pub proof fn law_path_is_left_alone_by_piece(
    path: &str,
    head: &str,
    name: &str,
    all: bool,
    r: bool,
    before: bool,
    left: bool,
    single: bool,
)
    requires
        !name@.contains('/'),
        path@ == head@ + "/"@ + name@,
        is_syncable.ensures((path, all), r),
        is_syncable.ensures((head, all), before),
        is_syncable.ensures((name, all), single),
        skipped.ensures((name, all), left),
    ensures
        single == !left,
        r == (before && !left),
{
    reveal_strlit("/");
    let dir = head@.push('/');
    assert(path@ =~= dir + name@);
    text::lemma_split_grows(dir, name@, '/');
    assert(dir.drop_last() =~= head@);
    let first = text::split(head@, '/');
    let both = text::split(path@, '/');
    assert(Seq::<char>::empty() + name@ =~= name@);
    assert(text::split(dir, '/').drop_last() =~= first);
    assert(both =~= first.push(name@));
    assert(both.last() == name@);
    text::lemma_split_grows(Seq::empty(), name@, '/');
    let alone = text::split(name@, '/');
    assert(text::split(Seq::empty(), '/').drop_last() =~= Seq::empty());
    assert(alone =~= seq![name@]);
    assert(alone[0] == name@);
    assert(both[both.len() - 1] == name@);
    assert forall|i: int| 0 <= i < first.len() implies #[trigger] first[i] == both[i] by {}
    if before && !left {
        assert forall|i: int| 0 <= i < both.len() implies !is_skipped(#[trigger] both[i], all) by {
            if i < first.len() {
                assert(both[i] == first[i]);
            }
        }
    }
    if r {
        assert forall|i: int| 0 <= i < first.len() implies !is_skipped(#[trigger] first[i], all) by {
            assert(both[i] == first[i]);
        }
    }
}

/// Slashes replace backslashes, and nothing else changes.
pub proof fn law_slashes_replace_backslashes(path: &str, r: String)
    requires
        forward_slashes.ensures((path,), r),
    ensures
        r@.len() == path@.len(),
        forall|i: int|
            0 <= i < r@.len() ==> #[trigger] r@[i] == (if path@[i] == '\\' {
                '/'
            } else {
                path@[i]
            }),
{
    lemma_slashes(path@);
}

proof fn lemma_slashes(s: Seq<char>)
    ensures
        ({
            let r = text::replaced(s, '\\', "/"@);
            r.len() == s.len() && forall|i: int|
                0 <= i < r.len() ==> #[trigger] r[i] == (if s[i] == '\\' {
                    '/'
                } else {
                    s[i]
                })
        }),
    decreases s.len(),
{
    reveal_strlit("/");
    if s.len() > 0 {
        lemma_slashes(s.drop_last());
    }
}

/// A chunk is what the data holds from its offset on: all that is left, or 8 MiB.
pub proof fn law_chunk_is_what_follows(data: &[u8], offset: usize, r: Vec<u8>)
    requires
        offset <= data@.len(),
        cut_chunk.ensures((data, offset), r),
    ensures
        r@.len() == 8388608 || (r@.len() < 8388608 && offset + r@.len() == data@.len()),
        offset + r@.len() <= data@.len(),
        forall|i: int| 0 <= i < r@.len() ==> #[trigger] r@[i] == data@[offset + i],
{
}

} // verus!
