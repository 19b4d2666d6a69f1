//! The loader bridge: how a renderer obtains the bytes of the color table and
//! of a part, either from the part store in this process or from a remote
//! byte stream that was read through the store on the other side.
use vstd::prelude::*;

use crate::names::slash_normalized;
use crate::store::{NotFound, PartLibrary};

verus! {

/// Why a part or the color table could not be resolved.
#[derive(PartialEq, Eq, Structural, Debug, Clone, Copy)]
pub enum ResolutionError {
    /// No file of that name exists where it was looked for.
    FileNotFound,
    /// The remote byte stream broke off or was malformed.
    Stream,
    /// The bytes arrived but could not be parsed.
    Decode,
}

/// Where a resolved part was found.
#[derive(PartialEq, Eq, Structural, Debug, Clone, Copy)]
pub enum Location {
    /// A file of the deployment directory next to the renderer.
    Local,
    /// A member of the packaged part library.
    Library,
}

/// What a remote fetch of a name delivered, as seen by the caller.
#[derive(Debug, Clone)]
pub enum RemoteFetch {
    /// The far side reported that it has no file under the name.
    NotFound,
    /// The stream ended normally after these chunks, in arrival order.
    Complete(Vec<Vec<u8>>),
    /// The stream failed before it ended.
    Broken,
}

/// The chunks of a stream joined in order into one buffer.
pub open spec fn concat_chunks(chunks: Seq<Seq<u8>>) -> Seq<u8>
    decreases chunks.len(),
{
    if chunks.len() == 0 {
        Seq::empty()
    } else {
        concat_chunks(chunks.drop_last()) + chunks.last()
    }
}

pub open spec fn chunks_view(chunks: Seq<Vec<u8>>) -> Seq<Seq<u8>> {
    chunks.map_values(|c: Vec<u8>| c@)
}

/// The name of the color-definition table: `LDConfig.ldr`.
pub open spec fn color_table_name() -> Seq<char> {
    seq!['L', 'D', 'C', 'o', 'n', 'f', 'i', 'g', '.', 'l', 'd', 'r']
}

/// Joins the chunks of a byte stream, in arrival order, into one buffer; no
/// chunks give an empty buffer.
pub fn reassemble(chunks: &Vec<Vec<u8>>) -> (r: Vec<u8>)
    ensures
        r@ == concat_chunks(chunks_view(chunks@)),
{
    let mut buf: Vec<u8> = Vec::new();
    let mut i: usize = 0;
    while i < chunks.len()
        invariant
            i <= chunks@.len(),
            buf@ == concat_chunks(chunks_view(chunks@.subrange(0, i as int))),
        decreases chunks@.len() - i,
    {
        let ghost before = buf@;
        buf.extend_from_slice(chunks[i].as_slice());
        proof {
            let part = chunks_view(chunks@.subrange(0, i + 1));
            assert(part.drop_last() =~= chunks_view(chunks@.subrange(0, i as int)));
            assert(part.last() == chunks@[i as int]@);
            assert(buf@ =~= before + chunks@[i as int]@);
        }
        i = i + 1;
    }
    assert(chunks@.subrange(0, chunks@.len() as int) =~= chunks@);
    buf
}

/// The outcome of a remote fetch: the reassembled buffer of a stream that
/// ended normally, `FileNotFound` when the far side has no such file, and
/// `Stream` when the stream broke; never a partial buffer.
pub fn finish_remote_fetch(fetch: &RemoteFetch) -> (r: Result<Vec<u8>, ResolutionError>)
    ensures
        match fetch {
            RemoteFetch::NotFound => r == Err::<Vec<u8>, ResolutionError>(
                ResolutionError::FileNotFound,
            ),
            RemoteFetch::Complete(chunks) => r is Ok && r->Ok_0@ == concat_chunks(
                chunks_view(chunks@),
            ),
            RemoteFetch::Broken => r == Err::<Vec<u8>, ResolutionError>(ResolutionError::Stream),
        },
{
    match fetch {
        RemoteFetch::NotFound => Err(ResolutionError::FileNotFound),
        RemoteFetch::Complete(chunks) => Ok(reassemble(chunks)),
        RemoteFetch::Broken => Err(ResolutionError::Stream),
    }
}

/// A store lookup seen from the bridge: a miss becomes `FileNotFound`.
pub fn resolution_of(lookup: Result<Vec<u8>, NotFound>) -> (r: Result<Vec<u8>, ResolutionError>)
    ensures
        match lookup {
            Ok(bytes) => r is Ok && r->Ok_0@ == bytes@,
            Err(_) => r == Err::<Vec<u8>, ResolutionError>(ResolutionError::FileNotFound),
        },
{
    match lookup {
        Ok(bytes) => Ok(bytes),
        Err(_) => Err(ResolutionError::FileNotFound),
    }
}

/// Resolves a part through the store in this process. `prefer_local` is
/// accepted and has no effect: there is one way to resolve.
pub fn load_part(store: &PartLibrary, name: &str, prefer_local: bool) -> (r: Result<
    (Location, Vec<u8>),
    ResolutionError,
>)
    requires
        store.wf(),
    ensures
        match r {
            Ok((location, bytes)) => location == Location::Library && store@.contains_key(
                slash_normalized(name@),
            ) && bytes@ == store@[slash_normalized(name@)],
            Err(e) => e == ResolutionError::FileNotFound && !store@.contains_key(
                slash_normalized(name@),
            ),
        },
{
    match resolution_of(store.get_part(name)) {
        Ok(bytes) => Ok((Location::Library, bytes)),
        Err(e) => Err(e),
    }
}

/// Resolves the color-definition table through the store in this process.
pub fn load_colors(store: &PartLibrary) -> (r: Result<Vec<u8>, ResolutionError>)
    requires
        store.wf(),
    ensures
        match r {
            Ok(bytes) => store@.contains_key(color_table_name()) && bytes@ == store@[color_table_name()],
            Err(e) => e == ResolutionError::FileNotFound && !store@.contains_key(color_table_name()),
        },
{
    proof {
        reveal_strlit("LDConfig.ldr");
        assert(slash_normalized("LDConfig.ldr"@) =~= color_table_name());
    }
    match load_part(store, "LDConfig.ldr", true) {
        Ok((_, bytes)) => Ok(bytes),
        Err(e) => Err(e),
    }
}

} // verus!
