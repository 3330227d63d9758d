//! A hard size ceiling around message encoding and decoding.
//!
//! Both protocol layers are length-delimited by their transport, so no extra
//! framing is needed here: only a guard against pathologically large frames.

use vstd::prelude::*;

use crate::proto::error::ProtoError;

verus! {

/// Upper bound on a single frame: 32 MiB.
pub const MAX_FRAME_BYTES: usize = 32 * 1024 * 1024;

/// Serializes a value with `encode`, and rejects a result that is over the
/// frame limit.
pub fn to_cbor<F: FnOnce() -> Result<Vec<u8>, String>>(encode: F) -> (r: Result<
    Vec<u8>,
    ProtoError,
>)
    requires
        encode.requires(()),
    ensures
        exists|encoded: Result<Vec<u8>, String>| #[trigger]
            encode.ensures((), encoded) && match encoded {
                Ok(bytes) => if bytes@.len() <= MAX_FRAME_BYTES {
                    r == Ok::<Vec<u8>, ProtoError>(bytes)
                } else {
                    r == Err::<Vec<u8>, ProtoError>(
                        ProtoError::FrameTooLarge {
                            size: bytes@.len() as usize,
                            max: MAX_FRAME_BYTES,
                        },
                    )
                },
                Err(e) => r == Err::<Vec<u8>, ProtoError>(ProtoError::Encode(e)),
            },
{
    match encode() {
        Ok(bytes) => {
            if bytes.len() > MAX_FRAME_BYTES {
                Err(ProtoError::FrameTooLarge { size: bytes.len(), max: MAX_FRAME_BYTES })
            } else {
                Ok(bytes)
            }
        },
        Err(e) => Err(ProtoError::Encode(e)),
    }
}

/// Deserializes a value with `decode`, which is never handed more than the
/// frame limit.
pub fn from_cbor<T, F: FnOnce(&[u8]) -> Result<T, String>>(bytes: &[u8], decode: F) -> (r: Result<
    T,
    ProtoError,
>)
    requires
        bytes@.len() <= MAX_FRAME_BYTES ==> decode.requires((bytes,)),
    ensures
        bytes@.len() > MAX_FRAME_BYTES ==> r == Err::<T, ProtoError>(
            ProtoError::FrameTooLarge { size: bytes@.len() as usize, max: MAX_FRAME_BYTES },
        ),
        bytes@.len() <= MAX_FRAME_BYTES ==> exists|decoded: Result<T, String>| #[trigger]
            decode.ensures((bytes,), decoded) && r == match decoded {
                Ok(value) => Ok::<T, ProtoError>(value),
                Err(e) => Err::<T, ProtoError>(ProtoError::Decode(e)),
            },
{
    if bytes.len() > MAX_FRAME_BYTES {
        return Err(ProtoError::FrameTooLarge { size: bytes.len(), max: MAX_FRAME_BYTES });
    }
    match decode(bytes) {
        Ok(value) => Ok(value),
        Err(e) => Err(ProtoError::Decode(e)),
    }
}

/// What was encoded is handed on unless it is larger than 32 MiB, and then refused
/// with its size.
pub proof fn law_only_small_frames_are_sent<F: FnOnce() -> Result<Vec<u8>, String>>(
    encode: F,
    encoded: Result<Vec<u8>, String>,
    r: Result<Vec<u8>, ProtoError>,
)
    requires
        encode.requires(()),
        forall|e: Result<Vec<u8>, String>| encode.ensures((), e) ==> e == encoded,
        call_ensures(to_cbor::<F>, (encode,), r),
    ensures
        r is Ok <==> (encoded matches Ok(bytes) && bytes@.len() <= 33554432),
        r matches Ok(sent) ==> encoded == Ok::<Vec<u8>, String>(sent),
        encoded matches Ok(bytes) ==> (bytes@.len() > 33554432 ==> (
        r matches Err(ProtoError::FrameTooLarge { size, max }) && max == 33554432)),
        encoded matches Err(e) ==> r == Err::<Vec<u8>, ProtoError>(ProtoError::Encode(e)),
{
}

/// What is larger than 32 MiB is refused without being looked at; of the rest, what
/// was decoded is handed on.
pub proof fn law_only_small_frames_are_read<T, F: FnOnce(&[u8]) -> Result<T, String>>(
    bytes: &[u8],
    decode: F,
    decoded: Result<T, String>,
    r: Result<T, ProtoError>,
)
    requires
        decode.requires((bytes,)),
        forall|d: Result<T, String>| decode.ensures((bytes,), d) ==> d == decoded,
        call_ensures(from_cbor::<T, F>, (bytes, decode), r),
    ensures
        r is Ok <==> bytes@.len() <= 33554432 && decoded is Ok,
        r matches Ok(value) ==> decoded == Ok::<T, String>(value),
        bytes@.len() > 33554432 ==> (r matches Err(ProtoError::FrameTooLarge { size, max }) && max
            == 33554432),
{
}

} // verus!
