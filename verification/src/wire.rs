//! The wire format: an autokey cipher over the bytes of a document, behind their length.
use crate::error::Error;
use crate::json::{read_json, write_json, Json};
use vstd::prelude::*;

verus! {

/// The key that the first byte is combined with.
pub const INITIAL_KEY: u8 = 171;

/// The longest payload that a frame may announce.
pub const MAX_RESPONSE_LENGTH: usize = 16384;

/// The port that a plug listens on.
pub const SMART_HOME_PORT: u16 = 9999;

/// The key in force after the first `count` bytes of a plaintext.
pub open spec fn running_key(plaintext: Seq<u8>, count: nat) -> u8
    decreases count,
{
    if count == 0 {
        INITIAL_KEY
    } else {
        running_key(plaintext, (count - 1) as nat) ^ plaintext[count - 1]
    }
}

/// The plaintext enciphered: each byte becomes the key that it leaves behind.
pub open spec fn encrypted(plaintext: Seq<u8>) -> Seq<u8> {
    Seq::new(plaintext.len(), |i: int| running_key(plaintext, (i + 1) as nat))
}

/// The ciphertext deciphered: each byte is combined with the one before it.
pub open spec fn decrypted(ciphertext: Seq<u8>) -> Seq<u8> {
    Seq::new(
        ciphertext.len(),
        |i: int|
            if i == 0 {
                INITIAL_KEY ^ ciphertext[i]
            } else {
                ciphertext[i - 1] ^ ciphertext[i]
            },
    )
}

/// Enciphers a plaintext.
pub fn encrypt(plaintext: &[u8]) -> (ciphertext: Vec<u8>)
    ensures
        ciphertext@ == encrypted(plaintext@),
{
    let mut key: u8 = INITIAL_KEY;
    let mut ciphertext: Vec<u8> = Vec::new();
    let mut index: usize = 0;
    while index < plaintext.len()
        invariant
            index <= plaintext@.len(),
            key == running_key(plaintext@, index as nat),
            ciphertext@ =~= encrypted(plaintext@).take(index as int),
        decreases plaintext@.len() - index,
    {
        key = key ^ plaintext[index];
        ciphertext.push(key);
        index = index + 1;
    }
    ciphertext
}

/// Deciphers a ciphertext.
pub fn decrypt(ciphertext: &[u8]) -> (plaintext: Vec<u8>)
    ensures
        plaintext@ == decrypted(ciphertext@),
{
    let mut key: u8 = INITIAL_KEY;
    let mut plaintext: Vec<u8> = Vec::new();
    let mut index: usize = 0;
    while index < ciphertext.len()
        invariant
            index <= ciphertext@.len(),
            key == (if index == 0 {
                INITIAL_KEY
            } else {
                ciphertext@[index - 1]
            }),
            plaintext@ =~= decrypted(ciphertext@).take(index as int),
        decreases ciphertext@.len() - index,
    {
        plaintext.push(key ^ ciphertext[index]);
        key = ciphertext[index];
        index = index + 1;
    }
    plaintext
}

proof fn lemma_xor_cancels(a: u8, b: u8)
    ensures
        a ^ (a ^ b) == b,
{
    assert(a ^ (a ^ b) == b) by (bit_vector);
}

/// Deciphering undoes enciphering.
pub proof fn law_decrypt_undoes_encrypt(plaintext: Seq<u8>)
    ensures
        decrypted(encrypted(plaintext)) == plaintext,
{
    assert forall|i: int| 0 <= i < plaintext.len() implies decrypted(encrypted(plaintext))[i]
        == plaintext[i] by {
        lemma_xor_cancels(running_key(plaintext, i as nat), plaintext[i]);
        assert(running_key(plaintext, (i + 1) as nat) == running_key(plaintext, i as nat)
            ^ plaintext[i]);
    }
    assert(decrypted(encrypted(plaintext)) =~= plaintext);
}

proof fn lemma_key_is_last_byte(ciphertext: Seq<u8>, count: nat)
    requires
        count <= ciphertext.len(),
    ensures
        running_key(decrypted(ciphertext), count) == (if count == 0 {
            INITIAL_KEY
        } else {
            ciphertext[count - 1]
        }),
    decreases count,
{
    if count > 0 {
        lemma_key_is_last_byte(ciphertext, (count - 1) as nat);
        let key = running_key(decrypted(ciphertext), (count - 1) as nat);
        lemma_xor_cancels(key, ciphertext[count - 1]);
    }
}

/// Enciphering undoes deciphering: every ciphertext stands for one plaintext.
pub proof fn law_encrypt_undoes_decrypt(ciphertext: Seq<u8>)
    ensures
        encrypted(decrypted(ciphertext)) == ciphertext,
{
    assert forall|i: int| 0 <= i < ciphertext.len() implies encrypted(decrypted(ciphertext))[i]
        == ciphertext[i] by {
        lemma_key_is_last_byte(ciphertext, (i + 1) as nat);
    }
    assert(encrypted(decrypted(ciphertext)) =~= ciphertext);
}

/// A number below two to the thirty-second in four bytes, the most significant first.
pub open spec fn big_endian(value: nat) -> Seq<u8> {
    seq![
        (value / 0x1000000) as u8,
        (value / 0x10000 % 0x100) as u8,
        (value / 0x100 % 0x100) as u8,
        (value % 0x100) as u8,
    ]
}

/// The number that four bytes spell, the most significant first.
pub open spec fn from_big_endian(bytes: Seq<u8>) -> nat {
    (bytes[0] * 0x1000000 + bytes[1] * 0x10000 + bytes[2] * 0x100 + bytes[3]) as nat
}

/// The frame of a payload: its length in four bytes, then the payload enciphered.
pub open spec fn framed(payload: Seq<u8>) -> Seq<u8> {
    big_endian(payload.len()) + encrypted(payload)
}

/// Puts a document into a frame.
pub fn encode_frame(request: &Json) -> (frame: Result<Vec<u8>, Error>)
    ensures
        match crate::json::normal(request.tree()) {
            None => frame matches Err(Error::Json(_)),
            Some(tree) => {
                let payload = crate::json::document_written(tree);
                if payload.len() > u32::MAX {
                    frame matches Err(Error::ResponseTooLarge(length)) && length == payload.len()
                } else {
                    &&& frame is Ok
                    &&& frame->Ok_0@ == framed(payload)
                    &&& crate::json::plain(tree, crate::json::READ_LEVELS as nat)
                        ==> crate::json::document_read(payload) == Some(tree)
                }
            },
        },
{
    let payload = match write_json(request) {
        Ok(payload) => payload,
        Err(error) => return Err(Error::from(error)),
    };
    let length: u32 = match u32::try_from(payload.len()) {
        Ok(length) => length,
        Err(_) => return Err(Error::ResponseTooLarge(payload.len())),
    };
    let mut frame: Vec<u8> = Vec::new();
    frame.push((length / 0x1000000) as u8);
    frame.push((length / 0x10000 % 0x100) as u8);
    frame.push((length / 0x100 % 0x100) as u8);
    frame.push((length % 0x100) as u8);
    assert(frame@ =~= big_endian(payload@.len()));
    let mut ciphertext = encrypt(payload.as_slice());
    frame.append(&mut ciphertext);
    Ok(frame)
}

/// The length of the payload that a frame's first four bytes announce.
pub fn frame_length(header: [u8; 4]) -> (length: Result<usize, Error>)
    ensures
        if from_big_endian(header@) > MAX_RESPONSE_LENGTH {
            length matches Err(Error::ResponseTooLarge(announced)) && announced
                == from_big_endian(header@)
        } else {
            length matches Ok(announced) && announced == from_big_endian(header@)
        },
{
    let length: usize = header[0] as usize * 0x1000000 + header[1] as usize * 0x10000
        + header[2] as usize * 0x100 + header[3] as usize;
    if length > MAX_RESPONSE_LENGTH {
        return Err(Error::ResponseTooLarge(length));
    }
    Ok(length)
}

/// The document in a frame's payload.
pub fn frame_document(payload: &[u8]) -> (document: Result<Json, Error>)
    ensures
        match crate::json::document_read(decrypted(payload@)) {
            Some(tree) => document is Ok && document->Ok_0.tree() == tree,
            None => document matches Err(Error::Json(_)),
        },
{
    let plaintext = decrypt(payload);
    match read_json(plaintext.as_slice()) {
        Ok(document) => Ok(document),
        Err(error) => Err(Error::from(error)),
    }
}

/// A frame announces the length of its payload, and its payload deciphers to what was put in.
pub proof fn law_frame_round_trip(payload: Seq<u8>)
    requires
        payload.len() <= u32::MAX,
    ensures
        framed(payload).len() == 4 + payload.len(),
        from_big_endian(framed(payload).take(4)) == payload.len(),
        decrypted(framed(payload).skip(4)) == payload,
{
    law_decrypt_undoes_encrypt(payload);
    assert(framed(payload).skip(4) =~= encrypted(payload));
    let header = framed(payload).take(4);
    assert(header =~= big_endian(payload.len()));
}

/// What was read of a stream: a document, and the number of bytes that were taken for it.
#[derive(Debug)]
pub struct FrameRead {
    pub document: Result<Json, Error>,
    pub taken: usize,
}

/// The frame that a stream begins with: its document, and the number of bytes that were taken to
/// read it. A frame that announces too much is refused after its length. There is none where the
/// stream ends before the frame does.
pub fn read_frame(stream: &[u8]) -> (result: Option<FrameRead>)
    ensures
        ({
            let length = from_big_endian(stream@.take(4));
            if stream@.len() < 4 {
                result is None
            } else if length > MAX_RESPONSE_LENGTH {
                result is Some && result->0.taken == 4 && (result->0.document matches Err(
                    Error::ResponseTooLarge(announced),
                ) && announced == length)
            } else if stream@.len() < 4 + length {
                result is None
            } else {
                result is Some && result->0.taken == 4 + length && match crate::json::document_read(
                    decrypted(stream@.subrange(4, 4 + length as int)),
                ) {
                    Some(tree) => result->0.document is Ok && result->0.document->Ok_0.tree() == tree,
                    None => result->0.document matches Err(Error::Json(_)),
                }
            }
        }),
{
    if stream.len() < 4 {
        return None;
    }
    let header = [stream[0], stream[1], stream[2], stream[3]];
    proof {
        assert(header@ =~= stream@.take(4));
    }
    match frame_length(header) {
        Ok(length) => {
            if stream.len() - 4 < length {
                return None;
            }
            let payload = vstd::slice::slice_subrange(stream, 4, 4 + length);
            Some(FrameRead { document: frame_document(payload), taken: 4 + length })
        },
        Err(error) => Some(FrameRead { document: Err(error), taken: 4 }),
    }
}

/// What a reader makes of a stream that begins with the frame of a document, whatever follows it.
/// A document that holds integers only, begins no object with the name of a raw document and nests
/// no deeper than a reader goes is read as it was sent, and the rest of the stream is left alone.
/// One that is too long is refused after its length.
pub fn echo(request: &Json, rest: &Vec<u8>) -> (result: Option<FrameRead>)
    ensures
        match crate::json::normal(request.tree()) {
            None => result is Some && result->0.taken == 0 && result->0.document matches Err(
                Error::Json(_),
            ),
            Some(tree) => {
                let length = crate::json::document_written(tree).len();
                if length > u32::MAX {
                    result is Some && result->0.taken == 0 && (result->0.document matches Err(
                        Error::ResponseTooLarge(refused),
                    ) && refused == length)
                } else if length > MAX_RESPONSE_LENGTH {
                    result is Some && result->0.taken == 4 && (result->0.document matches Err(
                        Error::ResponseTooLarge(refused),
                    ) && refused == length)
                } else {
                    &&& result is Some
                    &&& result->0.taken == 4 + length
                    &&& crate::json::plain(tree, crate::json::READ_LEVELS as nat)
                        ==> result->0.document is Ok && result->0.document->Ok_0.tree() == tree
                }
            },
        },
{
    let mut stream = match encode_frame(request) {
        Ok(frame) => frame,
        Err(error) => return Some(FrameRead { document: Err(error), taken: 0 }),
    };
    let ghost payload = crate::json::document_written(crate::json::normal(request.tree())->0);
    let mut index: usize = 0;
    proof {
        assert(stream@ =~= framed(payload) + rest@.take(0));
    }
    while index < rest.len()
        invariant
            index <= rest@.len(),
            stream@ == framed(payload) + rest@.take(index as int),
        decreases rest@.len() - index,
    {
        stream.push(rest[index]);
        proof {
            assert(rest@.take(index + 1) =~= rest@.take(index as int).push(rest@[index as int]));
            assert(stream@ =~= framed(payload) + rest@.take(index + 1));
        }
        index = index + 1;
    }
    proof {
        law_frame_round_trip(payload);
        assert(stream@.take(4) =~= framed(payload).take(4));
        assert(stream@.subrange(4, 4 + payload.len() as int) =~= framed(payload).skip(4));
    }
    read_frame(stream.as_slice())
}

/// The first byte of a message is enciphered with the key that every plug knows, and each further
/// byte with the enciphered byte before it. The length stays.
pub proof fn law_bytes_chain(plaintext: Seq<u8>, i: int)
    requires
        0 <= i < plaintext.len(),
    ensures
        encrypted(plaintext).len() == plaintext.len(),
        encrypted(plaintext)[0] == 171u8 ^ plaintext[0],
        i > 0 ==> encrypted(plaintext)[i] == encrypted(plaintext)[i - 1] ^ plaintext[i],
{
    assert(running_key(plaintext, 1) == running_key(plaintext, 0) ^ plaintext[0]);
    assert(running_key(plaintext, (i + 1) as nat) == running_key(plaintext, i as nat)
        ^ plaintext[i]);
}

/// A message begins with its length in four bytes, the most significant first.
pub proof fn law_frames_begin_with_their_length(payload: Seq<u8>)
    requires
        payload.len() <= u32::MAX,
    ensures
        framed(payload).len() == payload.len() + 4,
        framed(payload)[0] * 16_777_216 + framed(payload)[1] * 65_536 + framed(payload)[2] * 256
            + framed(payload)[3] == payload.len(),
        payload.len() > 0 ==> framed(payload)[4] == 171u8 ^ payload[0],
{
    if payload.len() > 0 {
        law_bytes_chain(payload, 0);
    }
}

/// A header is taken exactly where the length that it announces, the most significant byte first,
/// is at most sixteen kilobytes.
pub proof fn law_long_frames_are_refused(header: [u8; 4], length: Result<usize, Error>)
    requires
        if from_big_endian(header@) > MAX_RESPONSE_LENGTH {
            length matches Err(Error::ResponseTooLarge(announced)) && announced
                == from_big_endian(header@)
        } else {
            length matches Ok(announced) && announced == from_big_endian(header@)
        },
    ensures
        ({
            let announced = header[0] * 16_777_216 + header[1] * 65_536 + header[2] * 256
                + header[3];
            &&& length is Ok <==> announced <= 16 * 1_024
            &&& length is Ok ==> length->Ok_0 == announced
            &&& length is Err ==> (length->Err_0 matches Error::ResponseTooLarge(size) && size
                == announced)
        }),
{
}

} // verus!
