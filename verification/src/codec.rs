//! MessagePack, as `rmp_serde` writes and reads it.
//!
//! A message is an array of two: its type, and its payload as an array of
//! integers. A clipboard item is an array of four: its type, its text or nil,
//! its image bytes or nil, and its hash.
use serde_bytes::{ByteBuf, Bytes};
use vstd::prelude::*;

use crate::text;

verus! {

/// The largest length that MessagePack can write.
pub open spec fn max_length() -> nat {
    0xffff_ffff
}

/// The bytes before a string of a length.
pub open spec fn string_head(length: nat) -> nat {
    if length < 32 {
        1
    } else if length < 256 {
        2
    } else if length < 0x1_0000 {
        3
    } else {
        5
    }
}

/// The bytes before the elements of an array of a length.
pub open spec fn array_head(length: nat) -> nat {
    if length < 16 {
        1
    } else if length < 0x1_0000 {
        3
    } else {
        5
    }
}

/// How many bytes take two bytes as integers: those from 128 on.
pub open spec fn high_bytes(bytes: Seq<u8>) -> nat {
    bytes.filter(|byte: u8| byte >= 128).len()
}

/// How many bytes a message takes: an array of two, with the type as a string and
/// the payload as an array of integers of one or two bytes.
pub open spec fn message_length(msg_type: Seq<char>, payload: Seq<u8>) -> nat {
    let type_length = text::utf8(msg_type).len();
    array_head(2) + string_head(type_length) + type_length + array_head(payload.len())
        + payload.len() + high_bytes(payload)
}

/// A message in MessagePack.
pub uninterp spec fn packed_message(msg_type: Seq<char>, payload: Seq<u8>) -> Seq<u8>;

/// The message that a byte string is in MessagePack, or the text of the error.
pub uninterp spec fn unpacked_message(bytes: Seq<u8>) -> Result<(Seq<char>, Seq<u8>), Seq<char>>;

/// `rmp_serde::to_vec` on a message.
///
/// Claimed: the bytes depend on the two fields alone; and as long as the type fits
/// in a MessagePack string, there are as many of them as an array of two with the
/// type and an array of integers takes, and `rmp_serde::from_slice` gives the
/// fields back of them. It fails only where no memory is left, which nothing here
/// excludes. A payload that is longer than an array can be is left out: counting
/// its elements overflows.
#[verifier::external_body]
pub(crate) fn pack_message(msg_type: &str, payload: &[u8]) -> (result: Result<Vec<u8>, String>)
    requires
        payload@.len() <= max_length(),
    ensures
        match result {
            Ok(bytes) => {
                &&& bytes@ == packed_message(msg_type@, payload@)
                &&& text::utf8(msg_type@).len() <= max_length() ==> {
                    &&& bytes@.len() == message_length(msg_type@, payload@)
                    &&& unpacked_message(bytes@) == Ok::<_, Seq<char>>((msg_type@, payload@))
                }
            },
            Err(_) => true,
        },
{
    rmp_serde::to_vec(&(msg_type, payload)).map_err(|e| e.to_string())
}

/// `rmp_serde::from_slice` of a message.
///
/// Claimed: the message, or the text of the error, depends on the bytes alone.
#[verifier::external_body]
pub(crate) fn unpack_message(bytes: &[u8]) -> (result: Result<(String, Vec<u8>), String>)
    ensures
        match result {
            Ok(message) => unpacked_message(bytes@) == Ok::<_, Seq<char>>(
                (message.0@, message.1@),
            ),
            Err(text) => unpacked_message(bytes@) == Err::<(Seq<char>, Seq<u8>), _>(text@),
        },
{
    rmp_serde::from_slice(bytes).map_err(|e: rmp_serde::decode::Error| e.to_string())
}

/// The four fields of a clipboard item, as mathematical values.
pub struct Item {
    pub content_type: Seq<char>,
    pub text: Option<Seq<char>>,
    pub image_data: Option<Seq<u8>>,
    pub content_hash: Seq<char>,
}

impl Item {
    /// Every field fits in a MessagePack string or byte string.
    pub open spec fn fits(self) -> bool {
        &&& text::utf8(self.content_type).len() <= max_length()
        &&& self.text matches Some(t) ==> text::utf8(t).len() <= max_length()
        &&& self.image_data matches Some(d) ==> d.len() <= max_length()
        &&& text::utf8(self.content_hash).len() <= max_length()
    }

    /// The bytes of the text and the image, added up.
    pub open spec fn payload_bytes(self) -> nat {
        (match self.text {
            Some(t) => text::utf8(t).len(),
            None => 0,
        }) + (match self.image_data {
            Some(d) => d.len(),
            None => 0,
        })
    }

    /// The most bytes that the item takes: its fields each with a head of up to
    /// five bytes, and the array with one.
    pub open spec fn packed_bound(self) -> nat {
        21 + text::utf8(self.content_type).len() + self.payload_bytes() + text::utf8(
            self.content_hash,
        ).len()
    }
}

/// An optional text as a mathematical value.
pub open spec fn text_view(text: Option<String>) -> Option<Seq<char>> {
    match text {
        Some(t) => Some(t@),
        None => None,
    }
}

/// Optional bytes as a mathematical value.
pub open spec fn bytes_view(bytes: Option<Vec<u8>>) -> Option<Seq<u8>> {
    match bytes {
        Some(b) => Some(b@),
        None => None,
    }
}

/// A clipboard item in MessagePack.
pub uninterp spec fn packed_item(
    content_type: Seq<char>,
    text: Option<Seq<char>>,
    image_data: Option<Seq<u8>>,
    content_hash: Seq<char>,
) -> Seq<u8>;

/// The clipboard item that a byte string is in MessagePack, as its four fields,
/// or the text of the error.
pub uninterp spec fn unpacked_item(bytes: Seq<u8>) -> Result<
    (Seq<char>, Option<Seq<char>>, Option<Seq<u8>>, Seq<char>),
    Seq<char>,
>;

/// `rmp_serde::to_vec` on a clipboard item, its image as `serde_bytes::Bytes`.
///
/// Claimed: the bytes depend on the four fields alone; they start with the mark
/// of an array of four, whatever is absent; and as long as each field fits, they
/// are no more than the bound, and `rmp_serde::from_slice` gives the fields back
/// of them. It fails only where no memory is left, which nothing here excludes.
#[verifier::external_body]
pub(crate) fn pack_item(
    content_type: &str,
    text: &Option<String>,
    image_data: &Option<Vec<u8>>,
    content_hash: &str,
) -> (result: Result<Vec<u8>, String>)
    ensures
        match result {
            Ok(bytes) => {
                let item = (Item {
                    content_type: content_type@,
                    text: text_view(*text),
                    image_data: bytes_view(*image_data),
                    content_hash: content_hash@,
                });
                &&& bytes@ == packed_item(
                    item.content_type,
                    item.text,
                    item.image_data,
                    item.content_hash,
                )
                &&& bytes@.len() > 4
                &&& bytes@[0] == 0x94
                &&& item.fits() ==> {
                    &&& bytes@.len() <= item.packed_bound()
                    &&& unpacked_item(bytes@) == Ok::<_, Seq<char>>(
                        (item.content_type, item.text, item.image_data, item.content_hash),
                    )
                }
            },
            Err(_) => true,
        },
{
    let image = image_data.as_deref().map(Bytes::new);
    rmp_serde::to_vec(&(content_type, text, image, content_hash)).map_err(|e| e.to_string())
}

/// `rmp_serde::from_slice` of a clipboard item, its image as
/// `serde_bytes::ByteBuf`.
///
/// Claimed: the item, or the text of the error, depends on the bytes alone.
#[verifier::external_body]
pub(crate) fn unpack_item(bytes: &[u8]) -> (result: Result<
    (String, Option<String>, Option<Vec<u8>>, String),
    String,
>)
    ensures
        match result {
            Ok(item) => unpacked_item(bytes@) == Ok::<_, Seq<char>>(
                (item.0@, text_view(item.1), bytes_view(item.2), item.3@),
            ),
            Err(text) => unpacked_item(bytes@) == Err::<
                (Seq<char>, Option<Seq<char>>, Option<Seq<u8>>, Seq<char>),
                _,
            >(text@),
        },
{
    rmp_serde::from_slice::<(String, Option<String>, Option<ByteBuf>, String)>(bytes)
        .map(|item| (item.0, item.1, item.2.map(ByteBuf::into_vec), item.3))
        .map_err(|e| e.to_string())
}

/// An optional text stands for all of its characters, and optional bytes for all of
/// them.
pub proof fn law_optional_views(text: String, bytes: Vec<u8>)
    ensures
        text_view(Some(text)) == Some(text@),
        text_view(None) is None,
        bytes_view(Some(bytes)) == Some(bytes@),
        bytes_view(None) is None,
{
}

} // verus!
