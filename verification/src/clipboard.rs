//! Clipboard content: its formats, its hash and size, the watcher that finds
//! changes, and what to write for content that arrived.
//!
//! An image travels as its width and height, four bytes each with the high byte
//! first, followed by its RGBA pixels.
use vstd::prelude::*;
use vstd::slice::*;
use vstd::string::*;
use vstd::utf8::*;

use crate::codec;
use crate::config::ClipboardPriority;
use crate::crypto;
use crate::notice;
use crate::notice::UserNotification;
use crate::text;

verus! {

/// Clipboard content ready to be synchronised.
#[derive(Debug)]
pub struct ClipboardContent {
    /// `text` or `image`.
    pub content_type: String,
    /// The text, if it is text.
    pub text: Option<String>,
    /// The image in its container, if it is an image.
    pub image_data: Option<Vec<u8>>,
    /// The hash of the content.
    pub content_hash: String,
}

impl View for ClipboardContent {
    type V = codec::Item;

    open spec fn view(&self) -> codec::Item {
        codec::Item {
            content_type: self.content_type@,
            text: codec::text_view(self.text),
            image_data: codec::bytes_view(self.image_data),
            content_hash: self.content_hash@,
        }
    }
}

/// A copy of optional bytes.
fn copied(bytes: &Option<Vec<u8>>) -> (copy: Option<Vec<u8>>)
    ensures
        codec::bytes_view(copy) == codec::bytes_view(*bytes),
{
    match bytes {
        Some(bytes) => Some(slice_to_vec(bytes.as_slice())),
        None => None,
    }
}

impl Clone for ClipboardContent {
    fn clone(&self) -> (content: Self)
        ensures
            content@ == self@,
    {
        ClipboardContent {
            content_type: self.content_type.clone(),
            text: self.text.clone(),
            image_data: copied(&self.image_data),
            content_hash: self.content_hash.clone(),
        }
    }
}

impl ClipboardContent {
    /// The bytes of the text and the image, added up.
    pub fn payload_size(&self) -> (size: u128)
        ensures
            size == self@.payload_bytes(),
            size <= 0x2_0000_0000_0000_0000,
    {
        let text_size: usize = match &self.text {
            Some(t) => t.as_str().as_bytes().len(),
            None => 0,
        };
        let image_size: usize = match &self.image_data {
            Some(d) => d.len(),
            None => 0,
        };
        text_size as u128 + image_size as u128
    }

    /// Writes the content in MessagePack: an array of four, with nil for what is
    /// absent. Without memory for it there is no result.
    pub fn to_payload(&self) -> (result: Result<Vec<u8>, String>)
        ensures
            match result {
                Ok(payload) => {
                    &&& payload@ == codec::packed_item(
                        self@.content_type,
                        self@.text,
                        self@.image_data,
                        self@.content_hash,
                    )
                    &&& payload@.len() > 4
                    &&& payload@[0] == 0x94
                    &&& self@.fits() ==> {
                        &&& payload@.len() <= self@.packed_bound()
                        &&& unpacked(payload@) == Ok::<_, Seq<char>>(self@)
                    }
                },
                Err(_) => true,
            },
    {
        codec::pack_item(
            self.content_type.as_str(),
            &self.text,
            &self.image_data,
            self.content_hash.as_str(),
        )
    }

    /// Reads content from MessagePack.
    pub fn from_payload(payload: &[u8]) -> (result: Result<Self, String>)
        ensures
            match result {
                Ok(content) => unpacked(payload@) == Ok::<_, Seq<char>>(content@),
                Err(text) => unpacked(payload@) == Err::<codec::Item, _>(text@),
            },
    {
        match codec::unpack_item(payload) {
            Ok(item) => Ok(
                ClipboardContent {
                    content_type: item.0,
                    text: item.1,
                    image_data: item.2,
                    content_hash: item.3,
                },
            ),
            Err(text) => Err(text),
        }
    }
}

/// The item that a payload holds, or the text of the error.
pub open spec fn unpacked(payload: Seq<u8>) -> Result<codec::Item, Seq<char>> {
    match codec::unpacked_item(payload) {
        Ok(item) => Ok(
            codec::Item {
                content_type: item.0,
                text: item.1,
                image_data: item.2,
                content_hash: item.3,
            },
        ),
        Err(text) => Err(text),
    }
}

/// Estimates the serialized size of content: its bytes and a hundred more.
pub fn content_size(content: &ClipboardContent) -> (size: u64)
    requires
        content@.payload_bytes() + 100 <= u64::MAX,
    ensures
        size == content@.payload_bytes() + 100,
{
    content.payload_size() as u64 + 100
}

/// Whether two hashes are equal.
pub fn hashes_equal(a: &str, b: &str) -> (equal: bool)
    ensures
        equal == (a@ == b@),
{
    text::same_text(a, b)
}

/// What goes into the hash: a mark of the format and the content.
pub open spec fn hash_input(text: Option<Seq<char>>, image_data: Option<Seq<u8>>) -> Seq<u8> {
    let of_text = match text {
        Some(t) => text::utf8("text:"@) + text::utf8(t),
        None => Seq::empty(),
    };
    let of_image = match image_data {
        Some(d) => text::utf8("image:"@) + d,
        None => Seq::empty(),
    };
    if text is None && image_data is None {
        text::utf8("empty"@)
    } else {
        of_text + of_image
    }
}

/// The hash of content: SHA-256 in hexadecimal.
pub open spec fn hash_of(text: Option<Seq<char>>, image_data: Option<Seq<u8>>) -> Seq<char> {
    crypto::hex_lower(crypto::sha256(hash_input(text, image_data)))
}

/// Optional borrowed text as a mathematical value.
pub open spec fn str_view(text: Option<&str>) -> Option<Seq<char>> {
    match text {
        Some(t) => Some(t@),
        None => None,
    }
}

/// Optional borrowed bytes as a mathematical value.
pub open spec fn slice_view(bytes: Option<&[u8]>) -> Option<Seq<u8>> {
    match bytes {
        Some(b) => Some(b@),
        None => None,
    }
}

/// The hash of content, by which changes and echoes are found.
pub fn compute_hash(text: Option<&str>, image_data: Option<&[u8]>) -> (hash: String)
    ensures
        hash@ == hash_of(str_view(text), slice_view(image_data)),
        hash@.len() == 64,
        text::utf8(hash@).len() == 64,
{
    let mut input: Vec<u8> = Vec::new();
    if let Some(t) = text {
        input.extend_from_slice("text:".as_bytes());
        input.extend_from_slice(t.as_bytes());
    }
    if let Some(d) = image_data {
        input.extend_from_slice("image:".as_bytes());
        input.extend_from_slice(d);
    }
    if text.is_none() && image_data.is_none() {
        input.extend_from_slice("empty".as_bytes());
    }
    proof {
        assert(input@ =~= hash_input(str_view(text), slice_view(image_data)));
    }
    let digest = crypto::sha256_digest(input.as_slice());
    proof {
        assert(is_ascii_chars(crypto::hex_lower(digest@)));
        is_ascii_chars_encode_utf8(crypto::hex_lower(digest@));
    }
    crypto::hex_encode(digest.as_slice())
}

/// At most one of the two formats is there.
pub open spec fn single_format(text: Option<Seq<char>>, image_data: Option<Seq<u8>>) -> bool {
    text is None || image_data is None
}

/// Content of at most one format is told apart by what goes into its hash: two
/// contents with the same hash input are the same content. So two different
/// contents have the same hash only if SHA-256 itself gives the same digest for
/// different inputs.
pub proof fn law_hash_input_injective(
    text_a: Option<Seq<char>>,
    image_a: Option<Seq<u8>>,
    text_b: Option<Seq<char>>,
    image_b: Option<Seq<u8>>,
)
    requires
        single_format(text_a, image_a),
        single_format(text_b, image_b),
        hash_input(text_a, image_a) == hash_input(text_b, image_b),
    ensures
        text_a == text_b,
        image_a == image_b,
{
    reveal_strlit("text:");
    reveal_strlit("image:");
    reveal_strlit("empty");
    is_ascii_chars_encode_utf8("text:"@);
    is_ascii_chars_encode_utf8("image:"@);
    is_ascii_chars_encode_utf8("empty"@);
    let mark_text = text::utf8("text:"@);
    let mark_image = text::utf8("image:"@);
    let a = hash_input(text_a, image_a);
    let b = hash_input(text_b, image_b);
    assert(mark_text[0] == 't' as u8);
    assert(mark_image[0] == 'i' as u8);
    assert(text::utf8("empty"@)[0] == 'e' as u8);
    assert(text_a is Some ==> a[0] == 't' as u8);
    assert(text_b is Some ==> b[0] == 't' as u8);
    assert(image_a is Some ==> a[0] == 'i' as u8);
    assert(image_b is Some ==> b[0] == 'i' as u8);
    if text_a is Some {
        assert(text_b is Some);
        assert(a.skip(5) =~= text::utf8(text_a->0));
        assert(b.skip(5) =~= text::utf8(text_b->0));
        text::lemma_utf8_injective(text_a->0, text_b->0);
    }
    if image_a is Some {
        assert(image_b is Some);
        assert(a.skip(6) =~= image_a->0);
        assert(b.skip(6) =~= image_b->0);
    }
}

/// An image as the clipboard hands it out.
#[derive(Debug)]
pub struct RgbaImage {
    pub width: usize,
    pub height: usize,
    /// Four bytes for each pixel.
    pub bytes: Vec<u8>,
}

/// An image as a mathematical value.
pub struct ImageView {
    pub width: int,
    pub height: int,
    pub pixels: Seq<u8>,
}

impl View for RgbaImage {
    type V = ImageView;

    open spec fn view(&self) -> ImageView {
        ImageView { width: self.width as int, height: self.height as int, pixels: self.bytes@ }
    }
}

/// A number in four bytes, the high byte first.
pub open spec fn big_endian(n: int) -> Seq<u8> {
    seq![
        (n / 0x100_0000 % 256) as u8,
        (n / 0x1_0000 % 256) as u8,
        (n / 0x100 % 256) as u8,
        (n % 256) as u8,
    ]
}

/// The number that four bytes hold, the high byte first.
pub open spec fn big_endian_value(bytes: Seq<u8>) -> int {
    bytes[0] * 0x100_0000 + bytes[1] * 0x1_0000 + bytes[2] * 0x100 + bytes[3]
}

/// The container of an image: only the low 32 bits of width and height are kept.
pub open spec fn image_container(image: ImageView) -> Seq<u8> {
    big_endian(image.width) + big_endian(image.height) + image.pixels
}

/// The image in a container.
pub open spec fn contained_image(data: Seq<u8>) -> ImageView {
    ImageView {
        width: big_endian_value(data.subrange(0, 4)),
        height: big_endian_value(data.subrange(4, 8)),
        pixels: data.subrange(8, data.len() as int),
    }
}

/// A number in four bytes, the high byte first. What does not fit is cut off.
fn push_big_endian(data: &mut Vec<u8>, n: usize)
    ensures
        final(data)@ == old(data)@ + big_endian(n as int),
{
    let n: u64 = n as u64;
    data.push((n / 0x100_0000 % 256) as u8);
    data.push((n / 0x1_0000 % 256) as u8);
    data.push((n / 0x100 % 256) as u8);
    data.push((n % 256) as u8);
    proof {
        assert(data@ =~= old(data)@ + big_endian(n as int));
    }
}

/// The number in four bytes from an index on, the high byte first.
fn read_big_endian(data: &[u8], at: usize) -> (n: usize)
    requires
        at + 4 <= data@.len(),
    ensures
        n == big_endian_value(data@.subrange(at as int, at + 4)),
{
    proof {
        assert(data@.subrange(at as int, at + 4) =~= seq![
            data@[at as int],
            data@[at + 1],
            data@[at + 2],
            data@[at + 3],
        ]);
    }
    let value: u32 = data[at] as u32 * 0x100_0000 + data[at + 1] as u32 * 0x1_0000 + data[at + 2]
        as u32 * 0x100 + data[at + 3] as u32;
    value as usize
}

/// Puts an image in its container. An image without pixels is none.
pub fn encode_image_data(image: &RgbaImage) -> (data: Option<Vec<u8>>)
    ensures
        match data {
            Some(data) => {
                &&& image.bytes@.len() > 0
                &&& data@ == image_container(image@)
            },
            None => image.bytes@.len() == 0,
        },
{
    if image.bytes.len() == 0 {
        return None;
    }
    let mut data: Vec<u8> = Vec::new();
    push_big_endian(&mut data, image.width);
    push_big_endian(&mut data, image.height);
    data.extend_from_slice(image.bytes.as_slice());
    proof {
        assert(data@ =~= image_container(image@));
    }
    Some(data)
}

/// Takes an image out of its container.
pub fn decode_image_data(data: &[u8]) -> (result: Result<RgbaImage, String>)
    ensures
        match result {
            Ok(image) => data@.len() >= 8 && image@ == contained_image(data@),
            Err(text) => data@.len() < 8 && text@ == "Image data too short"@,
        },
{
    if data.len() < 8 {
        return Err("Image data too short".to_string());
    }
    let width: usize = read_big_endian(data, 0);
    let height: usize = read_big_endian(data, 4);
    let pixels = slice_subrange(data, 8, data.len());
    Ok(RgbaImage { width, height, bytes: slice_to_vec(pixels) })
}

/// A number below 2^32 comes back of its four bytes.
pub proof fn lemma_big_endian_round_trip(n: int)
    requires
        0 <= n <= u32::MAX,
    ensures
        big_endian_value(big_endian(n)) == n,
{
    let high = n / 0x100;
    assert(n == high * 0x100 + n % 256);
    assert(n / 0x1_0000 == high / 0x100);
    assert(n / 0x100_0000 == high / 0x100 / 0x100);
}

/// An image comes back of its container as it was, as long as its width and
/// height fit in 32 bits.
pub proof fn law_image_round_trip(image: ImageView)
    requires
        0 <= image.width <= u32::MAX,
        0 <= image.height <= u32::MAX,
    ensures
        image_container(image).len() == 8 + image.pixels.len(),
        contained_image(image_container(image)) == image,
{
    let data = image_container(image);
    assert(data.subrange(0, 4) =~= big_endian(image.width));
    assert(data.subrange(4, 8) =~= big_endian(image.height));
    assert(data.subrange(8, data.len() as int) =~= image.pixels);
    lemma_big_endian_round_trip(image.width);
    lemma_big_endian_round_trip(image.height);
}

/// The format that a priority picks of what the clipboard holds, and its name.
pub open spec fn selected(
    text: Option<Seq<char>>,
    image_data: Option<Seq<u8>>,
    priority: ClipboardPriority,
) -> (Option<Seq<char>>, Option<Seq<u8>>, Seq<char>) {
    let nothing = (None, None, "none"@);
    let of_text = match text {
        Some(t) => (Some(t), None, "text"@),
        None => nothing,
    };
    let of_image = match image_data {
        Some(d) => (None, Some(d), "image"@),
        None => nothing,
    };
    match priority {
        ClipboardPriority::ImageFirst => if image_data is Some {
            of_image
        } else {
            of_text
        },
        ClipboardPriority::TextFirst => if text is Some {
            of_text
        } else {
            of_image
        },
        ClipboardPriority::TextOnly => (text, None, "text"@),
        ClipboardPriority::ImageOnly => of_image,
    }
}

/// Picks the format by the priority.
pub fn select_format(
    text: &Option<String>,
    image_data: &Option<Vec<u8>>,
    priority: &ClipboardPriority,
) -> (choice: (Option<String>, Option<Vec<u8>>, &'static str))
    ensures
        (codec::text_view(choice.0), codec::bytes_view(choice.1), choice.2@) == selected(
            codec::text_view(*text),
            codec::bytes_view(*image_data),
            *priority,
        ),
        single_format(codec::text_view(choice.0), codec::bytes_view(choice.1)),
{
    match priority {
        ClipboardPriority::ImageFirst => {
            if image_data.is_some() {
                (None, copied(image_data), "image")
            } else if text.is_some() {
                (text.clone(), None, "text")
            } else {
                (None, None, "none")
            }
        },
        ClipboardPriority::TextFirst => {
            if text.is_some() {
                (text.clone(), None, "text")
            } else if image_data.is_some() {
                (None, copied(image_data), "image")
            } else {
                (None, None, "none")
            }
        },
        ClipboardPriority::TextOnly => (text.clone(), None, "text"),
        ClipboardPriority::ImageOnly => {
            if image_data.is_some() {
                (None, copied(image_data), "image")
            } else {
                (None, None, "none")
            }
        },
    }
}

/// What the clipboard holds, by the priority, with its hash.
pub struct ClipboardSnapshot {
    pub text: Option<String>,
    pub image_data: Option<Vec<u8>>,
    pub hash: String,
}

/// The container of what the clipboard holds as an image.
pub open spec fn container_of(image: Option<ImageView>) -> Option<Seq<u8>> {
    match image {
        Some(image) => if image.pixels.len() == 0 {
            None
        } else {
            Some(image_container(image))
        },
        None => None,
    }
}

/// An optional image as a mathematical value.
pub open spec fn image_view(image: Option<RgbaImage>) -> Option<ImageView> {
    match image {
        Some(image) => Some(image@),
        None => None,
    }
}

/// The item that stands for what the clipboard holds.
pub open spec fn clipboard_item(
    text: Option<Seq<char>>,
    image: Option<ImageView>,
    priority: ClipboardPriority,
) -> codec::Item {
    let choice = selected(text, container_of(image), priority);
    codec::Item {
        content_type: if choice.1 is Some {
            "image"@
        } else {
            "text"@
        },
        text: choice.0,
        image_data: choice.1,
        content_hash: hash_of(choice.0, choice.1),
    }
}

/// Takes a snapshot of the text and the image that the clipboard holds.
pub fn take_snapshot(
    text: &Option<String>,
    image: &Option<RgbaImage>,
    priority: &ClipboardPriority,
) -> (snapshot: ClipboardSnapshot)
    ensures
        ({
            let item = clipboard_item(codec::text_view(*text), image_view(*image), *priority);
            &&& codec::text_view(snapshot.text) == item.text
            &&& codec::bytes_view(snapshot.image_data) == item.image_data
            &&& snapshot.hash@ == item.content_hash
            &&& text::utf8(item.content_hash).len() == 64
        }),
{
    let image_data: Option<Vec<u8>> = match image {
        Some(image) => encode_image_data(image),
        None => None,
    };
    let choice = select_format(text, &image_data, priority);
    let hash_text: Option<&str> = match &choice.0 {
        Some(t) => Some(t.as_str()),
        None => None,
    };
    let hash_image: Option<&[u8]> = match &choice.1 {
        Some(d) => Some(d.as_slice()),
        None => None,
    };
    let hash = compute_hash(hash_text, hash_image);
    ClipboardSnapshot { text: choice.0, image_data: choice.1, hash }
}

/// What a look at the clipboard led to.
pub enum WatchOutcome {
    /// The same as at the last look.
    Unchanged,
    /// Changed, but too large to send: the notice to show.
    TooLarge(UserNotification),
    /// Changed: the content to send.
    Changed(ClipboardContent),
}

/// What a look at the clipboard led to, as a mathematical value: of a notice its
/// title and its text.
pub enum WatchView {
    Unchanged,
    TooLarge(Seq<char>, Seq<char>),
    Changed(codec::Item),
}

impl View for WatchOutcome {
    type V = WatchView;

    open spec fn view(&self) -> WatchView {
        match self {
            WatchOutcome::Unchanged => WatchView::Unchanged,
            WatchOutcome::TooLarge(shown) => WatchView::TooLarge(shown.title@, shown.body@),
            WatchOutcome::Changed(content) => WatchView::Changed(content@),
        }
    }
}

/// What a look at the clipboard leads to, after a look that found a hash.
pub open spec fn watched(last: Option<Seq<char>>, item: codec::Item, limit: u64) -> WatchView {
    if last == Some(item.content_hash) {
        WatchView::Unchanged
    } else if item.payload_bytes() + 100 > limit {
        WatchView::TooLarge(
            "ClipSync"@,
            notice::too_large_body(item.payload_bytes() + 100, limit as nat),
        )
    } else {
        WatchView::Changed(item)
    }
}

/// Finds changes of the clipboard, by the hash of what it held last.
pub struct Watcher {
    last_hash: Option<String>,
}

impl View for Watcher {
    type V = Option<Seq<char>>;

    /// The hash of what the clipboard held at the last look.
    closed spec fn view(&self) -> Option<Seq<char>> {
        codec::text_view(self.last_hash)
    }
}

impl Watcher {
    /// A watcher that has not looked yet.
    pub fn new() -> (watcher: Self)
        ensures
            watcher@ is None,
    {
        Watcher { last_hash: None }
    }

    /// Looks at the text and the image that the clipboard holds.
    pub fn observe(
        &mut self,
        text: &Option<String>,
        image: &Option<RgbaImage>,
        priority: &ClipboardPriority,
        payload_limit_bytes: u64,
    ) -> (outcome: WatchOutcome)
        ensures
            ({
                let item = clipboard_item(codec::text_view(*text), image_view(*image), *priority);
                let size = item.payload_bytes() + 100;
                &&& outcome@ == watched(old(self)@, item, payload_limit_bytes)
                &&& final(self)@ == Some(item.content_hash)
                &&& match outcome {
                    WatchOutcome::Unchanged => old(self)@ == Some(item.content_hash),
                    WatchOutcome::TooLarge(shown) => {
                        &&& old(self)@ != Some(item.content_hash)
                        &&& size > payload_limit_bytes
                        &&& shown.title@ == "ClipSync"@
                        &&& shown.body@ == notice::too_large_body(size, payload_limit_bytes as nat)
                    },
                    WatchOutcome::Changed(content) => {
                        &&& old(self)@ != Some(item.content_hash)
                        &&& size <= payload_limit_bytes
                        &&& content@ == item
                        &&& text::utf8(item.content_hash).len() == 64
                        &&& payload_limit_bytes <= codec::max_length() ==> item.fits()
                    },
                }
            }),
    {
        let current = take_snapshot(text, image, priority);
        if let Some(last) = &self.last_hash {
            if hashes_equal(last.as_str(), current.hash.as_str()) {
                return WatchOutcome::Unchanged;
            }
        }
        self.last_hash = Some(current.hash.clone());
        let content = ClipboardContent {
            content_type: if current.image_data.is_some() {
                "image".to_string()
            } else {
                "text".to_string()
            },
            text: current.text,
            image_data: current.image_data,
            content_hash: current.hash,
        };
        proof {
            reveal_strlit("text");
            reveal_strlit("image");
            is_ascii_chars_encode_utf8("text"@);
            is_ascii_chars_encode_utf8("image"@);
        }
        let size: u128 = content.payload_size() + 100;
        if size > payload_limit_bytes as u128 {
            return WatchOutcome::TooLarge(notice::too_large_notice(size, payload_limit_bytes));
        }
        WatchOutcome::Changed(content)
    }
}

/// What to put on the clipboard.
pub enum ClipboardWrite {
    /// Nothing: the content lacks the part that its type names.
    Nothing,
    Text(String),
    Image(RgbaImage),
}

/// What to put on the clipboard, as a mathematical value.
pub enum WriteView {
    Nothing,
    Text(Seq<char>),
    Image(ImageView),
}

impl View for ClipboardWrite {
    type V = WriteView;

    open spec fn view(&self) -> WriteView {
        match self {
            ClipboardWrite::Nothing => WriteView::Nothing,
            ClipboardWrite::Text(t) => WriteView::Text(t@),
            ClipboardWrite::Image(image) => WriteView::Image(image@),
        }
    }
}

/// What to put on the clipboard for an item, or the text of the error.
pub open spec fn planned(item: codec::Item) -> Result<WriteView, Seq<char>> {
    if item.content_type == "text"@ {
        match item.text {
            Some(t) => Ok(WriteView::Text(t)),
            None => Ok(WriteView::Nothing),
        }
    } else if item.content_type == "image"@ {
        match item.image_data {
            Some(d) => if d.len() < 8 {
                Err("Image data too short"@)
            } else {
                Ok(WriteView::Image(contained_image(d)))
            },
            None => Ok(WriteView::Nothing),
        }
    } else {
        Err("Unknown content type: "@ + item.content_type)
    }
}

/// Says what to put on the clipboard for content that arrived.
pub fn plan_write(content: &ClipboardContent) -> (result: Result<ClipboardWrite, String>)
    ensures
        match result {
            Ok(write) => planned(content@) == Ok::<_, Seq<char>>(write@),
            Err(text) => planned(content@) == Err::<WriteView, _>(text@),
        },
{
    if text::same_text(content.content_type.as_str(), "text") {
        match &content.text {
            Some(t) => Ok(ClipboardWrite::Text(t.clone())),
            None => Ok(ClipboardWrite::Nothing),
        }
    } else if text::same_text(content.content_type.as_str(), "image") {
        match &content.image_data {
            Some(d) => match decode_image_data(d.as_slice()) {
                Ok(image) => Ok(ClipboardWrite::Image(image)),
                Err(text) => Err(text),
            },
            None => Ok(ClipboardWrite::Nothing),
        }
    } else {
        Err(text::joined("Unknown content type: ", content.content_type.as_str()))
    }
}

/// What one clipboard holds is what another is given: of the item that stands
/// for a text and an image by a priority, the text or the image that the priority
/// picks is put on the other clipboard as it was, as long as the width and the
/// height of the image fit in 32 bits. An empty choice puts nothing there.
pub proof fn law_item_lands(
    text: Option<Seq<char>>,
    image: Option<ImageView>,
    priority: ClipboardPriority,
)
    requires
        image matches Some(shown) ==> 0 <= shown.width <= u32::MAX && 0 <= shown.height <= u32::MAX,
    ensures
        ({
            let choice = selected(text, container_of(image), priority);
            planned(clipboard_item(text, image, priority)) == Ok::<_, Seq<char>>(
                if choice.1 is Some {
                    WriteView::Image(image.unwrap())
                } else if choice.0 is Some {
                    WriteView::Text(text.unwrap())
                } else {
                    WriteView::Nothing
                },
            )
        }),
{
    reveal_strlit("text");
    reveal_strlit("image");
    assert("text"@.len() != "image"@.len());
    if image is Some {
        law_image_round_trip(image.unwrap());
    }
}

/// What the hash of content is the digest of: all of its text behind `text:`, all
/// of its image behind `image:`, the text first where both are there, and `empty`
/// where there is neither.
pub proof fn law_hash_digests_all(text: Seq<char>, image_data: Seq<u8>)
    ensures
        hash_of(Some(text), None) == crypto::hex_lower(
            crypto::sha256(encode_utf8("text:"@) + encode_utf8(text)),
        ),
        hash_of(None, Some(image_data)) == crypto::hex_lower(
            crypto::sha256(encode_utf8("image:"@) + image_data),
        ),
        hash_of(Some(text), Some(image_data)) == crypto::hex_lower(
            crypto::sha256(
                encode_utf8("text:"@) + encode_utf8(text) + encode_utf8("image:"@) + image_data,
            ),
        ),
        hash_of(None, None) == crypto::hex_lower(crypto::sha256(encode_utf8("empty"@))),
{
    assert(hash_input(Some(text), None) =~= encode_utf8("text:"@) + encode_utf8(text));
    assert(hash_input(None, Some(image_data)) =~= encode_utf8("image:"@) + image_data);
    assert(hash_input(Some(text), Some(image_data)) =~= encode_utf8("text:"@) + encode_utf8(text)
        + encode_utf8("image:"@) + image_data);
}

/// Different contents have different hashes, unless SHA-256 has one digest for two
/// byte strings: whoever finds two contents of at most one format with the same hash
/// has found two different byte strings with the same digest. So every change of a
/// text or an image, wherever in it, is found by its hash.
pub proof fn law_hash_tells_contents_apart(
    text_a: Option<Seq<char>>,
    image_a: Option<Seq<u8>>,
    text_b: Option<Seq<char>>,
    image_b: Option<Seq<u8>>,
)
    requires
        text_a is None || image_a is None,
        text_b is None || image_b is None,
        text_a != text_b || image_a != image_b,
        hash_of(text_a, image_a) == hash_of(text_b, image_b),
    ensures
        exists|x: Seq<u8>, y: Seq<u8>|
            x != y && #[trigger] crypto::sha256(x) == #[trigger] crypto::sha256(y),
{
    let x = hash_input(text_a, image_a);
    let y = hash_input(text_b, image_b);
    crypto::lemma_hex_injective(crypto::sha256(x), crypto::sha256(y));
    if x == y {
        law_hash_input_injective(text_a, image_a, text_b, image_b);
    }
    assert(x != y && crypto::sha256(x) == crypto::sha256(y));
}

/// What each priority picks of what the clipboard holds, and the name it goes by.
/// Images first: an image that is there, with or without text, and else the text.
/// Text first: the other way round. One of them only: that one, if it is there.
pub proof fn law_priority_picks(text: Option<Seq<char>>, image_data: Option<Seq<u8>>)
    ensures
        image_data is Some ==> selected(text, image_data, ClipboardPriority::ImageFirst) == (
            None::<Seq<char>>,
            image_data,
            "image"@,
        ),
        image_data is None && text is Some ==> selected(
            text,
            image_data,
            ClipboardPriority::ImageFirst,
        ) == (text, None::<Seq<u8>>, "text"@),
        text is Some ==> selected(text, image_data, ClipboardPriority::TextFirst) == (
            text,
            None::<Seq<u8>>,
            "text"@,
        ),
        text is None && image_data is Some ==> selected(
            text,
            image_data,
            ClipboardPriority::TextFirst,
        ) == (None::<Seq<char>>, image_data, "image"@),
        selected(text, image_data, ClipboardPriority::TextOnly) == (
            text,
            None::<Seq<u8>>,
            "text"@,
        ),
        image_data is Some ==> selected(text, image_data, ClipboardPriority::ImageOnly) == (
            None::<Seq<char>>,
            image_data,
            "image"@,
        ),
        image_data is None ==> selected(text, image_data, ClipboardPriority::ImageOnly) == (
            None::<Seq<char>>,
            None::<Seq<u8>>,
            "none"@,
        ),
        text is None && image_data is None ==> selected(
            text,
            image_data,
            ClipboardPriority::ImageFirst,
        ) == (None::<Seq<char>>, None::<Seq<u8>>, "none"@) && selected(
            text,
            image_data,
            ClipboardPriority::TextFirst,
        ) == (None::<Seq<char>>, None::<Seq<u8>>, "none"@),
{
}

/// The container of an image: the low 32 bits of the width and of the height, the
/// high byte first, and then every pixel. An image without pixels has none.
pub proof fn law_container_layout(image: ImageView)
    requires
        image.width >= 0,
        image.height >= 0,
    ensures
        container_of(None) is None,
        image.pixels.len() == 0 ==> container_of(Some(image)) is None,
        image.pixels.len() > 0 ==> {
            let data = container_of(Some(image)).unwrap();
            &&& container_of(Some(image)) is Some
            &&& data == image_container(image)
            &&& data.len() == 8 + image.pixels.len()
            &&& data[0] * 16_777_216 + data[1] * 65_536 + data[2] * 256 + data[3] == image.width
                % 4_294_967_296
            &&& data[4] * 16_777_216 + data[5] * 65_536 + data[6] * 256 + data[7] == image.height
                % 4_294_967_296
            &&& forall|i: int| 0 <= i < image.pixels.len() ==> data[8 + i] == #[trigger] image.pixels[i]
        },
{
    lemma_big_endian_low_bits(image.width);
    lemma_big_endian_low_bits(image.height);
    let data = image_container(image);
    assert(data.subrange(0, 4) =~= big_endian(image.width));
    assert(data.subrange(4, 8) =~= big_endian(image.height));
    assert(data[0] == big_endian(image.width)[0]);
    assert(data[1] == big_endian(image.width)[1]);
    assert(data[2] == big_endian(image.width)[2]);
    assert(data[3] == big_endian(image.width)[3]);
    assert(data[4] == big_endian(image.height)[0]);
    assert(data[5] == big_endian(image.height)[1]);
    assert(data[6] == big_endian(image.height)[2]);
    assert(data[7] == big_endian(image.height)[3]);
}

/// Four bytes hold the low 32 bits of a number.
proof fn lemma_big_endian_low_bits(n: int)
    requires
        n >= 0,
    ensures
        ({
            let b = big_endian(n);
            b[0] * 16_777_216 + b[1] * 65_536 + b[2] * 256 + b[3] == n % 4_294_967_296
        }),
{
    let a = n / 256;
    let b = a / 256;
    let c = b / 256;
    let d = c / 256;
    assert(n / 0x1_0000 == b);
    assert(n / 0x100_0000 == c);
    assert(n == d * 4_294_967_296 + (c % 256) * 16_777_216 + (b % 256) * 65_536 + (a % 256) * 256
        + n % 256);
}

/// The image of a container has the width and the height that the first eight bytes
/// hold, the high byte first, and all bytes behind them as pixels.
pub proof fn law_contained_image(data: Seq<u8>)
    requires
        data.len() >= 8,
    ensures
        contained_image(data).width == data[0] * 16_777_216 + data[1] * 65_536 + data[2] * 256
            + data[3],
        contained_image(data).height == data[4] * 16_777_216 + data[5] * 65_536 + data[6] * 256
            + data[7],
        contained_image(data).pixels.len() == data.len() - 8,
        forall|i: int|
            0 <= i < data.len() - 8 ==> #[trigger] contained_image(data).pixels[i] == data[8 + i],
{
}

/// The size of an item is the number of bytes of its text, in UTF-8, and of its
/// image.
pub proof fn law_payload_bytes(item: codec::Item)
    ensures
        item.payload_bytes() == (match item.text {
            Some(t) => encode_utf8(t).len(),
            None => 0,
        }) + (match item.image_data {
            Some(d) => d.len(),
            None => 0,
        }),
{
}

/// An item fits in MessagePack where the length of each field fits in 32 bits.
pub proof fn law_fits(item: codec::Item)
    ensures
        item.fits() <==> {
            &&& encode_utf8(item.content_type).len() <= 4_294_967_295
            &&& item.text is Some ==> encode_utf8(item.text.unwrap()).len() <= 4_294_967_295
            &&& item.image_data is Some ==> item.image_data.unwrap().len() <= 4_294_967_295
            &&& encode_utf8(item.content_hash).len() <= 4_294_967_295
        },
{
}

/// Content that is read has the four fields that MessagePack holds, and content
/// that cannot be read gives the error of MessagePack.
pub proof fn law_unpacked(payload: Seq<u8>)
    ensures
        match codec::unpacked_item(payload) {
            Ok(fields) => unpacked(payload) == Ok::<_, Seq<char>>(
                codec::Item {
                    content_type: fields.0,
                    text: fields.1,
                    image_data: fields.2,
                    content_hash: fields.3,
                },
            ),
            Err(text) => unpacked(payload) == Err::<codec::Item, _>(text),
        },
{
}

/// What is written for content that arrived: the text of a text and the image of an
/// image, whatever their sizes; nothing where that part is missing; and an error for
/// an image of fewer than eight bytes and for any other type.
pub proof fn law_planned(item: codec::Item)
    ensures
        item.content_type == "text"@ && item.text is Some ==> planned(item) == Ok::<_, Seq<char>>(
            WriteView::Text(item.text.unwrap()),
        ),
        item.content_type == "text"@ && item.text is None ==> planned(item) == Ok::<_, Seq<char>>(
            WriteView::Nothing,
        ),
        item.content_type == "image"@ && item.image_data is None ==> planned(item) == Ok::<
            _,
            Seq<char>,
        >(WriteView::Nothing),
        item.content_type == "image"@ && item.image_data is Some ==> {
            let data = item.image_data.unwrap();
            &&& data.len() < 8 ==> planned(item) == Err::<WriteView, _>("Image data too short"@)
            &&& data.len() >= 8 ==> planned(item) == Ok::<_, Seq<char>>(
                WriteView::Image(
                    ImageView {
                        width: data[0] * 16_777_216 + data[1] * 65_536 + data[2] * 256 + data[3],
                        height: data[4] * 16_777_216 + data[5] * 65_536 + data[6] * 256 + data[7],
                        pixels: data.skip(8),
                    },
                ),
            )
        },
        item.content_type != "text"@ && item.content_type != "image"@ ==> planned(item) == Err::<
            WriteView,
            _,
        >("Unknown content type: "@ + item.content_type),
{
    reveal_strlit("text");
    reveal_strlit("image");
    assert("text"@.len() != "image"@.len());
    if item.image_data is Some && item.image_data.unwrap().len() >= 8 {
        let data = item.image_data.unwrap();
        law_contained_image(data);
        assert(contained_image(data).pixels =~= data.skip(8));
    }
}

/// The item of what the clipboard holds: the image or the text that the priority
/// picks, under its type and with the digest of all of it as its hash. Where nothing
/// is picked it is an empty text.
pub proof fn law_clipboard_item(
    text: Option<Seq<char>>,
    image: Option<ImageView>,
    priority: ClipboardPriority,
)
    ensures
        ({
            let item = clipboard_item(text, image, priority);
            let shown = image is Some && image.unwrap().pixels.len() > 0;
            let picks_image = shown && match priority {
                ClipboardPriority::ImageFirst => true,
                ClipboardPriority::TextFirst => text is None,
                ClipboardPriority::TextOnly => false,
                ClipboardPriority::ImageOnly => true,
            };
            let picks_text = text is Some && match priority {
                ClipboardPriority::ImageFirst => !shown,
                ClipboardPriority::TextFirst => true,
                ClipboardPriority::TextOnly => true,
                ClipboardPriority::ImageOnly => false,
            };
            &&& picks_image ==> {
                &&& item.content_type == "image"@
                &&& item.text is None
                &&& item.image_data == Some(image_container(image.unwrap()))
                &&& item.content_hash == crypto::hex_lower(
                    crypto::sha256(encode_utf8("image:"@) + image_container(image.unwrap())),
                )
            }
            &&& picks_text ==> {
                &&& item.content_type == "text"@
                &&& item.text == text
                &&& item.image_data is None
                &&& item.content_hash == crypto::hex_lower(
                    crypto::sha256(encode_utf8("text:"@) + encode_utf8(text.unwrap())),
                )
            }
            &&& !picks_image && !picks_text ==> {
                &&& item.content_type == "text"@
                &&& item.text is None
                &&& item.image_data is None
                &&& item.content_hash == crypto::hex_lower(crypto::sha256(encode_utf8("empty"@)))
            }
        }),
{
    let container = container_of(image);
    law_priority_picks(text, container);
    if text is Some {
        law_hash_digests_all(text.unwrap(), Seq::empty());
    }
    if container is Some {
        law_hash_digests_all(Seq::empty(), container.unwrap());
    }
    law_hash_digests_all(Seq::empty(), Seq::empty());
}

/// What one clipboard holds is what another is given, by what is there: the image
/// or the text that the priority picks is written as it was, and nothing where there
/// is nothing to pick, as long as the width and the height fit in 32 bits.
pub proof fn law_what_lands(
    text: Option<Seq<char>>,
    image: Option<ImageView>,
    priority: ClipboardPriority,
)
    requires
        image matches Some(shown) ==> 0 <= shown.width <= u32::MAX && 0 <= shown.height <= u32::MAX,
    ensures
        ({
            let written = planned(clipboard_item(text, image, priority));
            let shown = image is Some && image.unwrap().pixels.len() > 0;
            let picks_image = shown && match priority {
                ClipboardPriority::ImageFirst => true,
                ClipboardPriority::TextFirst => text is None,
                ClipboardPriority::TextOnly => false,
                ClipboardPriority::ImageOnly => true,
            };
            let picks_text = text is Some && match priority {
                ClipboardPriority::ImageFirst => !shown,
                ClipboardPriority::TextFirst => true,
                ClipboardPriority::TextOnly => true,
                ClipboardPriority::ImageOnly => false,
            };
            &&& picks_image ==> written == Ok::<_, Seq<char>>(WriteView::Image(image.unwrap()))
            &&& picks_text ==> written == Ok::<_, Seq<char>>(WriteView::Text(text.unwrap()))
            &&& !picks_image && !picks_text ==> written == Ok::<_, Seq<char>>(WriteView::Nothing)
        }),
{
    law_priority_picks(text, container_of(image));
    law_item_lands(text, image, priority);
}

/// Content stands for its four fields, each as a whole; borrowed text and bytes, and
/// an image, stand for all that they hold.
pub proof fn law_content_views(content: ClipboardContent, text: &str, bytes: &[u8], image: RgbaImage)
    ensures
        content@.content_type == content.content_type@,
        content@.text is Some <==> content.text is Some,
        content.text is Some ==> content@.text.unwrap() == content.text.unwrap()@,
        content@.image_data is Some <==> content.image_data is Some,
        content.image_data is Some ==> content@.image_data.unwrap() == content.image_data.unwrap()@,
        content@.content_hash == content.content_hash@,
        str_view(Some(text)) == Some(text@),
        str_view(None) is None,
        slice_view(Some(bytes)) == Some(bytes@),
        slice_view(None) is None,
        image@.width == image.width,
        image@.height == image.height,
        image@.pixels == image.bytes@,
        image_view(Some(image)) == Some(image@),
        image_view(None) is None,
{
}

/// What is written stands for the text or the image, or for nothing.
pub proof fn law_write_view(write: ClipboardWrite)
    ensures
        write is Nothing <==> write@ is Nothing,
        write matches ClipboardWrite::Text(text) ==> write@ == WriteView::Text(text@),
        write matches ClipboardWrite::Image(image) ==> write@ == WriteView::Image(image@),
{
}

/// A look finds no change just if the hash is that of the last look. Otherwise the
/// content is handed over as it is, if its bytes and a hundred more are within the
/// limit, and a notice is shown if they are not.
pub proof fn law_watched(last: Option<Seq<char>>, item: codec::Item, limit: u64)
    ensures
        ({
            let seen = watched(last, item, limit);
            let text_size: nat = match item.text {
                Some(t) => encode_utf8(t).len(),
                None => 0,
            };
            let image_size: nat = match item.image_data {
                Some(d) => d.len(),
                None => 0,
            };
            &&& seen is Unchanged <==> last is Some && last.unwrap() == item.content_hash
            &&& seen is Changed ==> seen == WatchView::Changed(item)
            &&& !(seen is Unchanged) ==> (seen is Changed <==> text_size + image_size + 100
                <= limit)
            &&& seen matches WatchView::TooLarge(title, body) ==> title == "ClipSync"@ && body
                == notice::too_large_body(text_size + image_size + 100, limit as nat)
        }),
{
}

/// Two looks at what a clipboard holds: the second finds no change where the priority
/// picks the same content both times, and finds every other, unless SHA-256 has one
/// digest for two byte strings.
pub proof fn law_two_looks(
    first: (Option<Seq<char>>, Option<ImageView>),
    second: (Option<Seq<char>>, Option<ImageView>),
    priority: ClipboardPriority,
    limit: u64,
)
    ensures
        ({
            let a = clipboard_item(first.0, first.1, priority);
            let b = clipboard_item(second.0, second.1, priority);
            let seen = watched(Some(a.content_hash), b, limit);
            &&& a.text == b.text && a.image_data == b.image_data ==> seen is Unchanged
            &&& a.text != b.text || a.image_data != b.image_data ==> !(seen is Unchanged) || exists|
                x: Seq<u8>,
                y: Seq<u8>,
            | x != y && #[trigger] crypto::sha256(x) == #[trigger] crypto::sha256(y)
        }),
{
    let a = clipboard_item(first.0, first.1, priority);
    let b = clipboard_item(second.0, second.1, priority);
    law_priority_picks(first.0, container_of(first.1));
    law_priority_picks(second.0, container_of(second.1));
    if (a.text != b.text || a.image_data != b.image_data) && a.content_hash == b.content_hash {
        law_hash_tells_contents_apart(a.text, a.image_data, b.text, b.image_data);
    }
}

/// A look stands for the content, the notice or neither.
pub proof fn law_watch_view(outcome: WatchOutcome)
    ensures
        outcome is Unchanged <==> outcome@ is Unchanged,
        outcome matches WatchOutcome::TooLarge(shown) ==> outcome@ == WatchView::TooLarge(
            shown.title@,
            shown.body@,
        ),
        outcome matches WatchOutcome::Changed(content) ==> outcome@ == WatchView::Changed(content@),
{
}

} // verus!
