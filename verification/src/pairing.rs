//! Pairing: the six-digit code, the key derived from it, encryption and the
//! envelope of a message on the wire.
//!
//! A frame on the wire is a 12-byte nonce followed by the ciphertext with its
//! 16-byte tag. The plaintext is a message in MessagePack.
use vstd::prelude::*;
use vstd::slice::*;
use vstd::string::*;
use vstd::utf8::*;

use crate::codec;
use crate::config;
use crate::config::PeerInfo;
use crate::crypto;
use crate::random;
use crate::text;

verus! {

/// Six decimal digits.
pub open spec fn valid_code(code: Seq<char>) -> bool {
    &&& code.len() == 6
    &&& forall|i: int| 0 <= i < 6 ==> '0' <= #[trigger] code[i] && code[i] <= '9'
}

/// A number below a million as six decimal digits.
pub open spec fn code_digits(n: int) -> Seq<char> {
    seq![
        text::digit_char(n / 100_000 % 10),
        text::digit_char(n / 10_000 % 10),
        text::digit_char(n / 1_000 % 10),
        text::digit_char(n / 100 % 10),
        text::digit_char(n / 10 % 10),
        text::digit_char(n % 10),
    ]
}

/// Writes a number below a million as a pairing code, with leading zeros.
pub fn pairing_code_text(n: u32) -> (code: String)
    requires
        n < 1_000_000,
    ensures
        code@ == code_digits(n as int),
        valid_code(code@),
{
    let n: u64 = n as u64;
    let mut code = text::digit_text(n / 100_000 % 10).to_string();
    code.append(text::digit_text(n / 10_000 % 10));
    code.append(text::digit_text(n / 1_000 % 10));
    code.append(text::digit_text(n / 100 % 10));
    code.append(text::digit_text(n / 10 % 10));
    code.append(text::digit_text(n % 10));
    proof {
        assert(code@ =~= code_digits(n as int));
    }
    code
}

/// Generates a random pairing code. Whatever the random number is, the code has
/// the form that [`is_valid_pairing_code`] asks for.
pub fn generate_pairing_code() -> (code: String)
    ensures
        valid_code(code@),
        exists|n: int| 0 <= n < 1_000_000 && code@ == #[trigger] code_digits(n),
{
    let n: u32 = random::random_below_million();
    pairing_code_text(n)
}

/// Whether a string has the form of a pairing code: six decimal digits.
pub fn is_valid_pairing_code(code: &str) -> (valid: bool)
    ensures
        valid == valid_code(code@),
{
    if !code.is_ascii() {
        return false;
    }
    broadcast use is_ascii_spec_bytes;

    let bytes = code.as_bytes();
    if bytes.len() != 6 {
        return false;
    }
    let mut i: usize = 0;
    while i < 6
        invariant
            i <= 6,
            is_ascii(code),
            code@.len() == 6,
            bytes@ =~= Seq::new(code@.len(), |j: int| code@[j] as u8),
            forall|j: int| 0 <= j < i ==> '0' <= #[trigger] code@[j] && code@[j] <= '9',
        decreases 6 - i,
    {
        assert(code@[i as int] as u8 == bytes@[i as int]);
        if bytes[i] < 48 || bytes[i] > 57 {
            return false;
        }
        i += 1;
    }
    true
}

/// The value of a decimal digit.
pub open spec fn digit_value(digit: char) -> int {
    digit as int - '0' as int
}

/// The number that a pairing code is.
pub open spec fn code_value(code: Seq<char>) -> int {
    digit_value(code[0]) * 100_000 + digit_value(code[1]) * 10_000 + digit_value(code[2]) * 1_000
        + digit_value(code[3]) * 100 + digit_value(code[4]) * 10 + digit_value(code[5])
}

/// The digits of a number below a million, the last one split off at a time.
proof fn lemma_split_digits(n: int)
    requires
        0 <= n,
    ensures
        n == n / 10 * 10 + n % 10,
        n / 100 == n / 10 / 10,
        n / 1_000 == n / 100 / 10,
        n / 10_000 == n / 1_000 / 10,
        n / 100_000 == n / 10_000 / 10,
{
}

/// A number with one more digit behind it.
proof fn lemma_appended_digit(high: int, digit: int)
    requires
        0 <= high,
        0 <= digit < 10,
    ensures
        (high * 10 + digit) / 10 == high,
        (high * 10 + digit) % 10 == digit,
{
}

proof fn lemma_code_of_number(n: int)
    requires
        0 <= n < 1_000_000,
    ensures
        valid_code(code_digits(n)),
        code_value(code_digits(n)) == n,
{
    lemma_split_digits(n);
    let code = code_digits(n);
    assert(digit_value(code[0]) == n / 100_000 % 10);
    assert(digit_value(code[1]) == n / 10_000 % 10);
    assert(digit_value(code[2]) == n / 1_000 % 10);
    assert(digit_value(code[3]) == n / 100 % 10);
    assert(digit_value(code[4]) == n / 10 % 10);
    assert(digit_value(code[5]) == n % 10);
    assert(n / 100_000 < 10);
}

proof fn lemma_number_of_code(code: Seq<char>)
    requires
        valid_code(code),
    ensures
        0 <= code_value(code) < 1_000_000,
        code_digits(code_value(code)) == code,
{
    let a = digit_value(code[0]);
    let b = a * 10 + digit_value(code[1]);
    let c = b * 10 + digit_value(code[2]);
    let d = c * 10 + digit_value(code[3]);
    let e = d * 10 + digit_value(code[4]);
    let f = e * 10 + digit_value(code[5]);
    lemma_appended_digit(a, digit_value(code[1]));
    lemma_appended_digit(b, digit_value(code[2]));
    lemma_appended_digit(c, digit_value(code[3]));
    lemma_appended_digit(d, digit_value(code[4]));
    lemma_appended_digit(e, digit_value(code[5]));
    assert(code_value(code) == f);
    lemma_split_digits(f);
    assert(code_digits(f) =~= code);
}

/// The numbers below a million and the valid pairing codes are in one-to-one
/// correspondence: every number has its own valid code, and every valid code can
/// be generated.
pub proof fn law_codes_are_numbers(n: int, code: Seq<char>)
    ensures
        0 <= n < 1_000_000 ==> valid_code(code_digits(n)) && code_value(code_digits(n)) == n,
        valid_code(code) ==> 0 <= code_value(code) < 1_000_000 && code_digits(code_value(code))
            == code,
{
    if 0 <= n < 1_000_000 {
        lemma_code_of_number(n);
    }
    if valid_code(code) {
        lemma_number_of_code(code);
    }
}

/// The salt that sets ClipSync's keys apart from others.
pub open spec fn hkdf_salt() -> Seq<u8> {
    text::utf8("clipsync-pairing-v1"@)
}

/// The key that a pairing code stands for.
pub open spec fn key_of_code(code: Seq<char>) -> Seq<u8> {
    crypto::hkdf_sha256(hkdf_salt(), text::utf8(code), Seq::empty(), crypto::KEY_SIZE as nat)
}

/// Derives the symmetric key from a pairing code, with HKDF-SHA256 and an empty
/// info string.
pub fn derive_key(pairing_code: &str) -> (key: [u8; crypto::KEY_SIZE])
    ensures
        key@ == key_of_code(pairing_code@),
{
    let no_info: Vec<u8> = Vec::new();
    crypto::hkdf_sha256_key(
        "clipsync-pairing-v1".as_bytes(),
        pairing_code.as_bytes(),
        no_info.as_slice(),
    )
}

/// The wire frame of a plaintext: the nonce, then the ciphertext.
pub open spec fn frame(key: Seq<u8>, nonce: Seq<u8>, plaintext: Seq<u8>) -> Seq<u8> {
    nonce + crypto::sealed(key, nonce, plaintext)
}

/// What comes out of a wire frame under a key: the plaintext, or the text of the
/// error.
pub open spec fn decrypted(key: Seq<u8>, wire_data: Seq<u8>) -> Result<Seq<u8>, Seq<char>> {
    if wire_data.len() < crypto::NONCE_SIZE + crypto::TAG_SIZE {
        Err("Wire data too short for decryption"@)
    } else if wire_data.len() > crypto::NONCE_SIZE + crypto::MAX_PLAINTEXT + crypto::TAG_SIZE {
        Err("Decryption error: "@ + "aead::Error"@)
    } else {
        let nonce = wire_data.subrange(0, crypto::NONCE_SIZE as int);
        let ciphertext = wire_data.subrange(crypto::NONCE_SIZE as int, wire_data.len() as int);
        match crypto::opened(key, nonce, ciphertext) {
            Some(plaintext) => Ok(plaintext),
            None => Err("Decryption error: "@ + "aead::Error"@),
        }
    }
}

/// Encrypts and decrypts wire frames under one key.
pub struct Cipher {
    key: [u8; crypto::KEY_SIZE],
}

impl View for Cipher {
    type V = Seq<u8>;

    /// The key.
    closed spec fn view(&self) -> Seq<u8> {
        self.key@
    }
}

impl Cipher {
    /// The cipher of a pairing code. Equal codes give equal keys.
    pub fn from_pairing_code(code: &str) -> (cipher: Self)
        ensures
            cipher@ == key_of_code(code@),
    {
        let key = derive_key(code);
        Cipher::from_key(&key)
    }

    /// The cipher of a raw key.
    pub fn from_key(key: &[u8; crypto::KEY_SIZE]) -> (cipher: Self)
        ensures
            cipher@ == key@,
    {
        Cipher { key: *key }
    }

    /// A second cipher with the same key.
    pub fn duplicate(&self) -> (cipher: Self)
        ensures
            cipher@ == self@,
    {
        Cipher { key: self.key }
    }

    /// Encrypts a plaintext under a given nonce. The frame decrypts to the
    /// plaintext again.
    pub fn encrypt_with_nonce(&self, nonce: &[u8; crypto::NONCE_SIZE], plaintext: &[u8]) -> (result:
        Result<Vec<u8>, String>)
        ensures
            match result {
                Ok(wire_data) => {
                    &&& crypto::sealable(plaintext@.len())
                    &&& wire_data@ == frame(self@, nonce@, plaintext@)
                    &&& wire_data@.len() == crypto::NONCE_SIZE + plaintext@.len() + crypto::TAG_SIZE
                    &&& decrypted(self@, wire_data@) == Ok::<_, Seq<char>>(plaintext@)
                },
                Err(text) => {
                    &&& !crypto::sealable(plaintext@.len())
                    &&& text@ == "Encryption error: "@ + "aead::Error"@
                },
            },
    {
        if plaintext.len() as u64 > crypto::MAX_PLAINTEXT {
            return Err(text::joined("Encryption error: ", "aead::Error"));
        }
        match crypto::seal(&self.key, nonce, plaintext) {
            Ok(ciphertext) => {
                let mut wire_data: Vec<u8> = Vec::new();
                wire_data.extend_from_slice(nonce.as_slice());
                wire_data.extend_from_slice(ciphertext.as_slice());
                proof {
                    assert(wire_data@ =~= frame(self@, nonce@, plaintext@));
                    assert(wire_data@.subrange(0, crypto::NONCE_SIZE as int) =~= nonce@);
                    assert(wire_data@.subrange(
                        crypto::NONCE_SIZE as int,
                        wire_data@.len() as int,
                    ) =~= ciphertext@);
                }
                Ok(wire_data)
            },
            Err(text) => Err(text::joined("Encryption error: ", text.as_str())),
        }
    }

    /// Encrypts a plaintext under a random nonce, which the frame starts with.
    /// Whatever the nonce is, the frame decrypts to the plaintext again.
    pub fn encrypt(&self, plaintext: &[u8]) -> (result: Result<Vec<u8>, String>)
        ensures
            match result {
                Ok(wire_data) => {
                    &&& crypto::sealable(plaintext@.len())
                    &&& wire_data@.len() == crypto::NONCE_SIZE + plaintext@.len() + crypto::TAG_SIZE
                    &&& wire_data@ == frame(
                        self@,
                        wire_data@.subrange(0, crypto::NONCE_SIZE as int),
                        plaintext@,
                    )
                    &&& decrypted(self@, wire_data@) == Ok::<_, Seq<char>>(plaintext@)
                },
                Err(text) => {
                    &&& !crypto::sealable(plaintext@.len())
                    &&& text@ == "Encryption error: "@ + "aead::Error"@
                },
            },
    {
        let nonce = crypto::random_nonce();
        let result = self.encrypt_with_nonce(&nonce, plaintext);
        proof {
            if result is Ok {
                assert(result->Ok_0@.subrange(0, crypto::NONCE_SIZE as int) =~= nonce@);
            }
        }
        result
    }

    /// Decrypts a frame. It gives a plaintext only for a frame that encrypting
    /// this plaintext under the same key and the frame's nonce gives.
    pub fn decrypt(&self, wire_data: &[u8]) -> (result: Result<Vec<u8>, String>)
        ensures
            match result {
                Ok(plaintext) => {
                    &&& decrypted(self@, wire_data@) == Ok::<_, Seq<char>>(plaintext@)
                    &&& wire_data@ == frame(
                        self@,
                        wire_data@.subrange(0, crypto::NONCE_SIZE as int),
                        plaintext@,
                    )
                    &&& wire_data@.len() == crypto::NONCE_SIZE + plaintext@.len() + crypto::TAG_SIZE
                    &&& crypto::sealable(plaintext@.len())
                },
                Err(text) => decrypted(self@, wire_data@) == Err::<Seq<u8>, _>(text@),
            },
    {
        if wire_data.len() < crypto::NONCE_SIZE + crypto::TAG_SIZE {
            return Err("Wire data too short for decryption".to_string());
        }
        if (wire_data.len() - crypto::NONCE_SIZE - crypto::TAG_SIZE) as u64 > crypto::MAX_PLAINTEXT {
            return Err(text::joined("Decryption error: ", "aead::Error"));
        }
        let mut nonce: [u8; crypto::NONCE_SIZE] = [0u8; crypto::NONCE_SIZE];
        let mut i: usize = 0;
        while i < crypto::NONCE_SIZE
            invariant
                i <= crypto::NONCE_SIZE,
                nonce@.len() == crypto::NONCE_SIZE,
                wire_data@.len() >= crypto::NONCE_SIZE,
                forall|j: int| 0 <= j < i ==> nonce@[j] == wire_data@[j],
            decreases crypto::NONCE_SIZE - i,
        {
            nonce[i] = wire_data[i];
            i += 1;
        }
        proof {
            assert(nonce@ =~= wire_data@.subrange(0, crypto::NONCE_SIZE as int));
        }
        let ciphertext = slice_subrange(wire_data, crypto::NONCE_SIZE, wire_data.len());
        match crypto::open(&self.key, &nonce, ciphertext) {
            Ok(plaintext) => {
                proof {
                    assert(wire_data@ =~= nonce@ + ciphertext@);
                }
                Ok(plaintext)
            },
            Err(text) => Err(text::joined("Decryption error: ", text.as_str())),
        }
    }
}

/// The envelope of a message on the wire.
#[derive(Debug)]
pub struct WireMessage {
    /// What kind of message this is.
    pub msg_type: String,
    /// The message itself, in the form that its type asks for.
    pub payload: Vec<u8>,
}

impl View for WireMessage {
    type V = (Seq<char>, Seq<u8>);

    open spec fn view(&self) -> (Seq<char>, Seq<u8>) {
        (self.msg_type@, self.payload@)
    }
}

impl Clone for WireMessage {
    fn clone(&self) -> (message: Self)
        ensures
            message@ == self@,
    {
        WireMessage {
            msg_type: self.msg_type.clone(),
            payload: slice_to_vec(self.payload.as_slice()),
        }
    }
}

/// What comes out of a wire frame under a key: the message, or the text of the
/// error.
pub open spec fn received(key: Seq<u8>, wire_data: Seq<u8>) -> Result<
    (Seq<char>, Seq<u8>),
    Seq<char>,
> {
    match decrypted(key, wire_data) {
        Err(text) => Err(text),
        Ok(plaintext) => match codec::unpacked_message(plaintext) {
            Ok(message) => Ok(message),
            Err(text) => Err("MessagePack deserialize error: "@ + text),
        },
    }
}

/// A frame is what encrypting a message under a key and the frame's nonce gives.
pub open spec fn is_sealed(key: Seq<u8>, data: Seq<u8>, message: (Seq<char>, Seq<u8>)) -> bool {
    exists|plaintext: Seq<u8>|
        data == #[trigger] frame(key, data.subrange(0, crypto::NONCE_SIZE as int), plaintext)
            && codec::unpacked_message(plaintext) == Ok::<_, Seq<char>>(message)
}

/// Encrypts a message that was serialized, or passes on why it was not.
pub fn encrypt_serialized(serialized: Result<Vec<u8>, String>, cipher: &Cipher) -> (result: Result<
    Vec<u8>,
    String,
>)
    ensures
        match (serialized, result) {
            (Ok(plaintext), Ok(wire_data)) => {
                &&& crypto::sealable(plaintext@.len())
                &&& wire_data@.len() == crypto::NONCE_SIZE + plaintext@.len() + crypto::TAG_SIZE
                &&& wire_data@ == frame(
                    cipher@,
                    wire_data@.subrange(0, crypto::NONCE_SIZE as int),
                    plaintext@,
                )
                &&& decrypted(cipher@, wire_data@) == Ok::<_, Seq<char>>(plaintext@)
            },
            (Ok(plaintext), Err(text)) => {
                &&& !crypto::sealable(plaintext@.len())
                &&& text@ == "Encryption error: "@ + "aead::Error"@
            },
            (Err(cause), Ok(_)) => false,
            (Err(cause), Err(text)) => text@ == "MessagePack serialize error: "@ + cause@,
        },
{
    match serialized {
        Ok(plaintext) => cipher.encrypt(plaintext.as_slice()),
        Err(cause) => Err(text::joined("MessagePack serialize error: ", cause.as_str())),
    }
}

impl WireMessage {
    /// A message of a type.
    pub fn new(msg_type: &str, payload: Vec<u8>) -> (message: Self)
        ensures
            message@ == (msg_type@, payload@),
    {
        WireMessage { msg_type: msg_type.to_string(), payload }
    }

    /// Both fields fit in the array and the string of MessagePack.
    pub open spec fn fits(&self) -> bool {
        &&& text::utf8(self.msg_type@).len() <= codec::max_length()
        &&& self.payload@.len() <= codec::max_length()
    }

    /// Serializes the message to MessagePack and encrypts it. The receiver with
    /// the same key gets the message back of the frame. Without memory for the
    /// serialized message there is no frame.
    pub fn to_encrypted(&self, cipher: &Cipher) -> (result: Result<Vec<u8>, String>)
        requires
            self.payload@.len() <= codec::max_length(),
        ensures
            match result {
                Ok(wire_data) => {
                    &&& crypto::sealable(
                        codec::packed_message(self.msg_type@, self.payload@).len(),
                    )
                    &&& wire_data@ == frame(
                        cipher@,
                        wire_data@.subrange(0, crypto::NONCE_SIZE as int),
                        codec::packed_message(self.msg_type@, self.payload@),
                    )
                    &&& decrypted(cipher@, wire_data@) == Ok::<_, Seq<char>>(
                        codec::packed_message(self.msg_type@, self.payload@),
                    )
                    &&& self.fits() ==> {
                        &&& wire_data@.len() == crypto::NONCE_SIZE + codec::message_length(
                            self.msg_type@,
                            self.payload@,
                        ) + crypto::TAG_SIZE
                        &&& received(cipher@, wire_data@) == Ok::<_, Seq<char>>(self@)
                    }
                },
                Err(text) => {
                    ||| {
                        &&& !self.fits()
                        &&& !crypto::sealable(
                            codec::packed_message(self.msg_type@, self.payload@).len(),
                        )
                        &&& text@ == "Encryption error: "@ + "aead::Error"@
                    }
                    ||| exists|cause: Seq<char>|
                        text@ == #[trigger] ("MessagePack serialize error: "@ + cause)
                },
            },
    {
        proof {
            self.payload@.lemma_filter_len(|byte: u8| byte >= 128);
        }
        let serialized = codec::pack_message(self.msg_type.as_str(), self.payload.as_slice());
        encrypt_serialized(serialized, cipher)
    }

    /// Decrypts a frame and reads the message in it. It gives a message only for a
    /// frame that was encrypted under the same key.
    pub fn from_encrypted(data: &[u8], cipher: &Cipher) -> (result: Result<Self, String>)
        ensures
            match result {
                Ok(message) => {
                    &&& received(cipher@, data@) == Ok::<_, Seq<char>>(message@)
                    &&& is_sealed(cipher@, data@, message@)
                },
                Err(text) => received(cipher@, data@) == Err::<(Seq<char>, Seq<u8>), _>(text@),
            },
    {
        match cipher.decrypt(data) {
            Err(text) => Err(text),
            Ok(plaintext) => match codec::unpack_message(plaintext.as_slice()) {
                Ok(message) => Ok(WireMessage { msg_type: message.0, payload: message.1 }),
                Err(text) => Err(text::joined("MessagePack deserialize error: ", text.as_str())),
            },
        }
    }
}

/// Whether a peer is in the list of paired peers.
pub fn is_peer_allowed(peers: &[PeerInfo], peer_id: &str) -> (allowed: bool)
    ensures
        allowed == config::is_listed(config::peers_view(peers@), peer_id@),
{
    proof {
        config::lemma_position(config::peers_view(peers@), peer_id@);
    }
    config::peer_index(peers, peer_id) < peers.len()
}

/// Finds the first peer with an ID, to change it.
pub fn find_peer_mut<'a>(peers: &'a mut [PeerInfo], peer_id: &str) -> (found: Option<
    &'a mut PeerInfo,
>)
    ensures
        match found {
            Some(peer) => {
                let i = config::position(config::peers_view(old(peers)@), peer_id@);
                &&& 0 <= i < old(peers)@.len()
                &&& *peer == old(peers)@[i]
                &&& peer@.id == peer_id@
                &&& final(peers)@ == old(peers)@.update(i, *final(peer))
            },
            None => {
                &&& !config::is_listed(config::peers_view(old(peers)@), peer_id@)
                &&& final(peers)@ == old(peers)@
            },
        },
{
    proof {
        config::lemma_position(config::peers_view(peers@), peer_id@);
    }
    let i: usize = config::peer_index(peers, peer_id);
    if i < peers.len() {
        Some(&mut peers[i])
    } else {
        None
    }
}

/// Finds the first peer with an ID.
pub fn find_peer<'a>(peers: &'a [PeerInfo], peer_id: &str) -> (found: Option<&'a PeerInfo>)
    ensures
        match found {
            Some(peer) => {
                let i = config::position(config::peers_view(peers@), peer_id@);
                &&& 0 <= i < peers@.len()
                &&& *peer == peers@[i]
                &&& peer@.id == peer_id@
            },
            None => !config::is_listed(config::peers_view(peers@), peer_id@),
        },
{
    proof {
        config::lemma_position(config::peers_view(peers@), peer_id@);
    }
    let i: usize = config::peer_index(peers, peer_id);
    if i < peers.len() {
        Some(&peers[i])
    } else {
        None
    }
}

/// A pairing code is valid just if it is six characters long and each of them is one
/// of the ten digits.
pub proof fn law_valid_code(code: Seq<char>)
    ensures
        valid_code(code) <==> code.len() == 6 && forall|i: int|
            0 <= i < code.len() ==> 48 <= (#[trigger] code[i]) as int <= 57,
{
}

/// The key of a code is what HKDF-SHA256 derives of all of it, in 32 bytes, under the
/// salt `clipsync-pairing-v1` and without info.
pub proof fn law_key_of_code(code: Seq<char>)
    ensures
        key_of_code(code) == crypto::hkdf_sha256(
            encode_utf8("clipsync-pairing-v1"@),
            encode_utf8(code),
            Seq::empty(),
            32,
        ),
{
}

/// A frame starts with its nonce, and the rest is the ciphertext with its tag.
pub proof fn law_frame_layout(key: Seq<u8>, nonce: Seq<u8>, plaintext: Seq<u8>)
    requires
        nonce.len() == 12,
    ensures
        frame(key, nonce, plaintext).take(12) == nonce,
        frame(key, nonce, plaintext).skip(12) == crypto::sealed(key, nonce, plaintext),
{
    assert(frame(key, nonce, plaintext).take(12) =~= nonce);
    assert(frame(key, nonce, plaintext).skip(12) =~= crypto::sealed(key, nonce, plaintext));
}

/// Every frame from 28 bytes on, up to what ChaCha20 can hold, is decrypted by its
/// first twelve bytes as the nonce and all the others as the ciphertext; it gives a
/// plaintext just if the tag fits.
pub proof fn law_decrypted(key: Seq<u8>, data: Seq<u8>)
    ensures
        data.len() < 28 ==> decrypted(key, data) == Err::<Seq<u8>, _>(
            "Wire data too short for decryption"@,
        ),
        28 <= data.len() <= 274_877_906_844 ==> match crypto::opened(
            key,
            data.subrange(0, 12),
            data.subrange(12, data.len() as int),
        ) {
            Some(plaintext) => decrypted(key, data) == Ok::<_, Seq<char>>(plaintext),
            None => decrypted(key, data) == Err::<Seq<u8>, _>(
                "Decryption error: "@ + "aead::Error"@,
            ),
        },
        data.len() > 274_877_906_844 ==> decrypted(key, data) == Err::<Seq<u8>, _>(
            "Decryption error: "@ + "aead::Error"@,
        ),
{
}

/// What is received of a frame: the message that MessagePack reads in its plaintext,
/// whatever its type and size; the errors of decrypting are passed on.
pub proof fn law_received(key: Seq<u8>, data: Seq<u8>)
    ensures
        28 <= data.len() <= 274_877_906_844 ==> match crypto::opened(
            key,
            data.subrange(0, 12),
            data.subrange(12, data.len() as int),
        ) {
            Some(plaintext) => match codec::unpacked_message(plaintext) {
                Ok(message) => received(key, data) == Ok::<_, Seq<char>>(message),
                Err(text) => received(key, data) == Err::<(Seq<char>, Seq<u8>), _>(
                    "MessagePack deserialize error: "@ + text,
                ),
            },
            None => received(key, data) == Err::<(Seq<char>, Seq<u8>), _>(
                "Decryption error: "@ + "aead::Error"@,
            ),
        },
        data.len() < 28 ==> received(key, data) == Err::<(Seq<char>, Seq<u8>), _>(
            "Wire data too short for decryption"@,
        ),
        data.len() > 274_877_906_844 ==> received(key, data) == Err::<(Seq<char>, Seq<u8>), _>(
            "Decryption error: "@ + "aead::Error"@,
        ),
{
    law_decrypted(key, data);
}

/// A frame that is sealed under a key is what encrypting some plaintext under that
/// key and the frame's own nonce gives, and MessagePack reads the message in it.
pub proof fn law_sealed_under_key(key: Seq<u8>, data: Seq<u8>, message: (Seq<char>, Seq<u8>))
    requires
        is_sealed(key, data, message),
        data.len() >= 12,
    ensures
        exists|plaintext: Seq<u8>|
            data.skip(12) == #[trigger] crypto::sealed(key, data.take(12), plaintext)
                && codec::unpacked_message(plaintext) == Ok::<_, Seq<char>>(message),
{
    let nonce = data.subrange(0, crypto::NONCE_SIZE as int);
    let plaintext = choose|plaintext: Seq<u8>|
        data == #[trigger] frame(key, nonce, plaintext) && codec::unpacked_message(plaintext)
            == Ok::<_, Seq<char>>(message);
    assert(nonce =~= data.take(12));
    law_frame_layout(key, nonce, plaintext);
    assert(data.skip(12) == crypto::sealed(key, data.take(12), plaintext));
}

/// A message fits in MessagePack where the lengths of its type and its payload fit in
/// 32 bits.
pub proof fn law_message_fits(message: WireMessage)
    ensures
        message.fits() <==> encode_utf8(message.msg_type@).len() <= 4_294_967_295
            && message.payload@.len() <= 4_294_967_295,
        codec::max_length() == 4_294_967_295,
{
}

/// The code of a number below a million is its six decimal digits, with zeros in
/// front.
pub proof fn law_code_is_decimal(n: int)
    requires
        0 <= n < 1_000_000,
    ensures
        code_digits(n).len() == 6,
        text::number_of_digits(code_digits(n)) == n,
        forall|i: int| 0 <= i < 6 ==> 48 <= (#[trigger] code_digits(n)[i]) as int <= 57,
{
    lemma_code_of_number(n);
    let code = code_digits(n);
    reveal_with_fuel(text::number_of_digits, 7);
    assert(code.drop_last() =~= code.take(5));
    assert(code.take(5).drop_last() =~= code.take(4));
    assert(code.take(4).drop_last() =~= code.take(3));
    assert(code.take(3).drop_last() =~= code.take(2));
    assert(code.take(2).drop_last() =~= code.take(1));
    assert(code.take(1).drop_last() =~= Seq::empty());
}

/// A message stands for its whole type and its whole payload.
pub proof fn law_message_view(message: WireMessage)
    ensures
        message@.0 == message.msg_type@,
        message@.1 == message.payload@,
{
}

} // verus!
