//! Framing of packets on a connection: a length prefix, zlib compression of
//! packets at or above a size threshold, and AES/CFB8 encryption of the byte
//! stream.

use std::io::{Read, Write};

use aes::Aes128;
use bytes::{Buf, BytesMut};
use cfb8::cipher::{AsyncStreamCipher, NewCipher};
use cfb8::Cfb8;
use flate2::bufread::ZlibDecoder;
use flate2::write::ZlibEncoder;
use flate2::Compression;
use vstd::prelude::*;

use crate::protocol::var_int::{
    lemma_usize_through_i32, lemma_varint_decode_len, lemma_varint_roundtrip, varint_bytes,
    varint_decode, varint_decode_from, varint_size, VarInt,
};
use crate::protocol::DecodeError;

verus! {

#[verifier::external_type_specification]
#[verifier::external_body]
pub struct ExBytesMut(BytesMut);

/// The state of AES-128 in CFB-8 mode, held opaque: `Cfb8` is generic over
/// a block cipher whose bounds cannot be declared here.
#[verifier::external_body]
struct Cfb8State {
    inner: Cfb8<Aes128>,
}

/// AES-128 in CFB-8 mode, with what its output depends on: the key (also
/// the initial vector) and the ciphertext it has processed so far. Only
/// `new_cipher`, `encrypt_in_place` and `decrypt_in_place` set them.
pub struct StreamCipher {
    state: Cfb8State,
    key: Ghost<Seq<u8>>,
    processed: Ghost<Seq<u8>>,
}

impl StreamCipher {
    /// The key the cipher was made with.
    pub closed spec fn key(&self) -> Seq<u8> {
        self.key@
    }

    /// The ciphertext the cipher has processed, in order.
    pub closed spec fn processed(&self) -> Seq<u8> {
        self.processed@
    }
}

/// The ciphertext that AES-128 in CFB-8 mode, with `key` as key and initial
/// vector, writes for `data` after having processed the ciphertext `prior`.
pub uninterp spec fn cfb8_encrypt(key: Seq<u8>, prior: Seq<u8>, data: Seq<u8>) -> Seq<u8>;

/// The plaintext that AES-128 in CFB-8 mode, with `key` as key and initial
/// vector, reads from the ciphertext `data` after having processed the
/// ciphertext `prior`.
pub uninterp spec fn cfb8_decrypt(key: Seq<u8>, prior: Seq<u8>, data: Seq<u8>) -> Seq<u8>;

/// The maximum number of bytes in a single packet.
pub const MAX_PACKET_SIZE: i32 = 2097151;

/// The bytes a `BytesMut` holds.
pub uninterp spec fn bytes_contents(b: BytesMut) -> Seq<u8>;

/// `BytesMut::new`: an empty buffer.
#[verifier::external_body]
pub(crate) fn bytes_new() -> (b: BytesMut)
    ensures
        bytes_contents(b) == Seq::<u8>::empty(),
{
    BytesMut::new()
}

/// `BytesMut::extend_from_slice`: appends `data`.
#[verifier::external_body]
fn bytes_extend(b: &mut BytesMut, data: &[u8])
    ensures
        bytes_contents(*final(b)) == bytes_contents(*old(b)) + data@,
{
    b.extend_from_slice(data)
}

/// `BytesMut::split`: takes every byte, leaving the buffer empty.
#[verifier::external_body]
pub(crate) fn bytes_split(b: &mut BytesMut) -> (taken: BytesMut)
    ensures
        bytes_contents(taken) == bytes_contents(*old(b)),
        bytes_contents(*final(b)) == Seq::<u8>::empty(),
{
    b.split()
}

/// `BytesMut::unsplit`: appends the bytes of `other`.
#[verifier::external_body]
pub(crate) fn bytes_unsplit(b: &mut BytesMut, other: BytesMut)
    ensures
        bytes_contents(*final(b)) == bytes_contents(*old(b)) + bytes_contents(other),
{
    b.unsplit(other)
}

/// The bytes of a `BytesMut` as a slice.
#[verifier::external_body]
pub(crate) fn bytes_slice(b: &BytesMut) -> (s: &[u8])
    ensures
        s@ == bytes_contents(*b),
{
    &b[..]
}

/// `BytesMut::split_to`: takes the first `at` bytes, leaving the rest.
#[verifier::external_body]
pub(crate) fn bytes_split_to(b: &mut BytesMut, at: usize) -> (taken: BytesMut)
    requires
        at <= bytes_contents(*old(b)).len(),
    ensures
        bytes_contents(taken) == bytes_contents(*old(b)).take(at as int),
        bytes_contents(*final(b)) == bytes_contents(*old(b)).skip(at as int),
{
    b.split_to(at)
}

/// `BytesMut::split_off` at `at`, the length of the buffer: hands out the
/// room reserved after the bytes as an empty buffer; the bytes stay. (The
/// length is at most the capacity, so the call does not panic.)
#[verifier::external_body]
pub(crate) fn bytes_split_off_at_len(b: &mut BytesMut, at: usize) -> (room: BytesMut)
    requires
        at == bytes_contents(*old(b)).len(),
    ensures
        bytes_contents(room) == Seq::<u8>::empty(),
        bytes_contents(*final(b)) == bytes_contents(*old(b)),
{
    b.split_off(at)
}

/// `Buf::advance` on a `BytesMut`: drops the first `n` bytes.
#[verifier::external_body]
fn bytes_advance(b: &mut BytesMut, n: usize)
    requires
        n <= bytes_contents(*old(b)).len(),
    ensures
        bytes_contents(*final(b)) == bytes_contents(*old(b)).skip(n as int),
{
    b.advance(n)
}

/// `BytesMut::reserve`: makes room for more bytes; the contents stay.
#[verifier::external_body]
pub(crate) fn bytes_reserve(b: &mut BytesMut, additional: usize)
    ensures
        bytes_contents(*final(b)) == bytes_contents(*old(b)),
{
    b.reserve(additional)
}

/// `NewCipher::new` for AES-128 in CFB-8 mode, with `key` as both the key
/// and the initial vector: a cipher that has processed nothing.
#[verifier::external_body]
fn new_cipher(key: &[u8; 16]) -> (c: StreamCipher)
    ensures
        c.key() == key@,
        c.processed() == Seq::<u8>::empty(),
{
    StreamCipher {
        state: Cfb8State { inner: Cfb8::new(key.into(), key.into()) },
        key: Ghost(key@),
        processed: Ghost(Seq::empty()),
    }
}

/// `AsyncStreamCipher::encrypt` of CFB-8 on the bytes of `b`. Each byte is
/// replaced by its ciphertext, which depends on the key and the ciphertext
/// processed before; the cipher then has processed that ciphertext too.
/// Decrypting it with the same key and history gives the bytes back, since
/// each plaintext byte is XORed with the same keystream byte both ways.
#[verifier::external_body]
fn encrypt_in_place(c: &mut StreamCipher, b: &mut BytesMut)
    ensures
        bytes_contents(*final(b)) == cfb8_encrypt(old(c).key(), old(c).processed(), bytes_contents(*old(b))),
        bytes_contents(*final(b)).len() == bytes_contents(*old(b)).len(),
        cfb8_decrypt(old(c).key(), old(c).processed(), bytes_contents(*final(b))) == bytes_contents(*old(b)),
        final(c).key() == old(c).key(),
        final(c).processed() == old(c).processed() + bytes_contents(*final(b)),
{
    c.state.inner.encrypt(&mut b[..])
}

/// `AsyncStreamCipher::decrypt` of CFB-8 on the bytes of `b`, read as
/// ciphertext: each byte is replaced by its plaintext, and the cipher has
/// then processed those ciphertext bytes too.
#[verifier::external_body]
fn decrypt_in_place(c: &mut StreamCipher, b: &mut BytesMut)
    ensures
        bytes_contents(*final(b)) == cfb8_decrypt(old(c).key(), old(c).processed(), bytes_contents(*old(b))),
        bytes_contents(*final(b)).len() == bytes_contents(*old(b)).len(),
        final(c).key() == old(c).key(),
        final(c).processed() == old(c).processed() + bytes_contents(*old(b)),
{
    c.state.inner.decrypt(&mut b[..])
}

/// The zlib stream that `flate2::write::ZlibEncoder` at the best
/// compression level writes for `data`.
pub uninterp spec fn zlib_compressed(data: Seq<u8>) -> Seq<u8>;

/// What `flate2::bufread::ZlibDecoder` gives for `input`, read through
/// `Read::take(limit)` to the end: the first `limit` decompressed bytes, or
/// `None` when reading fails.
pub uninterp spec fn zlib_decompressed(input: Seq<u8>, limit: u64) -> Option<Seq<u8>>;

/// Compresses `data` with `flate2::write::ZlibEncoder` at the best level,
/// finishing the stream. zlib is lossless: reading the stream back, up to
/// the length of `data`, gives `data`.
#[verifier::external_body]
fn zlib_compress(data: &[u8]) -> (c: Vec<u8>)
    ensures
        c@ == zlib_compressed(data@),
        zlib_decompressed(c@, data@.len() as u64) == Some(data@),
{
    let mut out = Vec::new();
    let mut z = ZlibEncoder::new(&mut out, Compression::best());
    let _ = z.write_all(data);
    drop(z);
    out
}

/// Decompresses `input` with `flate2::bufread::ZlibDecoder`, reading at
/// most `limit` bytes with `Read::take` and `Read::read_to_end`; `None` when
/// reading fails. What is read is at most `limit` bytes long.
#[verifier::external_body]
fn zlib_decompress(input: &[u8], limit: u64) -> (r: Option<Vec<u8>>)
    ensures
        match r {
            Some(v) => zlib_decompressed(input@, limit) == Some(v@) && v@.len() <= limit,
            None => zlib_decompressed(input@, limit) is None,
        },
{
    let mut out = Vec::new();
    match ZlibDecoder::new(input).take(limit).read_to_end(&mut out) {
        Ok(_) => Some(out),
        Err(_) => None,
    }
}

/// Why framing or reading a packet failed.
#[derive(Clone, Copy, PartialEq, Eq, Debug, Structural)]
pub enum CodecError {
    /// The framed packet would exceed `MAX_PACKET_SIZE` bytes.
    PacketTooLarge,
    /// The packet length prefix used more than five bytes.
    MalformedLength,
    /// The packet length prefix was above `MAX_PACKET_SIZE`.
    LengthOutOfBounds(i32),
    /// The decompressed length could not be read.
    DataLength(DecodeError),
    /// The decompressed length was negative or not below `MAX_PACKET_SIZE`.
    DataLengthOutOfBounds(i32),
    /// The compressed data could not be decompressed.
    Decompress,
}

/// The bytes that carry a packet whose encoding is `data`:
/// - without compression, the length of `data` and `data`;
/// - with compression and `data` at least `threshold` long, the length of
///   what follows, the length of `data`, and `data` compressed;
/// - with compression and `data` shorter, the length of what follows, a
///   zero, and `data`.
/// The framed packet after its length prefix may be at most
/// `MAX_PACKET_SIZE` bytes long.
pub open spec fn frame(data: Seq<u8>, threshold: Option<u32>) -> Result<Seq<u8>, CodecError> {
    match threshold {
        Some(t) => if data.len() >= t {
            let c = zlib_compressed(data);
            let packet_len = varint_size(data.len() as u32) + c.len();
            if packet_len > MAX_PACKET_SIZE {
                Err(CodecError::PacketTooLarge)
            } else {
                Ok(varint_bytes(packet_len as u32) + varint_bytes(data.len() as u32) + c)
            }
        } else {
            let packet_len = 1 + data.len();
            if packet_len > MAX_PACKET_SIZE {
                Err(CodecError::PacketTooLarge)
            } else {
                Ok(varint_bytes(packet_len as u32) + seq![0u8] + data)
            }
        },
        None => if data.len() > MAX_PACKET_SIZE {
            Err(CodecError::PacketTooLarge)
        } else {
            Ok(varint_bytes(data.len() as u32) + data)
        },
    }
}

/// Whether a packet whose encoding is `data` is compressed under
/// `threshold`.
pub open spec fn compressed(data: Seq<u8>, threshold: Option<u32>) -> bool {
    threshold matches Some(t) && data.len() >= t
}

/// Writes packets into a buffer of outgoing bytes.
pub struct PacketEncoder {
    buf: BytesMut,
    compression_threshold: Option<u32>,
    cipher: Option<StreamCipher>,
}

impl PacketEncoder {
    /// The framed packets not yet taken.
    pub closed spec fn pending(&self) -> Seq<u8> {
        bytes_contents(self.buf)
    }

    /// The size from which packets are compressed, if compression is on.
    pub closed spec fn threshold(&self) -> Option<u32> {
        self.compression_threshold
    }

    /// Whether taken bytes are encrypted.
    pub closed spec fn encrypting(&self) -> bool {
        self.cipher is Some
    }

    /// The key of the cipher and the ciphertext it has processed, when
    /// there is a cipher; empty otherwise.
    pub closed spec fn cipher_model(&self) -> (Seq<u8>, Seq<u8>) {
        match self.cipher {
            Some(c) => (c.key(), c.processed()),
            None => (Seq::empty(), Seq::empty()),
        }
    }

    /// An encoder without compression or encryption, with nothing pending.
    pub fn new() -> (e: Self)
        ensures
            e.pending() == Seq::<u8>::empty(),
            e.threshold() is None,
            !e.encrypting(),
    {
        Self { buf: bytes_new(), compression_threshold: None, cipher: None }
    }

    /// The frame of `data` under the current compression setting.
    fn frame_of(&self, data: &[u8]) -> (r: Result<Vec<u8>, CodecError>)
        ensures
            match frame(data@, self.threshold()) {
                Ok(f) => r matches Ok(v) && v@ == f,
                Err(e) => r == Err::<Vec<u8>, CodecError>(e),
            },
            compressed(data@, self.threshold()) ==> zlib_decompressed(
                zlib_compressed(data@),
                data@.len() as u64,
            ) == Some(data@),
    {
        let data_len = data.len();
        let mut out: Vec<u8> = Vec::new();
        proof {
            lemma_usize_through_i32(data_len);
        }
        match self.compression_threshold {
            Some(t) => if data_len >= t as usize {
                let c = zlib_compress(data);
                let size = VarInt(data_len as i32).written_size();
                let packet_len = match size.checked_add(c.len()) {
                    Some(n) => n,
                    None => return Err(CodecError::PacketTooLarge),
                };
                if packet_len > MAX_PACKET_SIZE as usize {
                    return Err(CodecError::PacketTooLarge);
                }
                let _ = VarInt(packet_len as i32).encode(&mut out);
                let _ = VarInt(data_len as i32).encode(&mut out);
                let mut c = c;
                out.append(&mut c);
                proof {
                    lemma_usize_through_i32(packet_len);
                }
                Ok(out)
            } else {
                if data_len >= MAX_PACKET_SIZE as usize {
                    return Err(CodecError::PacketTooLarge);
                }
                let packet_len = 1 + data_len;
                proof {
                    lemma_usize_through_i32(packet_len);
                }
                let _ = VarInt(packet_len as i32).encode(&mut out);
                out.push(0u8);
                out.extend_from_slice(data);
                Ok(out)
            },
            None => {
                if data_len > MAX_PACKET_SIZE as usize {
                    return Err(CodecError::PacketTooLarge);
                }
                let _ = VarInt(data_len as i32).encode(&mut out);
                out.extend_from_slice(data);
                Ok(out)
            },
        }
    }

    /// Frames the packet whose encoding is `data` and adds it after the
    /// pending packets.
    pub fn append_packet(&mut self, data: &[u8]) -> (r: Result<(), CodecError>)
        ensures
            compressed(data@, old(self).threshold()) ==> zlib_decompressed(
                zlib_compressed(data@),
                data@.len() as u64,
            ) == Some(data@),
            final(self).threshold() == old(self).threshold(),
            final(self).encrypting() == old(self).encrypting(),
            final(self).cipher_model() == old(self).cipher_model(),
            match frame(data@, old(self).threshold()) {
                Ok(f) => r is Ok && final(self).pending() == old(self).pending() + f,
                Err(e) => r == Err::<(), CodecError>(e) && final(self).pending() == old(
                    self,
                ).pending(),
            },
    {
        let f = self.frame_of(data)?;
        bytes_extend(&mut self.buf, f.as_slice());
        Ok(())
    }

    /// Frames the packet whose encoding is `data` and puts it before the
    /// pending packets.
    pub fn prepend_packet(&mut self, data: &[u8]) -> (r: Result<(), CodecError>)
        ensures
            compressed(data@, old(self).threshold()) ==> zlib_decompressed(
                zlib_compressed(data@),
                data@.len() as u64,
            ) == Some(data@),
            final(self).threshold() == old(self).threshold(),
            final(self).encrypting() == old(self).encrypting(),
            final(self).cipher_model() == old(self).cipher_model(),
            match frame(data@, old(self).threshold()) {
                Ok(f) => r is Ok && final(self).pending() == f + old(self).pending(),
                Err(e) => r == Err::<(), CodecError>(e) && final(self).pending() == old(
                    self,
                ).pending(),
            },
    {
        let f = self.frame_of(data)?;
        let rest = bytes_split(&mut self.buf);
        bytes_extend(&mut self.buf, f.as_slice());
        bytes_unsplit(&mut self.buf, rest);
        Ok(())
    }

    /// Takes the pending bytes, encrypted if encryption is on; nothing is
    /// pending afterwards.
    pub fn take(&mut self) -> (b: BytesMut)
        ensures
            final(self).pending() == Seq::<u8>::empty(),
            final(self).threshold() == old(self).threshold(),
            final(self).encrypting() == old(self).encrypting(),
            bytes_contents(b).len() == old(self).pending().len(),
            !old(self).encrypting() ==> bytes_contents(b) == old(self).pending()
                && final(self).cipher_model() == old(self).cipher_model(),
            old(self).encrypting() ==> bytes_contents(b) == cfb8_encrypt(
                old(self).cipher_model().0,
                old(self).cipher_model().1,
                old(self).pending(),
            ) && cfb8_decrypt(old(self).cipher_model().0, old(self).cipher_model().1, bytes_contents(b))
                == old(self).pending() && final(self).cipher_model() == (
                old(self).cipher_model().0,
                old(self).cipher_model().1 + bytes_contents(b),
            ),
    {
        match &mut self.cipher {
            Some(c) => encrypt_in_place(c, &mut self.buf),
            None => {},
        }
        bytes_split(&mut self.buf)
    }

    /// Compresses packets from `threshold` bytes up when it is `Some`, and
    /// none otherwise.
    pub fn set_compression(&mut self, threshold: Option<u32>)
        ensures
            final(self).threshold() == threshold,
            final(self).pending() == old(self).pending(),
            final(self).encrypting() == old(self).encrypting(),
            final(self).cipher_model() == old(self).cipher_model(),
    {
        self.compression_threshold = threshold;
    }

    /// Encrypts, with `key` as key and initial vector, everything taken from
    /// now on, the packets already pending included.
    pub fn enable_encryption(&mut self, key: &[u8; 16])
        requires
            !old(self).encrypting(),
        ensures
            final(self).encrypting(),
            final(self).pending() == old(self).pending(),
            final(self).threshold() == old(self).threshold(),
            final(self).cipher_model() == (key@, Seq::<u8>::empty()),
    {
        self.cipher = Some(new_cipher(key));
    }
}

/// Bounds on the value gathered after each of the first four bytes of a
/// VarInt: after `i` bytes it is below `2^(7 * i)`.
proof fn lemma_varint_acc_bounds(acc: u32, b: u8)
    by (bit_vector)
    ensures
        acc == 0 ==> (acc | (((b & 0x7f) as u32) << 0u32)) < 0x80,
        acc < 0x80 ==> (acc | (((b & 0x7f) as u32) << 7u32)) < 0x4000,
        acc < 0x4000 ==> (acc | (((b & 0x7f) as u32) << 14u32)) < 0x20_0000,
        acc < 0x20_0000 ==> (acc | (((b & 0x7f) as u32) << 21u32)) < 0x1000_0000,
{
}

/// The value bound that holds before byte `i` of a VarInt is read.
spec fn acc_bound(i: nat, acc: u32) -> bool {
    if i == 0 {
        acc == 0
    } else if i == 1 {
        acc < 0x80
    } else if i == 2 {
        acc < 0x4000
    } else if i == 3 {
        acc < 0x20_0000
    } else if i == 4 {
        acc < 0x1000_0000
    } else {
        true
    }
}

/// A decoded VarInt reads at least as many bytes as its shortest encoding
/// has.
proof fn lemma_varint_decode_size(s: Seq<u8>, i: nat, acc: u32)
    requires
        acc_bound(i, acc),
    ensures
        varint_decode_from(s, i, acc) matches Ok((v, n)) ==> varint_size(v) <= n,
    decreases 5 - i,
{
    if i < 5 && i < s.len() {
        let b = s[i as int];
        let acc2 = acc | (((b & 0x7f) as u32) << ((7 * i) as u32));
        lemma_varint_acc_bounds(acc, b);
        if i == 0 {
            assert((7 * i) as u32 == 0u32);
        } else if i == 1 {
            assert((7 * i) as u32 == 7u32);
        } else if i == 2 {
            assert((7 * i) as u32 == 14u32);
        } else if i == 3 {
            assert((7 * i) as u32 == 21u32);
        }
        assert(acc_bound(i + 1, acc2));
        if b & 0x80 != 0 {
            lemma_varint_decode_size(s, i + 1, acc2);
        }
    }
}

/// What reading one packet from the front of `buf` gives: the packet's
/// bytes and how many bytes of `buf` it took; `None` when `buf` does not
/// hold a whole packet yet; or the error. The length prefix is read first:
/// running out of bytes in it means waiting for more, a prefix of more than
/// five bytes is malformed, and a length above `MAX_PACKET_SIZE` is refused.
/// A negative length, or one longer than the bytes that follow, means
/// waiting. With compression on, the packet starts with the decompressed
/// length: zero means the rest is the packet as is; otherwise it must be
/// below `MAX_PACKET_SIZE`, and the rest, decompressed and cut to that
/// length, is the packet. The bytes taken are the shortest encoding of the
/// length prefix and the length it gives.
pub open spec fn next_packet(buf: Seq<u8>, compression: bool) -> Result<
    Option<(Seq<u8>, nat)>,
    CodecError,
> {
    match varint_decode(buf) {
        Err(DecodeError::UnexpectedEof) => Ok(None),
        Err(_) => Err(CodecError::MalformedLength),
        Ok((v, n)) => {
            let len = v as i32;
            if len > MAX_PACKET_SIZE {
                Err(CodecError::LengthOutOfBounds(len))
            } else if len < 0 || buf.len() - n < len {
                Ok(None)
            } else {
                let body = buf.subrange(n as int, n + len);
                let used = (varint_size(v) + len) as nat;
                if !compression {
                    Ok(Some((body, used)))
                } else {
                    match varint_decode(body) {
                        Err(e) => Err(CodecError::DataLength(e)),
                        Ok((d, m)) => {
                            let dl = d as i32;
                            if dl < 0 || dl >= MAX_PACKET_SIZE {
                                Err(CodecError::DataLengthOutOfBounds(dl))
                            } else if dl != 0 {
                                match zlib_decompressed(body.skip(m as int), dl as u64) {
                                    Some(p) => Ok(Some((p, used))),
                                    None => Err(CodecError::Decompress),
                                }
                            } else {
                                Ok(Some((body.skip(m as int), used)))
                            }
                        },
                    }
                }
            }
        },
    }
}

/// Reads packets out of a buffer of incoming bytes.
pub struct PacketDecoder {
    buf: BytesMut,
    compression: bool,
    cipher: Option<StreamCipher>,
}

/// A copy of the bytes of `s`.
fn copy_bytes(s: &[u8]) -> (v: Vec<u8>)
    ensures
        v@ == s@,
{
    let mut v: Vec<u8> = Vec::new();
    v.extend_from_slice(s);
    v
}

impl PacketDecoder {
    /// The bytes received and not yet read as packets.
    pub closed spec fn buffered(&self) -> Seq<u8> {
        bytes_contents(self.buf)
    }

    /// Whether packets are read as compressed.
    pub closed spec fn compression(&self) -> bool {
        self.compression
    }

    /// Whether received bytes are decrypted.
    pub closed spec fn decrypting(&self) -> bool {
        self.cipher is Some
    }

    /// The key of the cipher and the ciphertext it has processed, when
    /// there is a cipher; empty otherwise.
    pub closed spec fn cipher_model(&self) -> (Seq<u8>, Seq<u8>) {
        match self.cipher {
            Some(c) => (c.key(), c.processed()),
            None => (Seq::empty(), Seq::empty()),
        }
    }

    /// A decoder without compression or encryption, with nothing buffered.
    pub fn new() -> (d: Self)
        ensures
            d.buffered() == Seq::<u8>::empty(),
            !d.compression(),
            !d.decrypting(),
    {
        Self { buf: bytes_new(), compression: false, cipher: None }
    }

    /// Reads the next packet, if the buffer holds all of it, and drops its
    /// bytes from the buffer. On `None` or an error the buffer stays.
    pub fn try_next_packet(&mut self) -> (r: Result<Option<Vec<u8>>, CodecError>)
        ensures
            final(self).compression() == old(self).compression(),
            final(self).decrypting() == old(self).decrypting(),
            final(self).cipher_model() == old(self).cipher_model(),
            match next_packet(old(self).buffered(), old(self).compression()) {
                Ok(Some((p, used))) => r matches Ok(Some(v)) && v@ == p && used <= old(
                    self,
                ).buffered().len() && final(self).buffered() == old(self).buffered().skip(
                    used as int,
                ),
                Ok(None) => r matches Ok(None) && final(self).buffered() == old(self).buffered(),
                Err(e) => r == Err::<Option<Vec<u8>>, CodecError>(e) && final(self).buffered()
                    == old(self).buffered(),
            },
    {
        let ghost b0 = self.buffered();
        let all = bytes_slice(&self.buf);
        let mut rd: &[u8] = all;
        proof {
            lemma_varint_decode_len(b0, 0, 0);
            lemma_varint_decode_size(b0, 0, 0);
        }
        let packet_len = match VarInt::decode(&mut rd) {
            Ok(v) => v.0,
            Err(DecodeError::UnexpectedEof) => return Ok(None),
            Err(_) => return Err(CodecError::MalformedLength),
        };
        if packet_len > MAX_PACKET_SIZE {
            return Err(CodecError::LengthOutOfBounds(packet_len));
        }
        if packet_len < 0 || rd.len() < packet_len as usize {
            return Ok(None);
        }
        let ghost n = (b0.len() - rd@.len()) as nat;
        let ghost v = varint_decode(b0)->Ok_0.0;
        proof {
            crate::protocol::var_int::lemma_u32_through_i32(v);
            assert(packet_len as u32 == v);
            assert(varint_decode(b0) == Ok::<(u32, nat), DecodeError>((v, n)));
        }
        let (body, _) = rd.split_at(packet_len as usize);
        proof {
            assert(body@ =~= b0.subrange(n as int, n + packet_len));
        }
        let data: Vec<u8> = if self.compression {
            let mut br: &[u8] = body;
            proof {
                lemma_varint_decode_len(body@, 0, 0);
            }
            let data_len = match VarInt::decode(&mut br) {
                Ok(v) => v.0,
                Err(e) => return Err(CodecError::DataLength(e)),
            };
            if data_len < 0 || data_len >= MAX_PACKET_SIZE {
                return Err(CodecError::DataLengthOutOfBounds(data_len));
            }
            if data_len != 0 {
                match zlib_decompress(br, data_len as u64) {
                    Some(v) => v,
                    None => return Err(CodecError::Decompress),
                }
            } else {
                copy_bytes(br)
            }
        } else {
            copy_bytes(body)
        };
        let total = VarInt(packet_len).written_size() + packet_len as usize;
        proof {
            assert(total == varint_size(v) + packet_len);
            if self.compression {
                lemma_varint_decode_len(body@, 0, 0);
            }
        }
        bytes_advance(&mut self.buf, total);
        Ok(Some(data))
    }

    /// Reads packets as compressed, or not.
    pub fn set_compression(&mut self, compression: bool)
        ensures
            final(self).compression() == compression,
            final(self).buffered() == old(self).buffered(),
            final(self).decrypting() == old(self).decrypting(),
            final(self).cipher_model() == old(self).cipher_model(),
    {
        self.compression = compression;
    }

    /// Decrypts, with `key` as key and initial vector, the bytes buffered
    /// and every byte received from now on.
    pub fn enable_encryption(&mut self, key: &[u8; 16])
        requires
            !old(self).decrypting(),
        ensures
            final(self).decrypting(),
            final(self).compression() == old(self).compression(),
            final(self).buffered().len() == old(self).buffered().len(),
            final(self).buffered() == cfb8_decrypt(key@, Seq::<u8>::empty(), old(self).buffered()),
            final(self).cipher_model() == (key@, old(self).buffered()),
    {
        let mut c = new_cipher(key);
        decrypt_in_place(&mut c, &mut self.buf);
        self.cipher = Some(c);
    }

    /// Adds received bytes to the buffer, decrypted if encryption is on.
    pub fn queue_bytes(&mut self, bytes: BytesMut)
        ensures
            final(self).compression() == old(self).compression(),
            final(self).decrypting() == old(self).decrypting(),
            final(self).buffered().len() == old(self).buffered().len() + bytes_contents(bytes).len(),
            final(self).buffered().take(old(self).buffered().len() as int) == old(self).buffered(),
            !old(self).decrypting() ==> final(self).buffered() == old(self).buffered()
                + bytes_contents(bytes) && final(self).cipher_model() == old(self).cipher_model(),
            old(self).decrypting() ==> final(self).buffered() == old(self).buffered() + cfb8_decrypt(
                old(self).cipher_model().0,
                old(self).cipher_model().1,
                bytes_contents(bytes),
            ) && final(self).cipher_model() == (
                old(self).cipher_model().0,
                old(self).cipher_model().1 + bytes_contents(bytes),
            ),
    {
        let mut bytes = bytes;
        match &mut self.cipher {
            Some(c) => decrypt_in_place(c, &mut bytes),
            None => {},
        }
        let ghost b0 = self.buffered();
        bytes_unsplit(&mut self.buf, bytes);
        assert((b0 + bytes_contents(bytes)).take(b0.len() as int) =~= b0);
    }

    /// Takes the buffered bytes, leaving the buffer empty.
    pub fn take_capacity(&mut self) -> (b: BytesMut)
        ensures
            bytes_contents(b) == old(self).buffered(),
            final(self).buffered() == Seq::<u8>::empty(),
            final(self).compression() == old(self).compression(),
            final(self).decrypting() == old(self).decrypting(),
            final(self).cipher_model() == old(self).cipher_model(),
    {
        bytes_split(&mut self.buf)
    }

    /// Makes room for `additional` more bytes.
    pub fn reserve(&mut self, additional: usize)
        ensures
            final(self).buffered() == old(self).buffered(),
            final(self).compression() == old(self).compression(),
            final(self).decrypting() == old(self).decrypting(),
            final(self).cipher_model() == old(self).cipher_model(),
    {
        bytes_reserve(&mut self.buf, additional)
    }
}

/// Reading from the front of a frame, followed by any bytes, gives back
/// the packet framed and takes exactly the frame, when compression is on
/// for both or off for both. A compressed packet must be non-empty and
/// shorter than `MAX_PACKET_SIZE` (the reader refuses other decompressed
/// lengths, and reads a zero length as "not compressed"), and its zlib
/// stream must decompress to it, as the encoder guarantees.
pub proof fn frame_roundtrip_law(data: Seq<u8>, threshold: Option<u32>, rest: Seq<u8>)
    requires
        frame(data, threshold) is Ok,
        compressed(data, threshold) ==> 0 < data.len() < MAX_PACKET_SIZE && zlib_decompressed(
            zlib_compressed(data),
            data.len() as u64,
        ) == Some(data),
    ensures
        next_packet(frame(data, threshold)->Ok_0 + rest, threshold is Some) == Ok::<
            Option<(Seq<u8>, nat)>,
            CodecError,
        >(Some((data, frame(data, threshold)->Ok_0.len()))),
{
    let f = frame(data, threshold)->Ok_0;
    let buf = f + rest;
    let len = data.len();
    match threshold {
        None => {
            let l = len as i32;
            lemma_varint_roundtrip(l, data + rest);
            assert(buf =~= varint_bytes(l as u32) + (data + rest));
            let n = varint_size(l as u32);
            assert(buf.subrange(n as int, n + l) =~= data);
        },
        Some(t) => {
            if len >= t {
                let c = zlib_compressed(data);
                let p = (varint_size(len as u32) + c.len()) as i32;
                let dl = len as i32;
                lemma_varint_roundtrip(p, varint_bytes(dl as u32) + c + rest);
                assert(buf =~= varint_bytes(p as u32) + (varint_bytes(dl as u32) + c + rest));
                let n = varint_size(p as u32);
                let body = buf.subrange(n as int, n + p);
                assert(body =~= varint_bytes(dl as u32) + c);
                lemma_varint_roundtrip(dl, c);
                assert(body.skip(varint_size(dl as u32) as int) =~= c);
            } else {
                let p = (1 + len) as i32;
                lemma_varint_roundtrip(p, seq![0u8] + data + rest);
                assert(buf =~= varint_bytes(p as u32) + (seq![0u8] + data + rest));
                let n = varint_size(p as u32);
                let body = buf.subrange(n as int, n + p);
                assert(body =~= seq![0u8] + data);
                lemma_varint_roundtrip(0i32, data);
                assert(((0u32 >> 0u32) & 0x7f) as u8 == 0u8) by (bit_vector);
                assert((7 * 0nat) as u32 == 0u32);
                assert(varint_bytes(0u32) =~= seq![0u8]);
                assert(varint_decode(body) == Ok::<(u32, nat), DecodeError>((0u32, 1nat)));
                assert(body.skip(1) =~= data);
            }
        },
    }
}

/// An encoder and a decoder that share a key and have processed the same
/// ciphertext, with compression on for both or off for both: when the
/// encoder holds one framed packet, the bytes it takes, queued in the
/// decoder with nothing buffered, read back as that packet, and reading
/// takes every byte queued. `taken` is what `PacketEncoder::take` gives
/// (the pending bytes encrypted, which decrypt back to them) and `received`
/// the decoder that `PacketDecoder::queue_bytes` leaves.
pub proof fn encrypted_frame_roundtrip_law(
    enc: PacketEncoder,
    taken: Seq<u8>,
    dec: PacketDecoder,
    received: PacketDecoder,
    data: Seq<u8>,
)
    requires
        enc.encrypting(),
        dec.decrypting(),
        enc.cipher_model() == dec.cipher_model(),
        dec.buffered() == Seq::<u8>::empty(),
        dec.compression() == (enc.threshold() is Some),
        frame(data, enc.threshold()) is Ok,
        enc.pending() == frame(data, enc.threshold())->Ok_0,
        compressed(data, enc.threshold()) ==> 0 < data.len() < MAX_PACKET_SIZE && zlib_decompressed(
            zlib_compressed(data),
            data.len() as u64,
        ) == Some(data),
        taken == cfb8_encrypt(enc.cipher_model().0, enc.cipher_model().1, enc.pending()),
        cfb8_decrypt(enc.cipher_model().0, enc.cipher_model().1, taken) == enc.pending(),
        received.buffered() == dec.buffered() + cfb8_decrypt(
            dec.cipher_model().0,
            dec.cipher_model().1,
            taken,
        ),
        received.compression() == dec.compression(),
    ensures
        next_packet(received.buffered(), received.compression()) == Ok::<
            Option<(Seq<u8>, nat)>,
            CodecError,
        >(Some((data, received.buffered().len()))),
{
    assert(received.buffered() =~= enc.pending() + Seq::<u8>::empty());
    frame_roundtrip_law(data, enc.threshold(), Seq::empty());
}

} // verus!
