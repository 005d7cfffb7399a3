//! Fixed-layout link-layer frames and their byte-exact wire form.
//!
//! A frame on the wire is a 1504-byte buffer:
//!
//! | bytes        | content                                   |
//! |--------------|-------------------------------------------|
//! | `0..7`       | preamble, each byte `0b10101010`          |
//! | `7`          | start-frame delimiter                     |
//! | `8..14`      | destination address                       |
//! | `14..20`     | source address                            |
//! | `20..22`     | payload length, big-endian                |
//! | `22..22+len` | payload                                   |
//! | rest         | zero, the last four bytes being the frame |
//! |              | check sequence, which is not computed     |

use vstd::prelude::*;

verus! {

/// The byte repeated seven times at the start of every frame.
pub const PREAMBLE: u8 = 0b10101010;

/// The start-frame delimiter that follows the preamble.
pub const SFD: u8 = 0b10101011;

/// Number of preamble bytes.
pub const PREAMBLE_LEN: usize = 7;

/// Offset of the first payload byte.
pub const PAYLOAD_START: usize = 22;

/// Largest payload a frame carries.
pub const MAX_PAYLOAD: usize = 1454;

/// Size of an encoded frame.
pub const FRAME_LEN: usize = 1504;

/// Shortest buffer that decoding looks into at all.
pub const MIN_BUFFER: usize = 14;

/// Why a buffer is not a frame.
#[derive(Debug, Clone, Copy, PartialEq, Eq, Structural)]
pub enum PacketError {
    /// One of the first seven bytes is not the preamble pattern.
    NoStart,
    /// The buffer is too short, or declares a payload it cannot hold.
    InvalidPacket,
}

/// A frame as it is held in memory.
#[derive(Debug, Clone, Copy, PartialEq, Eq)]
pub struct Packet {
    pub sfd: u8,
    pub dest: [u8; 6],
    pub src: [u8; 6],
    pub data: [u8; 1454],
    pub len: usize,
}

/// What a frame says, apart from how it is stored.
pub struct Frame {
    pub sfd: u8,
    pub dest: Seq<u8>,
    pub src: Seq<u8>,
    pub payload: Seq<u8>,
}

impl Frame {
    /// Addresses are six bytes and the payload fits.
    pub open spec fn wf(self) -> bool {
        &&& self.dest.len() == 6
        &&& self.src.len() == 6
        &&& self.payload.len() <= MAX_PAYLOAD
    }
}

/// `n` zero bytes.
pub open spec fn zeros(n: nat) -> Seq<u8> {
    Seq::new(n, |i: int| 0u8)
}

/// The two bytes of a payload length, most significant first.
pub open spec fn length_field(len: nat) -> Seq<u8> {
    seq![(len / 256) as u8, (len % 256) as u8]
}

/// The 1504 bytes that stand for `f` on the wire.
pub open spec fn wire(f: Frame) -> Seq<u8> {
    Seq::new(PREAMBLE_LEN as nat, |i: int| PREAMBLE) + seq![f.sfd] + f.dest + f.src + length_field(
        f.payload.len(),
    ) + f.payload + zeros((FRAME_LEN - PAYLOAD_START - f.payload.len()) as nat)
}

/// The payload length that a buffer of at least 22 bytes declares.
pub open spec fn declared_len(bytes: Seq<u8>) -> nat {
    (bytes[20] as nat) * 256 + bytes[21] as nat
}

/// Every one of the first seven bytes is the preamble pattern.
pub open spec fn has_preamble(bytes: Seq<u8>) -> bool {
    forall|i: int| 0 <= i < PREAMBLE_LEN ==> bytes[i] == PREAMBLE
}

/// What decoding makes of a buffer.
///
/// A buffer shorter than 14 bytes is invalid whatever it holds. Otherwise the
/// preamble is checked. A buffer that passes both but ends before its
/// addresses, length field or declared payload do is invalid too, and so is a
/// declared length above the largest payload.
pub open spec fn parse(bytes: Seq<u8>) -> Result<Frame, PacketError> {
    if bytes.len() < MIN_BUFFER {
        Err(PacketError::InvalidPacket)
    } else if !has_preamble(bytes) {
        Err(PacketError::NoStart)
    } else if bytes.len() < PAYLOAD_START || declared_len(bytes) > MAX_PAYLOAD || PAYLOAD_START
        + declared_len(bytes) > bytes.len() {
        Err(PacketError::InvalidPacket)
    } else {
        Ok(
            Frame {
                sfd: SFD,
                dest: bytes.subrange(8, 14),
                src: bytes.subrange(14, 20),
                payload: bytes.subrange(
                    PAYLOAD_START as int,
                    PAYLOAD_START + declared_len(bytes),
                ),
            },
        )
    }
}

impl View for Packet {
    type V = Frame;

    open spec fn view(&self) -> Frame {
        Frame {
            sfd: self.sfd,
            dest: self.dest@,
            src: self.src@,
            payload: self.data@.subrange(0, self.len as int),
        }
    }
}

impl Packet {
    /// The stored length fits the payload area.
    pub open spec fn wf(&self) -> bool {
        self.len <= MAX_PAYLOAD
    }

    /// An empty frame with both addresses zero.
    pub fn new() -> (p: Packet)
        ensures
            p.wf(),
            p.sfd == SFD,
            p.len == 0,
            p.dest@ == zeros(6),
            p.src@ == zeros(6),
            p.data@ == zeros(MAX_PAYLOAD as nat),
            p@.payload == Seq::<u8>::empty(),
    {
        Packet { sfd: SFD, dest: [0; 6], src: [0; 6], data: [0; 1454], len: 0 }
    }

    /// Encodes the frame into its wire form.
    pub fn to_slice(&self) -> (out: [u8; 1504])
        requires
            self.wf(),
        ensures
            out@ == wire(self@),
    {
        let mut out = [0u8; 1504];
        for i in 0..7usize
            invariant
                forall|j: int| 0 <= j < i ==> out@[j] == PREAMBLE,
                forall|j: int| i <= j < FRAME_LEN ==> out@[j] == 0,
        {
            out[i] = PREAMBLE;
        }
        out[7] = self.sfd;
        for i in 0..6usize
            invariant
                forall|j: int| 0 <= j < 7 ==> out@[j] == PREAMBLE,
                out@[7] == self.sfd,
                forall|j: int| 0 <= j < i ==> out@[8 + j] == self.dest@[j],
                forall|j: int| 8 + i <= j < FRAME_LEN ==> out@[j] == 0,
        {
            out[i + 8] = self.dest[i];
        }
        for i in 0..6usize
            invariant
                forall|j: int| 0 <= j < 7 ==> out@[j] == PREAMBLE,
                out@[7] == self.sfd,
                forall|j: int| 0 <= j < 6 ==> out@[8 + j] == self.dest@[j],
                forall|j: int| 0 <= j < i ==> out@[14 + j] == self.src@[j],
                forall|j: int| 14 + i <= j < FRAME_LEN ==> out@[j] == 0,
        {
            out[i + 14] = self.src[i];
        }
        out[20] = (self.len / 256) as u8;
        out[21] = (self.len % 256) as u8;
        for i in 0..self.len
            invariant
                self.wf(),
                forall|j: int| 0 <= j < 7 ==> out@[j] == PREAMBLE,
                out@[7] == self.sfd,
                forall|j: int| 0 <= j < 6 ==> out@[8 + j] == self.dest@[j],
                forall|j: int| 0 <= j < 6 ==> out@[14 + j] == self.src@[j],
                out@[20] == (self.len / 256) as u8,
                out@[21] == (self.len % 256) as u8,
                forall|j: int| 0 <= j < i ==> out@[22 + j] == self.data@[j],
                forall|j: int| 22 + i <= j < FRAME_LEN ==> out@[j] == 0,
        {
            out[i + 22] = self.data[i];
        }
        assert(out@ =~= wire(self@));
        out
    }

    /// Decodes a buffer.
    ///
    /// Succeeds exactly on the buffers that [`parse`] accepts, with the frame
    /// it gives, and fails with the error it gives on all others. The part of
    /// the payload area that the frame does not use is zero.
    pub fn from_slice(slice: &[u8]) -> (r: Result<Packet, PacketError>)
        ensures
            match r {
                Ok(p) => {
                    &&& parse(slice@) == Ok::<Frame, PacketError>(p@)
                    &&& p.wf()
                    &&& forall|j: int| p.len <= j < MAX_PAYLOAD ==> p.data@[j] == 0
                },
                Err(e) => parse(slice@) == Err::<Frame, PacketError>(e),
            },
    {
        if slice.len() < MIN_BUFFER {
            return Err(PacketError::InvalidPacket);
        }
        for i in 0..7usize
            invariant
                slice@.len() >= MIN_BUFFER,
                forall|j: int| 0 <= j < i ==> slice@[j] == PREAMBLE,
        {
            if slice[i] != PREAMBLE {
                return Err(PacketError::NoStart);
            }
        }
        if slice.len() < PAYLOAD_START {
            return Err(PacketError::InvalidPacket);
        }
        let len: usize = slice[20] as usize * 256 + slice[21] as usize;
        if len > MAX_PAYLOAD || len > slice.len() - PAYLOAD_START {
            return Err(PacketError::InvalidPacket);
        }
        let mut out = Packet::new();
        for i in 0..6usize
            invariant
                slice@.len() >= PAYLOAD_START,
                forall|j: int| 0 <= j < i ==> out.dest@[j] == slice@[8 + j],
                out.sfd == SFD,
                out.len == 0,
                out.data@ == zeros(MAX_PAYLOAD as nat),
        {
            out.dest[i] = slice[i + 8];
        }
        for i in 0..6usize
            invariant
                slice@.len() >= PAYLOAD_START,
                forall|j: int| 0 <= j < 6 ==> out.dest@[j] == slice@[8 + j],
                forall|j: int| 0 <= j < i ==> out.src@[j] == slice@[14 + j],
                out.sfd == SFD,
                out.len == 0,
                out.data@ == zeros(MAX_PAYLOAD as nat),
        {
            out.src[i] = slice[i + 14];
        }
        for i in 0..len
            invariant
                len <= MAX_PAYLOAD,
                PAYLOAD_START + len <= slice@.len(),
                forall|j: int| 0 <= j < 6 ==> out.dest@[j] == slice@[8 + j],
                forall|j: int| 0 <= j < 6 ==> out.src@[j] == slice@[14 + j],
                forall|j: int| 0 <= j < i ==> out.data@[j] == slice@[22 + j],
                forall|j: int| i <= j < MAX_PAYLOAD ==> out.data@[j] == 0,
                out.sfd == SFD,
                out.len == 0,
        {
            out.data[i] = slice[i + 22];
        }
        out.len = len;
        proof {
            let f = parse(slice@).unwrap();
            assert(out@.dest =~= f.dest);
            assert(out@.src =~= f.src);
            assert(out@.payload =~= f.payload);
        }
        Ok(out)
    }
}

/// Decoding what encoding produced gives the frame back: the same addresses,
/// the same payload and so the same length. The delimiter comes back as the
/// standard one, whatever the frame carried.
pub proof fn parse_inverts_wire(f: Frame)
    requires
        f.wf(),
    ensures
        parse(wire(f)) == Ok::<Frame, PacketError>(
            Frame { sfd: SFD, dest: f.dest, src: f.src, payload: f.payload },
        ),
{
    let w = wire(f);
    let n = f.payload.len();
    assert(w.len() == FRAME_LEN);
    assert(has_preamble(w));
    assert(w[20] == (n / 256) as u8);
    assert(w[21] == (n % 256) as u8);
    assert(declared_len(w) == n);
    assert(w.subrange(8, 14) =~= f.dest);
    assert(w.subrange(14, 20) =~= f.src);
    assert(w.subrange(PAYLOAD_START as int, PAYLOAD_START + n) =~= f.payload);
}

/// A buffer of fewer than 14 bytes is never a frame.
pub proof fn short_buffer_is_invalid(bytes: Seq<u8>)
    requires
        bytes.len() < MIN_BUFFER,
    ensures
        parse(bytes) == Err::<Frame, PacketError>(PacketError::InvalidPacket),
{
}

/// A buffer long enough to be looked into, whose first byte is not the
/// preamble pattern, has no start.
pub proof fn bad_first_byte_is_no_start(bytes: Seq<u8>)
    requires
        bytes.len() >= MIN_BUFFER,
        bytes[0] != PREAMBLE,
    ensures
        parse(bytes) == Err::<Frame, PacketError>(PacketError::NoStart),
{
}

} // verus!
