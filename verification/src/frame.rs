//! The frame codec: encoding a frame description into its wire bytes and
//! decoding a byte buffer back into a frame, per the base framing format
//! of RFC 6455 (header bits, variable payload-length field, masking).

use crate::mask::{spec_xor_with_key, xor_with_key};
use vstd::prelude::*;
use vstd::slice::{slice_subrange, slice_to_vec};

verus! {

/// Decode failure: the buffer ends before the header, the extended length
/// field, the mask key, or the payload that the header declares.
#[derive(Clone, Copy, Debug, PartialEq, Eq, Structural)]
pub enum FrameError {
    TruncatedFrame,
}

/// Mathematical model of one frame: the control bits, the 4-bit opcode,
/// the mask flag, and the unmasked payload bytes. The payload length is
/// not modelled separately; it is `payload.len()`.
#[verifier::ext_equal]
pub struct FrameView {
    pub fin: bool,
    pub rsv1: bool,
    pub rsv2: bool,
    pub rsv3: bool,
    pub opcode: u8,
    pub mask: bool,
    pub payload: Seq<u8>,
}

impl FrameView {
    /// The opcode fits the 4-bit field of the first header byte.
    pub open spec fn wf(self) -> bool {
        self.opcode < 16
    }
}

/// One WebSocket frame: whether it completes a message (`fin`), the three
/// reserved extension bits, the opcode, the mask flag, and the unmasked,
/// application-visible payload.
pub struct Frame {
    pub fin: bool,
    pub rsv1: bool,
    pub rsv2: bool,
    pub rsv3: bool,
    pub opcode: u8,
    pub mask: bool,
    pub payload: Vec<u8>,
}

impl View for Frame {
    type V = FrameView;

    open spec fn view(&self) -> FrameView {
        FrameView {
            fin: self.fin,
            rsv1: self.rsv1,
            rsv2: self.rsv2,
            rsv3: self.rsv3,
            opcode: self.opcode,
            mask: self.mask,
            payload: self.payload@,
        }
    }
}

/// A flag bit as the value of its field: 1 when set, 0 when clear.
pub open spec fn bit_of(b: bool) -> u8 {
    if b {
        1u8
    } else {
        0u8
    }
}

/// First header byte: fin in bit 7, the reserved bits in bits 6..4, the
/// opcode in the low 4 bits.
pub open spec fn spec_header_byte0(f: FrameView) -> u8 {
    (bit_of(f.fin) << 7) | (bit_of(f.rsv1) << 6) | (bit_of(f.rsv2) << 5) | (bit_of(f.rsv3) << 4)
        | f.opcode
}

/// The 7-bit length selector: the length itself up to 125, 126 when a
/// 2-byte extended field follows, 127 when an 8-byte field follows.
pub open spec fn spec_len_selector(n: nat) -> u8 {
    if n <= 125 {
        n as u8
    } else if n <= 65535 {
        126u8
    } else {
        127u8
    }
}

/// Second header byte: the mask flag in bit 7, the length selector in the
/// low 7 bits.
pub open spec fn spec_header_byte1(f: FrameView) -> u8 {
    (bit_of(f.mask) << 7) | spec_len_selector(f.payload.len())
}

/// A 16-bit value as its two big-endian bytes.
pub open spec fn spec_u16_be(n: u16) -> Seq<u8> {
    seq![(((n >> 8) & 0xff) as u8), ((n & 0xff) as u8)]
}

/// A 64-bit value as its eight big-endian bytes.
pub open spec fn spec_u64_be(n: u64) -> Seq<u8> {
    seq![
        (((n >> 56) & 0xff) as u8),
        (((n >> 48) & 0xff) as u8),
        (((n >> 40) & 0xff) as u8),
        (((n >> 32) & 0xff) as u8),
        (((n >> 24) & 0xff) as u8),
        (((n >> 16) & 0xff) as u8),
        (((n >> 8) & 0xff) as u8),
        ((n & 0xff) as u8),
    ]
}

/// The extended length field that follows the two header bytes: absent for
/// lengths up to 125, two big-endian bytes up to 65535, eight above that.
pub open spec fn spec_extended_len(n: nat) -> Seq<u8> {
    if n <= 125 {
        Seq::<u8>::empty()
    } else if n <= 65535 {
        spec_u16_be(n as u16)
    } else {
        spec_u64_be(n as u64)
    }
}

/// The wire bytes of a frame: the two header bytes, the extended length
/// field, then the payload. No mask key field is emitted: frames encoded
/// by this core are unmasked (server-to-client frames carry no key).
pub open spec fn spec_encode(f: FrameView) -> Seq<u8> {
    seq![spec_header_byte0(f), spec_header_byte1(f)] + spec_extended_len(f.payload.len())
        + f.payload
}

/// Two big-endian bytes as the 16-bit value they encode.
pub open spec fn spec_be16(b0: u8, b1: u8) -> u16 {
    ((b0 as u16) << 8) | (b1 as u16)
}

/// Eight big-endian bytes as the 64-bit value they encode.
pub open spec fn spec_be64(b0: u8, b1: u8, b2: u8, b3: u8, b4: u8, b5: u8, b6: u8, b7: u8) -> u64 {
    ((b0 as u64) << 56) | ((b1 as u64) << 48) | ((b2 as u64) << 40) | ((b3 as u64) << 32) | (
    (b4 as u64) << 24) | ((b5 as u64) << 16) | ((b6 as u64) << 8) | (b7 as u64)
}

/// What decoding a buffer yields: the frame it holds, or `TruncatedFrame`
/// when the buffer ends before the bytes the header declares. When the
/// mask flag is set, a 4-byte key follows the length field and the payload
/// is unmasked with it; otherwise the payload follows the length field
/// directly. Bytes beyond the declared payload are ignored.
pub open spec fn spec_decode(s: Seq<u8>) -> Result<FrameView, FrameError> {
    if s.len() < 2 {
        Err(FrameError::TruncatedFrame)
    } else {
        let b0 = s[0];
        let b1 = s[1];
        let sel = b1 & 0x7f;
        let mask = ((b1 >> 7) & 1) == 1;
        if sel == 126 && s.len() < 4 {
            Err(FrameError::TruncatedFrame)
        } else if sel == 127 && s.len() < 10 {
            Err(FrameError::TruncatedFrame)
        } else {
            let plen: nat = if sel <= 125 {
                sel as nat
            } else if sel == 126 {
                spec_be16(s[2], s[3]) as nat
            } else {
                spec_be64(s[2], s[3], s[4], s[5], s[6], s[7], s[8], s[9]) as nat
            };
            let koff: nat = if sel <= 125 {
                2
            } else if sel == 126 {
                4
            } else {
                10
            };
            let poff: nat = if mask {
                koff + 4
            } else {
                koff
            };
            if s.len() < poff + plen {
                Err(FrameError::TruncatedFrame)
            } else {
                let raw = s.subrange(poff as int, (poff + plen) as int);
                Ok(
                    FrameView {
                        fin: ((b0 >> 7) & 1) == 1,
                        rsv1: ((b0 >> 6) & 1) == 1,
                        rsv2: ((b0 >> 5) & 1) == 1,
                        rsv3: ((b0 >> 4) & 1) == 1,
                        opcode: b0 & 0x0f,
                        mask: mask,
                        payload: if mask {
                            spec_xor_with_key(raw, s.subrange(koff as int, koff as int + 4))
                        } else {
                            raw
                        },
                    },
                )
            }
        }
    }
}

impl Frame {
    /// Build a frame from its parts; the payload is copied.
    pub fn new(
        fin: bool,
        rsv1: bool,
        rsv2: bool,
        rsv3: bool,
        opcode: u8,
        mask: bool,
        payload: &[u8],
    ) -> (r: Frame)
        requires
            opcode < 16,
        ensures
            r@ == (FrameView { fin, rsv1, rsv2, rsv3, opcode, mask, payload: payload@ }),
            r@.wf(),
    {
        Frame { fin, rsv1, rsv2, rsv3, opcode, mask, payload: slice_to_vec(payload) }
    }

    /// Encode the frame into its wire bytes.
    pub fn as_bytes(&self) -> (r: Vec<u8>)
        requires
            self@.wf(),
        ensures
            r@ == spec_encode(self@),
    {
        let b0: u8 = ((if self.fin {
            1u8
        } else {
            0u8
        }) << 7) | ((if self.rsv1 {
            1u8
        } else {
            0u8
        }) << 6) | ((if self.rsv2 {
            1u8
        } else {
            0u8
        }) << 5) | ((if self.rsv3 {
            1u8
        } else {
            0u8
        }) << 4) | self.opcode;
        let n = self.payload.len();
        let sel: u8 = if n <= 125 {
            n as u8
        } else if n <= 65535 {
            126u8
        } else {
            127u8
        };
        let b1: u8 = ((if self.mask {
            1u8
        } else {
            0u8
        }) << 7) | sel;
        let mut out: Vec<u8> = Vec::new();
        out.push(b0);
        out.push(b1);
        if n > 125 && n <= 65535 {
            let n16: u16 = n as u16;
            proof {
                assert((n16 >> 8) & 0xff < 256 && n16 & 0xff < 256) by (bit_vector);
            }
            out.push(((n16 >> 8) & 0xff) as u8);
            out.push((n16 & 0xff) as u8);
        } else if n > 65535 {
            let n64: u64 = n as u64;
            proof {
                assert((n64 >> 56) & 0xff < 256 && (n64 >> 48) & 0xff < 256 && (n64 >> 40) & 0xff
                    < 256 && (n64 >> 32) & 0xff < 256 && (n64 >> 24) & 0xff < 256 && (n64 >> 16)
                    & 0xff < 256 && (n64 >> 8) & 0xff < 256 && n64 & 0xff < 256) by (bit_vector);
            }
            out.push(((n64 >> 56) & 0xff) as u8);
            out.push(((n64 >> 48) & 0xff) as u8);
            out.push(((n64 >> 40) & 0xff) as u8);
            out.push(((n64 >> 32) & 0xff) as u8);
            out.push(((n64 >> 24) & 0xff) as u8);
            out.push(((n64 >> 16) & 0xff) as u8);
            out.push(((n64 >> 8) & 0xff) as u8);
            out.push((n64 & 0xff) as u8);
        }
        let ghost header = out@;
        proof {
            assert(header =~= seq![spec_header_byte0(self@), spec_header_byte1(self@)]
                + spec_extended_len(self@.payload.len()));
        }
        let mut i: usize = 0;
        while i < self.payload.len()
            invariant
                i <= self.payload@.len(),
                out@ == header + self.payload@.take(i as int),
            decreases self.payload@.len() - i,
        {
            out.push(self.payload[i]);
            proof {
                assert(header + self.payload@.take(i as int) + seq![self.payload@[i as int]]
                    =~= header + self.payload@.take(i as int + 1));
            }
            i += 1;
        }
        proof {
            assert(self.payload@.take(self.payload@.len() as int) =~= self.payload@);
            assert(out@ =~= spec_encode(self@));
        }
        out
    }

    /// Decode one frame from the front of a buffer. Fails with
    /// `TruncatedFrame`, never panics, when the buffer is shorter than the
    /// header, extended length field, mask key and payload it declares.
    pub fn parse(data: &[u8]) -> (r: Result<Frame, FrameError>)
        ensures
            r is Ok <==> spec_decode(data@) is Ok,
            r is Ok ==> (r->Ok_0)@ == spec_decode(data@)->Ok_0 && (r->Ok_0)@.wf(),
            r is Err ==> r->Err_0 == FrameError::TruncatedFrame,
    {
        if data.len() < 2 {
            return Err(FrameError::TruncatedFrame);
        }
        let b0 = data[0];
        let b1 = data[1];
        let sel: u8 = b1 & 0x7f;
        let mask: bool = ((b1 >> 7) & 1) == 1;
        proof {
            assert(b1 & 0x7f <= 127) by (bit_vector);
            assert(b0 & 0x0f < 16) by (bit_vector);
        }
        if sel == 126 && data.len() < 4 {
            return Err(FrameError::TruncatedFrame);
        }
        if sel == 127 && data.len() < 10 {
            return Err(FrameError::TruncatedFrame);
        }
        let plen64: u64;
        let koff: usize;
        if sel <= 125 {
            plen64 = sel as u64;
            koff = 2;
        } else if sel == 126 {
            plen64 = (((data[2] as u16) << 8) | (data[3] as u16)) as u64;
            koff = 4;
        } else {
            plen64 = ((data[2] as u64) << 56) | ((data[3] as u64) << 48) | ((data[4] as u64) << 40) | ((data[5] as u64) << 32) | ((data[6] as u64) << 24)
                | ((data[7] as u64) << 16) | ((data[8] as u64) << 8) | (data[9] as u64);
            koff = 10;
        }
        let poff: usize = if mask {
            koff + 4
        } else {
            koff
        };
        if data.len() < poff {
            return Err(FrameError::TruncatedFrame);
        }
        if plen64 > (data.len() - poff) as u64 {
            return Err(FrameError::TruncatedFrame);
        }
        let plen: usize = plen64 as usize;
        let raw = slice_subrange(data, poff, poff + plen);
        let payload: Vec<u8> = if mask {
            let key = slice_subrange(data, koff, koff + 4);
            xor_with_key(raw, key)
        } else {
            slice_to_vec(raw)
        };
        let f = Frame {
            fin: ((b0 >> 7) & 1) == 1,
            rsv1: ((b0 >> 6) & 1) == 1,
            rsv2: ((b0 >> 5) & 1) == 1,
            rsv3: ((b0 >> 4) & 1) == 1,
            opcode: b0 & 0x0f,
            mask,
            payload,
        };
        proof {
            assert(f@ =~= spec_decode(data@)->Ok_0);
        }
        Ok(f)
    }
}

proof fn lemma_byte0_bits(fb: u8, r1: u8, r2: u8, r3: u8, op: u8)
    by (bit_vector)
    requires
        fb <= 1,
        r1 <= 1,
        r2 <= 1,
        r3 <= 1,
        op < 16,
    ensures
        ((((fb << 7) | (r1 << 6) | (r2 << 5) | (r3 << 4) | op) >> 7) & 1) == fb,
        ((((fb << 7) | (r1 << 6) | (r2 << 5) | (r3 << 4) | op) >> 6) & 1) == r1,
        ((((fb << 7) | (r1 << 6) | (r2 << 5) | (r3 << 4) | op) >> 5) & 1) == r2,
        ((((fb << 7) | (r1 << 6) | (r2 << 5) | (r3 << 4) | op) >> 4) & 1) == r3,
        (((fb << 7) | (r1 << 6) | (r2 << 5) | (r3 << 4) | op) & 0x0f) == op,
{
}

proof fn lemma_byte1_bits(mb: u8, sel: u8)
    by (bit_vector)
    requires
        mb <= 1,
        sel <= 127,
    ensures
        (((mb << 7) | sel) & 0x7f) == sel,
        ((((mb << 7) | sel) >> 7) & 1) == mb,
{
}

proof fn lemma_u16_be_round(n: u16)
    by (bit_vector)
    ensures
        spec_be16((((n >> 8) & 0xff) as u8), ((n & 0xff) as u8)) == n,
{
}

proof fn lemma_u64_be_round(n: u64)
    by (bit_vector)
    ensures
        spec_be64(
            (((n >> 56) & 0xff) as u8),
            (((n >> 48) & 0xff) as u8),
            (((n >> 40) & 0xff) as u8),
            (((n >> 32) & 0xff) as u8),
            (((n >> 24) & 0xff) as u8),
            (((n >> 16) & 0xff) as u8),
            (((n >> 8) & 0xff) as u8),
            ((n & 0xff) as u8),
        ) == n,
{
}

/// Round trip: decoding the encoding of any well-formed unmasked frame
/// yields the frame back, whichever form the payload-length field takes.
/// The length bound is what an 8-byte length field can carry.
pub proof fn lemma_round_trip(f: FrameView)
    requires
        f.wf(),
        !f.mask,
        f.payload.len() <= u64::MAX,
    ensures
        spec_decode(spec_encode(f)) == Ok::<FrameView, FrameError>(f),
{
    let s = spec_encode(f);
    let n = f.payload.len();
    let b0 = spec_header_byte0(f);
    let b1 = spec_header_byte1(f);
    let sel = spec_len_selector(n);
    let ext = spec_extended_len(n);
    lemma_byte0_bits(bit_of(f.fin), bit_of(f.rsv1), bit_of(f.rsv2), bit_of(f.rsv3), f.opcode);
    assert(sel <= 127);
    lemma_byte1_bits(bit_of(f.mask), sel);
    assert(s.len() == 2 + ext.len() + n);
    assert(s[0] == b0);
    assert(s[1] == b1);
    assert((b1 & 0x7f) == sel);
    assert(((b1 >> 7) & 1) == 0);
    if n <= 125 {
        assert(sel as nat == n);
        assert(s.subrange(2, 2 + n as int) =~= f.payload);
    } else if n <= 65535 {
        let n16 = n as u16;
        lemma_u16_be_round(n16);
        assert(s[2] == (((n16 >> 8) & 0xff) as u8));
        assert(s[3] == ((n16 & 0xff) as u8));
        assert(spec_be16(s[2], s[3]) == n16);
        assert(s.subrange(4, (4 + n) as int) =~= f.payload);
    } else {
        let n64 = n as u64;
        lemma_u64_be_round(n64);
        assert(s[2] == (((n64 >> 56) & 0xff) as u8));
        assert(s[3] == (((n64 >> 48) & 0xff) as u8));
        assert(s[4] == (((n64 >> 40) & 0xff) as u8));
        assert(s[5] == (((n64 >> 32) & 0xff) as u8));
        assert(s[6] == (((n64 >> 24) & 0xff) as u8));
        assert(s[7] == (((n64 >> 16) & 0xff) as u8));
        assert(s[8] == (((n64 >> 8) & 0xff) as u8));
        assert(s[9] == ((n64 & 0xff) as u8));
        assert(spec_be64(s[2], s[3], s[4], s[5], s[6], s[7], s[8], s[9]) == n64);
        assert(s.subrange(10, (10 + n) as int) =~= f.payload);
    }
    let d = spec_decode(s);
    assert(d is Ok);
    assert(d->Ok_0 =~= f);
}

} // verus!
