//! Encoding and decoding of WebSocket frames.

use vstd::prelude::*;

verus! {

/// The payload kind carried by a frame.
#[derive(Clone, Copy, Debug, PartialEq, Eq, Structural)]
pub enum OpCode {
    Continuation,
    Text,
    Binary,
    Close,
    Ping,
    Pong,
}

/// Why a byte buffer could not be read as a frame.
#[derive(Clone, Copy, Debug, PartialEq, Eq, Structural)]
pub enum FrameError {
    /// The low four bits of the first byte name no known opcode.
    UnknownOpcode(u8),
    /// The buffer ends before the header or the announced payload does.
    Truncated,
}

/// The wire value of an opcode.
pub open spec fn opcode_value(op: OpCode) -> u8 {
    match op {
        OpCode::Continuation => 0,
        OpCode::Text => 1,
        OpCode::Binary => 2,
        OpCode::Close => 8,
        OpCode::Ping => 9,
        OpCode::Pong => 10,
    }
}

/// The opcode that a wire value names, if any.
pub open spec fn opcode_of(v: u8) -> Option<OpCode> {
    if v == 0 {
        Some(OpCode::Continuation)
    } else if v == 1 {
        Some(OpCode::Text)
    } else if v == 2 {
        Some(OpCode::Binary)
    } else if v == 8 {
        Some(OpCode::Close)
    } else if v == 9 {
        Some(OpCode::Ping)
    } else if v == 10 {
        Some(OpCode::Pong)
    } else {
        None
    }
}

impl OpCode {
    pub fn to_u8(&self) -> (r: u8)
        ensures
            r == opcode_value(*self),
    {
        match self {
            OpCode::Continuation => 0,
            OpCode::Text => 1,
            OpCode::Binary => 2,
            OpCode::Close => 8,
            OpCode::Ping => 9,
            OpCode::Pong => 10,
        }
    }

    pub fn from_u8(num: u8) -> (r: Result<OpCode, FrameError>)
        ensures
            match opcode_of(num) {
                Some(op) => r == Ok::<OpCode, FrameError>(op),
                None => r == Err::<OpCode, FrameError>(FrameError::UnknownOpcode(num)),
            },
    {
        match num {
            0 => Ok(OpCode::Continuation),
            1 => Ok(OpCode::Text),
            2 => Ok(OpCode::Binary),
            8 => Ok(OpCode::Close),
            9 => Ok(OpCode::Ping),
            10 => Ok(OpCode::Pong),
            _ => Err(FrameError::UnknownOpcode(num)),
        }
    }
}


/// What a frame means, independent of its wire form.
pub struct FrameModel {
    pub fin: bool,
    pub opcode: OpCode,
    pub masked: bool,
    pub masking_key: Seq<u8>,
    pub payload: Seq<u8>,
}

/// `256` raised to `k`.
pub open spec fn pow256(k: nat) -> nat
    decreases k,
{
    if k == 0 {
        1
    } else {
        256 * pow256((k - 1) as nat)
    }
}

/// The number that a run of bytes spells, most significant byte first.
pub open spec fn be_value(s: Seq<u8>) -> nat
    decreases s.len(),
{
    if s.len() == 0 {
        0
    } else {
        (be_value(s.drop_last()) * 256 + s.last()) as nat
    }
}

/// The last `count` bytes of `n`, most significant first.
pub open spec fn be_bytes(n: nat, count: nat) -> Seq<u8>
    decreases count,
{
    if count == 0 {
        Seq::empty()
    } else {
        be_bytes(n / 256, (count - 1) as nat).push((n % 256) as u8)
    }
}

/// XOR of each byte with the key byte at its position modulo four.
/// Masking and unmasking are the same operation.
pub open spec fn apply_mask(data: Seq<u8>, key: Seq<u8>) -> Seq<u8> {
    Seq::new(data.len(), |i: int| data[i] ^ key[i % 4])
}

/// The key that an unmasked frame carries.
pub open spec fn zero_key() -> Seq<u8> {
    seq![0u8, 0u8, 0u8, 0u8]
}

/// The second byte and the extended length of a frame header, narrowest
/// encoding first.
pub open spec fn length_field(masked: bool, len: nat) -> Seq<u8> {
    let m: nat = if masked {
        128
    } else {
        0
    };
    if len < 126 {
        seq![(m + len) as u8]
    } else if len < 65536 {
        seq![(m + 126) as u8] + be_bytes(len, 2)
    } else {
        seq![(m + 127) as u8] + be_bytes(len, 8)
    }
}

/// The wire form of a frame.
pub open spec fn encode_frame(f: FrameModel) -> Seq<u8> {
    let first: nat = if f.fin {
        (128 + opcode_value(f.opcode)) as nat
    } else {
        opcode_value(f.opcode) as nat
    };
    seq![first as u8] + length_field(f.masked, f.payload.len()) + if f.masked {
        f.masking_key + apply_mask(f.payload, f.masking_key)
    } else {
        f.payload
    }
}

/// How many extended-length bytes follow a second header byte.
pub open spec fn extended_len_size(b1: u8) -> nat {
    if b1 % 128 == 126 {
        2
    } else if b1 % 128 == 127 {
        8
    } else {
        0
    }
}

/// The size of the header that a second header byte announces.
pub open spec fn header_size(b1: u8) -> nat {
    2 + extended_len_size(b1) + if b1 >= 128 {
        4nat
    } else {
        0nat
    }
}

/// The payload length that a header announces.
pub open spec fn announced_len(data: Seq<u8>) -> nat {
    let ext = extended_len_size(data[1]);
    if ext == 0 {
        (data[1] % 128) as nat
    } else {
        be_value(data.subrange(2, (2 + ext) as int))
    }
}

/// What a buffer that starts with one frame decodes to.
pub open spec fn decode_frame(data: Seq<u8>) -> Result<FrameModel, FrameError> {
    if data.len() == 0 {
        Err(FrameError::Truncated)
    } else if opcode_of(data[0] % 16) is None {
        Err(FrameError::UnknownOpcode(data[0] % 16))
    } else if data.len() < 2 || data.len() < header_size(data[1]) {
        Err(FrameError::Truncated)
    } else if data.len() < header_size(data[1]) + announced_len(data) {
        Err(FrameError::Truncated)
    } else {
        let masked = data[1] >= 128;
        let key_at = 2 + extended_len_size(data[1]);
        let start = header_size(data[1]);
        let body = data.subrange(start as int, (start + announced_len(data)) as int);
        let key = if masked {
            data.subrange(key_at as int, (key_at + 4) as int)
        } else {
            zero_key()
        };
        Ok(
            FrameModel {
                fin: data[0] >= 128,
                opcode: opcode_of(data[0] % 16).unwrap(),
                masked,
                masking_key: key,
                payload: if masked {
                    apply_mask(body, key)
                } else {
                    body
                },
            },
        )
    }
}

/// Powers of 256 grow with the exponent.
proof fn lemma_pow256_mono(a: nat, b: nat)
    requires
        a <= b,
    ensures
        pow256(a) <= pow256(b),
    decreases b,
{
    if a < b {
        lemma_pow256_mono(a, (b - 1) as nat);
    }
}

/// The bounds of the 16-bit and 64-bit length encodings.
proof fn lemma_pow256_values()
    ensures
        pow256(2) == 65536,
        pow256(8) == 0x1_0000_0000_0000_0000,
{
    assert(pow256(0) == 1);
    assert(pow256(1) == 256);
    assert(pow256(2) == 65536);
    assert(pow256(3) == 0x100_0000);
    assert(pow256(4) == 0x1_0000_0000);
    assert(pow256(5) == 0x100_0000_0000);
    assert(pow256(6) == 0x1_0000_0000_0000);
    assert(pow256(7) == 0x100_0000_0000_0000);
}

/// A run of bytes spells a number below 256 to the power of its length.
proof fn lemma_be_value_bound(s: Seq<u8>)
    ensures
        be_value(s) < pow256(s.len()),
    decreases s.len(),
{
    if s.len() > 0 {
        let v = be_value(s.drop_last());
        let p = pow256((s.len() - 1) as nat);
        let l = s.last();
        lemma_be_value_bound(s.drop_last());
        assert(v * 256 + l < 256 * p) by (nonlinear_arith)
            requires
                v < p,
                l < 256,
        ;
    }
}

/// Writing a number in `count` bytes and reading it back gives the number.
proof fn lemma_be_bytes_value(n: nat, count: nat)
    requires
        n < pow256(count),
    ensures
        be_bytes(n, count).len() == count,
        be_value(be_bytes(n, count)) == n,
    decreases count,
{
    if count > 0 {
        let p = pow256((count - 1) as nat);
        assert(n / 256 < p) by (nonlinear_arith)
            requires
                n < 256 * p,
        ;
        lemma_be_bytes_value(n / 256, (count - 1) as nat);
        assert(be_bytes(n, count).drop_last() =~= be_bytes(n / 256, (count - 1) as nat));
        assert((n / 256) * 256 + n % 256 == n) by (nonlinear_arith);
    }
}

proof fn lemma_xor_twice(a: u8, k: u8)
    ensures
        (a ^ k) ^ k == a,
{
    assert((a ^ k) ^ k == a) by (bit_vector);
}

/// Masking twice with the same key gives the data back.
pub proof fn lemma_mask_involution(data: Seq<u8>, key: Seq<u8>)
    requires
        key.len() == 4,
    ensures
        apply_mask(apply_mask(data, key), key) == data,
{
    assert forall|i: int| 0 <= i < data.len() implies apply_mask(apply_mask(data, key), key)[i]
        == data[i] by {
        lemma_xor_twice(data[i], key[i % 4]);
    }
    assert(apply_mask(apply_mask(data, key), key) =~= data);
}

/// A frame that encoding can represent and decoding gives back as it is:
/// a four-byte key, zero unless the frame is masked, and a payload length that
/// fits in 64 bits.
pub open spec fn canonical(f: FrameModel) -> bool {
    &&& f.masking_key.len() == 4
    &&& f.payload.len() < pow256(8)
    &&& (f.masked || f.masking_key == zero_key())
}

/// Decoding the wire form of a canonical frame gives that frame.
pub proof fn lemma_decode_encode(f: FrameModel)
    requires
        canonical(f),
    ensures
        decode_frame(encode_frame(f)) == Ok::<FrameModel, FrameError>(f),
{
    let n = f.payload.len();
    let data = encode_frame(f);
    let lf = length_field(f.masked, n);
    let tail = if f.masked {
        f.masking_key + apply_mask(f.payload, f.masking_key)
    } else {
        f.payload
    };
    let first: nat = if f.fin {
        (128 + opcode_value(f.opcode)) as nat
    } else {
        opcode_value(f.opcode) as nat
    };
    assert(data == seq![first as u8] + lf + tail);
    let ext: nat = if n < 126 {
        0
    } else if n < 65536 {
        2
    } else {
        8
    };
    lemma_pow256_values();
    if ext > 0 {
        lemma_be_bytes_value(n, ext);
    }
    assert(lf.len() == 1 + ext);
    assert(data[0] == first as u8);
    assert(data[1] == lf[0]);
    assert(data[0] % 16 == opcode_value(f.opcode));
    assert(opcode_of(data[0] % 16) == Some(f.opcode));
    assert(extended_len_size(data[1]) == ext);
    let h = header_size(data[1]);
    assert(h == 1 + lf.len() + if f.masked {
        4nat
    } else {
        0nat
    });
    if ext > 0 {
        assert(data.subrange(2, (2 + ext) as int) =~= lf.subrange(1, (1 + ext) as int));
        assert(lf.subrange(1, (1 + ext) as int) =~= be_bytes(n, ext));
    }
    assert(announced_len(data) == n);
    let body = data.subrange(h as int, (h + n) as int);
    if f.masked {
        assert(data.subrange((2 + ext) as int, (6 + ext) as int) =~= f.masking_key);
        assert(body =~= apply_mask(f.payload, f.masking_key));
        lemma_mask_involution(f.payload, f.masking_key);
    } else {
        assert(body =~= f.payload);
    }
}

/// Encoding, decoding and encoding again an unmasked frame gives the bytes of
/// the first encoding.
pub proof fn lemma_round_trip(f: FrameModel)
    requires
        !f.masked,
        f.masking_key.len() == 4,
        f.payload.len() < pow256(8),
    ensures
        decode_frame(encode_frame(f)) is Ok,
        encode_frame(decode_frame(encode_frame(f))->Ok_0) == encode_frame(f),
{
    let g = FrameModel { masking_key: zero_key(), ..f };
    assert(encode_frame(g) == encode_frame(f));
    lemma_decode_encode(g);
}

/// The bytes of `value` that `be_bytes` names, most significant first.
fn big_endian_bytes(value: u64, byte_count: usize) -> (r: Vec<u8>)
    ensures
        r@ == be_bytes(value as nat, byte_count as nat),
    decreases byte_count,
{
    if byte_count == 0 {
        Vec::new()
    } else {
        let mut v = big_endian_bytes(value / 256, byte_count - 1);
        v.push((value % 256) as u8);
        v
    }
}

/// One WebSocket frame, with its payload already unmasked.
pub struct WebSocketFrame {
    pub fin: bool,
    pub op_code: OpCode,
    pub mask: bool,
    pub payload_length: u64,
    pub masking_key: [u8; 4],
    pub payload_data: Vec<u8>,
}

impl View for WebSocketFrame {
    type V = FrameModel;

    open spec fn view(&self) -> FrameModel {
        FrameModel {
            fin: self.fin,
            opcode: self.op_code,
            masked: self.mask,
            masking_key: self.masking_key@,
            payload: self.payload_data@,
        }
    }
}

impl WebSocketFrame {
    /// The stored length is the payload's.
    pub open spec fn wf(&self) -> bool {
        self.payload_length == self.payload_data@.len()
    }

    pub fn new(
        fin: bool,
        op_code: OpCode,
        mask: bool,
        masking_key: [u8; 4],
        payload_data: Vec<u8>,
    ) -> (r: Self)
        ensures
            r.wf(),
            r@ == (FrameModel {
                fin,
                opcode: op_code,
                masked: mask,
                masking_key: masking_key@,
                payload: payload_data@,
            }),
    {
        let payload_length = payload_data.len() as u64;
        WebSocketFrame { fin, op_code, mask, payload_length, masking_key, payload_data }
    }

    /// Reads `byte_count` bytes from `byte_idx` on as one big-endian number.
    pub fn decode_payload_length(frame_data: &[u8], byte_idx: usize, byte_count: usize) -> (r: u64)
        requires
            byte_count <= 8,
            byte_idx + byte_count <= frame_data@.len(),
        ensures
            r == be_value(frame_data@.subrange(byte_idx as int, byte_idx + byte_count)),
    {
        let mut new_size: u64 = 0;
        let mut i: usize = 0;
        while i < byte_count
            invariant
                i <= byte_count,
                byte_count <= 8,
                byte_idx + byte_count <= frame_data.len(),
                new_size == be_value(frame_data@.subrange(byte_idx as int, byte_idx + i)),
            decreases byte_count - i,
        {
            proof {
                let t = frame_data@.subrange(byte_idx as int, byte_idx + i + 1);
                assert(t.drop_last() =~= frame_data@.subrange(byte_idx as int, byte_idx + i));
                lemma_be_value_bound(t);
                lemma_pow256_mono((i + 1) as nat, 8);
                lemma_pow256_values();
            }
            new_size = new_size * 256 + frame_data[byte_idx + i] as u64;
            i += 1;
        }
        new_size
    }

    /// Reads the frame at the start of `frame_data`.
    pub fn from_bytes(frame_data: &[u8]) -> (r: Result<WebSocketFrame, FrameError>)
        ensures
            match r {
                Ok(f) => f.wf() && decode_frame(frame_data@) == Ok::<FrameModel, FrameError>(f@),
                Err(e) => decode_frame(frame_data@) == Err::<FrameModel, FrameError>(e),
            },
    {
        if frame_data.len() == 0 {
            return Err(FrameError::Truncated);
        }
        let b0 = frame_data[0];
        let fin = b0 >= 128;
        let op_code = match OpCode::from_u8(b0 % 16) {
            Ok(code) => code,
            Err(e) => return Err(e),
        };
        if frame_data.len() < 2 {
            return Err(FrameError::Truncated);
        }
        let b1 = frame_data[1];
        let mask = b1 >= 128;
        let base = b1 % 128;
        let ext: usize = if base == 126 {
            2
        } else if base == 127 {
            8
        } else {
            0
        };
        let header: usize = if mask {
            6 + ext
        } else {
            2 + ext
        };
        if frame_data.len() < header {
            return Err(FrameError::Truncated);
        }
        let payload_length: u64 = if ext == 0 {
            base as u64
        } else {
            Self::decode_payload_length(frame_data, 2, ext)
        };
        if payload_length > (frame_data.len() - header) as u64 {
            return Err(FrameError::Truncated);
        }
        let len = payload_length as usize;
        let masking_key: [u8; 4] = if mask {
            [frame_data[2 + ext], frame_data[3 + ext], frame_data[4 + ext], frame_data[5 + ext]]
        } else {
            [0u8; 4]
        };
        let ghost body = frame_data@.subrange(header as int, header + len);
        let mut payload: Vec<u8> = Vec::with_capacity(len);
        let mut i: usize = 0;
        while i < len
            invariant
                i <= len,
                header + len <= frame_data.len(),
                body == frame_data@.subrange(header as int, header + len),
                payload@.len() == i,
                forall|j: int|
                    0 <= j < i ==> payload@[j] == if mask {
                        body[j] ^ masking_key@[j % 4]
                    } else {
                        body[j]
                    },
            decreases len - i,
        {
            let b = frame_data[header + i];
            if mask {
                payload.push(b ^ masking_key[i % 4]);
            } else {
                payload.push(b);
            }
            i += 1;
        }
        proof {
            let key = if mask {
                frame_data@.subrange((2 + ext) as int, (6 + ext) as int)
            } else {
                zero_key()
            };
            assert(masking_key@ =~= key);
            if mask {
                assert(payload@ =~= apply_mask(body, key));
            } else {
                assert(payload@ =~= body);
            }
        }
        Ok(Self::new(fin, op_code, mask, masking_key, payload))
    }

    /// The wire form of this frame, its length in the narrowest encoding.
    pub fn to_bytes(self) -> (r: Vec<u8>)
        requires
            self.wf(),
        ensures
            r@ == encode_frame(self@),
    {
        let op = self.op_code.to_u8();
        let mut out: Vec<u8> = Vec::new();
        out.push(if self.fin {
            128 + op
        } else {
            op
        });
        let m: u8 = if self.mask {
            128
        } else {
            0
        };
        proof {
            lemma_pow256_values();
        }
        if self.payload_length < 126 {
            out.push(m + self.payload_length as u8);
        } else if self.payload_length < 65536 {
            out.push(m + 126);
            let mut ext = big_endian_bytes(self.payload_length, 2);
            out.append(&mut ext);
        } else {
            out.push(m + 127);
            let mut ext = big_endian_bytes(self.payload_length, 8);
            out.append(&mut ext);
        }
        let ghost prefix = out@;
        assert(prefix =~= encode_frame(self@).subrange(0, prefix.len() as int));
        if self.mask {
            let key = self.masking_key;
            out.push(key[0]);
            out.push(key[1]);
            out.push(key[2]);
            out.push(key[3]);
            let ghost keyed = out@;
            assert(keyed =~= prefix + key@);
            let n = self.payload_data.len();
            let mut i: usize = 0;
            while i < n
                invariant
                    i <= n,
                    n == self.payload_data@.len(),
                    out@.len() == keyed.len() + i,
                    out@.subrange(0, keyed.len() as int) == keyed,
                    forall|j: int|
                        0 <= j < i ==> out@[keyed.len() + j] == self.payload_data@[j] ^ key@[j
                            % 4],
                decreases n - i,
            {
                out.push(self.payload_data[i] ^ key[i % 4]);
                i += 1;
            }
            assert(out@.subrange(keyed.len() as int, out@.len() as int) =~= apply_mask(
                self.payload_data@,
                key@,
            ));
            assert(out@ =~= keyed + out@.subrange(keyed.len() as int, out@.len() as int));
            assert(out@ =~= prefix + (key@ + apply_mask(self.payload_data@, key@)));
        } else {
            let mut data = self.payload_data;
            out.append(&mut data);
        }
        out
    }
}

} // verus!
