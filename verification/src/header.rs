//! Frame headers and whole frames, with their byte encoding.
//!
//! A frame is a header followed by the body. The header starts with one
//! discriminant byte:
//!
//! - bits 0 and 1: width of the sequence number (0: one byte, 1: two, 2: four; 3 is refused);
//! - bits 2 and 3: width of the key (0: one byte, 1: two, 2: four, 3: eight);
//! - bit 4: the header is routed, and carries a source and a destination address;
//! - bits 5 to 7: zero.
//!
//! Then come the key and the sequence number, each little-endian in its width,
//! then, in a routed header, the source address byte and the destination address byte.

use vstd::prelude::*;
use vstd::slice::{slice_subrange, slice_to_vec};
use crate::le::{
    pow256,
    le_value,
    le_bytes,
    lemma_pow256_values,
    lemma_le_bytes_len,
    lemma_le_value_bound,
    lemma_le_value_of_bytes,
    lemma_le_bytes_of_value,
    lemma_le_bytes_index,
    push_le,
    read_le,
};

verus! {

/// The address of a node on a routed wire.
#[derive(Clone, Copy, Debug, PartialEq, Eq, Structural)]
pub struct Address(pub u8);

impl Address {
    pub open spec fn spec_localhost() -> Address {
        Address(0)
    }

    pub open spec fn spec_broadcast() -> Address {
        Address(0xff)
    }

    /// The address of this node: all zeros.
    #[verifier::when_used_as_spec(spec_localhost)]
    pub fn localhost() -> (a: Address)
        ensures
            a == Address::spec_localhost(),
    {
        Address(0)
    }

    /// The address that every node accepts: all ones.
    #[verifier::when_used_as_spec(spec_broadcast)]
    pub fn broadcast() -> (a: Address)
        ensures
            a == Address::spec_broadcast(),
    {
        Address(0xff)
    }
}

/// The key of a frame, in one of four widths.
#[derive(Clone, Copy, Debug, PartialEq, Eq, Structural)]
pub enum VarKey {
    Key1(u8),
    Key2(u16),
    Key4(u32),
    Key8(u64),
}

/// The sequence number of a frame, in one of three widths.
#[derive(Clone, Copy, Debug, PartialEq, Eq, Structural)]
pub enum VarSeq {
    Seq1(u8),
    Seq2(u16),
    Seq4(u32),
}

/// Source and destination of a routed frame.
#[derive(Clone, Copy, Debug, PartialEq, Eq, Structural)]
pub struct Route {
    pub src: Address,
    pub dst: Address,
}

/// A frame header: key, sequence number and, on a routed wire, the route.
#[derive(Clone, Copy, Debug, PartialEq, Eq, Structural)]
pub struct VarHeader {
    pub key: VarKey,
    pub seq_no: VarSeq,
    pub route: Option<Route>,
}

/// A header and the body that follows it.
#[derive(Clone, Debug)]
pub struct RpcMessage {
    pub header: VarHeader,
    pub body: Vec<u8>,
}

/// Which kind of header the frames of a wire carry.
pub trait HeaderMode {
    spec fn spec_routed() -> bool;

    /// Whether the headers of this mode carry a route.
    fn routed() -> (b: bool)
        ensures
            b == Self::spec_routed(),
    ;
}

/// Point-to-point wires: headers carry no route.
pub struct Unicast;

/// Shared wires: headers carry a source and a destination address.
pub struct Broadcast;

impl HeaderMode for Unicast {
    open spec fn spec_routed() -> bool {
        false
    }

    fn routed() -> (b: bool) {
        false
    }
}

impl HeaderMode for Broadcast {
    open spec fn spec_routed() -> bool {
        true
    }

    fn routed() -> (b: bool) {
        true
    }
}

// ---------------------------------------------------------------------------
// The encoding, as spec functions.
// ---------------------------------------------------------------------------

pub open spec fn key_code(k: VarKey) -> nat {
    match k {
        VarKey::Key1(_) => 0,
        VarKey::Key2(_) => 1,
        VarKey::Key4(_) => 2,
        VarKey::Key8(_) => 3,
    }
}

pub open spec fn key_value(k: VarKey) -> nat {
    match k {
        VarKey::Key1(v) => v as nat,
        VarKey::Key2(v) => v as nat,
        VarKey::Key4(v) => v as nat,
        VarKey::Key8(v) => v as nat,
    }
}

/// Width in bytes of a key whose code is `c`.
pub open spec fn key_width_of(c: nat) -> nat {
    if c == 0 {
        1
    } else if c == 1 {
        2
    } else if c == 2 {
        4
    } else {
        8
    }
}

/// The key of code `c` that holds `v`.
pub open spec fn key_from(c: nat, v: nat) -> VarKey {
    if c == 0 {
        VarKey::Key1(v as u8)
    } else if c == 1 {
        VarKey::Key2(v as u16)
    } else if c == 2 {
        VarKey::Key4(v as u32)
    } else {
        VarKey::Key8(v as u64)
    }
}

pub open spec fn seq_code(s: VarSeq) -> nat {
    match s {
        VarSeq::Seq1(_) => 0,
        VarSeq::Seq2(_) => 1,
        VarSeq::Seq4(_) => 2,
    }
}

pub open spec fn seq_value(s: VarSeq) -> nat {
    match s {
        VarSeq::Seq1(v) => v as nat,
        VarSeq::Seq2(v) => v as nat,
        VarSeq::Seq4(v) => v as nat,
    }
}

/// Width in bytes of a sequence number whose code is `c`.
pub open spec fn seq_width_of(c: nat) -> nat {
    if c == 0 {
        1
    } else if c == 1 {
        2
    } else {
        4
    }
}

/// The sequence number of code `c` that holds `v`.
pub open spec fn seq_from(c: nat, v: nat) -> VarSeq {
    if c == 0 {
        VarSeq::Seq1(v as u8)
    } else if c == 1 {
        VarSeq::Seq2(v as u16)
    } else {
        VarSeq::Seq4(v as u32)
    }
}

/// The first byte of the encoding of `h`.
pub open spec fn discriminant(h: VarHeader) -> nat {
    seq_code(h.seq_no) + 4 * key_code(h.key) + if h.route is Some {
        16nat
    } else {
        0nat
    }
}

pub open spec fn route_bytes(r: Option<Route>) -> Seq<u8> {
    match r {
        Some(r) => seq![r.src.0, r.dst.0],
        None => Seq::empty(),
    }
}

/// The bytes of a header.
pub open spec fn header_bytes(h: VarHeader) -> Seq<u8> {
    seq![discriminant(h) as u8] + le_bytes(key_value(h.key), key_width_of(key_code(h.key)))
        + le_bytes(seq_value(h.seq_no), seq_width_of(seq_code(h.seq_no))) + route_bytes(h.route)
}

/// The header at the start of `s` and its length in bytes, if `s` starts with one.
pub open spec fn parse_header(s: Seq<u8>) -> Option<(VarHeader, nat)> {
    if s.len() == 0 {
        None
    } else {
        let d = s[0] as nat;
        let sc = d % 4;
        let kc = (d / 4) % 4;
        let routed = d >= 16;
        if d >= 32 || sc == 3 {
            None
        } else {
            let kw = key_width_of(kc) as int;
            let sw = seq_width_of(sc) as int;
            let n = (1 + kw + sw + if routed {
                2int
            } else {
                0int
            }) as nat;
            if s.len() < n {
                None
            } else {
                let key = key_from(kc, le_value(s.subrange(1, 1 + kw)));
                let seq_no = seq_from(sc, le_value(s.subrange(1 + kw, 1 + kw + sw)));
                let route = if routed {
                    Some(Route { src: Address(s[1 + kw + sw]), dst: Address(s[2 + kw + sw]) })
                } else {
                    None
                };
                Some((VarHeader { key, seq_no, route }, n))
            }
        }
    }
}

/// The bytes of a frame: the header, then the body.
pub open spec fn frame_bytes(h: VarHeader, body: Seq<u8>) -> Seq<u8> {
    header_bytes(h) + body
}

/// The header and body of the frame `s` on a wire whose headers are routed
/// exactly when `routed` holds.
pub open spec fn parse_frame(s: Seq<u8>, routed: bool) -> Option<(VarHeader, Seq<u8>)> {
    match parse_header(s) {
        Some((h, n)) => if (h.route is Some) == routed {
            Some((h, s.skip(n as int)))
        } else {
            None
        },
        None => None,
    }
}

impl VarHeader {
    pub open spec fn spec_with_src(self, src: Address) -> VarHeader {
        VarHeader {
            key: self.key,
            seq_no: self.seq_no,
            route: match self.route {
                Some(r) => Some(Route { src, dst: r.dst }),
                None => None,
            },
        }
    }

    pub open spec fn spec_with_dst(self, dst: Address) -> VarHeader {
        VarHeader {
            key: self.key,
            seq_no: self.seq_no,
            route: match self.route {
                Some(r) => Some(Route { src: r.src, dst }),
                None => None,
            },
        }
    }

    /// The header with its source address replaced; a header without a route is kept.
    #[verifier::when_used_as_spec(spec_with_src)]
    pub fn with_src(self, src: Address) -> (h: VarHeader)
        ensures
            h == self.spec_with_src(src),
            h.key == self.key,
            h.seq_no == self.seq_no,
            self.route matches Some(r) ==> h.route == Some(Route { src: src, dst: r.dst }),
            self.route is None ==> h.route is None,
    {
        VarHeader {
            key: self.key,
            seq_no: self.seq_no,
            route: match self.route {
                Some(r) => Some(Route { src, dst: r.dst }),
                None => None,
            },
        }
    }

    /// The header with its destination address replaced; a header without a route is kept.
    #[verifier::when_used_as_spec(spec_with_dst)]
    pub fn with_dst(self, dst: Address) -> (h: VarHeader)
        ensures
            h == self.spec_with_dst(dst),
            h.key == self.key,
            h.seq_no == self.seq_no,
            self.route matches Some(r) ==> h.route == Some(Route { src: r.src, dst: dst }),
            self.route is None ==> h.route is None,
    {
        VarHeader {
            key: self.key,
            seq_no: self.seq_no,
            route: match self.route {
                Some(r) => Some(Route { src: r.src, dst }),
                None => None,
            },
        }
    }

    /// Appends the bytes of this header.
    pub fn write_to_vec(&self, out: &mut Vec<u8>)
        ensures
            final(out)@ == old(out)@ + header_bytes(*self),
    {
        let (kc, kw, kv): (u8, usize, u64) = match self.key {
            VarKey::Key1(v) => (0, 1, v as u64),
            VarKey::Key2(v) => (1, 2, v as u64),
            VarKey::Key4(v) => (2, 4, v as u64),
            VarKey::Key8(v) => (3, 8, v),
        };
        let (sc, sw, sv): (u8, usize, u64) = match self.seq_no {
            VarSeq::Seq1(v) => (0, 1, v as u64),
            VarSeq::Seq2(v) => (1, 2, v as u64),
            VarSeq::Seq4(v) => (2, 4, v as u64),
        };
        let r: u8 = match self.route {
            Some(_) => 16,
            None => 0,
        };
        let ghost start = out@;
        out.push(sc + 4 * kc + r);
        push_le(out, kv, kw);
        push_le(out, sv, sw);
        match self.route {
            Some(route) => {
                out.push(route.src.0);
                out.push(route.dst.0);
            },
            None => {},
        }
        assert(out@ =~= start + header_bytes(*self));
    }

    /// The header at the start of `s`, and the bytes after it.
    pub fn take_from_slice<'a>(s: &'a [u8]) -> (r: Option<(VarHeader, &'a [u8])>)
        ensures
            match parse_header(s@) {
                None => r is None,
                Some((h, n)) => r matches Some((h2, rest)) && h2 == h && rest@ == s@.skip(
                    n as int,
                ),
            },
    {
        let len: usize = s.len();
        if len == 0 {
            return None;
        }
        let d: u8 = s[0];
        if d >= 32 || d % 4 == 3 {
            return None;
        }
        let sc: u8 = d % 4;
        let kc: u8 = (d / 4) % 4;
        let routed: bool = d >= 16;
        let kw: usize = if kc == 0 {
            1
        } else if kc == 1 {
            2
        } else if kc == 2 {
            4
        } else {
            8
        };
        let sw: usize = if sc == 0 {
            1
        } else if sc == 1 {
            2
        } else {
            4
        };
        let n: usize = 1 + kw + sw + if routed {
            2
        } else {
            0
        };
        if len < n {
            return None;
        }
        let kv: u64 = read_le(s, 1, kw);
        let sv: u64 = read_le(s, 1 + kw, sw);
        let key = if kc == 0 {
            VarKey::Key1(kv as u8)
        } else if kc == 1 {
            VarKey::Key2(kv as u16)
        } else if kc == 2 {
            VarKey::Key4(kv as u32)
        } else {
            VarKey::Key8(kv)
        };
        let seq_no = if sc == 0 {
            VarSeq::Seq1(sv as u8)
        } else if sc == 1 {
            VarSeq::Seq2(sv as u16)
        } else {
            VarSeq::Seq4(sv as u32)
        };
        let route = if routed {
            Some(Route { src: Address(s[1 + kw + sw]), dst: Address(s[2 + kw + sw]) })
        } else {
            None
        };
        let rest = slice_subrange(s, n, len);
        proof {
            assert(s@.skip(n as int) =~= s@.subrange(n as int, len as int));
        }
        Some((VarHeader { key, seq_no, route }, rest))
    }
}

impl RpcMessage {
    /// The bytes of this frame.
    pub fn to_vec(&self) -> (v: Vec<u8>)
        ensures
            v@ == frame_bytes(self.header, self.body@),
    {
        let mut out: Vec<u8> = Vec::new();
        self.header.write_to_vec(&mut out);
        let mut i: usize = 0;
        let ghost head = out@;
        while i < self.body.len()
            invariant
                i <= self.body@.len(),
                head == header_bytes(self.header),
                out@ == head + self.body@.take(i as int),
            decreases self.body@.len() - i,
        {
            out.push(self.body[i]);
            i = i + 1;
            assert(out@ =~= head + self.body@.take(i as int));
        }
        assert(self.body@.take(i as int) =~= self.body@);
        out
    }

    /// The frame that `bytes` hold on a wire of mode `M`, if they hold one.
    pub fn from_vec<M: HeaderMode>(bytes: &[u8]) -> (r: Option<RpcMessage>)
        ensures
            match parse_frame(bytes@, M::spec_routed()) {
                None => r is None,
                Some((h, b)) => r matches Some(m) && m.header == h && m.body@ == b,
            },
    {
        match VarHeader::take_from_slice(bytes) {
            None => None,
            Some((header, rest)) => {
                if header.route.is_some() == M::routed() {
                    Some(RpcMessage { header, body: slice_to_vec(rest) })
                } else {
                    None
                }
            },
        }
    }
}

// ---------------------------------------------------------------------------
// Laws of the encoding.
// ---------------------------------------------------------------------------

proof fn lemma_value_fits(k: VarKey, s: VarSeq)
    ensures
        key_value(k) < pow256(key_width_of(key_code(k))),
        seq_value(s) < pow256(seq_width_of(seq_code(s))),
        key_from(key_code(k), key_value(k)) == k,
        seq_from(seq_code(s), seq_value(s)) == s,
{
    lemma_pow256_values();
}

/// Replacing the source of a routed header sets its source to the given address
/// and keeps its key, its sequence number and its destination, whatever they
/// are; a header without a route is kept as it is. Replacing the destination
/// does the same for the destination.
pub proof fn lemma_with_src_with_dst(h: VarHeader, a: Address)
    ensures
        h.spec_with_src(a).key == h.key,
        h.spec_with_src(a).seq_no == h.seq_no,
        h.spec_with_dst(a).key == h.key,
        h.spec_with_dst(a).seq_no == h.seq_no,
        h.route matches Some(r) ==> h.spec_with_src(a).route == Some(Route { src: a, dst: r.dst }),
        h.route matches Some(r) ==> h.spec_with_dst(a).route == Some(Route { src: r.src, dst: a }),
        h.route is None ==> h.spec_with_src(a) == h && h.spec_with_dst(a) == h,
{
}

/// The bytes of a header, one by one: the discriminant (sequence-number width
/// code, plus four times the key width code, plus sixteen where routed), then
/// the key and the sequence number, each least significant byte first in its
/// width (byte `i` is digit `i` in base 256), then the source and the
/// destination address where routed.
pub proof fn lemma_header_layout(h: VarHeader)
    ensures
        ({
            let (kw, kv, kc): (int, nat, int) = match h.key {
                VarKey::Key1(v) => (1int, v as nat, 0int),
                VarKey::Key2(v) => (2int, v as nat, 1int),
                VarKey::Key4(v) => (4int, v as nat, 2int),
                VarKey::Key8(v) => (8int, v as nat, 3int),
            };
            let (sw, sv, sc): (int, nat, int) = match h.seq_no {
                VarSeq::Seq1(v) => (1int, v as nat, 0int),
                VarSeq::Seq2(v) => (2int, v as nat, 1int),
                VarSeq::Seq4(v) => (4int, v as nat, 2int),
            };
            let rw: int = if h.route is Some {
                2int
            } else {
                0int
            };
            let b = header_bytes(h);
            &&& b.len() == 1 + kw + sw + rw
            &&& b[0] as int == sc + 4 * kc + 8 * rw
            &&& b.subrange(1, 1 + kw) == Seq::new(
                kw as nat,
                |i: int| ((kv / pow256(i as nat)) % 256) as u8,
            )
            &&& b.subrange(1 + kw, 1 + kw + sw) == Seq::new(
                sw as nat,
                |i: int| ((sv / pow256(i as nat)) % 256) as u8,
            )
            &&& (h.route matches Some(r) ==> b[1 + kw + sw] == r.src.0 && b[2 + kw + sw]
                == r.dst.0)
        }),
{
    let kwn = key_width_of(key_code(h.key));
    let swn = seq_width_of(seq_code(h.seq_no));
    let kw = kwn as int;
    let sw = swn as int;
    let kv = key_value(h.key);
    let sv = seq_value(h.seq_no);
    let kb = le_bytes(kv, kwn);
    let sb = le_bytes(sv, swn);
    let b = header_bytes(h);
    lemma_le_bytes_len(kv, kwn);
    lemma_le_bytes_len(sv, swn);
    assert forall|i: int| 0 <= i < kw implies kb[i] == ((kv / pow256(i as nat)) % 256) as u8 by {
        lemma_le_bytes_index(kv, kwn, i as nat);
    }
    assert forall|i: int| 0 <= i < sw implies sb[i] == ((sv / pow256(i as nat)) % 256) as u8 by {
        lemma_le_bytes_index(sv, swn, i as nat);
    }
    assert(b.subrange(1, 1 + kw) =~= kb);
    assert(b.subrange(1 + kw, 1 + kw + sw) =~= sb);
    assert(kb =~= Seq::new(kwn, |i: int| ((kv / pow256(i as nat)) % 256) as u8));
    assert(sb =~= Seq::new(swn, |i: int| ((sv / pow256(i as nat)) % 256) as u8));
}

/// Reading a header back from its bytes, whatever follows them, gives the
/// header and the number of its bytes.
pub proof fn lemma_header_roundtrip(h: VarHeader, rest: Seq<u8>)
    ensures
        parse_header(header_bytes(h) + rest) == Some((h, header_bytes(h).len())),
{
    let kwn = key_width_of(key_code(h.key));
    let swn = seq_width_of(seq_code(h.seq_no));
    let kw = kwn as int;
    let sw = swn as int;
    let kb = le_bytes(key_value(h.key), kwn);
    let sb = le_bytes(seq_value(h.seq_no), swn);
    let s = header_bytes(h) + rest;
    lemma_le_bytes_len(key_value(h.key), kwn);
    lemma_le_bytes_len(seq_value(h.seq_no), swn);
    lemma_value_fits(h.key, h.seq_no);
    lemma_le_value_of_bytes(key_value(h.key), kwn);
    lemma_le_value_of_bytes(seq_value(h.seq_no), swn);
    let d = discriminant(h);
    assert(d < 32);
    assert(s[0] as nat == d);
    assert(d % 4 == seq_code(h.seq_no));
    assert((d / 4) % 4 == key_code(h.key));
    assert((d >= 16) == (h.route is Some));
    assert(s.subrange(1, 1 + kw) =~= kb);
    assert(s.subrange(1 + kw, 1 + kw + sw) =~= sb);
    match h.route {
        Some(r) => {
            assert(s[1 + kw + sw] == r.src.0);
            assert(s[2 + kw + sw] == r.dst.0);
        },
        None => {},
    }
}

/// A header read from `s` occupies the first bytes of `s`, and they are
/// exactly the bytes of that header: every accepted header is in its one encoding.
pub proof fn lemma_header_canonical(s: Seq<u8>)
    ensures
        parse_header(s) matches Some((h, n)) ==> n <= s.len() && s.take(n as int)
            == header_bytes(h),
{
    if let Some((h, n)) = parse_header(s) {
        let d = s[0] as nat;
        let sc = d % 4;
        let kc = (d / 4) % 4;
        let kw = key_width_of(kc) as int;
        let sw = seq_width_of(sc) as int;
        let ks = s.subrange(1, 1 + kw);
        let ss = s.subrange(1 + kw, 1 + kw + sw);
        lemma_le_value_bound(ks);
        lemma_le_value_bound(ss);
        lemma_pow256_values();
        assert(key_code(h.key) == kc);
        assert(seq_code(h.seq_no) == sc);
        assert(key_value(h.key) == le_value(ks));
        assert(seq_value(h.seq_no) == le_value(ss));
        lemma_le_bytes_of_value(ks);
        lemma_le_bytes_of_value(ss);
        assert(discriminant(h) == d);
        assert(s.take(n as int) =~= header_bytes(h));
    }
}

/// Reading a frame back from its bytes gives its header and its body.
pub proof fn lemma_frame_roundtrip(h: VarHeader, body: Seq<u8>)
    ensures
        parse_frame(frame_bytes(h, body), h.route is Some) == Some((h, body)),
{
    lemma_header_roundtrip(h, body);
    assert((header_bytes(h) + body).skip(header_bytes(h).len() as int) =~= body);
}

/// A frame is read only on a wire of its own kind: the header read from a
/// frame carries a route exactly when the wire is routed, and it is the header
/// at the start of the bytes, with the rest of the bytes as its body. Bytes
/// that start with a header of the wire's kind always hold a frame.
pub proof fn lemma_frame_mode(s: Seq<u8>, routed: bool)
    ensures
        parse_frame(s, routed) matches Some((h, body)) ==> ((h.route is Some) == routed
            && (parse_header(s) matches Some((h2, n)) && h2 == h && body == s.skip(n as int))),
        parse_header(s) matches Some((h, n)) && (h.route is Some) == routed ==> parse_frame(
            s,
            routed,
        ) is Some,
{
}

/// A frame that `s` holds is written back as `s` itself.
pub proof fn lemma_frame_canonical(s: Seq<u8>, routed: bool)
    ensures
        parse_frame(s, routed) matches Some((h, body)) ==> frame_bytes(h, body) == s,
{
    lemma_header_canonical(s);
    if let Some((h, n)) = parse_header(s) {
        assert(s =~= s.take(n as int) + s.skip(n as int));
    }
}

} // verus!
