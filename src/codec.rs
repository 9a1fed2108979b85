//! Fixed-layout encoding of the guest's tagged values: a discriminant byte
//! after a payload area sized to the largest variant, little-endian numbers,
//! strings first and numbers after them, and never a byte of an inactive
//! variant read back.
use crate::command::{CmdOutputErr, CmdOutputPayload, IoErr, IoErrTag};
use crate::guest::GuestStr;
use crate::http::{Method, MethodTag, RequestErr, RequestErrTag};
use vstd::prelude::*;

verus! {

/// Size in bytes of a guest string slot.
pub const STR_SLOT_SIZE: usize = 24;

/// Flag in a slot's last byte marking an inline string; the byte's low bits
/// hold the length.
pub const INLINE_FLAG: u8 = 0x80;

/// The eight little-endian bytes of `x`.
pub open spec fn le64(x: u64) -> Seq<u8> {
    seq![
        (x & 0xff) as u8,
        ((x >> 8u64) & 0xff) as u8,
        ((x >> 16u64) & 0xff) as u8,
        ((x >> 24u64) & 0xff) as u8,
        ((x >> 32u64) & 0xff) as u8,
        ((x >> 40u64) & 0xff) as u8,
        ((x >> 48u64) & 0xff) as u8,
        ((x >> 56u64) & 0xff) as u8,
    ]
}

/// The number held by eight little-endian bytes.
pub open spec fn u64_of_le(b0: u8, b1: u8, b2: u8, b3: u8, b4: u8, b5: u8, b6: u8, b7: u8) -> u64 {
    (b0 as u64) | ((b1 as u64) << 8u64) | ((b2 as u64) << 16u64) | ((b3 as u64) << 24u64) | ((
    b4 as u64) << 32u64) | ((b5 as u64) << 40u64) | ((b6 as u64) << 48u64) | ((b7 as u64)
        << 56u64)
}

/// The number held by the eight little-endian bytes of `b` from `at`.
pub open spec fn read_le64(b: Seq<u8>, at: int) -> u64 {
    u64_of_le(b[at], b[at + 1], b[at + 2], b[at + 3], b[at + 4], b[at + 5], b[at + 6], b[at + 7])
}

proof fn lemma_le64_round_trip(x: u64)
    ensures
        read_le64(le64(x), 0) == x,
        x < 0x8000_0000_0000_0000 ==> le64(x)[7] < 0x80,
{
    let b0 = (x & 0xff) as u8;
    let b1 = ((x >> 8u64) & 0xff) as u8;
    let b2 = ((x >> 16u64) & 0xff) as u8;
    let b3 = ((x >> 24u64) & 0xff) as u8;
    let b4 = ((x >> 32u64) & 0xff) as u8;
    let b5 = ((x >> 40u64) & 0xff) as u8;
    let b6 = ((x >> 48u64) & 0xff) as u8;
    let b7 = ((x >> 56u64) & 0xff) as u8;
    assert(u64_of_le(b0, b1, b2, b3, b4, b5, b6, b7) == x) by (bit_vector)
        requires
            b0 == (x & 0xff) as u8,
            b1 == ((x >> 8u64) & 0xff) as u8,
            b2 == ((x >> 16u64) & 0xff) as u8,
            b3 == ((x >> 24u64) & 0xff) as u8,
            b4 == ((x >> 32u64) & 0xff) as u8,
            b5 == ((x >> 40u64) & 0xff) as u8,
            b6 == ((x >> 48u64) & 0xff) as u8,
            b7 == ((x >> 56u64) & 0xff) as u8,
    ;
    assert(x < 0x8000_0000_0000_0000 ==> (((x >> 56u64) & 0xff) as u8) < 0x80) by (bit_vector);
}

/// Appends the eight little-endian bytes of `x`.
pub fn push_le64(out: &mut Vec<u8>, x: u64)
    ensures
        final(out)@ == old(out)@ + le64(x),
{
    out.push((x & 0xff) as u8);
    out.push(((x >> 8) & 0xff) as u8);
    out.push(((x >> 16) & 0xff) as u8);
    out.push(((x >> 24) & 0xff) as u8);
    out.push(((x >> 32) & 0xff) as u8);
    out.push(((x >> 40) & 0xff) as u8);
    out.push(((x >> 48) & 0xff) as u8);
    out.push(((x >> 56) & 0xff) as u8);
    assert(out@ =~= old(out)@ + le64(x));
}

/// Reads eight little-endian bytes from `at`.
pub fn get_le64(b: &[u8], at: usize) -> (r: u64)
    requires
        at + 8 <= b@.len(),
    ensures
        r == read_le64(b@, at as int),
{
    (b[at] as u64) | ((b[at + 1] as u64) << 8) | ((b[at + 2] as u64) << 16) | ((b[at + 3] as u64)
        << 24) | ((b[at + 4] as u64) << 32) | ((b[at + 5] as u64) << 40) | ((b[at + 6] as u64)
        << 48) | ((b[at + 7] as u64) << 56)
}

/// Appends `n` zero bytes.
pub fn push_zeros(out: &mut Vec<u8>, n: usize)
    ensures
        final(out)@ == old(out)@ + Seq::new(n as nat, |i: int| 0u8),
{
    let mut i: usize = 0;
    while i < n
        invariant
            i <= n,
            out@ == old(out)@ + Seq::new(i as nat, |k: int| 0u8),
        decreases n - i,
    {
        out.push(0);
        i = i + 1;
        assert(out@ =~= old(out)@ + Seq::new(i as nat, |k: int| 0u8));
    }
}

/// What a string slot shows: inline bytes, or the allocation and length of a
/// counted string.
pub ghost enum SlotView {
    Inline(Seq<u8>),
    Counted(u64, u64),
}

/// A decoded string slot.
#[derive(Debug)]
pub enum StrSlot {
    /// A short string held in the slot itself.
    Inline(Vec<u8>),
    /// A counted string: its allocation and its length in bytes.
    Counted { id: u64, len: u64 },
}

impl View for StrSlot {
    type V = SlotView;

    open spec fn view(&self) -> SlotView {
        match self {
            StrSlot::Inline(b) => SlotView::Inline(b@),
            StrSlot::Counted { id, len } => SlotView::Counted(*id, *len),
        }
    }
}

/// A string the layout can hold: inline exactly when short, and shorter
/// than 2^63 bytes.
pub open spec fn slot_str_ok(s: GuestStr) -> bool {
    &&& (s.allocation() is Some <==> s@.len() > 23)
    &&& s@.len() < 0x8000_0000_0000_0000
}

/// The slot view of a guest string.
pub open spec fn slot_view_of(s: GuestStr) -> SlotView {
    match s.allocation() {
        Some(id) => SlotView::Counted(id as u64, s@.len() as u64),
        None => SlotView::Inline(s@),
    }
}

/// The 24 bytes of a guest string's slot: inline bytes padded with zeros
/// and the flagged length last; or the allocation, the length and the
/// capacity, eight bytes each.
pub open spec fn slot_bytes(s: GuestStr) -> Seq<u8> {
    match s.allocation() {
        Some(id) => le64(id as u64) + le64(s@.len() as u64) + le64(s@.len() as u64),
        None => s@ + Seq::new((23 - s@.len()) as nat, |i: int| 0u8) + seq![
            (0x80 + s@.len()) as u8,
        ],
    }
}

/// The slot of 24 bytes from `at` can be read: an inline length is at most 23.
pub open spec fn slot_readable(b: Seq<u8>, at: int) -> bool {
    &&& 0 <= at
    &&& at + 24 <= b.len()
    &&& b[at + 23] >= 0x80 ==> b[at + 23] - 0x80 <= 23
}

/// What the slot of 24 bytes from `at` shows.
pub open spec fn decode_slot(b: Seq<u8>, at: int) -> SlotView {
    if b[at + 23] >= 0x80 {
        SlotView::Inline(b.subrange(at, at + (b[at + 23] - 0x80)))
    } else {
        SlotView::Counted(read_le64(b, at), read_le64(b, at + 8))
    }
}

/// Appends the slot of `s`.
pub fn push_str_slot(out: &mut Vec<u8>, s: &GuestStr)
    requires
        slot_str_ok(*s),
    ensures
        final(out)@ == old(out)@ + slot_bytes(*s),
{
    if s.is_small() {
        let bytes = s.as_bytes();
        let mut i: usize = 0;
        while i < bytes.len()
            invariant
                i <= bytes@.len(),
                bytes@ == s@,
                out@ == old(out)@ + bytes@.subrange(0, i as int),
            decreases bytes@.len() - i,
        {
            out.push(bytes[i]);
            i = i + 1;
            assert(out@ =~= old(out)@ + bytes@.subrange(0, i as int));
        }
        assert(bytes@.subrange(0, bytes@.len() as int) =~= bytes@);
        push_zeros(out, 23 - bytes.len());
        out.push(INLINE_FLAG + bytes.len() as u8);
        assert(out@ =~= old(out)@ + slot_bytes(*s));
    } else {
        let id = s.allocation_id();
        push_le64(out, id as u64);
        push_le64(out, s.len() as u64);
        push_le64(out, s.len() as u64);
        assert(out@ =~= old(out)@ + slot_bytes(*s));
    }
}

/// Reads the slot of 24 bytes from `at`.
pub fn read_str_slot(b: &[u8], at: usize) -> (r: StrSlot)
    requires
        slot_readable(b@, at as int),
    ensures
        r@ == decode_slot(b@, at as int),
{
    let n = b.len();
    assert(at + 24 <= n);
    let last = b[at + 23];
    if last >= INLINE_FLAG {
        let len = (last - INLINE_FLAG) as usize;
        let mut v: Vec<u8> = Vec::new();
        let mut i: usize = 0;
        while i < len
            invariant
                i <= len,
                len == b@[at + 23] - 0x80,
                slot_readable(b@, at as int),
                n == b@.len(),
                v@ == b@.subrange(at as int, at + i),
            decreases len - i,
        {
            v.push(b[at + i]);
            i = i + 1;
            assert(v@ =~= b@.subrange(at as int, at + i));
        }
        StrSlot::Inline(v)
    } else {
        StrSlot::Counted { id: get_le64(b, at), len: get_le64(b, at + 8) }
    }
}

/// A string's slot reads back as the string's slot view.
pub proof fn lemma_slot_round_trip(s: GuestStr, pre: Seq<u8>, post: Seq<u8>)
    requires
        slot_str_ok(s),
    ensures
        slot_readable(pre + slot_bytes(s) + post, pre.len() as int),
        decode_slot(pre + slot_bytes(s) + post, pre.len() as int) == slot_view_of(s),
{
    let b = pre + slot_bytes(s) + post;
    let at = pre.len() as int;
    match s.allocation() {
        Some(id) => {
            let n = s@.len() as u64;
            lemma_le64_round_trip(id as u64);
            lemma_le64_round_trip(n);
            assert(b.subrange(at, at + 8) =~= le64(id as u64));
            assert(b.subrange(at + 8, at + 16) =~= le64(n));
            assert(b.subrange(at + 16, at + 24) =~= le64(n));
            assert(b[at + 23] == le64(n)[7]);
            assert(read_le64(b, at) == read_le64(le64(id as u64), 0));
            assert(read_le64(b, at + 8) == read_le64(le64(n), 0));
        },
        None => {
            assert(b[at + 23] == (0x80 + s@.len()) as u8);
            assert(b.subrange(at, at + s@.len()) =~= s@);
        },
    }
}

/// The four little-endian bytes of `x`.
pub open spec fn le32(x: u32) -> Seq<u8> {
    seq![
        (x & 0xff) as u8,
        ((x >> 8u32) & 0xff) as u8,
        ((x >> 16u32) & 0xff) as u8,
        ((x >> 24u32) & 0xff) as u8,
    ]
}

/// The number held by the four little-endian bytes of `b` from `at`.
pub open spec fn read_le32(b: Seq<u8>, at: int) -> u32 {
    (b[at] as u32) | ((b[at + 1] as u32) << 8u32) | ((b[at + 2] as u32) << 16u32) | ((b[at
        + 3] as u32) << 24u32)
}

proof fn lemma_le32_round_trip(x: u32)
    ensures
        read_le32(le32(x), 0) == x,
{
    let b0 = (x & 0xff) as u8;
    let b1 = ((x >> 8u32) & 0xff) as u8;
    let b2 = ((x >> 16u32) & 0xff) as u8;
    let b3 = ((x >> 24u32) & 0xff) as u8;
    assert((b0 as u32) | ((b1 as u32) << 8u32) | ((b2 as u32) << 16u32) | ((b3 as u32) << 24u32)
        == x) by (bit_vector)
        requires
            b0 == (x & 0xff) as u8,
            b1 == ((x >> 8u32) & 0xff) as u8,
            b2 == ((x >> 16u32) & 0xff) as u8,
            b3 == ((x >> 24u32) & 0xff) as u8,
    ;
}

/// The two little-endian bytes of `x`.
pub open spec fn le16(x: u16) -> Seq<u8> {
    seq![(x & 0xff) as u8, ((x >> 8u16) & 0xff) as u8]
}

/// The number held by the two little-endian bytes of `b` from `at`.
pub open spec fn read_le16(b: Seq<u8>, at: int) -> u16 {
    (b[at] as u16) | ((b[at + 1] as u16) << 8u16)
}

proof fn lemma_le16_round_trip(x: u16)
    ensures
        read_le16(le16(x), 0) == x,
{
    let b0 = (x & 0xff) as u8;
    let b1 = ((x >> 8u16) & 0xff) as u8;
    assert((b0 as u16) | ((b1 as u16) << 8u16) == x) by (bit_vector)
        requires
            b0 == (x & 0xff) as u8,
            b1 == ((x >> 8u16) & 0xff) as u8,
    ;
}

/// `n` zero bytes.
pub open spec fn zeros(n: nat) -> Seq<u8> {
    Seq::new(n, |i: int| 0u8)
}

// ---- request errors: status code (2 bytes), tag (1 byte), padding (1 byte)

/// Size in bytes of an encoded request error.
pub const REQUEST_ERR_SIZE: usize = 4;

/// The discriminant of a request error tag: its place in declaration order.
pub open spec fn request_tag_byte(t: RequestErrTag) -> u8 {
    match t {
        RequestErrTag::Builder => 0,
        RequestErrTag::Redirect => 1,
        RequestErrTag::Status => 2,
        RequestErrTag::Timeout => 3,
        RequestErrTag::Request => 4,
        RequestErrTag::Connect => 5,
        RequestErrTag::Body => 6,
        RequestErrTag::Decode => 7,
        RequestErrTag::Upgrade => 8,
        RequestErrTag::InvalidMethod => 9,
        RequestErrTag::InvalidHeaderName => 10,
        RequestErrTag::InvalidHeaderValue => 11,
        RequestErrTag::Other => 12,
    }
}

/// The request error tag of a discriminant below 13.
pub open spec fn request_tag_of(b: u8) -> RequestErrTag {
    if b == 0 {
        RequestErrTag::Builder
    } else if b == 1 {
        RequestErrTag::Redirect
    } else if b == 2 {
        RequestErrTag::Status
    } else if b == 3 {
        RequestErrTag::Timeout
    } else if b == 4 {
        RequestErrTag::Request
    } else if b == 5 {
        RequestErrTag::Connect
    } else if b == 6 {
        RequestErrTag::Body
    } else if b == 7 {
        RequestErrTag::Decode
    } else if b == 8 {
        RequestErrTag::Upgrade
    } else if b == 9 {
        RequestErrTag::InvalidMethod
    } else if b == 10 {
        RequestErrTag::InvalidHeaderName
    } else if b == 11 {
        RequestErrTag::InvalidHeaderValue
    } else {
        RequestErrTag::Other
    }
}

fn request_tag_to_byte(t: RequestErrTag) -> (r: u8)
    ensures
        r == request_tag_byte(t),
{
    match t {
        RequestErrTag::Builder => 0,
        RequestErrTag::Redirect => 1,
        RequestErrTag::Status => 2,
        RequestErrTag::Timeout => 3,
        RequestErrTag::Request => 4,
        RequestErrTag::Connect => 5,
        RequestErrTag::Body => 6,
        RequestErrTag::Decode => 7,
        RequestErrTag::Upgrade => 8,
        RequestErrTag::InvalidMethod => 9,
        RequestErrTag::InvalidHeaderName => 10,
        RequestErrTag::InvalidHeaderValue => 11,
        RequestErrTag::Other => 12,
    }
}

fn request_tag_from_byte(b: u8) -> (r: RequestErrTag)
    ensures
        r == request_tag_of(b),
{
    if b == 0 {
        RequestErrTag::Builder
    } else if b == 1 {
        RequestErrTag::Redirect
    } else if b == 2 {
        RequestErrTag::Status
    } else if b == 3 {
        RequestErrTag::Timeout
    } else if b == 4 {
        RequestErrTag::Request
    } else if b == 5 {
        RequestErrTag::Connect
    } else if b == 6 {
        RequestErrTag::Body
    } else if b == 7 {
        RequestErrTag::Decode
    } else if b == 8 {
        RequestErrTag::Upgrade
    } else if b == 9 {
        RequestErrTag::InvalidMethod
    } else if b == 10 {
        RequestErrTag::InvalidHeaderName
    } else if b == 11 {
        RequestErrTag::InvalidHeaderValue
    } else {
        RequestErrTag::Other
    }
}

/// The layout of a request error given as tag and status code.
pub open spec fn request_err_bytes(p: (RequestErrTag, u16)) -> Seq<u8> {
    le16(p.1) + seq![request_tag_byte(p.0), 0u8]
}

/// The tag and status code that a request error layout holds; the status
/// bytes are read under the `Status` tag only.
pub open spec fn request_err_of(b: Seq<u8>) -> (RequestErrTag, u16) {
    let t = request_tag_of(b[2]);
    (t, if t == RequestErrTag::Status { read_le16(b, 0) } else { 0 })
}

/// Encodes a request error.
pub fn encode_request_err(e: &RequestErr) -> (r: Vec<u8>)
    ensures
        r@ == request_err_bytes(e.parts()),
{
    let code = e.status_code();
    let mut out: Vec<u8> = Vec::new();
    out.push((code & 0xff) as u8);
    out.push(((code >> 8) & 0xff) as u8);
    out.push(request_tag_to_byte(e.tag()));
    out.push(0);
    assert(out@ =~= request_err_bytes(e.parts()));
    out
}

/// Decodes a request error. A discriminant of 13 or more is a contract violation.
pub fn decode_request_err(b: &[u8]) -> (r: RequestErr)
    requires
        b@.len() == REQUEST_ERR_SIZE,
        b@[2] < 13,
    ensures
        r.parts() == request_err_of(b@),
{
    let t = request_tag_from_byte(b[2]);
    if t == RequestErrTag::Status {
        RequestErr::new(t, (b[0] as u16) | ((b[1] as u16) << 8))
    } else {
        RequestErr::new(t, 0)
    }
}

/// Decoding an encoded request error gives back its tag and, under the
/// `Status` tag, its status code.
pub proof fn lemma_request_err_round_trip(p: (RequestErrTag, u16))
    requires
        p.0 != RequestErrTag::Status ==> p.1 == 0,
    ensures
        request_err_bytes(p).len() == REQUEST_ERR_SIZE,
        request_err_bytes(p)[2] < 13,
        request_err_of(request_err_bytes(p)) == p,
{
    let b = request_err_bytes(p);
    lemma_le16_round_trip(p.1);
    assert(b.subrange(0, 2) =~= le16(p.1));
    assert(read_le16(b, 0) == read_le16(le16(p.1), 0));
}

// ---- methods: name slot (24 bytes, live under `Extension` only), tag, padding

/// Size in bytes of an encoded method.
pub const METHOD_SIZE: usize = 32;

/// The discriminant of a method tag: its place in declaration order.
pub open spec fn method_tag_byte(t: MethodTag) -> u8 {
    match t {
        MethodTag::Options => 0,
        MethodTag::Get => 1,
        MethodTag::Post => 2,
        MethodTag::Put => 3,
        MethodTag::Delete => 4,
        MethodTag::Head => 5,
        MethodTag::Trace => 6,
        MethodTag::Connect => 7,
        MethodTag::Patch => 8,
        MethodTag::Extension => 9,
    }
}

/// The method tag of a discriminant below 10.
pub open spec fn method_tag_of(b: u8) -> MethodTag {
    if b == 0 {
        MethodTag::Options
    } else if b == 1 {
        MethodTag::Get
    } else if b == 2 {
        MethodTag::Post
    } else if b == 3 {
        MethodTag::Put
    } else if b == 4 {
        MethodTag::Delete
    } else if b == 5 {
        MethodTag::Head
    } else if b == 6 {
        MethodTag::Trace
    } else if b == 7 {
        MethodTag::Connect
    } else if b == 8 {
        MethodTag::Patch
    } else {
        MethodTag::Extension
    }
}

fn method_tag_to_byte(t: MethodTag) -> (r: u8)
    ensures
        r == method_tag_byte(t),
{
    match t {
        MethodTag::Options => 0,
        MethodTag::Get => 1,
        MethodTag::Post => 2,
        MethodTag::Put => 3,
        MethodTag::Delete => 4,
        MethodTag::Head => 5,
        MethodTag::Trace => 6,
        MethodTag::Connect => 7,
        MethodTag::Patch => 8,
        MethodTag::Extension => 9,
    }
}

fn method_tag_from_byte(b: u8) -> (r: MethodTag)
    ensures
        r == method_tag_of(b),
{
    if b == 0 {
        MethodTag::Options
    } else if b == 1 {
        MethodTag::Get
    } else if b == 2 {
        MethodTag::Post
    } else if b == 3 {
        MethodTag::Put
    } else if b == 4 {
        MethodTag::Delete
    } else if b == 5 {
        MethodTag::Head
    } else if b == 6 {
        MethodTag::Trace
    } else if b == 7 {
        MethodTag::Connect
    } else if b == 8 {
        MethodTag::Patch
    } else {
        MethodTag::Extension
    }
}

/// A method the layout can hold: under `Extension`, a name that fits a slot.
pub open spec fn method_encodable(m: Method) -> bool {
    m.tag_spec() == MethodTag::Extension ==> m.extension_spec() is Some && slot_str_ok(
        m.extension_spec()->0,
    )
}

/// The layout of a method: the name's slot under `Extension`, zeros under
/// any other tag, then the discriminant and padding.
pub open spec fn method_bytes(m: Method) -> Seq<u8> {
    (if m.tag_spec() == MethodTag::Extension {
        slot_bytes(m.extension_spec()->0)
    } else {
        zeros(24)
    }) + seq![method_tag_byte(m.tag_spec())] + zeros(7)
}

/// Encodes a method.
pub fn encode_method(m: &Method) -> (r: Vec<u8>)
    requires
        method_encodable(*m),
    ensures
        r@ == method_bytes(*m),
{
    let mut out: Vec<u8> = Vec::new();
    match m.extension() {
        Some(name) => push_str_slot(&mut out, name),
        None => push_zeros(&mut out, STR_SLOT_SIZE),
    }
    out.push(method_tag_to_byte(m.tag()));
    push_zeros(&mut out, 7);
    assert(out@ =~= method_bytes(*m));
    out
}

/// Decodes a method: its tag, and the name's slot under `Extension` only.
/// A discriminant of 10 or more is a contract violation.
pub fn decode_method(b: &[u8]) -> (r: (MethodTag, Option<StrSlot>))
    requires
        b@.len() == METHOD_SIZE,
        b@[24] < 10,
        b@[24] == 9 ==> slot_readable(b@, 0),
    ensures
        r.0 == method_tag_of(b@[24]),
        r.1 is Some <==> r.0 == MethodTag::Extension,
        r.1 is Some ==> r.1->0@ == decode_slot(b@, 0),
{
    let t = method_tag_from_byte(b[24]);
    if t == MethodTag::Extension {
        (t, Some(read_str_slot(b, 0)))
    } else {
        (t, None)
    }
}

/// Decoding an encoded method gives back its tag and, under `Extension`,
/// its name's slot.
pub proof fn lemma_method_round_trip(m: Method)
    requires
        method_encodable(m),
    ensures
        method_bytes(m).len() == METHOD_SIZE,
        method_tag_of(method_bytes(m)[24]) == m.tag_spec(),
        m.tag_spec() == MethodTag::Extension ==> slot_readable(method_bytes(m), 0) && decode_slot(
            method_bytes(m),
            0,
        ) == slot_view_of(m.extension_spec()->0),
{
    let tail = seq![method_tag_byte(m.tag_spec())] + zeros(7);
    if m.tag_spec() == MethodTag::Extension {
        let s = m.extension_spec()->0;
        lemma_slot_round_trip(s, Seq::<u8>::empty(), tail);
        assert(method_bytes(m) =~= Seq::<u8>::empty() + slot_bytes(s) + tail);
    }
    assert(method_bytes(m)[24] == method_tag_byte(m.tag_spec()));
}

// ---- I/O errors: message slot (24 bytes), tag, padding

/// Size in bytes of an encoded I/O error.
pub const IO_ERR_SIZE: usize = 32;

/// The discriminant of an I/O error tag: its place in declaration order.
pub open spec fn io_tag_byte(t: IoErrTag) -> u8 {
    match t {
        IoErrTag::AlreadyExists => 0,
        IoErrTag::BrokenPipe => 1,
        IoErrTag::EndOfFile => 2,
        IoErrTag::Interrupted => 3,
        IoErrTag::NotFound => 4,
        IoErrTag::Other => 5,
        IoErrTag::OutOfMemory => 6,
        IoErrTag::PermissionDenied => 7,
        IoErrTag::Unsupported => 8,
    }
}

/// The I/O error tag of a discriminant below 9.
pub open spec fn io_tag_of_byte(b: u8) -> IoErrTag {
    if b == 0 {
        IoErrTag::AlreadyExists
    } else if b == 1 {
        IoErrTag::BrokenPipe
    } else if b == 2 {
        IoErrTag::EndOfFile
    } else if b == 3 {
        IoErrTag::Interrupted
    } else if b == 4 {
        IoErrTag::NotFound
    } else if b == 5 {
        IoErrTag::Other
    } else if b == 6 {
        IoErrTag::OutOfMemory
    } else if b == 7 {
        IoErrTag::PermissionDenied
    } else {
        IoErrTag::Unsupported
    }
}

fn io_tag_to_byte(t: IoErrTag) -> (r: u8)
    ensures
        r == io_tag_byte(t),
{
    match t {
        IoErrTag::AlreadyExists => 0,
        IoErrTag::BrokenPipe => 1,
        IoErrTag::EndOfFile => 2,
        IoErrTag::Interrupted => 3,
        IoErrTag::NotFound => 4,
        IoErrTag::Other => 5,
        IoErrTag::OutOfMemory => 6,
        IoErrTag::PermissionDenied => 7,
        IoErrTag::Unsupported => 8,
    }
}

fn io_tag_from_byte(b: u8) -> (r: IoErrTag)
    ensures
        r == io_tag_of_byte(b),
{
    if b == 0 {
        IoErrTag::AlreadyExists
    } else if b == 1 {
        IoErrTag::BrokenPipe
    } else if b == 2 {
        IoErrTag::EndOfFile
    } else if b == 3 {
        IoErrTag::Interrupted
    } else if b == 4 {
        IoErrTag::NotFound
    } else if b == 5 {
        IoErrTag::Other
    } else if b == 6 {
        IoErrTag::OutOfMemory
    } else if b == 7 {
        IoErrTag::PermissionDenied
    } else {
        IoErrTag::Unsupported
    }
}

/// The layout of an I/O error: the message's slot, the tag, padding.
pub open spec fn io_err_bytes(e: IoErr) -> Seq<u8> {
    slot_bytes(e.msg) + seq![io_tag_byte(e.tag)] + zeros(7)
}

fn push_io_err(out: &mut Vec<u8>, e: &IoErr)
    requires
        slot_str_ok(e.msg),
    ensures
        final(out)@ == old(out)@ + io_err_bytes(*e),
{
    push_str_slot(out, &e.msg);
    out.push(io_tag_to_byte(e.tag));
    push_zeros(out, 7);
    assert(out@ =~= old(out)@ + io_err_bytes(*e));
}

/// Encodes an I/O error.
pub fn encode_io_err(e: &IoErr) -> (r: Vec<u8>)
    requires
        slot_str_ok(e.msg),
    ensures
        r@ == io_err_bytes(*e),
{
    let mut out: Vec<u8> = Vec::new();
    push_io_err(&mut out, e);
    assert(out@ =~= io_err_bytes(*e));
    out
}

/// An I/O error decoded: its tag and its message's slot.
#[derive(Debug)]
pub struct DecodedIoErr {
    pub tag: IoErrTag,
    pub msg: StrSlot,
}

fn read_io_err(b: &[u8], at: usize) -> (r: DecodedIoErr)
    requires
        at + 32 <= b@.len(),
        b@[at + 24] < 9,
        slot_readable(b@, at as int),
    ensures
        r.tag == io_tag_of_byte(b@[at + 24]),
        r.msg@ == decode_slot(b@, at as int),
{
    let len = b.len();
    assert(at + 24 < len);
    DecodedIoErr { tag: io_tag_from_byte(b[at + 24]), msg: read_str_slot(b, at) }
}

/// Decodes an I/O error. A discriminant of 9 or more is a contract violation.
pub fn decode_io_err(b: &[u8]) -> (r: DecodedIoErr)
    requires
        b@.len() == IO_ERR_SIZE,
        b@[24] < 9,
        slot_readable(b@, 0),
    ensures
        r.tag == io_tag_of_byte(b@[24]),
        r.msg@ == decode_slot(b@, 0),
{
    read_io_err(b, 0)
}

proof fn lemma_io_err_round_trip_at(e: IoErr, pre: Seq<u8>, post: Seq<u8>)
    requires
        slot_str_ok(e.msg),
    ensures
        (pre + io_err_bytes(e) + post)[pre.len() as int + 24] < 9,
        io_tag_of_byte((pre + io_err_bytes(e) + post)[pre.len() as int + 24]) == e.tag,
        slot_readable(pre + io_err_bytes(e) + post, pre.len() as int),
        decode_slot(pre + io_err_bytes(e) + post, pre.len() as int) == slot_view_of(e.msg),
{
    let tail = seq![io_tag_byte(e.tag)] + zeros(7) + post;
    lemma_slot_round_trip(e.msg, pre, tail);
    assert(pre + io_err_bytes(e) + post =~= pre + slot_bytes(e.msg) + tail);
    assert((pre + io_err_bytes(e) + post)[pre.len() as int + 24] == io_tag_byte(e.tag));
}

/// Decoding an encoded I/O error gives back its tag and its message's slot.
pub proof fn lemma_io_err_round_trip(e: IoErr)
    requires
        slot_str_ok(e.msg),
    ensures
        io_err_bytes(e).len() == IO_ERR_SIZE,
        io_err_bytes(e)[24] < 9,
        io_tag_of_byte(io_err_bytes(e)[24]) == e.tag,
        slot_readable(io_err_bytes(e), 0),
        decode_slot(io_err_bytes(e), 0) == slot_view_of(e.msg),
{
    lemma_io_err_round_trip_at(e, Seq::<u8>::empty(), Seq::<u8>::empty());
    assert(Seq::<u8>::empty() + io_err_bytes(e) + Seq::<u8>::empty() =~= io_err_bytes(e));
}

// ---- command failures: payload area (56 bytes), discriminant, padding.
// `CmdErr` (0): the I/O error's 32 bytes. `NonZeroExit` (1): stderr slot,
// stdout slot, exit code (4 bytes).

/// Size in bytes of an encoded command failure.
pub const CMD_OUTPUT_ERR_SIZE: usize = 64;

/// Offset of the discriminant of a command failure.
pub const CMD_OUTPUT_ERR_TAG_AT: usize = 56;

/// A command failure the layout can hold: every string fits a slot.
pub open spec fn cmd_output_err_encodable(e: CmdOutputErr) -> bool {
    match e.payload {
        CmdOutputPayload::CmdErr(io) => slot_str_ok(io.msg),
        CmdOutputPayload::NonZeroExit(p) => slot_str_ok(p.stderr_utf8_lossy) && slot_str_ok(
            p.stdout_utf8_lossy,
        ),
    }
}

/// The layout of a command failure.
pub open spec fn cmd_output_err_bytes(e: CmdOutputErr) -> Seq<u8> {
    match e.payload {
        CmdOutputPayload::CmdErr(io) => io_err_bytes(io) + zeros(24) + seq![0u8] + zeros(7),
        CmdOutputPayload::NonZeroExit(p) => slot_bytes(p.stderr_utf8_lossy) + slot_bytes(
            p.stdout_utf8_lossy,
        ) + le32(p.exit_code as u32) + zeros(4) + seq![1u8] + zeros(7),
    }
}

/// Encodes a command failure.
pub fn encode_cmd_output_err(e: &CmdOutputErr) -> (r: Vec<u8>)
    requires
        cmd_output_err_encodable(*e),
    ensures
        r@ == cmd_output_err_bytes(*e),
{
    let mut out: Vec<u8> = Vec::new();
    match &e.payload {
        CmdOutputPayload::CmdErr(io) => {
            push_io_err(&mut out, io);
            push_zeros(&mut out, 24);
            out.push(0);
        },
        CmdOutputPayload::NonZeroExit(p) => {
            push_str_slot(&mut out, &p.stderr_utf8_lossy);
            push_str_slot(&mut out, &p.stdout_utf8_lossy);
            let x = p.exit_code as u32;
            out.push((x & 0xff) as u8);
            out.push(((x >> 8) & 0xff) as u8);
            out.push(((x >> 16) & 0xff) as u8);
            out.push(((x >> 24) & 0xff) as u8);
            push_zeros(&mut out, 4);
            out.push(1);
        },
    }
    push_zeros(&mut out, 7);
    assert(out@ =~= cmd_output_err_bytes(*e));
    out
}

/// A command failure decoded: the live variant's fields, strings as slots.
#[derive(Debug)]
pub enum DecodedCmdOutputErr {
    CmdErr(DecodedIoErr),
    NonZeroExit { stderr: StrSlot, stdout: StrSlot, exit_code: i32 },
}

/// The command failure layout `b` can be read: a discriminant below 2, and
/// under it a readable live variant.
pub open spec fn cmd_output_err_readable(b: Seq<u8>) -> bool {
    &&& b.len() == CMD_OUTPUT_ERR_SIZE
    &&& b[56] < 2
    &&& b[56] == 0 ==> b[24] < 9 && slot_readable(b, 0)
    &&& b[56] == 1 ==> slot_readable(b, 0) && slot_readable(b, 24)
}

/// Decodes a command failure, reading only the live variant's bytes. A
/// discriminant of 2 or more is a contract violation.
pub fn decode_cmd_output_err(b: &[u8]) -> (r: DecodedCmdOutputErr)
    requires
        cmd_output_err_readable(b@),
    ensures
        b@[56] == 0 ==> (r matches DecodedCmdOutputErr::CmdErr(io) && io.tag == io_tag_of_byte(
            b@[24],
        ) && io.msg@ == decode_slot(b@, 0)),
        b@[56] == 1 ==> (r matches DecodedCmdOutputErr::NonZeroExit { stderr, stdout, exit_code }
            && stderr@ == decode_slot(b@, 0) && stdout@ == decode_slot(b@, 24) && exit_code == (
        read_le32(b@, 48) as i32)),
{
    if b[CMD_OUTPUT_ERR_TAG_AT] == 0 {
        DecodedCmdOutputErr::CmdErr(read_io_err(b, 0))
    } else {
        let stderr = read_str_slot(b, 0);
        let stdout = read_str_slot(b, 24);
        let x = (b[48] as u32) | ((b[49] as u32) << 8) | ((b[50] as u32) << 16) | ((b[51] as u32)
            << 24);
        DecodedCmdOutputErr::NonZeroExit { stderr, stdout, exit_code: x as i32 }
    }
}

proof fn lemma_slot_len(s: GuestStr)
    requires
        slot_str_ok(s),
    ensures
        slot_bytes(s).len() == STR_SLOT_SIZE,
{
}

#[verifier::rlimit(50)]
proof fn lemma_non_zero_exit_layout(a: GuestStr, c: GuestStr, code: i32)
    requires
        slot_str_ok(a),
        slot_str_ok(c),
    ensures
        ({
            let b = slot_bytes(a) + slot_bytes(c) + le32(code as u32) + zeros(4) + seq![1u8]
                + zeros(7);
            &&& b.len() == CMD_OUTPUT_ERR_SIZE
            &&& b[56] == 1
            &&& slot_readable(b, 0)
            &&& slot_readable(b, 24)
            &&& decode_slot(b, 0) == slot_view_of(a)
            &&& decode_slot(b, 24) == slot_view_of(c)
            &&& (read_le32(b, 48) as i32) == code
        }),
{
    let x = code as u32;
    let sa = slot_bytes(a);
    let sc = slot_bytes(c);
    lemma_slot_len(a);
    lemma_slot_len(c);
    let tail = le32(x) + zeros(4) + seq![1u8] + zeros(7);
    assert(tail.len() == 16);
    assert(tail[0] == le32(x)[0] && tail[1] == le32(x)[1] && tail[2] == le32(x)[2] && tail[3]
        == le32(x)[3] && tail[8] == 1);
    let b = sa + sc + le32(x) + zeros(4) + seq![1u8] + zeros(7);
    assert(b =~= sa + sc + tail);
    assert(b =~= Seq::<u8>::empty() + sa + (sc + tail));
    lemma_slot_round_trip(a, Seq::<u8>::empty(), sc + tail);
    lemma_slot_round_trip(c, sa, tail);
    lemma_le32_round_trip(x);
    assert(b[48] == tail[0] && b[49] == tail[1] && b[50] == tail[2] && b[51] == tail[3]);
    assert(b[56] == tail[8]);
    assert(read_le32(b, 48) == read_le32(le32(x), 0));
    assert(((code as u32) as i32) == code) by (bit_vector);
}

proof fn lemma_cmd_err_layout(io: IoErr)
    requires
        slot_str_ok(io.msg),
    ensures
        ({
            let b = io_err_bytes(io) + zeros(24) + seq![0u8] + zeros(7);
            &&& b.len() == CMD_OUTPUT_ERR_SIZE
            &&& b[56] == 0
            &&& b[24] < 9
            &&& slot_readable(b, 0)
            &&& io_tag_of_byte(b[24]) == io.tag
            &&& decode_slot(b, 0) == slot_view_of(io.msg)
        }),
{
    let post = zeros(24) + seq![0u8] + zeros(7);
    let b = io_err_bytes(io) + zeros(24) + seq![0u8] + zeros(7);
    lemma_io_err_round_trip_at(io, Seq::<u8>::empty(), post);
    assert(b =~= Seq::<u8>::empty() + io_err_bytes(io) + post);
    assert(b[56] == 0);
}

/// Decoding an encoded command failure gives back its variant and that
/// variant's fields: the I/O error's tag and message slot, or both streams'
/// slots and the exit code.
pub proof fn lemma_cmd_output_err_round_trip(e: CmdOutputErr)
    requires
        cmd_output_err_encodable(e),
    ensures
        cmd_output_err_readable(cmd_output_err_bytes(e)),
        cmd_output_err_bytes(e)[56] == e.discriminant_spec(),
        e.payload is CmdErr ==> io_tag_of_byte(cmd_output_err_bytes(e)[24])
            == e.payload->CmdErr_0.tag && decode_slot(cmd_output_err_bytes(e), 0) == slot_view_of(
            e.payload->CmdErr_0.msg,
        ),
        e.payload is NonZeroExit ==> ({
            let p = e.payload->NonZeroExit_0;
            decode_slot(cmd_output_err_bytes(e), 0) == slot_view_of(p.stderr_utf8_lossy)
                && decode_slot(cmd_output_err_bytes(e), 24) == slot_view_of(p.stdout_utf8_lossy)
                && (read_le32(cmd_output_err_bytes(e), 48) as i32) == p.exit_code
        }),
{
    match e.payload {
        CmdOutputPayload::CmdErr(io) => {
            lemma_cmd_err_layout(io);
        },
        CmdOutputPayload::NonZeroExit(p) => {
            lemma_non_zero_exit_layout(p.stderr_utf8_lossy, p.stdout_utf8_lossy, p.exit_code);
        },
    }
}

} // verus!
