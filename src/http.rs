//! Request and response records as the guest lays them out, and the
//! classification of HTTP failures into the guest's request error tags.
use crate::guest::{
    dec_at, in_table, inc_at, lemma_inc_dec_at, lemma_inc_keeps_live, live_with, GuestList,
    GuestStr, RcHeap,
};
use vstd::prelude::*;
use vstd::utf8::{encode_utf8, valid_utf8};

verus! {

#[verifier::external_type_specification]
#[verifier::external_body]
pub struct ExReqwestError(reqwest::Error);

#[verifier::external_type_specification]
#[verifier::external_body]
pub struct ExStatusCode(reqwest::StatusCode);

/// What reqwest::Error::is_builder answers for an error: a function of the error alone.
pub uninterp spec fn builder_of(e: reqwest::Error) -> bool;

/// Relies on reqwest::Error::is_builder: whether the error came from building the request.
pub assume_specification[ reqwest::Error::is_builder ](e: &reqwest::Error) -> (r: bool)
    ensures
        r == builder_of(*e),
;

/// What reqwest::Error::is_redirect answers for an error: a function of the error alone.
pub uninterp spec fn redirect_of(e: reqwest::Error) -> bool;

/// Relies on reqwest::Error::is_redirect: whether the error came from the redirect policy.
pub assume_specification[ reqwest::Error::is_redirect ](e: &reqwest::Error) -> (r: bool)
    ensures
        r == redirect_of(*e),
;

/// What reqwest::Error::is_status answers for an error: a function of the error alone.
pub uninterp spec fn status_flag_of(e: reqwest::Error) -> bool;

/// Relies on reqwest::Error::is_status: whether the error came from an error status.
pub assume_specification[ reqwest::Error::is_status ](e: &reqwest::Error) -> (r: bool)
    ensures
        r == status_flag_of(*e),
;

/// What reqwest::Error::is_timeout answers for an error: a function of the error alone.
pub uninterp spec fn timeout_of(e: reqwest::Error) -> bool;

/// Relies on reqwest::Error::is_timeout: whether a timeout caused the error, searched along its source chain.
pub assume_specification[ reqwest::Error::is_timeout ](e: &reqwest::Error) -> (r: bool)
    ensures
        r == timeout_of(*e),
;

/// What reqwest::Error::is_request answers for an error: a function of the error alone.
pub uninterp spec fn request_of(e: reqwest::Error) -> bool;

/// Relies on reqwest::Error::is_request: whether the error concerns sending the request.
pub assume_specification[ reqwest::Error::is_request ](e: &reqwest::Error) -> (r: bool)
    ensures
        r == request_of(*e),
;

/// What reqwest::Error::is_connect answers for an error: a function of the error alone.
pub uninterp spec fn connect_of(e: reqwest::Error) -> bool;

/// Relies on reqwest::Error::is_connect: whether the error concerns connecting, searched along its source chain.
pub assume_specification[ reqwest::Error::is_connect ](e: &reqwest::Error) -> (r: bool)
    ensures
        r == connect_of(*e),
;

/// What reqwest::Error::is_body answers for an error: a function of the error alone.
pub uninterp spec fn body_of(e: reqwest::Error) -> bool;

/// Relies on reqwest::Error::is_body: whether the error concerns a body.
pub assume_specification[ reqwest::Error::is_body ](e: &reqwest::Error) -> (r: bool)
    ensures
        r == body_of(*e),
;

/// What reqwest::Error::is_decode answers for an error: a function of the error alone.
pub uninterp spec fn decode_of(e: reqwest::Error) -> bool;

/// Relies on reqwest::Error::is_decode: whether the error concerns decoding a response body.
pub assume_specification[ reqwest::Error::is_decode ](e: &reqwest::Error) -> (r: bool)
    ensures
        r == decode_of(*e),
;

/// What reqwest::Error::is_upgrade answers for an error: a function of the error alone.
pub uninterp spec fn upgrade_of(e: reqwest::Error) -> bool;

/// Relies on reqwest::Error::is_upgrade: whether the error concerns a protocol upgrade.
pub assume_specification[ reqwest::Error::is_upgrade ](e: &reqwest::Error) -> (r: bool)
    ensures
        r == upgrade_of(*e),
;

/// What reqwest::Error::status answers for an error: a function of the error alone.
pub uninterp spec fn status_of(e: reqwest::Error) -> Option<reqwest::StatusCode>;

/// Relies on reqwest::Error::status: the status code of an error made from a response.
pub assume_specification[ reqwest::Error::status ](e: &reqwest::Error) -> (r: Option<
    reqwest::StatusCode,
>)
    ensures
        r == status_of(*e),
;

/// What StatusCode::as_u16 answers for a status code: the code it holds.
pub uninterp spec fn status_number(s: reqwest::StatusCode) -> u16;

/// Relies on StatusCode::as_u16: the code as a number.
pub assume_specification[ reqwest::StatusCode::as_u16 ](s: &reqwest::StatusCode) -> (r: u16)
    ensures
        r == status_number(*s),
;

#[verifier::external_type_specification]
#[verifier::external_body]
pub struct ExHeaderName(reqwest::header::HeaderName);

#[verifier::external_type_specification]
#[verifier::external_body]
pub struct ExHeaderValue(reqwest::header::HeaderValue);

#[verifier::external_type_specification]
#[verifier::external_body]
pub struct ExInvalidHeaderName(reqwest::header::InvalidHeaderName);

#[verifier::external_type_specification]
#[verifier::external_body]
pub struct ExInvalidHeaderValue(reqwest::header::InvalidHeaderValue);

/// A byte that may stand in a header name: a letter, a digit, or one of
/// ``!#$%&'*+-.^_`|~``.
pub open spec fn is_token_byte(c: u8) -> bool {
    ||| 0x61 <= c <= 0x7a
    ||| 0x41 <= c <= 0x5a
    ||| 0x30 <= c <= 0x39
    ||| c == 0x21 || c == 0x23 || c == 0x24 || c == 0x25 || c == 0x26 || c == 0x27
    ||| c == 0x2a || c == 0x2b || c == 0x2d || c == 0x2e
    ||| c == 0x5e || c == 0x5f || c == 0x60 || c == 0x7c || c == 0x7e
}

/// Field-name grammar: one to 65535 token bytes.
pub open spec fn header_name_ok(b: Seq<u8>) -> bool {
    &&& 1 <= b.len() <= 65535
    &&& forall|i: int| 0 <= i < b.len() ==> is_token_byte(#[trigger] b[i])
}

/// A byte that may stand in a header value: a tab, or anything from space
/// up but DEL.
pub open spec fn is_value_byte(c: u8) -> bool {
    (c >= 32 && c != 127) || c == 9
}

/// Field-value grammar: every byte is a value byte.
pub open spec fn header_value_ok(b: Seq<u8>) -> bool {
    forall|i: int| 0 <= i < b.len() ==> is_value_byte(#[trigger] b[i])
}

/// Relies on HeaderName::from_bytes: accepts exactly the names of one to
/// 65535 bytes, each mapped to a non-zero entry of its token table.
pub assume_specification[ reqwest::header::HeaderName::from_bytes ](src: &[u8]) -> (r: Result<
    reqwest::header::HeaderName,
    reqwest::header::InvalidHeaderName,
>)
    ensures
        r is Ok <==> header_name_ok(src@),
;

/// Relies on HeaderValue::from_bytes: accepts exactly the values whose bytes
/// are all a tab or at least a space and not DEL.
pub assume_specification[ reqwest::header::HeaderValue::from_bytes ](src: &[u8]) -> (r: Result<
    reqwest::header::HeaderValue,
    reqwest::header::InvalidHeaderValue,
>)
    ensures
        r is Ok <==> header_value_ok(src@),
;

/// The guest's request error tags, most specific first.
#[derive(Clone, Copy, PartialEq, Eq, Structural, PartialOrd, Ord, Hash, Debug)]
pub enum RequestErrTag {
    Builder,
    Redirect,
    Status,
    Timeout,
    Request,
    Connect,
    Body,
    Decode,
    Upgrade,
    InvalidMethod,
    InvalidHeaderName,
    InvalidHeaderValue,
    Other,
}

/// A request error as the guest sees it: one tag, and a status code that
/// means something for the `Status` tag only and is zero for every other.
#[derive(Clone, Copy, PartialEq, Eq, Structural, Debug)]
pub struct RequestErr {
    status_code: u16,
    pub tag: RequestErrTag,
}

/// What a native HTTP failure says about itself, as plain values. `status`
/// holds the response's status code when the failure is an error status.
#[derive(Clone, Copy, PartialEq, Eq, Structural, Debug)]
pub struct RequestErrorKinds {
    pub builder: bool,
    pub redirect: bool,
    pub status: Option<u16>,
    pub timeout: bool,
    pub request: bool,
    pub connect: bool,
    pub body: bool,
    pub decode: bool,
    pub upgrade: bool,
}

/// What a native HTTP failure says about itself, as the accessors answer:
/// the status code is taken only when the error is an error status.
pub open spec fn native_kinds(e: reqwest::Error) -> RequestErrorKinds {
    RequestErrorKinds {
        builder: builder_of(e),
        redirect: redirect_of(e),
        status: if status_flag_of(e) {
            match status_of(e) {
                Some(code) => Some(status_number(code)),
                None => None,
            }
        } else {
            None
        },
        timeout: timeout_of(e),
        request: request_of(e),
        connect: connect_of(e),
        body: body_of(e),
        decode: decode_of(e),
        upgrade: upgrade_of(e),
    }
}

/// An error with `tag` and no status code, as a tag and a code.
pub open spec fn plain_err(tag: RequestErrTag) -> (RequestErrTag, u16) {
    (tag, 0)
}

/// The first condition that holds picks the tag; `Other` catches the rest.
pub open spec fn classify_kinds(k: RequestErrorKinds) -> (RequestErrTag, u16) {
    if k.builder {
        plain_err(RequestErrTag::Builder)
    } else if k.redirect {
        plain_err(RequestErrTag::Redirect)
    } else if k.status is Some {
        (RequestErrTag::Status, k.status->0)
    } else if k.timeout {
        plain_err(RequestErrTag::Timeout)
    } else if k.request {
        plain_err(RequestErrTag::Request)
    } else if k.connect {
        plain_err(RequestErrTag::Connect)
    } else if k.body {
        plain_err(RequestErrTag::Body)
    } else if k.decode {
        plain_err(RequestErrTag::Decode)
    } else if k.upgrade {
        plain_err(RequestErrTag::Upgrade)
    } else {
        plain_err(RequestErrTag::Other)
    }
}

impl RequestErr {
    /// The status code field.
    pub closed spec fn status_spec(&self) -> u16 {
        self.status_code
    }

    /// The tag and the status code.
    pub closed spec fn parts(&self) -> (RequestErrTag, u16) {
        (self.tag, self.status_spec())
    }

    /// Only the `Status` tag carries a status code.
    pub open spec fn wf(&self) -> bool {
        self.parts().0 != RequestErrTag::Status ==> self.parts().1 == 0
    }

    /// The tag.
    pub fn tag(&self) -> (r: RequestErrTag)
        ensures
            r == self.parts().0,
    {
        self.tag
    }

    /// The status code; zero unless the tag is `Status`.
    pub fn status_code(&self) -> (r: u16)
        ensures
            r == self.parts().1,
    {
        self.status_code
    }

    /// An error with `tag`; `status_code` is kept for the `Status` tag only.
    pub fn new(tag: RequestErrTag, status_code: u16) -> (r: RequestErr)
        requires
            tag != RequestErrTag::Status ==> status_code == 0,
        ensures
            r.parts() == (tag, status_code),
    {
        RequestErr { status_code, tag }
    }

    /// The method of a request is not one the native client takes.
    pub fn invalid_method() -> (r: RequestErr)
        ensures
            r.parts() == plain_err(RequestErrTag::InvalidMethod),
    {
        RequestErr { status_code: 0, tag: RequestErrTag::InvalidMethod }
    }

    /// A header name breaks the field-name grammar.
    pub fn invalid_header_name() -> (r: RequestErr)
        ensures
            r.parts() == plain_err(RequestErrTag::InvalidHeaderName),
    {
        RequestErr { status_code: 0, tag: RequestErrTag::InvalidHeaderName }
    }

    /// A header value breaks the field-value grammar.
    pub fn invalid_header_value() -> (r: RequestErr)
        ensures
            r.parts() == plain_err(RequestErrTag::InvalidHeaderValue),
    {
        RequestErr { status_code: 0, tag: RequestErrTag::InvalidHeaderValue }
    }

    /// Picks the tag for a failure described by `k`, most specific condition first.
    pub fn classify(k: &RequestErrorKinds) -> (r: RequestErr)
        ensures
            r.parts() == classify_kinds(*k),
            r.wf(),
    {
        if k.builder {
            RequestErr { status_code: 0, tag: RequestErrTag::Builder }
        } else if k.redirect {
            RequestErr { status_code: 0, tag: RequestErrTag::Redirect }
        } else if let Some(code) = k.status {
            RequestErr { status_code: code, tag: RequestErrTag::Status }
        } else if k.timeout {
            RequestErr { status_code: 0, tag: RequestErrTag::Timeout }
        } else if k.request {
            RequestErr { status_code: 0, tag: RequestErrTag::Request }
        } else if k.connect {
            RequestErr { status_code: 0, tag: RequestErrTag::Connect }
        } else if k.body {
            RequestErr { status_code: 0, tag: RequestErrTag::Body }
        } else if k.decode {
            RequestErr { status_code: 0, tag: RequestErrTag::Decode }
        } else if k.upgrade {
            RequestErr { status_code: 0, tag: RequestErrTag::Upgrade }
        } else {
            RequestErr { status_code: 0, tag: RequestErrTag::Other }
        }
    }

    /// Reads what a native HTTP failure says about itself. The status code is
    /// taken only from an error status.
    fn kinds_of(e: &reqwest::Error) -> (r: RequestErrorKinds)
        ensures
            r == native_kinds(*e),
    {
        let status = if e.is_status() {
            match e.status() {
                Some(code) => Some(code.as_u16()),
                None => None,
            }
        } else {
            None
        };
        RequestErrorKinds {
            builder: e.is_builder(),
            redirect: e.is_redirect(),
            status,
            timeout: e.is_timeout(),
            request: e.is_request(),
            connect: e.is_connect(),
            body: e.is_body(),
            decode: e.is_decode(),
            upgrade: e.is_upgrade(),
        }
    }

    /// Classifies a native HTTP failure by what its accessors answer, most
    /// specific condition first.
    pub fn from_request_error(e: &reqwest::Error) -> (r: RequestErr)
        ensures
            r.parts() == classify_kinds(native_kinds(*e)),
            r.wf(),
    {
        let k = RequestErr::kinds_of(e);
        RequestErr::classify(&k)
    }
}

/// The guest's request methods; `Extension` stands for any other method and
/// carries its name.
#[derive(Clone, Copy, PartialEq, Eq, Structural, PartialOrd, Ord, Hash, Debug)]
pub enum MethodTag {
    Options,
    Get,
    Post,
    Put,
    Delete,
    Head,
    Trace,
    Connect,
    Patch,
    Extension,
}

/// A request method: a tag, and for `Extension` only, the method's name.
#[derive(Debug)]
pub struct Method {
    extension: Option<GuestStr>,
    pub tag: MethodTag,
}

impl Method {
    /// The tag.
    pub closed spec fn tag_spec(&self) -> MethodTag {
        self.tag
    }

    /// The stored name, present exactly under the `Extension` tag.
    pub closed spec fn extension_spec(&self) -> Option<GuestStr> {
        self.extension
    }

    /// A name is stored exactly under `Extension`, and it is a well-formed string.
    pub open spec fn wf_in(&self, h: Seq<u64>) -> bool {
        &&& (self.tag_spec() == MethodTag::Extension <==> self.extension_spec() is Some)
        &&& (self.extension_spec() is Some ==> self.extension_spec()->0.wf_in(h))
    }

    /// The counted allocation live under the current tag: the name's, for
    /// `Extension`, and none for any other tag.
    pub open spec fn counted(&self) -> Option<usize> {
        if self.tag_spec() == MethodTag::Extension && self.extension_spec() is Some {
            self.extension_spec()->0.allocation()
        } else {
            None
        }
    }

    /// One of the standard methods.
    pub fn standard(tag: MethodTag) -> (r: Method)
        requires
            tag != MethodTag::Extension,
        ensures
            r.tag_spec() == tag,
            r.extension_spec() is None,
    {
        Method { extension: None, tag }
    }

    /// A method outside the standard set, named `name`.
    pub fn new_extension(name: GuestStr) -> (r: Method)
        ensures
            r.tag_spec() == MethodTag::Extension,
            r.extension_spec() == Some(name),
    {
        Method { extension: Some(name), tag: MethodTag::Extension }
    }

    /// The tag.
    pub fn tag(&self) -> (r: MethodTag)
        ensures
            r == self.tag_spec(),
    {
        self.tag
    }

    /// The method's name when the tag is `Extension`; `None` under any other
    /// tag, whatever is stored.
    pub fn extension(&self) -> (r: Option<&GuestStr>)
        ensures
            r is Some <==> (self.tag_spec() == MethodTag::Extension
                && self.extension_spec() is Some),
            r is Some ==> *r->0 == self.extension_spec()->0,
    {
        if self.tag == MethodTag::Extension {
            self.extension.as_ref()
        } else {
            None
        }
    }

    /// A second owner of the method: under `Extension` the name's storage is
    /// shared and its count goes up by one; under any other tag nothing is
    /// counted.
    pub fn clone_counted(&self, heap: &mut RcHeap) -> (r: Method)
        requires
            self.wf_in(old(heap)@),
        ensures
            r.tag_spec() == self.tag_spec(),
            r.counted() == self.counted(),
            r.extension_spec() is Some <==> self.extension_spec() is Some,
            r.extension_spec() is Some ==> r.extension_spec()->0@ == self.extension_spec()->0@,
            r.wf_in(final(heap)@),
            final(heap)@ == inc_at(old(heap)@, self.counted()),
    {
        if self.tag == MethodTag::Extension {
            match &self.extension {
                Some(name) => {
                    let shared = name.share(heap);
                    Method { extension: Some(shared), tag: self.tag }
                },
                None => Method { extension: None, tag: self.tag },
            }
        } else {
            Method { extension: None, tag: self.tag }
        }
    }

    /// Records one more owner: touches the name under `Extension` only.
    pub fn inc(&self, heap: &mut RcHeap)
        requires
            in_table(old(heap)@, self.counted()),
        ensures
            final(heap)@ == inc_at(old(heap)@, self.counted()),
    {
        if self.tag == MethodTag::Extension {
            if let Some(name) = &self.extension {
                name.inc(heap);
            }
        }
    }

    /// Drops one owner: touches the name under `Extension` only.
    pub fn dec(&self, heap: &mut RcHeap)
        requires
            in_table(old(heap)@, self.counted()),
        ensures
            final(heap)@ == dec_at(old(heap)@, self.counted()),
    {
        if self.tag == MethodTag::Extension {
            if let Some(name) = &self.extension {
                name.dec(heap);
            }
        }
    }
}

/// The rejection, if any, of a header with these name and value bytes: the
/// name is checked first.
pub open spec fn header_rejection(name: Seq<u8>, value: Seq<u8>) -> Option<RequestErrTag> {
    if !header_name_ok(name) {
        Some(RequestErrTag::InvalidHeaderName)
    } else if !header_value_ok(value) {
        Some(RequestErrTag::InvalidHeaderValue)
    } else {
        None
    }
}

/// A header read back from the native side, as name and value bytes: taken
/// as they are when the value is a valid header value in UTF-8, refused
/// otherwise.
pub open spec fn wire_header(name: Seq<u8>, value: Seq<u8>) -> Option<(Seq<u8>, Seq<u8>)> {
    if header_value_ok(value) && valid_utf8(value) {
        Some((name, value))
    } else {
        None
    }
}

/// A header: a name and a value, both guest strings.
#[derive(Debug)]
pub struct Header {
    name: GuestStr,
    value: GuestStr,
}

impl Header {
    /// The name.
    pub closed spec fn name_spec(&self) -> GuestStr {
        self.name
    }

    /// The value.
    pub closed spec fn value_spec(&self) -> GuestStr {
        self.value
    }

    /// Both strings well-formed.
    pub open spec fn wf_in(&self, h: Seq<u64>) -> bool {
        self.name_spec().wf_in(h) && self.value_spec().wf_in(h)
    }

    /// A header of `name` and `value`.
    pub fn new(name: GuestStr, value: GuestStr) -> (r: Header)
        ensures
            r.name_spec() == name,
            r.value_spec() == value,
    {
        Header { name, value }
    }

    /// The name.
    pub fn name(&self) -> (r: &GuestStr)
        ensures
            *r == self.name_spec(),
    {
        &self.name
    }

    /// The value.
    pub fn value(&self) -> (r: &GuestStr)
        ensures
            *r == self.value_spec(),
    {
        &self.value
    }

    /// Checks the name against the field-name grammar, then the value against
    /// the field-value grammar, and gives the native pair.
    pub fn to_native(&self) -> (r: Result<
        (reqwest::header::HeaderName, reqwest::header::HeaderValue),
        RequestErr,
    >)
        ensures
            r is Ok <==> header_rejection(self.name_spec()@, self.value_spec()@) is None,
            r is Err ==> r->Err_0.parts() == plain_err(
                header_rejection(self.name_spec()@, self.value_spec()@)->0,
            ),
    {
        let name = match reqwest::header::HeaderName::from_bytes(self.name.as_bytes()) {
            Ok(n) => n,
            Err(_) => {
                return Err(RequestErr::invalid_header_name());
            },
        };
        let value = match reqwest::header::HeaderValue::from_bytes(self.value.as_bytes()) {
            Ok(v) => v,
            Err(_) => {
                return Err(RequestErr::invalid_header_value());
            },
        };
        Ok((name, value))
    }

    /// Reads back a header received from the native side: the name's text and
    /// the value's bytes. The value must be a valid header value and valid UTF-8.
    pub fn from_wire(name: &str, value: &[u8], heap: &mut RcHeap) -> (r: Result<
        Header,
        RequestErr,
    >)
        requires
            old(heap)@.len() + 2 < usize::MAX,
        ensures
            r is Ok <==> wire_header(encode_utf8(name@), value@) is Some,
            r is Ok ==> (r->Ok_0.name_spec()@, r->Ok_0.value_spec()@) == wire_header(
                encode_utf8(name@),
                value@,
            )->0 && r->Ok_0.wf_in(final(heap)@),
            r is Err ==> r->Err_0.parts() == plain_err(RequestErrTag::InvalidHeaderValue),
            final(heap)@.len() <= old(heap)@.len() + 2,
            old(heap)@.len() <= final(heap)@.len(),
            final(heap)@.subrange(0, old(heap)@.len() as int) == old(heap)@,
    {
        let mut i: usize = 0;
        while i < value.len()
            invariant
                i <= value@.len(),
                forall|j: int| 0 <= j < i ==> is_value_byte(#[trigger] value@[j]),
            decreases value@.len() - i,
        {
            let c = value[i];
            if !((c >= 32 && c != 127) || c == 9) {
                return Err(RequestErr::invalid_header_value());
            }
            i = i + 1;
        }
        let v = match GuestStr::from_utf8(value, heap) {
            Some(v) => v,
            None => {
                return Err(RequestErr::invalid_header_value());
            },
        };
        let ghost mid = heap@;
        let n = GuestStr::from_str(name, heap);
        assert(final(heap)@.subrange(0, old(heap)@.len() as int) =~= old(heap)@) by {
            assert(mid.subrange(0, old(heap)@.len() as int) =~= old(heap)@);
        }
        Ok(Header { name: n, value: v })
    }

    /// Records one more owner of the name and of the value.
    pub fn inc(&self, heap: &mut RcHeap)
        requires
            self.wf_in(old(heap)@),
        ensures
            final(heap)@ == inc_header(old(heap)@, *self),
    {
        self.name.inc(heap);
        self.value.inc(heap);
    }

    /// Drops one owner of the value and of the name.
    pub fn dec(&self, heap: &mut RcHeap)
        requires
            self.wf_in(old(heap)@),
        ensures
            final(heap)@ == dec_header(old(heap)@, *self),
    {
        self.value.dec(heap);
        self.name.dec(heap);
    }
}

/// Counts after one more owner of a header.
pub open spec fn inc_header(h: Seq<u64>, hd: Header) -> Seq<u64> {
    inc_at(inc_at(h, hd.name_spec().allocation()), hd.value_spec().allocation())
}

/// Counts after one owner of a header less.
pub open spec fn dec_header(h: Seq<u64>, hd: Header) -> Seq<u64> {
    dec_at(dec_at(h, hd.value_spec().allocation()), hd.name_spec().allocation())
}

/// Counts after releasing each header of `hs` in turn.
pub open spec fn release_headers(h: Seq<u64>, hs: Seq<Header>) -> Seq<u64>
    decreases hs.len(),
{
    if hs.len() == 0 {
        h
    } else {
        dec_header(release_headers(h, hs.drop_last()), hs.last())
    }
}

/// Counts after one owner of a header list less: when that releases the
/// list, each of its headers is released too.
pub open spec fn dec_header_list(h: Seq<u64>, l: GuestList<Header>) -> Seq<u64> {
    match l.allocation() {
        Some(id) => if id < h.len() && h[id as int] == 1 {
            release_headers(dec_at(h, l.allocation()), l@)
        } else {
            dec_at(h, l.allocation())
        },
        None => h,
    }
}

/// A header list allocated exactly when non-empty, with well-formed headers.
pub open spec fn header_list_wf_in(l: GuestList<Header>, h: Seq<u64>) -> bool {
    &&& l.wf_in(h)
    &&& forall|i: int| 0 <= i < l@.len() ==> (#[trigger] l@[i]).wf_in(h)
}

proof fn lemma_dec_at_len(h: Seq<u64>, a: Option<usize>)
    ensures
        dec_at(h, a).len() == h.len(),
        forall|b: Option<usize>| in_table(h, b) ==> in_table(dec_at(h, a), b),
{
}

proof fn lemma_release_len(h: Seq<u64>, hs: Seq<Header>)
    ensures
        release_headers(h, hs).len() == h.len(),
    decreases hs.len(),
{
    if hs.len() > 0 {
        lemma_release_len(h, hs.drop_last());
        let h1 = release_headers(h, hs.drop_last());
        lemma_dec_at_len(h1, hs.last().value_spec().allocation());
        lemma_dec_at_len(
            dec_at(h1, hs.last().value_spec().allocation()),
            hs.last().name_spec().allocation(),
        );
    }
}

/// Adds one owner to a header list.
pub fn inc_header_list(l: &GuestList<Header>, heap: &mut RcHeap)
    requires
        header_list_wf_in(*l, old(heap)@),
    ensures
        final(heap)@ == inc_at(old(heap)@, l.allocation()),
{
    l.inc(heap);
}

/// Drops one owner of a header list, releasing its headers when the list
/// itself is released.
pub fn dec_header_list_exec(l: &GuestList<Header>, heap: &mut RcHeap)
    requires
        header_list_wf_in(*l, old(heap)@),
    ensures
        final(heap)@ == dec_header_list(old(heap)@, *l),
        final(heap)@.len() == old(heap)@.len(),
{
    let released = l.dec(heap);
    if released {
        let ghost start = heap@;
        let items = l.as_slice();
        let mut i: usize = 0;
        while i < items.len()
            invariant
                i <= items@.len(),
                items@ == l@,
                header_list_wf_in(*l, old(heap)@),
                start.len() == old(heap)@.len(),
                heap@ == release_headers(start, items@.subrange(0, i as int)),
                heap@.len() == old(heap)@.len(),
            decreases items@.len() - i,
        {
            proof {
                assert(items@.subrange(0, i + 1).drop_last() =~= items@.subrange(0, i as int));
                assert(items@[i as int].wf_in(old(heap)@));
            }
            items[i].dec(heap);
            i = i + 1;
            proof {
                lemma_release_len(start, items@.subrange(0, i as int));
            }
        }
        assert(items@.subrange(0, items@.len() as int) =~= items@);
    }
}

/// A request as the guest lays it out; every field is always present.
#[derive(Debug)]
pub struct Request {
    pub body: GuestList<u8>,
    pub headers: GuestList<Header>,
    pub method: Method,
    pub uri: GuestStr,
}

impl Request {
    /// Every field well-formed against the counts `h`.
    pub open spec fn wf_in(&self, h: Seq<u64>) -> bool {
        &&& self.body.wf_in(h)
        &&& header_list_wf_in(self.headers, h)
        &&& self.method.wf_in(h)
        &&& self.uri.wf_in(h)
    }

    /// Records one more owner of every counted field.
    pub fn inc(&self, heap: &mut RcHeap)
        requires
            self.wf_in(old(heap)@),
        ensures
            final(heap)@ == inc_request(old(heap)@, *self),
    {
        self.method.inc(heap);
        inc_header_list(&self.headers, heap);
        self.uri.inc(heap);
        self.body.inc(heap);
    }

    /// Drops one owner of every counted field, in the reverse order of `inc`.
    pub fn dec(&self, heap: &mut RcHeap)
        requires
            self.wf_in(old(heap)@),
        ensures
            final(heap)@ == dec_request(old(heap)@, *self),
    {
        self.body.dec(heap);
        self.uri.dec(heap);
        dec_header_list_exec(&self.headers, heap);
        self.method.dec(heap);
    }
}

/// Counts after one more owner of a request.
pub open spec fn inc_request(h: Seq<u64>, r: Request) -> Seq<u64> {
    inc_at(
        inc_at(inc_at(inc_at(h, r.method.counted()), r.headers.allocation()), r.uri.allocation()),
        r.body.allocation(),
    )
}

/// Counts after one owner of a request less.
pub open spec fn dec_request(h: Seq<u64>, r: Request) -> Seq<u64> {
    dec_at(
        dec_header_list(dec_at(dec_at(h, r.body.allocation()), r.uri.allocation()), r.headers),
        r.method.counted(),
    )
}

/// A response as the guest lays it out.
#[derive(Debug)]
pub struct Response {
    pub body: GuestList<u8>,
    pub headers: GuestList<Header>,
    pub status: u16,
}

impl Response {
    /// Builds a response from what the native side received: the status
    /// code, each header as name text and value bytes, in order, and the
    /// body. Fails with `InvalidHeaderValue` when a value does not read as text.
    pub fn from_parts(
        status: u16,
        headers: &[(String, Vec<u8>)],
        body: &[u8],
        heap: &mut RcHeap,
    ) -> (r: Result<Response, RequestErr>)
        requires
            old(heap)@.len() + 2 * headers@.len() + 2 < usize::MAX,
        ensures
            r is Ok <==> forall|i: int|
                0 <= i < headers@.len() ==> #[trigger] wire_header(
                    encode_utf8(headers@[i].0@),
                    headers@[i].1@,
                ) is Some,
            r is Ok ==> {
                let resp = r->Ok_0;
                &&& resp.status == status
                &&& resp.body@ == body@
                &&& resp.headers@.len() == headers@.len()
                &&& forall|i: int|
                    0 <= i < headers@.len() ==> Some(
                        ((#[trigger] resp.headers@[i]).name_spec()@, resp.headers@[i].value_spec()@),
                    ) == wire_header(encode_utf8(headers@[i].0@), headers@[i].1@)
                &&& resp.wf_in(final(heap)@)
            },
            r is Err ==> r->Err_0.parts() == plain_err(RequestErrTag::InvalidHeaderValue),
    {
        let mut out: Vec<Header> = Vec::new();
        let mut i: usize = 0;
        while i < headers.len()
            invariant
                i <= headers@.len(),
                out@.len() == i,
                old(heap)@.len() + 2 * headers@.len() + 2 < usize::MAX,
                heap@.len() <= old(heap)@.len() + 2 * i,
                forall|j: int|
                    0 <= j < i ==> Some(
                        ((#[trigger] out@[j]).name_spec()@, out@[j].value_spec()@),
                    ) == wire_header(encode_utf8(headers@[j].0@), headers@[j].1@),
                forall|j: int| 0 <= j < i ==> (#[trigger] out@[j]).wf_in(heap@),
            decreases headers@.len() - i,
        {
            let ghost before = heap@;
            match Header::from_wire(headers[i].0.as_str(), headers[i].1.as_slice(), heap) {
                Ok(hd) => {
                    assert forall|j: int| 0 <= j < i implies (#[trigger] out@[j]).wf_in(heap@) by {
                        assert(out@[j].wf_in(before));
                    }
                    out.push(hd);
                },
                Err(e) => {
                    assert(wire_header(encode_utf8(headers@[i as int].0@), headers@[i as int].1@)
                        is None);
                    return Err(e);
                },
            }
            i = i + 1;
        }
        assert forall|j: int| 0 <= j < headers@.len() implies #[trigger] wire_header(
            encode_utf8(headers@[j].0@),
            headers@[j].1@,
        ) is Some by {
            assert(Some((out@[j].name_spec()@, out@[j].value_spec()@)) == wire_header(
                encode_utf8(headers@[j].0@),
                headers@[j].1@,
            ));
        }
        let ghost before_lists = heap@;
        let hs = GuestList::from_vec(out, heap);
        let b = GuestList::from_slice(body, heap);
        let resp = Response { body: b, headers: hs, status };
        assert(header_list_wf_in(resp.headers, heap@)) by {
            assert forall|j: int| 0 <= j < resp.headers@.len() implies (
            #[trigger] resp.headers@[j]).wf_in(heap@) by {
                assert(resp.headers@[j].wf_in(before_lists));
            }
        }
        Ok(resp)
    }

    /// Both counted fields well-formed against the counts `h`.
    pub open spec fn wf_in(&self, h: Seq<u64>) -> bool {
        &&& self.body.wf_in(h)
        &&& header_list_wf_in(self.headers, h)
    }

    /// Records one more owner of the headers and of the body.
    pub fn inc(&self, heap: &mut RcHeap)
        requires
            self.wf_in(old(heap)@),
        ensures
            final(heap)@ == inc_at(inc_at(old(heap)@, self.headers.allocation()), self.body.allocation()),
    {
        inc_header_list(&self.headers, heap);
        self.body.inc(heap);
    }

    /// Drops one owner of the body and of the headers.
    pub fn dec(&self, heap: &mut RcHeap)
        requires
            self.wf_in(old(heap)@),
        ensures
            final(heap)@ == dec_header_list(dec_at(old(heap)@, self.body.allocation()), self.headers),
    {
        self.body.dec(heap);
        dec_header_list_exec(&self.headers, heap);
    }
}

/// One more owner of a method, then one fewer, leaves every count as it
/// was, under every tag; for a tag other than `Extension` both are no-ops.
pub proof fn lemma_method_inc_dec(m: Method, h: Seq<u64>)
    requires
        m.wf_in(h),
        live_with(h, m.counted(), 0),
    ensures
        dec_at(inc_at(h, m.counted()), m.counted()) == h,
        m.tag_spec() != MethodTag::Extension ==> inc_at(h, m.counted()) == h && dec_at(
            h,
            m.counted(),
        ) == h,
{
    lemma_inc_dec_at(h, m.counted());
}

/// One more owner of a header, then one fewer, leaves every count as it was.
pub proof fn lemma_header_inc_dec(hd: Header, h: Seq<u64>)
    requires
        hd.wf_in(h),
        live_with(h, hd.name_spec().allocation(), 1),
        live_with(h, hd.value_spec().allocation(), 1),
    ensures
        dec_header(inc_header(h, hd), hd) == h,
{
    let n = hd.name_spec().allocation();
    let v = hd.value_spec().allocation();
    let h1 = inc_at(h, n);
    lemma_inc_keeps_live(h, n, v, 1);
    lemma_inc_dec_at(h1, v);
    lemma_inc_dec_at(h, n);
}

/// One more owner of a request, then one fewer, leaves every count as it
/// was: the header list is not released on the way.
pub proof fn lemma_request_inc_dec(r: Request, h: Seq<u64>)
    requires
        r.wf_in(h),
        live_with(h, r.method.counted(), 3),
        live_with(h, r.headers.allocation(), 3),
        live_with(h, r.uri.allocation(), 3),
        live_with(h, r.body.allocation(), 3),
    ensures
        dec_request(inc_request(h, r), r) == h,
{
    let m = r.method.counted();
    let l = r.headers.allocation();
    let u = r.uri.allocation();
    let b = r.body.allocation();
    let h1 = inc_at(h, m);
    let h2 = inc_at(h1, l);
    let h3 = inc_at(h2, u);
    lemma_inc_keeps_live(h, m, l, 3);
    lemma_inc_keeps_live(h, m, u, 3);
    lemma_inc_keeps_live(h, m, b, 3);
    lemma_inc_keeps_live(h1, l, u, 2);
    lemma_inc_keeps_live(h1, l, b, 2);
    lemma_inc_keeps_live(h2, u, b, 1);
    lemma_inc_dec_at(h3, b);
    lemma_inc_dec_at(h2, u);
    lemma_inc_dec_at(h1, l);
    lemma_inc_dec_at(h, m);
    if let Some(id) = l {
        assert(h2[id as int] >= 2);
    }
    assert(dec_header_list(h2, r.headers) == dec_at(h2, l));
}

/// One more owner of a response, then one fewer, leaves every count as it
/// was: the header list is not released on the way.
pub proof fn lemma_response_inc_dec(r: Response, h: Seq<u64>)
    requires
        r.wf_in(h),
        live_with(h, r.headers.allocation(), 1),
        live_with(h, r.body.allocation(), 1),
    ensures
        dec_header_list(
            dec_at(inc_at(inc_at(h, r.headers.allocation()), r.body.allocation()), r.body.allocation()),
            r.headers,
        ) == h,
{
    let l = r.headers.allocation();
    let b = r.body.allocation();
    let h1 = inc_at(h, l);
    lemma_inc_keeps_live(h, l, b, 1);
    lemma_inc_dec_at(h1, b);
    lemma_inc_dec_at(h, l);
    if let Some(id) = l {
        assert(h1[id as int] >= 2);
    }
}

/// Header validation checks the name first: an invalid name is reported
/// whatever the value; a valid name with an invalid value reports the value;
/// a header valid in both passes, and, its value being UTF-8 as every guest
/// string is, it reads back from the native side unchanged.
pub proof fn lemma_header_validation(name: Seq<u8>, value: Seq<u8>)
    ensures
        !header_name_ok(name) ==> header_rejection(name, value) == Some(
            RequestErrTag::InvalidHeaderName,
        ),
        header_name_ok(name) && !header_value_ok(value) ==> header_rejection(name, value)
            == Some(RequestErrTag::InvalidHeaderValue),
        header_name_ok(name) && header_value_ok(value) ==> header_rejection(name, value) is None,
        header_rejection(name, value) is None && valid_utf8(value) ==> wire_header(name, value)
            == Some((name, value)),
{
}

/// A well-formed header that passes validation reads back from the native
/// side with the same name and value bytes.
pub proof fn lemma_header_round_trip(hd: Header, h: Seq<u64>)
    requires
        hd.wf_in(h),
        header_rejection(hd.name_spec()@, hd.value_spec()@) is None,
    ensures
        wire_header(hd.name_spec()@, hd.value_spec()@) == Some(
            (hd.name_spec()@, hd.value_spec()@),
        ),
{
    lemma_header_validation(hd.name_spec()@, hd.value_spec()@);
}

/// Equal native HTTP failures are classified alike: same tag, same status code.
pub proof fn lemma_native_classify_deterministic(a: reqwest::Error, b: reqwest::Error)
    requires
        a == b,
    ensures
        classify_kinds(native_kinds(a)) == classify_kinds(native_kinds(b)),
{
}

/// Classification is a function of the failure's description: equal
/// descriptions give equal tags and equal status codes, exactly one tag is
/// chosen, and only the `Status` tag carries a code.
pub proof fn lemma_classify_deterministic(a: RequestErrorKinds, b: RequestErrorKinds)
    requires
        a == b,
    ensures
        classify_kinds(a) == classify_kinds(b),
        classify_kinds(a).0 != RequestErrTag::Status ==> classify_kinds(a).1 == 0,
        classify_kinds(a).0 == RequestErrTag::Status <==> (!a.builder && !a.redirect
            && a.status is Some),
        classify_kinds(a).0 == RequestErrTag::Status ==> classify_kinds(a).1 == a.status->0,
{
}

} // verus!
