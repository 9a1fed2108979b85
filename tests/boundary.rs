use roc_host::codec::{
    decode_cmd_output_err, decode_method, decode_request_err, encode_cmd_output_err,
    encode_io_err, encode_method, encode_request_err, decode_io_err, DecodedCmdOutputErr, StrSlot,
};
use roc_host::command::{
    cmd_exec_exit_code, cmd_exec_output, CmdOutputErr, CmdOutputPayload, IoErr, IoErrTag,
    IoErrorKind, NativeIoError, RunOutput,
};
use roc_host::guest::{GuestList, GuestStr, RcHeap};
use roc_host::http::{
    dec_header_list_exec, Header, Method, MethodTag, Request, RequestErr, RequestErrTag,
    RequestErrorKinds, Response,
};

fn no_kinds() -> RequestErrorKinds {
    RequestErrorKinds {
        builder: false,
        redirect: false,
        status: None,
        timeout: false,
        request: false,
        connect: false,
        body: false,
        decode: false,
        upgrade: false,
    }
}

fn run(code: Option<i32>, stdout: &[u8], stderr: &[u8]) -> Result<RunOutput, NativeIoError> {
    Ok(RunOutput { exit_code: code, stdout: stdout.to_vec(), stderr: stderr.to_vec() })
}

#[test]
fn command_exit_zero_is_success() {
    let mut heap = RcHeap::new();
    let r = cmd_exec_output(&run(Some(0), b"ok\n", b""), &mut heap);
    let out = match r {
        Ok(out) => out,
        Err(_) => panic!("expected success"),
    };
    assert_eq!(out.stdout_utf8.as_bytes(), b"ok\n");
    assert_eq!(out.stderr_utf8_lossy.as_bytes(), b"");
}

#[test]
fn command_exit_two_is_non_zero_exit() {
    let mut heap = RcHeap::new();
    let r = cmd_exec_output(&run(Some(2), b"", b"bad\n"), &mut heap);
    let err = match r {
        Err(e) => e,
        Ok(_) => panic!("expected failure"),
    };
    assert_eq!(err.discriminant(), 1);
    match err.payload {
        CmdOutputPayload::NonZeroExit(p) => {
            assert_eq!(p.exit_code, 2);
            assert_eq!(p.stderr_utf8_lossy.as_bytes(), b"bad\n");
            assert_eq!(p.stdout_utf8_lossy.as_bytes(), b"");
        }
        CmdOutputPayload::CmdErr(_) => panic!("expected a non-zero exit"),
    }
}

#[test]
fn command_missing_binary_is_io_failure() {
    let mut heap = RcHeap::new();
    let failed: Result<RunOutput, NativeIoError> = Err(NativeIoError {
        kind: IoErrorKind::NotFound,
        message: "No such file or directory (os error 2)".to_string(),
    });
    let err = match cmd_exec_output(&failed, &mut heap) {
        Err(e) => e,
        Ok(_) => panic!("expected failure"),
    };
    assert_eq!(err.discriminant(), 0);
    match err.payload {
        CmdOutputPayload::CmdErr(io) => {
            assert_eq!(io.tag, IoErrTag::NotFound);
            assert_eq!(io.msg.as_bytes(), b"");
        }
        CmdOutputPayload::NonZeroExit(_) => panic!("no streams are captured"),
    }
}

#[test]
fn command_stopped_by_signal_reports_minus_one() {
    let mut heap = RcHeap::new();
    match cmd_exec_output(&run(None, b"x", b"y"), &mut heap) {
        Err(CmdOutputErr { payload: CmdOutputPayload::NonZeroExit(p) }) => {
            assert_eq!(p.exit_code, -1);
            assert_eq!(p.stdout_utf8_lossy.as_bytes(), b"x");
        }
        _ => panic!("expected a non-zero exit"),
    }
}

#[test]
fn command_output_is_decoded_lossily() {
    let mut heap = RcHeap::new();
    match cmd_exec_output(&run(Some(2), "\u{e9}t\u{e9}".as_bytes(), b""), &mut heap) {
        Err(CmdOutputErr { payload: CmdOutputPayload::NonZeroExit(p) }) => {
            assert_eq!(p.stdout_utf8_lossy.as_bytes(), "\u{e9}t\u{e9}".as_bytes())
        }
        _ => panic!("expected a non-zero exit"),
    }
    match cmd_exec_output(&run(Some(0), b"a\xffb", b""), &mut heap) {
        Ok(out) => assert_eq!(out.stdout_utf8.as_bytes(), "a\u{FFFD}b".as_bytes()),
        Err(_) => panic!("expected success"),
    }
}

#[test]
fn exit_code_of_a_run() {
    let mut heap = RcHeap::new();
    match cmd_exec_exit_code(&Ok(Some(3)), &mut heap) {
        Ok(c) => assert_eq!(c, 3),
        Err(_) => panic!("expected a code"),
    }
    let failed: Result<Option<i32>, NativeIoError> =
        Err(NativeIoError { kind: IoErrorKind::PermissionDenied, message: "denied".to_string() });
    match cmd_exec_exit_code(&failed, &mut heap) {
        Err(e) => assert_eq!(e.tag, IoErrTag::PermissionDenied),
        Ok(_) => panic!("expected failure"),
    }
}

#[test]
fn unlisted_io_error_keeps_its_message() {
    let mut heap = RcHeap::new();
    let e = NativeIoError { kind: IoErrorKind::Unlisted, message: "disk on fire".to_string() };
    let io = IoErr::from_io_error(&e, &mut heap);
    assert_eq!(io.tag, IoErrTag::Other);
    assert_eq!(io.msg.as_bytes(), b"disk on fire");
    let eof = NativeIoError { kind: IoErrorKind::UnexpectedEof, message: "eof".to_string() };
    assert_eq!(IoErr::from_io_error(&eof, &mut heap).tag, IoErrTag::EndOfFile);
}

#[test]
fn lossy_conversion_marks_each_invalid_run_once() {
    let mut heap = RcHeap::new();
    let s = GuestStr::from_utf8_lossy(b"ok\xF0\x90\x80ok", &mut heap);
    assert_eq!(s.as_bytes(), "ok\u{FFFD}ok".as_bytes());
    let t = GuestStr::from_utf8_lossy(b"a\xffb\xfec", &mut heap);
    assert_eq!(t.as_bytes(), "a\u{FFFD}b\u{FFFD}c".as_bytes());
    let valid = GuestStr::from_utf8_lossy("h\u{e9}llo".as_bytes(), &mut heap);
    assert_eq!(valid.as_bytes(), "h\u{e9}llo".as_bytes());
}

#[test]
fn short_strings_stay_inline() {
    let mut heap = RcHeap::new();
    let small = GuestStr::from_str("abcdefghijklmnopqrstuvw", &mut heap);
    assert!(small.is_small());
    assert_eq!(heap.len(), 0);
    let big = GuestStr::from_str("abcdefghijklmnopqrstuvwx", &mut heap);
    assert!(!big.is_small());
    assert_eq!(heap.len(), 1);
    assert_eq!(heap.count(0), Some(1));
    let empty: GuestList<u8> = GuestList::from_slice(b"", &mut heap);
    assert_eq!(empty.len(), 0);
    assert_eq!(heap.len(), 1);
    let bytes = GuestList::from_slice(b"xyz", &mut heap);
    assert_eq!(bytes.as_slice(), b"xyz");
    assert_eq!(heap.len(), 2);
}

#[test]
fn request_error_constructors() {
    let m = RequestErr::invalid_method();
    assert_eq!(m.tag, RequestErrTag::InvalidMethod);
    assert_eq!(m.status_code(), 0);
    assert_eq!(RequestErr::invalid_header_name().tag, RequestErrTag::InvalidHeaderName);
    assert_eq!(RequestErr::invalid_header_value().tag, RequestErrTag::InvalidHeaderValue);
}

#[test]
fn classification_takes_the_first_match() {
    let mut k = no_kinds();
    assert_eq!(RequestErr::classify(&k).tag, RequestErrTag::Other);
    k.status = Some(404);
    let s = RequestErr::classify(&k);
    assert_eq!(s.tag, RequestErrTag::Status);
    assert_eq!(s.status_code(), 404);
    k.redirect = true;
    let r = RequestErr::classify(&k);
    assert_eq!(r.tag, RequestErrTag::Redirect);
    assert_eq!(r.status_code(), 0);
    let mut t = no_kinds();
    t.timeout = true;
    t.connect = true;
    assert_eq!(RequestErr::classify(&t).tag, RequestErrTag::Timeout);
    let mut u = no_kinds();
    u.upgrade = true;
    assert_eq!(RequestErr::classify(&u).tag, RequestErrTag::Upgrade);
}

#[test]
fn classification_is_deterministic() {
    let mut k = no_kinds();
    k.body = true;
    k.decode = true;
    let a = RequestErr::classify(&k);
    let b = RequestErr::classify(&k.clone());
    assert_eq!(a, b);
    assert_eq!(a.tag, RequestErrTag::Body);
}

#[test]
fn native_builder_error_is_classified() {
    let e = match reqwest::Client::new().get("not a url").build() {
        Err(e) => e,
        Ok(_) => panic!("the url must be refused"),
    };
    let r = RequestErr::from_request_error(&e);
    assert_eq!(r.tag, RequestErrTag::Builder);
    assert_eq!(r.status_code(), 0);
}

fn header(name: &str, value: &str, heap: &mut RcHeap) -> Header {
    Header::new(GuestStr::from_str(name, heap), GuestStr::from_str(value, heap))
}

#[test]
fn invalid_header_name_wins_over_value() {
    let mut heap = RcHeap::new();
    let h = header("bad name", "a\nb", &mut heap);
    match h.to_native() {
        Err(e) => assert_eq!(e.tag, RequestErrTag::InvalidHeaderName),
        Ok(_) => panic!("expected a rejection"),
    }
    let empty = header("", "v", &mut heap);
    match empty.to_native() {
        Err(e) => assert_eq!(e.tag, RequestErrTag::InvalidHeaderName),
        Ok(_) => panic!("expected a rejection"),
    }
}

#[test]
fn invalid_header_value_after_valid_name() {
    let mut heap = RcHeap::new();
    let h = header("x-ok", "a\nb", &mut heap);
    match h.to_native() {
        Err(e) => assert_eq!(e.tag, RequestErrTag::InvalidHeaderValue),
        Ok(_) => panic!("expected a rejection"),
    }
}

#[test]
fn valid_header_round_trips() {
    let mut heap = RcHeap::new();
    let h = header("x-request-id", "abc 123", &mut heap);
    let (name, value) = match h.to_native() {
        Ok(pair) => pair,
        Err(_) => panic!("expected a valid header"),
    };
    assert_eq!(name.as_str(), "x-request-id");
    assert_eq!(value.as_bytes(), b"abc 123");
    let back = match Header::from_wire(name.as_str(), value.as_bytes(), &mut heap) {
        Ok(b) => b,
        Err(_) => panic!("expected a read-back"),
    };
    assert_eq!(back.name().as_bytes(), h.name().as_bytes());
    assert_eq!(back.value().as_bytes(), h.value().as_bytes());
}

#[test]
fn utf8_header_value_round_trips() {
    let mut heap = RcHeap::new();
    let h = header("x-word", "caf\u{e9}", &mut heap);
    let (name, value) = match h.to_native() {
        Ok(pair) => pair,
        Err(_) => panic!("expected a valid header"),
    };
    let back = match Header::from_wire(name.as_str(), value.as_bytes(), &mut heap) {
        Ok(b) => b,
        Err(_) => panic!("expected a read-back"),
    };
    assert_eq!(back.value().as_bytes(), "caf\u{e9}".as_bytes());
    assert_eq!(back.name().as_bytes(), b"x-word");
}

#[test]
fn invalid_header_value_is_refused_on_read_back() {
    let mut heap = RcHeap::new();
    match Header::from_wire("x", &[b'a', 0xff], &mut heap) {
        Err(e) => assert_eq!(e.tag, RequestErrTag::InvalidHeaderValue),
        Ok(_) => panic!("expected a rejection"),
    }
    match Header::from_wire("x", b"a\nb", &mut heap) {
        Err(e) => assert_eq!(e.tag, RequestErrTag::InvalidHeaderValue),
        Ok(_) => panic!("expected a rejection"),
    }
}

#[test]
fn guest_string_from_utf8() {
    let mut heap = RcHeap::new();
    match GuestStr::from_utf8("h\u{e9}".as_bytes(), &mut heap) {
        Some(s) => assert_eq!(s.as_bytes(), "h\u{e9}".as_bytes()),
        None => panic!("valid UTF-8 must be taken"),
    }
    assert!(GuestStr::from_utf8(&[0xc3], &mut heap).is_none());
}

#[test]
fn response_from_parts() {
    let mut heap = RcHeap::new();
    let headers = vec![("content-type".to_string(), b"text/plain".to_vec())];
    let r = match Response::from_parts(200, &headers, b"hello", &mut heap) {
        Ok(r) => r,
        Err(_) => panic!("expected a response"),
    };
    assert_eq!(r.status, 200);
    assert_eq!(r.body.as_slice(), b"hello");
    assert_eq!(r.headers.len(), 1);
    assert_eq!(r.headers.as_slice()[0].name().as_bytes(), b"content-type");
    let bad = vec![("x".to_string(), vec![0xffu8])];
    match Response::from_parts(200, &bad, b"", &mut heap) {
        Err(e) => assert_eq!(e.tag, RequestErrTag::InvalidHeaderValue),
        Ok(_) => panic!("expected a rejection"),
    }
}

#[test]
fn method_extension_only_under_its_tag() {
    let mut heap = RcHeap::new();
    let get = Method::standard(MethodTag::Get);
    assert!(get.extension().is_none());
    let name = GuestStr::from_str("A-VERY-LONG-CUSTOM-METHOD-NAME", &mut heap);
    let ext = Method::new_extension(name);
    assert_eq!(ext.tag(), MethodTag::Extension);
    assert_eq!(ext.extension().map(|s| s.as_bytes().to_vec()), Some(b"A-VERY-LONG-CUSTOM-METHOD-NAME".to_vec()));
    let copy = ext.clone_counted(&mut heap);
    assert_eq!(copy.tag(), MethodTag::Extension);
    assert_eq!(heap.count(0), Some(2));
    let plain = get.clone_counted(&mut heap);
    assert_eq!(plain.tag(), MethodTag::Get);
    assert_eq!(heap.count(0), Some(2));
}

#[test]
fn method_inc_dec_restores_counts() {
    let mut heap = RcHeap::new();
    let ext = Method::new_extension(GuestStr::from_str("A-VERY-LONG-CUSTOM-METHOD-NAME", &mut heap));
    ext.inc(&mut heap);
    assert_eq!(heap.count(0), Some(2));
    ext.dec(&mut heap);
    assert_eq!(heap.count(0), Some(1));
    let get = Method::standard(MethodTag::Get);
    get.inc(&mut heap);
    get.dec(&mut heap);
    assert_eq!(heap.count(0), Some(1));
}

#[test]
fn request_inc_dec_restores_counts() {
    let mut heap = RcHeap::new();
    let h = header("x-a-rather-long-header-name", "a value that is long enough", &mut heap);
    let headers = GuestList::from_vec(vec![h], &mut heap);
    let req = Request {
        body: GuestList::from_slice(b"payload", &mut heap),
        headers,
        method: Method::standard(MethodTag::Post),
        uri: GuestStr::from_str("https://example.com/some/long/path", &mut heap),
    };
    let before: Vec<Option<u64>> = (0..heap.len()).map(|i| heap.count(i)).collect();
    req.inc(&mut heap);
    assert_eq!(heap.count(0), Some(1));
    assert_eq!(heap.count(1), Some(1));
    assert!((2..heap.len()).all(|i| heap.count(i) == Some(2)));
    req.dec(&mut heap);
    let after: Vec<Option<u64>> = (0..heap.len()).map(|i| heap.count(i)).collect();
    assert_eq!(before, after);
}

#[test]
fn releasing_a_header_list_releases_its_headers() {
    let mut heap = RcHeap::new();
    let h = header("x-a-rather-long-header-name", "short", &mut heap);
    let list = GuestList::from_vec(vec![h], &mut heap);
    assert_eq!(heap.count(0), Some(1));
    assert_eq!(heap.count(1), Some(1));
    dec_header_list_exec(&list, &mut heap);
    assert_eq!(heap.count(1), Some(0));
    assert_eq!(heap.count(0), Some(0));
}

#[test]
fn response_inc_dec_restores_counts() {
    let mut heap = RcHeap::new();
    let headers = vec![("x-a-rather-long-header-name".to_string(), b"v".to_vec())];
    let r = match Response::from_parts(204, &headers, b"body", &mut heap) {
        Ok(r) => r,
        Err(_) => panic!("expected a response"),
    };
    let before: Vec<Option<u64>> = (0..heap.len()).map(|i| heap.count(i)).collect();
    r.inc(&mut heap);
    r.dec(&mut heap);
    let after: Vec<Option<u64>> = (0..heap.len()).map(|i| heap.count(i)).collect();
    assert_eq!(before, after);
}

#[test]
fn request_err_layout() {
    let mut k = no_kinds();
    k.status = Some(404);
    let e = RequestErr::classify(&k);
    let b = encode_request_err(&e);
    assert_eq!(b, vec![0x94, 0x01, 2, 0]);
    let d = decode_request_err(&b);
    assert_eq!(d, e);
    let t = decode_request_err(&[0xaa, 0xbb, 3, 0]);
    assert_eq!(t.tag, RequestErrTag::Timeout);
    assert_eq!(t.status_code(), 0);
}

#[test]
fn method_layout() {
    let get = Method::standard(MethodTag::Get);
    let b = encode_method(&get);
    assert_eq!(b.len(), 32);
    assert_eq!(b[24], 1);
    assert!(b[..24].iter().all(|x| *x == 0));
    let (tag, slot) = decode_method(&b);
    assert_eq!(tag, MethodTag::Get);
    assert!(slot.is_none());
    let mut heap = RcHeap::new();
    let ext = Method::new_extension(GuestStr::from_str("PURGE", &mut heap));
    let eb = encode_method(&ext);
    assert_eq!(eb[24], 9);
    assert_eq!(eb[23], 0x85);
    match decode_method(&eb) {
        (MethodTag::Extension, Some(StrSlot::Inline(bytes))) => assert_eq!(bytes, b"PURGE"),
        _ => panic!("expected an inline extension name"),
    }
}

#[test]
fn io_err_layout() {
    let mut heap = RcHeap::new();
    let e = NativeIoError { kind: IoErrorKind::Unlisted, message: "oops".to_string() };
    let io = IoErr::from_io_error(&e, &mut heap);
    let b = encode_io_err(&io);
    assert_eq!(b.len(), 32);
    assert_eq!(b[24], 5);
    let d = decode_io_err(&b);
    assert_eq!(d.tag, IoErrTag::Other);
    assert!(matches!(d.msg, StrSlot::Inline(ref m) if m == b"oops"));
}

#[test]
fn cmd_output_err_layout() {
    let mut heap = RcHeap::new();
    let stdout = GuestStr::from_str("a line of output that is long", &mut heap);
    let stderr = GuestStr::from_str("bad\n", &mut heap);
    let e = CmdOutputErr::non_zero_exit(stderr, stdout, -2);
    let b = encode_cmd_output_err(&e);
    assert_eq!(b.len(), 64);
    assert_eq!(b[56], 1);
    assert_eq!(&b[48..52], &[0xfe, 0xff, 0xff, 0xff]);
    match decode_cmd_output_err(&b) {
        DecodedCmdOutputErr::NonZeroExit { stderr, stdout, exit_code } => {
            assert_eq!(exit_code, -2);
            assert!(matches!(stderr, StrSlot::Inline(ref s) if s == b"bad\n"));
            assert!(matches!(stdout, StrSlot::Counted { id: 0, len: 29 }));
        }
        DecodedCmdOutputErr::CmdErr(_) => panic!("expected a non-zero exit"),
    }
    let io = IoErr::from_io_error(
        &NativeIoError { kind: IoErrorKind::BrokenPipe, message: String::new() },
        &mut heap,
    );
    let c = encode_cmd_output_err(&CmdOutputErr::cmd_err(io));
    assert_eq!(c[56], 0);
    assert!(c[32..56].iter().all(|x| *x == 0));
    match decode_cmd_output_err(&c) {
        DecodedCmdOutputErr::CmdErr(d) => assert_eq!(d.tag, IoErrTag::BrokenPipe),
        _ => panic!("expected an I/O failure"),
    }
}
