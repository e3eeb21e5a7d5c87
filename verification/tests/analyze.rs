use rustywin::analyze::{
    analyze_buffer, analyze_request_opcode, filter_buffer, filter_with_policy, Outcome,
    ParseError, Policy,
};
use rustywin::request::{
    change_property, decode, get_property, grab_button, intern_atom, query_extension, Decoded,
    GetProperty, GrabButton, InternAtom,
};
use rustywin::wire::{fixed_fields, frame_one, FrameError, Opcode, Request};

/// An `InternAtom` request for `_GTK_EDGE_CONSTRAINTS`, as a client sent it.
fn intern_atom_dump() -> Vec<u8> {
    vec![
        16, 0, 8, 0, 21, 0, 64, 7, 95, 71, 84, 75, 95, 69, 68, 71, 69, 95, 67, 79, 78, 83, 84,
        82, 65, 73, 78, 84, 83, 47, 109, 111,
    ]
}

/// A request with the given opcode and body, padded to a multiple of four.
fn request_bytes(opcode: u8, datab: u8, body: &[u8]) -> Vec<u8> {
    let mut padded = body.to_vec();
    while padded.len() % 4 != 0 {
        padded.push(0);
    }
    let units = (padded.len() / 4 + 1) as u16;
    let mut out = vec![opcode, datab, (units & 0xff) as u8, (units >> 8) as u8];
    out.extend_from_slice(&padded);
    out
}

#[test]
fn test_request() {
    let dump = intern_atom_dump();
    let req = frame_one(&dump);
    let req_header = req.unwrap().request;
    assert_eq!(
        req_header,
        Request {
            opcode: 16,
            datab: 0,
            length: 32,
            data: &[
                21, 0, 64, 7, 95, 71, 84, 75, 95, 69, 68, 71, 69, 95, 67, 79, 78, 83, 84, 82, 65,
                73, 78, 84, 83, 47, 109, 111
            ]
        }
    );
    let ia = intern_atom(&req_header);
    let ia = ia.unwrap();
    assert_eq!(
        ia,
        InternAtom { only_if_exists: false, name_length: 21, name: b"_GTK_EDGE_CONSTRAINTS" },
    );
    assert_eq!(String::from_utf8_lossy(ia.name), "_GTK_EDGE_CONSTRAINTS");
}

#[test]
fn single_intern_atom_is_accepted_whole() {
    let mut input = vec![0x10, 0x00, 0x08, 0x00, 0x15, 0x00, 0x00, 0x00];
    input.extend_from_slice(b"_GTK_EDGE_CONSTRAINTS");
    input.extend_from_slice(&[0, 0, 0]);
    assert_eq!(input.len(), 32);
    let framed = frame_one(&input).unwrap();
    assert_eq!(framed.request.opcode, 0x10);
    assert_eq!(framed.request.length, 32);
    assert_eq!(framed.raw, &input[..]);
    assert!(framed.remaining.is_empty());
    match decode(&framed.request) {
        Some(Decoded::InternAtom(a)) => {
            assert!(!a.only_if_exists);
            assert_eq!(a.name_length, 21);
            assert_eq!(a.name, b"_GTK_EDGE_CONSTRAINTS");
        }
        other => panic!("unexpected decoding: {:?}", other),
    }
    assert_eq!(analyze_request_opcode(&Policy::permissive(), &framed.request), Outcome::Allowed);
    let (accepted, rejected) = filter_buffer(&input);
    assert_eq!(accepted, input);
    assert!(rejected.is_empty());
}

#[test]
fn big_request_advances_by_extended_length() {
    let mut input = vec![0x12, 0x00, 0x00, 0x00, 0x00, 0x01, 0x00, 0x00];
    input.extend(std::iter::repeat(0xAB).take(2040));
    let framed = frame_one(&input).unwrap();
    assert_eq!(framed.request.opcode, 0x12);
    assert_eq!(framed.request.length, 1024);
    assert_eq!(framed.raw.len(), 1024);
    assert_eq!(framed.request.data.len(), 1016);
    assert_eq!(framed.remaining.len(), 2048 - 1024);
    assert_eq!(framed.request.data, &input[8..1024]);
}

#[test]
fn big_request_shorter_than_its_header_is_malformed() {
    assert_eq!(frame_one(&[1, 0, 0, 0, 0, 0, 0, 0]).err(), Some(FrameError::Malformed));
    assert_eq!(frame_one(&[1, 0, 0, 0, 1, 0, 0, 0]).err(), Some(FrameError::Malformed));
    let two_units = frame_one(&[1, 0, 0, 0, 2, 0, 0, 0]).unwrap();
    assert_eq!(two_units.request.length, 8);
    assert!(two_units.request.data.is_empty());
}

#[test]
fn big_request_over_32_bits_is_malformed() {
    assert_eq!(
        frame_one(&[1, 0, 0, 0, 0x00, 0x00, 0x00, 0x40]).err(),
        Some(FrameError::Malformed)
    );
    assert_eq!(
        frame_one(&[1, 0, 0, 0, 0xff, 0xff, 0xff, 0x3f]).err(),
        Some(FrameError::Incomplete)
    );
}

#[test]
fn short_buffers_are_incomplete() {
    assert_eq!(frame_one(&[]).err(), Some(FrameError::Incomplete));
    assert_eq!(frame_one(&[16, 0, 8]).err(), Some(FrameError::Incomplete));
    assert_eq!(frame_one(&[16, 0, 0, 0, 1, 0, 0]).err(), Some(FrameError::Incomplete));
    let dump = intern_atom_dump();
    for k in 0..dump.len() {
        assert_eq!(frame_one(&dump[..k]).err(), Some(FrameError::Incomplete));
    }
}

#[test]
fn request_then_rest_is_split_in_two() {
    let mut input = intern_atom_dump();
    let rest = [1u8, 2, 3, 4, 5];
    input.extend_from_slice(&rest);
    let framed = frame_one(&input).unwrap();
    assert_eq!(framed.raw, &intern_atom_dump()[..]);
    assert_eq!(framed.remaining, &rest[..]);
}

#[test]
fn little_endian_fields_are_read_low_byte_first() {
    let body = [
        0x04, 0x03, 0x02, 0x01, 0x08, 0x07, 0x06, 0x05, 0x0c, 0x0b, 0x0a, 0x09, 0x10, 0x0f, 0x0e,
        0x0d, 0x14, 0x13, 0x12, 0x11,
    ];
    let bytes = request_bytes(0x14, 1, &body);
    let framed = frame_one(&bytes).unwrap();
    assert_eq!(
        get_property(&framed.request),
        Some(GetProperty {
            delete: true,
            window: 0x01020304,
            property: 0x05060708,
            atom_prop_type: 0x090a0b0c,
            offset: 0x0d0e0f10,
            length: 0x11121314,
        })
    );
    let long = request_bytes(0x7f, 0, &[0u8; 4 * 0x0102 - 4]);
    assert_eq!(&long[2..4], &[0x02, 0x01]);
    assert_eq!(frame_one(&long).unwrap().request.length, 4 * 0x0102);
}

#[test]
fn truncated_tail_is_rejected() {
    let dump = intern_atom_dump();
    let input = &dump[..20];
    let (accepted, rejected) = filter_buffer(input);
    assert!(accepted.is_empty());
    assert_eq!(rejected, input);

    let mut two = intern_atom_dump();
    two.extend_from_slice(input);
    let (accepted, rejected) = filter_buffer(&two);
    assert_eq!(accepted, intern_atom_dump());
    assert_eq!(rejected, input);
}

#[test]
fn mixed_allow_and_deny() {
    let first = intern_atom_dump();
    let second = request_bytes(0x1c, 1, &[7, 0, 0, 0, 1, 2, 3, 4]);
    let mut input = first.clone();
    input.extend_from_slice(&second);
    let policy = Policy::permissive().with_rule(Opcode::GrabButton, Outcome::Denied);
    let (accepted, rejected) = filter_with_policy(&policy, &input);
    assert_eq!(accepted, first);
    assert_eq!(rejected, second);
    assert_eq!(accepted.len() + rejected.len(), input.len());
}

#[test]
fn denied_request_between_allowed_ones() {
    let a = request_bytes(0x10, 0, &[1, 0, 0, 0, b'A']);
    let b = request_bytes(0x14, 0, &[0u8; 20]);
    let c = request_bytes(0x35, 0, &[9, 9, 9, 9]);
    let mut input = a.clone();
    input.extend_from_slice(&b);
    input.extend_from_slice(&c);
    input.extend_from_slice(&[0x10, 0, 9]);
    let policy = Policy::permissive().with_rule(Opcode::GetProperty, Outcome::Denied);
    let (accepted, rejected) = filter_with_policy(&policy, &input);
    let mut want_accepted = a.clone();
    want_accepted.extend_from_slice(&c);
    let mut want_rejected = b.clone();
    want_rejected.extend_from_slice(&[0x10, 0, 9]);
    assert_eq!(accepted, want_accepted);
    assert_eq!(rejected, want_rejected);
}

#[test]
fn filtering_the_accepted_bytes_again_changes_nothing() {
    let a = request_bytes(0x10, 0, &[1, 0, 0, 0, b'A']);
    let b = request_bytes(0x1c, 0, &[1, 2, 3, 4]);
    let c = request_bytes(0x62, 0, &[3, 0, 0, 0, b'R', b'E', b'C']);
    let mut input = a.clone();
    input.extend_from_slice(&b);
    input.extend_from_slice(&c);
    input.extend_from_slice(&[1, 2]);
    let policy = Policy::permissive().with_rule(Opcode::GrabButton, Outcome::Denied);
    let (accepted, _) = filter_with_policy(&policy, &input);
    let (again, rejected) = filter_with_policy(&policy, &accepted);
    assert_eq!(again, accepted);
    assert!(rejected.is_empty());
}

#[test]
fn unrecognized_opcode_is_allowed_under_any_policy() {
    let deny_all = Policy {
        change_window_attributes: Outcome::Denied,
        intern_atom: Outcome::Denied,
        change_property: Outcome::Denied,
        get_property: Outcome::Denied,
        grab_button: Outcome::Denied,
        query_extension: Outcome::Denied,
    };
    let bytes = request_bytes(0x35, 0, &[1, 2, 3, 4]);
    let framed = frame_one(&bytes).unwrap();
    assert_eq!(decode(&framed.request), Some(Decoded::Opaque));
    assert_eq!(analyze_request_opcode(&deny_all, &framed.request), Outcome::Allowed);
    let known = request_bytes(0x02, 0, &[1, 2, 3, 4]);
    let framed = frame_one(&known).unwrap();
    assert_eq!(decode(&framed.request), Some(Decoded::ChangeWindowAttributes));
    assert_eq!(analyze_request_opcode(&deny_all, &framed.request), Outcome::Denied);
}

#[test]
fn decode_failure_is_allowed() {
    let deny = Policy::permissive()
        .with_rule(Opcode::InternAtom, Outcome::Denied)
        .with_rule(Opcode::GetProperty, Outcome::Denied);
    // The name is said to be 200 bytes long, the body holds 4.
    let bytes = request_bytes(0x10, 0, &[200, 0, 0, 0, b'a', b'b', b'c', b'd']);
    let framed = frame_one(&bytes).unwrap();
    assert_eq!(intern_atom(&framed.request), None);
    assert_eq!(decode(&framed.request), None);
    assert_eq!(analyze_request_opcode(&deny, &framed.request), Outcome::Allowed);
    let (accepted, rejected) = filter_with_policy(&deny, &bytes);
    assert_eq!(accepted, bytes);
    assert!(rejected.is_empty());
    // A ChangeProperty that says it holds more data than it does.
    let mut body = vec![0u8; 16];
    body.extend_from_slice(&[9, 0, 0, 0, 1, 2, 3, 4]);
    let bytes = request_bytes(0x12, 0, &body);
    let framed = frame_one(&bytes).unwrap();
    assert_eq!(change_property(&framed.request), None);
    let deny_change = Policy::permissive().with_rule(Opcode::ChangeProperty, Outcome::Denied);
    assert_eq!(analyze_request_opcode(&deny_change, &framed.request), Outcome::Allowed);
    // A GetProperty body of 16 bytes lacks its last field.
    let short = Request { opcode: 0x14, datab: 0, length: 20, data: &[0u8; 16] };
    assert_eq!(get_property(&short), None);
    assert_eq!(decode(&short), None);
    assert_eq!(analyze_request_opcode(&deny, &short), Outcome::Allowed);
    // One that decodes is denied.
    let bytes = request_bytes(0x10, 0, &[4, 0, 0, 0, b'a', b'b', b'c', b'd']);
    let framed = frame_one(&bytes).unwrap();
    assert_eq!(analyze_request_opcode(&deny, &framed.request), Outcome::Denied);
}

#[test]
fn decoders_read_their_fields() {
    let mut body = vec![0x11, 0x22, 0x33, 0x44, 1, 0, 0, 0, 2, 0, 0, 0, 8, 0xee, 0xee, 0xee];
    body.extend_from_slice(&[3, 0, 0, 0, b'x', b'y', b'z', 0]);
    let bytes = request_bytes(0x12, 2, &body);
    let framed = frame_one(&bytes).unwrap();
    let c = change_property(&framed.request).unwrap();
    assert_eq!(c.mode, 2);
    assert_eq!(c.window, 0x44332211);
    assert_eq!(c.property, 1);
    assert_eq!(c.prop_type, 2);
    assert_eq!(c.format, 8);
    assert_eq!(c.data_length, 3);
    assert_eq!(c.data, b"xyz");

    let mut body = vec![8, 0, 0xff, 0xff];
    body.extend_from_slice(b"XInputEx");
    let bytes = request_bytes(0x62, 0, &body);
    let framed = frame_one(&bytes).unwrap();
    let q = query_extension(&framed.request).unwrap();
    assert_eq!(q.name_length, 8);
    assert_eq!(q.name, b"XInputEx");

    let bytes = request_bytes(0x1c, 1, &[0x78, 0x56, 0x34, 0x12, 0, 0, 0, 0]);
    let framed = frame_one(&bytes).unwrap();
    assert_eq!(
        grab_button(&framed.request),
        Some(GrabButton { owner_events: true, window: 0x12345678 })
    );
    let short = Request { opcode: 0x1c, datab: 1, length: 4, data: &[] };
    assert_eq!(grab_button(&short), None);
}

#[test]
fn request_shorter_than_its_fixed_fields_is_malformed() {
    assert_eq!(fixed_fields(0x02), 0);
    assert_eq!(fixed_fields(0x10), 4);
    assert_eq!(fixed_fields(0x12), 20);
    assert_eq!(fixed_fields(0x14), 20);
    assert_eq!(fixed_fields(0x1c), 4);
    assert_eq!(fixed_fields(0x62), 4);
    assert_eq!(fixed_fields(0x63), 0);
    // A GetProperty of 8 bytes cannot hold its five fields.
    let short = request_bytes(0x14, 0, &[1, 2, 3, 4]);
    assert_eq!(frame_one(&short).err(), Some(FrameError::Malformed));
    assert_eq!(frame_one(&short[..6]).err(), Some(FrameError::Malformed));
    let exact = request_bytes(0x14, 0, &[0u8; 20]);
    assert_eq!(frame_one(&exact).unwrap().request.length, 24);
    assert_eq!(frame_one(&[0x10, 0, 1, 0]).err(), Some(FrameError::Malformed));
    assert_eq!(frame_one(&[0x02, 0, 1, 0]).unwrap().request.length, 4);
    assert_eq!(frame_one(&[0x63, 0, 1, 0]).unwrap().request.length, 4);
    // In the BIG-REQUESTS form the fields follow an eight-byte header.
    assert_eq!(frame_one(&[0x10, 0, 0, 0, 2, 0, 0, 0]).err(), Some(FrameError::Malformed));
    assert_eq!(
        frame_one(&[0x10, 0, 0, 0, 3, 0, 0, 0, 0, 0, 0, 0]).unwrap().request.length,
        12
    );
    // What follows a malformed request is rejected with it.
    let mut input = intern_atom_dump();
    input.extend_from_slice(&short);
    input.extend_from_slice(&exact);
    let (accepted, rejected) = filter_buffer(&input);
    assert_eq!(accepted, intern_atom_dump());
    assert_eq!(rejected, &input[32..]);
    assert_eq!(analyze_buffer(&input), Err(ParseError::ParseFail));
}

#[test]
fn big_request_body_starts_after_eight_bytes() {
    let mut bytes = vec![0x10, 1, 0, 0, 4, 0, 0, 0];
    bytes.extend_from_slice(&[3, 0, 0, 0, b'a', b'b', b'c', 0]);
    let framed = frame_one(&bytes).unwrap();
    assert_eq!(framed.request.length, 16);
    let a = intern_atom(&framed.request).unwrap();
    assert!(a.only_if_exists);
    assert_eq!(a.name, b"abc");
}

#[test]
fn opcodes_have_their_wire_bytes() {
    let all = [
        (Opcode::ChangeWindowAttributes, 0x02u8),
        (Opcode::InternAtom, 0x10),
        (Opcode::ChangeProperty, 0x12),
        (Opcode::GetProperty, 0x14),
        (Opcode::GrabButton, 0x1c),
        (Opcode::QueryExtension, 0x62),
    ];
    for (op, byte) in all {
        assert_eq!(op.to_u8(), byte);
        assert_eq!(Opcode::from_u8(byte), Some(op));
    }
    assert_eq!(Opcode::from_u8(0), None);
    assert_eq!(Opcode::from_u8(0x63), None);
}

#[test]
fn analysis_reports_a_length_beyond_the_buffer() {
    assert_eq!(analyze_buffer(&[]), Ok(Outcome::Allowed));
    assert_eq!(analyze_buffer(&intern_atom_dump()), Ok(Outcome::Allowed));
    let dump = intern_atom_dump();
    assert_eq!(analyze_buffer(&dump[..20]), Err(ParseError::InconsistentLength));
    let mut two = intern_atom_dump();
    two.extend_from_slice(&[0x10, 0]);
    assert_eq!(analyze_buffer(&two), Ok(Outcome::Allowed));
    two.extend_from_slice(&[0, 0, 9, 0, 0, 0]);
    assert_eq!(analyze_buffer(&two), Err(ParseError::InconsistentLength));
    assert_eq!(analyze_buffer(&[1, 0, 0, 0, 1, 0, 0, 0]), Err(ParseError::ParseFail));
    assert_eq!(analyze_buffer(&[1, 0, 0, 0, 1, 0, 0]), Ok(Outcome::Allowed));
    assert_eq!(analyze_buffer(&[0x14, 0, 1, 0, 9, 9]), Err(ParseError::ParseFail));
}

#[test]
fn parse_errors_describe_themselves() {
    assert_eq!(ParseError::ParseFail.description(), "Error parsing X message");
    assert_eq!(ParseError::InconsistentLength.description(), "Message length inconsistent");
}

/// Whether `input` can be dealt out in order into `accepted` and `rejected`.
fn is_interleaving(accepted: &[u8], rejected: &[u8], input: &[u8]) -> bool {
    // reach[i][j]: the first i + j bytes of the input can be dealt into the
    // first i accepted and the first j rejected bytes.
    let (a, r) = (accepted.len(), rejected.len());
    if a + r != input.len() {
        return false;
    }
    let mut reach = vec![vec![false; r + 1]; a + 1];
    reach[0][0] = true;
    for i in 0..=a {
        for j in 0..=r {
            if i > 0 && reach[i - 1][j] && accepted[i - 1] == input[i + j - 1] {
                reach[i][j] = true;
            }
            if j > 0 && reach[i][j - 1] && rejected[j - 1] == input[i + j - 1] {
                reach[i][j] = true;
            }
        }
    }
    reach[a][r]
}

#[test]
fn filter_conserves_bytes() {
    let policy = Policy::permissive()
        .with_rule(Opcode::GrabButton, Outcome::Denied)
        .with_rule(Opcode::InternAtom, Outcome::Denied);
    let parts = [
        request_bytes(0x1c, 0, &[1, 2, 3, 4]),
        request_bytes(0x35, 7, &[5, 6, 7, 8, 9]),
        intern_atom_dump(),
        request_bytes(0x14, 0, &[3u8; 20]),
        request_bytes(0x1c, 1, &[9, 8, 7, 6, 5, 4, 3, 2]),
        vec![0x62, 0, 200, 0, 1],
    ];
    let mut input = Vec::new();
    for part in &parts {
        input.extend_from_slice(part);
        let (accepted, rejected) = filter_with_policy(&policy, &input);
        assert!(is_interleaving(&accepted, &rejected, &input));
        let (accepted, rejected) = filter_buffer(&input);
        let mut joined = accepted.clone();
        joined.extend_from_slice(&rejected);
        assert_eq!(joined, input);
    }
    let (accepted, rejected) = filter_with_policy(&policy, &input);
    let mut want_accepted = parts[1].clone();
    want_accepted.extend_from_slice(&parts[3]);
    let mut want_rejected = parts[0].clone();
    want_rejected.extend_from_slice(&parts[2]);
    want_rejected.extend_from_slice(&parts[4]);
    want_rejected.extend_from_slice(&parts[5]);
    assert_eq!(accepted, want_accepted);
    assert_eq!(rejected, want_rejected);
}
