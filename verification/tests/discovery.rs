use g5500_hamlib_adaptor::mdns::{
    build_a_response, build_host_local, build_host_local_dns, build_service_response,
    mdns_responses, names_equal, write_dns_name, write_dns_name_raw,
};

const HOST: &[u8] = b"g5500-hamlib-adaptor";

fn host_labels() -> Vec<u8> {
    let mut v = vec![20u8];
    v.extend_from_slice(HOST);
    v.push(5);
    v.extend_from_slice(b"local");
    v.push(0);
    v
}

fn service_labels() -> Vec<u8> {
    let mut v = vec![8u8];
    v.extend_from_slice(b"_rotctld");
    v.push(4);
    v.extend_from_slice(b"_tcp");
    v.push(5);
    v.extend_from_slice(b"local");
    v.push(0);
    v
}

fn query(id: [u8; 2], flags: u16, questions: &[(&[u8], u16)]) -> Vec<u8> {
    let mut p = vec![id[0], id[1]];
    p.extend_from_slice(&flags.to_be_bytes());
    p.extend_from_slice(&(questions.len() as u16).to_be_bytes());
    p.extend_from_slice(&[0, 0, 0, 0, 0, 0]);
    for (name, qtype) in questions {
        for label in name.split(|&b| b == b'.') {
            p.push(label.len() as u8);
            p.extend_from_slice(label);
        }
        p.push(0);
        p.extend_from_slice(&qtype.to_be_bytes());
        p.extend_from_slice(&0x0001u16.to_be_bytes());
    }
    p
}

#[test]
fn host_local_name() {
    assert_eq!(build_host_local(b"G5500-Hamlib", 64), b"g5500-hamlib.local");
    assert_eq!(build_host_local(b"abc", 8), b"abc");
    assert_eq!(build_host_local(b"abcdefghij", 4), b"abcd");
    assert_eq!(build_host_local(b"", 64), b".local");
}

#[test]
fn name_comparison() {
    assert!(names_equal(b"Host.LOCAL", b"host.local"));
    assert!(!names_equal(b"host.local", b"host.locals"));
    assert!(!names_equal(b"host", b"hosu"));
    assert!(names_equal(b"", b""));
}

#[test]
fn host_labels_wire() {
    assert_eq!(build_host_local_dns(HOST), host_labels());
    let long = [b'a'; 60];
    let mut expected = vec![60u8];
    expected.extend_from_slice(&long);
    assert_eq!(build_host_local_dns(&long), expected);
    assert_eq!(build_host_local_dns(&[b'a'; 64]), Vec::<u8>::new());
}

#[test]
fn dns_name_writers() {
    let mut buf = vec![1u8, 2];
    write_dns_name(&mut buf, 512, b"_rotctld._tcp.local");
    let mut expected = vec![1u8, 2];
    expected.extend_from_slice(&service_labels());
    assert_eq!(buf, expected);
    // Stops at the first label that does not fit, without the root label.
    let mut buf = Vec::new();
    write_dns_name(&mut buf, 12, b"abc.defghijk");
    assert_eq!(buf, b"\x03abc");
    let mut buf = Vec::new();
    write_dns_name_raw(&mut buf, 4, b"\x03abc\x00");
    assert!(buf.is_empty());
    write_dns_name_raw(&mut buf, 5, b"\x03abc\x00");
    assert_eq!(buf, b"\x03abc\x00");
}

#[test]
fn a_response_bytes() {
    let r = build_a_response(&[0x12, 0x34, 0, 0], &[], HOST, [192, 168, 1, 50]);
    let mut expected = vec![0x12, 0x34, 0x84, 0x00, 0, 0, 0, 1, 0, 0, 0, 0];
    expected.extend_from_slice(&host_labels());
    expected.extend_from_slice(&[0, 1, 0x80, 0x01, 0, 0, 0, 120, 0, 4, 192, 168, 1, 50]);
    assert_eq!(r, expected);
}

#[test]
fn service_response_bytes() {
    let r = build_service_response(&[0xAB, 0xCD], HOST, [10, 0, 0, 9], 4533);
    let mut instance = vec![12u8];
    instance.extend_from_slice(b"G5500 HamLib");
    instance.extend_from_slice(&service_labels());
    let mut e = vec![0xAB, 0xCD, 0x84, 0x00, 0, 0, 0, 1, 0, 0, 0, 3];
    // PTR
    e.extend_from_slice(&service_labels());
    e.extend_from_slice(&[0, 12, 0, 1, 0, 0, 0, 120]);
    e.extend_from_slice(&(instance.len() as u16).to_be_bytes());
    e.extend_from_slice(&instance);
    // SRV
    e.extend_from_slice(&instance);
    e.extend_from_slice(&[0, 33, 0x80, 0x01, 0, 0, 0, 120]);
    e.extend_from_slice(&((6 + host_labels().len()) as u16).to_be_bytes());
    e.extend_from_slice(&[0, 0, 0, 0]);
    e.extend_from_slice(&4533u16.to_be_bytes());
    e.extend_from_slice(&host_labels());
    // TXT
    e.extend_from_slice(&instance);
    e.extend_from_slice(&[0, 16, 0x80, 0x01, 0, 0, 0, 120, 0, 1, 0]);
    // A
    e.extend_from_slice(&host_labels());
    e.extend_from_slice(&[0, 1, 0x80, 0x01, 0, 0, 0, 120, 0, 4, 10, 0, 0, 9]);
    assert_eq!(instance.len(), 34);
    assert_eq!(r, e);
}

#[test]
fn answers_a_query_for_the_host() {
    let p = query([0, 7], 0, &[(b"G5500-HAMLIB-ADAPTOR.local", 1)]);
    let rs = mdns_responses(&p, HOST, Some([192, 168, 1, 50]), 4533);
    assert_eq!(rs.len(), 1);
    assert_eq!(rs[0], build_a_response(&p[..12], &p[12..], HOST, [192, 168, 1, 50]));
}

#[test]
fn answers_service_discovery() {
    let p = query([1, 2], 0, &[(b"_rotctld._tcp.local", 12), (b"other.local", 1)]);
    let rs = mdns_responses(&p, HOST, Some([10, 0, 0, 9]), 4533);
    assert_eq!(rs.len(), 1);
    assert_eq!(rs[0], build_service_response(&p[..12], HOST, [10, 0, 0, 9], 4533));
}

#[test]
fn answers_srv_query_for_the_service() {
    let p = query([5, 6], 0, &[(b"_ROTCTLD._tcp.local", 33)]);
    let rs = mdns_responses(&p, HOST, Some([10, 0, 0, 9]), 4533);
    assert_eq!(rs.len(), 1);
    assert_eq!(rs[0], build_service_response(&p[..12], HOST, [10, 0, 0, 9], 4533));
    assert_eq!(&rs[0][..2], &[5, 6]);
    // TXT questions for the service are not answered.
    let p = query([5, 6], 0, &[(b"_rotctld._tcp.local", 16)]);
    assert!(mdns_responses(&p, HOST, Some([10, 0, 0, 9]), 4533).is_empty());
}

#[test]
fn long_hostname_without_matching_question() {
    let host = [b'h'; 57];
    let p = query([0, 7], 0, &[(b"printer.local", 1)]);
    assert!(mdns_responses(&p, &host, Some([1, 2, 3, 4]), 4533).is_empty());
}

#[test]
fn answers_each_matching_question() {
    let p = query([3, 4], 0, &[(b"g5500-hamlib-adaptor.local", 1), (b"_rotctld._tcp.local", 12)]);
    let rs = mdns_responses(&p, HOST, Some([1, 2, 3, 4]), 4533);
    assert_eq!(rs.len(), 2);
    assert_eq!(rs[0], build_a_response(&p[..12], &[], HOST, [1, 2, 3, 4]));
    assert_eq!(rs[1], build_service_response(&p[..12], HOST, [1, 2, 3, 4], 4533));
}

#[test]
fn ignores_what_is_not_for_us() {
    let p = query([0, 7], 0, &[(b"g5500-hamlib-adaptor.local", 1)]);
    // No address yet.
    assert!(mdns_responses(&p, HOST, None, 4533).is_empty());
    // A response packet.
    let r = query([0, 7], 0x8400, &[(b"g5500-hamlib-adaptor.local", 1)]);
    assert!(mdns_responses(&r, HOST, Some([1, 2, 3, 4]), 4533).is_empty());
    // Too short for a header.
    assert!(mdns_responses(&p[..11], HOST, Some([1, 2, 3, 4]), 4533).is_empty());
    // Wrong type, other names.
    let p = query([0, 7], 0, &[(b"g5500-hamlib-adaptor.local", 28), (b"printer.local", 1)]);
    assert!(mdns_responses(&p, HOST, Some([1, 2, 3, 4]), 4533).is_empty());
    // No questions.
    let p = query([0, 7], 0, &[]);
    assert!(mdns_responses(&p, HOST, Some([1, 2, 3, 4]), 4533).is_empty());
}

#[test]
fn truncated_question_is_ignored() {
    let mut p = query([0, 7], 0, &[(b"g5500-hamlib-adaptor.local", 1)]);
    p.truncate(p.len() - 3);
    assert!(mdns_responses(&p, HOST, Some([1, 2, 3, 4]), 4533).is_empty());
}

#[test]
fn compression_pointer_ends_name() {
    // A question whose name is only a compression pointer has an empty name.
    let mut p = vec![0, 1, 0, 0, 0, 1, 0, 0, 0, 0, 0, 0];
    p.extend_from_slice(&[0xC0, 0x0C, 0, 1, 0, 1]);
    assert!(mdns_responses(&p, HOST, Some([1, 2, 3, 4]), 4533).is_empty());
}
