use home_dns::dns_request::{
    domain_list_to_bytes, parse_header, parse_query, parse_question, DnsAnswer, DnsAuthRecord,
    DnsHeader, DnsQuery, DnsQuestion, DnsRecordType, DnsResponse, DnsResponseCode,
};

fn name(labels: &[&str]) -> Vec<String> {
    labels.iter().map(|l| String::from(*l)).collect()
}

#[test]
fn parse_header_test() {
    let header = vec!(
        0b0000_0000, //First byte of id
        0b0001_0000, //Second byte of id (16)
        0b0_0001_1_0_1, //qr (0), opcode (1), aa (1), tc (0), rd (1)
        0b1_100_0100, //ra (1), z (4), rcode (4)
        0, 0, //qd_count
        0, 0, //an_count
        0, 0, //ns_count
        0, 0 //ar_count
    );

    let mut expected = DnsHeader::new();
    expected.id = 16;
    expected.opcode = 1;
    expected.aa = true;
    expected.rd = true;
    expected.ra = true;
    expected.z = 4;
    expected.rcode = DnsResponseCode::NotImplemented;

    let (result, more) = parse_header(&header).unwrap();

    assert_eq!(result, expected);
    assert_eq!(more, None);
}

#[test]
fn parse_question_test() {
    let question: Vec<u8> = vec!(
        0b0000_0011, 119, 119, 119, //length (3), www
        0b0000_0111, 101, 120, 97, 109, 112, 108, 101, //length (7), example
        0b0000_0011, 99, 111, 109, //length (3), com
        0b0000_0000, //length (0)
        0, 0b0001_1100, //qtype (28)
        0, 0b0001_0000 //qclass (16)
    );

    let expected = DnsQuestion {
        qname: vec!(String::from("www"),
            String::from("example"),
            String::from("com")
        ),
        qtype: DnsRecordType::AAAA(None),
        qclass: 16
    };

    let (result, more) = parse_question(&question).unwrap();

    assert_eq!(result, expected);
    assert_eq!(more, None);
}

#[test]
fn parse_query_test() {
    let query: Vec<u8> = vec!(
        0, 53, //Length of message (53 bytes)
        0b0000_0000, //First byte of id
        0b0001_0000, //Second byte of id (16)
        0b0_0001_1_0_1, //qr (0), opcode (1), aa (1), tc (0), rd (1)
        0b1_100_0100, //ra (1), z (4), rcode (4)
        0, 1, //qd_count
        0, 0, //an_count
        0, 0, //ns_count
        0, 0, //ar_count
        0b0000_0011, 119, 119, 119, //length (3), www
        0b0000_0111, 101, 120, 97, 109, 112, 108, 101, //length (7), example
        0b0000_0011, 99, 111, 109, //length (3), com
        0b0000_0000, //length (0)
        0, 0b0001_1100, //qtype (28)
        0, 0b0001_0000, //qclass (16)
        0b0000_0011, 119, 119, 119, //length (3), www
        0b0000_0110, 103, 111, 111, 103, 108, 101, //length (6), google
        0b0000_0011, 99, 111, 109, //length (3), com
        0b0000_0000, //length (0)
        0, 0b0011_0100, //qtype (52)
        0, 0b0000_0100 //qclass (4)
    );

    let mut expected_header = DnsHeader::new();
    expected_header.id = 16;
    expected_header.opcode = 1;
    expected_header.aa = true;
    expected_header.rd = true;
    expected_header.ra = true;
    expected_header.z = 4;
    expected_header.rcode = DnsResponseCode::NotImplemented;
    expected_header.qd_count = 1;

    let expected_q1 = DnsQuestion {
        qname: vec!(String::from("www"),
            String::from("example"),
            String::from("com")
        ),
        qtype: DnsRecordType::AAAA(None),
        qclass: 16
    };
    let expected_q2 = DnsQuestion {
        qname: vec!(String::from("www"),
            String::from("google"),
            String::from("com")
        ),
        qtype: DnsRecordType::TLSA(None),
        qclass: 4
    };

    let expected = DnsQuery {
        header: expected_header,
        questions: vec!(expected_q1, expected_q2)
    };
    let result = parse_query(&query, true).unwrap();

    assert_eq!(result, expected);
}

#[test]
fn parse_query_test_fail() {
    let query: Vec<u8> = vec!(
        0, 52, //Length of message (52 bytes)
        0b0000_0000, //First byte of id
        0b0001_0000, //Second byte of id (16)
        0b0_0001_1_0_1, //qr (0), opcode (1), aa (1), tc (0), rd (1)
        0b1_100_0100, //ra (1), z (4), rcode (4)
        0, 1, //qd_count
        0, 0, //an_count
        0, 0, //ns_count
        0, 0, //ar_count
        0b0000_0011, 119, 119, 119, //length (3), www
        0b0000_0111, 101, 120, 97, 109, 112, 108, 101, //length (7), example
        0b0000_0011, 99, 111, 109, //length (3), com
        //length (0) !!missing!!
        0, 0b1100_1000, //qtype (200)
        0, 0b0001_0000, //qclass (16)
        0b0000_0011, 119, 119, 119, //length (3), www
        0b0000_0110, 103, 111, 111, 103, 108, 101, //length (6), google
        0b0000_0011, 99, 111, 109, //length (3), com
        0b0000_0000, //length (0)
        0, 0b0010_0000, //qtype (32)
        0, 0b0000_0100 //qclass (4)
    );

    assert_eq!(parse_query(&query, true), None);
}

#[test]
fn domain_list_to_bytes_test() {
    let result = domain_list_to_bytes(&vec!(
        String::from("www"),
        String::from("google"),
        String::from("com")
    ));

    let expected: Vec<u8> = vec!(
        0b0000_0011, 119, 119, 119, //length (3), www
        0b0000_0110, 103, 111, 111, 103, 108, 101, //length (6), google
        0b0000_0011, 99, 111, 109, //length (3), com
        0b0000_0000 //length (0) to indicate end
    );

    assert_eq!(result, expected);
}

#[test]
fn header_test() {
    let mut header = DnsHeader::new();
    header.id = 16;
    header.opcode = 1;
    header.aa = true;
    header.rd = true;
    header.ra = true;
    header.z = 4;
    header.rcode = DnsResponseCode::NotImplemented;

    let expected = vec!(
        0b0000_0000, //First byte of id
        0b0001_0000, //Second byte of id (16)
        0b0_0001_1_0_1, //qr (0), opcode (1), aa (1), tc (0), rd (1)
        0b1_100_0100, //ra (1), z (4), rcode (4)
        0, 0, //qd_count
        0, 0, //an_count
        0, 0, //ns_count
        0, 0 //ar_count
    );

    assert_eq!(header.build(), expected);
}

#[test]
fn response_test() {
    let ans1 = DnsAnswer::default()
    .name(vec!(String::from("www"), String::from("example"), String::from("com")))
    .ttl(200)
    .record(DnsRecordType::new_a("192.168.0.1"));

    let resp = DnsResponse::default()
    .id(32)
    .opcode(3)
    .rcode(DnsResponseCode::Refused)
    .add_answer(ans1);

    let expected: Vec<u8> = vec!(
        //Header:
        0, 43, //Length of message (43 bytes)
        0b0000_0000, //First byte of id
        0b0010_0000, //Second byte of id (32)
        0b1_0011_0_0_1, //qr (1), opcode (3), aa (0), tc (0), rd (1)
        0b1_000_0101, //ra (1), z (0), rcode (5)
        0, 0, //qd_count
        0, 1, //an_count (1)
        0, 0, //ns_count
        0, 0, //ar_count
        //Answer:
        0b0000_0011, 119, 119, 119, //length (3), www
        0b0000_0111, 101, 120, 97, 109, 112, 108, 101, //length (7) example
        0b0000_0011, 99, 111, 109, //length (3) com
        0b0000_0000, //length (0) to indicate end
        0, 1, //type (1)
        0, 1, //class (1)
        0, 0, 0, 0b11001000, //ttl (200)
        0, 0b0000_0100, //rd_length (4)
        192, 168, 0, 1 //rdata
    );

    assert_eq!(resp.build(true), expected);
}

#[test]
fn header_round_trip_over_every_flag() {
    let codes = [
        DnsResponseCode::NoError,
        DnsResponseCode::FormatError,
        DnsResponseCode::ServerFailure,
        DnsResponseCode::NxDomain,
        DnsResponseCode::NotImplemented,
        DnsResponseCode::Refused,
    ];
    for flags in 0u8..32 {
        for opcode in 0u8..16 {
            for z in 0u8..8 {
                for rcode in codes {
                    let header = DnsHeader {
                        id: 0xbeef,
                        qr: flags & 1 != 0,
                        opcode,
                        aa: flags & 2 != 0,
                        tc: flags & 4 != 0,
                        rd: flags & 8 != 0,
                        ra: flags & 16 != 0,
                        z,
                        rcode,
                        qd_count: 1,
                        an_count: 0x0203,
                        ns_count: 0xffff,
                        ar_count: 256,
                    };
                    let bytes = header.build();
                    assert_eq!(bytes.len(), 12);
                    let (back, rest) = parse_header(&bytes).unwrap();
                    assert_eq!(back, header);
                    assert_eq!(rest, None);
                }
            }
        }
    }
}

#[test]
fn header_bytes_are_big_endian() {
    let mut header = DnsHeader::new();
    header.id = 0x1234;
    header.qd_count = 0x0102;
    header.an_count = 0x0304;
    header.ns_count = 0x0506;
    header.ar_count = 0x0708;
    assert_eq!(header.build(), vec![0x12, 0x34, 0, 0, 1, 2, 3, 4, 5, 6, 7, 8]);
}

#[test]
fn header_opcode_out_of_range_spills_into_the_response_bit() {
    let mut header = DnsHeader::new();
    header.opcode = 16;
    assert_eq!(header.build()[2], 0b1000_0000);
    header.opcode = 31;
    assert_eq!(header.build()[2], 0b1111_1000);
    header.z = 8;
    assert_eq!(header.build()[3], 0b1000_0000);
}

#[test]
fn response_code_numbers() {
    assert_eq!(DnsResponseCode::NoError.to_byte(), 0);
    assert_eq!(DnsResponseCode::FormatError.to_byte(), 1);
    assert_eq!(DnsResponseCode::ServerFailure.to_byte(), 2);
    assert_eq!(DnsResponseCode::NxDomain.to_byte(), 3);
    assert_eq!(DnsResponseCode::NotImplemented.to_byte(), 4);
    assert_eq!(DnsResponseCode::Refused.to_byte(), 5);
    assert_eq!(DnsResponseCode::from_byte(0), DnsResponseCode::NoError);
    assert_eq!(DnsResponseCode::from_byte(3), DnsResponseCode::NxDomain);
    assert_eq!(DnsResponseCode::from_byte(5), DnsResponseCode::Refused);
    assert_eq!(DnsResponseCode::from_byte(6), DnsResponseCode::Refused);
    assert_eq!(DnsResponseCode::from_byte(15), DnsResponseCode::Refused);
}

#[test]
fn parse_header_maps_high_rcode_to_refused() {
    let bytes: Vec<u8> = vec![0, 1, 0x80, 0x0f, 0, 0, 0, 0, 0, 0, 0, 0, 9];
    let (header, rest) = parse_header(&bytes).unwrap();
    assert_eq!(header.rcode, DnsResponseCode::Refused);
    assert!(header.qr);
    assert!(!header.ra);
    assert_eq!(header.z, 0);
    assert_eq!(rest, Some(vec![9]));
}

#[test]
fn parse_header_needs_twelve_bytes() {
    assert_eq!(parse_header(&vec![0; 11]), None);
    assert_eq!(parse_header(&Vec::new()), None);
    assert!(parse_header(&vec![0; 12]).is_some());
}

#[test]
fn record_type_codes() {
    let kinds = [
        (1u8, DnsRecordType::A(None)),
        (28, DnsRecordType::AAAA(None)),
        (5, DnsRecordType::CNAME(None)),
        (15, DnsRecordType::MX(None)),
        (29, DnsRecordType::LOC(None)),
        (17, DnsRecordType::RP(None)),
        (52, DnsRecordType::TLSA(None)),
        (12, DnsRecordType::PTR(None)),
        (16, DnsRecordType::TXT(None)),
        (6, DnsRecordType::SOA(None)),
        (2, DnsRecordType::NotImplemented(2)),
        (255, DnsRecordType::NotImplemented(255)),
    ];
    for (code, kind) in kinds {
        assert_eq!(DnsRecordType::from_byte(code), kind);
        let (back, data) = kind.to_byte();
        assert_eq!(back, code);
        if let DnsRecordType::NotImplemented(_) = kind {
            assert_eq!(data, Some(Vec::new()));
        } else {
            assert_eq!(data, None);
        }
    }
}

#[test]
fn record_type_to_byte_hands_out_the_data() {
    assert_eq!(DnsRecordType::A(Some(vec![1, 2, 3, 4])).to_byte(), (1, Some(vec![1, 2, 3, 4])));
    assert_eq!(DnsRecordType::TXT(Some(vec![104, 105])).to_byte(), (16, Some(vec![104, 105])));
}

#[test]
fn empty_name_is_a_single_zero_byte() {
    assert_eq!(domain_list_to_bytes(&Vec::new()), vec![0]);
}

#[test]
fn long_label_is_written_whole() {
    let label = "a".repeat(70);
    let bytes = domain_list_to_bytes(&vec![label.clone()]);
    assert_eq!(bytes.len(), 72);
    assert_eq!(bytes[0], 70);
    assert_eq!(&bytes[1..71], label.as_bytes());
    assert_eq!(bytes[71], 0);
    let longer = "b".repeat(300);
    let bytes = domain_list_to_bytes(&vec![longer]);
    assert_eq!(bytes.len(), 302);
    assert_eq!(bytes[0], 44);
}

#[test]
fn name_round_trip_on_labels_of_every_length() {
    let mut labels: Vec<String> = Vec::new();
    for len in 1..=63usize {
        let c = (b'a' + (len % 26) as u8) as char;
        labels.push(std::iter::repeat(c).take(len).collect());
    }
    let mut bytes = domain_list_to_bytes(&labels);
    bytes.extend_from_slice(&[0, 1, 0, 1]);
    let (question, rest) = parse_question(&bytes).unwrap();
    assert_eq!(question.qname, labels);
    assert_eq!(rest, None);
}

#[test]
fn parse_question_hands_back_what_follows() {
    let bytes: Vec<u8> = vec![1, 97, 0, 0, 1, 0, 1, 7, 8];
    let (question, rest) = parse_question(&bytes).unwrap();
    assert_eq!(question.qname, name(&["a"]));
    assert_eq!(question.qtype, DnsRecordType::A(None));
    assert_eq!(question.qclass, 1);
    assert_eq!(rest, Some(vec![7, 8]));
}

#[test]
fn parse_question_takes_no_wide_type_for_a_known_kind() {
    let bytes: Vec<u8> = vec![1, 97, 0, 1, 1, 0, 1];
    let (question, rest) = parse_question(&bytes).unwrap();
    assert_eq!(question.qname, name(&["a"]));
    assert_eq!(question.qclass, 1);
    assert_ne!(question.qtype, DnsRecordType::A(None));
    assert_eq!(question.qtype, DnsRecordType::NotImplemented(1));
    assert_eq!(rest, None);
    let bytes: Vec<u8> = vec![0, 0x12, 28, 0xab, 0xcd];
    let (question, rest) = parse_question(&bytes).unwrap();
    assert_eq!(question.qname, Vec::<String>::new());
    assert_eq!(question.qtype, DnsRecordType::NotImplemented(28));
    assert_eq!(question.qclass, 0xabcd);
    assert_eq!(rest, None);
    let bytes: Vec<u8> = vec![0, 0, 28, 0xab, 0xcd];
    let (question, _) = parse_question(&bytes).unwrap();
    assert_eq!(question.qtype, DnsRecordType::AAAA(None));
}

#[test]
fn record_kind_of_a_type() {
    assert_eq!(DnsRecordType::from_type(1), DnsRecordType::A(None));
    assert_eq!(DnsRecordType::from_type(52), DnsRecordType::TLSA(None));
    assert_eq!(DnsRecordType::from_type(255), DnsRecordType::NotImplemented(255));
    assert_eq!(DnsRecordType::from_type(256), DnsRecordType::NotImplemented(0));
    assert_eq!(DnsRecordType::from_type(257), DnsRecordType::NotImplemented(1));
    assert_eq!(DnsRecordType::from_type(0xff06), DnsRecordType::NotImplemented(6));
    for qtype in 256u16..=u16::MAX {
        assert!(matches!(DnsRecordType::from_type(qtype), DnsRecordType::NotImplemented(_)));
    }
    for qtype in 0u16..=255 {
        assert_eq!(DnsRecordType::from_type(qtype), DnsRecordType::from_byte(qtype as u8));
    }
}

#[test]
fn parse_question_keeps_unknown_kinds() {
    let bytes: Vec<u8> = vec![1, 120, 0, 0, 99, 0, 1];
    let (question, _) = parse_question(&bytes).unwrap();
    assert_eq!(question.qtype, DnsRecordType::NotImplemented(99));
    assert_eq!(question.build(), bytes);
}

#[test]
fn parse_question_reads_bytes_as_characters() {
    let bytes: Vec<u8> = vec![2, 0xe9, 0x41, 0, 0, 1, 0, 1];
    let (question, _) = parse_question(&bytes).unwrap();
    assert_eq!(question.qname, vec![String::from("\u{e9}A")]);
}

#[test]
fn parse_question_rejects_what_is_cut_short() {
    assert_eq!(parse_question(&Vec::new()), None);
    assert_eq!(parse_question(&vec![3, 119, 119]), None);
    assert_eq!(parse_question(&vec![3, 119, 119, 119]), None);
    assert_eq!(parse_question(&vec![3, 119, 119, 119, 0]), None);
    assert_eq!(parse_question(&vec![3, 119, 119, 119, 0, 0, 1, 0]), None);
    assert!(parse_question(&vec![3, 119, 119, 119, 0, 0, 1, 0, 1]).is_some());
}

#[test]
fn parse_query_over_udp_has_no_prefix() {
    let mut bytes: Vec<u8> = vec![0, 7, 1, 0, 0, 1, 0, 0, 0, 0, 0, 0];
    bytes.extend_from_slice(&[4, 104, 111, 109, 101, 0, 0, 16, 0, 1]);
    let query = parse_query(&bytes, false).unwrap();
    assert_eq!(query.header.id, 7);
    assert!(query.header.rd);
    assert!(!query.header.qr);
    assert_eq!(query.questions.len(), 1);
    assert_eq!(query.questions[0].qname, name(&["home"]));
    assert_eq!(query.questions[0].qtype, DnsRecordType::TXT(None));
}

#[test]
fn parse_query_ignores_the_length_prefix_and_the_counts() {
    let mut bytes: Vec<u8> = vec![0xff, 0xff, 0, 7, 0, 0, 0, 9, 0, 0, 0, 0, 0, 0];
    let query = parse_query(&bytes, true).unwrap();
    assert_eq!(query.header.qd_count, 9);
    assert_eq!(query.questions.len(), 0);
    bytes.extend_from_slice(&[0, 0, 1, 0, 1, 0, 0, 28, 0, 1]);
    let query = parse_query(&bytes, true).unwrap();
    assert_eq!(query.header.qd_count, 9);
    assert_eq!(query.questions.len(), 2);
}

#[test]
fn parse_query_rejects_short_buffers() {
    assert_eq!(parse_query(&Vec::new(), true), None);
    assert_eq!(parse_query(&vec![0], true), None);
    assert_eq!(parse_query(&vec![0; 13], true), None);
    assert_eq!(parse_query(&vec![0; 11], false), None);
    assert!(parse_query(&vec![0; 14], true).is_some());
    assert!(parse_query(&vec![0; 12], false).is_some());
}

#[test]
fn query_round_trip_over_tcp() {
    let kinds = [
        DnsRecordType::A(None),
        DnsRecordType::AAAA(None),
        DnsRecordType::CNAME(None),
        DnsRecordType::MX(None),
        DnsRecordType::LOC(None),
        DnsRecordType::RP(None),
        DnsRecordType::TLSA(None),
        DnsRecordType::PTR(None),
        DnsRecordType::TXT(None),
        DnsRecordType::SOA(None),
    ];
    let mut header = DnsHeader::new();
    header.id = 4711;
    header.rd = true;
    header.opcode = 2;
    let mut response = DnsResponse::default();
    response.header = header;
    let mut questions = Vec::new();
    for (i, kind) in kinds.iter().enumerate() {
        let question = DnsQuestion {
            qname: name(&["host", "example", "com"]),
            qtype: kind.clone(),
            qclass: i as u16,
        };
        questions.push(question.clone());
        response = response.add_question(question);
    }
    let query = DnsQuery { header: response.header, questions };
    assert_eq!(parse_query(&response.build(true), true), Some(query));
    let query = DnsQuery { header: response.header, questions: response.questions.clone() };
    assert_eq!(parse_query(&response.build(false), false), Some(query));
}

#[test]
fn question_build_matches_the_layout() {
    let question = DnsQuestion { qname: name(&["ab", "c"]), qtype: DnsRecordType::MX(None), qclass: 0x0102 };
    assert_eq!(question.build(), vec![2, 97, 98, 1, 99, 0, 0, 15, 1, 2]);
}

#[test]
fn answer_build_matches_the_layout() {
    let answer = DnsAnswer::default()
        .name(name(&["a"]))
        .class(3)
        .ttl(0x01020304)
        .record(DnsRecordType::new_txt("hi"));
    assert_eq!(
        answer.build(),
        vec![1, 97, 0, 0, 16, 0, 3, 1, 2, 3, 4, 0, 2, 104, 105]
    );
}

#[test]
fn answer_default_is_an_empty_internet_address_record() {
    let answer = DnsAnswer::default();
    assert_eq!(answer.name, Vec::<String>::new());
    assert_eq!(answer.rtype, DnsRecordType::A(None));
    assert_eq!(answer.class, 1);
    assert_eq!(answer.ttl, 0);
    assert_eq!(answer.rdata, Vec::<u8>::new());
    assert_eq!(answer.build(), vec![0, 0, 1, 0, 1, 0, 0, 0, 0, 0, 0]);
}

#[test]
fn answer_record_takes_kind_and_data() {
    let answer = DnsAnswer::default().record(Some(DnsRecordType::A(Some(vec![9, 8, 7, 6]))));
    assert_eq!(answer.rtype, DnsRecordType::A(Some(vec![9, 8, 7, 6])));
    assert_eq!(answer.rdata, vec![9, 8, 7, 6]);
    let same = answer.record(None);
    assert_eq!(same.rtype, DnsRecordType::A(Some(vec![9, 8, 7, 6])));
    assert_eq!(same.rdata, vec![9, 8, 7, 6]);
    let bare = same.record(Some(DnsRecordType::MX(None)));
    assert_eq!(bare.rtype, DnsRecordType::MX(None));
    assert_eq!(bare.rdata, vec![9, 8, 7, 6]);
    let unknown = bare.record(Some(DnsRecordType::NotImplemented(77)));
    assert_eq!(unknown.rdata, Vec::<u8>::new());
}

#[test]
fn auth_record_builders_and_wire_form() {
    let auth = DnsAuthRecord::new()
        .mname(name(&["ns", "x"]))
        .rname(name(&["me"]))
        .serial(1)
        .refresh(0x0200)
        .retry(0x030000)
        .expire(0x04000000)
        .minimum(5);
    assert_eq!(auth.mname, name(&["ns", "x"]));
    assert_eq!(auth.rname, name(&["me"]));
    assert_eq!((auth.serial, auth.refresh, auth.retry, auth.expire, auth.minimum), (1, 0x0200, 0x030000, 0x04000000, 5));
    let expected: Vec<u8> = vec![
        2, 110, 115, 1, 120, 0, 2, 109, 101, 0, 0, 0, 0, 1, 0, 0, 2, 0, 0, 3, 0, 0, 4, 0, 0, 0, 0,
        0, 0, 5,
    ];
    assert_eq!(auth.build(), expected);
    let kind = DnsRecordType::new_soa(auth.clone()).unwrap();
    assert_eq!(kind, DnsRecordType::SOA(Some(auth)));
    assert_eq!(kind.to_byte(), (6, Some(expected.clone())));
    let answer = DnsAnswer::default().record(Some(kind));
    assert_eq!(answer.rdata, expected);
    assert_eq!(DnsAuthRecord::new().build(), vec![0; 22]);
}

#[test]
fn record_kinds_from_text() {
    assert_eq!(DnsRecordType::new_a("10.0.0.1"), Some(DnsRecordType::A(Some(vec![10, 0, 0, 1]))));
    assert_eq!(DnsRecordType::new_a("255.255.255.255"), Some(DnsRecordType::A(Some(vec![255; 4]))));
    for bad in ["", "1.2.3", "1.2.3.4.5", "256.1.1.1", "01.2.3.4", "1.2.3.4 ", "+1.2.3.4", "1..3.4", "a.b.c.d", "1.2.3.0x4", "1:2:3:4"] {
        assert_eq!(DnsRecordType::new_a(bad), None, "{}", bad);
    }
    let text = "0:1:2:3:4:5:6:7:8:9:10:11:12:13:14:255";
    let octets: Vec<u8> = vec![0, 1, 2, 3, 4, 5, 6, 7, 8, 9, 10, 11, 12, 13, 14, 255];
    assert_eq!(DnsRecordType::new_aaaa(text), Some(DnsRecordType::AAAA(Some(octets))));
    assert_eq!(DnsRecordType::new_aaaa("1:2:3:4"), None);
    assert_eq!(DnsRecordType::new_aaaa("::1"), None);
    assert_eq!(DnsRecordType::new_txt("ab"), Some(DnsRecordType::TXT(Some(vec![97, 98]))));
    assert_eq!(DnsRecordType::new_cname("a.b"), None);
    assert_eq!(DnsRecordType::new_mx("a.b"), None);
    assert_eq!(DnsRecordType::new_loc("a.b"), None);
    assert_eq!(DnsRecordType::new_rp("a.b"), None);
    assert_eq!(DnsRecordType::new_tlsa("a.b"), None);
    assert_eq!(DnsRecordType::new_ptr("a.b"), None);
}

#[test]
fn response_builders_set_the_header() {
    let response = DnsResponse::default();
    assert!(response.header.qr && response.header.rd && response.header.ra);
    assert!(!response.header.aa && !response.header.tc);
    assert_eq!(response.header.rcode, DnsResponseCode::NoError);
    assert_eq!(response.build(false), vec![0, 0, 0x81, 0x80, 0, 0, 0, 0, 0, 0, 0, 0]);
    let response = response.id(0x0a0b).rd(false).opcode(1).rcode(DnsResponseCode::NxDomain).ar_count(2);
    assert_eq!(response.header.id, 0x0a0b);
    assert!(!response.header.rd);
    assert_eq!(response.header.opcode, 1);
    assert_eq!(response.header.rcode, DnsResponseCode::NxDomain);
    assert_eq!(response.header.ar_count, 2);
    assert_eq!(response.build(true), vec![0, 12, 0x0a, 0x0b, 0x88, 0x83, 0, 0, 0, 0, 0, 0, 0, 2]);
}

#[test]
fn response_sections_are_counted_and_written_in_order() {
    let question = DnsQuestion { qname: name(&["q"]), qtype: DnsRecordType::A(None), qclass: 1 };
    let answer = DnsAnswer::default().name(name(&["a"])).record(Some(DnsRecordType::A(Some(vec![1, 1, 1, 1]))));
    let authority = DnsAnswer::default().name(name(&["n"])).record(Some(DnsRecordType::TXT(Some(vec![7]))));
    let mut response = DnsResponse::default()
        .add_auth_record(authority.clone())
        .add_answer(answer.clone())
        .add_question(question.clone())
        .add_answer(answer.clone());
    response.additional_records.push(authority.clone());
    let response = response.ar_count(1);
    assert_eq!(response.header.qd_count, 1);
    assert_eq!(response.header.an_count, 2);
    assert_eq!(response.header.ns_count, 1);
    assert_eq!(response.header.ar_count, 1);
    let mut expected = response.header.build();
    expected.extend(question.build());
    expected.extend(answer.build());
    expected.extend(answer.build());
    expected.extend(authority.build());
    expected.extend(authority.build());
    assert_eq!(response.build(false), expected);
    let (header, rest) = parse_header(&response.build(false)).unwrap();
    assert_eq!(header.qd_count as usize, response.questions.len());
    assert_eq!(header.an_count as usize, response.answers.len());
    assert_eq!(header.ns_count as usize, response.authority_records.len());
    assert_eq!(header.ar_count as usize, response.additional_records.len());
    assert!(rest.is_some());
    let framed = response.build(true);
    assert_eq!(framed.len(), expected.len() + 2);
    assert_eq!(&framed[..2], &(expected.len() as u16).to_be_bytes());
    assert_eq!(&framed[2..], &expected[..]);
}
