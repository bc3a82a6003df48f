use home_dns::dns_request::{DnsAuthRecord, DnsRecordType};
use home_dns::google_dns::{
    answer_from_record, domains_to_str, get_ans_from_rec_type, parse_soa, request_url,
    resolve_response, str_to_domains, to_a, to_aaaa, to_soa, ErrorType, GoogleDnsAnswer,
    GoogleDnsResponse, Lookup, LookupStep, Resolution, MAX_ALIASES,
};

fn labels(parts: &[&str]) -> Vec<String> {
    parts.iter().map(|l| String::from(*l)).collect()
}

fn record(rtype: u8, data: &str, ttl: u32) -> GoogleDnsAnswer {
    GoogleDnsAnswer { name: String::from("foo.example.com."), rtype, TTL: ttl, data: String::from(data) }
}

fn body(status: u8, answer: Option<Vec<GoogleDnsAnswer>>, authority: Option<Vec<GoogleDnsAnswer>>) -> GoogleDnsResponse {
    GoogleDnsResponse {
        Status: status,
        TC: false,
        RD: true,
        RA: true,
        AD: false,
        CD: false,
        Question: Vec::new(),
        Answer: answer,
        Authority: authority,
        Comment: None,
    }
}

fn message_of(outcome: Result<Resolution, ErrorType>) -> String {
    match outcome {
        Err(ErrorType::ErrMsg(msg)) => msg,
        other => panic!("no message: {:?}", other),
    }
}

#[test]
fn address_answer_wins_over_the_alias() {
    let response = body(
        0,
        Some(vec![record(5, "bar.example.com", 60), record(1, "10.0.0.1", 120)]),
        None,
    );
    match resolve_response(response, &DnsRecordType::A(None), None, 0) {
        Ok(Resolution::Answer(answer)) => {
            assert_eq!(answer.rdata, vec![0x0a, 0, 0, 1]);
            assert_eq!(answer.ttl, 120);
            assert_eq!(answer.rtype, DnsRecordType::A(Some(vec![10, 0, 0, 1])));
            assert_eq!(answer.class, 1);
            assert_eq!(answer.name, Vec::<String>::new());
        }
        other => panic!("no answer: {:?}", other),
    }
}

#[test]
fn alias_alone_is_followed() {
    let response = body(0, Some(vec![record(5, "bar.example.com", 60)]), None);
    match resolve_response(response, &DnsRecordType::A(None), None, 0) {
        Ok(Resolution::Follow(name)) => assert_eq!(name, labels(&["bar", "example", "com"])),
        other => panic!("not followed: {:?}", other),
    }
    let response = body(0, Some(vec![record(5, "bar.example.com.", 60)]), None);
    match resolve_response(response, &DnsRecordType::AAAA(None), None, MAX_ALIASES - 1) {
        Ok(Resolution::Follow(name)) => assert_eq!(name, labels(&["bar", "example", "com"])),
        other => panic!("not followed: {:?}", other),
    }
}

#[test]
fn aliases_are_not_followed_for_ever() {
    assert_eq!(MAX_ALIASES, 8);
    let response = body(0, Some(vec![record(5, "bar.example.com", 60)]), None);
    assert_eq!(message_of(to_a(response.clone(), MAX_ALIASES)), "Too many cname responses");
    assert_eq!(message_of(to_aaaa(response, None, 200)), "Too many cname responses");
}

#[test]
fn first_address_record_is_taken() {
    let response = body(
        0,
        Some(vec![record(16, "x", 1), record(1, "1.2.3.4", 2), record(1, "5.6.7.8", 3)]),
        None,
    );
    match to_a(response, 0) {
        Ok(Resolution::Answer(answer)) => {
            assert_eq!(answer.rdata, vec![1, 2, 3, 4]);
            assert_eq!(answer.ttl, 2);
        }
        other => panic!("no answer: {:?}", other),
    }
}

#[test]
fn status_three_is_no_such_name() {
    let response = body(3, Some(vec![record(1, "10.0.0.1", 120)]), None);
    assert!(matches!(
        resolve_response(response.clone(), &DnsRecordType::A(None), None, 0),
        Err(ErrorType::NxDomain)
    ));
    assert!(matches!(
        resolve_response(response, &DnsRecordType::MX(None), None, 0),
        Err(ErrorType::NxDomain)
    ));
}

#[test]
fn other_kinds_are_not_looked_up() {
    for kind in [
        DnsRecordType::CNAME(None),
        DnsRecordType::MX(None),
        DnsRecordType::LOC(None),
        DnsRecordType::RP(None),
        DnsRecordType::TLSA(None),
        DnsRecordType::PTR(None),
        DnsRecordType::TXT(None),
        DnsRecordType::NotImplemented(77),
    ] {
        let response = body(0, Some(vec![record(1, "10.0.0.1", 120)]), None);
        assert!(matches!(
            resolve_response(response, &kind, None, 0),
            Err(ErrorType::NotImplemented)
        ));
    }
}

#[test]
fn address_lookup_errors() {
    assert_eq!(message_of(to_a(body(0, None, None), 0)), "No answers");
    assert_eq!(message_of(to_a(body(0, Some(Vec::new()), None), 0)), "No cname response");
    assert_eq!(
        message_of(to_a(body(0, Some(vec![record(28, "::1", 1)]), None), 0)),
        "No cname response"
    );
    assert_eq!(
        message_of(to_a(body(0, Some(vec![record(1, "10.0.0.256", 1)]), None), 0)),
        "Invalid ipv4"
    );
    assert_eq!(
        message_of(to_a(body(0, Some(vec![record(1, "", 1), record(5, "a.b", 1)]), None), 0)),
        "Invalid ipv4"
    );
}

#[test]
fn ipv6_lookup_takes_the_octets_it_is_given() {
    let octets = vec![0x20, 1, 0x0d, 0xb8, 0, 0, 0, 0, 0, 0, 0, 0, 0, 0, 0, 1];
    let response = body(0, Some(vec![record(5, "x.y", 9), record(28, "2001:db8::1", 33)]), None);
    match resolve_response(response.clone(), &DnsRecordType::AAAA(None), Some(octets.clone()), 0) {
        Ok(Resolution::Answer(answer)) => {
            assert_eq!(answer.rdata, octets);
            assert_eq!(answer.rtype, DnsRecordType::AAAA(Some(octets.clone())));
            assert_eq!(answer.ttl, 33);
        }
        other => panic!("no answer: {:?}", other),
    }
    assert_eq!(message_of(to_aaaa(response.clone(), None, 0)), "Invalid ipv6");
    assert_eq!(message_of(to_aaaa(response, Some(vec![1, 2, 3, 4]), 0)), "Invalid ipv6");
    assert_eq!(message_of(to_aaaa(body(0, None, None), Some(octets.clone()), 0)), "No answers");
    assert_eq!(
        message_of(to_aaaa(body(0, Some(vec![record(1, "1.2.3.4", 1)]), None), Some(octets), 0)),
        "No cname response"
    );
}

#[test]
fn start_of_authority_is_read_from_the_first_authority_record() {
    let data = "ns1.example.com. hostmaster.example.com. 2024010101 7200 +900 1209600 0086400 extra";
    let response = body(0, None, Some(vec![record(6, data, 1800), record(6, "x", 1)]));
    let expected = DnsAuthRecord::new()
        .mname(labels(&["ns1", "example", "com"]))
        .rname(labels(&["hostmaster", "example", "com"]))
        .serial(2024010101)
        .refresh(7200)
        .retry(900)
        .expire(1209600)
        .minimum(86400);
    assert_eq!(parse_soa(data), Some(expected.clone()));
    match resolve_response(response, &DnsRecordType::SOA(None), None, 0) {
        Ok(Resolution::Answer(answer)) => {
            assert_eq!(answer.ttl, 1800);
            assert_eq!(answer.rdata, expected.build());
            assert_eq!(answer.rtype, DnsRecordType::SOA(Some(expected)));
            assert_eq!(answer.class, 1);
        }
        other => panic!("no answer: {:?}", other),
    }
}

#[test]
fn start_of_authority_errors() {
    let message = |outcome: Result<_, ErrorType>| match outcome {
        Err(ErrorType::ErrMsg(msg)) => msg,
        _ => panic!("no message"),
    };
    assert_eq!(message(to_soa(body(0, Some(Vec::new()), None))), "No authority response");
    assert_eq!(message(to_soa(body(0, None, Some(Vec::new())))), "No authority response");
    assert_eq!(
        message(to_soa(body(0, None, Some(vec![record(6, "a. b. 1 2 3 4", 1)])))),
        "Invalid rdata field"
    );
    for bad in [
        "a. b. x 2 3 4 5",
        "a. b. 1 -2 3 4 5",
        "a. b. 1 2 4294967296 4 5",
        "a. b. 1 2 3  4 5",
        "a. b. 1 2 3 4 +",
        "a. b. 1 2 3 4 ",
    ] {
        assert_eq!(
            message(to_soa(body(0, None, Some(vec![record(6, bad, 1)])))),
            "Invalid rdata field",
            "{}",
            bad
        );
        assert_eq!(parse_soa(bad), None);
    }
    assert!(parse_soa("a. b. 1 2 3 4 4294967295").is_some());
}

#[test]
fn request_url_names_the_name_and_the_kind() {
    assert_eq!(
        request_url(&labels(&["foo", "example", "com"]), &DnsRecordType::A(None)),
        "https://8.8.8.8/resolve?name=foo.example.com&type=1"
    );
    assert_eq!(
        request_url(&labels(&["x"]), &DnsRecordType::AAAA(None)),
        "https://8.8.8.8/resolve?name=x&type=28"
    );
    assert_eq!(
        request_url(&Vec::new(), &DnsRecordType::NotImplemented(255)),
        "https://8.8.8.8/resolve?name=&type=255"
    );
    assert_eq!(
        request_url(&labels(&["a", "b"]), &DnsRecordType::SOA(None)),
        "https://8.8.8.8/resolve?name=a.b&type=6"
    );
}

#[test]
fn dotted_names_and_labels() {
    assert_eq!(str_to_domains("foo.example.com"), labels(&["foo", "example", "com"]));
    assert_eq!(str_to_domains("foo.example.com."), labels(&["foo", "example", "com"]));
    assert_eq!(str_to_domains("..a...b."), labels(&["a", "b"]));
    assert_eq!(str_to_domains(""), Vec::<String>::new());
    assert_eq!(str_to_domains("."), Vec::<String>::new());
    assert_eq!(str_to_domains("a. \t.b"), labels(&["a", "b"]));
    assert_eq!(str_to_domains(" a .b"), labels(&[" a ", "b"]));
    assert_eq!(str_to_domains("a.\u{a0}\u{2003}.b"), labels(&["a", "b"]));
    assert_eq!(domains_to_str(&labels(&["foo", "example", "com"])), "foo.example.com");
    assert_eq!(domains_to_str(&labels(&["foo"])), "foo");
    assert_eq!(domains_to_str(&Vec::new()), "");
    assert_eq!(domains_to_str(&labels(&["", ""])), ".");
}

#[test]
fn first_record_of_a_kind() {
    let records = vec![record(5, "a", 1), record(1, "b", 2), record(5, "c", 3)];
    let found = get_ans_from_rec_type(&records, 5).unwrap();
    assert_eq!((found.data.as_str(), found.TTL, found.rtype), ("a", 1, 5));
    assert_eq!(found.name, "foo.example.com.");
    let found = get_ans_from_rec_type(&records, 1).unwrap();
    assert_eq!((found.data.as_str(), found.TTL), ("b", 2));
    assert!(get_ans_from_rec_type(&records, 28).is_none());
    assert!(get_ans_from_rec_type(&Vec::new(), 1).is_none());
}

#[test]
fn answer_takes_the_time_to_live_of_the_upstream_record() {
    let answer = answer_from_record(Some(DnsRecordType::TXT(Some(vec![1, 2]))), record(16, "x", 77));
    assert_eq!(answer.ttl, 77);
    assert_eq!(answer.rdata, vec![1, 2]);
    assert_eq!(answer.class, 1);
    let bare = answer_from_record(None, record(16, "x", 78));
    assert_eq!(bare.ttl, 78);
    assert_eq!(bare.rtype, DnsRecordType::A(None));
    assert_eq!(bare.rdata, Vec::<u8>::new());
}

#[test]
fn errors_as_text() {
    assert_eq!(ErrorType::new("Invalid ipv4").message(), "Error: Invalid ipv4");
    assert_eq!(ErrorType::new("").message(), "Error: ");
    assert_eq!(ErrorType::NxDomain.message(), "NXDOMAIN");
    assert_eq!(ErrorType::NotImplemented.message(), "Error: Requested type not implemented");
    assert!(matches!(ErrorType::new("x"), ErrorType::ErrMsg(msg) if msg == "x"));
}

#[test]
fn lookup_follows_aliases_to_the_address() {
    let lookup = Lookup::new(labels(&["foo", "example", "com"]), DnsRecordType::A(None));
    assert_eq!(lookup.url(), "https://8.8.8.8/resolve?name=foo.example.com&type=1");
    assert_eq!(lookup.depth, 0);
    let alias = body(0, Some(vec![record(5, "bar.example.com.", 60)]), None);
    let lookup = match lookup.next(alias, None) {
        LookupStep::Ask(next) => next,
        other => panic!("not followed: {:?}", other),
    };
    assert_eq!(lookup.name, labels(&["bar", "example", "com"]));
    assert_eq!(lookup.rtype, DnsRecordType::A(None));
    assert_eq!(lookup.depth, 1);
    assert_eq!(lookup.url(), "https://8.8.8.8/resolve?name=bar.example.com&type=1");
    let found = body(0, Some(vec![record(1, "10.0.0.1", 120)]), None);
    match lookup.next(found, None) {
        LookupStep::Done(Ok(answer)) => {
            assert_eq!(answer.rdata, vec![10, 0, 0, 1]);
            assert_eq!(answer.ttl, 120);
        }
        other => panic!("no answer: {:?}", other),
    }
}

#[test]
fn lookup_gives_up_on_a_chain_of_aliases() {
    let mut lookup = Lookup::new(labels(&["a0"]), DnsRecordType::AAAA(None));
    let mut asked = 0;
    let outcome = loop {
        asked += 1;
        let alias = body(0, Some(vec![record(5, &format!("a{}", asked), 60)]), None);
        match lookup.next(alias, None) {
            LookupStep::Ask(next) => lookup = next,
            LookupStep::Done(outcome) => break outcome,
        }
    };
    assert_eq!(asked, 9);
    assert!(matches!(outcome, Err(ErrorType::ErrMsg(msg)) if msg == "Too many cname responses"));
    let lookup = Lookup::new(labels(&["gone"]), DnsRecordType::A(None));
    assert!(matches!(lookup.next(body(3, None, None), None), LookupStep::Done(Err(ErrorType::NxDomain))));
}
