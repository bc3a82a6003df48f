//! The parts of a DNS message and their wire encoding.

use vstd::prelude::*;
use vstd::utf8::encode_utf8;
use crate::decimal::{octets_of, parse_octets};
use crate::dns_request::wire::{be16, be32, push_bytes, push_u16, push_u32};
use crate::text::{clone_bytes, clone_names};
use crate::views::{lemma_views_push, option_view, views};

verus! {

/// The response code of a DNS message.
#[derive(PartialEq, Eq, Debug, Clone, Copy)]
pub enum DnsResponseCode {
    /// No error condition.
    NoError,
    /// The message was not formatted correctly.
    FormatError,
    /// The server failed internally and could not reach the record.
    ServerFailure,
    /// No record exists for the domain.
    NxDomain,
    /// The server does not implement this kind of query.
    NotImplemented,
    /// The server does not wish to answer.
    Refused,
}

impl DnsResponseCode {
    /// The number of this code in the header.
    pub open spec fn code(self) -> u8 {
        match self {
            Self::NoError => 0,
            Self::FormatError => 1,
            Self::ServerFailure => 2,
            Self::NxDomain => 3,
            Self::NotImplemented => 4,
            Self::Refused => 5,
        }
    }

    /// The code that a number stands for: every number above 4 is `Refused`.
    pub open spec fn of_code(byte: u8) -> Self {
        if byte == 0 {
            Self::NoError
        } else if byte == 1 {
            Self::FormatError
        } else if byte == 2 {
            Self::ServerFailure
        } else if byte == 3 {
            Self::NxDomain
        } else if byte == 4 {
            Self::NotImplemented
        } else {
            Self::Refused
        }
    }

    /// The number of this code in the header.
    pub fn to_byte(&self) -> (byte: u8)
        ensures
            byte == self.code(),
            byte <= 5,
    {
        match self {
            Self::NoError => 0,
            Self::FormatError => 1,
            Self::ServerFailure => 2,
            Self::NxDomain => 3,
            Self::NotImplemented => 4,
            Self::Refused => 5,
        }
    }

    /// The code that a number stands for.
    pub fn from_byte(byte: u8) -> (code: Self)
        ensures
            code == Self::of_code(byte),
    {
        match byte {
            0 => Self::NoError,
            1 => Self::FormatError,
            2 => Self::ServerFailure,
            3 => Self::NxDomain,
            4 => Self::NotImplemented,
            _ => Self::Refused,
        }
    }
}

/// The header of a DNS message.
#[derive(PartialEq, Eq, Debug, Clone, Copy)]
pub struct DnsHeader {
    /// Identifier that pairs a response with its query.
    pub id: u16,
    /// Set in a response, clear in a query.
    pub qr: bool,
    /// Four-bit kind of query.
    pub opcode: u8,
    /// Authoritative answer.
    pub aa: bool,
    /// The message was truncated.
    pub tc: bool,
    /// Recursion desired.
    pub rd: bool,
    /// Recursion available.
    pub ra: bool,
    /// Three reserved bits.
    pub z: u8,
    /// Response code.
    pub rcode: DnsResponseCode,
    /// Number of questions.
    pub qd_count: u16,
    /// Number of answers.
    pub an_count: u16,
    /// Number of authority records.
    pub ns_count: u16,
    /// Number of additional records.
    pub ar_count: u16,
}

/// A flag as a bit.
pub open spec fn bit(flag: bool) -> u8 {
    if flag {
        1
    } else {
        0
    }
}

/// A flag as a bit.
fn bit_of(flag: bool) -> (b: u8)
    ensures
        b == bit(flag),
{
    if flag {
        1
    } else {
        0
    }
}

impl DnsHeader {
    /// The first flag byte: `qr`, four bits of `opcode`, `aa`, `tc`, `rd`,
    /// from the most significant bit down.
    pub open spec fn flags_hi(self) -> u8 {
        bit(self.rd) | (bit(self.tc) << 1u8) | (bit(self.aa) << 2u8) | (self.opcode << 3u8) | (bit(
            self.qr,
        ) << 7u8)
    }

    /// The second flag byte: `ra`, three bits of `z`, four bits of `rcode`,
    /// from the most significant bit down.
    pub open spec fn flags_lo(self) -> u8 {
        self.rcode.code() | (self.z << 4u8) | (bit(self.ra) << 7u8)
    }

    /// The twelve bytes of the header.
    pub open spec fn wire(self) -> Seq<u8> {
        be16(self.id) + seq![self.flags_hi(), self.flags_lo()] + be16(self.qd_count) + be16(
            self.an_count,
        ) + be16(self.ns_count) + be16(self.ar_count)
    }

    /// Every field lies within the bits that the header gives it.
    pub open spec fn in_range(self) -> bool {
        self.opcode < 16 && self.z < 8
    }

    /// The header in wire form.
    pub fn build(&self) -> (bytes: Vec<u8>)
        ensures
            bytes@ == self.wire(),
            bytes@.len() == 12,
    {
        let mut result: Vec<u8> = Vec::new();
        push_u16(&mut result, self.id);

        let mut flag_byte_1: u8 = bit_of(self.rd);
        flag_byte_1 |= bit_of(self.tc) << 1u8;
        flag_byte_1 |= bit_of(self.aa) << 2u8;
        flag_byte_1 |= self.opcode << 3u8;
        flag_byte_1 |= bit_of(self.qr) << 7u8;
        result.push(flag_byte_1);

        let mut flag_byte_2: u8 = self.rcode.to_byte();
        flag_byte_2 |= self.z << 4u8;
        flag_byte_2 |= bit_of(self.ra) << 7u8;
        result.push(flag_byte_2);

        push_u16(&mut result, self.qd_count);
        push_u16(&mut result, self.an_count);
        push_u16(&mut result, self.ns_count);
        push_u16(&mut result, self.ar_count);
        assert(result@ =~= self.wire());
        result
    }

    /// A header with every field clear.
    pub fn new() -> (h: Self)
        ensures
            h == (DnsHeader {
                id: 0,
                qr: false,
                opcode: 0,
                aa: false,
                tc: false,
                rd: false,
                ra: false,
                z: 0,
                rcode: DnsResponseCode::NoError,
                qd_count: 0,
                an_count: 0,
                ns_count: 0,
                ar_count: 0,
            }),
    {
        DnsHeader {
            id: 0,
            qr: false,
            opcode: 0,
            aa: false,
            tc: false,
            rd: false,
            ra: false,
            z: 0,
            rcode: DnsResponseCode::NoError,
            qd_count: 0,
            an_count: 0,
            ns_count: 0,
            ar_count: 0,
        }
    }
}

/// One label on the wire: a length byte, then the bytes of the label. A
/// label of more than 255 bytes is written whole behind the low byte of its
/// length.
pub open spec fn label_wire(label: Seq<char>) -> Seq<u8> {
    seq![(encode_utf8(label).len() % 256) as u8] + encode_utf8(label)
}

/// The labels of a name on the wire, one after the other.
pub open spec fn labels_wire(name: Seq<Seq<char>>) -> Seq<u8>
    decreases name.len(),
{
    if name.len() == 0 {
        Seq::empty()
    } else {
        label_wire(name[0]) + labels_wire(name.drop_first())
    }
}

/// A name on the wire: its labels, then a zero byte. No compression.
pub open spec fn name_wire(name: Seq<Seq<char>>) -> Seq<u8> {
    labels_wire(name) + seq![0u8]
}

/// The wire form of a name grows at its end as the name does.
pub proof fn lemma_labels_wire_push(name: Seq<Seq<char>>, label: Seq<char>)
    ensures
        labels_wire(name.push(label)) == labels_wire(name) + label_wire(label),
    decreases name.len(),
{
    if name.len() == 0 {
        assert(name.push(label).drop_first() =~= name);
        assert(labels_wire(name.push(label)) =~= labels_wire(name) + label_wire(label));
    } else {
        lemma_labels_wire_push(name.drop_first(), label);
        assert(name.push(label).drop_first() =~= name.drop_first().push(label));
        assert(labels_wire(name.push(label)) =~= labels_wire(name) + label_wire(label));
    }
}

/// A name in wire form.
pub fn domain_list_to_bytes(list: &Vec<String>) -> (bytes: Vec<u8>)
    ensures
        bytes@ == name_wire(views(list@)),
{
    let mut bytes: Vec<u8> = Vec::new();
    let mut i: usize = 0;
    assert(views(list@).take(0) =~= Seq::empty());
    while i < list.len()
        invariant
            i <= list.len(),
            bytes@ == labels_wire(views(list@).take(i as int)),
        decreases list.len() - i,
    {
        let label = list[i].as_str().as_bytes_vec();
        proof {
            lemma_labels_wire_push(views(list@).take(i as int), list@[i as int]@);
            assert(views(list@).take(i as int).push(list@[i as int]@) =~= views(list@).take(
                i + 1,
            ));
        }
        bytes.push((label.len() % 256) as u8);
        push_bytes(&mut bytes, &label);
        i += 1;
        assert(bytes@ =~= labels_wire(views(list@).take(i as int)));
    }
    assert(views(list@).take(i as int) =~= views(list@));
    bytes.push(0);
    bytes
}

/// A start-of-authority record.
#[derive(PartialEq, Debug)]
pub struct DnsAuthRecord {
    /// Name of the primary name server of the zone.
    pub mname: Vec<String>,
    /// Mailbox of those responsible for the zone, as a name.
    pub rname: Vec<String>,
    /// Version number of the zone.
    pub serial: u32,
    /// Seconds before the zone should be refreshed.
    pub refresh: u32,
    /// Seconds before a failed refresh should be retried.
    pub retry: u32,
    /// Seconds until the zone is no longer authoritative.
    pub expire: u32,
    /// The least time to live of any record of the zone.
    pub minimum: u32,
}

/// What a start-of-authority record holds.
pub struct AuthRecordView {
    pub mname: Seq<Seq<char>>,
    pub rname: Seq<Seq<char>>,
    pub serial: u32,
    pub refresh: u32,
    pub retry: u32,
    pub expire: u32,
    pub minimum: u32,
}

impl AuthRecordView {
    /// The record data: both names, then the five numbers.
    pub open spec fn wire(self) -> Seq<u8> {
        name_wire(self.mname) + name_wire(self.rname) + be32(self.serial) + be32(self.refresh)
            + be32(self.retry) + be32(self.expire) + be32(self.minimum)
    }
}

impl View for DnsAuthRecord {
    type V = AuthRecordView;

    open spec fn view(&self) -> AuthRecordView {
        AuthRecordView {
            mname: views(self.mname@),
            rname: views(self.rname@),
            serial: self.serial,
            refresh: self.refresh,
            retry: self.retry,
            expire: self.expire,
            minimum: self.minimum,
        }
    }
}

impl Clone for DnsAuthRecord {
    fn clone(&self) -> (r: Self)
        ensures
            r@ == self@,
    {
        DnsAuthRecord {
            mname: clone_names(&self.mname),
            rname: clone_names(&self.rname),
            serial: self.serial,
            refresh: self.refresh,
            retry: self.retry,
            expire: self.expire,
            minimum: self.minimum,
        }
    }
}

impl DnsAuthRecord {
    /// A record with empty names and every number zero.
    pub fn new() -> (r: Self)
        ensures
            r@ == (AuthRecordView {
                mname: Seq::empty(),
                rname: Seq::empty(),
                serial: 0,
                refresh: 0,
                retry: 0,
                expire: 0,
                minimum: 0,
            }),
    {
        let r = DnsAuthRecord {
            mname: Vec::new(),
            rname: Vec::new(),
            serial: 0,
            refresh: 0,
            retry: 0,
            expire: 0,
            minimum: 0,
        };
        assert(views(r.mname@) =~= Seq::empty());
        assert(views(r.rname@) =~= Seq::empty());
        r
    }

    /// Sets the name of the primary name server.
    pub fn mname(self, mname: Vec<String>) -> (r: Self)
        ensures
            r@ == (AuthRecordView { mname: views(mname@), ..self@ }),
    {
        let mut out = self;
        out.mname = mname;
        out
    }

    /// Sets the mailbox of those responsible.
    pub fn rname(self, rname: Vec<String>) -> (r: Self)
        ensures
            r@ == (AuthRecordView { rname: views(rname@), ..self@ }),
    {
        let mut out = self;
        out.rname = rname;
        out
    }

    /// Sets the version number of the zone.
    pub fn serial(self, serial: u32) -> (r: Self)
        ensures
            r@ == (AuthRecordView { serial, ..self@ }),
    {
        let mut out = self;
        out.serial = serial;
        out
    }

    /// Sets the refresh interval.
    pub fn refresh(self, refresh: u32) -> (r: Self)
        ensures
            r@ == (AuthRecordView { refresh, ..self@ }),
    {
        let mut out = self;
        out.refresh = refresh;
        out
    }

    /// Sets the retry interval.
    pub fn retry(self, retry: u32) -> (r: Self)
        ensures
            r@ == (AuthRecordView { retry, ..self@ }),
    {
        let mut out = self;
        out.retry = retry;
        out
    }

    /// Sets the time after which the zone expires.
    pub fn expire(self, expire: u32) -> (r: Self)
        ensures
            r@ == (AuthRecordView { expire, ..self@ }),
    {
        let mut out = self;
        out.expire = expire;
        out
    }

    /// Sets the least time to live.
    pub fn minimum(self, minimum: u32) -> (r: Self)
        ensures
            r@ == (AuthRecordView { minimum, ..self@ }),
    {
        let mut out = self;
        out.minimum = minimum;
        out
    }

    /// The record data in wire form.
    pub fn build(&self) -> (bytes: Vec<u8>)
        ensures
            bytes@ == self@.wire(),
    {
        let mut result: Vec<u8> = domain_list_to_bytes(&self.mname);
        let rname = domain_list_to_bytes(&self.rname);
        push_bytes(&mut result, &rname);
        push_u32(&mut result, self.serial);
        push_u32(&mut result, self.refresh);
        push_u32(&mut result, self.retry);
        push_u32(&mut result, self.expire);
        push_u32(&mut result, self.minimum);
        result
    }
}

/// The kind of a record, with the record data where there is any. A kind
/// that comes out of a question carries no data.
#[derive(PartialEq, Debug)]
pub enum DnsRecordType {
    /// An IPv4 address (code 1).
    A(Option<Vec<u8>>),
    /// An IPv6 address (code 28).
    AAAA(Option<Vec<u8>>),
    /// The canonical name that an alias stands for (code 5).
    CNAME(Option<Vec<u8>>),
    /// A mail exchange (code 15).
    MX(Option<Vec<u8>>),
    /// A location (code 29).
    LOC(Option<Vec<u8>>),
    /// A responsible person (code 17).
    RP(Option<Vec<u8>>),
    /// A TLS certificate association (code 52).
    TLSA(Option<Vec<u8>>),
    /// A pointer to a canonical name (code 12).
    PTR(Option<Vec<u8>>),
    /// Free text (code 16).
    TXT(Option<Vec<u8>>),
    /// The start of authority of a zone (code 6).
    SOA(Option<DnsAuthRecord>),
    /// Any other kind, with its code.
    NotImplemented(u8),
}

/// What a record kind holds.
pub enum RecordTypeView {
    A(Option<Seq<u8>>),
    AAAA(Option<Seq<u8>>),
    CNAME(Option<Seq<u8>>),
    MX(Option<Seq<u8>>),
    LOC(Option<Seq<u8>>),
    RP(Option<Seq<u8>>),
    TLSA(Option<Seq<u8>>),
    PTR(Option<Seq<u8>>),
    TXT(Option<Seq<u8>>),
    SOA(Option<AuthRecordView>),
    NotImplemented(u8),
}

impl RecordTypeView {
    /// The code of the kind on the wire.
    pub open spec fn code(self) -> u8 {
        match self {
            Self::A(_) => 1,
            Self::AAAA(_) => 28,
            Self::CNAME(_) => 5,
            Self::MX(_) => 15,
            Self::LOC(_) => 29,
            Self::RP(_) => 17,
            Self::TLSA(_) => 52,
            Self::PTR(_) => 12,
            Self::TXT(_) => 16,
            Self::SOA(_) => 6,
            Self::NotImplemented(code) => code,
        }
    }

    /// The record data of the kind in wire form, if it carries any. A kind
    /// that is not implemented carries empty data.
    pub open spec fn rdata(self) -> Option<Seq<u8>> {
        match self {
            Self::A(data) => data,
            Self::AAAA(data) => data,
            Self::CNAME(data) => data,
            Self::MX(data) => data,
            Self::LOC(data) => data,
            Self::RP(data) => data,
            Self::TLSA(data) => data,
            Self::PTR(data) => data,
            Self::TXT(data) => data,
            Self::SOA(auth) => match auth {
                Some(a) => Some(a.wire()),
                None => None,
            },
            Self::NotImplemented(_) => Some(Seq::empty()),
        }
    }

    /// The address record that the text of an IPv4 address stands for.
    pub open spec fn a_of(text: Seq<char>) -> Option<Self> {
        match octets_of(text, '.', 4) {
            Some(octets) => Some(Self::A(Some(octets))),
            None => None,
        }
    }

    /// The address record that the cached text of an IPv6 address stands
    /// for.
    pub open spec fn aaaa_of(text: Seq<char>) -> Option<Self> {
        match octets_of(text, ':', 16) {
            Some(octets) => Some(Self::AAAA(Some(octets))),
            None => None,
        }
    }

    /// The kind that a code stands for, without data.
    pub open spec fn of_code(byte: u8) -> Self {
        if byte == 1 {
            Self::A(None)
        } else if byte == 28 {
            Self::AAAA(None)
        } else if byte == 5 {
            Self::CNAME(None)
        } else if byte == 15 {
            Self::MX(None)
        } else if byte == 29 {
            Self::LOC(None)
        } else if byte == 17 {
            Self::RP(None)
        } else if byte == 52 {
            Self::TLSA(None)
        } else if byte == 12 {
            Self::PTR(None)
        } else if byte == 16 {
            Self::TXT(None)
        } else if byte == 6 {
            Self::SOA(None)
        } else {
            Self::NotImplemented(byte)
        }
    }

    /// The kind that the 16-bit type of a question stands for, without
    /// data. Every code of a kind is below 256; a type above 255 is a kind
    /// that is not implemented, which keeps the low byte of the type.
    pub open spec fn of_type(qtype: u16) -> Self {
        if qtype <= 255 {
            Self::of_code(qtype as u8)
        } else {
            Self::NotImplemented((qtype % 256) as u8)
        }
    }
}

impl View for DnsRecordType {
    type V = RecordTypeView;

    open spec fn view(&self) -> RecordTypeView {
        match *self {
            Self::A(data) => RecordTypeView::A(option_view(data)),
            Self::AAAA(data) => RecordTypeView::AAAA(option_view(data)),
            Self::CNAME(data) => RecordTypeView::CNAME(option_view(data)),
            Self::MX(data) => RecordTypeView::MX(option_view(data)),
            Self::LOC(data) => RecordTypeView::LOC(option_view(data)),
            Self::RP(data) => RecordTypeView::RP(option_view(data)),
            Self::TLSA(data) => RecordTypeView::TLSA(option_view(data)),
            Self::PTR(data) => RecordTypeView::PTR(option_view(data)),
            Self::TXT(data) => RecordTypeView::TXT(option_view(data)),
            Self::SOA(auth) => RecordTypeView::SOA(option_view(auth)),
            Self::NotImplemented(code) => RecordTypeView::NotImplemented(code),
        }
    }
}

/// A copy of optional record data.
fn clone_data(data: &Option<Vec<u8>>) -> (r: Option<Vec<u8>>)
    ensures
        option_view(r) == option_view(*data),
{
    match data {
        Some(bytes) => Some(clone_bytes(bytes)),
        None => None,
    }
}

impl Clone for DnsRecordType {
    fn clone(&self) -> (r: Self)
        ensures
            r@ == self@,
    {
        match self {
            Self::A(data) => Self::A(clone_data(data)),
            Self::AAAA(data) => Self::AAAA(clone_data(data)),
            Self::CNAME(data) => Self::CNAME(clone_data(data)),
            Self::MX(data) => Self::MX(clone_data(data)),
            Self::LOC(data) => Self::LOC(clone_data(data)),
            Self::RP(data) => Self::RP(clone_data(data)),
            Self::TLSA(data) => Self::TLSA(clone_data(data)),
            Self::PTR(data) => Self::PTR(clone_data(data)),
            Self::TXT(data) => Self::TXT(clone_data(data)),
            Self::SOA(auth) => Self::SOA(
                match auth {
                    Some(a) => Some(a.clone()),
                    None => None,
                },
            ),
            Self::NotImplemented(code) => Self::NotImplemented(*code),
        }
    }
}

impl DnsRecordType {
    /// The kind that a code stands for, without data.
    pub fn from_byte(byte: u8) -> (r: Self)
        ensures
            r@ == RecordTypeView::of_code(byte),
    {
        match byte {
            1 => Self::A(None),
            28 => Self::AAAA(None),
            5 => Self::CNAME(None),
            15 => Self::MX(None),
            29 => Self::LOC(None),
            17 => Self::RP(None),
            52 => Self::TLSA(None),
            12 => Self::PTR(None),
            16 => Self::TXT(None),
            6 => Self::SOA(None),
            num => Self::NotImplemented(num),
        }
    }

    /// The kind that the 16-bit type of a question stands for, without
    /// data.
    pub fn from_type(qtype: u16) -> (r: Self)
        ensures
            r@ == RecordTypeView::of_type(qtype),
    {
        if qtype <= 255 {
            Self::from_byte(qtype as u8)
        } else {
            Self::NotImplemented((qtype % 256) as u8)
        }
    }

    /// The code of the kind, and its record data in wire form.
    pub fn to_byte(&self) -> (r: (u8, Option<Vec<u8>>))
        ensures
            r.0 == self@.code(),
            option_view(r.1) == self@.rdata(),
    {
        match self {
            Self::A(val) => (1, clone_data(val)),
            Self::AAAA(val) => (28, clone_data(val)),
            Self::CNAME(val) => (5, clone_data(val)),
            Self::MX(val) => (15, clone_data(val)),
            Self::LOC(val) => (29, clone_data(val)),
            Self::RP(val) => (17, clone_data(val)),
            Self::TLSA(val) => (52, clone_data(val)),
            Self::PTR(val) => (12, clone_data(val)),
            Self::TXT(val) => (16, clone_data(val)),
            Self::SOA(val) => {
                let ret = match val {
                    Some(auth) => Some(auth.build()),
                    None => None,
                };
                (6, ret)
            },
            Self::NotImplemented(val) => (*val, Some(Vec::new())),
        }
    }

    /// An address record kind from the text of an IPv4 address: four
    /// octets in decimal with dots between them. Any other text gives
    /// `None`.
    pub fn new_a(ipv4: &str) -> (r: Option<Self>)
        ensures
            option_view(r) == RecordTypeView::a_of(ipv4@),
    {
        match parse_octets(ipv4, '.', 4) {
            Some(octets) => Some(Self::A(Some(octets))),
            None => None,
        }
    }

    /// An address record kind from the text in which the record cache
    /// holds an IPv6 address: sixteen octets in decimal with colons between
    /// them. Any other text gives `None`.
    pub fn new_aaaa(ipv6: &str) -> (r: Option<Self>)
        ensures
            option_view(r) == RecordTypeView::aaaa_of(ipv6@),
    {
        match parse_octets(ipv6, ':', 16) {
            Some(octets) => Some(Self::AAAA(Some(octets))),
            None => None,
        }
    }

    /// A start-of-authority record kind that carries `auth_record`.
    pub fn new_soa(auth_record: DnsAuthRecord) -> (r: Option<Self>)
        ensures
            r matches Some(kind) && kind@ == RecordTypeView::SOA(Some(auth_record@)),
    {
        Some(Self::SOA(Some(auth_record)))
    }

    /// A text record kind that carries the bytes of `text`.
    pub fn new_txt(text: &str) -> (r: Option<Self>)
        ensures
            r matches Some(kind) && kind@ == RecordTypeView::TXT(Some(encode_utf8(text@))),
    {
        Some(Self::TXT(Some(text.as_bytes_vec())))
    }

    /// Canonical-name records cannot be made from text: always `None`.
    pub fn new_cname(_cname: &str) -> (r: Option<Self>)
        ensures
            r is None,
    {
        None
    }

    /// Mail-exchange records cannot be made from text: always `None`.
    pub fn new_mx(_val: &str) -> (r: Option<Self>)
        ensures
            r is None,
    {
        None
    }

    /// Location records cannot be made from text: always `None`.
    pub fn new_loc(_val: &str) -> (r: Option<Self>)
        ensures
            r is None,
    {
        None
    }

    /// Responsible-person records cannot be made from text: always `None`.
    pub fn new_rp(_val: &str) -> (r: Option<Self>)
        ensures
            r is None,
    {
        None
    }

    /// Certificate records cannot be made from text: always `None`.
    pub fn new_tlsa(_val: &str) -> (r: Option<Self>)
        ensures
            r is None,
    {
        None
    }

    /// Pointer records cannot be made from text: always `None`.
    pub fn new_ptr(_val: &str) -> (r: Option<Self>)
        ensures
            r is None,
    {
        None
    }
}

/// A question of a DNS message.
#[derive(PartialEq, Debug)]
pub struct DnsQuestion {
    /// The name that is asked about, label by label.
    pub qname: Vec<String>,
    /// The kind of record that is asked for.
    pub qtype: DnsRecordType,
    /// The class of the question.
    pub qclass: u16,
}

/// What a question holds.
pub struct QuestionView {
    pub qname: Seq<Seq<char>>,
    pub qtype: RecordTypeView,
    pub qclass: u16,
}

impl QuestionView {
    /// The question on the wire: name, kind, class.
    pub open spec fn wire(self) -> Seq<u8> {
        name_wire(self.qname) + be16(self.qtype.code() as u16) + be16(self.qclass)
    }
}

impl View for DnsQuestion {
    type V = QuestionView;

    open spec fn view(&self) -> QuestionView {
        QuestionView { qname: views(self.qname@), qtype: self.qtype@, qclass: self.qclass }
    }
}

impl Clone for DnsQuestion {
    fn clone(&self) -> (r: Self)
        ensures
            r@ == self@,
    {
        DnsQuestion {
            qname: clone_names(&self.qname),
            qtype: self.qtype.clone(),
            qclass: self.qclass,
        }
    }
}

impl DnsQuestion {
    /// The question in wire form.
    pub fn build(&self) -> (bytes: Vec<u8>)
        ensures
            bytes@ == self@.wire(),
    {
        let mut result: Vec<u8> = domain_list_to_bytes(&self.qname);
        push_u16(&mut result, self.qtype.to_byte().0 as u16);
        push_u16(&mut result, self.qclass);
        result
    }
}

/// A resource record of a DNS message.
#[derive(Debug)]
pub struct DnsAnswer {
    /// The name that the record belongs to, label by label.
    pub name: Vec<String>,
    /// The kind of the record.
    pub rtype: DnsRecordType,
    /// The class of the record.
    pub class: u16,
    /// Seconds for which the record may be cached.
    pub ttl: u32,
    /// The record data.
    pub rdata: Vec<u8>,
}

/// What a resource record holds.
pub struct AnswerView {
    pub name: Seq<Seq<char>>,
    pub rtype: RecordTypeView,
    pub class: u16,
    pub ttl: u32,
    pub rdata: Seq<u8>,
}

impl AnswerView {
    /// The record on the wire: name, kind, class, time to live, the length
    /// of the data in two bytes, the data.
    pub open spec fn wire(self) -> Seq<u8> {
        name_wire(self.name) + be16(self.rtype.code() as u16) + be16(self.class) + be32(self.ttl)
            + be16((self.rdata.len() % 0x1_0000) as u16) + self.rdata
    }

    /// The record after `rtype` was attached: nothing changes without a
    /// kind; with one, the kind is taken, and its data where it has any.
    pub open spec fn record(self, rtype: Option<RecordTypeView>) -> AnswerView {
        match rtype {
            None => self,
            Some(kind) => AnswerView {
                rtype: kind,
                rdata: match kind.rdata() {
                    Some(data) => data,
                    None => self.rdata,
                },
                ..self
            },
        }
    }
}

impl View for DnsAnswer {
    type V = AnswerView;

    open spec fn view(&self) -> AnswerView {
        AnswerView {
            name: views(self.name@),
            rtype: self.rtype@,
            class: self.class,
            ttl: self.ttl,
            rdata: self.rdata@,
        }
    }
}

impl Clone for DnsAnswer {
    fn clone(&self) -> (r: Self)
        ensures
            r@ == self@,
    {
        DnsAnswer {
            name: clone_names(&self.name),
            rtype: self.rtype.clone(),
            class: self.class,
            ttl: self.ttl,
            rdata: clone_bytes(&self.rdata),
        }
    }
}

impl DnsAnswer {
    /// A record of kind A and class 1 (Internet), with no name, no data and
    /// a time to live of zero.
    pub fn default() -> (r: Self)
        ensures
            r@ == (AnswerView {
                name: Seq::empty(),
                rtype: RecordTypeView::A(None),
                class: 1,
                ttl: 0,
                rdata: Seq::empty(),
            }),
    {
        let r = DnsAnswer {
            name: Vec::new(),
            rtype: DnsRecordType::A(None),
            class: 1,
            ttl: 0,
            rdata: Vec::new(),
        };
        assert(views(r.name@) =~= Seq::empty());
        assert(r.rdata@ =~= Seq::empty());
        r
    }

    /// Sets the name of the record.
    pub fn name(self, name: Vec<String>) -> (r: Self)
        ensures
            r@ == (AnswerView { name: views(name@), ..self@ }),
    {
        let mut out = self;
        out.name = name;
        out
    }

    /// Sets the class of the record.
    pub fn class(self, class: u16) -> (r: Self)
        ensures
            r@ == (AnswerView { class, ..self@ }),
    {
        let mut out = self;
        out.class = class;
        out
    }

    /// Sets the time to live of the record.
    pub fn ttl(self, ttl: u32) -> (r: Self)
        ensures
            r@ == (AnswerView { ttl, ..self@ }),
    {
        let mut out = self;
        out.ttl = ttl;
        out
    }

    /// Attaches a record kind and, where the kind carries data, its data.
    pub fn record(self, r_type: Option<DnsRecordType>) -> (r: Self)
        ensures
            r@ == self@.record(option_view(r_type)),
    {
        let r_type = match r_type {
            Some(val) => val,
            None => return self,
        };
        let mut out = self;
        let (_, rdata) = r_type.to_byte();
        out.rtype = r_type;
        if let Some(val) = rdata {
            out.rdata = val;
        }
        out
    }

    /// The record in wire form.
    pub fn build(&self) -> (bytes: Vec<u8>)
        ensures
            bytes@ == self@.wire(),
    {
        let mut result: Vec<u8> = domain_list_to_bytes(&self.name);
        push_u16(&mut result, self.rtype.to_byte().0 as u16);
        push_u16(&mut result, self.class);
        push_u32(&mut result, self.ttl);
        push_u16(&mut result, (self.rdata.len() % 0x1_0000) as u16);
        push_bytes(&mut result, &self.rdata);
        result
    }
}

/// A decoded DNS query.
#[derive(PartialEq, Debug)]
pub struct DnsQuery {
    /// The header of the query.
    pub header: DnsHeader,
    /// The questions that the sender asks.
    pub questions: Vec<DnsQuestion>,
}

/// What a query holds.
pub struct QueryView {
    pub header: DnsHeader,
    pub questions: Seq<QuestionView>,
}

impl View for DnsQuery {
    type V = QueryView;

    open spec fn view(&self) -> QueryView {
        QueryView { header: self.header, questions: views(self.questions@) }
    }
}

/// A DNS response.
#[derive(Debug)]
pub struct DnsResponse {
    /// The header of the response.
    pub header: DnsHeader,
    /// The questions that the sender asked.
    pub questions: Vec<DnsQuestion>,
    /// The answers to those questions.
    pub answers: Vec<DnsAnswer>,
    /// Authority records, given to queries that do not ask for recursion.
    pub authority_records: Vec<DnsAnswer>,
    /// Additional records.
    pub additional_records: Vec<DnsAnswer>,
}

/// What a response holds.
pub struct ResponseView {
    pub header: DnsHeader,
    pub questions: Seq<QuestionView>,
    pub answers: Seq<AnswerView>,
    pub authority_records: Seq<AnswerView>,
    pub additional_records: Seq<AnswerView>,
}

/// Questions on the wire, one after the other.
pub open spec fn questions_wire(questions: Seq<QuestionView>) -> Seq<u8>
    decreases questions.len(),
{
    if questions.len() == 0 {
        Seq::empty()
    } else {
        questions[0].wire() + questions_wire(questions.drop_first())
    }
}

/// Resource records on the wire, one after the other.
pub open spec fn answers_wire(answers: Seq<AnswerView>) -> Seq<u8>
    decreases answers.len(),
{
    if answers.len() == 0 {
        Seq::empty()
    } else {
        answers[0].wire() + answers_wire(answers.drop_first())
    }
}

/// The wire form of a list of questions grows at its end as the list does.
pub proof fn lemma_questions_wire_push(questions: Seq<QuestionView>, question: QuestionView)
    ensures
        questions_wire(questions.push(question)) == questions_wire(questions) + question.wire(),
    decreases questions.len(),
{
    if questions.len() == 0 {
        assert(questions.push(question).drop_first() =~= questions);
    } else {
        lemma_questions_wire_push(questions.drop_first(), question);
        assert(questions.push(question).drop_first() =~= questions.drop_first().push(question));
    }
    assert(questions_wire(questions.push(question)) =~= questions_wire(questions)
        + question.wire());
}

/// The wire form of a list of records grows at its end as the list does.
pub proof fn lemma_answers_wire_push(answers: Seq<AnswerView>, answer: AnswerView)
    ensures
        answers_wire(answers.push(answer)) == answers_wire(answers) + answer.wire(),
    decreases answers.len(),
{
    if answers.len() == 0 {
        assert(answers.push(answer).drop_first() =~= answers);
    } else {
        lemma_answers_wire_push(answers.drop_first(), answer);
        assert(answers.push(answer).drop_first() =~= answers.drop_first().push(answer));
    }
    assert(answers_wire(answers.push(answer)) =~= answers_wire(answers) + answer.wire());
}

impl ResponseView {
    /// What follows the header: every question, answer, authority record
    /// and additional record, in that order.
    pub open spec fn body(self) -> Seq<u8> {
        questions_wire(self.questions) + answers_wire(self.answers) + answers_wire(
            self.authority_records,
        ) + answers_wire(self.additional_records)
    }

    /// The message without a length prefix: the header, then the body.
    pub open spec fn payload(self) -> Seq<u8> {
        self.header.wire() + self.body()
    }

    /// The message as it is sent: over TCP the payload follows its length
    /// in two bytes, over UDP it stands alone.
    pub open spec fn wire(self, tcp: bool) -> Seq<u8> {
        if tcp {
            be16((self.payload().len() % 0x1_0000) as u16) + self.payload()
        } else {
            self.payload()
        }
    }

    /// Each count of the header is the length of its section.
    pub open spec fn counts_agree(self) -> bool {
        &&& self.header.qd_count == self.questions.len()
        &&& self.header.an_count == self.answers.len()
        &&& self.header.ns_count == self.authority_records.len()
        &&& self.header.ar_count == self.additional_records.len()
    }
}

impl View for DnsResponse {
    type V = ResponseView;

    open spec fn view(&self) -> ResponseView {
        ResponseView {
            header: self.header,
            questions: views(self.questions@),
            answers: views(self.answers@),
            authority_records: views(self.authority_records@),
            additional_records: views(self.additional_records@),
        }
    }
}

/// Appends the wire form of each record of `records` to `out`.
fn push_answers(out: &mut Vec<u8>, records: &Vec<DnsAnswer>)
    ensures
        final(out)@ == old(out)@ + answers_wire(views(records@)),
{
    let mut i: usize = 0;
    assert(views(records@).take(0) =~= Seq::empty());
    while i < records.len()
        invariant
            i <= records.len(),
            out@ == old(out)@ + answers_wire(views(records@).take(i as int)),
        decreases records.len() - i,
    {
        let bytes = records[i].build();
        proof {
            lemma_answers_wire_push(views(records@).take(i as int), records@[i as int]@);
            assert(views(records@).take(i as int).push(records@[i as int]@) =~= views(
                records@,
            ).take(i + 1));
        }
        push_bytes(out, &bytes);
        i += 1;
        assert(out@ =~= old(out)@ + answers_wire(views(records@).take(i as int)));
    }
    assert(views(records@).take(i as int) =~= views(records@));
}

/// Appends the wire form of each question of `questions` to `out`.
fn push_questions(out: &mut Vec<u8>, questions: &Vec<DnsQuestion>)
    ensures
        final(out)@ == old(out)@ + questions_wire(views(questions@)),
{
    let mut i: usize = 0;
    assert(views(questions@).take(0) =~= Seq::empty());
    while i < questions.len()
        invariant
            i <= questions.len(),
            out@ == old(out)@ + questions_wire(views(questions@).take(i as int)),
        decreases questions.len() - i,
    {
        let bytes = questions[i].build();
        proof {
            lemma_questions_wire_push(views(questions@).take(i as int), questions@[i as int]@);
            assert(views(questions@).take(i as int).push(questions@[i as int]@) =~= views(
                questions@,
            ).take(i + 1));
        }
        push_bytes(out, &bytes);
        i += 1;
        assert(out@ =~= old(out)@ + questions_wire(views(questions@).take(i as int)));
    }
    assert(views(questions@).take(i as int) =~= views(questions@));
}

impl DnsResponse {
    /// An empty response: the response bit, recursion desired and recursion
    /// available are set, every other flag is clear, every count is zero.
    pub fn default() -> (r: Self)
        ensures
            r@ == (ResponseView {
                header: DnsHeader {
                    id: 0,
                    qr: true,
                    opcode: 0,
                    aa: false,
                    tc: false,
                    rd: true,
                    ra: true,
                    z: 0,
                    rcode: DnsResponseCode::NoError,
                    qd_count: 0,
                    an_count: 0,
                    ns_count: 0,
                    ar_count: 0,
                },
                questions: Seq::empty(),
                answers: Seq::empty(),
                authority_records: Seq::empty(),
                additional_records: Seq::empty(),
            }),
            r@.counts_agree(),
    {
        let header = DnsHeader {
            id: 0,
            qr: true,
            opcode: 0,
            aa: false,
            tc: false,
            rd: true,
            ra: true,
            z: 0,
            rcode: DnsResponseCode::NoError,
            qd_count: 0,
            an_count: 0,
            ns_count: 0,
            ar_count: 0,
        };
        let r = DnsResponse {
            header: header,
            questions: Vec::new(),
            answers: Vec::new(),
            authority_records: Vec::new(),
            additional_records: Vec::new(),
        };
        assert(views(r.questions@) =~= Seq::empty());
        assert(views(r.answers@) =~= Seq::empty());
        assert(views(r.authority_records@) =~= Seq::empty());
        assert(views(r.additional_records@) =~= Seq::empty());
        r
    }

    /// Sets the identifier of the response.
    pub fn id(self, id: u16) -> (r: Self)
        ensures
            r@ == (ResponseView { header: DnsHeader { id, ..self@.header }, ..self@ }),
            self@.counts_agree() ==> r@.counts_agree(),
    {
        let mut out = self;
        out.header.id = id;
        out
    }

    /// Sets the recursion-desired flag of the response.
    pub fn rd(self, rd: bool) -> (r: Self)
        ensures
            r@ == (ResponseView { header: DnsHeader { rd, ..self@.header }, ..self@ }),
            self@.counts_agree() ==> r@.counts_agree(),
    {
        let mut out = self;
        out.header.rd = rd;
        out
    }

    /// Sets the opcode of the response.
    pub fn opcode(self, opcode: u8) -> (r: Self)
        ensures
            r@ == (ResponseView { header: DnsHeader { opcode, ..self@.header }, ..self@ }),
            self@.counts_agree() ==> r@.counts_agree(),
    {
        let mut out = self;
        out.header.opcode = opcode;
        out
    }

    /// Sets the response code.
    pub fn rcode(self, rcode: DnsResponseCode) -> (r: Self)
        ensures
            r@ == (ResponseView { header: DnsHeader { rcode, ..self@.header }, ..self@ }),
            self@.counts_agree() ==> r@.counts_agree(),
    {
        let mut out = self;
        out.header.rcode = rcode;
        out
    }

    /// Sets the count of additional records in the header. The list of
    /// additional records stays as it is.
    pub fn ar_count(self, ar_count: u16) -> (r: Self)
        ensures
            r@ == (ResponseView { header: DnsHeader { ar_count, ..self@.header }, ..self@ }),
    {
        let mut out = self;
        out.header.ar_count = ar_count;
        out
    }

    /// Appends an answer and counts it.
    pub fn add_answer(self, answer: DnsAnswer) -> (r: Self)
        requires
            self.header.an_count < u16::MAX,
        ensures
            r@ == (ResponseView {
                header: DnsHeader {
                    an_count: (self.header.an_count + 1) as u16,
                    ..self@.header
                },
                answers: self@.answers.push(answer@),
                ..self@
            }),
            self@.counts_agree() ==> r@.counts_agree(),
    {
        let mut out = self;
        proof {
            lemma_views_push(out.answers@, answer);
        }
        out.answers.push(answer);
        out.header.an_count += 1;
        out
    }

    /// Appends a question and counts it.
    pub fn add_question(self, question: DnsQuestion) -> (r: Self)
        requires
            self.header.qd_count < u16::MAX,
        ensures
            r@ == (ResponseView {
                header: DnsHeader {
                    qd_count: (self.header.qd_count + 1) as u16,
                    ..self@.header
                },
                questions: self@.questions.push(question@),
                ..self@
            }),
            self@.counts_agree() ==> r@.counts_agree(),
    {
        let mut out = self;
        proof {
            lemma_views_push(out.questions@, question);
        }
        out.questions.push(question);
        out.header.qd_count += 1;
        out
    }

    /// Appends an authority record and counts it.
    pub fn add_auth_record(self, auth_record: DnsAnswer) -> (r: Self)
        requires
            self.header.ns_count < u16::MAX,
        ensures
            r@ == (ResponseView {
                header: DnsHeader {
                    ns_count: (self.header.ns_count + 1) as u16,
                    ..self@.header
                },
                authority_records: self@.authority_records.push(auth_record@),
                ..self@
            }),
            self@.counts_agree() ==> r@.counts_agree(),
    {
        let mut out = self;
        proof {
            lemma_views_push(out.authority_records@, auth_record);
        }
        out.authority_records.push(auth_record);
        out.header.ns_count += 1;
        out
    }

    /// The response in wire form, behind its length if `tcp` is set.
    pub fn build(&self, tcp: bool) -> (bytes: Vec<u8>)
        ensures
            bytes@ == self@.wire(tcp),
    {
        let mut result: Vec<u8> = self.header.build();
        push_questions(&mut result, &self.questions);
        push_answers(&mut result, &self.answers);
        push_answers(&mut result, &self.authority_records);
        push_answers(&mut result, &self.additional_records);
        assert(result@ =~= self@.payload());
        if !tcp {
            return result;
        }
        let mut len_result: Vec<u8> = Vec::new();
        push_u16(&mut len_result, (result.len() % 0x1_0000) as u16);
        push_bytes(&mut len_result, &result);
        assert(len_result@ =~= self@.wire(tcp));
        len_result
    }
}

} // verus!
