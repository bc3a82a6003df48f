//! What holds between the encoder and the decoder.

use vstd::prelude::*;
use vstd::utf8::{encode_utf8, is_ascii_chars, is_ascii_chars_encode_utf8};
use crate::dns_request::structs::{
    bit, label_wire, name_wire, questions_wire, DnsHeader, DnsResponseCode, QueryView,
    QuestionView, RecordTypeView, ResponseView,
};
use crate::dns_request::wire::{be16, lemma_be16_round_trip, u16_at};
use crate::dns_request::{
    header_of, label_chars, name_of, query_of, question_of, questions_of,
};

verus! {

/// A label as a name may hold it: 1 to 63 ASCII characters.
pub open spec fn valid_label(label: Seq<char>) -> bool {
    1 <= label.len() <= 63 && is_ascii_chars(label)
}

/// A name of which every label is valid.
pub open spec fn valid_name(name: Seq<Seq<char>>) -> bool {
    forall|i: int| 0 <= i < name.len() ==> valid_label(#[trigger] name[i])
}

/// A question as the decoder gives it: a valid name, and a kind that
/// carries no data and goes by its own code.
pub open spec fn plain_question(question: QuestionView) -> bool {
    valid_name(question.qname) && question.qtype == RecordTypeView::of_code(question.qtype.code())
}

/// A query that the encoder and the decoder agree on: the header is in
/// range and every question is plain.
pub open spec fn plain_query(query: QueryView) -> bool {
    &&& query.header.in_range()
    &&& forall|i: int| 0 <= i < query.questions.len() ==> plain_question(#[trigger] query.questions[i])
}

/// The response that echoes a query: its header and its questions, and no
/// record.
pub open spec fn echo(query: QueryView) -> ResponseView {
    ResponseView {
        header: query.header,
        questions: query.questions,
        answers: Seq::empty(),
        authority_records: Seq::empty(),
        additional_records: Seq::empty(),
    }
}

/// Every response code comes back from its number.
pub proof fn law_response_code_round_trip(code: DnsResponseCode)
    ensures
        DnsResponseCode::of_code(code.code()) == code,
        code.code() <= 5,
{
}

/// Every code of a record kind comes back from the kind that it stands
/// for: a question is echoed with the code that it came with, whether the
/// kind is known or not.
pub proof fn law_record_code_round_trip(byte: u8)
    ensures
        RecordTypeView::of_code(byte).code() == byte,
        RecordTypeView::of_code(RecordTypeView::of_code(byte).code()) == RecordTypeView::of_code(
            byte,
        ),
        RecordTypeView::of_type(byte as u16) == RecordTypeView::of_code(byte),
{
}

/// No type above 255 is taken for a kind that is known: a question of
/// such a type is of a kind that is not implemented, whatever the low byte
/// of the type is.
pub proof fn law_wide_type_is_not_implemented(qtype: u16)
    requires
        qtype > 255,
    ensures
        RecordTypeView::of_type(qtype) is NotImplemented,
        RecordTypeView::of_type(qtype).code() == qtype % 256,
{
}

proof fn lemma_flags_hi(rd: u8, tc: u8, aa: u8, opcode: u8, qr: u8, x: u8)
    by (bit_vector)
    requires
        rd <= 1,
        tc <= 1,
        aa <= 1,
        qr <= 1,
        opcode < 16,
        x == rd | (tc << 1u8) | (aa << 2u8) | (opcode << 3u8) | (qr << 7u8),
    ensures
        (x & 0x80) >> 7u8 == qr,
        (x & 0x78) >> 3u8 == opcode,
        (x & 0x04) >> 2u8 == aa,
        (x & 0x02) >> 1u8 == tc,
        (x & 0x01) == rd,
{
}

proof fn lemma_flags_lo(rcode: u8, z: u8, ra: u8, x: u8)
    by (bit_vector)
    requires
        ra <= 1,
        z < 8,
        rcode < 16,
        x == rcode | (z << 4u8) | (ra << 7u8),
    ensures
        (x & 0x80) >> 7u8 == ra,
        (x & 0x70) >> 4u8 == z,
        (x & 0x0f) == rcode,
{
}

/// Decoding the bytes of a header gives the header back, whatever follows
/// them, if its opcode fits four bits and its reserved field three.
pub proof fn lemma_header_round_trip(header: DnsHeader, rest: Seq<u8>)
    requires
        header.in_range(),
    ensures
        header.wire().len() == 12,
        header_of(header.wire() + rest) == header,
{
    let bytes = header.wire() + rest;
    lemma_flags_hi(
        bit(header.rd),
        bit(header.tc),
        bit(header.aa),
        header.opcode,
        bit(header.qr),
        header.flags_hi(),
    );
    lemma_flags_lo(header.rcode.code(), header.z, bit(header.ra), header.flags_lo());
    assert(bytes[2] == header.flags_hi());
    assert(bytes[3] == header.flags_lo());
    assert(u16_at(bytes, 0) == header.id);
    assert(u16_at(bytes, 4) == header.qd_count);
    assert(u16_at(bytes, 6) == header.an_count);
    assert(u16_at(bytes, 8) == header.ns_count);
    assert(u16_at(bytes, 10) == header.ar_count);
    assert(DnsResponseCode::of_code(header.rcode.code()) == header.rcode);
}

/// Header round trip: decoding the twelve bytes that a header is encoded
/// to gives the same header, for every header whose opcode is below 16 and
/// whose reserved field is below 8.
pub proof fn law_header_round_trip(header: DnsHeader)
    requires
        header.in_range(),
    ensures
        header_of(header.wire()) == header,
{
    lemma_header_round_trip(header, Seq::empty());
    assert(header.wire() + Seq::<u8>::empty() =~= header.wire());
}

/// The bytes of a valid label spell the label.
pub proof fn lemma_label_round_trip(label: Seq<char>)
    requires
        valid_label(label),
    ensures
        label_wire(label).len() == 1 + label.len(),
        label_wire(label)[0] == label.len(),
        label_chars(label_wire(label).skip(1)) == label,
{
    is_ascii_chars_encode_utf8(label);
    let bytes = encode_utf8(label);
    assert(label_wire(label).skip(1) =~= bytes);
    assert forall|i: int| 0 <= i < label.len() implies label_chars(bytes)[i] == label[i] by {
        assert(bytes[i] == label[i] as u8);
        assert('\0' <= label[i] <= '\u{7f}');
    }
    assert(label_chars(bytes) =~= label);
}

/// Decoding the bytes of a valid name gives the name back, whatever
/// follows them.
pub proof fn lemma_name_round_trip(name: Seq<Seq<char>>, rest: Seq<u8>)
    requires
        valid_name(name),
    ensures
        name_of(name_wire(name) + rest) == Some((name, name_wire(name).len() as int)),
    decreases name.len(),
{
    let bytes = name_wire(name) + rest;
    if name.len() == 0 {
        assert(bytes[0] == 0);
    } else {
        let label = name[0];
        let others = name.drop_first();
        assert(valid_label(label));
        assert forall|i: int| 0 <= i < others.len() implies valid_label(#[trigger] others[i]) by {
            assert(others[i] == name[i + 1]);
        }
        lemma_label_round_trip(label);
        lemma_name_round_trip(others, rest);
        let first = label_wire(label);
        assert(bytes =~= first + (name_wire(others) + rest));
        assert(bytes[0] == first[0]);
        assert(bytes.skip(1 + bytes[0]) =~= name_wire(others) + rest);
        assert(bytes.subrange(1, 1 + bytes[0]) =~= first.skip(1));
        assert(seq![label] + others =~= name);
        assert(name_wire(name).len() == first.len() + name_wire(others).len());
    }
}

/// Name round trip: a name of labels that each hold 1 to 63 ASCII
/// characters, encoded to its length-prefixed form and decoded, comes back
/// as it was.
pub proof fn law_name_round_trip(name: Seq<Seq<char>>)
    requires
        valid_name(name),
    ensures
        name_of(name_wire(name)) == Some((name, name_wire(name).len() as int)),
{
    lemma_name_round_trip(name, Seq::empty());
    assert(name_wire(name) + Seq::<u8>::empty() =~= name_wire(name));
}

/// Decoding the bytes of a plain question gives the question back, and
/// leaves what follows them.
pub proof fn lemma_question_round_trip(question: QuestionView, rest: Seq<u8>)
    requires
        plain_question(question),
    ensures
        question.wire().len() >= 5,
        question_of(question.wire() + rest) == Some((question, rest)),
{
    let bytes = question.wire() + rest;
    let used = name_wire(question.qname).len() as int;
    let kind = be16(question.qtype.code() as u16);
    let class = be16(question.qclass);
    lemma_name_round_trip(question.qname, kind + class + rest);
    assert(bytes =~= name_wire(question.qname) + (kind + class + rest));
    assert(bytes[used] == kind[0]);
    assert(bytes[used + 1] == kind[1]);
    assert(bytes[used + 2] == class[0]);
    assert(bytes[used + 3] == class[1]);
    assert(u16_at(bytes, used) == question.qtype.code());
    assert(u16_at(bytes, used + 2) == question.qclass);
    assert(bytes.skip(used + 4) =~= rest);
}

/// Decoding the bytes of plain questions gives the questions back.
pub proof fn lemma_questions_round_trip(questions: Seq<QuestionView>)
    requires
        forall|i: int| 0 <= i < questions.len() ==> plain_question(#[trigger] questions[i]),
    ensures
        questions_of(questions_wire(questions)) == Some(questions),
    decreases questions.len(),
{
    if questions.len() > 0 {
        let first = questions[0];
        let others = questions.drop_first();
        assert(plain_question(first));
        assert forall|i: int| 0 <= i < others.len() implies plain_question(
            #[trigger] others[i],
        ) by {
            assert(others[i] == questions[i + 1]);
        }
        lemma_question_round_trip(first, questions_wire(others));
        lemma_questions_round_trip(others);
        assert(seq![first] + others =~= questions);
    } else {
        assert(questions =~= Seq::empty());
    }
}

/// A receiver finds the payload of a response behind the length prefix
/// over TCP, and at once over UDP.
pub proof fn lemma_payload_on_wire(response: ResponseView)
    ensures
        response.wire(true).len() >= 2,
        response.wire(true).skip(2) == response.payload(),
        response.wire(false) == response.payload(),
{
    let prefix = be16((response.payload().len() % 0x1_0000) as u16);
    assert(prefix.len() == 2);
    assert((prefix + response.payload()).skip(2) =~= response.payload());
}

/// Query round trip: a query whose header is in range and whose questions
/// are plain, sent as a response without records over TCP and decoded,
/// comes back as it was.
pub proof fn law_query_round_trip(query: QueryView)
    requires
        plain_query(query),
    ensures
        query_of(echo(query).wire(true), true) == Some(query),
{
    let payload = echo(query).payload();
    let body = questions_wire(query.questions);
    lemma_header_round_trip(query.header, body);
    lemma_questions_round_trip(query.questions);
    lemma_payload_on_wire(echo(query));
    assert(echo(query).body() =~= body);
    assert(payload.skip(12) =~= body);
}

/// The same without the length prefix, as a datagram carries it.
pub proof fn law_query_round_trip_udp(query: QueryView)
    requires
        plain_query(query),
    ensures
        query_of(echo(query).wire(false), false) == Some(query),
{
    let payload = echo(query).payload();
    let body = questions_wire(query.questions);
    lemma_header_round_trip(query.header, body);
    lemma_questions_round_trip(query.questions);
    assert(echo(query).body() =~= body);
    assert(payload.skip(12) =~= body);
}

/// The counts of a header come back from its bytes, whatever the flags
/// hold and whatever follows.
pub proof fn lemma_header_counts(header: DnsHeader, rest: Seq<u8>)
    ensures
        header_of(header.wire() + rest).qd_count == header.qd_count,
        header_of(header.wire() + rest).an_count == header.an_count,
        header_of(header.wire() + rest).ns_count == header.ns_count,
        header_of(header.wire() + rest).ar_count == header.ar_count,
{
    let bytes = header.wire() + rest;
    lemma_be16_round_trip(header.qd_count);
    lemma_be16_round_trip(header.an_count);
    lemma_be16_round_trip(header.ns_count);
    lemma_be16_round_trip(header.ar_count);
    assert(bytes[4] == be16(header.qd_count)[0] && bytes[5] == be16(header.qd_count)[1]);
    assert(bytes[6] == be16(header.an_count)[0] && bytes[7] == be16(header.an_count)[1]);
    assert(bytes[8] == be16(header.ns_count)[0] && bytes[9] == be16(header.ns_count)[1]);
    assert(bytes[10] == be16(header.ar_count)[0] && bytes[11] == be16(header.ar_count)[1]);
}

/// Counts agree on the wire: where each count of a response is the length
/// of its section, the header that a receiver decodes from the encoded
/// response counts the sections as they are.
pub proof fn law_counts_on_wire(response: ResponseView)
    requires
        response.counts_agree(),
    ensures
        header_of(response.payload()).qd_count == response.questions.len(),
        header_of(response.payload()).an_count == response.answers.len(),
        header_of(response.payload()).ns_count == response.authority_records.len(),
        header_of(response.payload()).ar_count == response.additional_records.len(),
{
    lemma_header_counts(response.header, response.body());
}

} // verus!
