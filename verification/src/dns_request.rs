//! The DNS message codec: queries are decoded from bytes and responses are
//! encoded to bytes, both in the uncompressed wire format.

use vstd::prelude::*;
use crate::text::push_char;
use crate::views::{lemma_views_push, views};

pub mod laws;
pub mod structs;
pub mod wire;

pub use structs::{
    domain_list_to_bytes, AnswerView, AuthRecordView, DnsAnswer, DnsAuthRecord, DnsHeader, DnsQuery,
    DnsQuestion, DnsRecordType, DnsResponse, DnsResponseCode, QueryView, QuestionView,
    RecordTypeView, ResponseView,
};
use wire::{read_u16, tail, u16_at};

verus! {

/// The characters that the bytes of a label stand for: one per byte, with
/// the byte as its code point.
pub open spec fn label_chars(bytes: Seq<u8>) -> Seq<char> {
    Seq::new(bytes.len(), |i: int| bytes[i] as char)
}

/// The header that the first twelve bytes of a message spell.
pub open spec fn header_of(bytes: Seq<u8>) -> DnsHeader {
    DnsHeader {
        id: u16_at(bytes, 0),
        qr: (bytes[2] & 0x80) >> 7u8 != 0,
        opcode: (bytes[2] & 0x78) >> 3u8,
        aa: (bytes[2] & 0x04) >> 2u8 != 0,
        tc: (bytes[2] & 0x02) >> 1u8 != 0,
        rd: (bytes[2] & 0x01) != 0,
        ra: (bytes[3] & 0x80) >> 7u8 != 0,
        z: (bytes[3] & 0x70) >> 4u8,
        rcode: DnsResponseCode::of_code(bytes[3] & 0x0f),
        qd_count: u16_at(bytes, 4),
        an_count: u16_at(bytes, 6),
        ns_count: u16_at(bytes, 8),
        ar_count: u16_at(bytes, 10),
    }
}

/// The name at the start of `bytes`, with the number of bytes that it
/// takes, its closing zero byte included. There is none where `bytes` ends
/// before the zero byte does, or in the middle of a label.
pub open spec fn name_of(bytes: Seq<u8>) -> Option<(Seq<Seq<char>>, int)>
    decreases bytes.len(),
{
    if bytes.len() == 0 {
        None
    } else if bytes[0] == 0 {
        Some((Seq::empty(), 1))
    } else if bytes.len() < 1 + bytes[0] {
        None
    } else {
        match name_of(bytes.skip(1 + bytes[0])) {
            None => None,
            Some((rest, used)) => Some(
                (seq![label_chars(bytes.subrange(1, 1 + bytes[0]))] + rest, 1 + bytes[0] + used),
            ),
        }
    }
}

/// A name takes at least its closing byte, and no more than there is.
pub proof fn lemma_name_of_used(bytes: Seq<u8>)
    ensures
        name_of(bytes) matches Some((_, used)) ==> 1 <= used <= bytes.len(),
    decreases bytes.len(),
{
    if bytes.len() > 0 && bytes[0] != 0 && bytes.len() >= 1 + bytes[0] {
        lemma_name_of_used(bytes.skip(1 + bytes[0]));
    }
}

/// The question at the start of `bytes`, with the bytes behind it: a name,
/// then two bytes of type and two of class. A type above 255 is the code
/// of no kind: the question is of a kind that is not implemented.
pub open spec fn question_of(bytes: Seq<u8>) -> Option<(QuestionView, Seq<u8>)> {
    match name_of(bytes) {
        None => None,
        Some((qname, used)) => if bytes.len() < used + 4 {
            None
        } else {
            Some(
                (
                    QuestionView {
                        qname,
                        qtype: RecordTypeView::of_type(u16_at(bytes, used)),
                        qclass: u16_at(bytes, used + 2),
                    },
                    bytes.skip(used + 4),
                ),
            )
        },
    }
}

/// The questions that `bytes` holds from its start to its end.
pub open spec fn questions_of(bytes: Seq<u8>) -> Option<Seq<QuestionView>>
    decreases bytes.len(),
    via questions_of_decreases
{
    if bytes.len() == 0 {
        Some(Seq::empty())
    } else {
        match question_of(bytes) {
            None => None,
            Some((question, rest)) => match questions_of(rest) {
                None => None,
                Some(more) => Some(seq![question] + more),
            },
        }
    }
}

#[via_fn]
proof fn questions_of_decreases(bytes: Seq<u8>) {
    lemma_name_of_used(bytes);
}

/// The query that a message without length prefix holds: a header of
/// twelve bytes, then questions to the end of the message. The counts of
/// the header are not held against what follows.
pub open spec fn message_of(bytes: Seq<u8>) -> Option<QueryView> {
    if bytes.len() < 12 {
        None
    } else {
        match questions_of(bytes.skip(12)) {
            None => None,
            Some(questions) => Some(QueryView { header: header_of(bytes), questions }),
        }
    }
}

/// The query that `bytes` holds. Over TCP the message stands behind two
/// bytes of length, which are skipped whatever they say.
pub open spec fn query_of(bytes: Seq<u8>, tcp: bool) -> Option<QueryView> {
    if tcp {
        if bytes.len() < 2 {
            None
        } else {
            message_of(bytes.skip(2))
        }
    } else {
        message_of(bytes)
    }
}

/// The bytes that are left of a message: none is written as `None`.
pub open spec fn rest_view(rest: Option<Vec<u8>>) -> Seq<u8> {
    match rest {
        Some(bytes) => bytes@,
        None => Seq::empty(),
    }
}

/// The bytes of `buffer` from `from` on, `None` if there are none.
fn remaining(buffer: &Vec<u8>, from: usize) -> (r: Option<Vec<u8>>)
    requires
        from <= buffer.len(),
    ensures
        rest_view(r) == buffer@.skip(from as int),
        r is None <==> from == buffer.len(),
{
    if from < buffer.len() {
        Some(tail(buffer, from))
    } else {
        assert(buffer@.skip(from as int) =~= Seq::empty());
        None
    }
}

/// Decodes the header at the start of `buffer` and hands back what is left
/// behind it. A buffer of fewer than twelve bytes holds no header.
pub fn parse_header(buffer: &Vec<u8>) -> (r: Option<(DnsHeader, Option<Vec<u8>>)>)
    ensures
        r is None <==> buffer@.len() < 12,
        r matches Some((header, rest)) ==> {
            &&& header == header_of(buffer@)
            &&& rest_view(rest) == buffer@.skip(12)
            &&& rest is None <==> buffer@.len() == 12
        },
{
    if buffer.len() < 12 {
        return None;
    }
    let id = read_u16(buffer, 0);

    let qr = ((buffer[2] & 0x80) >> 7u8) != 0;
    let opcode = (buffer[2] & 0x78) >> 3u8;
    let aa = ((buffer[2] & 0x04) >> 2u8) != 0;
    let tc = ((buffer[2] & 0x02) >> 1u8) != 0;
    let rd = (buffer[2] & 0x01) != 0;

    let ra = ((buffer[3] & 0x80) >> 7u8) != 0;
    let z = (buffer[3] & 0x70) >> 4u8;
    let rcode = buffer[3] & 0x0f;

    let qd_count = read_u16(buffer, 4);
    let an_count = read_u16(buffer, 6);
    let ns_count = read_u16(buffer, 8);
    let ar_count = read_u16(buffer, 10);

    let header = DnsHeader {
        id: id,
        qr: qr,
        opcode: opcode,
        aa: aa,
        tc: tc,
        rd: rd,
        ra: ra,
        z: z,
        rcode: DnsResponseCode::from_byte(rcode),
        qd_count: qd_count,
        an_count: an_count,
        ns_count: ns_count,
        ar_count: ar_count,
    };
    Some((header, remaining(buffer, 12)))
}

/// What `name_of` finds in the whole of `bytes`, once the labels `done` have
/// been read and the name goes on at index `at`.
spec fn name_from(bytes: Seq<u8>, done: Seq<Seq<char>>, at: int) -> Option<
    (Seq<Seq<char>>, int),
> {
    match name_of(bytes.skip(at)) {
        None => None,
        Some((rest, used)) => Some((done + rest, at + used)),
    }
}

/// Decodes the question at the start of `buffer` and hands back what is
/// left behind it. There is no question where the name is cut short or
/// fewer than four bytes follow it.
pub fn parse_question(buffer: &Vec<u8>) -> (r: Option<(DnsQuestion, Option<Vec<u8>>)>)
    ensures
        r is None <==> question_of(buffer@) is None,
        r matches Some((question, rest)) ==> {
            &&& question_of(buffer@) == Some((question@, rest_view(rest)))
            &&& rest matches Some(bytes) ==> bytes@.len() > 0
        },
{
    let mut domains: Vec<String> = Vec::new();
    let mut i: usize = 0;
    let mut closed = false;
    proof {
        assert(buffer@.skip(0) =~= buffer@);
        assert(views(domains@) =~= Seq::empty());
        assert forall|rest: Seq<Seq<char>>| #[trigger] (views(domains@) + rest) == rest by {
            assert(views(domains@) + rest =~= rest);
        }
    }
    while i < buffer.len() && !closed
        invariant
            i <= buffer.len(),
            !closed ==> name_of(buffer@) == name_from(buffer@, views(domains@), i as int),
            closed ==> name_of(buffer@) == Some((views(domains@), i as int)),
        decreases buffer.len() - i + (if closed { 0int } else { 1int }),
    {
        let name_len = buffer[i] as usize;
        let ghost here = buffer@.skip(i as int);
        assert(here.len() == buffer@.len() - i);
        assert(here[0] == buffer@[i as int]);
        if name_len == 0 {
            i += 1;
            closed = true;
            assert(views(domains@) + Seq::<Seq<char>>::empty() =~= views(domains@));
        } else {
            if name_len > buffer.len() - i - 1 {
                return None;
            }
            let mut name = String::new();
            let mut j: usize = 0;
            while j < name_len
                invariant
                    j <= name_len,
                    i + 1 + name_len <= buffer.len(),
                    name@ == label_chars(buffer@.subrange(i + 1, i + 1 + j)),
                decreases name_len - j,
            {
                push_char(&mut name, buffer[i + 1 + j] as char);
                j += 1;
                assert(name@ =~= label_chars(buffer@.subrange(i + 1, i + 1 + j)));
            }
            proof {
                let label = label_chars(here.subrange(1, 1 + name_len));
                assert(here.subrange(1, 1 + name_len) =~= buffer@.subrange(
                    i + 1,
                    i + 1 + name_len,
                ));
                assert(here.skip(1 + name_len) =~= buffer@.skip(i + 1 + name_len));
                lemma_views_push(domains@, name);
                assert forall|rest: Seq<Seq<char>>| #[trigger]
                    (views(domains@) + (seq![label] + rest)) == views(domains@).push(label)
                        + rest by {
                    assert(views(domains@) + (seq![label] + rest) =~= views(domains@).push(label)
                        + rest);
                }
            }
            domains.push(name);
            i = i + 1 + name_len;
        }
    }
    if !closed {
        assert(buffer@.skip(i as int) =~= Seq::empty());
        return None;
    }
    if buffer.len() - i < 4 {
        return None;
    }
    let qtype = read_u16(buffer, i);
    let qclass = read_u16(buffer, i + 2);
    let question = DnsQuestion {
        qname: domains,
        qtype: DnsRecordType::from_type(qtype),
        qclass: qclass,
    };
    Some((question, remaining(buffer, i + 4)))
}

/// Decodes a query. Over TCP (`tcp` set) the two bytes of length in front
/// are skipped. The result is `None` where the buffer holds no whole header
/// or a question is cut short.
pub fn parse_query(buffer: &Vec<u8>, tcp: bool) -> (r: Option<DnsQuery>)
    ensures
        r is None <==> query_of(buffer@, tcp) is None,
        r matches Some(query) ==> query_of(buffer@, tcp) == Some(query@),
{
    let message: Vec<u8>;
    if tcp {
        if buffer.len() < 2 {
            return None;
        }
        message = tail(buffer, 2);
    } else {
        message = tail(buffer, 0);
        assert(buffer@.skip(0) =~= buffer@);
    }
    let (header, first) = match parse_header(&message) {
        Some(val) => val,
        None => {
            return None;
        },
    };
    let mut questions: Vec<DnsQuestion> = Vec::new();
    let mut rest: Option<Vec<u8>> = first;
    let ghost body = message@.skip(12);
    proof {
        assert(views(questions@) =~= Seq::empty());
        if questions_of(body) is Some {
            assert(views(questions@) + questions_of(body).unwrap() =~= questions_of(
                body,
            ).unwrap());
        }
    }
    loop
        invariant
            query_of(buffer@, tcp) is None <==> questions_of(body) is None,
            rest matches Some(bytes) ==> bytes@.len() > 0,
            questions_of(body) == (match questions_of(rest_view(rest)) {
                None => None::<Seq<QuestionView>>,
                Some(more) => Some(views(questions@) + more),
            }),
        ensures
            questions_of(body) == Some(views(questions@)),
        decreases rest_view(rest).len(),
    {
        let new_buffer = match rest {
            Some(bytes) => bytes,
            None => {
                assert(views(questions@) + Seq::<QuestionView>::empty() =~= views(questions@));
                break ;
            },
        };
        let (question, after) = match parse_question(&new_buffer) {
            Some(val) => val,
            None => {
                return None;
            },
        };
        proof {
            lemma_name_of_used(new_buffer@);
            lemma_views_push(questions@, question);
            if questions_of(rest_view(after)) is Some {
                let more = questions_of(rest_view(after)).unwrap();
                assert(views(questions@) + (seq![question@] + more) =~= views(questions@).push(
                    question@,
                ) + more);
            }
        }
        questions.push(question);
        rest = after;
    }
    Some(DnsQuery { header: header, questions: questions })
}

} // verus!
