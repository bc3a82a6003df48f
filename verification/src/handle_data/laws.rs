//! What holds of every response.

use vstd::prelude::*;
use crate::dns_request::structs::{
    AnswerView, QueryView, QuestionView, RecordTypeView, ResponseView,
};
use crate::dns_request::{name_of, query_of, question_of, questions_of, DnsResponseCode};
use crate::handle_data::{
    answer_question, answered, attach, countable, lemma_load_grows, lemma_with_txt_counts, load,
    lookup_name_of, record_at, request_of, response_of, skipped, with_question, with_rcode,
};

verus! {

proof fn lemma_flags(query: QueryView, records: Seq<Option<AnswerView>>, count: nat)
    ensures
        ({
            let header = answered(query, records, count).header;
            &&& header.id == query.header.id
            &&& header.rd == query.header.rd
            &&& header.qr
            &&& header.ra
            &&& !header.aa
            &&& !header.tc
            &&& header.opcode == 0
            &&& header.z == 0
            &&& header.ar_count == 0
            &&& header.rcode == DnsResponseCode::NoError || header.rcode == DnsResponseCode::NxDomain
            &&& !query.header.rd ==> header.rcode == DnsResponseCode::NxDomain
        }),
    decreases count,
{
    if count > 0 {
        lemma_flags(query, records, (count - 1) as nat);
        let before = answered(query, records, (count - 1) as nat);
        let question = query.questions[count - 1];
        lemma_with_txt_counts(with_question(before, question), question.qname, question.qname.len());
    }
}

/// Every response is marked as one: it carries the identifier and the
/// recursion-desired flag of its query, the response bit and the
/// recursion-available flag are set, it is neither authoritative nor
/// truncated, its opcode and its reserved bits are zero, and its code is
/// either no error or that the name does not exist, the latter for every
/// query that does not desire recursion.
pub proof fn law_response_flags(query: QueryView, records: Seq<Option<AnswerView>>)
    ensures
        ({
            let header = response_of(query, records).header;
            &&& header.id == query.header.id
            &&& header.rd == query.header.rd
            &&& header.qr
            &&& header.ra
            &&& !header.aa
            &&& !header.tc
            &&& header.opcode == 0
            &&& header.z == 0
            &&& header.in_range()
            &&& header.rcode == DnsResponseCode::NoError || header.rcode == DnsResponseCode::NxDomain
            &&& !query.header.rd ==> header.rcode == DnsResponseCode::NxDomain
        }),
{
    lemma_flags(query, records, query.questions.len());
}

/// A question for an address.
pub open spec fn asks_address(question: QuestionView) -> bool {
    question.qtype is A || question.qtype is AAAA
}

/// A record that bears the name of one of the questions.
pub open spec fn named_after(record: AnswerView, questions: Seq<QuestionView>) -> bool {
    exists|i: int| 0 <= i < questions.len() && #[trigger] questions[i].qname == record.name
}

proof fn lemma_counts(query: QueryView, records: Seq<Option<AnswerView>>, count: nat)
    requires
        count <= query.questions.len(),
        countable(query),
    ensures
        answered(query, records, count).counts_agree(),
        answered(query, records, count).header.qd_count <= load(query.questions, count),
        answered(query, records, count).header.an_count <= load(query.questions, count),
        answered(query, records, count).header.ns_count <= load(query.questions, count),
    decreases count,
{
    if count > 0 {
        let before = answered(query, records, (count - 1) as nat);
        let question = query.questions[count - 1];
        lemma_counts(query, records, (count - 1) as nat);
        lemma_load_grows(query.questions, count, query.questions.len());
        lemma_with_txt_counts(with_question(before, question), question.qname, question.qname.len());
    }
}

/// Counts agree: in the response to a query each count of the header is
/// the length of its section.
pub proof fn law_counts_agree(query: QueryView, records: Seq<Option<AnswerView>>)
    requires
        countable(query),
    ensures
        response_of(query, records).counts_agree(),
{
    lemma_counts(query, records, query.questions.len());
}

proof fn lemma_iterative(query: QueryView, records: Seq<Option<AnswerView>>, count: nat)
    requires
        count <= query.questions.len(),
        !query.header.rd,
        forall|i: int| 0 <= i < query.questions.len() ==> asks_address(#[trigger] query.questions[i]),
        forall|i: int|
            0 <= i < query.questions.len() ==> (#[trigger] record_at(records, i) matches Some(found)
                && found.rtype is SOA),
    ensures
        answered(query, records, count).answers.len() == 0,
        answered(query, records, count).authority_records.len() == count,
        forall|k: int|
            0 <= k < count ==> (#[trigger] answered(query, records, count).authority_records[k]).rtype is SOA,
        answered(query, records, count).header.rcode == DnsResponseCode::NxDomain,
    decreases count,
{
    if count > 0 {
        lemma_iterative(query, records, (count - 1) as nat);
        let before = answered(query, records, (count - 1) as nat);
        let question = query.questions[count - 1];
        assert(asks_address(question));
        assert(record_at(records, count - 1) is Some);
        let now = answered(query, records, count);
        assert forall|k: int| 0 <= k < count implies (#[trigger] now.authority_records[k]).rtype is SOA by {
            if k < count - 1 {
                assert(now.authority_records[k] == before.authority_records[k]);
            }
        }
    }
}

/// A query that does not desire recursion gets the start of authority:
/// where every question asks for an address, the record store is asked for
/// the start of authority each time; and where it gave such a record for
/// each question, the response holds no answer, one authority record for
/// each question, each of them a start of authority, and its code says
/// that the name does not exist.
pub proof fn law_iterative_gets_authority(query: QueryView, records: Seq<Option<AnswerView>>)
    requires
        !query.header.rd,
        forall|i: int| 0 <= i < query.questions.len() ==> asks_address(#[trigger] query.questions[i]),
        forall|i: int|
            0 <= i < query.questions.len() ==> (#[trigger] record_at(records, i) matches Some(found)
                && found.rtype is SOA),
    ensures
        response_of(query, records).answers.len() == 0,
        response_of(query, records).authority_records.len() == query.questions.len(),
        forall|k: int|
            0 <= k < query.questions.len() ==> (#[trigger] response_of(
                query,
                records,
            ).authority_records[k]).rtype is SOA,
        response_of(query, records).header.rcode == DnsResponseCode::NxDomain,
        forall|i: int|
            0 <= i < query.questions.len() ==> (#[trigger] request_of(
                query.questions[i],
                query.header.rd,
            ) matches Some((_, kind)) && kind is SOA),
{
    lemma_iterative(query, records, query.questions.len());
    assert forall|i: int| 0 <= i < query.questions.len() implies (#[trigger] request_of(
        query.questions[i],
        query.header.rd,
    ) matches Some((_, kind)) && kind is SOA) by {
        assert(asks_address(query.questions[i]));
    }
}

proof fn lemma_named_after_more(
    record: AnswerView,
    questions: Seq<QuestionView>,
    question: QuestionView,
)
    requires
        named_after(record, questions),
    ensures
        named_after(record, questions.push(question)),
{
    let i = choose|i: int| 0 <= i < questions.len() && #[trigger] questions[i].qname == record.name;
    assert(questions.push(question)[i].qname == record.name);
}

proof fn lemma_echo(query: QueryView, records: Seq<Option<AnswerView>>, count: nat)
    requires
        count <= query.questions.len(),
    ensures
        answered(query, records, count).questions == query.questions.take(count as int),
        forall|k: int|
            0 <= k < answered(query, records, count).answers.len() ==> named_after(
                #[trigger] answered(query, records, count).answers[k],
                query.questions.take(count as int),
            ),
        forall|k: int|
            0 <= k < answered(query, records, count).authority_records.len() ==> named_after(
                #[trigger] answered(query, records, count).authority_records[k],
                query.questions.take(count as int),
            ),
        answered(query, records, count).additional_records.len() == 0,
    decreases count,
{
    if count == 0 {
        assert(query.questions.take(0) =~= Seq::empty());
    } else {
        lemma_echo(query, records, (count - 1) as nat);
        let before = answered(query, records, (count - 1) as nat);
        let question = query.questions[count - 1];
        let asked = with_question(before, question);
        let now = answered(query, records, count);
        let seen = query.questions.take(count as int);
        assert(seen =~= query.questions.take(count - 1).push(question));
        assert(seen[count - 1].qname == question.qname);
        if question.qtype is TXT {
            lemma_with_txt_counts(asked, question.qname, question.qname.len());
        }
        assert(now.questions == seen);
        assert forall|k: int| 0 <= k < now.answers.len() implies named_after(
            #[trigger] now.answers[k],
            seen,
        ) by {
            if k < before.answers.len() {
                assert(now.answers[k] == before.answers[k]);
                lemma_named_after_more(before.answers[k], query.questions.take(count - 1), question);
            } else {
                assert(now.answers[k].name == question.qname);
            }
        }
        assert forall|k: int| 0 <= k < now.authority_records.len() implies named_after(
            #[trigger] now.authority_records[k],
            seen,
        ) by {
            if k < before.authority_records.len() {
                assert(now.authority_records[k] == before.authority_records[k]);
                lemma_named_after_more(
                    before.authority_records[k],
                    query.questions.take(count - 1),
                    question,
                );
            } else {
                assert(now.authority_records[k].name == question.qname);
            }
        }
    }
}

/// Home-suffix transparency: a response echoes the questions as they were
/// asked, and every record that it holds bears the name of a question as
/// it was asked, with the label `home` at its end if it was there.
pub proof fn law_response_echoes_names(query: QueryView, records: Seq<Option<AnswerView>>)
    ensures
        response_of(query, records).questions == query.questions,
        forall|k: int|
            0 <= k < response_of(query, records).answers.len() ==> named_after(
                #[trigger] response_of(query, records).answers[k],
                query.questions,
            ),
        forall|k: int|
            0 <= k < response_of(query, records).authority_records.len() ==> named_after(
                #[trigger] response_of(query, records).authority_records[k],
                query.questions,
            ),
        response_of(query, records).additional_records.len() == 0,
{
    lemma_echo(query, records, query.questions.len());
    assert(query.questions.take(query.questions.len() as int) =~= query.questions);
}

/// What is asked of the record store for an address question: one
/// request, for the kind of the question if recursion is desired and for
/// the start of authority if it is not, about the name of the question
/// without one last label `home`. A label of other letters, `Home` among
/// them, is not taken off, and no second label is.
pub proof fn law_store_request(question: QuestionView, rd: bool)
    requires
        asks_address(question),
    ensures
        request_of(question, rd) == Some(
            (
                lookup_name_of(question.qname),
                if !rd {
                    RecordTypeView::SOA(None)
                } else if question.qtype is A {
                    RecordTypeView::A(None)
                } else {
                    RecordTypeView::AAAA(None)
                },
            ),
        ),
        question.qname.len() >= 1 && question.qname.last() == "home"@ ==> lookup_name_of(
            question.qname,
        ) == question.qname.drop_last(),
        !(question.qname.len() >= 1 && question.qname.last() == "home"@) ==> lookup_name_of(
            question.qname,
        ) == question.qname,
{
}

/// Without recursion the start of authority is attached: the record that
/// the store gave becomes the last authority record, under the name that
/// was asked about, and is counted; the answers, their count, the
/// questions and the code of the response stay as they are.
pub proof fn law_authority_is_attached(
    response: ResponseView,
    name: Seq<Seq<char>>,
    record: AnswerView,
)
    requires
        response.header.ns_count < u16::MAX,
    ensures
        ({
            let after = attach(response, name, false, Some(record));
            &&& after.authority_records == response.authority_records.push(
                AnswerView { name, ..record },
            )
            &&& after.header.ns_count == response.header.ns_count + 1
            &&& after.answers == response.answers
            &&& after.header.an_count == response.header.an_count
            &&& after.questions == response.questions
            &&& after.additional_records == response.additional_records
            &&& after.header.rcode == response.header.rcode
            &&& response.counts_agree() ==> after.counts_agree()
        }),
{
}

/// With recursion the record is attached as an answer: the record that the
/// store gave becomes the last answer, under the name that was asked
/// about, with its kind, its data and its time to live, and is counted;
/// the authority records, their count, the questions and the code of the
/// response stay as they are.
pub proof fn law_answer_is_attached(
    response: ResponseView,
    name: Seq<Seq<char>>,
    record: AnswerView,
)
    requires
        response.header.an_count < u16::MAX,
    ensures
        ({
            let after = attach(response, name, true, Some(record));
            &&& after.answers == response.answers.push(AnswerView { name, ..record })
            &&& after.answers.last().name == name
            &&& after.answers.last().rtype == record.rtype
            &&& after.answers.last().rdata == record.rdata
            &&& after.answers.last().ttl == record.ttl
            &&& after.header.an_count == response.header.an_count + 1
            &&& after.authority_records == response.authority_records
            &&& after.header.ns_count == response.header.ns_count
            &&& after.questions == response.questions
            &&& after.additional_records == response.additional_records
            &&& after.header.rcode == response.header.rcode
            &&& response.counts_agree() ==> after.counts_agree()
        }),
{
}

/// A question that is skipped is echoed and nothing more: no record is
/// attached for it, and the code of the response stays as it is.
pub proof fn law_skipped_question_is_echoed(
    response: ResponseView,
    question: QuestionView,
    rd: bool,
    record: Option<AnswerView>,
)
    requires
        skipped(question),
    ensures
        answer_question(response, question, rd, record) == with_question(response, question),
        request_of(question, rd) is None,
{
}

/// Without a record nothing is attached: the code of the response says
/// that the name does not exist, and nothing else changes.
pub proof fn law_nothing_is_attached(response: ResponseView, name: Seq<Seq<char>>, rd: bool)
    ensures
        attach(response, name, rd, None) == with_rcode(response, DnsResponseCode::NxDomain),
        attach(response, name, rd, None).answers == response.answers,
        attach(response, name, rd, None).authority_records == response.authority_records,
        attach(response, name, rd, None).questions == response.questions,
{
}

/// The record store is asked for the name without the label `home`, and
/// the record that it gives is attached under the name with it.
pub proof fn law_home_is_stripped_for_lookup(
    name: Seq<Seq<char>>,
    question: QuestionView,
    response: ResponseView,
    rd: bool,
    record: AnswerView,
)
    requires
        asks_address(question),
        question.qname == name.push("home"@),
    ensures
        request_of(question, rd) matches Some((asked, _)) && asked == name,
        rd ==> answer_question(response, question, rd, Some(record)).answers.last().name
            == question.qname,
        !rd ==> answer_question(response, question, rd, Some(record)).authority_records.last().name
            == question.qname,
{
    assert(name.push("home"@).drop_last() =~= name);
}

proof fn lemma_miss(query: QueryView, records: Seq<Option<AnswerView>>, at: int, count: nat)
    requires
        0 <= at < count <= query.questions.len(),
        asks_address(query.questions[at]),
        record_at(records, at) is None,
    ensures
        answered(query, records, count).header.rcode == DnsResponseCode::NxDomain,
    decreases count,
{
    let before = answered(query, records, (count - 1) as nat);
    let question = query.questions[count - 1];
    lemma_with_txt_counts(with_question(before, question), question.qname, question.qname.len());
    if at < count - 1 {
        lemma_miss(query, records, at, (count - 1) as nat);
    }
}

/// A miss is a name that does not exist: where the record store gave
/// nothing for one of the address questions, the code of the response says
/// that the name does not exist, whatever it gave for the others.
pub proof fn law_miss_is_nxdomain(query: QueryView, records: Seq<Option<AnswerView>>, at: int)
    requires
        0 <= at < query.questions.len(),
        asks_address(query.questions[at]),
        record_at(records, at) is None,
    ensures
        response_of(query, records).header.rcode == DnsResponseCode::NxDomain,
{
    lemma_miss(query, records, at, query.questions.len());
}

proof fn lemma_name_is_paid_for(bytes: Seq<u8>)
    ensures
        name_of(bytes) matches Some((name, used)) ==> 2 * name.len() + 1 <= used <= bytes.len(),
    decreases bytes.len(),
{
    if bytes.len() > 0 && bytes[0] != 0 && bytes.len() >= 1 + bytes[0] {
        lemma_name_is_paid_for(bytes.skip(1 + bytes[0]));
    }
}

proof fn lemma_load_of_first(question: QuestionView, more: Seq<QuestionView>, count: nat)
    requires
        count <= more.len(),
    ensures
        load(seq![question] + more, count + 1) == 1 + question.qname.len() + load(more, count),
    decreases count,
{
    let all = seq![question] + more;
    if count == 0 {
        assert(load(all, 1) == load(all, 0) + 1 + all[0].qname.len());
    } else {
        lemma_load_of_first(question, more, (count - 1) as nat);
        assert(all[count as int] == more[count - 1]);
    }
}

proof fn lemma_questions_are_paid_for(bytes: Seq<u8>)
    ensures
        questions_of(bytes) matches Some(questions) ==> load(questions, questions.len())
            <= bytes.len(),
    decreases bytes.len(),
{
    if bytes.len() > 0 && questions_of(bytes) is Some {
        let (question, rest) = question_of(bytes).unwrap();
        let more = questions_of(rest).unwrap();
        lemma_name_is_paid_for(bytes);
        lemma_questions_are_paid_for(rest);
        lemma_load_of_first(question, more, more.len());
    }
}

/// Every query that is decoded from a message of no more than 65535 bytes
/// can be answered: the response can count its sections.
pub proof fn law_decoded_query_is_countable(bytes: Seq<u8>, tcp: bool)
    requires
        bytes.len() <= u16::MAX,
        query_of(bytes, tcp) is Some,
    ensures
        countable(query_of(bytes, tcp).unwrap()),
{
    if tcp {
        lemma_questions_are_paid_for(bytes.skip(2).skip(12));
    } else {
        lemma_questions_are_paid_for(bytes.skip(12));
    }
}

} // verus!
