//! How a query is answered: what is asked of the record store for each
//! question, and what the response holds once the store has answered.

use vstd::prelude::*;
use vstd::string::StringExecFns;
use vstd::utf8::encode_utf8;
use crate::dns_request::structs::{
    AnswerView, DnsHeader, QueryView, QuestionView, RecordTypeView, ResponseView,
};
use crate::dns_request::{
    DnsAnswer, DnsQuery, DnsQuestion, DnsRecordType, DnsResponse, DnsResponseCode,
};
use crate::text::clone_names;
use crate::views::{option_view, views};

pub mod laws;

verus! {

/// The name that is looked up for a question: the name of the question
/// without its last label where that label is `home`.
pub open spec fn lookup_name_of(qname: Seq<Seq<char>>) -> Seq<Seq<char>> {
    if qname.len() >= 1 && qname.last() == "home"@ {
        qname.drop_last()
    } else {
        qname
    }
}

/// The name that is looked up for a question about `name`.
pub fn lookup_name(name: &Vec<String>) -> (r: Vec<String>)
    ensures
        views(r@) == lookup_name_of(views(name@)),
{
    let home = String::from_str("home");
    let mut out = clone_names(name);
    if out.len() >= 1 && out[out.len() - 1] == home {
        assert(views(out@).last() == out@.last()@);
        out.pop();
        assert(views(out@) =~= views(name@).drop_last());
    } else {
        if out.len() >= 1 {
            assert(views(out@).last() == out@.last()@);
        }
    }
    out
}

/// What is asked of the record store for a question: for an address
/// question the name to look up, with the kind of the question if
/// recursion is desired and the start of authority if it is not. For any
/// other question nothing is asked.
pub open spec fn request_of(question: QuestionView, rd: bool) -> Option<
    (Seq<Seq<char>>, RecordTypeView),
> {
    match question.qtype {
        RecordTypeView::A(_) => Some(
            (
                lookup_name_of(question.qname),
                if rd {
                    RecordTypeView::A(None)
                } else {
                    RecordTypeView::SOA(None)
                },
            ),
        ),
        RecordTypeView::AAAA(_) => Some(
            (
                lookup_name_of(question.qname),
                if rd {
                    RecordTypeView::AAAA(None)
                } else {
                    RecordTypeView::SOA(None)
                },
            ),
        ),
        _ => None,
    }
}

/// What an optional request to the record store holds.
pub open spec fn request_view(request: Option<(Vec<String>, DnsRecordType)>) -> Option<
    (Seq<Seq<char>>, RecordTypeView),
> {
    match request {
        Some((name, kind)) => Some((views(name@), kind@)),
        None => None,
    }
}

/// What is asked of the record store for `question`.
pub fn store_request(question: &DnsQuestion, rd: bool) -> (r: Option<(Vec<String>, DnsRecordType)>)
    ensures
        request_view(r) == request_of(question@, rd),
{
    match &question.qtype {
        DnsRecordType::A(_) => {
            let kind = if rd {
                DnsRecordType::A(None)
            } else {
                DnsRecordType::SOA(None)
            };
            Some((lookup_name(&question.qname), kind))
        },
        DnsRecordType::AAAA(_) => {
            let kind = if rd {
                DnsRecordType::AAAA(None)
            } else {
                DnsRecordType::SOA(None)
            };
            Some((lookup_name(&question.qname), kind))
        },
        _ => None,
    }
}

/// A question that is skipped: it asks neither for an address nor for
/// text, and gets no record.
pub open spec fn skipped(question: QuestionView) -> bool {
    !(question.qtype is A || question.qtype is AAAA || question.qtype is TXT)
}

/// Tells whether `question` is skipped, so that the caller can say so in
/// its log.
pub fn is_skipped(question: &DnsQuestion) -> (r: bool)
    ensures
        r == skipped(question@),
{
    match &question.qtype {
        DnsRecordType::A(_) => false,
        DnsRecordType::AAAA(_) => false,
        DnsRecordType::TXT(_) => false,
        _ => true,
    }
}

/// The response with another response code.
pub open spec fn with_rcode(response: ResponseView, rcode: DnsResponseCode) -> ResponseView {
    ResponseView { header: DnsHeader { rcode, ..response.header }, ..response }
}

/// The response with one more question.
pub open spec fn with_question(response: ResponseView, question: QuestionView) -> ResponseView {
    ResponseView {
        header: DnsHeader {
            qd_count: (response.header.qd_count + 1) as u16,
            ..response.header
        },
        questions: response.questions.push(question),
        ..response
    }
}

/// The response with one more answer.
pub open spec fn with_answer(response: ResponseView, answer: AnswerView) -> ResponseView {
    ResponseView {
        header: DnsHeader {
            an_count: (response.header.an_count + 1) as u16,
            ..response.header
        },
        answers: response.answers.push(answer),
        ..response
    }
}

/// The response with one more authority record.
pub open spec fn with_authority(response: ResponseView, record: AnswerView) -> ResponseView {
    ResponseView {
        header: DnsHeader {
            ns_count: (response.header.ns_count + 1) as u16,
            ..response.header
        },
        authority_records: response.authority_records.push(record),
        ..response
    }
}

/// The response to an address question once the record store has
/// answered. Without a record the name does not exist. A record gets the
/// name of the question as it was asked; it is an answer if recursion is
/// desired and an authority record if it is not.
pub open spec fn attach(
    response: ResponseView,
    name: Seq<Seq<char>>,
    rd: bool,
    record: Option<AnswerView>,
) -> ResponseView {
    match record {
        None => with_rcode(response, DnsResponseCode::NxDomain),
        Some(found) => if rd {
            with_answer(response, AnswerView { name, ..found })
        } else {
            with_authority(response, AnswerView { name, ..found })
        },
    }
}

/// Attaches to `response` what the record store gave for an address
/// question about `name`.
fn attach_record(name: Vec<String>, rd: bool, response: DnsResponse, record: Option<DnsAnswer>) -> (r:
    DnsResponse)
    requires
        record is Some ==> (if rd {
            response.header.an_count < u16::MAX
        } else {
            response.header.ns_count < u16::MAX
        }),
    ensures
        r@ == attach(response@, views(name@), rd, option_view(record)),
{
    let answer = match record {
        Some(val) => val,
        None => {
            return response.rcode(DnsResponseCode::NxDomain);
        },
    };
    let answer = answer.name(name);
    if rd {
        response.add_answer(answer)
    } else {
        response.add_auth_record(answer)
    }
}

/// Answers a question for an IPv4 address about `name`. `record` is what
/// the record store gave for the name that is looked up: the address if
/// recursion is desired, the start of authority if it is not.
pub fn handle_a(name: Vec<String>, rd: bool, response: DnsResponse, record: Option<DnsAnswer>) -> (r:
    DnsResponse)
    requires
        record is Some ==> (if rd {
            response.header.an_count < u16::MAX
        } else {
            response.header.ns_count < u16::MAX
        }),
    ensures
        r@ == attach(response@, views(name@), rd, option_view(record)),
{
    attach_record(name, rd, response, record)
}

/// Answers a question for an IPv6 address about `name`. `record` is what
/// the record store gave for the name that is looked up: the address if
/// recursion is desired, the start of authority if it is not.
pub fn handle_aaaa(
    name: Vec<String>,
    rd: bool,
    response: DnsResponse,
    record: Option<DnsAnswer>,
) -> (r: DnsResponse)
    requires
        record is Some ==> (if rd {
            response.header.an_count < u16::MAX
        } else {
            response.header.ns_count < u16::MAX
        }),
    ensures
        r@ == attach(response@, views(name@), rd, option_view(record)),
{
    attach_record(name, rd, response, record)
}

/// The text that answers a text question for one label.
pub open spec fn txt_text(label: Seq<char>) -> Seq<char> {
    if label == "version"@ {
        "\"version=1.0\""@
    } else if label == "bind"@ {
        "\"bind=hello\""@
    } else {
        "unknown=unknown"@
    }
}

/// The text record that answers a text question about `name` for one of
/// its labels: it lives for 30 seconds.
pub open spec fn txt_answer(name: Seq<Seq<char>>, label: Seq<char>) -> AnswerView {
    AnswerView {
        name,
        rtype: RecordTypeView::TXT(Some(encode_utf8(txt_text(label)))),
        class: 1,
        ttl: 30,
        rdata: encode_utf8(txt_text(label)),
    }
}

/// The response with a text record for each of the first `count` labels
/// of `name`.
pub open spec fn with_txt(response: ResponseView, name: Seq<Seq<char>>, count: nat) -> ResponseView
    decreases count,
{
    if count == 0 {
        response
    } else {
        with_answer(
            with_txt(response, name, (count - 1) as nat),
            txt_answer(name, name[count - 1]),
        )
    }
}

/// Answers a text question about the name `fields`: one text record for
/// each label, made here without the record store.
pub fn handle_txt(fields: Vec<String>, response: DnsResponse) -> (r: DnsResponse)
    requires
        response.header.an_count + fields.len() <= u16::MAX,
    ensures
        r@ == with_txt(response@, views(fields@), fields.len() as nat),
{
    let version = String::from_str("version");
    let bind = String::from_str("bind");
    let mut response = response;
    let ghost start = response@;
    let mut i: usize = 0;
    while i < fields.len()
        invariant
            i <= fields.len(),
            start.header.an_count + fields.len() <= u16::MAX,
            response@ == with_txt(start, views(fields@), i as nat),
            response.header.an_count == start.header.an_count + i,
            version@ == "version"@,
            bind@ == "bind"@,
        decreases fields.len() - i,
    {
        let field = &fields[i];
        assert(views(fields@)[i as int] == field@);
        let text = if *field == version {
            "\"version=1.0\""
        } else if *field == bind {
            "\"bind=hello\""
        } else {
            "unknown=unknown"
        };
        let answer = DnsAnswer::default().name(clone_names(&fields)).ttl(30).record(
            DnsRecordType::new_txt(text),
        );
        response = response.add_answer(answer);
        i += 1;
    }
    response
}

/// The response after one more question: the question is echoed, and
/// then an address question gets what the record store gave, a text
/// question gets its text records, and any other question gets nothing.
pub open spec fn answer_question(
    response: ResponseView,
    question: QuestionView,
    rd: bool,
    record: Option<AnswerView>,
) -> ResponseView {
    let asked = with_question(response, question);
    match question.qtype {
        RecordTypeView::A(_) => attach(asked, question.qname, rd, record),
        RecordTypeView::AAAA(_) => attach(asked, question.qname, rd, record),
        RecordTypeView::TXT(_) => with_txt(asked, question.qname, question.qname.len()),
        _ => asked,
    }
}

/// Echoes `question` in `response` and answers it. `record` is what the
/// record store gave for the question; it is read for an address question
/// only.
pub fn handle_question(
    question: &DnsQuestion,
    rd: bool,
    response: DnsResponse,
    record: Option<DnsAnswer>,
) -> (r: DnsResponse)
    requires
        response.header.qd_count < u16::MAX,
        (question@.qtype is A || question@.qtype is AAAA) && record is Some ==> (if rd {
            response.header.an_count < u16::MAX
        } else {
            response.header.ns_count < u16::MAX
        }),
        question@.qtype is TXT ==> response.header.an_count + question.qname.len() <= u16::MAX,
    ensures
        r@ == answer_question(response@, question@, rd, option_view(record)),
{
    let response = response.add_question(question.clone());
    match &question.qtype {
        DnsRecordType::A(_) => handle_a(clone_names(&question.qname), rd, response, record),
        DnsRecordType::AAAA(_) => handle_aaaa(clone_names(&question.qname), rd, response, record),
        DnsRecordType::TXT(_) => handle_txt(clone_names(&question.qname), response),
        _ => response,
    }
}

/// The response that a query starts from: it carries the identifier and
/// the recursion-desired flag of the query, says that recursion is
/// available, and is empty. Where the query does not desire recursion, its
/// code says from the start that the name does not exist.
pub open spec fn opening(header: DnsHeader) -> ResponseView {
    ResponseView {
        header: DnsHeader {
            id: header.id,
            qr: true,
            opcode: 0,
            aa: false,
            tc: false,
            rd: header.rd,
            ra: true,
            z: 0,
            rcode: if header.rd {
                DnsResponseCode::NoError
            } else {
                DnsResponseCode::NxDomain
            },
            qd_count: 0,
            an_count: 0,
            ns_count: 0,
            ar_count: 0,
        },
        questions: Seq::empty(),
        answers: Seq::empty(),
        authority_records: Seq::empty(),
        additional_records: Seq::empty(),
    }
}

/// What the record store gave for the question at index `at`: nothing
/// where the list is too short.
pub open spec fn record_at(records: Seq<Option<AnswerView>>, at: int) -> Option<AnswerView> {
    if 0 <= at < records.len() {
        records[at]
    } else {
        None
    }
}

/// The response after the first `count` questions of a query.
pub open spec fn answered(query: QueryView, records: Seq<Option<AnswerView>>, count: nat) -> ResponseView
    decreases count,
{
    if count == 0 {
        opening(query.header)
    } else {
        answer_question(
            answered(query, records, (count - 1) as nat),
            query.questions[count - 1],
            query.header.rd,
            record_at(records, count - 1),
        )
    }
}

/// The response to a query, where `records` holds for each question what
/// the record store gave for it.
pub open spec fn response_of(query: QueryView, records: Seq<Option<AnswerView>>) -> ResponseView {
    answered(query, records, query.questions.len())
}

/// How many records the first `count` questions can add to a section at
/// most: one for each question and one for each label.
pub open spec fn load(questions: Seq<QuestionView>, count: nat) -> nat
    decreases count,
{
    if count == 0 {
        0
    } else {
        load(questions, (count - 1) as nat) + 1 + questions[count - 1].qname.len()
    }
}

/// A query whose response can count its sections in 16 bits.
pub open spec fn countable(query: QueryView) -> bool {
    load(query.questions, query.questions.len()) <= u16::MAX
}

/// The load grows with the number of questions.
pub proof fn lemma_load_grows(questions: Seq<QuestionView>, fewer: nat, more: nat)
    requires
        fewer <= more,
    ensures
        load(questions, fewer) <= load(questions, more),
    decreases more,
{
    if fewer < more {
        lemma_load_grows(questions, fewer, (more - 1) as nat);
    }
}

/// The views of a list of optional records.
pub open spec fn records_view(records: Seq<Option<DnsAnswer>>) -> Seq<Option<AnswerView>> {
    Seq::new(records.len(), |i: int| option_view(records[i]))
}

/// A copy of an optional record.
fn clone_record(record: &Option<DnsAnswer>) -> (r: Option<DnsAnswer>)
    ensures
        option_view(r) == option_view(*record),
{
    match record {
        Some(answer) => Some(answer.clone()),
        None => None,
    }
}

/// Answers a query. `records` holds for each question, in order, what the
/// record store gave for the request that `store_request` makes of it;
/// where the list is too short the store is taken to have given nothing.
pub fn handle_query(query: &DnsQuery, records: &Vec<Option<DnsAnswer>>) -> (r: DnsResponse)
    requires
        countable(query@),
    ensures
        r@ == response_of(query@, records_view(records@)),
        r@.counts_agree(),
{
    let mut response = DnsResponse::default().id(query.header.id).rd(query.header.rd);
    if !query.header.rd {
        response = response.rcode(DnsResponseCode::NxDomain);
    }
    let rd = query.header.rd;
    let mut i: usize = 0;
    while i < query.questions.len()
        invariant
            i <= query.questions.len(),
            rd == query.header.rd,
            countable(query@),
            response@ == answered(query@, records_view(records@), i as nat),
            response@.counts_agree(),
            response.header.qd_count <= load(query@.questions, i as nat),
            response.header.an_count <= load(query@.questions, i as nat),
            response.header.ns_count <= load(query@.questions, i as nat),
        decreases query.questions.len() - i,
    {
        let question = &query.questions[i];
        let record = if i < records.len() {
            clone_record(&records[i])
        } else {
            None
        };
        proof {
            assert(query@.questions[i as int] == question@);
            assert(option_view(record) == record_at(records_view(records@), i as int));
            lemma_load_grows(query@.questions, (i + 1) as nat, query@.questions.len());
            assert(question@.qname.len() == question.qname.len());
            lemma_with_txt_counts(
                with_question(response@, question@),
                question@.qname,
                question@.qname.len(),
            );
        }
        response = handle_question(question, rd, response, record);
        i += 1;
    }
    response
}

/// Text records are appended to the answers, one for each label and each
/// under the name that was asked about. Nothing else of the response
/// changes but the count of answers, which grows by their number where
/// that fits 16 bits.
pub proof fn lemma_with_txt_counts(response: ResponseView, name: Seq<Seq<char>>, count: nat)
    ensures
        with_txt(response, name, count).header == (DnsHeader {
            an_count: with_txt(response, name, count).header.an_count,
            ..response.header
        }),
        response.header.an_count + count <= u16::MAX ==> with_txt(
            response,
            name,
            count,
        ).header.an_count == response.header.an_count + count,
        with_txt(response, name, count).questions == response.questions,
        with_txt(response, name, count).authority_records == response.authority_records,
        with_txt(response, name, count).additional_records == response.additional_records,
        with_txt(response, name, count).answers.len() == response.answers.len() + count,
        forall|k: int|
            0 <= k < response.answers.len() ==> with_txt(response, name, count).answers[k]
                == response.answers[k],
        forall|k: int|
            response.answers.len() <= k < response.answers.len() + count ==> #[trigger] with_txt(
                response,
                name,
                count,
            ).answers[k] == txt_answer(name, name[k - response.answers.len()]),
    decreases count,
{
    if count > 0 {
        lemma_with_txt_counts(response, name, (count - 1) as nat);
    }
}

/// Tells whether the response to `query` can count its sections.
pub fn check_countable(query: &DnsQuery) -> (ok: bool)
    ensures
        ok == countable(query@),
{
    let mut total: usize = 0;
    let mut i: usize = 0;
    while i < query.questions.len()
        invariant
            i <= query.questions.len(),
            total == load(query@.questions, i as nat),
            total <= u16::MAX,
        decreases query.questions.len() - i,
    {
        let labels = query.questions[i].qname.len();
        assert(query@.questions[i as int].qname.len() == labels);
        proof {
            lemma_load_grows(query@.questions, (i + 1) as nat, query@.questions.len());
        }
        if labels >= 0xffff || total + 1 + labels > 0xffff {
            return false;
        }
        total = total + 1 + labels;
        i += 1;
    }
    true
}

/// What is asked of the record store for each question of `query`, in the
/// order of the questions.
pub fn store_requests(query: &DnsQuery) -> (r: Vec<Option<(Vec<String>, DnsRecordType)>>)
    ensures
        r@.len() == query.questions.len(),
        forall|i: int|
            0 <= i < r@.len() ==> request_view(#[trigger] r@[i]) == request_of(
                query@.questions[i],
                query.header.rd,
            ),
{
    let mut out: Vec<Option<(Vec<String>, DnsRecordType)>> = Vec::new();
    let mut i: usize = 0;
    while i < query.questions.len()
        invariant
            i <= query.questions.len(),
            out@.len() == i,
            forall|k: int|
                0 <= k < i ==> request_view(#[trigger] out@[k]) == request_of(
                    query@.questions[k],
                    query.header.rd,
                ),
        decreases query.questions.len() - i,
    {
        assert(query@.questions[i as int] == query.questions@[i as int]@);
        out.push(store_request(&query.questions[i], query.header.rd));
        i += 1;
    }
    out
}

/// The message that answers `query`, behind its length if `tcp` is set.
/// `records` holds for each question what the record store gave for it.
/// A query with more questions and labels than a response can count gets
/// no message.
pub fn respond(query: &DnsQuery, records: &Vec<Option<DnsAnswer>>, tcp: bool) -> (r: Option<Vec<u8>>)
    ensures
        r is Some <==> countable(query@),
        r matches Some(bytes) ==> bytes@ == response_of(query@, records_view(records@)).wire(tcp),
{
    if !check_countable(query) {
        return None;
    }
    Some(handle_query(query, records).build(tcp))
}

} // verus!
