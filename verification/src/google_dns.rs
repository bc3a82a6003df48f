//! The upstream resolver: which address to ask, and how its answer becomes
//! a record.

use vstd::prelude::*;
use vstd::string::StringExecFns;
use crate::decimal::{decimal, parse_u32, push_decimal, u32_of};
use crate::dns_request::structs::{
    AnswerView, AuthRecordView, RecordTypeView,
};
use crate::dns_request::{DnsAnswer, DnsAuthRecord, DnsRecordType};
use crate::text::{blank, chars_of, is_blank, join, join_names, split, split_chars, string_of};
use crate::views::{lemma_views_push, option_view, result_view, views};

pub mod structs;

pub use structs::{
    ErrorType, ErrorView, GoogleAnswerView, GoogleDnsAnswer, GoogleDnsQuestion, GoogleDnsResponse,
    GoogleQuestionView, GoogleResponseView,
};

verus! {

/// The pieces that are not blank, in order.
pub open spec fn solid_pieces(pieces: Seq<Seq<char>>) -> Seq<Seq<char>>
    decreases pieces.len(),
{
    if pieces.len() == 0 {
        Seq::empty()
    } else if blank(pieces.last()) {
        solid_pieces(pieces.drop_last())
    } else {
        solid_pieces(pieces.drop_last()).push(pieces.last())
    }
}

/// The labels of a dotted name: its pieces between the dots, without
/// those that are blank.
pub open spec fn domains_of(url: Seq<char>) -> Seq<Seq<char>> {
    solid_pieces(split(url, '.'))
}

/// The labels of a dotted name.
pub fn str_to_domains(url: &str) -> (r: Vec<String>)
    ensures
        views(r@) == domains_of(url@),
{
    let chars = chars_of(url);
    let domains = split_chars(&chars, '.');
    let mut filtered_domains: Vec<String> = Vec::new();
    let mut i: usize = 0;
    assert(views(domains@).take(0) =~= Seq::empty());
    assert(views(filtered_domains@) =~= Seq::empty());
    while i < domains.len()
        invariant
            i <= domains.len(),
            views(filtered_domains@) == solid_pieces(views(domains@).take(i as int)),
        decreases domains.len() - i,
    {
        let domain = string_of(&domains[i]);
        proof {
            let now = views(domains@).take(i + 1);
            assert(now.drop_last() =~= views(domains@).take(i as int));
            assert(now.last() == domain@);
            lemma_views_push(filtered_domains@, domain);
        }
        if !is_blank(&domains[i]) {
            filtered_domains.push(domain);
        }
        i += 1;
    }
    assert(views(domains@).take(i as int) =~= views(domains@));
    filtered_domains
}

/// The dotted name of a list of labels.
pub fn domains_to_str(domains: &Vec<String>) -> (r: String)
    ensures
        r@ == join(views(domains@), '.'),
{
    join_names(domains, '.')
}

/// The address at which the upstream resolver answers for a name and a
/// record kind.
pub open spec fn url_of(name: Seq<Seq<char>>, rtype: RecordTypeView) -> Seq<char> {
    "https://8.8.8.8/resolve?name="@ + join(name, '.') + "&type="@ + decimal(rtype.code() as nat)
}

/// The address to ask for the records of kind `rtype` of `name`.
pub fn request_url(name: &Vec<String>, rtype: &DnsRecordType) -> (url: String)
    ensures
        url@ == url_of(views(name@), rtype@),
{
    let (u8_type, _) = rtype.to_byte();
    let name = domains_to_str(name);
    let mut url = String::from_str("https://8.8.8.8/resolve?name=");
    url.append(name.as_str());
    url.append("&type=");
    push_decimal(&mut url, u8_type as u32);
    url
}

/// The first record of a section whose kind has the code `rec_type`.
pub open spec fn first_of_type(records: Seq<GoogleAnswerView>, rec_type: u8) -> Option<
    GoogleAnswerView,
>
    decreases records.len(),
{
    if records.len() == 0 {
        None
    } else if records[0].rtype == rec_type {
        Some(records[0])
    } else {
        first_of_type(records.drop_first(), rec_type)
    }
}

/// The first record of `answers` whose kind has the code `rec_type`.
pub fn get_ans_from_rec_type(answers: &Vec<GoogleDnsAnswer>, rec_type: u8) -> (r: Option<
    GoogleDnsAnswer,
>)
    ensures
        option_view(r) == first_of_type(views(answers@), rec_type),
{
    let mut i: usize = 0;
    assert(views(answers@).skip(0) =~= views(answers@));
    while i < answers.len()
        invariant
            i <= answers.len(),
            first_of_type(views(answers@), rec_type) == first_of_type(
                views(answers@).skip(i as int),
                rec_type,
            ),
        decreases answers.len() - i,
    {
        let ghost rest = views(answers@).skip(i as int);
        assert(rest[0] == answers@[i as int]@);
        if answers[i].rtype == rec_type {
            return Some(answers[i].clone());
        }
        assert(rest.drop_first() =~= views(answers@).skip(i + 1));
        i += 1;
    }
    None
}

/// The record of kind `rtype` that lives for `ttl` seconds: class 1, no
/// name yet, and the data that the kind carries.
pub open spec fn record_answer(rtype: Option<RecordTypeView>, ttl: u32) -> AnswerView {
    AnswerView {
        ttl,
        ..(AnswerView {
            name: Seq::empty(),
            rtype: RecordTypeView::A(None),
            class: 1,
            ttl: 0,
            rdata: Seq::empty(),
        }).record(rtype)
    }
}

/// The record of kind `record` with the time to live of `answer`.
pub fn answer_from_record(record: Option<DnsRecordType>, answer: GoogleDnsAnswer) -> (r: DnsAnswer)
    ensures
        r@ == record_answer(option_view(record), answer.TTL),
{
    DnsAnswer::default().record(record).ttl(answer.TTL)
}

/// How many aliases a lookup follows before it gives up.
pub const MAX_ALIASES: u8 = 8;

/// What an upstream answer amounts to.
#[derive(Debug)]
pub enum Resolution {
    /// The record that was asked for.
    Answer(DnsAnswer),
    /// The name is an alias: the same kind of record is to be asked for
    /// this name.
    Follow(Vec<String>),
}

/// What a resolution holds.
pub enum ResolutionView {
    Answer(AnswerView),
    Follow(Seq<Seq<char>>),
}

impl View for Resolution {
    type V = ResolutionView;

    open spec fn view(&self) -> ResolutionView {
        match *self {
            Self::Answer(answer) => ResolutionView::Answer(answer@),
            Self::Follow(name) => ResolutionView::Follow(views(name@)),
        }
    }
}

/// Where no record of the kind that was asked for is among `records`: the
/// first alias is followed, unless `depth` aliases were followed already.
pub open spec fn alias_outcome(records: Seq<GoogleAnswerView>, depth: u8) -> Result<
    ResolutionView,
    ErrorView,
> {
    match first_of_type(records, 5) {
        Some(alias) => if depth < MAX_ALIASES {
            Ok(ResolutionView::Follow(domains_of(alias.data)))
        } else {
            Err(ErrorView::ErrMsg("Too many cname responses"@))
        },
        None => Err(ErrorView::ErrMsg("No cname response"@)),
    }
}

/// What an upstream answer amounts to for a lookup of an IPv4 address.
pub open spec fn a_outcome(response: GoogleResponseView, depth: u8) -> Result<
    ResolutionView,
    ErrorView,
> {
    match response.answer {
        None => Err(ErrorView::ErrMsg("No answers"@)),
        Some(records) => match first_of_type(records, 1) {
            Some(found) => match RecordTypeView::a_of(found.data) {
                Some(kind) => Ok(ResolutionView::Answer(record_answer(Some(kind), found.ttl))),
                None => Err(ErrorView::ErrMsg("Invalid ipv4"@)),
            },
            None => alias_outcome(records, depth),
        },
    }
}

/// What an upstream answer amounts to for a lookup of an IPv6 address,
/// where `address` holds the sixteen octets that the data of the first
/// address record spell, if they spell an address.
pub open spec fn aaaa_outcome(
    response: GoogleResponseView,
    address: Option<Seq<u8>>,
    depth: u8,
) -> Result<ResolutionView, ErrorView> {
    match response.answer {
        None => Err(ErrorView::ErrMsg("No answers"@)),
        Some(records) => match first_of_type(records, 28) {
            Some(found) => match address {
                Some(octets) => if octets.len() == 16 {
                    Ok(
                        ResolutionView::Answer(
                            record_answer(Some(RecordTypeView::AAAA(Some(octets))), found.ttl),
                        ),
                    )
                } else {
                    Err(ErrorView::ErrMsg("Invalid ipv6"@))
                },
                None => Err(ErrorView::ErrMsg("Invalid ipv6"@)),
            },
            None => alias_outcome(records, depth),
        },
    }
}

/// The start-of-authority record that the data of an authority record
/// spell: seven pieces or more between single spaces, of which the first
/// two are dotted names and the next five are numbers.
pub open spec fn soa_of(data: Seq<char>) -> Option<AuthRecordView> {
    let pieces = split(data, ' ');
    if pieces.len() >= 7 && u32_of(pieces[2]) is Some && u32_of(pieces[3]) is Some && u32_of(
        pieces[4],
    ) is Some && u32_of(pieces[5]) is Some && u32_of(pieces[6]) is Some {
        Some(
            AuthRecordView {
                mname: domains_of(pieces[0]),
                rname: domains_of(pieces[1]),
                serial: u32_of(pieces[2]).unwrap(),
                refresh: u32_of(pieces[3]).unwrap(),
                retry: u32_of(pieces[4]).unwrap(),
                expire: u32_of(pieces[5]).unwrap(),
                minimum: u32_of(pieces[6]).unwrap(),
            },
        )
    } else {
        None
    }
}

/// What an upstream answer amounts to for a lookup of the start of
/// authority.
pub open spec fn soa_outcome(response: GoogleResponseView) -> Result<AnswerView, ErrorView> {
    match response.authority {
        None => Err(ErrorView::ErrMsg("No authority response"@)),
        Some(records) => if records.len() == 0 {
            Err(ErrorView::ErrMsg("No authority response"@))
        } else {
            match soa_of(records[0].data) {
                Some(auth) => Ok(
                    record_answer(Some(RecordTypeView::SOA(Some(auth))), records[0].ttl),
                ),
                None => Err(ErrorView::ErrMsg("Invalid rdata field"@)),
            }
        },
    }
}

/// What an upstream answer amounts to for a lookup of records of kind
/// `rtype`: a status of 3 says that the name does not exist; addresses and
/// the start of authority are read from the answer; no other kind is
/// looked up.
pub open spec fn resolution_of(
    response: GoogleResponseView,
    rtype: RecordTypeView,
    address: Option<Seq<u8>>,
    depth: u8,
) -> Result<ResolutionView, ErrorView> {
    if response.status == 3 {
        Err(ErrorView::NxDomain)
    } else {
        match rtype {
            RecordTypeView::SOA(_) => match soa_outcome(response) {
                Ok(answer) => Ok(ResolutionView::Answer(answer)),
                Err(error) => Err(error),
            },
            RecordTypeView::A(_) => a_outcome(response, depth),
            RecordTypeView::AAAA(_) => aaaa_outcome(response, address, depth),
            _ => Err(ErrorView::NotImplemented),
        }
    }
}

/// Follows the first alias among `answers`, if there is one and fewer
/// than `MAX_ALIASES` were followed.
fn follow_alias(answers: &Vec<GoogleDnsAnswer>, depth: u8) -> (r: Result<Resolution, ErrorType>)
    ensures
        result_view(r) == alias_outcome(views(answers@), depth),
{
    match get_ans_from_rec_type(answers, 5) {
        Some(ans) => {
            if depth < MAX_ALIASES {
                Ok(Resolution::Follow(str_to_domains(ans.data.as_str())))
            } else {
                Err(ErrorType::new("Too many cname responses"))
            }
        },
        None => Err(ErrorType::new("No cname response")),
    }
}

/// Reads the answer to a lookup of an IPv4 address: the first address
/// record wins; without one the first alias is followed.
pub fn to_a(response: GoogleDnsResponse, depth: u8) -> (r: Result<Resolution, ErrorType>)
    ensures
        result_view(r) == a_outcome(response@, depth),
{
    let answer_results = match response.Answer {
        Some(val) => val,
        None => {
            return Err(ErrorType::new("No answers"));
        },
    };
    let answer = match get_ans_from_rec_type(&answer_results, 1) {
        Some(val) => val,
        None => {
            return follow_alias(&answer_results, depth);
        },
    };
    let record = match DnsRecordType::new_a(answer.data.as_str()) {
        Some(val) => val,
        None => {
            return Err(ErrorType::new("Invalid ipv4"));
        },
    };
    Ok(Resolution::Answer(answer_from_record(Some(record), answer)))
}

/// Reads the answer to a lookup of an IPv6 address: the first address
/// record wins; without one the first alias is followed. `address` holds
/// the octets that the data of that first address record spell.
pub fn to_aaaa(response: GoogleDnsResponse, address: Option<Vec<u8>>, depth: u8) -> (r: Result<
    Resolution,
    ErrorType,
>)
    ensures
        result_view(r) == aaaa_outcome(
            response@,
            option_view(address),
            depth,
        ),
{
    let answer_results = match response.Answer {
        Some(val) => val,
        None => {
            return Err(ErrorType::new("No answers"));
        },
    };
    let answer = match get_ans_from_rec_type(&answer_results, 28) {
        Some(val) => val,
        None => {
            return follow_alias(&answer_results, depth);
        },
    };
    let octets = match address {
        Some(val) => val,
        None => {
            return Err(ErrorType::new("Invalid ipv6"));
        },
    };
    if octets.len() != 16 {
        return Err(ErrorType::new("Invalid ipv6"));
    }
    let record = DnsRecordType::AAAA(Some(octets));
    Ok(Resolution::Answer(answer_from_record(Some(record), answer)))
}

/// Reads a start-of-authority record from the data of an authority record.
pub fn parse_soa(data: &str) -> (r: Option<DnsAuthRecord>)
    ensures
        option_view(r) == soa_of(data@),
{
    let chars = chars_of(data);
    let answers = split_chars(&chars, ' ');
    if answers.len() < 7 {
        return None;
    }
    proof {
        assert(views(answers@)[0] == answers@[0]@);
        assert(views(answers@)[1] == answers@[1]@);
        assert(views(answers@)[2] == answers@[2]@);
        assert(views(answers@)[3] == answers@[3]@);
        assert(views(answers@)[4] == answers@[4]@);
        assert(views(answers@)[5] == answers@[5]@);
        assert(views(answers@)[6] == answers@[6]@);
    }
    let serial = match parse_u32(&answers[2]) {
        Some(val) => val,
        None => {
            return None;
        },
    };
    let refresh = match parse_u32(&answers[3]) {
        Some(val) => val,
        None => {
            return None;
        },
    };
    let retry = match parse_u32(&answers[4]) {
        Some(val) => val,
        None => {
            return None;
        },
    };
    let expire = match parse_u32(&answers[5]) {
        Some(val) => val,
        None => {
            return None;
        },
    };
    let minimum = match parse_u32(&answers[6]) {
        Some(val) => val,
        None => {
            return None;
        },
    };
    let mname = str_to_domains(string_of(&answers[0]).as_str());
    let rname = str_to_domains(string_of(&answers[1]).as_str());
    Some(
        DnsAuthRecord {
            mname: mname,
            rname: rname,
            serial: serial,
            refresh: refresh,
            retry: retry,
            expire: expire,
            minimum: minimum,
        },
    )
}

/// Reads the answer to a lookup of the start of authority from the first
/// record of the authority section.
pub fn to_soa(response: GoogleDnsResponse) -> (r: Result<DnsAnswer, ErrorType>)
    ensures
        result_view(r) == soa_outcome(response@),
{
    let auth_results = match response.Authority {
        Some(val) => val,
        None => {
            return Err(ErrorType::new("No authority response"));
        },
    };
    if auth_results.len() == 0 {
        return Err(ErrorType::new("No authority response"));
    }
    assert(views(auth_results@)[0] == auth_results@[0]@);
    let auth_rec = match parse_soa(auth_results[0].data.as_str()) {
        Some(val) => val,
        None => {
            return Err(ErrorType::new("Invalid rdata field"));
        },
    };
    let record = DnsRecordType::new_soa(auth_rec);
    Ok(answer_from_record(record, auth_results[0].clone()))
}

/// Reads the answer of the upstream resolver to a lookup of records of
/// kind `rtype`. `address` holds the octets that the data of the first
/// IPv6 address record of the answer spell, if there is such a record and
/// its data spell an address; `depth` is the number of aliases that were
/// followed to get here.
pub fn resolve_response(
    response: GoogleDnsResponse,
    rtype: &DnsRecordType,
    address: Option<Vec<u8>>,
    depth: u8,
) -> (r: Result<Resolution, ErrorType>)
    ensures
        result_view(r) == resolution_of(
            response@,
            rtype@,
            option_view(address),
            depth,
        ),
{
    if response.Status == 3 {
        return Err(ErrorType::NxDomain);
    }
    match rtype {
        DnsRecordType::SOA(_) => match to_soa(response) {
            Ok(answer) => Ok(Resolution::Answer(answer)),
            Err(error) => Err(error),
        },
        DnsRecordType::A(_) => to_a(response, depth),
        DnsRecordType::AAAA(_) => to_aaaa(response, address, depth),
        _ => Err(ErrorType::NotImplemented),
    }
}

/// A lookup in progress: the name that is asked about now, the kind of
/// record that is wanted, and the number of aliases that were followed to
/// get to the name.
#[derive(Debug)]
pub struct Lookup {
    pub name: Vec<String>,
    pub rtype: DnsRecordType,
    pub depth: u8,
}

/// What a lookup in progress holds.
pub struct LookupView {
    pub name: Seq<Seq<char>>,
    pub rtype: RecordTypeView,
    pub depth: u8,
}

impl View for Lookup {
    type V = LookupView;

    open spec fn view(&self) -> LookupView {
        LookupView { name: views(self.name@), rtype: self.rtype@, depth: self.depth }
    }
}

/// What is to be done next in a lookup.
#[derive(Debug)]
pub enum LookupStep {
    /// Upstream is to be asked again, about the name of this lookup.
    Ask(Lookup),
    /// The lookup is over.
    Done(Result<DnsAnswer, ErrorType>),
}

/// What a step of a lookup holds.
pub enum LookupStepView {
    Ask(LookupView),
    Done(Result<AnswerView, ErrorView>),
}

impl View for LookupStep {
    type V = LookupStepView;

    open spec fn view(&self) -> LookupStepView {
        match *self {
            Self::Ask(lookup) => LookupStepView::Ask(lookup@),
            Self::Done(outcome) => LookupStepView::Done(result_view(outcome)),
        }
    }
}

impl LookupView {
    /// The step that follows an upstream answer: a record or an error ends
    /// the lookup; an alias makes it go on with the name that the alias
    /// stands for, one level deeper.
    pub open spec fn next(self, response: GoogleResponseView, address: Option<Seq<u8>>) -> LookupStepView {
        match resolution_of(response, self.rtype, address, self.depth) {
            Ok(ResolutionView::Answer(answer)) => LookupStepView::Done(Ok(answer)),
            Ok(ResolutionView::Follow(name)) => LookupStepView::Ask(
                LookupView { name, rtype: self.rtype, depth: (self.depth + 1) as u8 },
            ),
            Err(error) => LookupStepView::Done(Err(error)),
        }
    }
}

impl Lookup {
    /// A lookup of the records of kind `rtype` of `name`, before upstream
    /// was asked.
    pub fn new(name: Vec<String>, rtype: DnsRecordType) -> (r: Self)
        ensures
            r@ == (LookupView { name: views(name@), rtype: rtype@, depth: 0 }),
    {
        Lookup { name: name, rtype: rtype, depth: 0 }
    }

    /// The address to ask now.
    pub fn url(&self) -> (url: String)
        ensures
            url@ == url_of(self@.name, self@.rtype),
    {
        request_url(&self.name, &self.rtype)
    }

    /// Takes the answer that upstream gave at `self.url()`. `address` holds
    /// the octets that the data of the first IPv6 address record of the
    /// answer spell, if there is such a record and its data spell an
    /// address.
    pub fn next(self, response: GoogleDnsResponse, address: Option<Vec<u8>>) -> (r: LookupStep)
        ensures
            r@ == self@.next(response@, option_view(address)),
    {
        match resolve_response(response, &self.rtype, address, self.depth) {
            Ok(Resolution::Answer(answer)) => LookupStep::Done(Ok(answer)),
            Ok(Resolution::Follow(name)) => LookupStep::Ask(
                Lookup { name: name, rtype: self.rtype, depth: self.depth + 1 },
            ),
            Err(error) => LookupStep::Done(Err(error)),
        }
    }
}

/// The address wins over the alias: where an upstream answer holds a
/// record of the kind that was asked for, no alias of the answer is
/// followed.
pub proof fn law_address_wins_over_alias(
    response: GoogleResponseView,
    address: Option<Seq<u8>>,
    depth: u8,
)
    ensures
        response.answer matches Some(records) && first_of_type(records, 1) is Some ==> !(a_outcome(
            response,
            depth,
        ) matches Ok(ResolutionView::Follow(_))),
        response.answer matches Some(records) && first_of_type(records, 28) is Some
            ==> !(aaaa_outcome(response, address, depth) matches Ok(ResolutionView::Follow(_))),
{
}

/// A lookup comes to an end: each alias that is followed takes the lookup
/// one level deeper, and at the depth of `MAX_ALIASES` none is followed.
pub proof fn law_lookup_is_bounded(
    lookup: LookupView,
    response: GoogleResponseView,
    address: Option<Seq<u8>>,
)
    ensures
        lookup.next(response, address) matches LookupStepView::Ask(deeper) ==> {
            &&& lookup.depth < MAX_ALIASES
            &&& deeper.depth == lookup.depth + 1
            &&& deeper.rtype == lookup.rtype
        },
{
}

} // verus!
