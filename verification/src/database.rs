//! The record cache: where a record of a name is kept, what a cell of the
//! cache holds, and what a lookup makes of it. The cache itself lives
//! outside the library; here are the rules that it is read and written by.

use vstd::prelude::*;
use vstd::string::StringExecFns;
use crate::decimal::{octets_text, octets_to_text};
use crate::dns_request::structs::{AnswerView, AuthRecordView, RecordTypeView};
use crate::dns_request::{DnsAnswer, DnsAuthRecord, DnsRecordType};
use crate::google_dns::{domains_to_str, record_answer};
use crate::text::{chars_of, free_of, join};
use crate::views::{option_view, views};

pub mod laws;

verus! {

/// A column of the cache: one per kind of record that is kept.
#[derive(PartialEq, Eq, Debug, Clone, Copy)]
pub enum Column {
    Ipv4,
    Ipv6,
    Cname,
    Mx,
    Loc,
    Rp,
    Certificate,
    Authority,
}

impl Column {
    /// The name of the column in the cache.
    pub open spec fn text(self) -> Seq<char> {
        match self {
            Self::Ipv4 => "ipv4"@,
            Self::Ipv6 => "ipv6"@,
            Self::Cname => "cname"@,
            Self::Mx => "mx"@,
            Self::Loc => "loc"@,
            Self::Rp => "rp"@,
            Self::Certificate => "certificate"@,
            Self::Authority => "authority"@,
        }
    }

    /// The column that keeps records of a kind, if any does.
    pub open spec fn of_kind(kind: RecordTypeView) -> Option<Column> {
        match kind {
            RecordTypeView::A(_) => Some(Self::Ipv4),
            RecordTypeView::AAAA(_) => Some(Self::Ipv6),
            RecordTypeView::CNAME(_) => Some(Self::Cname),
            RecordTypeView::MX(_) => Some(Self::Mx),
            RecordTypeView::LOC(_) => Some(Self::Loc),
            RecordTypeView::RP(_) => Some(Self::Rp),
            RecordTypeView::TLSA(_) => Some(Self::Certificate),
            RecordTypeView::SOA(_) => Some(Self::Authority),
            _ => None,
        }
    }

    /// The name of the column in the cache.
    pub fn name(&self) -> (r: &'static str)
        ensures
            r@ == self.text(),
    {
        match self {
            Self::Ipv4 => "ipv4",
            Self::Ipv6 => "ipv6",
            Self::Cname => "cname",
            Self::Mx => "mx",
            Self::Loc => "loc",
            Self::Rp => "rp",
            Self::Certificate => "certificate",
            Self::Authority => "authority",
        }
    }

    /// The column that keeps records of kind `record_type`, if any does.
    pub fn for_kind(record_type: &DnsRecordType) -> (r: Option<Column>)
        ensures
            r == Self::of_kind(record_type@),
    {
        match record_type {
            DnsRecordType::A(_) => Some(Self::Ipv4),
            DnsRecordType::AAAA(_) => Some(Self::Ipv6),
            DnsRecordType::CNAME(_) => Some(Self::Cname),
            DnsRecordType::MX(_) => Some(Self::Mx),
            DnsRecordType::LOC(_) => Some(Self::Loc),
            DnsRecordType::RP(_) => Some(Self::Rp),
            DnsRecordType::TLSA(_) => Some(Self::Certificate),
            DnsRecordType::SOA(_) => Some(Self::Authority),
            _ => None,
        }
    }
}

/// A character that the name of a zone may hold: a letter or a digit of
/// ASCII, or a hyphen.
pub open spec fn is_zone_char(c: char) -> bool {
    ('a' <= c <= 'z') || ('A' <= c <= 'Z') || ('0' <= c <= '9') || c == '-'
}

/// A zone whose name can stand in a statement of the cache: it is not
/// empty and holds no other character than letters, digits and hyphens.
pub open spec fn is_zone_name(zone: Seq<char>) -> bool {
    zone.len() >= 1 && forall|i: int| 0 <= i < zone.len() ==> is_zone_char(#[trigger] zone[i])
}

/// Tells whether `zone` can stand in a statement of the cache.
pub fn check_zone_name(zone: &str) -> (ok: bool)
    ensures
        ok == is_zone_name(zone@),
{
    let chars = chars_of(zone);
    if chars.len() == 0 {
        return false;
    }
    let mut i: usize = 0;
    while i < chars.len()
        invariant
            i <= chars.len(),
            chars@ == zone@,
            forall|k: int| 0 <= k < i ==> is_zone_char(#[trigger] chars@[k]),
        decreases chars.len() - i,
    {
        let c = chars[i];
        let ok = (c >= 'a' && c <= 'z') || (c >= 'A' && c <= 'Z') || (c >= '0' && c <= '9') || c
            == '-';
        if !ok {
            return false;
        }
        i += 1;
    }
    true
}

/// Where a record is kept: the zone of the name, which is its last label,
/// the whole name with dots, and the column of the record kind.
#[derive(Debug)]
pub struct CacheKey {
    pub zone: String,
    pub name: String,
    pub column: Column,
}

/// What a cache key holds.
pub struct CacheKeyView {
    pub zone: Seq<char>,
    pub name: Seq<char>,
    pub column: Column,
}

impl View for CacheKey {
    type V = CacheKeyView;

    open spec fn view(&self) -> CacheKeyView {
        CacheKeyView { zone: self.zone@, name: self.name@, column: self.column }
    }
}

/// The key under which the records of kind `kind` of `name` are kept.
/// There is none for a kind without column, for the empty name, and for a
/// name whose last label cannot be the name of a zone.
pub open spec fn key_of(name: Seq<Seq<char>>, kind: RecordTypeView) -> Option<CacheKeyView> {
    match Column::of_kind(kind) {
        None => None,
        Some(column) => if name.len() == 0 || !is_zone_name(name.last()) {
            None
        } else {
            Some(CacheKeyView { zone: name.last(), name: join(name, '.'), column })
        },
    }
}

/// The key under which the records of kind `record_type` of `name` are
/// kept.
pub fn cache_key(name: &Vec<String>, record_type: &DnsRecordType) -> (r: Option<CacheKey>)
    ensures
        option_view(r) == key_of(views(name@), record_type@),
{
    let column = match Column::for_kind(record_type) {
        Some(val) => val,
        None => {
            return None;
        },
    };
    if name.len() == 0 {
        return None;
    }
    let domain = name[name.len() - 1].clone();
    assert(views(name@).last() == domain@);
    if !check_zone_name(domain.as_str()) {
        return None;
    }
    let name_short = domains_to_str(name);
    Some(CacheKey { zone: domain, name: name_short, column: column })
}

/// The statement that reads the cell and the time to live of a row. Its
/// one parameter is the name of the row.
pub open spec fn select_text(key: CacheKeyView) -> Seq<char> {
    "SELECT "@ + key.column.text() + ", ttl FROM \""@ + key.zone + "\" WHERE name = ?1"@
}

/// The statement that makes the table of a zone, unless the zone has one:
/// the name of a row is its key, each column holds text and the time to
/// live is a number.
pub open spec fn create_text(key: CacheKeyView) -> Seq<char> {
    "CREATE TABLE IF NOT EXISTS \""@ + key.zone
        + "\"(name TEXT PRIMARY KEY, ipv4 TEXT, ipv6 TEXT, cname TEXT, mx TEXT, loc TEXT, rp TEXT, certificate TEXT, authority TEXT, ttl INT);"@
}

/// The statement that makes a row with every cell empty, unless the name
/// has a row. Its parameters are the name of the row and its time to live.
pub open spec fn insert_text(key: CacheKeyView) -> Seq<char> {
    "INSERT OR IGNORE INTO \""@ + key.zone + "\" VALUES (?1, '', '', '', '', '', '', '', '', ?2);"@
}

/// The statement that writes a cell. Its parameters are the name of the
/// row and the new value.
pub open spec fn update_text(key: CacheKeyView) -> Seq<char> {
    "UPDATE \""@ + key.zone + "\" SET "@ + key.column.text() + " = ?2 WHERE name = ?1"@
}

/// The statement that reads the cell and the time to live of a row.
pub fn select_statement(key: &CacheKey) -> (r: String)
    ensures
        r@ == select_text(key@),
{
    let mut request = String::from_str("SELECT ");
    request.append(key.column.name());
    request.append(", ttl FROM \"");
    request.append(key.zone.as_str());
    request.append("\" WHERE name = ?1");
    request
}

/// The statement that makes the table of a zone, unless the zone has one.
pub fn create_statement(key: &CacheKey) -> (r: String)
    ensures
        r@ == create_text(key@),
{
    let mut request = String::from_str("CREATE TABLE IF NOT EXISTS \"");
    request.append(key.zone.as_str());
    request.append(
        "\"(name TEXT PRIMARY KEY, ipv4 TEXT, ipv6 TEXT, cname TEXT, mx TEXT, loc TEXT, rp TEXT, certificate TEXT, authority TEXT, ttl INT);",
    );
    request
}

/// The statement that makes a row with every cell empty, unless the name
/// has a row.
pub fn insert_statement(key: &CacheKey) -> (r: String)
    ensures
        r@ == insert_text(key@),
{
    let mut request = String::from_str("INSERT OR IGNORE INTO \"");
    request.append(key.zone.as_str());
    request.append("\" VALUES (?1, '', '', '', '', '', '', '', '', ?2);");
    request
}

/// The statement that writes a cell.
pub fn update_statement(key: &CacheKey) -> (r: String)
    ensures
        r@ == update_text(key@),
{
    let mut request = String::from_str("UPDATE \"");
    request.append(key.zone.as_str());
    request.append("\" SET ");
    request.append(key.column.name());
    request.append(" = ?2 WHERE name = ?1");
    request
}

/// The zone of a cache key holds no quote: between the quotes of a
/// statement it cannot end the name of the table.
pub proof fn law_zone_is_quoted(name: Seq<Seq<char>>, kind: RecordTypeView)
    requires
        key_of(name, kind) is Some,
    ensures
        free_of(key_of(name, kind).unwrap().zone, '"'),
        is_zone_name(key_of(name, kind).unwrap().zone),
{
    let zone = key_of(name, kind).unwrap().zone;
    assert forall|i: int| 0 <= i < zone.len() implies zone[i] != '"' by {
        assert(is_zone_char(zone[i]));
    }
}

/// The text that the cache keeps for a record: an IPv4 address as its
/// octets in decimal with dots between them, an IPv6 address as its octets
/// in decimal with colons between them, the start of authority as the JSON
/// text `authority_json` that was made of it; for any other kind nothing.
pub open spec fn cell_text(answer: AnswerView, authority_json: Seq<char>) -> Seq<char> {
    match answer.rtype {
        RecordTypeView::A(_) => octets_text(answer.rdata, '.'),
        RecordTypeView::AAAA(_) => octets_text(answer.rdata, ':'),
        RecordTypeView::SOA(_) => authority_json,
        _ => Seq::empty(),
    }
}

/// The start-of-authority record that a record carries, if it is one.
pub open spec fn authority_in(answer: AnswerView) -> Option<AuthRecordView> {
    match answer.rtype {
        RecordTypeView::SOA(auth) => auth,
        _ => None,
    }
}

/// The start-of-authority record that `ans` carries, if it is one.
pub fn authority_of(ans: &DnsAnswer) -> (r: Option<DnsAuthRecord>)
    ensures
        option_view(r) == authority_in(ans@),
{
    match &ans.rtype {
        DnsRecordType::SOA(val) => match val {
            Some(auth) => Some(auth.clone()),
            None => None,
        },
        _ => None,
    }
}

/// The text that the cache keeps for `ans`. `authority_json` is the JSON
/// text of the start-of-authority record that `ans` carries; it is not
/// read for another kind of record.
pub fn get_val_from_ans(ans: &DnsAnswer, authority_json: &str) -> (r: String)
    ensures
        r@ == cell_text(ans@, authority_json@),
{
    match &ans.rtype {
        DnsRecordType::A(_) => octets_to_text(&ans.rdata, '.'),
        DnsRecordType::AAAA(_) => octets_to_text(&ans.rdata, ':'),
        DnsRecordType::SOA(_) => String::from_str(authority_json),
        _ => String::new(),
    }
}

/// The record kind, with its data, that a cell of the cache stands for.
/// An address is read from the text `value`; the start of authority is
/// `authority`, which is what the JSON text `value` decodes to. There is
/// none where the text does not spell the kind of record that was asked
/// for, and for the kinds that the cache does not fill.
pub open spec fn kind_of_cell(
    kind: RecordTypeView,
    value: Seq<char>,
    authority: Option<AuthRecordView>,
) -> Option<RecordTypeView> {
    match kind {
        RecordTypeView::A(_) => RecordTypeView::a_of(value),
        RecordTypeView::AAAA(_) => RecordTypeView::aaaa_of(value),
        RecordTypeView::SOA(_) => match authority {
            Some(auth) => Some(RecordTypeView::SOA(Some(auth))),
            None => None,
        },
        _ => None,
    }
}

/// The record that a cell of the cache stands for: `ans` with the kind and
/// the data of the cell attached, if the cell holds a record.
pub fn get_ans_from_val(
    value: &str,
    authority: Option<DnsAuthRecord>,
    record_type: &DnsRecordType,
    ans: DnsAnswer,
) -> (r: Option<DnsAnswer>)
    ensures
        option_view(r) == (match kind_of_cell(record_type@, value@, option_view(authority)) {
            Some(kind) => Some(ans@.record(Some(kind))),
            None => None,
        }),
{
    let record = match record_type {
        DnsRecordType::A(_) => DnsRecordType::new_a(value),
        DnsRecordType::AAAA(_) => DnsRecordType::new_aaaa(value),
        DnsRecordType::CNAME(_) => DnsRecordType::new_cname(value),
        DnsRecordType::MX(_) => DnsRecordType::new_mx(value),
        DnsRecordType::LOC(_) => DnsRecordType::new_loc(value),
        DnsRecordType::RP(_) => DnsRecordType::new_rp(value),
        DnsRecordType::TLSA(_) => DnsRecordType::new_tlsa(value),
        DnsRecordType::SOA(_) => match authority {
            Some(auth) => DnsRecordType::new_soa(auth),
            None => None,
        },
        DnsRecordType::PTR(_) => DnsRecordType::new_ptr(value),
        _ => None,
    };
    match record {
        Some(kind) => Some(ans.record(Some(kind))),
        None => None,
    }
}

/// A cell of the cache with the time to live of its row.
pub struct CellView {
    pub value: Seq<char>,
    pub ttl: u32,
}

/// What an optional row of the cache holds.
pub open spec fn row_view(row: Option<(String, u32)>) -> Option<CellView> {
    match row {
        Some((value, ttl)) => Some(CellView { value: value@, ttl }),
        None => None,
    }
}

/// What a lookup finds in the cache: the record of a cell that is there,
/// is not empty and holds a record of the kind; its class is 1 and its
/// name is left to the caller. Where it finds none, the cache is to be
/// filled from upstream.
pub open spec fn lookup_of(
    kind: RecordTypeView,
    cell: Option<CellView>,
    authority: Option<AuthRecordView>,
) -> Option<AnswerView> {
    match cell {
        None => None,
        Some(c) => if c.value.len() == 0 {
            None
        } else {
            match kind_of_cell(kind, c.value, authority) {
                Some(found) => Some(record_answer(Some(found), c.ttl)),
                None => None,
            }
        },
    }
}

/// Reads the record of kind `record_type` out of a row of the cache.
/// `row` holds the cell and the time to live that the cache gave for the
/// key, if it has the row; `authority` is what the text of the cell
/// decodes to as the JSON form of a start-of-authority record. `None`
/// says that the cache holds no such record and is to be filled.
pub fn read_row(
    record_type: &DnsRecordType,
    row: Option<(String, u32)>,
    authority: Option<DnsAuthRecord>,
) -> (r: Option<DnsAnswer>)
    ensures
        option_view(r) == lookup_of(record_type@, row_view(row), option_view(authority)),
{
    let (value, ttl) = match row {
        Some(val) => val,
        None => {
            return None;
        },
    };
    if value.as_str().is_empty() {
        return None;
    }
    let ans = DnsAnswer::default().ttl(ttl);
    let r = get_ans_from_val(value.as_str(), authority, record_type, ans);
    proof {
        let found = kind_of_cell(record_type@, value@, option_view(authority));
        if found is Some {
            assert(ans@.record(found) == record_answer(found, ttl));
        }
    }
    r
}

/// What is to be done next in a lookup of the record store.
#[derive(Debug)]
pub enum StoreStep {
    /// The row under this key is to be read from the cache.
    Read(CacheKey),
    /// The cache holds no such record: upstream is to be asked.
    Ask(CacheKey),
    /// The record that upstream gave is to be kept under this key: the
    /// table of the zone and the row of the name are made where they are
    /// missing, the row with the time to live of the record, and `value`
    /// is written into the cell. Then the record is given.
    Keep { key: CacheKey, value: String, answer: DnsAnswer },
    /// The lookup is over, with this record or with none.
    Give(Option<DnsAnswer>),
}

/// What a step of a lookup holds.
pub enum StoreStepView {
    Read(CacheKeyView),
    Ask(CacheKeyView),
    Keep { key: CacheKeyView, value: Seq<char>, answer: AnswerView },
    Give(Option<AnswerView>),
}

impl View for StoreStep {
    type V = StoreStepView;

    open spec fn view(&self) -> StoreStepView {
        match *self {
            Self::Read(key) => StoreStepView::Read(key@),
            Self::Ask(key) => StoreStepView::Ask(key@),
            Self::Keep { key, value, answer } => StoreStepView::Keep {
                key: key@,
                value: value@,
                answer: answer@,
            },
            Self::Give(record) => StoreStepView::Give(option_view(record)),
        }
    }
}

/// The first step of a lookup: the row under the key of the name is read;
/// without a key the lookup is over and gives nothing.
pub open spec fn first_step(name: Seq<Seq<char>>, kind: RecordTypeView) -> StoreStepView {
    match key_of(name, kind) {
        Some(key) => StoreStepView::Read(key),
        None => StoreStepView::Give(None),
    }
}

/// The step after the row was read: a record that the cache holds is
/// given; without one upstream is asked.
pub open spec fn step_after_row(
    key: CacheKeyView,
    kind: RecordTypeView,
    cell: Option<CellView>,
    authority: Option<AuthRecordView>,
) -> StoreStepView {
    match lookup_of(kind, cell, authority) {
        Some(record) => StoreStepView::Give(Some(record)),
        None => StoreStepView::Ask(key),
    }
}

/// The step after upstream was asked: a record that it gave is kept as
/// the text of its cell; without one the lookup is over and gives nothing,
/// and nothing is kept.
pub open spec fn step_after_upstream(
    key: CacheKeyView,
    upstream: Option<AnswerView>,
    authority_json: Seq<char>,
) -> StoreStepView {
    match upstream {
        Some(answer) => StoreStepView::Keep {
            key,
            value: cell_text(answer, authority_json),
            answer,
        },
        None => StoreStepView::Give(None),
    }
}

/// Starts a lookup of the records of kind `record_type` of `name`.
pub fn start_lookup(name: &Vec<String>, record_type: &DnsRecordType) -> (r: StoreStep)
    ensures
        r@ == first_step(views(name@), record_type@),
{
    match cache_key(name, record_type) {
        Some(key) => StoreStep::Read(key),
        None => StoreStep::Give(None),
    }
}

/// Goes on with a lookup once the row under `key` was read. `row` holds
/// the cell and the time to live that the cache gave, if it has the row;
/// `authority` is what the text of the cell decodes to as the JSON form of
/// a start-of-authority record.
pub fn after_row(
    key: CacheKey,
    record_type: &DnsRecordType,
    row: Option<(String, u32)>,
    authority: Option<DnsAuthRecord>,
) -> (r: StoreStep)
    ensures
        r@ == step_after_row(key@, record_type@, row_view(row), option_view(authority)),
{
    match read_row(record_type, row, authority) {
        Some(record) => StoreStep::Give(Some(record)),
        None => StoreStep::Ask(key),
    }
}

/// Goes on with a lookup once upstream was asked. `upstream` is the record
/// that it gave, if it gave one; `authority_json` is the JSON text of the
/// start-of-authority record that this record carries, if it carries one.
pub fn after_upstream(key: CacheKey, upstream: Option<DnsAnswer>, authority_json: &str) -> (r:
    StoreStep)
    ensures
        r@ == step_after_upstream(key@, option_view(upstream), authority_json@),
{
    match upstream {
        Some(answer) => {
            let value = get_val_from_ans(&answer, authority_json);
            StoreStep::Keep { key: key, value: value, answer: answer }
        },
        None => StoreStep::Give(None),
    }
}

} // verus!
