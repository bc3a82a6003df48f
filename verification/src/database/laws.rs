//! The record store as a whole: what a lookup does to the cache, and what
//! holds of two lookups in a row.

use vstd::prelude::*;
use crate::database::{
    cell_text, first_step, key_of, lookup_of, step_after_row, step_after_upstream, CacheKeyView,
    CellView, Column, StoreStepView,
};
use crate::decimal::{law_octets_round_trip, lemma_octets_text_not_empty};
use crate::dns_request::structs::{AnswerView, AuthRecordView, RecordTypeView};

verus! {

/// A row of the cache: its time to live and the text of its cells. A
/// column without text is an empty cell.
pub struct RowView {
    pub ttl: u32,
    pub cells: Map<Column, Seq<char>>,
}

/// The cache: its rows by zone and name.
pub struct StoreView {
    pub rows: Map<(Seq<char>, Seq<char>), RowView>,
}

impl StoreView {
    /// The cell under a key with the time to live of its row, if the row
    /// is there.
    pub open spec fn cell(self, key: CacheKeyView) -> Option<CellView> {
        if self.rows.dom().contains((key.zone, key.name)) {
            let row = self.rows[(key.zone, key.name)];
            Some(
                CellView {
                    value: if row.cells.dom().contains(key.column) {
                        row.cells[key.column]
                    } else {
                        Seq::empty()
                    },
                    ttl: row.ttl,
                },
            )
        } else {
            None
        }
    }

    /// The cache after a fill: a row that is missing is made with the time
    /// to live `ttl`, a row that is there keeps its own; then the cell is
    /// written.
    pub open spec fn write(self, key: CacheKeyView, value: Seq<char>, ttl: u32) -> StoreView {
        let at = (key.zone, key.name);
        let row = if self.rows.dom().contains(at) {
            self.rows[at]
        } else {
            RowView { ttl, cells: Map::empty() }
        };
        StoreView {
            rows: self.rows.insert(
                at,
                RowView { ttl: row.ttl, cells: row.cells.insert(key.column, value) },
            ),
        }
    }
}

/// What a lookup in the record store comes to: the cache after it, the
/// record that it gives, and whether upstream was asked.
pub struct GetView {
    pub store: StoreView,
    pub record: Option<AnswerView>,
    pub asked: bool,
}

/// The JSON text that is kept for a record: that of its start-of-authority
/// record, if it carries one.
pub open spec fn json_of(answer: AnswerView, encode: spec_fn(AuthRecordView) -> Seq<char>) -> Seq<
    char,
> {
    match answer.rtype {
        RecordTypeView::SOA(Some(auth)) => encode(auth),
        _ => Seq::empty(),
    }
}

/// One lookup of the records of kind `kind` of `name`, step by step as
/// `first_step`, `step_after_row` and `step_after_upstream` direct it. A
/// record that the cache holds is given as it is, and the cache stays as
/// it is. Else upstream is asked: `upstream` is the record that it gives,
/// if it gives one; that record is kept in the cache and given back.
/// `decode` and `encode` stand for the JSON decoder and encoder of
/// start-of-authority records.
pub open spec fn get_of(
    store: StoreView,
    name: Seq<Seq<char>>,
    kind: RecordTypeView,
    upstream: Option<AnswerView>,
    decode: spec_fn(Seq<char>) -> Option<AuthRecordView>,
    encode: spec_fn(AuthRecordView) -> Seq<char>,
) -> GetView {
    match first_step(name, kind) {
        StoreStepView::Read(key) => {
            let cell = store.cell(key);
            let authority = match cell {
                Some(c) => decode(c.value),
                None => None,
            };
            match step_after_row(key, kind, cell, authority) {
                StoreStepView::Ask(at) => {
                    let json = match upstream {
                        Some(answer) => json_of(answer, encode),
                        None => Seq::empty(),
                    };
                    match step_after_upstream(at, upstream, json) {
                        StoreStepView::Keep { key, value, answer } => GetView {
                            store: store.write(key, value, answer.ttl),
                            record: Some(answer),
                            asked: true,
                        },
                        StoreStepView::Give(record) => GetView { store, record, asked: true },
                        _ => GetView { store, record: None, asked: true },
                    }
                },
                StoreStepView::Give(record) => GetView { store, record, asked: false },
                _ => GetView { store, record: None, asked: false },
            }
        },
        StoreStepView::Give(record) => GetView { store, record, asked: false },
        _ => GetView { store, record: None, asked: false },
    }
}

/// What a lookup comes to, said at once: without a key nothing is given
/// and nobody is asked; a record that the cache holds is given and nobody
/// is asked; else upstream is asked, and what it gives is kept under the
/// key and given.
pub proof fn law_lookup_in_steps(
    store: StoreView,
    name: Seq<Seq<char>>,
    kind: RecordTypeView,
    upstream: Option<AnswerView>,
    decode: spec_fn(Seq<char>) -> Option<AuthRecordView>,
    encode: spec_fn(AuthRecordView) -> Seq<char>,
)
    ensures
        get_of(store, name, kind, upstream, decode, encode) == (match key_of(name, kind) {
            None => GetView { store, record: None, asked: false },
            Some(key) => {
                let cell = store.cell(key);
                let authority = match cell {
                    Some(c) => decode(c.value),
                    None => None,
                };
                match lookup_of(kind, cell, authority) {
                    Some(record) => GetView { store, record: Some(record), asked: false },
                    None => match upstream {
                        None => GetView { store, record: None, asked: true },
                        Some(answer) => GetView {
                            store: store.write(
                                key,
                                cell_text(answer, json_of(answer, encode)),
                                answer.ttl,
                            ),
                            record: Some(answer),
                            asked: true,
                        },
                    },
                }
            },
        }),
{
}

/// Cache idempotence: where the cache holds a record, a lookup gives it
/// without asking upstream and leaves the cache as it is, so that a second
/// lookup gives the same record, again without asking upstream, whatever
/// upstream would have said.
pub proof fn law_cache_idempotence(
    store: StoreView,
    name: Seq<Seq<char>>,
    kind: RecordTypeView,
    first_upstream: Option<AnswerView>,
    second_upstream: Option<AnswerView>,
    decode: spec_fn(Seq<char>) -> Option<AuthRecordView>,
    encode: spec_fn(AuthRecordView) -> Seq<char>,
)
    requires
        get_of(store, name, kind, None, decode, encode).record is Some,
    ensures
        ({
            let first = get_of(store, name, kind, first_upstream, decode, encode);
            let second = get_of(first.store, name, kind, second_upstream, decode, encode);
            &&& !first.asked
            &&& first.store == store
            &&& !second.asked
            &&& second.record == first.record
            &&& second.store == store
        }),
{
}

/// An address record that upstream gave: kind A with four octets, or kind
/// AAAA with sixteen.
pub open spec fn address_record(answer: AnswerView) -> bool {
    ||| answer.rtype == RecordTypeView::A(Some(answer.rdata)) && answer.rdata.len() == 4
    ||| answer.rtype == RecordTypeView::AAAA(Some(answer.rdata)) && answer.rdata.len() == 16
}

/// Fill, then hit: where a lookup of an address had to ask upstream and
/// got an address record, the next lookup gives a record of the same kind
/// with the same octets out of the cache, without asking upstream.
pub proof fn law_fill_then_hit(
    store: StoreView,
    name: Seq<Seq<char>>,
    kind: RecordTypeView,
    answer: AnswerView,
    second_upstream: Option<AnswerView>,
    decode: spec_fn(Seq<char>) -> Option<AuthRecordView>,
    encode: spec_fn(AuthRecordView) -> Seq<char>,
)
    requires
        get_of(store, name, kind, Some(answer), decode, encode).asked,
        address_record(answer),
        kind is A <==> answer.rtype is A,
        kind is AAAA <==> answer.rtype is AAAA,
    ensures
        ({
            let first = get_of(store, name, kind, Some(answer), decode, encode);
            let second = get_of(first.store, name, kind, second_upstream, decode, encode);
            &&& first.record == Some(answer)
            &&& !second.asked
            &&& second.store == first.store
            &&& second.record matches Some(found) && found.rtype == answer.rtype && found.rdata
                == answer.rdata && found.class == 1
        }),
{
    law_octets_round_trip(answer.rdata, '.');
    law_octets_round_trip(answer.rdata, ':');
    let key = key_of(name, kind).unwrap();
    let first = get_of(store, name, kind, Some(answer), decode, encode);
    let cell = first.store.cell(key);
    assert(cell is Some);
    assert(cell.unwrap().value == cell_text(answer, json_of(answer, encode)));
    lemma_octets_text_not_empty(answer.rdata, '.');
    lemma_octets_text_not_empty(answer.rdata, ':');
}

} // verus!
