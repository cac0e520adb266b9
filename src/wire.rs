//! The record form of the data file: each record with its identifier and
//! instants as text, and the conversions to and from store records.

use vstd::prelude::*;
use crate::record::{Record, RecordId, RecordView};
use crate::store::{RecordStore, StoreError, ids_distinct, has_id, valid_records, views};
use crate::timestamp::{
    Timestamp, TimeError, format_time, legacy_instant, parse_time, rfc3339_format, rfc3339_parse,
    timestamp_from_fields,
};

verus! {

/// An instant as the data file holds it: RFC 3339 text, or the older
/// structured form of nine integers, which is read but never written.
#[derive(Debug)]
pub enum WireTime {
    Text(String),
    Fields(Vec<i64>),
}

pub enum WireTimeView {
    Text(Seq<char>),
    Fields(Seq<i64>),
}

impl View for WireTime {
    type V = WireTimeView;

    open spec fn view(&self) -> WireTimeView {
        match self {
            WireTime::Text(s) => WireTimeView::Text(s@),
            WireTime::Fields(f) => WireTimeView::Fields(f@),
        }
    }
}

/// A record as the data file holds it.
#[derive(Debug)]
pub struct WireRecord {
    pub id: String,
    pub title: String,
    pub target: WireTime,
    pub created_at: WireTime,
}

pub struct WireRecordView {
    pub id: Seq<char>,
    pub title: Seq<char>,
    pub target: WireTimeView,
    pub created_at: WireTimeView,
}

impl View for WireRecord {
    type V = WireRecordView;

    open spec fn view(&self) -> WireRecordView {
        WireRecordView {
            id: self.id@,
            title: self.title@,
            target: self.target@,
            created_at: self.created_at@,
        }
    }
}

/// Why the contents of the data file do not make a store.
#[derive(Clone, Copy, Debug, PartialEq, Eq, Structural)]
pub enum DecodeError {
    /// An identifier is not a UUID.
    BadId,
    /// An instant is neither RFC 3339 text nor a valid structured form.
    BadTimestamp,
    /// Two records share an identifier.
    DuplicateId,
}

pub open spec fn hex_char(n: int) -> char {
    seq!['0', '1', '2', '3', '4', '5', '6', '7', '8', '9', 'a', 'b', 'c', 'd', 'e', 'f'][n]
}

/// The last `k` hexadecimal digits of `v`, most significant first.
pub open spec fn hex_digits(v: nat, k: nat) -> Seq<char>
    decreases k,
{
    if k == 0 {
        Seq::empty()
    } else {
        hex_digits(v / 16, (k - 1) as nat).push(hex_char((v % 16) as int))
    }
}

/// The hyphenated lower-case text of a UUID: 32 hexadecimal digits in groups
/// of 8, 4, 4, 4 and 12.
pub open spec fn hyphenated(v: u128) -> Seq<char> {
    let d = hex_digits(v as nat, 32);
    d.subrange(0, 8) + seq!['-'] + d.subrange(8, 12) + seq!['-'] + d.subrange(12, 16) + seq!['-']
        + d.subrange(16, 20) + seq!['-'] + d.subrange(20, 32)
}

/// What `uuid::Uuid::parse_str` makes of a text, as 128 bits.
pub uninterp spec fn uuid_parse(s: Seq<char>) -> Option<u128>;

/// Relies on `uuid::Uuid::from_u128` and the `Display` impl of `Uuid`, which
/// writes the hyphenated lower-case form, one of the forms that
/// `Uuid::parse_str` reads back.
#[verifier::external_body]
fn uuid_text(id: RecordId) -> (r: String)
    ensures
        r@ == hyphenated(id.value),
        uuid_parse(r@) == Some(id.value),
{
    uuid::Uuid::from_u128(id.value).to_string()
}

/// Relies on `uuid::Uuid::parse_str`: the result depends on the text alone.
#[verifier::external_body]
fn parse_uuid(s: &str) -> (r: Option<RecordId>)
    ensures
        match r {
            Some(id) => uuid_parse(s@) == Some(id.value),
            None => uuid_parse(s@) is None,
        },
{
    let u = uuid::Uuid::parse_str(s).ok()?;
    Some(RecordId { value: u.as_u128() })
}

/// The text of a record identifier.
pub fn id_text(id: RecordId) -> (r: String)
    ensures
        r@ == hyphenated(id.value),
        uuid_parse(r@) == Some(id.value),
{
    uuid_text(id)
}

/// Reads a record identifier from its text.
pub fn parse_id(s: &str) -> (r: Option<RecordId>)
    ensures
        match r {
            Some(id) => uuid_parse(s@) == Some(id.value),
            None => uuid_parse(s@) is None,
        },
{
    parse_uuid(s)
}

/// Both instants of the record can be written as text.
pub open spec fn writable(r: RecordView) -> bool {
    r.target.has_text_form() && r.created_at.has_text_form()
}

/// The file form of a record.
pub open spec fn encode_spec(r: RecordView) -> WireRecordView {
    WireRecordView {
        id: hyphenated(r.id.value),
        title: r.title,
        target: WireTimeView::Text(rfc3339_format(r.target)),
        created_at: WireTimeView::Text(rfc3339_format(r.created_at)),
    }
}

/// The instant that a file form stands for.
pub open spec fn decode_time_spec(w: WireTimeView) -> Option<Timestamp> {
    match w {
        WireTimeView::Text(s) => rfc3339_parse(s),
        WireTimeView::Fields(f) => legacy_instant(f),
    }
}

/// The record that a file form stands for.
pub open spec fn decode_spec(w: WireRecordView) -> Option<RecordView> {
    match (uuid_parse(w.id), decode_time_spec(w.target), decode_time_spec(w.created_at)) {
        (Some(v), Some(t), Some(c)) => Some(
            RecordView { id: RecordId { value: v }, title: w.title, target: t, created_at: c },
        ),
        _ => None,
    }
}

/// The error that reading a file form gives, if any: the identifier is
/// checked first, then the two instants.
pub open spec fn record_error(w: WireRecordView) -> Option<DecodeError> {
    if uuid_parse(w.id) is None {
        Some(DecodeError::BadId)
    } else if decode_time_spec(w.target) is None || decode_time_spec(w.created_at) is None {
        Some(DecodeError::BadTimestamp)
    } else {
        None
    }
}

/// Reading the file forms stops at position `i` with error `e`: every earlier
/// form stands for a record, with distinct identifiers, and the form at `i`
/// either fails by itself with `e`, or stands for a record whose identifier
/// an earlier one has, with `e` the duplicate error.
pub open spec fn fails_at(ws: Seq<WireRecordView>, i: int, e: DecodeError) -> bool {
    &&& 0 <= i < ws.len()
    &&& forall|k: int| 0 <= k < i ==> (#[trigger] decode_spec(ws[k])) is Some
    &&& ids_distinct(decoded(ws.take(i)))
    &&& match record_error(ws[i]) {
        Some(x) => e == x,
        None => e == DecodeError::DuplicateId && has_id(decoded(ws.take(i)), (decode_spec(ws[i])->0).id),
    }
}

/// The records that a sequence of file forms stands for, where each stands
/// for one.
pub open spec fn decoded(ws: Seq<WireRecordView>) -> Seq<RecordView> {
    ws.map_values(|w: WireRecordView| decode_spec(w)->0)
}

/// Every file form stands for a record, and no two share an identifier.
pub open spec fn decodable(ws: Seq<WireRecordView>) -> bool {
    (forall|i: int| 0 <= i < ws.len() ==> (#[trigger] decode_spec(ws[i])) is Some) && ids_distinct(
        decoded(ws),
    )
}

pub open spec fn wire_views(ws: Seq<WireRecord>) -> Seq<WireRecordView> {
    ws.map_values(|w: WireRecord| w@)
}

/// The file form of a record; `Internal` where an instant has no text form.
pub fn encode_record(r: &Record) -> (res: Result<WireRecord, StoreError>)
    requires
        r@.wf(),
    ensures
        res is Ok <==> writable(r@),
        res matches Err(e) ==> e == StoreError::Internal,
        res matches Ok(w) ==> w@ == encode_spec(r@) && decode_spec(w@) == Some(r@),
{
    let target = match serialize(r.target) {
        Some(w) => w,
        None => return Err(StoreError::Internal),
    };
    let created_at = match serialize(r.created_at) {
        Some(w) => w,
        None => return Err(StoreError::Internal),
    };
    Ok(
        WireRecord {
            id: id_text(r.id),
            title: r.title.clone(),
            target,
            created_at,
        },
    )
}

/// The file forms of a store's records, in order; `Internal` where some
/// instant has no text form. What it writes reads back, by `load_store`, as
/// the same records in the same order: `decoded` is what `load_store` gives.
pub fn encode_records(store: &RecordStore) -> (res: Result<Vec<WireRecord>, StoreError>)
    requires
        store.wf(),
    ensures
        res is Ok <==> forall|i: int| 0 <= i < store@.len() ==> writable(#[trigger] store@[i]),
        res matches Err(e) ==> e == StoreError::Internal,
        res matches Ok(ws) ==> {
            &&& wire_views(ws@) == store@.map_values(|r: RecordView| encode_spec(r))
            &&& decodable(wire_views(ws@))
            &&& decoded(wire_views(ws@)) == store@
        },
{
    let rs = store.list();
    proof {
        store.lemma_wf_records();
    }
    let mut out: Vec<WireRecord> = Vec::new();
    let mut i: usize = 0;
    while i < rs.len()
        invariant
            views(rs@) == store@,
            valid_records(store@),
            i <= rs.len(),
            forall|k: int| 0 <= k < i ==> writable(#[trigger] store@[k]),
            forall|k: int| 0 <= k < i ==> decode_spec(encode_spec(#[trigger] store@[k])) == Some(store@[k]),
            wire_views(out@) =~= store@.take(i as int).map_values(|r: RecordView| encode_spec(r)),
        decreases rs.len() - i,
    {
        assert(rs@[i as int]@ == store@[i as int]);
        let w = match encode_record(&rs[i]) {
            Ok(w) => w,
            Err(e) => return Err(e),
        };
        let ghost prev = out@;
        out.push(w);
        assert(wire_views(out@) =~= wire_views(prev).push(w@));
        assert(store@.take(i as int + 1) =~= store@.take(i as int).push(store@[i as int]));
        i = i + 1;
    }
    assert(store@.take(i as int) =~= store@);
    assert forall|k: int| 0 <= k < wire_views(out@).len() implies decode_spec(wire_views(out@)[k]) == Some(store@[k]) by {
        assert(wire_views(out@)[k] == encode_spec(store@[k]));
    }
    assert(decoded(wire_views(out@)) =~= store@);
    Ok(out)
}

/// The file form of an instant: always RFC 3339 text; `None` where that form
/// cannot hold the instant.
pub fn serialize(t: Timestamp) -> (r: Option<WireTime>)
    requires
        t.wf(),
    ensures
        r is Some <==> t.has_text_form(),
        r matches Some(w) ==> w@ == WireTimeView::Text(rfc3339_format(t)) && decode_time_spec(w@)
            == Some(t),
{
    match format_time(t) {
        Some(s) => Some(WireTime::Text(s)),
        None => None,
    }
}

/// The instant that a file form stands for: RFC 3339 text, or the older
/// structured form.
pub fn deserialize(w: &WireTime) -> (r: Result<Timestamp, TimeError>)
    ensures
        r is Ok <==> decode_time_spec(w@) is Some,
        r matches Ok(t) ==> decode_time_spec(w@) == Some(t) && t.wf(),
        r matches Err(e) ==> e == match w@ {
            WireTimeView::Text(_) => TimeError::BadText,
            WireTimeView::Fields(_) => TimeError::BadFields,
        },
{
    match w {
        WireTime::Text(s) => parse_time(s.as_str()),
        WireTime::Fields(f) => timestamp_from_fields(f),
    }
}

/// The record that a file form stands for.
pub fn decode_record(w: &WireRecord) -> (r: Result<Record, DecodeError>)
    ensures
        r is Ok <==> decode_spec(w@) is Some,
        r matches Ok(rec) ==> decode_spec(w@) == Some(rec@) && rec@.wf(),
        r matches Err(e) ==> record_error(w@) == Some(e),
        r is Ok <==> record_error(w@) is None,
{
    let id = match parse_id(w.id.as_str()) {
        Some(id) => id,
        None => return Err(DecodeError::BadId),
    };
    let target = match deserialize(&w.target) {
        Ok(t) => t,
        Err(_) => return Err(DecodeError::BadTimestamp),
    };
    let created_at = match deserialize(&w.created_at) {
        Ok(t) => t,
        Err(_) => return Err(DecodeError::BadTimestamp),
    };
    Ok(Record { id, title: w.title.clone(), target, created_at })
}

/// The store that the contents of the data file stand for, with the records
/// in file order.
pub fn load_store(ws: &Vec<WireRecord>) -> (r: Result<RecordStore, DecodeError>)
    ensures
        r is Ok <==> decodable(wire_views(ws@)),
        r matches Ok(s) ==> s.wf() && s@ == decoded(wire_views(ws@)),
        r matches Err(e) ==> exists|i: int| fails_at(wire_views(ws@), i, e),
{
    let ghost wv = wire_views(ws@);
    let mut store = RecordStore::new();
    let mut i: usize = 0;
    while i < ws.len()
        invariant
            wv == wire_views(ws@),
            i <= ws.len(),
            store.wf(),
            forall|k: int| 0 <= k < i ==> (#[trigger] decode_spec(wv[k])) is Some,
            store@ =~= decoded(wv.take(i as int)),
        decreases ws.len() - i,
    {
        assert(ws@[i as int]@ == wv[i as int]);
        let rec = match decode_record(&ws[i]) {
            Ok(rec) => rec,
            Err(e) => {
                proof {
                    store.lemma_wf_records();
                    assert(fails_at(wv, i as int, e));
                }
                return Err(e);
            },
        };
        let ghost before = store@;
        match store.insert_new(rec.id, rec.title, rec.target, rec.created_at) {
            Ok(_) => {},
            Err(_) => {
                proof {
                    let k = choose|k: int| 0 <= k < before.len() && before[k].id == rec.id;
                    assert(decoded(wv)[k] == before[k]);
                    assert(decoded(wv)[i as int].id == rec.id);
                    store.lemma_wf_records();
                    assert(store@ == before);
                    assert(decode_spec(wv[i as int]) == Some(rec@));
                    assert(has_id(decoded(wv.take(i as int)), rec.id));
                    assert(fails_at(wv, i as int, DecodeError::DuplicateId));
                }
                return Err(DecodeError::DuplicateId);
            },
        }
        assert(wv.take(i as int + 1) =~= wv.take(i as int).push(wv[i as int]));
        i = i + 1;
    }
    assert(wv.take(i as int) =~= wv);
    proof {
        store.lemma_wf_records();
    }
    Ok(store)
}

} // verus!
