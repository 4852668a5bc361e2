use vstd::prelude::*;
use vstd::string::*;
use crate::errors::CatalogError;
use crate::item::ItemInfo;
use crate::numbers::{all_dec_digits, dec_val, fits_u64, parse_u64};

verus! {

/// Whether the `json` crate accepts `body` as well-formed JSON.
pub uninterp spec fn json_accepts(body: Seq<char>) -> bool;

/// The text of field `key` of the response's first published-file detail
/// record, as the `json` crate renders a value ("null" for a missing
/// field); a function of the body and the key alone.
pub uninterp spec fn detail_text_of(body: Seq<char>, key: Seq<char>) -> Seq<char>;

/// Whether field `key` of the response's first published-file detail record
/// holds a JSON number; a function of the body and the key alone.
pub uninterp spec fn detail_is_num_of(body: Seq<char>, key: Seq<char>) -> bool;

/// Whether field `key` of the response's first published-file detail record
/// holds a JSON string; a function of the body and the key alone.
pub uninterp spec fn detail_is_str_of(body: Seq<char>, key: Seq<char>) -> bool;

/// The number of members of the response's first collection detail record;
/// a function of the body alone.
pub uninterp spec fn child_count_of(body: Seq<char>) -> int;

/// The textual id of the `index`-th collection member, if that member
/// carries one; a function of the body and the index alone.
pub uninterp spec fn child_id_of(body: Seq<char>, index: int) -> Option<Seq<char>>;

/// Relies on json::parse and JsonValue's indexing and Display: renders
/// field `key` of `response.publishedfiledetails[0]` as text (a missing
/// field renders as "null"; indexing a parsed value never fails). Nothing
/// is returned exactly when the body is not JSON.
#[verifier::external_body]
fn detail_text(body: &str, key: &str) -> (r: Option<String>)
    ensures
        r is Some <==> json_accepts(body@),
        r is Some ==> r->0@ == detail_text_of(body@, key@),
{
    match json::parse(body) {
        Ok(v) => Some(v["response"]["publishedfiledetails"][0][key].to_string()),
        Err(_) => None,
    }
}

/// Relies on json::parse and JsonValue::is_number / is_string: reports the
/// JSON kind of field `key` of `response.publishedfiledetails[0]`. Nothing
/// is returned exactly when the body is not JSON.
#[verifier::external_body]
fn detail_flags(body: &str, key: &str) -> (r: Option<(bool, bool)>)
    ensures
        r is Some <==> json_accepts(body@),
        r is Some ==> (r->0).0 == detail_is_num_of(body@, key@),
        r is Some ==> (r->0).1 == detail_is_str_of(body@, key@),
{
    match json::parse(body) {
        Ok(v) => {
            let f = &v["response"]["publishedfiledetails"][0][key];
            Some((f.is_number(), f.is_string()))
        },
        Err(_) => None,
    }
}

/// Relies on json::parse and JsonValue::len: the length the `json` crate
/// reports for `response.collectiondetails[0].children` (its member count
/// for arrays and objects, zero for anything else). Nothing is returned
/// exactly when the body is not JSON.
#[verifier::external_body]
fn collection_child_count(body: &str) -> (r: Option<usize>)
    ensures
        r is Some <==> json_accepts(body@),
        r is Some ==> r->0 as int == child_count_of(body@),
{
    match json::parse(body) {
        Ok(v) => Some(v["response"]["collectiondetails"][0]["children"].len()),
        Err(_) => None,
    }
}

/// Relies on json::parse, JsonValue's indexing and as_str: the textual id
/// of the `index`-th member of `response.collectiondetails[0].children`,
/// if that member holds a string there. The outer option is empty exactly
/// when the body is not JSON.
#[verifier::external_body]
fn collection_child_id(body: &str, index: usize) -> (r: Option<Option<String>>)
    ensures
        r is Some <==> json_accepts(body@),
        r is Some ==> (r->0 is Some <==> child_id_of(body@, index as int) is Some),
        r is Some && r->0 is Some ==> r->0->0@ == child_id_of(body@, index as int)->0,
{
    match json::parse(body) {
        Ok(v) => Some(
            v["response"]["collectiondetails"][0]["children"][index]["publishedfileid"].as_str().map(
                |s| s.to_owned(),
            ),
        ),
        Err(_) => None,
    }
}

/// The text the update timestamp is read from: the `time_updated` field
/// when the catalog reports it as a number, the `time_created` field
/// otherwise.
pub open spec fn spec_timestamp_text(body: Seq<char>) -> Seq<char> {
    if detail_is_num_of(body, "time_updated"@) {
        detail_text_of(body, "time_updated"@)
    } else {
        detail_text_of(body, "time_created"@)
    }
}

/// Whether the response's timestamp text is a usable unsigned decimal.
pub open spec fn spec_timestamp_ok(body: Seq<char>) -> bool {
    &&& spec_timestamp_text(body).len() > 0
    &&& all_dec_digits(spec_timestamp_text(body))
    &&& fits_u64(spec_timestamp_text(body))
}

/// The item snapshot a well-formed response describes.
pub open spec fn spec_snapshot(item_id: u64, body: Seq<char>, info: ItemInfo) -> bool {
    &&& info.id == item_id
    &&& info.name@ == detail_text_of(body, "title"@)
    &&& info.last_updated == dec_val(spec_timestamp_text(body))
    &&& if detail_is_str_of(body, "preview_url"@) {
        info.preview_url is Some && info.preview_url->0@ == detail_text_of(body, "preview_url"@)
    } else {
        info.preview_url is None
    }
}

/// Reads a catalog-source response into an item snapshot: the display name
/// from `title`, the update timestamp from `time_updated` (falling back to
/// `time_created` when the source reports no number there), the preview
/// reference only when the source reports a string. Fails with
/// `MalformedResponse` exactly when the body is not JSON, and with
/// `BadTimestamp` exactly when the timestamp text is not an unsigned
/// decimal that fits the timestamp field.
pub fn snapshot_from_response(item_id: u64, body: &str) -> (r: Result<ItemInfo, CatalogError>)
    ensures
        r is Ok <==> json_accepts(body@) && spec_timestamp_ok(body@),
        r is Ok ==> spec_snapshot(item_id, body@, r->Ok_0),
        !json_accepts(body@) <==> r == Result::<ItemInfo, CatalogError>::Err(
            CatalogError::MalformedResponse,
        ),
        json_accepts(body@) && !spec_timestamp_ok(body@) <==> r == Result::<
            ItemInfo,
            CatalogError,
        >::Err(CatalogError::BadTimestamp),
{
    let title = match detail_text(body, "title") {
        Option::Some(t) => t,
        Option::None => {
            return Result::Err(CatalogError::MalformedResponse);
        },
    };
    let flags = match detail_flags(body, "time_updated") {
        Option::Some(f) => f,
        Option::None => {
            return Result::Err(CatalogError::MalformedResponse);
        },
    };
    let ts_text = if flags.0 {
        match detail_text(body, "time_updated") {
            Option::Some(t) => t,
            Option::None => {
                return Result::Err(CatalogError::MalformedResponse);
            },
        }
    } else {
        match detail_text(body, "time_created") {
            Option::Some(t) => t,
            Option::None => {
                return Result::Err(CatalogError::MalformedResponse);
            },
        }
    };
    let last_updated = match parse_u64(ts_text.as_str()) {
        Option::Some(v) => v,
        Option::None => {
            return Result::Err(CatalogError::BadTimestamp);
        },
    };
    let pflags = match detail_flags(body, "preview_url") {
        Option::Some(f) => f,
        Option::None => {
            return Result::Err(CatalogError::MalformedResponse);
        },
    };
    let preview_url = if pflags.1 {
        match detail_text(body, "preview_url") {
            Option::Some(p) => Option::Some(p),
            Option::None => {
                return Result::Err(CatalogError::MalformedResponse);
            },
        }
    } else {
        Option::None
    };
    Result::Ok(ItemInfo { id: item_id, name: title, last_updated, preview_url })
}

/// Whether the `index`-th collection member carries a usable numeric id.
pub open spec fn spec_child_ok(body: Seq<char>, index: int) -> bool {
    &&& child_id_of(body, index) is Some
    &&& child_id_of(body, index)->0.len() > 0
    &&& all_dec_digits(child_id_of(body, index)->0)
    &&& fits_u64(child_id_of(body, index)->0)
}

/// Reads a collection response into the member item ids, in order. Succeeds
/// exactly when the body is JSON and every member carries a textual id that
/// is an unsigned decimal in range; a member without an id gives
/// `MissingChildId`, one whose id is not such a decimal gives `BadChildId`.
pub fn collection_ids_from_response(body: &str) -> (r: Result<Vec<u64>, CatalogError>)
    ensures
        !json_accepts(body@) <==> r == Result::<Vec<u64>, CatalogError>::Err(
            CatalogError::MalformedResponse,
        ),
        r is Ok <==> json_accepts(body@) && (forall|i: int|
            0 <= i < child_count_of(body@) ==> spec_child_ok(body@, i)),
        r is Ok ==> r->Ok_0@.len() == child_count_of(body@),
        r is Ok ==> forall|i: int|
            0 <= i < child_count_of(body@) ==> r->Ok_0@[i] == dec_val(child_id_of(body@, i)->0),
        r == Result::<Vec<u64>, CatalogError>::Err(CatalogError::MissingChildId) ==> exists|i: int|
            0 <= i < child_count_of(body@) && child_id_of(body@, i) is None,
        r == Result::<Vec<u64>, CatalogError>::Err(CatalogError::BadChildId) ==> exists|i: int|
            0 <= i < child_count_of(body@) && child_id_of(body@, i) is Some && !spec_child_ok(
                body@,
                i,
            ),
{
    let count = match collection_child_count(body) {
        Option::Some(c) => c,
        Option::None => {
            return Result::Err(CatalogError::MalformedResponse);
        },
    };
    let mut ids: Vec<u64> = Vec::new();
    let mut i: usize = 0;
    while i < count
        invariant
            i <= count,
            json_accepts(body@),
            count as int == child_count_of(body@),
            ids@.len() == i,
            forall|k: int| 0 <= k < i ==> spec_child_ok(body@, k),
            forall|k: int| 0 <= k < i ==> ids@[k] == dec_val(child_id_of(body@, k)->0),
        decreases count - i,
    {
        let id_text = match collection_child_id(body, i) {
            Option::Some(t) => t,
            Option::None => {
                return Result::Err(CatalogError::MalformedResponse);
            },
        };
        let id_text = match id_text {
            Option::Some(t) => t,
            Option::None => {
                proof {
                    assert(child_id_of(body@, i as int) is None);
                    assert(!spec_child_ok(body@, i as int));
                    assert(0 <= (i as int) < child_count_of(body@) && child_id_of(
                        body@,
                        i as int,
                    ) is None);
                }
                return Result::Err(CatalogError::MissingChildId);
            },
        };
        let id = match parse_u64(id_text.as_str()) {
            Option::Some(v) => v,
            Option::None => {
                proof {
                    assert(child_id_of(body@, i as int) is Some);
                    assert(!spec_child_ok(body@, i as int));
                    assert(0 <= (i as int) < child_count_of(body@) && child_id_of(
                        body@,
                        i as int,
                    ) is Some && !spec_child_ok(body@, i as int));
                }
                return Result::Err(CatalogError::BadChildId);
            },
        };
        ids.push(id);
        i = i + 1;
    }
    Result::Ok(ids)
}

} // verus!
