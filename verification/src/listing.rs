//! Reading the remote feed's JSON responses.
//!
//! The listing endpoint answers with an object whose `items` array carries
//! one `advNoticeId` per entry; the user-lookup endpoint answers with an
//! object carrying an `email` string. serde_json parses and navigates the
//! values behind the trusted wrappers below; what each navigation step
//! returns is a function of its argument alone, so it is given a name, and
//! the readers' contracts are exact over those names: a response without a
//! usable `items` array fails as a whole, while a single entry without a
//! numeric `advNoticeId` is skipped without failing the batch.

use vstd::prelude::*;

verus! {

#[verifier::external_type_specification]
#[verifier::external_body]
pub struct ExValue(serde_json::Value);

/// The JSON document a text parses to; `None` when it is not well-formed
/// JSON.
pub uninterp spec fn json_doc_of(text: Seq<char>) -> Option<serde_json::Value>;

/// The member a JSON value holds under a key; `None` when the value is not
/// an object or has no such member.
pub uninterp spec fn member_of(v: serde_json::Value, key: Seq<char>) -> Option<serde_json::Value>;

/// The elements of a JSON value; `None` when it is not an array.
pub uninterp spec fn elements_of(v: serde_json::Value) -> Option<Seq<serde_json::Value>>;

/// The number a JSON value carries; `None` unless it is a non-negative
/// integer in range.
pub uninterp spec fn u64_of(v: serde_json::Value) -> Option<u64>;

/// The text a JSON value carries; `None` when it is not a string.
pub uninterp spec fn str_of(v: serde_json::Value) -> Option<Seq<char>>;

/// Relies on serde_json::from_str: parses one JSON document from text — a
/// function of the text alone — failing on malformed input.
#[verifier::external_body]
fn parse_json(text: &str) -> (r: Option<serde_json::Value>)
    ensures
        r == json_doc_of(text@),
{
    serde_json::from_str(text).ok()
}

/// Relies on serde_json::Value::get: the member a JSON object holds under a
/// key, `None` on a non-object or an absent key.
#[verifier::external_body]
fn json_get<'a>(v: &'a serde_json::Value, key: &str) -> (r: Option<&'a serde_json::Value>)
    ensures
        match r {
            Some(m) => member_of(*v, key@) == Some(*m),
            None => member_of(*v, key@) is None,
        },
{
    v.get(key)
}

/// Relies on serde_json::Value::as_array: the elements of a JSON array,
/// `None` on any other kind of value.
#[verifier::external_body]
fn json_as_array(v: &serde_json::Value) -> (r: Option<&Vec<serde_json::Value>>)
    ensures
        match r {
            Some(a) => elements_of(*v) == Some(a@),
            None => elements_of(*v) is None,
        },
{
    v.as_array()
}

/// Relies on serde_json::Value::as_u64: the value of a JSON number that is a
/// non-negative integer in range, `None` otherwise.
#[verifier::external_body]
fn json_as_u64(v: &serde_json::Value) -> (r: Option<u64>)
    ensures
        r == u64_of(*v),
{
    v.as_u64()
}

/// Relies on serde_json::Value::as_str: the text of a JSON string, `None` on
/// any other kind of value.
#[verifier::external_body]
fn json_as_str<'a>(v: &'a serde_json::Value) -> (r: Option<&'a str>)
    ensures
        match r {
            Some(s) => str_of(*v) == Some(s@),
            None => str_of(*v) is None,
        },
{
    v.as_str()
}

/// The entries of a listing response: the document, its `items` member, that
/// member's elements — `None` as soon as one step fails.
pub open spec fn listing_entries_of(text: Seq<char>) -> Option<Seq<serde_json::Value>> {
    match json_doc_of(text) {
        None => None,
        Some(doc) => match member_of(doc, "items"@) {
            None => None,
            Some(items) => elements_of(items),
        },
    }
}

/// The identifier one listing entry carries, if it has a numeric
/// `advNoticeId` member.
pub open spec fn entry_id_of(entry: serde_json::Value) -> Option<u64> {
    match member_of(entry, "advNoticeId"@) {
        None => None,
        Some(idv) => u64_of(idv),
    }
}

/// The identifiers of the well-formed entries, in entry order; an entry
/// without a numeric `advNoticeId` contributes nothing.
pub open spec fn kept_ids_of(entries: Seq<serde_json::Value>) -> Seq<u64>
    decreases entries.len(),
{
    if entries.len() == 0 {
        Seq::empty()
    } else {
        let pre = kept_ids_of(entries.drop_last());
        match entry_id_of(entries.last()) {
            Some(id) => pre.push(id),
            None => pre,
        }
    }
}

/// The address a user-lookup response carries: the document, its `email`
/// member, that member's text — `None` as soon as one step fails.
pub open spec fn email_of(text: Seq<char>) -> Option<Seq<char>> {
    match json_doc_of(text) {
        None => None,
        Some(doc) => match member_of(doc, "email"@) {
            None => None,
            Some(field) => str_of(field),
        },
    }
}

/// The notice identifiers one listing response carries: the `advNoticeId` of
/// each well-formed entry under `items`, in response order. The read fails
/// as a whole exactly when the response is not JSON, has no `items` member,
/// or `items` is not an array; an entry without a numeric `advNoticeId` is
/// skipped, the others are kept.
pub fn listing_ids(text: &str) -> (r: Option<Vec<u64>>)
    ensures
        match r {
            Some(ids) => listing_entries_of(text@) matches Some(entries) && ids@ == kept_ids_of(
                entries,
            ),
            None => listing_entries_of(text@) is None,
        },
{
    let parsed = match parse_json(text) {
        Some(v) => v,
        None => {
            return None;
        },
    };
    let items = match json_get(&parsed, "items") {
        Some(v) => v,
        None => {
            return None;
        },
    };
    let entries = match json_as_array(items) {
        Some(a) => a,
        None => {
            return None;
        },
    };
    proof {
        assert(listing_entries_of(text@) == Some(entries@));
    }
    let mut ids: Vec<u64> = Vec::new();
    let mut i: usize = 0;
    while i < entries.len()
        invariant
            0 <= i <= entries@.len(),
            ids@ == kept_ids_of(entries@.subrange(0, i as int)),
        decreases entries@.len() - i,
    {
        let ghost pre = entries@.subrange(0, i as int);
        match json_get(&entries[i], "advNoticeId") {
            Some(idv) => match json_as_u64(idv) {
                Some(id) => ids.push(id),
                None => (),
            },
            None => (),
        }
        proof {
            assert(entries@.subrange(0, i + 1).drop_last() =~= pre);
            assert(entries@.subrange(0, i + 1).last() == entries@[i as int]);
        }
        i += 1;
    }
    proof {
        assert(entries@.subrange(0, entries@.len() as int) =~= entries@);
    }
    Some(ids)
}

/// The address one user-lookup response carries under its `email` member, or
/// `None` when the response is not JSON or has no string `email` member —
/// that one resolution fails, others are unaffected.
pub fn email_from_response(text: &str) -> (r: Option<String>)
    ensures
        match r {
            Some(e) => email_of(text@) == Some(e@),
            None => email_of(text@) is None,
        },
{
    let parsed = match parse_json(text) {
        Some(v) => v,
        None => {
            return None;
        },
    };
    let field = match json_get(&parsed, "email") {
        Some(v) => v,
        None => {
            return None;
        },
    };
    match json_as_str(field) {
        Some(s) => Some(s.to_owned()),
        None => None,
    }
}

} // verus!
