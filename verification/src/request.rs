//! The headers that requests are sent with.
use crate::http::{
    append_header, appended, copy_headers, has_room, header_fields, header_name,
    header_value, insert_header, is_plain_name, no_fields, no_headers,
};
use crate::text::{all_visible, ascii_bytes, decimal, decimal_text, lemma_decimal_digits};
use reqwest::header::HeaderMap;
use vstd::prelude::*;

verus! {

/// The fields that a caller's own headers set.
pub open spec fn custom_fields(custom: Option<HeaderMap>) -> Map<Seq<char>, Seq<Seq<u8>>> {
    match custom {
        Some(map) => header_fields(map),
        None => no_fields(),
    }
}

/// How many header names a request adds at most to those of the caller.
pub open spec fn own_names() -> nat {
    3
}

/// A request can carry the caller's own headers beside those that it adds.
pub open spec fn custom_fits(custom: Option<HeaderMap>) -> bool {
    match custom {
        Some(map) => has_room(map, own_names()),
        None => true,
    }
}

/// The one header of its own that every request has: the body is wanted as it is.
pub open spec fn identity_fields() -> Map<Seq<char>, Seq<Seq<u8>>> {
    no_fields().insert("accept-encoding"@, seq![ascii_bytes("identity"@)])
}

/// The headers of a request for a whole resource: the caller's, and the request's own,
/// which win. A client sends the same by itself.
pub open spec fn whole_fields(
    custom: Map<Seq<char>, Seq<Seq<u8>>>,
) -> Map<Seq<char>, Seq<Seq<u8>>> {
    custom.union_prefer_right(identity_fields())
}

/// How the bytes from `start` to `end`, both of them too, are asked for.
pub open spec fn range_text(start: u64, end: u64) -> Seq<char> {
    "bytes="@ + decimal(start as nat) + "-"@ + decimal(end as nat)
}

/// The headers of a request for a range of a resource: the caller's, and the request's
/// own, which win. The condition under which the range is wanted comes last.
pub open spec fn range_fields(
    custom: Map<Seq<char>, Seq<Seq<u8>>>,
    start: u64,
    end: u64,
    condition: Option<Seq<char>>,
) -> Map<Seq<char>, Seq<Seq<u8>>> {
    let fields = custom.union_prefer_right(
        identity_fields().insert("range"@, seq![ascii_bytes(range_text(start, end))]),
    );
    match condition {
        Some(text) => appended(fields, "if-range"@, ascii_bytes(text)),
        None => fields,
    }
}

/// The text of a range is visible ASCII.
proof fn lemma_range_visible(start: u64, end: u64)
    ensures
        all_visible(range_text(start, end)),
{
    reveal_strlit("bytes=");
    reveal_strlit("-");
    lemma_decimal_digits(start as nat);
    lemma_decimal_digits(end as nat);
}

/// The names that requests use are header names.
proof fn lemma_own_names()
    ensures
        is_plain_name("accept-encoding"@),
        is_plain_name("range"@),
        is_plain_name("if-range"@),
        all_visible("identity"@),
{
    reveal_strlit("accept-encoding");
    reveal_strlit("range");
    reveal_strlit("if-range");
    reveal_strlit("identity");
}

/// The text that asks for the bytes from `start` to `end`.
pub fn range_value(start: u64, end: u64) -> (r: String)
    ensures
        r@ == range_text(start, end),
{
    let mut text = "bytes=".to_owned();
    text.append(decimal_text(start).as_str());
    text.append("-");
    text.append(decimal_text(end).as_str());
    text
}

/// The headers of a request for a whole resource. There is room for those that a
/// request for a range adds.
pub(crate) fn whole_headers(custom: &Option<HeaderMap>) -> (r: HeaderMap)
    requires
        custom_fits(*custom),
    ensures
        header_fields(r) == whole_fields(custom_fields(*custom)),
        has_room(r, 2),
{
    proof {
        lemma_own_names();
    }
    let mut map = match custom {
        Some(own) => copy_headers(own),
        None => no_headers(),
    };
    insert_header(&mut map, header_name("accept-encoding"), header_value("identity"));
    assert(header_fields(map) =~= whole_fields(custom_fields(*custom)));
    map
}

/// The headers of a request for a range of a resource.
pub(crate) fn range_headers(
    custom: &Option<HeaderMap>,
    start: u64,
    end: u64,
    condition: Option<&str>,
) -> (r: HeaderMap)
    requires
        custom_fits(*custom),
        condition matches Some(text) ==> all_visible(text@),
    ensures
        header_fields(r) == range_fields(
            custom_fields(*custom),
            start,
            end,
            match condition {
                Some(text) => Some(text@),
                None => None,
            },
        ),
{
    proof {
        lemma_own_names();
        lemma_range_visible(start, end);
    }
    let mut map = whole_headers(custom);
    insert_header(&mut map, header_name("range"), header_value(range_value(start, end).as_str()));
    assert(header_fields(map) =~= range_fields(custom_fields(*custom), start, end, None));
    if let Some(text) = condition {
        append_header(&mut map, header_name("if-range"), header_value(text));
    }
    map
}

/// Every request asks for the body as it is, whatever the caller sets.
pub proof fn law_identity_encoding(
    custom: Map<Seq<char>, Seq<Seq<u8>>>,
    start: u64,
    end: u64,
    condition: Option<Seq<char>>,
)
    ensures
        whole_fields(custom).contains_key("accept-encoding"@),
        whole_fields(custom)["accept-encoding"@] == seq![ascii_bytes("identity"@)],
        range_fields(custom, start, end, condition).contains_key("accept-encoding"@),
        range_fields(custom, start, end, condition)["accept-encoding"@] == seq![
            ascii_bytes("identity"@),
        ],
{
    lemma_names_differ();
}

/// A request for a range asks for just that range, whatever the caller sets, and
/// carries the condition that it was given, behind any that the caller set.
pub proof fn law_range_is_asked_for(
    custom: Map<Seq<char>, Seq<Seq<u8>>>,
    start: u64,
    end: u64,
    condition: Option<Seq<char>>,
)
    ensures
        range_fields(custom, start, end, condition).contains_key("range"@),
        range_fields(custom, start, end, condition)["range"@] == seq![
            ascii_bytes("bytes="@ + decimal(start as nat) + "-"@ + decimal(end as nat)),
        ],
        condition matches Some(text) ==> range_fields(
            custom,
            start,
            end,
            condition,
        ).contains_key("if-range"@) && range_fields(custom, start, end, condition)["if-range"@]
            == (if custom.contains_key("if-range"@) {
            custom["if-range"@].push(ascii_bytes(text))
        } else {
            seq![ascii_bytes(text)]
        }),
{
    lemma_names_differ();
}

/// Under every name that a request does not set itself it sends what the caller set,
/// and nothing where the caller set nothing.
pub proof fn law_custom_headers_are_sent(
    custom: Map<Seq<char>, Seq<Seq<u8>>>,
    name: Seq<char>,
    start: u64,
    end: u64,
    condition: Option<Seq<char>>,
)
    requires
        name != "accept-encoding"@,
    ensures
        whole_fields(custom).contains_key(name) <==> custom.contains_key(name),
        custom.contains_key(name) ==> whole_fields(custom)[name] == custom[name],
        name != "range"@ && (name != "if-range"@ || condition is None) ==> {
            let fields = range_fields(custom, start, end, condition);
            &&& fields.contains_key(name) <==> custom.contains_key(name)
            &&& custom.contains_key(name) ==> fields[name] == custom[name]
        },
{
}

/// The names that requests set are three.
proof fn lemma_names_differ()
    ensures
        "accept-encoding"@ != "range"@,
        "accept-encoding"@ != "if-range"@,
        "range"@ != "if-range"@,
{
    reveal_strlit("accept-encoding");
    reveal_strlit("range");
    reveal_strlit("if-range");
    assert("accept-encoding"@.len() == 15);
    assert("range"@.len() == 5);
    assert("if-range"@.len() == 8);
}

/// A request adds at most three names to those of the caller; without a caller's headers
/// it sends its own alone.
pub proof fn law_few_names_are_added(
    custom: Map<Seq<char>, Seq<Seq<u8>>>,
    name: Seq<char>,
    start: u64,
    end: u64,
    condition: Option<Seq<char>>,
)
    ensures
        range_fields(custom, start, end, condition).contains_key(name) ==> custom.contains_key(name)
            || name == "accept-encoding"@ || name == "range"@ || name == "if-range"@,
        own_names() == 3,
        custom_fields(None) == Map::<Seq<char>, Seq<Seq<u8>>>::empty(),
        forall|map: HeaderMap| #[trigger]
            custom_fields(Some(map)) == header_fields(map),
{
}

} // verus!
