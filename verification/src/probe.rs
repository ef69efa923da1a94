//! What two requests tell of a resource before it is fetched: a HEAD request, and a
//! request for its first byte.
use crate::http::{
    first_text, first_value, get_header, header_fields, header_name, header_text, is_plain_name,
    is_success, reason_phrase, status_as_number, status_line, status_number, status_text, succeeded, value_as_bytes,
    value_text, value_to_str, visible_bytes,
};
use crate::resource::content_length_in;
use crate::text::{
    after_last, all_visible, ascii_text, begins_with, decimal, eq_ignore_case,
    law_beginning_is_a_prefix, law_decimal_text_is_plain, law_number_round_trip,
    law_tail_after_mark, law_tail_without_mark, lemma_decimal_digits, number_of, parse_number,
    same_letters, starts_with, tail_after,
};
use reqwest::header::{HeaderMap, HeaderValue};
use reqwest::StatusCode;
use vstd::prelude::*;

verus! {

/// A reply of the server: its status code and its headers.
pub struct Reply<'a> {
    pub status: StatusCode,
    pub headers: &'a HeaderMap,
}

/// The condition under which a range is wanted: that the resource is still the one
/// that was probed.
#[derive(Debug)]
pub enum IfRange {
    ETag(String),
    LastModified(String),
}

impl Clone for IfRange {
    fn clone(&self) -> (r: Self)
        ensures
            r == *self,
    {
        match self {
            IfRange::ETag(text) => IfRange::ETag(text.clone()),
            IfRange::LastModified(text) => IfRange::LastModified(text.clone()),
        }
    }
}

impl IfRange {
    /// The text of the condition.
    pub open spec fn view(&self) -> Seq<char> {
        match self {
            IfRange::ETag(text) => text@,
            IfRange::LastModified(text) => text@,
        }
    }

    /// The text of the condition, as it is sent.
    pub fn value(&self) -> (r: &str)
        ensures
            r@ == self.view(),
    {
        match self {
            IfRange::ETag(text) => text.as_str(),
            IfRange::LastModified(text) => text.as_str(),
        }
    }
}

/// The text of an optional condition.
pub open spec fn condition_text(condition: Option<IfRange>) -> Option<Seq<char>> {
    match condition {
        Some(text) => Some(text.view()),
        None => None,
    }
}

/// A condition can be sent: it is visible ASCII throughout.
pub open spec fn can_be_sent(condition: Option<IfRange>) -> bool {
    condition matches Some(text) ==> all_visible(text.view())
}

/// What is known of a resource once it has been probed.
#[derive(Debug)]
pub struct Probe {
    total_size: u64,
    supports_ranges: bool,
    if_range: Option<IfRange>,
}

impl Clone for Probe {
    fn clone(&self) -> (r: Self)
        ensures
            r == *self,
    {
        proof {
            use_type_invariant(self);
        }
        Probe {
            total_size: self.total_size,
            supports_ranges: self.supports_ranges,
            if_range: match &self.if_range {
                Some(condition) => Some(condition.clone()),
                None => None,
            },
        }
    }
}

impl Probe {
    #[verifier::type_invariant]
    pub closed spec fn well_formed(self) -> bool {
        can_be_sent(self.if_range)
    }

    /// The length of the resource; nothing where it is not known.
    pub closed spec fn total(self) -> u64 {
        self.total_size
    }

    /// The server hands out ranges of the resource.
    pub closed spec fn ranged(self) -> bool {
        self.supports_ranges
    }

    /// The condition under which ranges are wanted.
    pub closed spec fn condition(self) -> Option<IfRange> {
        self.if_range
    }

    /// The length of the resource; nothing where it is not known.
    pub fn total_size(&self) -> (r: u64)
        ensures
            r == self.total(),
    {
        self.total_size
    }

    /// Whether the server hands out ranges of the resource.
    pub fn supports_ranges(&self) -> (r: bool)
        ensures
            r == self.ranged(),
    {
        self.supports_ranges
    }

    /// The condition under which ranges are wanted. It can be sent as it is.
    pub fn if_range(&self) -> (r: Option<IfRange>)
        ensures
            r == self.condition(),
            can_be_sent(r),
    {
        proof {
            use_type_invariant(self);
        }
        match &self.if_range {
            Some(condition) => Some(condition.clone()),
            None => None,
        }
    }
}

/// The text of a header of the reply to the HEAD request. A request that failed, or
/// that the server turned down, tells nothing.
pub open spec fn head_text(head: Option<Reply>, name: Seq<char>) -> Option<Seq<char>> {
    match head {
        Some(reply) => if is_success(reply.status) {
            first_text(*reply.headers, name)
        } else {
            None
        },
        None => None,
    }
}

/// The length that the reply to the HEAD request gives.
pub open spec fn head_length(head: Option<Reply>) -> Option<u64> {
    match head_text(head, "content-length"@) {
        Some(text) => number_of(text),
        None => None,
    }
}

/// The bytes of the word that stands for ranges of bytes.
pub open spec fn bytes_unit() -> Seq<u8> {
    seq![98u8, 121u8, 116u8, 101u8, 115u8]
}

/// The reply to the HEAD request says that ranges of bytes are accepted.
pub open spec fn head_accepts_ranges(head: Option<Reply>) -> bool {
    head matches Some(reply) && is_success(reply.status) && (first_value(
        *reply.headers,
        "accept-ranges"@,
    ) matches Some(value) && same_letters(value, bytes_unit()))
}

/// The total length in the text of a `Content-Range` header: the number behind the
/// last slash.
pub open spec fn total_in(text: Seq<char>) -> Option<u64> {
    number_of(after_last(text, '/'))
}

/// The total length in an optional `Content-Range` header.
pub open spec fn total_from(value: Option<HeaderValue>) -> Option<u64> {
    match value {
        Some(value) => match value_text(value) {
            Some(text) => total_in(text),
            None => None,
        },
        None => None,
    }
}

/// The total length in the `Content-Range` header of a reply.
pub open spec fn reply_total(headers: HeaderMap) -> Option<u64> {
    match first_text(headers, "content-range"@) {
        Some(text) => total_in(text),
        None => None,
    }
}

/// An entity tag that does not vouch for every byte.
pub open spec fn is_weak(tag: Seq<char>) -> bool {
    begins_with(tag, "W/"@)
}

/// The condition that the reply to the HEAD request gives for ranges: the entity tag,
/// unless it is weak; failing that, the date of the last change.
pub open spec fn is_head_condition(head: Option<Reply>, condition: Option<IfRange>) -> bool {
    match head_text(head, "etag"@) {
        Some(tag) if !is_weak(tag) => condition matches Some(IfRange::ETag(text)) && text@ == tag,
        _ => match head_text(head, "last-modified"@) {
            Some(date) => condition matches Some(IfRange::LastModified(text)) && text@ == date,
            None => condition is None,
        },
    }
}

/// What the two requests tell: `Ok` with the length and whether ranges are handed out,
/// or `Err` with the message of the failure.
pub open spec fn probed(head: Option<Reply>, get: Option<Reply>) -> Result<(u64, bool), Seq<char>> {
    match get {
        None => Err("probe GET failed"@),
        Some(reply) => if status_number(reply.status) == 206 {
            match reply_total(*reply.headers) {
                Some(total) => Ok((total, head_accepts_ranges(head))),
                None => Err("missing/invalid Content-Range on probe"@),
            }
        } else if is_success(reply.status) {
            Ok(
                (
                    match head_length(head) {
                        Some(length) => length,
                        None => 0,
                    },
                    false,
                ),
            )
        } else {
            Err("probe unexpected HTTP "@ + status_line(reply.status))
        },
    }
}

/// The text of visible bytes is visible.
proof fn lemma_visible_text(bytes: Seq<u8>)
    requires
        visible_bytes(bytes),
    ensures
        all_visible(ascii_text(bytes)),
{
    assert forall|i: int| 0 <= i < bytes.len() implies crate::text::is_visible(
        #[trigger] ascii_text(bytes)[i],
    ) by {
        assert(crate::text::is_visible_byte(bytes[i]));
    }
}

/// The total length in an optional `Content-Range` header.
pub fn parse_total_from_content_range(value: Option<&HeaderValue>) -> (r: Option<u64>)
    ensures
        r == total_from(
            match value {
                Some(value) => Some(*value),
                None => None,
            },
        ),
{
    match value {
        Some(value) => match value_to_str(value) {
            Some(text) => parse_number(tail_after(text, '/')),
            None => None,
        },
        None => None,
    }
}

/// The text of a header of the reply to the HEAD request.
fn text_in_head(head: &Option<Reply>, name: &'static str) -> (r: Option<String>)
    requires
        is_plain_name(name@),
    ensures
        match r {
            Some(text) => head_text(*head, name@) == Some(text@) && all_visible(text@),
            None => head_text(*head, name@) is None,
        },
{
    match head {
        Some(reply) => if succeeded(&reply.status) {
            let text = header_text(reply.headers, name);
            proof {
                if first_value(*reply.headers, name@) is Some && visible_bytes(
                    first_value(*reply.headers, name@)->0,
                ) {
                    lemma_visible_text(first_value(*reply.headers, name@)->0);
                }
            }
            text
        } else {
            None
        },
        None => None,
    }
}

/// The length that the reply to the HEAD request gives.
fn length_in_head(head: &Option<Reply>) -> (r: Option<u64>)
    ensures
        r == head_length(*head),
{
    match head {
        Some(reply) => if succeeded(&reply.status) {
            content_length_in(reply.headers)
        } else {
            None
        },
        None => None,
    }
}

/// Whether the reply to the HEAD request says that ranges of bytes are accepted.
fn ranges_in_head(head: &Option<Reply>) -> (r: bool)
    ensures
        r == head_accepts_ranges(*head),
{
    proof {
        reveal_strlit("accept-ranges");
        assert(is_plain_name("accept-ranges"@));
    }
    match head {
        Some(reply) => if succeeded(&reply.status) {
            match get_header(reply.headers, &header_name("accept-ranges")) {
                Some(value) => {
                    let unit: [u8; 5] = [98, 121, 116, 101, 115];
                    assert(unit@ =~= bytes_unit());
                    eq_ignore_case(value_as_bytes(value), &unit)
                },
                None => false,
            }
        } else {
            false
        },
        None => false,
    }
}

/// The condition that the reply to the HEAD request gives for ranges.
fn condition_in_head(head: &Option<Reply>) -> (r: Option<IfRange>)
    ensures
        is_head_condition(*head, r),
        can_be_sent(r),
{
    proof {
        reveal_strlit("etag");
        reveal_strlit("last-modified");
        assert(is_plain_name("etag"@));
        assert(is_plain_name("last-modified"@));
    }
    if let Some(tag) = text_in_head(head, "etag") {
        if !starts_with(tag.as_str(), "W/") {
            return Some(IfRange::ETag(tag));
        }
    }
    match text_in_head(head, "last-modified") {
        Some(date) => Some(IfRange::LastModified(date)),
        None => None,
    }
}

/// What the replies to the two requests tell of the resource. `None` stands for a
/// request that brought no reply.
pub fn probe(head: Option<Reply>, get: Option<Reply>) -> (r: Result<Probe, String>)
    ensures
        match r {
            Ok(probe) => probed(head, get) == Ok::<(u64, bool), Seq<char>>(
                (probe.total(), probe.ranged()),
            ) && is_head_condition(head, probe.condition()),
            Err(message) => probed(head, get) == Err::<(u64, bool), Seq<char>>(message@),
        },
{
    let reply = match &get {
        Some(reply) => reply,
        None => {
            return Err("probe GET failed".to_owned());
        },
    };
    proof {
        reveal_strlit("content-range");
        assert(is_plain_name("content-range"@));
    }
    let (supports_ranges, total_size): (bool, u64) = if status_as_number(&reply.status) == 206 {
        let value = get_header(reply.headers, &header_name("content-range"));
        match parse_total_from_content_range(value) {
            Some(total) => (true, total),
            None => {
                return Err("missing/invalid Content-Range on probe".to_owned());
            },
        }
    } else if succeeded(&reply.status) {
        match length_in_head(&head) {
            Some(length) => (false, length),
            None => (false, 0),
        }
    } else {
        let mut message = "probe unexpected HTTP ".to_owned();
        message.append(status_text(&reply.status).as_str());
        return Err(message);
    };
    Ok(
        Probe {
            total_size,
            supports_ranges: supports_ranges && ranges_in_head(&head),
            if_range: condition_in_head(&head),
        },
    )
}

/// The text of the `Content-Range` header by which a server names the range that it
/// sends, and the length of the whole.
pub open spec fn content_range_text(start: u64, end: u64, total: u64) -> Seq<char> {
    "bytes "@ + decimal(start as nat) + "-"@ + decimal(end as nat) + "/"@ + decimal(total as nat)
}

/// The length of the whole is read back from the header that a server names it in.
pub proof fn law_total_is_read_back(start: u64, end: u64, total: u64)
    ensures
        total_in(content_range_text(start, end, total)) == Some(total),
{
    reveal_strlit("/");
    lemma_decimal_digits(total as nat);
    assert(!decimal(total as nat).contains('/')) by {
        if decimal(total as nat).contains('/') {
            let i = choose|i: int|
                0 <= i < decimal(total as nat).len() && decimal(total as nat)[i] == '/';
            assert(crate::text::is_digit(decimal(total as nat)[i]));
        }
    }
    let front = "bytes "@ + decimal(start as nat) + "-"@ + decimal(end as nat);
    assert("/"@ =~= seq!['/']);
    law_tail_after_mark(front, '/', decimal(total as nat));
    law_number_round_trip(total);
}

/// Ranges are used only where the server sent a part when it was asked for one, and
/// says that it accepts ranges of bytes.
pub proof fn law_ranges_need_both_signs(head: Option<Reply>, get: Option<Reply>, total: u64)
    requires
        probed(head, get) == Ok::<(u64, bool), Seq<char>>((total, true)),
    ensures
        get matches Some(reply) && status_number(reply.status) == 206 && reply_total(*reply.headers)
            == Some(total),
        head_accepts_ranges(head),
{
}

/// A weak entity tag is never the condition for a range, and the date of the last
/// change is one only where there is no strong entity tag.
pub proof fn law_strong_tag_comes_first(head: Option<Reply>, condition: Option<IfRange>)
    requires
        is_head_condition(head, condition),
    ensures
        condition matches Some(IfRange::ETag(tag)) ==> !is_weak(tag@),
        condition is Some && condition->0 is LastModified ==> (head_text(
            head,
            "etag"@,
        ) matches Some(tag) ==> is_weak(tag)),
{
}

/// The length behind the slash of a `Content-Range` header is the length of the resource,
/// whatever became of the HEAD request: that one only tells whether ranges are handed out.
pub proof fn law_probe_needs_no_head(
    head: Option<Reply>,
    reply: Reply,
    front: Seq<char>,
    total: u64,
)
    requires
        status_number(reply.status) == 206,
        first_text(*reply.headers, "content-range"@) == Some(
            front + seq!['/'] + decimal(total as nat),
        ),
    ensures
        probed(head, Some(reply)) is Ok,
        probed(head, Some(reply))->Ok_0.0 == total,
        head is None ==> !probed(head, Some(reply))->Ok_0.1,
{
    law_decimal_text_is_plain(total as nat);
    assert(!decimal(total as nat).contains('/')) by {
        if decimal(total as nat).contains('/') {
            let i = choose|i: int|
                0 <= i < decimal(total as nat).len() && decimal(total as nat)[i] == '/';
            assert('0' <= decimal(total as nat)[i] <= '9');
        }
    }
    law_tail_after_mark(front, '/', decimal(total as nat));
    law_number_round_trip(total);
}

/// A probe fails just when the request for the first byte brought no reply, was answered
/// with a status outside the two hundreds, or with a part whose `Content-Range` gives no
/// number behind its last slash; and it tells which.
pub proof fn law_probe_fails_only_without_a_use(head: Option<Reply>, get: Option<Reply>)
    ensures
        get is None ==> probed(head, get) == Err::<(u64, bool), Seq<char>>("probe GET failed"@),
        get matches Some(reply) ==> {
            let status = status_number(reply.status);
            let named = first_text(*reply.headers, "content-range"@);
            if status < 200 || status >= 300 {
                probed(head, get) == Err::<(u64, bool), Seq<char>>(
                    "probe unexpected HTTP "@ + (decimal(status as nat) + seq![' ']
                        + reason_phrase(status)),
                )
            } else if status == 206 && (named is None || number_of(after_last(named->0, '/'))
                is None) {
                probed(head, get) == Err::<(u64, bool), Seq<char>>(
                    "missing/invalid Content-Range on probe"@,
                )
            } else {
                probed(head, get) is Ok
            }
        },
{
}

/// What a probe that succeeds tells. The length: of a part, the number behind the last
/// slash of its `Content-Range`; else the one that a HEAD request that succeeded gives,
/// or nothing. That ranges are handed out: just when a part came, and a HEAD request
/// that succeeded gave `bytes`, in whatever case, as what the server accepts.
pub proof fn law_probe_tells_length_and_ranges(
    head: Option<Reply>,
    reply: Reply,
    total: u64,
    ranged: bool,
)
    requires
        probed(head, Some(reply)) == Ok::<(u64, bool), Seq<char>>((total, ranged)),
    ensures
        ({
            let part = status_number(reply.status) == 206;
            let told = head is Some && 200 <= status_number(head->0.status) < 300;
            let fields = header_fields(*head->0.headers);
            let length = first_text(*head->0.headers, "content-length"@);
            &&& part ==> (first_text(*reply.headers, "content-range"@) matches Some(text)
                && number_of(after_last(text, '/')) == Some(total))
            &&& !part && told && length is Some && number_of(length->0) is Some ==> number_of(
                length->0,
            ) == Some(total)
            &&& !part && !(told && length is Some && number_of(length->0) is Some) ==> total == 0
            &&& ranged <==> part && told && fields.contains_key("accept-ranges"@) && same_letters(
                fields["accept-ranges"@][0],
                seq![98u8, 121u8, 116u8, 101u8, 115u8],
            )
        }),
{
}

/// The condition for ranges comes from a HEAD request that succeeded: its entity tag,
/// unless that begins with `W/`; else its date of the last change; else there is none.
pub proof fn law_condition_comes_from_the_head(head: Option<Reply>, condition: Option<IfRange>)
    requires
        is_head_condition(head, condition),
    ensures
        ({
            let told = head is Some && 200 <= status_number(head->0.status) < 300;
            let tag = first_text(*head->0.headers, "etag"@);
            let date = first_text(*head->0.headers, "last-modified"@);
            if told && tag is Some && !"W/"@.is_prefix_of(tag->0) {
                condition matches Some(IfRange::ETag(text)) && text@ == tag->0
            } else if told && date is Some {
                condition matches Some(IfRange::LastModified(text)) && text@ == date->0
            } else {
                condition is None
            }
        }),
{
    if head is Some {
        let tag = first_text(*head->0.headers, "etag"@);
        if tag is Some {
            law_beginning_is_a_prefix(tag->0, "W/"@);
        }
    }
}

/// The total in a header value is the number behind its last slash, or all of it where
/// it has none; a value that is missing or not visible ASCII gives none.
pub proof fn law_total_is_behind_the_last_slash(
    value: HeaderValue,
    front: Seq<char>,
    tail: Seq<char>,
)
    requires
        !tail.contains('/'),
    ensures
        total_from(None) is None,
        value_text(value) is None ==> total_from(Some(value)) is None,
        value_text(value) == Some(front + seq!['/'] + tail) ==> total_from(Some(value)) == number_of(
            tail,
        ),
        value_text(value) == Some(tail) ==> total_from(Some(value)) == number_of(tail),
{
    law_tail_after_mark(front, '/', tail);
    law_tail_without_mark(tail, '/');
}

/// A condition is sent as the text that it was given with.
pub proof fn law_condition_is_its_text(text: String)
    ensures
        condition_text(None) is None,
        condition_text(Some(IfRange::ETag(text))) == Some(text@),
        condition_text(Some(IfRange::LastModified(text))) == Some(text@),
{
}

} // verus!
