//! The links that an address gives, the address itself or what a page there points to,
//! and the resources that they name, which are fetched from the address itself.
use crate::address::{
    get_filename_from_url, is_last_part, is_slash_path, join_url, joined_url, last_part, parse_url,
    parsed_url, path_of_url, text_of_url, url_path, url_text,
};
use crate::http::{first_text, header_text, is_plain_name};
use crate::resource::Resource;
use crate::text::{
    begins_with, contains, ends_with, finishes_with, holds_text, law_beginning_is_a_prefix,
    law_end_is_a_suffix, law_held_text_begins_somewhere, starts_with,
};
use reqwest::header::HeaderMap;
use reqwest::Url;
use scraper::{Html, Selector};
use vstd::prelude::*;

verus! {

/// The most bytes that a page may have. The buffer of a text on a parsed page grows to
/// 2147483648 bytes at most, and the character that takes the place of a zero byte has
/// three: below this bound the buffer is never too small.
pub const MAX_PAGE_BYTES: usize = 715827882;

/// How many bytes a text has in UTF-8.
pub open spec fn byte_count(text: Seq<char>) -> nat {
    vstd::utf8::encode_utf8(text).len()
}

/// The attribute of each element that a selector picks on a page: `None` for an
/// element that has no such attribute.
pub uninterp spec fn selected_attributes(
    body: Seq<char>,
    selector: Seq<char>,
    attribute: Seq<char>,
) -> Seq<Option<Seq<char>>>;

/// The text of each string, where there is one.
pub open spec fn texts_of(strings: Seq<Option<String>>) -> Seq<Option<Seq<char>>> {
    Seq::new(
        strings.len(),
        |i: int|
            match strings[i] {
                Some(text) => Some(text@),
                None => None,
            },
    )
}

/// The name of an element: lower-case letters.
pub open spec fn is_element_name(text: Seq<char>) -> bool {
    0 < text.len() < 100 && forall|i: int| 0 <= i < text.len() ==> 'a' <= #[trigger] text[i] <= 'z'
}

/// `Html::parse_document`, `Selector::parse`, `Html::select` and `Element::attr`: the
/// attribute of each element that the selector picks. The name of an element is a
/// selector; a page of more bytes makes the parser panic.
#[verifier::external_body]
fn select_attributes(body: &str, selector: &str, attribute: &str) -> (r: Vec<Option<String>>)
    requires
        byte_count(body@) <= MAX_PAGE_BYTES,
        is_element_name(selector@),
    ensures
        texts_of(r@) == selected_attributes(body@, selector@, attribute@),
{
    let page = Html::parse_document(body);
    let selector = Selector::parse(selector).unwrap();
    page.select(&selector).map(|e| e.value().attr(attribute).map(String::from)).collect()
}

/// A reference that may point to something to download: it does not stay on the page,
/// lead upwards or run a script.
pub open spec fn is_wanted_reference(reference: Seq<char>) -> bool {
    !begins_with(reference, "#"@) && !begins_with(reference, ".."@) && !holds_text(
        reference,
        "javascript:"@,
    )
}

/// A target that is to be downloaded: it is neither a directory nor a page, and the
/// reference to it does not sort a listing.
pub open spec fn is_wanted_target(
    reference: Seq<char>,
    path: Seq<char>,
    target: Seq<char>,
) -> bool {
    !finishes_with(path, "/"@) && !finishes_with(target, ".html"@) && !holds_text(reference, "?C="@)
}

/// The address that a reference on a page at `base` gives to download, if it gives one.
pub open spec fn link_of(base: Url, reference: Seq<char>) -> Option<Seq<char>> {
    if !is_wanted_reference(reference) {
        None
    } else {
        match joined_url(base, reference) {
            Some(target) => if is_wanted_target(reference, url_path(target), url_text(target)) {
                Some(url_text(target))
            } else {
                None
            },
            None => None,
        }
    }
}

/// The addresses that references on a page at `base` give to download, in order.
pub open spec fn links_of(base: Url, references: Seq<Option<Seq<char>>>) -> Seq<Seq<char>>
    decreases references.len(),
{
    if references.len() == 0 {
        Seq::empty()
    } else {
        let before = links_of(base, references.drop_last());
        match references.last() {
            Some(reference) => match link_of(base, reference) {
                Some(link) => before.push(link),
                None => before,
            },
            None => before,
        }
    }
}

/// The texts of strings.
pub open spec fn views_of(strings: Seq<String>) -> Seq<Seq<char>> {
    Seq::new(strings.len(), |i: int| strings[i]@)
}

/// Whether a reference may point to something to download.
pub fn wants_reference(reference: &str) -> (r: bool)
    ensures
        r == is_wanted_reference(reference@),
{
    !(starts_with(reference, "#") || starts_with(reference, "..") || contains(
        reference,
        "javascript:",
    ))
}

/// Whether a target is to be downloaded.
pub fn wants_target(reference: &str, path: &str, target: &str) -> (r: bool)
    ensures
        r == is_wanted_target(reference@, path@, target@),
{
    !(ends_with(path, "/") || ends_with(target, ".html") || contains(reference, "?C="))
}

/// The address that a reference on a page at `base` gives to download, if it gives one.
pub fn link_for(base: &Url, reference: &str) -> (r: Option<String>)
    ensures
        match r {
            Some(link) => link_of(*base, reference@) == Some(link@),
            None => link_of(*base, reference@) is None,
        },
{
    if !wants_reference(reference) {
        return None;
    }
    match join_url(base, reference) {
        Some(target) => if wants_target(reference, path_of_url(&target), text_of_url(&target)) {
            Some(text_of_url(&target).to_owned())
        } else {
            None
        },
        None => None,
    }
}

/// The addresses that references on a page at `base` give to download, in order.
pub fn links_for(base: &Url, references: &Vec<Option<String>>) -> (r: Vec<String>)
    ensures
        views_of(r@) == links_of(*base, texts_of(references@)),
{
    let mut links: Vec<String> = Vec::new();
    let ghost texts = texts_of(references@);
    let mut i: usize = 0;
    assert(texts.take(0) =~= Seq::empty());
    assert(views_of(links@) =~= Seq::empty());
    while i < references.len()
        invariant
            texts == texts_of(references@),
            i <= references@.len(),
            views_of(links@) == links_of(*base, texts.take(i as int)),
        decreases references.len() - i,
    {
        let ghost before = links@;
        proof {
            assert(texts.take(i + 1).drop_last() =~= texts.take(i as int));
            assert(texts.take(i + 1).last() == texts[i as int]);
        }
        if let Some(reference) = &references[i] {
            if let Some(link) = link_for(base, reference.as_str()) {
                links.push(link);
                assert(views_of(links@) =~= views_of(before).push(link@));
            }
        }
        i = i + 1;
    }
    assert(texts.take(texts.len() as int) =~= texts);
    links
}

/// The links on a page at `url`, or what is wrong with `url`.
pub open spec fn page_links(url: Seq<char>, body: Seq<char>) -> Result<Seq<Seq<char>>, Seq<char>> {
    match parsed_url(url) {
        Ok(base) => Ok(links_of(base, selected_attributes(body, "a"@, "href"@))),
        Err(message) => Err(message),
    }
}

/// The links on a page at `url` that point to something to download. The error is the message of what is wrong with `url`.
pub fn get_downloadable_urls(url: &str, body: &str) -> (r: Result<Vec<String>, String>)
    requires
        byte_count(body@) <= MAX_PAGE_BYTES,
    ensures
        match page_links(url@, body@) {
            Ok(texts) => r matches Ok(links) && views_of(links@) == texts,
            Err(message) => r matches Err(text) && text@ == message,
        },
{
    proof {
        reveal_strlit("a");
    }
    let references = select_attributes(body, "a", "href");
    match parse_url(url) {
        Ok(base) => Ok(links_for(&base, &references)),
        Err(message) => Err(message),
    }
}

/// The headers of a reply say that its body is a page.
pub open spec fn is_page(headers: HeaderMap) -> bool {
    first_text(headers, "content-type"@) matches Some(text) && holds_text(text, "html"@)
}

/// Whether the headers of a reply say that its body is a page, rather than a resource
/// to download.
pub fn shows_page(headers: &HeaderMap) -> (r: bool)
    ensures
        r == is_page(*headers),
{
    proof {
        reveal_strlit("content-type");
        assert(is_plain_name("content-type"@));
    }
    match header_text(headers, "content-type") {
        Some(text) => contains(text.as_str(), "html"),
        None => false,
    }
}

/// The links that an address gives whose HEAD request was answered with these headers:
/// the address itself, or, as `None`, those on the page there.
pub fn direct_download(url: &str, headers: &HeaderMap) -> (r: Option<Vec<String>>)
    ensures
        r is None <==> is_page(*headers),
        r matches Some(links) ==> views_of(links@) == seq![url@],
{
    if shows_page(headers) {
        return None;
    }
    let mut links: Vec<String> = Vec::new();
    links.push(url.to_owned());
    assert(views_of(links@) =~= seq![url@]);
    Some(links)
}

/// The name under which what stands at a link is saved, or that there is none.
pub open spec fn is_file_name(link: Seq<char>, name: Option<Seq<char>>) -> bool {
    match parsed_url(link) {
        Ok(address) => is_last_part(url_path(address), name),
        Err(_) => name is None,
    }
}

/// A resource at the address that was asked for, saved under the name that is given or
/// else under that of a link.
pub open spec fn is_resource_for(
    resource: Resource,
    url: Seq<char>,
    link: Seq<char>,
    given: Option<Seq<char>>,
) -> bool {
    parsed_url(url) == Ok::<Url, Seq<char>>(resource.url) && match given {
        Some(name) => resource.filename@ == name,
        None => is_file_name(link, Some(resource.filename@)),
    }
}

/// There is no resource: the address is none, or no name is given and the link has none.
pub open spec fn is_no_resource(
    url: Seq<char>,
    link: Seq<char>,
    given: Option<Seq<char>>,
) -> bool {
    parsed_url(url) is Err || (given is None && is_file_name(link, None))
}

/// The text of an optional text.
pub open spec fn given_text(given: Option<&str>) -> Option<Seq<char>> {
    match given {
        Some(text) => Some(text@),
        None => None,
    }
}

/// The resource at the address that was asked for, saved under the name that is given
/// or else under that of a link.
pub fn resource_named(url: &str, link: &str, given: Option<&str>) -> (r: Option<Resource>)
    ensures
        match r {
            Some(resource) => is_resource_for(resource, url@, link@, given_text(given)),
            None => is_no_resource(url@, link@, given_text(given)),
        },
{
    match parse_url(url) {
        Ok(address) => match given {
            Some(name) => Some(Resource::new(&address, name)),
            None => match get_filename_from_url(link) {
                Some(name) => Some(Resource::new(&address, name.as_str())),
                None => None,
            },
        },
        Err(_) => None,
    }
}

/// The resources to download: one for each link, at the address that was asked for,
/// saved under the name that is given or else under those of the links. `None` where
/// one of them is none.
pub fn resources_named(url: &str, links: &Vec<String>, given: Option<&str>) -> (r: Option<
    Vec<Resource>,
>)
    ensures
        match r {
            Some(resources) => resources@.len() == links@.len() && forall|i: int|
                0 <= i < links@.len() ==> is_resource_for(
                    #[trigger] resources@[i],
                    url@,
                    links@[i]@,
                    given_text(given),
                ),
            None => exists|i: int|
                0 <= i < links@.len() && is_no_resource(
                    url@,
                    #[trigger] links@[i]@,
                    given_text(given),
                ),
        },
{
    let mut resources: Vec<Resource> = Vec::new();
    let mut i: usize = 0;
    while i < links.len()
        invariant
            i <= links@.len(),
            resources@.len() == i,
            forall|j: int|
                0 <= j < i ==> is_resource_for(
                    #[trigger] resources@[j],
                    url@,
                    links@[j]@,
                    given_text(given),
                ),
        decreases links.len() - i,
    {
        match resource_named(url, links[i].as_str(), given) {
            Some(resource) => {
                resources.push(resource);
            },
            None => {
                assert(is_no_resource(url@, links@[i as int]@, given_text(given)));
                return None;
            },
        }
        i = i + 1;
    }
    Some(resources)
}

/// The links of a page are what its references point to, and nothing else: each is the
/// address of one of them, which is wanted, and is no page itself.
pub proof fn law_links_are_wanted(base: Url, references: Seq<Option<Seq<char>>>, link: Seq<char>)
    ensures
        links_of(base, references).contains(link) <==> exists|i: int|
            0 <= i < references.len() && (#[trigger] references[i] matches Some(reference)
                && link_of(base, reference) == Some(link)),
        links_of(base, references).contains(link) ==> !finishes_with(link, ".html"@),
    decreases references.len(),
{
    if references.len() > 0 {
        let before = references.drop_last();
        law_links_are_wanted(base, before, link);
        let all = links_of(base, references);
        let some = links_of(base, before);
        if all.contains(link) {
            let k = choose|k: int| 0 <= k < all.len() && all[k] == link;
            if k < some.len() {
                assert(some[k] == link);
                assert(some.contains(link));
                let i = choose|i: int|
                    0 <= i < before.len() && (#[trigger] before[i] matches Some(reference)
                        && link_of(base, reference) == Some(link));
                assert(references[i] == before[i]);
            } else {
                assert(references[references.len() - 1] matches Some(reference) && link_of(
                    base,
                    reference,
                ) == Some(link));
            }
        }
        if exists|i: int|
            0 <= i < references.len() && (#[trigger] references[i] matches Some(reference)
                && link_of(base, reference) == Some(link)) {
            let i = choose|i: int|
                0 <= i < references.len() && (#[trigger] references[i] matches Some(reference)
                    && link_of(base, reference) == Some(link));
            if i < before.len() {
                assert(before[i] == references[i]);
                assert(some.contains(link));
                let k = choose|k: int| 0 <= k < some.len() && some[k] == link;
                assert(all[k] == link);
            } else {
                assert(all[some.len() as int] == link);
            }
        }
    }
}

/// A reference gives the address that it names just when it does not begin with `#` or
/// `..` and holds neither `javascript:` nor `?C=`, and the address has a path that does
/// not end in a slash and does not itself end in `.html`; else it gives none.
pub proof fn law_reference_gives_what_it_names(base: Url, reference: Seq<char>)
    ensures
        ({
            let target = joined_url(base, reference);
            if target is Some && !"#"@.is_prefix_of(reference) && !".."@.is_prefix_of(reference)
                && (forall|i: int|
                0 <= i <= reference.len() ==> !"javascript:"@.is_prefix_of(
                    #[trigger] reference.skip(i),
                )) && (forall|i: int|
                0 <= i <= reference.len() ==> !"?C="@.is_prefix_of(#[trigger] reference.skip(i)))
                && !"/"@.is_suffix_of(url_path(target->0)) && !".html"@.is_suffix_of(
                url_text(target->0),
            ) {
                link_of(base, reference) == Some(url_text(target->0))
            } else {
                link_of(base, reference) is None
            }
        }),
{
    law_beginning_is_a_prefix(reference, "#"@);
    law_beginning_is_a_prefix(reference, ".."@);
    law_held_text_begins_somewhere(reference, "javascript:"@);
    law_held_text_begins_somewhere(reference, "?C="@);
    if let Some(target) = joined_url(base, reference) {
        law_end_is_a_suffix(url_path(target), "/"@);
        law_end_is_a_suffix(url_text(target), ".html"@);
    }
}

/// The links of a page come in the order of its references, one for each that gives one:
/// those of two halves of a page are the links of the page.
pub proof fn law_links_keep_their_order(
    base: Url,
    first: Seq<Option<Seq<char>>>,
    second: Seq<Option<Seq<char>>>,
    reference: Option<Seq<char>>,
)
    ensures
        links_of(base, first + second) == links_of(base, first) + links_of(base, second),
        links_of(base, seq![reference]) == (if reference is Some && link_of(
            base,
            reference->0,
        ) is Some {
            seq![link_of(base, reference->0)->0]
        } else {
            Seq::empty()
        }),
        links_of(base, Seq::empty()) == Seq::<Seq<char>>::empty(),
    decreases second.len(),
{
    reveal_with_fuel(links_of, 2);
    assert(seq![reference].drop_last() =~= Seq::empty());
    if second.len() == 0 {
        assert(first + second =~= first);
        assert(links_of(base, first) + links_of(base, second) =~= links_of(base, first));
    } else {
        law_links_keep_their_order(base, first, second.drop_last(), reference);
        assert((first + second).drop_last() =~= first + second.drop_last());
        assert((first + second).last() == second.last());
        let before = links_of(base, second.drop_last());
        assert(links_of(base, first + second) =~= links_of(base, first) + links_of(base, second));
    }
}

/// A body is taken for a page just when the text of its `Content-Type` header holds
/// `html`.
pub proof fn law_page_says_html(headers: HeaderMap)
    ensures
        is_page(headers) <==> (first_text(headers, "content-type"@) matches Some(text) && exists|
            i: int,
        |
            0 <= i <= text.len() && "html"@.is_prefix_of(#[trigger] text.skip(i))),
{
    if let Some(text) = first_text(headers, "content-type"@) {
        law_held_text_begins_somewhere(text, "html"@);
    }
}

/// A resource is at the address that was asked for. It is saved under the name that is
/// given; where none is, under the last part of the path of its link, whatever the
/// address that was asked for.
pub proof fn law_resource_is_named_after_its_link(
    resource: Resource,
    url: Seq<char>,
    link: Seq<char>,
    given: Option<Seq<char>>,
)
    requires
        is_resource_for(resource, url, link, given),
    ensures
        parsed_url(url) == Ok::<Url, Seq<char>>(resource.url),
        given matches Some(name) ==> resource.filename@ == name,
        given is None ==> parsed_url(link) is Ok,
        given is None && is_slash_path(url_path(parsed_url(link)->Ok_0)) ==> last_part(
            url_path(parsed_url(link)->Ok_0),
        ) == Some(resource.filename@),
{
}

/// There is a resource wherever the address that was asked for is one, and a name is
/// given or the path of the link has a last part; and there is none where the address is
/// none, or where no name is given and the link is no address or has no last part.
pub proof fn law_resource_is_owed(
    resource: Resource,
    url: Seq<char>,
    link: Seq<char>,
    given: Option<Seq<char>>,
)
    ensures
        parsed_url(url) is Ok && given is Some ==> !is_no_resource(url, link, given),
        parsed_url(url) is Ok && parsed_url(link) is Ok && is_slash_path(
            url_path(parsed_url(link)->Ok_0),
        ) && last_part(url_path(parsed_url(link)->Ok_0)) is Some ==> !is_no_resource(
            url,
            link,
            given,
        ),
        parsed_url(url) is Err ==> !is_resource_for(resource, url, link, given),
        given is None && parsed_url(link) is Err ==> !is_resource_for(resource, url, link, given),
        given is None && parsed_url(link) is Ok && is_slash_path(
            url_path(parsed_url(link)->Ok_0),
        ) && last_part(url_path(parsed_url(link)->Ok_0)) is None ==> !is_resource_for(
            resource,
            url,
            link,
            given,
        ),
{
}

/// A page may be as long as a third of the largest buffer for a text, and no longer.
pub proof fn law_page_fits_its_buffer()
    ensures
        MAX_PAGE_BYTES * 3 <= 0x8000_0000 < (MAX_PAGE_BYTES + 1) * 3,
{
}

/// Texts are those of their strings, one for each, in order.
pub proof fn law_texts_are_those_of_strings(
    strings: Seq<String>,
    options: Seq<Option<String>>,
    i: int,
)
    ensures
        views_of(strings).len() == strings.len(),
        0 <= i < strings.len() ==> views_of(strings)[i] == strings[i]@,
        texts_of(options).len() == options.len(),
        0 <= i < options.len() && options[i] is Some ==> texts_of(options)[i] == Some(
            options[i]->0@,
        ),
        0 <= i < options.len() && options[i] is None ==> texts_of(options)[i] is None,
        given_text(None) is None,
        forall|text: &str| #[trigger] given_text(Some(text)) == Some(text@),
{
}

/// The links of a page are the addresses that the `href` attributes of its `a` elements
/// give, against the address of the page, and nothing else; where that is none, what is
/// wrong with it is told.
pub proof fn law_page_gives_what_it_refers_to(url: Seq<char>, body: Seq<char>, link: Seq<char>)
    ensures
        parsed_url(url) matches Err(message) ==> page_links(url, body) == Err::<
            Seq<Seq<char>>,
            Seq<char>,
        >(message),
        parsed_url(url) matches Ok(base) ==> {
            let references = selected_attributes(body, "a"@, "href"@);
            &&& page_links(url, body) is Ok
            &&& page_links(url, body)->Ok_0.contains(link) <==> exists|i: int|
                0 <= i < references.len() && (#[trigger] references[i] matches Some(reference)
                    && link_of(base, reference) == Some(link))
            &&& page_links(url, body)->Ok_0 == links_of(base, references)
        },
{
    if let Ok(base) = parsed_url(url) {
        law_links_are_wanted(base, selected_attributes(body, "a"@, "href"@), link);
    }
}

} // verus!
