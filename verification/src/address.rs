//! Addresses: URLs, and the paths of the files that resources are saved under.
use crate::text::{after_last, law_tail_after_mark, law_tail_without_mark};
use reqwest::Url;
use std::path::{Path, PathBuf};
use vstd::prelude::*;

verus! {

#[verifier::external_type_specification]
#[verifier::external_body]
pub struct ExUrl(Url);

#[verifier::external_type_specification]
#[verifier::external_body]
pub struct ExPathBuf(PathBuf);

/// The text of a URL.
pub uninterp spec fn url_text(url: Url) -> Seq<char>;

/// The path of a URL.
pub uninterp spec fn url_path(url: Url) -> Seq<char>;

/// The URL that a text spells, or what is wrong with the text.
pub uninterp spec fn parsed_url(text: Seq<char>) -> Result<Url, Seq<char>>;

/// The URL that a reference names on a page at the base URL, if it names one.
pub uninterp spec fn joined_url(base: Url, reference: Seq<char>) -> Option<Url>;

/// The path of a file under a directory, by the path rules of the platform.
pub uninterp spec fn joined_path(directory: PathBuf, name: Seq<char>) -> PathBuf;

/// A path with its extension replaced, by the path rules of the platform.
pub uninterp spec fn extended_path(path: PathBuf, extension: Seq<char>) -> PathBuf;

/// A path whose parts are separated by slashes alone on every platform: it holds no
/// backslash and does not begin with a drive.
pub open spec fn is_slashed(path: Seq<char>) -> bool {
    !path.contains('\\') && !(path.len() > 1 && path[0] != '/' && path[1] == ':')
}

/// A path of which every platform takes each part for a part: it does not begin with
/// two slashes either, behind which some find the name of a server.
pub open spec fn is_slash_path(path: Seq<char>) -> bool {
    is_slashed(path) && !(path.len() > 1 && path[0] == '/' && path[1] == '/')
}

/// The last part of a slash path. Slashes at the end and parts that are a single dot
/// do not count, unless the path begins with the dot; a path that comes down to that
/// dot, to two dots or to nothing has no last part.
pub open spec fn last_part(path: Seq<char>) -> Option<Seq<char>>
    decreases path.len(),
{
    let tail = after_last(path, '/');
    if path.len() == 0 {
        None
    } else if path.last() == '/' || (tail == seq!['.'] && tail.len() < path.len()) {
        last_part(path.drop_last())
    } else if tail == seq!['.'] || tail == seq!['.', '.'] {
        None
    } else {
        Some(tail)
    }
}

/// A name is the last part of a path, or there is none. Of a path in which a backslash
/// or a drive may separate parts nothing is said, and of one that begins with two
/// slashes not that it has a name: that depends on the platform.
pub open spec fn is_last_part(path: Seq<char>, name: Option<Seq<char>>) -> bool {
    is_slashed(path) ==> match name {
        Some(_) => last_part(path) == name,
        None => is_slash_path(path) ==> last_part(path) is None,
    }
}

/// `Url::parse`: the URL of a text, or the message of the error.
#[verifier::external_body]
pub(crate) fn parse_url(text: &str) -> (r: Result<Url, String>)
    ensures
        match r {
            Ok(url) => parsed_url(text@) == Ok::<Url, Seq<char>>(url),
            Err(message) => parsed_url(text@) == Err::<Url, Seq<char>>(message@),
        },
{
    Url::parse(text).map_err(|e| e.to_string())
}

/// `Url::join`: the URL that a reference names on a page at `base`; `None` for the
/// error.
#[verifier::external_body]
pub(crate) fn join_url(base: &Url, reference: &str) -> (r: Option<Url>)
    ensures
        r == joined_url(*base, reference@),
{
    base.join(reference).ok()
}

/// `Url::path`: the path of the URL.
#[verifier::external_body]
pub(crate) fn path_of_url(url: &Url) -> (r: &str)
    ensures
        r@ == url_path(*url),
{
    url.path()
}

/// `Url::as_str`: the text of the URL.
#[verifier::external_body]
pub(crate) fn text_of_url(url: &Url) -> (r: &str)
    ensures
        r@ == url_text(*url),
{
    url.as_str()
}

/// `Url::clone`: the same URL.
#[verifier::external_body]
pub(crate) fn copy_url(url: &Url) -> (r: Url)
    ensures
        r == *url,
{
    url.clone()
}

/// `std::path::Path::file_name`: the last part of the path, if it has one, as far as all
/// platforms agree. What is left unsaid for the others stands at `is_last_part`.
#[verifier::external_body]
pub(crate) fn last_component(path: &str) -> (r: Option<String>)
    ensures
        is_last_part(
            path@,
            match r {
                Some(name) => Some(name@),
                None => None,
            },
        ),
{
    Path::new(path).file_name().map(|name| name.to_string_lossy().into_owned())
}

/// `std::path::Path::join`: the path of a file under a directory.
#[verifier::external_body]
pub(crate) fn join_path(directory: &PathBuf, name: &str) -> (r: PathBuf)
    ensures
        r == joined_path(*directory, name@),
{
    directory.join(name)
}

/// An extension of a file name: it holds nothing that separates the parts of a path on
/// any platform.
pub open spec fn is_extension(text: Seq<char>) -> bool {
    !text.contains('/') && !text.contains('\\')
}

/// `std::path::Path::with_extension`: the path with its extension replaced. The call
/// panics on an extension that holds a path separator, which `is_extension` excludes.
#[verifier::external_body]
pub(crate) fn extend_path(path: &PathBuf, extension: &str) -> (r: PathBuf)
    requires
        is_extension(extension@),
    ensures
        r == extended_path(*path, extension@),
{
    path.with_extension(extension)
}

/// `PathBuf::clone`: the same path.
#[verifier::external_body]
pub(crate) fn copy_path(path: &PathBuf) -> (r: PathBuf)
    ensures
        r == *path,
{
    path.clone()
}

/// The name under which what stands at a URL is saved: the last part of the path of
/// the URL.
pub fn get_filename_from_url(url: &str) -> (r: Option<String>)
    ensures
        match parsed_url(url@) {
            Ok(address) => is_last_part(
                url_path(address),
                match r {
                    Some(name) => Some(name@),
                    None => None,
                },
            ),
            Err(_) => r is None,
        },
{
    match parse_url(url) {
        Ok(address) => last_component(path_of_url(&address)),
        Err(_) => None,
    }
}

/// The last part of a path is what stands behind its last slash; slashes and single dots
/// at the end do not count, and two dots are no name.
pub proof fn law_last_part_is_behind_the_last_slash(front: Seq<char>, name: Seq<char>)
    requires
        name.len() > 0,
        !name.contains('/'),
    ensures
        name != seq!['.'] && name != seq!['.', '.'] ==> last_part(front + seq!['/'] + name) == Some(
            name,
        ) && last_part(name) == Some(name),
        name == seq!['.', '.'] ==> last_part(front + seq!['/'] + name) is None && last_part(
            name,
        ) is None,
        name == seq!['.'] ==> last_part(front + seq!['/'] + name) == last_part(front) && last_part(
            name,
        ) is None,
        last_part(front.push('/')) == last_part(front),
        last_part(Seq::empty()) is None,
{
    let path = front + seq!['/'] + name;
    law_tail_after_mark(front, '/', name);
    law_tail_without_mark(name, '/');
    assert(path.last() == name.last());
    assert(name.contains(name.last()));
    assert(front.push('/').drop_last() =~= front);
    if name == seq!['.'] {
        assert(path.drop_last() =~= front.push('/'));
    }
}

/// On a path that every platform reads alike, the name is the last part of the path, or
/// there is none where the path has none.
pub proof fn law_name_is_the_last_part(path: Seq<char>, name: Option<Seq<char>>)
    requires
        !path.contains('\\'),
        path.len() > 0 && path[0] == '/',
        path.len() > 1 ==> path[1] != '/',
    ensures
        is_slash_path(path),
        is_last_part(path, name) <==> name == last_part(path),
{
}

} // verus!
