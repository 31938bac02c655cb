//! Reading the download address of the tool's newest release out of the
//! GitHub API answer.
use vstd::prelude::*;
use vstd::string::*;
use crate::parse::{first_from, lemma_first_from_first, lines_of};
use crate::text::{chars_of, contains, contains_slice, find, find_slice, lemma_find_bounds, lines, string_of, trim_matching, trim_matching_slice, views};

verus! {

/// A line that carries a release download address.
pub open spec fn download_line() -> spec_fn(Seq<char>) -> bool {
    |l: Seq<char>| contains(l, "browser_download_url"@) && find(l, "https://"@) is Some
}

/// The download address of a `releases/latest` answer: on the first line that
/// names `browser_download_url` and holds `https://`, the text from
/// `https://` on, without surrounding quotes, commas and spaces.
pub open spec fn release_download_url(resp: Seq<char>) -> Option<Seq<char>> {
    let ls = lines(resp);
    match first_from(ls, download_line(), 0) {
        Some(i) => Some(trim_matching(ls[i].skip(find(ls[i], "https://"@)->0), "\", "@)),
        None => None,
    }
}

/// `release_download_url` in code.
pub fn find_download_url(response: &str) -> (r: Option<String>)
    ensures
        r.deep_view() == release_download_url(response@),
{
    let ls = lines_of(response);
    let key = chars_of("browser_download_url");
    let https = chars_of("https://");
    let cs = chars_of("\", ");
    let ghost f = download_line();
    let mut i: usize = 0;
    while i < ls.len()
        invariant
            i <= ls@.len(),
            views(ls@) == lines(response@),
            key@ == "browser_download_url"@,
            https@ == "https://"@,
            cs@ == "\", "@,
            f == download_line(),
            first_from(views(ls@), f, 0) == first_from(views(ls@), f, i as int),
        decreases ls@.len() - i,
    {
        let l = ls[i].as_slice();
        assert(views(ls@)[i as int] == l@);
        if contains_slice(l, key.as_slice()) {
            proof {
                lemma_find_bounds(l@, https@, 0);
            }
            match find_slice(l, https.as_slice()) {
                Some(idx) => {
                    assert(f(views(ls@)[i as int]));
                    let rest = vstd::slice::slice_subrange(l, idx, l.len());
                    return Some(string_of(trim_matching_slice(rest, cs.as_slice())));
                },
                None => {},
            }
        }
        i = i + 1;
    }
    None
}

/// The error of self-update when the answer names no download.
pub open spec fn no_release_message() -> Seq<char> {
    "Nenhuma release pública ou binário disponível encontrado no GitHub para auto-atualização."@
}

/// The address self-update downloads from a `releases/latest` answer, or
/// its error when the answer names none.
pub fn release_download(response: &str) -> (r: Result<String, String>)
    ensures
        (match release_download_url(response@) {
            Some(u) => r matches Ok(s) && s@ == u,
            None => r matches Err(e) && e@ == no_release_message(),
        }),
{
    match find_download_url(response) {
        Some(u) => Ok(u),
        None => Err(
            "Nenhuma release pública ou binário disponível encontrado no GitHub para auto-atualização.".to_owned(),
        ),
    }
}

/// Law: the download address comes from the first line of the answer that
/// names `browser_download_url` and holds `https://`: it is that line from
/// its first `https://` on, without surrounding quotes, commas and spaces.
/// A line without the key never gives it, and when no line has both there is none.
pub proof fn law_download_from_key_line(resp: Seq<char>)
    ensures
        (match release_download_url(resp) {
            Some(u) => exists|i: int|
                0 <= i < lines(resp).len() && contains(lines(resp)[i], "browser_download_url"@)
                    && find(lines(resp)[i], "https://"@) is Some && u == trim_matching(
                    lines(resp)[i].skip(find(lines(resp)[i], "https://"@)->0),
                    "\", "@,
                ) && forall|j: int|
                    0 <= j < i ==> !(contains(#[trigger] lines(resp)[j], "browser_download_url"@) && find(
                        lines(resp)[j],
                        "https://"@,
                    ) is Some),
            None => forall|j: int|
                0 <= j < lines(resp).len() ==> !(contains(#[trigger] lines(resp)[j], "browser_download_url"@)
                    && find(lines(resp)[j], "https://"@) is Some),
        }),
{
    let ls = lines(resp);
    let p = download_line();
    lemma_first_from_first(ls, p, 0);
    match first_from(ls, p, 0) {
        Some(i) => {
            assert forall|j: int| 0 <= j < i implies !(contains(#[trigger] ls[j], "browser_download_url"@) && find(
                ls[j],
                "https://"@,
            ) is Some) by {
                assert(!p(ls[j]));
            }
            assert(p(ls[i]));
        },
        None => {
            assert forall|j: int| 0 <= j < ls.len() implies !(contains(#[trigger] ls[j], "browser_download_url"@)
                && find(ls[j], "https://"@) is Some) by {
                assert(!p(ls[j]));
            }
        },
    }
}

} // verus!
