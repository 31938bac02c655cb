//! Snap: `snap search`, `snap info`, `snap list`.
use vstd::prelude::*;
use vstd::string::*;
use crate::backend::PackageManagerBackend;
use crate::parse::{ lemma_filter_map_all,
    fold, info_fields_new, info_init, key_val, key_val_slice, lemma_filter_map_step,
    lemma_fold_step, lemma_take_all, lines_of, trimmed_string, InfoFields, InfoState,
};
use crate::text::{
    chars_of, contains, contains_slice, eq_ignore_ascii_case, eq_ignore_ascii_case_str, eq_str,
    find, find_slice, lemma_find_bounds, lines, starts_with, starts_with_slice, string_of, trim,
    views, words, words_slice,
};
use crate::types::{
    InstalledPackage, InstalledPackageView, PackageInfo, PackageInfoView, SearchResult,
    SearchResultView,
};

verus! {

/// The Snap backend.
pub struct SnapBackend;

/// The column header word `Name` (or the Portuguese `Nome`).
pub open spec fn snap_header_word(w: Seq<char>) -> bool {
    eq_ignore_ascii_case(w, "name"@) || eq_ignore_ascii_case(w, "nome"@)
}

/// The summary column of a `snap search` line: the text after the first
/// occurrence of the notes word `w3` that follows the first occurrence of the
/// publisher word `w2`, trimmed; empty where there is none.
pub open spec fn snap_summary(l: Seq<char>, w2: Seq<char>, w3: Seq<char>) -> Seq<char> {
    match find(l, w2) {
        Some(idx) => match find(l.skip(idx + w2.len()), w3) {
            Some(sub) => trim(l.skip(idx + w2.len() + sub + w3.len())),
            None => Seq::empty(),
        },
        None => Seq::empty(),
    }
}

/// A line `Name Version Publisher Notes Summary` of `snap search`.
pub open spec fn snap_search_item(l: Seq<char>) -> Option<SearchResultView> {
    let t = words(l);
    if t.len() >= 4 && !snap_header_word(t[0]) {
        Some(
            SearchResultView {
                name: t[0],
                description: snap_summary(l, t[2], t[3]),
                version: t[1],
                backend: "Snap"@,
            },
        )
    } else {
        None
    }
}

pub open spec fn snap_search_fn() -> spec_fn(Seq<char>) -> Option<SearchResultView> {
    |l: Seq<char>| snap_search_item(l)
}

/// The hits of a `snap search` output.
pub open spec fn snap_search(out: Seq<char>) -> Seq<SearchResultView> {
    lines(out).filter_map(snap_search_fn())
}

/// One line of `snap info`: indented lines after `description` extend the
/// description; `summary` sets it, `store-url` the homepage; `installed`
/// marks the snap installed and gives version and size.
pub open spec fn snap_info_step(st: InfoState, line: Seq<char>) -> InfoState {
    if st.in_desc && starts_with(line, " "@) {
        InfoState { description: st.description + "\n"@ + trim(line), ..st }
    } else {
        let st = InfoState { in_desc: false, ..st };
        match key_val(line) {
            Some((k, v)) => {
                if k == "summary"@ {
                    InfoState { description: v, ..st }
                } else if k == "store-url"@ {
                    InfoState { homepage: Some(v), ..st }
                } else if k == "description"@ {
                    InfoState { in_desc: true, ..st }
                } else if k == "installed"@ {
                    let p = words(v);
                    InfoState {
                        installed: true,
                        version: if p.len() > 0 {
                            p[0]
                        } else {
                            st.version
                        },
                        size: if p.len() >= 3 {
                            Some(p[2])
                        } else {
                            st.size
                        },
                        ..st
                    }
                } else {
                    st
                }
            },
            None => st,
        }
    }
}

pub open spec fn snap_info_fn() -> spec_fn(InfoState, Seq<char>) -> InfoState {
    |st: InfoState, l: Seq<char>| snap_info_step(st, l)
}

/// For a snap that is not installed: a `latest/stable:` channel line gives the version.
pub open spec fn snap_channel_step(version: Seq<char>, l: Seq<char>) -> Seq<char> {
    if contains(l, "latest/stable:"@) {
        let p = words(l);
        if p.len() >= 2 {
            p[1]
        } else {
            version
        }
    } else {
        version
    }
}

pub open spec fn snap_channel_fn() -> spec_fn(Seq<char>, Seq<char>) -> Seq<char> {
    |v: Seq<char>, l: Seq<char>| snap_channel_step(v, l)
}

/// The details of `package` read from a `snap info` output.
pub open spec fn snap_info(package: Seq<char>, out: Seq<char>) -> PackageInfoView {
    let st = fold(lines(out), info_init(), snap_info_fn());
    let version = if st.installed {
        st.version
    } else {
        fold(lines(out), st.version, snap_channel_fn())
    };
    PackageInfoView {
        name: package,
        version,
        description: st.description,
        backend: "Snap"@,
        homepage: st.homepage,
        size: st.size,
        installed: st.installed,
    }
}

/// A line `Name Version Rev Tracking Publisher Notes` of `snap list`.
pub open spec fn snap_list_item(l: Seq<char>) -> Option<InstalledPackageView> {
    let t = words(l);
    if t.len() >= 2 && !snap_header_word(t[0]) {
        Some(InstalledPackageView { name: t[0], version: t[1], backend: "Snap"@ })
    } else {
        None
    }
}

pub open spec fn snap_list_fn() -> spec_fn(Seq<char>) -> Option<InstalledPackageView> {
    |l: Seq<char>| snap_list_item(l)
}

/// The installed snaps of a `snap list` output.
pub open spec fn snap_list(out: Seq<char>) -> Seq<InstalledPackageView> {
    lines(out).filter_map(snap_list_fn())
}

fn snap_header_word_slice(w: &[char]) -> (b: bool)
    ensures
        b == snap_header_word(w@),
{
    eq_ignore_ascii_case_str(w, "name") || eq_ignore_ascii_case_str(w, "nome")
}

fn snap_summary_string(l: &[char], w2: &[char], w3: &[char]) -> (r: String)
    ensures
        r@ == snap_summary(l@, w2@, w3@),
{
    proof {
        lemma_find_bounds(l@, w2@, 0);
    }
    match find_slice(l, w2) {
        Some(idx) => {
            assert(l@.len() == l.len());
            let rest = vstd::slice::slice_subrange(l, idx + w2.len(), l.len());
            proof {
                lemma_find_bounds(rest@, w3@, 0);
            }
            match find_slice(rest, w3) {
                Some(sub) => trimmed_string(
                    vstd::slice::slice_subrange(l, idx + w2.len() + sub + w3.len(), l.len()),
                ),
                None => String::new(),
            }
        },
        None => String::new(),
    }
}

fn snap_info_line(st: InfoFields, line: &[char]) -> (r: InfoFields)
    ensures
        r@ == snap_info_step(st@, line@),
{
    let space = chars_of(" ");
    if st.in_desc && starts_with_slice(line, space.as_slice()) {
        let mut d = st.description;
        d.append("\n");
        d.append(trimmed_string(line).as_str());
        return InfoFields { description: d, ..st };
    }
    let st = InfoFields { in_desc: false, ..st };
    match key_val_slice(line) {
        Some((k, v)) => {
            if eq_str(k, "summary") {
                InfoFields { description: string_of(v), ..st }
            } else if eq_str(k, "store-url") {
                InfoFields { homepage: Some(string_of(v)), ..st }
            } else if eq_str(k, "description") {
                InfoFields { in_desc: true, ..st }
            } else if eq_str(k, "installed") {
                let p = words_slice(v);
                let version = if p.len() > 0 {
                    string_of(p[0].as_slice())
                } else {
                    st.version
                };
                let size = if p.len() >= 3 {
                    Some(string_of(p[2].as_slice()))
                } else {
                    st.size
                };
                InfoFields { installed: true, version, size, ..st }
            } else {
                st
            }
        },
        None => st,
    }
}

impl SnapBackend {
    /// The backend.
    pub fn new() -> (b: Self) {
        SnapBackend
    }

    /// The hits of a `snap search <query>` output.
    pub fn parse_search(&self, output: &str) -> (r: Vec<SearchResult>)
        ensures
            r.deep_view() == snap_search(output@),
    {
        let ls = lines_of(output);
        let mut res: Vec<SearchResult> = Vec::new();
        let mut i: usize = 0;
        while i < ls.len()
            invariant
                i <= ls@.len(),
                views(ls@) == lines(output@),
                res.deep_view() == views(ls@).take(i as int).filter_map(snap_search_fn()),
            decreases ls@.len() - i,
        {
            proof {
                lemma_filter_map_step(views(ls@), snap_search_fn(), i as int);
            }
            let ghost before = res.deep_view();
            let line = ls[i].as_slice();
            let t = words_slice(line);
            if t.len() >= 4 && !snap_header_word_slice(t[0].as_slice()) {
                let r = SearchResult {
                    name: string_of(t[0].as_slice()),
                    description: snap_summary_string(line, t[2].as_slice(), t[3].as_slice()),
                    version: string_of(t[1].as_slice()),
                    backend: "Snap".to_owned(),
                };
                res.push(r);
                assert(res.deep_view() =~= before.push(r@));
            }
            i = i + 1;
        }
        proof {
            lemma_take_all(views(ls@));
        }
        res
    }

    /// The details of `package` read from a `snap info <package>` output.
    pub fn parse_info(&self, package: &str, output: &str) -> (r: PackageInfo)
        ensures
            r@ == snap_info(package@, output@),
    {
        let ls = lines_of(output);
        let mut st = info_fields_new();
        let mut i: usize = 0;
        while i < ls.len()
            invariant
                i <= ls@.len(),
                views(ls@) == lines(output@),
                st@ == fold(views(ls@).take(i as int), info_init(), snap_info_fn()),
            decreases ls@.len() - i,
        {
            proof {
                lemma_fold_step(views(ls@), info_init(), snap_info_fn(), i as int);
            }
            st = snap_info_line(st, ls[i].as_slice());
            i = i + 1;
        }
        proof {
            lemma_take_all(views(ls@));
        }
        let mut version = st.version;
        if !st.installed {
            let ghost v0 = version@;
            let stable = chars_of("latest/stable:");
            let mut j: usize = 0;
            while j < ls.len()
                invariant
                    j <= ls@.len(),
                    views(ls@) == lines(output@),
                    stable@ == "latest/stable:"@,
                    version@ == fold(views(ls@).take(j as int), v0, snap_channel_fn()),
                decreases ls@.len() - j,
            {
                proof {
                    lemma_fold_step(views(ls@), v0, snap_channel_fn(), j as int);
                }
                let line = ls[j].as_slice();
                if contains_slice(line, stable.as_slice()) {
                    let p = words_slice(line);
                    if p.len() >= 2 {
                        version = string_of(p[1].as_slice());
                    }
                }
                j = j + 1;
            }
        }
        PackageInfo {
            name: package.to_owned(),
            version,
            description: st.description,
            backend: "Snap".to_owned(),
            homepage: st.homepage,
            size: st.size,
            installed: st.installed,
        }
    }

    /// The installed snaps of a `snap list` output.
    pub fn parse_list(&self, output: &str) -> (r: Vec<InstalledPackage>)
        ensures
            r.deep_view() == snap_list(output@),
    {
        let ls = lines_of(output);
        let mut res: Vec<InstalledPackage> = Vec::new();
        let mut i: usize = 0;
        while i < ls.len()
            invariant
                i <= ls@.len(),
                views(ls@) == lines(output@),
                res.deep_view() == views(ls@).take(i as int).filter_map(snap_list_fn()),
            decreases ls@.len() - i,
        {
            proof {
                lemma_filter_map_step(views(ls@), snap_list_fn(), i as int);
            }
            let ghost before = res.deep_view();
            let t = words_slice(ls[i].as_slice());
            if t.len() >= 2 && !snap_header_word_slice(t[0].as_slice()) {
                let r = InstalledPackage {
                    name: string_of(t[0].as_slice()),
                    version: string_of(t[1].as_slice()),
                    backend: "Snap".to_owned(),
                };
                res.push(r);
                assert(res.deep_view() =~= before.push(r@));
            }
            i = i + 1;
        }
        proof {
            lemma_take_all(views(ls@));
        }
        res
    }
}

impl PackageManagerBackend for SnapBackend {
    fn name(&self) -> (n: &'static str)
        ensures
            n@ == "Snap"@,
    {
        "Snap"
    }
}

/// Law: every hit of a Snap search and every installed package of a Snap
/// listing names Snap (`Snap`) as its backend.
pub proof fn law_reports_tagged(out: Seq<char>)
    ensures
        forall|i: int| 0 <= i < snap_search(out).len() ==> (#[trigger] snap_search(out)[i]).backend == "Snap"@,
        forall|i: int| 0 <= i < snap_list(out).len() ==> (#[trigger] snap_list(out)[i]).backend == "Snap"@,
{
    lemma_filter_map_all(lines(out), snap_search_fn(), |r: SearchResultView| r.backend == "Snap"@);
    lemma_filter_map_all(lines(out), snap_list_fn(), |r: InstalledPackageView| r.backend == "Snap"@);
}

} // verus!
