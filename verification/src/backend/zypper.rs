//! Zypper (openSUSE): `zypper search`, `zypper info`, `zypper search --installed-only`.
use vstd::prelude::*;
use vstd::string::*;
use crate::backend::PackageManagerBackend;
use crate::parse::{ lemma_filter_map_all,
    fold, info_fields_new, info_init, key_val, key_val_slice, lemma_filter_map_step,
    lemma_fold_step, lemma_take_all, lines_of, trimmed_string, InfoFields, InfoState,
};
use crate::text::{
    chars_of, contains, contains_slice, eq_ignore_ascii_case, eq_ignore_ascii_case_str, eq_str,
    lines, split_char, split_char_slice, starts_with, starts_with_slice, string_of, trim,
    trim_slice, views,
};
use crate::types::{
    InstalledPackage, InstalledPackageView, PackageInfo, PackageInfoView, SearchResult,
    SearchResultView,
};

verus! {

/// The Zypper backend.
pub struct ZypperBackend;

/// A header, rule, blank or progress line of a `zypper search` table.
pub open spec fn zypper_skipped(l: Seq<char>) -> bool {
    (contains(l, "Name"@) && contains(l, "Summary"@)) || starts_with(l, "---"@) || l.len() == 0
        || starts_with(l, "Loading repository"@)
}

/// The columns `S | Name | Summary | Type` of a table row that lists a package.
pub open spec fn zypper_package_row(l: Seq<char>) -> Option<(Seq<char>, Seq<char>)> {
    if zypper_skipped(l) {
        None
    } else {
        let p = split_char(l, '|');
        if p.len() >= 4 && eq_ignore_ascii_case(trim(p[3]), "package"@) {
            Some((trim(p[1]), trim(p[2])))
        } else {
            None
        }
    }
}

pub open spec fn zypper_search_item(l: Seq<char>) -> Option<SearchResultView> {
    match zypper_package_row(l) {
        Some((n, d)) => Some(SearchResultView { name: n, description: d, version: "repo"@, backend: "Zypper"@ }),
        None => None,
    }
}

pub open spec fn zypper_search_fn() -> spec_fn(Seq<char>) -> Option<SearchResultView> {
    |l: Seq<char>| zypper_search_item(l)
}

/// The hits of a `zypper search` output.
pub open spec fn zypper_search(out: Seq<char>) -> Seq<SearchResultView> {
    lines(out).filter_map(zypper_search_fn())
}

/// One line of `zypper info`: indented lines after `Description` make up the
/// description; `Version`, `URL`, `Installed Size` set their field.
pub open spec fn zypper_info_step(st: InfoState, line: Seq<char>) -> InfoState {
    if st.in_desc && starts_with(line, " "@) {
        InfoState { description: st.description + "\n"@ + trim(line), ..st }
    } else {
        let st = InfoState { in_desc: false, ..st };
        match key_val(line) {
            Some((k, v)) => {
                if k == "Version"@ {
                    InfoState { version: v, ..st }
                } else if k == "URL"@ {
                    InfoState { homepage: Some(v), ..st }
                } else if k == "Installed Size"@ {
                    InfoState { size: Some(v), ..st }
                } else if k == "Description"@ {
                    InfoState { in_desc: true, ..st }
                } else {
                    st
                }
            },
            None => st,
        }
    }
}

pub open spec fn zypper_info_fn() -> spec_fn(InfoState, Seq<char>) -> InfoState {
    |st: InfoState, l: Seq<char>| zypper_info_step(st, l)
}

/// The details of `package` read from a `zypper info` output.
pub open spec fn zypper_info(package: Seq<char>, out: Seq<char>, installed: bool) -> PackageInfoView {
    let st = fold(lines(out), info_init(), zypper_info_fn());
    PackageInfoView {
        name: package,
        version: st.version,
        description: st.description,
        backend: "Zypper"@,
        homepage: st.homepage,
        size: st.size,
        installed,
    }
}

pub open spec fn zypper_list_item(l: Seq<char>) -> Option<InstalledPackageView> {
    match zypper_package_row(l) {
        Some((n, _)) => Some(InstalledPackageView { name: n, version: "installed"@, backend: "Zypper"@ }),
        None => None,
    }
}

pub open spec fn zypper_list_fn() -> spec_fn(Seq<char>) -> Option<InstalledPackageView> {
    |l: Seq<char>| zypper_list_item(l)
}

/// The installed packages of a `zypper search --installed-only` output.
pub open spec fn zypper_list(out: Seq<char>) -> Seq<InstalledPackageView> {
    lines(out).filter_map(zypper_list_fn())
}

fn zypper_package_row_exec(l: &[char]) -> (r: Option<(String, String)>)
    ensures
        r matches Some(nd) ==> zypper_package_row(l@) == Some((nd.0@, nd.1@)),
        r is None ==> zypper_package_row(l@) is None,
{
    let name = chars_of("Name");
    let summary = chars_of("Summary");
    let rule = chars_of("---");
    let loading = chars_of("Loading repository");
    if (contains_slice(l, name.as_slice()) && contains_slice(l, summary.as_slice()))
        || starts_with_slice(l, rule.as_slice()) || l.len() == 0 || starts_with_slice(
        l,
        loading.as_slice(),
    ) {
        return None;
    }
    let p = split_char_slice(l, '|');
    if p.len() >= 4 && eq_ignore_ascii_case_str(trim_slice(p[3].as_slice()), "package") {
        Some((trimmed_string(p[1].as_slice()), trimmed_string(p[2].as_slice())))
    } else {
        None
    }
}

fn zypper_info_line(st: InfoFields, line: &[char]) -> (r: InfoFields)
    ensures
        r@ == zypper_info_step(st@, line@),
{
    let space = chars_of(" ");
    if st.in_desc && starts_with_slice(line, space.as_slice()) {
        let mut d = st.description;
        d.append("\n");
        d.append(trimmed_string(line).as_str());
        return InfoFields { description: d, ..st };
    }
    let st = InfoFields { in_desc: false, ..st };
    match key_val_slice(line) {
        Some((k, v)) => {
            if eq_str(k, "Version") {
                InfoFields { version: string_of(v), ..st }
            } else if eq_str(k, "URL") {
                InfoFields { homepage: Some(string_of(v)), ..st }
            } else if eq_str(k, "Installed Size") {
                InfoFields { size: Some(string_of(v)), ..st }
            } else if eq_str(k, "Description") {
                InfoFields { in_desc: true, ..st }
            } else {
                st
            }
        },
        None => st,
    }
}

impl ZypperBackend {
    /// The backend.
    pub fn new() -> (b: Self) {
        ZypperBackend
    }

    /// The hits of a `zypper --non-interactive search <query>` output.
    pub fn parse_search(&self, output: &str) -> (r: Vec<SearchResult>)
        ensures
            r.deep_view() == zypper_search(output@),
    {
        let ls = lines_of(output);
        let mut res: Vec<SearchResult> = Vec::new();
        let mut i: usize = 0;
        while i < ls.len()
            invariant
                i <= ls@.len(),
                views(ls@) == lines(output@),
                res.deep_view() == views(ls@).take(i as int).filter_map(zypper_search_fn()),
            decreases ls@.len() - i,
        {
            proof {
                lemma_filter_map_step(views(ls@), zypper_search_fn(), i as int);
            }
            let ghost before = res.deep_view();
            match zypper_package_row_exec(ls[i].as_slice()) {
                Some((n, d)) => {
                    let r = SearchResult {
                        name: n,
                        description: d,
                        version: "repo".to_owned(),
                        backend: "Zypper".to_owned(),
                    };
                    res.push(r);
                    assert(res.deep_view() =~= before.push(r@));
                },
                None => {},
            }
            i = i + 1;
        }
        proof {
            lemma_take_all(views(ls@));
        }
        res
    }

    /// What `search` answers for the outcome of `zypper search`: a failed
    /// command gives no hits rather than an error.
    pub fn search_outcome(&self, captured: Result<String, String>) -> (r: Result<Vec<SearchResult>, String>)
        ensures
            captured matches Ok(out) ==> (r matches Ok(v) && v.deep_view() == zypper_search(out@)),
            captured is Err ==> (r matches Ok(v) && v@.len() == 0),
    {
        match captured {
            Ok(out) => Ok(self.parse_search(out.as_str())),
            Err(_) => Ok(Vec::new()),
        }
    }

    /// The details of `package` read from a `zypper info <package>` output;
    /// `installed` is what `rpm -q <package>` answered.
    pub fn parse_info(&self, package: &str, output: &str, installed: bool) -> (r: PackageInfo)
        ensures
            r@ == zypper_info(package@, output@, installed),
    {
        let ls = lines_of(output);
        let mut st = info_fields_new();
        let mut i: usize = 0;
        while i < ls.len()
            invariant
                i <= ls@.len(),
                views(ls@) == lines(output@),
                st@ == fold(views(ls@).take(i as int), info_init(), zypper_info_fn()),
            decreases ls@.len() - i,
        {
            proof {
                lemma_fold_step(views(ls@), info_init(), zypper_info_fn(), i as int);
            }
            st = zypper_info_line(st, ls[i].as_slice());
            i = i + 1;
        }
        proof {
            lemma_take_all(views(ls@));
        }
        PackageInfo {
            name: package.to_owned(),
            version: st.version,
            description: st.description,
            backend: "Zypper".to_owned(),
            homepage: st.homepage,
            size: st.size,
            installed,
        }
    }

    /// The installed packages of a `zypper --non-interactive search --installed-only` output.
    pub fn parse_list(&self, output: &str) -> (r: Vec<InstalledPackage>)
        ensures
            r.deep_view() == zypper_list(output@),
    {
        let ls = lines_of(output);
        let mut res: Vec<InstalledPackage> = Vec::new();
        let mut i: usize = 0;
        while i < ls.len()
            invariant
                i <= ls@.len(),
                views(ls@) == lines(output@),
                res.deep_view() == views(ls@).take(i as int).filter_map(zypper_list_fn()),
            decreases ls@.len() - i,
        {
            proof {
                lemma_filter_map_step(views(ls@), zypper_list_fn(), i as int);
            }
            let ghost before = res.deep_view();
            match zypper_package_row_exec(ls[i].as_slice()) {
                Some((n, _)) => {
                    let r = InstalledPackage {
                        name: n,
                        version: "installed".to_owned(),
                        backend: "Zypper".to_owned(),
                    };
                    res.push(r);
                    assert(res.deep_view() =~= before.push(r@));
                },
                None => {},
            }
            i = i + 1;
        }
        proof {
            lemma_take_all(views(ls@));
        }
        res
    }
}

impl PackageManagerBackend for ZypperBackend {
    fn name(&self) -> (n: &'static str)
        ensures
            n@ == "Zypper"@,
    {
        "Zypper"
    }
}

/// Law: every hit of a Zypper search and every installed package of a Zypper
/// listing names Zypper (`Zypper`) as its backend.
pub proof fn law_reports_tagged(out: Seq<char>)
    ensures
        forall|i: int| 0 <= i < zypper_search(out).len() ==> (#[trigger] zypper_search(out)[i]).backend == "Zypper"@,
        forall|i: int| 0 <= i < zypper_list(out).len() ==> (#[trigger] zypper_list(out)[i]).backend == "Zypper"@,
{
    lemma_filter_map_all(lines(out), zypper_search_fn(), |r: SearchResultView| r.backend == "Zypper"@);
    lemma_filter_map_all(lines(out), zypper_list_fn(), |r: InstalledPackageView| r.backend == "Zypper"@);
}

} // verus!
