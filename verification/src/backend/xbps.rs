//! XBPS (Void Linux): `xbps-query -Rs`, `xbps-query -R`, `xbps-query -l`.
use vstd::prelude::*;
use vstd::string::*;
use crate::backend::PackageManagerBackend;
use crate::parse::{ lemma_filter_map_all,
    fold, info_fields_new, info_init, key_val, key_val_slice, lemma_filter_map_step,
    lemma_fold_step, lemma_take_all, lines_of, name_version, name_version_slice, trimmed_string,
    InfoFields, InfoState,
};
use crate::text::{
    chars_of, eq_str, lines, split_once, split_once_slice, starts_with_slice, string_of,
    strip_prefix, trim, trim_slice, views, words, words_slice,
};
use crate::types::{
    InstalledPackage, InstalledPackageView, PackageInfo, PackageInfoView, SearchResult,
    SearchResultView,
};

verus! {

/// The XBPS backend.
pub struct XbpsBackend;

/// `name-version`, split; `unknown` as the version without a `-`.
pub open spec fn xbps_name_version(s: Seq<char>) -> (Seq<char>, Seq<char>) {
    name_version(s, "unknown"@)
}

/// The package text of a search line, with its state marker removed as the
/// tool does it: `[-] ` is removed only where `[*] ` follows it, `[*] ` alone
/// is removed, and the result is trimmed.
pub open spec fn xbps_clean_pkgver(pkg: Seq<char>) -> Seq<char> {
    let x = match strip_prefix(pkg, "[-] "@) {
        Some(y) => y,
        None => pkg,
    };
    trim(
        match strip_prefix(x, "[*] "@) {
            Some(y) => y,
            None => pkg,
        },
    )
}

/// A line `[*] name-version - summary` of `xbps-query -Rs`.
pub open spec fn xbps_search_item(l: Seq<char>) -> Option<SearchResultView> {
    match split_once(l, " - "@) {
        Some((a, b)) => {
            let nv = xbps_name_version(xbps_clean_pkgver(trim(a)));
            Some(SearchResultView { name: nv.0, description: trim(b), version: nv.1, backend: "XBPS"@ })
        },
        None => None,
    }
}

pub open spec fn xbps_search_fn() -> spec_fn(Seq<char>) -> Option<SearchResultView> {
    |l: Seq<char>| xbps_search_item(l)
}

/// The hits of an `xbps-query -Rs` output.
pub open spec fn xbps_search(out: Seq<char>) -> Seq<SearchResultView> {
    lines(out).filter_map(xbps_search_fn())
}

/// One line of `xbps-query -R`: `pkgver` gives the version, `short_desc`,
/// `homepage` and `installed_size` their field.
pub open spec fn xbps_info_step(st: InfoState, line: Seq<char>) -> InfoState {
    match key_val(line) {
        Some((k, v)) => {
            if k == "pkgver"@ {
                InfoState { version: xbps_name_version(v).1, ..st }
            } else if k == "short_desc"@ {
                InfoState { description: v, ..st }
            } else if k == "homepage"@ {
                InfoState { homepage: Some(v), ..st }
            } else if k == "installed_size"@ {
                InfoState { size: Some(v), ..st }
            } else {
                st
            }
        },
        None => st,
    }
}

pub open spec fn xbps_info_fn() -> spec_fn(InfoState, Seq<char>) -> InfoState {
    |st: InfoState, l: Seq<char>| xbps_info_step(st, l)
}

/// The details of `package` read from an `xbps-query -R` output.
pub open spec fn xbps_info(package: Seq<char>, out: Seq<char>, installed: bool) -> PackageInfoView {
    let st = fold(lines(out), info_init(), xbps_info_fn());
    PackageInfoView {
        name: package,
        version: st.version,
        description: st.description,
        backend: "XBPS"@,
        homepage: st.homepage,
        size: st.size,
        installed,
    }
}

/// A line `ii name-version summary` of `xbps-query -l`.
pub open spec fn xbps_list_item(l: Seq<char>) -> Option<InstalledPackageView> {
    let t = words(l);
    if t.len() >= 2 {
        let nv = xbps_name_version(t[1]);
        Some(InstalledPackageView { name: nv.0, version: nv.1, backend: "XBPS"@ })
    } else {
        None
    }
}

pub open spec fn xbps_list_fn() -> spec_fn(Seq<char>) -> Option<InstalledPackageView> {
    |l: Seq<char>| xbps_list_item(l)
}

/// The installed packages of an `xbps-query -l` output.
pub open spec fn xbps_list(out: Seq<char>) -> Seq<InstalledPackageView> {
    lines(out).filter_map(xbps_list_fn())
}

fn strip_prefix_slice<'a>(s: &'a [char], p: &str) -> (r: Option<&'a [char]>)
    ensures
        r matches Some(x) ==> strip_prefix(s@, p@) == Some(x@),
        r is None ==> strip_prefix(s@, p@) is None,
{
    let pv = chars_of(p);
    if starts_with_slice(s, pv.as_slice()) {
        Some(vstd::slice::slice_subrange(s, pv.len(), s.len()))
    } else {
        None
    }
}

fn xbps_clean_pkgver_slice(pkg: &[char]) -> (r: &[char])
    ensures
        r@ == xbps_clean_pkgver(pkg@),
{
    let x = match strip_prefix_slice(pkg, "[-] ") {
        Some(y) => y,
        None => pkg,
    };
    let z = match strip_prefix_slice(x, "[*] ") {
        Some(y) => y,
        None => pkg,
    };
    trim_slice(z)
}

fn xbps_info_line(st: InfoFields, line: &[char]) -> (r: InfoFields)
    ensures
        r@ == xbps_info_step(st@, line@),
{
    match key_val_slice(line) {
        Some((k, v)) => {
            if eq_str(k, "pkgver") {
                let (_, ver) = name_version_slice(v, "unknown");
                InfoFields { version: ver, ..st }
            } else if eq_str(k, "short_desc") {
                InfoFields { description: string_of(v), ..st }
            } else if eq_str(k, "homepage") {
                InfoFields { homepage: Some(string_of(v)), ..st }
            } else if eq_str(k, "installed_size") {
                InfoFields { size: Some(string_of(v)), ..st }
            } else {
                st
            }
        },
        None => st,
    }
}

impl XbpsBackend {
    /// The backend.
    pub fn new() -> (b: Self) {
        XbpsBackend
    }

    /// `name-version` split at its last `-`; `unknown` as the version without one.
    pub fn split_name_version(&self, pkg_ver: &str) -> (r: (String, String))
        ensures
            (r.0@, r.1@) == xbps_name_version(pkg_ver@),
    {
        let v = chars_of(pkg_ver);
        name_version_slice(v.as_slice(), "unknown")
    }

    /// The hits of an `xbps-query -Rs <query>` output.
    pub fn parse_search(&self, output: &str) -> (r: Vec<SearchResult>)
        ensures
            r.deep_view() == xbps_search(output@),
    {
        let ls = lines_of(output);
        let sep = chars_of(" - ");
        let mut res: Vec<SearchResult> = Vec::new();
        let mut i: usize = 0;
        while i < ls.len()
            invariant
                i <= ls@.len(),
                views(ls@) == lines(output@),
                sep@ == " - "@,
                res.deep_view() == views(ls@).take(i as int).filter_map(xbps_search_fn()),
            decreases ls@.len() - i,
        {
            proof {
                lemma_filter_map_step(views(ls@), xbps_search_fn(), i as int);
            }
            let ghost before = res.deep_view();
            match split_once_slice(ls[i].as_slice(), sep.as_slice()) {
                Some((a, b)) => {
                    let (name, version) = name_version_slice(
                        xbps_clean_pkgver_slice(trim_slice(a)),
                        "unknown",
                    );
                    let r = SearchResult {
                        name,
                        description: trimmed_string(b),
                        version,
                        backend: "XBPS".to_owned(),
                    };
                    res.push(r);
                    assert(res.deep_view() =~= before.push(r@));
                },
                None => {},
            }
            i = i + 1;
        }
        proof {
            lemma_take_all(views(ls@));
        }
        res
    }

    /// What `search` answers for the outcome of `xbps-query -Rs`: a failed
    /// command gives no hits rather than an error.
    pub fn search_outcome(&self, captured: Result<String, String>) -> (r: Result<Vec<SearchResult>, String>)
        ensures
            captured matches Ok(out) ==> (r matches Ok(v) && v.deep_view() == xbps_search(out@)),
            captured is Err ==> (r matches Ok(v) && v@.len() == 0),
    {
        match captured {
            Ok(out) => Ok(self.parse_search(out.as_str())),
            Err(_) => Ok(Vec::new()),
        }
    }

    /// The details of `package` read from an `xbps-query -R <package>` output;
    /// `installed` is what `xbps-query -S <package>` answered.
    pub fn parse_info(&self, package: &str, output: &str, installed: bool) -> (r: PackageInfo)
        ensures
            r@ == xbps_info(package@, output@, installed),
    {
        let ls = lines_of(output);
        let mut st = info_fields_new();
        let mut i: usize = 0;
        while i < ls.len()
            invariant
                i <= ls@.len(),
                views(ls@) == lines(output@),
                st@ == fold(views(ls@).take(i as int), info_init(), xbps_info_fn()),
            decreases ls@.len() - i,
        {
            proof {
                lemma_fold_step(views(ls@), info_init(), xbps_info_fn(), i as int);
            }
            st = xbps_info_line(st, ls[i].as_slice());
            i = i + 1;
        }
        proof {
            lemma_take_all(views(ls@));
        }
        PackageInfo {
            name: package.to_owned(),
            version: st.version,
            description: st.description,
            backend: "XBPS".to_owned(),
            homepage: st.homepage,
            size: st.size,
            installed,
        }
    }

    /// The installed packages of an `xbps-query -l` output.
    pub fn parse_list(&self, output: &str) -> (r: Vec<InstalledPackage>)
        ensures
            r.deep_view() == xbps_list(output@),
    {
        let ls = lines_of(output);
        let mut res: Vec<InstalledPackage> = Vec::new();
        let mut i: usize = 0;
        while i < ls.len()
            invariant
                i <= ls@.len(),
                views(ls@) == lines(output@),
                res.deep_view() == views(ls@).take(i as int).filter_map(xbps_list_fn()),
            decreases ls@.len() - i,
        {
            proof {
                lemma_filter_map_step(views(ls@), xbps_list_fn(), i as int);
            }
            let ghost before = res.deep_view();
            let t = words_slice(ls[i].as_slice());
            if t.len() >= 2 {
                let (name, version) = name_version_slice(t[1].as_slice(), "unknown");
                let r = InstalledPackage { name, version, backend: "XBPS".to_owned() };
                res.push(r);
                assert(res.deep_view() =~= before.push(r@));
            }
            i = i + 1;
        }
        proof {
            lemma_take_all(views(ls@));
        }
        res
    }
}

impl PackageManagerBackend for XbpsBackend {
    fn name(&self) -> (n: &'static str)
        ensures
            n@ == "XBPS"@,
    {
        "XBPS"
    }
}

/// Law: every hit of a XBPS search and every installed package of a XBPS
/// listing names XBPS (`XBPS`) as its backend.
pub proof fn law_reports_tagged(out: Seq<char>)
    ensures
        forall|i: int| 0 <= i < xbps_search(out).len() ==> (#[trigger] xbps_search(out)[i]).backend == "XBPS"@,
        forall|i: int| 0 <= i < xbps_list(out).len() ==> (#[trigger] xbps_list(out)[i]).backend == "XBPS"@,
{
    lemma_filter_map_all(lines(out), xbps_search_fn(), |r: SearchResultView| r.backend == "XBPS"@);
    lemma_filter_map_all(lines(out), xbps_list_fn(), |r: InstalledPackageView| r.backend == "XBPS"@);
}

} // verus!
