//! DNF (Fedora and derivatives): `dnf search`, `dnf info`, `dnf list installed`.
use vstd::prelude::*;
use vstd::string::*;
use crate::backend::PackageManagerBackend;
use crate::parse::{ lemma_filter_map_all,
    fold, info_fields_new, info_init, key_val, key_val_slice, lemma_filter_map_step,
    lemma_fold_step, lemma_take_all, lines_of, trimmed_string, InfoFields, InfoState,
};
use crate::text::{
    chars_of, lemma_split_once_char_prefix, contains, contains_slice, eq_str, lemma_split_char_nonempty, lines,
    split_char, split_char_slice, split_once, split_once_slice, starts_with, starts_with_slice,
    string_of, trim, trim_slice, views, words, words_slice,
};
use crate::types::{
    InstalledPackage, InstalledPackageView, PackageInfo, PackageInfoView, SearchResult,
    SearchResultView,
};

verus! {

/// The DNF backend.
pub struct DnfBackend;

/// An architecture suffix that DNF appends to package names.
pub open spec fn is_rpm_arch(s: Seq<char>) -> bool {
    s == "x86_64"@ || s == "i686"@ || s == "noarch"@ || s == "armhfp"@ || s == "aarch64"@
}

/// `name.arch` without its architecture suffix: the part before the first
/// `.` when the part after the last `.` is an architecture, else the name unchanged.
pub open spec fn dnf_clean_name(n: Seq<char>) -> Seq<char> {
    match split_once(n, "."@) {
        Some((clean, _)) => if is_rpm_arch(split_char(n, '.').last()) {
            clean
        } else {
            n
        },
        None => n,
    }
}

/// A line `name.arch : summary` of `dnf search`; header lines give nothing.
pub open spec fn dnf_search_item(l: Seq<char>) -> Option<SearchResultView> {
    if contains(l, "Matched:"@) || l.len() == 0 || starts_with(l, "Last metadata"@) {
        None
    } else {
        match split_once(l, ":"@) {
            Some((a, b)) => Some(
                SearchResultView {
                    name: dnf_clean_name(trim(a)),
                    description: trim(b),
                    version: "repo"@,
                    backend: "DNF"@,
                },
            ),
            None => None,
        }
    }
}

pub open spec fn dnf_search_fn() -> spec_fn(Seq<char>) -> Option<SearchResultView> {
    |l: Seq<char>| dnf_search_item(l)
}

/// The hits of a `dnf search` output.
pub open spec fn dnf_search(out: Seq<char>) -> Seq<SearchResultView> {
    lines(out).filter_map(dnf_search_fn())
}

/// One line of `dnf info`: `Version`, `Description`, `URL` and `Size` set their field.
pub open spec fn dnf_info_step(st: InfoState, line: Seq<char>) -> InfoState {
    match key_val(line) {
        Some((k, v)) => {
            if k == "Version"@ {
                InfoState { version: v, ..st }
            } else if k == "Description"@ {
                InfoState { description: v, ..st }
            } else if k == "URL"@ {
                InfoState { homepage: Some(v), ..st }
            } else if k == "Size"@ {
                InfoState { size: Some(v), ..st }
            } else {
                st
            }
        },
        None => st,
    }
}

pub open spec fn dnf_info_fn() -> spec_fn(InfoState, Seq<char>) -> InfoState {
    |st: InfoState, l: Seq<char>| dnf_info_step(st, l)
}

/// The details of `package` read from a `dnf info` output.
pub open spec fn dnf_info(package: Seq<char>, out: Seq<char>, installed: bool) -> PackageInfoView {
    let st = fold(lines(out), info_init(), dnf_info_fn());
    PackageInfoView {
        name: package,
        version: st.version,
        description: st.description,
        backend: "DNF"@,
        homepage: st.homepage,
        size: st.size,
        installed,
    }
}

/// A line `name.arch version repo` of `dnf list installed`.
pub open spec fn dnf_list_item(l: Seq<char>) -> Option<InstalledPackageView> {
    if starts_with(l, "Installed Packages"@) || l.len() == 0 {
        None
    } else {
        let t = words(l);
        if t.len() >= 2 {
            Some(InstalledPackageView { name: dnf_clean_name(t[0]), version: t[1], backend: "DNF"@ })
        } else {
            None
        }
    }
}

pub open spec fn dnf_list_fn() -> spec_fn(Seq<char>) -> Option<InstalledPackageView> {
    |l: Seq<char>| dnf_list_item(l)
}

/// The installed packages of a `dnf list installed` output.
pub open spec fn dnf_list(out: Seq<char>) -> Seq<InstalledPackageView> {
    lines(out).filter_map(dnf_list_fn())
}

fn is_rpm_arch_slice(s: &[char]) -> (b: bool)
    ensures
        b == is_rpm_arch(s@),
{
    eq_str(s, "x86_64") || eq_str(s, "i686") || eq_str(s, "noarch") || eq_str(s, "armhfp")
        || eq_str(s, "aarch64")
}

fn dnf_info_line(st: InfoFields, line: &[char]) -> (r: InfoFields)
    ensures
        r@ == dnf_info_step(st@, line@),
{
    match key_val_slice(line) {
        Some((k, v)) => {
            if eq_str(k, "Version") {
                InfoFields { version: string_of(v), ..st }
            } else if eq_str(k, "Description") {
                InfoFields { description: string_of(v), ..st }
            } else if eq_str(k, "URL") {
                InfoFields { homepage: Some(string_of(v)), ..st }
            } else if eq_str(k, "Size") {
                InfoFields { size: Some(string_of(v)), ..st }
            } else {
                st
            }
        },
        None => st,
    }
}

impl DnfBackend {
    /// The backend.
    pub fn new() -> (b: Self) {
        DnfBackend
    }

    /// `name.arch` without its architecture suffix.
    pub fn clean_package_name(&self, name_with_arch: &str) -> (r: String)
        ensures
            r@ == dnf_clean_name(name_with_arch@),
    {
        let v = chars_of(name_with_arch);
        self.clean_name_slice(v.as_slice())
    }

    fn clean_name_slice(&self, name_with_arch: &[char]) -> (r: String)
        ensures
            r@ == dnf_clean_name(name_with_arch@),
    {
        let dot = chars_of(".");
        match split_once_slice(name_with_arch, dot.as_slice()) {
            Some((clean, _)) => {
                let parts = split_char_slice(name_with_arch, '.');
                proof {
                    lemma_split_char_nonempty(name_with_arch@, '.');
                }
                assert(parts@[parts@.len() - 1]@ == split_char(name_with_arch@, '.').last());
                if is_rpm_arch_slice(parts[parts.len() - 1].as_slice()) {
                    string_of(clean)
                } else {
                    string_of(name_with_arch)
                }
            },
            None => string_of(name_with_arch),
        }
    }

    /// The hits of a `dnf search <query>` output.
    pub fn parse_search(&self, output: &str) -> (r: Vec<SearchResult>)
        ensures
            r.deep_view() == dnf_search(output@),
    {
        let ls = lines_of(output);
        let matched = chars_of("Matched:");
        let last_meta = chars_of("Last metadata");
        let colon = chars_of(":");
        let mut res: Vec<SearchResult> = Vec::new();
        let mut i: usize = 0;
        while i < ls.len()
            invariant
                i <= ls@.len(),
                views(ls@) == lines(output@),
                matched@ == "Matched:"@,
                last_meta@ == "Last metadata"@,
                colon@ == ":"@,
                res.deep_view() == views(ls@).take(i as int).filter_map(dnf_search_fn()),
            decreases ls@.len() - i,
        {
            let line = ls[i].as_slice();
            proof {
                lemma_filter_map_step(views(ls@), dnf_search_fn(), i as int);
            }
            let ghost before = res.deep_view();
            if !(contains_slice(line, matched.as_slice()) || line.len() == 0 || starts_with_slice(
                line,
                last_meta.as_slice(),
            )) {
                match split_once_slice(line, colon.as_slice()) {
                    Some((a, b)) => {
                        let r = SearchResult {
                            name: self.clean_name_slice(trim_slice(a)),
                            description: trimmed_string(b),
                            version: "repo".to_owned(),
                            backend: "DNF".to_owned(),
                        };
                        res.push(r);
                        assert(res.deep_view() =~= before.push(r@));
                    },
                    None => {},
                }
            }
            i = i + 1;
        }
        proof {
            lemma_take_all(views(ls@));
        }
        res
    }

    /// The details of `package` read from a `dnf info <package>` output;
    /// `installed` is what `rpm -q <package>` answered.
    pub fn parse_info(&self, package: &str, output: &str, installed: bool) -> (r: PackageInfo)
        ensures
            r@ == dnf_info(package@, output@, installed),
    {
        let ls = lines_of(output);
        let mut st = info_fields_new();
        let mut i: usize = 0;
        while i < ls.len()
            invariant
                i <= ls@.len(),
                views(ls@) == lines(output@),
                st@ == fold(views(ls@).take(i as int), info_init(), dnf_info_fn()),
            decreases ls@.len() - i,
        {
            proof {
                lemma_fold_step(views(ls@), info_init(), dnf_info_fn(), i as int);
            }
            st = dnf_info_line(st, ls[i].as_slice());
            i = i + 1;
        }
        proof {
            lemma_take_all(views(ls@));
        }
        PackageInfo {
            name: package.to_owned(),
            version: st.version,
            description: st.description,
            backend: "DNF".to_owned(),
            homepage: st.homepage,
            size: st.size,
            installed,
        }
    }

    /// The installed packages of a `dnf list installed` output.
    pub fn parse_list(&self, output: &str) -> (r: Vec<InstalledPackage>)
        ensures
            r.deep_view() == dnf_list(output@),
    {
        let ls = lines_of(output);
        let header = chars_of("Installed Packages");
        let mut res: Vec<InstalledPackage> = Vec::new();
        let mut i: usize = 0;
        while i < ls.len()
            invariant
                i <= ls@.len(),
                views(ls@) == lines(output@),
                header@ == "Installed Packages"@,
                res.deep_view() == views(ls@).take(i as int).filter_map(dnf_list_fn()),
            decreases ls@.len() - i,
        {
            let line = ls[i].as_slice();
            proof {
                lemma_filter_map_step(views(ls@), dnf_list_fn(), i as int);
            }
            let ghost before = res.deep_view();
            if !(starts_with_slice(line, header.as_slice()) || line.len() == 0) {
                let t = words_slice(line);
                if t.len() >= 2 {
                    let r = InstalledPackage {
                        name: self.clean_name_slice(t[0].as_slice()),
                        version: string_of(t[1].as_slice()),
                        backend: "DNF".to_owned(),
                    };
                    res.push(r);
                    assert(res.deep_view() =~= before.push(r@));
                }
            }
            i = i + 1;
        }
        proof {
            lemma_take_all(views(ls@));
        }
        res
    }
}

impl PackageManagerBackend for DnfBackend {
    fn name(&self) -> (n: &'static str)
        ensures
            n@ == "DNF"@,
    {
        "DNF"
    }
}

/// Law: every hit of a DNF search and every installed package of a DNF
/// listing names DNF (`DNF`) as its backend.
pub proof fn law_reports_tagged(out: Seq<char>)
    ensures
        forall|i: int| 0 <= i < dnf_search(out).len() ==> (#[trigger] dnf_search(out)[i]).backend == "DNF"@,
        forall|i: int| 0 <= i < dnf_list(out).len() ==> (#[trigger] dnf_list(out)[i]).backend == "DNF"@,
{
    lemma_filter_map_all(lines(out), dnf_search_fn(), |r: SearchResultView| r.backend == "DNF"@);
    lemma_filter_map_all(lines(out), dnf_list_fn(), |r: InstalledPackageView| r.backend == "DNF"@);
}

/// Law: cleaning a DNF package name twice is cleaning it once, and the clean
/// name is the whole name or the part of it before its first `.`.
pub proof fn law_clean_name_idempotent(n: Seq<char>)
    ensures
        dnf_clean_name(dnf_clean_name(n)) == dnf_clean_name(n),
        dnf_clean_name(n) == n || !dnf_clean_name(n).contains('.'),
{
    reveal_strlit(".");
    assert("."@ =~= seq!['.']);
    lemma_split_once_char_prefix(n, '.');
}

} // verus!
