//! Flatpak (from Flathub): `flatpak search`, `flatpak info` or
//! `flatpak remote-info flathub`, `flatpak list`.
use vstd::prelude::*;
use vstd::string::*;
use crate::backend::PackageManagerBackend;
use crate::parse::{ lemma_filter_map_all,
    fold, info_init, key_val, key_val_slice, lemma_filter_map_step, lemma_fold_step,
    lemma_take_all, lines_of, trimmed_string, InfoFields, InfoState,
};
use crate::text::{
    eq_str, lemma_split_char_nonempty, lines, split_char, split_char_slice, string_of, trim,
    trim_slice, views,
};
use crate::types::{
    InstalledPackage, InstalledPackageView, PackageInfo, PackageInfoView, SearchResult,
    SearchResultView,
};

verus! {

/// The Flatpak backend.
pub struct FlatpakBackend;

/// A row `Name<TAB>Description<TAB>Application ID<TAB>Version...` of
/// `flatpak search`: the application ID is the name, `Name - Description`
/// the description, and an empty version reads `stable`.
pub open spec fn flatpak_search_item(l: Seq<char>) -> Option<SearchResultView> {
    let p = split_char(l, '\t');
    if p.len() >= 4 {
        Some(
            SearchResultView {
                name: trim(p[2]),
                description: trim(p[0]) + " - "@ + trim(p[1]),
                version: if trim(p[3]).len() == 0 {
                    "stable"@
                } else {
                    trim(p[3])
                },
                backend: "Flatpak"@,
            },
        )
    } else {
        None
    }
}

pub open spec fn flatpak_search_fn() -> spec_fn(Seq<char>) -> Option<SearchResultView> {
    |l: Seq<char>| flatpak_search_item(l)
}

/// The hits of a `flatpak search` output.
pub open spec fn flatpak_search(out: Seq<char>) -> Seq<SearchResultView> {
    lines(out).filter_map(flatpak_search_fn())
}

/// The description of a `flatpak info` report: its first line, followed by
/// ` - ` and the trimmed second line where that line is not empty.
pub open spec fn flatpak_description(ls: Seq<Seq<char>>) -> Seq<char> {
    if ls.len() > 0 {
        if ls.len() > 1 && ls[1].len() > 0 {
            ls[0] + " - "@ + trim(ls[1])
        } else {
            ls[0]
        }
    } else {
        Seq::empty()
    }
}

/// One line of `flatpak info`: `Version` gives the version, `Installed` the size.
pub open spec fn flatpak_info_step(st: InfoState, line: Seq<char>) -> InfoState {
    match key_val(line) {
        Some((k, v)) => {
            if k == "Version"@ || k == "Versão"@ {
                InfoState { version: v, ..st }
            } else if k == "Installed"@ || k == "Instalado"@ {
                InfoState { size: Some(v), ..st }
            } else {
                st
            }
        },
        None => st,
    }
}

pub open spec fn flatpak_info_fn() -> spec_fn(InfoState, Seq<char>) -> InfoState {
    |st: InfoState, l: Seq<char>| flatpak_info_step(st, l)
}

/// The details of `package` read from `flatpak info` (when `installed`) or
/// `flatpak remote-info flathub` (when not); the homepage is its Flathub page.
pub open spec fn flatpak_info(package: Seq<char>, out: Seq<char>, installed: bool) -> PackageInfoView {
    let init = InfoState { description: flatpak_description(lines(out)), ..info_init() };
    let st = fold(lines(out), init, flatpak_info_fn());
    PackageInfoView {
        name: package,
        version: st.version,
        description: st.description,
        backend: "Flatpak"@,
        homepage: Some("https://flathub.org/apps/"@ + package),
        size: st.size,
        installed,
    }
}

/// A row `application<TAB>version` of `flatpak list`: every line is one entry,
/// `unknown` as the version where there is no second column.
pub open spec fn flatpak_list_item(l: Seq<char>) -> Option<InstalledPackageView> {
    let p = split_char(l, '\t');
    Some(
        InstalledPackageView {
            name: trim(p[0]),
            version: if p.len() > 1 {
                trim(p[1])
            } else {
                "unknown"@
            },
            backend: "Flatpak"@,
        },
    )
}

pub open spec fn flatpak_list_fn() -> spec_fn(Seq<char>) -> Option<InstalledPackageView> {
    |l: Seq<char>| flatpak_list_item(l)
}

/// The installed applications of a `flatpak list --columns=application,version` output.
pub open spec fn flatpak_list(out: Seq<char>) -> Seq<InstalledPackageView> {
    lines(out).filter_map(flatpak_list_fn())
}

fn flatpak_info_line(st: InfoFields, line: &[char]) -> (r: InfoFields)
    ensures
        r@ == flatpak_info_step(st@, line@),
{
    match key_val_slice(line) {
        Some((k, v)) => {
            if eq_str(k, "Version") || eq_str(k, "Versão") {
                InfoFields { version: string_of(v), ..st }
            } else if eq_str(k, "Installed") || eq_str(k, "Instalado") {
                InfoFields { size: Some(string_of(v)), ..st }
            } else {
                st
            }
        },
        None => st,
    }
}

impl FlatpakBackend {
    /// The backend.
    pub fn new() -> (b: Self) {
        FlatpakBackend
    }

    /// The hits of a `flatpak search <query>` output.
    pub fn parse_search(&self, output: &str) -> (r: Vec<SearchResult>)
        ensures
            r.deep_view() == flatpak_search(output@),
    {
        let ls = lines_of(output);
        let mut res: Vec<SearchResult> = Vec::new();
        let mut i: usize = 0;
        while i < ls.len()
            invariant
                i <= ls@.len(),
                views(ls@) == lines(output@),
                res.deep_view() == views(ls@).take(i as int).filter_map(flatpak_search_fn()),
            decreases ls@.len() - i,
        {
            proof {
                lemma_filter_map_step(views(ls@), flatpak_search_fn(), i as int);
            }
            let ghost before = res.deep_view();
            let p = split_char_slice(ls[i].as_slice(), '\t');
            if p.len() >= 4 {
                let mut description = trimmed_string(p[0].as_slice());
                description.append(" - ");
                description.append(trimmed_string(p[1].as_slice()).as_str());
                let v = trim_slice(p[3].as_slice());
                let version = if v.len() == 0 {
                    "stable".to_owned()
                } else {
                    string_of(v)
                };
                let r = SearchResult {
                    name: trimmed_string(p[2].as_slice()),
                    description,
                    version,
                    backend: "Flatpak".to_owned(),
                };
                res.push(r);
                assert(res.deep_view() =~= before.push(r@));
            }
            i = i + 1;
        }
        proof {
            lemma_take_all(views(ls@));
        }
        res
    }

    /// `info` asks `flatpak remote-info` only when `flatpak info` failed
    /// (the package is not installed).
    pub fn needs_remote_info(&self, local: &Result<String, String>) -> (b: bool)
        ensures
            b == local is Err,
    {
        local.is_err()
    }

    /// The details `info` gives from the outcome of `flatpak info <package>`
    /// (`local`) and, when that failed, of `flatpak remote-info flathub
    /// <package>` (`remote`): installed from the first, not installed from the
    /// second, and the second's error when both failed.
    pub fn info_from(
        &self,
        package: &str,
        local: Result<String, String>,
        remote: Option<Result<String, String>>,
    ) -> (r: Result<PackageInfo, String>)
        requires
            local is Err ==> remote is Some,
        ensures
            local matches Ok(o) ==> (r matches Ok(i) && i@ == flatpak_info(package@, o@, true)),
            local is Err ==> (match remote {
                Some(Ok(o)) => r matches Ok(i) && i@ == flatpak_info(package@, o@, false),
                Some(Err(e)) => r matches Err(m) && m@ == e@,
                None => false,
            }),
    {
        match local {
            Ok(o) => Ok(self.parse_info(package, o.as_str(), true)),
            Err(_) => match remote {
                Some(Ok(o)) => Ok(self.parse_info(package, o.as_str(), false)),
                Some(Err(e)) => Err(e),
                None => Err(String::new()),
            },
        }
    }

    /// The details of `package` read from a `flatpak info <package>` output
    /// (`installed`) or a `flatpak remote-info flathub <package>` output (not).
    pub fn parse_info(&self, package: &str, output: &str, installed: bool) -> (r: PackageInfo)
        ensures
            r@ == flatpak_info(package@, output@, installed),
    {
        let ls = lines_of(output);
        let description = if ls.len() > 0 {
            if ls.len() > 1 && ls[1].len() > 0 {
                let mut d = string_of(ls[0].as_slice());
                d.append(" - ");
                d.append(trimmed_string(ls[1].as_slice()).as_str());
                d
            } else {
                string_of(ls[0].as_slice())
            }
        } else {
            String::new()
        };
        let mut st = InfoFields {
            version: "unknown".to_owned(),
            description,
            homepage: None,
            size: None,
            installed: false,
            in_desc: false,
        };
        let ghost init = st@;
        assert(init == InfoState { description: flatpak_description(lines(output@)), ..info_init() });
        let mut i: usize = 0;
        while i < ls.len()
            invariant
                i <= ls@.len(),
                views(ls@) == lines(output@),
                st@ == fold(views(ls@).take(i as int), init, flatpak_info_fn()),
            decreases ls@.len() - i,
        {
            proof {
                lemma_fold_step(views(ls@), init, flatpak_info_fn(), i as int);
            }
            st = flatpak_info_line(st, ls[i].as_slice());
            i = i + 1;
        }
        proof {
            lemma_take_all(views(ls@));
        }
        let mut homepage = "https://flathub.org/apps/".to_owned();
        homepage.append(package);
        PackageInfo {
            name: package.to_owned(),
            version: st.version,
            description: st.description,
            backend: "Flatpak".to_owned(),
            homepage: Some(homepage),
            size: st.size,
            installed,
        }
    }

    /// The installed applications of a `flatpak list --columns=application,version` output.
    pub fn parse_list(&self, output: &str) -> (r: Vec<InstalledPackage>)
        ensures
            r.deep_view() == flatpak_list(output@),
    {
        let ls = lines_of(output);
        let mut res: Vec<InstalledPackage> = Vec::new();
        let mut i: usize = 0;
        while i < ls.len()
            invariant
                i <= ls@.len(),
                views(ls@) == lines(output@),
                res.deep_view() == views(ls@).take(i as int).filter_map(flatpak_list_fn()),
            decreases ls@.len() - i,
        {
            proof {
                lemma_filter_map_step(views(ls@), flatpak_list_fn(), i as int);
                lemma_split_char_nonempty(ls@[i as int]@, '\t');
            }
            let ghost before = res.deep_view();
            let p = split_char_slice(ls[i].as_slice(), '\t');
            let version = if p.len() > 1 {
                trimmed_string(p[1].as_slice())
            } else {
                "unknown".to_owned()
            };
            let r = InstalledPackage {
                name: trimmed_string(p[0].as_slice()),
                version,
                backend: "Flatpak".to_owned(),
            };
            res.push(r);
            assert(res.deep_view() =~= before.push(r@));
            i = i + 1;
        }
        proof {
            lemma_take_all(views(ls@));
        }
        res
    }
}

impl PackageManagerBackend for FlatpakBackend {
    fn name(&self) -> (n: &'static str)
        ensures
            n@ == "Flatpak"@,
    {
        "Flatpak"
    }
}

/// Law: every hit of a Flatpak search and every installed package of a Flatpak
/// listing names Flatpak (`Flatpak`) as its backend.
pub proof fn law_reports_tagged(out: Seq<char>)
    ensures
        forall|i: int| 0 <= i < flatpak_search(out).len() ==> (#[trigger] flatpak_search(out)[i]).backend == "Flatpak"@,
        forall|i: int| 0 <= i < flatpak_list(out).len() ==> (#[trigger] flatpak_list(out)[i]).backend == "Flatpak"@,
{
    lemma_filter_map_all(lines(out), flatpak_search_fn(), |r: SearchResultView| r.backend == "Flatpak"@);
    lemma_filter_map_all(lines(out), flatpak_list_fn(), |r: InstalledPackageView| r.backend == "Flatpak"@);
}

} // verus!
