//! eopkg (Solus): `eopkg search`, `eopkg info`, `eopkg list-installed`.
use vstd::prelude::*;
use vstd::string::*;
use crate::backend::PackageManagerBackend;
use crate::parse::{ lemma_filter_map_all,
    fold, info_fields_new, info_init, key_val, key_val_slice, lemma_filter_map_step,
    lemma_fold_step, lemma_take_all, lines_of, trimmed_string, InfoFields, InfoState,
};
use crate::text::{chars_of, contains, contains_slice, eq_str, lines, split_once, split_once_slice, string_of, trim, views};
use crate::types::{
    InstalledPackage, InstalledPackageView, PackageInfo, PackageInfoView, SearchResult,
    SearchResultView,
};

verus! {

/// The eopkg backend.
pub struct EopkgBackend;

/// A line `name - summary` of `eopkg search`.
pub open spec fn eopkg_search_item(l: Seq<char>) -> Option<SearchResultView> {
    match split_once(l, " - "@) {
        Some((a, b)) => Some(
            SearchResultView { name: trim(a), description: trim(b), version: "repo"@, backend: "eopkg"@ },
        ),
        None => None,
    }
}

pub open spec fn eopkg_search_fn() -> spec_fn(Seq<char>) -> Option<SearchResultView> {
    |l: Seq<char>| eopkg_search_item(l)
}

/// The hits of an `eopkg search` output.
pub open spec fn eopkg_search(out: Seq<char>) -> Seq<SearchResultView> {
    lines(out).filter_map(eopkg_search_fn())
}

/// One line of `eopkg info`, in English or Portuguese: version, homepage,
/// installed size and description set their field.
pub open spec fn eopkg_info_step(st: InfoState, line: Seq<char>) -> InfoState {
    match key_val(line) {
        Some((k, v)) => {
            if k == "Name"@ || k == "Nome"@ {
                st
            } else if k == "Version"@ || k == "Versão"@ {
                InfoState { version: v, ..st }
            } else if k == "Homepage"@ || k == "Página inicial"@ {
                InfoState { homepage: Some(v), ..st }
            } else if k == "Installed size"@ || k == "Tamanho instalado"@ {
                InfoState { size: Some(v), ..st }
            } else if k == "Description"@ || k == "Descrição"@ {
                InfoState { description: v, ..st }
            } else {
                st
            }
        },
        None => st,
    }
}

pub open spec fn eopkg_info_fn() -> spec_fn(InfoState, Seq<char>) -> InfoState {
    |st: InfoState, l: Seq<char>| eopkg_info_step(st, l)
}

/// The details of `package` read from an `eopkg info` output.
pub open spec fn eopkg_info(package: Seq<char>, out: Seq<char>, installed: bool) -> PackageInfoView {
    let st = fold(lines(out), info_init(), eopkg_info_fn());
    PackageInfoView {
        name: package,
        version: st.version,
        description: st.description,
        backend: "eopkg"@,
        homepage: st.homepage,
        size: st.size,
        installed,
    }
}

/// `eopkg info` reports the package as installed.
pub open spec fn eopkg_reports_installed(out: Seq<char>) -> bool {
    contains(out, "Package state: installed"@) || contains(out, "Estado do pacote: instalado"@)
}

/// A line `name - summary` of `eopkg list-installed`.
pub open spec fn eopkg_list_item(l: Seq<char>) -> Option<InstalledPackageView> {
    match split_once(l, " - "@) {
        Some((a, _)) => Some(InstalledPackageView { name: trim(a), version: "installed"@, backend: "eopkg"@ }),
        None => None,
    }
}

pub open spec fn eopkg_list_fn() -> spec_fn(Seq<char>) -> Option<InstalledPackageView> {
    |l: Seq<char>| eopkg_list_item(l)
}

/// The installed packages of an `eopkg list-installed` output.
pub open spec fn eopkg_list(out: Seq<char>) -> Seq<InstalledPackageView> {
    lines(out).filter_map(eopkg_list_fn())
}

fn eopkg_info_line(st: InfoFields, line: &[char]) -> (r: InfoFields)
    ensures
        r@ == eopkg_info_step(st@, line@),
{
    match key_val_slice(line) {
        Some((k, v)) => {
            if eq_str(k, "Name") || eq_str(k, "Nome") {
                st
            } else if eq_str(k, "Version") || eq_str(k, "Versão") {
                InfoFields { version: string_of(v), ..st }
            } else if eq_str(k, "Homepage") || eq_str(k, "Página inicial") {
                InfoFields { homepage: Some(string_of(v)), ..st }
            } else if eq_str(k, "Installed size") || eq_str(k, "Tamanho instalado") {
                InfoFields { size: Some(string_of(v)), ..st }
            } else if eq_str(k, "Description") || eq_str(k, "Descrição") {
                InfoFields { description: string_of(v), ..st }
            } else {
                st
            }
        },
        None => st,
    }
}

impl EopkgBackend {
    /// The backend.
    pub fn new() -> (b: Self) {
        EopkgBackend
    }

    /// The hits of an `eopkg search <query>` output.
    pub fn parse_search(&self, output: &str) -> (r: Vec<SearchResult>)
        ensures
            r.deep_view() == eopkg_search(output@),
    {
        let ls = lines_of(output);
        let sep = chars_of(" - ");
        let mut res: Vec<SearchResult> = Vec::new();
        let mut i: usize = 0;
        while i < ls.len()
            invariant
                i <= ls@.len(),
                views(ls@) == lines(output@),
                sep@ == " - "@,
                res.deep_view() == views(ls@).take(i as int).filter_map(eopkg_search_fn()),
            decreases ls@.len() - i,
        {
            proof {
                lemma_filter_map_step(views(ls@), eopkg_search_fn(), i as int);
            }
            let ghost before = res.deep_view();
            match split_once_slice(ls[i].as_slice(), sep.as_slice()) {
                Some((a, b)) => {
                    let r = SearchResult {
                        name: trimmed_string(a),
                        description: trimmed_string(b),
                        version: "repo".to_owned(),
                        backend: "eopkg".to_owned(),
                    };
                    res.push(r);
                    assert(res.deep_view() =~= before.push(r@));
                },
                None => {},
            }
            i = i + 1;
        }
        proof {
            lemma_take_all(views(ls@));
        }
        res
    }

    /// What `search` answers for the outcome of `eopkg search`: a failed
    /// command gives no hits rather than an error.
    pub fn search_outcome(&self, captured: Result<String, String>) -> (r: Result<Vec<SearchResult>, String>)
        ensures
            captured matches Ok(out) ==> (r matches Ok(v) && v.deep_view() == eopkg_search(out@)),
            captured is Err ==> (r matches Ok(v) && v@.len() == 0),
    {
        match captured {
            Ok(out) => Ok(self.parse_search(out.as_str())),
            Err(_) => Ok(Vec::new()),
        }
    }

    /// `eopkg info <package>` reports the package as installed.
    pub fn reports_installed(&self, output: &str) -> (b: bool)
        ensures
            b == eopkg_reports_installed(output@),
    {
        let out = chars_of(output);
        let en = chars_of("Package state: installed");
        let pt = chars_of("Estado do pacote: instalado");
        contains_slice(out.as_slice(), en.as_slice()) || contains_slice(out.as_slice(), pt.as_slice())
    }

    /// The details of `package` read from an `eopkg info <package>` output.
    pub fn parse_info(&self, package: &str, output: &str, installed: bool) -> (r: PackageInfo)
        ensures
            r@ == eopkg_info(package@, output@, installed),
    {
        let ls = lines_of(output);
        let mut st = info_fields_new();
        let mut i: usize = 0;
        while i < ls.len()
            invariant
                i <= ls@.len(),
                views(ls@) == lines(output@),
                st@ == fold(views(ls@).take(i as int), info_init(), eopkg_info_fn()),
            decreases ls@.len() - i,
        {
            proof {
                lemma_fold_step(views(ls@), info_init(), eopkg_info_fn(), i as int);
            }
            st = eopkg_info_line(st, ls[i].as_slice());
            i = i + 1;
        }
        proof {
            lemma_take_all(views(ls@));
        }
        PackageInfo {
            name: package.to_owned(),
            version: st.version,
            description: st.description,
            backend: "eopkg".to_owned(),
            homepage: st.homepage,
            size: st.size,
            installed,
        }
    }

    /// The installed packages of an `eopkg list-installed` output.
    pub fn parse_list(&self, output: &str) -> (r: Vec<InstalledPackage>)
        ensures
            r.deep_view() == eopkg_list(output@),
    {
        let ls = lines_of(output);
        let sep = chars_of(" - ");
        let mut res: Vec<InstalledPackage> = Vec::new();
        let mut i: usize = 0;
        while i < ls.len()
            invariant
                i <= ls@.len(),
                views(ls@) == lines(output@),
                sep@ == " - "@,
                res.deep_view() == views(ls@).take(i as int).filter_map(eopkg_list_fn()),
            decreases ls@.len() - i,
        {
            proof {
                lemma_filter_map_step(views(ls@), eopkg_list_fn(), i as int);
            }
            let ghost before = res.deep_view();
            match split_once_slice(ls[i].as_slice(), sep.as_slice()) {
                Some((a, _)) => {
                    let r = InstalledPackage {
                        name: trimmed_string(a),
                        version: "installed".to_owned(),
                        backend: "eopkg".to_owned(),
                    };
                    res.push(r);
                    assert(res.deep_view() =~= before.push(r@));
                },
                None => {},
            }
            i = i + 1;
        }
        proof {
            lemma_take_all(views(ls@));
        }
        res
    }
}

impl PackageManagerBackend for EopkgBackend {
    fn name(&self) -> (n: &'static str)
        ensures
            n@ == "eopkg"@,
    {
        "eopkg"
    }
}

/// Law: every hit of a eopkg search and every installed package of a eopkg
/// listing names eopkg (`eopkg`) as its backend.
pub proof fn law_reports_tagged(out: Seq<char>)
    ensures
        forall|i: int| 0 <= i < eopkg_search(out).len() ==> (#[trigger] eopkg_search(out)[i]).backend == "eopkg"@,
        forall|i: int| 0 <= i < eopkg_list(out).len() ==> (#[trigger] eopkg_list(out)[i]).backend == "eopkg"@,
{
    lemma_filter_map_all(lines(out), eopkg_search_fn(), |r: SearchResultView| r.backend == "eopkg"@);
    lemma_filter_map_all(lines(out), eopkg_list_fn(), |r: InstalledPackageView| r.backend == "eopkg"@);
}

} // verus!
