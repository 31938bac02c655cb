//! APK (Alpine Linux): `apk search -v`, `apk info`, `apk info -v`.
use vstd::prelude::*;
use vstd::string::*;
use crate::backend::PackageManagerBackend;
use crate::parse::{ lemma_filter_map_all,
    lemma_filter_map_step, lemma_take_all, lines_of, name_version, name_version_slice,
    trimmed_string,
};
use crate::text::{chars_of, join, join_slices, lines, split_once, split_once_slice, trim, trim_slice, views};
use crate::types::{
    InstalledPackage, InstalledPackageView, PackageInfo, PackageInfoView, SearchResult,
    SearchResultView,
};

verus! {

/// The APK backend.
pub struct ApkBackend;

/// `name-version`, split; `repo` as the version without a `-`.
pub open spec fn apk_name_version(s: Seq<char>) -> (Seq<char>, Seq<char>) {
    name_version(s, "repo"@)
}

/// A line `name-version - summary` of `apk search -v`.
pub open spec fn apk_search_item(l: Seq<char>) -> Option<SearchResultView> {
    match split_once(l, " - "@) {
        Some((a, b)) => {
            let nv = apk_name_version(trim(a));
            Some(SearchResultView { name: nv.0, description: trim(b), version: nv.1, backend: "APK"@ })
        },
        None => None,
    }
}

pub open spec fn apk_search_fn() -> spec_fn(Seq<char>) -> Option<SearchResultView> {
    |l: Seq<char>| apk_search_item(l)
}

/// The hits of an `apk search -v` output.
pub open spec fn apk_search(out: Seq<char>) -> Seq<SearchResultView> {
    lines(out).filter_map(apk_search_fn())
}

/// The body of an `apk info -d/-w/-s` answer: its lines after the first
/// (the title) joined with `sep`, trimmed.
pub open spec fn apk_body(out: Seq<char>, sep: Seq<char>) -> Seq<char> {
    let ls = lines(out);
    trim(
        join(
            if ls.len() > 0 {
                ls.skip(1)
            } else {
                ls
            },
            sep,
        ),
    )
}

/// The details of `package` from the answers of `apk info -d` (`desc`),
/// `apk info -w` (`web`, absent when the command failed), `apk info -s`
/// (`size`, likewise) and `apk info` (`info`).
pub open spec fn apk_info(
    package: Seq<char>,
    desc: Seq<char>,
    web: Option<Seq<char>>,
    size: Option<Seq<char>>,
    info: Seq<char>,
    installed: bool,
) -> PackageInfoView {
    let first = if lines(info).len() > 0 {
        lines(info)[0]
    } else {
        package
    };
    PackageInfoView {
        name: package,
        version: apk_name_version(first).1,
        description: apk_body(desc, "\n"@),
        backend: "APK"@,
        homepage: match web {
            Some(w) => Some(apk_body(w, ""@)),
            None => None,
        },
        size: match size {
            Some(z) => Some(apk_body(z, ""@)),
            None => None,
        },
        installed,
    }
}

/// A line `name-version` of `apk info -v`.
pub open spec fn apk_list_item(l: Seq<char>) -> Option<InstalledPackageView> {
    let nv = apk_name_version(trim(l));
    Some(InstalledPackageView { name: nv.0, version: nv.1, backend: "APK"@ })
}

pub open spec fn apk_list_fn() -> spec_fn(Seq<char>) -> Option<InstalledPackageView> {
    |l: Seq<char>| apk_list_item(l)
}

/// The installed packages of an `apk info -v` output: one per line.
pub open spec fn apk_list(out: Seq<char>) -> Seq<InstalledPackageView> {
    lines(out).filter_map(apk_list_fn())
}

fn apk_body_string(out: &str, sep: &str) -> (r: String)
    ensures
        r@ == apk_body(out@, sep@),
{
    let ls = lines_of(out);
    let sepv = chars_of(sep);
    if ls.len() == 0 {
        assert(views(ls@).skip(0) =~= views(ls@));
        let j = join_slices(&ls, 0, ls.len(), sepv.as_slice());
        return trimmed_string(j.as_slice());
    }
    let j = join_slices(&ls, 1, ls.len(), sepv.as_slice());
    trimmed_string(j.as_slice())
}

impl ApkBackend {
    /// The backend.
    pub fn new() -> (b: Self) {
        ApkBackend
    }

    /// `name-version` split at its last `-`; `repo` as the version without one.
    pub fn split_name_version(&self, pkg_ver: &str) -> (r: (String, String))
        ensures
            (r.0@, r.1@) == apk_name_version(pkg_ver@),
    {
        let v = chars_of(pkg_ver);
        name_version_slice(v.as_slice(), "repo")
    }

    /// The hits of an `apk search -v <query>` output.
    pub fn parse_search(&self, output: &str) -> (r: Vec<SearchResult>)
        ensures
            r.deep_view() == apk_search(output@),
    {
        let ls = lines_of(output);
        let sep = chars_of(" - ");
        let mut res: Vec<SearchResult> = Vec::new();
        let mut i: usize = 0;
        while i < ls.len()
            invariant
                i <= ls@.len(),
                views(ls@) == lines(output@),
                sep@ == " - "@,
                res.deep_view() == views(ls@).take(i as int).filter_map(apk_search_fn()),
            decreases ls@.len() - i,
        {
            proof {
                lemma_filter_map_step(views(ls@), apk_search_fn(), i as int);
            }
            let ghost before = res.deep_view();
            match split_once_slice(ls[i].as_slice(), sep.as_slice()) {
                Some((a, b)) => {
                    let (name, version) = name_version_slice(trim_slice(a), "repo");
                    let r = SearchResult {
                        name,
                        description: trimmed_string(b),
                        version,
                        backend: "APK".to_owned(),
                    };
                    res.push(r);
                    assert(res.deep_view() =~= before.push(r@));
                },
                None => {},
            }
            i = i + 1;
        }
        proof {
            lemma_take_all(views(ls@));
        }
        res
    }

    /// What `search` answers for the outcome of `apk search -v`: a failed
    /// command gives no hits rather than an error.
    pub fn search_outcome(&self, captured: Result<String, String>) -> (r: Result<Vec<SearchResult>, String>)
        ensures
            captured matches Ok(out) ==> (r matches Ok(v) && v.deep_view() == apk_search(out@)),
            captured is Err ==> (r matches Ok(v) && v@.len() == 0),
    {
        match captured {
            Ok(out) => Ok(self.parse_search(out.as_str())),
            Err(_) => Ok(Vec::new()),
        }
    }

    /// The details of `package` from the answers of `apk info -d`, `-w`, `-s`
    /// and plain `apk info`; `installed` is what `apk info -e <package>` answered.
    pub fn parse_info(
        &self,
        package: &str,
        desc: &str,
        web: Option<&str>,
        size: Option<&str>,
        info: &str,
        installed: bool,
    ) -> (r: PackageInfo)
        ensures
            r@ == apk_info(
                package@,
                desc@,
                match web {
                    Some(w) => Some(w@),
                    None => None,
                },
                match size {
                    Some(z) => Some(z@),
                    None => None,
                },
                info@,
                installed,
            ),
    {
        let description = apk_body_string(desc, "\n");
        let homepage = match web {
            Some(w) => Some(apk_body_string(w, "")),
            None => None,
        };
        let size_text = match size {
            Some(z) => Some(apk_body_string(z, "")),
            None => None,
        };
        let ls = lines_of(info);
        let pkg = chars_of(package);
        let (_, version) = if ls.len() > 0 {
            name_version_slice(ls[0].as_slice(), "repo")
        } else {
            name_version_slice(pkg.as_slice(), "repo")
        };
        PackageInfo {
            name: package.to_owned(),
            version,
            description,
            backend: "APK".to_owned(),
            homepage,
            size: size_text,
            installed,
        }
    }

    /// The installed packages of an `apk info -v` output.
    pub fn parse_list(&self, output: &str) -> (r: Vec<InstalledPackage>)
        ensures
            r.deep_view() == apk_list(output@),
    {
        let ls = lines_of(output);
        let mut res: Vec<InstalledPackage> = Vec::new();
        let mut i: usize = 0;
        while i < ls.len()
            invariant
                i <= ls@.len(),
                views(ls@) == lines(output@),
                res.deep_view() == views(ls@).take(i as int).filter_map(apk_list_fn()),
            decreases ls@.len() - i,
        {
            proof {
                lemma_filter_map_step(views(ls@), apk_list_fn(), i as int);
            }
            let ghost before = res.deep_view();
            let (name, version) = name_version_slice(trim_slice(ls[i].as_slice()), "repo");
            let r = InstalledPackage { name, version, backend: "APK".to_owned() };
            res.push(r);
            assert(res.deep_view() =~= before.push(r@));
            i = i + 1;
        }
        proof {
            lemma_take_all(views(ls@));
        }
        res
    }
}

impl PackageManagerBackend for ApkBackend {
    fn name(&self) -> (n: &'static str)
        ensures
            n@ == "APK"@,
    {
        "APK"
    }
}

/// Law: every hit of a APK search and every installed package of a APK
/// listing names APK (`APK`) as its backend.
pub proof fn law_reports_tagged(out: Seq<char>)
    ensures
        forall|i: int| 0 <= i < apk_search(out).len() ==> (#[trigger] apk_search(out)[i]).backend == "APK"@,
        forall|i: int| 0 <= i < apk_list(out).len() ==> (#[trigger] apk_list(out)[i]).backend == "APK"@,
{
    lemma_filter_map_all(lines(out), apk_search_fn(), |r: SearchResultView| r.backend == "APK"@);
    lemma_filter_map_all(lines(out), apk_list_fn(), |r: InstalledPackageView| r.backend == "APK"@);
}

} // verus!
