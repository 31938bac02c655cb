//! Nix (`nix-env`): `nix-env -qaP`, `nix-env -q`, attribute paths under `nixpkgs.`.
use vstd::prelude::*;
use vstd::string::*;
use crate::backend::PackageManagerBackend;
use crate::parse::{ lemma_filter_map_all,fold, lemma_filter_map_step, lemma_fold_step, lemma_take_all, lines_of, name_version, name_version_slice};
use crate::text::{
    chars_of, eq_ignore_ascii_case, eq_ignore_ascii_case_slice, join, join_slices, lines,
    starts_with, starts_with_slice, string_of, strip_prefix, trim, trim_slice, views, words,
    words_slice,
};
use crate::types::{
    InstalledPackage, InstalledPackageView, PackageInfo, PackageInfoView, SearchResult,
    SearchResultView,
};

verus! {

/// The Nix backend.
pub struct NixBackend;

/// `name-version`, split; `repo` as the version without a `-`.
pub open spec fn nix_name_version(s: Seq<char>) -> (Seq<char>, Seq<char>) {
    name_version(s, "repo"@)
}

/// A package name without a leading `nixpkgs.`.
pub open spec fn nix_clean_name(p: Seq<char>) -> Seq<char> {
    match strip_prefix(p, "nixpkgs."@) {
        Some(x) => x,
        None => p,
    }
}

/// The attribute path that `nix-env -iA` installs: the name under `nixpkgs.`.
pub open spec fn nix_attr(p: Seq<char>) -> Seq<char> {
    if starts_with(p, "nixpkgs."@) {
        p
    } else {
        "nixpkgs."@ + p
    }
}

/// The pattern given to `nix-env -qaP` for a query: `.*query.*`.
pub open spec fn nix_search_pattern(q: Seq<char>) -> Seq<char> {
    ".*"@ + q + ".*"@
}

/// A line `attr-path name-version` of `nix-env -qaP`.
pub open spec fn nix_search_item(l: Seq<char>) -> Option<SearchResultView> {
    let t = words(l);
    if t.len() >= 2 {
        let nv = nix_name_version(t[1]);
        Some(
            SearchResultView {
                name: t[0],
                description: "Nix package: "@ + nv.0,
                version: nv.1,
                backend: "Nix"@,
            },
        )
    } else {
        None
    }
}

pub open spec fn nix_search_fn() -> spec_fn(Seq<char>) -> Option<SearchResultView> {
    |l: Seq<char>| nix_search_item(l)
}

/// The hits of a `nix-env -qaP` output.
pub open spec fn nix_search(out: Seq<char>) -> Seq<SearchResultView> {
    lines(out).filter_map(nix_search_fn())
}

/// Version and description read so far, and whether a package line was seen.
pub struct NixInfoState {
    pub version: Seq<char>,
    pub description: Seq<char>,
    pub done: bool,
}

/// The first line with at least two words gives the version (of its second
/// word) and, with a third word, the description (the words from the third on).
pub open spec fn nix_info_step(st: NixInfoState, l: Seq<char>) -> NixInfoState {
    let t = words(l);
    if st.done || t.len() < 2 {
        st
    } else {
        NixInfoState {
            version: nix_name_version(t[1]).1,
            description: if t.len() >= 3 {
                join(t.skip(2), " "@)
            } else {
                st.description
            },
            done: true,
        }
    }
}

pub open spec fn nix_info_fn() -> spec_fn(NixInfoState, Seq<char>) -> NixInfoState {
    |st: NixInfoState, l: Seq<char>| nix_info_step(st, l)
}

/// The details of `package` read from a `nix-env -qaP --description` output.
pub open spec fn nix_info(package: Seq<char>, out: Seq<char>, installed: bool) -> PackageInfoView {
    let init = NixInfoState {
        version: "unknown"@,
        description: "Nix package "@ + nix_clean_name(package),
        done: false,
    };
    let st = fold(lines(out), init, nix_info_fn());
    PackageInfoView {
        name: package,
        version: st.version,
        description: st.description,
        backend: "Nix"@,
        homepage: Some("https://search.nixos.org/packages"@),
        size: None,
        installed,
    }
}

/// A `nix-env -q` output lists `package` (by name, ignoring ASCII case).
pub open spec fn nix_lists_package(out: Seq<char>, package: Seq<char>) -> bool {
    exists|i: int|
        0 <= i < lines(out).len() && eq_ignore_ascii_case(
            nix_name_version(trim(#[trigger] lines(out)[i])).0,
            nix_clean_name(package),
        )
}

/// A line `name-version` of `nix-env -q`.
pub open spec fn nix_list_item(l: Seq<char>) -> Option<InstalledPackageView> {
    let nv = nix_name_version(trim(l));
    Some(InstalledPackageView { name: nv.0, version: nv.1, backend: "Nix"@ })
}

pub open spec fn nix_list_fn() -> spec_fn(Seq<char>) -> Option<InstalledPackageView> {
    |l: Seq<char>| nix_list_item(l)
}

/// The installed packages of a `nix-env -q` output: one per line.
pub open spec fn nix_list(out: Seq<char>) -> Seq<InstalledPackageView> {
    lines(out).filter_map(nix_list_fn())
}

/// `NixInfoState` in code.
pub struct NixInfoFields {
    pub version: String,
    pub description: String,
    pub done: bool,
}

impl View for NixInfoFields {
    type V = NixInfoState;

    open spec fn view(&self) -> NixInfoState {
        NixInfoState { version: self.version@, description: self.description@, done: self.done }
    }
}

fn nix_info_line(st: NixInfoFields, l: &[char]) -> (r: NixInfoFields)
    ensures
        r@ == nix_info_step(st@, l@),
{
    let t = words_slice(l);
    if st.done || t.len() < 2 {
        st
    } else {
        let (_, version) = name_version_slice(t[1].as_slice(), "repo");
        let description = if t.len() >= 3 {
            let space = chars_of(" ");
            string_of(join_slices(&t, 2, t.len(), space.as_slice()).as_slice())
        } else {
            st.description
        };
        NixInfoFields { version, description, done: true }
    }
}

impl NixBackend {
    /// The backend.
    pub fn new() -> (b: Self) {
        NixBackend
    }

    /// `name-version` split at its last `-`; `repo` as the version without one.
    pub fn split_name_version(&self, pkg_ver: &str) -> (r: (String, String))
        ensures
            (r.0@, r.1@) == nix_name_version(pkg_ver@),
    {
        let v = chars_of(pkg_ver);
        name_version_slice(v.as_slice(), "repo")
    }

    /// A package name without a leading `nixpkgs.` (what `nix-env -e` removes).
    pub fn clean_name(&self, package: &str) -> (r: String)
        ensures
            r@ == nix_clean_name(package@),
    {
        let p = chars_of(package);
        let prefix = chars_of("nixpkgs.");
        if starts_with_slice(p.as_slice(), prefix.as_slice()) {
            string_of(vstd::slice::slice_subrange(p.as_slice(), prefix.len(), p.len()))
        } else {
            package.to_owned()
        }
    }

    /// The attribute path that `nix-env -iA` installs.
    pub fn install_attr(&self, package: &str) -> (r: String)
        ensures
            r@ == nix_attr(package@),
    {
        let p = chars_of(package);
        let prefix = chars_of("nixpkgs.");
        if starts_with_slice(p.as_slice(), prefix.as_slice()) {
            package.to_owned()
        } else {
            let mut s = "nixpkgs.".to_owned();
            s.append(package);
            s
        }
    }

    /// The pattern that `nix-env -qaP` is given for a query.
    pub fn search_pattern(&self, query: &str) -> (r: String)
        ensures
            r@ == nix_search_pattern(query@),
    {
        let mut s = ".*".to_owned();
        s.append(query);
        s.append(".*");
        s
    }

    /// The hits of a `nix-env -qaP '.*<query>.*'` output.
    pub fn parse_search(&self, output: &str) -> (r: Vec<SearchResult>)
        ensures
            r.deep_view() == nix_search(output@),
    {
        let ls = lines_of(output);
        let mut res: Vec<SearchResult> = Vec::new();
        let mut i: usize = 0;
        while i < ls.len()
            invariant
                i <= ls@.len(),
                views(ls@) == lines(output@),
                res.deep_view() == views(ls@).take(i as int).filter_map(nix_search_fn()),
            decreases ls@.len() - i,
        {
            proof {
                lemma_filter_map_step(views(ls@), nix_search_fn(), i as int);
            }
            let ghost before = res.deep_view();
            let t = words_slice(ls[i].as_slice());
            if t.len() >= 2 {
                let (friendly, version) = name_version_slice(t[1].as_slice(), "repo");
                let mut description = "Nix package: ".to_owned();
                description.append(friendly.as_str());
                let r = SearchResult {
                    name: string_of(t[0].as_slice()),
                    description,
                    version,
                    backend: "Nix".to_owned(),
                };
                res.push(r);
                assert(res.deep_view() =~= before.push(r@));
            }
            i = i + 1;
        }
        proof {
            lemma_take_all(views(ls@));
        }
        res
    }

    /// What `search` answers for the outcome of `nix-env -qaP`: a failed
    /// command gives no hits rather than an error.
    pub fn search_outcome(&self, captured: Result<String, String>) -> (r: Result<Vec<SearchResult>, String>)
        ensures
            captured matches Ok(out) ==> (r matches Ok(v) && v.deep_view() == nix_search(out@)),
            captured is Err ==> (r matches Ok(v) && v@.len() == 0),
    {
        match captured {
            Ok(out) => Ok(self.parse_search(out.as_str())),
            Err(_) => Ok(Vec::new()),
        }
    }

    /// The details of `package` read from a `nix-env -qaP --description <name>`
    /// output; `installed` is what `lists_package` found in `nix-env -q`.
    pub fn parse_info(&self, package: &str, output: &str, installed: bool) -> (r: PackageInfo)
        ensures
            r@ == nix_info(package@, output@, installed),
    {
        let ls = lines_of(output);
        let mut description = "Nix package ".to_owned();
        description.append(self.clean_name(package).as_str());
        let mut st = NixInfoFields { version: "unknown".to_owned(), description, done: false };
        let ghost init = st@;
        let mut i: usize = 0;
        while i < ls.len()
            invariant
                i <= ls@.len(),
                views(ls@) == lines(output@),
                st@ == fold(views(ls@).take(i as int), init, nix_info_fn()),
            decreases ls@.len() - i,
        {
            proof {
                lemma_fold_step(views(ls@), init, nix_info_fn(), i as int);
            }
            st = nix_info_line(st, ls[i].as_slice());
            i = i + 1;
        }
        proof {
            lemma_take_all(views(ls@));
        }
        PackageInfo {
            name: package.to_owned(),
            version: st.version,
            description: st.description,
            backend: "Nix".to_owned(),
            homepage: Some("https://search.nixos.org/packages".to_owned()),
            size: None,
            installed,
        }
    }

    /// A `nix-env -q` output lists `package`.
    pub fn lists_package(&self, output: &str, package: &str) -> (b: bool)
        ensures
            b == nix_lists_package(output@, package@),
    {
        let ls = lines_of(output);
        let clean = chars_of(self.clean_name(package).as_str());
        let mut i: usize = 0;
        while i < ls.len()
            invariant
                i <= ls@.len(),
                views(ls@) == lines(output@),
                clean@ == nix_clean_name(package@),
                forall|j: int|
                    0 <= j < i ==> !eq_ignore_ascii_case(
                        nix_name_version(trim(#[trigger] lines(output@)[j])).0,
                        nix_clean_name(package@),
                    ),
            decreases ls@.len() - i,
        {
            let (name, _) = name_version_slice(trim_slice(ls[i].as_slice()), "repo");
            let n = chars_of(name.as_str());
            assert(ls@[i as int]@ == lines(output@)[i as int]);
            if eq_ignore_ascii_case_slice(n.as_slice(), clean.as_slice()) {
                return true;
            }
            i = i + 1;
        }
        false
    }

    /// The installed packages of a `nix-env -q` output.
    pub fn parse_list(&self, output: &str) -> (r: Vec<InstalledPackage>)
        ensures
            r.deep_view() == nix_list(output@),
    {
        let ls = lines_of(output);
        let mut res: Vec<InstalledPackage> = Vec::new();
        let mut i: usize = 0;
        while i < ls.len()
            invariant
                i <= ls@.len(),
                views(ls@) == lines(output@),
                res.deep_view() == views(ls@).take(i as int).filter_map(nix_list_fn()),
            decreases ls@.len() - i,
        {
            proof {
                lemma_filter_map_step(views(ls@), nix_list_fn(), i as int);
            }
            let ghost before = res.deep_view();
            let (name, version) = name_version_slice(trim_slice(ls[i].as_slice()), "repo");
            let r = InstalledPackage { name, version, backend: "Nix".to_owned() };
            res.push(r);
            assert(res.deep_view() =~= before.push(r@));
            i = i + 1;
        }
        proof {
            lemma_take_all(views(ls@));
        }
        res
    }
}

impl PackageManagerBackend for NixBackend {
    fn name(&self) -> (n: &'static str)
        ensures
            n@ == "Nix"@,
    {
        "Nix"
    }
}

/// Law: every hit of a Nix search and every installed package of a Nix
/// listing names Nix (`Nix`) as its backend.
pub proof fn law_reports_tagged(out: Seq<char>)
    ensures
        forall|i: int| 0 <= i < nix_search(out).len() ==> (#[trigger] nix_search(out)[i]).backend == "Nix"@,
        forall|i: int| 0 <= i < nix_list(out).len() ==> (#[trigger] nix_list(out)[i]).backend == "Nix"@,
{
    lemma_filter_map_all(lines(out), nix_search_fn(), |r: SearchResultView| r.backend == "Nix"@);
    lemma_filter_map_all(lines(out), nix_list_fn(), |r: InstalledPackageView| r.backend == "Nix"@);
}

} // verus!
