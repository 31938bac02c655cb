//! The AUR through yay: `yay -Ssa`, `yay -Si`, `pacman -Qm`.
use vstd::prelude::*;
use vstd::string::*;
use crate::backend::PackageManagerBackend;
use crate::parse::{
    fold, lemma_filter_map_all, lemma_fold_keeps, info_fields_new, info_init, key_val, key_val_slice, lemma_filter_map_step,
    lemma_fold_step, lemma_take_all, lines_of, InfoFields, InfoState,
};
use crate::text::{
    chars_of, eq_str, lines, starts_with_slice, string_of, strip_prefix, trim, trim_slice, views,
    words, words_slice,
};
use crate::types::{
    InstalledPackage, InstalledPackageView, PackageInfo, PackageInfoView, SearchResult,
    SearchResultView,
};

verus! {

/// The AUR backend.
pub struct YayBackend;

/// An entry of `yay -Ssa`: a first line `aur/name version ...` and the
/// summary line after it; entries from other repositories give nothing.
pub open spec fn yay_entry(first: Seq<char>, second: Seq<char>) -> Option<SearchResultView> {
    let p = words(first);
    if p.len() >= 2 {
        match strip_prefix(p[0], "aur/"@) {
            Some(n) => Some(SearchResultView { name: n, description: second, version: p[1], backend: "AUR/yay"@ }),
            None => None,
        }
    } else {
        None
    }
}

/// The hits so far, and a first line waiting for its summary line.
pub struct YaySearchState {
    pub results: Seq<SearchResultView>,
    pub pending: Option<Seq<char>>,
}

pub open spec fn push_opt<A>(s: Seq<A>, o: Option<A>) -> Seq<A> {
    match o {
        Some(x) => s.push(x),
        None => s,
    }
}

/// One line of `yay -Ssa`: blank lines between entries are skipped; a
/// non-blank line starts an entry, and the line after it (blank or not) ends it.
pub open spec fn yay_search_step(st: YaySearchState, l: Seq<char>) -> YaySearchState {
    match st.pending {
        None => if trim(l).len() == 0 {
            st
        } else {
            YaySearchState { pending: Some(trim(l)), ..st }
        },
        Some(f) => YaySearchState { results: push_opt(st.results, yay_entry(f, trim(l))), pending: None },
    }
}

pub open spec fn yay_search_fn() -> spec_fn(YaySearchState, Seq<char>) -> YaySearchState {
    |st: YaySearchState, l: Seq<char>| yay_search_step(st, l)
}

/// The AUR hits of a `yay -Ssa` output; a last entry without a summary line
/// gets an empty description.
pub open spec fn yay_search(out: Seq<char>) -> Seq<SearchResultView> {
    let st = fold(lines(out), YaySearchState { results: Seq::empty(), pending: None }, yay_search_fn());
    match st.pending {
        Some(f) => push_opt(st.results, yay_entry(f, Seq::empty())),
        None => st.results,
    }
}

/// One line of `yay -Si`: `Version`, `Description`, `URL` set their field;
/// `Download Size` or `First Submitted` the size.
pub open spec fn yay_info_step(st: InfoState, line: Seq<char>) -> InfoState {
    match key_val(line) {
        Some((k, v)) => {
            if k == "Version"@ {
                InfoState { version: v, ..st }
            } else if k == "Description"@ {
                InfoState { description: v, ..st }
            } else if k == "URL"@ {
                InfoState { homepage: Some(v), ..st }
            } else if k == "Download Size"@ || k == "First Submitted"@ {
                InfoState { size: Some(v), ..st }
            } else {
                st
            }
        },
        None => st,
    }
}

pub open spec fn yay_info_fn() -> spec_fn(InfoState, Seq<char>) -> InfoState {
    |st: InfoState, l: Seq<char>| yay_info_step(st, l)
}

/// The details of `package` read from a `yay -Si` output.
pub open spec fn yay_info(package: Seq<char>, out: Seq<char>, installed: bool) -> PackageInfoView {
    let st = fold(lines(out), info_init(), yay_info_fn());
    PackageInfoView {
        name: package,
        version: st.version,
        description: st.description,
        backend: "AUR/yay"@,
        homepage: st.homepage,
        size: st.size,
        installed,
    }
}

/// A line `name version` of `pacman -Qm`.
pub open spec fn yay_list_item(l: Seq<char>) -> Option<InstalledPackageView> {
    let t = words(l);
    if t.len() >= 2 {
        Some(InstalledPackageView { name: t[0], version: t[1], backend: "AUR/yay"@ })
    } else {
        None
    }
}

pub open spec fn yay_list_fn() -> spec_fn(Seq<char>) -> Option<InstalledPackageView> {
    |l: Seq<char>| yay_list_item(l)
}

/// The foreign (AUR) packages of a `pacman -Qm` output.
pub open spec fn yay_list(out: Seq<char>) -> Seq<InstalledPackageView> {
    lines(out).filter_map(yay_list_fn())
}

fn yay_entry_exec(first: &[char], second: &[char]) -> (r: Option<SearchResult>)
    ensures
        r matches Some(x) ==> yay_entry(first@, second@) == Some(x@),
        r is None ==> yay_entry(first@, second@) is None,
{
    let p = words_slice(first);
    if p.len() >= 2 {
        let aur = chars_of("aur/");
        let w = p[0].as_slice();
        if starts_with_slice(w, aur.as_slice()) {
            Some(
                SearchResult {
                    name: string_of(vstd::slice::slice_subrange(w, aur.len(), w.len())),
                    description: string_of(second),
                    version: string_of(p[1].as_slice()),
                    backend: "AUR/yay".to_owned(),
                },
            )
        } else {
            None
        }
    } else {
        None
    }
}

fn yay_info_line(st: InfoFields, line: &[char]) -> (r: InfoFields)
    ensures
        r@ == yay_info_step(st@, line@),
{
    match key_val_slice(line) {
        Some((k, v)) => {
            if eq_str(k, "Version") {
                InfoFields { version: string_of(v), ..st }
            } else if eq_str(k, "Description") {
                InfoFields { description: string_of(v), ..st }
            } else if eq_str(k, "URL") {
                InfoFields { homepage: Some(string_of(v)), ..st }
            } else if eq_str(k, "Download Size") || eq_str(k, "First Submitted") {
                InfoFields { size: Some(string_of(v)), ..st }
            } else {
                st
            }
        },
        None => st,
    }
}

pub open spec fn pending_view(p: Option<Vec<char>>) -> Option<Seq<char>> {
    match p {
        Some(v) => Some(v@),
        None => None,
    }
}

impl YayBackend {
    /// The backend.
    pub fn new() -> (b: Self) {
        YayBackend
    }

    /// The AUR hits of a `yay -Ssa <query>` output.
    pub fn parse_search(&self, output: &str) -> (r: Vec<SearchResult>)
        ensures
            r.deep_view() == yay_search(output@),
    {
        let ls = lines_of(output);
        let mut res: Vec<SearchResult> = Vec::new();
        let mut pending: Option<Vec<char>> = None;
        let ghost init = YaySearchState { results: Seq::empty(), pending: None };
        let mut i: usize = 0;
        assert(res.deep_view() =~= Seq::<SearchResultView>::empty());
        while i < ls.len()
            invariant
                i <= ls@.len(),
                views(ls@) == lines(output@),
                init == (YaySearchState { results: Seq::empty(), pending: None }),
                (YaySearchState { results: res.deep_view(), pending: pending_view(pending) }) == fold(
                    views(ls@).take(i as int),
                    init,
                    yay_search_fn(),
                ),
            decreases ls@.len() - i,
        {
            proof {
                lemma_fold_step(views(ls@), init, yay_search_fn(), i as int);
            }
            let ghost before = res.deep_view();
            let line = trim_slice(ls[i].as_slice());
            match pending {
                None => {
                    if line.len() > 0 {
                        pending = Some(vstd::slice::slice_to_vec(line));
                    }
                },
                Some(f) => {
                    match yay_entry_exec(f.as_slice(), line) {
                        Some(x) => {
                            res.push(x);
                            assert(res.deep_view() =~= before.push(x@));
                        },
                        None => {},
                    }
                    pending = None;
                },
            }
            i = i + 1;
        }
        proof {
            lemma_take_all(views(ls@));
        }
        let ghost before = res.deep_view();
        match pending {
            Some(f) => {
                let empty: Vec<char> = Vec::new();
                match yay_entry_exec(f.as_slice(), empty.as_slice()) {
                    Some(x) => {
                        res.push(x);
                        assert(res.deep_view() =~= before.push(x@));
                    },
                    None => {},
                }
            },
            None => {},
        }
        res
    }

    /// What `search` answers for the outcome of `yay -Ssa`: a failed command
    /// gives no hits rather than an error.
    pub fn search_outcome(&self, captured: Result<String, String>) -> (r: Result<Vec<SearchResult>, String>)
        ensures
            captured matches Ok(out) ==> (r matches Ok(v) && v.deep_view() == yay_search(out@)),
            captured is Err ==> (r matches Ok(v) && v@.len() == 0),
    {
        match captured {
            Ok(out) => Ok(self.parse_search(out.as_str())),
            Err(_) => Ok(Vec::new()),
        }
    }

    /// The details of `package` read from a `yay -Si <package>` output;
    /// `installed` is what `pacman -Q <package>` answered.
    pub fn parse_info(&self, package: &str, output: &str, installed: bool) -> (r: PackageInfo)
        ensures
            r@ == yay_info(package@, output@, installed),
    {
        let ls = lines_of(output);
        let mut st = info_fields_new();
        let mut i: usize = 0;
        while i < ls.len()
            invariant
                i <= ls@.len(),
                views(ls@) == lines(output@),
                st@ == fold(views(ls@).take(i as int), info_init(), yay_info_fn()),
            decreases ls@.len() - i,
        {
            proof {
                lemma_fold_step(views(ls@), info_init(), yay_info_fn(), i as int);
            }
            st = yay_info_line(st, ls[i].as_slice());
            i = i + 1;
        }
        proof {
            lemma_take_all(views(ls@));
        }
        PackageInfo {
            name: package.to_owned(),
            version: st.version,
            description: st.description,
            backend: "AUR/yay".to_owned(),
            homepage: st.homepage,
            size: st.size,
            installed,
        }
    }

    /// The foreign packages of a `pacman -Qm` output.
    pub fn parse_list(&self, output: &str) -> (r: Vec<InstalledPackage>)
        ensures
            r.deep_view() == yay_list(output@),
    {
        let ls = lines_of(output);
        let mut res: Vec<InstalledPackage> = Vec::new();
        let mut i: usize = 0;
        while i < ls.len()
            invariant
                i <= ls@.len(),
                views(ls@) == lines(output@),
                res.deep_view() == views(ls@).take(i as int).filter_map(yay_list_fn()),
            decreases ls@.len() - i,
        {
            proof {
                lemma_filter_map_step(views(ls@), yay_list_fn(), i as int);
            }
            let ghost before = res.deep_view();
            let t = words_slice(ls[i].as_slice());
            if t.len() >= 2 {
                let r = InstalledPackage {
                    name: string_of(t[0].as_slice()),
                    version: string_of(t[1].as_slice()),
                    backend: "AUR/yay".to_owned(),
                };
                res.push(r);
                assert(res.deep_view() =~= before.push(r@));
            }
            i = i + 1;
        }
        proof {
            lemma_take_all(views(ls@));
        }
        res
    }
}

impl PackageManagerBackend for YayBackend {
    fn name(&self) -> (n: &'static str)
        ensures
            n@ == "AUR/yay"@,
    {
        "AUR/yay"
    }
}

/// The hits read so far all name the AUR backend.
pub open spec fn yay_tagged(st: YaySearchState) -> bool {
    forall|i: int| 0 <= i < st.results.len() ==> (#[trigger] st.results[i]).backend == "AUR/yay"@
}

/// Law: every hit of an AUR search and every installed package of an AUR
/// listing names the AUR backend (`AUR/yay`).
pub proof fn law_reports_tagged(out: Seq<char>)
    ensures
        forall|i: int| 0 <= i < yay_search(out).len() ==> (#[trigger] yay_search(out)[i]).backend == "AUR/yay"@,
        forall|i: int| 0 <= i < yay_list(out).len() ==> (#[trigger] yay_list(out)[i]).backend == "AUR/yay"@,
{
    let init = YaySearchState { results: Seq::empty(), pending: None };
    let inv = |st: YaySearchState| yay_tagged(st);
    assert forall|st: YaySearchState, l: Seq<char>| inv(st) implies #[trigger] inv(yay_search_fn()(st, l)) by {
        let st2 = yay_search_step(st, l);
        assert forall|i: int| 0 <= i < st2.results.len() implies (#[trigger] st2.results[i]).backend == "AUR/yay"@ by {
            if i < st.results.len() {
                assert(st.results[i].backend == "AUR/yay"@);
            }
        }
    }
    lemma_fold_keeps(lines(out), init, yay_search_fn(), inv);
    let st = fold(lines(out), init, yay_search_fn());
    assert(yay_tagged(st));
    assert forall|i: int| 0 <= i < yay_search(out).len() implies (#[trigger] yay_search(out)[i]).backend == "AUR/yay"@ by {
        if i < st.results.len() {
            assert(st.results[i].backend == "AUR/yay"@);
        }
    }
    lemma_filter_map_all(lines(out), yay_list_fn(), |r: InstalledPackageView| r.backend == "AUR/yay"@);
}

} // verus!
