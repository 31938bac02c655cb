//! Portage (Gentoo): `emerge -s`, and the package database `/var/db/pkg`.
use vstd::prelude::*;
use vstd::string::*;
use crate::backend::PackageManagerBackend;
use crate::parse::{fold, lemma_filter_map_all, lemma_fold_keeps, info_fields_new, info_init, lemma_fold_step, lemma_take_all, lines_of, trimmed_string, InfoFields, InfoState};
use crate::text::{
    lemma_join_split_char, lemma_split_char_concat, lemma_split_char_first, lemma_split_char_nonempty, chars_of, find, find_slice, join, join_slices, lemma_find_bounds, lines, split_char,
    split_char_slice, split_once, split_once_slice, starts_with, starts_with_slice, string_of,
    trim, trim_slice, views,
};
use crate::types::{
    InstalledPackage, InstalledPackageView, PackageInfo, PackageInfoView, SearchResult,
    SearchResultView,
};
use crate::numfmt::is_digit;

verus! {

/// The Portage backend.
pub struct PortageBackend;

/// The trimmed text after the first occurrence of `label` in `l`.
pub open spec fn after_label(l: Seq<char>, label: Seq<char>) -> Option<Seq<char>> {
    match find(l, label) {
        Some(idx) => Some(trim(l.skip(idx + label.len()))),
        None => None,
    }
}

/// The package part of a `category/package` atom.
pub open spec fn portage_atom_name(full: Seq<char>) -> Seq<char> {
    match split_once(full, "/"@) {
        Some((_, b)) => b,
        None => full,
    }
}

/// A hit of `emerge -s`; an empty version reads `repo`.
pub open spec fn portage_hit(name: Seq<char>, desc: Seq<char>, version: Seq<char>) -> SearchResultView {
    SearchResultView {
        name,
        description: desc,
        version: if version.len() == 0 {
            "repo"@
        } else {
            version
        },
        backend: "Portage"@,
    }
}

/// The hits so far and the entry being read.
pub struct PortageSearchState {
    pub results: Seq<SearchResultView>,
    pub current: Option<Seq<char>>,
    pub version: Seq<char>,
    pub desc: Seq<char>,
}

/// One line of `emerge -s`: `*  category/name` closes the entry being read
/// (if any, clearing version and description) and opens one; the
/// `Latest version available:` and `Description:` lines fill the entry.
pub open spec fn portage_search_step(st: PortageSearchState, l: Seq<char>) -> PortageSearchState {
    if starts_with(l, "*  "@) {
        let st2 = match st.current {
            Some(n) => PortageSearchState {
                results: st.results.push(portage_hit(n, st.desc, st.version)),
                current: None,
                version: Seq::empty(),
                desc: Seq::empty(),
            },
            None => st,
        };
        PortageSearchState {
            current: Some(portage_atom_name(trim(l.skip("*  "@.len() as int)))),
            ..st2
        }
    } else {
        match after_label(l, "Latest version available:"@) {
            Some(v) => PortageSearchState { version: v, ..st },
            None => match after_label(l, "Description:"@) {
                Some(d) => PortageSearchState { desc: d, ..st },
                None => st,
            },
        }
    }
}

pub open spec fn portage_search_fn() -> spec_fn(PortageSearchState, Seq<char>) -> PortageSearchState {
    |st: PortageSearchState, l: Seq<char>| portage_search_step(st, l)
}

/// The hits of an `emerge -s` output.
pub open spec fn portage_search(out: Seq<char>) -> Seq<SearchResultView> {
    let st = fold(
        lines(out),
        PortageSearchState { results: Seq::empty(), current: None, version: Seq::empty(), desc: Seq::empty() },
        portage_search_fn(),
    );
    match st.current {
        Some(n) => st.results.push(portage_hit(n, st.desc, st.version)),
        None => st.results,
    }
}

/// One line of `emerge -s` read for details: the first of the labels
/// `Latest version available:`, `Description:`, `Homepage:`, `Size of files:`
/// that the line holds sets its field.
pub open spec fn portage_info_step(st: InfoState, l: Seq<char>) -> InfoState {
    match after_label(l, "Latest version available:"@) {
        Some(v) => InfoState { version: v, ..st },
        None => match after_label(l, "Description:"@) {
            Some(v) => InfoState { description: v, ..st },
            None => match after_label(l, "Homepage:"@) {
                Some(v) => InfoState { homepage: Some(v), ..st },
                None => match after_label(l, "Size of files:"@) {
                    Some(v) => InfoState { size: Some(v), ..st },
                    None => st,
                },
            },
        },
    }
}

pub open spec fn portage_info_fn() -> spec_fn(InfoState, Seq<char>) -> InfoState {
    |st: InfoState, l: Seq<char>| portage_info_step(st, l)
}

/// The details of `package` read from an `emerge -s <package>` output.
pub open spec fn portage_info(package: Seq<char>, out: Seq<char>, installed: bool) -> PackageInfoView {
    let st = fold(lines(out), info_init(), portage_info_fn());
    PackageInfoView {
        name: package,
        version: st.version,
        description: st.description,
        backend: "Portage"@,
        homepage: st.homepage,
        size: st.size,
        installed,
    }
}

/// An entry of the package database belongs to `package`: it is named `package-...`.
pub open spec fn portage_entry_of(name_ver: Seq<char>, package: Seq<char>) -> bool {
    starts_with(name_ver, package + "-"@)
}

/// A `-`-separated part that begins with an ASCII digit.
pub open spec fn starts_with_digit(p: Seq<char>) -> bool {
    p.len() > 0 && is_digit(p[0])
}

/// The index of the first part from `i` on that begins with a digit; the last
/// part where none does.
pub open spec fn first_digit_part(parts: Seq<Seq<char>>, i: int) -> int
    decreases parts.len() - i,
{
    if i >= parts.len() {
        parts.len() - 1
    } else if starts_with_digit(parts[i]) {
        i
    } else {
        first_digit_part(parts, i + 1)
    }
}

/// An entry `name-version` of the package database: the name is made of the
/// parts before the first part that begins with a digit (or before the last
/// part), the version of the rest; an entry without `-` gives nothing.
pub open spec fn portage_list_item(nv: Seq<char>) -> Option<InstalledPackageView> {
    let parts = split_char(nv, '-');
    if parts.len() >= 2 {
        let vi = first_digit_part(parts, 0);
        Some(
            InstalledPackageView {
                name: join(parts.take(vi), "-"@),
                version: join(parts.skip(vi), "-"@),
                backend: "Portage"@,
            },
        )
    } else {
        None
    }
}

pub open spec fn portage_list_fn() -> spec_fn(Seq<char>) -> Option<InstalledPackageView> {
    |nv: Seq<char>| portage_list_item(nv)
}

/// The installed packages named by the package-database entries `names`.
pub open spec fn portage_list(names: Seq<Seq<char>>) -> Seq<InstalledPackageView> {
    names.filter_map(portage_list_fn())
}

fn after_label_exec(l: &[char], label: &str) -> (r: Option<String>)
    ensures
        r matches Some(x) ==> after_label(l@, label@) == Some(x@),
        r is None ==> after_label(l@, label@) is None,
{
    let lab = chars_of(label);
    proof {
        lemma_find_bounds(l@, lab@, 0);
    }
    match find_slice(l, lab.as_slice()) {
        Some(idx) => {
            assert(l@.len() == l.len());
            Some(trimmed_string(vstd::slice::slice_subrange(l, idx + lab.len(), l.len())))
        },
        None => None,
    }
}

fn atom_name(full: &[char]) -> (r: String)
    ensures
        r@ == portage_atom_name(full@),
{
    let slash = chars_of("/");
    match split_once_slice(full, slash.as_slice()) {
        Some((_, b)) => string_of(b),
        None => string_of(full),
    }
}

fn portage_hit_exec(name: String, desc: String, version: String) -> (r: SearchResult)
    ensures
        r@ == portage_hit(name@, desc@, version@),
{
    let version = if version.as_str().is_empty() {
        "repo".to_owned()
    } else {
        version
    };
    SearchResult { name, description: desc, version, backend: "Portage".to_owned() }
}

fn portage_info_line(st: InfoFields, l: &[char]) -> (r: InfoFields)
    ensures
        r@ == portage_info_step(st@, l@),
{
    match after_label_exec(l, "Latest version available:") {
        Some(v) => InfoFields { version: v, ..st },
        None => match after_label_exec(l, "Description:") {
            Some(v) => InfoFields { description: v, ..st },
            None => match after_label_exec(l, "Homepage:") {
                Some(v) => InfoFields { homepage: Some(v), ..st },
                None => match after_label_exec(l, "Size of files:") {
                    Some(v) => InfoFields { size: Some(v), ..st },
                    None => st,
                },
            },
        },
    }
}

pub open spec fn opt_view(o: Option<String>) -> Option<Seq<char>> {
    match o {
        Some(s) => Some(s@),
        None => None,
    }
}

impl PortageBackend {
    /// The backend.
    pub fn new() -> (b: Self) {
        PortageBackend
    }

    /// The hits of an `emerge -s <query>` output.
    pub fn parse_search(&self, output: &str) -> (r: Vec<SearchResult>)
        ensures
            r.deep_view() == portage_search(output@),
    {
        let ls = lines_of(output);
        let star = chars_of("*  ");
        let mut res: Vec<SearchResult> = Vec::new();
        let mut current: Option<String> = None;
        let mut version = String::new();
        let mut desc = String::new();
        let ghost init = PortageSearchState {
            results: Seq::empty(),
            current: None,
            version: Seq::empty(),
            desc: Seq::empty(),
        };
        assert(res.deep_view() =~= Seq::<SearchResultView>::empty());
        let mut i: usize = 0;
        while i < ls.len()
            invariant
                i <= ls@.len(),
                views(ls@) == lines(output@),
                star@ == "*  "@,
                init == (PortageSearchState {
                    results: Seq::empty(),
                    current: None,
                    version: Seq::empty(),
                    desc: Seq::empty(),
                }),
                (PortageSearchState {
                    results: res.deep_view(),
                    current: opt_view(current),
                    version: version@,
                    desc: desc@,
                }) == fold(views(ls@).take(i as int), init, portage_search_fn()),
            decreases ls@.len() - i,
        {
            proof {
                lemma_fold_step(views(ls@), init, portage_search_fn(), i as int);
            }
            let l = ls[i].as_slice();
            if starts_with_slice(l, star.as_slice()) {
                let ghost before = res.deep_view();
                match current {
                    Some(n) => {
                        let hit = portage_hit_exec(n, desc, version);
                        res.push(hit);
                        assert(res.deep_view() =~= before.push(hit@));
                        version = String::new();
                        desc = String::new();
                    },
                    None => {},
                }
                let full = trim_slice(vstd::slice::slice_subrange(l, star.len(), l.len()));
                current = Some(atom_name(full));
            } else {
                match after_label_exec(l, "Latest version available:") {
                    Some(v) => {
                        version = v;
                    },
                    None => match after_label_exec(l, "Description:") {
                        Some(d) => {
                            desc = d;
                        },
                        None => {},
                    },
                }
            }
            i = i + 1;
        }
        proof {
            lemma_take_all(views(ls@));
        }
        let ghost before = res.deep_view();
        match current {
            Some(n) => {
                let hit = portage_hit_exec(n, desc, version);
                res.push(hit);
                assert(res.deep_view() =~= before.push(hit@));
            },
            None => {},
        }
        res
    }

    /// What `search` answers for the outcome of `emerge -s`: a failed command
    /// gives no hits rather than an error.
    pub fn search_outcome(&self, captured: Result<String, String>) -> (r: Result<Vec<SearchResult>, String>)
        ensures
            captured matches Ok(out) ==> (r matches Ok(v) && v.deep_view() == portage_search(out@)),
            captured is Err ==> (r matches Ok(v) && v@.len() == 0),
    {
        match captured {
            Ok(out) => Ok(self.parse_search(out.as_str())),
            Err(_) => Ok(Vec::new()),
        }
    }

    /// The details of `package` read from an `emerge -s <package>` output;
    /// `installed` is whether the package database holds an entry of it.
    pub fn parse_info(&self, package: &str, output: &str, installed: bool) -> (r: PackageInfo)
        ensures
            r@ == portage_info(package@, output@, installed),
    {
        let ls = lines_of(output);
        let mut st = info_fields_new();
        let mut i: usize = 0;
        while i < ls.len()
            invariant
                i <= ls@.len(),
                views(ls@) == lines(output@),
                st@ == fold(views(ls@).take(i as int), info_init(), portage_info_fn()),
            decreases ls@.len() - i,
        {
            proof {
                lemma_fold_step(views(ls@), info_init(), portage_info_fn(), i as int);
            }
            st = portage_info_line(st, ls[i].as_slice());
            i = i + 1;
        }
        proof {
            lemma_take_all(views(ls@));
        }
        PackageInfo {
            name: package.to_owned(),
            version: st.version,
            description: st.description,
            backend: "Portage".to_owned(),
            homepage: st.homepage,
            size: st.size,
            installed,
        }
    }

    /// The package-database entry `name_ver` belongs to `package`.
    pub fn is_entry_of(&self, name_ver: &str, package: &str) -> (b: bool)
        ensures
            b == portage_entry_of(name_ver@, package@),
    {
        let mut prefix = package.to_owned();
        prefix.append("-");
        let nv = chars_of(name_ver);
        let p = chars_of(prefix.as_str());
        starts_with_slice(nv.as_slice(), p.as_slice())
    }

    /// The installed packages named by the package-database entries `names`
    /// (the `category/name-version` directories, by their last part).
    pub fn parse_list(&self, names: &Vec<String>) -> (r: Vec<InstalledPackage>)
        ensures
            r.deep_view() == portage_list(names.deep_view()),
    {
        let mut res: Vec<InstalledPackage> = Vec::new();
        let mut i: usize = 0;
        while i < names.len()
            invariant
                i <= names@.len(),
                res.deep_view() == names.deep_view().take(i as int).filter_map(portage_list_fn()),
            decreases names@.len() - i,
        {
            proof {
                crate::parse::lemma_filter_map_step(names.deep_view(), portage_list_fn(), i as int);
            }
            let ghost before = res.deep_view();
            let nv = chars_of(names[i].as_str());
            let parts = split_char_slice(nv.as_slice(), '-');
            if parts.len() >= 2 {
                let mut vi: usize = 0;
                let ghost ps = views(parts@);
                while vi < parts.len() && !(parts[vi].len() > 0 && '0' <= parts[vi][0]
                    && parts[vi][0] <= '9')
                    invariant
                        vi <= parts@.len(),
                        ps == views(parts@),
                        ps.len() >= 2,
                        first_digit_part(ps, 0) == first_digit_part(ps, vi as int),
                    decreases parts@.len() - vi,
                {
                    vi = vi + 1;
                }
                if vi == parts.len() {
                    vi = parts.len() - 1;
                }
                assert(vi as int == first_digit_part(ps, 0));
                let dash = chars_of("-");
                let name = join_slices(&parts, 0, vi, dash.as_slice());
                let version = join_slices(&parts, vi, parts.len(), dash.as_slice());
                assert(ps.subrange(0, vi as int) =~= ps.take(vi as int));
                let r = InstalledPackage {
                    name: string_of(name.as_slice()),
                    version: string_of(version.as_slice()),
                    backend: "Portage".to_owned(),
                };
                res.push(r);
                assert(res.deep_view() =~= before.push(r@));
            }
            i = i + 1;
        }
        proof {
            lemma_take_all(names.deep_view());
        }
        res
    }
}

impl PackageManagerBackend for PortageBackend {
    fn name(&self) -> (n: &'static str)
        ensures
            n@ == "Portage"@,
    {
        "Portage"
    }
}

/// The hits read so far all name Portage as their backend.
pub open spec fn portage_tagged(st: PortageSearchState) -> bool {
    forall|i: int| 0 <= i < st.results.len() ==> (#[trigger] st.results[i]).backend == "Portage"@
}

/// Law: every hit of a Portage search and every installed package of a
/// Portage listing names Portage as its backend.
pub proof fn law_reports_tagged(out: Seq<char>, names: Seq<Seq<char>>)
    ensures
        forall|i: int| 0 <= i < portage_search(out).len() ==> (#[trigger] portage_search(out)[i]).backend == "Portage"@,
        forall|i: int| 0 <= i < portage_list(names).len() ==> (#[trigger] portage_list(names)[i]).backend == "Portage"@,
{
    let init = PortageSearchState { results: Seq::empty(), current: None, version: Seq::empty(), desc: Seq::empty() };
    let inv = |st: PortageSearchState| portage_tagged(st);
    assert forall|st: PortageSearchState, l: Seq<char>| inv(st) implies #[trigger] inv(portage_search_fn()(st, l)) by {
        let st2 = portage_search_step(st, l);
        assert forall|i: int| 0 <= i < st2.results.len() implies (#[trigger] st2.results[i]).backend == "Portage"@ by {
            if i < st.results.len() {
                assert(st.results[i].backend == "Portage"@);
            }
        }
    }
    lemma_fold_keeps(lines(out), init, portage_search_fn(), inv);
    let st = fold(lines(out), init, portage_search_fn());
    assert(portage_tagged(st));
    assert forall|i: int| 0 <= i < portage_search(out).len() implies (#[trigger] portage_search(out)[i]).backend == "Portage"@ by {
        if i < st.results.len() {
            assert(st.results[i].backend == "Portage"@);
        }
    }
    lemma_filter_map_all(names, portage_list_fn(), |r: InstalledPackageView| r.backend == "Portage"@);
}

proof fn lemma_first_digit_part_at(parts: Seq<Seq<char>>, i: int, k: int)
    requires
        0 <= i <= k < parts.len(),
        parts[k].len() > 0 && '0' <= parts[k][0] <= '9',
        forall|j: int| 0 <= j < k ==> !(parts[j].len() > 0 && '0' <= #[trigger] parts[j][0] <= '9'),
    ensures
        first_digit_part(parts, i) == k,
    decreases k - i,
{
    if i < k {
        assert(!(parts[i].len() > 0 && '0' <= parts[i][0] <= '9'));
        lemma_first_digit_part_at(parts, i + 1, k);
    }
}

/// Law: an entry `name-version` of the package database is listed under that
/// name and that version when the version begins with a digit and no
/// `-`-separated part of the name does.
pub proof fn law_list_splits_name_version(n: Seq<char>, v: Seq<char>)
    requires
        v.len() > 0,
        '0' <= v[0] <= '9',
        forall|i: int|
            0 <= i < split_char(n, '-').len() ==> !(split_char(n, '-')[i].len() > 0 && '0'
                <= #[trigger] split_char(n, '-')[i][0] <= '9'),
    ensures
        portage_list(seq![n + "-"@ + v]) == seq![
            InstalledPackageView { name: n, version: v, backend: "Portage"@ },
        ],
{
    reveal_strlit("-");
    let nv = n + "-"@ + v;
    assert(nv =~= n + seq!['-'] + v);
    lemma_split_char_concat(n, '-', v);
    lemma_split_char_nonempty(n, '-');
    lemma_split_char_nonempty(v, '-');
    lemma_split_char_first(v, '-');
    let pn = split_char(n, '-');
    let pv = split_char(v, '-');
    let parts = split_char(nv, '-');
    assert(parts == pn + pv);
    let k = pn.len() as int;
    assert(parts[k] == pv[0]);
    assert forall|j: int| 0 <= j < k implies !(parts[j].len() > 0 && '0' <= #[trigger] parts[j][0] <= '9') by {
        assert(parts[j] == pn[j]);
    }
    lemma_first_digit_part_at(parts, 0, k);
    assert(parts.take(k) =~= pn);
    assert(parts.skip(k) =~= pv);
    lemma_join_split_char(n, '-');
    lemma_join_split_char(v, '-');
    assert("-"@ =~= seq!['-']);
    let item = InstalledPackageView { name: n, version: v, backend: "Portage"@ };
    assert(parts.len() >= 2);
    assert(portage_list_item(nv) == Some(item));
    assert(portage_list_fn()(nv) == Some(item));
    let names = seq![nv];
    assert(names.drop_last() =~= Seq::<Seq<char>>::empty());
    assert(names.last() == nv);
    assert(names.filter_map(portage_list_fn()) == Seq::<Seq<char>>::empty().filter_map(portage_list_fn()) + seq![item]);
    assert(portage_list(names) =~= seq![
        InstalledPackageView { name: n, version: v, backend: "Portage"@ },
    ]);
}

} // verus!
