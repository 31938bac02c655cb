//! APT (Debian and derivatives): `apt-cache search`, `apt-cache show`,
//! `dpkg-query -W`.
use vstd::prelude::*;
use vstd::string::*;
use crate::backend::PackageManagerBackend;
use crate::numfmt::{parse_uint, parse_uint_slice, size_string, size_text};
use crate::parse::{ lemma_filter_map_all, fold, info_fields_new, info_init, key_val, key_val_slice, lemma_filter_map_step,
    lemma_fold_step, lemma_take_all, lines_of, trimmed_string, InfoFields, InfoState,
};
use crate::text::{
    is_ws, lemma_find_first, lemma_split_char_concat, lemma_split_char_none, matches_at, split_char,
    strip_cr, trim_end, trim_start, chars_of, eq_str, find, find_slice, lines, split_once, split_once_slice, starts_with,
    starts_with_slice, string_of, trim, views,
};
use crate::types::{
    InstalledPackage, InstalledPackageView, PackageInfo, PackageInfoView, SearchResult,
    SearchResultView,
};

verus! {

/// The APT backend.
pub struct AptBackend;

/// A line `name - description` of `apt-cache search`.
pub open spec fn apt_search_item(l: Seq<char>) -> Option<SearchResultView> {
    match split_once(l, " - "@) {
        Some((a, b)) => Some(
            SearchResultView { name: trim(a), description: trim(b), version: "repo"@, backend: "APT"@ },
        ),
        None => None,
    }
}

pub open spec fn apt_search_fn() -> spec_fn(Seq<char>) -> Option<SearchResultView> {
    |l: Seq<char>| apt_search_item(l)
}

/// The hits of an `apt-cache search` output.
pub open spec fn apt_search(out: Seq<char>) -> Seq<SearchResultView> {
    lines(out).filter_map(apt_search_fn())
}

/// The first record of an `apt-cache show` output: the text before the first blank line.
pub open spec fn first_block(out: Seq<char>) -> Seq<char> {
    match find(out, "\n\n"@) {
        Some(i) => out.take(i),
        None => out,
    }
}

/// One line of an `apt-cache show` record: an indented line continues the
/// description; `Version`, `Homepage`, `Size` (in bytes) and
/// `Description`/`Description-en` set their field.
pub open spec fn apt_info_step(st: InfoState, line: Seq<char>) -> InfoState {
    if st.in_desc && starts_with(line, " "@) {
        InfoState { description: st.description + "\n"@ + trim(line), ..st }
    } else {
        let st = InfoState { in_desc: false, ..st };
        match key_val(line) {
            Some((k, v)) => {
                if k == "Version"@ {
                    InfoState { version: v, ..st }
                } else if k == "Homepage"@ {
                    InfoState { homepage: Some(v), ..st }
                } else if k == "Size"@ {
                    let bytes: nat = match parse_uint(v, 0xffff_ffff_ffff_ffff) {
                        Some(n) => n,
                        None => 0,
                    };
                    InfoState { size: Some(size_text(bytes)), ..st }
                } else if k == "Description-en"@ || k == "Description"@ {
                    InfoState { description: v, in_desc: true, ..st }
                } else {
                    st
                }
            },
            None => st,
        }
    }
}

pub open spec fn apt_info_fn() -> spec_fn(InfoState, Seq<char>) -> InfoState {
    |st: InfoState, l: Seq<char>| apt_info_step(st, l)
}

/// The details of `package` read from an `apt-cache show` output.
pub open spec fn apt_info(package: Seq<char>, out: Seq<char>, installed: bool) -> PackageInfoView {
    let st = fold(lines(first_block(out)), info_init(), apt_info_fn());
    PackageInfoView {
        name: package,
        version: st.version,
        description: st.description,
        backend: "APT"@,
        homepage: st.homepage,
        size: st.size,
        installed,
    }
}

/// A line `name<TAB>version` of `dpkg-query`.
pub open spec fn apt_list_item(l: Seq<char>) -> Option<InstalledPackageView> {
    match split_once(l, "\t"@) {
        Some((a, b)) => Some(InstalledPackageView { name: a, version: b, backend: "APT"@ }),
        None => None,
    }
}

pub open spec fn apt_list_fn() -> spec_fn(Seq<char>) -> Option<InstalledPackageView> {
    |l: Seq<char>| apt_list_item(l)
}

/// The installed packages of a `dpkg-query` output.
pub open spec fn apt_list(out: Seq<char>) -> Seq<InstalledPackageView> {
    lines(out).filter_map(apt_list_fn())
}

fn apt_info_line(st: InfoFields, line: &[char]) -> (r: InfoFields)
    ensures
        r@ == apt_info_step(st@, line@),
{
    let space = chars_of(" ");
    if st.in_desc && starts_with_slice(line, space.as_slice()) {
        let mut d = st.description;
        d.append("\n");
        d.append(trimmed_string(line).as_str());
        return InfoFields { description: d, ..st };
    }
    let st = InfoFields { in_desc: false, ..st };
    match key_val_slice(line) {
        Some((k, v)) => {
            if eq_str(k, "Version") {
                InfoFields { version: string_of(v), ..st }
            } else if eq_str(k, "Homepage") {
                InfoFields { homepage: Some(string_of(v)), ..st }
            } else if eq_str(k, "Size") {
                let bytes: u64 = match parse_uint_slice(v, 0xffff_ffff_ffff_ffff) {
                    Some(n) => n as u64,
                    None => 0,
                };
                InfoFields { size: Some(size_string(bytes)), ..st }
            } else if eq_str(k, "Description-en") || eq_str(k, "Description") {
                InfoFields { description: string_of(v), in_desc: true, ..st }
            } else {
                st
            }
        },
        None => st,
    }
}

impl AptBackend {
    /// The backend.
    pub fn new() -> (b: Self) {
        AptBackend
    }

    /// The hits of an `apt-cache search <query>` output.
    pub fn parse_search(&self, output: &str) -> (r: Vec<SearchResult>)
        ensures
            r.deep_view() == apt_search(output@),
    {
        let ls = lines_of(output);
        let sep = chars_of(" - ");
        let mut res: Vec<SearchResult> = Vec::new();
        let mut i: usize = 0;
        while i < ls.len()
            invariant
                i <= ls@.len(),
                views(ls@) == lines(output@),
                sep@ == " - "@,
                res.deep_view() == views(ls@).take(i as int).filter_map(apt_search_fn()),
            decreases ls@.len() - i,
        {
            let line = ls[i].as_slice();
            proof {
                lemma_filter_map_step(views(ls@), apt_search_fn(), i as int);
            }
            let ghost before = res.deep_view();
            match split_once_slice(line, sep.as_slice()) {
                Some((a, b)) => {
                    let r = SearchResult {
                        name: trimmed_string(a),
                        description: trimmed_string(b),
                        version: "repo".to_owned(),
                        backend: "APT".to_owned(),
                    };
                    res.push(r);
                    assert(res.deep_view() =~= before.push(r@));
                },
                None => {},
            }
            i = i + 1;
        }
        proof {
            lemma_take_all(views(ls@));
        }
        res
    }

    /// The details of `package` read from an `apt-cache show <package>` output;
    /// `installed` is what `dpkg -s <package>` answered.
    pub fn parse_info(&self, package: &str, output: &str, installed: bool) -> (r: PackageInfo)
        ensures
            r@ == apt_info(package@, output@, installed),
    {
        let out = chars_of(output);
        let nn = chars_of("\n\n");
        let block: &[char] = match find_slice(out.as_slice(), nn.as_slice()) {
            Some(i) => {
                proof {
                    crate::text::lemma_find_bounds(out@, nn@, 0);
                }
                vstd::slice::slice_subrange(out.as_slice(), 0, i)
            },
            None => out.as_slice(),
        };
        assert(block@ == first_block(output@));
        let ls = crate::text::lines_slice(block);
        let mut st = info_fields_new();
        let mut i: usize = 0;
        while i < ls.len()
            invariant
                i <= ls@.len(),
                views(ls@) == lines(first_block(output@)),
                st@ == fold(views(ls@).take(i as int), info_init(), apt_info_fn()),
            decreases ls@.len() - i,
        {
            proof {
                lemma_fold_step(views(ls@), info_init(), apt_info_fn(), i as int);
            }
            st = apt_info_line(st, ls[i].as_slice());
            i = i + 1;
        }
        proof {
            lemma_take_all(views(ls@));
        }
        PackageInfo {
            name: string_of(chars_of(package).as_slice()),
            version: st.version,
            description: st.description,
            backend: "APT".to_owned(),
            homepage: st.homepage,
            size: st.size,
            installed,
        }
    }

    /// The installed packages of a `dpkg-query -W -f='${Package}\t${Version}\n'` output.
    pub fn parse_list(&self, output: &str) -> (r: Vec<InstalledPackage>)
        ensures
            r.deep_view() == apt_list(output@),
    {
        let ls = lines_of(output);
        let tab = chars_of("\t");
        let mut res: Vec<InstalledPackage> = Vec::new();
        let mut i: usize = 0;
        while i < ls.len()
            invariant
                i <= ls@.len(),
                views(ls@) == lines(output@),
                tab@ == "\t"@,
                res.deep_view() == views(ls@).take(i as int).filter_map(apt_list_fn()),
            decreases ls@.len() - i,
        {
            proof {
                lemma_filter_map_step(views(ls@), apt_list_fn(), i as int);
            }
            let ghost before = res.deep_view();
            match split_once_slice(ls[i].as_slice(), tab.as_slice()) {
                Some((a, b)) => {
                    let r = InstalledPackage {
                        name: string_of(a),
                        version: string_of(b),
                        backend: "APT".to_owned(),
                    };
                    res.push(r);
                    assert(res.deep_view() =~= before.push(r@));
                },
                None => {},
            }
            i = i + 1;
        }
        proof {
            lemma_take_all(views(ls@));
        }
        res
    }
}

impl PackageManagerBackend for AptBackend {
    fn name(&self) -> (n: &'static str)
        ensures
            n@ == "APT"@,
    {
        "APT"
    }
}

/// Law: every hit of a APT search and every installed package of a APT
/// listing names APT (`APT`) as its backend.
pub proof fn law_reports_tagged(out: Seq<char>)
    ensures
        forall|i: int| 0 <= i < apt_search(out).len() ==> (#[trigger] apt_search(out)[i]).backend == "APT"@,
        forall|i: int| 0 <= i < apt_list(out).len() ==> (#[trigger] apt_list(out)[i]).backend == "APT"@,
{
    lemma_filter_map_all(lines(out), apt_search_fn(), |r: SearchResultView| r.backend == "APT"@);
    lemma_filter_map_all(lines(out), apt_list_fn(), |r: InstalledPackageView| r.backend == "APT"@);
}

/// `find` gives the position of the first occurrence when one is known and none comes before it.
proof fn lemma_find_at(s: Seq<char>, p: Seq<char>, k: int)
    requires
        matches_at(s, p, k),
        forall|j: int| 0 <= j < k ==> !matches_at(s, p, j),
    ensures
        find(s, p) == Some(k),
{
    lemma_find_first(s, p, 0);
}

/// A text that holds no `\n` has no blank line in it.
proof fn lemma_no_blank_line(s: Seq<char>, nl: int)
    requires
        forall|j: int| 0 <= j < s.len() && j != nl ==> s[j] != '\n',
        0 <= nl + 1 < s.len() ==> s[nl + 1] != '\n',
    ensures
        find(s, "\n\n"@) is None,
{
    reveal_strlit("\n\n");
    lemma_find_first(s, "\n\n"@, 0);
    if find(s, "\n\n"@) is Some {
        let k = find(s, "\n\n"@)->0;
        assert(s.subrange(k, k + 2)[0] == '\n');
        assert(s.subrange(k, k + 2)[1] == '\n');
        assert(s[k] == '\n' && s[k + 1] == '\n');
    }
}

/// The value after `key: ` on a line `key: d`, for a key without `:` or
/// white space at its ends.
proof fn lemma_key_line(key: Seq<char>, d: Seq<char>)
    requires
        key.len() > 0,
        !key.contains(':'),
        !is_ws(key[0]),
        !is_ws(key.last()),
        d.len() > 0 ==> !is_ws(d[0]) && !is_ws(d.last()),
    ensures
        key_val(key + ": "@ + d) == Some((key, d)),
{
    reveal_strlit(": ");
    reveal_strlit(":");
    let l = key + ": "@ + d;
    let k = key.len() as int;
    assert(l.subrange(k, k + 1) =~= ":"@);
    assert forall|j: int| 0 <= j < k implies !matches_at(l, ":"@, j) by {
        if matches_at(l, ":"@, j) {
            assert(l.subrange(j, j + 1)[0] == ':');
            assert(key[j] == ':');
        }
    }
    lemma_find_at(l, ":"@, k);
    assert(l.take(k) =~= key);
    assert(l.skip(k + 1) =~= seq![' '] + d);
    assert(trim_start(key) == key);
    assert(trim_end(key) == key);
    let sd = seq![' '] + d;
    assert(sd.drop_first() =~= d);
    assert(is_ws(sd[0]));
    assert(trim_start(sd) == trim_start(d));
    assert(trim_start(d) == d);
    assert(trim_end(d) == d);
}

/// The step over a line `key: d` with a description key.
proof fn lemma_description_step(key: Seq<char>, d: Seq<char>)
    requires
        key == "Description"@ || key == "Description-en"@,
        d.len() > 0 ==> !is_ws(d[0]) && !is_ws(d.last()),
    ensures
        apt_info_step(info_init(), key + ": "@ + d).description == d,
        apt_info_step(info_init(), key + ": "@ + d).in_desc,
{
    reveal_strlit("Description");
    reveal_strlit("Description-en");
    reveal_strlit("Version");
    reveal_strlit("Homepage");
    reveal_strlit("Size");
    assert(!key.contains(':')) by {
        if key.contains(':') {
            let i = choose|i: int| 0 <= i < key.len() && key[i] == ':';
        }
    }
    lemma_key_line(key, d);
    assert(key != "Version"@ && key != "Homepage"@ && key != "Size"@);
}

/// The line `key: d` holds no `\n` and does not end with `\r`.
proof fn lemma_description_line(key: Seq<char>, d: Seq<char>)
    requires
        key == "Description"@ || key == "Description-en"@,
        !d.contains('\n'),
        d.len() > 0 ==> !is_ws(d[0]) && !is_ws(d.last()),
    ensures
        !(key + ": "@ + d).contains('\n'),
        (key + ": "@ + d).len() > 0,
        (key + ": "@ + d).last() != '\r',
{
    reveal_strlit("Description");
    reveal_strlit("Description-en");
    reveal_strlit(": ");
    let l1 = key + ": "@ + d;
    if l1.contains('\n') {
        let i = choose|i: int| 0 <= i < l1.len() && l1[i] == '\n';
        if i < key.len() {
            assert(key[i] == '\n');
        } else if i >= key.len() + 2 {
            assert(d[i - key.len() - 2] == '\n');
        }
    }
    if d.len() > 0 {
        assert(l1.last() == d.last());
    } else {
        assert(l1.last() == ' ');
    }
}

/// The record of a one-line output is that line.
proof fn lemma_one_line(l1: Seq<char>)
    requires
        l1.len() > 0,
        !l1.contains('\n'),
    ensures
        lines(first_block(l1)) == seq![l1],
{
    assert forall|j: int| 0 <= j < l1.len() && j != -2 implies l1[j] != '\n' by {
        if l1[j] == '\n' {
            assert(l1.contains('\n'));
        }
    }
    lemma_no_blank_line(l1, -2);
    lemma_split_char_none(l1, '\n');
    assert(l1[l1.len() - 1] == l1.last());
    assert(lines(l1) =~= seq![l1]);
}

/// The record of a two-line output, whose second line is indented, is those two lines.
proof fn lemma_two_lines(l1: Seq<char>, l2: Seq<char>)
    requires
        l1.len() > 0,
        !l1.contains('\n'),
        l1.last() != '\r',
        l2.len() > 0,
        l2[0] == ' ',
        !l2.contains('\n'),
    ensures
        lines(first_block(l1 + seq!['\n'] + l2)) == seq![l1, l2],
{
    let out = l1 + seq!['\n'] + l2;
    let nl = l1.len() as int;
    assert forall|j: int| 0 <= j < out.len() && j != nl implies out[j] != '\n' by {
        if j < nl {
            assert(out[j] == l1[j]);
            if l1[j] == '\n' {
                assert(l1.contains('\n'));
            }
        } else {
            assert(out[j] == l2[j - nl - 1]);
            if l2[j - nl - 1] == '\n' {
                assert(l2.contains('\n'));
            }
        }
    }
    assert(out[nl + 1] == ' ');
    lemma_no_blank_line(out, nl);
    lemma_split_char_concat(l1, '\n', l2);
    lemma_split_char_none(l1, '\n');
    lemma_split_char_none(l2, '\n');
    assert(split_char(out, '\n') =~= seq![l1, l2]);
    assert(out.last() == l2.last());
    assert(l2[l2.len() - 1] == l2.last());
    assert(strip_cr(l1) == l1);
    assert(lines(out) =~= seq![l1, l2]);
}

/// Law: a `Description:` line, like a `Description-en:` line, sets the
/// description to its value, and an indented line after it continues the
/// description on a new line.
pub proof fn law_description_lines(package: Seq<char>, key: Seq<char>, d: Seq<char>, e: Seq<char>, installed: bool)
    requires
        key == "Description"@ || key == "Description-en"@,
        !d.contains('\n'),
        !e.contains('\n'),
        d.len() > 0 ==> !is_ws(d[0]) && !is_ws(d.last()),
    ensures
        apt_info(package, key + ": "@ + d, installed).description == d,
        apt_info(package, key + ": "@ + d + "\n "@ + e, installed).description == d + "\n"@ + trim(e),
{
    reveal_strlit("\n ");
    reveal_strlit(" ");
    let l1 = key + ": "@ + d;
    lemma_description_step(key, d);
    lemma_description_line(key, d);
    let st1 = apt_info_step(info_init(), l1);
    lemma_one_line(l1);
    let one = seq![l1];
    lemma_fold_step(one, info_init(), apt_info_fn(), 0);
    assert(one.take(1) =~= one);
    assert(one.take(0) =~= Seq::<Seq<char>>::empty());
    assert(fold(one.take(0), info_init(), apt_info_fn()) == info_init());
    assert(apt_info_fn()(info_init(), l1) == st1);
    assert(fold(one, info_init(), apt_info_fn()) == st1);
    let l2 = seq![' '] + e;
    assert(!l2.contains('\n')) by {
        if l2.contains('\n') {
            let i = choose|i: int| 0 <= i < l2.len() && l2[i] == '\n';
            assert(e[i - 1] == '\n');
        }
    }
    lemma_two_lines(l1, l2);
    let out = l1 + "\n "@ + e;
    assert(out =~= l1 + seq!['\n'] + l2);
    assert(starts_with(l2, " "@)) by {
        assert(l2.take(1) =~= " "@);
    }
    assert(l2.drop_first() =~= e);
    assert(trim_start(l2) == trim_start(e));
    let st2 = apt_info_step(st1, l2);
    assert(st2.description == d + "\n"@ + trim(e));
    let two = seq![l1, l2];
    lemma_fold_step(two, info_init(), apt_info_fn(), 1);
    assert(two.take(2) =~= two);
    assert(two.take(1) =~= one);
    assert(apt_info_fn()(st1, l2) == st2);
    assert(fold(two, info_init(), apt_info_fn()) == st2);
}

} // verus!
