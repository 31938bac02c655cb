//! The decisions of the package manager over its backends: which backends
//! are active, which one a name designates, in which order `install` tries
//! them, what a user's numbered choice selects, and what each command answers.
use vstd::prelude::*;
use vstd::string::*;
use crate::config::{is_disabled_in, YrozConfig};
use crate::numfmt::{dec, is_digit, lemma_dec_digits, law_parse_decimal, parse_uint, parse_uint_slice};
use crate::parse::{first_from, lemma_filter_map_keeps_order, lemma_filter_map_origin, lemma_filter_map_step, lemma_take_all};
use crate::text::{
    ascii_lower, chars_of, trim_start, contains, contains_slice, ends_with, ends_with_slice, eq_ignore_ascii_case,
    eq_ignore_ascii_case_slice, lowercase, to_lowercase, trim, trim_slice,
};
use crate::types::{SearchResult, SearchResultView};

verus! {

/// The backends the manager knows.
#[derive(PartialEq, Eq, Structural, Clone, Copy, Debug)]
pub enum BackendKind {
    Apt,
    Dnf,
    Portage,
    Xbps,
    Zypper,
    Apk,
    Eopkg,
    Yay,
    Nix,
    Flatpak,
    Snap,
    AppImage,
}

/// The name of a backend.
pub open spec fn kind_name(k: BackendKind) -> Seq<char> {
    match k {
        BackendKind::Apt => "APT"@,
        BackendKind::Dnf => "DNF"@,
        BackendKind::Portage => "Portage"@,
        BackendKind::Xbps => "XBPS"@,
        BackendKind::Zypper => "Zypper"@,
        BackendKind::Apk => "APK"@,
        BackendKind::Eopkg => "eopkg"@,
        BackendKind::Yay => "AUR/yay"@,
        BackendKind::Nix => "Nix"@,
        BackendKind::Flatpak => "Flatpak"@,
        BackendKind::Snap => "Snap"@,
        BackendKind::AppImage => "AppImage"@,
    }
}

/// All backends, in the order in which the manager registers them: the
/// distribution's own managers first, then the AUR, Nix, Flatpak, Snap and AppImage.
pub open spec fn all_kinds() -> Seq<BackendKind> {
    seq![
        BackendKind::Apt,
        BackendKind::Dnf,
        BackendKind::Portage,
        BackendKind::Xbps,
        BackendKind::Zypper,
        BackendKind::Apk,
        BackendKind::Eopkg,
        BackendKind::Yay,
        BackendKind::Nix,
        BackendKind::Flatpak,
        BackendKind::Snap,
        BackendKind::AppImage,
    ]
}

impl BackendKind {
    /// The name of the backend.
    pub fn name(&self) -> (n: &'static str)
        ensures
            n@ == kind_name(*self),
    {
        match self {
            BackendKind::Apt => "APT",
            BackendKind::Dnf => "DNF",
            BackendKind::Portage => "Portage",
            BackendKind::Xbps => "XBPS",
            BackendKind::Zypper => "Zypper",
            BackendKind::Apk => "APK",
            BackendKind::Eopkg => "eopkg",
            BackendKind::Yay => "AUR/yay",
            BackendKind::Nix => "Nix",
            BackendKind::Flatpak => "Flatpak",
            BackendKind::Snap => "Snap",
            BackendKind::AppImage => "AppImage",
        }
    }
}

/// The programs that must be installed for a backend to be available
/// (none for AppImage, which is always available).
pub open spec fn required_programs(k: BackendKind) -> Seq<Seq<char>> {
    match k {
        BackendKind::Apt => seq!["apt-get"@, "dpkg"@],
        BackendKind::Dnf => seq!["dnf"@, "rpm"@],
        BackendKind::Portage => seq!["emerge"@],
        BackendKind::Xbps => seq!["xbps-query"@, "xbps-install"@],
        BackendKind::Zypper => seq!["zypper"@],
        BackendKind::Apk => seq!["apk"@],
        BackendKind::Eopkg => seq!["eopkg"@],
        BackendKind::Yay => seq!["yay"@, "pacman"@],
        BackendKind::Nix => seq!["nix-env"@],
        BackendKind::Flatpak => seq!["flatpak"@],
        BackendKind::Snap => seq!["snap"@],
        BackendKind::AppImage => Seq::empty(),
    }
}

impl BackendKind {
    /// The programs that must be installed for the backend to be available.
    pub fn required_programs(&self) -> (r: Vec<&'static str>)
        ensures
            r@.map_values(|p: &'static str| p@) == required_programs(*self),
    {
        let r: Vec<&'static str> = match self {
            BackendKind::Apt => vec!["apt-get", "dpkg"],
            BackendKind::Dnf => vec!["dnf", "rpm"],
            BackendKind::Portage => vec!["emerge"],
            BackendKind::Xbps => vec!["xbps-query", "xbps-install"],
            BackendKind::Zypper => vec!["zypper"],
            BackendKind::Apk => vec!["apk"],
            BackendKind::Eopkg => vec!["eopkg"],
            BackendKind::Yay => vec!["yay", "pacman"],
            BackendKind::Nix => vec!["nix-env"],
            BackendKind::Flatpak => vec!["flatpak"],
            BackendKind::Snap => vec!["snap"],
            BackendKind::AppImage => Vec::new(),
        };
        assert(r@.map_values(|p: &'static str| p@) =~= required_programs(*self));
        r
    }
}

/// A backend is available when every program it needs was found: `found[i]`
/// tells whether the `i`-th of `required_programs(kind)` is installed.
pub fn is_available_from(kind: BackendKind, found: &Vec<bool>) -> (r: bool)
    requires
        found@.len() == required_programs(kind).len(),
    ensures
        r == forall|i: int| 0 <= i < found@.len() ==> found@[i],
{
    let mut i: usize = 0;
    while i < found.len()
        invariant
            i <= found@.len(),
            forall|j: int| 0 <= j < i ==> found@[j],
        decreases found@.len() - i,
    {
        if !found[i] {
            return false;
        }
        i = i + 1;
    }
    true
}

/// All backends, in registration order.
pub fn all_backend_kinds() -> (r: Vec<BackendKind>)
    ensures
        r@ == all_kinds(),
{
    let r = vec![
        BackendKind::Apt,
        BackendKind::Dnf,
        BackendKind::Portage,
        BackendKind::Xbps,
        BackendKind::Zypper,
        BackendKind::Apk,
        BackendKind::Eopkg,
        BackendKind::Yay,
        BackendKind::Nix,
        BackendKind::Flatpak,
        BackendKind::Snap,
        BackendKind::AppImage,
    ];
    assert(r@ =~= all_kinds());
    r
}

/// The settings leave the backend `k` out: by its name, or the AUR backend also by `yay`.
pub open spec fn kind_disabled(disabled: Seq<Seq<char>>, k: BackendKind) -> bool {
    is_disabled_in(disabled, kind_name(k)) || (k == BackendKind::Yay && is_disabled_in(
        disabled,
        "yay"@,
    ))
}

pub open spec fn active_fn(disabled: Seq<Seq<char>>, available: Seq<BackendKind>) -> spec_fn(
    BackendKind,
) -> Option<BackendKind> {
    |k: BackendKind|
        if available.contains(k) && !kind_disabled(disabled, k) {
            Some(k)
        } else {
            None
        }
}

/// The active backends: in registration order, those that are available on
/// the system and not left out by the settings.
pub open spec fn active_kinds(disabled: Seq<Seq<char>>, available: Seq<BackendKind>) -> Seq<BackendKind> {
    all_kinds().filter_map(active_fn(disabled, available))
}

/// The first of `ks` whose name is `name`, ignoring ASCII case.
pub open spec fn find_kind(ks: Seq<BackendKind>, name: Seq<char>) -> Option<BackendKind>
    decreases ks.len(),
{
    if ks.len() == 0 {
        None
    } else if eq_ignore_ascii_case(kind_name(ks[0]), name) {
        Some(ks[0])
    } else {
        find_kind(ks.drop_first(), name)
    }
}

/// The order in which `install` tries backends when the settings give none.
pub open spec fn default_priority() -> Seq<Seq<char>> {
    seq![
        "NAPT"@,
        "APT"@,
        "Pacman"@,
        "DNF"@,
        "Portage"@,
        "XBPS"@,
        "Zypper"@,
        "APK"@,
        "eopkg"@,
        "AUR/yay"@,
        "Nix"@,
        "Flatpak"@,
        "Snap"@,
    ]
}

/// The priority order in force: the configured one, or the built-in one when it is empty.
pub open spec fn effective_priority(priority: Seq<Seq<char>>) -> Seq<Seq<char>> {
    if priority.len() > 0 {
        priority
    } else {
        default_priority()
    }
}

/// A package name that looks like an application ID (`org.example.App`).
pub open spec fn looks_like_app_id(package: Seq<char>) -> bool {
    contains(package, "."@)
}

/// An AppImage file name (`.appimage` at the end, in any case).
pub open spec fn is_appimage_name(package: Seq<char>) -> bool {
    ends_with(lowercase(package), ".appimage"@)
}

pub open spec fn walk_fn(ks: Seq<BackendKind>, package: Seq<char>) -> spec_fn(Seq<char>) -> Option<BackendKind> {
    |name: Seq<char>|
        match find_kind(ks, name) {
            Some(k) => if eq_ignore_ascii_case(name, "Flatpak"@) && looks_like_app_id(package) {
                None
            } else {
                Some(k)
            },
            None => None,
        }
}

/// The backends that `install` asks, in order, whether they know `package`:
/// Flatpak first when the package looks like an application ID and Flatpak
/// is active; then each name of the priority order that designates an
/// active backend, leaving Flatpak out for application IDs.
pub open spec fn install_candidates(ks: Seq<BackendKind>, priority: Seq<Seq<char>>, package: Seq<char>) -> Seq<BackendKind> {
    let first = if looks_like_app_id(package) && find_kind(ks, "Flatpak"@) is Some {
        seq![find_kind(ks, "Flatpak"@)->0]
    } else {
        Seq::empty()
    };
    first + effective_priority(priority).filter_map(walk_fn(ks, package))
}

/// A numbered choice typed by the user.
#[derive(PartialEq, Eq, Structural, Clone, Copy, Debug)]
pub enum Choice {
    /// Nothing typed: the operation is called off.
    Cancel,
    /// The entry at this position (from 0) of the list shown.
    Pick(usize),
    /// Anything else.
    Invalid,
}

/// What a line typed by the user selects in a list of `n` entries numbered
/// from 1: blank means cancel, a number from 1 to `n` its entry.
pub open spec fn choice_of(input: Seq<char>, n: nat) -> Choice {
    let t = trim(input);
    if t.len() == 0 {
        Choice::Cancel
    } else {
        match parse_uint(t, usize::MAX as nat) {
            Some(k) => if 1 <= k && k <= n {
                Choice::Pick((k - 1) as usize)
            } else {
                Choice::Invalid
            },
            None => Choice::Invalid,
        }
    }
}

/// `choice_of` in code.
pub fn parse_choice(input: &str, n: usize) -> (c: Choice)
    ensures
        c == choice_of(input@, n as nat),
{
    let v = chars_of(input);
    let t = trim_slice(v.as_slice());
    if t.len() == 0 {
        return Choice::Cancel;
    }
    match parse_uint_slice(t, usize::MAX as u128) {
        Some(k) => if 1 <= k && k <= n as u128 {
            Choice::Pick((k - 1) as usize)
        } else {
            Choice::Invalid
        },
        None => Choice::Invalid,
    }
}

/// Where asking one candidate leads `install`.
#[derive(PartialEq, Eq, Structural, Clone, Copy, Debug)]
pub enum ProbeStep {
    /// Install with the candidate at this position.
    Take(usize),
    /// Ask the candidate at this position.
    Ask(usize),
    /// Search all backends.
    SearchAll,
}

/// The step after the candidate at `index` of `n` answered `found`.
pub open spec fn probe_step(n: usize, index: usize, found: bool) -> ProbeStep {
    if found {
        ProbeStep::Take(index)
    } else if index + 1 < n {
        ProbeStep::Ask((index + 1) as usize)
    } else {
        ProbeStep::SearchAll
    }
}

/// Where the answers of the candidates (`answers[i]` for the candidate at
/// `i`) lead `install` when it asks them from `index` on.
pub open spec fn probe_run(answers: Seq<bool>, index: usize) -> ProbeStep
    decreases answers.len() - index,
{
    if index >= answers.len() {
        ProbeStep::SearchAll
    } else {
        match probe_step(answers.len() as usize, index, answers[index as int]) {
            ProbeStep::Ask(j) => if j > index {
                probe_run(answers, j)
            } else {
                ProbeStep::SearchAll
            },
            other => other,
        }
    }
}

pub open spec fn is_yes() -> spec_fn(bool) -> bool {
    |b: bool| b
}

/// The next step of `install`.
pub enum InstallAction {
    /// Install `package` with `backend`.
    Install { backend: BackendKind, package: String },
    /// Ask the candidate at this position whether it knows the package.
    Probe { index: usize },
    /// Search all backends for the package.
    Search,
    /// Show the hits and let the user pick one.
    Choose,
    /// Stop with this error.
    Fail(String),
    /// Stop without doing anything.
    Cancel,
}

/// What `remove` does next.
pub enum RemoveAction {
    /// Remove the package with `backend`.
    Remove { backend: BackendKind },
    /// Show the backends that hold the package and let the user pick one.
    Ask,
    /// Stop with this error.
    Fail(String),
    /// Stop without doing anything.
    Cancel,
}

/// How a backend shows in `status`.
#[derive(PartialEq, Eq, Structural, Clone, Copy, Debug)]
pub enum BackendStatus {
    /// Left out by the settings.
    Disabled,
    /// Present on the system.
    Active,
    /// Not present on the system.
    Unavailable,
}

/// The `status` of a backend: the settings come first (by its name, or the
/// AUR backend also by `yay`, as the manager leaves backends out), then its presence.
pub open spec fn status_of(disabled: Seq<Seq<char>>, k: BackendKind, available: bool) -> BackendStatus {
    if kind_disabled(disabled, k) {
        BackendStatus::Disabled
    } else if available {
        BackendStatus::Active
    } else {
        BackendStatus::Unavailable
    }
}

/// `status_of` in code.
pub fn backend_status(config: &YrozConfig, kind: BackendKind, available: bool) -> (s: BackendStatus)
    ensures
        s == status_of(config.disabled_backends.deep_view(), kind, available),
{
    let off = config.is_disabled(kind.name()) || (kind == BackendKind::Yay && config.is_disabled("yay"));
    if off {
        BackendStatus::Disabled
    } else if available {
        BackendStatus::Active
    } else {
        BackendStatus::Unavailable
    }
}

/// How many packages of a list `list_installed` shows (at most 100), and how
/// many it leaves out.
pub fn listing_counts(len: usize) -> (r: (usize, usize))
    ensures
        r.0 == (if len < 100 { len } else { 100 }),
        r.1 == (if len > 100 { len - 100 } else { 0 }),
        r.0 + r.1 == len,
{
    if len > 100 {
        (100, len - 100)
    } else {
        (len, 0)
    }
}

/// The hits gathered from the answers of the backends, in order; a backend
/// that failed contributes nothing.
pub open spec fn gathered(outcomes: Seq<Result<Vec<SearchResult>, String>>) -> Seq<SearchResultView>
    decreases outcomes.len(),
{
    if outcomes.len() == 0 {
        Seq::empty()
    } else {
        gathered(outcomes.drop_last()) + match outcomes.last() {
            Ok(v) => v.deep_view(),
            Err(_) => Seq::empty(),
        }
    }
}

/// `gathered` in code: the hits of all backends that answered, in backend order.
pub fn merge_search_results(outcomes: Vec<Result<Vec<SearchResult>, String>>) -> (r: Vec<SearchResult>)
    ensures
        r.deep_view() == gathered(outcomes@),
{
    let mut all: Vec<SearchResult> = Vec::new();
    let mut rest = outcomes;
    let ghost whole = rest@;
    let mut k: usize = 0;
    let n = rest.len();
    assert(n == whole.len());
    let mut parts: Vec<Result<Vec<SearchResult>, String>> = Vec::new();
    // Take the outcomes apart from the back, then add them from the front.
    while rest.len() > 0
        invariant
            whole == rest@ + parts@.reverse(),
        decreases rest@.len(),
    {
        let last = rest.pop().unwrap();
        let ghost before_parts = parts@;
        parts.push(last);
        assert(parts@.reverse() =~= seq![last] + before_parts.reverse());
        assert(whole =~= rest@ + parts@.reverse());
    }
    assert(whole =~= parts@.reverse());
    assert(all.deep_view() =~= gathered(whole.take(0)));
    while parts.len() > 0
        invariant
            whole == whole.take(k as int) + parts@.reverse(),
            k <= whole.len(),
            k + parts@.len() == whole.len(),
            n == whole.len(),
            all.deep_view() == gathered(whole.take(k as int)),
        decreases parts@.len(),
    {
        let ghost before = all.deep_view();
        let ghost ps = parts@;
        let o = parts.pop().unwrap();
        assert(ps.reverse()[0] == o);
        assert(whole[k as int] == o);
        match o {
            Ok(v) => {
                let ghost vv = v.deep_view();
                let mut src = v;
                let mut tmp: Vec<SearchResult> = Vec::new();
                while src.len() > 0
                    invariant
                        vv == src.deep_view() + tmp.deep_view().reverse(),
                    decreases src@.len(),
                {
                    let x = src.pop().unwrap();
                    let ghost t0 = tmp.deep_view();
                    tmp.push(x);
                    assert(tmp.deep_view() =~= t0.push(x@));
                    assert(tmp.deep_view().reverse() =~= seq![x@] + t0.reverse());
                    assert(vv =~= src.deep_view() + tmp.deep_view().reverse());
                }
                assert(vv =~= tmp.deep_view().reverse());
                let ghost a0 = all.deep_view();
                while tmp.len() > 0
                    invariant
                        a0 + vv == all.deep_view() + tmp.deep_view().reverse(),
                    decreases tmp@.len(),
                {
                    let ghost t0 = tmp.deep_view();
                    let ghost al = all.deep_view();
                    let x = tmp.pop().unwrap();
                    all.push(x);
                    assert(t0 =~= tmp.deep_view().push(x@));
                    assert(t0.reverse() =~= seq![x@] + tmp.deep_view().reverse());
                    assert(all.deep_view() =~= al.push(x@));
                    assert(a0 + vv =~= all.deep_view() + tmp.deep_view().reverse());
                }
                assert(all.deep_view() =~= a0 + vv);
            },
            Err(_) => {},
        }
        assert(whole.take(k + 1).drop_last() =~= whole.take(k as int));
        assert(parts@.reverse() =~= ps.reverse().drop_first());
        assert(whole =~= whole.take(k + 1) + parts@.reverse());
        k = k + 1;
    }
    proof {
        lemma_take_all(whole);
    }
    all
}


/// The active backends of a run, in registration order.
pub struct PackageManager {
    backends: Vec<BackendKind>,
}

impl View for PackageManager {
    type V = Seq<BackendKind>;

    closed spec fn view(&self) -> Seq<BackendKind> {
        self.backends@
    }
}

/// The names of the backends `ks`, in order.
pub open spec fn kind_names(ks: Seq<BackendKind>) -> Seq<Seq<char>> {
    ks.map_values(|k: BackendKind| kind_name(k))
}

/// The error of `install` when no backend knows the package and no search hit it.
pub open spec fn not_found_message(package: Seq<char>) -> Seq<char> {
    "Não foi possível encontrar o pacote '"@ + package + "' em nenhum gerenciador."@
}

/// The error of `install` for an AppImage when the AppImage backend is not active.
pub open spec fn appimage_unavailable_message() -> Seq<char> {
    "Backend do AppImage não está disponível ou foi desativado."@
}

/// The error of `install` for a choice that selects nothing.
pub open spec fn invalid_option_message() -> Seq<char> {
    "Opção inválida de escolha."@
}

/// The error of `remove` when no backend holds the package.
pub open spec fn not_installed_message(package: Seq<char>) -> Seq<char> {
    "O pacote '"@ + package + "' não parece estar instalado em nenhum gerenciador gerenciado pelo Yroz."@
}

/// The error of `remove` for a choice that selects nothing.
pub open spec fn invalid_choice_message() -> Seq<char> {
    "Escolha inválida."@
}

/// The error of `remove` when the chosen name designates no active backend.
pub open spec fn unresolved_message() -> Seq<char> {
    "Erro ao resolver gerenciador de destino."@
}

/// The error of `info` when no backend knows the package.
pub open spec fn no_info_message(package: Seq<char>) -> Seq<char> {
    "Não foi possível obter informações para '"@ + package + "' em nenhum gerenciador."@
}

/// The names of the backends that reported the package installed, in order.
pub open spec fn installed_names(reports: Seq<(BackendKind, bool)>) -> Seq<Seq<char>>
    decreases reports.len(),
{
    if reports.len() == 0 {
        Seq::empty()
    } else {
        let rest = installed_names(reports.drop_last());
        if reports.last().1 {
            rest.push(kind_name(reports.last().0))
        } else {
            rest
        }
    }
}

fn message_with(prefix: &str, package: &str, suffix: &str) -> (r: String)
    ensures
        r@ == prefix@ + package@ + suffix@,
{
    let mut m = prefix.to_owned();
    m.append(package);
    m.append(suffix);
    m
}

impl PackageManager {
    /// The manager over the backends that are `available` on the system
    /// (in any order) and not left out by `config`.
    pub fn new(config: &YrozConfig, available: &Vec<BackendKind>) -> (m: Self)
        ensures
            m@ == active_kinds(config.disabled_backends.deep_view(), available@),
    {
        let kinds = all_backend_kinds();
        let ghost disabled = config.disabled_backends.deep_view();
        let mut backends: Vec<BackendKind> = Vec::new();
        let mut i: usize = 0;
        while i < kinds.len()
            invariant
                i <= kinds@.len(),
                kinds@ == all_kinds(),
                disabled == config.disabled_backends.deep_view(),
                backends@ == kinds@.take(i as int).filter_map(active_fn(disabled, available@)),
            decreases kinds@.len() - i,
        {
            proof {
                lemma_filter_map_step(kinds@, active_fn(disabled, available@), i as int);
            }
            let k = kinds[i];
            let mut present = false;
            let mut j: usize = 0;
            while j < available.len()
                invariant
                    j <= available@.len(),
                    present == (exists|t: int| 0 <= t < j && available@[t] == k),
                decreases available@.len() - j,
            {
                if available[j] == k {
                    present = true;
                }
                j = j + 1;
            }
            assert(present == available@.contains(k));
            let off = config.is_disabled(k.name()) || (k == BackendKind::Yay && config.is_disabled(
                "yay",
            ));
            if present && !off {
                backends.push(k);
            }
            i = i + 1;
        }
        proof {
            lemma_take_all(kinds@);
        }
        PackageManager { backends }
    }

    /// The active backends.
    pub fn backends(&self) -> (r: Vec<BackendKind>)
        ensures
            r@ == self@,
    {
        self.backends.clone()
    }

    /// The names of the active backends, in order.
    pub fn get_available_backend_names(&self) -> (r: Vec<String>)
        ensures
            r.deep_view() == kind_names(self@),
    {
        let mut r: Vec<String> = Vec::new();
        let mut i: usize = 0;
        while i < self.backends.len()
            invariant
                i <= self@.len(),
                self@ == self.backends@,
                r.deep_view() == kind_names(self@.take(i as int)),
            decreases self@.len() - i,
        {
            let ghost before = r.deep_view();
            let k = self.backends[i];
            r.push(k.name().to_owned());
            assert(kind_names(self@.take(i + 1)) =~= kind_names(self@.take(i as int)).push(kind_name(k)));
            assert(r.deep_view() =~= before.push(kind_name(k)));
            i = i + 1;
        }
        assert(self@.take(self@.len() as int) =~= self@);
        r
    }

    /// The active backend called `name`, ignoring ASCII case; the first such.
    pub fn find_backend(&self, name: &str) -> (r: Option<BackendKind>)
        ensures
            r == find_kind(self@, name@),
    {
        let n = chars_of(name);
        let mut i: usize = 0;
        assert(self.backends@.skip(0) =~= self.backends@);
        while i < self.backends.len()
            invariant
                i <= self.backends@.len(),
                n@ == name@,
                find_kind(self.backends@, name@) == find_kind(self.backends@.skip(i as int), name@),
            decreases self.backends@.len() - i,
        {
            let k = self.backends[i];
            assert(self.backends@.skip(i as int)[0] == k);
            assert(self.backends@.skip(i as int).drop_first() =~= self.backends@.skip(i + 1));
            let kn = chars_of(k.name());
            if eq_ignore_ascii_case_slice(kn.as_slice(), n.as_slice()) {
                return Some(k);
            }
            i = i + 1;
        }
        None
    }

    /// The backends that `install` asks, in order, whether they know `package`.
    pub fn install_candidates(&self, config: &YrozConfig, package: &str) -> (r: Vec<BackendKind>)
        ensures
            r@ == install_candidates(self@, config.priority.deep_view(), package@),
    {
        let p = chars_of(package);
        let dot = chars_of(".");
        let app_id = contains_slice(p.as_slice(), dot.as_slice());
        let mut r: Vec<BackendKind> = Vec::new();
        if app_id {
            match self.find_backend("Flatpak") {
                Some(k) => {
                    r.push(k);
                },
                None => {},
            }
        }
        let ghost first = r@;
        let prio = if config.priority.len() > 0 {
            config.priority.clone()
        } else {
            vec![
                "NAPT".to_owned(),
                "APT".to_owned(),
                "Pacman".to_owned(),
                "DNF".to_owned(),
                "Portage".to_owned(),
                "XBPS".to_owned(),
                "Zypper".to_owned(),
                "APK".to_owned(),
                "eopkg".to_owned(),
                "AUR/yay".to_owned(),
                "Nix".to_owned(),
                "Flatpak".to_owned(),
                "Snap".to_owned(),
            ]
        };
        assert(prio.deep_view() =~= effective_priority(config.priority.deep_view()));
        let ghost pv = prio.deep_view();
        let ghost f = walk_fn(self@, package@);
        let mut i: usize = 0;
        assert(r@ =~= first + pv.take(0).filter_map(f));
        while i < prio.len()
            invariant
                i <= pv.len(),
                pv == prio.deep_view(),
                p@ == package@,
                app_id == looks_like_app_id(package@),
                f == walk_fn(self@, package@),
                r@ == first + pv.take(i as int).filter_map(f),
            decreases pv.len() - i,
        {
            proof {
                lemma_filter_map_step(pv, f, i as int);
            }
            let name = prio[i].as_str();
            assert(name@ == pv[i as int]);
            match self.find_backend(name) {
                Some(k) => {
                    let nv = chars_of(name);
                    let fl = chars_of("Flatpak");
                    if !(eq_ignore_ascii_case_slice(nv.as_slice(), fl.as_slice()) && app_id) {
                        r.push(k);
                        assert(r@ =~= first + pv.take(i + 1).filter_map(f));
                    }
                },
                None => {},
            }
            i = i + 1;
        }
        proof {
            lemma_take_all(pv);
        }
        r
    }

    /// The first step of `install package`, given the package name in lower
    /// case (`lowered`): an AppImage file name goes to the AppImage backend (or
    /// fails when it is not active); anything else is asked of the first
    /// candidate, or searched for when there is none.
    pub fn install_start_lowered(&self, config: &YrozConfig, package: &str, lowered: &str) -> (a: InstallAction)
        ensures
            ends_with(lowered@, ".appimage"@) ==> (match find_kind(self@, "AppImage"@) {
                Some(k) => a matches InstallAction::Install { backend, package: p } && backend == k
                    && p@ == package@,
                None => a matches InstallAction::Fail(m) && m@ == appimage_unavailable_message(),
            }),
            !ends_with(lowered@, ".appimage"@) ==> (if install_candidates(
                self@,
                config.priority.deep_view(),
                package@,
            ).len() > 0 {
                a matches InstallAction::Probe { index } && index == 0
            } else {
                a matches InstallAction::Search
            }),
    {
        let lv = chars_of(lowered);
        let suffix = chars_of(".appimage");
        if ends_with_slice(lv.as_slice(), suffix.as_slice()) {
            return match self.find_backend("AppImage") {
                Some(k) => InstallAction::Install { backend: k, package: package.to_owned() },
                None => InstallAction::Fail(
                    "Backend do AppImage não está disponível ou foi desativado.".to_owned(),
                ),
            };
        }
        let c = self.install_candidates(config, package);
        if c.len() > 0 {
            InstallAction::Probe { index: 0 }
        } else {
            InstallAction::Search
        }
    }

    /// The first step of `install package`: an AppImage file name goes to the
    /// AppImage backend (or fails when it is not active); anything else is
    /// asked of the first candidate, or searched for when there is none.
    pub fn install_start(&self, config: &YrozConfig, package: &str) -> (a: InstallAction)
        ensures
            is_appimage_name(package@) ==> (match find_kind(self@, "AppImage"@) {
                Some(k) => a matches InstallAction::Install { backend, package: p } && backend == k
                    && p@ == package@,
                None => a matches InstallAction::Fail(m) && m@ == appimage_unavailable_message(),
            }),
            !is_appimage_name(package@) ==> (if install_candidates(
                self@,
                config.priority.deep_view(),
                package@,
            ).len() > 0 {
                a matches InstallAction::Probe { index } && index == 0
            } else {
                a matches InstallAction::Search
            }),
    {
        let lowered = to_lowercase(package);
        self.install_start_lowered(config, package, lowered.as_str())
    }

    /// The step of `install` after the candidate at `index` answered whether it
    /// knows `package` (`found`): install with it, else ask the next one, else search.
    pub fn install_after_probe(
        &self,
        candidates: &Vec<BackendKind>,
        index: usize,
        found: bool,
        package: &str,
    ) -> (a: InstallAction)
        requires
            index < candidates@.len(),
        ensures
            (match probe_step(candidates@.len() as usize, index, found) {
                ProbeStep::Take(i) => a matches InstallAction::Install { backend, package: p } && backend
                    == candidates@[i as int] && p@ == package@,
                ProbeStep::Ask(j) => a matches InstallAction::Probe { index: k } && k == j,
                ProbeStep::SearchAll => a matches InstallAction::Search,
            }),
    {
        if found {
            InstallAction::Install { backend: candidates[index], package: package.to_owned() }
        } else if index < candidates.len() - 1 {
            InstallAction::Probe { index: index + 1 }
        } else {
            InstallAction::Search
        }
    }

    /// The step of `install` after the search: no hits is an error, else the
    /// user chooses among them.
    pub fn install_after_search(&self, package: &str, results: &Vec<SearchResult>) -> (a: InstallAction)
        ensures
            results@.len() == 0 ==> (a matches InstallAction::Fail(m) && m@ == not_found_message(
                package@,
            )),
            results@.len() > 0 ==> a matches InstallAction::Choose,
    {
        if results.len() == 0 {
            InstallAction::Fail(
                message_with("Não foi possível encontrar o pacote '", package, "' em nenhum gerenciador."),
            )
        } else {
            InstallAction::Choose
        }
    }

    /// The step of `install` after the user typed `input` to pick among the
    /// numbered `results`: blank cancels; the hit picked is installed by name
    /// with the active backend it came from; anything else is an error.
    pub fn install_after_choice(&self, results: &Vec<SearchResult>, input: &str) -> (a: InstallAction)
        ensures
            (match choice_of(input@, results@.len()) {
                Choice::Cancel => a matches InstallAction::Cancel,
                Choice::Pick(i) => match find_kind(self@, results@[i as int].backend@) {
                    Some(k) => a matches InstallAction::Install { backend, package: p } && backend
                        == k && p@ == results@[i as int].name@,
                    None => a matches InstallAction::Fail(m) && m@ == invalid_option_message(),
                },
                Choice::Invalid => a matches InstallAction::Fail(m) && m@ == invalid_option_message(),
            }),
    {
        match parse_choice(input, results.len()) {
            Choice::Cancel => InstallAction::Cancel,
            Choice::Pick(i) => {
                let chosen = &results[i];
                match self.find_backend(chosen.backend.as_str()) {
                    Some(k) => InstallAction::Install { backend: k, package: chosen.name.clone() },
                    None => InstallAction::Fail("Opção inválida de escolha.".to_owned()),
                }
            },
            Choice::Invalid => InstallAction::Fail("Opção inválida de escolha.".to_owned()),
        }
    }

    /// The names of the backends whose `info` reported the package installed,
    /// in the order of `reports` (one entry per backend that answered).
    pub fn installed_backends(&self, reports: &Vec<(BackendKind, bool)>) -> (r: Vec<String>)
        ensures
            r.deep_view() == installed_names(reports@),
    {
        let mut r: Vec<String> = Vec::new();
        let mut i: usize = 0;
        assert(reports@.take(0) =~= Seq::<(BackendKind, bool)>::empty());
        while i < reports.len()
            invariant
                i <= reports@.len(),
                r.deep_view() == installed_names(reports@.take(i as int)),
            decreases reports@.len() - i,
        {
            let (k, installed) = reports[i];
            let ghost before = r.deep_view();
            assert(reports@.take(i + 1).drop_last() =~= reports@.take(i as int));
            if installed {
                r.push(k.name().to_owned());
                assert(r.deep_view() =~= before.push(kind_name(k)));
            }
            i = i + 1;
        }
        proof {
            lemma_take_all(reports@);
        }
        r
    }

    fn resolve_remove(&self, name: &str) -> (a: RemoveAction)
        ensures
            (match find_kind(self@, name@) {
                Some(k) => a matches RemoveAction::Remove { backend } && backend == k,
                None => a matches RemoveAction::Fail(m) && m@ == unresolved_message(),
            }),
    {
        match self.find_backend(name) {
            Some(k) => RemoveAction::Remove { backend: k },
            None => RemoveAction::Fail("Erro ao resolver gerenciador de destino.".to_owned()),
        }
    }

    /// The first step of `remove package`, given the names of the backends that
    /// hold it: none is an error, one is removed from, several are offered.
    pub fn remove_start(&self, package: &str, installed: &Vec<String>) -> (a: RemoveAction)
        ensures
            installed@.len() == 0 ==> (a matches RemoveAction::Fail(m) && m@ == not_installed_message(
                package@,
            )),
            installed@.len() == 1 ==> (match find_kind(self@, installed@[0]@) {
                Some(k) => a matches RemoveAction::Remove { backend } && backend == k,
                None => a matches RemoveAction::Fail(m) && m@ == unresolved_message(),
            }),
            installed@.len() > 1 ==> a matches RemoveAction::Ask,
    {
        if installed.len() == 0 {
            RemoveAction::Fail(
                message_with(
                    "O pacote '",
                    package,
                    "' não parece estar instalado em nenhum gerenciador gerenciado pelo Yroz.",
                ),
            )
        } else if installed.len() == 1 {
            self.resolve_remove(installed[0].as_str())
        } else {
            RemoveAction::Ask
        }
    }

    /// The step of `remove` after the user typed `input` to pick among the
    /// numbered backend names `installed`.
    pub fn remove_after_choice(&self, installed: &Vec<String>, input: &str) -> (a: RemoveAction)
        ensures
            (match choice_of(input@, installed@.len()) {
                Choice::Cancel => a matches RemoveAction::Cancel,
                Choice::Pick(i) => match find_kind(self@, installed@[i as int]@) {
                    Some(k) => a matches RemoveAction::Remove { backend } && backend == k,
                    None => a matches RemoveAction::Fail(m) && m@ == unresolved_message(),
                },
                Choice::Invalid => a matches RemoveAction::Fail(m) && m@ == invalid_choice_message(),
            }),
    {
        match parse_choice(input, installed.len()) {
            Choice::Cancel => RemoveAction::Cancel,
            Choice::Pick(i) => self.resolve_remove(installed[i].as_str()),
            Choice::Invalid => RemoveAction::Fail("Escolha inválida.".to_owned()),
        }
    }

    /// The answer of `info package`, given how many backends knew it.
    pub fn info_outcome(&self, package: &str, found: usize) -> (r: Result<(), String>)
        ensures
            found > 0 ==> r is Ok,
            found == 0 ==> (r matches Err(m) && m@ == no_info_message(package@)),
    {
        if found > 0 {
            Ok(())
        } else {
            Err(
                message_with(
                    "Não foi possível obter informações para '",
                    package,
                    "' em nenhum gerenciador.",
                ),
            )
        }
    }
}

/// The position of a backend in the registration order.
pub open spec fn kind_rank(k: BackendKind) -> nat {
    match k {
        BackendKind::Apt => 0,
        BackendKind::Dnf => 1,
        BackendKind::Portage => 2,
        BackendKind::Xbps => 3,
        BackendKind::Zypper => 4,
        BackendKind::Apk => 5,
        BackendKind::Eopkg => 6,
        BackendKind::Yay => 7,
        BackendKind::Nix => 8,
        BackendKind::Flatpak => 9,
        BackendKind::Snap => 10,
        BackendKind::AppImage => 11,
    }
}

/// `ks` follows the registration order, each backend at most once.
pub open spec fn in_registration_order(ks: Seq<BackendKind>) -> bool {
    forall|i: int, j: int| 0 <= i < j < ks.len() ==> kind_rank(#[trigger] ks[i]) < kind_rank(#[trigger] ks[j])
}

proof fn lemma_all_kinds()
    ensures
        in_registration_order(all_kinds()),
        forall|k: BackendKind| #[trigger] all_kinds().contains(k),
{
    assert forall|k: BackendKind| #[trigger] all_kinds().contains(k) by {
        assert(all_kinds()[kind_rank(k) as int] == k);
    }
}

/// Keeping, in order, the backends of `s` that `f` keeps unchanged.
proof fn lemma_select_kinds(s: Seq<BackendKind>, f: spec_fn(BackendKind) -> Option<BackendKind>)
    requires
        forall|k: BackendKind| #[trigger] f(k) is Some ==> f(k) == Some(k),
        in_registration_order(s),
    ensures
        forall|k: BackendKind|
            s.filter_map(f).contains(k) <==> (s.contains(k) && #[trigger] f(k) is Some),
        in_registration_order(s.filter_map(f)),
    decreases s.len(),
{
    if s.len() > 0 {
        let rest = s.drop_last();
        assert(in_registration_order(rest));
        lemma_select_kinds(rest, f);
        let r = rest.filter_map(f);
        assert(s =~= rest.push(s.last()));
        assert forall|k: BackendKind| rest.contains(k) implies kind_rank(k) < kind_rank(s.last()) by {
            let t = choose|t: int| 0 <= t < rest.len() && rest[t] == k;
            assert(s[t] == k);
        }
        match f(s.last()) {
            Some(x) => {
                assert(s.filter_map(f) == r + seq![x]);
                assert forall|k: BackendKind| #[trigger] f(k) is Some && s.contains(k) implies s.filter_map(f).contains(k) by {
                    if k == s.last() {
                        assert(s.filter_map(f)[r.len() as int] == k);
                    } else {
                        let t = choose|t: int| 0 <= t < s.len() && s[t] == k;
                        assert(rest[t] == k);
                        let u = choose|u: int| 0 <= u < r.len() && r[u] == k;
                        assert(s.filter_map(f)[u] == k);
                    }
                }
                assert forall|k: BackendKind| s.filter_map(f).contains(k) implies s.contains(k) && #[trigger] f(k) is Some by {
                    let u = choose|u: int| 0 <= u < s.filter_map(f).len() && s.filter_map(f)[u] == k;
                    if u < r.len() {
                        assert(r[u] == k);
                        assert(r.contains(k));
                        let t = choose|t: int| 0 <= t < rest.len() && rest[t] == k;
                        assert(s[t] == k);
                    } else {
                        assert(k == s.last());
                        assert(s[s.len() - 1] == k);
                    }
                }
                assert forall|i: int, j: int| 0 <= i < j < s.filter_map(f).len() implies kind_rank(
                    #[trigger] s.filter_map(f)[i],
                ) < kind_rank(#[trigger] s.filter_map(f)[j]) by {
                    assert(s.filter_map(f)[i] == r[i]);
                    if j < r.len() {
                        assert(s.filter_map(f)[j] == r[j]);
                    } else {
                        assert(f(s.last()) is Some);
                        assert(s.filter_map(f)[j] == s.last());
                        assert(r.contains(r[i]));
                        assert(f(r[i]) is Some);
                        assert(rest.contains(r[i]));
                    }
                }
            },
            None => {
                assert(s.filter_map(f) == r);
                assert forall|k: BackendKind| #[trigger] f(k) is Some && s.contains(k) implies s.filter_map(f).contains(k) by {
                    let t = choose|t: int| 0 <= t < s.len() && s[t] == k;
                    assert(t != s.len() - 1);
                    assert(rest[t] == k);
                }
                assert forall|k: BackendKind| s.filter_map(f).contains(k) implies s.contains(k) && #[trigger] f(k) is Some by {
                    let t = choose|t: int| 0 <= t < rest.len() && rest[t] == k;
                    assert(s[t] == k);
                }
            },
        }
    }
}

/// Law: a backend is active exactly when it is available on the system and
/// the settings do not leave it out, and the active backends keep the
/// registration order, each at most once.
pub proof fn law_active_backends(disabled: Seq<Seq<char>>, available: Seq<BackendKind>)
    ensures
        forall|k: BackendKind|
            #[trigger] active_kinds(disabled, available).contains(k) <==> (available.contains(k)
                && !kind_disabled(disabled, k)),
        in_registration_order(active_kinds(disabled, available)),
{
    let f = active_fn(disabled, available);
    lemma_all_kinds();
    lemma_select_kinds(all_kinds(), f);
    assert forall|k: BackendKind|
        #[trigger] active_kinds(disabled, available).contains(k) <==> (available.contains(k)
            && !kind_disabled(disabled, k)) by {
        assert(all_kinds().contains(k));
        assert(f(k) is Some <==> (available.contains(k) && !kind_disabled(disabled, k)));
    }
}

/// Law: `find_backend` gives an active backend whose name is the one asked
/// for, ignoring ASCII case; it gives nothing only when no active backend has that name.
pub proof fn law_find_backend(ks: Seq<BackendKind>, name: Seq<char>)
    ensures
        match find_kind(ks, name) {
            Some(k) => ks.contains(k) && eq_ignore_ascii_case(kind_name(k), name),
            None => forall|k: BackendKind| #[trigger] ks.contains(k) ==> !eq_ignore_ascii_case(kind_name(k), name),
        },
    decreases ks.len(),
{
    if ks.len() > 0 {
        law_find_backend(ks.drop_first(), name);
        match find_kind(ks, name) {
            Some(k) => {
                if eq_ignore_ascii_case(kind_name(ks[0]), name) {
                    assert(ks[0] == k);
                } else {
                    let t = choose|t: int| 0 <= t < ks.drop_first().len() && ks.drop_first()[t] == k;
                    assert(ks[t + 1] == k);
                }
            },
            None => {
                assert forall|k: BackendKind| #[trigger] ks.contains(k) implies !eq_ignore_ascii_case(kind_name(k), name) by {
                    let t = choose|t: int| 0 <= t < ks.len() && ks[t] == k;
                    if t > 0 {
                        assert(ks.drop_first()[t - 1] == k);
                        assert(ks.drop_first().contains(k));
                    }
                }
            },
        }
    }
}

/// No two backends have names that are equal ignoring ASCII case.
proof fn lemma_kind_names_distinct(a: BackendKind, b: BackendKind)
    requires
        eq_ignore_ascii_case(kind_name(a), kind_name(b)),
    ensures
        a == b,
{
    reveal_strlit("APT");
    reveal_strlit("DNF");
    reveal_strlit("Portage");
    reveal_strlit("XBPS");
    reveal_strlit("Zypper");
    reveal_strlit("APK");
    reveal_strlit("eopkg");
    reveal_strlit("AUR/yay");
    reveal_strlit("Nix");
    reveal_strlit("Flatpak");
    reveal_strlit("Snap");
    reveal_strlit("AppImage");
    let x = kind_name(a);
    let y = kind_name(b);
    assert(ascii_lower(x[0]) == ascii_lower(y[0]));
    if x.len() > 2 {
        assert(ascii_lower(x[2]) == ascii_lower(y[2]));
    }
}

/// `eq_ignore_ascii_case` relates texts equal up to ASCII case: it is symmetric and transitive.
proof fn lemma_eq_ignore_case_trans(a: Seq<char>, b: Seq<char>, c: Seq<char>)
    requires
        eq_ignore_ascii_case(a, b),
    ensures
        eq_ignore_ascii_case(b, a),
        eq_ignore_ascii_case(b, c) ==> eq_ignore_ascii_case(a, c),
{
    if eq_ignore_ascii_case(b, c) {
        assert forall|i: int| 0 <= i < a.len() implies ascii_lower(#[trigger] a[i]) == ascii_lower(c[i]) by {
            assert(ascii_lower(b[i]) == ascii_lower(c[i]));
        }
    }
    assert forall|i: int| 0 <= i < b.len() implies ascii_lower(#[trigger] b[i]) == ascii_lower(a[i]) by {
        assert(ascii_lower(a[i]) == ascii_lower(b[i]));
    }
}

/// Law: an active backend is found by its own name, in any ASCII case.
pub proof fn law_find_own_name(ks: Seq<BackendKind>, k: BackendKind, name: Seq<char>)
    requires
        ks.contains(k),
        eq_ignore_ascii_case(kind_name(k), name),
    ensures
        find_kind(ks, name) == Some(k),
{
    law_find_backend(ks, name);
    match find_kind(ks, name) {
        Some(j) => {
            lemma_eq_ignore_case_trans(kind_name(k), name, kind_name(j));
            lemma_eq_ignore_case_trans(kind_name(j), name, kind_name(k));
            lemma_eq_ignore_case_trans(name, kind_name(k), kind_name(j));
            lemma_kind_names_distinct(k, j);
        },
        None => {},
    }
}

/// Law: the settings leave a backend out whatever the ASCII case in which its name is written.
pub proof fn law_disabled_ignores_case(disabled: Seq<Seq<char>>, a: Seq<char>, b: Seq<char>)
    requires
        eq_ignore_ascii_case(a, b),
    ensures
        is_disabled_in(disabled, a) == is_disabled_in(disabled, b),
{
    lemma_eq_ignore_case_trans(a, b, a);
    if is_disabled_in(disabled, a) {
        let i = choose|i: int| 0 <= i < disabled.len() && eq_ignore_ascii_case(#[trigger] disabled[i], a);
        lemma_eq_ignore_case_trans(disabled[i], a, b);
    }
    if is_disabled_in(disabled, b) {
        let i = choose|i: int| 0 <= i < disabled.len() && eq_ignore_ascii_case(#[trigger] disabled[i], b);
        lemma_eq_ignore_case_trans(disabled[i], b, a);
    }
}

/// Law: `status` shows as active exactly the backends the manager uses.
pub proof fn law_status_matches_active(disabled: Seq<Seq<char>>, available: Seq<BackendKind>, k: BackendKind)
    ensures
        active_kinds(disabled, available).contains(k) <==> status_of(disabled, k, available.contains(k))
            == BackendStatus::Active,
{
    law_active_backends(disabled, available);
    assert(active_kinds(disabled, available).contains(k) <==> (available.contains(k) && !kind_disabled(disabled, k)));
}

/// Law: typing the number shown beside an entry of a list numbered from 1
/// picks that entry; a blank line cancels; a pick is always an entry of the list.
pub proof fn law_numbered_choice(i: nat, n: nat, input: Seq<char>)
    requires
        i < n,
        n <= usize::MAX,
    ensures
        choice_of(dec(i + 1), n) == Choice::Pick(i as usize),
        trim(input).len() == 0 ==> choice_of(input, n) == Choice::Cancel,
        choice_of(input, n) matches Choice::Pick(j) ==> j < n,
{
    let d = dec(i + 1);
    lemma_dec_digits(i + 1);
    law_parse_decimal(i + 1, usize::MAX as nat);
    assert(is_digit(d[0]));
    assert(is_digit(d.last())) by {
        assert(d.last() == d[d.len() - 1]);
    }
    assert(trim_start(d) == d);
    assert(trim(d) == d);
}

/// Law: `install` asks only active backends, and it offers an application ID
/// to Flatpak first (when Flatpak is active) and never again further down the
/// priority order.
pub proof fn law_install_candidates(ks: Seq<BackendKind>, priority: Seq<Seq<char>>, package: Seq<char>)
    ensures
        forall|i: int|
            0 <= i < install_candidates(ks, priority, package).len() ==> ks.contains(
                #[trigger] install_candidates(ks, priority, package)[i],
            ),
        looks_like_app_id(package) && ks.contains(BackendKind::Flatpak) ==> install_candidates(
            ks,
            priority,
            package,
        )[0] == BackendKind::Flatpak,
        looks_like_app_id(package) ==> forall|i: int|
            0 < i < install_candidates(ks, priority, package).len() ==> #[trigger] install_candidates(
                ks,
                priority,
                package,
            )[i] != BackendKind::Flatpak,
{
    let c = install_candidates(ks, priority, package);
    let f = walk_fn(ks, package);
    let pr = effective_priority(priority);
    let tail = pr.filter_map(f);
    let fl = "Flatpak"@;
    let first: Seq<BackendKind> = if looks_like_app_id(package) && find_kind(ks, fl) is Some {
        seq![find_kind(ks, fl)->0]
    } else {
        Seq::empty()
    };
    assert(c == first + tail);
    law_find_backend(ks, fl);
    assert forall|i: int| 0 <= i < tail.len() implies ks.contains(#[trigger] tail[i]) && (looks_like_app_id(package) ==> tail[i] != BackendKind::Flatpak) by {
        lemma_filter_map_origin(pr, f, i);
        let t = choose|t: int| 0 <= t < pr.len() && f(#[trigger] pr[t]) == Some(tail[i]);
        law_find_backend(ks, pr[t]);
        if looks_like_app_id(package) && tail[i] == BackendKind::Flatpak {
            lemma_eq_ignore_case_trans(kind_name(BackendKind::Flatpak), pr[t], kind_name(BackendKind::Flatpak));
        }
    }
    assert forall|i: int| 0 <= i < c.len() implies ks.contains(#[trigger] c[i]) by {
        if i >= first.len() {
            assert(c[i] == tail[i - first.len()]);
        }
    }
    if looks_like_app_id(package) && ks.contains(BackendKind::Flatpak) {
        assert(eq_ignore_ascii_case(kind_name(BackendKind::Flatpak), fl));
        law_find_own_name(ks, BackendKind::Flatpak, fl);
    }
    if looks_like_app_id(package) {
        assert forall|i: int| 0 < i < c.len() implies #[trigger] c[i] != BackendKind::Flatpak by {
            if i >= first.len() {
                assert(c[i] == tail[i - first.len()]);
            }
        }
    }
}

/// Law: with the default settings every available backend is active, and
/// `install` follows the built-in priority order.
pub proof fn law_default_settings(available: Seq<BackendKind>)
    ensures
        forall|k: BackendKind| #[trigger] active_kinds(Seq::empty(), available).contains(k) <==> available.contains(k),
        effective_priority(Seq::empty()) == default_priority(),
{
    law_active_backends(Seq::empty(), available);
    assert forall|k: BackendKind| #[trigger] active_kinds(Seq::empty(), available).contains(k) <==> available.contains(k) by {
        assert(!kind_disabled(Seq::empty(), k));
    }
}

proof fn lemma_probe_run_from(answers: Seq<bool>, index: usize)
    requires
        answers.len() <= usize::MAX,
    ensures
        probe_run(answers, index) == match first_from(answers, is_yes(), index as int) {
            Some(i) => ProbeStep::Take(i as usize),
            None => ProbeStep::SearchAll,
        },
    decreases answers.len() - index,
{
    let n = answers.len() as usize;
    assert(n as int == answers.len());
    if index < answers.len() {
        if answers[index as int] {
            assert(first_from(answers, is_yes(), index as int) == Some(index as int));
        } else {
            assert(first_from(answers, is_yes(), index as int) == first_from(answers, is_yes(), index + 1));
            if index + 1 < answers.len() {
                assert(probe_step(n, index, false) == ProbeStep::Ask((index + 1) as usize));
                lemma_probe_run_from(answers, (index + 1) as usize);
            } else {
                assert(probe_step(n, index, false) == ProbeStep::SearchAll);
            }
        }
    }
}

/// Law: asking the candidates in order from the first, `install` installs
/// with the first one that knows the package, and searches when none does.
pub proof fn law_install_takes_first_known(answers: Seq<bool>)
    requires
        answers.len() <= usize::MAX,
    ensures
        probe_run(answers, 0) == match first_from(answers, is_yes(), 0) {
            Some(i) => ProbeStep::Take(i as usize),
            None => ProbeStep::SearchAll,
        },
{
    lemma_probe_run_from(answers, 0);
}

/// Law: every name that `remove` offers designates, among the active
/// backends, a backend that reported the package installed.
pub proof fn law_remove_offers_holders(ks: Seq<BackendKind>, reports: Seq<(BackendKind, bool)>)
    requires
        forall|i: int| 0 <= i < reports.len() ==> ks.contains(#[trigger] reports[i].0),
    ensures
        forall|j: int|
            0 <= j < installed_names(reports).len() ==> exists|t: int|
                0 <= t < reports.len() && reports[t].1 && find_kind(ks, #[trigger] installed_names(reports)[j])
                    == Some(reports[t].0),
    decreases reports.len(),
{
    if reports.len() > 0 {
        let rest = reports.drop_last();
        assert forall|i: int| 0 <= i < rest.len() implies ks.contains(#[trigger] rest[i].0) by {
            assert(rest[i] == reports[i]);
        }
        law_remove_offers_holders(ks, rest);
        let names = installed_names(reports);
        assert forall|j: int| 0 <= j < names.len() implies exists|t: int|
            0 <= t < reports.len() && reports[t].1 && find_kind(ks, #[trigger] names[j]) == Some(reports[t].0) by {
            if j < installed_names(rest).len() {
                assert(names[j] == installed_names(rest)[j]);
                let t = choose|t: int| 0 <= t < rest.len() && rest[t].1 && find_kind(ks, installed_names(rest)[j]) == Some(rest[t].0);
                assert(reports[t] == rest[t]);
            } else {
                let last = reports[reports.len() - 1];
                assert(reports.last() == last);
                assert(names[j] == kind_name(last.0));
                assert(ks.contains(reports[reports.len() - 1].0));
                assert(eq_ignore_ascii_case(kind_name(last.0), kind_name(last.0)));
                law_find_own_name(ks, last.0, kind_name(last.0));
            }
        }
    }
}

/// A manager that is not the distribution's own: Nix, Flatpak and Snap.
pub open spec fn is_universal(k: BackendKind) -> bool {
    k == BackendKind::Nix || k == BackendKind::Flatpak || k == BackendKind::Snap
}

/// A name that designates a universal manager, ignoring ASCII case.
pub open spec fn universal_name(n: Seq<char>) -> bool {
    eq_ignore_ascii_case(n, "Nix"@) || eq_ignore_ascii_case(n, "Flatpak"@) || eq_ignore_ascii_case(n, "Snap"@)
}

proof fn lemma_universal_name_of(k: BackendKind, n: Seq<char>)
    requires
        eq_ignore_ascii_case(kind_name(k), n),
    ensures
        universal_name(n) <==> is_universal(k),
{
    lemma_eq_ignore_case_trans(kind_name(k), n, kind_name(k));
    let u = seq![BackendKind::Nix, BackendKind::Flatpak, BackendKind::Snap];
    assert forall|i: int| 0 <= i < 3 implies (eq_ignore_ascii_case(n, kind_name(#[trigger] u[i])) ==> k == u[i]) by {
        if eq_ignore_ascii_case(n, kind_name(u[i])) {
            lemma_eq_ignore_case_trans(kind_name(k), n, kind_name(u[i]));
            lemma_kind_names_distinct(k, u[i]);
        }
    }
    assert(kind_name(u[0]) == "Nix"@);
    assert(kind_name(u[1]) == "Flatpak"@);
    assert(kind_name(u[2]) == "Snap"@);
}

proof fn lemma_not_eq_ignore_case(a: Seq<char>, b: Seq<char>)
    requires
        a.len() != b.len() || (a.len() > 0 && b.len() > 0 && ascii_lower(a[0]) != ascii_lower(b[0])),
    ensures
        !eq_ignore_ascii_case(a, b),
{
}

/// In the built-in order, the universal managers come last.
proof fn lemma_default_priority_universal(t: int)
    requires
        0 <= t < default_priority().len(),
    ensures
        universal_name(default_priority()[t]) <==> t >= 10,
{
    reveal_strlit("NAPT");
    reveal_strlit("APT");
    reveal_strlit("Pacman");
    reveal_strlit("DNF");
    reveal_strlit("Portage");
    reveal_strlit("XBPS");
    reveal_strlit("Zypper");
    reveal_strlit("APK");
    reveal_strlit("eopkg");
    reveal_strlit("AUR/yay");
    reveal_strlit("Nix");
    reveal_strlit("Flatpak");
    reveal_strlit("Snap");
    let n = default_priority()[t];
    let x = "Nix"@;
    let y = "Flatpak"@;
    let z = "Snap"@;
    if t < 10 {
        lemma_not_eq_ignore_case(n, x);
        lemma_not_eq_ignore_case(n, y);
        lemma_not_eq_ignore_case(n, z);
    } else {
        assert(eq_ignore_ascii_case(x, x));
        assert(eq_ignore_ascii_case(y, y));
        assert(eq_ignore_ascii_case(z, z));
    }
}

/// Law: with no priority configured, `install` asks the distribution's own
/// managers (and the AUR) before the universal ones (Nix, Flatpak, Snap),
/// for any package that does not look like an application ID.
pub proof fn law_native_before_universal(ks: Seq<BackendKind>, package: Seq<char>)
    requires
        !looks_like_app_id(package),
    ensures
        forall|i: int, j: int|
            0 <= i < j < install_candidates(ks, Seq::empty(), package).len() && is_universal(
                #[trigger] install_candidates(ks, Seq::empty(), package)[i],
            ) ==> is_universal(#[trigger] install_candidates(ks, Seq::empty(), package)[j]),
{
    let f = walk_fn(ks, package);
    let dp = default_priority();
    let c = install_candidates(ks, Seq::empty(), package);
    assert(c == dp.filter_map(f));
    assert forall|a: Seq<char>| #[trigger] f(a) is Some implies is_universal(f(a)->0) == universal_name(a) by {
        law_find_backend(ks, a);
        let k = find_kind(ks, a)->0;
        lemma_universal_name_of(k, a);
    }
    assert forall|t: int, u: int| 0 <= t < u < dp.len() && universal_name(#[trigger] dp[t]) implies universal_name(
        #[trigger] dp[u],
    ) by {
        lemma_default_priority_universal(t);
        lemma_default_priority_universal(u);
    }
    let g = |n: Seq<char>| universal_name(n);
    let h = |k: BackendKind| is_universal(k);
    lemma_filter_map_keeps_order(dp, f, g, h);
}

/// Law: `find_backend` gives the first active backend, in order, whose name
/// is the one asked for, ignoring ASCII case.
pub proof fn law_find_backend_first(ks: Seq<BackendKind>, name: Seq<char>)
    ensures
        find_kind(ks, name) matches Some(k) ==> exists|i: int|
            0 <= i < ks.len() && ks[i] == k && eq_ignore_ascii_case(kind_name(ks[i]), name) && forall|j: int|
                0 <= j < i ==> !eq_ignore_ascii_case(kind_name(#[trigger] ks[j]), name),
    decreases ks.len(),
{
    if ks.len() > 0 {
        law_find_backend_first(ks.drop_first(), name);
        if !eq_ignore_ascii_case(kind_name(ks[0]), name) {
            if let Some(k) = find_kind(ks, name) {
                let rest = ks.drop_first();
                let i = choose|i: int|
                    0 <= i < rest.len() && rest[i] == k && eq_ignore_ascii_case(kind_name(rest[i]), name)
                        && forall|j: int| 0 <= j < i ==> !eq_ignore_ascii_case(kind_name(#[trigger] rest[j]), name);
                assert(ks[i + 1] == k);
                assert forall|j: int| 0 <= j < i + 1 implies !eq_ignore_ascii_case(kind_name(#[trigger] ks[j]), name) by {
                    if j > 0 {
                        assert(ks[j] == rest[j - 1]);
                    }
                }
            }
        } else {
            assert(ks[0] == find_kind(ks, name)->0);
        }
    }
}

/// The programs that a backend's commands run: to search, show details, list,
/// install, remove and update, and to tell whether a package is installed.
pub open spec fn programs_run(k: BackendKind) -> Set<Seq<char>> {
    match k {
        BackendKind::Apt => set!["apt-cache"@, "apt-get"@, "dpkg"@, "dpkg-query"@],
        BackendKind::Dnf => set!["dnf"@, "rpm"@],
        BackendKind::Portage => set!["emerge"@],
        BackendKind::Xbps => set!["xbps-query"@, "xbps-install"@, "xbps-remove"@],
        BackendKind::Zypper => set!["zypper"@, "rpm"@],
        BackendKind::Apk => set!["apk"@],
        BackendKind::Eopkg => set!["eopkg"@],
        BackendKind::Yay => set!["yay"@, "pacman"@],
        BackendKind::Nix => set!["nix-env"@, "nix-channel"@],
        BackendKind::Flatpak => set!["flatpak"@],
        BackendKind::Snap => set!["snap"@],
        BackendKind::AppImage => set!["curl"@],
    }
}

/// The program that installs packages for a backend.
pub open spec fn installer(k: BackendKind) -> Seq<char> {
    match k {
        BackendKind::Apt => "apt-get"@,
        BackendKind::Dnf => "dnf"@,
        BackendKind::Portage => "emerge"@,
        BackendKind::Xbps => "xbps-install"@,
        BackendKind::Zypper => "zypper"@,
        BackendKind::Apk => "apk"@,
        BackendKind::Eopkg => "eopkg"@,
        BackendKind::Yay => "yay"@,
        BackendKind::Nix => "nix-env"@,
        BackendKind::Flatpak => "flatpak"@,
        BackendKind::Snap => "snap"@,
        BackendKind::AppImage => "curl"@,
    }
}

/// Law: a backend is available on the programs its own commands run, and
/// only on them: every program it requires is one of those; each backend
/// but AppImage requires the program that installs its packages; no program
/// is required twice; and AppImage, which downloads files itself, requires none.
pub proof fn law_required_programs(k: BackendKind)
    ensures
        forall|i: int|
            0 <= i < required_programs(k).len() ==> programs_run(k).contains(#[trigger] required_programs(k)[i]),
        k != BackendKind::AppImage ==> required_programs(k).contains(installer(k)),
        required_programs(k).no_duplicates(),
        k == BackendKind::AppImage ==> required_programs(k).len() == 0,
{
    reveal_strlit("apt-get");
    reveal_strlit("dpkg");
    reveal_strlit("dnf");
    reveal_strlit("rpm");
    reveal_strlit("xbps-query");
    reveal_strlit("xbps-install");
    reveal_strlit("yay");
    reveal_strlit("pacman");
    let r = required_programs(k);
    assert(r.len() > 0 ==> r[0] == r[0]);
    if r.len() == 2 {
        assert(r[0] != r[1]) by {
            assert(r[0].len() != r[1].len() || r[0][0] != r[1][0] || r[0][5] != r[1][5]);
        }
    }
    if k != BackendKind::AppImage {
        assert(r[0] == installer(k) || r[1] == installer(k));
    }
}

} // verus!
