//! AppImage: the AppImage catalogue (`feed.json`) and GitHub releases to find
//! a download, and the names under which downloaded AppImages are kept and shown.
use vstd::prelude::*;
use vstd::string::*;
use vstd::utf8::encode_utf8;
use crate::backend::PackageManagerBackend;
use crate::levenshtein::{catalog_distance, levenshtein};
use crate::numfmt::{is_digit, mb_string, mb_text};
use crate::types::{InstalledPackage, InstalledPackageView, PackageInfo, PackageInfoView};
use crate::parse::{first_from, lemma_first_from_first, lemma_first_from_reaches, lemma_take_all, lines_of, lemma_filter_map_step};
use crate::text::{
    join, join_slices, chars_of, contains, contains_slice, ends_with, ends_with_slice,
    eq_ignore_ascii_case, eq_ignore_ascii_case_slice, eq_slice, find, find_slice,
    lemma_find_bounds, lemma_split_char_nonempty, lines, lowercase, replace_all,
    replace_all_slice, rfind_char, rfind_char_slice, split_char, split_char_slice, starts_with,
    starts_with_slice, string_of, strip_prefix, strip_suffix, to_lowercase, trim_matching,
    trim_matching_slice, views,
};

verus! {

/// The AppImage backend.
pub struct AppImageBackend;

/// A link of a catalogue entry (`type` and `url` in `feed.json`).
pub struct AppImageLink {
    pub link_type: String,
    pub url: String,
}

/// A catalogue entry.
pub struct AppImageItem {
    pub name: String,
    pub links: Option<Vec<AppImageLink>>,
}

/// The catalogue.
pub struct AppImageFeed {
    pub items: Vec<AppImageItem>,
}

/// A file of a GitHub release.
pub struct GitHubAsset {
    pub name: String,
    pub browser_download_url: String,
}

/// A GitHub release.
pub struct GitHubRelease {
    pub assets: Vec<GitHubAsset>,
}

// ---------------------------------------------------------------------------
// Names of files and shortcuts
// ---------------------------------------------------------------------------

/// The upper case of `c`, as `char::to_uppercase` maps it (one or more characters).
pub uninterp spec fn uppercase_of(c: char) -> Seq<char>;

/// `char::to_uppercase`, collected into a string: the upper-case mapping of
/// `c`, which is one or more characters.
#[verifier::external_body]
fn char_to_uppercase(c: char) -> (r: String)
    ensures
        r@ == uppercase_of(c),
        r@.len() >= 1,
{
    c.to_uppercase().collect::<String>()
}

/// The number of bytes of `c` in UTF-8.
pub open spec fn char_bytes(c: char) -> nat {
    let u = c as u32;
    if u < 0x80 {
        1
    } else if u < 0x800 {
        2
    } else if u < 0x10000 {
        3
    } else {
        4
    }
}

/// The number of bytes of `s` in UTF-8.
pub open spec fn byte_len(s: Seq<char>) -> nat
    decreases s.len(),
{
    if s.len() == 0 {
        0
    } else {
        byte_len(s.drop_last()) + char_bytes(s.last())
    }
}

/// The number of characters of `s`, counted from `k` on, that take exactly
/// `b` bytes; none when `b` bytes end inside a character or beyond `s`.
pub open spec fn boundary_from(s: Seq<char>, b: nat, k: nat) -> Option<nat>
    decreases s.len() - k,
{
    if k > s.len() {
        None
    } else if byte_len(s.take(k as int)) == b {
        Some(k)
    } else if byte_len(s.take(k as int)) > b || k == s.len() {
        None
    } else {
        boundary_from(s, b, k + 1)
    }
}

/// The architecture markers that end the application part of a file name.
pub open spec fn arch_markers() -> Seq<Seq<char>> {
    seq!["-x86_64"@, "_x86_64"@, "-i386"@, "-i686"@, "-aarch64"@, "-armhf"@, "-arm64"@]
}

/// A file name without `.AppImage` (or else `.appimage`) at its end.
pub open spec fn without_appimage_ext(f: Seq<char>) -> Seq<char> {
    match strip_suffix(f, ".AppImage"@) {
        Some(x) => x,
        None => match strip_suffix(f, ".appimage"@) {
            Some(x) => x,
            None => f,
        },
    }
}

/// The name cut, for each marker in turn, where the marker first occurs in
/// `lower` (the lower case of the whole name): the cut falls at the same
/// byte offset in the name. `None` where that offset lies beyond what is left
/// of the name or inside a character (a slice the tool cannot take).
pub open spec fn arch_cut(lower: Seq<char>, name: Seq<char>, markers: Seq<Seq<char>>) -> Option<Seq<char>>
    decreases markers.len(),
{
    if markers.len() == 0 {
        Some(name)
    } else {
        match find(lower, markers[0]) {
            Some(ci) => match boundary_from(name, byte_len(lower.take(ci)), 0) {
                Some(k) => arch_cut(lower, name.take(k as int), markers.drop_first()),
                None => None,
            },
            None => arch_cut(lower, name, markers.drop_first()),
        }
    }
}

/// `name` without a trailing `-<version>` part (one that starts with a digit,
/// or with `v` and a digit).
pub open spec fn without_version(name: Seq<char>) -> Seq<char> {
    match rfind_char(name, '-') {
        Some(h) => {
            let suf = name.skip(h + 1);
            if (suf.len() > 0 && is_digit(suf[0])) || (suf.len() > 1 && suf[0] == 'v' && is_digit(
                suf[1],
            )) {
                name.take(h)
            } else {
                name
            }
        },
        None => name,
    }
}

/// The application part of `name` (a file name without its extension), given
/// its lower case `lower`: cut at the architecture markers, without its version.
pub open spec fn short_name(name: Seq<char>, lower: Seq<char>) -> Option<Seq<char>> {
    match arch_cut(lower, name, arch_markers()) {
        Some(n) => Some(without_version(n)),
        None => None,
    }
}

/// The file names that `sanitize_app_name` can shorten.
pub open spec fn sanitizable(f: Seq<char>) -> bool {
    let name = without_appimage_ext(f);
    short_name(name, lowercase(name)) is Some
}

/// `s` with its first character in upper case.
pub open spec fn capitalized(s: Seq<char>) -> Seq<char> {
    if s.len() == 0 {
        Seq::empty()
    } else {
        uppercase_of(s[0]) + s.drop_first()
    }
}

/// The application name shown for an AppImage file: the file name without
/// its extension, architecture marker and version, with its first character
/// in upper case.
pub open spec fn sanitized_name(f: Seq<char>) -> Seq<char> {
    let name = without_appimage_ext(f);
    capitalized(short_name(name, lowercase(name))->0)
}

/// The file name of the shortcuts of an application whose name in lower case is `lowered`.
pub open spec fn shortcut_name(lowered: Seq<char>) -> Seq<char> {
    "yroz-"@ + lowered + ".desktop"@
}

/// The file name of an application's menu and desktop shortcut.
pub open spec fn shortcut_file_name(app: Seq<char>) -> Seq<char> {
    shortcut_name(lowercase(app))
}

/// The content of an application's `.desktop` shortcut.
pub open spec fn desktop_entry(app: Seq<char>, exec: Seq<char>) -> Seq<char> {
    "[Desktop Entry]\nType=Application\nName="@ + app + "\nExec="@ + exec
        + "\nIcon=utilities-terminal\nTerminal=false\nCategories=Utility;\n"@
}

/// The desktop folders that `~/.config/user-dirs.dirs` names, in order: each
/// `XDG_DESKTOP_DIR=` line, without quotes, with `$HOME` replaced by `home`.
pub open spec fn xdg_desktop_item(home: Seq<char>) -> spec_fn(Seq<char>) -> Option<Seq<char>> {
    |l: Seq<char>|
        match strip_prefix(l, "XDG_DESKTOP_DIR="@) {
            Some(v) => Some(replace_all(trim_matching(v, "\""@), "$HOME"@, home)),
            None => None,
        }
}

pub open spec fn xdg_desktop_dirs(content: Seq<char>, home: Seq<char>) -> Seq<Seq<char>> {
    lines(content).filter_map(xdg_desktop_item(home))
}

/// The folders of the home directory tried, in order, as the desktop when
/// `user-dirs.dirs` names none that exists.
pub open spec fn desktop_fallbacks() -> Seq<Seq<char>> {
    seq!["Desktop"@, "Área de Trabalho"@, "Escritorio"@, "Bureau"@, "Schreibtisch"@]
}

/// A package argument that is already a download address.
pub open spec fn is_url(p: Seq<char>) -> bool {
    starts_with(p, "http://"@) || starts_with(p, "https://"@)
}

/// A lower-case name ends with `.appimage`.
pub open spec fn appimage_ext(lowered: Seq<char>) -> bool {
    ends_with(lowered, ".appimage"@)
}

/// The last `/`-separated part of a download address.
pub open spec fn last_segment(url: Seq<char>) -> Seq<char> {
    split_char(url, '/').last()
}

/// The file name at the end of a download address, when it names an AppImage.
pub open spec fn url_file_name(url: Seq<char>) -> Option<Seq<char>> {
    let f = last_segment(url);
    if appimage_ext(lowercase(f)) {
        Some(f)
    } else {
        None
    }
}

/// The error of `install` for an address that does not name an AppImage.
pub open spec fn not_appimage_url_message() -> Seq<char> {
    "A URL resolvida não aponta para um arquivo .AppImage válido"@
}

/// A package name without `.appimage` (or else `.AppImage`) at its end.
pub open spec fn package_base(p: Seq<char>) -> Seq<char> {
    match strip_suffix(p, ".appimage"@) {
        Some(x) => x,
        None => match strip_suffix(p, ".AppImage"@) {
            Some(x) => x,
            None => p,
        },
    }
}

/// An AppImage file in `~/Applications`, whose application name is
/// `sanitized`, is the one `package` designates: by its file name or its
/// application name, ignoring ASCII case.
pub open spec fn file_matches_package(file: Seq<char>, sanitized: Seq<char>, package: Seq<char>) -> bool {
    eq_ignore_ascii_case(file, package_base(package)) || eq_ignore_ascii_case(
        sanitized,
        package_base(package),
    )
}

/// Whether the reading of `~/Applications` stops at this file name: it
/// cannot be shortened (the tool stops there) or `package` designates it.
pub open spec fn stop_or_match(package: Seq<char>) -> spec_fn(Seq<char>) -> bool {
    |f: Seq<char>| !sanitizable(f) || file_matches_package(f, sanitized_name(f), package)
}

/// The file of `~/Applications` (by position among the names read, in
/// order) that `remove` and `info` settle on for `package`: `Ok(Some(i))` for
/// the first one it designates, `Ok(None)` for none, and `Err(i)` when a name
/// read before any match cannot be shortened (where the tool stops).
pub open spec fn installed_lookup(names: Seq<Seq<char>>, package: Seq<char>) -> Result<Option<int>, int> {
    match first_from(names, stop_or_match(package), 0) {
        Some(i) => if sanitizable(names[i]) {
            Ok(Some(i))
        } else {
            Err(i)
        },
        None => Ok(None),
    }
}

/// A file of `~/Applications` that `list` shows and cannot shorten.
pub open spec fn unlistable() -> spec_fn(Seq<char>) -> bool {
    |f: Seq<char>| appimage_ext(lowercase(f)) && !sanitizable(f)
}

pub open spec fn listed_fn() -> spec_fn(Seq<char>) -> Option<InstalledPackageView> {
    |f: Seq<char>|
        if appimage_ext(lowercase(f)) {
            Some(InstalledPackageView { name: sanitized_name(f), version: "local"@, backend: "AppImage"@ })
        } else {
            None
        }
}

/// What `list` shows for the file names of `~/Applications`: each AppImage
/// under its application name; `Err(i)` when the AppImage at `i`, the first
/// such, cannot be shortened (where the tool stops).
pub open spec fn appimage_listing(names: Seq<Seq<char>>) -> Result<Seq<InstalledPackageView>, int> {
    match first_from(names, unlistable(), 0) {
        Some(i) => Err(i),
        None => Ok(names.filter_map(listed_fn())),
    }
}

/// The error of `remove` when no file of `~/Applications` is the package.
pub open spec fn missing_for_remove(package: Seq<char>) -> Seq<char> {
    "AppImage '"@ + package + "' não encontrado em ~/Applications"@
}

/// The error of `info` when no file of `~/Applications` is the package.
pub open spec fn missing_for_info(package: Seq<char>) -> Seq<char> {
    "AppImage '"@ + package + "' não está instalado."@
}

/// The error of the catalogue search when no entry has the name: with the
/// list of close names (`shown`, as written out) when there are any.
pub open spec fn catalog_miss(package: Seq<char>, has_suggestions: bool, shown: Seq<char>) -> Seq<char> {
    if has_suggestions {
        "AppImage '"@ + package + "' não foi encontrado no catálogo. Você quis dizer: "@ + shown + "?"@
    } else {
        "AppImage '"@ + package + "' não foi encontrado no catálogo."@
    }
}

/// What a lookup in `~/Applications` settles on.
pub enum InstalledLookup {
    /// The file at this position among the names read.
    Found(usize),
    /// No file: the error to give.
    Missing(String),
    /// The name at this position cannot be shortened: the tool stops there.
    Stop(usize),
}

/// What `info` reports of the installed AppImage whose application name is
/// `app`, kept at the path written `path`, of `bytes` bytes.
pub open spec fn installed_info(app: Seq<char>, path: Seq<char>, bytes: nat) -> PackageInfoView {
    PackageInfoView {
        name: app,
        version: "AppImage local"@,
        description: "Local AppImage salvo em: "@ + path,
        backend: "AppImage"@,
        homepage: None,
        size: Some(mb_text(bytes)),
        installed: true,
    }
}

// ---------------------------------------------------------------------------
// The catalogue and GitHub releases
// ---------------------------------------------------------------------------

/// The name under which the catalogue is searched: the package name without
/// its AppImage extension, in lower case.
pub open spec fn catalog_key(p: Seq<char>) -> Seq<char> {
    lowercase(package_base(p))
}

/// The UTF-8 length of a text.
pub open spec fn utf8_len(s: Seq<char>) -> nat {
    encode_utf8(s).len() as usize as nat
}

/// A catalogue name, in lower case, close to the key: it contains the key,
/// or both are at least 3 bytes long and at most 2 edits apart.
pub open spec fn close_name(key: Seq<char>, lower: Seq<char>) -> bool {
    contains(lower, key) || (utf8_len(key) >= 3 && utf8_len(lower) >= 3 && catalog_distance(
        key,
        lower,
        utf8_len(lower),
    ) <= 2)
}

pub open spec fn name_is(key: Seq<char>) -> spec_fn(Seq<char>) -> bool {
    |l: Seq<char>| l == key
}

/// The names of the entries, each with its lower case.
pub open spec fn named_entries(items: Seq<AppImageItem>, lowered: Seq<Seq<char>>) -> Seq<(Seq<char>, Seq<char>)> {
    Seq::new(items.len(), |j: int| (items[j].name@, lowered[j]))
}

pub open spec fn suggestion_fn(key: Seq<char>) -> spec_fn((Seq<char>, Seq<char>)) -> Option<Seq<char>> {
    |e: (Seq<char>, Seq<char>)|
        if close_name(key, e.1) {
            Some(e.0)
        } else {
            None
        }
}

/// The catalogue entry named `key` (the first one whose name in lower case,
/// `lowered`, is the key), or else the names of the entries close to it, in
/// catalogue order.
pub open spec fn catalog_lookup_in(items: Seq<AppImageItem>, lowered: Seq<Seq<char>>, key: Seq<char>) -> Result<int, Seq<Seq<char>>> {
    match first_from(lowered, name_is(key), 0) {
        Some(i) => Ok(i),
        None => Err(named_entries(items, lowered).filter_map(suggestion_fn(key))),
    }
}

/// The names of the entries in lower case.
pub open spec fn lowered_names(items: Seq<AppImageItem>) -> Seq<Seq<char>> {
    items.map_values(|it: AppImageItem| lowercase(it.name@))
}

/// `catalog_lookup_in` with the names lowered by `str::to_lowercase`.
pub open spec fn catalog_lookup(items: Seq<AppImageItem>, key: Seq<char>) -> Result<int, Seq<Seq<char>>> {
    catalog_lookup_in(items, lowered_names(items), key)
}

/// What an entry's links give: a GitHub repository (`owner/name`) and a
/// direct download; later links replace earlier ones. `lowered_url` is the
/// link's address in lower case.
pub open spec fn link_step(acc: (Option<Seq<char>>, Option<Seq<char>>), link: AppImageLink, lowered_url: Seq<char>) -> (
    Option<Seq<char>>,
    Option<Seq<char>>,
) {
    let t = link.link_type@;
    let u = link.url@;
    if eq_ignore_ascii_case(t, "GitHub"@) {
        (Some(u), acc.1)
    } else if eq_ignore_ascii_case(t, "Download"@) {
        if appimage_ext(lowered_url) {
            (acc.0, Some(u))
        } else if contains(u, "github.com"@) && contains(u, "/releases"@) {
            let p = split_char(u, '/');
            if p.len() >= 5 {
                (Some(p[3] + "/"@ + p[4]), acc.1)
            } else {
                acc
            }
        } else {
            acc
        }
    } else {
        acc
    }
}

pub open spec fn links_fold(links: Seq<AppImageLink>, lowered: Seq<Seq<char>>) -> (Option<Seq<char>>, Option<Seq<char>>)
    decreases links.len(),
{
    if links.len() == 0 {
        (None, None)
    } else {
        link_step(
            links_fold(links.drop_last(), lowered.take(links.len() - 1)),
            links.last(),
            lowered[links.len() - 1],
        )
    }
}

/// The links of an entry (none when it has no list).
pub open spec fn item_links(item: AppImageItem) -> Seq<AppImageLink> {
    match item.links {
        Some(v) => v@,
        None => Seq::empty(),
    }
}

/// The GitHub repository and direct download of a catalogue entry, given
/// its links' addresses in lower case.
pub open spec fn item_sources_in(item: AppImageItem, lowered_urls: Seq<Seq<char>>) -> (Option<Seq<char>>, Option<Seq<char>>) {
    links_fold(item_links(item), lowered_urls)
}

/// The addresses of links in lower case.
pub open spec fn lowered_urls(links: Seq<AppImageLink>) -> Seq<Seq<char>> {
    links.map_values(|l: AppImageLink| lowercase(l.url@))
}

/// `item_sources_in` with the addresses lowered by `str::to_lowercase`.
pub open spec fn item_sources(item: AppImageItem) -> (Option<Seq<char>>, Option<Seq<char>>) {
    item_sources_in(item, lowered_urls(item_links(item)))
}

/// A release file, by its name in lower case, for the machine: an AppImage
/// whose name mentions the machine's architecture (`x86_64`/`amd64`, or `aarch64`/`arm64`).
pub open spec fn asset_for_arch(arch: Seq<char>) -> spec_fn(Seq<char>) -> bool {
    |l: Seq<char>|
        appimage_ext(l) && ((arch == "x86_64"@ && (contains(l, "x86_64"@) || contains(l, "amd64"@))) || (
        arch == "aarch64"@ && (contains(l, "aarch64"@) || contains(l, "arm64"@))))
}

/// Any AppImage file of a release, by its name in lower case.
pub open spec fn asset_any() -> spec_fn(Seq<char>) -> bool {
    |l: Seq<char>| appimage_ext(l)
}

/// The download of a release for the machine `arch`, given the files' names
/// in lower case: the first AppImage for its architecture, or else the first AppImage.
pub open spec fn release_download_in(assets: Seq<GitHubAsset>, lowered: Seq<Seq<char>>, arch: Seq<char>) -> Option<Seq<char>> {
    match first_from(lowered, asset_for_arch(arch), 0) {
        Some(i) => Some(assets[i].browser_download_url@),
        None => match first_from(lowered, asset_any(), 0) {
            Some(i) => Some(assets[i].browser_download_url@),
            None => None,
        },
    }
}

/// The names of release files in lower case.
pub open spec fn lowered_assets(assets: Seq<GitHubAsset>) -> Seq<Seq<char>> {
    assets.map_values(|a: GitHubAsset| lowercase(a.name@))
}

/// `release_download_in` with the names lowered by `str::to_lowercase`.
pub open spec fn release_download(assets: Seq<GitHubAsset>, arch: Seq<char>) -> Option<Seq<char>> {
    release_download_in(assets, lowered_assets(assets), arch)
}

/// The error when neither the release nor the catalogue gives a download.
pub open spec fn no_download_message(package: Seq<char>) -> Seq<char> {
    "Não foi possível encontrar um link de download de AppImage direto ou no GitHub para '"@
        + package + "'."@
}

/// The download chosen: the release's, else the catalogue's direct link.
pub open spec fn chosen_download(from_release: Option<Seq<char>>, direct: Option<Seq<char>>, package: Seq<char>) -> Result<Seq<char>, Seq<char>> {
    match from_release {
        Some(u) => Ok(u),
        None => match direct {
            Some(u) => Ok(u),
            None => Err(no_download_message(package)),
        },
    }
}

// ---------------------------------------------------------------------------
// Code
// ---------------------------------------------------------------------------

fn strip_suffix_slice<'a>(s: &'a [char], p: &str) -> (r: Option<&'a [char]>)
    ensures
        r matches Some(x) ==> strip_suffix(s@, p@) == Some(x@),
        r is None ==> strip_suffix(s@, p@) is None,
{
    let pv = chars_of(p);
    if ends_with_slice(s, pv.as_slice()) {
        Some(vstd::slice::slice_subrange(s, 0, s.len() - pv.len()))
    } else {
        None
    }
}

fn without_appimage_ext_slice(f: &[char]) -> (r: &[char])
    ensures
        r@ == without_appimage_ext(f@),
{
    match strip_suffix_slice(f, ".AppImage") {
        Some(x) => x,
        None => match strip_suffix_slice(f, ".appimage") {
            Some(x) => x,
            None => f,
        },
    }
}

fn package_base_slice(p: &[char]) -> (r: &[char])
    ensures
        r@ == package_base(p@),
{
    match strip_suffix_slice(p, ".appimage") {
        Some(x) => x,
        None => match strip_suffix_slice(p, ".AppImage") {
            Some(x) => x,
            None => p,
        },
    }
}

fn arch_markers_vec() -> (r: Vec<Vec<char>>)
    ensures
        views(r@) == arch_markers(),
{
    let mut r: Vec<Vec<char>> = Vec::new();
    r.push(chars_of("-x86_64"));
    r.push(chars_of("_x86_64"));
    r.push(chars_of("-i386"));
    r.push(chars_of("-i686"));
    r.push(chars_of("-aarch64"));
    r.push(chars_of("-armhf"));
    r.push(chars_of("-arm64"));
    assert(views(r@) =~= arch_markers());
    r
}

fn char_bytes_exec(c: char) -> (r: u128)
    ensures
        r == char_bytes(c),
        1 <= r <= 4,
{
    let u = c as u32;
    if u < 0x80 {
        1
    } else if u < 0x800 {
        2
    } else if u < 0x10000 {
        3
    } else {
        4
    }
}

/// The UTF-8 length of the first `n` characters of `s`.
fn prefix_bytes(s: &[char], n: usize) -> (r: u128)
    requires
        n <= s@.len(),
    ensures
        r == byte_len(s@.take(n as int)),
        r <= 4 * n,
{
    let mut acc: u128 = 0;
    let mut i: usize = 0;
    assert(s@.take(0) =~= Seq::<char>::empty());
    while i < n
        invariant
            i <= n <= s@.len(),
            acc == byte_len(s@.take(i as int)),
            acc <= 4 * i,
        decreases n - i,
    {
        let c = char_bytes_exec(s[i]);
        assert(s@.take(i + 1).drop_last() =~= s@.take(i as int));
        assert(s@.take(i + 1).last() == s@[i as int]);
        acc = acc + c;
        i = i + 1;
    }
    acc
}

/// `boundary_from(s, b, 0)` in code.
fn char_boundary(s: &[char], b: u128) -> (r: Option<usize>)
    ensures
        r matches Some(k) ==> boundary_from(s@, b as nat, 0) == Some(k as nat) && k <= s@.len(),
        r is None ==> boundary_from(s@, b as nat, 0) is None,
{
    let mut k: usize = 0;
    let mut acc: u128 = 0;
    assert(s@.take(0) =~= Seq::<char>::empty());
    loop
        invariant
            k <= s@.len(),
            acc == byte_len(s@.take(k as int)),
            acc <= 4 * k,
            boundary_from(s@, b as nat, 0) == boundary_from(s@, b as nat, k as nat),
        decreases s@.len() - k,
    {
        if acc == b {
            return Some(k);
        }
        if acc > b || k == s.len() {
            return None;
        }
        let c = char_bytes_exec(s[k]);
        assert(s@.take(k + 1).drop_last() =~= s@.take(k as int));
        assert(s@.take(k + 1).last() == s@[k as int]);
        acc = acc + c;
        k = k + 1;
    }
}

/// `arch_cut(lower, name, arch_markers())` in code: the length of the cut name.
fn arch_cut_exec(lower: &[char], name: &[char]) -> (r: Option<usize>)
    ensures
        r matches Some(n) ==> n <= name@.len() && arch_cut(lower@, name@, arch_markers()) == Some(
            name@.take(n as int),
        ),
        r is None ==> arch_cut(lower@, name@, arch_markers()) is None,
{
    let markers = arch_markers_vec();
    let ghost ms = views(markers@);
    let mut cur = name.len();
    let mut k: usize = 0;
    assert(ms.skip(0) =~= ms);
    assert(name@.take(name@.len() as int) =~= name@);
    while k < markers.len()
        invariant
            k <= ms.len(),
            ms == views(markers@),
            ms == arch_markers(),
            cur <= name@.len(),
            arch_cut(lower@, name@, arch_markers()) == arch_cut(lower@, name@.take(cur as int), ms.skip(k as int)),
        decreases ms.len() - k,
    {
        assert(ms.skip(k as int)[0] == markers@[k as int]@);
        assert(ms.skip(k as int).drop_first() =~= ms.skip(k + 1));
        proof {
            lemma_find_bounds(lower@, markers@[k as int]@, 0);
        }
        match find_slice(lower, markers[k].as_slice()) {
            Some(ci) => {
                let b = prefix_bytes(lower, ci);
                let head = vstd::slice::slice_subrange(name, 0, cur);
                assert(head@ =~= name@.take(cur as int));
                match char_boundary(head, b) {
                    Some(kk) => {
                        assert(name@.take(cur as int).take(kk as int) =~= name@.take(kk as int));
                        cur = kk;
                    },
                    None => {
                        return None;
                    },
                }
            },
            None => {},
        }
        k = k + 1;
    }
    assert(ms.skip(ms.len() as int) =~= Seq::<Seq<char>>::empty());
    Some(cur)
}

fn without_version_slice(name: &[char]) -> (r: &[char])
    ensures
        r@ == without_version(name@),
{
    proof {
        crate::parse::lemma_rfind_bounds_pub(name@, '-');
    }
    match rfind_char_slice(name, '-') {
        Some(h) => {
            assert(name@.len() == name.len());
            let suf = vstd::slice::slice_subrange(name, h + 1, name.len());
            let digit_first = suf.len() > 0 && '0' <= suf[0] && suf[0] <= '9';
            let v_digit = suf.len() > 1 && suf[0] == 'v' && '0' <= suf[1] && suf[1] <= '9';
            if digit_first || v_digit {
                vstd::slice::slice_subrange(name, 0, h)
            } else {
                name
            }
        },
        None => name,
    }
}

/// `short_name` in code.
fn short_slice<'a>(name: &'a [char], lower: &[char]) -> (r: Option<&'a [char]>)
    ensures
        r matches Some(s) ==> short_name(name@, lower@) == Some(s@),
        r is None ==> short_name(name@, lower@) is None,
{
    match arch_cut_exec(lower, name) {
        Some(n) => {
            let cut = vstd::slice::slice_subrange(name, 0, n);
            assert(cut@ =~= name@.take(n as int));
            Some(without_version_slice(cut))
        },
        None => None,
    }
}

/// `capitalized` in code.
fn capitalize(short: &[char]) -> (r: String)
    ensures
        r@ == capitalized(short@),
{
    if short.len() == 0 {
        String::new()
    } else {
        let mut s = char_to_uppercase(short[0]);
        let rest = string_of(vstd::slice::slice_subrange(short, 1, short.len()));
        s.append(rest.as_str());
        assert(short@.drop_first() =~= short@.subrange(1, short@.len() as int));
        s
    }
}

/// The application name of a file, when it can be shortened.
fn sanitize_checked(filename: &str) -> (r: Option<String>)
    ensures
        sanitizable(filename@) ==> (r matches Some(s) && s@ == sanitized_name(filename@)),
        !sanitizable(filename@) ==> r is None,
{
    let f = chars_of(filename);
    let name = without_appimage_ext_slice(f.as_slice());
    let name_s = string_of(name);
    let lower = to_lowercase(name_s.as_str());
    let lv = chars_of(lower.as_str());
    match short_slice(name, lv.as_slice()) {
        Some(short) => Some(capitalize(short)),
        None => None,
    }
}

fn split_last_piece(url: &[char]) -> (r: Vec<char>)
    ensures
        r@ == split_char(url@, '/').last(),
{
    let mut parts = split_char_slice(url, '/');
    proof {
        lemma_split_char_nonempty(url@, '/');
    }
    let last = parts.pop().unwrap();
    last
}

fn has_appimage_ext_slice(lowered: &[char]) -> (b: bool)
    ensures
        b == appimage_ext(lowered@),
{
    let ext = chars_of(".appimage");
    ends_with_slice(lowered, ext.as_slice())
}

fn catalog_key_string(p: &str) -> (r: String)
    ensures
        r@ == catalog_key(p@),
{
    let pv = chars_of(p);
    let base = string_of(package_base_slice(pv.as_slice()));
    to_lowercase(base.as_str())
}

/// `close_name` in code.
fn close_name_exec(key: &str, lower: &str) -> (b: bool)
    ensures
        b == close_name(key@, lower@),
{
    let lv = chars_of(lower);
    let kv = chars_of(key);
    if contains_slice(lv.as_slice(), kv.as_slice()) {
        return true;
    }
    let kb = key.len();
    let lb = lower.len();
    kb >= 3 && lb >= 3 && levenshtein(key, lower) <= 2
}

fn link_step_exec(
    acc: (Option<String>, Option<String>),
    link: &AppImageLink,
    lowered_url: &str,
) -> (r: (Option<String>, Option<String>))
    ensures
        (r.0.deep_view(), r.1.deep_view()) == link_step(
            (acc.0.deep_view(), acc.1.deep_view()),
            *link,
            lowered_url@,
        ),
{
    let t = chars_of(link.link_type.as_str());
    let u = chars_of(link.url.as_str());
    let lu = chars_of(lowered_url);
    let gh = chars_of("GitHub");
    let dl = chars_of("Download");
    if eq_ignore_ascii_case_slice(t.as_slice(), gh.as_slice()) {
        (Some(link.url.clone()), acc.1)
    } else if eq_ignore_ascii_case_slice(t.as_slice(), dl.as_slice()) {
        if has_appimage_ext_slice(lu.as_slice()) {
            (acc.0, Some(link.url.clone()))
        } else {
            let ghc = chars_of("github.com");
            let rel = chars_of("/releases");
            if contains_slice(u.as_slice(), ghc.as_slice()) && contains_slice(u.as_slice(), rel.as_slice()) {
                let p = split_char_slice(u.as_slice(), '/');
                if p.len() >= 5 {
                    let mut repo = string_of(p[3].as_slice());
                    repo.append("/");
                    repo.append(string_of(p[4].as_slice()).as_str());
                    (Some(repo), acc.1)
                } else {
                    acc
                }
            } else {
                acc
            }
        }
    } else {
        acc
    }
}

fn asset_for_arch_exec(lowered: &str, arch: &str) -> (b: bool)
    ensures
        b == asset_for_arch(arch@)(lowered@),
{
    let lv = chars_of(lowered);
    let av = chars_of(arch);
    let x86 = chars_of("x86_64");
    let amd = chars_of("amd64");
    let aa = chars_of("aarch64");
    let arm = chars_of("arm64");
    let is_x86 = eq_slice(av.as_slice(), x86.as_slice());
    let is_arm = eq_slice(av.as_slice(), aa.as_slice());
    has_appimage_ext_slice(lv.as_slice()) && ((is_x86 && (contains_slice(lv.as_slice(), x86.as_slice())
        || contains_slice(lv.as_slice(), amd.as_slice()))) || (is_arm && (contains_slice(
        lv.as_slice(),
        aa.as_slice(),
    ) || contains_slice(lv.as_slice(), arm.as_slice()))))
}

impl AppImageBackend {
    /// The backend.
    pub fn new() -> (b: Self) {
        AppImageBackend
    }

    /// A file name without its `.AppImage` (or else `.appimage`) extension.
    pub fn strip_appimage_ext(&self, filename: &str) -> (r: String)
        ensures
            r@ == without_appimage_ext(filename@),
    {
        let f = chars_of(filename);
        string_of(without_appimage_ext_slice(f.as_slice()))
    }

    /// The application part of `name` (a file name without its extension),
    /// given its lower case `lowered`; none when a cut cannot be made.
    pub fn shorten_app_name(&self, name: &str, lowered: &str) -> (r: Option<String>)
        ensures
            r.deep_view() == short_name(name@, lowered@),
    {
        let nv = chars_of(name);
        let lv = chars_of(lowered);
        match short_slice(nv.as_slice(), lv.as_slice()) {
            Some(s) => Some(string_of(s)),
            None => None,
        }
    }

    /// `sanitize_app_name` can shorten this file name.
    pub fn can_sanitize(&self, filename: &str) -> (b: bool)
        ensures
            b == sanitizable(filename@),
    {
        sanitize_checked(filename).is_some()
    }

    /// The application name shown for an AppImage file.
    pub fn sanitize_app_name(&self, filename: &str) -> (r: String)
        requires
            sanitizable(filename@),
        ensures
            r@ == sanitized_name(filename@),
    {
        match sanitize_checked(filename) {
            Some(s) => s,
            None => String::new(),
        }
    }

    /// The application name shown for an AppImage file, or nothing when the
    /// file name cannot be shortened.
    pub fn try_sanitize_app_name(&self, filename: &str) -> (r: Option<String>)
        ensures
            sanitizable(filename@) ==> (r matches Some(s) && s@ == sanitized_name(filename@)),
            !sanitizable(filename@) ==> r is None,
    {
        if self.can_sanitize(filename) {
            Some(self.sanitize_app_name(filename))
        } else {
            None
        }
    }

    /// The file name of the shortcuts of an application whose name in lower case is `lowered`.
    pub fn shortcut_for_lowered(&self, lowered: &str) -> (r: String)
        ensures
            r@ == shortcut_name(lowered@),
    {
        let mut s = "yroz-".to_owned();
        s.append(lowered);
        s.append(".desktop");
        s
    }

    /// The file name of an application's shortcuts.
    pub fn shortcut_file_name(&self, app_name: &str) -> (r: String)
        ensures
            r@ == shortcut_file_name(app_name@),
    {
        let lowered = to_lowercase(app_name);
        self.shortcut_for_lowered(lowered.as_str())
    }

    /// The content of an application's `.desktop` shortcut.
    pub fn desktop_entry(&self, app_name: &str, exec_path: &str) -> (r: String)
        ensures
            r@ == desktop_entry(app_name@, exec_path@),
    {
        let mut s = "[Desktop Entry]\nType=Application\nName=".to_owned();
        s.append(app_name);
        s.append("\nExec=");
        s.append(exec_path);
        s.append("\nIcon=utilities-terminal\nTerminal=false\nCategories=Utility;\n");
        s
    }

    /// The desktop folders named by a `user-dirs.dirs` content, in order.
    pub fn xdg_desktop_dirs(&self, content: &str, home: &str) -> (r: Vec<String>)
        ensures
            r.deep_view() == xdg_desktop_dirs(content@, home@),
    {
        let ls = lines_of(content);
        let key = chars_of("XDG_DESKTOP_DIR=");
        let quote = chars_of("\"");
        let var = chars_of("$HOME");
        let hv = chars_of(home);
        proof {
            reveal_strlit("$HOME");
        }
        let mut res: Vec<String> = Vec::new();
        let mut i: usize = 0;
        while i < ls.len()
            invariant
                i <= ls@.len(),
                views(ls@) == lines(content@),
                key@ == "XDG_DESKTOP_DIR="@,
                quote@ == "\""@,
                var@ == "$HOME"@,
                var@.len() > 0,
                hv@ == home@,
                res.deep_view() == views(ls@).take(i as int).filter_map(xdg_desktop_item(home@)),
            decreases ls@.len() - i,
        {
            proof {
                lemma_filter_map_step(views(ls@), xdg_desktop_item(home@), i as int);
            }
            let ghost before = res.deep_view();
            let l = ls[i].as_slice();
            if starts_with_slice(l, key.as_slice()) {
                let v = vstd::slice::slice_subrange(l, key.len(), l.len());
                let t = trim_matching_slice(v, quote.as_slice());
                let r = replace_all_slice(t, var.as_slice(), hv.as_slice());
                res.push(string_of(r.as_slice()));
                assert(res.deep_view() =~= before.push(r@));
            }
            i = i + 1;
        }
        proof {
            lemma_take_all(views(ls@));
        }
        res
    }

    /// The folders of the home directory tried, in order, as the desktop.
    pub fn desktop_fallbacks(&self) -> (r: Vec<&'static str>)
        ensures
            r@.map_values(|f: &'static str| f@) == desktop_fallbacks(),
    {
        let r: Vec<&'static str> = vec!["Desktop", "Área de Trabalho", "Escritorio", "Bureau", "Schreibtisch"];
        assert(r@.map_values(|f: &'static str| f@) =~= desktop_fallbacks());
        r
    }

    /// A package argument that is already a download address.
    pub fn is_url(&self, package: &str) -> (b: bool)
        ensures
            b == is_url(package@),
    {
        let p = chars_of(package);
        let h = chars_of("http://");
        let hs = chars_of("https://");
        starts_with_slice(p.as_slice(), h.as_slice()) || starts_with_slice(p.as_slice(), hs.as_slice())
    }

    /// A name in lower case ends with `.appimage`.
    pub fn has_appimage_ext(&self, lowered: &str) -> (b: bool)
        ensures
            b == appimage_ext(lowered@),
    {
        let l = chars_of(lowered);
        has_appimage_ext_slice(l.as_slice())
    }

    /// The last `/`-separated part of a download address.
    pub fn last_segment(&self, url: &str) -> (r: String)
        ensures
            r@ == last_segment(url@),
    {
        let u = chars_of(url);
        string_of(split_last_piece(u.as_slice()).as_slice())
    }

    /// The file that a download address ending in `segment` (whose lower case
    /// is `lowered`) gives, or the error of `install` when it is no AppImage.
    pub fn downloaded_file(&self, segment: &str, lowered: &str) -> (r: Result<String, String>)
        ensures
            appimage_ext(lowered@) ==> (r matches Ok(s) && s@ == segment@),
            !appimage_ext(lowered@) ==> (r matches Err(m) && m@ == not_appimage_url_message()),
    {
        if self.has_appimage_ext(lowered) {
            Ok(segment.to_owned())
        } else {
            Err("A URL resolvida não aponta para um arquivo .AppImage válido".to_owned())
        }
    }

    /// The file name that a download address gives, or the error of `install`
    /// when it does not name an AppImage.
    pub fn download_file_name(&self, url: &str) -> (r: Result<String, String>)
        ensures
            (match url_file_name(url@) {
                Some(f) => r matches Ok(s) && s@ == f,
                None => r matches Err(m) && m@ == not_appimage_url_message(),
            }),
    {
        let f = self.last_segment(url);
        let lowered = to_lowercase(f.as_str());
        self.downloaded_file(f.as_str(), lowered.as_str())
    }

    /// A file name of `~/Applications` that `list` shows (an AppImage).
    pub fn is_appimage_file(&self, name: &str) -> (b: bool)
        ensures
            b == appimage_ext(lowercase(name@)),
    {
        let lowered = to_lowercase(name);
        self.has_appimage_ext(lowered.as_str())
    }

    /// The file `file` of `~/Applications`, whose application name is
    /// `sanitized`, is the one `package` designates.
    pub fn matches_package(&self, file: &str, sanitized: &str, package: &str) -> (b: bool)
        ensures
            b == file_matches_package(file@, sanitized@, package@),
    {
        let f = chars_of(file);
        let s = chars_of(sanitized);
        let p = chars_of(package);
        let base = package_base_slice(p.as_slice());
        eq_ignore_ascii_case_slice(f.as_slice(), base) || eq_ignore_ascii_case_slice(s.as_slice(), base)
    }

    /// The name under which the catalogue is searched for `package`.
    pub fn catalog_key(&self, package: &str) -> (r: String)
        ensures
            r@ == catalog_key(package@),
    {
        catalog_key_string(package)
    }

    /// The file of `~/Applications`, among the `names` read in order, that
    /// `remove` and `info` settle on for `package` (see `installed_lookup`).
    pub fn find_installed(&self, names: &Vec<String>, package: &str) -> (r: Result<Option<usize>, usize>)
        ensures
            (match installed_lookup(names.deep_view(), package@) {
                Ok(Some(i)) => r matches Ok(Some(j)) && j == i,
                Ok(None) => r matches Ok(None),
                Err(i) => r matches Err(j) && j == i,
            }),
    {
        let ghost nv = names.deep_view();
        let ghost p = stop_or_match(package@);
        let mut i: usize = 0;
        while i < names.len()
            invariant
                i <= nv.len(),
                nv == names.deep_view(),
                p == stop_or_match(package@),
                first_from(nv, p, 0) == first_from(nv, p, i as int),
            decreases nv.len() - i,
        {
            let f = names[i].as_str();
            assert(f@ == nv[i as int]);
            match self.try_sanitize_app_name(f) {
                Some(app) => {
                    if self.matches_package(f, app.as_str(), package) {
                        assert(p(nv[i as int]));
                        return Ok(Some(i));
                    }
                },
                None => {
                    assert(p(nv[i as int]));
                    return Err(i);
                },
            }
            i = i + 1;
        }
        Ok(None)
    }

    /// What `list` shows for the file names of `~/Applications` (see `appimage_listing`).
    pub fn list_entries(&self, names: &Vec<String>) -> (r: Result<Vec<InstalledPackage>, usize>)
        ensures
            (match appimage_listing(names.deep_view()) {
                Ok(v) => r matches Ok(w) && w.deep_view() == v,
                Err(i) => r matches Err(j) && j == i,
            }),
    {
        let ghost nv = names.deep_view();
        let ghost p = unlistable();
        let ghost g = listed_fn();
        let mut out: Vec<InstalledPackage> = Vec::new();
        let mut i: usize = 0;
        while i < names.len()
            invariant
                i <= nv.len(),
                nv == names.deep_view(),
                p == unlistable(),
                g == listed_fn(),
                first_from(nv, p, 0) == first_from(nv, p, i as int),
                out.deep_view() == nv.take(i as int).filter_map(g),
            decreases nv.len() - i,
        {
            let f = names[i].as_str();
            assert(f@ == nv[i as int]);
            proof {
                lemma_filter_map_step(nv, g, i as int);
            }
            let ghost before = out.deep_view();
            if self.is_appimage_file(f) {
                match self.try_sanitize_app_name(f) {
                    Some(app) => {
                        let e = InstalledPackage {
                            name: app,
                            version: "local".to_owned(),
                            backend: "AppImage".to_owned(),
                        };
                        out.push(e);
                        assert(out.deep_view() =~= before.push(e@));
                    },
                    None => {
                        assert(p(nv[i as int]));
                        return Err(i);
                    },
                }
            }
            i = i + 1;
        }
        proof {
            lemma_take_all(nv);
        }
        Ok(out)
    }

    /// The file that `remove package` deletes among the `names` of
    /// `~/Applications`, or its error when there is none.
    pub fn remove_lookup(&self, names: &Vec<String>, package: &str) -> (r: InstalledLookup)
        ensures
            (match installed_lookup(names.deep_view(), package@) {
                Ok(Some(i)) => r matches InstalledLookup::Found(j) && j == i,
                Ok(None) => r matches InstalledLookup::Missing(m) && m@ == missing_for_remove(package@),
                Err(i) => r matches InstalledLookup::Stop(j) && j == i,
            }),
    {
        match self.find_installed(names, package) {
            Ok(Some(i)) => InstalledLookup::Found(i),
            Ok(None) => {
                let mut m = "AppImage '".to_owned();
                m.append(package);
                m.append("' não encontrado em ~/Applications");
                InstalledLookup::Missing(m)
            },
            Err(i) => InstalledLookup::Stop(i),
        }
    }

    /// The file that `info package` reports among the `names` of
    /// `~/Applications`, or its error when there is none.
    pub fn info_lookup(&self, names: &Vec<String>, package: &str) -> (r: InstalledLookup)
        ensures
            (match installed_lookup(names.deep_view(), package@) {
                Ok(Some(i)) => r matches InstalledLookup::Found(j) && j == i,
                Ok(None) => r matches InstalledLookup::Missing(m) && m@ == missing_for_info(package@),
                Err(i) => r matches InstalledLookup::Stop(j) && j == i,
            }),
    {
        match self.find_installed(names, package) {
            Ok(Some(i)) => InstalledLookup::Found(i),
            Ok(None) => {
                let mut m = "AppImage '".to_owned();
                m.append(package);
                m.append("' não está instalado.");
                InstalledLookup::Missing(m)
            },
            Err(i) => InstalledLookup::Stop(i),
        }
    }

    /// The close names of a catalogue search, joined with `, `.
    pub fn suggestion_list(&self, names: &Vec<String>) -> (r: String)
        ensures
            r@ == join(names.deep_view(), ", "@),
    {
        let mut parts: Vec<Vec<char>> = Vec::new();
        let mut i: usize = 0;
        while i < names.len()
            invariant
                i <= names@.len(),
                views(parts@) == names.deep_view().take(i as int),
            decreases names@.len() - i,
        {
            let ghost before = views(parts@);
            let v = chars_of(names[i].as_str());
            parts.push(v);
            assert(views(parts@) =~= before.push(names@[i as int]@));
            assert(names.deep_view().take(i + 1) =~= names.deep_view().take(i as int).push(names@[i as int]@));
            i = i + 1;
        }
        assert(names.deep_view().take(names@.len() as int) =~= names.deep_view());
        let sep = chars_of(", ");
        let r = join_slices(&parts, 0, parts.len(), sep.as_slice());
        assert(views(parts@).subrange(0, parts@.len() as int) =~= views(parts@));
        string_of(r.as_slice())
    }

    /// The error of the catalogue search for `package` when no entry has the
    /// name, given the close names (`suggestions`) and how their list is
    /// written out (`shown`: `suggestion_list(suggestions)`, in bold).
    pub fn catalog_miss_message(&self, package: &str, suggestions: &Vec<String>, shown: &str) -> (r: String)
        ensures
            r@ == catalog_miss(package@, suggestions@.len() > 0, shown@),
    {
        let mut m = "AppImage '".to_owned();
        m.append(package);
        if suggestions.len() > 0 {
            m.append("' não foi encontrado no catálogo. Você quis dizer: ");
            m.append(shown);
            m.append("?");
        } else {
            m.append("' não foi encontrado no catálogo.");
        }
        m
    }

    /// What `info` reports of the installed AppImage whose application name
    /// is `app_name`, kept at the path written `path`, of `bytes` bytes.
    pub fn installed_info(&self, app_name: &str, path: &str, bytes: u64) -> (r: PackageInfo)
        ensures
            r@ == installed_info(app_name@, path@, bytes as nat),
    {
        let mut description = "Local AppImage salvo em: ".to_owned();
        description.append(path);
        PackageInfo {
            name: app_name.to_owned(),
            version: "AppImage local".to_owned(),
            description,
            backend: "AppImage".to_owned(),
            homepage: None,
            size: Some(mb_string(bytes)),
            installed: true,
        }
    }

    /// The catalogue entry named `key` (its position), or else the names of
    /// the entries close to it, given the entries' names in lower case.
    pub fn catalog_lookup_lowered(&self, feed: &AppImageFeed, lowered: &Vec<String>, key: &str) -> (r: Result<usize, Vec<String>>)
        requires
            lowered@.len() == feed.items@.len(),
        ensures
            (match catalog_lookup_in(feed.items@, lowered.deep_view(), key@) {
                Ok(i) => r matches Ok(j) && j == i,
                Err(names) => r matches Err(v) && v.deep_view() == names,
            }),
    {
        let items = &feed.items;
        let ghost lv = lowered.deep_view();
        let ghost f = name_is(key@);
        let kv = chars_of(key);
        let mut i: usize = 0;
        while i < lowered.len()
            invariant
                i <= lv.len(),
                lv == lowered.deep_view(),
                f == name_is(key@),
                kv@ == key@,
                first_from(lv, f, 0) == first_from(lv, f, i as int),
            decreases lv.len() - i,
        {
            let l = chars_of(lowered[i].as_str());
            if eq_slice(l.as_slice(), kv.as_slice()) {
                assert(f(lv[i as int]));
                return Ok(i);
            }
            i = i + 1;
        }
        let ghost entries = named_entries(items@, lv);
        let ghost g = suggestion_fn(key@);
        let mut names: Vec<String> = Vec::new();
        let mut j: usize = 0;
        while j < items.len()
            invariant
                j <= items@.len(),
                items@ == feed.items@,
                lowered@.len() == items@.len(),
                lv == lowered.deep_view(),
                entries == named_entries(items@, lv),
                g == suggestion_fn(key@),
                names.deep_view() == entries.take(j as int).filter_map(g),
            decreases items@.len() - j,
        {
            proof {
                lemma_filter_map_step(entries, g, j as int);
            }
            assert(entries[j as int] == (items@[j as int].name@, lv[j as int]));
            let ghost before = names.deep_view();
            if close_name_exec(key, lowered[j].as_str()) {
                names.push(items[j].name.clone());
                assert(names.deep_view() =~= before.push(items@[j as int].name@));
            }
            j = j + 1;
        }
        proof {
            lemma_take_all(entries);
        }
        Err(names)
    }

    /// The catalogue entry named `key` (its position), or else the names of
    /// the entries close to it.
    pub fn catalog_lookup(&self, feed: &AppImageFeed, key: &str) -> (r: Result<usize, Vec<String>>)
        ensures
            (match catalog_lookup(feed.items@, key@) {
                Ok(i) => r matches Ok(j) && j == i,
                Err(names) => r matches Err(v) && v.deep_view() == names,
            }),
    {
        let items = &feed.items;
        let mut lowered: Vec<String> = Vec::new();
        let mut i: usize = 0;
        while i < items.len()
            invariant
                i <= items@.len(),
                lowered.deep_view() == lowered_names(items@).take(i as int),
            decreases items@.len() - i,
        {
            let l = to_lowercase(items[i].name.as_str());
            let ghost before = lowered.deep_view();
            lowered.push(l);
            assert(lowered_names(items@).take(i + 1) =~= lowered_names(items@).take(i as int).push(
                lowercase(items@[i as int].name@),
            ));
            assert(lowered.deep_view() =~= before.push(lowercase(items@[i as int].name@)));
            i = i + 1;
        }
        proof {
            lemma_take_all(lowered_names(items@));
        }
        self.catalog_lookup_lowered(feed, &lowered, key)
    }

    /// The GitHub repository and direct download of a catalogue entry, given
    /// its links' addresses in lower case.
    pub fn item_sources_lowered(&self, item: &AppImageItem, lowered: &Vec<String>) -> (r: (Option<String>, Option<String>))
        requires
            lowered@.len() == item_links(*item).len(),
        ensures
            (r.0.deep_view(), r.1.deep_view()) == item_sources_in(*item, lowered.deep_view()),
    {
        let ghost lv = lowered.deep_view();
        match &item.links {
            Some(links) => {
                let mut acc: (Option<String>, Option<String>) = (None, None);
                let mut i: usize = 0;
                while i < links.len()
                    invariant
                        i <= links@.len(),
                        lowered@.len() == links@.len(),
                        lv == lowered.deep_view(),
                        (acc.0.deep_view(), acc.1.deep_view()) == links_fold(
                            links@.take(i as int),
                            lv.take(i as int),
                        ),
                    decreases links@.len() - i,
                {
                    assert(links@.take(i + 1).drop_last() =~= links@.take(i as int));
                    assert(lv.take(i + 1).take(i as int) =~= lv.take(i as int));
                    acc = link_step_exec(acc, &links[i], lowered[i].as_str());
                    i = i + 1;
                }
                proof {
                    lemma_take_all(links@);
                    lemma_take_all(lv);
                }
                acc
            },
            None => (None, None),
        }
    }

    /// The GitHub repository and direct download of a catalogue entry.
    pub fn item_sources(&self, item: &AppImageItem) -> (r: (Option<String>, Option<String>))
        ensures
            (r.0.deep_view(), r.1.deep_view()) == item_sources(*item),
    {
        let mut lowered: Vec<String> = Vec::new();
        match &item.links {
            Some(links) => {
                let mut i: usize = 0;
                while i < links.len()
                    invariant
                        i <= links@.len(),
                        item_links(*item) == links@,
                        lowered.deep_view() == lowered_urls(links@).take(i as int),
                    decreases links@.len() - i,
                {
                    let l = to_lowercase(links[i].url.as_str());
                    let ghost before = lowered.deep_view();
                    lowered.push(l);
                    assert(lowered_urls(links@).take(i + 1) =~= lowered_urls(links@).take(i as int).push(
                        lowercase(links@[i as int].url@),
                    ));
                    assert(lowered.deep_view() =~= before.push(lowercase(links@[i as int].url@)));
                    i = i + 1;
                }
                proof {
                    lemma_take_all(lowered_urls(links@));
                }
            },
            None => {
                assert(lowered.deep_view() =~= lowered_urls(item_links(*item)));
            },
        }
        self.item_sources_lowered(item, &lowered)
    }

    /// The download of a release for the machine `arch`, given the files'
    /// names in lower case.
    pub fn release_download_lowered(&self, release: &GitHubRelease, lowered: &Vec<String>, arch: &str) -> (r: Option<String>)
        requires
            lowered@.len() == release.assets@.len(),
        ensures
            r.deep_view() == release_download_in(release.assets@, lowered.deep_view(), arch@),
    {
        let assets = &release.assets;
        let ghost lv = lowered.deep_view();
        let ghost f = asset_for_arch(arch@);
        let mut i: usize = 0;
        while i < lowered.len()
            invariant
                i <= lv.len(),
                lv == lowered.deep_view(),
                lv.len() == assets@.len(),
                assets@ == release.assets@,
                f == asset_for_arch(arch@),
                first_from(lv, f, 0) == first_from(lv, f, i as int),
            decreases lv.len() - i,
        {
            if asset_for_arch_exec(lowered[i].as_str(), arch) {
                assert(f(lv[i as int]));
                return Some(assets[i].browser_download_url.clone());
            }
            i = i + 1;
        }
        let ghost g = asset_any();
        let mut j: usize = 0;
        while j < lowered.len()
            invariant
                j <= lv.len(),
                lv == lowered.deep_view(),
                lv.len() == assets@.len(),
                assets@ == release.assets@,
                first_from(lv, f, 0) is None,
                f == asset_for_arch(arch@),
                g == asset_any(),
                first_from(lv, g, 0) == first_from(lv, g, j as int),
            decreases lv.len() - j,
        {
            if self.has_appimage_ext(lowered[j].as_str()) {
                assert(g(lv[j as int]));
                return Some(assets[j].browser_download_url.clone());
            }
            j = j + 1;
        }
        None
    }

    /// The download of a release for the machine `arch`.
    pub fn release_download(&self, release: &GitHubRelease, arch: &str) -> (r: Option<String>)
        ensures
            r.deep_view() == release_download(release.assets@, arch@),
    {
        let assets = &release.assets;
        let mut lowered: Vec<String> = Vec::new();
        let mut i: usize = 0;
        while i < assets.len()
            invariant
                i <= assets@.len(),
                lowered.deep_view() == lowered_assets(assets@).take(i as int),
            decreases assets@.len() - i,
        {
            let l = to_lowercase(assets[i].name.as_str());
            let ghost before = lowered.deep_view();
            lowered.push(l);
            assert(lowered_assets(assets@).take(i + 1) =~= lowered_assets(assets@).take(i as int).push(
                lowercase(assets@[i as int].name@),
            ));
            assert(lowered.deep_view() =~= before.push(lowercase(assets@[i as int].name@)));
            i = i + 1;
        }
        proof {
            lemma_take_all(lowered_assets(assets@));
        }
        self.release_download_lowered(release, &lowered, arch)
    }

    /// The download chosen for `package`: the release's, else the
    /// catalogue's direct link, else an error.
    pub fn chosen_download(
        &self,
        from_release: Option<String>,
        direct: Option<String>,
        package: &str,
    ) -> (r: Result<String, String>)
        ensures
            (match chosen_download(from_release.deep_view(), direct.deep_view(), package@) {
                Ok(u) => r matches Ok(s) && s@ == u,
                Err(m) => r matches Err(e) && e@ == m,
            }),
    {
        match from_release {
            Some(u) => Ok(u),
            None => match direct {
                Some(u) => Ok(u),
                None => {
                    let mut m = "Não foi possível encontrar um link de download de AppImage direto ou no GitHub para '".to_owned();
                    m.append(package);
                    m.append("'.");
                    Err(m)
                },
            },
        }
    }
}

impl PackageManagerBackend for AppImageBackend {
    fn name(&self) -> (n: &'static str)
        ensures
            n@ == "AppImage"@,
    {
        "AppImage"
    }
}

/// Law: `remove` and `info` find an installed AppImage by the application
/// name that `list` shows for it: looking that name up settles on that file
/// or on an earlier one that the name designates too. This holds when every
/// file name can be shortened and the name shown does not itself end in an
/// AppImage extension (which the lookup strips).
pub proof fn law_listed_name_finds_file(names: Seq<Seq<char>>, i: int)
    requires
        0 <= i < names.len(),
        forall|k: int| 0 <= k < names.len() ==> sanitizable(#[trigger] names[k]),
        strip_suffix(sanitized_name(names[i]), ".appimage"@) is None,
        strip_suffix(sanitized_name(names[i]), ".AppImage"@) is None,
    ensures
        installed_lookup(names, sanitized_name(names[i])) matches Ok(Some(j)) && 0 <= j <= i,
{
    let app = sanitized_name(names[i]);
    assert(package_base(app) == app);
    assert(file_matches_package(names[i], sanitized_name(names[i]), app));
    let p = stop_or_match(app);
    assert(p(names[i]));
    lemma_first_from_reaches(names, p, 0, i);
    let j = first_from(names, p, 0)->0;
    assert(sanitizable(names[j]));
}

/// Law: the release file chosen is always an AppImage (its name, in lower
/// case, ends with `.appimage`); none is chosen only when the release has
/// no AppImage; and for an `x86_64` machine, when some AppImage names
/// `x86_64`, the one chosen is an AppImage that names `x86_64` or `amd64`,
/// no later in the list.
pub proof fn law_release_file_is_appimage(assets: Seq<GitHubAsset>, lowered: Seq<Seq<char>>, arch: Seq<char>)
    requires
        lowered.len() == assets.len(),
    ensures
        (match release_download_in(assets, lowered, arch) {
            Some(u) => exists|i: int|
                0 <= i < assets.len() && assets[i].browser_download_url@ == u && ends_with(
                    lowered[i],
                    ".appimage"@,
                ),
            None => forall|i: int| 0 <= i < lowered.len() ==> !ends_with(#[trigger] lowered[i], ".appimage"@),
        }),
        forall|k: int|
            0 <= k < lowered.len() && arch == "x86_64"@ && ends_with(#[trigger] lowered[k], ".appimage"@)
                && contains(lowered[k], "x86_64"@) ==> exists|i: int|
                0 <= i <= k && release_download_in(assets, lowered, arch) == Some(
                    assets[i].browser_download_url@,
                ) && ends_with(lowered[i], ".appimage"@) && (contains(lowered[i], "x86_64"@) || contains(
                    lowered[i],
                    "amd64"@,
                )),
{
    let f = asset_for_arch(arch);
    let g = asset_any();
    lemma_first_from_first(lowered, f, 0);
    lemma_first_from_first(lowered, g, 0);
    match first_from(lowered, f, 0) {
        Some(i) => {
            assert(f(lowered[i]));
        },
        None => {
            match first_from(lowered, g, 0) {
                Some(i) => {
                    assert(g(lowered[i]));
                },
                None => {
                    assert forall|i: int| 0 <= i < lowered.len() implies !ends_with(#[trigger] lowered[i], ".appimage"@) by {
                        assert(!g(lowered[i]));
                    }
                },
            }
        },
    }
    assert forall|k: int|
        0 <= k < lowered.len() && arch == "x86_64"@ && ends_with(#[trigger] lowered[k], ".appimage"@)
            && contains(lowered[k], "x86_64"@) implies exists|i: int|
            0 <= i <= k && release_download_in(assets, lowered, arch) == Some(assets[i].browser_download_url@)
                && ends_with(lowered[i], ".appimage"@) && (contains(lowered[i], "x86_64"@) || contains(
                lowered[i],
                "amd64"@,
            )) by {
        assert(f(lowered[k]));
        assert(first_from(lowered, f, 0) is Some);
        let i = first_from(lowered, f, 0)->0;
        assert(f(lowered[i]));
        if i > k {
            assert(!f(lowered[k]));
        }
        assert(release_download_in(assets, lowered, arch) == Some(assets[i].browser_download_url@));
        reveal_strlit("x86_64");
        reveal_strlit("aarch64");
        assert("x86_64"@ != "aarch64"@);
        assert(ends_with(lowered[i], ".appimage"@) && (contains(lowered[i], "x86_64"@) || contains(lowered[i], "amd64"@)));
    }
}

/// Law: `release_download` chooses an AppImage of the release: the file
/// chosen has a name that, in lower case, ends with `.appimage`.
pub proof fn law_release_download_is_appimage(assets: Seq<GitHubAsset>, arch: Seq<char>)
    ensures
        release_download(assets, arch) matches Some(u) ==> exists|i: int|
            0 <= i < assets.len() && assets[i].browser_download_url@ == u && ends_with(
                lowercase(assets[i].name@),
                ".appimage"@,
            ),
{
    let lowered = lowered_assets(assets);
    law_release_file_is_appimage(assets, lowered, arch);
    if let Some(u) = release_download(assets, arch) {
        let i = choose|i: int|
            0 <= i < assets.len() && assets[i].browser_download_url@ == u && ends_with(lowered[i], ".appimage"@);
        assert(lowered[i] == lowercase(assets[i].name@));
    }
}

} // verus!
