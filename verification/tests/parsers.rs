use yroz::backend::apk::ApkBackend;
use yroz::backend::apt::AptBackend;
use yroz::backend::dnf::DnfBackend;
use yroz::backend::eopkg::EopkgBackend;
use yroz::backend::flatpak::FlatpakBackend;
use yroz::backend::nix::NixBackend;
use yroz::backend::portage::PortageBackend;
use yroz::backend::snap::SnapBackend;
use yroz::backend::xbps::XbpsBackend;
use yroz::backend::yay::YayBackend;
use yroz::backend::zypper::ZypperBackend;
use yroz::backend::PackageManagerBackend;
use yroz::types::{InstalledPackage, PackageInfo, SearchResult};

fn hit(r: &SearchResult) -> (&str, &str, &str, &str) {
    (r.name.as_str(), r.description.as_str(), r.version.as_str(), r.backend.as_str())
}

fn pkg(r: &InstalledPackage) -> (&str, &str, &str) {
    (r.name.as_str(), r.version.as_str(), r.backend.as_str())
}

fn info_fields(i: &PackageInfo) -> (&str, &str, &str, &str, Option<&str>, Option<&str>, bool) {
    (
        i.name.as_str(),
        i.version.as_str(),
        i.description.as_str(),
        i.backend.as_str(),
        i.homepage.as_deref(),
        i.size.as_deref(),
        i.installed,
    )
}

#[test]
fn backend_names() {
    assert_eq!(AptBackend::new().name(), "APT");
    assert_eq!(DnfBackend::new().name(), "DNF");
    assert_eq!(ApkBackend::new().name(), "APK");
    assert_eq!(EopkgBackend::new().name(), "eopkg");
    assert_eq!(FlatpakBackend::new().name(), "Flatpak");
    assert_eq!(NixBackend::new().name(), "Nix");
    assert_eq!(PortageBackend::new().name(), "Portage");
    assert_eq!(SnapBackend::new().name(), "Snap");
    assert_eq!(XbpsBackend::new().name(), "XBPS");
    assert_eq!(YayBackend::new().name(), "AUR/yay");
    assert_eq!(ZypperBackend::new().name(), "Zypper");
}

#[test]
fn apt_search_splits_at_first_dash() {
    let out = "vim - Vi IMproved - enhanced vi editor\nvim-tiny - Vi IMproved - compact\nnot a hit\n";
    let r = AptBackend::new().parse_search(out);
    assert_eq!(r.len(), 2);
    assert_eq!(hit(&r[0]), ("vim", "Vi IMproved - enhanced vi editor", "repo", "APT"));
    assert_eq!(hit(&r[1]), ("vim-tiny", "Vi IMproved - compact", "repo", "APT"));
}

#[test]
fn apt_info_reads_first_record() {
    let out = "Package: vim\nVersion: 2:9.0.1378-2\nInstalled-Size: 3700\nHomepage: https://www.vim.org/\nDescription-en: Vi IMproved - enhanced vi editor\n Vim is an almost compatible version\n of the UNIX editor Vi.\nSize: 1699980\n\nPackage: vim\nVersion: 1.0\n";
    let i = AptBackend::new().parse_info("vim", out, true);
    assert_eq!(
        info_fields(&i),
        (
            "vim",
            "2:9.0.1378-2",
            "Vi IMproved - enhanced vi editor\nVim is an almost compatible version\nof the UNIX editor Vi.",
            "APT",
            Some("https://www.vim.org/"),
            Some("1.62 MB"),
            true
        )
    );
}

#[test]
fn apt_info_sizes_and_defaults() {
    let kb = AptBackend::new().parse_info("x", "Size: 2048\n", false);
    assert_eq!(kb.size.as_deref(), Some("2.00 KB"));
    assert_eq!(kb.version, "unknown");
    assert_eq!(kb.description, "");
    assert_eq!(kb.homepage, None);
    let b = AptBackend::new().parse_info("x", "Size: 1024\n", false);
    assert_eq!(b.size.as_deref(), Some("1024 B"));
    let bad = AptBackend::new().parse_info("x", "Size: lots\n", false);
    assert_eq!(bad.size.as_deref(), Some("0 B"));
    let empty = AptBackend::new().parse_info("x", "", false);
    assert_eq!(info_fields(&empty), ("x", "unknown", "", "APT", None, None, false));
}

#[test]
fn apt_list_tab_separated() {
    let r = AptBackend::new().parse_list("vim\t2:9.0\nlibc6\t2.36-9\nbroken\n");
    assert_eq!(r.len(), 2);
    assert_eq!(pkg(&r[0]), ("vim", "2:9.0", "APT"));
    assert_eq!(pkg(&r[1]), ("libc6", "2.36-9", "APT"));
}

#[test]
fn dnf_search_skips_headers_and_cleans_arch() {
    let out = "Last metadata expiration check: 0:01:02 ago.\n======== Name Matched: vim ========\nvim-enhanced.x86_64 : A version of the VIM editor\nvim-common.noarch : The common files\npython3-vim.src : not arch\n\n";
    let r = DnfBackend::new().parse_search(out);
    assert_eq!(r.len(), 3);
    assert_eq!(hit(&r[0]), ("vim-enhanced", "A version of the VIM editor", "repo", "DNF"));
    assert_eq!(hit(&r[1]), ("vim-common", "The common files", "repo", "DNF"));
    assert_eq!(hit(&r[2]), ("python3-vim.src", "not arch", "repo", "DNF"));
}

#[test]
fn dnf_clean_package_name() {
    let d = DnfBackend::new();
    assert_eq!(d.clean_package_name("foo.bar.x86_64"), "foo");
    assert_eq!(d.clean_package_name("kernel.aarch64"), "kernel");
    assert_eq!(d.clean_package_name("a.b"), "a.b");
    assert_eq!(d.clean_package_name("plain"), "plain");
    assert_eq!(d.clean_package_name(&d.clean_package_name("x.y.i686")), "x");
}

#[test]
fn dnf_info_and_list() {
    let out = "Name         : vim-enhanced\nVersion      : 9.0.2120\nRelease      : 1.fc39\nSize         : 1.9 M\nURL          : http://www.vim.org/\nSummary      : A version\nDescription  : VIM (VIsual editor iMproved) is an updated\n             : and improved version.\n";
    let i = DnfBackend::new().parse_info("vim-enhanced", out, false);
    assert_eq!(
        info_fields(&i),
        (
            "vim-enhanced",
            "9.0.2120",
            "VIM (VIsual editor iMproved) is an updated",
            "DNF",
            Some("http://www.vim.org/"),
            Some("1.9 M"),
            false
        )
    );
    let l = DnfBackend::new().parse_list(
        "Installed Packages\nvim-enhanced.x86_64    2:9.0.2120-1.fc39    @updates\nbash.x86_64 5.2.21-1.fc39 @anaconda\nlonely\n\n",
    );
    assert_eq!(l.len(), 2);
    assert_eq!(pkg(&l[0]), ("vim-enhanced", "2:9.0.2120-1.fc39", "DNF"));
    assert_eq!(pkg(&l[1]), ("bash", "5.2.21-1.fc39", "DNF"));
}

#[test]
fn apk_search_info_list() {
    let a = ApkBackend::new();
    let r = a.parse_search("vim-9.0.2127-r0 - Improved vi-style text editor\nbad line\n");
    assert_eq!(r.len(), 1);
    assert_eq!(hit(&r[0]), ("vim-9.0.2127", "Improved vi-style text editor", "r0", "APK"));
    assert_eq!(a.split_name_version("musl-1.2.4-r2"), ("musl-1.2.4".to_string(), "r2".to_string()));
    assert_eq!(a.split_name_version("nodash"), ("nodash".to_string(), "repo".to_string()));
    let l = a.parse_list("musl-1.2.4-r2\n\nbusybox-1.36.1-r15\n");
    assert_eq!(l.len(), 3);
    assert_eq!(pkg(&l[0]), ("musl-1.2.4", "r2", "APK"));
    assert_eq!(pkg(&l[1]), ("", "repo", "APK"));
    assert_eq!(pkg(&l[2]), ("busybox-1.36.1", "r15", "APK"));
    let i = a.parse_info(
        "vim",
        "vim-9.0 description:\nImproved vi-style text editor\n\n",
        Some("vim-9.0 webpage:\nhttps://www.vim.org/\n\n"),
        Some("vim-9.0 installed size:\n3 MiB\n"),
        "vim-9.0.2127-r0 description:\nImproved\n",
        true,
    );
    assert_eq!(
        info_fields(&i),
        (
            "vim",
            "r0 description:",
            "Improved vi-style text editor",
            "APK",
            Some("https://www.vim.org/"),
            Some("3 MiB"),
            true
        )
    );
    let none = a.parse_info("vim", "", None, None, "", false);
    assert_eq!(info_fields(&none), ("vim", "repo", "", "APK", None, None, false));
}

#[test]
fn search_outcomes_swallow_failures() {
    let ok = ApkBackend::new().search_outcome(Ok("a-1 - x\n".to_string())).unwrap();
    assert_eq!(ok.len(), 1);
    assert!(ApkBackend::new().search_outcome(Err("boom".to_string())).unwrap().is_empty());
    assert!(XbpsBackend::new().search_outcome(Err("boom".to_string())).unwrap().is_empty());
    assert!(EopkgBackend::new().search_outcome(Err("boom".to_string())).unwrap().is_empty());
    assert!(NixBackend::new().search_outcome(Err("boom".to_string())).unwrap().is_empty());
    assert!(PortageBackend::new().search_outcome(Err("boom".to_string())).unwrap().is_empty());
    assert!(YayBackend::new().search_outcome(Err("boom".to_string())).unwrap().is_empty());
    assert!(ZypperBackend::new().search_outcome(Err("boom".to_string())).unwrap().is_empty());
    let z = ZypperBackend::new().search_outcome(Ok("  | vim | Vi | package\n".to_string())).unwrap();
    assert_eq!(hit(&z[0]), ("vim", "Vi", "repo", "Zypper"));
}

#[test]
fn xbps_search_prefixes() {
    let x = XbpsBackend::new();
    let r = x.parse_search("[*] vim-9.0.1678_1 - Vi IMproved\n[-] nano-7.2_1 - GNU nano\nnothing here\n");
    assert_eq!(r.len(), 2);
    assert_eq!(hit(&r[0]), ("vim", "Vi IMproved", "9.0.1678_1", "XBPS"));
    assert_eq!(hit(&r[1]), ("[-] nano", "GNU nano", "7.2_1", "XBPS"));
    assert_eq!(x.split_name_version("plain"), ("plain".to_string(), "unknown".to_string()));
}

#[test]
fn xbps_info_and_list() {
    let x = XbpsBackend::new();
    let i = x.parse_info(
        "vim",
        "pkgver: vim-9.0.1678_1\nshort_desc: Vim editor\nhomepage: https://www.vim.org\ninstalled_size: 3500KB\n",
        true,
    );
    assert_eq!(
        info_fields(&i),
        ("vim", "9.0.1678_1", "Vim editor", "XBPS", Some("https://www.vim.org"), Some("3500KB"), true)
    );
    let l = x.parse_list("ii vim-9.0.1678_1 Vim editor\nii bash-5.2_1 GNU Bash\nx\n");
    assert_eq!(l.len(), 2);
    assert_eq!(pkg(&l[0]), ("vim", "9.0.1678_1", "XBPS"));
    assert_eq!(pkg(&l[1]), ("bash", "5.2_1", "XBPS"));
}

#[test]
fn eopkg_parsers() {
    let e = EopkgBackend::new();
    let r = e.parse_search("vim - Vi IMproved\nnano - small editor\nnoise\n");
    assert_eq!(r.len(), 2);
    assert_eq!(hit(&r[0]), ("vim", "Vi IMproved", "repo", "eopkg"));
    assert_eq!(hit(&r[1]), ("nano", "small editor", "repo", "eopkg"));
    let out = "Name                : vim, version: 9.0, release: 1\nVersion: 9.0\nDescription         : Vim editor\nHomepage            : https://www.vim.org\nInstalled size      : 30 MB\nPackage state: installed\n";
    let i = e.parse_info("vim", out, true);
    assert_eq!(
        info_fields(&i),
        ("vim", "9.0", "Vim editor", "eopkg", Some("https://www.vim.org"), Some("30 MB"), true)
    );
    let pt = e.parse_info("vim", "Versão: 8.2\nDescrição: Editor\nPágina inicial: https://v\nTamanho instalado: 3 MB\n", false);
    assert_eq!(info_fields(&pt), ("vim", "8.2", "Editor", "eopkg", Some("https://v"), Some("3 MB"), false));
    assert!(e.reports_installed(out));
    assert!(e.reports_installed("Estado do pacote: instalado"));
    assert!(!e.reports_installed("Package state: not installed here"));
    let l = e.parse_list("vim - Vi IMproved\nbash - shell\n");
    assert_eq!(l.len(), 2);
    assert_eq!(pkg(&l[0]), ("vim", "installed", "eopkg"));
    assert_eq!(pkg(&l[1]), ("bash", "installed", "eopkg"));
}

#[test]
fn zypper_parsers() {
    let z = ZypperBackend::new();
    let out = "Loading repository data...\nReading installed packages...\n\nS | Name | Summary | Type\n--+------+---------+--------\n  | vim  | Vi IMproved | package\ni | vim-data | Data files | Package\n  | vim | Vi source | srcpackage\n";
    let r = z.parse_search(out);
    assert_eq!(r.len(), 2);
    assert_eq!(hit(&r[0]), ("vim", "Vi IMproved", "repo", "Zypper"));
    assert_eq!(hit(&r[1]), ("vim-data", "Data files", "repo", "Zypper"));
    let l = z.parse_list(out);
    assert_eq!(l.len(), 2);
    assert_eq!(pkg(&l[0]), ("vim", "installed", "Zypper"));
    assert_eq!(pkg(&l[1]), ("vim-data", "installed", "Zypper"));
    let info = "Information for package vim:\n----------------------------\nRepository     : Main\nName           : vim\nVersion        : 9.0.2103-1.1\nURL            : https://www.vim.org/\nInstalled Size : 3.6 MiB\nDescription    : \n    Vim (Vi IMproved) is an\n    almost compatible version.\n";
    let i = z.parse_info("vim", info, true);
    assert_eq!(
        info_fields(&i),
        (
            "vim",
            "9.0.2103-1.1",
            "\nVim (Vi IMproved) is an\nalmost compatible version.",
            "Zypper",
            Some("https://www.vim.org/"),
            Some("3.6 MiB"),
            true
        )
    );
}

#[test]
fn flatpak_parsers() {
    let f = FlatpakBackend::new();
    let r = f.parse_search(
        "VLC\tVLC media player\torg.videolan.VLC\t3.0.20\tstable\tflathub\nGIMP\tImage editor\torg.gimp.GIMP\t\tstable\tflathub\nshort\tline\n",
    );
    assert_eq!(r.len(), 2);
    assert_eq!(hit(&r[0]), ("org.videolan.VLC", "VLC - VLC media player", "3.0.20", "Flatpak"));
    assert_eq!(hit(&r[1]), ("org.gimp.GIMP", "GIMP - Image editor", "stable", "Flatpak"));
    let out = "VLC - media player\nThe ultimate player\n\n          ID: org.videolan.VLC\n     Version: 3.0.20\n   Installed: 82.5 MB\n";
    let i = f.parse_info("org.videolan.VLC", out, true);
    assert_eq!(
        info_fields(&i),
        (
            "org.videolan.VLC",
            "3.0.20",
            "VLC - media player - The ultimate player",
            "Flatpak",
            Some("https://flathub.org/apps/org.videolan.VLC"),
            Some("82.5 MB"),
            true
        )
    );
    let one = f.parse_info("x", "Only line\n\nVersão: 2\n", false);
    assert_eq!(one.description, "Only line");
    assert_eq!(one.version, "2");
    let l = f.parse_list("org.videolan.VLC\t3.0.20\n\norg.gimp.GIMP\n");
    assert_eq!(l.len(), 3);
    assert_eq!(pkg(&l[0]), ("org.videolan.VLC", "3.0.20", "Flatpak"));
    assert_eq!(pkg(&l[1]), ("", "unknown", "Flatpak"));
    assert_eq!(pkg(&l[2]), ("org.gimp.GIMP", "unknown", "Flatpak"));
}

#[test]
fn snap_search_and_list() {
    let s = SnapBackend::new();
    let r = s.parse_search(
        "Name  Version  Publisher  Notes  Summary\nvlc   3.0.20   videolan✓  -      The ultimate media player\nhello 2.10 canonical✓ - GNU Hello\nshort line\n",
    );
    assert_eq!(r.len(), 2);
    assert_eq!(hit(&r[0]), ("vlc", "The ultimate media player", "3.0.20", "Snap"));
    assert_eq!(hit(&r[1]), ("hello", "GNU Hello", "2.10", "Snap"));
    let l = s.parse_list(
        "Name    Version   Rev    Tracking       Publisher   Notes\ncore22  20240111  1122   latest/stable  canonical✓  base\nvlc 3.0.20 3777 latest/stable videolan✓ -\n",
    );
    assert_eq!(l.len(), 2);
    assert_eq!(pkg(&l[0]), ("core22", "20240111", "Snap"));
    assert_eq!(pkg(&l[1]), ("vlc", "3.0.20", "Snap"));
}

#[test]
fn snap_info_installed_or_not() {
    let s = SnapBackend::new();
    let base = "name:      vlc\nsummary:   The ultimate media player\npublisher: VideoLAN✓\nstore-url: https://snapcraft.io/vlc\ndescription: |\n  VLC is the VideoLAN project's media player.\n  It plays everything.\nsnap-id:   abc\nchannels:\n  latest/stable:    3.0.20 2023-11-01 (3777) 340MB -\n  latest/candidate: 3.0.21 2023-11-01 (3777) 340MB -\n";
    let i = s.parse_info("vlc", base);
    assert_eq!(
        info_fields(&i),
        (
            "vlc",
            "3.0.20",
            "The ultimate media player\nVLC is the VideoLAN project's media player.\nIt plays everything.",
            "Snap",
            Some("https://snapcraft.io/vlc"),
            None,
            false
        )
    );
    let installed = format!("{}installed:          3.0.19             (3777) 340MB -\n", base);
    let j = s.parse_info("vlc", &installed);
    assert!(j.installed);
    assert_eq!(j.version, "3.0.19");
    assert_eq!(j.size.as_deref(), Some("340MB"));
}

#[test]
fn nix_parsers() {
    let n = NixBackend::new();
    let r = n.parse_search("nixpkgs.vim   vim-9.0.2116\nnixpkgs.neovim  neovim-0.9.5\nbad\n");
    assert_eq!(r.len(), 2);
    assert_eq!(hit(&r[0]), ("nixpkgs.vim", "Nix package: vim", "9.0.2116", "Nix"));
    assert_eq!(hit(&r[1]), ("nixpkgs.neovim", "Nix package: neovim", "0.9.5", "Nix"));
    assert_eq!(n.search_pattern("vim"), ".*vim.*");
    assert_eq!(n.install_attr("vim"), "nixpkgs.vim");
    assert_eq!(n.install_attr("nixpkgs.vim"), "nixpkgs.vim");
    assert_eq!(n.clean_name("nixpkgs.vim"), "vim");
    assert_eq!(n.clean_name("vim"), "vim");
    assert_eq!(n.split_name_version("hello-2.12"), ("hello".to_string(), "2.12".to_string()));
    let i = n.parse_info("nixpkgs.vim", "nixpkgs.vim  vim-9.0.2116  Vi IMproved, an advanced text editor\nnixpkgs.x  x-1  other\n", true);
    assert_eq!(
        info_fields(&i),
        (
            "nixpkgs.vim",
            "9.0.2116",
            "Vi IMproved, an advanced text editor",
            "Nix",
            Some("https://search.nixos.org/packages"),
            None,
            true
        )
    );
    let d = n.parse_info("nixpkgs.vim", "", false);
    assert_eq!(d.version, "unknown");
    assert_eq!(d.description, "Nix package vim");
    assert!(n.lists_package("vim-9.0.2116\nhello-2.12\n", "nixpkgs.VIM"));
    assert!(!n.lists_package("vim-9.0.2116\nhello-2.12\n", "nano"));
    let l = n.parse_list("vim-9.0.2116\nhello-2.12\n");
    assert_eq!(l.len(), 2);
    assert_eq!(pkg(&l[0]), ("vim", "9.0.2116", "Nix"));
    assert_eq!(pkg(&l[1]), ("hello", "2.12", "Nix"));
}

#[test]
fn portage_search_and_info() {
    let p = PortageBackend::new();
    let out = "\n[ Results for search key : vim ]\nSearching...\n\n*  app-editors/vim\n      Latest version available: 9.0.2092\n      Latest version installed: [ Not Installed ]\n      Size of files: 16,870 KiB\n      Homepage:      https://www.vim.org/\n      Description:   Vim, an improved vi-style text editor\n      License:       vim\n\n*  app-vim/vim-core\n      Description:   vim and gvim shared files\n\n[ Applications found : 2 ]\n";
    let r = p.parse_search(out);
    assert_eq!(r.len(), 2);
    assert_eq!(hit(&r[0]), ("vim", "Vim, an improved vi-style text editor", "9.0.2092", "Portage"));
    assert_eq!(hit(&r[1]), ("vim-core", "vim and gvim shared files", "repo", "Portage"));
    let i = p.parse_info("vim", out, false);
    assert_eq!(
        info_fields(&i),
        (
            "vim",
            "9.0.2092",
            "vim and gvim shared files",
            "Portage",
            Some("https://www.vim.org/"),
            Some("16,870 KiB"),
            false
        )
    );
    assert!(p.is_entry_of("vim-9.0.2092", "vim"));
    assert!(p.is_entry_of("vim-core-9.0", "vim"));
    assert!(!p.is_entry_of("vimx-1", "vim"));
}

#[test]
fn portage_list_names() {
    let p = PortageBackend::new();
    let names: Vec<String> = vec![
        "vim-9.0.2092".to_string(),
        "vim-core-9.0.2092-r1".to_string(),
        "python-3.11.8_p1".to_string(),
        "foo".to_string(),
        "abc-def".to_string(),
        "1abc-2".to_string(),
    ];
    let l = p.parse_list(&names);
    assert_eq!(l.len(), 5);
    assert_eq!(pkg(&l[0]), ("vim", "9.0.2092", "Portage"));
    assert_eq!(pkg(&l[1]), ("vim-core", "9.0.2092-r1", "Portage"));
    assert_eq!(pkg(&l[2]), ("python", "3.11.8_p1", "Portage"));
    assert_eq!(pkg(&l[3]), ("abc", "def", "Portage"));
    assert_eq!(pkg(&l[4]), ("", "1abc-2", "Portage"));
}

#[test]
fn yay_parsers() {
    let y = YayBackend::new();
    let out = "aur/google-chrome 121.0-1 (+2100 12.5) \n    The popular web browser by Google\nextra/vim 9.0-1 (+100)\n    Vi Improved\n\naur/visual-studio-code-bin 1.86.0-1 (+1400 20.1) (Installed)\n    Visual Studio Code\naur/last 1-1\n";
    let r = y.parse_search(out);
    assert_eq!(r.len(), 3);
    assert_eq!(hit(&r[0]), ("google-chrome", "The popular web browser by Google", "121.0-1", "AUR/yay"));
    assert_eq!(hit(&r[1]), ("visual-studio-code-bin", "Visual Studio Code", "1.86.0-1", "AUR/yay"));
    assert_eq!(hit(&r[2]), ("last", "", "1-1", "AUR/yay"));
    let i = y.parse_info(
        "google-chrome",
        "Repository      : aur\nName            : google-chrome\nVersion         : 121.0-1\nDescription     : The popular web browser\nURL             : https://www.google.com/chrome\nFirst Submitted : Wed 01 Jan 2020 10:00\n",
        false,
    );
    assert_eq!(
        info_fields(&i),
        (
            "google-chrome",
            "121.0-1",
            "The popular web browser",
            "AUR/yay",
            Some("https://www.google.com/chrome"),
            Some("Wed 01 Jan 2020 10:00"),
            false
        )
    );
    let l = y.parse_list("google-chrome 121.0-1\nyay 12.3.0-1\nx\n");
    assert_eq!(l.len(), 2);
    assert_eq!(pkg(&l[0]), ("google-chrome", "121.0-1", "AUR/yay"));
    assert_eq!(pkg(&l[1]), ("yay", "12.3.0-1", "AUR/yay"));
}

#[test]
fn name_version_split_rejoins() {
    let a = ApkBackend::new();
    for s in ["musl-1.2.4-r2", "a-b", "-x", "x-", "p-1-2-3"] {
        let (n, v) = a.split_name_version(s);
        assert_eq!(format!("{}-{}", n, v), s);
        assert!(!v.contains('-'));
    }
    assert_eq!(XbpsBackend::new().split_name_version("nodash"), ("nodash".to_string(), "unknown".to_string()));
}

#[test]
fn flatpak_info_falls_back_to_remote() {
    let f = FlatpakBackend::new();
    let local: Result<String, String> = Ok("A\nVersion: 1\n".to_string());
    assert!(!f.needs_remote_info(&local));
    let i = f.info_from("org.x.Y", local, None).unwrap();
    assert!(i.installed);
    assert_eq!(i.version, "1");
    let missing: Result<String, String> = Err("not installed".to_string());
    assert!(f.needs_remote_info(&missing));
    let r = f.info_from("org.x.Y", missing.clone(), Some(Ok("B\nVersion: 2\n".to_string()))).unwrap();
    assert!(!r.installed);
    assert_eq!(r.version, "2");
    assert_eq!(r.homepage.as_deref(), Some("https://flathub.org/apps/org.x.Y"));
    assert_eq!(f.info_from("org.x.Y", missing, Some(Err("no remote".to_string()))).err(), Some("no remote".to_string()));
}
