use yroz::backend::appimage::{InstalledLookup, AppImageBackend, AppImageFeed, AppImageItem, AppImageLink, GitHubAsset, GitHubRelease};
use yroz::backend::PackageManagerBackend;

fn item(name: &str, links: Option<Vec<(&str, &str)>>) -> AppImageItem {
    AppImageItem {
        name: name.to_string(),
        links: links.map(|v| {
            v.into_iter()
                .map(|(t, u)| AppImageLink { link_type: t.to_string(), url: u.to_string() })
                .collect()
        }),
    }
}

fn asset(name: &str, url: &str) -> GitHubAsset {
    GitHubAsset { name: name.to_string(), browser_download_url: url.to_string() }
}

#[test]
fn appimage_name() {
    assert_eq!(AppImageBackend::new().name(), "AppImage");
}

#[test]
fn sanitized_names() {
    let a = AppImageBackend::new();
    assert_eq!(a.sanitize_app_name("Obsidian-1.5.3.AppImage"), "Obsidian");
    assert_eq!(a.sanitize_app_name("balenaEtcher-1.18.11-x64.AppImage"), "BalenaEtcher-1.18.11-x64");
    assert_eq!(a.sanitize_app_name("krita-5.2.2-x86_64.appimage"), "Krita");
    assert_eq!(a.sanitize_app_name("app-v2.0.AppImage"), "App");
    assert_eq!(a.sanitize_app_name("tool_x86_64.AppImage"), "Tool");
    assert_eq!(a.sanitize_app_name("émile-1.0.AppImage"), "Émile");
    assert_eq!(a.sanitize_app_name("ß-tool.AppImage"), "SS-tool");
    assert_eq!(a.sanitize_app_name(".AppImage"), "");
    assert_eq!(a.sanitize_app_name("plain"), "Plain");
}

#[test]
fn unsanitizable_names() {
    let a = AppImageBackend::new();
    assert!(a.can_sanitize("krita-5.2.2-x86_64.AppImage"));
    assert!(a.can_sanitize("x-i386-x86_64.AppImage"));
    assert!(!a.can_sanitize("a-x86_64-arm64.AppImage"));
    assert_eq!(a.try_sanitize_app_name("a-x86_64-arm64.AppImage"), None);
    assert_eq!(a.try_sanitize_app_name("Obsidian-1.5.3.AppImage"), Some("Obsidian".to_string()));
}

#[test]
fn cuts_fall_at_byte_offsets_of_the_lower_case() {
    let a = AppImageBackend::new();
    assert_eq!(a.sanitize_app_name("ÉMILE-X86_64.AppImage"), "ÉMILE");
    assert_eq!(a.sanitize_app_name("İ-x86_64.AppImage"), "İ-");
    assert_eq!(a.sanitize_app_name("İİİİİİİ-x86_64.AppImage"), "İİİİİİİ-x86_64");
    assert!(!a.can_sanitize("İİİİİİİİ-x86_64.AppImage"));
    assert!(!a.can_sanitize("İİİİİİİİ-x86_64€.AppImage"));
}

#[test]
fn shortening_steps() {
    let a = AppImageBackend::new();
    assert_eq!(a.strip_appimage_ext("Tool.AppImage"), "Tool");
    assert_eq!(a.strip_appimage_ext("Tool.appimage"), "Tool");
    assert_eq!(a.strip_appimage_ext("Tool.APPIMAGE"), "Tool.APPIMAGE");
    assert_eq!(a.shorten_app_name("Krita-5.2-x86_64", "krita-5.2-x86_64"), Some("Krita".to_string()));
    assert_eq!(a.shorten_app_name("Tool-v3", "tool-v3"), Some("Tool".to_string()));
    assert_eq!(a.shorten_app_name("Tool-vx", "tool-vx"), Some("Tool-vx".to_string()));
    assert_eq!(a.shorten_app_name("a-x86_64-arm64", "a-x86_64-arm64"), None);
}

#[test]
fn shortcut_and_desktop_entry() {
    let a = AppImageBackend::new();
    assert_eq!(a.shortcut_file_name("Krita"), "yroz-krita.desktop");
    assert_eq!(a.shortcut_file_name("Émile"), "yroz-émile.desktop");
    assert_eq!(a.shortcut_for_lowered("krita"), "yroz-krita.desktop");
    assert_eq!(
        a.desktop_entry("Krita", "/home/u/Applications/krita.AppImage"),
        "[Desktop Entry]\nType=Application\nName=Krita\nExec=/home/u/Applications/krita.AppImage\nIcon=utilities-terminal\nTerminal=false\nCategories=Utility;\n"
    );
}

#[test]
fn desktop_dirs_from_user_dirs() {
    let a = AppImageBackend::new();
    let content = "# comment\nXDG_DOWNLOAD_DIR=\"$HOME/Downloads\"\nXDG_DESKTOP_DIR=\"$HOME/Área de Trabalho\"\nXDG_DESKTOP_DIR=/abs/$HOME/x\n";
    assert_eq!(
        a.xdg_desktop_dirs(content, "/home/u"),
        vec!["/home/u/Área de Trabalho".to_string(), "/abs//home/u/x".to_string()]
    );
    assert!(a.xdg_desktop_dirs("", "/home/u").is_empty());
    assert_eq!(a.desktop_fallbacks(), vec!["Desktop", "Área de Trabalho", "Escritorio", "Bureau", "Schreibtisch"]);
}

#[test]
fn urls_and_file_names() {
    let a = AppImageBackend::new();
    assert!(a.is_url("https://x/y.AppImage"));
    assert!(a.is_url("http://x"));
    assert!(!a.is_url("ftp://x"));
    assert!(!a.is_url("krita"));
    assert_eq!(
        a.download_file_name("https://github.com/o/r/releases/download/v1/Krita-5.2.AppImage"),
        Ok("Krita-5.2.AppImage".to_string())
    );
    assert_eq!(
        a.download_file_name("https://x/y.tar.gz"),
        Err("A URL resolvida não aponta para um arquivo .AppImage válido".to_string())
    );
    assert!(a.is_appimage_file("Tool.APPIMAGE"));
    assert!(a.has_appimage_ext("tool.appimage"));
    assert!(!a.has_appimage_ext("tool.AppImage"));
    assert_eq!(a.last_segment("https://x/y/z.AppImage"), "z.AppImage");
    assert_eq!(a.last_segment("no-slash"), "no-slash");
    assert_eq!(a.last_segment("https://x/"), "");
    assert_eq!(a.downloaded_file("Z.AppImage", "z.appimage"), Ok("Z.AppImage".to_string()));
    assert_eq!(
        a.downloaded_file("Z.zip", "z.zip"),
        Err("A URL resolvida não aponta para um arquivo .AppImage válido".to_string())
    );
    assert!(!a.is_appimage_file("Tool.AppImage.tmp"));
}

#[test]
fn package_matching() {
    let a = AppImageBackend::new();
    assert!(a.matches_package("krita-5.2.2-x86_64.appimage", "Krita", "krita"));
    assert!(a.matches_package("krita-5.2.2-x86_64.appimage", "Krita", "Krita.AppImage"));
    assert!(a.matches_package("Tool.AppImage", "Tool", "tool.appimage.appimage"));
    assert!(!a.matches_package("krita-5.2.2-x86_64.appimage", "Krita", "gimp"));
    let file = "krita-5.2.2-x86_64.appimage";
    let listed = a.sanitize_app_name(file);
    assert!(a.matches_package(file, &listed, &listed));
}

#[test]
fn catalog_keys_and_lookup() {
    let a = AppImageBackend::new();
    assert_eq!(a.catalog_key("Krita.AppImage"), "krita");
    assert_eq!(a.catalog_key("Krita.appimage"), "krita");
    assert_eq!(a.catalog_key("ÉMILE"), "émile");
    assert_eq!(a.catalog_key("ΣΟΦΟΣ.AppImage"), "σοφος");
    let feed = AppImageFeed {
        items: vec![item("Krita", None), item("Kdenlive", None), item("Obsidian", None), item("krita", None)],
    };
    assert_eq!(a.catalog_lookup(&feed, "krita"), Ok(0));
    assert_eq!(a.catalog_lookup(&feed, "krit"), Err(vec!["Krita".to_string(), "krita".to_string()]));
    assert_eq!(a.catalog_lookup(&feed, "obsidain"), Err(vec!["Obsidian".to_string()]));
    assert_eq!(a.catalog_lookup(&feed, "zz"), Err(Vec::new()));
    let lowered = vec!["krita".to_string(), "kdenlive".to_string(), "obsidian".to_string(), "krita".to_string()];
    assert_eq!(a.catalog_lookup_lowered(&feed, &lowered, "kdenlive"), Ok(1));
    assert_eq!(a.catalog_lookup_lowered(&feed, &lowered, "obsidan"), Err(vec!["Obsidian".to_string()]));
    let accented = AppImageFeed { items: vec![item("ÉDITEUR", None)] };
    assert_eq!(a.catalog_lookup(&accented, "éditeur"), Ok(0));
}

#[test]
fn sources_of_an_item() {
    let a = AppImageBackend::new();
    let both = item("X", Some(vec![("GitHub", "owner/repo"), ("Download", "https://example.com/App.AppImage")]));
    assert_eq!(
        a.item_sources(&both),
        (Some("owner/repo".to_string()), Some("https://example.com/App.AppImage".to_string()))
    );
    let rel = item("X", Some(vec![("github", "first/one"), ("DOWNLOAD", "https://github.com/o/r/releases")]));
    assert_eq!(a.item_sources(&rel), (Some("o/r".to_string()), None));
    let other = item("X", Some(vec![("Install", "https://x"), ("Download", "https://site/page")]));
    assert_eq!(a.item_sources(&other), (None, None));
    assert_eq!(a.item_sources(&item("X", None)), (None, None));
    let upper = item("X", Some(vec![("Download", "https://example.com/APP.APPIMAGE")]));
    assert_eq!(a.item_sources(&upper), (None, Some("https://example.com/APP.APPIMAGE".to_string())));
    let lowered = vec!["https://example.com/app.appimage".to_string()];
    assert_eq!(
        a.item_sources_lowered(&upper, &lowered),
        (None, Some("https://example.com/APP.APPIMAGE".to_string()))
    );
}

#[test]
fn release_assets_by_architecture() {
    let a = AppImageBackend::new();
    let rel = GitHubRelease {
        assets: vec![
            asset("App-arm64.AppImage", "u1"),
            asset("App-x86_64.AppImage", "u2"),
            asset("App.tar.gz", "u3"),
        ],
    };
    assert_eq!(a.release_download(&rel, "x86_64"), Some("u2".to_string()));
    assert_eq!(a.release_download(&rel, "aarch64"), Some("u1".to_string()));
    assert_eq!(a.release_download(&rel, "riscv64"), Some("u1".to_string()));
    let none = GitHubRelease { assets: vec![asset("App.tar.gz", "u3")] };
    assert_eq!(a.release_download(&none, "x86_64"), None);
    let amd = GitHubRelease { assets: vec![asset("a.AppImage", "v1"), asset("b-AMD64.AppImage", "v2")] };
    assert_eq!(a.release_download(&amd, "x86_64"), Some("v2".to_string()));
    let lowered = vec!["a.appimage".to_string(), "b-amd64.appimage".to_string()];
    assert_eq!(a.release_download_lowered(&amd, &lowered, "x86_64"), Some("v2".to_string()));
    assert_eq!(a.release_download_lowered(&amd, &lowered, "riscv64"), Some("v1".to_string()));
}

#[test]
fn download_choice() {
    let a = AppImageBackend::new();
    assert_eq!(a.chosen_download(Some("a".to_string()), Some("b".to_string()), "p"), Ok("a".to_string()));
    assert_eq!(a.chosen_download(None, Some("b".to_string()), "p"), Ok("b".to_string()));
    assert_eq!(
        a.chosen_download(None, None, "foo"),
        Err("Não foi possível encontrar um link de download de AppImage direto ou no GitHub para 'foo'.".to_string())
    );
}

fn names(v: &[&str]) -> Vec<String> {
    v.iter().map(|s| s.to_string()).collect()
}

#[test]
fn installed_file_lookup() {
    let a = AppImageBackend::new();
    let dir = names(&["notes.txt", "krita-5.2.2-x86_64.appimage", "Krita.AppImage"]);
    assert_eq!(a.find_installed(&dir, "krita"), Ok(Some(1)));
    assert_eq!(a.find_installed(&dir, "krita.appimage"), Ok(Some(1)));
    assert_eq!(a.find_installed(&dir, "Notes.txt"), Ok(Some(0)));
    assert_eq!(a.find_installed(&dir, "gimp"), Ok(None));
    let bad = names(&["a-x86_64-arm64.AppImage", "Krita.AppImage"]);
    assert_eq!(a.find_installed(&bad, "krita"), Err(0));
    let bad_after = names(&["Krita.AppImage", "a-x86_64-arm64.AppImage"]);
    assert_eq!(a.find_installed(&bad_after, "krita"), Ok(Some(0)));
}

#[test]
fn listing_of_applications() {
    let a = AppImageBackend::new();
    let dir = names(&["notes.txt", "krita-5.2.2-x86_64.appimage", "Obsidian-1.5.3.AppImage", "a-x86_64-arm64.zip"]);
    let l = a.list_entries(&dir).unwrap();
    let shown: Vec<(&str, &str, &str)> =
        l.iter().map(|p| (p.name.as_str(), p.version.as_str(), p.backend.as_str())).collect();
    assert_eq!(shown, vec![("Krita", "local", "AppImage"), ("Obsidian", "local", "AppImage")]);
    let bad = names(&["ok.AppImage", "a-x86_64-arm64.AppImage"]);
    assert!(matches!(a.list_entries(&bad), Err(1)));
    assert!(a.list_entries(&Vec::new()).unwrap().is_empty());
    let apps = names(&["krita-5.2.2-x86_64.appimage", "Obsidian-1.5.3.AppImage"]);
    let shown = a.list_entries(&apps).unwrap();
    for (i, p) in shown.iter().enumerate() {
        assert_eq!(a.find_installed(&apps, &p.name), Ok(Some(i)));
    }
}

#[test]
fn installed_info_record() {
    let a = AppImageBackend::new();
    let i = a.installed_info("Krita", "\"/home/u/Applications/krita.AppImage\"", 5242880);
    assert_eq!(i.name, "Krita");
    assert_eq!(i.version, "AppImage local");
    assert_eq!(i.description, "Local AppImage salvo em: \"/home/u/Applications/krita.AppImage\"");
    assert_eq!(i.backend, "AppImage");
    assert_eq!(i.homepage, None);
    assert_eq!(i.size.as_deref(), Some("5.00 MB"));
    assert!(i.installed);
}

#[test]
fn lookup_errors_and_catalogue_miss() {
    let a = AppImageBackend::new();
    let dir = names(&["Krita.AppImage", "bad-x86_64-arm64.AppImage"]);
    assert!(matches!(a.remove_lookup(&dir, "krita"), InstalledLookup::Found(0)));
    assert!(matches!(a.info_lookup(&dir, "Krita.AppImage"), InstalledLookup::Found(0)));
    assert!(matches!(a.remove_lookup(&dir, "gimp"), InstalledLookup::Stop(1)));
    let ok = names(&["Krita.AppImage"]);
    match a.remove_lookup(&ok, "gimp") {
        InstalledLookup::Missing(m) => assert_eq!(m, "AppImage 'gimp' não encontrado em ~/Applications"),
        _ => panic!("expected a missing file"),
    }
    match a.info_lookup(&ok, "gimp") {
        InstalledLookup::Missing(m) => assert_eq!(m, "AppImage 'gimp' não está instalado."),
        _ => panic!("expected a missing file"),
    }
    let sugg = names(&["Krita", "krita"]);
    let shown = a.suggestion_list(&sugg);
    assert_eq!(shown, "Krita, krita");
    assert_eq!(a.suggestion_list(&names(&["One"])), "One");
    assert_eq!(a.suggestion_list(&Vec::new()), "");
    assert_eq!(
        a.catalog_miss_message("krit", &sugg, &shown),
        "AppImage 'krit' não foi encontrado no catálogo. Você quis dizer: Krita, krita?"
    );
    assert_eq!(
        a.catalog_miss_message("zz", &Vec::new(), ""),
        "AppImage 'zz' não foi encontrado no catálogo."
    );
}
