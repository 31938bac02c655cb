use yroz::config::YrozConfig;
use yroz::manager::{
    all_backend_kinds, backend_status, is_available_from, listing_counts, merge_search_results, parse_choice,
    BackendKind, BackendStatus, Choice, InstallAction, PackageManager, RemoveAction,
};
use yroz::types::SearchResult;

fn cfg(disabled: &[&str], priority: &[&str]) -> YrozConfig {
    YrozConfig {
        disabled_backends: disabled.iter().map(|s| s.to_string()).collect(),
        priority: priority.iter().map(|s| s.to_string()).collect(),
    }
}

fn hit(name: &str, backend: &str) -> SearchResult {
    SearchResult {
        name: name.to_string(),
        description: "d".to_string(),
        version: "1".to_string(),
        backend: backend.to_string(),
    }
}

fn manager(kinds: &[BackendKind]) -> PackageManager {
    PackageManager::new(&YrozConfig::default(), &kinds.to_vec())
}

#[test]
fn default_config_is_empty() {
    let c = YrozConfig::default();
    assert!(c.disabled_backends.is_empty());
    assert!(c.priority.is_empty());
    assert!(!c.is_disabled("APT"));
}

#[test]
fn config_disabling_ignores_ascii_case() {
    let c = cfg(&["snap", "AUR/YAY"], &[]);
    assert!(c.is_disabled("Snap"));
    assert!(c.is_disabled("SNAP"));
    assert!(c.is_disabled("aur/yay"));
    assert!(!c.is_disabled("Flatpak"));
}

#[test]
fn kinds_in_registration_order() {
    let names: Vec<&str> = all_backend_kinds().iter().map(|k| k.name()).collect();
    assert_eq!(
        names,
        vec!["APT", "DNF", "Portage", "XBPS", "Zypper", "APK", "eopkg", "AUR/yay", "Nix", "Flatpak", "Snap", "AppImage"]
    );
}

#[test]
fn active_backends_follow_registration_order() {
    let m = manager(&[BackendKind::Snap, BackendKind::Flatpak, BackendKind::Apt, BackendKind::Apt]);
    assert_eq!(m.backends(), vec![BackendKind::Apt, BackendKind::Flatpak, BackendKind::Snap]);
    assert_eq!(m.get_available_backend_names(), vec!["APT", "Flatpak", "Snap"]);
    let empty = manager(&[]);
    assert!(empty.get_available_backend_names().is_empty());
}

#[test]
fn disabled_backends_are_left_out() {
    let avail = vec![BackendKind::Apt, BackendKind::Snap, BackendKind::Yay];
    let m = PackageManager::new(&cfg(&["snap"], &[]), &avail);
    assert_eq!(m.backends(), vec![BackendKind::Apt, BackendKind::Yay]);
    let m2 = PackageManager::new(&cfg(&["yay"], &[]), &avail);
    assert_eq!(m2.backends(), vec![BackendKind::Apt, BackendKind::Snap]);
    let m3 = PackageManager::new(&cfg(&["aur/yay", "apt"], &[]), &avail);
    assert_eq!(m3.backends(), vec![BackendKind::Snap]);
}

#[test]
fn find_backend_ignores_case() {
    let m = manager(&[BackendKind::Apt, BackendKind::Flatpak, BackendKind::Yay]);
    assert_eq!(m.find_backend("flatpak"), Some(BackendKind::Flatpak));
    assert_eq!(m.find_backend("APT"), Some(BackendKind::Apt));
    assert_eq!(m.find_backend("aur/YAY"), Some(BackendKind::Yay));
    assert_eq!(m.find_backend("yay"), None);
    assert_eq!(m.find_backend("Snap"), None);
    assert_eq!(m.find_backend("Pacman"), None);
}

#[test]
fn install_candidates_default_priority() {
    let m = manager(&[BackendKind::Apt, BackendKind::Flatpak, BackendKind::Snap, BackendKind::Nix]);
    let c = YrozConfig::default();
    assert_eq!(
        m.install_candidates(&c, "vim"),
        vec![BackendKind::Apt, BackendKind::Nix, BackendKind::Flatpak, BackendKind::Snap]
    );
    assert_eq!(
        m.install_candidates(&c, "org.gimp.GIMP"),
        vec![BackendKind::Flatpak, BackendKind::Apt, BackendKind::Nix, BackendKind::Snap]
    );
}

#[test]
fn install_candidates_custom_priority() {
    let m = manager(&[BackendKind::Apt, BackendKind::Flatpak, BackendKind::Snap]);
    let c = cfg(&[], &["Snap", "apt", "nope", "FLATPAK", "snap"]);
    assert_eq!(
        m.install_candidates(&c, "vim"),
        vec![BackendKind::Snap, BackendKind::Apt, BackendKind::Flatpak, BackendKind::Snap]
    );
    assert_eq!(
        m.install_candidates(&c, "org.x.Y"),
        vec![BackendKind::Flatpak, BackendKind::Snap, BackendKind::Apt, BackendKind::Snap]
    );
    let no_flatpak = manager(&[BackendKind::Apt]);
    assert_eq!(no_flatpak.install_candidates(&c, "org.x.Y"), vec![BackendKind::Apt]);
}

#[test]
fn install_start_routes() {
    let m = manager(&[BackendKind::Apt, BackendKind::AppImage]);
    let c = YrozConfig::default();
    match m.install_start(&c, "Tool-1.0.AppImage") {
        InstallAction::Install { backend, package } => {
            assert_eq!(backend, BackendKind::AppImage);
            assert_eq!(package, "Tool-1.0.AppImage");
        }
        _ => panic!("expected an AppImage install"),
    }
    match m.install_start(&c, "vim") {
        InstallAction::Probe { index } => assert_eq!(index, 0),
        _ => panic!("expected a probe"),
    }
    let no_appimage = manager(&[BackendKind::Apt]);
    match no_appimage.install_start(&c, "tool.APPIMAGE") {
        InstallAction::Fail(m) => {
            assert_eq!(m, "Backend do AppImage não está disponível ou foi desativado.")
        }
        _ => panic!("expected a failure"),
    }
    match m.install_start_lowered(&c, "Tool.AppImage", "tool.appimage") {
        InstallAction::Install { backend, package } => {
            assert_eq!(backend, BackendKind::AppImage);
            assert_eq!(package, "Tool.AppImage");
        }
        _ => panic!("expected an AppImage install"),
    }
    assert!(matches!(m.install_start_lowered(&c, "Tool.AppImage", "tool.AppImage"), InstallAction::Probe { index: 0 }));
    let only_appimage = manager(&[BackendKind::AppImage]);
    assert!(matches!(only_appimage.install_start(&c, "vim"), InstallAction::Search));
}

#[test]
fn install_after_probe_steps() {
    let m = manager(&[BackendKind::Apt, BackendKind::Snap]);
    let cands = vec![BackendKind::Apt, BackendKind::Snap];
    match m.install_after_probe(&cands, 1, true, "vim") {
        InstallAction::Install { backend, package } => {
            assert_eq!(backend, BackendKind::Snap);
            assert_eq!(package, "vim");
        }
        _ => panic!("expected an install"),
    }
    assert!(matches!(m.install_after_probe(&cands, 0, false, "vim"), InstallAction::Probe { index: 1 }));
    assert!(matches!(m.install_after_probe(&cands, 1, false, "vim"), InstallAction::Search));
}

#[test]
fn install_after_search_and_choice() {
    let m = manager(&[BackendKind::Apt, BackendKind::Snap]);
    match m.install_after_search("vim", &Vec::new()) {
        InstallAction::Fail(e) => {
            assert_eq!(e, "Não foi possível encontrar o pacote 'vim' em nenhum gerenciador.")
        }
        _ => panic!("expected a failure"),
    }
    let results = vec![hit("vim", "APT"), hit("vim-snap", "Snap"), hit("vim-arch", "Pacman")];
    assert!(matches!(m.install_after_search("vim", &results), InstallAction::Choose));
    match m.install_after_choice(&results, " 2\n") {
        InstallAction::Install { backend, package } => {
            assert_eq!(backend, BackendKind::Snap);
            assert_eq!(package, "vim-snap");
        }
        _ => panic!("expected an install"),
    }
    match m.install_after_choice(&results, "+1") {
        InstallAction::Install { backend, .. } => assert_eq!(backend, BackendKind::Apt),
        _ => panic!("expected an install"),
    }
    assert!(matches!(m.install_after_choice(&results, "   \n"), InstallAction::Cancel));
    for bad in ["3", "4", "0", "abc", "-1", "1.0"] {
        match m.install_after_choice(&results, bad) {
            InstallAction::Fail(e) => assert_eq!(e, "Opção inválida de escolha."),
            _ => panic!("expected a failure for {}", bad),
        }
    }
}

#[test]
fn remove_steps() {
    let m = manager(&[BackendKind::Apt, BackendKind::Snap]);
    match m.remove_start("vim", &Vec::new()) {
        RemoveAction::Fail(e) => assert_eq!(
            e,
            "O pacote 'vim' não parece estar instalado em nenhum gerenciador gerenciado pelo Yroz."
        ),
        _ => panic!("expected a failure"),
    }
    assert!(matches!(m.remove_start("vim", &vec!["APT".to_string()]), RemoveAction::Remove { backend: BackendKind::Apt }));
    match m.remove_start("vim", &vec!["Pacman".to_string()]) {
        RemoveAction::Fail(e) => assert_eq!(e, "Erro ao resolver gerenciador de destino."),
        _ => panic!("expected a failure"),
    }
    let both = vec!["APT".to_string(), "Snap".to_string()];
    assert!(matches!(m.remove_start("vim", &both), RemoveAction::Ask));
    assert!(matches!(m.remove_after_choice(&both, "2"), RemoveAction::Remove { backend: BackendKind::Snap }));
    assert!(matches!(m.remove_after_choice(&both, ""), RemoveAction::Cancel));
    match m.remove_after_choice(&both, "9") {
        RemoveAction::Fail(e) => assert_eq!(e, "Escolha inválida."),
        _ => panic!("expected a failure"),
    }
}

#[test]
fn installed_backends_in_report_order() {
    let m = manager(&[BackendKind::Apt, BackendKind::Flatpak, BackendKind::Snap]);
    let reports = vec![(BackendKind::Apt, true), (BackendKind::Flatpak, false), (BackendKind::Snap, true)];
    assert_eq!(m.installed_backends(&reports), vec!["APT", "Snap"]);
    assert!(m.installed_backends(&Vec::new()).is_empty());
}

#[test]
fn info_outcome_messages() {
    let m = manager(&[BackendKind::Apt]);
    assert_eq!(m.info_outcome("vim", 2), Ok(()));
    assert_eq!(
        m.info_outcome("vim", 0),
        Err("Não foi possível obter informações para 'vim' em nenhum gerenciador.".to_string())
    );
}

#[test]
fn status_precedence() {
    let c = cfg(&["apt"], &[]);
    assert_eq!(backend_status(&c, BackendKind::Apt, true), BackendStatus::Disabled);
    assert_eq!(backend_status(&c, BackendKind::Apt, false), BackendStatus::Disabled);
    assert_eq!(backend_status(&c, BackendKind::Snap, true), BackendStatus::Active);
    assert_eq!(backend_status(&c, BackendKind::Nix, false), BackendStatus::Unavailable);
    let yay = cfg(&["YAY"], &[]);
    assert_eq!(backend_status(&yay, BackendKind::Yay, true), BackendStatus::Disabled);
    assert_eq!(backend_status(&yay, BackendKind::Apt, true), BackendStatus::Active);
}

#[test]
fn listing_count_split() {
    assert_eq!(listing_counts(0), (0, 0));
    assert_eq!(listing_counts(5), (5, 0));
    assert_eq!(listing_counts(100), (100, 0));
    assert_eq!(listing_counts(101), (100, 1));
    assert_eq!(listing_counts(250), (100, 150));
}

#[test]
fn merging_keeps_backend_order_and_skips_failures() {
    let outcomes: Vec<Result<Vec<SearchResult>, String>> = vec![
        Ok(vec![hit("a", "APT")]),
        Err("boom".to_string()),
        Ok(vec![hit("b", "Snap"), hit("c", "Snap")]),
        Ok(Vec::new()),
    ];
    let r = merge_search_results(outcomes);
    let names: Vec<&str> = r.iter().map(|h| h.name.as_str()).collect();
    assert_eq!(names, vec!["a", "b", "c"]);
    assert!(merge_search_results(Vec::new()).is_empty());
}

#[test]
fn numbered_choices() {
    assert_eq!(parse_choice("", 3), Choice::Cancel);
    assert_eq!(parse_choice(" \t\n", 3), Choice::Cancel);
    assert_eq!(parse_choice("1", 3), Choice::Pick(0));
    assert_eq!(parse_choice(" 3 \n", 3), Choice::Pick(2));
    assert_eq!(parse_choice("+2", 3), Choice::Pick(1));
    assert_eq!(parse_choice("4", 3), Choice::Invalid);
    assert_eq!(parse_choice("0", 3), Choice::Invalid);
    assert_eq!(parse_choice("1 2", 3), Choice::Invalid);
    assert_eq!(parse_choice("99999999999999999999999", 3), Choice::Invalid);
    for i in 0..20usize {
        assert_eq!(parse_choice(&(i + 1).to_string(), 20), Choice::Pick(i));
    }
}

#[test]
fn search_result_text() {
    let r = SearchResult {
        name: "vim".to_string(),
        description: "Vi IMproved".to_string(),
        version: "9.0".to_string(),
        backend: "APT".to_string(),
    };
    assert_eq!(r.to_display_string(), "vim (Vi IMproved) - v9.0 [APT]");
}

#[test]
fn status_agrees_with_active_backends() {
    let avail = vec![BackendKind::Apt, BackendKind::Snap, BackendKind::Yay, BackendKind::Nix];
    for disabled in [vec![], vec!["snap"], vec!["APT", "nix"], vec!["AUR/yay"], vec!["yay"]] {
        let c = cfg(&disabled, &[]);
        let m = PackageManager::new(&c, &avail);
        for k in all_backend_kinds() {
            let active = m.backends().contains(&k);
            let shown = backend_status(&c, k, avail.contains(&k)) == BackendStatus::Active;
            assert_eq!(active, shown, "{:?} with {:?}", k, disabled);
        }
    }
    let only_yay_word = cfg(&["yay"], &[]);
    let m = PackageManager::new(&only_yay_word, &avail);
    assert!(!m.backends().contains(&BackendKind::Yay));
    assert_eq!(backend_status(&only_yay_word, BackendKind::Yay, true), BackendStatus::Disabled);
}

#[test]
fn app_ids_go_to_flatpak_once() {
    let m = manager(&[BackendKind::Apt, BackendKind::Flatpak, BackendKind::Snap]);
    let c = cfg(&[], &["flatpak", "Flatpak", "APT"]);
    let cands = m.install_candidates(&c, "org.example.App");
    assert_eq!(cands, vec![BackendKind::Flatpak, BackendKind::Apt]);
    let plain = m.install_candidates(&c, "vim");
    assert_eq!(plain, vec![BackendKind::Flatpak, BackendKind::Flatpak, BackendKind::Apt]);
}

fn run_probes(m: &PackageManager, cands: &Vec<BackendKind>, answers: &[bool]) -> Option<BackendKind> {
    let mut index = 0;
    loop {
        match m.install_after_probe(cands, index, answers[index], "pkg") {
            InstallAction::Install { backend, .. } => return Some(backend),
            InstallAction::Probe { index: next } => index = next,
            InstallAction::Search => return None,
            _ => panic!("unexpected step"),
        }
    }
}

#[test]
fn install_takes_first_known_candidate() {
    let m = manager(&[BackendKind::Apt, BackendKind::Nix, BackendKind::Snap]);
    let cands = vec![BackendKind::Apt, BackendKind::Nix, BackendKind::Snap];
    assert_eq!(run_probes(&m, &cands, &[false, true, true]), Some(BackendKind::Nix));
    assert_eq!(run_probes(&m, &cands, &[true, true, true]), Some(BackendKind::Apt));
    assert_eq!(run_probes(&m, &cands, &[false, false, true]), Some(BackendKind::Snap));
    assert_eq!(run_probes(&m, &cands, &[false, false, false]), None);
}

#[test]
fn remove_offers_only_holders() {
    let m = manager(&[BackendKind::Apt, BackendKind::Flatpak, BackendKind::Snap]);
    let reports = vec![(BackendKind::Apt, false), (BackendKind::Flatpak, true), (BackendKind::Snap, true)];
    let names = m.installed_backends(&reports);
    assert_eq!(names, vec!["Flatpak", "Snap"]);
    for n in &names {
        let k = m.find_backend(n).unwrap();
        assert!(reports.iter().any(|(r, installed)| *r == k && *installed));
    }
    let single = vec![(BackendKind::Apt, false), (BackendKind::Snap, true)];
    assert!(matches!(
        m.remove_start("vim", &m.installed_backends(&single)),
        RemoveAction::Remove { backend: BackendKind::Snap }
    ));
}

#[test]
fn zypper_is_a_native_candidate() {
    let m = manager(&[BackendKind::Zypper, BackendKind::Nix]);
    let c = YrozConfig::default();
    assert_eq!(m.install_candidates(&c, "vim"), vec![BackendKind::Zypper, BackendKind::Nix]);
    let all = manager(&all_backend_kinds());
    let cands = all.install_candidates(&c, "vim");
    assert_eq!(
        cands,
        vec![
            BackendKind::Apt,
            BackendKind::Dnf,
            BackendKind::Portage,
            BackendKind::Xbps,
            BackendKind::Zypper,
            BackendKind::Apk,
            BackendKind::Eopkg,
            BackendKind::Yay,
            BackendKind::Nix,
            BackendKind::Flatpak,
            BackendKind::Snap
        ]
    );
    let universal = |k: &BackendKind| matches!(k, BackendKind::Nix | BackendKind::Flatpak | BackendKind::Snap);
    let first_universal = cands.iter().position(universal).unwrap();
    assert!(cands[first_universal..].iter().all(universal));
}

#[test]
fn availability_needs_every_program() {
    assert_eq!(BackendKind::Apt.required_programs(), vec!["apt-get", "dpkg"]);
    assert!(is_available_from(BackendKind::Apt, &vec![true, true]));
    assert!(!is_available_from(BackendKind::Apt, &vec![true, false]));
    assert!(!is_available_from(BackendKind::Apt, &vec![false, true]));
    assert!(is_available_from(BackendKind::Snap, &vec![true]));
    assert!(!is_available_from(BackendKind::Snap, &vec![false]));
    assert!(is_available_from(BackendKind::AppImage, &Vec::new()));
}
