use nixbox::config::{config_dir_from, join_path, settings_path_in, Config, Target};
use nixbox::flakes::{
    balanced_block, classify_inputs, classify_outputs, code_search_args, compact_fragment,
    contains_identifier, flake_details, flake_search_query, strip_api_prefix, FlakeHit,
    RepositoryInfo,
};
use nixbox::manifest::{parse, render_home_manager, render_nixos, ManagedFile, Manifest};
use nixbox::number::{decimal_string, signed_decimal_string};
use nixbox::rebuild::{
    evaluation_says_true, finished_event, first_existing, home_configuration_expr,
    home_manager_switch_cmd, nix_profile_candidates, nixos_rebuild_switch_cmd, output_line,
    switch_command, BuildEvent,
};
use nixbox::search::{
    kept_of_chunk, output_limit_message, push_hit, resolve_channel, search_args,
    search_failure_message, search_outcome, short_attr, sort_hits, wants_hit, within_limit,
    SearchHit, MAX_SEARCH_RESULTS,
};

// ---------------------------------------------------------------------------
// Tests carried over
// ---------------------------------------------------------------------------

#[test]
fn nixos_rebuild_uses_sudo_with_flake_ref() {
    let (cmd, args) = nixos_rebuild_switch_cmd("/tmp/nixbox-config");

    assert_eq!(cmd, "sudo");
    assert_eq!(args[0], "nixos-rebuild");
    assert_eq!(args[1], "switch");
    assert_eq!(args[2], "--flake");
    assert_eq!(args[3], "/tmp/nixbox-config#nixos");
}

#[test]
fn compacts_github_match_fragments_for_result_rows() {
    assert_eq!(
        compact_fragment("  inputs.nixpkgs.url =\n  \"github:NixOS/nixpkgs\";  "),
        "inputs.nixpkgs.url = \"github:NixOS/nixpkgs\";"
    );
}

#[test]
fn classifies_common_flake_properties() {
    let source = r#"
            {
              inputs = {
                nixpkgs.url = "github:NixOS/nixpkgs";
                home-manager.url = "github:nix-community/home-manager";
              };
              outputs = { nixpkgs, ... }: {
                packages.x86_64-linux.default = nixpkgs.legacyPackages.x86_64-linux.hello;
                nixosModules.default = { };
                homeManagerModules.default = { };
                devShells.x86_64-linux.default = { };
              };
            }
        "#;

    assert_eq!(classify_inputs(source), ["nixpkgs", "home-manager"]);
    assert_eq!(
        classify_outputs(source),
        [
            "packages",
            "NixOS modules",
            "Home Manager modules",
            "dev shells"
        ]
    );
}

#[test]
fn round_trip_home_manager() {
    let mut m = Manifest::default();
    m.add("ripgrep");
    m.add("fd");
    let rendered = render_home_manager(&m);
    let parsed = parse(&rendered);
    assert_eq!(parsed.packages, m.packages);
}

#[test]
fn round_trip_nixos() {
    let mut m = Manifest::default();
    m.add("htop");
    let rendered = render_nixos(&m);
    let parsed = parse(&rendered);
    assert_eq!(parsed.packages, m.packages);
}

#[test]
fn resolves_known_channel_aliases() {
    assert_eq!(
        resolve_channel("nixpkgs-unstable"),
        "github:NixOS/nixpkgs/nixos-unstable"
    );
    assert_eq!(resolve_channel("nixpkgs"), "nixpkgs");
    assert_eq!(resolve_channel("github:owner/repo"), "github:owner/repo");
}

#[test]
fn short_attr_keeps_final_attr_segment() {
    assert_eq!(short_attr("legacyPackages.x86_64-linux.ripgrep"), "ripgrep");
    assert_eq!(short_attr("firefox"), "firefox");
    assert_eq!(short_attr("pkgs.python312Packages.black"), "black");
}

// ---------------------------------------------------------------------------
// Manifests
// ---------------------------------------------------------------------------

#[test]
fn manifest_keeps_names_sorted_and_unique() {
    let mut m = Manifest::new();
    assert!(m.add("ripgrep"));
    assert!(m.add("fd"));
    assert!(m.add("bat"));
    assert!(!m.add("fd"));
    assert_eq!(m.packages, vec!["bat", "fd", "ripgrep"]);
    assert!(m.contains("fd"));
    assert!(!m.contains("htop"));
}

#[test]
fn manifest_remove_reports_whether_present() {
    let mut m = Manifest::new();
    m.add("htop");
    m.add("git");
    assert!(m.remove("htop"));
    assert!(!m.remove("htop"));
    assert_eq!(m.packages, vec!["git"]);
}

#[test]
fn add_then_remove_restores_manifest() {
    let mut m = Manifest::new();
    m.add("git");
    m.add("vim");
    let before = m.packages.clone();
    m.add("emacs");
    m.remove("emacs");
    assert_eq!(m.packages, before);
}

#[test]
fn renders_home_manager_module_exactly() {
    let mut m = Manifest::new();
    m.add("ripgrep");
    m.add("fd");
    let text = render_home_manager(&m);
    assert_eq!(
        text,
        "# Managed by nixbox. Do not edit by hand.\n{ pkgs, ... }:\n{\n  home.packages = [\n    # nixbox:packages:start\n    pkgs.fd\n    pkgs.ripgrep\n    # nixbox:packages:end\n  ];\n}\n"
    );
}

#[test]
fn renders_nixos_module_exactly() {
    let m = Manifest::new();
    let text = render_nixos(&m);
    assert_eq!(
        text,
        "# Managed by nixbox. Do not edit by hand.\n{ pkgs, ... }:\n{\n  environment.systemPackages = [\n    # nixbox:packages:start\n    # nixbox:packages:end\n  ];\n}\n"
    );
}

#[test]
fn parse_reads_only_between_markers() {
    let raw = "pkgs.outside\n# nixbox:packages:start\n  pkgs.jq;\n  # pkgs.commented\n  other\n# nixbox:packages:end\npkgs.after\n";
    let m = parse(raw);
    assert_eq!(m.packages, vec!["jq"]);
}

#[test]
fn parse_of_text_without_markers_is_empty() {
    let m = parse("{ pkgs, ... }: { home.packages = [ pkgs.git ]; }");
    assert!(m.packages.is_empty());
}

#[test]
fn managed_file_write_targets_its_path() {
    let mut m = Manifest::new();
    m.add("htop");
    let file = ManagedFile::new(String::from("/tmp/x/nixbox-system-packages.nix"));
    assert_eq!(file.path(), "/tmp/x/nixbox-system-packages.nix");
    let w = file.write_nixos(&m);
    assert_eq!(w.path, "/tmp/x/nixbox-system-packages.nix");
    assert_eq!(w.content, render_nixos(&m));
    let h = file.write_home_manager(&m);
    assert_eq!(h.content, render_home_manager(&m));
}

// ---------------------------------------------------------------------------
// Settings and paths
// ---------------------------------------------------------------------------

#[test]
fn default_settings() {
    let c = Config::default();
    assert_eq!(c.channel, "nixpkgs");
    assert_eq!(c.target, Target::NixosSystem);
    assert_eq!(c.theme, "default");
    assert!(c.recent_searches.is_empty());
    assert!(c.home_manager_main_file.is_none());
    assert!(c.nixos_main_file.is_none());
}

#[test]
fn recent_searches_put_latest_first_without_repeats() {
    let mut c = Config::default();
    c.push_recent(String::from("ripgrep"));
    c.push_recent(String::from("  fd "));
    c.push_recent(String::from("ripgrep"));
    c.push_recent(String::from("   "));
    assert_eq!(c.recent_searches, vec!["ripgrep", "fd"]);
}

#[test]
fn recent_searches_are_capped() {
    let mut c = Config::default();
    for i in 0..25 {
        c.push_recent(format!("q{}", i));
    }
    assert_eq!(c.recent_searches.len(), 20);
    assert_eq!(c.recent_searches[0], "q24");
    assert_eq!(c.recent_searches[19], "q5");
}

#[test]
fn target_labels_and_tags() {
    assert_eq!(Target::HomeManager.label(), "home-manager");
    assert_eq!(Target::NixosSystem.label(), "nixos");
    assert_eq!(Target::HomeManager.tag(), "hm");
    assert_eq!(Target::NixosSystem.tag(), "nixos");
    assert_eq!(Target::HomeManager.toggled(), Target::NixosSystem);
    assert_eq!(Target::NixosSystem.toggled(), Target::HomeManager);
}

#[test]
fn config_paths_follow_the_target() {
    let mut c = Config::default();
    assert_eq!(
        c.managed_file("/cfg"),
        "/cfg/nixbox-system-packages.nix"
    );
    assert_eq!(
        c.managed_file_for("/cfg", Target::HomeManager),
        "/cfg/nixbox-home-packages.nix"
    );
    assert_eq!(c.home_manager_dir("/cfg"), "/cfg");
    assert_eq!(c.main_file("/cfg", true), "/cfg/configuration.nix");
    assert_eq!(c.main_file("/cfg", false), "/etc/nixos/configuration.nix");
    assert_eq!(c.main_file_for("/cfg", Target::HomeManager, false), "/cfg/home.nix");
    c.nixos_main_file = Some(String::from("/x/configuration.nix"));
    c.home_manager_main_file = Some(String::from("/x/home.nix"));
    assert_eq!(c.main_file("/cfg", true), "/x/configuration.nix");
    assert_eq!(c.main_file_for("/cfg", Target::HomeManager, true), "/x/home.nix");
    c.target = Target::HomeManager;
    assert_eq!(c.managed_file("/cfg"), "/cfg/nixbox-home-packages.nix");
}

#[test]
fn config_dir_prefers_override_then_base_then_home() {
    assert_eq!(
        config_dir_from(Some(String::from("/o")), Some(String::from("/b")), "/h"),
        "/o"
    );
    assert_eq!(config_dir_from(None, Some(String::from("/b")), "/h"), "/b/nixos");
    assert_eq!(config_dir_from(None, None, "/h"), "/h/.config/nixos");
    assert_eq!(join_path("/a/", "b"), "/a/b");
}

// ---------------------------------------------------------------------------
// Searching
// ---------------------------------------------------------------------------

#[test]
fn search_arguments() {
    let args = search_args("nixpkgs-unstable", "rip grep");
    assert_eq!(
        args,
        vec![
            "--quiet",
            "search",
            "--json",
            "--extra-experimental-features",
            "nix-command flakes",
            "github:NixOS/nixpkgs/nixos-unstable",
            "rip grep"
        ]
    );
}

#[test]
fn output_limits() {
    assert!(within_limit(0, 6, 6));
    assert!(!within_limit(1, 6, 6));
    assert_eq!(kept_of_chunk(0, 6, 3), 3);
    assert_eq!(kept_of_chunk(3, 3, 3), 0);
    assert_eq!(kept_of_chunk(1, 1, 3), 1);
    assert_eq!(
        output_limit_message(50 * 1024 * 1024),
        "nix search output exceeded 50 MiB; refine the query"
    );
}

#[test]
fn hits_are_capped_and_named_by_last_segment() {
    let mut hits: Vec<SearchHit> = Vec::new();
    let mut i = 0;
    while wants_hit(hits.len()) {
        push_hit(
            &mut hits,
            &format!("legacyPackages.x86_64-linux.pkg{}", i),
            format!("pkg{}", i),
            String::from("1.0"),
            String::new(),
        );
        i += 1;
    }
    assert_eq!(hits.len(), MAX_SEARCH_RESULTS);
    assert_eq!(hits[0].attr, "pkg0");
    assert_eq!(hits[MAX_SEARCH_RESULTS - 1].attr, format!("pkg{}", MAX_SEARCH_RESULTS - 1));
}

#[test]
fn hits_sort_by_package_name() {
    let mk = |p: &str| SearchHit {
        attr: p.to_string(),
        pname: p.to_string(),
        version: String::from("1"),
        description: String::new(),
    };
    let sorted = sort_hits(vec![mk("zsh"), mk("bat"), mk("fd"), mk("bat")]);
    let names: Vec<&str> = sorted.iter().map(|h| h.pname.as_str()).collect();
    assert_eq!(names, vec!["bat", "bat", "fd", "zsh"]);
}

// ---------------------------------------------------------------------------
// Flakes
// ---------------------------------------------------------------------------

#[test]
fn flake_search_query_and_args() {
    assert_eq!(
        flake_search_query("  hyprland "),
        "hyprland in:file filename:flake.nix path:/"
    );
    assert_eq!(flake_search_query("   "), "filename:flake.nix path:/");
    let args = code_search_args("x");
    assert_eq!(args[6], "search/code");
    assert_eq!(args[8], "q=x in:file filename:flake.nix path:/");
    assert_eq!(search_args("nixpkgs", "  ")[6], "^");
}

#[test]
fn api_prefix_is_stripped() {
    assert_eq!(
        strip_api_prefix("https://api.github.com/repos/a/b/contents/flake.nix"),
        "repos/a/b/contents/flake.nix"
    );
    assert_eq!(strip_api_prefix("repos/a/b"), "repos/a/b");
}

#[test]
fn identifiers_are_found_whole() {
    assert!(contains_identifier("nixosModules.default = {};", "nixosModules"));
    assert!(!contains_identifier("myNixosModules = {};", "nixosModules"));
}

#[test]
fn balanced_block_takes_nested_braces() {
    let src = "x = { a = { b }; }; y";
    assert_eq!(balanced_block(src, 4), Some(String::from(" a = { b }; ")));
    assert_eq!(balanced_block("{ open", 0), None);
}

#[test]
fn flake_details_combine_sources() {
    let hit = FlakeHit::from_search_item(
        String::from("a/b"),
        String::from("https://github.com/a/b"),
        String::from("flake.nix"),
        Some(String::from("  inputs  = x ")),
        String::from("https://api.github.com/repos/a/b/contents/flake.nix"),
    );
    assert_eq!(hit.match_fragment.as_deref(), Some("inputs = x"));
    assert_eq!(hit.content_url(), "repos/a/b/contents/flake.nix");
    let info = RepositoryInfo {
        description: Some(String::from("   ")),
        stargazers_count: 7,
        topics: vec![String::from("nix")],
        homepage: Some(String::from("https://x")),
        default_branch: String::from("main"),
        pushed_at: None,
        archived: false,
    };
    let d = flake_details(&hit, info, "{ inputs = { nixpkgs.url = \"x\"; }; outputs = _: { packages = {}; }; }");
    assert_eq!(d.description, None);
    assert_eq!(d.stars, 7);
    assert_eq!(d.homepage.as_deref(), Some("https://x"));
    assert_eq!(d.inputs, vec!["nixpkgs"]);
    assert_eq!(d.outputs, vec!["packages"]);
}

// ---------------------------------------------------------------------------
// Rebuilds
// ---------------------------------------------------------------------------

#[test]
fn home_manager_switch_with_and_without_binary() {
    let (cmd, args) = home_manager_switch_cmd("/cfg", "ana", Some(String::from("/bin/hm")));
    assert_eq!(cmd, "/bin/hm");
    assert_eq!(args, vec!["switch", "--flake", "/cfg#ana"]);
    let (cmd, args) = home_manager_switch_cmd("/cfg", "ana", None);
    assert_eq!(cmd, "nix");
    assert_eq!(
        args,
        vec!["run", "nixpkgs#home-manager", "--", "switch", "--flake", "/cfg#ana"]
    );
}

#[test]
fn switch_command_follows_detection() {
    let (cmd, _) = switch_command(Target::HomeManager, true, "/cfg", "ana", None);
    assert_eq!(cmd, "nix");
    let (cmd, args) = switch_command(Target::HomeManager, false, "/cfg", "ana", None);
    assert_eq!(cmd, "sudo");
    assert_eq!(args[3], "/cfg#nixos");
    let (cmd, _) = switch_command(Target::NixosSystem, true, "/cfg", "ana", None);
    assert_eq!(cmd, "sudo");
}

#[test]
fn profile_candidates_in_order() {
    let c = nix_profile_candidates("nix", "/home/ana", "ana");
    assert_eq!(
        c,
        vec![
            "/run/wrappers/bin/nix",
            "/home/ana/.nix-profile/bin/nix",
            "/etc/profiles/per-user/ana/bin/nix",
            "/run/current-system/sw/bin/nix",
            "/nix/var/nix/profiles/default/bin/nix",
        ]
    );
    let found = first_existing(c.clone(), &vec![false, false, true, true, false]);
    assert_eq!(found.as_deref(), Some("/etc/profiles/per-user/ana/bin/nix"));
    assert_eq!(first_existing(c, &vec![false; 5]), None);
}

#[test]
fn build_events() {
    assert!(matches!(output_line("first line  \n"), BuildEvent::Line(l) if l == "first line"));
    assert!(matches!(finished_event("sudo", true, false, None), BuildEvent::Cancelled));
    assert!(matches!(finished_event("sudo", false, true, Some(0)), BuildEvent::Finished(Ok(()))));
    assert!(matches!(
        finished_event("sudo", false, false, Some(1)),
        BuildEvent::Finished(Err(m)) if m == "sudo exited with status 1"
    ));
    assert!(matches!(
        finished_event("sudo", false, false, None),
        BuildEvent::Finished(Err(m)) if m == "sudo exited with status <signal>"
    ));
}

#[test]
fn numbers_in_decimal() {
    assert_eq!(decimal_string(0), "0");
    assert_eq!(decimal_string(1205), "1205");
    assert_eq!(signed_decimal_string(-42), "-42");
    assert_eq!(signed_decimal_string(i64::MIN), "-9223372036854775808");
}

#[test]
fn home_configuration_probe() {
    assert_eq!(
        home_configuration_expr("/cfg", "ana"),
        "let f = builtins.getFlake \"/cfg\"; in f ? homeConfigurations && f.homeConfigurations ? \"ana\""
    );
    assert!(evaluation_says_true(true, b" true\n"));
    assert!(!evaluation_says_true(true, b"false"));
    assert!(!evaluation_says_true(false, b"true"));
    assert!(!evaluation_says_true(true, &[0xff, 0xfe]));
}

#[test]
fn settings_live_under_the_config_directory() {
    assert_eq!(
        settings_path_in(Some(String::from("/home/ana/.config"))).as_deref(),
        Some("/home/ana/.config/nixbox/settings.json")
    );
    assert_eq!(settings_path_in(None), None);
}

#[test]
fn search_outcomes_in_order() {
    let mk = |p: &str| SearchHit {
        attr: p.to_string(),
        pname: p.to_string(),
        version: String::from("1"),
        description: String::new(),
    };
    let over = search_outcome(Err(String::from("too big")), false, b"x", None);
    assert_eq!(over.err().as_deref(), Some("too big"));
    let failed = search_outcome(Ok(()), false, b"  error: flake not found\n", Some(vec![mk("a")]));
    assert_eq!(failed.err().as_deref(), Some("nix search failed: error: flake not found"));
    let bad = search_outcome(Ok(()), true, b"", None);
    assert_eq!(bad.err().as_deref(), Some("parsing nix search JSON"));
    let good = search_outcome(Ok(()), true, b"", Some(vec![mk("zsh"), mk("bat")])).unwrap();
    let names: Vec<&str> = good.iter().map(|h| h.pname.as_str()).collect();
    assert_eq!(names, vec!["bat", "zsh"]);
    assert_eq!(search_failure_message(&[0xff, b'!']), "nix search failed: \u{fffd}!");
}

#[test]
fn managed_files_stand_in_the_config_dir() {
    let c = Config::default();
    for dir in ["/cfg", "/cfg/", ""] {
        let dir_path = std::path::PathBuf::from(c.home_manager_dir(dir));
        for t in [Target::HomeManager, Target::NixosSystem] {
            let file = std::path::PathBuf::from(c.managed_file_for(dir, t));
            assert_eq!(file.parent(), Some(dir_path.as_path()));
        }
    }
}
