use std::collections::HashMap;

use sys_scripts::wizard::{
    binary_needs_update, binary_qualifies, config_dir_action, config_needs_finnhub_key,
    dotfile_links, finalize_plan, librewolf_plan, render_config_template, secrets_paths,
    update_config_placeholders, update_sidebar_toggle_path, waybar_config_action,
    waybar_config_jobs, ConfigDirAction, WaybarConfigAction, LIBREWOLF_OVERRIDES,
};

#[test]
fn test_update_config_placeholders_replaces_keys() {
    let original = "finnhub = \"YOUR_FINNHUB_KEY_HERE\"\n";
    let updated = update_config_placeholders(original, "fin-key").expect("no update");
    assert!(updated.contains("fin-key"));
}

#[test]
fn test_update_config_placeholders_removes_legacy_weather_section() {
    let original = r#"# -------------------------------
# [waybar_weather]
# Settings for our weather module
# -------------------------------
[waybar_weather]
owm_api_key = "YOUR_SECRET_OWM_KEY_HERE"

[waybar_finance]
api_key = "YOUR_FINNHUB_KEY_HERE"
"#;
    let updated = update_config_placeholders(original, "fin-key").expect("no update");
    assert!(!updated.contains("waybar_weather"));
    assert!(!updated.contains("YOUR_SECRET_OWM_KEY"));
    assert!(updated.contains("fin-key"));
}

#[test]
fn test_update_sidebar_toggle_path_replaces_repo() {
    let original = r#"{
    "custom/sidebar_toggle": {
        "on-click": "$HOME/rust-wayland-power/sidebar-toggle"
    }
}
"#;
    let updated = update_sidebar_toggle_path(original).expect("no update");
    assert!(updated.contains("$HOME/Genoa/sidebar-toggle"));
}

/// Runs the Waybar template step over an in-memory file tree, the way the
/// wizard runs it over the real one.
#[test]
fn test_setup_waybar_configs_copies_template() {
    let mut files: HashMap<String, String> = HashMap::new();
    files.insert(
        "/home/testuser/.config/waybar/swayConfig.jsonc.template".to_string(),
        "{\"test\": true}".to_string(),
    );
    for job in waybar_config_jobs("/home/testuser") {
        let action = waybar_config_action(
            files.contains_key(&job.template),
            files.contains_key(&job.target),
        );
        if action == WaybarConfigAction::CopyTemplate {
            let content = files[&job.template].clone();
            files.insert(job.target.clone(), content);
        }
    }
    let created = files.get("/home/testuser/.config/waybar/swayConfig.jsonc").unwrap();
    assert_eq!(created, "{\"test\": true}");
    assert!(!files.contains_key("/home/testuser/.config/waybar/niriConfig.jsonc"));
}

#[test]
fn update_config_exact_output() {
    let original = "[waybar_finance]\r\napi_key = \"YOUR_FINNHUB_KEY_HERE\"\n\nowm_api_key = \"x\"\nkeep = 1";
    let updated = update_config_placeholders(original, "K").unwrap();
    assert_eq!(updated, "[waybar_finance]\napi_key = \"K\"\nkeep = 1\n");
}

#[test]
fn update_config_untouched_returns_none() {
    assert!(update_config_placeholders("[a]\nb = 1\n", "K").is_none());
    assert!(update_config_placeholders("", "K").is_none());
}

#[test]
fn update_config_partial_marker_counts_as_placeholder() {
    let updated = update_config_placeholders("key = YOUR_FINNHUB_KEY\n\n\nx\n", "K").unwrap();
    assert_eq!(updated, "key = YOUR_FINNHUB_KEY\nx\n");
}

#[test]
fn update_config_only_legacy_block() {
    let legacy = "# -------------------------------\n# [waybar_weather]\n# Settings for our weather module\n# -------------------------------\n[waybar_weather]\nowm_api_key = \"YOUR_SECRET_OWM_KEY_HERE\"\n";
    let input = format!("a = 1\n{legacy}\nb = 2\n");
    assert_eq!(update_config_placeholders(&input, "K").unwrap(), "a = 1\nb = 2\n");
}

#[test]
fn update_config_fills_every_placeholder_on_the_line() {
    let updated =
        update_config_placeholders("k = YOUR_FINNHUB_KEY_HERE/YOUR_FINNHUB_KEY_HERE", "é").unwrap();
    assert_eq!(updated, "k = é/é\n");
}

#[test]
fn render_template_fills_key() {
    let t = "[finance]\nkey = \"YOUR_FINNHUB_KEY_HERE\"\nother = \"YOUR_FINNHUB_KEY_HERE\"\n";
    assert_eq!(
        render_config_template(t, "abc"),
        "[finance]\nkey = \"abc\"\nother = \"abc\"\n"
    );
    assert_eq!(render_config_template("none here", "abc"), "none here");
}

#[test]
fn sidebar_toggle_only_first_occurrence_in_block() {
    let original = "x $HOME/rust-wayland-power/sidebar-toggle\n\"custom/sidebar_toggle\": { \"a\": { \"b\": 1 }, \"on-click\": \"$HOME/rust-wayland-power/sidebar-toggle $HOME/rust-wayland-power/sidebar-toggle\" }\ntail $HOME/rust-wayland-power/sidebar-toggle";
    let expected = "x $HOME/rust-wayland-power/sidebar-toggle\n\"custom/sidebar_toggle\": { \"a\": { \"b\": 1 }, \"on-click\": \"$HOME/Genoa/sidebar-toggle $HOME/rust-wayland-power/sidebar-toggle\" }\ntail $HOME/rust-wayland-power/sidebar-toggle";
    assert_eq!(update_sidebar_toggle_path(original).unwrap(), expected);
}

#[test]
fn sidebar_toggle_none_cases() {
    // No entry at all.
    assert!(update_sidebar_toggle_path("{ \"on-click\": \"$HOME/rust-wayland-power/sidebar-toggle\" }").is_none());
    // Entry without a block.
    assert!(update_sidebar_toggle_path("\"custom/sidebar_toggle\" $HOME/rust-wayland-power/sidebar-toggle").is_none());
    // Block never closes.
    assert!(update_sidebar_toggle_path("\"custom/sidebar_toggle\": { $HOME/rust-wayland-power/sidebar-toggle").is_none());
    // Old path only outside the block.
    assert!(update_sidebar_toggle_path("\"custom/sidebar_toggle\": { } $HOME/rust-wayland-power/sidebar-toggle").is_none());
    // Already moved.
    assert!(update_sidebar_toggle_path("\"custom/sidebar_toggle\": { \"on-click\": \"$HOME/Genoa/sidebar-toggle\" }").is_none());
}

#[test]
fn waybar_actions() {
    assert_eq!(waybar_config_action(true, false), WaybarConfigAction::CopyTemplate);
    assert_eq!(waybar_config_action(true, true), WaybarConfigAction::AlreadyPresent);
    assert_eq!(waybar_config_action(false, true), WaybarConfigAction::AlreadyPresent);
    assert_eq!(waybar_config_action(false, false), WaybarConfigAction::Skip);
}

#[test]
fn waybar_jobs_paths() {
    let jobs = waybar_config_jobs("/home/u/");
    assert_eq!(jobs.len(), 2);
    assert_eq!(jobs[1].name, "niriConfig.jsonc");
    assert_eq!(jobs[1].target, "/home/u/.config/waybar/niriConfig.jsonc");
    assert_eq!(jobs[1].template, "/home/u/.config/waybar/niriConfig.jsonc.template");
}

#[test]
fn librewolf_plan_paths_and_commands() {
    let plan = librewolf_plan("/home/u");
    assert_eq!(plan.dir, "/home/u/.librewolf");
    assert_eq!(plan.override_file, "/home/u/.librewolf/librewolf.overrides.cfg");
    assert!(plan.config.contains("defaultPref(\"webgl.disabled\", false);"));
    assert_eq!(plan.config, LIBREWOLF_OVERRIDES);
    assert_eq!(plan.commands.len(), 4);
    assert_eq!(plan.commands[2].program, "xdg-mime");
    assert_eq!(plan.commands[2].args, vec!["default", "librewolf.desktop", "x-scheme-handler/https"]);
    assert_eq!(plan.commands[3].program, "xdg-settings");
    assert_eq!(plan.commands[3].args, vec!["set", "default-web-browser", "librewolf.desktop"]);
}

#[test]
fn secrets_paths_and_actions() {
    let p = secrets_paths("/home/u");
    assert_eq!(p.config_dir, "/home/u/.config/rust-dotfiles");
    assert_eq!(p.config_path, "/home/u/.config/rust-dotfiles/config.toml");
    assert_eq!(p.backup_path, "/home/u/.config/rust-dotfiles.bak");
    assert_eq!(p.wallpaper_dir, "/home/u/Pictures/Wallpapers");
    assert_eq!(config_dir_action(false, false), ConfigDirAction::Create);
    assert_eq!(config_dir_action(true, true), ConfigDirAction::Keep);
    assert_eq!(config_dir_action(true, false), ConfigDirAction::BackupAndCreate);
    assert!(config_needs_finnhub_key("k = \"YOUR_FINNHUB_KEY_HERE\""));
    assert!(!config_needs_finnhub_key("k = \"abc\""));
}

#[test]
fn binary_selection() {
    let expected = vec!["waybar-weather".to_string(), "sidebar".to_string()];
    assert!(binary_qualifies(true, Some(0o755), "sidebar", false, &expected));
    assert!(binary_qualifies(true, Some(0o100), "sidebar", false, &expected));
    assert!(!binary_qualifies(true, Some(0o644), "sidebar", false, &expected));
    assert!(!binary_qualifies(true, None, "sidebar", false, &expected));
    assert!(!binary_qualifies(false, Some(0o755), "sidebar", false, &expected));
    assert!(!binary_qualifies(true, Some(0o755), ".sidebar", false, &expected));
    assert!(!binary_qualifies(true, Some(0o755), "sidebar.d", true, &expected));
    assert!(!binary_qualifies(true, Some(0o755), "build-script", false, &expected));
}

#[test]
fn binary_update_rule() {
    assert!(binary_needs_update(Some(10), Some(5)));
    assert!(!binary_needs_update(Some(5), Some(5)));
    assert!(!binary_needs_update(Some(4), Some(5)));
    assert!(binary_needs_update(Some(4), None));
    assert!(binary_needs_update(None, None));
    assert!(!binary_needs_update(None, Some(5)));
    assert!(binary_needs_update(Some(-1), Some(-2)));
}

#[test]
fn dotfile_link_table() {
    let links = dotfile_links("/home/u", "/repo/");
    assert_eq!(links.len(), 14);
    assert_eq!(links[0].src, "/repo/.tmux.conf");
    assert_eq!(links[0].dest, "/home/u/.tmux.conf");
    assert_eq!(links[13].src, "/repo/.config/mako");
    assert_eq!(links[13].dest, "/home/u/.config/mako");
}

#[test]
fn sidebar_toggle_update_settles() {
    let original = "{\n  \"custom/sidebar_toggle\": {\n    \"on-click\": \"$HOME/rust-wayland-power/sidebar-toggle\"\n  },\n  \"other\": { }\n}\n";
    let updated = update_sidebar_toggle_path(original).unwrap();
    assert_eq!(updated.chars().count(), original.chars().count() - 13);
    assert!(update_sidebar_toggle_path(&updated).is_none());
}

#[test]
fn finalize_hooks() {
    let plan = finalize_plan("/home/u");
    assert_eq!(plan.tpm_script, "/home/u/.tmux/plugins/tpm/bin/install_plugins");
    assert_eq!(plan.nvim_config, "/home/u/.config/nvim/init.lua");
    assert_eq!(plan.nvim.program, "nvim");
    assert_eq!(plan.nvim.args, vec!["--headless", "+Lazy! sync", "+qa"]);
}
