//! The command policy table: for every IPC command, which check stands
//! in front of it, i.e. who may call it.  The checks themselves run in the
//! commands; the table is the one place that lists who may call what.

use vstd::prelude::*;
use crate::text::{chars_of, extend_chars, str_eq, string_of};

verus! {

/// Permission names that skins declare in their manifest.
pub const PERM_REGISTRY: &'static str = "registry";
pub const PERM_SHELL: &'static str = "shell";
pub const PERM_SYSTEM: &'static str = "system";
pub const PERM_MEDIA: &'static str = "media";
pub const PERM_NOTIFY: &'static str = "notify";
pub const PERM_SYS_INFO: &'static str = "sys_info";
pub const PERM_NETWORK: &'static str = "network";
pub const PERM_OPEN_LINK: &'static str = "open_link";
pub const PERM_CLIPBOARD: &'static str = "clipboard";
pub const PERM_MIC: &'static str = "mic";
pub const PERM_FILE_SYSTEM: &'static str = "file_system";
pub const PERM_CONTROL: &'static str = "control";

/// Who may call a command.
#[derive(Clone, Copy, Debug)]
pub enum Gate {
    /// Only the manager window (`require_manager`).
    ManagerOnly,
    /// Only the log window (`require_log_window`).
    LogWindow,
    /// The calling skin must declare the permission; the member is the name
    /// of the permission constant (e.g. "PERM_SYS_INFO").
    Perm(&'static str),
    /// Either of two permissions (`require_any_perm`).
    AnyPerm,
    /// Free on the caller itself, the control permission on another skin
    /// (`resolve_control_target`).
    ControlTarget,
    /// The caller's own skin identity and sandbox (`caller_skin`).
    CallerSkin,
    /// The skin window label is checked (`strip_prefix("skin-")`).
    SkinLabel,
    /// No gate: the command only acts on the caller's own window.
    Ungated,
}

/// The source marker that a command behind `g` must contain.
pub open spec fn marker_text(g: Gate) -> Option<Seq<char>> {
    match g {
        Gate::ManagerOnly => Some("require_manager(&window)"@),
        Gate::LogWindow => Some("require_log_window(&window)"@),
        Gate::Perm(p) => Some("require_perm(&state, &window, "@ + p@ + ")"@),
        Gate::AnyPerm => Some("require_any_perm(&state, &window"@),
        Gate::ControlTarget => Some("resolve_control_target(&state, &window"@),
        Gate::CallerSkin => Some("caller_skin("@),
        Gate::SkinLabel => Some("strip_prefix(\"skin-\")"@),
        Gate::Ungated => None,
    }
}

impl Gate {
    /// The marker text that must appear in the body of a command behind
    /// this gate; `None` for an ungated command.
    pub fn marker(&self) -> (r: Option<String>)
        ensures
            match r {
                Some(s) => marker_text(*self) == Some(s@),
                None => marker_text(*self) is None,
            },
    {
        match self {
            Gate::ManagerOnly => Some("require_manager(&window)".to_string()),
            Gate::LogWindow => Some("require_log_window(&window)".to_string()),
            Gate::Perm(p) => {
                let mut v = chars_of("require_perm(&state, &window, ");
                let pv = chars_of(p);
                extend_chars(&mut v, &pv);
                v.push(')');
                let close = ")";
                proof {
                    reveal_strlit(")");
                }
                assert(v@ =~= "require_perm(&state, &window, "@ + p@ + close@);
                Some(string_of(&v))
            },
            Gate::AnyPerm => Some("require_any_perm(&state, &window".to_string()),
            Gate::ControlTarget => Some("resolve_control_target(&state, &window".to_string()),
            Gate::CallerSkin => Some("caller_skin(".to_string()),
            Gate::SkinLabel => Some("strip_prefix(\"skin-\")".to_string()),
            Gate::Ungated => None,
        }
    }
}

/// The permission value that a permission constant name stands for.
pub open spec fn perm_value(name: Seq<char>) -> Option<Seq<char>> {
    if name == "PERM_REGISTRY"@ {
        Some("registry"@)
    } else if name == "PERM_SHELL"@ {
        Some("shell"@)
    } else if name == "PERM_SYSTEM"@ {
        Some("system"@)
    } else if name == "PERM_MEDIA"@ {
        Some("media"@)
    } else if name == "PERM_NOTIFY"@ {
        Some("notify"@)
    } else if name == "PERM_SYS_INFO"@ {
        Some("sys_info"@)
    } else if name == "PERM_NETWORK"@ {
        Some("network"@)
    } else if name == "PERM_OPEN_LINK"@ {
        Some("open_link"@)
    } else if name == "PERM_CLIPBOARD"@ {
        Some("clipboard"@)
    } else if name == "PERM_MIC"@ {
        Some("mic"@)
    } else if name == "PERM_FILE_SYSTEM"@ {
        Some("file_system"@)
    } else if name == "PERM_CONTROL"@ {
        Some("control"@)
    } else {
        None
    }
}

/// The permission value of a permission constant name of the table.
pub fn perm_const_value(name: &str) -> (r: &'static str)
    requires
        perm_value(name@) is Some,
    ensures
        perm_value(name@) == Some(r@),
{
    if str_eq(name, "PERM_REGISTRY") {
        return PERM_REGISTRY;
    }
    if str_eq(name, "PERM_SHELL") {
        return PERM_SHELL;
    }
    if str_eq(name, "PERM_SYSTEM") {
        return PERM_SYSTEM;
    }
    if str_eq(name, "PERM_MEDIA") {
        return PERM_MEDIA;
    }
    if str_eq(name, "PERM_NOTIFY") {
        return PERM_NOTIFY;
    }
    if str_eq(name, "PERM_SYS_INFO") {
        return PERM_SYS_INFO;
    }
    if str_eq(name, "PERM_NETWORK") {
        return PERM_NETWORK;
    }
    if str_eq(name, "PERM_OPEN_LINK") {
        return PERM_OPEN_LINK;
    }
    if str_eq(name, "PERM_CLIPBOARD") {
        return PERM_CLIPBOARD;
    }
    if str_eq(name, "PERM_MIC") {
        return PERM_MIC;
    }
    if str_eq(name, "PERM_FILE_SYSTEM") {
        return PERM_FILE_SYSTEM;
    }
    PERM_CONTROL
}

/// Every IPC command with its gate, in the order the handler list
/// registers them.
pub open spec fn policy_rows() -> Seq<(&'static str, Gate)> {
    seq![
        ("start_skin_drag", Gate::Ungated),
        ("start_skin_resize", Gate::Ungated),
        ("list_skins", Gate::ManagerOnly),
        ("get_skin_detail", Gate::ManagerOnly),
        ("load_skin", Gate::ManagerOnly),
        ("unload_skin", Gate::ManagerOnly),
        ("reload_skin", Gate::ManagerOnly),
        ("set_skin_opacity", Gate::ManagerOnly),
        ("set_skin_placement", Gate::ManagerOnly),
        ("set_skin_click_through", Gate::ManagerOnly),
        ("set_skin_position_locked", Gate::ManagerOnly),
        ("set_skin_resizable", Gate::ManagerOnly),
        ("set_skin_zoom", Gate::ManagerOnly),
        ("set_skin_edge_snap", Gate::ManagerOnly),
        ("set_skin_snap_gap", Gate::ManagerOnly),
        ("set_skin_position", Gate::ManagerOnly),
        ("bring_skin_onscreen", Gate::ManagerOnly),
        ("show_skin_context_menu", Gate::SkinLabel),
        ("skin_set_menu_items", Gate::SkinLabel),
        ("set_skin_size", Gate::ManagerOnly),
        ("set_skin_custom_setting", Gate::ManagerOnly),
        ("reset_skin_config", Gate::ManagerOnly),
        ("pick_skin_package", Gate::ManagerOnly),
        ("package_skin", Gate::ManagerOnly),
        ("inspect_skin_package", Gate::ManagerOnly),
        ("install_skin_package", Gate::ManagerOnly),
        ("remove_skin", Gate::ManagerOnly),
        ("duplicate_skin", Gate::ManagerOnly),
        ("sync_skin_copy", Gate::ManagerOnly),
        ("get_app_config", Gate::ManagerOnly),
        ("set_autostart", Gate::ManagerOnly),
        ("get_autostart", Gate::ManagerOnly),
        ("set_theme", Gate::ManagerOnly),
        ("set_language", Gate::ManagerOnly),
        ("set_skin_visibility", Gate::ManagerOnly),
        ("set_skin_groups", Gate::ManagerOnly),
        ("capture_layout", Gate::ManagerOnly),
        ("apply_layout", Gate::ManagerOnly),
        ("set_layouts", Gate::ManagerOnly),
        ("set_hotkey", Gate::ManagerOnly),
        ("set_skin_hotkey", Gate::ManagerOnly),
        ("set_hot_reload", Gate::ManagerOnly),
        ("check_update", Gate::ManagerOnly),
        ("set_update_check", Gate::ManagerOnly),
        ("open_release_page", Gate::ManagerOnly),
        ("download_update", Gate::ManagerOnly),
        ("install_update", Gate::ManagerOnly),
        ("take_hotkey_error", Gate::ManagerOnly),
        ("open_skins_folder", Gate::ManagerOnly),
        ("pick_path", Gate::ManagerOnly),
        ("open_skin_folder", Gate::ManagerOnly),
        ("list_system_fonts", Gate::ManagerOnly),
        ("list_gpu_adapters", Gate::ManagerOnly),
        ("capture_skin_preview", Gate::ManagerOnly),
        ("take_pending_package_install", Gate::ManagerOnly),
        ("export_config", Gate::ManagerOnly),
        ("inspect_backup", Gate::ManagerOnly),
        ("import_config", Gate::ManagerOnly),
        ("open_log_window", Gate::ManagerOnly),
        ("get_app_log", Gate::LogWindow),
        ("clear_app_log", Gate::LogWindow),
        ("open_skin_devtools", Gate::SkinLabel),
        ("get_cpu_info", Gate::Perm("PERM_SYS_INFO")),
        ("get_gpu_info", Gate::Perm("PERM_SYS_INFO")),
        ("get_memory_info", Gate::Perm("PERM_SYS_INFO")),
        ("get_disks_info", Gate::Perm("PERM_SYS_INFO")),
        ("get_disk_space", Gate::Perm("PERM_SYS_INFO")),
        ("get_network_info", Gate::Perm("PERM_SYS_INFO")),
        ("get_audio_spectrum", Gate::Perm("PERM_MEDIA")),
        ("skin_read_file", Gate::CallerSkin),
        ("skin_write_file", Gate::CallerSkin),
        ("skin_list_dir", Gate::CallerSkin),
        ("skin_delete_file", Gate::CallerSkin),
        ("skin_set_setting", Gate::CallerSkin),
        ("skin_get_setting", Gate::CallerSkin),
        ("read_registry_value", Gate::Perm("PERM_REGISTRY")),
        ("run_command", Gate::Perm("PERM_SHELL")),
        ("get_os_info", Gate::Perm("PERM_SYS_INFO")),
        ("get_processes", Gate::Perm("PERM_SYS_INFO")),
        ("get_volume", Gate::Perm("PERM_MEDIA")),
        ("set_volume", Gate::Perm("PERM_MEDIA")),
        ("set_mute", Gate::Perm("PERM_MEDIA")),
        ("get_media_info", Gate::Perm("PERM_MEDIA")),
        ("media_control", Gate::Perm("PERM_MEDIA")),
        ("media_seek", Gate::Perm("PERM_MEDIA")),
        ("read_clipboard_text", Gate::Perm("PERM_CLIPBOARD")),
        ("write_clipboard_text", Gate::Perm("PERM_CLIPBOARD")),
        ("open_external", Gate::AnyPerm),
        ("show_notification", Gate::Perm("PERM_NOTIFY")),
        ("lock_workstation", Gate::Perm("PERM_SYSTEM")),
        ("monitor_off", Gate::Perm("PERM_SYSTEM")),
        ("sleep", Gate::Perm("PERM_SYSTEM")),
        ("power_control", Gate::Perm("PERM_SYSTEM")),
        ("empty_recycle_bin", Gate::Perm("PERM_SYSTEM")),
        ("get_mic_spectrum", Gate::Perm("PERM_MIC")),
        ("get_battery_info", Gate::Perm("PERM_SYS_INFO")),
        ("get_idle_time", Gate::Perm("PERM_SYS_INFO")),
        ("get_foreground_window_info", Gate::Perm("PERM_SYS_INFO")),
        ("get_monitors", Gate::Perm("PERM_SYS_INFO")),
        ("get_system_theme", Gate::Perm("PERM_SYS_INFO")),
        ("skin_log", Gate::CallerSkin),
        ("skin_console_log", Gate::SkinLabel),
        ("skin_read_any_file", Gate::Perm("PERM_FILE_SYSTEM")),
        ("skin_write_any_file", Gate::Perm("PERM_FILE_SYSTEM")),
        ("skin_list_any_dir", Gate::Perm("PERM_FILE_SYSTEM")),
        ("skin_create_any_dir", Gate::Perm("PERM_FILE_SYSTEM")),
        ("skin_delete_any_path", Gate::Perm("PERM_FILE_SYSTEM")),
        ("skin_get_window_config", Gate::ControlTarget),
        ("skin_set_window_config", Gate::ControlTarget),
        ("skin_load", Gate::ControlTarget),
        ("skin_unload", Gate::ControlTarget),
        ("skin_reload", Gate::ControlTarget),
        ("skin_list_skins", Gate::Perm("PERM_CONTROL")),
        ("http_request", Gate::Perm("PERM_NETWORK")),
        ("skin_broadcast", Gate::CallerSkin),
        ("skin_hide", Gate::ControlTarget),
        ("skin_show", Gate::ControlTarget),
    ]
}

/// The command policy table.
pub fn command_policies() -> (v: Vec<(&'static str, Gate)>)
    ensures
        v@ == policy_rows(),
{
    let v: Vec<(&'static str, Gate)> = vec![
        ("start_skin_drag", Gate::Ungated),
        ("start_skin_resize", Gate::Ungated),
        ("list_skins", Gate::ManagerOnly),
        ("get_skin_detail", Gate::ManagerOnly),
        ("load_skin", Gate::ManagerOnly),
        ("unload_skin", Gate::ManagerOnly),
        ("reload_skin", Gate::ManagerOnly),
        ("set_skin_opacity", Gate::ManagerOnly),
        ("set_skin_placement", Gate::ManagerOnly),
        ("set_skin_click_through", Gate::ManagerOnly),
        ("set_skin_position_locked", Gate::ManagerOnly),
        ("set_skin_resizable", Gate::ManagerOnly),
        ("set_skin_zoom", Gate::ManagerOnly),
        ("set_skin_edge_snap", Gate::ManagerOnly),
        ("set_skin_snap_gap", Gate::ManagerOnly),
        ("set_skin_position", Gate::ManagerOnly),
        ("bring_skin_onscreen", Gate::ManagerOnly),
        ("show_skin_context_menu", Gate::SkinLabel),
        ("skin_set_menu_items", Gate::SkinLabel),
        ("set_skin_size", Gate::ManagerOnly),
        ("set_skin_custom_setting", Gate::ManagerOnly),
        ("reset_skin_config", Gate::ManagerOnly),
        ("pick_skin_package", Gate::ManagerOnly),
        ("package_skin", Gate::ManagerOnly),
        ("inspect_skin_package", Gate::ManagerOnly),
        ("install_skin_package", Gate::ManagerOnly),
        ("remove_skin", Gate::ManagerOnly),
        ("duplicate_skin", Gate::ManagerOnly),
        ("sync_skin_copy", Gate::ManagerOnly),
        ("get_app_config", Gate::ManagerOnly),
        ("set_autostart", Gate::ManagerOnly),
        ("get_autostart", Gate::ManagerOnly),
        ("set_theme", Gate::ManagerOnly),
        ("set_language", Gate::ManagerOnly),
        ("set_skin_visibility", Gate::ManagerOnly),
        ("set_skin_groups", Gate::ManagerOnly),
        ("capture_layout", Gate::ManagerOnly),
        ("apply_layout", Gate::ManagerOnly),
        ("set_layouts", Gate::ManagerOnly),
        ("set_hotkey", Gate::ManagerOnly),
        ("set_skin_hotkey", Gate::ManagerOnly),
        ("set_hot_reload", Gate::ManagerOnly),
        ("check_update", Gate::ManagerOnly),
        ("set_update_check", Gate::ManagerOnly),
        ("open_release_page", Gate::ManagerOnly),
        ("download_update", Gate::ManagerOnly),
        ("install_update", Gate::ManagerOnly),
        ("take_hotkey_error", Gate::ManagerOnly),
        ("open_skins_folder", Gate::ManagerOnly),
        ("pick_path", Gate::ManagerOnly),
        ("open_skin_folder", Gate::ManagerOnly),
        ("list_system_fonts", Gate::ManagerOnly),
        ("list_gpu_adapters", Gate::ManagerOnly),
        ("capture_skin_preview", Gate::ManagerOnly),
        ("take_pending_package_install", Gate::ManagerOnly),
        ("export_config", Gate::ManagerOnly),
        ("inspect_backup", Gate::ManagerOnly),
        ("import_config", Gate::ManagerOnly),
        ("open_log_window", Gate::ManagerOnly),
        ("get_app_log", Gate::LogWindow),
        ("clear_app_log", Gate::LogWindow),
        ("open_skin_devtools", Gate::SkinLabel),
        ("get_cpu_info", Gate::Perm("PERM_SYS_INFO")),
        ("get_gpu_info", Gate::Perm("PERM_SYS_INFO")),
        ("get_memory_info", Gate::Perm("PERM_SYS_INFO")),
        ("get_disks_info", Gate::Perm("PERM_SYS_INFO")),
        ("get_disk_space", Gate::Perm("PERM_SYS_INFO")),
        ("get_network_info", Gate::Perm("PERM_SYS_INFO")),
        ("get_audio_spectrum", Gate::Perm("PERM_MEDIA")),
        ("skin_read_file", Gate::CallerSkin),
        ("skin_write_file", Gate::CallerSkin),
        ("skin_list_dir", Gate::CallerSkin),
        ("skin_delete_file", Gate::CallerSkin),
        ("skin_set_setting", Gate::CallerSkin),
        ("skin_get_setting", Gate::CallerSkin),
        ("read_registry_value", Gate::Perm("PERM_REGISTRY")),
        ("run_command", Gate::Perm("PERM_SHELL")),
        ("get_os_info", Gate::Perm("PERM_SYS_INFO")),
        ("get_processes", Gate::Perm("PERM_SYS_INFO")),
        ("get_volume", Gate::Perm("PERM_MEDIA")),
        ("set_volume", Gate::Perm("PERM_MEDIA")),
        ("set_mute", Gate::Perm("PERM_MEDIA")),
        ("get_media_info", Gate::Perm("PERM_MEDIA")),
        ("media_control", Gate::Perm("PERM_MEDIA")),
        ("media_seek", Gate::Perm("PERM_MEDIA")),
        ("read_clipboard_text", Gate::Perm("PERM_CLIPBOARD")),
        ("write_clipboard_text", Gate::Perm("PERM_CLIPBOARD")),
        ("open_external", Gate::AnyPerm),
        ("show_notification", Gate::Perm("PERM_NOTIFY")),
        ("lock_workstation", Gate::Perm("PERM_SYSTEM")),
        ("monitor_off", Gate::Perm("PERM_SYSTEM")),
        ("sleep", Gate::Perm("PERM_SYSTEM")),
        ("power_control", Gate::Perm("PERM_SYSTEM")),
        ("empty_recycle_bin", Gate::Perm("PERM_SYSTEM")),
        ("get_mic_spectrum", Gate::Perm("PERM_MIC")),
        ("get_battery_info", Gate::Perm("PERM_SYS_INFO")),
        ("get_idle_time", Gate::Perm("PERM_SYS_INFO")),
        ("get_foreground_window_info", Gate::Perm("PERM_SYS_INFO")),
        ("get_monitors", Gate::Perm("PERM_SYS_INFO")),
        ("get_system_theme", Gate::Perm("PERM_SYS_INFO")),
        ("skin_log", Gate::CallerSkin),
        ("skin_console_log", Gate::SkinLabel),
        ("skin_read_any_file", Gate::Perm("PERM_FILE_SYSTEM")),
        ("skin_write_any_file", Gate::Perm("PERM_FILE_SYSTEM")),
        ("skin_list_any_dir", Gate::Perm("PERM_FILE_SYSTEM")),
        ("skin_create_any_dir", Gate::Perm("PERM_FILE_SYSTEM")),
        ("skin_delete_any_path", Gate::Perm("PERM_FILE_SYSTEM")),
        ("skin_get_window_config", Gate::ControlTarget),
        ("skin_set_window_config", Gate::ControlTarget),
        ("skin_load", Gate::ControlTarget),
        ("skin_unload", Gate::ControlTarget),
        ("skin_reload", Gate::ControlTarget),
        ("skin_list_skins", Gate::Perm("PERM_CONTROL")),
        ("http_request", Gate::Perm("PERM_NETWORK")),
        ("skin_broadcast", Gate::CallerSkin),
        ("skin_hide", Gate::ControlTarget),
        ("skin_show", Gate::ControlTarget),
    ];
    assert(v@ =~= policy_rows());
    v
}

} // verus!
