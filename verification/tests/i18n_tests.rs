use driftlet::i18n::{en, normalize, tr, trf, zh, Key, DEFAULT_LANG};

#[test]
fn unknown_language_falls_back_to_chinese() {
    assert_eq!(tr("fr", Key::TrayQuit), "退出");
    assert_eq!(tr("en", Key::TrayQuit), "Quit");
    assert_eq!(tr(DEFAULT_LANG, Key::TrayQuit), "退出");
}

#[test]
fn placeholders_substitute_in_order() {
    assert_eq!(trf("en", Key::SkinNotFound, &["clock"]), "Skin 'clock' not found");
    assert_eq!(
        trf("zh-CN", Key::SkinHasNoSetting, &["clock", "color"]),
        "皮肤 'clock' 没有设置项 'color'"
    );
    assert_eq!(
        trf("en", Key::SettingValueNotAllowed, &["k", "v"]),
        "Setting 'k': value 'v' is not one of the allowed options"
    );
}

#[test]
fn arg_containing_placeholder_is_not_rescanned() {
    assert_eq!(
        trf("en", Key::SettingValueNotAllowed, &["{}", "v"]),
        "Setting '{}': value 'v' is not one of the allowed options"
    );
    assert_eq!(trf("en", Key::SkinNotFound, &["a", "b"]), "Skin 'a' not found");
    assert_eq!(
        trf("en", Key::SkinHasNoSetting, &["only-one"]),
        "Skin 'only-one' has no setting '{}'"
    );
}

#[test]
fn placeholder_counts_match_between_languages() {
    fn count(s: &str) -> usize {
        s.matches("{}").count()
    }
    for key in [
        Key::InvalidResizeDirection,
        Key::InvalidPlacement,
        Key::HotkeyRegisterFailed,
        Key::HotkeyConflict,
        Key::SkinNotFound,
        Key::ConfigSaveFailed,
        Key::TaskFailed,
        Key::SkinHasNoSetting,
        Key::SettingNeedsBool,
        Key::SettingNeedsNumber,
        Key::SettingNeedsWhat,
        Key::SettingNeedsTime,
        Key::SettingNeedsDate,
        Key::SettingNeedsColor,
        Key::SettingValueNotAllowed,
        Key::SettingNeedsArray,
        Key::SettingNeedsStringArray,
        Key::SettingNeedsTimeRange,
        Key::SettingMissingStart,
        Key::SettingMissingEnd,
        Key::SettingNeedsDateTime,
        Key::EntryNeedsObject,
        Key::EntryMissingTime,
        Key::EntryMissingText,
        Key::EntryTimeFormat,
        Key::InvalidWeekday,
        Key::DialogError,
        Key::RemoveSkinFailed,
        Key::DuplicateSkinFailed,
        Key::SyncCopyFailed,
        Key::LayoutNotFound,
        Key::ImportFolderConflict,
        Key::SkinFolderNotFound,
        Key::OpenFailed,
        Key::InvalidSkinId,
        Key::ReplaceOldDirFailed,
        Key::InstallSkinFailed,
        Key::PackageCreateFailed,
        Key::RestoreSettingsFailed,
        Key::OpenPackageFailed,
        Key::CreateTempDirFailed,
        Key::ReadPackageFailed,
        Key::ReadSkinJsonFailed,
        Key::SkinJsonParseFailed,
        Key::EntryFileMissing,
        Key::WritePreviewFailed,
        Key::WebViewNotReady,
        Key::CapturePreviewCallFailed,
        Key::AccessWebViewFailed,
        Key::PermissionDenied,
        Key::InvalidPath,
        Key::ProtectedFile,
        Key::RegistryReadFailed,
        Key::RegistryRootInvalid,
        Key::CommandTimeout,
        Key::CommandSpawnFailed,
        Key::AudioUnavailable,
        Key::VolumeFailed,
        Key::MediaControlFailed,
        Key::InvalidMediaAction,
        Key::ClipboardFailed,
        Key::InvalidTarget,
        Key::NotificationFailed,
        Key::PowerControlFailed,
        Key::InvalidPowerAction,
        Key::RecycleBinFailed,
        Key::ManagerOnly,
        Key::BackupFormatUnsupported,
        Key::ReadBackupFailed,
        Key::ExportBackupFailed,
        Key::ImportBackupFailed,
        Key::ImportPartialUnloaded,
    ] {
        assert_eq!(count(zh(key)), count(en(key)), "placeholder count mismatch for {:?}", key);
    }
}

#[test]
fn normalize_keeps_en_and_defaults_the_rest() {
    assert_eq!(normalize("en"), "en");
    assert_eq!(normalize("zh-CN"), "zh-CN");
    assert_eq!(normalize("EN"), "zh-CN");
    assert_eq!(normalize(""), "zh-CN");
}

#[test]
fn trf_without_args_returns_template() {
    assert_eq!(trf("en", Key::SkinNotFound, &[]), "Skin '{}' not found");
}
