//! Dictionaries for the user-facing strings the backend produces (tray
//! menu, skin context menu, command error messages).
//!
//! Two languages: zh-CN (the default) and en.  Any other language tag falls
//! back to Chinese.  Templates may contain `{}` placeholders, substituted in
//! order by [`trf`].

use vstd::prelude::*;
use crate::text::{chars_of, find, find_exec, push_char, is_first_occurrence};

verus! {

/// Fallback language when the configured value is missing or unknown.
pub const DEFAULT_LANG: &'static str = "zh-CN";

/// Message keys for every user-facing backend string.
#[derive(Debug, Clone, Copy, PartialEq, Eq, Structural)]
pub enum Key {
    TrayShowManager,
    TrayReloadAll,
    TrayToggleSkins,
    TraySkinsMenu,
    TraySkinsEmpty,
    TrayLayouts,
    TrayLayoutsEmpty,
    TrayQuit,
    TrayTooltip,
    HotkeyInvalid,
    HotkeyRegisterFailed,
    HotkeyConflict,
    MenuOpenConfig,
    MenuReload,
    MenuHideSkin,
    MenuUnload,
    MenuPlaceTop,
    MenuLockPosition,
    MenuClickThrough,
    MenuResizable,
    MenuEdgeSnap,
    DefaultSkinsGroup,
    InvalidResizeDirection,
    InvalidPlacement,
    ResizeWindowsOnly,
    PreviewNeedsLoadedSkin,
    SkinNotFound,
    PreviewWindowsOnly,
    SkinAlreadyLoaded,
    ConfigSaveFailed,
    TaskFailed,
    SkinHasNoSetting,
    SettingNeedsBool,
    SettingNeedsNumber,
    SettingNeedsWhat,
    WhatText,
    WhatTime,
    WhatDate,
    WhatColor,
    WhatOption,
    WhatFont,
    SettingNeedsTime,
    SettingNeedsDate,
    SettingNeedsColor,
    SettingValueNotAllowed,
    SettingNeedsArray,
    SettingNeedsStringArray,
    SettingNeedsTimeRange,
    SettingMissingStart,
    SettingMissingEnd,
    SettingNeedsDateTime,
    EntryNeedsObject,
    EntryMissingTime,
    EntryMissingText,
    EntryTimeFormat,
    InvalidWeekday,
    SkinNotLoaded,
    DialogError,
    DskinFilterName,
    PickFilterName,
    NotASkinWindow,
    InvalidMenuItems,
    ManagerOnly,
    LogWindowOnly,
    UnloadBeforeRemove,
    RemoveSkinFailed,
    UnloadBeforeDuplicate,
    DuplicateSkinFailed,
    SourceSkinMissing,
    SyncCopyFailed,
    LayoutNameInvalid,
    LayoutNotFound,
    ImportFolderConflict,
    SkinFolderNotFound,
    OpenFailed,
    InvalidSkinId,
    ReplaceOldDirFailed,
    InstallSkinFailed,
    RestoreSettingsFailed,
    OpenPackageFailed,
    PackageTooLarge,
    PackageCreateFailed,
    NotValidZip,
    TooManyFiles,
    CreateTempDirFailed,
    ReadPackageFailed,
    ExtractedTooLarge,
    NoSkinJsonInPackage,
    ReadSkinJsonFailed,
    SkinJsonParseFailed,
    PackageMissingId,
    EntryFileMissing,
    PreviewTooLarge,
    BackupFilterName,
    BackupNotZip,
    BackupTooLarge,
    BackupTooManyFiles,
    BackupExtractedTooLarge,
    InvalidBackup,
    BackupFormatUnsupported,
    ReadBackupFailed,
    ExportBackupFailed,
    ImportBackupFailed,
    ImportPartialUnloaded,
    WritePreviewFailed,
    WebViewNotReady,
    CapturePreviewCallFailed,
    AccessWebViewFailed,
    CaptureTimeout,
    PermissionDenied,
    InvalidPath,
    FileTooLarge,
    ProtectedFile,
    NotTextFile,
    InvalidBase64,
    RegistryReadFailed,
    RegistryRootInvalid,
    CommandTimeout,
    CommandSpawnFailed,
    AudioUnavailable,
    VolumeFailed,
    MediaControlFailed,
    InvalidMediaAction,
    ClipboardFailed,
    InvalidTarget,
    NotificationFailed,
    PowerControlFailed,
    InvalidPowerAction,
    RecycleBinFailed,
    ElevatedNotice,
    WindowsOnly,
}

/// The Chinese text of `key`.
pub open spec fn zh_text(key: Key) -> Seq<char> {
    match key {
        Key::TrayShowManager => "打开桌面皮肤管理器"@,
        Key::TrayReloadAll => "重新加载所有皮肤"@,
        Key::TrayToggleSkins => "隐藏已加载的皮肤"@,
        Key::TraySkinsMenu => "皮肤显隐"@,
        Key::TraySkinsEmpty => "（无已加载皮肤）"@,
        Key::TrayLayouts => "布局方案"@,
        Key::TrayLayoutsEmpty => "（无布局方案）"@,
        Key::TrayQuit => "退出"@,
        Key::TrayTooltip => "桌面皮肤管理器"@,
        Key::HotkeyInvalid => "无效的快捷键：需要修饰键 + 普通键（如 Ctrl+Alt+D）"@,
        Key::HotkeyRegisterFailed => "快捷键注册失败：{}（可能被其他程序占用）"@,
        Key::HotkeyConflict => "快捷键「{}」已被占用（全局快捷键或其他皮肤）"@,
        Key::MenuOpenConfig => "打开皮肤配置"@,
        Key::MenuReload => "刷新皮肤"@,
        Key::MenuHideSkin => "隐藏皮肤"@,
        Key::MenuUnload => "卸载皮肤"@,
        Key::MenuPlaceTop => "置顶"@,
        Key::MenuLockPosition => "禁止拖动"@,
        Key::MenuClickThrough => "鼠标穿透"@,
        Key::MenuResizable => "拖拽调整大小"@,
        Key::MenuEdgeSnap => "边缘吸附"@,
        Key::DefaultSkinsGroup => "默认皮肤"@,
        Key::InvalidResizeDirection => "无效的缩放方向: {}"@,
        Key::InvalidPlacement => "未知放置模式: {}"@,
        Key::ResizeWindowsOnly => "边框缩放仅支持 Windows"@,
        Key::PreviewNeedsLoadedSkin => "皮肤未加载 — 请先加载皮肤再截取预览"@,
        Key::SkinNotFound => "皮肤 '{}' 未找到"@,
        Key::PreviewWindowsOnly => "预览截取仅支持 Windows"@,
        Key::SkinAlreadyLoaded => "皮肤已加载"@,
        Key::ConfigSaveFailed => "配置保存失败: {}"@,
        Key::TaskFailed => "任务失败: {}"@,
        Key::SkinHasNoSetting => "皮肤 '{}' 没有设置项 '{}'"@,
        Key::SettingNeedsBool => "设置项 '{}' 需要布尔值"@,
        Key::SettingNeedsNumber => "设置项 '{}' 需要数字"@,
        Key::SettingNeedsWhat => "设置项 '{}' 需要{}"@,
        Key::WhatText => "文本"@,
        Key::WhatTime => "时间"@,
        Key::WhatDate => "日期"@,
        Key::WhatColor => "颜色值"@,
        Key::WhatOption => "选项值"@,
        Key::WhatFont => "字体名"@,
        Key::SettingNeedsTime => "设置项 '{}' 需要 HH:MM 或 HH:MM:SS 时间"@,
        Key::SettingNeedsDate => "设置项 '{}' 需要 YYYY-MM-DD 日期"@,
        Key::SettingNeedsColor => "设置项 '{}' 需要 #rrggbb 或 #rrggbbaa 颜色值"@,
        Key::SettingValueNotAllowed => "设置项 '{}' 的取值 '{}' 不在可选项内"@,
        Key::SettingNeedsArray => "设置项 '{}' 需要数组"@,
        Key::SettingNeedsStringArray => "设置项 '{}' 需要字符串数组"@,
        Key::SettingNeedsTimeRange => "设置项 '{}' 需要时间范围对象"@,
        Key::SettingMissingStart => "设置项 '{}' 缺少 start"@,
        Key::SettingMissingEnd => "设置项 '{}' 缺少 end"@,
        Key::SettingNeedsDateTime => "设置项 '{}' 需要 YYYY-MM-DD HH:MM:SS 格式"@,
        Key::EntryNeedsObject => "设置项 '{}' 的条目需要对象"@,
        Key::EntryMissingTime => "设置项 '{}' 的条目缺少 time"@,
        Key::EntryMissingText => "设置项 '{}' 的条目缺少 text"@,
        Key::EntryTimeFormat => "设置项 '{}' 的条目时间需要 YYYY-MM-DD HH:MM:SS 格式"@,
        Key::InvalidWeekday => "设置项 '{}' 的取值 '{}' 不是有效的星期"@,
        Key::SkinNotLoaded => "皮肤未加载"@,
        Key::DialogError => "对话框错误: {}"@,
        Key::DskinFilterName => "Driftlet 皮肤包"@,
        Key::PickFilterName => "允许的类型"@,
        Key::NotASkinWindow => "不是皮肤窗口"@,
        Key::InvalidMenuItems => "菜单项无效：{}"@,
        Key::ManagerOnly => "该命令仅允许管理器窗口调用"@,
        Key::LogWindowOnly => "该命令仅允许日志窗口调用"@,
        Key::UnloadBeforeRemove => "请先卸载皮肤再删除"@,
        Key::RemoveSkinFailed => "删除皮肤失败: {}"@,
        Key::UnloadBeforeDuplicate => "请先卸载皮肤再创建副本"@,
        Key::DuplicateSkinFailed => "创建副本失败: {}"@,
        Key::SourceSkinMissing => "源皮肤不存在，无法从源同步"@,
        Key::SyncCopyFailed => "从源同步副本失败: {}"@,
        Key::LayoutNameInvalid => "布局名称需要 1–64 个字符"@,
        Key::LayoutNotFound => "布局方案「{}」不存在"@,
        Key::ImportFolderConflict => "文件夹「{}」已被另一个皮肤占用，请先处理冲突再导入"@,
        Key::SkinFolderNotFound => "皮肤文件夹 '{}' 未找到"@,
        Key::OpenFailed => "打开失败: {}"@,
        Key::InvalidSkinId => "皮肤 id '{}' 不合法：仅允许小写字母、数字、中划线，且必须以字母或数字开头"@,
        Key::ReplaceOldDirFailed => "无法替换旧版本皮肤目录: {}"@,
        Key::InstallSkinFailed => "安装皮肤失败: {}"@,
        Key::RestoreSettingsFailed => "无法恢复用户设置: {}"@,
        Key::OpenPackageFailed => "无法打开皮肤包: {}"@,
        Key::PackageTooLarge => "皮肤包过大（超过 64 MB）"@,
        Key::PackageCreateFailed => "打包失败: {}"@,
        Key::NotValidZip => "不是有效的皮肤包（无法作为 zip 打开）"@,
        Key::TooManyFiles => "皮肤包文件过多"@,
        Key::CreateTempDirFailed => "无法创建临时目录: {}"@,
        Key::ReadPackageFailed => "读取皮肤包失败: {}"@,
        Key::ExtractedTooLarge => "皮肤包解压后过大"@,
        Key::NoSkinJsonInPackage => "不是有效的皮肤包：找不到 skin.json"@,
        Key::ReadSkinJsonFailed => "无法读取 skin.json: {}"@,
        Key::SkinJsonParseFailed => "skin.json 解析失败: {}"@,
        Key::PackageMissingId => "不是有效的皮肤包：skin.json 缺少 id 字段"@,
        Key::EntryFileMissing => "不是有效的皮肤包：入口文件 '{}' 不存在"@,
        Key::PreviewTooLarge => "预览图 '{}' 尺寸 {}×{} 超过上限（最大边长 {} 像素）"@,
        Key::BackupFilterName => "Driftlet 备份"@,
        Key::BackupNotZip => "不是有效的备份文件（无法作为 zip 打开）"@,
        Key::BackupTooLarge => "备份文件过大（超过 64 MB）"@,
        Key::BackupTooManyFiles => "备份文件条目过多"@,
        Key::BackupExtractedTooLarge => "备份解压后过大"@,
        Key::InvalidBackup => "不是有效的 Driftlet 备份（缺少 config/config.json）"@,
        Key::BackupFormatUnsupported => "备份由更新版本的 Driftlet 创建（格式 {}），无法导入"@,
        Key::ReadBackupFailed => "读取备份文件失败：{}"@,
        Key::ExportBackupFailed => "导出备份失败：{}"@,
        Key::ImportBackupFailed => "导入备份失败：{}"@,
        Key::ImportPartialUnloaded => "导入已中止；以下皮肤已被卸载，重新加载即可恢复：{}"@,
        Key::WritePreviewFailed => "写入预览图失败: {}"@,
        Key::WebViewNotReady => "WebView2 尚未就绪: {}"@,
        Key::CapturePreviewCallFailed => "CapturePreview 调用失败: {}"@,
        Key::AccessWebViewFailed => "无法访问 WebView: {}"@,
        Key::CaptureTimeout => "截图超时（10 秒无响应）"@,
        Key::PermissionDenied => "皮肤 '{}' 未声明权限 '{}'"@,
        Key::InvalidPath => "无效的路径 '{}'"@,
        Key::FileTooLarge => "文件超出大小限制"@,
        Key::ProtectedFile => "该文件由应用管理，禁止修改：{}"@,
        Key::NotTextFile => "不是文本文件，请用二进制模式读取"@,
        Key::InvalidBase64 => "无效的二进制数据（base64 解码失败）"@,
        Key::RegistryReadFailed => "注册表读取失败：{}"@,
        Key::RegistryRootInvalid => "无效的注册表根键 '{}'"@,
        Key::CommandTimeout => "命令执行超时（{} 秒）"@,
        Key::CommandSpawnFailed => "命令启动失败：{}"@,
        Key::AudioUnavailable => "音频捕获不可用：{}"@,
        Key::VolumeFailed => "音量操作失败：{}"@,
        Key::MediaControlFailed => "媒体控制失败：{}"@,
        Key::InvalidMediaAction => "无效的媒体动作 '{}'"@,
        Key::ClipboardFailed => "剪贴板操作失败：{}"@,
        Key::InvalidTarget => "不允许打开的链接或路径：{}"@,
        Key::NotificationFailed => "通知发送失败：{}"@,
        Key::PowerControlFailed => "电源操作失败：{}"@,
        Key::InvalidPowerAction => "无效的电源动作 '{}'"@,
        Key::RecycleBinFailed => "清空回收站失败：{}"@,
        Key::ElevatedNotice => "检测到 Driftlet 正以管理员权限运行。\n\n影响：声明 shell 权限的皮肤可静默以管理员权限执行命令（不经 UAC 弹窗）；从资源管理器拖 .dskin 到管理器会被系统拦截（可改用双击或文件选择器安装）。\n\n「是」= 继续运行（以后不再提示）；「否」= 退出。"@,
        Key::WindowsOnly => "该功能仅支持 Windows"@,
    }
}

/// The English text of `key`.
pub open spec fn en_text(key: Key) -> Seq<char> {
    match key {
        Key::TrayShowManager => "Open Desktop Skin Manager"@,
        Key::TrayReloadAll => "Reload All Skins"@,
        Key::TrayToggleSkins => "Hide Loaded Skins"@,
        Key::TraySkinsMenu => "Skin Visibility"@,
        Key::TraySkinsEmpty => "(No skins loaded)"@,
        Key::TrayLayouts => "Layouts"@,
        Key::TrayLayoutsEmpty => "(No layouts)"@,
        Key::TrayQuit => "Quit"@,
        Key::TrayTooltip => "Desktop Skin Manager"@,
        Key::HotkeyInvalid => "Invalid hotkey: it needs a modifier plus a regular key (e.g. Ctrl+Alt+D)"@,
        Key::HotkeyRegisterFailed => "Failed to register hotkey: {} (it may be taken by another app)"@,
        Key::HotkeyConflict => "Hotkey \"{}\" is already taken (by the global hotkey or another skin)"@,
        Key::MenuOpenConfig => "Open Skin Settings"@,
        Key::MenuReload => "Reload Skin"@,
        Key::MenuHideSkin => "Hide Skin"@,
        Key::MenuUnload => "Unload Skin"@,
        Key::MenuPlaceTop => "On top"@,
        Key::MenuLockPosition => "Disable dragging"@,
        Key::MenuClickThrough => "Click-through"@,
        Key::MenuResizable => "Resize by dragging"@,
        Key::MenuEdgeSnap => "Edge snapping"@,
        Key::DefaultSkinsGroup => "Default Skins"@,
        Key::InvalidResizeDirection => "Invalid resize direction: {}"@,
        Key::InvalidPlacement => "Unknown placement mode: {}"@,
        Key::ResizeWindowsOnly => "Border resize is only supported on Windows"@,
        Key::PreviewNeedsLoadedSkin => "Skin is not loaded — load it before capturing a preview"@,
        Key::SkinNotFound => "Skin '{}' not found"@,
        Key::PreviewWindowsOnly => "Preview capture is only supported on Windows"@,
        Key::SkinAlreadyLoaded => "Skin is already loaded"@,
        Key::ConfigSaveFailed => "Failed to save config: {}"@,
        Key::TaskFailed => "Task failed: {}"@,
        Key::SkinHasNoSetting => "Skin '{}' has no setting '{}'"@,
        Key::SettingNeedsBool => "Setting '{}' requires a boolean value"@,
        Key::SettingNeedsNumber => "Setting '{}' requires a number"@,
        Key::SettingNeedsWhat => "Setting '{}' requires {}"@,
        Key::WhatText => "a text value"@,
        Key::WhatTime => "a time value"@,
        Key::WhatDate => "a date value"@,
        Key::WhatColor => "a color value"@,
        Key::WhatOption => "an option value"@,
        Key::WhatFont => "a font name"@,
        Key::SettingNeedsTime => "Setting '{}' requires a time in HH:MM or HH:MM:SS format"@,
        Key::SettingNeedsDate => "Setting '{}' requires a date in YYYY-MM-DD format"@,
        Key::SettingNeedsColor => "Setting '{}' requires a color in #rrggbb or #rrggbbaa format"@,
        Key::SettingValueNotAllowed => "Setting '{}': value '{}' is not one of the allowed options"@,
        Key::SettingNeedsArray => "Setting '{}' requires an array"@,
        Key::SettingNeedsStringArray => "Setting '{}' requires an array of strings"@,
        Key::SettingNeedsTimeRange => "Setting '{}' requires a time-range object"@,
        Key::SettingMissingStart => "Setting '{}' is missing 'start'"@,
        Key::SettingMissingEnd => "Setting '{}' is missing 'end'"@,
        Key::SettingNeedsDateTime => "Setting '{}' requires YYYY-MM-DD HH:MM:SS format"@,
        Key::EntryNeedsObject => "Setting '{}': each entry must be an object"@,
        Key::EntryMissingTime => "Setting '{}': entry is missing 'time'"@,
        Key::EntryMissingText => "Setting '{}': entry is missing 'text'"@,
        Key::EntryTimeFormat => "Setting '{}': entry time must be in YYYY-MM-DD HH:MM:SS format"@,
        Key::InvalidWeekday => "Setting '{}': value '{}' is not a valid weekday"@,
        Key::SkinNotLoaded => "Skin is not loaded"@,
        Key::DialogError => "Dialog error: {}"@,
        Key::DskinFilterName => "Driftlet Skin Package"@,
        Key::PickFilterName => "Allowed types"@,
        Key::NotASkinWindow => "Not a skin window"@,
        Key::InvalidMenuItems => "Invalid menu items: {}"@,
        Key::ManagerOnly => "This command can only be called from the manager window"@,
        Key::LogWindowOnly => "This command can only be called from the log window"@,
        Key::UnloadBeforeRemove => "Unload the skin before removing it"@,
        Key::RemoveSkinFailed => "Failed to remove skin: {}"@,
        Key::UnloadBeforeDuplicate => "Unload the skin before duplicating it"@,
        Key::DuplicateSkinFailed => "Failed to duplicate skin: {}"@,
        Key::SourceSkinMissing => "Source skin not found — cannot sync from source"@,
        Key::SyncCopyFailed => "Failed to sync copy from source: {}"@,
        Key::LayoutNameInvalid => "Layout name must be 1–64 characters"@,
        Key::LayoutNotFound => "Layout preset \"{}\" not found"@,
        Key::ImportFolderConflict => "Folder \"{}\" is already used by another skin — resolve the conflict before importing"@,
        Key::SkinFolderNotFound => "Skin folder '{}' not found"@,
        Key::OpenFailed => "Failed to open: {}"@,
        Key::InvalidSkinId => "Invalid skin id '{}': only lowercase letters, digits and dashes are allowed, and it must start with a letter or digit"@,
        Key::ReplaceOldDirFailed => "Failed to replace the existing skin directory: {}"@,
        Key::InstallSkinFailed => "Failed to install skin: {}"@,
        Key::RestoreSettingsFailed => "Failed to restore user settings: {}"@,
        Key::OpenPackageFailed => "Failed to open skin package: {}"@,
        Key::PackageTooLarge => "Skin package is too large (over 64 MB)"@,
        Key::PackageCreateFailed => "Failed to create package: {}"@,
        Key::NotValidZip => "Not a valid skin package (cannot be opened as a zip)"@,
        Key::TooManyFiles => "Skin package contains too many files"@,
        Key::CreateTempDirFailed => "Failed to create temp directory: {}"@,
        Key::ReadPackageFailed => "Failed to read skin package: {}"@,
        Key::ExtractedTooLarge => "Skin package is too large once extracted"@,
        Key::NoSkinJsonInPackage => "Not a valid skin package: skin.json not found"@,
        Key::ReadSkinJsonFailed => "Failed to read skin.json: {}"@,
        Key::SkinJsonParseFailed => "Failed to parse skin.json: {}"@,
        Key::PackageMissingId => "Not a valid skin package: skin.json is missing the id field"@,
        Key::EntryFileMissing => "Not a valid skin package: entry file '{}' does not exist"@,
        Key::PreviewTooLarge => "Preview image '{}' is {}x{}, over the limit (max side {} px)"@,
        Key::BackupFilterName => "Driftlet Backup"@,
        Key::BackupNotZip => "Not a valid backup (cannot be opened as a zip)"@,
        Key::BackupTooLarge => "Backup file is too large (over 64 MB)"@,
        Key::BackupTooManyFiles => "Backup contains too many files"@,
        Key::BackupExtractedTooLarge => "Backup is too large once extracted"@,
        Key::InvalidBackup => "Not a valid Driftlet backup (missing config/config.json)"@,
        Key::BackupFormatUnsupported => "Backup was created by a newer Driftlet (format {}) and cannot be imported"@,
        Key::ReadBackupFailed => "Failed to read backup: {}"@,
        Key::ExportBackupFailed => "Failed to export backup: {}"@,
        Key::ImportBackupFailed => "Failed to import backup: {}"@,
        Key::ImportPartialUnloaded => "Import aborted; the following skins were unloaded — reload them to restore: {}"@,
        Key::WritePreviewFailed => "Failed to write preview image: {}"@,
        Key::WebViewNotReady => "WebView2 is not ready: {}"@,
        Key::CapturePreviewCallFailed => "CapturePreview call failed: {}"@,
        Key::AccessWebViewFailed => "Cannot access WebView: {}"@,
        Key::CaptureTimeout => "Capture timed out (no response for 10 seconds)"@,
        Key::PermissionDenied => "Skin '{}' has not declared the '{}' permission"@,
        Key::InvalidPath => "Invalid path '{}'"@,
        Key::FileTooLarge => "File exceeds the size limit"@,
        Key::ProtectedFile => "This file is managed by the app and cannot be modified: {}"@,
        Key::NotTextFile => "Not a text file; read it in binary mode"@,
        Key::InvalidBase64 => "Invalid binary data (base64 decode failed)"@,
        Key::RegistryReadFailed => "Failed to read registry: {}"@,
        Key::RegistryRootInvalid => "Invalid registry root '{}'"@,
        Key::CommandTimeout => "Command timed out ({} seconds)"@,
        Key::CommandSpawnFailed => "Failed to start command: {}"@,
        Key::AudioUnavailable => "Audio capture unavailable: {}"@,
        Key::VolumeFailed => "Volume operation failed: {}"@,
        Key::MediaControlFailed => "Media control failed: {}"@,
        Key::InvalidMediaAction => "Invalid media action '{}'"@,
        Key::ClipboardFailed => "Clipboard operation failed: {}"@,
        Key::InvalidTarget => "Opening this link or path is not allowed: {}"@,
        Key::NotificationFailed => "Failed to show notification: {}"@,
        Key::PowerControlFailed => "Power operation failed: {}"@,
        Key::InvalidPowerAction => "Invalid power action '{}'"@,
        Key::RecycleBinFailed => "Failed to empty the recycle bin: {}"@,
        Key::ElevatedNotice => "Driftlet is running with administrator rights.\n\nConsequences: skins holding the shell permission can silently run commands with full administrator rights (no UAC prompt); dragging .dskin files from Explorer into the manager will be blocked by the system (use double-click or the file picker instead).\n\nYes = continue (never ask again); No = exit."@,
        Key::WindowsOnly => "This feature is only supported on Windows"@,
    }
}

/// Chinese dictionary.
pub fn zh(key: Key) -> (s: &'static str)
    ensures
        s@ == zh_text(key),
{
    match key {
        Key::TrayShowManager => "打开桌面皮肤管理器",
        Key::TrayReloadAll => "重新加载所有皮肤",
        Key::TrayToggleSkins => "隐藏已加载的皮肤",
        Key::TraySkinsMenu => "皮肤显隐",
        Key::TraySkinsEmpty => "（无已加载皮肤）",
        Key::TrayLayouts => "布局方案",
        Key::TrayLayoutsEmpty => "（无布局方案）",
        Key::TrayQuit => "退出",
        Key::TrayTooltip => "桌面皮肤管理器",
        Key::HotkeyInvalid => "无效的快捷键：需要修饰键 + 普通键（如 Ctrl+Alt+D）",
        Key::HotkeyRegisterFailed => "快捷键注册失败：{}（可能被其他程序占用）",
        Key::HotkeyConflict => "快捷键「{}」已被占用（全局快捷键或其他皮肤）",
        Key::MenuOpenConfig => "打开皮肤配置",
        Key::MenuReload => "刷新皮肤",
        Key::MenuHideSkin => "隐藏皮肤",
        Key::MenuUnload => "卸载皮肤",
        Key::MenuPlaceTop => "置顶",
        Key::MenuLockPosition => "禁止拖动",
        Key::MenuClickThrough => "鼠标穿透",
        Key::MenuResizable => "拖拽调整大小",
        Key::MenuEdgeSnap => "边缘吸附",
        Key::DefaultSkinsGroup => "默认皮肤",
        Key::InvalidResizeDirection => "无效的缩放方向: {}",
        Key::InvalidPlacement => "未知放置模式: {}",
        Key::ResizeWindowsOnly => "边框缩放仅支持 Windows",
        Key::PreviewNeedsLoadedSkin => "皮肤未加载 — 请先加载皮肤再截取预览",
        Key::SkinNotFound => "皮肤 '{}' 未找到",
        Key::PreviewWindowsOnly => "预览截取仅支持 Windows",
        Key::SkinAlreadyLoaded => "皮肤已加载",
        Key::ConfigSaveFailed => "配置保存失败: {}",
        Key::TaskFailed => "任务失败: {}",
        Key::SkinHasNoSetting => "皮肤 '{}' 没有设置项 '{}'",
        Key::SettingNeedsBool => "设置项 '{}' 需要布尔值",
        Key::SettingNeedsNumber => "设置项 '{}' 需要数字",
        Key::SettingNeedsWhat => "设置项 '{}' 需要{}",
        Key::WhatText => "文本",
        Key::WhatTime => "时间",
        Key::WhatDate => "日期",
        Key::WhatColor => "颜色值",
        Key::WhatOption => "选项值",
        Key::WhatFont => "字体名",
        Key::SettingNeedsTime => "设置项 '{}' 需要 HH:MM 或 HH:MM:SS 时间",
        Key::SettingNeedsDate => "设置项 '{}' 需要 YYYY-MM-DD 日期",
        Key::SettingNeedsColor => "设置项 '{}' 需要 #rrggbb 或 #rrggbbaa 颜色值",
        Key::SettingValueNotAllowed => "设置项 '{}' 的取值 '{}' 不在可选项内",
        Key::SettingNeedsArray => "设置项 '{}' 需要数组",
        Key::SettingNeedsStringArray => "设置项 '{}' 需要字符串数组",
        Key::SettingNeedsTimeRange => "设置项 '{}' 需要时间范围对象",
        Key::SettingMissingStart => "设置项 '{}' 缺少 start",
        Key::SettingMissingEnd => "设置项 '{}' 缺少 end",
        Key::SettingNeedsDateTime => "设置项 '{}' 需要 YYYY-MM-DD HH:MM:SS 格式",
        Key::EntryNeedsObject => "设置项 '{}' 的条目需要对象",
        Key::EntryMissingTime => "设置项 '{}' 的条目缺少 time",
        Key::EntryMissingText => "设置项 '{}' 的条目缺少 text",
        Key::EntryTimeFormat => "设置项 '{}' 的条目时间需要 YYYY-MM-DD HH:MM:SS 格式",
        Key::InvalidWeekday => "设置项 '{}' 的取值 '{}' 不是有效的星期",
        Key::SkinNotLoaded => "皮肤未加载",
        Key::DialogError => "对话框错误: {}",
        Key::DskinFilterName => "Driftlet 皮肤包",
        Key::PickFilterName => "允许的类型",
        Key::NotASkinWindow => "不是皮肤窗口",
        Key::InvalidMenuItems => "菜单项无效：{}",
        Key::ManagerOnly => "该命令仅允许管理器窗口调用",
        Key::LogWindowOnly => "该命令仅允许日志窗口调用",
        Key::UnloadBeforeRemove => "请先卸载皮肤再删除",
        Key::RemoveSkinFailed => "删除皮肤失败: {}",
        Key::UnloadBeforeDuplicate => "请先卸载皮肤再创建副本",
        Key::DuplicateSkinFailed => "创建副本失败: {}",
        Key::SourceSkinMissing => "源皮肤不存在，无法从源同步",
        Key::SyncCopyFailed => "从源同步副本失败: {}",
        Key::LayoutNameInvalid => "布局名称需要 1–64 个字符",
        Key::LayoutNotFound => "布局方案「{}」不存在",
        Key::ImportFolderConflict => "文件夹「{}」已被另一个皮肤占用，请先处理冲突再导入",
        Key::SkinFolderNotFound => "皮肤文件夹 '{}' 未找到",
        Key::OpenFailed => "打开失败: {}",
        Key::InvalidSkinId => "皮肤 id '{}' 不合法：仅允许小写字母、数字、中划线，且必须以字母或数字开头",
        Key::ReplaceOldDirFailed => "无法替换旧版本皮肤目录: {}",
        Key::InstallSkinFailed => "安装皮肤失败: {}",
        Key::RestoreSettingsFailed => "无法恢复用户设置: {}",
        Key::OpenPackageFailed => "无法打开皮肤包: {}",
        Key::PackageTooLarge => "皮肤包过大（超过 64 MB）",
        Key::PackageCreateFailed => "打包失败: {}",
        Key::NotValidZip => "不是有效的皮肤包（无法作为 zip 打开）",
        Key::TooManyFiles => "皮肤包文件过多",
        Key::CreateTempDirFailed => "无法创建临时目录: {}",
        Key::ReadPackageFailed => "读取皮肤包失败: {}",
        Key::ExtractedTooLarge => "皮肤包解压后过大",
        Key::NoSkinJsonInPackage => "不是有效的皮肤包：找不到 skin.json",
        Key::ReadSkinJsonFailed => "无法读取 skin.json: {}",
        Key::SkinJsonParseFailed => "skin.json 解析失败: {}",
        Key::PackageMissingId => "不是有效的皮肤包：skin.json 缺少 id 字段",
        Key::EntryFileMissing => "不是有效的皮肤包：入口文件 '{}' 不存在",
        Key::PreviewTooLarge => "预览图 '{}' 尺寸 {}×{} 超过上限（最大边长 {} 像素）",
        Key::BackupFilterName => "Driftlet 备份",
        Key::BackupNotZip => "不是有效的备份文件（无法作为 zip 打开）",
        Key::BackupTooLarge => "备份文件过大（超过 64 MB）",
        Key::BackupTooManyFiles => "备份文件条目过多",
        Key::BackupExtractedTooLarge => "备份解压后过大",
        Key::InvalidBackup => "不是有效的 Driftlet 备份（缺少 config/config.json）",
        Key::BackupFormatUnsupported => "备份由更新版本的 Driftlet 创建（格式 {}），无法导入",
        Key::ReadBackupFailed => "读取备份文件失败：{}",
        Key::ExportBackupFailed => "导出备份失败：{}",
        Key::ImportBackupFailed => "导入备份失败：{}",
        Key::ImportPartialUnloaded => "导入已中止；以下皮肤已被卸载，重新加载即可恢复：{}",
        Key::WritePreviewFailed => "写入预览图失败: {}",
        Key::WebViewNotReady => "WebView2 尚未就绪: {}",
        Key::CapturePreviewCallFailed => "CapturePreview 调用失败: {}",
        Key::AccessWebViewFailed => "无法访问 WebView: {}",
        Key::CaptureTimeout => "截图超时（10 秒无响应）",
        Key::PermissionDenied => "皮肤 '{}' 未声明权限 '{}'",
        Key::InvalidPath => "无效的路径 '{}'",
        Key::FileTooLarge => "文件超出大小限制",
        Key::ProtectedFile => "该文件由应用管理，禁止修改：{}",
        Key::NotTextFile => "不是文本文件，请用二进制模式读取",
        Key::InvalidBase64 => "无效的二进制数据（base64 解码失败）",
        Key::RegistryReadFailed => "注册表读取失败：{}",
        Key::RegistryRootInvalid => "无效的注册表根键 '{}'",
        Key::CommandTimeout => "命令执行超时（{} 秒）",
        Key::CommandSpawnFailed => "命令启动失败：{}",
        Key::AudioUnavailable => "音频捕获不可用：{}",
        Key::VolumeFailed => "音量操作失败：{}",
        Key::MediaControlFailed => "媒体控制失败：{}",
        Key::InvalidMediaAction => "无效的媒体动作 '{}'",
        Key::ClipboardFailed => "剪贴板操作失败：{}",
        Key::InvalidTarget => "不允许打开的链接或路径：{}",
        Key::NotificationFailed => "通知发送失败：{}",
        Key::PowerControlFailed => "电源操作失败：{}",
        Key::InvalidPowerAction => "无效的电源动作 '{}'",
        Key::RecycleBinFailed => "清空回收站失败：{}",
        Key::ElevatedNotice => "检测到 Driftlet 正以管理员权限运行。\n\n影响：声明 shell 权限的皮肤可静默以管理员权限执行命令（不经 UAC 弹窗）；从资源管理器拖 .dskin 到管理器会被系统拦截（可改用双击或文件选择器安装）。\n\n「是」= 继续运行（以后不再提示）；「否」= 退出。",
        Key::WindowsOnly => "该功能仅支持 Windows",
    }
}

/// English dictionary.
pub fn en(key: Key) -> (s: &'static str)
    ensures
        s@ == en_text(key),
{
    match key {
        Key::TrayShowManager => "Open Desktop Skin Manager",
        Key::TrayReloadAll => "Reload All Skins",
        Key::TrayToggleSkins => "Hide Loaded Skins",
        Key::TraySkinsMenu => "Skin Visibility",
        Key::TraySkinsEmpty => "(No skins loaded)",
        Key::TrayLayouts => "Layouts",
        Key::TrayLayoutsEmpty => "(No layouts)",
        Key::TrayQuit => "Quit",
        Key::TrayTooltip => "Desktop Skin Manager",
        Key::HotkeyInvalid => "Invalid hotkey: it needs a modifier plus a regular key (e.g. Ctrl+Alt+D)",
        Key::HotkeyRegisterFailed => "Failed to register hotkey: {} (it may be taken by another app)",
        Key::HotkeyConflict => "Hotkey \"{}\" is already taken (by the global hotkey or another skin)",
        Key::MenuOpenConfig => "Open Skin Settings",
        Key::MenuReload => "Reload Skin",
        Key::MenuHideSkin => "Hide Skin",
        Key::MenuUnload => "Unload Skin",
        Key::MenuPlaceTop => "On top",
        Key::MenuLockPosition => "Disable dragging",
        Key::MenuClickThrough => "Click-through",
        Key::MenuResizable => "Resize by dragging",
        Key::MenuEdgeSnap => "Edge snapping",
        Key::DefaultSkinsGroup => "Default Skins",
        Key::InvalidResizeDirection => "Invalid resize direction: {}",
        Key::InvalidPlacement => "Unknown placement mode: {}",
        Key::ResizeWindowsOnly => "Border resize is only supported on Windows",
        Key::PreviewNeedsLoadedSkin => "Skin is not loaded — load it before capturing a preview",
        Key::SkinNotFound => "Skin '{}' not found",
        Key::PreviewWindowsOnly => "Preview capture is only supported on Windows",
        Key::SkinAlreadyLoaded => "Skin is already loaded",
        Key::ConfigSaveFailed => "Failed to save config: {}",
        Key::TaskFailed => "Task failed: {}",
        Key::SkinHasNoSetting => "Skin '{}' has no setting '{}'",
        Key::SettingNeedsBool => "Setting '{}' requires a boolean value",
        Key::SettingNeedsNumber => "Setting '{}' requires a number",
        Key::SettingNeedsWhat => "Setting '{}' requires {}",
        Key::WhatText => "a text value",
        Key::WhatTime => "a time value",
        Key::WhatDate => "a date value",
        Key::WhatColor => "a color value",
        Key::WhatOption => "an option value",
        Key::WhatFont => "a font name",
        Key::SettingNeedsTime => "Setting '{}' requires a time in HH:MM or HH:MM:SS format",
        Key::SettingNeedsDate => "Setting '{}' requires a date in YYYY-MM-DD format",
        Key::SettingNeedsColor => "Setting '{}' requires a color in #rrggbb or #rrggbbaa format",
        Key::SettingValueNotAllowed => "Setting '{}': value '{}' is not one of the allowed options",
        Key::SettingNeedsArray => "Setting '{}' requires an array",
        Key::SettingNeedsStringArray => "Setting '{}' requires an array of strings",
        Key::SettingNeedsTimeRange => "Setting '{}' requires a time-range object",
        Key::SettingMissingStart => "Setting '{}' is missing 'start'",
        Key::SettingMissingEnd => "Setting '{}' is missing 'end'",
        Key::SettingNeedsDateTime => "Setting '{}' requires YYYY-MM-DD HH:MM:SS format",
        Key::EntryNeedsObject => "Setting '{}': each entry must be an object",
        Key::EntryMissingTime => "Setting '{}': entry is missing 'time'",
        Key::EntryMissingText => "Setting '{}': entry is missing 'text'",
        Key::EntryTimeFormat => "Setting '{}': entry time must be in YYYY-MM-DD HH:MM:SS format",
        Key::InvalidWeekday => "Setting '{}': value '{}' is not a valid weekday",
        Key::SkinNotLoaded => "Skin is not loaded",
        Key::DialogError => "Dialog error: {}",
        Key::DskinFilterName => "Driftlet Skin Package",
        Key::PickFilterName => "Allowed types",
        Key::NotASkinWindow => "Not a skin window",
        Key::InvalidMenuItems => "Invalid menu items: {}",
        Key::ManagerOnly => "This command can only be called from the manager window",
        Key::LogWindowOnly => "This command can only be called from the log window",
        Key::UnloadBeforeRemove => "Unload the skin before removing it",
        Key::RemoveSkinFailed => "Failed to remove skin: {}",
        Key::UnloadBeforeDuplicate => "Unload the skin before duplicating it",
        Key::DuplicateSkinFailed => "Failed to duplicate skin: {}",
        Key::SourceSkinMissing => "Source skin not found — cannot sync from source",
        Key::SyncCopyFailed => "Failed to sync copy from source: {}",
        Key::LayoutNameInvalid => "Layout name must be 1–64 characters",
        Key::LayoutNotFound => "Layout preset \"{}\" not found",
        Key::ImportFolderConflict => "Folder \"{}\" is already used by another skin — resolve the conflict before importing",
        Key::SkinFolderNotFound => "Skin folder '{}' not found",
        Key::OpenFailed => "Failed to open: {}",
        Key::InvalidSkinId => "Invalid skin id '{}': only lowercase letters, digits and dashes are allowed, and it must start with a letter or digit",
        Key::ReplaceOldDirFailed => "Failed to replace the existing skin directory: {}",
        Key::InstallSkinFailed => "Failed to install skin: {}",
        Key::RestoreSettingsFailed => "Failed to restore user settings: {}",
        Key::OpenPackageFailed => "Failed to open skin package: {}",
        Key::PackageTooLarge => "Skin package is too large (over 64 MB)",
        Key::PackageCreateFailed => "Failed to create package: {}",
        Key::NotValidZip => "Not a valid skin package (cannot be opened as a zip)",
        Key::TooManyFiles => "Skin package contains too many files",
        Key::CreateTempDirFailed => "Failed to create temp directory: {}",
        Key::ReadPackageFailed => "Failed to read skin package: {}",
        Key::ExtractedTooLarge => "Skin package is too large once extracted",
        Key::NoSkinJsonInPackage => "Not a valid skin package: skin.json not found",
        Key::ReadSkinJsonFailed => "Failed to read skin.json: {}",
        Key::SkinJsonParseFailed => "Failed to parse skin.json: {}",
        Key::PackageMissingId => "Not a valid skin package: skin.json is missing the id field",
        Key::EntryFileMissing => "Not a valid skin package: entry file '{}' does not exist",
        Key::PreviewTooLarge => "Preview image '{}' is {}x{}, over the limit (max side {} px)",
        Key::BackupFilterName => "Driftlet Backup",
        Key::BackupNotZip => "Not a valid backup (cannot be opened as a zip)",
        Key::BackupTooLarge => "Backup file is too large (over 64 MB)",
        Key::BackupTooManyFiles => "Backup contains too many files",
        Key::BackupExtractedTooLarge => "Backup is too large once extracted",
        Key::InvalidBackup => "Not a valid Driftlet backup (missing config/config.json)",
        Key::BackupFormatUnsupported => "Backup was created by a newer Driftlet (format {}) and cannot be imported",
        Key::ReadBackupFailed => "Failed to read backup: {}",
        Key::ExportBackupFailed => "Failed to export backup: {}",
        Key::ImportBackupFailed => "Failed to import backup: {}",
        Key::ImportPartialUnloaded => "Import aborted; the following skins were unloaded — reload them to restore: {}",
        Key::WritePreviewFailed => "Failed to write preview image: {}",
        Key::WebViewNotReady => "WebView2 is not ready: {}",
        Key::CapturePreviewCallFailed => "CapturePreview call failed: {}",
        Key::AccessWebViewFailed => "Cannot access WebView: {}",
        Key::CaptureTimeout => "Capture timed out (no response for 10 seconds)",
        Key::PermissionDenied => "Skin '{}' has not declared the '{}' permission",
        Key::InvalidPath => "Invalid path '{}'",
        Key::FileTooLarge => "File exceeds the size limit",
        Key::ProtectedFile => "This file is managed by the app and cannot be modified: {}",
        Key::NotTextFile => "Not a text file; read it in binary mode",
        Key::InvalidBase64 => "Invalid binary data (base64 decode failed)",
        Key::RegistryReadFailed => "Failed to read registry: {}",
        Key::RegistryRootInvalid => "Invalid registry root '{}'",
        Key::CommandTimeout => "Command timed out ({} seconds)",
        Key::CommandSpawnFailed => "Failed to start command: {}",
        Key::AudioUnavailable => "Audio capture unavailable: {}",
        Key::VolumeFailed => "Volume operation failed: {}",
        Key::MediaControlFailed => "Media control failed: {}",
        Key::InvalidMediaAction => "Invalid media action '{}'",
        Key::ClipboardFailed => "Clipboard operation failed: {}",
        Key::InvalidTarget => "Opening this link or path is not allowed: {}",
        Key::NotificationFailed => "Failed to show notification: {}",
        Key::PowerControlFailed => "Power operation failed: {}",
        Key::InvalidPowerAction => "Invalid power action '{}'",
        Key::RecycleBinFailed => "Failed to empty the recycle bin: {}",
        Key::ElevatedNotice => "Driftlet is running with administrator rights.\n\nConsequences: skins holding the shell permission can silently run commands with full administrator rights (no UAC prompt); dragging .dskin files from Explorer into the manager will be blocked by the system (use double-click or the file picker instead).\n\nYes = continue (never ask again); No = exit.",
        Key::WindowsOnly => "This feature is only supported on Windows",
    }
}

/// The number of "{}" placeholders in `s` from position `i` on, read left
/// to right without overlap (as `str::matches("{}")` counts them).
pub open spec fn placeholders_from(s: Seq<char>, i: int) -> nat
    decreases s.len() - i,
{
    if i < 0 || i + 1 >= s.len() {
        0
    } else if s[i] == '{' && s[i + 1] == '}' {
        1 + placeholders_from(s, i + 2)
    } else {
        placeholders_from(s, i + 1)
    }
}

/// The number of placeholders in `s`.
pub open spec fn placeholders(s: Seq<char>) -> nat {
    placeholders_from(s, 0)
}

/// Counting from `i` finds exactly the placeholders at the positions `ps`
/// (in order, at or after `i`), when every '{' from `i` on opens one of
/// them.
proof fn lemma_placeholder_positions(s: Seq<char>, ps: Seq<int>, i: int)
    requires
        0 <= i,
        forall|a: int, b: int| 0 <= a < b < ps.len() ==> ps[a] + 2 <= ps[b],
        forall|k: int|
            0 <= k < ps.len() ==> i <= #[trigger] ps[k] && ps[k] + 1 < s.len() && s[ps[k]] == '{' && s[ps[k] + 1]
                == '}',
        forall|j: int| i <= j < s.len() && s[j] == '{' ==> ps.contains(j),
    ensures
        placeholders_from(s, i) == ps.len(),
    decreases s.len() - i,
{
    if i + 1 >= s.len() {
        if ps.len() > 0 {
            assert(ps[0] + 1 < s.len());
        }
    } else if s[i] == '{' && s[i + 1] == '}' {
        assert(ps.contains(i));
        let k = choose|k: int| 0 <= k < ps.len() && ps[k] == i;
        if k > 0 {
            assert(ps[0] + 2 <= ps[k]);
            assert(i <= ps[0]);
        }
        let rest = ps.drop_first();
        assert forall|j: int| i + 2 <= j < s.len() && s[j] == '{' implies rest.contains(j) by {
            assert(ps.contains(j));
            let m = choose|m: int| 0 <= m < ps.len() && ps[m] == j;
            assert(m != 0);
            assert(rest[m - 1] == j);
        }
        assert forall|k2: int| 0 <= k2 < rest.len() implies i + 2 <= #[trigger] rest[k2] by {
            assert(rest[k2] == ps[k2 + 1]);
            assert(ps[0] + 2 <= ps[k2 + 1]);
        }
        lemma_placeholder_positions(s, rest, i + 2);
    } else {
        assert forall|k2: int| 0 <= k2 < ps.len() implies i + 1 <= #[trigger] ps[k2] by {
            if ps[k2] == i {
                assert(s[ps[k2]] == '{' && s[ps[k2] + 1] == '}');
            }
        }
        lemma_placeholder_positions(s, ps, i + 1);
    }
}

/// The Chinese and the English text of every key hold the same number of
/// placeholders, so a message takes the same arguments in either language.
#[verifier::spinoff_prover]
#[verifier::rlimit(100)]
pub proof fn law_placeholder_parity(key: Key)
    ensures
        placeholders(zh_text(key)) == placeholders(en_text(key)),
{
    match key {
        Key::TrayShowManager => {
            assert(placeholders(zh_text(Key::TrayShowManager)) == placeholders(en_text(Key::TrayShowManager))) by {
                reveal_strlit("打开桌面皮肤管理器");
                lemma_placeholder_positions(zh_text(Key::TrayShowManager), seq![], 0);
                reveal_strlit("Open Desktop Skin Manager");
                lemma_placeholder_positions(en_text(Key::TrayShowManager), seq![], 0);
            }
        },
        Key::TrayReloadAll => {
            assert(placeholders(zh_text(Key::TrayReloadAll)) == placeholders(en_text(Key::TrayReloadAll))) by {
                reveal_strlit("重新加载所有皮肤");
                lemma_placeholder_positions(zh_text(Key::TrayReloadAll), seq![], 0);
                reveal_strlit("Reload All Skins");
                lemma_placeholder_positions(en_text(Key::TrayReloadAll), seq![], 0);
            }
        },
        Key::TrayToggleSkins => {
            assert(placeholders(zh_text(Key::TrayToggleSkins)) == placeholders(en_text(Key::TrayToggleSkins))) by {
                reveal_strlit("隐藏已加载的皮肤");
                lemma_placeholder_positions(zh_text(Key::TrayToggleSkins), seq![], 0);
                reveal_strlit("Hide Loaded Skins");
                lemma_placeholder_positions(en_text(Key::TrayToggleSkins), seq![], 0);
            }
        },
        Key::TraySkinsMenu => {
            assert(placeholders(zh_text(Key::TraySkinsMenu)) == placeholders(en_text(Key::TraySkinsMenu))) by {
                reveal_strlit("皮肤显隐");
                lemma_placeholder_positions(zh_text(Key::TraySkinsMenu), seq![], 0);
                reveal_strlit("Skin Visibility");
                lemma_placeholder_positions(en_text(Key::TraySkinsMenu), seq![], 0);
            }
        },
        Key::TraySkinsEmpty => {
            assert(placeholders(zh_text(Key::TraySkinsEmpty)) == placeholders(en_text(Key::TraySkinsEmpty))) by {
                reveal_strlit("（无已加载皮肤）");
                lemma_placeholder_positions(zh_text(Key::TraySkinsEmpty), seq![], 0);
                reveal_strlit("(No skins loaded)");
                lemma_placeholder_positions(en_text(Key::TraySkinsEmpty), seq![], 0);
            }
        },
        Key::TrayLayouts => {
            assert(placeholders(zh_text(Key::TrayLayouts)) == placeholders(en_text(Key::TrayLayouts))) by {
                reveal_strlit("布局方案");
                lemma_placeholder_positions(zh_text(Key::TrayLayouts), seq![], 0);
                reveal_strlit("Layouts");
                lemma_placeholder_positions(en_text(Key::TrayLayouts), seq![], 0);
            }
        },
        Key::TrayLayoutsEmpty => {
            assert(placeholders(zh_text(Key::TrayLayoutsEmpty)) == placeholders(en_text(Key::TrayLayoutsEmpty))) by {
                reveal_strlit("（无布局方案）");
                lemma_placeholder_positions(zh_text(Key::TrayLayoutsEmpty), seq![], 0);
                reveal_strlit("(No layouts)");
                lemma_placeholder_positions(en_text(Key::TrayLayoutsEmpty), seq![], 0);
            }
        },
        Key::TrayQuit => {
            assert(placeholders(zh_text(Key::TrayQuit)) == placeholders(en_text(Key::TrayQuit))) by {
                reveal_strlit("退出");
                lemma_placeholder_positions(zh_text(Key::TrayQuit), seq![], 0);
                reveal_strlit("Quit");
                lemma_placeholder_positions(en_text(Key::TrayQuit), seq![], 0);
            }
        },
        Key::TrayTooltip => {
            assert(placeholders(zh_text(Key::TrayTooltip)) == placeholders(en_text(Key::TrayTooltip))) by {
                reveal_strlit("桌面皮肤管理器");
                lemma_placeholder_positions(zh_text(Key::TrayTooltip), seq![], 0);
                reveal_strlit("Desktop Skin Manager");
                lemma_placeholder_positions(en_text(Key::TrayTooltip), seq![], 0);
            }
        },
        Key::HotkeyInvalid => {
            assert(placeholders(zh_text(Key::HotkeyInvalid)) == placeholders(en_text(Key::HotkeyInvalid))) by {
                reveal_strlit("无效的快捷键：需要修饰键 + 普通键（如 Ctrl+Alt+D）");
                lemma_placeholder_positions(zh_text(Key::HotkeyInvalid), seq![], 0);
                reveal_strlit("Invalid hotkey: it needs a modifier plus a regular key (e.g. Ctrl+Alt+D)");
                lemma_placeholder_positions(en_text(Key::HotkeyInvalid), seq![], 0);
            }
        },
        Key::HotkeyRegisterFailed => {
            assert(placeholders(zh_text(Key::HotkeyRegisterFailed)) == placeholders(en_text(Key::HotkeyRegisterFailed))) by {
                reveal_strlit("快捷键注册失败：{}（可能被其他程序占用）");
                assert(placeholders(zh_text(Key::HotkeyRegisterFailed)) == 1) by {
                    let ps = seq![8int];
                    assert(ps[0] == 8);
                    lemma_placeholder_positions(zh_text(Key::HotkeyRegisterFailed), ps, 0);
                }
                reveal_strlit("Failed to register hotkey: {} (it may be taken by another app)");
                assert(placeholders(en_text(Key::HotkeyRegisterFailed)) == 1) by {
                    let ps = seq![27int];
                    assert(ps[0] == 27);
                    lemma_placeholder_positions(en_text(Key::HotkeyRegisterFailed), ps, 0);
                }
            }
        },
        Key::HotkeyConflict => {
            assert(placeholders(zh_text(Key::HotkeyConflict)) == placeholders(en_text(Key::HotkeyConflict))) by {
                reveal_strlit("快捷键「{}」已被占用（全局快捷键或其他皮肤）");
                assert(placeholders(zh_text(Key::HotkeyConflict)) == 1) by {
                    let ps = seq![4int];
                    assert(ps[0] == 4);
                    lemma_placeholder_positions(zh_text(Key::HotkeyConflict), ps, 0);
                }
                reveal_strlit("Hotkey \"{}\" is already taken (by the global hotkey or another skin)");
                assert(placeholders(en_text(Key::HotkeyConflict)) == 1) by {
                    let ps = seq![8int];
                    assert(ps[0] == 8);
                    lemma_placeholder_positions(en_text(Key::HotkeyConflict), ps, 0);
                }
            }
        },
        Key::MenuOpenConfig => {
            assert(placeholders(zh_text(Key::MenuOpenConfig)) == placeholders(en_text(Key::MenuOpenConfig))) by {
                reveal_strlit("打开皮肤配置");
                lemma_placeholder_positions(zh_text(Key::MenuOpenConfig), seq![], 0);
                reveal_strlit("Open Skin Settings");
                lemma_placeholder_positions(en_text(Key::MenuOpenConfig), seq![], 0);
            }
        },
        Key::MenuReload => {
            assert(placeholders(zh_text(Key::MenuReload)) == placeholders(en_text(Key::MenuReload))) by {
                reveal_strlit("刷新皮肤");
                lemma_placeholder_positions(zh_text(Key::MenuReload), seq![], 0);
                reveal_strlit("Reload Skin");
                lemma_placeholder_positions(en_text(Key::MenuReload), seq![], 0);
            }
        },
        Key::MenuHideSkin => {
            assert(placeholders(zh_text(Key::MenuHideSkin)) == placeholders(en_text(Key::MenuHideSkin))) by {
                reveal_strlit("隐藏皮肤");
                lemma_placeholder_positions(zh_text(Key::MenuHideSkin), seq![], 0);
                reveal_strlit("Hide Skin");
                lemma_placeholder_positions(en_text(Key::MenuHideSkin), seq![], 0);
            }
        },
        Key::MenuUnload => {
            assert(placeholders(zh_text(Key::MenuUnload)) == placeholders(en_text(Key::MenuUnload))) by {
                reveal_strlit("卸载皮肤");
                lemma_placeholder_positions(zh_text(Key::MenuUnload), seq![], 0);
                reveal_strlit("Unload Skin");
                lemma_placeholder_positions(en_text(Key::MenuUnload), seq![], 0);
            }
        },
        Key::MenuPlaceTop => {
            assert(placeholders(zh_text(Key::MenuPlaceTop)) == placeholders(en_text(Key::MenuPlaceTop))) by {
                reveal_strlit("置顶");
                lemma_placeholder_positions(zh_text(Key::MenuPlaceTop), seq![], 0);
                reveal_strlit("On top");
                lemma_placeholder_positions(en_text(Key::MenuPlaceTop), seq![], 0);
            }
        },
        Key::MenuLockPosition => {
            assert(placeholders(zh_text(Key::MenuLockPosition)) == placeholders(en_text(Key::MenuLockPosition))) by {
                reveal_strlit("禁止拖动");
                lemma_placeholder_positions(zh_text(Key::MenuLockPosition), seq![], 0);
                reveal_strlit("Disable dragging");
                lemma_placeholder_positions(en_text(Key::MenuLockPosition), seq![], 0);
            }
        },
        Key::MenuClickThrough => {
            assert(placeholders(zh_text(Key::MenuClickThrough)) == placeholders(en_text(Key::MenuClickThrough))) by {
                reveal_strlit("鼠标穿透");
                lemma_placeholder_positions(zh_text(Key::MenuClickThrough), seq![], 0);
                reveal_strlit("Click-through");
                lemma_placeholder_positions(en_text(Key::MenuClickThrough), seq![], 0);
            }
        },
        Key::MenuResizable => {
            assert(placeholders(zh_text(Key::MenuResizable)) == placeholders(en_text(Key::MenuResizable))) by {
                reveal_strlit("拖拽调整大小");
                lemma_placeholder_positions(zh_text(Key::MenuResizable), seq![], 0);
                reveal_strlit("Resize by dragging");
                lemma_placeholder_positions(en_text(Key::MenuResizable), seq![], 0);
            }
        },
        Key::MenuEdgeSnap => {
            assert(placeholders(zh_text(Key::MenuEdgeSnap)) == placeholders(en_text(Key::MenuEdgeSnap))) by {
                reveal_strlit("边缘吸附");
                lemma_placeholder_positions(zh_text(Key::MenuEdgeSnap), seq![], 0);
                reveal_strlit("Edge snapping");
                lemma_placeholder_positions(en_text(Key::MenuEdgeSnap), seq![], 0);
            }
        },
        Key::DefaultSkinsGroup => {
            assert(placeholders(zh_text(Key::DefaultSkinsGroup)) == placeholders(en_text(Key::DefaultSkinsGroup))) by {
                reveal_strlit("默认皮肤");
                lemma_placeholder_positions(zh_text(Key::DefaultSkinsGroup), seq![], 0);
                reveal_strlit("Default Skins");
                lemma_placeholder_positions(en_text(Key::DefaultSkinsGroup), seq![], 0);
            }
        },
        Key::InvalidResizeDirection => {
            assert(placeholders(zh_text(Key::InvalidResizeDirection)) == placeholders(en_text(Key::InvalidResizeDirection))) by {
                reveal_strlit("无效的缩放方向: {}");
                assert(placeholders(zh_text(Key::InvalidResizeDirection)) == 1) by {
                    let ps = seq![9int];
                    assert(ps[0] == 9);
                    lemma_placeholder_positions(zh_text(Key::InvalidResizeDirection), ps, 0);
                }
                reveal_strlit("Invalid resize direction: {}");
                assert(placeholders(en_text(Key::InvalidResizeDirection)) == 1) by {
                    let ps = seq![26int];
                    assert(ps[0] == 26);
                    lemma_placeholder_positions(en_text(Key::InvalidResizeDirection), ps, 0);
                }
            }
        },
        Key::InvalidPlacement => {
            assert(placeholders(zh_text(Key::InvalidPlacement)) == placeholders(en_text(Key::InvalidPlacement))) by {
                reveal_strlit("未知放置模式: {}");
                assert(placeholders(zh_text(Key::InvalidPlacement)) == 1) by {
                    let ps = seq![8int];
                    assert(ps[0] == 8);
                    lemma_placeholder_positions(zh_text(Key::InvalidPlacement), ps, 0);
                }
                reveal_strlit("Unknown placement mode: {}");
                assert(placeholders(en_text(Key::InvalidPlacement)) == 1) by {
                    let ps = seq![24int];
                    assert(ps[0] == 24);
                    lemma_placeholder_positions(en_text(Key::InvalidPlacement), ps, 0);
                }
            }
        },
        Key::ResizeWindowsOnly => {
            assert(placeholders(zh_text(Key::ResizeWindowsOnly)) == placeholders(en_text(Key::ResizeWindowsOnly))) by {
                reveal_strlit("边框缩放仅支持 Windows");
                lemma_placeholder_positions(zh_text(Key::ResizeWindowsOnly), seq![], 0);
                reveal_strlit("Border resize is only supported on Windows");
                lemma_placeholder_positions(en_text(Key::ResizeWindowsOnly), seq![], 0);
            }
        },
        Key::PreviewNeedsLoadedSkin => {
            assert(placeholders(zh_text(Key::PreviewNeedsLoadedSkin)) == placeholders(en_text(Key::PreviewNeedsLoadedSkin))) by {
                reveal_strlit("皮肤未加载 — 请先加载皮肤再截取预览");
                lemma_placeholder_positions(zh_text(Key::PreviewNeedsLoadedSkin), seq![], 0);
                reveal_strlit("Skin is not loaded — load it before capturing a preview");
                lemma_placeholder_positions(en_text(Key::PreviewNeedsLoadedSkin), seq![], 0);
            }
        },
        Key::SkinNotFound => {
            assert(placeholders(zh_text(Key::SkinNotFound)) == placeholders(en_text(Key::SkinNotFound))) by {
                reveal_strlit("皮肤 '{}' 未找到");
                assert(placeholders(zh_text(Key::SkinNotFound)) == 1) by {
                    let ps = seq![4int];
                    assert(ps[0] == 4);
                    lemma_placeholder_positions(zh_text(Key::SkinNotFound), ps, 0);
                }
                reveal_strlit("Skin '{}' not found");
                assert(placeholders(en_text(Key::SkinNotFound)) == 1) by {
                    let ps = seq![6int];
                    assert(ps[0] == 6);
                    lemma_placeholder_positions(en_text(Key::SkinNotFound), ps, 0);
                }
            }
        },
        Key::PreviewWindowsOnly => {
            assert(placeholders(zh_text(Key::PreviewWindowsOnly)) == placeholders(en_text(Key::PreviewWindowsOnly))) by {
                reveal_strlit("预览截取仅支持 Windows");
                lemma_placeholder_positions(zh_text(Key::PreviewWindowsOnly), seq![], 0);
                reveal_strlit("Preview capture is only supported on Windows");
                lemma_placeholder_positions(en_text(Key::PreviewWindowsOnly), seq![], 0);
            }
        },
        Key::SkinAlreadyLoaded => {
            assert(placeholders(zh_text(Key::SkinAlreadyLoaded)) == placeholders(en_text(Key::SkinAlreadyLoaded))) by {
                reveal_strlit("皮肤已加载");
                lemma_placeholder_positions(zh_text(Key::SkinAlreadyLoaded), seq![], 0);
                reveal_strlit("Skin is already loaded");
                lemma_placeholder_positions(en_text(Key::SkinAlreadyLoaded), seq![], 0);
            }
        },
        Key::ConfigSaveFailed => {
            assert(placeholders(zh_text(Key::ConfigSaveFailed)) == placeholders(en_text(Key::ConfigSaveFailed))) by {
                reveal_strlit("配置保存失败: {}");
                assert(placeholders(zh_text(Key::ConfigSaveFailed)) == 1) by {
                    let ps = seq![8int];
                    assert(ps[0] == 8);
                    lemma_placeholder_positions(zh_text(Key::ConfigSaveFailed), ps, 0);
                }
                reveal_strlit("Failed to save config: {}");
                assert(placeholders(en_text(Key::ConfigSaveFailed)) == 1) by {
                    let ps = seq![23int];
                    assert(ps[0] == 23);
                    lemma_placeholder_positions(en_text(Key::ConfigSaveFailed), ps, 0);
                }
            }
        },
        Key::TaskFailed => {
            assert(placeholders(zh_text(Key::TaskFailed)) == placeholders(en_text(Key::TaskFailed))) by {
                reveal_strlit("任务失败: {}");
                assert(placeholders(zh_text(Key::TaskFailed)) == 1) by {
                    let ps = seq![6int];
                    assert(ps[0] == 6);
                    lemma_placeholder_positions(zh_text(Key::TaskFailed), ps, 0);
                }
                reveal_strlit("Task failed: {}");
                assert(placeholders(en_text(Key::TaskFailed)) == 1) by {
                    let ps = seq![13int];
                    assert(ps[0] == 13);
                    lemma_placeholder_positions(en_text(Key::TaskFailed), ps, 0);
                }
            }
        },
        Key::SkinHasNoSetting => {
            assert(placeholders(zh_text(Key::SkinHasNoSetting)) == placeholders(en_text(Key::SkinHasNoSetting))) by {
                reveal_strlit("皮肤 '{}' 没有设置项 '{}'");
                assert(placeholders(zh_text(Key::SkinHasNoSetting)) == 2) by {
                    let ps = seq![4int, 15int];
                    assert(ps[0] == 4 && ps[1] == 15);
                    lemma_placeholder_positions(zh_text(Key::SkinHasNoSetting), ps, 0);
                }
                reveal_strlit("Skin '{}' has no setting '{}'");
                assert(placeholders(en_text(Key::SkinHasNoSetting)) == 2) by {
                    let ps = seq![6int, 26int];
                    assert(ps[0] == 6 && ps[1] == 26);
                    lemma_placeholder_positions(en_text(Key::SkinHasNoSetting), ps, 0);
                }
            }
        },
        Key::SettingNeedsBool => {
            assert(placeholders(zh_text(Key::SettingNeedsBool)) == placeholders(en_text(Key::SettingNeedsBool))) by {
                reveal_strlit("设置项 '{}' 需要布尔值");
                assert(placeholders(zh_text(Key::SettingNeedsBool)) == 1) by {
                    let ps = seq![5int];
                    assert(ps[0] == 5);
                    lemma_placeholder_positions(zh_text(Key::SettingNeedsBool), ps, 0);
                }
                reveal_strlit("Setting '{}' requires a boolean value");
                assert(placeholders(en_text(Key::SettingNeedsBool)) == 1) by {
                    let ps = seq![9int];
                    assert(ps[0] == 9);
                    lemma_placeholder_positions(en_text(Key::SettingNeedsBool), ps, 0);
                }
            }
        },
        Key::SettingNeedsNumber => {
            assert(placeholders(zh_text(Key::SettingNeedsNumber)) == placeholders(en_text(Key::SettingNeedsNumber))) by {
                reveal_strlit("设置项 '{}' 需要数字");
                assert(placeholders(zh_text(Key::SettingNeedsNumber)) == 1) by {
                    let ps = seq![5int];
                    assert(ps[0] == 5);
                    lemma_placeholder_positions(zh_text(Key::SettingNeedsNumber), ps, 0);
                }
                reveal_strlit("Setting '{}' requires a number");
                assert(placeholders(en_text(Key::SettingNeedsNumber)) == 1) by {
                    let ps = seq![9int];
                    assert(ps[0] == 9);
                    lemma_placeholder_positions(en_text(Key::SettingNeedsNumber), ps, 0);
                }
            }
        },
        Key::SettingNeedsWhat => {
            assert(placeholders(zh_text(Key::SettingNeedsWhat)) == placeholders(en_text(Key::SettingNeedsWhat))) by {
                reveal_strlit("设置项 '{}' 需要{}");
                assert(placeholders(zh_text(Key::SettingNeedsWhat)) == 2) by {
                    let ps = seq![5int, 11int];
                    assert(ps[0] == 5 && ps[1] == 11);
                    lemma_placeholder_positions(zh_text(Key::SettingNeedsWhat), ps, 0);
                }
                reveal_strlit("Setting '{}' requires {}");
                assert(placeholders(en_text(Key::SettingNeedsWhat)) == 2) by {
                    let ps = seq![9int, 22int];
                    assert(ps[0] == 9 && ps[1] == 22);
                    lemma_placeholder_positions(en_text(Key::SettingNeedsWhat), ps, 0);
                }
            }
        },
        Key::WhatText => {
            assert(placeholders(zh_text(Key::WhatText)) == placeholders(en_text(Key::WhatText))) by {
                reveal_strlit("文本");
                lemma_placeholder_positions(zh_text(Key::WhatText), seq![], 0);
                reveal_strlit("a text value");
                lemma_placeholder_positions(en_text(Key::WhatText), seq![], 0);
            }
        },
        Key::WhatTime => {
            assert(placeholders(zh_text(Key::WhatTime)) == placeholders(en_text(Key::WhatTime))) by {
                reveal_strlit("时间");
                lemma_placeholder_positions(zh_text(Key::WhatTime), seq![], 0);
                reveal_strlit("a time value");
                lemma_placeholder_positions(en_text(Key::WhatTime), seq![], 0);
            }
        },
        Key::WhatDate => {
            assert(placeholders(zh_text(Key::WhatDate)) == placeholders(en_text(Key::WhatDate))) by {
                reveal_strlit("日期");
                lemma_placeholder_positions(zh_text(Key::WhatDate), seq![], 0);
                reveal_strlit("a date value");
                lemma_placeholder_positions(en_text(Key::WhatDate), seq![], 0);
            }
        },
        Key::WhatColor => {
            assert(placeholders(zh_text(Key::WhatColor)) == placeholders(en_text(Key::WhatColor))) by {
                reveal_strlit("颜色值");
                lemma_placeholder_positions(zh_text(Key::WhatColor), seq![], 0);
                reveal_strlit("a color value");
                lemma_placeholder_positions(en_text(Key::WhatColor), seq![], 0);
            }
        },
        Key::WhatOption => {
            assert(placeholders(zh_text(Key::WhatOption)) == placeholders(en_text(Key::WhatOption))) by {
                reveal_strlit("选项值");
                lemma_placeholder_positions(zh_text(Key::WhatOption), seq![], 0);
                reveal_strlit("an option value");
                lemma_placeholder_positions(en_text(Key::WhatOption), seq![], 0);
            }
        },
        Key::WhatFont => {
            assert(placeholders(zh_text(Key::WhatFont)) == placeholders(en_text(Key::WhatFont))) by {
                reveal_strlit("字体名");
                lemma_placeholder_positions(zh_text(Key::WhatFont), seq![], 0);
                reveal_strlit("a font name");
                lemma_placeholder_positions(en_text(Key::WhatFont), seq![], 0);
            }
        },
        Key::SettingNeedsTime => {
            assert(placeholders(zh_text(Key::SettingNeedsTime)) == placeholders(en_text(Key::SettingNeedsTime))) by {
                reveal_strlit("设置项 '{}' 需要 HH:MM 或 HH:MM:SS 时间");
                assert(placeholders(zh_text(Key::SettingNeedsTime)) == 1) by {
                    let ps = seq![5int];
                    assert(ps[0] == 5);
                    lemma_placeholder_positions(zh_text(Key::SettingNeedsTime), ps, 0);
                }
                reveal_strlit("Setting '{}' requires a time in HH:MM or HH:MM:SS format");
                assert(placeholders(en_text(Key::SettingNeedsTime)) == 1) by {
                    let ps = seq![9int];
                    assert(ps[0] == 9);
                    lemma_placeholder_positions(en_text(Key::SettingNeedsTime), ps, 0);
                }
            }
        },
        Key::SettingNeedsDate => {
            assert(placeholders(zh_text(Key::SettingNeedsDate)) == placeholders(en_text(Key::SettingNeedsDate))) by {
                reveal_strlit("设置项 '{}' 需要 YYYY-MM-DD 日期");
                assert(placeholders(zh_text(Key::SettingNeedsDate)) == 1) by {
                    let ps = seq![5int];
                    assert(ps[0] == 5);
                    lemma_placeholder_positions(zh_text(Key::SettingNeedsDate), ps, 0);
                }
                reveal_strlit("Setting '{}' requires a date in YYYY-MM-DD format");
                assert(placeholders(en_text(Key::SettingNeedsDate)) == 1) by {
                    let ps = seq![9int];
                    assert(ps[0] == 9);
                    lemma_placeholder_positions(en_text(Key::SettingNeedsDate), ps, 0);
                }
            }
        },
        Key::SettingNeedsColor => {
            assert(placeholders(zh_text(Key::SettingNeedsColor)) == placeholders(en_text(Key::SettingNeedsColor))) by {
                reveal_strlit("设置项 '{}' 需要 #rrggbb 或 #rrggbbaa 颜色值");
                assert(placeholders(zh_text(Key::SettingNeedsColor)) == 1) by {
                    let ps = seq![5int];
                    assert(ps[0] == 5);
                    lemma_placeholder_positions(zh_text(Key::SettingNeedsColor), ps, 0);
                }
                reveal_strlit("Setting '{}' requires a color in #rrggbb or #rrggbbaa format");
                assert(placeholders(en_text(Key::SettingNeedsColor)) == 1) by {
                    let ps = seq![9int];
                    assert(ps[0] == 9);
                    lemma_placeholder_positions(en_text(Key::SettingNeedsColor), ps, 0);
                }
            }
        },
        Key::SettingValueNotAllowed => {
            assert(placeholders(zh_text(Key::SettingValueNotAllowed)) == placeholders(en_text(Key::SettingValueNotAllowed))) by {
                reveal_strlit("设置项 '{}' 的取值 '{}' 不在可选项内");
                assert(placeholders(zh_text(Key::SettingValueNotAllowed)) == 2) by {
                    let ps = seq![5int, 14int];
                    assert(ps[0] == 5 && ps[1] == 14);
                    lemma_placeholder_positions(zh_text(Key::SettingValueNotAllowed), ps, 0);
                }
                reveal_strlit("Setting '{}': value '{}' is not one of the allowed options");
                assert(placeholders(en_text(Key::SettingValueNotAllowed)) == 2) by {
                    let ps = seq![9int, 21int];
                    assert(ps[0] == 9 && ps[1] == 21);
                    lemma_placeholder_positions(en_text(Key::SettingValueNotAllowed), ps, 0);
                }
            }
        },
        Key::SettingNeedsArray => {
            assert(placeholders(zh_text(Key::SettingNeedsArray)) == placeholders(en_text(Key::SettingNeedsArray))) by {
                reveal_strlit("设置项 '{}' 需要数组");
                assert(placeholders(zh_text(Key::SettingNeedsArray)) == 1) by {
                    let ps = seq![5int];
                    assert(ps[0] == 5);
                    lemma_placeholder_positions(zh_text(Key::SettingNeedsArray), ps, 0);
                }
                reveal_strlit("Setting '{}' requires an array");
                assert(placeholders(en_text(Key::SettingNeedsArray)) == 1) by {
                    let ps = seq![9int];
                    assert(ps[0] == 9);
                    lemma_placeholder_positions(en_text(Key::SettingNeedsArray), ps, 0);
                }
            }
        },
        Key::SettingNeedsStringArray => {
            assert(placeholders(zh_text(Key::SettingNeedsStringArray)) == placeholders(en_text(Key::SettingNeedsStringArray))) by {
                reveal_strlit("设置项 '{}' 需要字符串数组");
                assert(placeholders(zh_text(Key::SettingNeedsStringArray)) == 1) by {
                    let ps = seq![5int];
                    assert(ps[0] == 5);
                    lemma_placeholder_positions(zh_text(Key::SettingNeedsStringArray), ps, 0);
                }
                reveal_strlit("Setting '{}' requires an array of strings");
                assert(placeholders(en_text(Key::SettingNeedsStringArray)) == 1) by {
                    let ps = seq![9int];
                    assert(ps[0] == 9);
                    lemma_placeholder_positions(en_text(Key::SettingNeedsStringArray), ps, 0);
                }
            }
        },
        Key::SettingNeedsTimeRange => {
            assert(placeholders(zh_text(Key::SettingNeedsTimeRange)) == placeholders(en_text(Key::SettingNeedsTimeRange))) by {
                reveal_strlit("设置项 '{}' 需要时间范围对象");
                assert(placeholders(zh_text(Key::SettingNeedsTimeRange)) == 1) by {
                    let ps = seq![5int];
                    assert(ps[0] == 5);
                    lemma_placeholder_positions(zh_text(Key::SettingNeedsTimeRange), ps, 0);
                }
                reveal_strlit("Setting '{}' requires a time-range object");
                assert(placeholders(en_text(Key::SettingNeedsTimeRange)) == 1) by {
                    let ps = seq![9int];
                    assert(ps[0] == 9);
                    lemma_placeholder_positions(en_text(Key::SettingNeedsTimeRange), ps, 0);
                }
            }
        },
        Key::SettingMissingStart => {
            assert(placeholders(zh_text(Key::SettingMissingStart)) == placeholders(en_text(Key::SettingMissingStart))) by {
                reveal_strlit("设置项 '{}' 缺少 start");
                assert(placeholders(zh_text(Key::SettingMissingStart)) == 1) by {
                    let ps = seq![5int];
                    assert(ps[0] == 5);
                    lemma_placeholder_positions(zh_text(Key::SettingMissingStart), ps, 0);
                }
                reveal_strlit("Setting '{}' is missing 'start'");
                assert(placeholders(en_text(Key::SettingMissingStart)) == 1) by {
                    let ps = seq![9int];
                    assert(ps[0] == 9);
                    lemma_placeholder_positions(en_text(Key::SettingMissingStart), ps, 0);
                }
            }
        },
        Key::SettingMissingEnd => {
            assert(placeholders(zh_text(Key::SettingMissingEnd)) == placeholders(en_text(Key::SettingMissingEnd))) by {
                reveal_strlit("设置项 '{}' 缺少 end");
                assert(placeholders(zh_text(Key::SettingMissingEnd)) == 1) by {
                    let ps = seq![5int];
                    assert(ps[0] == 5);
                    lemma_placeholder_positions(zh_text(Key::SettingMissingEnd), ps, 0);
                }
                reveal_strlit("Setting '{}' is missing 'end'");
                assert(placeholders(en_text(Key::SettingMissingEnd)) == 1) by {
                    let ps = seq![9int];
                    assert(ps[0] == 9);
                    lemma_placeholder_positions(en_text(Key::SettingMissingEnd), ps, 0);
                }
            }
        },
        Key::SettingNeedsDateTime => {
            assert(placeholders(zh_text(Key::SettingNeedsDateTime)) == placeholders(en_text(Key::SettingNeedsDateTime))) by {
                reveal_strlit("设置项 '{}' 需要 YYYY-MM-DD HH:MM:SS 格式");
                assert(placeholders(zh_text(Key::SettingNeedsDateTime)) == 1) by {
                    let ps = seq![5int];
                    assert(ps[0] == 5);
                    lemma_placeholder_positions(zh_text(Key::SettingNeedsDateTime), ps, 0);
                }
                reveal_strlit("Setting '{}' requires YYYY-MM-DD HH:MM:SS format");
                assert(placeholders(en_text(Key::SettingNeedsDateTime)) == 1) by {
                    let ps = seq![9int];
                    assert(ps[0] == 9);
                    lemma_placeholder_positions(en_text(Key::SettingNeedsDateTime), ps, 0);
                }
            }
        },
        Key::EntryNeedsObject => {
            assert(placeholders(zh_text(Key::EntryNeedsObject)) == placeholders(en_text(Key::EntryNeedsObject))) by {
                reveal_strlit("设置项 '{}' 的条目需要对象");
                assert(placeholders(zh_text(Key::EntryNeedsObject)) == 1) by {
                    let ps = seq![5int];
                    assert(ps[0] == 5);
                    lemma_placeholder_positions(zh_text(Key::EntryNeedsObject), ps, 0);
                }
                reveal_strlit("Setting '{}': each entry must be an object");
                assert(placeholders(en_text(Key::EntryNeedsObject)) == 1) by {
                    let ps = seq![9int];
                    assert(ps[0] == 9);
                    lemma_placeholder_positions(en_text(Key::EntryNeedsObject), ps, 0);
                }
            }
        },
        Key::EntryMissingTime => {
            assert(placeholders(zh_text(Key::EntryMissingTime)) == placeholders(en_text(Key::EntryMissingTime))) by {
                reveal_strlit("设置项 '{}' 的条目缺少 time");
                assert(placeholders(zh_text(Key::EntryMissingTime)) == 1) by {
                    let ps = seq![5int];
                    assert(ps[0] == 5);
                    lemma_placeholder_positions(zh_text(Key::EntryMissingTime), ps, 0);
                }
                reveal_strlit("Setting '{}': entry is missing 'time'");
                assert(placeholders(en_text(Key::EntryMissingTime)) == 1) by {
                    let ps = seq![9int];
                    assert(ps[0] == 9);
                    lemma_placeholder_positions(en_text(Key::EntryMissingTime), ps, 0);
                }
            }
        },
        Key::EntryMissingText => {
            assert(placeholders(zh_text(Key::EntryMissingText)) == placeholders(en_text(Key::EntryMissingText))) by {
                reveal_strlit("设置项 '{}' 的条目缺少 text");
                assert(placeholders(zh_text(Key::EntryMissingText)) == 1) by {
                    let ps = seq![5int];
                    assert(ps[0] == 5);
                    lemma_placeholder_positions(zh_text(Key::EntryMissingText), ps, 0);
                }
                reveal_strlit("Setting '{}': entry is missing 'text'");
                assert(placeholders(en_text(Key::EntryMissingText)) == 1) by {
                    let ps = seq![9int];
                    assert(ps[0] == 9);
                    lemma_placeholder_positions(en_text(Key::EntryMissingText), ps, 0);
                }
            }
        },
        Key::EntryTimeFormat => {
            assert(placeholders(zh_text(Key::EntryTimeFormat)) == placeholders(en_text(Key::EntryTimeFormat))) by {
                reveal_strlit("设置项 '{}' 的条目时间需要 YYYY-MM-DD HH:MM:SS 格式");
                assert(placeholders(zh_text(Key::EntryTimeFormat)) == 1) by {
                    let ps = seq![5int];
                    assert(ps[0] == 5);
                    lemma_placeholder_positions(zh_text(Key::EntryTimeFormat), ps, 0);
                }
                reveal_strlit("Setting '{}': entry time must be in YYYY-MM-DD HH:MM:SS format");
                assert(placeholders(en_text(Key::EntryTimeFormat)) == 1) by {
                    let ps = seq![9int];
                    assert(ps[0] == 9);
                    lemma_placeholder_positions(en_text(Key::EntryTimeFormat), ps, 0);
                }
            }
        },
        Key::InvalidWeekday => {
            assert(placeholders(zh_text(Key::InvalidWeekday)) == placeholders(en_text(Key::InvalidWeekday))) by {
                reveal_strlit("设置项 '{}' 的取值 '{}' 不是有效的星期");
                assert(placeholders(zh_text(Key::InvalidWeekday)) == 2) by {
                    let ps = seq![5int, 14int];
                    assert(ps[0] == 5 && ps[1] == 14);
                    lemma_placeholder_positions(zh_text(Key::InvalidWeekday), ps, 0);
                }
                reveal_strlit("Setting '{}': value '{}' is not a valid weekday");
                assert(placeholders(en_text(Key::InvalidWeekday)) == 2) by {
                    let ps = seq![9int, 21int];
                    assert(ps[0] == 9 && ps[1] == 21);
                    lemma_placeholder_positions(en_text(Key::InvalidWeekday), ps, 0);
                }
            }
        },
        Key::SkinNotLoaded => {
            assert(placeholders(zh_text(Key::SkinNotLoaded)) == placeholders(en_text(Key::SkinNotLoaded))) by {
                reveal_strlit("皮肤未加载");
                lemma_placeholder_positions(zh_text(Key::SkinNotLoaded), seq![], 0);
                reveal_strlit("Skin is not loaded");
                lemma_placeholder_positions(en_text(Key::SkinNotLoaded), seq![], 0);
            }
        },
        Key::DialogError => {
            assert(placeholders(zh_text(Key::DialogError)) == placeholders(en_text(Key::DialogError))) by {
                reveal_strlit("对话框错误: {}");
                assert(placeholders(zh_text(Key::DialogError)) == 1) by {
                    let ps = seq![7int];
                    assert(ps[0] == 7);
                    lemma_placeholder_positions(zh_text(Key::DialogError), ps, 0);
                }
                reveal_strlit("Dialog error: {}");
                assert(placeholders(en_text(Key::DialogError)) == 1) by {
                    let ps = seq![14int];
                    assert(ps[0] == 14);
                    lemma_placeholder_positions(en_text(Key::DialogError), ps, 0);
                }
            }
        },
        Key::DskinFilterName => {
            assert(placeholders(zh_text(Key::DskinFilterName)) == placeholders(en_text(Key::DskinFilterName))) by {
                reveal_strlit("Driftlet 皮肤包");
                lemma_placeholder_positions(zh_text(Key::DskinFilterName), seq![], 0);
                reveal_strlit("Driftlet Skin Package");
                lemma_placeholder_positions(en_text(Key::DskinFilterName), seq![], 0);
            }
        },
        Key::PickFilterName => {
            assert(placeholders(zh_text(Key::PickFilterName)) == placeholders(en_text(Key::PickFilterName))) by {
                reveal_strlit("允许的类型");
                lemma_placeholder_positions(zh_text(Key::PickFilterName), seq![], 0);
                reveal_strlit("Allowed types");
                lemma_placeholder_positions(en_text(Key::PickFilterName), seq![], 0);
            }
        },
        Key::NotASkinWindow => {
            assert(placeholders(zh_text(Key::NotASkinWindow)) == placeholders(en_text(Key::NotASkinWindow))) by {
                reveal_strlit("不是皮肤窗口");
                lemma_placeholder_positions(zh_text(Key::NotASkinWindow), seq![], 0);
                reveal_strlit("Not a skin window");
                lemma_placeholder_positions(en_text(Key::NotASkinWindow), seq![], 0);
            }
        },
        Key::InvalidMenuItems => {
            assert(placeholders(zh_text(Key::InvalidMenuItems)) == placeholders(en_text(Key::InvalidMenuItems))) by {
                reveal_strlit("菜单项无效：{}");
                assert(placeholders(zh_text(Key::InvalidMenuItems)) == 1) by {
                    let ps = seq![6int];
                    assert(ps[0] == 6);
                    lemma_placeholder_positions(zh_text(Key::InvalidMenuItems), ps, 0);
                }
                reveal_strlit("Invalid menu items: {}");
                assert(placeholders(en_text(Key::InvalidMenuItems)) == 1) by {
                    let ps = seq![20int];
                    assert(ps[0] == 20);
                    lemma_placeholder_positions(en_text(Key::InvalidMenuItems), ps, 0);
                }
            }
        },
        Key::ManagerOnly => {
            assert(placeholders(zh_text(Key::ManagerOnly)) == placeholders(en_text(Key::ManagerOnly))) by {
                reveal_strlit("该命令仅允许管理器窗口调用");
                lemma_placeholder_positions(zh_text(Key::ManagerOnly), seq![], 0);
                reveal_strlit("This command can only be called from the manager window");
                lemma_placeholder_positions(en_text(Key::ManagerOnly), seq![], 0);
            }
        },
        Key::LogWindowOnly => {
            assert(placeholders(zh_text(Key::LogWindowOnly)) == placeholders(en_text(Key::LogWindowOnly))) by {
                reveal_strlit("该命令仅允许日志窗口调用");
                lemma_placeholder_positions(zh_text(Key::LogWindowOnly), seq![], 0);
                reveal_strlit("This command can only be called from the log window");
                lemma_placeholder_positions(en_text(Key::LogWindowOnly), seq![], 0);
            }
        },
        Key::UnloadBeforeRemove => {
            assert(placeholders(zh_text(Key::UnloadBeforeRemove)) == placeholders(en_text(Key::UnloadBeforeRemove))) by {
                reveal_strlit("请先卸载皮肤再删除");
                lemma_placeholder_positions(zh_text(Key::UnloadBeforeRemove), seq![], 0);
                reveal_strlit("Unload the skin before removing it");
                lemma_placeholder_positions(en_text(Key::UnloadBeforeRemove), seq![], 0);
            }
        },
        Key::RemoveSkinFailed => {
            assert(placeholders(zh_text(Key::RemoveSkinFailed)) == placeholders(en_text(Key::RemoveSkinFailed))) by {
                reveal_strlit("删除皮肤失败: {}");
                assert(placeholders(zh_text(Key::RemoveSkinFailed)) == 1) by {
                    let ps = seq![8int];
                    assert(ps[0] == 8);
                    lemma_placeholder_positions(zh_text(Key::RemoveSkinFailed), ps, 0);
                }
                reveal_strlit("Failed to remove skin: {}");
                assert(placeholders(en_text(Key::RemoveSkinFailed)) == 1) by {
                    let ps = seq![23int];
                    assert(ps[0] == 23);
                    lemma_placeholder_positions(en_text(Key::RemoveSkinFailed), ps, 0);
                }
            }
        },
        Key::UnloadBeforeDuplicate => {
            assert(placeholders(zh_text(Key::UnloadBeforeDuplicate)) == placeholders(en_text(Key::UnloadBeforeDuplicate))) by {
                reveal_strlit("请先卸载皮肤再创建副本");
                lemma_placeholder_positions(zh_text(Key::UnloadBeforeDuplicate), seq![], 0);
                reveal_strlit("Unload the skin before duplicating it");
                lemma_placeholder_positions(en_text(Key::UnloadBeforeDuplicate), seq![], 0);
            }
        },
        Key::DuplicateSkinFailed => {
            assert(placeholders(zh_text(Key::DuplicateSkinFailed)) == placeholders(en_text(Key::DuplicateSkinFailed))) by {
                reveal_strlit("创建副本失败: {}");
                assert(placeholders(zh_text(Key::DuplicateSkinFailed)) == 1) by {
                    let ps = seq![8int];
                    assert(ps[0] == 8);
                    lemma_placeholder_positions(zh_text(Key::DuplicateSkinFailed), ps, 0);
                }
                reveal_strlit("Failed to duplicate skin: {}");
                assert(placeholders(en_text(Key::DuplicateSkinFailed)) == 1) by {
                    let ps = seq![26int];
                    assert(ps[0] == 26);
                    lemma_placeholder_positions(en_text(Key::DuplicateSkinFailed), ps, 0);
                }
            }
        },
        Key::SourceSkinMissing => {
            assert(placeholders(zh_text(Key::SourceSkinMissing)) == placeholders(en_text(Key::SourceSkinMissing))) by {
                reveal_strlit("源皮肤不存在，无法从源同步");
                lemma_placeholder_positions(zh_text(Key::SourceSkinMissing), seq![], 0);
                reveal_strlit("Source skin not found — cannot sync from source");
                lemma_placeholder_positions(en_text(Key::SourceSkinMissing), seq![], 0);
            }
        },
        Key::SyncCopyFailed => {
            assert(placeholders(zh_text(Key::SyncCopyFailed)) == placeholders(en_text(Key::SyncCopyFailed))) by {
                reveal_strlit("从源同步副本失败: {}");
                assert(placeholders(zh_text(Key::SyncCopyFailed)) == 1) by {
                    let ps = seq![10int];
                    assert(ps[0] == 10);
                    lemma_placeholder_positions(zh_text(Key::SyncCopyFailed), ps, 0);
                }
                reveal_strlit("Failed to sync copy from source: {}");
                assert(placeholders(en_text(Key::SyncCopyFailed)) == 1) by {
                    let ps = seq![33int];
                    assert(ps[0] == 33);
                    lemma_placeholder_positions(en_text(Key::SyncCopyFailed), ps, 0);
                }
            }
        },
        Key::LayoutNameInvalid => {
            assert(placeholders(zh_text(Key::LayoutNameInvalid)) == placeholders(en_text(Key::LayoutNameInvalid))) by {
                reveal_strlit("布局名称需要 1–64 个字符");
                lemma_placeholder_positions(zh_text(Key::LayoutNameInvalid), seq![], 0);
                reveal_strlit("Layout name must be 1–64 characters");
                lemma_placeholder_positions(en_text(Key::LayoutNameInvalid), seq![], 0);
            }
        },
        Key::LayoutNotFound => {
            assert(placeholders(zh_text(Key::LayoutNotFound)) == placeholders(en_text(Key::LayoutNotFound))) by {
                reveal_strlit("布局方案「{}」不存在");
                assert(placeholders(zh_text(Key::LayoutNotFound)) == 1) by {
                    let ps = seq![5int];
                    assert(ps[0] == 5);
                    lemma_placeholder_positions(zh_text(Key::LayoutNotFound), ps, 0);
                }
                reveal_strlit("Layout preset \"{}\" not found");
                assert(placeholders(en_text(Key::LayoutNotFound)) == 1) by {
                    let ps = seq![15int];
                    assert(ps[0] == 15);
                    lemma_placeholder_positions(en_text(Key::LayoutNotFound), ps, 0);
                }
            }
        },
        Key::ImportFolderConflict => {
            assert(placeholders(zh_text(Key::ImportFolderConflict)) == placeholders(en_text(Key::ImportFolderConflict))) by {
                reveal_strlit("文件夹「{}」已被另一个皮肤占用，请先处理冲突再导入");
                assert(placeholders(zh_text(Key::ImportFolderConflict)) == 1) by {
                    let ps = seq![4int];
                    assert(ps[0] == 4);
                    lemma_placeholder_positions(zh_text(Key::ImportFolderConflict), ps, 0);
                }
                reveal_strlit("Folder \"{}\" is already used by another skin — resolve the conflict before importing");
                assert(placeholders(en_text(Key::ImportFolderConflict)) == 1) by {
                    let ps = seq![8int];
                    assert(ps[0] == 8);
                    lemma_placeholder_positions(en_text(Key::ImportFolderConflict), ps, 0);
                }
            }
        },
        Key::SkinFolderNotFound => {
            assert(placeholders(zh_text(Key::SkinFolderNotFound)) == placeholders(en_text(Key::SkinFolderNotFound))) by {
                reveal_strlit("皮肤文件夹 '{}' 未找到");
                assert(placeholders(zh_text(Key::SkinFolderNotFound)) == 1) by {
                    let ps = seq![7int];
                    assert(ps[0] == 7);
                    lemma_placeholder_positions(zh_text(Key::SkinFolderNotFound), ps, 0);
                }
                reveal_strlit("Skin folder '{}' not found");
                assert(placeholders(en_text(Key::SkinFolderNotFound)) == 1) by {
                    let ps = seq![13int];
                    assert(ps[0] == 13);
                    lemma_placeholder_positions(en_text(Key::SkinFolderNotFound), ps, 0);
                }
            }
        },
        Key::OpenFailed => {
            assert(placeholders(zh_text(Key::OpenFailed)) == placeholders(en_text(Key::OpenFailed))) by {
                reveal_strlit("打开失败: {}");
                assert(placeholders(zh_text(Key::OpenFailed)) == 1) by {
                    let ps = seq![6int];
                    assert(ps[0] == 6);
                    lemma_placeholder_positions(zh_text(Key::OpenFailed), ps, 0);
                }
                reveal_strlit("Failed to open: {}");
                assert(placeholders(en_text(Key::OpenFailed)) == 1) by {
                    let ps = seq![16int];
                    assert(ps[0] == 16);
                    lemma_placeholder_positions(en_text(Key::OpenFailed), ps, 0);
                }
            }
        },
        Key::InvalidSkinId => {
            assert(placeholders(zh_text(Key::InvalidSkinId)) == placeholders(en_text(Key::InvalidSkinId))) by {
                reveal_strlit("皮肤 id '{}' 不合法：仅允许小写字母、数字、中划线，且必须以字母或数字开头");
                assert(placeholders(zh_text(Key::InvalidSkinId)) == 1) by {
                    let ps = seq![7int];
                    assert(ps[0] == 7);
                    lemma_placeholder_positions(zh_text(Key::InvalidSkinId), ps, 0);
                }
                reveal_strlit("Invalid skin id '{}': only lowercase letters, digits and dashes are allowed, and it must start with a letter or digit");
                assert(placeholders(en_text(Key::InvalidSkinId)) == 1) by {
                    let ps = seq![17int];
                    assert(ps[0] == 17);
                    lemma_placeholder_positions(en_text(Key::InvalidSkinId), ps, 0);
                }
            }
        },
        Key::ReplaceOldDirFailed => {
            assert(placeholders(zh_text(Key::ReplaceOldDirFailed)) == placeholders(en_text(Key::ReplaceOldDirFailed))) by {
                reveal_strlit("无法替换旧版本皮肤目录: {}");
                assert(placeholders(zh_text(Key::ReplaceOldDirFailed)) == 1) by {
                    let ps = seq![13int];
                    assert(ps[0] == 13);
                    lemma_placeholder_positions(zh_text(Key::ReplaceOldDirFailed), ps, 0);
                }
                reveal_strlit("Failed to replace the existing skin directory: {}");
                assert(placeholders(en_text(Key::ReplaceOldDirFailed)) == 1) by {
                    let ps = seq![47int];
                    assert(ps[0] == 47);
                    lemma_placeholder_positions(en_text(Key::ReplaceOldDirFailed), ps, 0);
                }
            }
        },
        Key::InstallSkinFailed => {
            assert(placeholders(zh_text(Key::InstallSkinFailed)) == placeholders(en_text(Key::InstallSkinFailed))) by {
                reveal_strlit("安装皮肤失败: {}");
                assert(placeholders(zh_text(Key::InstallSkinFailed)) == 1) by {
                    let ps = seq![8int];
                    assert(ps[0] == 8);
                    lemma_placeholder_positions(zh_text(Key::InstallSkinFailed), ps, 0);
                }
                reveal_strlit("Failed to install skin: {}");
                assert(placeholders(en_text(Key::InstallSkinFailed)) == 1) by {
                    let ps = seq![24int];
                    assert(ps[0] == 24);
                    lemma_placeholder_positions(en_text(Key::InstallSkinFailed), ps, 0);
                }
            }
        },
        Key::RestoreSettingsFailed => {
            assert(placeholders(zh_text(Key::RestoreSettingsFailed)) == placeholders(en_text(Key::RestoreSettingsFailed))) by {
                reveal_strlit("无法恢复用户设置: {}");
                assert(placeholders(zh_text(Key::RestoreSettingsFailed)) == 1) by {
                    let ps = seq![10int];
                    assert(ps[0] == 10);
                    lemma_placeholder_positions(zh_text(Key::RestoreSettingsFailed), ps, 0);
                }
                reveal_strlit("Failed to restore user settings: {}");
                assert(placeholders(en_text(Key::RestoreSettingsFailed)) == 1) by {
                    let ps = seq![33int];
                    assert(ps[0] == 33);
                    lemma_placeholder_positions(en_text(Key::RestoreSettingsFailed), ps, 0);
                }
            }
        },
        Key::OpenPackageFailed => {
            assert(placeholders(zh_text(Key::OpenPackageFailed)) == placeholders(en_text(Key::OpenPackageFailed))) by {
                reveal_strlit("无法打开皮肤包: {}");
                assert(placeholders(zh_text(Key::OpenPackageFailed)) == 1) by {
                    let ps = seq![9int];
                    assert(ps[0] == 9);
                    lemma_placeholder_positions(zh_text(Key::OpenPackageFailed), ps, 0);
                }
                reveal_strlit("Failed to open skin package: {}");
                assert(placeholders(en_text(Key::OpenPackageFailed)) == 1) by {
                    let ps = seq![29int];
                    assert(ps[0] == 29);
                    lemma_placeholder_positions(en_text(Key::OpenPackageFailed), ps, 0);
                }
            }
        },
        Key::PackageTooLarge => {
            assert(placeholders(zh_text(Key::PackageTooLarge)) == placeholders(en_text(Key::PackageTooLarge))) by {
                reveal_strlit("皮肤包过大（超过 64 MB）");
                lemma_placeholder_positions(zh_text(Key::PackageTooLarge), seq![], 0);
                reveal_strlit("Skin package is too large (over 64 MB)");
                lemma_placeholder_positions(en_text(Key::PackageTooLarge), seq![], 0);
            }
        },
        Key::PackageCreateFailed => {
            assert(placeholders(zh_text(Key::PackageCreateFailed)) == placeholders(en_text(Key::PackageCreateFailed))) by {
                reveal_strlit("打包失败: {}");
                assert(placeholders(zh_text(Key::PackageCreateFailed)) == 1) by {
                    let ps = seq![6int];
                    assert(ps[0] == 6);
                    lemma_placeholder_positions(zh_text(Key::PackageCreateFailed), ps, 0);
                }
                reveal_strlit("Failed to create package: {}");
                assert(placeholders(en_text(Key::PackageCreateFailed)) == 1) by {
                    let ps = seq![26int];
                    assert(ps[0] == 26);
                    lemma_placeholder_positions(en_text(Key::PackageCreateFailed), ps, 0);
                }
            }
        },
        Key::NotValidZip => {
            assert(placeholders(zh_text(Key::NotValidZip)) == placeholders(en_text(Key::NotValidZip))) by {
                reveal_strlit("不是有效的皮肤包（无法作为 zip 打开）");
                lemma_placeholder_positions(zh_text(Key::NotValidZip), seq![], 0);
                reveal_strlit("Not a valid skin package (cannot be opened as a zip)");
                lemma_placeholder_positions(en_text(Key::NotValidZip), seq![], 0);
            }
        },
        Key::TooManyFiles => {
            assert(placeholders(zh_text(Key::TooManyFiles)) == placeholders(en_text(Key::TooManyFiles))) by {
                reveal_strlit("皮肤包文件过多");
                lemma_placeholder_positions(zh_text(Key::TooManyFiles), seq![], 0);
                reveal_strlit("Skin package contains too many files");
                lemma_placeholder_positions(en_text(Key::TooManyFiles), seq![], 0);
            }
        },
        Key::CreateTempDirFailed => {
            assert(placeholders(zh_text(Key::CreateTempDirFailed)) == placeholders(en_text(Key::CreateTempDirFailed))) by {
                reveal_strlit("无法创建临时目录: {}");
                assert(placeholders(zh_text(Key::CreateTempDirFailed)) == 1) by {
                    let ps = seq![10int];
                    assert(ps[0] == 10);
                    lemma_placeholder_positions(zh_text(Key::CreateTempDirFailed), ps, 0);
                }
                reveal_strlit("Failed to create temp directory: {}");
                assert(placeholders(en_text(Key::CreateTempDirFailed)) == 1) by {
                    let ps = seq![33int];
                    assert(ps[0] == 33);
                    lemma_placeholder_positions(en_text(Key::CreateTempDirFailed), ps, 0);
                }
            }
        },
        Key::ReadPackageFailed => {
            assert(placeholders(zh_text(Key::ReadPackageFailed)) == placeholders(en_text(Key::ReadPackageFailed))) by {
                reveal_strlit("读取皮肤包失败: {}");
                assert(placeholders(zh_text(Key::ReadPackageFailed)) == 1) by {
                    let ps = seq![9int];
                    assert(ps[0] == 9);
                    lemma_placeholder_positions(zh_text(Key::ReadPackageFailed), ps, 0);
                }
                reveal_strlit("Failed to read skin package: {}");
                assert(placeholders(en_text(Key::ReadPackageFailed)) == 1) by {
                    let ps = seq![29int];
                    assert(ps[0] == 29);
                    lemma_placeholder_positions(en_text(Key::ReadPackageFailed), ps, 0);
                }
            }
        },
        Key::ExtractedTooLarge => {
            assert(placeholders(zh_text(Key::ExtractedTooLarge)) == placeholders(en_text(Key::ExtractedTooLarge))) by {
                reveal_strlit("皮肤包解压后过大");
                lemma_placeholder_positions(zh_text(Key::ExtractedTooLarge), seq![], 0);
                reveal_strlit("Skin package is too large once extracted");
                lemma_placeholder_positions(en_text(Key::ExtractedTooLarge), seq![], 0);
            }
        },
        Key::NoSkinJsonInPackage => {
            assert(placeholders(zh_text(Key::NoSkinJsonInPackage)) == placeholders(en_text(Key::NoSkinJsonInPackage))) by {
                reveal_strlit("不是有效的皮肤包：找不到 skin.json");
                lemma_placeholder_positions(zh_text(Key::NoSkinJsonInPackage), seq![], 0);
                reveal_strlit("Not a valid skin package: skin.json not found");
                lemma_placeholder_positions(en_text(Key::NoSkinJsonInPackage), seq![], 0);
            }
        },
        Key::ReadSkinJsonFailed => {
            assert(placeholders(zh_text(Key::ReadSkinJsonFailed)) == placeholders(en_text(Key::ReadSkinJsonFailed))) by {
                reveal_strlit("无法读取 skin.json: {}");
                assert(placeholders(zh_text(Key::ReadSkinJsonFailed)) == 1) by {
                    let ps = seq![16int];
                    assert(ps[0] == 16);
                    lemma_placeholder_positions(zh_text(Key::ReadSkinJsonFailed), ps, 0);
                }
                reveal_strlit("Failed to read skin.json: {}");
                assert(placeholders(en_text(Key::ReadSkinJsonFailed)) == 1) by {
                    let ps = seq![26int];
                    assert(ps[0] == 26);
                    lemma_placeholder_positions(en_text(Key::ReadSkinJsonFailed), ps, 0);
                }
            }
        },
        Key::SkinJsonParseFailed => {
            assert(placeholders(zh_text(Key::SkinJsonParseFailed)) == placeholders(en_text(Key::SkinJsonParseFailed))) by {
                reveal_strlit("skin.json 解析失败: {}");
                assert(placeholders(zh_text(Key::SkinJsonParseFailed)) == 1) by {
                    let ps = seq![16int];
                    assert(ps[0] == 16);
                    lemma_placeholder_positions(zh_text(Key::SkinJsonParseFailed), ps, 0);
                }
                reveal_strlit("Failed to parse skin.json: {}");
                assert(placeholders(en_text(Key::SkinJsonParseFailed)) == 1) by {
                    let ps = seq![27int];
                    assert(ps[0] == 27);
                    lemma_placeholder_positions(en_text(Key::SkinJsonParseFailed), ps, 0);
                }
            }
        },
        Key::PackageMissingId => {
            assert(placeholders(zh_text(Key::PackageMissingId)) == placeholders(en_text(Key::PackageMissingId))) by {
                reveal_strlit("不是有效的皮肤包：skin.json 缺少 id 字段");
                lemma_placeholder_positions(zh_text(Key::PackageMissingId), seq![], 0);
                reveal_strlit("Not a valid skin package: skin.json is missing the id field");
                lemma_placeholder_positions(en_text(Key::PackageMissingId), seq![], 0);
            }
        },
        Key::EntryFileMissing => {
            assert(placeholders(zh_text(Key::EntryFileMissing)) == placeholders(en_text(Key::EntryFileMissing))) by {
                reveal_strlit("不是有效的皮肤包：入口文件 '{}' 不存在");
                assert(placeholders(zh_text(Key::EntryFileMissing)) == 1) by {
                    let ps = seq![15int];
                    assert(ps[0] == 15);
                    lemma_placeholder_positions(zh_text(Key::EntryFileMissing), ps, 0);
                }
                reveal_strlit("Not a valid skin package: entry file '{}' does not exist");
                assert(placeholders(en_text(Key::EntryFileMissing)) == 1) by {
                    let ps = seq![38int];
                    assert(ps[0] == 38);
                    lemma_placeholder_positions(en_text(Key::EntryFileMissing), ps, 0);
                }
            }
        },
        Key::PreviewTooLarge => {
            assert(placeholders(zh_text(Key::PreviewTooLarge)) == placeholders(en_text(Key::PreviewTooLarge))) by {
                reveal_strlit("预览图 '{}' 尺寸 {}×{} 超过上限（最大边长 {} 像素）");
                assert(placeholders(zh_text(Key::PreviewTooLarge)) == 4) by {
                    let ps = seq![5int, 12int, 15int, 28int];
                    assert(ps[0] == 5 && ps[1] == 12 && ps[2] == 15 && ps[3] == 28);
                    lemma_placeholder_positions(zh_text(Key::PreviewTooLarge), ps, 0);
                }
                reveal_strlit("Preview image '{}' is {}x{}, over the limit (max side {} px)");
                assert(placeholders(en_text(Key::PreviewTooLarge)) == 4) by {
                    let ps = seq![15int, 22int, 25int, 54int];
                    assert(ps[0] == 15 && ps[1] == 22 && ps[2] == 25 && ps[3] == 54);
                    lemma_placeholder_positions(en_text(Key::PreviewTooLarge), ps, 0);
                }
            }
        },
        Key::BackupFilterName => {
            assert(placeholders(zh_text(Key::BackupFilterName)) == placeholders(en_text(Key::BackupFilterName))) by {
                reveal_strlit("Driftlet 备份");
                lemma_placeholder_positions(zh_text(Key::BackupFilterName), seq![], 0);
                reveal_strlit("Driftlet Backup");
                lemma_placeholder_positions(en_text(Key::BackupFilterName), seq![], 0);
            }
        },
        Key::BackupNotZip => {
            assert(placeholders(zh_text(Key::BackupNotZip)) == placeholders(en_text(Key::BackupNotZip))) by {
                reveal_strlit("不是有效的备份文件（无法作为 zip 打开）");
                lemma_placeholder_positions(zh_text(Key::BackupNotZip), seq![], 0);
                reveal_strlit("Not a valid backup (cannot be opened as a zip)");
                lemma_placeholder_positions(en_text(Key::BackupNotZip), seq![], 0);
            }
        },
        Key::BackupTooLarge => {
            assert(placeholders(zh_text(Key::BackupTooLarge)) == placeholders(en_text(Key::BackupTooLarge))) by {
                reveal_strlit("备份文件过大（超过 64 MB）");
                lemma_placeholder_positions(zh_text(Key::BackupTooLarge), seq![], 0);
                reveal_strlit("Backup file is too large (over 64 MB)");
                lemma_placeholder_positions(en_text(Key::BackupTooLarge), seq![], 0);
            }
        },
        Key::BackupTooManyFiles => {
            assert(placeholders(zh_text(Key::BackupTooManyFiles)) == placeholders(en_text(Key::BackupTooManyFiles))) by {
                reveal_strlit("备份文件条目过多");
                lemma_placeholder_positions(zh_text(Key::BackupTooManyFiles), seq![], 0);
                reveal_strlit("Backup contains too many files");
                lemma_placeholder_positions(en_text(Key::BackupTooManyFiles), seq![], 0);
            }
        },
        Key::BackupExtractedTooLarge => {
            assert(placeholders(zh_text(Key::BackupExtractedTooLarge)) == placeholders(en_text(Key::BackupExtractedTooLarge))) by {
                reveal_strlit("备份解压后过大");
                lemma_placeholder_positions(zh_text(Key::BackupExtractedTooLarge), seq![], 0);
                reveal_strlit("Backup is too large once extracted");
                lemma_placeholder_positions(en_text(Key::BackupExtractedTooLarge), seq![], 0);
            }
        },
        Key::InvalidBackup => {
            assert(placeholders(zh_text(Key::InvalidBackup)) == placeholders(en_text(Key::InvalidBackup))) by {
                reveal_strlit("不是有效的 Driftlet 备份（缺少 config/config.json）");
                lemma_placeholder_positions(zh_text(Key::InvalidBackup), seq![], 0);
                reveal_strlit("Not a valid Driftlet backup (missing config/config.json)");
                lemma_placeholder_positions(en_text(Key::InvalidBackup), seq![], 0);
            }
        },
        Key::BackupFormatUnsupported => {
            assert(placeholders(zh_text(Key::BackupFormatUnsupported)) == placeholders(en_text(Key::BackupFormatUnsupported))) by {
                reveal_strlit("备份由更新版本的 Driftlet 创建（格式 {}），无法导入");
                assert(placeholders(zh_text(Key::BackupFormatUnsupported)) == 1) by {
                    let ps = seq![24int];
                    assert(ps[0] == 24);
                    lemma_placeholder_positions(zh_text(Key::BackupFormatUnsupported), ps, 0);
                }
                reveal_strlit("Backup was created by a newer Driftlet (format {}) and cannot be imported");
                assert(placeholders(en_text(Key::BackupFormatUnsupported)) == 1) by {
                    let ps = seq![47int];
                    assert(ps[0] == 47);
                    lemma_placeholder_positions(en_text(Key::BackupFormatUnsupported), ps, 0);
                }
            }
        },
        Key::ReadBackupFailed => {
            assert(placeholders(zh_text(Key::ReadBackupFailed)) == placeholders(en_text(Key::ReadBackupFailed))) by {
                reveal_strlit("读取备份文件失败：{}");
                assert(placeholders(zh_text(Key::ReadBackupFailed)) == 1) by {
                    let ps = seq![9int];
                    assert(ps[0] == 9);
                    lemma_placeholder_positions(zh_text(Key::ReadBackupFailed), ps, 0);
                }
                reveal_strlit("Failed to read backup: {}");
                assert(placeholders(en_text(Key::ReadBackupFailed)) == 1) by {
                    let ps = seq![23int];
                    assert(ps[0] == 23);
                    lemma_placeholder_positions(en_text(Key::ReadBackupFailed), ps, 0);
                }
            }
        },
        Key::ExportBackupFailed => {
            assert(placeholders(zh_text(Key::ExportBackupFailed)) == placeholders(en_text(Key::ExportBackupFailed))) by {
                reveal_strlit("导出备份失败：{}");
                assert(placeholders(zh_text(Key::ExportBackupFailed)) == 1) by {
                    let ps = seq![7int];
                    assert(ps[0] == 7);
                    lemma_placeholder_positions(zh_text(Key::ExportBackupFailed), ps, 0);
                }
                reveal_strlit("Failed to export backup: {}");
                assert(placeholders(en_text(Key::ExportBackupFailed)) == 1) by {
                    let ps = seq![25int];
                    assert(ps[0] == 25);
                    lemma_placeholder_positions(en_text(Key::ExportBackupFailed), ps, 0);
                }
            }
        },
        Key::ImportBackupFailed => {
            assert(placeholders(zh_text(Key::ImportBackupFailed)) == placeholders(en_text(Key::ImportBackupFailed))) by {
                reveal_strlit("导入备份失败：{}");
                assert(placeholders(zh_text(Key::ImportBackupFailed)) == 1) by {
                    let ps = seq![7int];
                    assert(ps[0] == 7);
                    lemma_placeholder_positions(zh_text(Key::ImportBackupFailed), ps, 0);
                }
                reveal_strlit("Failed to import backup: {}");
                assert(placeholders(en_text(Key::ImportBackupFailed)) == 1) by {
                    let ps = seq![25int];
                    assert(ps[0] == 25);
                    lemma_placeholder_positions(en_text(Key::ImportBackupFailed), ps, 0);
                }
            }
        },
        Key::ImportPartialUnloaded => {
            assert(placeholders(zh_text(Key::ImportPartialUnloaded)) == placeholders(en_text(Key::ImportPartialUnloaded))) by {
                reveal_strlit("导入已中止；以下皮肤已被卸载，重新加载即可恢复：{}");
                assert(placeholders(zh_text(Key::ImportPartialUnloaded)) == 1) by {
                    let ps = seq![24int];
                    assert(ps[0] == 24);
                    lemma_placeholder_positions(zh_text(Key::ImportPartialUnloaded), ps, 0);
                }
                reveal_strlit("Import aborted; the following skins were unloaded — reload them to restore: {}");
                assert(placeholders(en_text(Key::ImportPartialUnloaded)) == 1) by {
                    let ps = seq![76int];
                    assert(ps[0] == 76);
                    lemma_placeholder_positions(en_text(Key::ImportPartialUnloaded), ps, 0);
                }
            }
        },
        Key::WritePreviewFailed => {
            assert(placeholders(zh_text(Key::WritePreviewFailed)) == placeholders(en_text(Key::WritePreviewFailed))) by {
                reveal_strlit("写入预览图失败: {}");
                assert(placeholders(zh_text(Key::WritePreviewFailed)) == 1) by {
                    let ps = seq![9int];
                    assert(ps[0] == 9);
                    lemma_placeholder_positions(zh_text(Key::WritePreviewFailed), ps, 0);
                }
                reveal_strlit("Failed to write preview image: {}");
                assert(placeholders(en_text(Key::WritePreviewFailed)) == 1) by {
                    let ps = seq![31int];
                    assert(ps[0] == 31);
                    lemma_placeholder_positions(en_text(Key::WritePreviewFailed), ps, 0);
                }
            }
        },
        Key::WebViewNotReady => {
            assert(placeholders(zh_text(Key::WebViewNotReady)) == placeholders(en_text(Key::WebViewNotReady))) by {
                reveal_strlit("WebView2 尚未就绪: {}");
                assert(placeholders(zh_text(Key::WebViewNotReady)) == 1) by {
                    let ps = seq![15int];
                    assert(ps[0] == 15);
                    lemma_placeholder_positions(zh_text(Key::WebViewNotReady), ps, 0);
                }
                reveal_strlit("WebView2 is not ready: {}");
                assert(placeholders(en_text(Key::WebViewNotReady)) == 1) by {
                    let ps = seq![23int];
                    assert(ps[0] == 23);
                    lemma_placeholder_positions(en_text(Key::WebViewNotReady), ps, 0);
                }
            }
        },
        Key::CapturePreviewCallFailed => {
            assert(placeholders(zh_text(Key::CapturePreviewCallFailed)) == placeholders(en_text(Key::CapturePreviewCallFailed))) by {
                reveal_strlit("CapturePreview 调用失败: {}");
                assert(placeholders(zh_text(Key::CapturePreviewCallFailed)) == 1) by {
                    let ps = seq![21int];
                    assert(ps[0] == 21);
                    lemma_placeholder_positions(zh_text(Key::CapturePreviewCallFailed), ps, 0);
                }
                reveal_strlit("CapturePreview call failed: {}");
                assert(placeholders(en_text(Key::CapturePreviewCallFailed)) == 1) by {
                    let ps = seq![28int];
                    assert(ps[0] == 28);
                    lemma_placeholder_positions(en_text(Key::CapturePreviewCallFailed), ps, 0);
                }
            }
        },
        Key::AccessWebViewFailed => {
            assert(placeholders(zh_text(Key::AccessWebViewFailed)) == placeholders(en_text(Key::AccessWebViewFailed))) by {
                reveal_strlit("无法访问 WebView: {}");
                assert(placeholders(zh_text(Key::AccessWebViewFailed)) == 1) by {
                    let ps = seq![14int];
                    assert(ps[0] == 14);
                    lemma_placeholder_positions(zh_text(Key::AccessWebViewFailed), ps, 0);
                }
                reveal_strlit("Cannot access WebView: {}");
                assert(placeholders(en_text(Key::AccessWebViewFailed)) == 1) by {
                    let ps = seq![23int];
                    assert(ps[0] == 23);
                    lemma_placeholder_positions(en_text(Key::AccessWebViewFailed), ps, 0);
                }
            }
        },
        Key::CaptureTimeout => {
            assert(placeholders(zh_text(Key::CaptureTimeout)) == placeholders(en_text(Key::CaptureTimeout))) by {
                reveal_strlit("截图超时（10 秒无响应）");
                lemma_placeholder_positions(zh_text(Key::CaptureTimeout), seq![], 0);
                reveal_strlit("Capture timed out (no response for 10 seconds)");
                lemma_placeholder_positions(en_text(Key::CaptureTimeout), seq![], 0);
            }
        },
        Key::PermissionDenied => {
            assert(placeholders(zh_text(Key::PermissionDenied)) == placeholders(en_text(Key::PermissionDenied))) by {
                reveal_strlit("皮肤 '{}' 未声明权限 '{}'");
                assert(placeholders(zh_text(Key::PermissionDenied)) == 2) by {
                    let ps = seq![4int, 15int];
                    assert(ps[0] == 4 && ps[1] == 15);
                    lemma_placeholder_positions(zh_text(Key::PermissionDenied), ps, 0);
                }
                reveal_strlit("Skin '{}' has not declared the '{}' permission");
                assert(placeholders(en_text(Key::PermissionDenied)) == 2) by {
                    let ps = seq![6int, 32int];
                    assert(ps[0] == 6 && ps[1] == 32);
                    lemma_placeholder_positions(en_text(Key::PermissionDenied), ps, 0);
                }
            }
        },
        Key::InvalidPath => {
            assert(placeholders(zh_text(Key::InvalidPath)) == placeholders(en_text(Key::InvalidPath))) by {
                reveal_strlit("无效的路径 '{}'");
                assert(placeholders(zh_text(Key::InvalidPath)) == 1) by {
                    let ps = seq![7int];
                    assert(ps[0] == 7);
                    lemma_placeholder_positions(zh_text(Key::InvalidPath), ps, 0);
                }
                reveal_strlit("Invalid path '{}'");
                assert(placeholders(en_text(Key::InvalidPath)) == 1) by {
                    let ps = seq![14int];
                    assert(ps[0] == 14);
                    lemma_placeholder_positions(en_text(Key::InvalidPath), ps, 0);
                }
            }
        },
        Key::FileTooLarge => {
            assert(placeholders(zh_text(Key::FileTooLarge)) == placeholders(en_text(Key::FileTooLarge))) by {
                reveal_strlit("文件超出大小限制");
                lemma_placeholder_positions(zh_text(Key::FileTooLarge), seq![], 0);
                reveal_strlit("File exceeds the size limit");
                lemma_placeholder_positions(en_text(Key::FileTooLarge), seq![], 0);
            }
        },
        Key::ProtectedFile => {
            assert(placeholders(zh_text(Key::ProtectedFile)) == placeholders(en_text(Key::ProtectedFile))) by {
                reveal_strlit("该文件由应用管理，禁止修改：{}");
                assert(placeholders(zh_text(Key::ProtectedFile)) == 1) by {
                    let ps = seq![14int];
                    assert(ps[0] == 14);
                    lemma_placeholder_positions(zh_text(Key::ProtectedFile), ps, 0);
                }
                reveal_strlit("This file is managed by the app and cannot be modified: {}");
                assert(placeholders(en_text(Key::ProtectedFile)) == 1) by {
                    let ps = seq![56int];
                    assert(ps[0] == 56);
                    lemma_placeholder_positions(en_text(Key::ProtectedFile), ps, 0);
                }
            }
        },
        Key::NotTextFile => {
            assert(placeholders(zh_text(Key::NotTextFile)) == placeholders(en_text(Key::NotTextFile))) by {
                reveal_strlit("不是文本文件，请用二进制模式读取");
                lemma_placeholder_positions(zh_text(Key::NotTextFile), seq![], 0);
                reveal_strlit("Not a text file; read it in binary mode");
                lemma_placeholder_positions(en_text(Key::NotTextFile), seq![], 0);
            }
        },
        Key::InvalidBase64 => {
            assert(placeholders(zh_text(Key::InvalidBase64)) == placeholders(en_text(Key::InvalidBase64))) by {
                reveal_strlit("无效的二进制数据（base64 解码失败）");
                lemma_placeholder_positions(zh_text(Key::InvalidBase64), seq![], 0);
                reveal_strlit("Invalid binary data (base64 decode failed)");
                lemma_placeholder_positions(en_text(Key::InvalidBase64), seq![], 0);
            }
        },
        Key::RegistryReadFailed => {
            assert(placeholders(zh_text(Key::RegistryReadFailed)) == placeholders(en_text(Key::RegistryReadFailed))) by {
                reveal_strlit("注册表读取失败：{}");
                assert(placeholders(zh_text(Key::RegistryReadFailed)) == 1) by {
                    let ps = seq![8int];
                    assert(ps[0] == 8);
                    lemma_placeholder_positions(zh_text(Key::RegistryReadFailed), ps, 0);
                }
                reveal_strlit("Failed to read registry: {}");
                assert(placeholders(en_text(Key::RegistryReadFailed)) == 1) by {
                    let ps = seq![25int];
                    assert(ps[0] == 25);
                    lemma_placeholder_positions(en_text(Key::RegistryReadFailed), ps, 0);
                }
            }
        },
        Key::RegistryRootInvalid => {
            assert(placeholders(zh_text(Key::RegistryRootInvalid)) == placeholders(en_text(Key::RegistryRootInvalid))) by {
                reveal_strlit("无效的注册表根键 '{}'");
                assert(placeholders(zh_text(Key::RegistryRootInvalid)) == 1) by {
                    let ps = seq![10int];
                    assert(ps[0] == 10);
                    lemma_placeholder_positions(zh_text(Key::RegistryRootInvalid), ps, 0);
                }
                reveal_strlit("Invalid registry root '{}'");
                assert(placeholders(en_text(Key::RegistryRootInvalid)) == 1) by {
                    let ps = seq![23int];
                    assert(ps[0] == 23);
                    lemma_placeholder_positions(en_text(Key::RegistryRootInvalid), ps, 0);
                }
            }
        },
        Key::CommandTimeout => {
            assert(placeholders(zh_text(Key::CommandTimeout)) == placeholders(en_text(Key::CommandTimeout))) by {
                reveal_strlit("命令执行超时（{} 秒）");
                assert(placeholders(zh_text(Key::CommandTimeout)) == 1) by {
                    let ps = seq![7int];
                    assert(ps[0] == 7);
                    lemma_placeholder_positions(zh_text(Key::CommandTimeout), ps, 0);
                }
                reveal_strlit("Command timed out ({} seconds)");
                assert(placeholders(en_text(Key::CommandTimeout)) == 1) by {
                    let ps = seq![19int];
                    assert(ps[0] == 19);
                    lemma_placeholder_positions(en_text(Key::CommandTimeout), ps, 0);
                }
            }
        },
        Key::CommandSpawnFailed => {
            assert(placeholders(zh_text(Key::CommandSpawnFailed)) == placeholders(en_text(Key::CommandSpawnFailed))) by {
                reveal_strlit("命令启动失败：{}");
                assert(placeholders(zh_text(Key::CommandSpawnFailed)) == 1) by {
                    let ps = seq![7int];
                    assert(ps[0] == 7);
                    lemma_placeholder_positions(zh_text(Key::CommandSpawnFailed), ps, 0);
                }
                reveal_strlit("Failed to start command: {}");
                assert(placeholders(en_text(Key::CommandSpawnFailed)) == 1) by {
                    let ps = seq![25int];
                    assert(ps[0] == 25);
                    lemma_placeholder_positions(en_text(Key::CommandSpawnFailed), ps, 0);
                }
            }
        },
        Key::AudioUnavailable => {
            assert(placeholders(zh_text(Key::AudioUnavailable)) == placeholders(en_text(Key::AudioUnavailable))) by {
                reveal_strlit("音频捕获不可用：{}");
                assert(placeholders(zh_text(Key::AudioUnavailable)) == 1) by {
                    let ps = seq![8int];
                    assert(ps[0] == 8);
                    lemma_placeholder_positions(zh_text(Key::AudioUnavailable), ps, 0);
                }
                reveal_strlit("Audio capture unavailable: {}");
                assert(placeholders(en_text(Key::AudioUnavailable)) == 1) by {
                    let ps = seq![27int];
                    assert(ps[0] == 27);
                    lemma_placeholder_positions(en_text(Key::AudioUnavailable), ps, 0);
                }
            }
        },
        Key::VolumeFailed => {
            assert(placeholders(zh_text(Key::VolumeFailed)) == placeholders(en_text(Key::VolumeFailed))) by {
                reveal_strlit("音量操作失败：{}");
                assert(placeholders(zh_text(Key::VolumeFailed)) == 1) by {
                    let ps = seq![7int];
                    assert(ps[0] == 7);
                    lemma_placeholder_positions(zh_text(Key::VolumeFailed), ps, 0);
                }
                reveal_strlit("Volume operation failed: {}");
                assert(placeholders(en_text(Key::VolumeFailed)) == 1) by {
                    let ps = seq![25int];
                    assert(ps[0] == 25);
                    lemma_placeholder_positions(en_text(Key::VolumeFailed), ps, 0);
                }
            }
        },
        Key::MediaControlFailed => {
            assert(placeholders(zh_text(Key::MediaControlFailed)) == placeholders(en_text(Key::MediaControlFailed))) by {
                reveal_strlit("媒体控制失败：{}");
                assert(placeholders(zh_text(Key::MediaControlFailed)) == 1) by {
                    let ps = seq![7int];
                    assert(ps[0] == 7);
                    lemma_placeholder_positions(zh_text(Key::MediaControlFailed), ps, 0);
                }
                reveal_strlit("Media control failed: {}");
                assert(placeholders(en_text(Key::MediaControlFailed)) == 1) by {
                    let ps = seq![22int];
                    assert(ps[0] == 22);
                    lemma_placeholder_positions(en_text(Key::MediaControlFailed), ps, 0);
                }
            }
        },
        Key::InvalidMediaAction => {
            assert(placeholders(zh_text(Key::InvalidMediaAction)) == placeholders(en_text(Key::InvalidMediaAction))) by {
                reveal_strlit("无效的媒体动作 '{}'");
                assert(placeholders(zh_text(Key::InvalidMediaAction)) == 1) by {
                    let ps = seq![9int];
                    assert(ps[0] == 9);
                    lemma_placeholder_positions(zh_text(Key::InvalidMediaAction), ps, 0);
                }
                reveal_strlit("Invalid media action '{}'");
                assert(placeholders(en_text(Key::InvalidMediaAction)) == 1) by {
                    let ps = seq![22int];
                    assert(ps[0] == 22);
                    lemma_placeholder_positions(en_text(Key::InvalidMediaAction), ps, 0);
                }
            }
        },
        Key::ClipboardFailed => {
            assert(placeholders(zh_text(Key::ClipboardFailed)) == placeholders(en_text(Key::ClipboardFailed))) by {
                reveal_strlit("剪贴板操作失败：{}");
                assert(placeholders(zh_text(Key::ClipboardFailed)) == 1) by {
                    let ps = seq![8int];
                    assert(ps[0] == 8);
                    lemma_placeholder_positions(zh_text(Key::ClipboardFailed), ps, 0);
                }
                reveal_strlit("Clipboard operation failed: {}");
                assert(placeholders(en_text(Key::ClipboardFailed)) == 1) by {
                    let ps = seq![28int];
                    assert(ps[0] == 28);
                    lemma_placeholder_positions(en_text(Key::ClipboardFailed), ps, 0);
                }
            }
        },
        Key::InvalidTarget => {
            assert(placeholders(zh_text(Key::InvalidTarget)) == placeholders(en_text(Key::InvalidTarget))) by {
                reveal_strlit("不允许打开的链接或路径：{}");
                assert(placeholders(zh_text(Key::InvalidTarget)) == 1) by {
                    let ps = seq![12int];
                    assert(ps[0] == 12);
                    lemma_placeholder_positions(zh_text(Key::InvalidTarget), ps, 0);
                }
                reveal_strlit("Opening this link or path is not allowed: {}");
                assert(placeholders(en_text(Key::InvalidTarget)) == 1) by {
                    let ps = seq![42int];
                    assert(ps[0] == 42);
                    lemma_placeholder_positions(en_text(Key::InvalidTarget), ps, 0);
                }
            }
        },
        Key::NotificationFailed => {
            assert(placeholders(zh_text(Key::NotificationFailed)) == placeholders(en_text(Key::NotificationFailed))) by {
                reveal_strlit("通知发送失败：{}");
                assert(placeholders(zh_text(Key::NotificationFailed)) == 1) by {
                    let ps = seq![7int];
                    assert(ps[0] == 7);
                    lemma_placeholder_positions(zh_text(Key::NotificationFailed), ps, 0);
                }
                reveal_strlit("Failed to show notification: {}");
                assert(placeholders(en_text(Key::NotificationFailed)) == 1) by {
                    let ps = seq![29int];
                    assert(ps[0] == 29);
                    lemma_placeholder_positions(en_text(Key::NotificationFailed), ps, 0);
                }
            }
        },
        Key::PowerControlFailed => {
            assert(placeholders(zh_text(Key::PowerControlFailed)) == placeholders(en_text(Key::PowerControlFailed))) by {
                reveal_strlit("电源操作失败：{}");
                assert(placeholders(zh_text(Key::PowerControlFailed)) == 1) by {
                    let ps = seq![7int];
                    assert(ps[0] == 7);
                    lemma_placeholder_positions(zh_text(Key::PowerControlFailed), ps, 0);
                }
                reveal_strlit("Power operation failed: {}");
                assert(placeholders(en_text(Key::PowerControlFailed)) == 1) by {
                    let ps = seq![24int];
                    assert(ps[0] == 24);
                    lemma_placeholder_positions(en_text(Key::PowerControlFailed), ps, 0);
                }
            }
        },
        Key::InvalidPowerAction => {
            assert(placeholders(zh_text(Key::InvalidPowerAction)) == placeholders(en_text(Key::InvalidPowerAction))) by {
                reveal_strlit("无效的电源动作 '{}'");
                assert(placeholders(zh_text(Key::InvalidPowerAction)) == 1) by {
                    let ps = seq![9int];
                    assert(ps[0] == 9);
                    lemma_placeholder_positions(zh_text(Key::InvalidPowerAction), ps, 0);
                }
                reveal_strlit("Invalid power action '{}'");
                assert(placeholders(en_text(Key::InvalidPowerAction)) == 1) by {
                    let ps = seq![22int];
                    assert(ps[0] == 22);
                    lemma_placeholder_positions(en_text(Key::InvalidPowerAction), ps, 0);
                }
            }
        },
        Key::RecycleBinFailed => {
            assert(placeholders(zh_text(Key::RecycleBinFailed)) == placeholders(en_text(Key::RecycleBinFailed))) by {
                reveal_strlit("清空回收站失败：{}");
                assert(placeholders(zh_text(Key::RecycleBinFailed)) == 1) by {
                    let ps = seq![8int];
                    assert(ps[0] == 8);
                    lemma_placeholder_positions(zh_text(Key::RecycleBinFailed), ps, 0);
                }
                reveal_strlit("Failed to empty the recycle bin: {}");
                assert(placeholders(en_text(Key::RecycleBinFailed)) == 1) by {
                    let ps = seq![33int];
                    assert(ps[0] == 33);
                    lemma_placeholder_positions(en_text(Key::RecycleBinFailed), ps, 0);
                }
            }
        },
        Key::ElevatedNotice => {
            assert(placeholders(zh_text(Key::ElevatedNotice)) == placeholders(en_text(Key::ElevatedNotice))) by {
                reveal_strlit("检测到 Driftlet 正以管理员权限运行。\n\n影响：声明 shell 权限的皮肤可静默以管理员权限执行命令（不经 UAC 弹窗）；从资源管理器拖 .dskin 到管理器会被系统拦截（可改用双击或文件选择器安装）。\n\n「是」= 继续运行（以后不再提示）；「否」= 退出。");
                lemma_placeholder_positions(zh_text(Key::ElevatedNotice), seq![], 0);
                reveal_strlit("Driftlet is running with administrator rights.\n\nConsequences: skins holding the shell permission can silently run commands with full administrator rights (no UAC prompt); dragging .dskin files from Explorer into the manager will be blocked by the system (use double-click or the file picker instead).\n\nYes = continue (never ask again); No = exit.");
                lemma_placeholder_positions(en_text(Key::ElevatedNotice), seq![], 0);
            }
        },
        Key::WindowsOnly => {
            assert(placeholders(zh_text(Key::WindowsOnly)) == placeholders(en_text(Key::WindowsOnly))) by {
                reveal_strlit("该功能仅支持 Windows");
                lemma_placeholder_positions(zh_text(Key::WindowsOnly), seq![], 0);
                reveal_strlit("This feature is only supported on Windows");
                lemma_placeholder_positions(en_text(Key::WindowsOnly), seq![], 0);
            }
        },
    }
}


/// The supported language that `lang` resolves to: "en" stays "en",
/// anything else is the zh-CN default.
pub open spec fn normalized_lang(lang: Seq<char>) -> Seq<char> {
    if lang == seq!['e', 'n'] {
        seq!['e', 'n']
    } else {
        seq!['z', 'h', '-', 'C', 'N']
    }
}

/// The text of `key` in the language that `lang` resolves to.
pub open spec fn tr_text(lang: Seq<char>, key: Key) -> Seq<char> {
    if lang == seq!['e', 'n'] {
        en_text(key)
    } else {
        zh_text(key)
    }
}

pub open spec fn placeholder() -> Seq<char> {
    seq!['{', '}']
}

/// `template` with its `{}` placeholders replaced by `args` in order: each
/// argument consumes the first placeholder left in the unscanned rest, text
/// already inserted is never scanned again, surplus arguments are ignored
/// and unused placeholders stay as they are.
pub open spec fn fill(template: Seq<char>, args: Seq<Seq<char>>) -> Seq<char>
    decreases args.len(),
{
    if args.len() == 0 {
        template
    } else {
        let p = find(template, placeholder());
        if p < 0 {
            template
        } else {
            template.take(p) + args[0] + fill(template.skip(p + 2), args.drop_first())
        }
    }
}

pub open spec fn arg_views(args: Seq<&str>) -> Seq<Seq<char>> {
    args.map_values(|a: &str| a@)
}

/// Normalize a configured language tag to a supported one.
pub fn normalize(lang: &str) -> (r: &'static str)
    ensures
        r@ == normalized_lang(lang@),
{
    let en_tag = vec!['e', 'n'];
    let l = chars_of(lang);
    if crate::text::chars_eq(&l, &en_tag) {
        let r = "en";
        proof {
            reveal_strlit("en");
        }
        r
    } else {
        let r = "zh-CN";
        proof {
            reveal_strlit("zh-CN");
        }
        r
    }
}

/// Look up `key` in the dictionary for `lang` (unknown languages use zh-CN).
pub fn tr(lang: &str, key: Key) -> (s: &'static str)
    ensures
        s@ == tr_text(lang@, key),
{
    let n = normalize(lang);
    let en_tag = vec!['e', 'n'];
    let nv = chars_of(n);
    if crate::text::chars_eq(&nv, &en_tag) {
        en(key)
    } else {
        zh(key)
    }
}

/// Translate `key` and substitute `{}` placeholders with `args`, in order,
/// scanning the template once.
pub fn trf(lang: &str, key: Key, args: &[&str]) -> (r: String)
    ensures
        r@ == fill(tr_text(lang@, key), arg_views(args@)),
{
    let template = tr(lang, key);
    let pat = vec!['{', '}'];
    let mut rest: Vec<char> = chars_of(template);
    let mut out = String::new();
    let mut i: usize = 0;
    let mut done = false;
    let ghost whole = fill(tr_text(lang@, key), arg_views(args@));
    assert(arg_views(args@).skip(0) =~= arg_views(args@));
    assert(out@ + whole =~= whole);
    while i < args.len() && !done
        invariant
            i <= args.len(),
            pat@ == placeholder(),
            out@ + fill(rest@, arg_views(args@).skip(i as int)) == whole,
            done ==> fill(rest@, arg_views(args@).skip(i as int)) == rest@,
        decreases args.len() - i, if done { 0int } else { 1int },
    {
        let ghost rest_args = arg_views(args@).skip(i as int);
        assert(rest_args.len() > 0);
        assert(rest_args[0] == args@[i as int]@);
        assert(rest_args.drop_first() =~= arg_views(args@).skip(i + 1));
        match find_exec(&rest, &pat) {
            Some(p) => {
                let ghost old_rest = rest@;
                let ghost out0 = out@;
                let mut k: usize = 0;
                while k < p
                    invariant
                        k <= p,
                        p <= rest.len(),
                        out@ == out0 + rest@.take(k as int),
                    decreases p - k,
                {
                    push_char(&mut out, rest[k]);
                    k = k + 1;
                    assert(out@ =~= out0 + rest@.take(k as int));
                }
                let a = chars_of(args[i]);
                crate::text::push_chars(&mut out, &a);
                let mut next: Vec<char> = Vec::new();
                let mut j: usize = p + 2;
                while j < rest.len()
                    invariant
                        p + 2 <= j <= rest.len(),
                        next@ == rest@.subrange(p + 2, j as int),
                    decreases rest.len() - j,
                {
                    next.push(rest[j]);
                    j = j + 1;
                    assert(next@ =~= rest@.subrange(p + 2, j as int));
                }
                assert(next@ =~= old_rest.skip(p + 2));
                rest = next;
                i = i + 1;
                assert(out@ + fill(rest@, arg_views(args@).skip(i as int)) =~= whole);
            },
            None => {
                done = true;
            },
        }
    }
    crate::text::push_chars(&mut out, &rest);
    proof {
        if !done {
            assert(arg_views(args@).skip(i as int).len() == 0);
        }
    }
    out
}

} // verus!
