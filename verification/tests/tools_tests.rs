use std::io::Write;

use daedalus::archive::{
    archive_error_message, deno_archive_file, ffmpeg_archive_files, open_archive, ArchiveError,
    ArchiveKind,
};
use daedalus::candidates::{common_windows_tool_search, obelisk_candidates};
use daedalus::launch::{
    app_dir_is, guard_obelisk_candidates, launch_allowed, launched_from_obelisk,
    license_check_outcome, license_error_console, license_error_dialog, tasklist_filter,
    tasklist_lists, LaunchAction, LaunchEvent,
};
use daedalus::locations::{
    app_data_dir, archive_dir, archive_file_in, default_output_dir, install_root_for,
    is_managed_tool_path, is_temporary_download, legacy_managed_tool_path, managed_tool_bin_dirs,
    managed_tool_candidates, temp_download_dir, tools_bin_dir, user_reliquary_root,
};
use daedalus::paths::{ffmpeg_location, home_dir, normalize_output_dir, EnvVars};
use daedalus::tools::{
    ensure_windows_install_supported, executable_name, ffmpeg_missing_message, inspect_found,
    inspect_missing, install_steps, system_status, yt_dlp_download_url, InstallToolRequest,
    ToolInstall,
};

fn env() -> EnvVars {
    EnvVars {
        user_profile: None,
        home: Some("/home/u".to_string()),
        local_app_data: None,
        xdg_data_home: None,
        program_files: None,
        program_files_x86: None,
        toolchain_dir: None,
    }
}

fn zip_bytes(entries: &[(&str, &[u8])]) -> Vec<u8> {
    let mut writer = zip::ZipWriter::new(std::io::Cursor::new(Vec::new()));
    for (name, data) in entries {
        writer
            .start_file(*name, zip::write::SimpleFileOptions::default())
            .unwrap();
        writer.write_all(data).unwrap();
    }
    writer.finish().unwrap().into_inner()
}

#[test]
fn yt_dlp_channels() {
    assert_eq!(
        yt_dlp_download_url(" Stable "),
        Ok("https://github.com/yt-dlp/yt-dlp/releases/latest/download/yt-dlp.exe")
    );
    assert_eq!(
        yt_dlp_download_url(""),
        Ok("https://github.com/yt-dlp/yt-dlp/releases/latest/download/yt-dlp.exe")
    );
    assert_eq!(
        yt_dlp_download_url("RELEASE"),
        Ok("https://github.com/yt-dlp/yt-dlp/releases/latest/download/yt-dlp.exe")
    );
    assert_eq!(
        yt_dlp_download_url("nightly"),
        Ok("https://github.com/yt-dlp/yt-dlp-nightly-builds/releases/latest/download/yt-dlp.exe")
    );
    assert_eq!(
        yt_dlp_download_url("Master"),
        Ok("https://github.com/yt-dlp/yt-dlp-master-builds/releases/latest/download/yt-dlp.exe")
    );
    assert_eq!(
        yt_dlp_download_url(" Beta "),
        Err("Unsupported yt-dlp update channel: beta".to_string())
    );
}

#[test]
fn install_steps_dispatch() {
    let all = install_steps(&InstallToolRequest { tool: "all".to_string(), channel: None }).unwrap();
    assert_eq!(all.len(), 3);
    assert!(matches!(&all[0], ToolInstall::YtDlp { channel } if channel == "stable"));
    assert!(matches!(all[1], ToolInstall::Ffmpeg));
    assert!(matches!(all[2], ToolInstall::Deno));
    let one = install_steps(&InstallToolRequest {
        tool: "yt-dlp".to_string(),
        channel: Some("nightly".to_string()),
    })
    .unwrap();
    assert!(matches!(&one[0], ToolInstall::YtDlp { channel } if channel == "nightly"));
    assert!(matches!(
        install_steps(&InstallToolRequest { tool: "ffmpeg".to_string(), channel: None }).unwrap()[..],
        [ToolInstall::Ffmpeg]
    ));
    assert!(matches!(
        install_steps(&InstallToolRequest { tool: "deno".to_string(), channel: None }).unwrap()[..],
        [ToolInstall::Deno]
    ));
    assert_eq!(
        install_steps(&InstallToolRequest { tool: "Deno".to_string(), channel: None }).err(),
        Some("Unsupported tool: Deno".to_string())
    );
}

#[test]
fn windows_only_install_and_exe_names() {
    assert_eq!(ensure_windows_install_supported(true), Ok(()));
    assert_eq!(
        ensure_windows_install_supported(false),
        Err("Managed tool installation is currently available on Windows only.".to_string())
    );
    assert_eq!(executable_name("ffmpeg", true), "ffmpeg.exe");
    assert_eq!(executable_name("ffmpeg", false), "ffmpeg");
    assert_eq!(ffmpeg_missing_message("ffmpeg was not found"), "ffmpeg was not found. Install ffmpeg from Settings.");
}

#[test]
fn tool_status_building() {
    let found = inspect_found("yt-dlp", "/bin/yt-dlp".to_string(), true, Some(b"2024.01.01\nx"));
    assert_eq!(found.name, "yt-dlp");
    assert!(found.installed && found.managed);
    assert_eq!(found.version, Some("2024.01.01".to_string()));
    let unknown = inspect_found("deno", "/bin/deno".to_string(), false, None);
    assert_eq!(unknown.version, None);
    let missing = inspect_missing("ffmpeg", "ffmpeg was not found".to_string());
    assert!(!missing.installed);
    assert_eq!(missing.error, Some("ffmpeg was not found".to_string()));
    let status = system_status(found, unknown, missing, "/d".to_string(), Err("no dir".to_string()));
    assert_eq!(status.err(), Some("no dir".to_string()));
}

#[test]
fn data_directories_follow_environment() {
    let mut e = env();
    assert_eq!(user_reliquary_root(&e), Ok("/home/u/.local/share/RELIQUARY".to_string()));
    e.xdg_data_home = Some("/xdg".to_string());
    assert_eq!(user_reliquary_root(&e), Ok("/xdg/RELIQUARY".to_string()));
    e.local_app_data = Some("/lad".to_string());
    assert_eq!(app_data_dir(&e), Ok("/lad/RELIQUARY/Daedalus".to_string()));
    assert_eq!(temp_download_dir(&e), Ok("/lad/RELIQUARY/Daedalus/temp".to_string()));
    assert_eq!(archive_dir(&e), Ok("/lad/RELIQUARY/Daedalus/archives".to_string()));
    assert_eq!(archive_file_in("/a"), "/a/downloads.txt");
    assert_eq!(
        legacy_managed_tool_path(&e, "deno", true),
        Ok("/lad/RELIQUARY/Daedalus/tools/bin/deno.exe".to_string())
    );
    let none = EnvVars { home: None, ..env() };
    assert_eq!(
        user_reliquary_root(&none),
        Err("Unable to find a user data directory for Daedalus tools".to_string())
    );
    assert_eq!(home_dir(&none), ".");
}

#[test]
fn tools_dir_precedence() {
    let mut e = env();
    assert_eq!(tools_bin_dir(&e, None, None), Ok("/home/u/.local/share/RELIQUARY/toolchain/bin".to_string()));
    assert_eq!(tools_bin_dir(&e, None, Some("/inst")), Ok("/inst/toolchain/bin".to_string()));
    assert_eq!(tools_bin_dir(&e, Some("/ws"), Some("/inst")), Ok("/ws/toolchain/bin".to_string()));
    e.toolchain_dir = Some("   ".to_string());
    assert_eq!(tools_bin_dir(&e, Some("/ws"), None), Ok("/ws/toolchain/bin".to_string()));
    e.toolchain_dir = Some(" /tc ".to_string());
    assert_eq!(tools_bin_dir(&e, Some("/ws"), None), Ok("/tc/bin".to_string()));
}

#[test]
fn managed_directories_and_candidates() {
    let mut e = env();
    e.program_files = Some("/pf".to_string());
    let dirs = managed_tool_bin_dirs(&e, Some("/ws"), None, false);
    assert_eq!(
        dirs,
        vec![
            "/ws/toolchain/bin".to_string(),
            "/ws/toolchain/bin".to_string(),
            "/home/u/.local/share/RELIQUARY/toolchain/bin".to_string(),
            "/pf/Reliquary/toolchain/bin".to_string(),
            "/home/u/.local/share/RELIQUARY/Daedalus/tools/bin".to_string(),
        ]
    );
    let candidates = managed_tool_candidates("yt-dlp", &dirs, true);
    assert_eq!(candidates[0], "/ws/toolchain/bin/yt-dlp.exe");
    assert!(is_managed_tool_path("/pf/Reliquary/toolchain/bin/ffmpeg", &dirs));
    assert!(!is_managed_tool_path("/usr/bin/ffmpeg", &dirs));
    assert!(!is_managed_tool_path("/pf/Reliquary/toolchain/binary", &dirs));
}

#[test]
fn output_directories() {
    let mut e = env();
    e.user_profile = Some("/profile".to_string());
    assert_eq!(default_output_dir(&e), "/profile/Downloads/Daedalus");
    assert_eq!(normalize_output_dir(" Videos ", "/home/u"), Ok("/home/u/Videos".to_string()));
    assert_eq!(normalize_output_dir("/abs/dir", "/home/u"), Ok("/abs/dir".to_string()));
    assert_eq!(
        normalize_output_dir(" \t", "/home/u"),
        Err("An output directory is required".to_string())
    );
}

#[test]
fn ffmpeg_location_uses_directory() {
    assert_eq!(ffmpeg_location("/opt/bin/FFmpeg.EXE"), "/opt/bin");
    assert_eq!(ffmpeg_location("/opt/bin/ffmpeg"), "/opt/bin");
    assert_eq!(ffmpeg_location("/opt/bin/ffprobe"), "/opt/bin/ffprobe");
}

#[test]
fn install_roots_and_temporary_files() {
    assert_eq!(install_root_for("Daedalus", "/apps".to_string()), Some("/apps".to_string()));
    assert_eq!(install_root_for("OBELISK", "/apps".to_string()), Some("/apps".to_string()));
    assert_eq!(install_root_for("other", "/apps".to_string()), None);
    assert!(is_temporary_download("video.mp4.part"));
    assert!(is_temporary_download("x.ytdl"));
    assert!(is_temporary_download("y.temp"));
    assert!(!is_temporary_download("y.mp4"));
}

#[test]
fn obelisk_search_lists() {
    let mut e = env();
    e.local_app_data = Some("/lad".to_string());
    let downloader = obelisk_candidates(&e, Some("/ws"), Some("/inst"));
    assert_eq!(downloader.len(), 10);
    assert_eq!(downloader[0], "/ws/obelisk/src-tauri/target/release/obelisk.exe");
    assert_eq!(downloader[1], "/ws/obelisk/src-tauri/target/debug/obelisk.exe");
    assert_eq!(downloader[2], "/inst/obelisk/obelisk.exe");
    assert_eq!(downloader[3], "/inst/Obelisk/obelisk.exe");
    assert_eq!(downloader[4], "/lad/Obelisk/obelisk.exe");
    assert_eq!(downloader[9], "/lad/Programs/RELIQUARY/Obelisk/obelisk.exe");
    let guard = guard_obelisk_candidates(&e, None, Some("/inst"));
    assert_eq!(guard.len(), 8);
    assert_eq!(guard[0], "/inst/Obelisk/obelisk.exe");
    assert_eq!(guard[2], "/lad/Reliquary/Obelisk/obelisk.exe");
    assert_eq!(guard[6], "/lad/Programs/Reliquary/Obelisk/obelisk.exe");
}

#[test]
fn common_tool_search() {
    let off = common_windows_tool_search("ffmpeg", &env(), false);
    assert!(off.candidates.is_empty() && off.search_root.is_none());
    let ff = common_windows_tool_search("ffmpeg", &env(), true);
    assert_eq!(ff.search_root, Some("C:\\ffmpeg".to_string()));
    assert_eq!(ff.candidates.len(), 3);
    let mut e = env();
    e.user_profile = Some("/p".to_string());
    let deno = common_windows_tool_search("deno", &e, true);
    assert_eq!(deno.search_root, None);
    assert_eq!(deno.candidates[0], "/p/.deno/bin/deno.exe");
    assert_eq!(deno.candidates.len(), 3);
    assert!(common_windows_tool_search("yt-dlp", &e, true).candidates.is_empty());
}

#[test]
fn launch_decisions() {
    assert!(matches!(
        launch_allowed(LaunchEvent::Started { debug_build: true, launched_with_license_file: false }),
        LaunchAction::Allow
    ));
    assert!(matches!(
        launch_allowed(LaunchEvent::Started { debug_build: false, launched_with_license_file: true }),
        LaunchAction::Allow
    ));
    assert!(matches!(
        launch_allowed(LaunchEvent::Started { debug_build: false, launched_with_license_file: false }),
        LaunchAction::ValidateLicense
    ));
    assert!(matches!(
        launch_allowed(LaunchEvent::Validated { outcome: Ok(()) }),
        LaunchAction::AllowAndEnsureObelisk
    ));
    assert!(matches!(
        launch_allowed(LaunchEvent::Validated { outcome: Err("expired".to_string()) }),
        LaunchAction::Deny { detail } if detail == "expired"
    ));
}

#[test]
fn license_helpers() {
    assert!(launched_from_obelisk(Some("1"), true));
    assert!(!launched_from_obelisk(Some("1"), false));
    assert!(!launched_from_obelisk(Some("true"), true));
    assert!(!launched_from_obelisk(None, true));
    assert_eq!(license_check_outcome(true, b"noise", b""), Ok(()));
    assert_eq!(license_check_outcome(false, b" expired \n", b"x"), Err("expired".to_string()));
    assert_eq!(license_check_outcome(false, b"", b" out "), Err("out".to_string()));
    assert_eq!(
        license_check_outcome(false, b"", b""),
        Err("No valid RELIQUARY license is activated for this app.".to_string())
    );
    assert_eq!(
        license_error_console("Daedalus", "d"),
        "No valid RELIQUARY license is activated for Daedalus. Open Obelisk and activate or refresh a Suite license. Details: d"
    );
    let (text, caption) = license_error_dialog("Daedalus", "d");
    assert_eq!(
        text,
        "No valid RELIQUARY license is activated for Daedalus.\n\nOpen Obelisk and activate or refresh a Suite license.\n\nDetails: d"
    );
    assert_eq!(caption, "Daedalus - RELIQUARY license required");
    assert_eq!(tasklist_filter("obelisk.exe"), "IMAGENAME eq obelisk.exe");
    assert!(tasklist_lists(b"\"obelisk.exe\",\"1234\"", "obelisk.exe"));
    assert!(!tasklist_lists(b"INFO: No tasks are running", "obelisk.exe"));
    assert!(app_dir_is("DAEDALUS", "daedalus"));
    assert!(!app_dir_is("daedalus2", "daedalus"));
}

#[test]
fn ffmpeg_archive_picks_executables() {
    let bytes = zip_bytes(&[
        ("ffmpeg-7.0/README.txt", b"readme"),
        ("ffmpeg-7.0\\BIN\\FFPROBE.EXE", b"probe"),
        ("ffmpeg-7.0/bin/ffmpeg.exe", b"mpeg"),
        ("ffmpeg-7.0/bin/ffplay.exe", b"play"),
    ]);
    let mut archive = open_archive(bytes).ok().unwrap();
    let result = ffmpeg_archive_files(&mut archive);
    assert!(result.outcome.is_ok());
    let names: Vec<&str> = result.files.iter().map(|f| f.file_name.as_str()).collect();
    assert_eq!(names, vec!["ffprobe.exe", "ffmpeg.exe"]);
    assert_eq!(result.files[0].data, b"probe".to_vec());
    assert_eq!(result.files[1].data, b"mpeg".to_vec());
}

#[test]
fn ffmpeg_archive_without_ffmpeg() {
    let bytes = zip_bytes(&[("x/bin/ffprobe.exe", b"probe")]);
    let mut archive = open_archive(bytes).ok().unwrap();
    let result = ffmpeg_archive_files(&mut archive);
    assert_eq!(result.files.len(), 1);
    let error = result.outcome.err().unwrap();
    assert!(matches!(error, ArchiveError::Missing));
    assert_eq!(
        archive_error_message(&ArchiveKind::Ffmpeg, &error),
        "The downloaded ffmpeg archive did not contain ffmpeg.exe"
    );
}

#[test]
fn deno_archive_first_match() {
    let bytes = zip_bytes(&[("LICENSE", b"l"), ("deno.exe", b"d1"), ("other/deno.exe", b"d2")]);
    let mut archive = open_archive(bytes).ok().unwrap();
    let result = deno_archive_file(&mut archive);
    assert!(result.outcome.is_ok());
    assert_eq!(result.files.len(), 1);
    assert_eq!(result.files[0].file_name, "deno.exe");
    assert_eq!(result.files[0].data, b"d1".to_vec());
    let bytes = zip_bytes(&[("LICENSE", b"l")]);
    let mut archive = open_archive(bytes).ok().unwrap();
    let error = deno_archive_file(&mut archive).outcome.err().unwrap();
    assert_eq!(
        archive_error_message(&ArchiveKind::Deno, &error),
        "The downloaded Deno archive did not contain deno.exe"
    );
}

#[test]
fn archive_open_failure_message() {
    let error = open_archive(b"not a zip".to_vec()).err().unwrap();
    let message = archive_error_message(&ArchiveKind::Ffmpeg, &error);
    assert!(message.starts_with("Unable to read ffmpeg archive: "));
    let extract = ArchiveError::ExtractFailed {
        index: 2,
        file_name: "ffmpeg.exe".to_string(),
        detail: "boom".to_string(),
    };
    assert_eq!(archive_error_message(&ArchiveKind::Ffmpeg, &extract), "Unable to extract ffmpeg.exe: boom");
    let entry = ArchiveError::EntryUnreadable { index: 0, detail: "bad".to_string() };
    assert_eq!(archive_error_message(&ArchiveKind::Deno, &entry), "Unable to read Deno archive entry: bad");
}
