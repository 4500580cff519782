use easyvietsub::error::AppError;
use easyvietsub::runtime::{
    archive_extract_error, archive_member_missing_error, archive_without_binary_error, binary_source,
    BinarySource,
    command_filename, download_progress_message, ffmpeg_install_plan, first_file_entry,
    guess_accelerators, hardware_acceleration_available, override_env_key, runtime_capabilities,
    select_program, InstallStep, ManagedBinary,
};

#[test]
fn program_file_names_per_platform() {
    assert_eq!(command_filename("ffmpeg", true), "ffmpeg.exe");
    assert_eq!(command_filename("ffmpeg", false), "ffmpeg");
}

#[test]
fn sidecar_picks_its_program_by_name() {
    assert_eq!(select_program("ffprobe-sidecar-x86_64-unknown-linux-gnu"), "ffprobe");
    assert_eq!(select_program("whisper-cli-sidecar.exe"), "whisper-cli");
    assert_eq!(select_program("ffmpeg-sidecar"), "ffmpeg");
    assert_eq!(select_program("sidecar"), "ffmpeg");
}

#[test]
fn override_keys_per_program() {
    assert_eq!(override_env_key("ffprobe"), "EASYVIETSUB_FFPROBE_BIN");
    assert_eq!(override_env_key("whisper-cli"), "EASYVIETSUB_WHISPER_BIN");
    assert_eq!(override_env_key("ffmpeg"), "EASYVIETSUB_FFMPEG_BIN");
    assert_eq!(override_env_key("other"), "EASYVIETSUB_FFMPEG_BIN");
}

#[test]
fn accelerators_per_operating_system() {
    assert_eq!(guess_accelerators("macos"), vec!["videotoolbox".to_string(), "metal".to_string()]);
    assert_eq!(guess_accelerators("windows"), vec!["d3d12va".to_string(), "dxva2".to_string()]);
    assert!(guess_accelerators("linux").is_empty());
    assert!(hardware_acceleration_available("macos"));
    assert!(!hardware_acceleration_available("linux"));
}

#[test]
fn capabilities_report_the_flags() {
    let c = runtime_capabilities("windows", true, false, true, false);
    assert_eq!(c.os, "windows");
    assert!(c.ffmpeg_available);
    assert!(!c.ffprobe_available);
    assert!(c.local_ffmpeg_installed);
    assert!(!c.local_ffprobe_installed);
    assert!(c.hardware_acceleration_available);
    assert_eq!(c.detected_accelerators, vec!["d3d12va".to_string(), "dxva2".to_string()]);
    let c = runtime_capabilities("linux", false, false, false, false);
    assert!(!c.hardware_acceleration_available);
    assert!(c.detected_accelerators.is_empty());
}

#[test]
fn macos_install_downloads_two_archives() {
    let steps = ffmpeg_install_plan("macos").unwrap();
    assert_eq!(steps.len(), 8);
    assert_eq!(
        steps[0],
        InstallStep::Download {
            url: "https://evermeet.cx/ffmpeg/get/zip".to_string(),
            file: "ffmpeg-runtime.zip".to_string(),
            stage: "ffmpeg".to_string(),
            start: 0,
            end: 48,
            message: "Đang tải FFmpeg local".to_string(),
        }
    );
    assert_eq!(
        steps[4],
        InstallStep::ExtractZip { archive: "ffprobe-runtime.zip".to_string(), target: ManagedBinary::Ffprobe }
    );
    assert_eq!(steps[7], InstallStep::Remove { file: "ffprobe-runtime.zip".to_string() });
}

#[test]
fn windows_install_unpacks_one_7z() {
    let steps = ffmpeg_install_plan("windows").unwrap();
    assert_eq!(steps.len(), 7);
    assert_eq!(
        steps[2],
        InstallStep::Extract7z {
            archive: "ffmpeg-release-full.7z".to_string(),
            member: "ffmpeg.exe".to_string(),
            target: ManagedBinary::Ffmpeg,
        }
    );
    assert_eq!(
        steps[5],
        InstallStep::Progress {
            stage: "ffmpeg".to_string(),
            progress: 100,
            message: "FFmpeg local đã sẵn sàng (100%)".to_string(),
        }
    );
}

#[test]
fn other_systems_cannot_install() {
    assert_eq!(
        ffmpeg_install_plan("linux").unwrap_err(),
        AppError::Configuration {
            message: "Hệ điều hành 'linux' chưa được hỗ trợ tải FFmpeg tự động. Vui lòng cài FFmpeg thủ công.".to_string(),
            key: None
        }
    );
}

#[test]
fn progress_message_shows_percent() {
    assert_eq!(download_progress_message("Đang tải FFmpeg local", 42), "Đang tải FFmpeg local (42%)");
}

#[test]
fn first_file_of_an_archive() {
    assert_eq!(first_file_entry(&vec![false, true, true]), Some(1));
    assert_eq!(first_file_entry(&vec![false, false]), None);
    assert_eq!(first_file_entry(&Vec::new()), None);
}

#[test]
fn archive_errors() {
    assert_eq!(
        archive_without_binary_error(),
        AppError::FileSystem { message: "Archive runtime không chứa binary hợp lệ.".to_string(), path: None }
    );
    assert_eq!(
        archive_extract_error("bad header"),
        AppError::FileSystem { message: "Không thể giải nén 7z archive: bad header".to_string(), path: None }
    );
    assert_eq!(
        archive_member_missing_error("ffprobe.exe"),
        AppError::FileSystem {
            message: "Không tìm thấy file 'ffprobe.exe' trong 7z archive.".to_string(),
            path: None
        }
    );
}

#[test]
fn managed_copy_wins_then_sidecar_then_search_path() {
    assert_eq!(binary_source(true, true), BinarySource::Managed);
    assert_eq!(binary_source(true, false), BinarySource::Managed);
    assert_eq!(binary_source(false, true), BinarySource::Sidecar);
    assert_eq!(binary_source(false, false), BinarySource::SearchPath);
}
