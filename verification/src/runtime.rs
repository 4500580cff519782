//! The media runtime: program names per platform, hardware accelerators,
//! which program a sidecar stands for, and the steps that install a local
//! FFmpeg.
use vstd::prelude::*;

use crate::error::{AppError, ErrorView};
use crate::models::RuntimeCapabilities;
use crate::text::{chars_eq_str, chars_of, contains, dec, push_dec, push_str, str_contains};

verus! {

// ---------------------------------------------------------------------------
// Program names and sidecars
// ---------------------------------------------------------------------------
/// A program's file name: with `.exe` on Windows.
pub open spec fn command_file_name(name: Seq<char>, windows: bool) -> Seq<char> {
    if windows {
        name + ".exe"@
    } else {
        name
    }
}

/// The file name of a program on Windows (`windows`) or elsewhere.
pub fn command_filename(name: &str, windows: bool) -> (r: String)
    ensures
        r@ == command_file_name(name@, windows),
{
    let mut s = String::new();
    push_str(&mut s, name);
    if windows {
        push_str(&mut s, ".exe");
    }
    s
}

/// The program a sidecar launcher named `binary_name` delegates to.
pub open spec fn program_for_sidecar(binary_name: Seq<char>) -> Seq<char> {
    if contains(binary_name, "ffprobe-sidecar"@) {
        "ffprobe"@
    } else if contains(binary_name, "whisper-cli-sidecar"@) {
        "whisper-cli"@
    } else {
        "ffmpeg"@
    }
}

/// Picks the program a sidecar launcher delegates to, by its own name.
pub fn select_program(binary_name: &str) -> (r: &'static str)
    ensures
        r@ == program_for_sidecar(binary_name@),
{
    if str_contains(binary_name, "ffprobe-sidecar") {
        "ffprobe"
    } else if str_contains(binary_name, "whisper-cli-sidecar") {
        "whisper-cli"
    } else {
        "ffmpeg"
    }
}

/// The environment variable that overrides where a program is found.
pub open spec fn override_key(program: Seq<char>) -> Seq<char> {
    if program == "ffprobe"@ {
        "EASYVIETSUB_FFPROBE_BIN"@
    } else if program == "whisper-cli"@ {
        "EASYVIETSUB_WHISPER_BIN"@
    } else {
        "EASYVIETSUB_FFMPEG_BIN"@
    }
}

/// The environment variable that overrides where `program` is found.
pub fn override_env_key(program: &str) -> (r: &'static str)
    ensures
        r@ == override_key(program@),
{
    let v = chars_of(program);
    if chars_eq_str(&v, "ffprobe") {
        "EASYVIETSUB_FFPROBE_BIN"
    } else if chars_eq_str(&v, "whisper-cli") {
        "EASYVIETSUB_WHISPER_BIN"
    } else {
        "EASYVIETSUB_FFMPEG_BIN"
    }
}

/// Where a media program is taken from.
#[derive(Debug, Clone, Copy, PartialEq, Eq)]
pub enum BinarySource {
    /// The copy installed in the application's tools folder.
    Managed,
    /// The sidecar bundled beside the executable.
    Sidecar,
    /// The program found on the search path.
    SearchPath,
}

/// Which copy of a program to run: the managed one when it exists, else
/// the bundled sidecar when it exists, else the one on the search path.
pub fn binary_source(managed_exists: bool, sidecar_exists: bool) -> (r: BinarySource)
    ensures
        managed_exists ==> r == BinarySource::Managed,
        !managed_exists && sidecar_exists ==> r == BinarySource::Sidecar,
        !managed_exists && !sidecar_exists ==> r == BinarySource::SearchPath,
{
    if managed_exists {
        BinarySource::Managed
    } else if sidecar_exists {
        BinarySource::Sidecar
    } else {
        BinarySource::SearchPath
    }
}

// ---------------------------------------------------------------------------
// Hardware acceleration
// ---------------------------------------------------------------------------
/// The accelerators assumed for an operating system.
pub open spec fn accelerators_for(os: Seq<char>) -> Seq<Seq<char>> {
    if os == "macos"@ {
        seq!["videotoolbox"@, "metal"@]
    } else if os == "windows"@ {
        seq!["d3d12va"@, "dxva2"@]
    } else {
        Seq::empty()
    }
}

/// The accelerators assumed for the operating system `os`.
pub fn guess_accelerators(os: &str) -> (r: Vec<String>)
    ensures
        crate::text::views_of_strings(r@) == accelerators_for(os@),
{
    let v = chars_of(os);
    let mut r: Vec<String> = Vec::new();
    if chars_eq_str(&v, "macos") {
        r.push("videotoolbox".to_owned());
        r.push("metal".to_owned());
    } else if chars_eq_str(&v, "windows") {
        r.push("d3d12va".to_owned());
        r.push("dxva2".to_owned());
    }
    assert(crate::text::views_of_strings(r@) =~= accelerators_for(os@));
    r
}

/// Whether the operating system `os` offers hardware acceleration.
pub fn hardware_acceleration_available(os: &str) -> (r: bool)
    ensures
        r == (accelerators_for(os@).len() > 0),
{
    guess_accelerators(os).len() > 0
}

/// The runtime capabilities reported for `os` and the availability flags.
pub fn runtime_capabilities(
    os: &str,
    ffmpeg_available: bool,
    ffprobe_available: bool,
    local_ffmpeg_installed: bool,
    local_ffprobe_installed: bool,
) -> (r: RuntimeCapabilities)
    ensures
        r.os@ == os@,
        r.ffmpeg_available == ffmpeg_available,
        r.ffprobe_available == ffprobe_available,
        r.local_ffmpeg_installed == local_ffmpeg_installed,
        r.local_ffprobe_installed == local_ffprobe_installed,
        crate::text::views_of_strings(r.detected_accelerators@) == accelerators_for(os@),
        r.hardware_acceleration_available == (accelerators_for(os@).len() > 0),
{
    let accelerators = guess_accelerators(os);
    RuntimeCapabilities {
        os: os.to_owned(),
        ffmpeg_available,
        ffprobe_available,
        local_ffmpeg_installed,
        local_ffprobe_installed,
        hardware_acceleration_available: accelerators.len() > 0,
        detected_accelerators: accelerators,
    }
}

// ---------------------------------------------------------------------------
// Installing a local FFmpeg
// ---------------------------------------------------------------------------
/// The managed program a step writes.
#[derive(Debug, Clone, Copy, PartialEq, Eq)]
pub enum ManagedBinary {
    Ffmpeg,
    Ffprobe,
}

/// One step of installing a local FFmpeg; file names are in the tools
/// folder.
#[derive(Debug, Clone, PartialEq, Eq)]
pub enum InstallStep {
    /// Download `url` to `file`, reporting progress from `start` to `end`
    /// percent under `stage`, with `message`.
    Download { url: String, file: String, stage: String, start: u64, end: u64, message: String },
    /// Extract the first file of the ZIP archive `archive` as `target`.
    ExtractZip { archive: String, target: ManagedBinary },
    /// Extract the file named `member` of the 7z archive `archive` as `target`.
    Extract7z { archive: String, member: String, target: ManagedBinary },
    /// Report progress (with no byte counts).
    Progress { stage: String, progress: u64, message: String },
    /// Remove the downloaded `file`.
    Remove { file: String },
}

pub enum StepView {
    Download {
        url: Seq<char>,
        file: Seq<char>,
        stage: Seq<char>,
        start: u64,
        end: u64,
        message: Seq<char>,
    },
    ExtractZip { archive: Seq<char>, target: ManagedBinary },
    Extract7z { archive: Seq<char>, member: Seq<char>, target: ManagedBinary },
    Progress { stage: Seq<char>, progress: u64, message: Seq<char> },
    Remove { file: Seq<char> },
}

pub open spec fn step_view(s: InstallStep) -> StepView {
    match s {
        InstallStep::Download { url, file, stage, start, end, message } => StepView::Download {
            url: url@,
            file: file@,
            stage: stage@,
            start,
            end,
            message: message@,
        },
        InstallStep::ExtractZip { archive, target } => StepView::ExtractZip {
            archive: archive@,
            target,
        },
        InstallStep::Extract7z { archive, member, target } => StepView::Extract7z {
            archive: archive@,
            member: member@,
            target,
        },
        InstallStep::Progress { stage, progress, message } => StepView::Progress {
            stage: stage@,
            progress,
            message: message@,
        },
        InstallStep::Remove { file } => StepView::Remove { file: file@ },
    }
}

pub open spec fn step_views(v: Seq<InstallStep>) -> Seq<StepView> {
    v.map_values(|s: InstallStep| step_view(s))
}

/// On macOS: FFmpeg and FFprobe as two ZIP downloads.
pub open spec fn macos_install_plan() -> Seq<StepView> {
    seq![
        StepView::Download {
            url: "https://evermeet.cx/ffmpeg/get/zip"@,
            file: "ffmpeg-runtime.zip"@,
            stage: "ffmpeg"@,
            start: 0,
            end: 48,
            message: "Đang tải FFmpeg local"@,
        },
        StepView::ExtractZip { archive: "ffmpeg-runtime.zip"@, target: ManagedBinary::Ffmpeg },
        StepView::Progress {
            stage: "ffmpeg"@,
            progress: 50,
            message: "Đã giải nén FFmpeg local (50%)"@,
        },
        StepView::Download {
            url: "https://evermeet.cx/ffmpeg/get/ffprobe/zip"@,
            file: "ffprobe-runtime.zip"@,
            stage: "ffprobe"@,
            start: 50,
            end: 98,
            message: "Đang tải FFprobe local"@,
        },
        StepView::ExtractZip { archive: "ffprobe-runtime.zip"@, target: ManagedBinary::Ffprobe },
        StepView::Progress {
            stage: "ffprobe"@,
            progress: 100,
            message: "FFmpeg local đã sẵn sàng (100%)"@,
        },
        StepView::Remove { file: "ffmpeg-runtime.zip"@ },
        StepView::Remove { file: "ffprobe-runtime.zip"@ },
    ]
}

/// On Windows: one 7z download holding both programs.
pub open spec fn windows_install_plan() -> Seq<StepView> {
    seq![
        StepView::Download {
            url: "https://www.gyan.dev/ffmpeg/builds/ffmpeg-release-full.7z"@,
            file: "ffmpeg-release-full.7z"@,
            stage: "ffmpeg"@,
            start: 0,
            end: 88,
            message: "Đang tải FFmpeg local"@,
        },
        StepView::Progress {
            stage: "ffmpeg"@,
            progress: 90,
            message: "Đang giải nén FFmpeg (90%)"@,
        },
        StepView::Extract7z {
            archive: "ffmpeg-release-full.7z"@,
            member: "ffmpeg.exe"@,
            target: ManagedBinary::Ffmpeg,
        },
        StepView::Progress {
            stage: "ffmpeg"@,
            progress: 95,
            message: "Đang giải nén FFprobe (95%)"@,
        },
        StepView::Extract7z {
            archive: "ffmpeg-release-full.7z"@,
            member: "ffprobe.exe"@,
            target: ManagedBinary::Ffprobe,
        },
        StepView::Progress {
            stage: "ffmpeg"@,
            progress: 100,
            message: "FFmpeg local đã sẵn sàng (100%)"@,
        },
        StepView::Remove { file: "ffmpeg-release-full.7z"@ },
    ]
}

/// The name of the program a managed binary is.
pub open spec fn program_name(t: ManagedBinary) -> Seq<char> {
    match t {
        ManagedBinary::Ffmpeg => "ffmpeg"@,
        ManagedBinary::Ffprobe => "ffprobe"@,
    }
}

/// The program that step `i` of `plan` unpacks, if it unpacks one.
pub open spec fn unpacked_at(plan: Seq<StepView>, i: int) -> Option<ManagedBinary> {
    match plan[i] {
        StepView::ExtractZip { archive, target } => Some(target),
        StepView::Extract7z { archive, member, target } => Some(target),
        _ => None,
    }
}

/// Each program is unpacked by exactly one step of `plan`.
pub open spec fn unpacks_each_program_once(plan: Seq<StepView>) -> bool {
    &&& exists|i: int| 0 <= i < plan.len() && #[trigger] unpacked_at(plan, i) == Some(ManagedBinary::Ffmpeg)
    &&& exists|i: int| 0 <= i < plan.len() && #[trigger] unpacked_at(plan, i) == Some(ManagedBinary::Ffprobe)
    &&& forall|i: int, j: int|
        0 <= i < plan.len() && 0 <= j < plan.len() && #[trigger] unpacked_at(plan, i)
            == #[trigger] unpacked_at(plan, j) && unpacked_at(plan, i) is Some ==> i == j
}

/// On Windows every program is unpacked from the archive by its own file
/// name (`ffmpeg.exe` for FFmpeg, `ffprobe.exe` for FFprobe), from the
/// archive the first step downloads, and each program is unpacked once.
pub proof fn lemma_windows_plan_unpacks_the_right_members()
    ensures
        unpacks_each_program_once(windows_install_plan()),
        forall|i: int|
            0 <= i < windows_install_plan().len() ==> (#[trigger] windows_install_plan()[i] matches StepView::Extract7z {
                archive,
                member,
                target,
            } ==> member == program_name(target) + ".exe"@ && (windows_install_plan()[0] matches StepView::Download {
                url,
                file,
                stage,
                start,
                end,
                message,
            } && file == archive)),
{
    reveal_strlit("ffmpeg");
    reveal_strlit("ffprobe");
    reveal_strlit(".exe");
    reveal_strlit("ffmpeg.exe");
    reveal_strlit("ffprobe.exe");
    let p = windows_install_plan();
    assert(unpacked_at(p, 2) == Some(ManagedBinary::Ffmpeg));
    assert(unpacked_at(p, 4) == Some(ManagedBinary::Ffprobe));
    assert forall|i: int| 0 <= i < p.len() implies (unpacked_at(p, i) is Some <==> (i == 2 || i == 4)) by {}
    assert("ffmpeg"@ + ".exe"@ =~= "ffmpeg.exe"@);
    assert("ffprobe"@ + ".exe"@ =~= "ffprobe.exe"@);
}

/// On macOS every program is unpacked from the ZIP archive that the step
/// just before downloaded for that program, and each program is unpacked
/// once.
pub proof fn lemma_macos_plan_unpacks_what_it_downloaded()
    ensures
        unpacks_each_program_once(macos_install_plan()),
        forall|i: int|
            0 <= i < macos_install_plan().len() ==> (#[trigger] macos_install_plan()[i] matches StepView::ExtractZip {
                archive,
                target,
            } ==> i >= 1 && (macos_install_plan()[i - 1] matches StepView::Download {
                url,
                file,
                stage,
                start,
                end,
                message,
            } && file == archive && stage == program_name(target))),
{
    reveal_strlit("ffmpeg");
    reveal_strlit("ffprobe");
    let p = macos_install_plan();
    assert(unpacked_at(p, 1) == Some(ManagedBinary::Ffmpeg));
    assert(unpacked_at(p, 4) == Some(ManagedBinary::Ffprobe));
    assert forall|i: int| 0 <= i < p.len() implies (unpacked_at(p, i) is Some <==> (i == 1 || i == 4)) by {}
}

/// The error for an operating system without automatic installation.
pub open spec fn unsupported_os_error(os: Seq<char>) -> ErrorView {
    ErrorView::Configuration {
        message: "Hệ điều hành '"@ + os
            + "' chưa được hỗ trợ tải FFmpeg tự động. Vui lòng cài FFmpeg thủ công."@,
        key: None,
    }
}

fn download(url: &str, file: &str, stage: &str, start: u64, end: u64, message: &str) -> (r:
    InstallStep)
    ensures
        step_view(r) == (StepView::Download {
            url: url@,
            file: file@,
            stage: stage@,
            start,
            end,
            message: message@,
        }),
{
    InstallStep::Download {
        url: url.to_owned(),
        file: file.to_owned(),
        stage: stage.to_owned(),
        start,
        end,
        message: message.to_owned(),
    }
}

fn progress_step(stage: &str, progress: u64, message: &str) -> (r: InstallStep)
    ensures
        step_view(r) == (StepView::Progress { stage: stage@, progress, message: message@ }),
{
    InstallStep::Progress { stage: stage.to_owned(), progress, message: message.to_owned() }
}

/// The steps that install a local FFmpeg on `os`.
pub fn ffmpeg_install_plan(os: &str) -> (r: Result<Vec<InstallStep>, AppError>)
    ensures
        os@ == "macos"@ ==> (r matches Ok(v) && step_views(v@) == macos_install_plan()),
        os@ == "windows"@ ==> (r matches Ok(v) && step_views(v@) == windows_install_plan()),
        os@ != "macos"@ && os@ != "windows"@ ==> (r matches Err(e) && e@ == unsupported_os_error(
            os@,
        )),
{
    proof {
        reveal_strlit("macos");
        reveal_strlit("windows");
    }
    let v = chars_of(os);
    let mut steps: Vec<InstallStep> = Vec::new();
    if chars_eq_str(&v, "macos") {
        steps.push(
            download(
                "https://evermeet.cx/ffmpeg/get/zip",
                "ffmpeg-runtime.zip",
                "ffmpeg",
                0,
                48,
                "Đang tải FFmpeg local",
            ),
        );
        steps.push(
            InstallStep::ExtractZip {
                archive: "ffmpeg-runtime.zip".to_owned(),
                target: ManagedBinary::Ffmpeg,
            },
        );
        steps.push(progress_step("ffmpeg", 50, "Đã giải nén FFmpeg local (50%)"));
        steps.push(
            download(
                "https://evermeet.cx/ffmpeg/get/ffprobe/zip",
                "ffprobe-runtime.zip",
                "ffprobe",
                50,
                98,
                "Đang tải FFprobe local",
            ),
        );
        steps.push(
            InstallStep::ExtractZip {
                archive: "ffprobe-runtime.zip".to_owned(),
                target: ManagedBinary::Ffprobe,
            },
        );
        steps.push(progress_step("ffprobe", 100, "FFmpeg local đã sẵn sàng (100%)"));
        steps.push(InstallStep::Remove { file: "ffmpeg-runtime.zip".to_owned() });
        steps.push(InstallStep::Remove { file: "ffprobe-runtime.zip".to_owned() });
        assert(step_views(steps@) =~= macos_install_plan());
        Ok(steps)
    } else if chars_eq_str(&v, "windows") {
        steps.push(
            download(
                "https://www.gyan.dev/ffmpeg/builds/ffmpeg-release-full.7z",
                "ffmpeg-release-full.7z",
                "ffmpeg",
                0,
                88,
                "Đang tải FFmpeg local",
            ),
        );
        steps.push(progress_step("ffmpeg", 90, "Đang giải nén FFmpeg (90%)"));
        steps.push(
            InstallStep::Extract7z {
                archive: "ffmpeg-release-full.7z".to_owned(),
                member: "ffmpeg.exe".to_owned(),
                target: ManagedBinary::Ffmpeg,
            },
        );
        steps.push(progress_step("ffmpeg", 95, "Đang giải nén FFprobe (95%)"));
        steps.push(
            InstallStep::Extract7z {
                archive: "ffmpeg-release-full.7z".to_owned(),
                member: "ffprobe.exe".to_owned(),
                target: ManagedBinary::Ffprobe,
            },
        );
        steps.push(progress_step("ffmpeg", 100, "FFmpeg local đã sẵn sàng (100%)"));
        steps.push(InstallStep::Remove { file: "ffmpeg-release-full.7z".to_owned() });
        assert(step_views(steps@) =~= windows_install_plan());
        Ok(steps)
    } else {
        let mut message = String::new();
        push_str(&mut message, "Hệ điều hành '");
        push_str(&mut message, os);
        push_str(
            &mut message,
            "' chưa được hỗ trợ tải FFmpeg tự động. Vui lòng cài FFmpeg thủ công.",
        );
        Err(AppError::configuration(message, None))
    }
}

/// The message shown while a download is at `progress` percent.
pub fn download_progress_message(message: &str, progress: u64) -> (r: String)
    ensures
        r@ == message@ + " ("@ + dec(progress as nat) + "%)"@,
{
    let mut s = String::new();
    push_str(&mut s, message);
    push_str(&mut s, " (");
    push_dec(&mut s, progress);
    push_str(&mut s, "%)");
    s
}

/// The index of the first entry of an archive that is a file.
pub fn first_file_entry(is_file: &Vec<bool>) -> (r: Option<usize>)
    ensures
        r matches Some(i) ==> i < is_file.len() && is_file[i as int] && forall|j: int|
            0 <= j < i ==> !is_file[j],
        r is None ==> forall|j: int| 0 <= j < is_file.len() ==> !is_file[j],
{
    let mut i: usize = 0;
    while i < is_file.len()
        invariant
            i <= is_file.len(),
            forall|j: int| 0 <= j < i ==> !is_file[j],
        decreases is_file.len() - i,
    {
        if is_file[i] {
            return Some(i);
        }
        i = i + 1;
    }
    None
}

/// The error for an archive without any file.
pub fn archive_without_binary_error() -> (r: AppError)
    ensures
        r@ == (ErrorView::FileSystem {
            message: "Archive runtime không chứa binary hợp lệ."@,
            path: None,
        }),
{
    AppError::file_system("Archive runtime không chứa binary hợp lệ.".to_owned(), None)
}

/// The error for a 7z archive that could not be unpacked, with the
/// unpacker's own description.
pub fn archive_extract_error(detail: &str) -> (r: AppError)
    ensures
        r@ == (ErrorView::FileSystem {
            message: "Không thể giải nén 7z archive: "@ + detail@,
            path: None,
        }),
{
    let mut message = String::new();
    push_str(&mut message, "Không thể giải nén 7z archive: ");
    push_str(&mut message, detail);
    AppError::file_system(message, None)
}

/// The error for a 7z archive that holds no file named `file_name`.
pub fn archive_member_missing_error(file_name: &str) -> (r: AppError)
    ensures
        r@ == (ErrorView::FileSystem {
            message: "Không tìm thấy file '"@ + file_name@ + "' trong 7z archive."@,
            path: None,
        }),
{
    let mut message = String::new();
    push_str(&mut message, "Không tìm thấy file '");
    push_str(&mut message, file_name);
    push_str(&mut message, "' trong 7z archive.");
    AppError::file_system(message, None)
}

} // verus!
