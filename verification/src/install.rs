//! Where the history database, the staged recorder and its user units live.
//!
//! Paths follow the XDG base directory conventions: an explicit
//! `XDG_*_HOME` wins, and the home directory's conventional location is the
//! fallback. Environment variables are read, and files written, by the
//! application; this module decides every path and what is written there.

use vstd::prelude::*;
use crate::text::chars_of;
use crate::text::push_char;
use crate::text::push_text;
use crate::text::owned_text;
use crate::scheduler::RECORDER_SERVICE_UNIT;
use crate::scheduler::RECORDER_TIMER_UNIT;
use crate::scheduler::RECORDER_TIMER_TEMPLATE;
use crate::scheduler::TemplateError;
use crate::scheduler::is_safe_path;
use crate::scheduler::rendered_service;
use crate::scheduler::render_recorder_service;

verus! {

/// Directory below the data and config homes that belongs to the application.
pub const APPLICATION_DIRECTORY: &'static str = "battery-dashboard";

/// File name of the local history database.
pub const DATABASE_FILE: &'static str = "battery.sqlite3";

/// File name of the staged recorder executable.
pub const RECORDER_FILE_NAME: &'static str = "battery-dashboard-recorder";

/// `base` with the relative path `rel` appended (`Path::join`): a separator
/// is inserted unless `base` is empty or already ends with one.
pub open spec fn joined_path(base: Seq<char>, rel: Seq<char>) -> Seq<char> {
    if base.len() == 0 {
        rel
    } else if base.last() == '/' {
        base + rel
    } else {
        base + seq!['/'] + rel
    }
}

/// Appends the relative path `rel` to `base`.
pub fn join_path(base: &str, rel: &str) -> (r: String)
    ensures
        r@ == joined_path(base@, rel@),
{
    let cs = chars_of(base);
    let mut out = String::new();
    assert(out@ =~= Seq::<char>::empty());
    push_text(&mut out, base);
    if cs.len() > 0 && cs[cs.len() - 1] != '/' {
        push_char(&mut out, '/');
    }
    push_text(&mut out, rel);
    proof {
        if base@.len() > 0 && base@.last() != '/' {
            assert(out@ =~= base@ + seq!['/'] + rel@);
        } else {
            assert(out@ =~= joined_path(base@, rel@));
        }
    }
    out
}

/// A directory named by an environment variable, which counts only when
/// it is set to a non-empty value; else `rel` below a non-empty home.
pub open spec fn xdg_home(
    explicit: Option<Seq<char>>,
    home: Option<Seq<char>>,
    rel: Seq<char>,
) -> Option<Seq<char>> {
    match explicit {
        Some(dir) if dir.len() > 0 => Some(dir),
        _ => match home {
            Some(h) if h.len() > 0 => Some(joined_path(h, rel)),
            _ => None,
        },
    }
}

/// The view of an optional string slice.
pub open spec fn opt_str(value: Option<&str>) -> Option<Seq<char>> {
    match value {
        Some(s) => Some(s@),
        None => None,
    }
}

fn resolve_home(explicit: Option<&str>, home: Option<&str>, rel: &str) -> (r: Option<String>)
    ensures
        crate::commands::opt_string(r) == xdg_home(opt_str(explicit), opt_str(home), rel@),
{
    if let Some(dir) = explicit {
        if chars_of(dir).len() > 0 {
            return Some(owned_text(dir));
        }
    }
    match home {
        Some(h) => if chars_of(h).len() > 0 {
            Some(join_path(h, rel))
        } else {
            None
        },
        None => None,
    }
}

/// The user's data home, from `XDG_DATA_HOME` and `HOME`.
pub open spec fn data_home_of(xdg_data_home: Option<Seq<char>>, home: Option<Seq<char>>) -> Option<
    Seq<char>,
> {
    xdg_home(xdg_data_home, home, ".local/share"@)
}

/// The user's config home, from `XDG_CONFIG_HOME` and `HOME`.
pub open spec fn config_home_of(
    xdg_config_home: Option<Seq<char>>,
    home: Option<Seq<char>>,
) -> Option<Seq<char>> {
    xdg_home(xdg_config_home, home, ".config"@)
}

/// The user's data home: `XDG_DATA_HOME` when set, else `~/.local/share`.
pub fn data_home(xdg_data_home: Option<&str>, home: Option<&str>) -> (r: Option<String>)
    ensures
        crate::commands::opt_string(r) == data_home_of(opt_str(xdg_data_home), opt_str(home)),
{
    resolve_home(xdg_data_home, home, ".local/share")
}

/// The user's config home: `XDG_CONFIG_HOME` when set, else `~/.config`.
pub fn config_home(xdg_config_home: Option<&str>, home: Option<&str>) -> (r: Option<String>)
    ensures
        crate::commands::opt_string(r) == config_home_of(opt_str(xdg_config_home), opt_str(home)),
{
    resolve_home(xdg_config_home, home, ".config")
}

/// The history database below a data home.
pub open spec fn database_path_of(data_home: Seq<char>) -> Seq<char> {
    joined_path(joined_path(data_home, APPLICATION_DIRECTORY@), DATABASE_FILE@)
}

/// The history database below `data_home`.
pub fn database_path_from_data_home(data_home: &str) -> (r: String)
    ensures
        r@ == database_path_of(data_home@),
{
    let dir = join_path(data_home, APPLICATION_DIRECTORY);
    join_path(dir.as_str(), DATABASE_FILE)
}

/// The history database of the current user, or `None` when neither
/// `XDG_DATA_HOME` nor `HOME` names a directory.
pub fn default_database_path(xdg_data_home: Option<&str>, home: Option<&str>) -> (r: Option<String>)
    ensures
        crate::commands::opt_string(r) == match data_home_of(opt_str(xdg_data_home), opt_str(home)) {
            Some(d) => Some(database_path_of(d)),
            None => None,
        },
{
    match data_home(xdg_data_home, home) {
        Some(d) => Some(database_path_from_data_home(d.as_str())),
        None => None,
    }
}

/// Paths staged when a user explicitly enables background recording.
#[derive(Clone, Debug)]
pub struct RecorderInstallation {
    /// Stable executable path referenced by the rendered systemd service.
    pub recorder_path: String,
    /// Per-user one-shot service unit path.
    pub service_path: String,
    /// Per-user 60-second timer unit path.
    pub timer_path: String,
}

/// Everything one staging writes: three files and their contents, except
/// the recorder's bytes, which are copied from its source.
#[derive(Clone, Debug)]
pub struct StagingPlan {
    /// Where each file goes.
    pub installation: RecorderInstallation,
    /// The rendered service unit.
    pub service_unit: String,
    /// The timer unit.
    pub timer_unit: String,
}

/// An error while locating or explicitly staging recorder support files.
#[derive(Clone, Debug)]
pub enum RecorderInstallError {
    /// Neither XDG nor home-directory variables identified a user config home.
    ConfigDirectoryUnavailable,
    /// Neither XDG nor home-directory variables identified a user data home.
    DataDirectoryUnavailable,
    /// The built recorder executable is absent at the given path.
    RecorderBinaryUnavailable(String),
    /// The service template rejected a destination path.
    Template(TemplateError),
}

/// The content of a [`RecorderInstallError`].
pub enum InstallErrorModel {
    ConfigDirectoryUnavailable,
    DataDirectoryUnavailable,
    RecorderBinaryUnavailable(Seq<char>),
    Template(TemplateError),
}

impl View for RecorderInstallError {
    type V = InstallErrorModel;

    open spec fn view(&self) -> InstallErrorModel {
        match self {
            RecorderInstallError::ConfigDirectoryUnavailable => InstallErrorModel::ConfigDirectoryUnavailable,
            RecorderInstallError::DataDirectoryUnavailable => InstallErrorModel::DataDirectoryUnavailable,
            RecorderInstallError::RecorderBinaryUnavailable(path) => InstallErrorModel::RecorderBinaryUnavailable(path@),
            RecorderInstallError::Template(e) => InstallErrorModel::Template(*e),
        }
    }
}

/// Where the recorder and its units are staged.
pub open spec fn recorder_path_of(data_home: Seq<char>) -> Seq<char> {
    joined_path(
        joined_path(joined_path(data_home, APPLICATION_DIRECTORY@), "libexec"@),
        RECORDER_FILE_NAME@,
    )
}

/// The user unit directory below a config home.
pub open spec fn unit_directory_of(config_home: Seq<char>) -> Seq<char> {
    joined_path(config_home, "systemd/user"@)
}

/// The outcome of planning a staging, as values.
pub enum StagingModel {
    Planned {
        recorder_path: Seq<char>,
        service_path: Seq<char>,
        timer_path: Seq<char>,
        service_unit: Seq<char>,
        timer_unit: Seq<char>,
    },
    Refused(InstallErrorModel),
}

/// The content of a staging plan's outcome.
pub open spec fn staging_result(r: Result<StagingPlan, RecorderInstallError>) -> StagingModel {
    match r {
        Ok(plan) => StagingModel::Planned {
            recorder_path: plan.installation.recorder_path@,
            service_path: plan.installation.service_path@,
            timer_path: plan.installation.timer_path@,
            service_unit: plan.service_unit@,
            timer_unit: plan.timer_unit@,
        },
        Err(e) => StagingModel::Refused(e@),
    }
}

/// The staging of a recorder at `source`: the checks in order are a data
/// home, a config home, an existing source file and a path that the service
/// template accepts.
pub open spec fn staging_of(
    source: Seq<char>,
    source_is_file: bool,
    data_home: Option<Seq<char>>,
    config_home: Option<Seq<char>>,
) -> StagingModel {
    match (data_home, config_home) {
        (None, _) => StagingModel::Refused(InstallErrorModel::DataDirectoryUnavailable),
        (Some(_), None) => StagingModel::Refused(InstallErrorModel::ConfigDirectoryUnavailable),
        (Some(data), Some(config)) => if !source_is_file {
            StagingModel::Refused(InstallErrorModel::RecorderBinaryUnavailable(source))
        } else if !is_safe_path(recorder_path_of(data)) {
            StagingModel::Refused(InstallErrorModel::Template(TemplateError::InvalidRecorderPath))
        } else {
            StagingModel::Planned {
                recorder_path: recorder_path_of(data),
                service_path: joined_path(unit_directory_of(config), RECORDER_SERVICE_UNIT@),
                timer_path: joined_path(unit_directory_of(config), RECORDER_TIMER_UNIT@),
                service_unit: rendered_service(recorder_path_of(data)),
                timer_unit: RECORDER_TIMER_TEMPLATE@,
            }
        },
    }
}

/// Decides what staging the recorder at `recorder_source` writes, given the
/// resolved homes and whether the source is a file.
pub fn plan_staging(
    recorder_source: &str,
    source_is_file: bool,
    data_home: Option<&str>,
    config_home: Option<&str>,
) -> (r: Result<StagingPlan, RecorderInstallError>)
    ensures
        staging_result(r) == staging_of(
            recorder_source@,
            source_is_file,
            opt_str(data_home),
            opt_str(config_home),
        ),
{
    let data = match data_home {
        Some(d) => d,
        None => return Err(RecorderInstallError::DataDirectoryUnavailable),
    };
    let config = match config_home {
        Some(c) => c,
        None => return Err(RecorderInstallError::ConfigDirectoryUnavailable),
    };
    if !source_is_file {
        return Err(RecorderInstallError::RecorderBinaryUnavailable(owned_text(recorder_source)));
    }
    let app = join_path(data, APPLICATION_DIRECTORY);
    let libexec = join_path(app.as_str(), "libexec");
    let recorder_path = join_path(libexec.as_str(), RECORDER_FILE_NAME);
    let unit_directory = join_path(config, "systemd/user");
    let service_path = join_path(unit_directory.as_str(), RECORDER_SERVICE_UNIT);
    let timer_path = join_path(unit_directory.as_str(), RECORDER_TIMER_UNIT);
    let service_unit = match render_recorder_service(recorder_path.as_str()) {
        Ok(text) => text,
        Err(e) => return Err(RecorderInstallError::Template(e)),
    };
    let timer_unit = owned_text(RECORDER_TIMER_TEMPLATE);
    Ok(
        StagingPlan {
            installation: RecorderInstallation { recorder_path, service_path, timer_path },
            service_unit,
            timer_unit,
        },
    )
}

} // verus!
