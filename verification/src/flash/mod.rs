//! Flash programming: an external tool (OpenOCD, probe-rs, …) is run with
//! `{image}` in its configured argv replaced by the firmware path. This module
//! decides the argv; the application resolves the path and runs the tool.
use vstd::prelude::*;
use crate::backends::native::{mentions, substitute};
use crate::config::{texts, FlashConfig};
use crate::text::{any_contains, append_to, owned, replace_each};

verus! {

/// The firmware image as found on disk.
#[derive(Debug, Clone)]
pub enum ImagePath {
    /// The path does not exist; the path as given.
    Missing(String),
    /// The path exists but could not be made absolute; the path and the reason.
    Unresolvable { path: String, reason: String },
    /// The absolute path of the image.
    Resolved(String),
}

/// Why flashing could not start or did not succeed.
#[derive(Debug, Clone)]
pub enum FlashError {
    /// `[flash].program` is empty.
    EmptyProgram,
    /// The firmware image does not exist.
    ImageNotFound(String),
    /// The image path could not be resolved.
    ImageUnresolvable { path: String, reason: String },
    /// No argv element holds `{image}`.
    MissingImagePlaceholder,
    /// The tool could not be started.
    SpawnFailed { program: String, reason: String },
    /// The tool exited unsuccessfully, with this status.
    ToolFailed(String),
}

/// The human-readable message of a flash error (the underlying cause of an
/// unresolvable path or a failed spawn is kept in `reason`, not in the message).
pub open spec fn flash_error_text(e: FlashError) -> Seq<char> {
    match e {
        FlashError::EmptyProgram => "[flash].program is empty; set an argv list in config, e.g. [\"openocd\", \"-f\", \"board.cfg\", \"-c\", \"program {image} verify reset exit\"]"@,
        FlashError::ImageNotFound(p) => "firmware image not found: "@ + p@,
        FlashError::ImageUnresolvable { path, reason } => "resolving image path "@ + path@,
        FlashError::MissingImagePlaceholder => "[flash].program must include {image} somewhere so the firmware path is passed to your tool"@,
        FlashError::SpawnFailed { program, reason } => "failed to spawn "@ + program@,
        FlashError::ToolFailed(status) => "flash program exited with "@ + status@,
    }
}

impl FlashError {
    /// The human-readable message of the error.
    pub fn message(&self) -> (r: String)
        ensures
            r@ == flash_error_text(*self),
    {
        match self {
            FlashError::EmptyProgram => owned(
                "[flash].program is empty; set an argv list in config, e.g. [\"openocd\", \"-f\", \"board.cfg\", \"-c\", \"program {image} verify reset exit\"]",
            ),
            FlashError::ImageNotFound(p) => append_to(owned("firmware image not found: "), p.as_str()),
            FlashError::ImageUnresolvable { path, reason } => append_to(owned("resolving image path "), path.as_str()),
            FlashError::MissingImagePlaceholder => owned(
                "[flash].program must include {image} somewhere so the firmware path is passed to your tool",
            ),
            FlashError::SpawnFailed { program, reason } => append_to(owned("failed to spawn "), program.as_str()),
            FlashError::ToolFailed(status) => append_to(owned("flash program exited with "), status.as_str()),
        }
    }
}

/// The message followed by the underlying cause, where there is one.
pub open spec fn flash_report_text(e: FlashError) -> Seq<char> {
    match e {
        FlashError::ImageUnresolvable { path, reason } => flash_error_text(e) + ": "@ + reason@,
        FlashError::SpawnFailed { program, reason } => flash_error_text(e) + ": "@ + reason@,
        _ => flash_error_text(e),
    }
}

impl FlashError {
    /// The message with its underlying cause, as reported to the user.
    pub fn report(&self) -> (r: String)
        ensures
            r@ == flash_report_text(*self),
    {
        let m = self.message();
        match self {
            FlashError::ImageUnresolvable { path, reason } => append_to(append_to(m, ": "), reason.as_str()),
            FlashError::SpawnFailed { program, reason } => append_to(append_to(m, ": "), reason.as_str()),
            _ => m,
        }
    }
}

/// What expanding the template for an image yields: the image must exist
/// and resolve, and some element must hold `{image}`, which is then replaced
/// everywhere by the absolute path.
pub open spec fn spec_build_argv(template: Seq<String>, image: ImagePath) -> Result<Seq<Seq<char>>, FlashError> {
    match image {
        ImagePath::Missing(p) => Err(FlashError::ImageNotFound(p)),
        ImagePath::Unresolvable { path, reason } => Err(FlashError::ImageUnresolvable { path, reason }),
        ImagePath::Resolved(abs) => if !mentions(template, "{image}"@) {
            Err(FlashError::MissingImagePlaceholder)
        } else {
            Ok(substitute(template, "{image}"@, abs@))
        },
    }
}

/// `r` is the argv, or the error, that `s` describes.
pub open spec fn argv_result_is(r: Result<Vec<String>, FlashError>, s: Result<Seq<Seq<char>>, FlashError>) -> bool {
    match r {
        Ok(v) => s == Ok::<Seq<Seq<char>>, FlashError>(texts(v@)),
        Err(e) => s == Err::<Seq<Seq<char>>, FlashError>(e),
    }
}

/// Expand `{image}` in each configured argv element using the absolute firmware path.
pub fn build_argv(template: &[String], image: &ImagePath) -> (r: Result<Vec<String>, FlashError>)
    ensures
        argv_result_is(r, spec_build_argv(template@, *image)),
{
    let image_str = match image {
        ImagePath::Missing(p) => return Err(FlashError::ImageNotFound(p.clone())),
        ImagePath::Unresolvable { path, reason } => return Err(
            FlashError::ImageUnresolvable { path: path.clone(), reason: reason.clone() },
        ),
        ImagePath::Resolved(abs) => abs,
    };
    if !any_contains(template, "{image}") {
        return Err(FlashError::MissingImagePlaceholder);
    }
    proof {
        reveal_strlit("{image}");
    }
    let v = replace_each(template, "{image}", image_str.as_str());
    assert(texts(v@) =~= substitute(template@, "{image}"@, image_str@));
    Ok(v)
}

/// The argv of a flash run: the program must not be empty, then the template
/// is expanded for the image.
pub fn flash_argv(config: &FlashConfig, image: &ImagePath) -> (r: Result<Vec<String>, FlashError>)
    ensures
        config.program@.len() == 0 ==> r matches Err(FlashError::EmptyProgram),
        config.program@.len() > 0 ==> argv_result_is(r, spec_build_argv(config.program@, *image)),
{
    if config.program.len() == 0 {
        return Err(FlashError::EmptyProgram);
    }
    build_argv(config.program.as_slice(), image)
}

} // verus!
