//! The frame source: opening a camera, listing the devices a user can pick,
//! and the stop/join lifecycle of the capture worker.
use vstd::prelude::*;
use nokhwa::pixel_format::RgbFormat;
use nokhwa::utils::{CameraFormat, CameraIndex, FrameFormat, RequestedFormat, RequestedFormatType};
use nokhwa::{Camera, NokhwaError};

verus! {

#[verifier::external_type_specification]
#[verifier::external_body]
pub struct ExCamera(Camera);

#[verifier::external_type_specification]
#[verifier::external_body]
pub struct ExNokhwaError(NokhwaError);

/// Why a camera could not be made ready.
#[derive(Clone, Copy, Debug, PartialEq, Eq, Structural)]
pub enum CameraError {
    /// The device could not be opened with the requested format.
    DeviceUnavailable,
    /// The device opened but its stream did not start.
    StreamUnavailable,
}

/// Relies on `nokhwa::Camera::new`: opens device `index` asking for exactly
/// `width` x `height` MJPEG frames at `fps`, decoded to RGB. Whether it
/// succeeds depends on the machine, so nothing is promised of the result.
#[verifier::external_body]
fn open_device(index: u32, width: u32, height: u32, fps: u32) -> (r: Result<Camera, NokhwaError>) {
    let format = CameraFormat::new_from(width, height, FrameFormat::MJPEG, fps);
    Camera::new(CameraIndex::Index(index), RequestedFormat::new::<RgbFormat>(RequestedFormatType::Exact(format)))
}

/// Relies on `nokhwa::Camera::open_stream`: starts the device's stream. Whether it
/// succeeds depends on the device, so nothing is promised of the result.
#[verifier::external_body]
fn start_stream(camera: &mut Camera) -> (r: Result<(), NokhwaError>) {
    camera.open_stream()
}

/// Opens camera `index` for `width` x `height` MJPEG capture at `fps` and starts
/// its stream. An open failure is `DeviceUnavailable`; a stream failure after a
/// successful open is `StreamUnavailable`.
pub fn initialize_camera(index: u32, height: u32, width: u32, fps: u32) -> (r: Result<Camera, CameraError>) {
    let mut camera = match open_device(index, width, height, fps) {
        Ok(camera) => camera,
        Err(_) => return Err(CameraError::DeviceUnavailable),
    };
    match start_stream(&mut camera) {
        Ok(()) => Ok(camera),
        Err(_) => Err(CameraError::StreamUnavailable),
    }
}

/// A capture device as enumerated: its display label and, if it could be
/// read, its numeric index.
pub struct DeviceEntry {
    pub label: String,
    pub index: Option<u32>,
}

/// A camera a user can pick, by name, with the index to open it by.
pub struct CameraChoice {
    pub name: String,
    pub index: i32,
}

/// Name of the placeholder choice used when no usable device is listed.
pub open spec fn no_device_name() -> Seq<char> {
    "No Device Found"@
}

/// Index of the placeholder choice.
pub const NO_DEVICE_INDEX: i32 = -1;

pub open spec fn choice_view(c: CameraChoice) -> (Seq<char>, i32) {
    (c.name@, c.index)
}

/// Choices for the devices `devs`, in order, up to the first one whose index
/// could not be read; that one is replaced by the placeholder and ends the list.
pub open spec fn choices_from(devs: Seq<DeviceEntry>) -> Seq<(Seq<char>, i32)>
    decreases devs.len(),
{
    if devs.len() == 0 {
        Seq::empty()
    } else {
        match devs[0].index {
            None => seq![(no_device_name(), NO_DEVICE_INDEX)],
            Some(i) => seq![(devs[0].label@, i as i32)] + choices_from(devs.drop_first()),
        }
    }
}

/// The choices offered for an enumeration: the placeholder alone when nothing
/// was found.
pub open spec fn camera_choices_spec(devs: Seq<DeviceEntry>) -> Seq<(Seq<char>, i32)> {
    if devs.len() == 0 {
        seq![(no_device_name(), NO_DEVICE_INDEX)]
    } else {
        choices_from(devs)
    }
}

fn placeholder() -> (r: CameraChoice)
    ensures
        choice_view(r) == (no_device_name(), NO_DEVICE_INDEX),
{
    let name = "No Device Found";
    CameraChoice { name: name.to_owned(), index: NO_DEVICE_INDEX }
}

/// The cameras offered for the enumerated devices; see `camera_choices_spec`.
pub fn camera_choices(devs: &Vec<DeviceEntry>) -> (r: Vec<CameraChoice>)
    ensures
        r@.map_values(|c: CameraChoice| choice_view(c)) == camera_choices_spec(devs@),
{
    let mut out: Vec<CameraChoice> = Vec::new();
    if devs.len() == 0 {
        out.push(placeholder());
        assert(out@.map_values(|c: CameraChoice| choice_view(c)) =~= camera_choices_spec(devs@));
        return out;
    }
    let mut i: usize = 0;
    assert(devs@.skip(0) =~= devs@);
    assert(out@.map_values(|c: CameraChoice| choice_view(c)) =~= Seq::empty());
    while i < devs.len()
        invariant
            0 < devs@.len(),
            i <= devs@.len(),
            out@.map_values(|c: CameraChoice| choice_view(c)) + choices_from(devs@.skip(i as int))
                == choices_from(devs@),
        decreases devs.len() - i,
    {
        let ghost rest = devs@.skip(i as int);
        assert(rest.drop_first() =~= devs@.skip(i + 1));
        assert(rest[0] == devs@[i as int]);
        let ghost before = out@.map_values(|c: CameraChoice| choice_view(c));
        match devs[i].index {
            None => {
                out.push(placeholder());
                assert(out@.map_values(|c: CameraChoice| choice_view(c)) =~= before + seq![(no_device_name(), NO_DEVICE_INDEX)]);
                assert(out@.map_values(|c: CameraChoice| choice_view(c)) =~= choices_from(devs@));
                return out;
            },
            Some(idx) => {
                let name = devs[i].label.clone();
                out.push(CameraChoice { name, index: idx as i32 });
                assert(out@.map_values(|c: CameraChoice| choice_view(c)) =~= before + seq![(devs@[i as int].label@, idx as i32)]);
                assert(out@.map_values(|c: CameraChoice| choice_view(c)) + choices_from(devs@.skip(i + 1))
                    =~= before + choices_from(rest));
            },
        }
        i = i + 1;
    }
    assert(devs@.skip(devs@.len() as int) =~= Seq::<DeviceEntry>::empty());
    assert(out@.map_values(|c: CameraChoice| choice_view(c)) =~= choices_from(devs@));
    out
}

/// Index used when the selected camera is not among the choices.
pub const DEFAULT_CAMERA_INDEX: i32 = 0;

/// The index of the camera named `selected`: that of the last choice with that
/// name, or `DEFAULT_CAMERA_INDEX` when none has it.
pub open spec fn selected_index_spec(choices: Seq<(Seq<char>, i32)>, selected: Seq<char>) -> i32
    decreases choices.len(),
{
    if choices.len() == 0 {
        DEFAULT_CAMERA_INDEX
    } else if choices.last().0 == selected {
        choices.last().1
    } else {
        selected_index_spec(choices.drop_last(), selected)
    }
}

/// The index to open for the camera the user selected by name.
pub fn selected_camera_index(choices: &Vec<CameraChoice>, selected: &String) -> (r: i32)
    ensures
        r == selected_index_spec(choices@.map_values(|c: CameraChoice| choice_view(c)), selected@),
{
    let ghost views = choices@.map_values(|c: CameraChoice| choice_view(c));
    let mut i: usize = choices.len();
    assert(views.take(views.len() as int) =~= views);
    while i > 0
        invariant
            i <= choices@.len(),
            views == choices@.map_values(|c: CameraChoice| choice_view(c)),
            selected_index_spec(views, selected@) == selected_index_spec(views.take(i as int), selected@),
        decreases i,
    {
        let ghost prefix = views.take(i as int);
        assert(prefix.drop_last() =~= views.take(i - 1));
        assert(prefix.last() == choice_view(choices@[i - 1]));
        if choices[i - 1].name == *selected {
            return choices[i - 1].index;
        }
        i = i - 1;
    }
    DEFAULT_CAMERA_INDEX
}

/// What a shutdown request has to do.
#[derive(Clone, Copy, Debug, PartialEq, Eq, Structural)]
pub enum ShutdownStep {
    /// Wait for the capture worker to finish.
    JoinWorker,
    /// The worker was already stopped and joined: nothing to wait for.
    AlreadyStopped,
}

/// Lifecycle of the capture worker as seen by its owner.
#[derive(Clone, Copy, Debug, PartialEq, Eq, Structural)]
pub struct CaptureLifecycle {
    /// The flag the worker reads before each capture.
    pub keep_running: bool,
    /// Whether a worker is attached and not yet joined.
    pub attached: bool,
}

/// The effect of a shutdown request on lifecycle `s`.
pub open spec fn shutdown_spec(s: CaptureLifecycle) -> (CaptureLifecycle, ShutdownStep) {
    (
        CaptureLifecycle { keep_running: false, attached: false },
        if s.attached { ShutdownStep::JoinWorker } else { ShutdownStep::AlreadyStopped },
    )
}

impl CaptureLifecycle {
    /// A worker that has just been started.
    pub fn started() -> (r: CaptureLifecycle)
        ensures
            r.keep_running,
            r.attached,
    {
        CaptureLifecycle { keep_running: true, attached: true }
    }

    /// Clears the run flag and detaches the worker; says whether there is a worker to join.
    pub fn shutdown(&mut self) -> (r: ShutdownStep)
        ensures
            (*final(self), r) == shutdown_spec(*old(self)),
    {
        self.keep_running = false;
        let step = if self.attached { ShutdownStep::JoinWorker } else { ShutdownStep::AlreadyStopped };
        self.attached = false;
        step
    }
}

/// After a shutdown the worker is stopped and joined, and a second shutdown
/// has nothing to wait for and changes nothing.
pub proof fn lemma_shutdown_twice(s: CaptureLifecycle)
    ensures
        !shutdown_spec(s).0.keep_running,
        !shutdown_spec(s).0.attached,
        shutdown_spec(shutdown_spec(s).0).1 == ShutdownStep::AlreadyStopped,
        shutdown_spec(shutdown_spec(s).0).0 == shutdown_spec(s).0,
{
}

} // verus!
