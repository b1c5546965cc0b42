//! Desktop Duplication: what to do with the system's answers.
//!
//! An acquired image is always given back before the next acquisition: the driver
//! allows one image in flight, and keeping it would block everything after.

use crate::capture::{CaptureError, CaptureErrorModel, DesktopInfo, FrameStatus};
use crate::text;
use vstd::prelude::*;

verus! {

/// Access was denied.
pub const E_ACCESSDENIED: u32 = 0x8007_0005;

/// The duplication was taken away.
pub const DXGI_ERROR_ACCESS_LOST: u32 = 0x887A_0026;

/// The device was removed.
pub const DXGI_ERROR_DEVICE_REMOVED: u32 = 0x887A_0005;

/// There is no such item to enumerate.
pub const DXGI_ERROR_NOT_FOUND: u32 = 0x887A_0002;

/// The time went by without a new image.
pub const DXGI_ERROR_WAIT_TIMEOUT: u32 = 0x887A_0027;

/// Eight bits each of blue, green, red and alpha.
pub const FORMAT_B8G8R8A8_UNORM: u32 = 87;

/// The texture can be read by a shader.
pub const BIND_SHADER_RESOURCE: u32 = 0x8;

/// The texture can be drawn to.
pub const BIND_RENDER_TARGET: u32 = 0x20;

/// An error of the system's interface.
#[derive(Debug, Clone, PartialEq, Eq)]
pub struct SystemFailure {
    /// Its code.
    pub code: u32,
    /// Its message.
    pub message: String,
}

/// Position of the pointer, as the compositor reports it. The pointer is never
/// drawn in the image: it is sent apart and drawn by the client.
#[derive(Debug, Clone, Copy, PartialEq, Eq, Structural)]
pub struct PointerState {
    /// Abscissa on the captured desktop.
    pub x: i32,
    /// Ordinate on the captured desktop.
    pub y: i32,
    /// Whether the pointer is visible.
    pub visible: bool,
}

impl Default for PointerState {
    fn default() -> (p: PointerState)
        ensures
            p == (PointerState { x: 0, y: 0, visible: false }),
    {
        PointerState { x: 0, y: 0, visible: false }
    }
}

/// What the system says of an acquired image.
#[derive(Debug, Clone, Copy, PartialEq, Eq, Structural)]
pub struct FrameInfo {
    /// When the pixels last changed; zero if they did not.
    pub last_present_time: i64,
    /// When the pointer last changed; zero if it did not.
    pub last_mouse_update_time: i64,
    /// Images presented since the last acquisition.
    pub accumulated_frames: u32,
    /// The pointer.
    pub pointer: PointerState,
    /// Whether an image came along.
    pub has_resource: bool,
}

/// What to do after an attempt to acquire.
#[derive(Debug, PartialEq, Eq)]
pub enum AcquireStep {
    /// No image is held: the acquisition is over.
    Done(Result<FrameStatus, CaptureError>),
    /// An image is held and there is nothing to copy: give it back.
    Release,
    /// An image is held: copy it, then give it back.
    Copy {
        /// Images presented since the last acquisition.
        accumulated: u32,
    },
}

/// Whether a code says that the duplication has to be made anew.
pub open spec fn lost_code(code: u32) -> bool {
    code == DXGI_ERROR_ACCESS_LOST || code == DXGI_ERROR_DEVICE_REMOVED
}

/// A failure that calls for nothing in particular.
pub open spec fn system_error(f: SystemFailure) -> CaptureErrorModel {
    CaptureErrorModel::System(text::system_text(f.message@, f.code))
}

/// What a failure to acquire an image comes to. In mid-session the secure desktop
/// shows as a denied access, and is one more reason to start over.
pub open spec fn acquire_failure(f: SystemFailure) -> Result<FrameStatus, CaptureErrorModel> {
    if f.code == DXGI_ERROR_WAIT_TIMEOUT {
        Ok(FrameStatus::Idle)
    } else if lost_code(f.code) || f.code == E_ACCESSDENIED {
        Err(CaptureErrorModel::Lost)
    } else {
        Err(system_error(f))
    }
}

/// What a failure to give an image back comes to.
pub open spec fn release_failure(f: SystemFailure) -> CaptureErrorModel {
    if lost_code(f.code) {
        CaptureErrorModel::Lost
    } else {
        system_error(f)
    }
}

/// What a failure to open the duplication comes to.
pub open spec fn open_failure(f: SystemFailure) -> CaptureErrorModel {
    if f.code == E_ACCESSDENIED {
        CaptureErrorModel::DesktopUnavailable
    } else {
        system_error(f)
    }
}

/// Whether a status is the expected one.
pub open spec fn status_is(
    r: Result<FrameStatus, CaptureError>,
    m: Result<FrameStatus, CaptureErrorModel>,
) -> bool {
    match (r, m) {
        (Ok(a), Ok(b)) => a == b,
        (Err(a), Err(b)) => a@ == b,
        _ => false,
    }
}

/// Whether a code says that the duplication has to be made anew.
pub fn is_lost(code: u32) -> (b: bool)
    ensures
        b == lost_code(code),
{
    code == DXGI_ERROR_ACCESS_LOST || code == DXGI_ERROR_DEVICE_REMOVED
}

/// Words a failure of the system's interface.
pub fn map_hresult(f: &SystemFailure) -> (e: CaptureError)
    ensures
        e@ == system_error(*f),
{
    CaptureError::System(text::system_message(f.message.as_str(), f.code))
}

/// The error to hand out when the duplication cannot be opened.
pub fn open_error(f: &SystemFailure) -> (e: CaptureError)
    ensures
        e@ == open_failure(*f),
{
    if f.code == E_ACCESSDENIED {
        CaptureError::DesktopUnavailable
    } else {
        map_hresult(f)
    }
}

/// A waiting time, as the system takes it.
pub open spec fn longest_wait(millis: u128) -> u32 {
    if millis <= u32::MAX {
        millis as u32
    } else {
        u32::MAX
    }
}

/// A waiting time in milliseconds, as the system takes it: what does not fit stands
/// for the longest.
pub fn timeout_ms(millis: u128) -> (ms: u32)
    ensures
        ms == longest_wait(millis),
{
    if millis <= u32::MAX as u128 {
        millis as u32
    } else {
        u32::MAX
    }
}

/// The texture that the capturer owns and fills again at each image.
#[derive(Debug, Clone, Copy, PartialEq, Eq, Structural)]
pub struct TextureDesc {
    /// Width in pixels.
    pub width: u32,
    /// Height in pixels.
    pub height: u32,
    /// Number of mip levels.
    pub mip_levels: u32,
    /// Number of textures.
    pub array_size: u32,
    /// Samples per pixel.
    pub sample_count: u32,
    /// Format of the pixels.
    pub format: u32,
    /// What the texture can be bound to.
    pub bind_flags: u32,
    /// What the processor can do with it.
    pub cpu_access_flags: u32,
}

/// The target of the copies.
pub open spec fn copy_target(width: u32, height: u32) -> TextureDesc {
    TextureDesc {
        width,
        height,
        mip_levels: 1,
        array_size: 1,
        sample_count: 1,
        format: FORMAT_B8G8R8A8_UNORM,
        bind_flags: 0x28,
        cpu_access_flags: 0,
    }
}

/// The pointer after an answer of the system.
pub open spec fn pointer_after(
    before: PointerState,
    answer: Result<FrameInfo, SystemFailure>,
) -> PointerState {
    match answer {
        Ok(info) if info.last_mouse_update_time != 0 => info.pointer,
        _ => before,
    }
}

/// Whether a step is what an answer of the system calls for.
pub open spec fn acquires(answer: Result<FrameInfo, SystemFailure>, step: AcquireStep) -> bool {
    match answer {
        Err(f) => step matches AcquireStep::Done(r) && status_is(r, acquire_failure(f)),
        Ok(info) => if info.last_present_time != 0 && info.has_resource {
            step matches AcquireStep::Copy { accumulated } && accumulated
                == info.accumulated_frames
        } else {
            step is Release
        },
    }
}

/// What an acquisition comes to, once the image was given back.
pub open spec fn release_outcome(
    copied: Result<Option<u32>, SystemFailure>,
    release: Result<(), SystemFailure>,
) -> Result<FrameStatus, CaptureErrorModel> {
    match release {
        Err(f) => Err(release_failure(f)),
        Ok(_) => match copied {
            Err(f) => Err(system_error(f)),
            Ok(None) => Ok(FrameStatus::Idle),
            Ok(Some(accumulated)) => Ok(FrameStatus::Ready { accumulated }),
        },
    }
}

/// The target of the copies: same size as the desktop, readable by shaders, and
/// drawable, which the conversion before encoding asks for.
pub fn target_texture(width: u32, height: u32) -> (d: TextureDesc)
    ensures
        d == copy_target(width, height),
{
    assert(0x8u32 | 0x20 == 0x28) by (bit_vector);
    TextureDesc {
        width,
        height,
        mip_levels: 1,
        array_size: 1,
        sample_count: 1,
        format: FORMAT_B8G8R8A8_UNORM,
        bind_flags: BIND_SHADER_RESOURCE | BIND_RENDER_TARGET,
        cpu_access_flags: 0,
    }
}

/// Capturer of a video output: its geometry and its pointer.
#[derive(Debug)]
pub struct DxgiCapturer {
    info: DesktopInfo,
    pointer: PointerState,
}

impl DxgiCapturer {
    /// The geometry of the output.
    pub closed spec fn geometry(&self) -> DesktopInfo {
        self.info
    }

    /// The pointer as last reported.
    pub closed spec fn last_pointer(&self) -> PointerState {
        self.pointer
    }

    /// A capturer for an output that was just duplicated.
    pub fn new(width: u32, height: u32, output_index: u32) -> (c: DxgiCapturer)
        ensures
            c.geometry() == (DesktopInfo { width, height, output_index }),
            c.last_pointer() == (PointerState { x: 0, y: 0, visible: false }),
    {
        DxgiCapturer {
            info: DesktopInfo { width, height, output_index },
            pointer: PointerState::default(),
        }
    }

    /// Current geometry of the source.
    pub fn desktop(&self) -> (d: DesktopInfo)
        ensures
            d == self.geometry(),
    {
        self.info
    }

    /// Last known position of the pointer.
    pub fn pointer(&self) -> (p: PointerState)
        ensures
            p == self.last_pointer(),
    {
        self.pointer
    }

    /// What to do once the system has answered a request for an image. The pointer
    /// is taken from the answer where it changed. Where only the pointer changed
    /// there is nothing to encode.
    ///
    /// Nothing is held after a failure, and something is held after a success.
    pub fn acquired(&mut self, answer: Result<FrameInfo, SystemFailure>) -> (step: AcquireStep)
        ensures
            final(self).geometry() == old(self).geometry(),
            final(self).last_pointer() == pointer_after(old(self).last_pointer(), answer),
            acquires(answer, step),
    {
        match answer {
            Err(f) => {
                if f.code == DXGI_ERROR_WAIT_TIMEOUT {
                    AcquireStep::Done(Ok(FrameStatus::Idle))
                } else if is_lost(f.code) {
                    AcquireStep::Done(Err(CaptureError::Lost))
                } else if f.code == E_ACCESSDENIED {
                    AcquireStep::Done(Err(CaptureError::Lost))
                } else {
                    AcquireStep::Done(Err(map_hresult(&f)))
                }
            },
            Ok(info) => {
                if info.last_mouse_update_time != 0 {
                    self.pointer = info.pointer;
                }
                if info.last_present_time == 0 {
                    return AcquireStep::Release;
                }
                if !info.has_resource {
                    return AcquireStep::Release;
                }
                AcquireStep::Copy { accumulated: info.accumulated_frames }
            },
        }
    }
}

/// What an acquisition that got hold of an image comes to, once the image was given
/// back: `copied` is the number of images it stands for, if it was copied, or what
/// went wrong with the copy. A failure to give it back counts for more.
pub fn released(
    copied: Result<Option<u32>, SystemFailure>,
    release: Result<(), SystemFailure>,
) -> (r: Result<FrameStatus, CaptureError>)
    ensures
        status_is(r, release_outcome(copied, release)),
{
    match release {
        Err(f) => {
            if is_lost(f.code) {
                return Err(CaptureError::Lost);
            }
            Err(map_hresult(&f))
        },
        Ok(()) => match copied {
            Err(f) => Err(map_hresult(&f)),
            Ok(None) => Ok(FrameStatus::Idle),
            Ok(Some(accumulated)) => Ok(FrameStatus::Ready { accumulated }),
        },
    }
}

/// What to ask the system next, in the search for a video output.
#[derive(Debug, PartialEq, Eq)]
pub enum SearchStep {
    /// Enumerate the adapter at this index.
    Adapter(u32),
    /// Enumerate the output at this index of the current adapter.
    Output(u32),
    /// The last output enumerated is the one.
    Found,
    /// The search failed.
    Failed(CaptureError),
}

/// Search for the output with a global index: the outputs of all the adapters are
/// numbered one after the other, in the system's order.
#[derive(Debug)]
pub struct OutputSearch {
    wanted: u32,
    seen: u32,
    adapter: u32,
    local: u32,
    in_adapter: bool,
}

/// A search as a mathematical value.
pub struct SearchModel {
    /// Global index searched for.
    pub wanted: u32,
    /// Outputs seen so far.
    pub seen: u32,
    /// Adapter asked for, or whose outputs are enumerated.
    pub adapter: u32,
    /// Output asked for on that adapter.
    pub local: u32,
    /// Whether outputs are being enumerated.
    pub in_adapter: bool,
}

impl View for OutputSearch {
    type V = SearchModel;

    closed spec fn view(&self) -> SearchModel {
        SearchModel {
            wanted: self.wanted,
            seen: self.seen,
            adapter: self.adapter,
            local: self.local,
            in_adapter: self.in_adapter,
        }
    }
}

/// A search once the system has handed over what was asked for (`there`), or has said
/// that there is no such item. Running out of outputs leads to the next adapter. At the
/// output wanted, and past the last adapter, the search stands still.
pub open spec fn search_next(s: SearchModel, there: bool) -> SearchModel {
    if there && !s.in_adapter {
        SearchModel { local: 0, in_adapter: true, ..s }
    } else if there && s.seen != s.wanted {
        SearchModel { seen: (s.seen + 1) as u32, local: (s.local + 1) as u32, ..s }
    } else if !there && s.in_adapter {
        SearchModel { adapter: (s.adapter + 1) as u32, local: 0, in_adapter: false, ..s }
    } else {
        s
    }
}

/// Whether a search goes from one state to another, with this step, on an answer of the
/// system.
pub open spec fn searches(
    before: SearchModel,
    failure: Option<SystemFailure>,
    after: SearchModel,
    step: SearchStep,
) -> bool {
    match failure {
        None => after == search_next(before, true) && if before.in_adapter && before.seen
            == before.wanted {
            step is Found
        } else {
            step == SearchStep::Output(after.local)
        },
        Some(f) => if f.code != DXGI_ERROR_NOT_FOUND {
            after == before && (step matches SearchStep::Failed(e) && e@ == system_error(f))
        } else if before.in_adapter {
            after == search_next(before, false) && step == SearchStep::Adapter(after.adapter)
        } else {
            after == search_next(before, false) && (step matches SearchStep::Failed(e) && e@
                == CaptureErrorModel::OutputNotFound(before.wanted))
        },
    }
}

impl OutputSearch {
    /// Whether the search is still short of the output wanted.
    pub open spec fn wf(&self) -> bool {
        self@.seen <= self@.wanted && self@.local <= self@.seen
    }

    /// A search, which starts with the first adapter.
    pub fn new(wanted: u32) -> (s: OutputSearch)
        ensures
            s.wf(),
            s@ == (SearchModel { wanted, seen: 0, adapter: 0, local: 0, in_adapter: false }),
    {
        OutputSearch { wanted, seen: 0, adapter: 0, local: 0, in_adapter: false }
    }

    /// What to ask first.
    pub fn first(&self) -> (step: SearchStep)
        requires
            !self@.in_adapter,
        ensures
            step == SearchStep::Adapter(self@.adapter),
    {
        SearchStep::Adapter(self.adapter)
    }

    /// Whether the adapters can still be numbered.
    pub fn can_go_on(&self) -> (b: bool)
        ensures
            b == (self@.adapter < u32::MAX),
    {
        self.adapter < u32::MAX
    }

    /// The system has answered the last request: with what was asked for, or with
    /// a failure. Running out of outputs leads to the next adapter, and running out
    /// of adapters ends the search.
    pub fn answered(&mut self, failure: Option<&SystemFailure>) -> (step: SearchStep)
        requires
            old(self).wf(),
            old(self)@.adapter < u32::MAX,
        ensures
            final(self).wf(),
            searches(
                old(self)@,
                match failure {
                    Some(f) => Some(*f),
                    None => None,
                },
                final(self)@,
                step,
            ),
    {
        match failure {
            None => {
                if !self.in_adapter {
                    self.in_adapter = true;
                    self.local = 0;
                    return SearchStep::Output(0);
                }
                if self.seen == self.wanted {
                    return SearchStep::Found;
                }
                self.seen = self.seen + 1;
                self.local = self.local + 1;
                SearchStep::Output(self.local)
            },
            Some(f) => {
                if f.code != DXGI_ERROR_NOT_FOUND {
                    return SearchStep::Failed(map_hresult(f));
                }
                if self.in_adapter {
                    self.in_adapter = false;
                    self.adapter = self.adapter + 1;
                    self.local = 0;
                    return SearchStep::Adapter(self.adapter);
                }
                SearchStep::Failed(CaptureError::OutputNotFound(self.wanted))
            },
        }
    }
}

/// The number of outputs of the first `n` adapters.
pub open spec fn outputs_before(counts: Seq<nat>, n: int) -> nat
    decreases n,
{
    if n <= 0 {
        0
    } else {
        outputs_before(counts, n - 1) + counts[n - 1]
    }
}

/// Whether a search on adapters with `counts` outputs each is where it should be:
/// it has seen the outputs of the adapters before, and those of the current one
/// before the one it asks for, and has not passed the one it wants.
pub open spec fn search_on_track(s: SearchModel, counts: Seq<nat>) -> bool {
    &&& s.seen <= s.wanted
    &&& s.adapter <= counts.len() < u32::MAX
    &&& s.seen == outputs_before(counts, s.adapter as int) + (if s.in_adapter {
        s.local as int
    } else {
        0
    })
    &&& s.in_adapter ==> s.adapter < counts.len() && s.local <= counts[s.adapter as int]
}

/// Whether what a search asks for is there, on adapters with `counts` outputs each.
pub open spec fn there_is(s: SearchModel, counts: Seq<nat>) -> bool {
    if s.in_adapter {
        s.local < counts[s.adapter as int]
    } else {
        s.adapter < counts.len()
    }
}

/// From its start on, and as long as the system answers truly, a search is where it
/// should be.
pub proof fn law_search_stays_on_track(s: SearchModel, counts: Seq<nat>, wanted: u32)
    requires
        counts.len() < u32::MAX,
    ensures
        search_on_track(
            SearchModel { wanted, seen: 0, adapter: 0, local: 0, in_adapter: false },
            counts,
        ),
        search_on_track(s, counts) ==> search_on_track(
            search_next(s, there_is(s, counts)),
            counts,
        ),
{
    if search_on_track(s, counts) && s.in_adapter {
        assert(outputs_before(counts, s.adapter + 1) == outputs_before(counts, s.adapter as int)
            + counts[s.adapter as int]);
    }
}

/// A search that ends with an output has found the one with the global index wanted:
/// the outputs of all the adapters before come first, then those of its own adapter.
pub proof fn law_search_finds_the_global_index(s: SearchModel, counts: Seq<nat>)
    requires
        search_on_track(s, counts),
        s.in_adapter,
        there_is(s, counts),
        s.seen == s.wanted,
    ensures
        s.wanted == outputs_before(counts, s.adapter as int) + s.local,
        s.local < counts[s.adapter as int],
{
}

/// A search fails for want of an output only where there are no more outputs than the
/// index wanted.
pub proof fn law_search_fails_only_past_the_end(s: SearchModel, counts: Seq<nat>)
    requires
        search_on_track(s, counts),
        !s.in_adapter,
        !there_is(s, counts),
    ensures
        s.wanted >= outputs_before(counts, counts.len() as int),
{
}

/// What a failure to acquire means. That no image came in time is no failure: the desktop is
/// still. A duplication that was taken away, a device that was removed and a denied access
/// are the loss of the capture. Anything else is a failure of the system, in its words.
pub proof fn law_a_failed_acquisition_is_judged_by_its_code(f: SystemFailure)
    ensures
        acquire_failure(f) == Ok::<FrameStatus, CaptureErrorModel>(FrameStatus::Idle) <==> f.code
            == 0x887A_0027,
        acquire_failure(f) == Err::<FrameStatus, CaptureErrorModel>(CaptureErrorModel::Lost)
            <==> f.code == 0x887A_0026 || f.code == 0x887A_0005 || f.code == 0x8007_0005,
        acquire_failure(f) matches Err(CaptureErrorModel::System(t)) ==> t == text::system_text(
            f.message@,
            f.code,
        ),
        acquire_failure(f) is Ok || acquire_failure(f) == Err::<FrameStatus, CaptureErrorModel>(
            CaptureErrorModel::Lost,
        ) || acquire_failure(f)->Err_0 is System,
{
}

/// What other failures mean. Giving an image back fails with the loss of the capture for the
/// two codes of a lost duplication only; opening fails with a desktop out of reach for a
/// denied access only. Everything else is a failure of the system, in its words.
pub proof fn law_other_failures_are_judged_by_their_code(f: SystemFailure)
    ensures
        release_failure(f) is Lost <==> f.code == 0x887A_0026 || f.code == 0x887A_0005,
        open_failure(f) is DesktopUnavailable <==> f.code == 0x8007_0005,
        !(release_failure(f) is Lost) ==> release_failure(f) == CaptureErrorModel::System(
            text::system_text(f.message@, f.code),
        ),
        !(open_failure(f) is DesktopUnavailable) ==> open_failure(f) == CaptureErrorModel::System(
            text::system_text(f.message@, f.code),
        ),
{
}

/// What is done with an answer. An image is copied exactly when its pixels changed and it is
/// there, and stands for as many images as the system counts; an image with nothing to copy is
/// given back; where there is no image, the acquisition is over. The pointer follows the answer
/// exactly where the system says that it changed.
pub proof fn law_an_image_is_copied_if_it_changed(
    before: PointerState,
    answer: Result<FrameInfo, SystemFailure>,
    step: AcquireStep,
)
    requires
        acquires(answer, step),
    ensures
        step is Copy <==> (answer matches Ok(i) && i.last_present_time != 0 && i.has_resource),
        step matches AcquireStep::Copy { accumulated } ==> accumulated
            == answer->Ok_0.accumulated_frames,
        step is Release <==> (answer matches Ok(i) && !(i.last_present_time != 0
            && i.has_resource)),
        step is Done <==> answer is Err,
        step matches AcquireStep::Done(r) ==> match acquire_failure(answer->Err_0) {
            Ok(status) => r == Ok::<FrameStatus, CaptureError>(status),
            Err(error) => r matches Err(e) && e@ == error,
        },
        pointer_after(before, answer) == (if answer is Ok && answer->Ok_0.last_mouse_update_time
            != 0 {
            answer->Ok_0.pointer
        } else {
            before
        }),
{
}

/// What an acquisition comes to. An image is ready only if it was copied and given back; with
/// nothing copied the desktop is still. A failure to give it back counts for more than a
/// failed copy.
pub proof fn law_an_image_is_ready_once_given_back(
    copied: Result<Option<u32>, SystemFailure>,
    release: Result<(), SystemFailure>,
)
    ensures
        release_outcome(copied, release) matches Ok(FrameStatus::Ready { accumulated })
            ==> release is Ok && copied == Ok::<Option<u32>, SystemFailure>(Some(accumulated)),
        release is Ok && copied is Ok && copied->Ok_0 is Some ==> release_outcome(copied, release)
            == Ok::<FrameStatus, CaptureErrorModel>(
            FrameStatus::Ready { accumulated: copied->Ok_0->0 },
        ),
        release_outcome(copied, release) == Ok::<FrameStatus, CaptureErrorModel>(FrameStatus::Idle)
            <==> release is Ok && copied is Ok && copied->Ok_0 is None,
        release matches Err(f) ==> release_outcome(copied, release) == Err::<
            FrameStatus,
            CaptureErrorModel,
        >(release_failure(f)),
        release is Ok && copied is Err ==> release_outcome(copied, release) == Err::<
            FrameStatus,
            CaptureErrorModel,
        >(
            CaptureErrorModel::System(
                text::system_text(copied->Err_0.message@, copied->Err_0.code),
            ),
        ),
{
}

/// Whether a result is a status goes by both its halves.
pub proof fn law_a_status_is_compared_whole(
    r: Result<FrameStatus, CaptureError>,
    m: Result<FrameStatus, CaptureErrorModel>,
)
    requires
        status_is(r, m),
    ensures
        r is Ok <==> m is Ok,
        r is Ok ==> r->Ok_0 == m->Ok_0,
        r is Err ==> r->Err_0@ == m->Err_0,
{
}

/// How a search goes on. An adapter that is there has its outputs enumerated from the first;
/// an output that is there is the one if as many were seen as are wanted before it, and else
/// the next one of the same adapter is asked for; after the last output comes the next
/// adapter, and after the last adapter the search has failed for want of that output. Any
/// other failure ends it in the system's words.
pub proof fn law_a_search_asks_for_the_next_one(
    before: SearchModel,
    failure: Option<SystemFailure>,
    after: SearchModel,
    step: SearchStep,
)
    requires
        searches(before, failure, after, step),
        before.local <= before.seen <= before.wanted,
        before.adapter < u32::MAX,
    ensures
        after.wanted == before.wanted,
        step is Found <==> failure is None && before.in_adapter && before.seen == before.wanted,
        failure is None && !before.in_adapter ==> step == SearchStep::Output(0) && after.in_adapter
            && after.local == 0 && after.seen == before.seen && after.adapter == before.adapter,
        failure is None && before.in_adapter && before.seen < before.wanted ==> step
            == SearchStep::Output((before.local + 1) as u32) && after.seen == before.seen + 1
            && after.local == before.local + 1 && after.adapter == before.adapter
            && after.in_adapter,
        failure matches Some(f) ==> (f.code == 0x887A_0002 && before.in_adapter ==> step
            == SearchStep::Adapter((before.adapter + 1) as u32) && after.adapter == before.adapter
            + 1 && after.seen == before.seen && !after.in_adapter),
        failure matches Some(f) ==> (f.code == 0x887A_0002 && !before.in_adapter ==> (
        step matches SearchStep::Failed(e) && e@ == CaptureErrorModel::OutputNotFound(
            before.wanted,
        ))),
        failure matches Some(f) ==> (f.code != 0x887A_0002 ==> after == before && (
        step matches SearchStep::Failed(e) && e@ == CaptureErrorModel::System(
            text::system_text(f.message@, f.code),
        ))),
{
}

/// The copies go to a texture of the size of the desktop, with one level, one layer and one
/// sample of BGRA pixels, that can be read and drawn to, out of the processor's reach.
pub proof fn law_copies_have_the_size_of_the_desktop(width: u32, height: u32)
    ensures
        copy_target(width, height).width == width,
        copy_target(width, height).height == height,
        copy_target(width, height).mip_levels == 1,
        copy_target(width, height).array_size == 1,
        copy_target(width, height).sample_count == 1,
        copy_target(width, height).format == 87,
        copy_target(width, height).bind_flags == 0x08 + 0x20,
        copy_target(width, height).cpu_access_flags == 0,
{
}

/// A time that the system can wait is waited; a longer one is cut to the longest.
pub proof fn law_long_waits_are_cut(millis: u128)
    ensures
        millis <= 0xFFFF_FFFF ==> longest_wait(millis) == millis,
        millis > 0xFFFF_FFFF ==> longest_wait(millis) == 0xFFFF_FFFF,
{
}

/// What is reported of an image is what was made of it, be it a status or an error.
pub proof fn law_the_status_is_what_was_decided(
    r: Result<FrameStatus, CaptureError>,
    m: Result<FrameStatus, CaptureErrorModel>,
)
    requires
        status_is(r, m),
    ensures
        r is Ok <==> m is Ok,
        r matches Ok(status) ==> m == Ok::<FrameStatus, CaptureErrorModel>(status),
        r matches Err(e) ==> m == Err::<FrameStatus, CaptureErrorModel>(e@),
{
}

} // verus!
