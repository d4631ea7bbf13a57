//! The dispatcher: the one place through which updates are submitted and
//! waited for.
//!
//! The dispatcher does not talk to the device. It decides: each operation
//! takes what the caller wants, or what the device answered, and tells what
//! to ask of the device next and what to report. Whoever owns the device
//! performs the requests in between.

use vstd::prelude::*;
use crate::completion::{lemma_retired_is_gone, reply_bytes, CompletionResult};
use crate::consts::TEMP_USE_AMBIENT;
use crate::error::{DeviceError, Error};
use crate::geometry::ScreenGeometry;
use crate::ioctl::{send_update_request, DeviceRequest, RequestModel};
use crate::marker::{lemma_allocate_keeps_wf, MarkerTracker, TrackerModel, UpdateMarker};
use crate::request::{
    encode_request, encoded, lemma_encode_roundtrip, temperature_code, update_len, AbiVersion,
    AlternateBuffer, UpdateFlags, UpdateMode, UpdateRequest, WaveformMode,
};
use crate::update::{update_data_v1_len, MxcfbRect};
use crate::wire::ByteOrder;

verus! {

/// What is known of the layout that the device takes.
#[derive(Clone, Copy, Debug, PartialEq, Eq, Structural)]
pub enum AbiState {
    /// Nothing yet: the first submission will try the second layout.
    Unprobed,
    /// The layout is settled, for good.
    Active(AbiVersion),
    /// The first submission failed for another reason than the layout.
    Failed,
}

/// An update on its way to the device: the marker it carries, the layout
/// it is encoded in, what was asked for, and the request to perform.
#[derive(Clone, Debug)]
pub struct Submission {
    pub marker: UpdateMarker,
    pub version: AbiVersion,
    pub update: UpdateRequest,
    pub request: DeviceRequest,
}

/// A submission, with the argument of its request as a sequence of bytes.
pub struct SubmissionModel {
    pub marker: UpdateMarker,
    pub version: AbiVersion,
    pub update: UpdateRequest,
    pub request: RequestModel,
}

impl View for Submission {
    type V = SubmissionModel;

    open spec fn view(&self) -> SubmissionModel {
        SubmissionModel {
            marker: self.marker,
            version: self.version,
            update: self.update,
            request: self.request@,
        }
    }
}

/// What became of a submission once the device has answered.
#[derive(Clone, Debug)]
pub enum SubmitOutcome {
    /// The device has accepted the update. The marker is outstanding.
    Issued(UpdateMarker),
    /// The device takes the first layout. The update is to be submitted
    /// again as given here, under the same marker.
    Retry(Submission),
    /// The update was not accepted. Its marker is retired.
    Rejected(Error),
}

/// The outcome of a submission, over sequences of bytes.
pub enum SubmitOutcomeModel {
    Issued(UpdateMarker),
    Retry(SubmissionModel),
    Rejected(Error),
}

impl View for SubmitOutcome {
    type V = SubmitOutcomeModel;

    open spec fn view(&self) -> SubmitOutcomeModel {
        match self {
            SubmitOutcome::Issued(m) => SubmitOutcomeModel::Issued(*m),
            SubmitOutcome::Retry(s) => SubmitOutcomeModel::Retry(s@),
            SubmitOutcome::Rejected(e) => SubmitOutcomeModel::Rejected(*e),
        }
    }
}

/// What the dispatcher holds.
pub struct DispatcherModel {
    pub order: ByteOrder,
    pub abi: AbiState,
    pub geometry: ScreenGeometry,
    pub tracker: TrackerModel,
}

/// The submission of the update `u` under `marker` in the given layout.
pub open spec fn submission(
    order: ByteOrder,
    version: AbiVersion,
    marker: UpdateMarker,
    u: UpdateRequest,
) -> SubmissionModel {
    SubmissionModel {
        marker,
        version,
        update: u,
        request: send_update_request(encoded(order, version, marker, u)),
    }
}

impl DispatcherModel {
    /// The book of markers is well formed, the channels of the geometry can
    /// coexist, and no marker is outstanding before a layout is settled.
    pub open spec fn wf(self) -> bool {
        &&& self.tracker.wf()
        &&& self.geometry.channels_valid()
        &&& (self.abi is Active || forall|i: int|
            0 <= i < self.tracker.entries.len() ==> !(#[trigger] self.tracker.entries[i]).issued)
    }

    /// The layout in which the next update is encoded: the settled one, or
    /// the second one as long as none is settled. None once settling one
    /// has failed.
    pub open spec fn submit_version(self) -> Option<AbiVersion> {
        match self.abi {
            AbiState::Unprobed => Some(AbiVersion::V2),
            AbiState::Active(v) => Some(v),
            AbiState::Failed => None,
        }
    }

    /// What submitting the update `u` gives.
    ///
    /// A region beyond the virtual resolution is refused before anything
    /// else (`RegionOutOfBounds`), then a dispatcher that could not settle
    /// a layout (`DispatcherInitFailed`), then an update for which no
    /// marker is left (`SubmitRejected`). Nothing changes in these cases,
    /// and there is no request to perform. Else a marker is allocated and
    /// is pending.
    pub open spec fn submit_result(self, u: UpdateRequest) -> Result<SubmissionModel, Error> {
        if !self.geometry.contains(u.region) {
            Err(Error::RegionOutOfBounds)
        } else if self.submit_version().is_none() {
            Err(Error::DispatcherInitFailed)
        } else if self.tracker.fresh().is_none() {
            Err(Error::SubmitRejected)
        } else {
            Ok(
                submission(
                    self.order,
                    self.submit_version().unwrap(),
                    self.tracker.fresh().unwrap(),
                    u,
                ),
            )
        }
    }

    /// The dispatcher after the update `u` has been submitted.
    pub open spec fn after_submit(self, u: UpdateRequest) -> DispatcherModel {
        if self.submit_result(u).is_ok() {
            DispatcherModel { tracker: self.tracker.after_allocate(), ..self }
        } else {
            self
        }
    }

    /// Whether the failure `e` of the submission `s` makes the dispatcher
    /// fall back to the first layout: the device tells that it expects
    /// another layout than the second, in which `s` was encoded, and the
    /// second layout is not the settled one.
    pub open spec fn falls_back(self, s: SubmissionModel, e: DeviceError) -> bool {
        &&& e.is_version_mismatch()
        &&& s.version == AbiVersion::V2
        &&& (self.abi == AbiState::Unprobed || self.abi == AbiState::Active(AbiVersion::V1))
    }

    /// What the answer of the device to the submission `s` means.
    ///
    /// A submission whose marker is not pending is unknown. Where the
    /// device has accepted the update, the marker is issued, unless no
    /// layout could be settled before. Where the device expects the first
    /// layout, the update is to be submitted again in that layout. Any
    /// other failure rejects the update: as `DispatcherInitFailed` while no
    /// layout is settled, as `SubmitRejected` afterwards.
    pub open spec fn submit_outcome(
        self,
        s: SubmissionModel,
        reply: Result<(), DeviceError>,
    ) -> SubmitOutcomeModel {
        if !self.tracker.is_pending(s.marker) {
            SubmitOutcomeModel::Rejected(Error::UnknownMarker)
        } else {
            match reply {
                Ok(_) => if self.abi == AbiState::Failed {
                    SubmitOutcomeModel::Rejected(Error::DispatcherInitFailed)
                } else {
                    SubmitOutcomeModel::Issued(s.marker)
                },
                Err(e) => if self.falls_back(s, e) {
                    if self.geometry.contains(s.update.region) {
                        SubmitOutcomeModel::Retry(
                            submission(self.order, AbiVersion::V1, s.marker, s.update),
                        )
                    } else {
                        SubmitOutcomeModel::Rejected(Error::RegionOutOfBounds)
                    }
                } else if self.abi is Active {
                    SubmitOutcomeModel::Rejected(Error::SubmitRejected)
                } else {
                    SubmitOutcomeModel::Rejected(Error::DispatcherInitFailed)
                },
            }
        }
    }

    /// What is known of the layout after the answer of the device to the
    /// submission `s`. A settled layout stays. The first answer settles
    /// the layout: the one of `s` where the device has accepted it, the
    /// first where the device expects another than the second, none where
    /// the device has failed otherwise.
    pub open spec fn abi_after_reply(
        self,
        s: SubmissionModel,
        reply: Result<(), DeviceError>,
    ) -> AbiState {
        if !self.tracker.is_pending(s.marker) {
            self.abi
        } else {
            match self.abi {
                AbiState::Active(v) => AbiState::Active(v),
                AbiState::Failed => AbiState::Failed,
                AbiState::Unprobed => match reply {
                    Ok(_) => AbiState::Active(s.version),
                    Err(e) => if self.falls_back(s, e) {
                        AbiState::Active(AbiVersion::V1)
                    } else {
                        AbiState::Failed
                    },
                },
            }
        }
    }

    /// The dispatcher after the answer of the device to the submission
    /// `s`: the marker is issued where the update is accepted, stays
    /// pending where the update is to be submitted again, and is retired
    /// where the update is rejected.
    pub open spec fn after_submit_reply(
        self,
        s: SubmissionModel,
        reply: Result<(), DeviceError>,
    ) -> DispatcherModel {
        if !self.tracker.is_pending(s.marker) {
            self
        } else {
            DispatcherModel {
                abi: self.abi_after_reply(s, reply),
                tracker: match self.submit_outcome(s, reply) {
                    SubmitOutcomeModel::Issued(_) => self.tracker.after_issue(s.marker),
                    SubmitOutcomeModel::Retry(_) => self.tracker,
                    SubmitOutcomeModel::Rejected(_) => self.tracker.after_retire(s.marker),
                },
                ..self
            }
        }
    }

    /// The request that waits for `marker`. Before a layout is settled no
    /// marker is outstanding, so every marker is unknown.
    pub open spec fn wait_result(self, marker: UpdateMarker, collision_test: bool) -> Result<
        RequestModel,
        Error,
    > {
        match self.abi {
            AbiState::Active(v) => self.tracker.wait_call(self.order, v, marker, collision_test),
            _ => Err(Error::UnknownMarker),
        }
    }

    /// What the answer of the device to the wait for `marker` means.
    pub open spec fn wait_reply_result(
        self,
        marker: UpdateMarker,
        collision_test: bool,
        reply: Result<Seq<u8>, DeviceError>,
    ) -> Result<CompletionResult, Error> {
        match self.abi {
            AbiState::Active(v) => self.tracker.wait_outcome(
                self.order,
                v,
                marker,
                collision_test,
                reply,
            ),
            _ => Err(Error::UnknownMarker),
        }
    }

    /// The dispatcher after the answer of the device to the wait for `marker`.
    pub open spec fn after_wait_reply(
        self,
        marker: UpdateMarker,
        collision_test: bool,
        reply: Result<Seq<u8>, DeviceError>,
    ) -> DispatcherModel {
        match self.abi {
            AbiState::Active(v) => DispatcherModel {
                tracker: self.tracker.after_wait(self.order, v, marker, collision_test, reply),
                ..self
            },
            _ => self,
        }
    }

    /// The oldest outstanding marker and the request that waits for it.
    pub open spec fn wait_any_result(self) -> Result<(UpdateMarker, RequestModel), Error> {
        match self.abi {
            AbiState::Active(v) => self.tracker.wait_any_call(self.order, v),
            _ => Err(Error::UnknownMarker),
        }
    }

    /// The dispatcher after the geometry has been read anew from the two
    /// buffers. The geometry stays where the buffers are refused.
    pub open spec fn after_refresh(self, fixed: Seq<u8>, variable: Seq<u8>) -> DispatcherModel {
        match ScreenGeometry::decoded(self.order, fixed, variable) {
            Ok(g) => DispatcherModel { geometry: g, ..self },
            Err(_) => self,
        }
    }
}

/// What may happen to a dispatcher.
pub enum Event {
    /// An update is submitted.
    Submit(UpdateRequest),
    /// The device answers a submission.
    SubmitReply(SubmissionModel, Result<(), DeviceError>),
    /// The device answers a wait.
    WaitReply(UpdateMarker, bool, Result<Seq<u8>, DeviceError>),
    /// The geometry is read anew.
    Refresh(Seq<u8>, Seq<u8>),
}

/// The dispatcher after the event.
pub open spec fn step(d: DispatcherModel, e: Event) -> DispatcherModel {
    match e {
        Event::Submit(u) => d.after_submit(u),
        Event::SubmitReply(s, reply) => d.after_submit_reply(s, reply),
        Event::WaitReply(m, c, reply) => d.after_wait_reply(m, c, reply),
        Event::Refresh(f, v) => d.after_refresh(f, v),
    }
}

/// The dispatcher after the events, in their order.
pub open spec fn run(d: DispatcherModel, events: Seq<Event>) -> DispatcherModel
    decreases events.len(),
{
    if events.len() == 0 {
        d
    } else {
        step(run(d, events.drop_last()), events.last())
    }
}

/// Every event keeps the dispatcher well formed, and keeps a settled
/// layout.
pub proof fn lemma_step(d: DispatcherModel, e: Event)
    requires
        d.wf(),
    ensures
        step(d, e).wf(),
        step(d, e).order == d.order,
        d.abi is Active ==> step(d, e).abi == d.abi,
{
    let n = step(d, e);
    match e {
        Event::Submit(u) => {
            lemma_allocate_keeps_wf(d.tracker);
            if d.submit_result(u).is_ok() {
                assert forall|i: int| 0 <= i < n.tracker.entries.len() && !(d.abi is Active) implies !(
                #[trigger] n.tracker.entries[i]).issued by {
                    if i < d.tracker.entries.len() {
                        assert(!d.tracker.entries[i].issued);
                    }
                }
            }
        },
        Event::SubmitReply(s, reply) => {
            if d.tracker.is_pending(s.marker) {
                lemma_retired_is_gone(d.tracker, s.marker);
                lemma_issue_keeps_wf(d.tracker, s.marker);
                match d.submit_outcome(s, reply) {
                    SubmitOutcomeModel::Issued(_) => {},
                    SubmitOutcomeModel::Retry(_) => {},
                    SubmitOutcomeModel::Rejected(_) => {
                        if !(d.abi is Active) {
                            lemma_retire_keeps_pending(d.tracker, s.marker);
                        }
                    },
                }
            }
        },
        Event::WaitReply(m, c, reply) => {
            lemma_retired_is_gone(d.tracker, m);
        },
        Event::Refresh(f, v) => {},
    }
}

/// Issuing a marker keeps the book well formed.
pub proof fn lemma_issue_keeps_wf(t: TrackerModel, marker: UpdateMarker)
    requires
        t.wf(),
    ensures
        t.after_issue(marker).wf(),
{
    let u = t.after_issue(marker);
    if t.is_pending(marker) {
        let p = t.position(marker);
        assert(t.entries[p].marker == marker);
        assert forall|a: int| 0 <= a < u.entries.len() implies (#[trigger] u.entries[a]).marker
            == t.entries[a].marker by {}
        assert forall|a: int| 0 <= a < u.entries.len() implies (#[trigger] u.entries[a]).marker.id
            != 0 by {
            assert(t.entries[a].marker.id != 0);
        }
        assert forall|a: int, b: int| 0 <= a < b < u.entries.len() implies (
        #[trigger] u.entries[a]).marker != (#[trigger] u.entries[b]).marker by {
            assert(t.entries[a].marker != t.entries[b].marker);
        }
    }
}

/// Retiring a marker issues none.
pub proof fn lemma_retire_keeps_pending(t: TrackerModel, marker: UpdateMarker)
    requires
        t.wf(),
        forall|i: int| 0 <= i < t.entries.len() ==> !(#[trigger] t.entries[i]).issued,
    ensures
        forall|i: int|
            0 <= i < t.after_retire(marker).entries.len() ==> !(#[trigger] t.after_retire(
                marker,
            ).entries[i]).issued,
{
    let u = t.after_retire(marker);
    if t.tracks(marker) {
        let p = t.position(marker);
        t.entries.remove_ensures(p);
        assert forall|i: int| 0 <= i < u.entries.len() implies !(#[trigger] u.entries[i]).issued by {
            if i < p {
                assert(!t.entries[i].issued);
            } else {
                assert(!t.entries[i + 1].issued);
            }
        }
    }
}

/// A settled layout is settled for good: whatever happens afterwards, the
/// dispatcher keeps it, and encodes every update in it.
pub proof fn lemma_version_is_permanent(d: DispatcherModel, v: AbiVersion, events: Seq<Event>)
    requires
        d.wf(),
        d.abi == AbiState::Active(v),
    ensures
        run(d, events).wf(),
        run(d, events).abi == AbiState::Active(v),
        forall|u: UpdateRequest| #[trigger]
            run(d, events).submit_result(u).is_ok() ==> {
                &&& run(d, events).submit_result(u).unwrap().version == v
                &&& run(d, events).submit_result(u).unwrap().request.payload.len() == update_len(v)
            },
    decreases events.len(),
{
    if events.len() > 0 {
        lemma_version_is_permanent(d, v, events.drop_last());
        lemma_step(run(d, events.drop_last()), events.last());
    }
    let n = run(d, events);
    assert forall|u: UpdateRequest| #[trigger] n.submit_result(u).is_ok() implies {
        &&& n.submit_result(u).unwrap().version == v
        &&& n.submit_result(u).unwrap().request.payload.len() == update_len(v)
    } by {
        lemma_encode_roundtrip(n.order, v, n.tracker.fresh().unwrap(), u);
    }
}

/// Falling back: where the device, asked for the first time, tells that
/// it does not take the second layout, the first layout is settled, the
/// update is to be submitted again in it, and every later update is
/// encoded in it, whatever happens in between.
pub proof fn lemma_fallback_is_permanent(
    d: DispatcherModel,
    s: SubmissionModel,
    e: DeviceError,
    events: Seq<Event>,
)
    requires
        d.wf(),
        d.abi == AbiState::Unprobed,
        d.tracker.is_pending(s.marker),
        s.version == AbiVersion::V2,
        e.is_version_mismatch(),
    ensures
        ({
            let n = d.after_submit_reply(s, Err(e));
            &&& n.abi == AbiState::Active(AbiVersion::V1)
            &&& d.geometry.contains(s.update.region) ==> d.submit_outcome(s, Err(e))
                == SubmitOutcomeModel::Retry(
                submission(d.order, AbiVersion::V1, s.marker, s.update),
            )
            &&& run(n, events).abi == AbiState::Active(AbiVersion::V1)
            &&& forall|u: UpdateRequest| #[trigger]
                run(n, events).submit_result(u).is_ok() ==> {
                    &&& run(n, events).submit_result(u).unwrap().version == AbiVersion::V1
                    &&& run(n, events).submit_result(u).unwrap().request.payload.len()
                        == update_data_v1_len()
                }
        }),
{
    lemma_step(d, Event::SubmitReply(s, Err(e)));
    let n = d.after_submit_reply(s, Err(e));
    lemma_version_is_permanent(n, AbiVersion::V1, events);
}

/// A region beyond the virtual resolution is refused in every state of the
/// dispatcher, which stays as it was: no marker is allocated and there is
/// no request to perform.
pub proof fn lemma_out_of_bounds_is_refused(d: DispatcherModel, u: UpdateRequest)
    requires
        u.region.left + u.region.width > d.geometry.xres_virtual || u.region.top
            + u.region.height > d.geometry.yres_virtual,
    ensures
        d.submit_result(u) == Err::<SubmissionModel, Error>(Error::RegionOutOfBounds),
        d.after_submit(u) == d,
{
}

/// A marker that was never issued, or has been retired, is unknown to a
/// wait, in every state of the dispatcher and whatever the device answers.
pub proof fn lemma_unknown_marker(
    d: DispatcherModel,
    marker: UpdateMarker,
    collision_test: bool,
    reply: Result<Seq<u8>, DeviceError>,
)
    requires
        !d.tracker.is_outstanding(marker),
    ensures
        d.wait_result(marker, collision_test) == Err::<RequestModel, Error>(Error::UnknownMarker),
        d.wait_reply_result(marker, collision_test, reply) == Err::<CompletionResult, Error>(
            Error::UnknownMarker,
        ),
        d.after_wait_reply(marker, collision_test, reply) == d,
{
}

/// A marker that has been waited for to the end is retired: a second wait
/// for it finds it unknown.
pub proof fn lemma_second_wait_is_unknown(
    d: DispatcherModel,
    marker: UpdateMarker,
    collision_test: bool,
    reply: Result<Seq<u8>, DeviceError>,
    again: bool,
)
    requires
        d.wf(),
        d.wait_reply_result(marker, collision_test, reply).is_ok(),
    ensures
        d.after_wait_reply(marker, collision_test, reply).wait_result(marker, again) == Err::<
            RequestModel,
            Error,
        >(Error::UnknownMarker),
{
    lemma_retired_is_gone(d.tracker, marker);
}

/// The dispatcher.
pub struct Dispatcher {
    order: ByteOrder,
    abi: AbiState,
    geometry: ScreenGeometry,
    tracker: MarkerTracker,
}

impl View for Dispatcher {
    type V = DispatcherModel;

    closed spec fn view(&self) -> DispatcherModel {
        DispatcherModel {
            order: self.order,
            abi: self.abi,
            geometry: self.geometry,
            tracker: self.tracker@,
        }
    }
}

impl Dispatcher {
    /// Whether the dispatcher is well formed. Every operation keeps it so.
    pub open spec fn wf(&self) -> bool {
        self@.wf()
    }

    /// A dispatcher for the panel that the two screen-info buffers
    /// describe, with no marker issued yet. With a `version` the layout is
    /// settled from the start; without, the first submission settles it.
    /// Fails with `MalformedGeometry` where the buffers are refused.
    pub fn new(
        order: ByteOrder,
        fixed: &[u8],
        variable: &[u8],
        version: Option<AbiVersion>,
    ) -> (r: Result<Dispatcher, Error>)
        ensures
            match ScreenGeometry::decoded(order, fixed@, variable@) {
                Ok(g) => r.is_ok() && r.unwrap().wf() && r.unwrap()@ == (DispatcherModel {
                    order,
                    abi: match version {
                        Some(v) => AbiState::Active(v),
                        None => AbiState::Unprobed,
                    },
                    geometry: g,
                    tracker: TrackerModel { next: 1, entries: Seq::empty() },
                }),
                Err(e) => r is Err && r->Err_0 == e,
            },
    {
        match ScreenGeometry::decode(order, fixed, variable) {
            Err(e) => Err(e),
            Ok(geometry) => {
                let abi = match version {
                    Some(v) => AbiState::Active(v),
                    None => AbiState::Unprobed,
                };
                Ok(Dispatcher { order, abi, geometry, tracker: MarkerTracker::new() })
            },
        }
    }

    /// The geometry of the panel, as last read.
    pub fn query_geometry(&self) -> (g: ScreenGeometry)
        ensures
            g == self@.geometry,
    {
        self.geometry
    }

    /// What is known of the layout that the device takes.
    pub fn abi_state(&self) -> (a: AbiState)
        ensures
            a == self@.abi,
    {
        self.abi
    }

    /// The byte order in which structures are encoded.
    pub fn byte_order(&self) -> (o: ByteOrder)
        ensures
            o == self@.order,
    {
        self.order
    }

    /// Reads the geometry anew from the two buffers that the driver filled.
    /// Fails with `MalformedGeometry`, and keeps the geometry, where the
    /// buffers are refused.
    pub fn refresh_geometry(&mut self, fixed: &[u8], variable: &[u8]) -> (r: Result<(), Error>)
        requires
            old(self).wf(),
        ensures
            final(self).wf(),
            final(self)@ == old(self)@.after_refresh(fixed@, variable@),
            match ScreenGeometry::decoded(old(self)@.order, fixed@, variable@) {
                Ok(_) => r.is_ok(),
                Err(e) => r == Err::<(), Error>(e),
            },
    {
        match ScreenGeometry::decode(self.order, fixed, variable) {
            Err(e) => Err(e),
            Ok(geometry) => {
                self.geometry = geometry;
                Ok(())
            },
        }
    }

    /// Submits an update: allocates its marker and builds the request to
    /// perform. Without a `temperature` the ambient one is used. The
    /// answer of the device is to be handed to `submit_reply`.
    pub fn submit(
        &mut self,
        region: MxcfbRect,
        waveform: WaveformMode,
        mode: UpdateMode,
        flags: UpdateFlags,
        temperature: Option<i32>,
        alt_buffer: Option<AlternateBuffer>,
    ) -> (r: Result<Submission, Error>)
        requires
            old(self).wf(),
        ensures
            final(self).wf(),
            ({
                let u = UpdateRequest {
                    region,
                    waveform,
                    mode,
                    temperature: temperature_code(temperature),
                    flags,
                    alt_buffer,
                };
                &&& final(self)@ == old(self)@.after_submit(u)
                &&& match old(self)@.submit_result(u) {
                    Ok(s) => r.is_ok() && r.unwrap()@ == s,
                    Err(e) => r is Err && r->Err_0 == e,
                }
            }),
    {
        let u = UpdateRequest {
            region,
            waveform,
            mode,
            temperature: match temperature {
                Some(t) => t,
                None => TEMP_USE_AMBIENT,
            },
            flags,
            alt_buffer,
        };
        if !self.geometry.holds(&u.region) {
            return Err(Error::RegionOutOfBounds);
        }
        let version = match self.abi {
            AbiState::Unprobed => AbiVersion::V2,
            AbiState::Active(v) => v,
            AbiState::Failed => {
                return Err(Error::DispatcherInitFailed);
            },
        };
        proof {
            lemma_step(self@, Event::Submit(u));
        }
        let marker = match self.tracker.allocate() {
            None => {
                return Err(Error::SubmitRejected);
            },
            Some(m) => m,
        };
        match self.build(version, marker, &u) {
            Some(s) => Ok(s),
            None => Err(Error::RegionOutOfBounds),
        }
    }

    /// Builds the submission of `u` under `marker` in the given layout.
    fn build(&self, version: AbiVersion, marker: UpdateMarker, u: &UpdateRequest) -> (r: Option<
        Submission,
    >)
        ensures
            self@.geometry.contains(u.region) ==> r.is_some() && r.unwrap()@ == submission(
                self@.order,
                version,
                marker,
                *u,
            ),
            !self@.geometry.contains(u.region) ==> r.is_none(),
    {
        match encode_request(self.order, &self.geometry, version, marker, u) {
            Err(_) => None,
            Ok(bytes) => match DeviceRequest::send_update(bytes) {
                None => None,
                Some(request) => Some(Submission { marker, version, update: *u, request }),
            },
        }
    }

    /// Takes the answer of the device to a submission and tells what
    /// became of it.
    pub fn submit_reply(&mut self, s: &Submission, reply: Result<(), DeviceError>) -> (r:
        SubmitOutcome)
        requires
            old(self).wf(),
        ensures
            final(self).wf(),
            final(self)@ == old(self)@.after_submit_reply(s@, reply),
            r@ == old(self)@.submit_outcome(s@, reply),
    {
        proof {
            lemma_step(self@, Event::SubmitReply(s@, reply));
        }
        if !self.tracker.is_pending(s.marker) {
            return SubmitOutcome::Rejected(Error::UnknownMarker);
        }
        match reply {
            Ok(_) => match self.abi {
                AbiState::Failed => {
                    self.tracker.retire(s.marker);
                    SubmitOutcome::Rejected(Error::DispatcherInitFailed)
                },
                AbiState::Unprobed => {
                    self.abi = AbiState::Active(s.version);
                    self.tracker.issue(s.marker);
                    SubmitOutcome::Issued(s.marker)
                },
                AbiState::Active(_) => {
                    self.tracker.issue(s.marker);
                    SubmitOutcome::Issued(s.marker)
                },
            },
            Err(e) => {
                let second: bool = match s.version {
                    AbiVersion::V1 => false,
                    AbiVersion::V2 => true,
                };
                let open_to_first: bool = match self.abi {
                    AbiState::Unprobed => true,
                    AbiState::Active(v) => match v {
                        AbiVersion::V1 => true,
                        AbiVersion::V2 => false,
                    },
                    AbiState::Failed => false,
                };
                if e.version_mismatch() && second && open_to_first {
                    self.abi = AbiState::Active(AbiVersion::V1);
                    match self.build(AbiVersion::V1, s.marker, &s.update) {
                        Some(again) => SubmitOutcome::Retry(again),
                        None => {
                            self.tracker.retire(s.marker);
                            SubmitOutcome::Rejected(Error::RegionOutOfBounds)
                        },
                    }
                } else {
                    self.tracker.retire(s.marker);
                    match self.abi {
                        AbiState::Active(_) => SubmitOutcome::Rejected(Error::SubmitRejected),
                        AbiState::Unprobed => {
                            self.abi = AbiState::Failed;
                            SubmitOutcome::Rejected(Error::DispatcherInitFailed)
                        },
                        AbiState::Failed => SubmitOutcome::Rejected(Error::DispatcherInitFailed),
                    }
                }
            },
        }
    }

    /// Builds the request that waits for `marker`. The answer of the
    /// device is to be handed to `wait_reply`.
    pub fn wait_for(&self, marker: UpdateMarker, collision_test: bool) -> (r: Result<
        DeviceRequest,
        Error,
    >)
        requires
            self.wf(),
        ensures
            match self@.wait_result(marker, collision_test) {
                Ok(q) => r.is_ok() && r.unwrap()@ == q,
                Err(e) => r is Err && r->Err_0 == e,
            },
            !self@.tracker.is_outstanding(marker) ==> r is Err && r->Err_0
                == Error::UnknownMarker,
    {
        match self.abi {
            AbiState::Active(v) => self.tracker.wait(self.order, v, marker, collision_test),
            _ => Err(Error::UnknownMarker),
        }
    }

    /// Takes the answer of the device to the wait for `marker`, retires
    /// the marker where the update has ended, and tells how it ended.
    pub fn wait_reply(
        &mut self,
        marker: UpdateMarker,
        collision_test: bool,
        reply: Result<Vec<u8>, DeviceError>,
    ) -> (r: Result<CompletionResult, Error>)
        requires
            old(self).wf(),
        ensures
            final(self).wf(),
            r == old(self)@.wait_reply_result(marker, collision_test, reply_bytes(reply)),
            final(self)@ == old(self)@.after_wait_reply(
                marker,
                collision_test,
                reply_bytes(reply),
            ),
            !old(self)@.tracker.is_outstanding(marker) ==> r == Err::<CompletionResult, Error>(
                Error::UnknownMarker,
            ),
    {
        proof {
            lemma_step(self@, Event::WaitReply(marker, collision_test, reply_bytes(reply)));
        }
        match self.abi {
            AbiState::Active(v) => self.tracker.wait_reply(
                self.order,
                v,
                marker,
                collision_test,
                reply,
            ),
            _ => Err(Error::UnknownMarker),
        }
    }

    /// Names the oldest outstanding marker and builds the request that
    /// waits for it. The answer of the device is to be handed to
    /// `wait_reply` with that marker.
    pub fn wait_any(&self) -> (r: Result<(UpdateMarker, DeviceRequest), Error>)
        requires
            self.wf(),
        ensures
            match self@.wait_any_result() {
                Ok(q) => r.is_ok() && r.unwrap().0 == q.0 && r.unwrap().1@ == q.1,
                Err(e) => r is Err && r->Err_0 == e,
            },
    {
        match self.abi {
            AbiState::Active(v) => self.tracker.wait_any(self.order, v),
            _ => Err(Error::UnknownMarker),
        }
    }

    /// Whether the marker was issued and is not yet retired.
    pub fn is_outstanding(&self, marker: UpdateMarker) -> (b: bool)
        requires
            self.wf(),
        ensures
            b == self@.tracker.is_outstanding(marker),
    {
        self.tracker.is_outstanding(marker)
    }
}

} // verus!
