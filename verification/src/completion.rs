//! Waiting for an update: the request that has the device wait, and what
//! the answer of the device means for the marker.

use vstd::prelude::*;
use crate::error::{DeviceError, Error};
use crate::ioctl::{wait_request, DeviceRequest, RequestModel};
use crate::marker::{lemma_oldest_is_first, MarkerTracker, TrackerModel, UpdateMarker};
use crate::request::AbiVersion;
use crate::update::{MxcfbUpdateMarkerData, UPDATE_MARKER_DATA_LEN};
use crate::wire::{put_u32, u32_bytes, ByteOrder};

verus! {

/// How an update ended.
#[derive(Clone, Copy, Debug, PartialEq, Eq, Structural)]
pub enum CompletionResult {
    /// The update is on the panel.
    Completed,
    /// The update is on the panel, and it touched a region that another
    /// outstanding update touched too.
    CollisionDetected,
}

/// What the device answered to a request to wait: the argument as the
/// device left it, or the failure.
pub open spec fn reply_bytes(reply: Result<Vec<u8>, DeviceError>) -> Result<Seq<u8>, DeviceError> {
    match reply {
        Ok(v) => Ok(v@),
        Err(e) => Err(e),
    }
}

/// The argument of the request that waits for `marker`. The first layout
/// hands over the marker alone. The second adds a field that asks for the
/// collision test and receives its result.
pub open spec fn wait_payload(
    order: ByteOrder,
    version: AbiVersion,
    marker: UpdateMarker,
    collision_test: bool,
) -> Seq<u8> {
    match version {
        AbiVersion::V1 => u32_bytes(order, marker.id),
        AbiVersion::V2 => (MxcfbUpdateMarkerData {
            update_marker: marker.id,
            collision_test: if collision_test {
                1
            } else {
                0
            },
        }).layout(order),
    }
}

impl TrackerModel {
    /// The request that waits for `marker`.
    ///
    /// There is none for a marker that is not outstanding
    /// (`UnknownMarker`), nor for a collision test in the first layout,
    /// which cannot report one (`UnsupportedOperation`).
    pub open spec fn wait_call(
        self,
        order: ByteOrder,
        version: AbiVersion,
        marker: UpdateMarker,
        collision_test: bool,
    ) -> Result<RequestModel, Error> {
        if !self.is_outstanding(marker) {
            Err(Error::UnknownMarker)
        } else if version == AbiVersion::V1 && collision_test {
            Err(Error::UnsupportedOperation)
        } else {
            Ok(
                wait_request(
                    version == AbiVersion::V2,
                    wait_payload(order, version, marker, collision_test),
                ),
            )
        }
    }

    /// What the answer of the device to the wait for `marker` means.
    ///
    /// A failure of the device, whatever it is, and an answer of the
    /// second layout that has not the size of its structure, mean that the
    /// device has not reported the end of the update (`DeviceTimeout`).
    /// Else the update is completed; a collision is reported where the
    /// test was asked for and the device has set the field.
    pub open spec fn wait_outcome(
        self,
        order: ByteOrder,
        version: AbiVersion,
        marker: UpdateMarker,
        collision_test: bool,
        reply: Result<Seq<u8>, DeviceError>,
    ) -> Result<CompletionResult, Error> {
        if !self.is_outstanding(marker) {
            Err(Error::UnknownMarker)
        } else if version == AbiVersion::V1 && collision_test {
            Err(Error::UnsupportedOperation)
        } else {
            match reply {
                Err(_) => Err(Error::DeviceTimeout),
                Ok(payload) => match version {
                    AbiVersion::V1 => Ok(CompletionResult::Completed),
                    AbiVersion::V2 => if payload.len() != UPDATE_MARKER_DATA_LEN {
                        Err(Error::DeviceTimeout)
                    } else if collision_test && MxcfbUpdateMarkerData::read(
                        order,
                        payload,
                    ).collision_test != 0 {
                        Ok(CompletionResult::CollisionDetected)
                    } else {
                        Ok(CompletionResult::Completed)
                    },
                },
            }
        }
    }

    /// The book after the answer: the marker is retired where the update
    /// has ended, and stays outstanding where it has not.
    pub open spec fn after_wait(
        self,
        order: ByteOrder,
        version: AbiVersion,
        marker: UpdateMarker,
        collision_test: bool,
        reply: Result<Seq<u8>, DeviceError>,
    ) -> TrackerModel {
        if self.wait_outcome(order, version, marker, collision_test, reply).is_ok() {
            self.after_retire(marker)
        } else {
            self
        }
    }

    /// The oldest outstanding marker, and the request that waits for it.
    /// Only the first layout can wait so (`UnsupportedOperation`); with no
    /// marker outstanding there is none to wait for (`UnknownMarker`).
    pub open spec fn wait_any_call(self, order: ByteOrder, version: AbiVersion) -> Result<
        (UpdateMarker, RequestModel),
        Error,
    > {
        if version != AbiVersion::V1 {
            Err(Error::UnsupportedOperation)
        } else {
            match self.oldest_outstanding() {
                None => Err(Error::UnknownMarker),
                Some(m) => Ok((m, wait_request(false, u32_bytes(order, m.id)))),
            }
        }
    }
}

/// The marker that is waited for where any will do is outstanding, and no
/// outstanding marker was allocated before it.
pub proof fn lemma_wait_any_is_oldest(t: TrackerModel, order: ByteOrder, version: AbiVersion)
    requires
        t.wf(),
        t.wait_any_call(order, version).is_ok(),
    ensures
        ({
            let m = t.wait_any_call(order, version).unwrap().0;
            &&& t.is_outstanding(m)
            &&& t.wait_any_call(order, version).unwrap().1 == t.wait_call(
                order,
                version,
                m,
                false,
            ).unwrap()
            &&& forall|i: int|
                0 <= i < t.position(m) ==> !(#[trigger] t.entries[i]).issued
        }),
{
    lemma_oldest_is_first(t.entries);
    let m = t.oldest_outstanding().unwrap();
    let k = choose|k: int|
        0 <= k < t.entries.len() && (#[trigger] t.entries[k]).marker == m && t.entries[k].issued
            && forall|i: int| 0 <= i < k ==> !(#[trigger] t.entries[i]).issued;
    let p = t.position(m);
    assert(t.entries[p].marker == m);
    if p < k {
        assert(t.entries[p].marker != t.entries[k].marker);
    } else if k < p {
        assert(t.entries[k].marker != t.entries[p].marker);
    }
}

/// A marker that has been waited for to the end is unknown from then on.
pub proof fn lemma_waited_marker_is_unknown(
    t: TrackerModel,
    order: ByteOrder,
    version: AbiVersion,
    marker: UpdateMarker,
    collision_test: bool,
    reply: Result<Seq<u8>, DeviceError>,
    again: bool,
)
    requires
        t.wf(),
        t.wait_outcome(order, version, marker, collision_test, reply).is_ok(),
    ensures
        t.after_wait(order, version, marker, collision_test, reply).wait_call(
            order,
            version,
            marker,
            again,
        ) == Err::<RequestModel, Error>(Error::UnknownMarker),
{
    lemma_retired_is_gone(t, marker);
}

/// A retired marker does not stand in the book, and the book stays well
/// formed.
pub proof fn lemma_retired_is_gone(t: TrackerModel, marker: UpdateMarker)
    requires
        t.wf(),
    ensures
        t.after_retire(marker).wf(),
        !t.after_retire(marker).tracks(marker),
        !t.after_retire(marker).is_outstanding(marker),
        forall|m: UpdateMarker|
            m != marker ==> t.after_retire(marker).is_outstanding(m) == t.is_outstanding(m),
{
    let u = t.after_retire(marker);
    if t.tracks(marker) {
        let p = t.position(marker);
        t.entries.remove_ensures(p);
        assert forall|a: int| 0 <= a < u.entries.len() implies (#[trigger] u.entries[a]).marker.id
            != 0 && u.entries[a].marker != marker by {
            if a < p {
                assert(t.entries[a].marker != t.entries[p].marker);
            } else {
                assert(t.entries[p].marker != t.entries[a + 1].marker);
            }
        }
        assert forall|a: int, b: int| 0 <= a < b < u.entries.len() implies (
        #[trigger] u.entries[a]).marker != (#[trigger] u.entries[b]).marker by {
            let a0 = if a < p { a } else { a + 1 };
            let b0 = if b < p { b } else { b + 1 };
            assert(t.entries[a0].marker != t.entries[b0].marker);
        }
        assert forall|m: UpdateMarker| m != marker implies u.is_outstanding(m) == t.is_outstanding(
            m,
        ) by {
            if t.is_outstanding(m) {
                let i = choose|i: int|
                    0 <= i < t.entries.len() && (#[trigger] t.entries[i]).marker == m
                        && t.entries[i].issued;
                let j = if i < p { i } else { i - 1 };
                assert(u.entries[j] == t.entries[i]);
            }
            if u.is_outstanding(m) {
                let j = choose|j: int|
                    0 <= j < u.entries.len() && (#[trigger] u.entries[j]).marker == m
                        && u.entries[j].issued;
                let i = if j < p { j } else { j + 1 };
                assert(t.entries[i] == u.entries[j]);
            }
        }
    }
}

impl MarkerTracker {
    /// Builds the request that waits for `marker`.
    pub fn wait(
        &self,
        order: ByteOrder,
        version: AbiVersion,
        marker: UpdateMarker,
        collision_test: bool,
    ) -> (r: Result<DeviceRequest, Error>)
        requires
            self.wf(),
        ensures
            match self@.wait_call(order, version, marker, collision_test) {
                Ok(q) => r.is_ok() && r.unwrap()@ == q,
                Err(e) => r == Err::<DeviceRequest, Error>(e),
            },
    {
        if !self.is_outstanding(marker) {
            return Err(Error::UnknownMarker);
        }
        let payload: Vec<u8> = match version {
            AbiVersion::V1 => {
                if collision_test {
                    return Err(Error::UnsupportedOperation);
                }
                let mut out: Vec<u8> = Vec::new();
                put_u32(&mut out, order, marker.id);
                assert(out@ =~= u32_bytes(order, marker.id));
                out
            },
            AbiVersion::V2 => {
                let data = MxcfbUpdateMarkerData {
                    update_marker: marker.id,
                    collision_test: if collision_test {
                        1
                    } else {
                        0
                    },
                };
                data.to_bytes(order)
            },
        };
        let answered: bool = match version {
            AbiVersion::V1 => false,
            AbiVersion::V2 => true,
        };
        match DeviceRequest::wait_for_update(answered, payload) {
            Some(q) => Ok(q),
            None => Err(Error::UnsupportedOperation),
        }
    }

    /// Takes the answer of the device to the wait for `marker`, retires the
    /// marker where the update has ended, and tells how it ended.
    pub fn wait_reply(
        &mut self,
        order: ByteOrder,
        version: AbiVersion,
        marker: UpdateMarker,
        collision_test: bool,
        reply: Result<Vec<u8>, DeviceError>,
    ) -> (r: Result<CompletionResult, Error>)
        requires
            old(self).wf(),
        ensures
            final(self).wf(),
            r == old(self)@.wait_outcome(
                order,
                version,
                marker,
                collision_test,
                reply_bytes(reply),
            ),
            final(self)@ == old(self)@.after_wait(
                order,
                version,
                marker,
                collision_test,
                reply_bytes(reply),
            ),
            r.is_ok() ==> !final(self)@.is_outstanding(marker),
    {
        if !self.is_outstanding(marker) {
            return Err(Error::UnknownMarker);
        }
        let payload: Vec<u8> = match version {
            AbiVersion::V1 => {
                if collision_test {
                    return Err(Error::UnsupportedOperation);
                }
                match reply {
                    Err(_) => {
                        return Err(Error::DeviceTimeout);
                    },
                    Ok(p) => p,
                }
            },
            AbiVersion::V2 => match reply {
                Err(_) => {
                    return Err(Error::DeviceTimeout);
                },
                Ok(p) => p,
            },
        };
        let result: CompletionResult = match version {
            AbiVersion::V1 => CompletionResult::Completed,
            AbiVersion::V2 => match MxcfbUpdateMarkerData::from_bytes(order, payload.as_slice()) {
                None => {
                    return Err(Error::DeviceTimeout);
                },
                Some(data) => if collision_test && data.collision_test != 0 {
                    CompletionResult::CollisionDetected
                } else {
                    CompletionResult::Completed
                },
            },
        };
        proof {
            lemma_retired_is_gone(self@, marker);
        }
        self.retire(marker);
        Ok(result)
    }

    /// Names the oldest outstanding marker and builds the request that
    /// waits for it.
    pub fn wait_any(&self, order: ByteOrder, version: AbiVersion) -> (r: Result<
        (UpdateMarker, DeviceRequest),
        Error,
    >)
        requires
            self.wf(),
        ensures
            match self@.wait_any_call(order, version) {
                Ok(q) => r.is_ok() && r.unwrap().0 == q.0 && r.unwrap().1@ == q.1,
                Err(e) => r == Err::<(UpdateMarker, DeviceRequest), Error>(e),
            },
    {
        match version {
            AbiVersion::V2 => Err(Error::UnsupportedOperation),
            AbiVersion::V1 => match self.oldest_outstanding() {
                None => Err(Error::UnknownMarker),
                Some(m) => {
                    let mut out: Vec<u8> = Vec::new();
                    put_u32(&mut out, order, m.id);
                    assert(out@ =~= u32_bytes(order, m.id));
                    match DeviceRequest::wait_for_update(false, out) {
                        Some(q) => Ok((m, q)),
                        None => Err(Error::UnknownMarker),
                    }
                },
            },
        }
    }
}

} // verus!
