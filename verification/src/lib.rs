//! Update protocol of the i.MX electrophoretic display controller.
//!
//! An e-ink panel behind the `mxcfb` frame buffer driver is redrawn by
//! handing the driver an update request: a region, a waveform, a mode and
//! some flags, tagged with a marker. The driver carries the update out on
//! its own time; the caller waits for the marker. Two generations of the
//! driver take the request in two different structures.
//!
//! This library holds the protocol and none of the input and output:
//!
//! * [`wire`]: how integers lie in the structures;
//! * [`screen_info`], [`geometry`]: the screen-info structures and the
//!   geometry of the panel;
//! * [`update`], [`request`]: the update structures of both layouts, what
//!   a caller asks for, and the encoder;
//! * [`ioctl`]: request numbers and the requests to perform;
//! * [`marker`], [`completion`]: the book of markers, and waiting;
//! * [`dispatcher`]: the state machine that ties them together;
//! * [`consts`], [`error`].
//!
//! Every function is verified against its contract, but for the one in
//! [`wire`] that asks the standard library how the machine stores a
//! number. The contracts speak of models: sequences of bytes for buffers, [`marker::TrackerModel`] for the
//! book of markers, [`dispatcher::DispatcherModel`] for the dispatcher.

pub mod completion;
pub mod consts;
pub mod dispatcher;
pub mod error;
pub mod geometry;
pub mod ioctl;
pub mod marker;
pub mod request;
pub mod screen_info;
pub mod update;
pub mod wire;
