//! Verified core of a webcam head tracker: detection post-processing, model
//! parameter layout, crop geometry, tracking decisions, the capture lifecycle,
//! the release check and the pose datagram.
pub mod capture;
pub mod crop;
pub mod datagram;
pub mod nms;
pub mod param;
pub mod priors;
pub mod release;
pub mod tracking;
