//! Contracts for Controller Area Network controllers.
//!
//! The traits [`Id`], [`Filter`], [`Frame`], [`Interface`], [`Transmitter`] and
//! [`Receiver`] say what a driver owes its callers: how identifiers are told
//! apart, which identifiers a filter lets through, which frame leaves a full set
//! of transmit mailboxes, and in which order received frames come out.
//! [`CanId`], [`AcceptanceFilter`], [`CanFrame`] and [`Controller`] implement
//! them in memory.

pub mod controller;
pub mod fd;
pub mod filter;
pub mod frame;
pub mod id;
pub mod interface;
pub mod priority;

pub use crate::controller::Controller;
pub use crate::fd::FdFrame;
pub use crate::filter::{mask_matches, try_from_mask, AcceptanceFilter, Filter, MaskError};
pub use crate::frame::{CanFrame, Frame, FrameView};
pub use crate::id::{CanId, Id, Identifier};
pub use crate::interface::{Interface, Receiver, Transmitter};
