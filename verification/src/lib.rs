//! Verified core of two AstroBox community resource providers: the
//! mibandtool "GiveMeFive" watch-face community (`mitan`) and the QingWear
//! quick-app gateway (`qingwear`), together with the plugin work-bench UI
//! state machine (`ui`).
use vstd::prelude::*;

pub mod text;
pub mod codec;
pub mod numbers;
pub mod json;
pub mod config;
pub mod devices;
pub mod identity;
pub mod api;
pub mod session;
pub mod catalog;
pub mod tags;
pub mod faces;
pub mod manifest;
pub mod listing;
pub mod requests;
pub mod provider;
pub mod uploads;
pub mod element;
pub mod ui;
pub mod ui_view;
pub mod qw_price;
pub mod qw_records;
pub mod qw_catalog;
pub mod qw_docs;
pub mod qw_gateway;

verus! {

} // verus!
