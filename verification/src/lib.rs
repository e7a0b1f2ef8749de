//! A speed-test client for speedtest.cn: the decisions it takes on what the
//! servers answer, the requests it builds, and the statistics it reports.
#![allow(non_snake_case)]

pub mod decimal;
pub mod download;
pub mod range_check;
pub mod sampling;
pub mod socket_url;
pub mod speed_test_structure;
pub mod stats;

pub use speed_test_structure::{
    ApiV3LocationInfo, ApiV3Response, LocationInfo, SpeedTestServerInfo,
};
