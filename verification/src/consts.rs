//! Fixed settings of the bridge and pipeline that are plain integers or text.
use vstd::prelude::*;

verus! {

pub const DEFAULT_CAMERA_INDEX: i32 = 4;

pub const DEFAULT_CAMERA_WIDTH: i32 = 1280;

pub const DEFAULT_CAMERA_HEIGHT: i32 = 720;

pub const DEFAULT_CAMERA_BUFFER_SIZE: i32 = 3;

pub const DEFAULT_CAMERA_FOURCC: &'static str = "MJPG";

pub const CAMERA_WARMUP_READS: usize = 30;

pub const CLAHE_TILE_SIZE: i32 = 8;

pub const GAUSSIAN_BLUR_KSIZE: i32 = 5;

pub const EDGE_DILATE_KERNEL_SIZE: i32 = 3;

pub const PRIMARY_HOUGH_THRESHOLD: i32 = 80;

pub const MIN_CLASSIFIED_LINES: usize = 2;

pub const STARTUP_MASK_BLUR_KSIZE: i32 = 17;

pub const STARTUP_HOUGH_MIN_RADIUS: i32 = 20;

pub const STARTUP_HOUGH_MAX_RADIUS: i32 = 220;

pub const SERIAL_BAUD_RATE: u32 = 115_200;

pub const METRICS_HTTP_BIND: &'static str = "0.0.0.0:9090";

pub const CONTROLLER_HTTP_BIND: &'static str = "0.0.0.0:9091";

pub const METRICS_NAMESPACE: &'static str = "roof_alignment";

pub const CONTROLLER_LOG_DIR: &'static str = "controller_logs";

pub const CONTROLLER_SERIAL_TIMEOUT_MS: u64 = 100;

/// Consecutive serial read failures after which the bridge drops the link.
pub const MAX_CONSECUTIVE_READ_ERRORS: u32 = 10;

pub const WINDOW_WIDTH: i32 = 1440;

pub const WINDOW_HEIGHT: i32 = 900;

pub const OVERLAY_TEXT_THICKNESS: i32 = 2;

} // verus!
