//! The request and response shapes of the service's small auxiliary surface,
//! and the runtime configuration.
//!
//! These are plain data; the captcha and first-user workflows behind them are
//! request/response wrappers over the store and live outside this library.

use vstd::prelude::*;

use crate::applier::merged;

verus! {

/// Query parameters of a captcha request: the image's width and height, either
/// of which may be left to its default.
#[derive(Debug, Clone)]
pub struct CaptchaGenerateReq {
    pub w: Option<u32>,
    pub h: Option<u32>,
}

/// A generated captcha: its id and the image as a base64 data URL.
#[derive(Debug, Clone)]
pub struct CaptchaGenerateResp {
    pub id: String,
    pub base64: String,
}

/// The first-user initialisation request: a captcha solution and the admin
/// account to create.
#[derive(Debug, Clone)]
pub struct InitReq {
    pub captcha_id: String,
    pub captcha_answer: String,
    pub email: String,
    pub password: String,
}

/// The (empty) answer to a successful initialisation.
#[derive(Debug, Clone)]
pub struct InitResp {}

/// Runtime configuration: the listen address, the store's connection string,
/// and an optional token signature key.
#[derive(Debug, Clone)]
pub struct Args {
    pub listen: String,
    pub database: String,
    pub secret: Option<String>,
}

/// The default captcha width.
pub const CAPTCHA_DEFAULT_W: u32 = 220;

/// The default captcha height.
pub const CAPTCHA_DEFAULT_H: u32 = 120;

/// The image dimensions a captcha request asks for, each falling back to its
/// default when not given.
pub fn captcha_dimensions(req: &CaptchaGenerateReq) -> (r: (u32, u32))
    ensures
        r.0 == merged(CAPTCHA_DEFAULT_W, req.w),
        r.1 == merged(CAPTCHA_DEFAULT_H, req.h),
{
    let w = match req.w {
        Option::Some(w) => w,
        Option::None => CAPTCHA_DEFAULT_W,
    };
    let h = match req.h {
        Option::Some(h) => h,
        Option::None => CAPTCHA_DEFAULT_H,
    };
    (w, h)
}

} // verus!
