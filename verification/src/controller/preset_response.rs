use vstd::prelude::*;

use crate::controller::action_result::ActionResult;

verus! {

/// Ready-made results for the common status codes.
pub trait PresetResponse {
    /// The result type the presets give.
    type Response: ActionResult;

    /// 200
    fn ok(body: Vec<u8>) -> (r: Self::Response)
        ensures
            r.status_view() == 200,
    ;

    /// 201
    fn created(body: Vec<u8>) -> (r: Self::Response)
        ensures
            r.status_view() == 201,
    ;

    /// 204
    fn no_content() -> (r: Self::Response)
        ensures
            r.status_view() == 204,
    ;

    /// 301
    fn moved_permanently(location: &str) -> (r: Self::Response)
        ensures
            r.status_view() == 301,
    ;

    /// 302
    fn found(location: &str) -> (r: Self::Response)
        ensures
            r.status_view() == 302,
    ;

    /// 304
    fn not_modified() -> (r: Self::Response)
        ensures
            r.status_view() == 304,
    ;

    /// 307
    fn temporary_redirect(location: &str) -> (r: Self::Response)
        ensures
            r.status_view() == 307,
    ;

    /// 400
    fn bad_request() -> (r: Self::Response)
        ensures
            r.status_view() == 400,
    ;

    /// 401
    fn unauthorized() -> (r: Self::Response)
        ensures
            r.status_view() == 401,
    ;

    /// 403
    fn forbidden() -> (r: Self::Response)
        ensures
            r.status_view() == 403,
    ;

    /// 404
    fn not_found() -> (r: Self::Response)
        ensures
            r.status_view() == 404,
    ;

    /// 405
    fn method_not_allowed() -> (r: Self::Response)
        ensures
            r.status_view() == 405,
    ;

    /// 406
    fn not_acceptable() -> (r: Self::Response)
        ensures
            r.status_view() == 406,
    ;

    /// 413
    fn payload_too_large() -> (r: Self::Response)
        ensures
            r.status_view() == 413,
    ;

    /// 414
    fn uri_too_long() -> (r: Self::Response)
        ensures
            r.status_view() == 414,
    ;

    /// 415
    fn unsupported_media_type() -> (r: Self::Response)
        ensures
            r.status_view() == 415,
    ;

    /// 429
    fn rate_limit_exceeded() -> (r: Self::Response)
        ensures
            r.status_view() == 429,
    ;

    /// 500
    fn internal_server_error() -> (r: Self::Response)
        ensures
            r.status_view() == 500,
    ;

    /// 501
    fn not_implemented() -> (r: Self::Response)
        ensures
            r.status_view() == 501,
    ;

    /// 503
    fn service_unavailable() -> (r: Self::Response)
        ensures
            r.status_view() == 503,
    ;

    /// 504
    fn gateway_timeout() -> (r: Self::Response)
        ensures
            r.status_view() == 504,
    ;

    /// 505
    fn http_version_not_supported() -> (r: Self::Response)
        ensures
            r.status_view() == 505,
    ;
}

} // verus!
