use vstd::prelude::*;

verus! {

/// The canonical reason phrase of a status code, where one is registered;
/// serialisation omits the phrase of an unknown code.
pub open spec fn spec_reason(code: int) -> Option<Seq<u8>> {
    if code == 100 {
        // Continue
        Option::Some(seq![67u8, 111u8, 110u8, 116u8, 105u8, 110u8, 117u8, 101u8])
    } else if code == 101 {
        // Switching Protocols
        Option::Some(seq![83u8, 119u8, 105u8, 116u8, 99u8, 104u8, 105u8, 110u8, 103u8, 32u8, 80u8, 114u8, 111u8, 116u8, 111u8, 99u8, 111u8, 108u8, 115u8])
    } else if code == 102 {
        // Processing
        Option::Some(seq![80u8, 114u8, 111u8, 99u8, 101u8, 115u8, 115u8, 105u8, 110u8, 103u8])
    } else if code == 200 {
        // OK
        Option::Some(seq![79u8, 75u8])
    } else if code == 201 {
        // Created
        Option::Some(seq![67u8, 114u8, 101u8, 97u8, 116u8, 101u8, 100u8])
    } else if code == 202 {
        // Accepted
        Option::Some(seq![65u8, 99u8, 99u8, 101u8, 112u8, 116u8, 101u8, 100u8])
    } else if code == 203 {
        // Non-Authoritative Information
        Option::Some(seq![78u8, 111u8, 110u8, 45u8, 65u8, 117u8, 116u8, 104u8, 111u8, 114u8, 105u8, 116u8, 97u8, 116u8, 105u8, 118u8, 101u8, 32u8, 73u8, 110u8, 102u8, 111u8, 114u8, 109u8, 97u8, 116u8, 105u8, 111u8, 110u8])
    } else if code == 204 {
        // No Content
        Option::Some(seq![78u8, 111u8, 32u8, 67u8, 111u8, 110u8, 116u8, 101u8, 110u8, 116u8])
    } else if code == 205 {
        // Reset Content
        Option::Some(seq![82u8, 101u8, 115u8, 101u8, 116u8, 32u8, 67u8, 111u8, 110u8, 116u8, 101u8, 110u8, 116u8])
    } else if code == 206 {
        // Partial Content
        Option::Some(seq![80u8, 97u8, 114u8, 116u8, 105u8, 97u8, 108u8, 32u8, 67u8, 111u8, 110u8, 116u8, 101u8, 110u8, 116u8])
    } else if code == 207 {
        // Multi-Status
        Option::Some(seq![77u8, 117u8, 108u8, 116u8, 105u8, 45u8, 83u8, 116u8, 97u8, 116u8, 117u8, 115u8])
    } else if code == 208 {
        // Already Reported
        Option::Some(seq![65u8, 108u8, 114u8, 101u8, 97u8, 100u8, 121u8, 32u8, 82u8, 101u8, 112u8, 111u8, 114u8, 116u8, 101u8, 100u8])
    } else if code == 226 {
        // IM Used
        Option::Some(seq![73u8, 77u8, 32u8, 85u8, 115u8, 101u8, 100u8])
    } else if code == 300 {
        // Multiple Choices
        Option::Some(seq![77u8, 117u8, 108u8, 116u8, 105u8, 112u8, 108u8, 101u8, 32u8, 67u8, 104u8, 111u8, 105u8, 99u8, 101u8, 115u8])
    } else if code == 301 {
        // Moved Permanently
        Option::Some(seq![77u8, 111u8, 118u8, 101u8, 100u8, 32u8, 80u8, 101u8, 114u8, 109u8, 97u8, 110u8, 101u8, 110u8, 116u8, 108u8, 121u8])
    } else if code == 302 {
        // Found
        Option::Some(seq![70u8, 111u8, 117u8, 110u8, 100u8])
    } else if code == 303 {
        // See Other
        Option::Some(seq![83u8, 101u8, 101u8, 32u8, 79u8, 116u8, 104u8, 101u8, 114u8])
    } else if code == 304 {
        // Not Modified
        Option::Some(seq![78u8, 111u8, 116u8, 32u8, 77u8, 111u8, 100u8, 105u8, 102u8, 105u8, 101u8, 100u8])
    } else if code == 305 {
        // Use Proxy
        Option::Some(seq![85u8, 115u8, 101u8, 32u8, 80u8, 114u8, 111u8, 120u8, 121u8])
    } else if code == 307 {
        // Temporary Redirect
        Option::Some(seq![84u8, 101u8, 109u8, 112u8, 111u8, 114u8, 97u8, 114u8, 121u8, 32u8, 82u8, 101u8, 100u8, 105u8, 114u8, 101u8, 99u8, 116u8])
    } else if code == 308 {
        // Permanent Redirect
        Option::Some(seq![80u8, 101u8, 114u8, 109u8, 97u8, 110u8, 101u8, 110u8, 116u8, 32u8, 82u8, 101u8, 100u8, 105u8, 114u8, 101u8, 99u8, 116u8])
    } else if code == 400 {
        // Bad Request
        Option::Some(seq![66u8, 97u8, 100u8, 32u8, 82u8, 101u8, 113u8, 117u8, 101u8, 115u8, 116u8])
    } else if code == 401 {
        // Unauthorized
        Option::Some(seq![85u8, 110u8, 97u8, 117u8, 116u8, 104u8, 111u8, 114u8, 105u8, 122u8, 101u8, 100u8])
    } else if code == 402 {
        // Payment Required
        Option::Some(seq![80u8, 97u8, 121u8, 109u8, 101u8, 110u8, 116u8, 32u8, 82u8, 101u8, 113u8, 117u8, 105u8, 114u8, 101u8, 100u8])
    } else if code == 403 {
        // Forbidden
        Option::Some(seq![70u8, 111u8, 114u8, 98u8, 105u8, 100u8, 100u8, 101u8, 110u8])
    } else if code == 404 {
        // Not Found
        Option::Some(seq![78u8, 111u8, 116u8, 32u8, 70u8, 111u8, 117u8, 110u8, 100u8])
    } else if code == 405 {
        // Method Not Allowed
        Option::Some(seq![77u8, 101u8, 116u8, 104u8, 111u8, 100u8, 32u8, 78u8, 111u8, 116u8, 32u8, 65u8, 108u8, 108u8, 111u8, 119u8, 101u8, 100u8])
    } else if code == 406 {
        // Not Acceptable
        Option::Some(seq![78u8, 111u8, 116u8, 32u8, 65u8, 99u8, 99u8, 101u8, 112u8, 116u8, 97u8, 98u8, 108u8, 101u8])
    } else if code == 407 {
        // Proxy Authentication Required
        Option::Some(seq![80u8, 114u8, 111u8, 120u8, 121u8, 32u8, 65u8, 117u8, 116u8, 104u8, 101u8, 110u8, 116u8, 105u8, 99u8, 97u8, 116u8, 105u8, 111u8, 110u8, 32u8, 82u8, 101u8, 113u8, 117u8, 105u8, 114u8, 101u8, 100u8])
    } else if code == 408 {
        // Request Timeout
        Option::Some(seq![82u8, 101u8, 113u8, 117u8, 101u8, 115u8, 116u8, 32u8, 84u8, 105u8, 109u8, 101u8, 111u8, 117u8, 116u8])
    } else if code == 409 {
        // Conflict
        Option::Some(seq![67u8, 111u8, 110u8, 102u8, 108u8, 105u8, 99u8, 116u8])
    } else if code == 410 {
        // Gone
        Option::Some(seq![71u8, 111u8, 110u8, 101u8])
    } else if code == 411 {
        // Length Required
        Option::Some(seq![76u8, 101u8, 110u8, 103u8, 116u8, 104u8, 32u8, 82u8, 101u8, 113u8, 117u8, 105u8, 114u8, 101u8, 100u8])
    } else if code == 412 {
        // Precondition Failed
        Option::Some(seq![80u8, 114u8, 101u8, 99u8, 111u8, 110u8, 100u8, 105u8, 116u8, 105u8, 111u8, 110u8, 32u8, 70u8, 97u8, 105u8, 108u8, 101u8, 100u8])
    } else if code == 413 {
        // Payload Too Large
        Option::Some(seq![80u8, 97u8, 121u8, 108u8, 111u8, 97u8, 100u8, 32u8, 84u8, 111u8, 111u8, 32u8, 76u8, 97u8, 114u8, 103u8, 101u8])
    } else if code == 414 {
        // URI Too Long
        Option::Some(seq![85u8, 82u8, 73u8, 32u8, 84u8, 111u8, 111u8, 32u8, 76u8, 111u8, 110u8, 103u8])
    } else if code == 415 {
        // Unsupported Media Type
        Option::Some(seq![85u8, 110u8, 115u8, 117u8, 112u8, 112u8, 111u8, 114u8, 116u8, 101u8, 100u8, 32u8, 77u8, 101u8, 100u8, 105u8, 97u8, 32u8, 84u8, 121u8, 112u8, 101u8])
    } else if code == 416 {
        // Range Not Satisfiable
        Option::Some(seq![82u8, 97u8, 110u8, 103u8, 101u8, 32u8, 78u8, 111u8, 116u8, 32u8, 83u8, 97u8, 116u8, 105u8, 115u8, 102u8, 105u8, 97u8, 98u8, 108u8, 101u8])
    } else if code == 417 {
        // Expectation Failed
        Option::Some(seq![69u8, 120u8, 112u8, 101u8, 99u8, 116u8, 97u8, 116u8, 105u8, 111u8, 110u8, 32u8, 70u8, 97u8, 105u8, 108u8, 101u8, 100u8])
    } else if code == 418 {
        // I'm a teapot
        Option::Some(seq![73u8, 39u8, 109u8, 32u8, 97u8, 32u8, 116u8, 101u8, 97u8, 112u8, 111u8, 116u8])
    } else if code == 421 {
        // Misdirected Request
        Option::Some(seq![77u8, 105u8, 115u8, 100u8, 105u8, 114u8, 101u8, 99u8, 116u8, 101u8, 100u8, 32u8, 82u8, 101u8, 113u8, 117u8, 101u8, 115u8, 116u8])
    } else if code == 422 {
        // Unprocessable Entity
        Option::Some(seq![85u8, 110u8, 112u8, 114u8, 111u8, 99u8, 101u8, 115u8, 115u8, 97u8, 98u8, 108u8, 101u8, 32u8, 69u8, 110u8, 116u8, 105u8, 116u8, 121u8])
    } else if code == 423 {
        // Locked
        Option::Some(seq![76u8, 111u8, 99u8, 107u8, 101u8, 100u8])
    } else if code == 424 {
        // Failed Dependency
        Option::Some(seq![70u8, 97u8, 105u8, 108u8, 101u8, 100u8, 32u8, 68u8, 101u8, 112u8, 101u8, 110u8, 100u8, 101u8, 110u8, 99u8, 121u8])
    } else if code == 426 {
        // Upgrade Required
        Option::Some(seq![85u8, 112u8, 103u8, 114u8, 97u8, 100u8, 101u8, 32u8, 82u8, 101u8, 113u8, 117u8, 105u8, 114u8, 101u8, 100u8])
    } else if code == 428 {
        // Precondition Required
        Option::Some(seq![80u8, 114u8, 101u8, 99u8, 111u8, 110u8, 100u8, 105u8, 116u8, 105u8, 111u8, 110u8, 32u8, 82u8, 101u8, 113u8, 117u8, 105u8, 114u8, 101u8, 100u8])
    } else if code == 429 {
        // Too Many Requests
        Option::Some(seq![84u8, 111u8, 111u8, 32u8, 77u8, 97u8, 110u8, 121u8, 32u8, 82u8, 101u8, 113u8, 117u8, 101u8, 115u8, 116u8, 115u8])
    } else if code == 431 {
        // Request Header Fields Too Large
        Option::Some(seq![82u8, 101u8, 113u8, 117u8, 101u8, 115u8, 116u8, 32u8, 72u8, 101u8, 97u8, 100u8, 101u8, 114u8, 32u8, 70u8, 105u8, 101u8, 108u8, 100u8, 115u8, 32u8, 84u8, 111u8, 111u8, 32u8, 76u8, 97u8, 114u8, 103u8, 101u8])
    } else if code == 451 {
        // Unavailable For Legal Reasons
        Option::Some(seq![85u8, 110u8, 97u8, 118u8, 97u8, 105u8, 108u8, 97u8, 98u8, 108u8, 101u8, 32u8, 70u8, 111u8, 114u8, 32u8, 76u8, 101u8, 103u8, 97u8, 108u8, 32u8, 82u8, 101u8, 97u8, 115u8, 111u8, 110u8, 115u8])
    } else if code == 500 {
        // Internal Server Error
        Option::Some(seq![73u8, 110u8, 116u8, 101u8, 114u8, 110u8, 97u8, 108u8, 32u8, 83u8, 101u8, 114u8, 118u8, 101u8, 114u8, 32u8, 69u8, 114u8, 114u8, 111u8, 114u8])
    } else if code == 501 {
        // Not Implemented
        Option::Some(seq![78u8, 111u8, 116u8, 32u8, 73u8, 109u8, 112u8, 108u8, 101u8, 109u8, 101u8, 110u8, 116u8, 101u8, 100u8])
    } else if code == 502 {
        // Bad Gateway
        Option::Some(seq![66u8, 97u8, 100u8, 32u8, 71u8, 97u8, 116u8, 101u8, 119u8, 97u8, 121u8])
    } else if code == 503 {
        // Service Unavailable
        Option::Some(seq![83u8, 101u8, 114u8, 118u8, 105u8, 99u8, 101u8, 32u8, 85u8, 110u8, 97u8, 118u8, 97u8, 105u8, 108u8, 97u8, 98u8, 108u8, 101u8])
    } else if code == 504 {
        // Gateway Timeout
        Option::Some(seq![71u8, 97u8, 116u8, 101u8, 119u8, 97u8, 121u8, 32u8, 84u8, 105u8, 109u8, 101u8, 111u8, 117u8, 116u8])
    } else if code == 505 {
        // HTTP Version Not Supported
        Option::Some(seq![72u8, 84u8, 84u8, 80u8, 32u8, 86u8, 101u8, 114u8, 115u8, 105u8, 111u8, 110u8, 32u8, 78u8, 111u8, 116u8, 32u8, 83u8, 117u8, 112u8, 112u8, 111u8, 114u8, 116u8, 101u8, 100u8])
    } else if code == 506 {
        // Variant Also Negotiates
        Option::Some(seq![86u8, 97u8, 114u8, 105u8, 97u8, 110u8, 116u8, 32u8, 65u8, 108u8, 115u8, 111u8, 32u8, 78u8, 101u8, 103u8, 111u8, 116u8, 105u8, 97u8, 116u8, 101u8, 115u8])
    } else if code == 507 {
        // Insufficient Storage
        Option::Some(seq![73u8, 110u8, 115u8, 117u8, 102u8, 102u8, 105u8, 99u8, 105u8, 101u8, 110u8, 116u8, 32u8, 83u8, 116u8, 111u8, 114u8, 97u8, 103u8, 101u8])
    } else if code == 508 {
        // Loop Detected
        Option::Some(seq![76u8, 111u8, 111u8, 112u8, 32u8, 68u8, 101u8, 116u8, 101u8, 99u8, 116u8, 101u8, 100u8])
    } else if code == 510 {
        // Not Extended
        Option::Some(seq![78u8, 111u8, 116u8, 32u8, 69u8, 120u8, 116u8, 101u8, 110u8, 100u8, 101u8, 100u8])
    } else if code == 511 {
        // Network Authentication Required
        Option::Some(seq![78u8, 101u8, 116u8, 119u8, 111u8, 114u8, 107u8, 32u8, 65u8, 117u8, 116u8, 104u8, 101u8, 110u8, 116u8, 105u8, 99u8, 97u8, 116u8, 105u8, 111u8, 110u8, 32u8, 82u8, 101u8, 113u8, 117u8, 105u8, 114u8, 101u8, 100u8])
    } else {
        Option::None
    }
}

/// Looks up the canonical reason phrase.
pub fn reason_phrase(code: u16) -> (r: Option<Vec<u8>>)
    ensures
        match r {
            Option::Some(v) => spec_reason(code as int) == Option::Some(v@),
            Option::None => spec_reason(code as int) is None,
        },
{
    match code {
        100 => {
            let a: [u8; 8] = [67, 111, 110, 116, 105, 110, 117, 101];
            let v = vstd::slice::slice_to_vec(a.as_slice());
            proof {
                assert(v@ =~= spec_reason(100)->Some_0);
            }
            Option::Some(v)
        },
        101 => {
            let a: [u8; 19] = [83, 119, 105, 116, 99, 104, 105, 110, 103, 32, 80, 114, 111, 116, 111, 99, 111, 108, 115];
            let v = vstd::slice::slice_to_vec(a.as_slice());
            proof {
                assert(v@ =~= spec_reason(101)->Some_0);
            }
            Option::Some(v)
        },
        102 => {
            let a: [u8; 10] = [80, 114, 111, 99, 101, 115, 115, 105, 110, 103];
            let v = vstd::slice::slice_to_vec(a.as_slice());
            proof {
                assert(v@ =~= spec_reason(102)->Some_0);
            }
            Option::Some(v)
        },
        200 => {
            let a: [u8; 2] = [79, 75];
            let v = vstd::slice::slice_to_vec(a.as_slice());
            proof {
                assert(v@ =~= spec_reason(200)->Some_0);
            }
            Option::Some(v)
        },
        201 => {
            let a: [u8; 7] = [67, 114, 101, 97, 116, 101, 100];
            let v = vstd::slice::slice_to_vec(a.as_slice());
            proof {
                assert(v@ =~= spec_reason(201)->Some_0);
            }
            Option::Some(v)
        },
        202 => {
            let a: [u8; 8] = [65, 99, 99, 101, 112, 116, 101, 100];
            let v = vstd::slice::slice_to_vec(a.as_slice());
            proof {
                assert(v@ =~= spec_reason(202)->Some_0);
            }
            Option::Some(v)
        },
        203 => {
            let a: [u8; 29] = [78, 111, 110, 45, 65, 117, 116, 104, 111, 114, 105, 116, 97, 116, 105, 118, 101, 32, 73, 110, 102, 111, 114, 109, 97, 116, 105, 111, 110];
            let v = vstd::slice::slice_to_vec(a.as_slice());
            proof {
                assert(v@ =~= spec_reason(203)->Some_0);
            }
            Option::Some(v)
        },
        204 => {
            let a: [u8; 10] = [78, 111, 32, 67, 111, 110, 116, 101, 110, 116];
            let v = vstd::slice::slice_to_vec(a.as_slice());
            proof {
                assert(v@ =~= spec_reason(204)->Some_0);
            }
            Option::Some(v)
        },
        205 => {
            let a: [u8; 13] = [82, 101, 115, 101, 116, 32, 67, 111, 110, 116, 101, 110, 116];
            let v = vstd::slice::slice_to_vec(a.as_slice());
            proof {
                assert(v@ =~= spec_reason(205)->Some_0);
            }
            Option::Some(v)
        },
        206 => {
            let a: [u8; 15] = [80, 97, 114, 116, 105, 97, 108, 32, 67, 111, 110, 116, 101, 110, 116];
            let v = vstd::slice::slice_to_vec(a.as_slice());
            proof {
                assert(v@ =~= spec_reason(206)->Some_0);
            }
            Option::Some(v)
        },
        207 => {
            let a: [u8; 12] = [77, 117, 108, 116, 105, 45, 83, 116, 97, 116, 117, 115];
            let v = vstd::slice::slice_to_vec(a.as_slice());
            proof {
                assert(v@ =~= spec_reason(207)->Some_0);
            }
            Option::Some(v)
        },
        208 => {
            let a: [u8; 16] = [65, 108, 114, 101, 97, 100, 121, 32, 82, 101, 112, 111, 114, 116, 101, 100];
            let v = vstd::slice::slice_to_vec(a.as_slice());
            proof {
                assert(v@ =~= spec_reason(208)->Some_0);
            }
            Option::Some(v)
        },
        226 => {
            let a: [u8; 7] = [73, 77, 32, 85, 115, 101, 100];
            let v = vstd::slice::slice_to_vec(a.as_slice());
            proof {
                assert(v@ =~= spec_reason(226)->Some_0);
            }
            Option::Some(v)
        },
        300 => {
            let a: [u8; 16] = [77, 117, 108, 116, 105, 112, 108, 101, 32, 67, 104, 111, 105, 99, 101, 115];
            let v = vstd::slice::slice_to_vec(a.as_slice());
            proof {
                assert(v@ =~= spec_reason(300)->Some_0);
            }
            Option::Some(v)
        },
        301 => {
            let a: [u8; 17] = [77, 111, 118, 101, 100, 32, 80, 101, 114, 109, 97, 110, 101, 110, 116, 108, 121];
            let v = vstd::slice::slice_to_vec(a.as_slice());
            proof {
                assert(v@ =~= spec_reason(301)->Some_0);
            }
            Option::Some(v)
        },
        302 => {
            let a: [u8; 5] = [70, 111, 117, 110, 100];
            let v = vstd::slice::slice_to_vec(a.as_slice());
            proof {
                assert(v@ =~= spec_reason(302)->Some_0);
            }
            Option::Some(v)
        },
        303 => {
            let a: [u8; 9] = [83, 101, 101, 32, 79, 116, 104, 101, 114];
            let v = vstd::slice::slice_to_vec(a.as_slice());
            proof {
                assert(v@ =~= spec_reason(303)->Some_0);
            }
            Option::Some(v)
        },
        304 => {
            let a: [u8; 12] = [78, 111, 116, 32, 77, 111, 100, 105, 102, 105, 101, 100];
            let v = vstd::slice::slice_to_vec(a.as_slice());
            proof {
                assert(v@ =~= spec_reason(304)->Some_0);
            }
            Option::Some(v)
        },
        305 => {
            let a: [u8; 9] = [85, 115, 101, 32, 80, 114, 111, 120, 121];
            let v = vstd::slice::slice_to_vec(a.as_slice());
            proof {
                assert(v@ =~= spec_reason(305)->Some_0);
            }
            Option::Some(v)
        },
        307 => {
            let a: [u8; 18] = [84, 101, 109, 112, 111, 114, 97, 114, 121, 32, 82, 101, 100, 105, 114, 101, 99, 116];
            let v = vstd::slice::slice_to_vec(a.as_slice());
            proof {
                assert(v@ =~= spec_reason(307)->Some_0);
            }
            Option::Some(v)
        },
        308 => {
            let a: [u8; 18] = [80, 101, 114, 109, 97, 110, 101, 110, 116, 32, 82, 101, 100, 105, 114, 101, 99, 116];
            let v = vstd::slice::slice_to_vec(a.as_slice());
            proof {
                assert(v@ =~= spec_reason(308)->Some_0);
            }
            Option::Some(v)
        },
        400 => {
            let a: [u8; 11] = [66, 97, 100, 32, 82, 101, 113, 117, 101, 115, 116];
            let v = vstd::slice::slice_to_vec(a.as_slice());
            proof {
                assert(v@ =~= spec_reason(400)->Some_0);
            }
            Option::Some(v)
        },
        401 => {
            let a: [u8; 12] = [85, 110, 97, 117, 116, 104, 111, 114, 105, 122, 101, 100];
            let v = vstd::slice::slice_to_vec(a.as_slice());
            proof {
                assert(v@ =~= spec_reason(401)->Some_0);
            }
            Option::Some(v)
        },
        402 => {
            let a: [u8; 16] = [80, 97, 121, 109, 101, 110, 116, 32, 82, 101, 113, 117, 105, 114, 101, 100];
            let v = vstd::slice::slice_to_vec(a.as_slice());
            proof {
                assert(v@ =~= spec_reason(402)->Some_0);
            }
            Option::Some(v)
        },
        403 => {
            let a: [u8; 9] = [70, 111, 114, 98, 105, 100, 100, 101, 110];
            let v = vstd::slice::slice_to_vec(a.as_slice());
            proof {
                assert(v@ =~= spec_reason(403)->Some_0);
            }
            Option::Some(v)
        },
        404 => {
            let a: [u8; 9] = [78, 111, 116, 32, 70, 111, 117, 110, 100];
            let v = vstd::slice::slice_to_vec(a.as_slice());
            proof {
                assert(v@ =~= spec_reason(404)->Some_0);
            }
            Option::Some(v)
        },
        405 => {
            let a: [u8; 18] = [77, 101, 116, 104, 111, 100, 32, 78, 111, 116, 32, 65, 108, 108, 111, 119, 101, 100];
            let v = vstd::slice::slice_to_vec(a.as_slice());
            proof {
                assert(v@ =~= spec_reason(405)->Some_0);
            }
            Option::Some(v)
        },
        406 => {
            let a: [u8; 14] = [78, 111, 116, 32, 65, 99, 99, 101, 112, 116, 97, 98, 108, 101];
            let v = vstd::slice::slice_to_vec(a.as_slice());
            proof {
                assert(v@ =~= spec_reason(406)->Some_0);
            }
            Option::Some(v)
        },
        407 => {
            let a: [u8; 29] = [80, 114, 111, 120, 121, 32, 65, 117, 116, 104, 101, 110, 116, 105, 99, 97, 116, 105, 111, 110, 32, 82, 101, 113, 117, 105, 114, 101, 100];
            let v = vstd::slice::slice_to_vec(a.as_slice());
            proof {
                assert(v@ =~= spec_reason(407)->Some_0);
            }
            Option::Some(v)
        },
        408 => {
            let a: [u8; 15] = [82, 101, 113, 117, 101, 115, 116, 32, 84, 105, 109, 101, 111, 117, 116];
            let v = vstd::slice::slice_to_vec(a.as_slice());
            proof {
                assert(v@ =~= spec_reason(408)->Some_0);
            }
            Option::Some(v)
        },
        409 => {
            let a: [u8; 8] = [67, 111, 110, 102, 108, 105, 99, 116];
            let v = vstd::slice::slice_to_vec(a.as_slice());
            proof {
                assert(v@ =~= spec_reason(409)->Some_0);
            }
            Option::Some(v)
        },
        410 => {
            let a: [u8; 4] = [71, 111, 110, 101];
            let v = vstd::slice::slice_to_vec(a.as_slice());
            proof {
                assert(v@ =~= spec_reason(410)->Some_0);
            }
            Option::Some(v)
        },
        411 => {
            let a: [u8; 15] = [76, 101, 110, 103, 116, 104, 32, 82, 101, 113, 117, 105, 114, 101, 100];
            let v = vstd::slice::slice_to_vec(a.as_slice());
            proof {
                assert(v@ =~= spec_reason(411)->Some_0);
            }
            Option::Some(v)
        },
        412 => {
            let a: [u8; 19] = [80, 114, 101, 99, 111, 110, 100, 105, 116, 105, 111, 110, 32, 70, 97, 105, 108, 101, 100];
            let v = vstd::slice::slice_to_vec(a.as_slice());
            proof {
                assert(v@ =~= spec_reason(412)->Some_0);
            }
            Option::Some(v)
        },
        413 => {
            let a: [u8; 17] = [80, 97, 121, 108, 111, 97, 100, 32, 84, 111, 111, 32, 76, 97, 114, 103, 101];
            let v = vstd::slice::slice_to_vec(a.as_slice());
            proof {
                assert(v@ =~= spec_reason(413)->Some_0);
            }
            Option::Some(v)
        },
        414 => {
            let a: [u8; 12] = [85, 82, 73, 32, 84, 111, 111, 32, 76, 111, 110, 103];
            let v = vstd::slice::slice_to_vec(a.as_slice());
            proof {
                assert(v@ =~= spec_reason(414)->Some_0);
            }
            Option::Some(v)
        },
        415 => {
            let a: [u8; 22] = [85, 110, 115, 117, 112, 112, 111, 114, 116, 101, 100, 32, 77, 101, 100, 105, 97, 32, 84, 121, 112, 101];
            let v = vstd::slice::slice_to_vec(a.as_slice());
            proof {
                assert(v@ =~= spec_reason(415)->Some_0);
            }
            Option::Some(v)
        },
        416 => {
            let a: [u8; 21] = [82, 97, 110, 103, 101, 32, 78, 111, 116, 32, 83, 97, 116, 105, 115, 102, 105, 97, 98, 108, 101];
            let v = vstd::slice::slice_to_vec(a.as_slice());
            proof {
                assert(v@ =~= spec_reason(416)->Some_0);
            }
            Option::Some(v)
        },
        417 => {
            let a: [u8; 18] = [69, 120, 112, 101, 99, 116, 97, 116, 105, 111, 110, 32, 70, 97, 105, 108, 101, 100];
            let v = vstd::slice::slice_to_vec(a.as_slice());
            proof {
                assert(v@ =~= spec_reason(417)->Some_0);
            }
            Option::Some(v)
        },
        418 => {
            let a: [u8; 12] = [73, 39, 109, 32, 97, 32, 116, 101, 97, 112, 111, 116];
            let v = vstd::slice::slice_to_vec(a.as_slice());
            proof {
                assert(v@ =~= spec_reason(418)->Some_0);
            }
            Option::Some(v)
        },
        421 => {
            let a: [u8; 19] = [77, 105, 115, 100, 105, 114, 101, 99, 116, 101, 100, 32, 82, 101, 113, 117, 101, 115, 116];
            let v = vstd::slice::slice_to_vec(a.as_slice());
            proof {
                assert(v@ =~= spec_reason(421)->Some_0);
            }
            Option::Some(v)
        },
        422 => {
            let a: [u8; 20] = [85, 110, 112, 114, 111, 99, 101, 115, 115, 97, 98, 108, 101, 32, 69, 110, 116, 105, 116, 121];
            let v = vstd::slice::slice_to_vec(a.as_slice());
            proof {
                assert(v@ =~= spec_reason(422)->Some_0);
            }
            Option::Some(v)
        },
        423 => {
            let a: [u8; 6] = [76, 111, 99, 107, 101, 100];
            let v = vstd::slice::slice_to_vec(a.as_slice());
            proof {
                assert(v@ =~= spec_reason(423)->Some_0);
            }
            Option::Some(v)
        },
        424 => {
            let a: [u8; 17] = [70, 97, 105, 108, 101, 100, 32, 68, 101, 112, 101, 110, 100, 101, 110, 99, 121];
            let v = vstd::slice::slice_to_vec(a.as_slice());
            proof {
                assert(v@ =~= spec_reason(424)->Some_0);
            }
            Option::Some(v)
        },
        426 => {
            let a: [u8; 16] = [85, 112, 103, 114, 97, 100, 101, 32, 82, 101, 113, 117, 105, 114, 101, 100];
            let v = vstd::slice::slice_to_vec(a.as_slice());
            proof {
                assert(v@ =~= spec_reason(426)->Some_0);
            }
            Option::Some(v)
        },
        428 => {
            let a: [u8; 21] = [80, 114, 101, 99, 111, 110, 100, 105, 116, 105, 111, 110, 32, 82, 101, 113, 117, 105, 114, 101, 100];
            let v = vstd::slice::slice_to_vec(a.as_slice());
            proof {
                assert(v@ =~= spec_reason(428)->Some_0);
            }
            Option::Some(v)
        },
        429 => {
            let a: [u8; 17] = [84, 111, 111, 32, 77, 97, 110, 121, 32, 82, 101, 113, 117, 101, 115, 116, 115];
            let v = vstd::slice::slice_to_vec(a.as_slice());
            proof {
                assert(v@ =~= spec_reason(429)->Some_0);
            }
            Option::Some(v)
        },
        431 => {
            let a: [u8; 31] = [82, 101, 113, 117, 101, 115, 116, 32, 72, 101, 97, 100, 101, 114, 32, 70, 105, 101, 108, 100, 115, 32, 84, 111, 111, 32, 76, 97, 114, 103, 101];
            let v = vstd::slice::slice_to_vec(a.as_slice());
            proof {
                assert(v@ =~= spec_reason(431)->Some_0);
            }
            Option::Some(v)
        },
        451 => {
            let a: [u8; 29] = [85, 110, 97, 118, 97, 105, 108, 97, 98, 108, 101, 32, 70, 111, 114, 32, 76, 101, 103, 97, 108, 32, 82, 101, 97, 115, 111, 110, 115];
            let v = vstd::slice::slice_to_vec(a.as_slice());
            proof {
                assert(v@ =~= spec_reason(451)->Some_0);
            }
            Option::Some(v)
        },
        500 => {
            let a: [u8; 21] = [73, 110, 116, 101, 114, 110, 97, 108, 32, 83, 101, 114, 118, 101, 114, 32, 69, 114, 114, 111, 114];
            let v = vstd::slice::slice_to_vec(a.as_slice());
            proof {
                assert(v@ =~= spec_reason(500)->Some_0);
            }
            Option::Some(v)
        },
        501 => {
            let a: [u8; 15] = [78, 111, 116, 32, 73, 109, 112, 108, 101, 109, 101, 110, 116, 101, 100];
            let v = vstd::slice::slice_to_vec(a.as_slice());
            proof {
                assert(v@ =~= spec_reason(501)->Some_0);
            }
            Option::Some(v)
        },
        502 => {
            let a: [u8; 11] = [66, 97, 100, 32, 71, 97, 116, 101, 119, 97, 121];
            let v = vstd::slice::slice_to_vec(a.as_slice());
            proof {
                assert(v@ =~= spec_reason(502)->Some_0);
            }
            Option::Some(v)
        },
        503 => {
            let a: [u8; 19] = [83, 101, 114, 118, 105, 99, 101, 32, 85, 110, 97, 118, 97, 105, 108, 97, 98, 108, 101];
            let v = vstd::slice::slice_to_vec(a.as_slice());
            proof {
                assert(v@ =~= spec_reason(503)->Some_0);
            }
            Option::Some(v)
        },
        504 => {
            let a: [u8; 15] = [71, 97, 116, 101, 119, 97, 121, 32, 84, 105, 109, 101, 111, 117, 116];
            let v = vstd::slice::slice_to_vec(a.as_slice());
            proof {
                assert(v@ =~= spec_reason(504)->Some_0);
            }
            Option::Some(v)
        },
        505 => {
            let a: [u8; 26] = [72, 84, 84, 80, 32, 86, 101, 114, 115, 105, 111, 110, 32, 78, 111, 116, 32, 83, 117, 112, 112, 111, 114, 116, 101, 100];
            let v = vstd::slice::slice_to_vec(a.as_slice());
            proof {
                assert(v@ =~= spec_reason(505)->Some_0);
            }
            Option::Some(v)
        },
        506 => {
            let a: [u8; 23] = [86, 97, 114, 105, 97, 110, 116, 32, 65, 108, 115, 111, 32, 78, 101, 103, 111, 116, 105, 97, 116, 101, 115];
            let v = vstd::slice::slice_to_vec(a.as_slice());
            proof {
                assert(v@ =~= spec_reason(506)->Some_0);
            }
            Option::Some(v)
        },
        507 => {
            let a: [u8; 20] = [73, 110, 115, 117, 102, 102, 105, 99, 105, 101, 110, 116, 32, 83, 116, 111, 114, 97, 103, 101];
            let v = vstd::slice::slice_to_vec(a.as_slice());
            proof {
                assert(v@ =~= spec_reason(507)->Some_0);
            }
            Option::Some(v)
        },
        508 => {
            let a: [u8; 13] = [76, 111, 111, 112, 32, 68, 101, 116, 101, 99, 116, 101, 100];
            let v = vstd::slice::slice_to_vec(a.as_slice());
            proof {
                assert(v@ =~= spec_reason(508)->Some_0);
            }
            Option::Some(v)
        },
        510 => {
            let a: [u8; 12] = [78, 111, 116, 32, 69, 120, 116, 101, 110, 100, 101, 100];
            let v = vstd::slice::slice_to_vec(a.as_slice());
            proof {
                assert(v@ =~= spec_reason(510)->Some_0);
            }
            Option::Some(v)
        },
        511 => {
            let a: [u8; 31] = [78, 101, 116, 119, 111, 114, 107, 32, 65, 117, 116, 104, 101, 110, 116, 105, 99, 97, 116, 105, 111, 110, 32, 82, 101, 113, 117, 105, 114, 101, 100];
            let v = vstd::slice::slice_to_vec(a.as_slice());
            proof {
                assert(v@ =~= spec_reason(511)->Some_0);
            }
            Option::Some(v)
        },
        _ => Option::None,
    }
}

/// Every registered phrase is non-empty and free of CR and LF, so a phrase
/// never disturbs the line structure of a serialised head.
pub proof fn lemma_reason_clean(code: int)
    ensures
        spec_reason(code) matches Option::Some(p) ==> p.len() > 0 && forall|i: int|
            0 <= i < p.len() ==> p[i] != 13 && p[i] != 10,
{
}

} // verus!
