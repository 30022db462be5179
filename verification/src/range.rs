//! The byte-range engine: parse an HTTP `Range` request header against a
//! known content length into a validated end-exclusive sub-range, and build
//! the response headers for partial content. Pure, no I/O; malformed input
//! yields no range (the caller then serves the full content).

use crate::strutil::{
    dec_str, parse_u64, parse_u64_spec, split_char, split_str, starts_with, starts_with_spec, trim,
    trim_spec, u64_to_string,
};
use core::ops::Range;
use vstd::prelude::*;

verus! {

/// What parsing a `Range: bytes=...` header yields, as start/end pairs:
/// `a-b` is an inclusive pair clamped to the file, `a-` runs to the end of
/// the file, and `-n` takes the last `n` bytes, where a suffix of zero or
/// at least the whole file is normalized to the full file. A header that
/// cannot produce `start < end <= file_size` (apart from that suffix
/// normalization) yields `None`.
pub open spec fn parse_range_spec(header: Seq<char>, file_size: u64) -> Option<(u64, u64)> {
    let t = trim_spec(header);
    if !starts_with_spec(t, "bytes="@) {
        None
    } else {
        let parts = split_char(t.skip(6), '-');
        if parts.len() != 2 {
            None
        } else if parts[0].len() == 0 {
            match parse_u64_spec(parts[1]) {
                Some(suffix) => if suffix == 0 || suffix >= file_size {
                    Some((0u64, file_size))
                } else {
                    Some(((file_size - suffix) as u64, file_size))
                },
                None => None,
            }
        } else {
            match parse_u64_spec(parts[0]) {
                Some(start) => {
                    let end_opt = if parts[1].len() == 0 {
                        Some(file_size)
                    } else {
                        match parse_u64_spec(parts[1]) {
                            Some(e) => if e >= file_size {
                                Some(file_size)
                            } else {
                                Some((e + 1) as u64)
                            },
                            None => None,
                        }
                    };
                    match end_opt {
                        Some(end) => if start >= file_size || start >= end {
                            None
                        } else {
                            Some((start, end))
                        },
                        None => None,
                    }
                },
                None => None,
            }
        }
    }
}

/// Every produced range lies inside a non-empty file: `start < end <=
/// file_size`. (A suffix request against an empty file is the one input
/// normalized to the degenerate full range `[0, 0)`.)
pub proof fn lemma_parse_range_valid(header: Seq<char>, file_size: u64)
    requires
        file_size > 0,
    ensures
        parse_range_spec(header, file_size) matches Some(r) ==> r.0 < r.1 <= file_size,
{
}

/// Parse an HTTP `Range` header, e.g. `bytes=0-1023` or `bytes=1024-`,
/// against the size of the content it addresses.
pub fn parse_range_header(range_header: &str, file_size: u64) -> (r: Option<Range<u64>>)
    ensures
        r matches Some(g) ==> parse_range_spec(range_header@, file_size) == Some(
            (g.start, g.end),
        ),
        r is None ==> parse_range_spec(range_header@, file_size) is None,
{
    let t = trim(range_header);

    // Only a bytes range is supported
    if !starts_with(t, "bytes=") {
        return None;
    }
    let n = t.unicode_len();
    proof {
        reveal_strlit("bytes=");
        assert(n >= 6);
    }
    let range_spec = t.substring_char(6, n);
    proof {
        assert(range_spec@ =~= t@.skip(6));
    }
    let parts = split_str(range_spec, '-');
    if parts.len() != 2 {
        proof {
            assert(parts.deep_view().len() == parts@.len());
        }
        return None;
    }
    proof {
        assert(parts.deep_view().len() == parts@.len());
        assert(parts.deep_view()[0] == parts@[0]@);
        assert(parts.deep_view()[1] == parts@[1]@);
    }

    if parts[0].as_str().is_empty() {
        // Suffix range: "-500" means the last 500 bytes
        match parse_u64(parts[1].as_str()) {
            Some(suffix) => {
                if suffix == 0 || suffix >= file_size {
                    return Some(Range { start: 0, end: file_size });
                }
                return Some(Range { start: file_size - suffix, end: file_size });
            },
            None => {
                return None;
            },
        }
    }

    let start = match parse_u64(parts[0].as_str()) {
        Some(v) => v,
        None => {
            return None;
        },
    };

    let end = if parts[1].as_str().is_empty() {
        // Open-ended range: "1024-" means from 1024 to the end
        file_size
    } else {
        // Explicit inclusive end: "0-1023" means bytes 0 through 1023, so one
        // past it, clamped to the file size
        let end_inclusive = match parse_u64(parts[1].as_str()) {
            Some(v) => v,
            None => {
                return None;
            },
        };
        if end_inclusive >= file_size {
            file_size
        } else {
            end_inclusive + 1
        }
    };

    // Validate the range
    if start >= file_size || start >= end {
        return None;
    }

    Some(Range { start, end })
}

/// The exact text of a `Content-Range` header: `bytes {start}-{end-1}/{total}`.
/// The end is written inclusively, per HTTP convention, although the range
/// itself is end-exclusive.
pub open spec fn content_range_spec(start: u64, end: u64, total: u64) -> Seq<char>
    recommends
        end > 0,
{
    "bytes "@ + dec_str(start as nat) + seq!['-'] + dec_str((end - 1) as nat) + seq!['/'] + dec_str(
        total as nat,
    )
}

/// Build the status and headers for a partial-content response: 206 with
/// `Content-Type`, `Content-Length` (the length of the range, not of the
/// file), `Content-Range` and `Accept-Ranges`.
pub fn create_range_headers(range: &Range<u64>, file_size: u64, content_type: &str) -> (r: (
    u16,
    Vec<(String, String)>,
))
    requires
        range.start < range.end <= file_size,
    ensures
        r.0 == 206,
        r.1@.len() == 4,
        r.1@[0].0@ == "Content-Type"@ && r.1@[0].1@ == content_type@,
        r.1@[1].0@ == "Content-Length"@ && r.1@[1].1@ == dec_str(
            (range.end - range.start) as nat,
        ),
        r.1@[2].0@ == "Content-Range"@ && r.1@[2].1@ == content_range_spec(
            range.start,
            range.end,
            file_size,
        ),
        r.1@[3].0@ == "Accept-Ranges"@ && r.1@[3].1@ == "bytes"@,
{
    let mut headers: Vec<(String, String)> = Vec::new();

    headers.push(("Content-Type".to_owned(), content_type.to_owned()));

    // Content-Length is the length of the range, not the total file size
    let content_length = range.end - range.start;
    headers.push(("Content-Length".to_owned(), u64_to_string(content_length)));

    // Content-Range: bytes start-end/total, end written inclusively
    let mut content_range = "bytes ".to_owned();
    content_range.append(u64_to_string(range.start).as_str());
    content_range.append("-");
    content_range.append(u64_to_string(range.end - 1).as_str());
    content_range.append("/");
    content_range.append(u64_to_string(file_size).as_str());
    proof {
        reveal_strlit("-");
        reveal_strlit("/");
        assert("-"@ =~= seq!['-']);
        assert("/"@ =~= seq!['/']);
    }
    headers.push(("Content-Range".to_owned(), content_range));

    headers.push(("Accept-Ranges".to_owned(), "bytes".to_owned()));

    (206, headers)
}

} // verus!
