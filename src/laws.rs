//! Laws that relate several operations of the backend.
use vstd::prelude::*;
use crate::config::opt_view;
use crate::path::is_dir_path;
use crate::response::{parsed_date, parsed_length, stat_result, success_status, ObjectMode, Operation, StatHeaders, StatOutcome};
use crate::request::{range_value, valid_range};
use crate::text::{decimal, lemma_parse_decimal, parse_u64_spec};

verus! {

/// Deleting is idempotent: once an object is gone, the provider answers a
/// further delete with 404, and that answer is a success.
pub proof fn delete_of_missing_succeeds(status: u16)
    requires
        status == 404,
    ensures
        success_status(Operation::Delete, status),
{
}

/// A `stat` of an object that was written with a declared size reports a
/// file of that size: the `content-length` that the write sends, echoed back
/// by the provider with a 200 answer, parses to the size written, and a path
/// without a trailing `/` is a file (given a readable `last-modified`, if any).
pub proof fn stat_reports_written_size(path: Seq<char>, size: u64, headers: StatHeaders, r: StatOutcome)
    requires
        !is_dir_path(path),
        opt_view(headers.content_length) == Some(decimal(size as nat)),
        !(parsed_date(opt_view(headers.last_modified)) is Invalid),
        stat_result(
            path,
            200,
            parsed_length(opt_view(headers.content_length)),
            opt_view(headers.etag),
            parsed_date(opt_view(headers.last_modified)),
            r,
        ),
    ensures
        r matches StatOutcome::Found(m) && m.mode == ObjectMode::File && m.content_length == Some(size),
{
    lemma_parse_decimal(size);
}

/// A read of `size` bytes from `offset` asks for exactly those bytes: the
/// `Range` header names the first and the last byte, both read back as the
/// numbers they stand for, and the range they bound holds `size` bytes.
pub proof fn range_names_requested_bytes(offset: u64, size: u64)
    requires
        valid_range(Some(offset), Some(size)),
    ensures
        exists|last: u64|
            #![trigger decimal(last as nat)]
            range_value(Some(offset), Some(size)) == "bytes="@ + decimal(offset as nat) + "-"@
                + decimal(last as nat) && parse_u64_spec(decimal(offset as nat)) == Some(offset)
                && parse_u64_spec(decimal(last as nat)) == Some(last) && last - offset + 1 == size,
{
    let last = (offset + size - 1) as u64;
    lemma_parse_decimal(offset);
    lemma_parse_decimal(last);
    assert(range_value(Some(offset), Some(size)) == "bytes="@ + decimal(offset as nat) + "-"@
        + decimal(last as nat));
}

} // verus!
