//! The CB playlist grammar: ids after the last underscore, URLs resolved against the playlist prefix, the timestamp read from the playlist.

use vstd::prelude::*;

use crate::platform::Platform;
use crate::playlist::spec_ctx;
use crate::playlist::spec_parse;
use crate::playlist::ParseError;
use crate::playlist::ParseOutput;
use crate::playlist::ParseOutputModel;

verus! {

/// Parses one CB playlist snapshot; the grammar is
/// `playlist::spec_parse` under this platform's tag.
pub fn parse_playlist(
    text: &[u8],
    username: &[u8],
    playlist_url: &[u8],
    temp_dir: &[u8],
    now_date: &[u8],
    has_header: bool,
) -> (r: Result<ParseOutput, ParseError>)
    ensures
        ({
            let ctx = spec_ctx(
                Platform::CB,
                username@,
                playlist_url@,
                temp_dir@,
                now_date@,
                has_header,
            );
            match r {
                Result::Ok(out) => spec_parse(ctx, text@) == Ok::<ParseOutputModel, ParseError>(
                    out@,
                ),
                Result::Err(e) => spec_parse(ctx, text@) == Err::<ParseOutputModel, ParseError>(e),
            }
        }),
{
    crate::playlist::parse_playlist(
        &Platform::CB,
        text,
        username,
        playlist_url,
        temp_dir,
        now_date,
        has_header,
    )
}

} // verus!
