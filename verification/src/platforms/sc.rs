//! The SC playlist grammar, in its flat and VR variants: ids after the
//! last underscore, absolute segment URLs, a shared container header, and
//! the timestamp read from the playlist.

use vstd::prelude::*;

use crate::platform::Platform;
use crate::playlist::spec_ctx;
use crate::playlist::spec_parse;
use crate::playlist::ParseError;
use crate::playlist::ParseOutput;
use crate::playlist::ParseOutputModel;

verus! {

/// Parses one SC playlist snapshot; the grammar is
/// `playlist::spec_parse` under this platform's tag.
pub fn parse_playlist(
    text: &[u8],
    username: &[u8],
    playlist_url: &[u8],
    temp_dir: &[u8],
    now_date: &[u8],
    has_header: bool,
) -> (r: Result<ParseOutput, ParseError>)
    ensures
        ({
            let ctx = spec_ctx(
                Platform::SC,
                username@,
                playlist_url@,
                temp_dir@,
                now_date@,
                has_header,
            );
            match r {
                Result::Ok(out) => spec_parse(ctx, text@) == Ok::<ParseOutputModel, ParseError>(
                    out@,
                ),
                Result::Err(e) => spec_parse(ctx, text@) == Err::<ParseOutputModel, ParseError>(e),
            }
        }),
{
    sc_parse_playlist(false, text, username, playlist_url, temp_dir, now_date, has_header)
}

/// Parses one SC playlist snapshot in either variant: the flat site when
/// `vr` is false, the VR site when it is true.
pub fn sc_parse_playlist(
    vr: bool,
    text: &[u8],
    username: &[u8],
    playlist_url: &[u8],
    temp_dir: &[u8],
    now_date: &[u8],
    has_header: bool,
) -> (r: Result<ParseOutput, ParseError>)
    ensures
        ({
            let p = if vr {
                Platform::SCVR
            } else {
                Platform::SC
            };
            let ctx = spec_ctx(p, username@, playlist_url@, temp_dir@, now_date@, has_header);
            match r {
                Result::Ok(out) => spec_parse(ctx, text@) == Ok::<ParseOutputModel, ParseError>(
                    out@,
                ),
                Result::Err(e) => spec_parse(ctx, text@) == Err::<ParseOutputModel, ParseError>(e),
            }
        }),
{
    let platform = if vr {
        Platform::SCVR
    } else {
        Platform::SC
    };
    crate::playlist::parse_playlist(
        &platform,
        text,
        username,
        playlist_url,
        temp_dir,
        now_date,
        has_header,
    )
}

} // verus!
