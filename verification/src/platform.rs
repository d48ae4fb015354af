//! The closed set of supported platforms and their capabilities.
//!
//! A platform tag selects the playlist grammar, the referer sent with
//! requests, the container the pipe-based muxer is told to expect, and the
//! extension of the final output file.

use vstd::prelude::*;

verus! {

/// Tag of a supported live-camming platform.
#[derive(Clone, Copy, PartialEq, Eq, Structural, Debug)]
pub enum Platform {
    CB,
    SC,
    SCVR,
    MFC,
    BONGA,
    SODA,
}

/// The configuration key that names `p`.
pub open spec fn spec_key(p: Platform) -> Seq<u8> {
    match p {
        Platform::CB => seq!['C' as u8, 'B' as u8],
        Platform::MFC => seq!['M' as u8, 'F' as u8, 'C' as u8],
        Platform::SC => seq!['S' as u8, 'C' as u8],
        Platform::SCVR => seq!['S' as u8, 'C' as u8, 'V' as u8, 'R' as u8],
        Platform::BONGA => seq!['B' as u8, 'O' as u8, 'N' as u8, 'G' as u8, 'A' as u8],
        Platform::SODA => seq!['S' as u8, 'O' as u8, 'D' as u8, 'A' as u8],
    }
}

impl Platform {
    /// The platform named by a configuration key, `None` for an unknown key.
    pub fn new(key: &[u8]) -> (r: Option<Platform>)
        ensures
            r matches Some(p) ==> key@ == spec_key(p),
            r is None ==> forall|p: Platform| key@ != spec_key(p),
    {
        let n = key.len();
        if n == 2 && key[0] == 'C' as u8 && key[1] == 'B' as u8 {
            proof {
                assert(key@ =~= spec_key(Platform::CB));
            }
            Some(Platform::CB)
        } else if n == 3 && key[0] == 'M' as u8 && key[1] == 'F' as u8 && key[2] == 'C' as u8 {
            proof {
                assert(key@ =~= spec_key(Platform::MFC));
            }
            Some(Platform::MFC)
        } else if n == 2 && key[0] == 'S' as u8 && key[1] == 'C' as u8 {
            proof {
                assert(key@ =~= spec_key(Platform::SC));
            }
            Some(Platform::SC)
        } else if n == 4 && key[0] == 'S' as u8 && key[1] == 'C' as u8 && key[2] == 'V' as u8
            && key[3] == 'R' as u8 {
            proof {
                assert(key@ =~= spec_key(Platform::SCVR));
            }
            Some(Platform::SCVR)
        } else if n == 5 && key[0] == 'B' as u8 && key[1] == 'O' as u8 && key[2] == 'N' as u8
            && key[3] == 'G' as u8 && key[4] == 'A' as u8 {
            proof {
                assert(key@ =~= spec_key(Platform::BONGA));
            }
            Some(Platform::BONGA)
        } else if n == 4 && key[0] == 'S' as u8 && key[1] == 'O' as u8 && key[2] == 'D' as u8
            && key[3] == 'A' as u8 {
            proof {
                assert(key@ =~= spec_key(Platform::SODA));
            }
            Some(Platform::SODA)
        } else {
            proof {
                assert forall|p: Platform| key@ != spec_key(p) by {
                    if key@ == spec_key(p) {
                        assert(key@.len() == spec_key(p).len());
                        assert(forall|i: int| 0 <= i < key@.len() ==> key@[i] == spec_key(p)[i]);
                    }
                }
            }
            None
        }
    }

    /// The referer header value sent with every request to this platform.
    pub fn referer(&self) -> (r: &'static str)
        ensures
            self is CB ==> r@ == "https://chaturbate.com/"@,
            self is MFC ==> r@ == "https://www.myfreecams.com/"@,
            self is SC ==> r@ == "https://stripchat.com/"@,
            self is SCVR ==> r@ == "https://vr.stripchat.com/"@,
            self is BONGA ==> r@ == "https://bongacams.com/"@,
            self is SODA ==> r@ == "https://www.camsoda.com/"@,
    {
        match self {
            Platform::CB => "https://chaturbate.com/",
            Platform::MFC => "https://www.myfreecams.com/",
            Platform::SC => "https://stripchat.com/",
            Platform::SCVR => "https://vr.stripchat.com/",
            Platform::BONGA => "https://bongacams.com/",
            Platform::SODA => "https://www.camsoda.com/",
        }
    }

    /// The container type the pipe-based muxer is told to read on stdin.
    pub fn container_type(&self) -> (r: &'static str)
        ensures
            (self is CB || self is MFC || self is BONGA) ==> r@ == "mpegts"@,
            (self is SC || self is SCVR || self is SODA) ==> r@ == "mp4"@,
    {
        match self {
            Platform::CB => "mpegts",
            Platform::MFC => "mpegts",
            Platform::BONGA => "mpegts",
            Platform::SC => "mp4",
            Platform::SCVR => "mp4",
            Platform::SODA => "mp4",
        }
    }
}

/// The extension of the locally concatenated output file for `platform`.
pub fn platform_extension(platform: &Platform) -> (r: &'static str)
    ensures
        (platform is CB || platform is MFC || platform is BONGA) ==> r@ == "ts"@,
        (platform is SC || platform is SCVR || platform is SODA) ==> r@ == "mp4"@,
{
    match platform {
        Platform::CB => "ts",
        Platform::MFC => "ts",
        Platform::BONGA => "ts",
        Platform::SC => "mp4",
        Platform::SCVR => "mp4",
        Platform::SODA => "mp4",
    }
}

/// Looks a platform up by its configuration key.
pub fn load_key(key: &[u8]) -> (r: Option<Platform>)
    ensures
        r matches Some(p) ==> key@ == spec_key(p),
        r is None ==> forall|p: Platform| key@ != spec_key(p),
{
    Platform::new(key)
}

} // verus!
