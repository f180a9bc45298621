//! Capability announcements.
//!
//! When the data channel opens, the desktop announces its version and
//! operating system to the controller as a small JSON object; the controller
//! sends a matching description of itself.

use vstd::prelude::*;
use vstd::utf8::encode_utf8;
use crate::envelope;

verus! {

/// What the desktop announces about itself.
#[allow(non_snake_case)]
#[derive(Debug, Clone)]
pub struct DesktopInfo {
    pub linkmouseVersion: String,
    pub osName: String,
}

/// What the controller announces about itself.
#[allow(non_snake_case)]
#[derive(Debug, Clone)]
pub struct BrowserInfo {
    pub linkmouseVersion: String,
    pub osName: String,
    pub browserName: String,
    pub engineName: String,
}

/// The bytes of `linkmouseVersion`.
pub open spec fn name_version() -> Seq<u8> {
    seq![
        0x6cu8, 0x69u8, 0x6eu8, 0x6bu8, 0x6du8, 0x6fu8, 0x75u8, 0x73u8, 0x65u8, 0x56u8, 0x65u8,
        0x72u8, 0x73u8, 0x69u8, 0x6fu8, 0x6eu8,
    ]
}

/// The bytes of `osName`.
pub open spec fn name_os() -> Seq<u8> {
    seq![0x6fu8, 0x73u8, 0x4eu8, 0x61u8, 0x6du8, 0x65u8]
}

/// The JSON object announcing a desktop.
pub open spec fn spec_desktop_info_json(version: Seq<char>, os: Seq<char>) -> Seq<u8> {
    envelope::spec_two_string_object(
        name_version(),
        encode_utf8(version),
        name_os(),
        encode_utf8(os),
    )
}

impl DesktopInfo {
    /// Serialize the announcement.
    pub fn to_json(&self) -> (r: Vec<u8>)
        ensures
            r@ == spec_desktop_info_json(self.linkmouseVersion@, self.osName@),
    {
        let a_version: [u8; 16] = [
            0x6c, 0x69, 0x6e, 0x6b, 0x6d, 0x6f, 0x75, 0x73, 0x65, 0x56, 0x65, 0x72, 0x73, 0x69,
            0x6f, 0x6e,
        ];
        let a_os: [u8; 6] = [0x6f, 0x73, 0x4e, 0x61, 0x6d, 0x65];
        proof {
            assert(a_version@ =~= name_version());
            assert(a_os@ =~= name_os());
        }
        envelope::two_string_object(
            a_version.as_slice(),
            self.linkmouseVersion.as_str().as_bytes(),
            a_os.as_slice(),
            self.osName.as_str().as_bytes(),
        )
    }
}

} // verus!
