//! Values exchanged with the engine context: the files it loads at start,
//! the strings it hands back, and what it reports of output drivers.

use vstd::prelude::*;
use vstd::slice::slice_subrange;
use crate::status::Status;

verus! {

/// The text that `bytes` decode to as UTF-8, or `None` when they are not
/// valid UTF-8.
pub uninterp spec fn utf8_text(bytes: Seq<u8>) -> Option<Seq<char>>;

/// Relies on `std::str::from_utf8`: it succeeds exactly on valid UTF-8, and
/// the text it gives depends on the bytes alone.
#[verifier::external_body]
fn decode_utf8(bytes: &[u8]) -> (r: Option<String>)
    ensures
        r is None <==> utf8_text(bytes@) is None,
        r matches Some(s) ==> utf8_text(bytes@) == Some(s@),
{
    match std::str::from_utf8(bytes) {
        Ok(s) => Some(s.to_string()),
        Err(_) => None,
    }
}

/// The text in a buffer the engine filled with a null-terminated string of
/// `retrieved` bytes, the terminator included. Fails with `StringEncoding`
/// when that count does not fit the buffer or the bytes before the
/// terminator are not valid UTF-8.
pub fn text_from_buffer(buf: &Vec<u8>, retrieved: i32) -> (r: Result<String, Status>)
    ensures
        match r {
            Ok(s) => 1 <= retrieved <= buf@.len() && utf8_text(
                buf@.subrange(0, retrieved - 1),
            ) == Some(s@),
            Err(e) => e == Status::StringEncoding && (!(1 <= retrieved <= buf@.len()) || utf8_text(
                buf@.subrange(0, retrieved - 1),
            ) is None),
        },
{
    if retrieved < 1 || retrieved as usize > buf.len() {
        return Err(Status::StringEncoding);
    }
    let bytes = slice_subrange(buf.as_slice(), 0, (retrieved - 1) as usize);
    assert(bytes@ == buf@.subrange(0, retrieved - 1));
    match decode_utf8(bytes) {
        Some(s) => Ok(s),
        None => Err(Status::StringEncoding),
    }
}

/// The two files the engine context loads when it starts, for the master
/// bank `master_name`: `{master_name}.bank`, then `{master_name}.strings.bank`.
pub fn master_bank_files(master_name: &str) -> (r: (String, String))
    ensures
        r.0@ == master_name@ + ".bank"@,
        r.1@ == master_name@ + ".strings.bank"@,
{
    let mut master = String::from_str(master_name);
    master.append(".bank");
    let mut strings = String::from_str(master_name);
    strings.append(".strings.bank");
    (master, strings)
}

/// What the engine reports of one output driver.
#[derive(Clone, Debug)]
pub struct DriverInfo {
    name: String,
    guid: [u8; 16],
    sample_rate: i32,
    speaker_mode: i32,
    speaker_mode_channels: i32,
}

impl DriverInfo {
    pub fn new(
        name: String,
        guid: [u8; 16],
        sample_rate: i32,
        speaker_mode: i32,
        speaker_mode_channels: i32,
    ) -> (r: Self)
        ensures
            r.name_spec() == name@,
            r.guid_spec() == guid,
            r.sample_rate_spec() == sample_rate,
            r.speaker_mode_spec() == speaker_mode,
            r.speaker_mode_channels_spec() == speaker_mode_channels,
    {
        DriverInfo { name, guid, sample_rate, speaker_mode, speaker_mode_channels }
    }

    pub closed spec fn name_spec(&self) -> Seq<char> {
        self.name@
    }

    pub closed spec fn guid_spec(&self) -> [u8; 16] {
        self.guid
    }

    pub closed spec fn sample_rate_spec(&self) -> i32 {
        self.sample_rate
    }

    pub closed spec fn speaker_mode_spec(&self) -> i32 {
        self.speaker_mode
    }

    pub closed spec fn speaker_mode_channels_spec(&self) -> i32 {
        self.speaker_mode_channels
    }

    /// The driver's name.
    pub fn name(&self) -> (r: &str)
        ensures
            r@ == self.name_spec(),
    {
        self.name.as_str()
    }

    /// The driver's identifier, as the engine's sixteen bytes.
    pub fn guid(&self) -> (r: [u8; 16])
        ensures
            r == self.guid_spec(),
    {
        self.guid
    }

    /// Output rate, in samples per second.
    pub fn sample_rate(&self) -> (r: i32)
        ensures
            r == self.sample_rate_spec(),
    {
        self.sample_rate
    }

    /// The engine's code for the speaker layout.
    pub fn speaker_mode(&self) -> (r: i32)
        ensures
            r == self.speaker_mode_spec(),
    {
        self.speaker_mode
    }

    /// Number of channels of the speaker layout.
    pub fn speaker_mode_channels(&self) -> (r: i32)
        ensures
            r == self.speaker_mode_channels_spec(),
    {
        self.speaker_mode_channels
    }
}

} // verus!
