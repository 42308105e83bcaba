use vstd::prelude::*;

verus! {

/// The key code packed into a system-defined media key event's data word.
pub open spec fn key_code(data: u64) -> u64 {
    (data & 0xffff0000u64) >> 16u64
}

/// The key state packed into a media key event's data word.
pub open spec fn key_state(data: u64) -> u64 {
    ((data & 0x0000ffffu64) & 0xff00u64) >> 8u64
}

/// The command that a media key event's data word asks for: play/pause,
/// next or previous on a key-down, nothing otherwise.
pub open spec fn media_command(data: u64) -> Option<Seq<char>> {
    if key_state(data) != 0xa {
        None
    } else {
        let code = key_code(data);
        if code == 16 {
            Some("playpause"@)
        } else if code == 17 || code == 19 {
            Some("next"@)
        } else if code == 18 || code == 20 {
            Some("previous"@)
        } else {
            None
        }
    }
}

/// Decodes a media key event's data word into the name of the command to
/// dispatch.
pub fn decode_media_key(data: u64) -> (r: Option<String>)
    ensures
        match r {
            Some(s) => media_command(data) == Some(s@),
            None => media_command(data).is_none(),
        },
{
    let code = (data & 0xffff0000u64) >> 16u64;
    let flags = data & 0x0000ffffu64;
    let state = (flags & 0xff00u64) >> 8u64;
    if state != 0xa {
        None
    } else if code == 16 {
        Some(String::from_str("playpause"))
    } else if code == 17 || code == 19 {
        Some(String::from_str("next"))
    } else if code == 18 || code == 20 {
        Some(String::from_str("previous"))
    } else {
        None
    }
}

} // verus!
