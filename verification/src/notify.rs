//! Desktop notifications via notify-send.

use crate::text;
use vstd::prelude::*;

verus! {

/// The title of the daemon's notifications.
pub const TITLE: &'static str = "Voice daemon";

/// The arguments with which `notify-send` shows an error: critical, for five
/// seconds.
pub fn error<'a>(title: &'a str, message: &'a str) -> (res: Vec<&'a str>)
    ensures
        text::str_views(res@) == seq![
            title@,
            message@,
            "--urgency=critical"@,
            "--expire-time=5000"@,
            "--app-name=voice-daemon"@,
            "--icon=dialog-error"@,
        ],
{
    let res: Vec<&'a str> = vec![
        title,
        message,
        "--urgency=critical",
        "--expire-time=5000",
        "--app-name=voice-daemon",
        "--icon=dialog-error",
    ];
    assert(text::str_views(res@) == seq![
        title@,
        message@,
        "--urgency=critical"@,
        "--expire-time=5000"@,
        "--app-name=voice-daemon"@,
        "--icon=dialog-error"@,
    ]);
    res
}

/// The arguments with which `notify-send` shows some information, for three
/// seconds.
pub fn info<'a>(title: &'a str, message: &'a str) -> (res: Vec<&'a str>)
    ensures
        text::str_views(res@) == seq![
            title@,
            message@,
            "--expire-time=3000"@,
            "--app-name=voice-daemon"@,
            "--icon=dialog-information"@,
        ],
{
    let res: Vec<&'a str> = vec![
        title,
        message,
        "--expire-time=3000",
        "--app-name=voice-daemon",
        "--icon=dialog-information",
    ];
    assert(text::str_views(res@) == seq![
        title@,
        message@,
        "--expire-time=3000"@,
        "--app-name=voice-daemon"@,
        "--icon=dialog-information"@,
    ]);
    res
}

} // verus!
