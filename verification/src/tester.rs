//! The decisions of the notification-server tester: which tests run, and what a reported
//! close reason says of the server.
use vstd::prelude::*;

use crate::text::{chars_of, is_word, string_views};

verus! {

/// Which groups of tests run.
#[derive(Clone, Copy, Debug, PartialEq, Eq, Structural)]
pub struct ApplicationOptions {
    pub basic: bool,
    pub basic_notification: bool,
    pub expire_timeout: bool,
    pub multiple_notifications: bool,
}

impl Default for ApplicationOptions {
    fn default() -> (ret: ApplicationOptions)
        ensures
            ret == (ApplicationOptions {
                basic: true,
                basic_notification: false,
                expire_timeout: false,
                multiple_notifications: false,
            }),
    {
        ApplicationOptions {
            basic: true,
            basic_notification: false,
            expire_timeout: false,
            multiple_notifications: false,
        }
    }
}

impl ApplicationOptions {
    /// Runs every group of tests.
    pub fn enable_all(&mut self)
        ensures
            *final(self) == (ApplicationOptions {
                basic: true,
                basic_notification: true,
                expire_timeout: true,
                multiple_notifications: true,
            }),
    {
        self.basic = true;
        self.basic_notification = true;
        self.expire_timeout = true;
        self.multiple_notifications = true;
    }
}

/// The options after the argument `a`, where it is one that sets options.
pub open spec fn apply_option(o: ApplicationOptions, a: Seq<char>) -> Option<ApplicationOptions> {
    if a == "--all"@ {
        Some(
            ApplicationOptions {
                basic: true,
                basic_notification: true,
                expire_timeout: true,
                multiple_notifications: true,
            },
        )
    } else if a == "--basic"@ {
        Some(ApplicationOptions { basic: true, ..o })
    } else if a == "--no-basic"@ {
        Some(ApplicationOptions { basic: false, ..o })
    } else if a == "--basic-notification"@ {
        Some(ApplicationOptions { basic_notification: true, ..o })
    } else if a == "--expire-timeout"@ {
        Some(ApplicationOptions { expire_timeout: true, ..o })
    } else if a == "--multiple-notifications"@ {
        Some(ApplicationOptions { multiple_notifications: true, ..o })
    } else {
        None
    }
}

/// Reading the arguments `args` from position `i` on, with the options `o` read so far:
/// the options to run with (`None` where `--help` stops reading), and the arguments not
/// understood.
pub open spec fn read_tester_arguments(args: Seq<Seq<char>>, i: int, o: ApplicationOptions) -> (
    Option<ApplicationOptions>,
    Seq<Seq<char>>,
)
    decreases args.len() - i,
{
    if i >= args.len() || i < 0 {
        (Some(o), Seq::empty())
    } else if args[i] == "--help"@ {
        (None, Seq::empty())
    } else {
        match apply_option(o, args[i]) {
            Some(o2) => read_tester_arguments(args, i + 1, o2),
            None => {
                let rest = read_tester_arguments(args, i + 1, o);
                (rest.0, seq![args[i]] + rest.1)
            },
        }
    }
}

/// The tester's command line read: the options to run with (`None` to show the help text
/// instead), and the arguments not understood before reading stopped.
#[derive(Debug)]
pub struct TesterArguments {
    pub options: Option<ApplicationOptions>,
    pub unrecognized: Vec<String>,
}

fn option_after(o: ApplicationOptions, v: &[char]) -> (ret: Option<ApplicationOptions>)
    ensures
        ret == apply_option(o, v@),
{
    let mut o = o;
    if is_word(v, &chars_of("--all")) {
        o.enable_all();
        Some(o)
    } else if is_word(v, &chars_of("--basic")) {
        o.basic = true;
        Some(o)
    } else if is_word(v, &chars_of("--no-basic")) {
        o.basic = false;
        Some(o)
    } else if is_word(v, &chars_of("--basic-notification")) {
        o.basic_notification = true;
        Some(o)
    } else if is_word(v, &chars_of("--expire-timeout")) {
        o.expire_timeout = true;
        Some(o)
    } else if is_word(v, &chars_of("--multiple-notifications")) {
        o.multiple_notifications = true;
        Some(o)
    } else {
        None
    }
}

/// Reads the tester's command line (the arguments after the program name): `--all` runs
/// every group of tests, `--[no-]basic` and the names of the other groups switch them,
/// `--help` stops reading; any other argument is not understood.
pub fn parse_tester_arguments(args: &Vec<String>) -> (ret: TesterArguments)
    ensures
        (ret.options, string_views(ret.unrecognized@)) == read_tester_arguments(
            string_views(args@),
            0,
            ApplicationOptions {
                basic: true,
                basic_notification: false,
                expire_timeout: false,
                multiple_notifications: false,
            },
        ),
{
    let ghost sv = string_views(args@);
    let mut options = ApplicationOptions::default();
    let mut unrecognized: Vec<String> = Vec::new();
    for i in 0..args.len()
        invariant
            sv == string_views(args@),
            ({
                let rest = read_tester_arguments(sv, i as int, options);
                read_tester_arguments(
                    sv,
                    0,
                    ApplicationOptions {
                        basic: true,
                        basic_notification: false,
                        expire_timeout: false,
                        multiple_notifications: false,
                    },
                ) == (rest.0, string_views(unrecognized@) + rest.1)
            }),
    {
        let v = chars_of(args[i].as_str());
        assert(v@ == sv[i as int]);
        if is_word(&v, &chars_of("--help")) {
            proof {
                assert(string_views(unrecognized@) + Seq::<Seq<char>>::empty() =~= string_views(
                    unrecognized@,
                ));
            }
            return TesterArguments { options: None, unrecognized };
        }
        match option_after(options, &v) {
            Some(o) => {
                options = o;
            },
            None => {
                let ghost before = string_views(unrecognized@);
                let ghost rest = read_tester_arguments(sv, i + 1, options);
                unrecognized.push(args[i].clone());
                proof {
                    assert(string_views(unrecognized@) =~= before.push(sv[i as int]));
                    assert(before + (seq![sv[i as int]] + rest.1) =~= before.push(sv[i as int])
                        + rest.1);
                }
            },
        }
    }
    proof {
        assert(string_views(unrecognized@) + Seq::<Seq<char>>::empty() =~= string_views(
            unrecognized@,
        ));
    }
    TesterArguments { options: Some(options), unrecognized }
}

/// What a close reason reported by the server says.
#[derive(Clone, Copy, Debug, PartialEq, Eq, Structural)]
pub enum CloseReport {
    /// Reason 1: the notification expired.
    Expired,
    /// Reason 2: the user dismissed it.
    Dismissed,
    /// Reason 3: a request closed it.
    Requested,
    /// No close was reported in time (the waiting gave `u32::MAX`).
    NoSignal,
    /// Any other reason.
    Unknown(u32),
}

/// What a close reason says (see `CloseReport`).
pub fn classify_close(reason: u32) -> (ret: CloseReport)
    ensures
        ret == if reason == 1 {
            CloseReport::Expired
        } else if reason == 2 {
            CloseReport::Dismissed
        } else if reason == 3 {
            CloseReport::Requested
        } else if reason == u32::MAX {
            CloseReport::NoSignal
        } else {
            CloseReport::Unknown(reason)
        },
{
    if reason == 1 {
        CloseReport::Expired
    } else if reason == 2 {
        CloseReport::Dismissed
    } else if reason == 3 {
        CloseReport::Requested
    } else if reason == u32::MAX {
        CloseReport::NoSignal
    } else {
        CloseReport::Unknown(reason)
    }
}

/// What the basic notification test concludes of the server.
#[derive(Clone, Copy, Debug, PartialEq, Eq, Structural)]
pub enum BasicVerdict {
    /// It reports closes, but expired a notification that was never to expire.
    ExpiredNeverExpiring,
    /// It reports closes properly.
    Proper,
    /// It may not report closes.
    PossiblyUnreported,
}

/// What the basic notification test concludes from the close reason it waited for, or
/// `None` where waiting failed: a notification with a timeout of zero must not expire, and
/// must be reported when dismissed or closed on request.
pub fn basic_verdict(result: Option<u32>) -> (ret: BasicVerdict)
    ensures
        ret == match result {
            Some(1) => BasicVerdict::ExpiredNeverExpiring,
            Some(2) | Some(3) => BasicVerdict::Proper,
            _ => BasicVerdict::PossiblyUnreported,
        },
{
    match result {
        Some(1) => BasicVerdict::ExpiredNeverExpiring,
        Some(2) | Some(3) => BasicVerdict::Proper,
        _ => BasicVerdict::PossiblyUnreported,
    }
}

/// A close signal seen while waiting for the close of the notification `wanted`: the reason
/// recorded so far (`u32::MAX` for none) becomes the signal's where the signal is for that
/// notification; gives the reason recorded, and whether to keep listening.
pub fn on_closed_signal(signal_id: u32, signal_reason: u32, wanted: u32, recorded: u32) -> (ret: (u32, bool))
    ensures
        ret == if signal_id == wanted {
            (signal_reason, false)
        } else {
            (recorded, true)
        },
{
    if signal_id == wanted {
        (signal_reason, false)
    } else {
        (recorded, true)
    }
}

} // verus!
