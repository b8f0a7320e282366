//! The user's settings and the choice of AirPlay receiver they lead to.

use vstd::prelude::*;

verus! {

/// The AirPlay receiver program to run.
#[derive(Clone, Copy, Debug, PartialEq, Eq)]
pub enum Provider {
    Shairport,
    Uxplay,
}

impl Default for Provider {
    fn default() -> (res: Provider)
        ensures
            res == Provider::Shairport,
    {
        Provider::Shairport
    }
}

/// The settings stored in `settings.json`.
#[derive(Clone, Debug)]
pub struct Settings {
    /// The name under which the receiver advertises itself.
    pub name: String,
    pub provider: Provider,
}

impl Default for Settings {
    fn default() -> (res: Settings)
        ensures
            res.name@ == "UiPlay"@,
            res.provider == Provider::Shairport,
    {
        Settings { name: "UiPlay".to_owned(), provider: Provider::Shairport }
    }
}

/// The receiver that is started, with the notice to log where it is not the
/// one the settings ask for.
pub struct ReceiverChoice {
    pub receiver: Provider,
    pub fallback_notice: Option<String>,
}

pub open spec fn no_receiver_message() -> Seq<char> {
    "Neither Shairport Sync nor UxPlay is installed."@
}

pub open spec fn uxplay_fallback_notice() -> Seq<char> {
    "Shairport Sync is unavailable; falling back to UxPlay."@
}

pub open spec fn shairport_fallback_notice() -> Seq<char> {
    "UxPlay is unavailable; falling back to Shairport Sync."@
}

/// The preferred receiver where it is installed, else the other one with a
/// notice, else an error.
pub fn choose_receiver(preferred: Provider, shairport_installed: bool, uxplay_installed: bool) -> (res: Result<ReceiverChoice, String>)
    ensures
        match res {
            Ok(c) => {
                &&& (c.receiver == Provider::Shairport ==> shairport_installed)
                &&& (c.receiver == Provider::Uxplay ==> uxplay_installed)
                &&& (c.receiver == preferred <==> c.fallback_notice is None)
                &&& (preferred == Provider::Shairport && shairport_installed ==> c.receiver == preferred)
                &&& (preferred == Provider::Uxplay && uxplay_installed ==> c.receiver == preferred)
                &&& (c.fallback_notice matches Some(n) ==> n@ == if c.receiver == Provider::Uxplay {
                    uxplay_fallback_notice()
                } else {
                    shairport_fallback_notice()
                })
            },
            Err(e) => !shairport_installed && !uxplay_installed && e@ == no_receiver_message(),
        },
{
    match preferred {
        Provider::Shairport => {
            if shairport_installed {
                Ok(ReceiverChoice { receiver: Provider::Shairport, fallback_notice: None })
            } else if uxplay_installed {
                Ok(
                    ReceiverChoice {
                        receiver: Provider::Uxplay,
                        fallback_notice: Some(
                            "Shairport Sync is unavailable; falling back to UxPlay.".to_owned(),
                        ),
                    },
                )
            } else {
                Err("Neither Shairport Sync nor UxPlay is installed.".to_owned())
            }
        },
        Provider::Uxplay => {
            if uxplay_installed {
                Ok(ReceiverChoice { receiver: Provider::Uxplay, fallback_notice: None })
            } else if shairport_installed {
                Ok(
                    ReceiverChoice {
                        receiver: Provider::Shairport,
                        fallback_notice: Some(
                            "UxPlay is unavailable; falling back to Shairport Sync.".to_owned(),
                        ),
                    },
                )
            } else {
                Err("Neither Shairport Sync nor UxPlay is installed.".to_owned())
            }
        },
    }
}

/// The name a receiver is announced by.
pub open spec fn spec_receiver_name(p: Provider) -> Seq<char> {
    match p {
        Provider::Shairport => "Shairport Sync"@,
        Provider::Uxplay => "UxPlay"@,
    }
}

/// `<receiver> receiver started.`
pub fn receiver_started_message(receiver: Provider) -> (res: String)
    ensures
        res@ == spec_receiver_name(receiver) + " receiver started."@,
{
    let mut out = crate::text::chars_of(match receiver {
        Provider::Shairport => "Shairport Sync",
        Provider::Uxplay => "UxPlay",
    });
    out.append(&mut crate::text::chars_of(" receiver started."));
    crate::text::string_of(out.as_slice())
}

} // verus!
