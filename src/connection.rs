//! Which socket to connect to: the decisions of connection discovery.
//!
//! Discovery tries, in order, a descriptor inherited through the environment,
//! the socket named by the display variable in the runtime directory, then the
//! default socket name there. The caller reads the environment, performs each
//! action that discovery asks for, and reports how it went.

use vstd::prelude::*;

verus! {

/// Name of the socket tried in the runtime directory when no display name is set.
pub const DEFAULT_DISPLAY: &'static str = "wayland-0";

/// Value of the decimal digits `d`, most significant first.
pub open spec fn decimal_value(d: Seq<char>) -> int
    decreases d.len(),
{
    if d.len() == 0 {
        0
    } else {
        decimal_value(d.drop_last()) * 10 + (d.last() as int - '0' as int)
    }
}

/// Whether every character of `d` is an ASCII digit.
pub open spec fn all_digits(d: Seq<char>) -> bool {
    forall|i: int| 0 <= i < d.len() ==> '0' <= #[trigger] d[i] <= '9'
}

/// The integer that `text` spells: an optional `+` or `-`, then one or more
/// ASCII digits and nothing else. No value when it spells none, or when the
/// value does not fit 32 bits.
pub open spec fn parsed_i32(text: Seq<char>) -> Option<i32> {
    let signed = text.len() > 0 && (text[0] == '-' || text[0] == '+');
    let digits = if signed {
        text.drop_first()
    } else {
        text
    };
    let magnitude = decimal_value(digits);
    let value = if text.len() > 0 && text[0] == '-' {
        -magnitude
    } else {
        magnitude
    };
    if digits.len() > 0 && all_digits(digits) && i32::MIN <= value <= i32::MAX {
        Some(value as i32)
    } else {
        None
    }
}

/// Relies on `str::parse::<i32>` (std's `FromStr for i32`), which accepts an
/// optional sign followed by decimal digits only, and fails on anything else
/// or on a value out of range.
#[verifier::external_body]
fn parse_descriptor(text: &str) -> (r: Option<i32>)
    ensures
        r == parsed_i32(text@),
{
    text.parse::<i32>().ok()
}

/// Why no connection was made.
#[derive(Clone, Copy, Debug, PartialEq, Eq, Structural)]
pub enum ConnError {
    /// The inherited descriptor's text is not a number, or its flags cannot be set.
    InvalidEnv,
    /// The inherited descriptor is not open.
    InvalidFD,
    /// Nothing tells where the socket is.
    NotFound,
    /// Connecting to the socket failed with this OS error code.
    IoError { errno: i32 },
}

/// What discovery asks the caller to do next.
#[derive(Clone, Copy, Debug, PartialEq, Eq, Structural)]
pub enum DiscoveryAction {
    /// Check that the inherited descriptor is open.
    CheckDescriptor(i32),
    /// Mark the inherited descriptor close-on-exec, then adopt it.
    MarkCloseOnExec(i32),
    /// Connect to the socket named by the display variable in the runtime directory.
    ConnectDisplay,
    /// Connect to the socket of the default name in the runtime directory.
    ConnectDefault,
    /// The last action made the connection.
    Ready,
    /// Discovery failed.
    Fail(ConnError),
}

/// How the last action went.
#[derive(Clone, Copy, Debug, PartialEq, Eq, Structural)]
pub enum DiscoveryEvent {
    Succeeded,
    /// It failed with this OS error code.
    FailedWith(i32),
}

/// Where discovery stands.
#[derive(Clone, Copy, Debug, PartialEq, Eq, Structural)]
pub enum Discovery {
    CheckingDescriptor(i32),
    MarkingDescriptor(i32),
    TryingDisplay,
    TryingDefault,
    Connected,
    Failed(ConnError),
}

/// First stage of discovery. `socket` is absent when no descriptor is
/// inherited, and holds the parsed descriptor text otherwise.
pub open spec fn spec_start(socket: Option<Option<i32>>, has_runtime_dir: bool, has_display: bool) -> Discovery {
    match socket {
        Some(Some(fd)) => Discovery::CheckingDescriptor(fd),
        Some(None) => Discovery::Failed(ConnError::InvalidEnv),
        None => if !has_runtime_dir {
            Discovery::Failed(ConnError::NotFound)
        } else if has_display {
            Discovery::TryingDisplay
        } else {
            Discovery::TryingDefault
        },
    }
}

/// Stage that follows `s` once its action went as `e` says.
pub open spec fn spec_next(s: Discovery, e: DiscoveryEvent) -> Discovery {
    match s {
        Discovery::CheckingDescriptor(fd) => match e {
            DiscoveryEvent::Succeeded => Discovery::MarkingDescriptor(fd),
            DiscoveryEvent::FailedWith(_) => Discovery::Failed(ConnError::InvalidFD),
        },
        Discovery::MarkingDescriptor(_) => match e {
            DiscoveryEvent::Succeeded => Discovery::Connected,
            DiscoveryEvent::FailedWith(_) => Discovery::Failed(ConnError::InvalidEnv),
        },
        Discovery::TryingDisplay => match e {
            DiscoveryEvent::Succeeded => Discovery::Connected,
            DiscoveryEvent::FailedWith(_) => Discovery::TryingDefault,
        },
        Discovery::TryingDefault => match e {
            DiscoveryEvent::Succeeded => Discovery::Connected,
            DiscoveryEvent::FailedWith(errno) => Discovery::Failed(ConnError::IoError { errno }),
        },
        Discovery::Connected => s,
        Discovery::Failed(_) => s,
    }
}

/// Stage reached from `s` through `events`, oldest first.
pub open spec fn spec_run(s: Discovery, events: Seq<DiscoveryEvent>) -> Discovery
    decreases events.len(),
{
    if events.len() == 0 {
        s
    } else {
        spec_run(spec_next(s, events[0]), events.drop_first())
    }
}

/// What the caller is to do at stage `s`.
pub open spec fn spec_action(s: Discovery) -> DiscoveryAction {
    match s {
        Discovery::CheckingDescriptor(fd) => DiscoveryAction::CheckDescriptor(fd),
        Discovery::MarkingDescriptor(fd) => DiscoveryAction::MarkCloseOnExec(fd),
        Discovery::TryingDisplay => DiscoveryAction::ConnectDisplay,
        Discovery::TryingDefault => DiscoveryAction::ConnectDefault,
        Discovery::Connected => DiscoveryAction::Ready,
        Discovery::Failed(e) => DiscoveryAction::Fail(e),
    }
}

/// Whether stage `s` connects to a path in the runtime directory.
pub open spec fn spec_tries_path(s: Discovery) -> bool {
    s is TryingDisplay || s is TryingDefault
}

impl Discovery {
    /// Starts discovery from what the environment holds: the inherited
    /// descriptor's text, if any, and whether the runtime directory and the
    /// display name are set.
    pub fn start(socket: Option<&str>, has_runtime_dir: bool, has_display: bool) -> (r: Discovery)
        ensures
            r == spec_start(
                match socket {
                    Some(text) => Some(parsed_i32(text@)),
                    None => None,
                },
                has_runtime_dir,
                has_display,
            ),
    {
        match socket {
            Some(text) => match parse_descriptor(text) {
                Some(fd) => Discovery::CheckingDescriptor(fd),
                None => Discovery::Failed(ConnError::InvalidEnv),
            },
            None => if !has_runtime_dir {
                Discovery::Failed(ConnError::NotFound)
            } else if has_display {
                Discovery::TryingDisplay
            } else {
                Discovery::TryingDefault
            },
        }
    }

    /// The stage that follows once the current action went as `event` says.
    pub fn next(self, event: DiscoveryEvent) -> (r: Discovery)
        ensures
            r == spec_next(self, event),
    {
        match self {
            Discovery::CheckingDescriptor(fd) => match event {
                DiscoveryEvent::Succeeded => Discovery::MarkingDescriptor(fd),
                DiscoveryEvent::FailedWith(_) => Discovery::Failed(ConnError::InvalidFD),
            },
            Discovery::MarkingDescriptor(_) => match event {
                DiscoveryEvent::Succeeded => Discovery::Connected,
                DiscoveryEvent::FailedWith(_) => Discovery::Failed(ConnError::InvalidEnv),
            },
            Discovery::TryingDisplay => match event {
                DiscoveryEvent::Succeeded => Discovery::Connected,
                DiscoveryEvent::FailedWith(_) => Discovery::TryingDefault,
            },
            Discovery::TryingDefault => match event {
                DiscoveryEvent::Succeeded => Discovery::Connected,
                DiscoveryEvent::FailedWith(errno) => Discovery::Failed(
                    ConnError::IoError { errno },
                ),
            },
            Discovery::Connected => self,
            Discovery::Failed(_) => self,
        }
    }

    /// What the caller is to do now.
    pub fn action(&self) -> (r: DiscoveryAction)
        ensures
            r == spec_action(*self),
    {
        match *self {
            Discovery::CheckingDescriptor(fd) => DiscoveryAction::CheckDescriptor(fd),
            Discovery::MarkingDescriptor(fd) => DiscoveryAction::MarkCloseOnExec(fd),
            Discovery::TryingDisplay => DiscoveryAction::ConnectDisplay,
            Discovery::TryingDefault => DiscoveryAction::ConnectDefault,
            Discovery::Connected => DiscoveryAction::Ready,
            Discovery::Failed(e) => DiscoveryAction::Fail(e),
        }
    }
}

/// Stages that an inherited descriptor leads to, none of which tries a path.
pub open spec fn spec_descriptor_stage(s: Discovery) -> bool {
    s is CheckingDescriptor || s is MarkingDescriptor || s is Connected || s is Failed
}

proof fn lemma_descriptor_stages_closed(s: Discovery, events: Seq<DiscoveryEvent>)
    requires
        spec_descriptor_stage(s),
    ensures
        spec_descriptor_stage(spec_run(s, events)),
    decreases events.len(),
{
    if events.len() > 0 {
        lemma_descriptor_stages_closed(spec_next(s, events[0]), events.drop_first());
    }
}

/// With a descriptor inherited through the environment, discovery uses it and
/// never tries a path in the runtime directory, whatever happens.
pub proof fn lemma_inherited_descriptor_never_tries_paths(
    parsed: Option<i32>,
    has_runtime_dir: bool,
    has_display: bool,
    events: Seq<DiscoveryEvent>,
)
    ensures
        !spec_tries_path(spec_run(spec_start(Some(parsed), has_runtime_dir, has_display), events)),
        parsed is Some ==> spec_action(spec_start(Some(parsed), has_runtime_dir, has_display))
            == DiscoveryAction::CheckDescriptor(parsed.unwrap()),
{
    lemma_descriptor_stages_closed(spec_start(Some(parsed), has_runtime_dir, has_display), events);
}

/// With the runtime directory and the display name set and no descriptor
/// inherited, discovery first connects to the display's socket; when that and
/// the default socket both fail it reports the OS error, not that nothing was found.
pub proof fn lemma_failed_paths_give_io_error(first: i32, second: i32)
    ensures
        spec_action(spec_start(None, true, true)) == DiscoveryAction::ConnectDisplay,
        spec_run(
            spec_start(None, true, true),
            seq![DiscoveryEvent::FailedWith(first), DiscoveryEvent::FailedWith(second)],
        ) == Discovery::Failed(ConnError::IoError { errno: second }),
{
    let events = seq![DiscoveryEvent::FailedWith(first), DiscoveryEvent::FailedWith(second)];
    assert(events.drop_first().drop_first() =~= Seq::<DiscoveryEvent>::empty());
    assert(events.drop_first()[0] == DiscoveryEvent::FailedWith(second));
    reveal_with_fuel(spec_run, 3);
}

/// With nothing set in the environment, discovery fails at once with `NotFound`.
pub proof fn lemma_empty_environment_not_found(has_display: bool)
    ensures
        spec_start(None, false, has_display) == Discovery::Failed(ConnError::NotFound),
        spec_action(spec_start(None, false, has_display)) == DiscoveryAction::Fail(
            ConnError::NotFound,
        ),
{
}

} // verus!
