//! The remote transmitter's side: which decoded command codes become which
//! wire tokens.
use vstd::prelude::*;
use crate::nec::{decode_nec, decode_spec, DecodeError, RemoteFrame};
use crate::protocol::{lock_token, open_token};

verus! {

/// Command code of the remote's open button.
pub const OPEN_CODE: u8 = 0x45;

/// Command code of the remote's lock button.
pub const LOCK_CODE: u8 = 0x46;

/// What a remote button asks the barrier for.
#[derive(Debug, Clone, Copy, PartialEq, Eq, Structural)]
pub enum LogicalAction {
    Open,
    ToggleLock,
    /// A button with no meaning for the barrier; never transmitted.
    Unknown(u8),
}

pub open spec fn action_spec(cmd: u8) -> LogicalAction {
    if cmd == OPEN_CODE {
        LogicalAction::Open
    } else if cmd == LOCK_CODE {
        LogicalAction::ToggleLock
    } else {
        LogicalAction::Unknown(cmd)
    }
}

/// The wire token an action is sent as, if any.
pub open spec fn token_spec(a: LogicalAction) -> Option<Seq<u8>> {
    match a {
        LogicalAction::Open => Some(open_token()),
        LogicalAction::ToggleLock => Some(lock_token()),
        LogicalAction::Unknown(_) => None,
    }
}

/// Maps a command code to the action it stands for.
pub fn map_command(cmd: u8) -> (r: LogicalAction)
    ensures
        r == action_spec(cmd),
{
    if cmd == OPEN_CODE {
        LogicalAction::Open
    } else if cmd == LOCK_CODE {
        LogicalAction::ToggleLock
    } else {
        LogicalAction::Unknown(cmd)
    }
}

/// The token to send for an action; `None` for an unknown one.
pub fn action_token(a: LogicalAction) -> (r: Option<Vec<u8>>)
    ensures
        match token_spec(a) {
            None => r.is_none(),
            Some(t) => r.is_some() && r.unwrap()@ == t,
        },
{
    match a {
        LogicalAction::Open => {
            let t: Vec<u8> = vec![49u8, 48u8, 48u8];
            assert(t@ =~= open_token());
            Some(t)
        },
        LogicalAction::ToggleLock => {
            let t: Vec<u8> = vec![57u8, 48u8];
            assert(t@ =~= lock_token());
            Some(t)
        },
        LogicalAction::Unknown(_) => None,
    }
}

/// What a captured pulse train leads the transmitter to send: the decoded
/// frame's action and its token, or the decode error.
pub fn token_for_pulses(pulses: &[u32]) -> (r: Result<(RemoteFrame, LogicalAction, Option<Vec<u8>>), DecodeError>)
    ensures
        match decode_spec(pulses@) {
            Err(e) => r == Err::<(RemoteFrame, LogicalAction, Option<Vec<u8>>), DecodeError>(e),
            Ok(f) => r.is_ok() && ({
                let (g, a, t) = r.unwrap();
                &&& g == f
                &&& a == action_spec(f.command)
                &&& match token_spec(a) {
                    None => t.is_none(),
                    Some(tok) => t.is_some() && t.unwrap()@ == tok,
                }
            }),
        },
{
    match decode_nec(pulses) {
        Err(e) => Err(e),
        Ok(f) => {
            let a = map_command(f.command);
            let t = action_token(a);
            Ok((f, a, t))
        },
    }
}

} // verus!
