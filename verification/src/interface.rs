//! Instruction codes, errors, commands and replies.

use vstd::prelude::*;
use crate::engine::{Endian, Prompt, MPrompt, prompts_view, Schema, Width, schema_wf};

verus! {

/// The instructions the device understands.
#[derive(Clone, Copy, Debug)]
pub enum Ins {
    GetVersion,
    GetPubkey,
    Sign,
    GetVersionStr,
    Exit,
}

/// The instruction, if any, of a code byte.
pub open spec fn ins_of(code: u8) -> Option<Ins> {
    if code == 0x00 {
        Option::Some(Ins::GetVersion)
    } else if code == 0x02 {
        Option::Some(Ins::GetPubkey)
    } else if code == 0x03 {
        Option::Some(Ins::Sign)
    } else if code == 0xfe {
        Option::Some(Ins::GetVersionStr)
    } else if code == 0xff {
        Option::Some(Ins::Exit)
    } else {
        Option::None
    }
}

impl Ins {
    /// Decode an instruction byte; any other value is unknown.
    pub fn try_from(ins: u8) -> (r: Result<Ins, ()>)
        ensures
            match r {
                Result::Ok(i) => ins_of(ins) == Option::Some(i),
                Result::Err(_) => ins_of(ins) is None,
            },
    {
        match ins {
            0x00 => Ok(Ins::GetVersion),
            0x02 => Ok(Ins::GetPubkey),
            0x03 => Ok(Ins::Sign),
            0xfe => Ok(Ins::GetVersionStr),
            0xff => Ok(Ins::Exit),
            _ => Err(()),
        }
    }
}

/// Everything that can go wrong while handling a command.
#[derive(Clone, Copy, Debug, PartialEq, Eq, Structural)]
pub enum AppError {
    /// An empty command where data was expected.
    TransportEmpty,
    /// A record or chunk that does not fit the wire format.
    Malformed,
    /// The checksum is not in the allow-list, or the allow-list's meta-hash
    /// is not the trusted one.
    UntrustedTemplate,
    /// The user declined at a confirmation prompt.
    UserRejected,
    /// An instruction byte the device does not know.
    UnknownInstruction,
}

/// The status word reported for an error.
pub open spec fn spec_status_word(e: AppError) -> u16 {
    match e {
        AppError::TransportEmpty => 0x6982,
        _ => 0x6d00,
    }
}

/// The status word reported for an error: `NothingReceived` for an empty
/// command, the catch-all `Unknown` otherwise.
pub fn status_word(e: AppError) -> (w: u16)
    ensures
        w == spec_status_word(e),
{
    match e {
        AppError::TransportEmpty => 0x6982,
        _ => 0x6d00,
    }
}

/// The schema of a key-derivation path: one length byte, then up to ten
/// little-endian 32-bit child numbers.
pub open spec fn bip32_path_schema_m() -> Schema {
    Schema::DArray(
        Width::W1,
        Endian::Little,
        Box::new(Schema::UInt(Width::W4, Endian::Little)),
        10,
    )
}

/// Build the key-derivation-path schema.
pub fn bip32_path_schema() -> (s: Schema)
    ensures
        s == bip32_path_schema_m(),
        schema_wf(s),
{
    let s = Schema::DArray(
        Width::W1,
        Endian::Little,
        Box::new(Schema::UInt(Width::W4, Endian::Little)),
        10,
    );
    proof {
        assert(schema_wf(Schema::UInt(Width::W4, Endian::Little)));
    }
    s
}

/// One command from the host: an instruction byte, the protocol flag, and
/// the pre-split parameter set.
pub struct Command {
    pub ins: u8,
    pub p1: u8,
    pub params: Vec<Vec<u8>>,
}

/// Model of a command.
pub struct MCmd {
    pub ins: u8,
    pub p1: u8,
    pub params: Seq<Seq<u8>>,
}

impl View for Command {
    type V = MCmd;

    open spec fn view(&self) -> MCmd {
        MCmd { ins: self.ins, p1: self.p1, params: self.params@.map_values(|p: Vec<u8>| p@) }
    }
}

/// The device's answer to one event.
pub enum Reply {
    /// The instruction completed: zero or more accumulating writes followed
    /// by exactly one terminal write.
    Replied { writes: Vec<Vec<u8>> },
    /// The command was consumed; the host is expected to send the next
    /// chunk.
    MoreNeeded,
    /// The shell must show these prompts and hand back the user's decision.
    NeedsConfirmation { prompts: Vec<Prompt> },
    /// The shell must exit the application.
    AppExit,
    /// The command failed; the computation slot was reset.
    Failed { err: AppError },
}

/// Model of a reply.
pub enum MReply {
    Replied(Seq<Seq<u8>>),
    MoreNeeded,
    NeedsConfirmation(Seq<MPrompt>),
    AppExit,
    Failed(AppError),
}

impl View for Reply {
    type V = MReply;

    open spec fn view(&self) -> MReply {
        match self {
            Reply::Replied { writes } => MReply::Replied(writes@.map_values(|w: Vec<u8>| w@)),
            Reply::MoreNeeded => MReply::MoreNeeded,
            Reply::NeedsConfirmation { prompts } => MReply::NeedsConfirmation(
                prompts_view(prompts@),
            ),
            Reply::AppExit => MReply::AppExit,
            Reply::Failed { err } => MReply::Failed(*err),
        }
    }
}

} // verus!
