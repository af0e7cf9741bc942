//! The diagnostic computation: a parser that exercises every combinator of
//! the engine and queues a prompt for each parsed group, shown to the user
//! once the whole input is consumed.

use vstd::prelude::*;
use crate::engine::{
    Action, Endian, MPrompt, MState, PState, Prompt, PromptTitle, Schema, Width, pstate_view,
    prompts_view, schema_wf, st_inv,
};

verus! {

/// A byte followed by a 32-byte array, reported under one prompt.
pub open spec fn bytes_params_schema() -> Schema {
    Schema::Act(
        Box::new(
            Schema::Pair(
                Box::new(Schema::UInt(Width::W1, Endian::Big)),
                Box::new(Schema::Bytes(32)),
            ),
        ),
        Action::Prompt(PromptTitle::GotBytes),
    )
}

/// A big-endian and a little-endian 16-bit integer.
pub open spec fn u16_params_schema() -> Schema {
    Schema::Act(
        Box::new(
            Schema::Pair(
                Box::new(Schema::UInt(Width::W2, Endian::Big)),
                Box::new(Schema::UInt(Width::W2, Endian::Little)),
            ),
        ),
        Action::Prompt(PromptTitle::GotInts),
    )
}

/// A big-endian and a little-endian 32-bit integer.
pub open spec fn u32_params_schema() -> Schema {
    Schema::Act(
        Box::new(
            Schema::Pair(
                Box::new(Schema::UInt(Width::W4, Endian::Big)),
                Box::new(Schema::UInt(Width::W4, Endian::Little)),
            ),
        ),
        Action::Prompt(PromptTitle::GotInts),
    )
}

/// A big-endian and a little-endian 64-bit integer.
pub open spec fn u64_params_schema() -> Schema {
    Schema::Act(
        Box::new(
            Schema::Pair(
                Box::new(Schema::UInt(Width::W8, Endian::Big)),
                Box::new(Schema::UInt(Width::W8, Endian::Little)),
            ),
        ),
        Action::Prompt(PromptTitle::GotInts),
    )
}

/// Two bounded sequences: up to 24 bytes, then up to 4 integer pairs.
pub open spec fn darray_params_schema() -> Schema {
    Schema::Act(
        Box::new(
            Schema::Pair(
                Box::new(
                    Schema::DArray(
                        Width::W1,
                        Endian::Big,
                        Box::new(Schema::UInt(Width::W1, Endian::Big)),
                        24,
                    ),
                ),
                Box::new(
                    Schema::DArray(Width::W1, Endian::Big, Box::new(u32_params_schema()), 4),
                ),
            ),
        ),
        Action::Prompt(PromptTitle::GotList),
    )
}

/// The diagnostic schema: every combinator of the engine in one parse, each
/// group reporting through a prompt.
pub open spec fn test_parsers_schema_m() -> Schema {
    Schema::Act(
        Box::new(
            Schema::Pair(
                Box::new(
                    Schema::Pair(
                        Box::new(bytes_params_schema()),
                        Box::new(u16_params_schema()),
                    ),
                ),
                Box::new(
                    Schema::Pair(
                        Box::new(u64_params_schema()),
                        Box::new(darray_params_schema()),
                    ),
                ),
            ),
        ),
        Action::Prompt(PromptTitle::ParseDone),
    )
}

fn bytes_params_parser() -> (s: Schema)
    ensures
        s == bytes_params_schema(),
{
    Schema::Act(
        Box::new(
            Schema::Pair(
                Box::new(Schema::UInt(Width::W1, Endian::Big)),
                Box::new(Schema::Bytes(32)),
            ),
        ),
        Action::Prompt(PromptTitle::GotBytes),
    )
}

fn u16_params_parser() -> (s: Schema)
    ensures
        s == u16_params_schema(),
{
    Schema::Act(
        Box::new(
            Schema::Pair(
                Box::new(Schema::UInt(Width::W2, Endian::Big)),
                Box::new(Schema::UInt(Width::W2, Endian::Little)),
            ),
        ),
        Action::Prompt(PromptTitle::GotInts),
    )
}

fn u32_params_parser() -> (s: Schema)
    ensures
        s == u32_params_schema(),
{
    Schema::Act(
        Box::new(
            Schema::Pair(
                Box::new(Schema::UInt(Width::W4, Endian::Big)),
                Box::new(Schema::UInt(Width::W4, Endian::Little)),
            ),
        ),
        Action::Prompt(PromptTitle::GotInts),
    )
}

fn u64_params_parser() -> (s: Schema)
    ensures
        s == u64_params_schema(),
{
    Schema::Act(
        Box::new(
            Schema::Pair(
                Box::new(Schema::UInt(Width::W8, Endian::Big)),
                Box::new(Schema::UInt(Width::W8, Endian::Little)),
            ),
        ),
        Action::Prompt(PromptTitle::GotInts),
    )
}

fn darray_params_parser() -> (s: Schema)
    ensures
        s == darray_params_schema(),
{
    Schema::Act(
        Box::new(
            Schema::Pair(
                Box::new(
                    Schema::DArray(
                        Width::W1,
                        Endian::Big,
                        Box::new(Schema::UInt(Width::W1, Endian::Big)),
                        24,
                    ),
                ),
                Box::new(
                    Schema::DArray(Width::W1, Endian::Big, Box::new(u32_params_parser()), 4),
                ),
            ),
        ),
        Action::Prompt(PromptTitle::GotList),
    )
}

/// Build the diagnostic parser's schema.
pub fn test_parsers_parser() -> (s: Schema)
    ensures
        s == test_parsers_schema_m(),
        schema_wf(s),
{
    let s = Schema::Act(
        Box::new(
            Schema::Pair(
                Box::new(
                    Schema::Pair(
                        Box::new(bytes_params_parser()),
                        Box::new(u16_params_parser()),
                    ),
                ),
                Box::new(
                    Schema::Pair(
                        Box::new(u64_params_parser()),
                        Box::new(darray_params_parser()),
                    ),
                ),
            ),
        ),
        Action::Prompt(PromptTitle::ParseDone),
    );
    proof {
        reveal_with_fuel(schema_wf, 12);
        assert(schema_wf(s));
    }
    s
}

/// The paused state of one diagnostic run.
pub enum DiagState {
    /// Still consuming input; prompts queued so far.
    Parsing { pst: PState, queue: Vec<Prompt> },
    /// Input consumed; the queued prompts await the user's decision.
    Awaiting { queue: Vec<Prompt> },
}

/// Model of a diagnostic run.
pub enum MDiag {
    Parsing { pst: MState, queue: Seq<MPrompt> },
    Awaiting { queue: Seq<MPrompt> },
}

impl View for DiagState {
    type V = MDiag;

    open spec fn view(&self) -> MDiag {
        match self {
            DiagState::Parsing { pst, queue } => MDiag::Parsing {
                pst: pstate_view(*pst),
                queue: prompts_view(queue@),
            },
            DiagState::Awaiting { queue } => MDiag::Awaiting { queue: prompts_view(queue@) },
        }
    }
}

/// Diagnostic-state well-formedness.
pub open spec fn diag_inv(d: MDiag) -> bool {
    match d {
        MDiag::Parsing { pst, queue } => st_inv(pst),
        MDiag::Awaiting { queue } => true,
    }
}

} // verus!
