//! The commands a driving front end can issue against the sandbox, and the
//! parser mapping a typed word (or its one-letter alias) to its command.
use crate::codec::bytes_eq;
use vstd::prelude::*;

verus! {

/// A command of the driving front end.
#[derive(Clone, Copy, PartialEq, Eq, Structural, Debug)]
pub enum CliCommand {
    /// Build one block.
    Build,
    /// Deploy the example contract.
    Deploy,
    /// Call the example contract's getter.
    CallGet,
    /// Call the example contract's flipper.
    CallFlip,
    /// Leave the front end.
    Exit,
}

/// The word naming the build command.
pub open spec fn spec_word_build() -> Seq<u8> {
    seq![98u8, 117u8, 105u8, 108u8, 100u8]
}

/// The word naming the deploy command.
pub open spec fn spec_word_deploy() -> Seq<u8> {
    seq![100u8, 101u8, 112u8, 108u8, 111u8, 121u8]
}

/// The word naming the getter-call command.
pub open spec fn spec_word_call_get() -> Seq<u8> {
    seq![99u8, 97u8, 108u8, 108u8, 45u8, 103u8, 101u8, 116u8]
}

/// The word naming the flipper-call command.
pub open spec fn spec_word_call_flip() -> Seq<u8> {
    seq![99u8, 97u8, 108u8, 108u8, 45u8, 102u8, 108u8, 105u8, 112u8]
}

/// The word naming the exit command.
pub open spec fn spec_word_exit() -> Seq<u8> {
    seq![101u8, 120u8, 105u8, 116u8]
}

/// The command a typed word names: each word in full, and one-letter aliases
/// for building, deploying and leaving.
pub open spec fn spec_parse_command(s: Seq<u8>) -> Option<CliCommand> {
    if s == spec_word_build() || s == seq![98u8] {
        Option::Some(CliCommand::Build)
    } else if s == spec_word_deploy() || s == seq![100u8] {
        Option::Some(CliCommand::Deploy)
    } else if s == spec_word_call_get() {
        Option::Some(CliCommand::CallGet)
    } else if s == spec_word_call_flip() {
        Option::Some(CliCommand::CallFlip)
    } else if s == spec_word_exit() || s == seq![101u8] {
        Option::Some(CliCommand::Exit)
    } else {
        Option::None
    }
}

/// Parse a typed word into its command.
pub fn parse_command(input: &[u8]) -> (r: Option<CliCommand>)
    ensures
        r == spec_parse_command(input@),
{
    let build_word: Vec<u8> = vec![98u8, 117, 105, 108, 100];
    let build_alias: Vec<u8> = vec![98u8];
    let deploy_word: Vec<u8> = vec![100u8, 101, 112, 108, 111, 121];
    let deploy_alias: Vec<u8> = vec![100u8];
    let call_get_word: Vec<u8> = vec![99u8, 97, 108, 108, 45, 103, 101, 116];
    let call_flip_word: Vec<u8> = vec![99u8, 97, 108, 108, 45, 102, 108, 105, 112];
    let exit_word: Vec<u8> = vec![101u8, 120, 105, 116];
    let exit_alias: Vec<u8> = vec![101u8];
    proof {
        assert(build_word@ =~= spec_word_build());
        assert(build_alias@ =~= seq![98u8]);
        assert(deploy_word@ =~= spec_word_deploy());
        assert(deploy_alias@ =~= seq![100u8]);
        assert(call_get_word@ =~= spec_word_call_get());
        assert(call_flip_word@ =~= spec_word_call_flip());
        assert(exit_word@ =~= spec_word_exit());
        assert(exit_alias@ =~= seq![101u8]);
    }
    if bytes_eq(input, build_word.as_slice()) || bytes_eq(input, build_alias.as_slice()) {
        Some(CliCommand::Build)
    } else if bytes_eq(input, deploy_word.as_slice()) || bytes_eq(input, deploy_alias.as_slice()) {
        Some(CliCommand::Deploy)
    } else if bytes_eq(input, call_get_word.as_slice()) {
        Some(CliCommand::CallGet)
    } else if bytes_eq(input, call_flip_word.as_slice()) {
        Some(CliCommand::CallFlip)
    } else if bytes_eq(input, exit_word.as_slice()) || bytes_eq(input, exit_alias.as_slice()) {
        Some(CliCommand::Exit)
    } else {
        None
    }
}

} // verus!
