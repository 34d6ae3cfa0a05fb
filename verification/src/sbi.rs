//! The register convention by which a guest asks the hypervisor for a
//! service, and its decoding.

use vstd::prelude::*;
use crate::regs::ARG_REG_COUNT;

verus! {

/// Slot, among the argument registers, of the extension identifier (`a7`).
pub const EXTENSION_SLOT: usize = 7;

/// Slot, among the argument registers, of the function identifier (`a6`).
pub const FUNCTION_SLOT: usize = 6;

/// Extension identifier of the system reset extension.
pub const EXT_SYSTEM_RESET: u64 = 0x5352_5354;

/// Function identifier, within the system reset extension, of the reset call.
pub const FN_SYSTEM_RESET: u64 = 0;

/// A request that a guest made, as decoded from its argument registers.
#[derive(Clone, Copy, Debug, PartialEq, Eq)]
pub enum HypervisorCall {
    /// Shut the virtual machine down; carries the two codes that the guest
    /// passed in `a0` and `a1`.
    Shutdown(u64, u64),
    /// A call into an extension that the hypervisor does not know; carries
    /// the extension identifier.
    Unsupported(u64),
}

/// Why a call into a known extension could not be decoded.
#[derive(Clone, Copy, Debug, PartialEq, Eq)]
pub enum DecodeError {
    /// The extension has no function with this identifier.
    UnknownFunction { extension: u64, function: u64 },
}

/// The request that the argument registers `args` (`a0` first) encode.
pub open spec fn decode_spec(args: Seq<u64>) -> Result<HypervisorCall, DecodeError> {
    let extension = args[EXTENSION_SLOT as int];
    let function = args[FUNCTION_SLOT as int];
    if extension != EXT_SYSTEM_RESET {
        Ok(HypervisorCall::Unsupported(extension))
    } else if function == FN_SYSTEM_RESET {
        Ok(HypervisorCall::Shutdown(args[0], args[1]))
    } else {
        Err(DecodeError::UnknownFunction { extension, function })
    }
}

impl HypervisorCall {
    /// Decodes the request held in the eight argument registers. The
    /// extension is looked up first: an unknown one is reported as
    /// `Unsupported` whatever the other registers hold, and only a known
    /// extension can fail to decode.
    pub fn decode(args: &[u64; 8]) -> (r: Result<HypervisorCall, DecodeError>)
        ensures
            r == decode_spec(args@),
    {
        let extension = args[EXTENSION_SLOT];
        let function = args[FUNCTION_SLOT];
        if extension != EXT_SYSTEM_RESET {
            Ok(HypervisorCall::Unsupported(extension))
        } else if function == FN_SYSTEM_RESET {
            Ok(HypervisorCall::Shutdown(args[0], args[1]))
        } else {
            Err(DecodeError::UnknownFunction { extension, function })
        }
    }
}

/// A call whose extension and function identifiers are those of the reset
/// call decodes to a shutdown that carries exactly the two payload values.
pub proof fn lemma_shutdown_call_decodes(args: Seq<u64>)
    requires
        args.len() == ARG_REG_COUNT,
        args[EXTENSION_SLOT as int] == EXT_SYSTEM_RESET,
        args[FUNCTION_SLOT as int] == FN_SYSTEM_RESET,
    ensures
        decode_spec(args) == Ok::<HypervisorCall, DecodeError>(
            HypervisorCall::Shutdown(args[0], args[1]),
        ),
{
}

/// A call into an extension that is not known decodes to `Unsupported` with
/// that extension's identifier, never to an error, whatever the function
/// identifier and the payload are.
pub proof fn lemma_unknown_extension_is_unsupported(args: Seq<u64>)
    requires
        args.len() == ARG_REG_COUNT,
        args[EXTENSION_SLOT as int] != EXT_SYSTEM_RESET,
    ensures
        decode_spec(args) == Ok::<HypervisorCall, DecodeError>(
            HypervisorCall::Unsupported(args[EXTENSION_SLOT as int]),
        ),
{
}

} // verus!
