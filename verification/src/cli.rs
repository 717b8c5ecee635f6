use std::path::PathBuf;
use vstd::prelude::*;

verus! {

/// `std::path::PathBuf`, carried through as an opaque value.
#[verifier::external_type_specification]
#[verifier::external_body]
pub struct ExPathBuf(PathBuf);

/// Command for exporting the genesis state of the parachain.
#[derive(Debug)]
pub struct ExportGenesisStateCommand {
    /// Output file name or stdout if unspecified.
    pub output: Option<PathBuf>,
    /// Id of the parachain this state is for.
    pub parachain_id: Option<u32>,
    /// Write output in binary. Default is to write in hex.
    pub raw: bool,
    /// The name of the chain for that the genesis state should be exported.
    pub chain: Option<String>,
}

/// Command for exporting the genesis wasm file.
#[derive(Debug)]
pub struct ExportGenesisWasmCommand {
    /// Output file name or stdout if unspecified.
    pub output: Option<PathBuf>,
    /// Write output in binary. Default is to write in hex.
    pub raw: bool,
    /// The name of the chain for that the genesis wasm file should be exported.
    pub chain: Option<String>,
}

} // verus!
