use vstd::prelude::*;
use vstd::slice::slice_index_get;
use vstd::string::StringExecFns;
use crate::text::dec_rep;

verus! {

/// Whether a bytecode image starts with the module container header the
/// engine accepts: the four magic bytes `\0asm` followed by the
/// little-endian version word 1.
pub open spec fn valid_module_header(b: Seq<u8>) -> bool {
    &&& b.len() >= 8
    &&& b[0] == 0x00u8
    &&& b[1] == 0x61u8
    &&& b[2] == 0x73u8
    &&& b[3] == 0x6du8
    &&& b[4] == 0x01u8
    &&& b[5] == 0x00u8
    &&& b[6] == 0x00u8
    &&& b[7] == 0x00u8
}

/// The output the engine reports for a run that was handed `nargs`
/// arguments.
pub open spec fn run_output(nargs: nat) -> Seq<char> {
    "executed module with "@ + dec_rep(nargs) + " argument(s)"@
}

/// The message the engine reports for bytecode it refuses.
pub open spec fn bad_header_message() -> Seq<char> {
    "invalid bytecode: bad module header"@
}

/// The embedded bytecode engine behind the execution gate. It keeps no
/// state across calls; each run is decided by the bytecode and the
/// arguments alone. Instruction-level isolation and resource limits are
/// the engine's own concern, beyond what this module promises.
pub struct WasmRuntime {}

impl WasmRuntime {
    /// A fresh engine.
    pub fn new() -> WasmRuntime {
        WasmRuntime {  }
    }

    /// Run a bytecode image. The image is accepted exactly when it
    /// carries a valid module container header; a refused image yields
    /// the engine's error message verbatim, and nothing else can fail.
    pub fn execute(&self, wasm_data: &[u8], args: &Vec<String>) -> (r: Result<String, String>)
        ensures
            valid_module_header(wasm_data@) <==> r is Ok,
            r matches Ok(out) ==> out@ == run_output(args@.len()),
            r matches Err(msg) ==> msg@ == bad_header_message(),
    {
        let ok = wasm_data.len() >= 8 && *slice_index_get(wasm_data, 0) == 0x00u8
            && *slice_index_get(wasm_data, 1) == 0x61u8 && *slice_index_get(wasm_data, 2)
            == 0x73u8 && *slice_index_get(wasm_data, 3) == 0x6du8 && *slice_index_get(wasm_data, 4)
            == 0x01u8 && *slice_index_get(wasm_data, 5) == 0x00u8 && *slice_index_get(wasm_data, 6)
            == 0x00u8 && *slice_index_get(wasm_data, 7) == 0x00u8;
        if ok {
            let mut out = String::new();
            out.append("executed module with ");
            let n: u64 = args.len() as u64;
            out.append(crate::text::u64_dec(n).as_str());
            out.append(" argument(s)");
            proof {
                assert(out@ =~= run_output(args@.len()));
            }
            Ok(out)
        } else {
            Err("invalid bytecode: bad module header".to_owned())
        }
    }
}

} // verus!
