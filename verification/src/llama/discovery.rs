//! What running a llama-server binary for its `--version`, `--help` and `--list-devices` output
//! means: the process work itself happens outside the library.
use vstd::prelude::*;

use crate::error::{kept_details, opt_text, AppError, AppResult, ErrorCode};
use crate::llama::capabilities::RawCommandOutput;
use crate::process::runner::{diagnostics_spec, exit_code_string, exit_code_text, CommandOutput};
use crate::text::concat_text;

verus! {

/// Seconds one discovery run may take.
pub const DISCOVERY_TIMEOUT_SECONDS: u64 = 20;

/// The outcome of one discovery run: cancellation when the build that owns it was cancelled,
/// success when the binary exited with zero, else a failure naming the argument and exit code.
pub fn invocation_outcome(argument: &str, terminated: bool, output: &CommandOutput) -> (r: AppResult<()>)
    ensures
        ({
            let diagnostics = diagnostics_spec(output.stdout@, output.stderr@);
            if terminated {
                r matches Err(e) && e.code == ErrorCode::BuildCancelled && e.message@
                    == "The build was cancelled."@ && e.hint is None && opt_text(e.details)
                    == kept_details(None, diagnostics)
            } else if output.exit_code == Some(0i32) {
                r is Ok
            } else {
                r matches Err(e) && e.code == ErrorCode::CapabilityDiscoveryFailed && e.message@
                    == "llama-server "@ + argument@ + " exited with code "@ + exit_code_text(
                    output.exit_code,
                ) + "."@ && opt_text(e.hint) == Some(
                    "The raw output below comes directly from the selected runtime."@,
                ) && opt_text(e.details) == kept_details(None, diagnostics)
            }
        }),
{
    if terminated {
        let diagnostics = output.diagnostics();
        return Err(
            AppError::new(ErrorCode::BuildCancelled, "The build was cancelled.").with_details(
                diagnostics.as_str(),
            ),
        );
    }
    if output.succeeded() {
        return Ok(());
    }
    let code = exit_code_string(output.exit_code);
    let message = concat_text(
        concat_text(
            concat_text(concat_text("llama-server ", argument).as_str(), " exited with code ").as_str(),
            code.as_str(),
        ).as_str(),
        ".",
    );
    let diagnostics = output.diagnostics();
    Err(
        AppError::new(ErrorCode::CapabilityDiscoveryFailed, message.as_str()).with_hint(
            "The raw output below comes directly from the selected runtime.",
        ).with_details(diagnostics.as_str()),
    )
}

/// The error for a discovery run that did not finish in time.
pub fn discovery_timeout_error(argument: &str, command: &str) -> (e: AppError)
    ensures
        e.code == ErrorCode::CapabilityDiscoveryFailed,
        e.message@ == "llama-server "@ + argument@ + " did not finish within 20 seconds."@,
        opt_text(e.hint) == Some(
            "The binary may be incompatible or blocked by security software."@,
        ),
        opt_text(e.details) == kept_details(None, command@),
{
    let message = concat_text(
        concat_text("llama-server ", argument).as_str(),
        " did not finish within 20 seconds.",
    );
    AppError::new(ErrorCode::CapabilityDiscoveryFailed, message.as_str()).with_hint(
        "The binary may be incompatible or blocked by security software.",
    ).with_details(command)
}

/// Keeps both streams of a run, untouched.
pub fn into_raw(output: CommandOutput) -> (r: RawCommandOutput)
    ensures
        r.stdout == output.stdout,
        r.stderr == output.stderr,
{
    RawCommandOutput { stdout: output.stdout, stderr: output.stderr }
}

} // verus!
