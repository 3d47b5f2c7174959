//! Renderer configuration: which demo runs, in which mode and on which
//! compute backend, and how those choices combine.

use vstd::prelude::*;
use crate::feed::{decode_samples, ByteOrder};

verus! {

/// Width of the RGB demos' frames.
pub const RGB_DEMO_WIDTH: u32 = 320;
/// Height of the RGB demos' frames.
pub const RGB_DEMO_HEIGHT: u32 = 180;

/// The content shown in the renderer's pane.
#[derive(Clone, Copy, Debug, PartialEq, Eq, Structural)]
pub enum DemoKind {
    Terminal,
    Plasma,
    Ray,
    Doom,
    Youtube,
}

/// Where the renderer draws: a GPU window or the terminal itself.
#[derive(Clone, Copy, Debug, PartialEq, Eq, Structural)]
pub enum AppMode {
    Gui,
    Tui,
}

/// Where a demo's frames are computed.
#[derive(Clone, Copy, Debug, PartialEq, Eq, Structural)]
pub enum ComputeMode {
    Cpu,
    Gpu,
}

/// Optional renderer settings.
#[derive(Clone, Copy, Debug, Default)]
pub struct RendererOptions {
    /// How often to report the frame rate, if at all.
    pub fps_sample_interval: Option<std::time::Duration>,
    /// Whether the YouTube demo plays audio, overriding its environment setting.
    pub youtube_audio: Option<bool>,
}

/// The compute backend a demo actually uses: only the plasma and ray demos
/// have a GPU version; the others fall back to the CPU.
pub open spec fn sanitized_compute(demo: DemoKind, requested: ComputeMode) -> ComputeMode {
    match demo {
        DemoKind::Plasma | DemoKind::Ray => requested,
        _ => ComputeMode::Cpu,
    }
}

/// Chooses the compute backend for `demo`.
pub fn sanitize_compute(demo: DemoKind, requested: ComputeMode) -> (r: ComputeMode)
    ensures
        r == sanitized_compute(demo, requested),
{
    match demo {
        DemoKind::Plasma | DemoKind::Ray => requested,
        DemoKind::Terminal | DemoKind::Doom | DemoKind::Youtube => {
            match requested {
                ComputeMode::Gpu => ComputeMode::Cpu,
                ComputeMode::Cpu => requested,
            }
        },
    }
}

/// The loop that runs a configuration.
#[derive(Clone, Copy, Debug, PartialEq, Eq, Structural)]
pub enum Runner {
    /// The GPU window.
    Gui,
    /// The shell shown in the terminal.
    TuiTerminal,
    /// An RGB demo computed on the CPU and drawn as ANSI art.
    TuiCpu,
    /// An RGB demo computed on the GPU and drawn as ANSI art.
    TuiGpu,
}

/// The loop the terminal renderer runs for `demo` on the backend asked for,
/// without sanitising it: the shell for the terminal demo, otherwise the CPU
/// or GPU loop as requested.
pub open spec fn tui_runner_spec(demo: DemoKind, compute: ComputeMode) -> Runner {
    if demo == DemoKind::Terminal {
        Runner::TuiTerminal
    } else if compute == ComputeMode::Cpu {
        Runner::TuiCpu
    } else {
        Runner::TuiGpu
    }
}

/// Chooses the terminal renderer's loop for `demo` on `compute`.
pub fn tui_runner(demo: DemoKind, compute: ComputeMode) -> (r: Runner)
    ensures
        r == tui_runner_spec(demo, compute),
{
    match demo {
        DemoKind::Terminal => Runner::TuiTerminal,
        _ => match compute {
            ComputeMode::Cpu => Runner::TuiCpu,
            ComputeMode::Gpu => Runner::TuiGpu,
        },
    }
}

/// Whether `demo` has a GPU compute version: only the plasma and ray demos;
/// the GPU loop refuses the others.
pub fn has_gpu_demo(demo: DemoKind) -> (r: bool)
    ensures
        r == (demo == DemoKind::Plasma || demo == DemoKind::Ray),
{
    match demo {
        DemoKind::Plasma | DemoKind::Ray => true,
        _ => false,
    }
}

/// The loop a demo, requested compute backend and mode run in.
pub open spec fn runner_spec(demo: DemoKind, compute: ComputeMode, mode: AppMode) -> Runner {
    match mode {
        AppMode::Gui => Runner::Gui,
        AppMode::Tui => tui_runner_spec(demo, sanitized_compute(demo, compute)),
    }
}

/// Chooses the loop that runs `demo` in `mode`, after sanitising `compute`.
pub fn select_runner(demo: DemoKind, compute: ComputeMode, mode: AppMode) -> (r: Runner)
    ensures
        r == runner_spec(demo, compute, mode),
{
    let compute = sanitize_compute(demo, compute);
    match mode {
        AppMode::Gui => Runner::Gui,
        AppMode::Tui => tui_runner(demo, compute),
    }
}

/// Only the plasma and ray demos are ever computed on the GPU, and only when
/// that was asked for: every other demo, and every CPU request, runs on the
/// CPU or in the window.
pub proof fn law_gpu_only_for_shader_demos(demo: DemoKind, compute: ComputeMode, mode: AppMode)
    ensures
        runner_spec(demo, compute, mode) == Runner::TuiGpu <==> (mode == AppMode::Tui
            && compute == ComputeMode::Gpu && (demo == DemoKind::Plasma || demo == DemoKind::Ray)),
{
}

/// The runner of every configuration: the window whenever it is asked for;
/// in the terminal the shell for the terminal demo whatever the backend, the
/// GPU loop for a GPU request of a shader demo, and the CPU loop for the
/// rest. Sanitising never turns a CPU request into a GPU one, and sanitising
/// twice changes nothing.
pub proof fn law_runner_choice(demo: DemoKind, compute: ComputeMode, mode: AppMode)
    ensures
        mode == AppMode::Gui ==> runner_spec(demo, compute, mode) == Runner::Gui,
        mode == AppMode::Tui && demo == DemoKind::Terminal ==> runner_spec(demo, compute, mode)
            == Runner::TuiTerminal,
        runner_spec(demo, compute, mode) == Runner::TuiCpu <==> (mode == AppMode::Tui && demo
            != DemoKind::Terminal && !(compute == ComputeMode::Gpu && (demo == DemoKind::Plasma
            || demo == DemoKind::Ray))),
        compute == ComputeMode::Cpu ==> sanitized_compute(demo, compute) == ComputeMode::Cpu,
        sanitized_compute(demo, sanitized_compute(demo, compute)) == sanitized_compute(
            demo,
            compute,
        ),
{
}

/// Whether the renderer opens the external input feed for a demo: only Doom
/// reads keys from it.
pub fn uses_input_feed(demo: DemoKind) -> (r: bool)
    ensures
        r == (demo == DemoKind::Doom),
{
    match demo {
        DemoKind::Doom => true,
        _ => false,
    }
}

#[verifier::external_type_specification]
#[verifier::external_body]
pub struct ExPathBuf(std::path::PathBuf);

/// Reads 16-bit little-endian samples from `data`, ignoring a final odd byte.
pub fn bytes_to_samples(data: &[u8]) -> (r: Vec<i16>)
    ensures
        r@ == decode_samples(data@, ByteOrder::Little),
{
    let len = data.len();
    let n = len / 2;
    let mut out: Vec<i16> = Vec::new();
    let mut i: usize = 0;
    while i < n
        invariant
            len == data@.len(),
            n == len / 2,
            i <= n,
            out@ == decode_samples(data@, ByteOrder::Little).take(i as int),
        decreases n - i,
    {
        let lo = data[2 * i];
        let hi = data[2 * i + 1];
        out.push((((hi as u16) << 8u16) | (lo as u16)) as i16);
        i = i + 1;
        assert(out@ =~= decode_samples(data@, ByteOrder::Little).take(i as int));
    }
    assert(decode_samples(data@, ByteOrder::Little).take(n as int) =~= decode_samples(
        data@,
        ByteOrder::Little,
    ));
    out
}

} // verus!
