use vstd::prelude::*;

verus! {

/// Number of threads that one inference session uses inside an operator.
pub const INTRA_THREADS: usize = 4;

/// The execution provider that the user selects.
#[derive(Clone, Copy, Debug, PartialEq, Eq, Structural)]
pub enum Provider {
    /// The best provider that can be had.
    Auto,
    Cpu,
    Cuda,
    Tensorrt,
    Coreml,
    Xnnpack,
}

/// A provider that has to be registered before it can be used. The CPU needs
/// no registration and is what remains when none of these can be had.
#[derive(Clone, Copy, Debug, PartialEq, Eq, Structural)]
pub enum Accelerator {
    TensorRt,
    Cuda,
    CoreMl,
    Xnnpack,
}

impl Default for Provider {
    fn default() -> (p: Self)
        ensures
            p == Provider::Auto,
    {
        Provider::Auto
    }
}

/// The accelerators that are tried for a selection, in the order in which
/// they are tried. `Auto` walks the whole list; an explicit choice is tried
/// alone; CoreML exists on macOS only.
pub open spec fn spec_provider_plan(selected: Provider, macos: bool) -> Seq<Accelerator> {
    match selected {
        Provider::Auto => if macos {
            seq![Accelerator::TensorRt, Accelerator::Cuda, Accelerator::CoreMl, Accelerator::Xnnpack]
        } else {
            seq![Accelerator::TensorRt, Accelerator::Cuda, Accelerator::Xnnpack]
        },
        Provider::Cpu => Seq::empty(),
        Provider::Cuda => seq![Accelerator::Cuda],
        Provider::Tensorrt => seq![Accelerator::TensorRt],
        Provider::Coreml => if macos {
            seq![Accelerator::CoreMl]
        } else {
            Seq::empty()
        },
        Provider::Xnnpack => seq![Accelerator::Xnnpack],
    }
}

/// Lists the accelerators to try for a selection. The first that registers
/// is used; where none does, the session runs on the CPU.
pub fn provider_plan(selected: Provider, macos: bool) -> (plan: Vec<Accelerator>)
    ensures
        plan@ == spec_provider_plan(selected, macos),
{
    let mut plan: Vec<Accelerator> = Vec::new();
    match selected {
        Provider::Auto => {
            plan.push(Accelerator::TensorRt);
            plan.push(Accelerator::Cuda);
            if macos {
                plan.push(Accelerator::CoreMl);
            }
            plan.push(Accelerator::Xnnpack);
        },
        Provider::Cpu => {},
        Provider::Cuda => {
            plan.push(Accelerator::Cuda);
        },
        Provider::Tensorrt => {
            plan.push(Accelerator::TensorRt);
        },
        Provider::Coreml => {
            if macos {
                plan.push(Accelerator::CoreMl);
            }
        },
        Provider::Xnnpack => {
            plan.push(Accelerator::Xnnpack);
        },
    }
    assert(plan@ =~= spec_provider_plan(selected, macos));
    plan
}

/// Whether the fall back to the CPU is worth a warning: the user asked for
/// an accelerator by name and it could not be had.
pub fn fallback_warns(selected: Provider) -> (r: bool)
    ensures
        r == (selected != Provider::Auto && selected != Provider::Cpu),
{
    match selected {
        Provider::Auto => false,
        Provider::Cpu => false,
        _ => true,
    }
}

} // verus!
