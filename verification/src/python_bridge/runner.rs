//! The command line of the Python inspector used by the deep inspection.
use crate::text::{decimal, owned, push_decimal, string_views};
use crate::types::opt_str_view;
use vstd::prelude::*;

verus! {

/// The arguments given to `uv` to run the inspector on a checkpoint file when
/// one is given, else on the model.
pub open spec fn inspector_arg_texts(model: Seq<char>, checkpoint: Option<Seq<char>>) -> Seq<Seq<char>> {
    seq!["run"@, "--project"@, "python"@, "python"@, "-m"@, "dissectlm.inspector"@] + match checkpoint {
        Some(path) => seq!["--checkpoint"@, path],
        None => seq!["--model"@, model],
    }
}

/// The arguments given to `uv` to run the inspector.
pub fn inspector_args(model: &str, checkpoint: Option<&str>) -> (r: Vec<String>)
    ensures
        string_views(r@) == inspector_arg_texts(model@, opt_str_view(checkpoint)),
{
    let mut args: Vec<String> = Vec::new();
    args.push(owned("run"));
    args.push(owned("--project"));
    args.push(owned("python"));
    args.push(owned("python"));
    args.push(owned("-m"));
    args.push(owned("dissectlm.inspector"));
    match checkpoint {
        Some(path) => {
            args.push(owned("--checkpoint"));
            args.push(owned(path));
        },
        None => {
            args.push(owned("--model"));
            args.push(owned(model));
        },
    }
    assert(string_views(args@) =~= inspector_arg_texts(model@, opt_str_view(checkpoint)));
    args
}

/// The progress message shown while the inspector loads its input: the
/// checkpoint when one is given, else the model.
pub fn loading_message(checkpoint: bool) -> (r: &'static str)
    ensures
        r@ == if checkpoint {
            "Running deep inspection: loading checkpoint in Python..."@
        } else {
            "Running deep inspection: loading model in Python..."@
        },
{
    if checkpoint {
        "Running deep inspection: loading checkpoint in Python..."
    } else {
        "Running deep inspection: loading model in Python..."
    }
}

/// The progress message shown while the inspector runs, with the seconds spent.
pub fn analyzing_message(elapsed_secs: u64) -> (r: String)
    ensures
        r@ == "Running deep inspection: analyzing weights... "@ + decimal(elapsed_secs as nat) + "s elapsed"@,
{
    let mut r = owned("Running deep inspection: analyzing weights... ");
    push_decimal(&mut r, elapsed_secs);
    r.append("s elapsed");
    r
}

} // verus!
