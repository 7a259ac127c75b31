# dissectlm

Inspects the architecture and parameter distribution of a language model from
its metadata (`config.json` and safetensors headers) without loading weights.

- `src/` is the library, verified with Verus: tensor classification
  (`analyzer::classifier`), parameter counting and attention-layout inference
  (`analyzer::param_counter`), configuration aliases (`analyzer::config`),
  safetensors header handling (`analyzer::safetensor`), the architecture graph
  (`graph`), Hugging Face listing logic (`hf::repo`), the report model and
  command decisions (`cli`, `types`), and the layout of the text and terminal
  reports (`report`). Specifications are written over `Seq<char>` views and
  spec functions; the laws the library keeps are public proof functions.
- `app/` is the command-line program around it: argument parsing (clap), file
  and network access (std, reqwest, tokio), the Python deep-inspection bridge,
  JSON output (serde), terminal styling (console, ratatui, crossterm) and the
  floating-point percentages and unit formatting.
- `tests/` exercises the library on concrete inputs.
