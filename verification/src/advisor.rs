//! The advisory layer's pure configuration: which local language models
//! can be used, where their files live on the model hub, and how a user
//! message is wrapped into each model's chat template. Running a model is
//! outside the library; everything here is plain data and exact string
//! assembly.

use vstd::prelude::*;

verus! {

/// The local models the advisor can run.
#[derive(Clone, Copy, Debug, PartialEq, Eq, Structural)]
pub enum Modeltype {
    Qwen25_1_5B,
    Qwen25_0_5B,
    Qwen25_3B,
    Qwen25_7B,
}

impl Modeltype {
    /// The hub repository holding this model's tokenizer.
    pub fn tok_address(self) -> (r: &'static str)
        ensures
            r@ == self.tok_address_spec(),
    {
        match self {
            Modeltype::Qwen25_7B => "Qwen/Qwen2.5-7B-Instruct",
            Modeltype::Qwen25_0_5B => "Qwen/Qwen2.5-0.5B-Instruct",
            Modeltype::Qwen25_1_5B => "Qwen/Qwen2.5-1.5B-Instruct",
            Modeltype::Qwen25_3B => "Qwen/Qwen2.5-3B-Instruct",
        }
    }

    pub open spec fn tok_address_spec(self) -> Seq<char> {
        match self {
            Modeltype::Qwen25_7B => "Qwen/Qwen2.5-7B-Instruct"@,
            Modeltype::Qwen25_0_5B => "Qwen/Qwen2.5-0.5B-Instruct"@,
            Modeltype::Qwen25_1_5B => "Qwen/Qwen2.5-1.5B-Instruct"@,
            Modeltype::Qwen25_3B => "Qwen/Qwen2.5-3B-Instruct"@,
        }
    }

    /// The hub repository and file name of this model's quantized
    /// weights.
    pub fn gguf_address(self) -> (r: (&'static str, &'static str))
        ensures
            r.0@ == self.gguf_repo_spec(),
            r.1@ == self.gguf_file_spec(),
    {
        match self {
            Modeltype::Qwen25_7B => (
                "Qwen/Qwen2.5-7B-Instruct-GGUF",
                "qwen2.5-7b-instruct-q3_k_m.gguf",
            ),
            Modeltype::Qwen25_0_5B => (
                "Qwen/Qwen2.5-0.5B-Instruct-GGUF",
                "qwen2.5-0.5b-instruct-q6_k.gguf",
            ),
            Modeltype::Qwen25_1_5B => (
                "Qwen/Qwen2.5-1.5B-Instruct-GGUF",
                "qwen2.5-1.5b-instruct-q6_k.gguf",
            ),
            Modeltype::Qwen25_3B => (
                "Qwen/Qwen2.5-3B-Instruct-GGUF",
                "qwen2.5-3b-instruct-q4_k_m.gguf",
            ),
        }
    }

    pub open spec fn gguf_repo_spec(self) -> Seq<char> {
        match self {
            Modeltype::Qwen25_7B => "Qwen/Qwen2.5-7B-Instruct-GGUF"@,
            Modeltype::Qwen25_0_5B => "Qwen/Qwen2.5-0.5B-Instruct-GGUF"@,
            Modeltype::Qwen25_1_5B => "Qwen/Qwen2.5-1.5B-Instruct-GGUF"@,
            Modeltype::Qwen25_3B => "Qwen/Qwen2.5-3B-Instruct-GGUF"@,
        }
    }

    pub open spec fn gguf_file_spec(self) -> Seq<char> {
        match self {
            Modeltype::Qwen25_7B => "qwen2.5-7b-instruct-q3_k_m.gguf"@,
            Modeltype::Qwen25_0_5B => "qwen2.5-0.5b-instruct-q6_k.gguf"@,
            Modeltype::Qwen25_1_5B => "qwen2.5-1.5b-instruct-q6_k.gguf"@,
            Modeltype::Qwen25_3B => "qwen2.5-3b-instruct-q4_k_m.gguf"@,
        }
    }

    /// The token that ends this model's turn.
    pub fn eos(self) -> (r: &'static str)
        ensures
            r@ == "<|im_end|>"@,
    {
        match self {
            Modeltype::Qwen25_7B | Modeltype::Qwen25_3B | Modeltype::Qwen25_1_5B
                | Modeltype::Qwen25_0_5B => "<|im_end|>",
        }
    }

    /// Wrap one user message into this model's plain chat template.
    pub fn apply_chat_template(&self, user: &str) -> (r: String)
        ensures
            r@ == "<|im_start|>system\nYou are a personal finance assistant.<|im_end|>\n<|im_start|>user\n"@
                + user@ + "<|im_end|>\n<|im_start|>assistant\n"@,
    {
        let mut template = String::new();
        template.append(
            "<|im_start|>system\nYou are a personal finance assistant.<|im_end|>\n<|im_start|>user\n",
        );
        template.append(user);
        template.append("<|im_end|>\n<|im_start|>assistant\n");
        template
    }

    /// Wrap one user message and a tool catalogue into this model's
    /// tool-calling chat template.
    pub fn apply_into_tool_chat_template(&self, user: &str, functionintro: &str) -> (r: String)
        ensures
            r@ == "<|im_start|>system\nYou are a personal finance assistant."@
                + "You may call one or more functions to assist with the user query.\n\nYou are provided with function signatures within <tools></tools> XML tags:\n<tools>\n"@
                + functionintro@
                + "\n</tools>\n\nFor each function call, return a json object with function name and arguments within <tool_call></tool_call> XML tags:\n<tool_call>\n{\"name\": <function-name>, \"arguments\": <args-json-object>}\n</tool_call><|im_end|>\n"@
                + "<|im_start|>user\n"@ + user@ + "<|im_end|>\n<|im_start|>assistant\n"@,
    {
        let mut template = String::new();
        template.append("<|im_start|>system\nYou are a personal finance assistant.");
        template.append(
            "You may call one or more functions to assist with the user query.\n\nYou are provided with function signatures within <tools></tools> XML tags:\n<tools>\n",
        );
        template.append(functionintro);
        template.append(
            "\n</tools>\n\nFor each function call, return a json object with function name and arguments within <tool_call></tool_call> XML tags:\n<tool_call>\n{\"name\": <function-name>, \"arguments\": <args-json-object>}\n</tool_call><|im_end|>\n",
        );
        template.append("<|im_start|>user\n");
        template.append(user);
        template.append("<|im_end|>\n<|im_start|>assistant\n");
        template
    }

    /// Append a tool's result to a previous exchange, asking the model to
    /// continue.
    pub fn apply_tool_out_chat_template(&self, premessage: &str, functionresult: &str) -> (r:
        String)
        ensures
            r@ == premessage@ + "<|im_end|>\n<|im_start|>user\n<tool_response>\n"@
                + functionresult@ + "\n</tool_response><|im_end|>\n<|im_start|>assistant\n"@,
    {
        let mut template = String::new();
        template.append(premessage);
        template.append("<|im_end|>\n<|im_start|>user\n<tool_response>\n");
        template.append(functionresult);
        template.append("\n</tool_response><|im_end|>\n<|im_start|>assistant\n");
        template
    }
}

/// Where a model's files were found locally: its name and the paths of
/// its tokenizer and weight files.
#[derive(Debug)]
pub struct Localmodel {
    pub name: String,
    pub tokenizer: String,
    pub gguf: String,
}

/// The display name of a model choice.
pub fn advisor_model_name(model: Modeltype) -> (r: &'static str)
    ensures
        model == Modeltype::Qwen25_0_5B ==> r@ == "Qwen2.5-0.5B-Instruct"@,
        model == Modeltype::Qwen25_1_5B ==> r@ == "Qwen2.5-1.5B-Instruct"@,
        model == Modeltype::Qwen25_3B ==> r@ == "Qwen2.5-3B-Instruct"@,
        model == Modeltype::Qwen25_7B ==> r@ == "Qwen2.5-7B-Instruct"@,
{
    match model {
        Modeltype::Qwen25_0_5B => "Qwen2.5-0.5B-Instruct",
        Modeltype::Qwen25_1_5B => "Qwen2.5-1.5B-Instruct",
        Modeltype::Qwen25_3B => "Qwen2.5-3B-Instruct",
        Modeltype::Qwen25_7B => "Qwen2.5-7B-Instruct",
    }
}

/// The model a menu index selects; out-of-range indices fall back to the
/// default model.
pub fn advisor_model_from_index(idx: usize) -> (r: Modeltype)
    ensures
        idx == 0 ==> r == Modeltype::Qwen25_0_5B,
        idx == 1 ==> r == Modeltype::Qwen25_1_5B,
        idx == 2 ==> r == Modeltype::Qwen25_3B,
        idx == 3 ==> r == Modeltype::Qwen25_7B,
        idx > 3 ==> r == Modeltype::Qwen25_1_5B,
{
    match idx {
        0 => Modeltype::Qwen25_0_5B,
        1 => Modeltype::Qwen25_1_5B,
        2 => Modeltype::Qwen25_3B,
        3 => Modeltype::Qwen25_7B,
        _ => Modeltype::Qwen25_1_5B,
    }
}

/// The menu index of a model: the inverse of `advisor_model_from_index`
/// on the menu's range.
pub fn advisor_index_from_model(model: Modeltype) -> (r: usize)
    ensures
        r <= 3,
        advisor_model_from_index_spec(r) == model,
{
    match model {
        Modeltype::Qwen25_0_5B => 0,
        Modeltype::Qwen25_1_5B => 1,
        Modeltype::Qwen25_3B => 2,
        Modeltype::Qwen25_7B => 3,
    }
}

/// The model a menu index selects.
pub open spec fn advisor_model_from_index_spec(idx: usize) -> Modeltype {
    if idx == 0 {
        Modeltype::Qwen25_0_5B
    } else if idx == 1 {
        Modeltype::Qwen25_1_5B
    } else if idx == 2 {
        Modeltype::Qwen25_3B
    } else if idx == 3 {
        Modeltype::Qwen25_7B
    } else {
        Modeltype::Qwen25_1_5B
    }
}

} // verus!
