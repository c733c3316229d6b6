//! The supported language models for branch name generation.

use vstd::prelude::*;

verus! {

/// The address of a file in a Qwen repository on Hugging Face.
pub open spec fn hf_url(repo: Seq<char>, name: Seq<char>) -> Seq<char> {
    "https://huggingface.co/Qwen/"@ + repo + "/resolve/main/"@ + name
}

/// Supported Qwen model configurations.
#[derive(Debug, Clone, Copy, PartialEq, Eq, Structural, Hash)]
pub enum ModelConfig {
    /// Qwen3-1.7B model (1.7B params), GGUF quantized format
    Qwen3_17B,
    /// Qwen2.5-Coder 1.5B model (1.5B params)
    Qwen25Coder15B,
    /// Qwen2.5-Coder 3B model (3B params)
    Qwen25Coder3B,
}

impl Default for ModelConfig {
    fn default() -> (r: Self)
        ensures
            r == ModelConfig::Qwen3_17B,
    {
        ModelConfig::Qwen3_17B
    }
}

/// A file to download for a model: its name, URL and expected size.
pub type DownloadEntry = (&'static str, &'static str, Option<u32>);

impl ModelConfig {
    pub open spec fn spec_model_id(self) -> Seq<char> {
        match self {
            ModelConfig::Qwen25Coder15B => "qwen25-coder-15b"@,
            ModelConfig::Qwen25Coder3B => "qwen25-coder-3b"@,
            ModelConfig::Qwen3_17B => "qwen3-17b"@,
        }
    }

    /// Identifier of the model, also the name of its cache directory.
    pub fn model_id(&self) -> (s: &'static str)
        ensures
            s@ == self.spec_model_id(),
    {
        match self {
            ModelConfig::Qwen25Coder15B => "qwen25-coder-15b",
            ModelConfig::Qwen25Coder3B => "qwen25-coder-3b",
            ModelConfig::Qwen3_17B => "qwen3-17b",
        }
    }

    pub open spec fn spec_model_name(self) -> Seq<char> {
        match self {
            ModelConfig::Qwen25Coder15B => "Qwen2.5-Coder-1.5B"@,
            ModelConfig::Qwen25Coder3B => "Qwen2.5-Coder-3B"@,
            ModelConfig::Qwen3_17B => "Qwen3-1.7B"@,
        }
    }

    /// Display name of the model.
    pub fn model_name(&self) -> (s: &'static str)
        ensures
            s@ == self.spec_model_name(),
    {
        match self {
            ModelConfig::Qwen25Coder15B => "Qwen2.5-Coder-1.5B",
            ModelConfig::Qwen25Coder3B => "Qwen2.5-Coder-3B",
            ModelConfig::Qwen3_17B => "Qwen3-1.7B",
        }
    }

    pub open spec fn spec_model_size(self) -> Seq<char> {
        match self {
            ModelConfig::Qwen25Coder15B => "1.5GB"@,
            ModelConfig::Qwen25Coder3B => "3GB"@,
            ModelConfig::Qwen3_17B => "1.83GB"@,
        }
    }

    /// Human-readable download size of the model.
    pub fn model_size(&self) -> (s: &'static str)
        ensures
            s@ == self.spec_model_size(),
    {
        match self {
            ModelConfig::Qwen25Coder15B => "1.5GB",
            ModelConfig::Qwen25Coder3B => "3GB",
            ModelConfig::Qwen3_17B => "1.83GB",
        }
    }

    /// The Hugging Face repository (under `Qwen/`) that the `k`-th download
    /// of the model comes from.
    pub open spec fn file_repo(self, k: int) -> Seq<char> {
        match self {
            ModelConfig::Qwen25Coder15B => "Qwen2.5-Coder-1.5B-Instruct"@,
            ModelConfig::Qwen25Coder3B => "Qwen2.5-Coder-3B-Instruct"@,
            ModelConfig::Qwen3_17B => if k == 0 { "Qwen3-1.7B-GGUF"@ } else { "Qwen3-1.7B"@ },
        }
    }

    /// The files to download for this model, as (file name, URL, expected
    /// size) triples: five SafeTensors files for the Qwen2.5-Coder models, the
    /// GGUF weights and the tokenizer for Qwen3. Each URL is the file's
    /// `resolve/main` address in the model's Hugging Face repository.
    pub fn download_urls(&self) -> (v: Vec<DownloadEntry>)
        ensures
            forall|k: int| 0 <= k < v@.len() ==> v@[k].1@ == hf_url(self.file_repo(k), #[trigger] v@[k].0@),
            v@.len() == (if self.is_gguf() { 2int } else { 5int }),
            self.is_gguf() ==> v@[0].0@ == "Qwen3-1.7B-Q8_0.gguf"@ && v@[0].2 == Some(1_300_000_000u32)
                && v@[1].0@ == "tokenizer.json"@ && v@[1].2 is None,
            !self.is_gguf() ==> v@[0].0@ == "config.json"@ && v@[1].0@ == "model.safetensors"@
                && v@[2].0@ == "tokenizer.json"@ && v@[3].0@ == "tokenizer_config.json"@ && v@[4].0@
                == "merges.txt"@ && v@[0].2 is None && v@[2].2 is None && v@[3].2 is None && v@[4].2 is None,
            *self == ModelConfig::Qwen25Coder15B ==> v@[1].2 == Some(1_500_000_000u32),
            *self == ModelConfig::Qwen25Coder3B ==> v@[1].2 == Some(3_000_000_000u32),
            *self == ModelConfig::Qwen25Coder15B ==> (v@[0].1@ == "https://huggingface.co/Qwen/Qwen2.5-Coder-1.5B-Instruct/resolve/main/config.json"@
                && v@[1].1@ == "https://huggingface.co/Qwen/Qwen2.5-Coder-1.5B-Instruct/resolve/main/model.safetensors"@
                && v@[2].1@ == "https://huggingface.co/Qwen/Qwen2.5-Coder-1.5B-Instruct/resolve/main/tokenizer.json"@
                && v@[3].1@ == "https://huggingface.co/Qwen/Qwen2.5-Coder-1.5B-Instruct/resolve/main/tokenizer_config.json"@
                && v@[4].1@ == "https://huggingface.co/Qwen/Qwen2.5-Coder-1.5B-Instruct/resolve/main/merges.txt"@),
            *self == ModelConfig::Qwen25Coder3B ==> (v@[0].1@ == "https://huggingface.co/Qwen/Qwen2.5-Coder-3B-Instruct/resolve/main/config.json"@
                && v@[1].1@ == "https://huggingface.co/Qwen/Qwen2.5-Coder-3B-Instruct/resolve/main/model.safetensors"@
                && v@[2].1@ == "https://huggingface.co/Qwen/Qwen2.5-Coder-3B-Instruct/resolve/main/tokenizer.json"@
                && v@[3].1@ == "https://huggingface.co/Qwen/Qwen2.5-Coder-3B-Instruct/resolve/main/tokenizer_config.json"@
                && v@[4].1@ == "https://huggingface.co/Qwen/Qwen2.5-Coder-3B-Instruct/resolve/main/merges.txt"@),
            *self == ModelConfig::Qwen3_17B ==> (v@[0].1@ == "https://huggingface.co/Qwen/Qwen3-1.7B-GGUF/resolve/main/Qwen3-1.7B-Q8_0.gguf"@
                && v@[1].1@ == "https://huggingface.co/Qwen/Qwen3-1.7B/resolve/main/tokenizer.json"@),
    {
        let v = match self {
            ModelConfig::Qwen25Coder15B => vec![
                ("config.json", "https://huggingface.co/Qwen/Qwen2.5-Coder-1.5B-Instruct/resolve/main/config.json", None),
                ("model.safetensors", "https://huggingface.co/Qwen/Qwen2.5-Coder-1.5B-Instruct/resolve/main/model.safetensors", Some(1_500_000_000)),
                ("tokenizer.json", "https://huggingface.co/Qwen/Qwen2.5-Coder-1.5B-Instruct/resolve/main/tokenizer.json", None),
                ("tokenizer_config.json", "https://huggingface.co/Qwen/Qwen2.5-Coder-1.5B-Instruct/resolve/main/tokenizer_config.json", None),
                ("merges.txt", "https://huggingface.co/Qwen/Qwen2.5-Coder-1.5B-Instruct/resolve/main/merges.txt", None),
            ],
            ModelConfig::Qwen25Coder3B => vec![
                ("config.json", "https://huggingface.co/Qwen/Qwen2.5-Coder-3B-Instruct/resolve/main/config.json", None),
                ("model.safetensors", "https://huggingface.co/Qwen/Qwen2.5-Coder-3B-Instruct/resolve/main/model.safetensors", Some(3_000_000_000)),
                ("tokenizer.json", "https://huggingface.co/Qwen/Qwen2.5-Coder-3B-Instruct/resolve/main/tokenizer.json", None),
                ("tokenizer_config.json", "https://huggingface.co/Qwen/Qwen2.5-Coder-3B-Instruct/resolve/main/tokenizer_config.json", None),
                ("merges.txt", "https://huggingface.co/Qwen/Qwen2.5-Coder-3B-Instruct/resolve/main/merges.txt", None),
            ],
            ModelConfig::Qwen3_17B => vec![
                ("Qwen3-1.7B-Q8_0.gguf", "https://huggingface.co/Qwen/Qwen3-1.7B-GGUF/resolve/main/Qwen3-1.7B-Q8_0.gguf", Some(1_300_000_000)),
                ("tokenizer.json", "https://huggingface.co/Qwen/Qwen3-1.7B/resolve/main/tokenizer.json", None),
            ],
        };
        proof {
            reveal_strlit("/resolve/main/");
            reveal_strlit("Qwen2.5-Coder-1.5B-Instruct");
            reveal_strlit("Qwen2.5-Coder-3B-Instruct");
            reveal_strlit("Qwen3-1.7B");
            reveal_strlit("Qwen3-1.7B-GGUF");
            reveal_strlit("Qwen3-1.7B-Q8_0.gguf");
            reveal_strlit("config.json");
            reveal_strlit("https://huggingface.co/Qwen/");
            reveal_strlit("https://huggingface.co/Qwen/Qwen2.5-Coder-1.5B-Instruct/resolve/main/config.json");
            reveal_strlit("https://huggingface.co/Qwen/Qwen2.5-Coder-1.5B-Instruct/resolve/main/merges.txt");
            reveal_strlit("https://huggingface.co/Qwen/Qwen2.5-Coder-1.5B-Instruct/resolve/main/model.safetensors");
            reveal_strlit("https://huggingface.co/Qwen/Qwen2.5-Coder-1.5B-Instruct/resolve/main/tokenizer.json");
            reveal_strlit("https://huggingface.co/Qwen/Qwen2.5-Coder-1.5B-Instruct/resolve/main/tokenizer_config.json");
            reveal_strlit("https://huggingface.co/Qwen/Qwen2.5-Coder-3B-Instruct/resolve/main/config.json");
            reveal_strlit("https://huggingface.co/Qwen/Qwen2.5-Coder-3B-Instruct/resolve/main/merges.txt");
            reveal_strlit("https://huggingface.co/Qwen/Qwen2.5-Coder-3B-Instruct/resolve/main/model.safetensors");
            reveal_strlit("https://huggingface.co/Qwen/Qwen2.5-Coder-3B-Instruct/resolve/main/tokenizer.json");
            reveal_strlit("https://huggingface.co/Qwen/Qwen2.5-Coder-3B-Instruct/resolve/main/tokenizer_config.json");
            reveal_strlit("https://huggingface.co/Qwen/Qwen3-1.7B-GGUF/resolve/main/Qwen3-1.7B-Q8_0.gguf");
            reveal_strlit("https://huggingface.co/Qwen/Qwen3-1.7B/resolve/main/tokenizer.json");
            reveal_strlit("merges.txt");
            reveal_strlit("model.safetensors");
            reveal_strlit("tokenizer.json");
            reveal_strlit("tokenizer_config.json");
            assert forall|k: int| 0 <= k < v@.len() implies v@[k].1@ =~= hf_url(self.file_repo(k), v@[k].0@) by {}
        }
        v
    }

    pub open spec fn is_qwen3(self) -> bool {
        self == ModelConfig::Qwen3_17B
    }

    pub open spec fn is_gguf(self) -> bool {
        self == ModelConfig::Qwen3_17B
    }

    /// Whether the model has the Qwen3 architecture.
    pub fn is_qwen3_architecture(&self) -> (b: bool)
        ensures
            b == self.is_qwen3(),
    {
        matches!(self, ModelConfig::Qwen3_17B)
    }

    /// Whether the model has the Qwen2.5 architecture.
    pub fn is_qwen25_architecture(&self) -> (b: bool)
        ensures
            b == (*self == ModelConfig::Qwen25Coder15B || *self == ModelConfig::Qwen25Coder3B),
    {
        matches!(self, ModelConfig::Qwen25Coder15B | ModelConfig::Qwen25Coder3B)
    }

    /// Whether the model weights come in GGUF format.
    pub fn is_gguf_format(&self) -> (b: bool)
        ensures
            b == self.is_gguf(),
    {
        matches!(self, ModelConfig::Qwen3_17B)
    }

    /// The context window of the model in tokens: 32K for every model.
    pub fn max_context_tokens(&self) -> (n: usize)
        ensures
            n == 32_768,
    {
        match self {
            ModelConfig::Qwen25Coder15B => 32_768,
            ModelConfig::Qwen25Coder3B => 32_768,
            ModelConfig::Qwen3_17B => 32_768,
        }
    }
}

} // verus!
