//! Model acquisition support: the decisions and the helper-script text
//! of the model downloader. Probing the file system, writing the script
//! out and running it are the surrounding system's work; this module
//! holds what can be decided and generated from plain values.

use vstd::prelude::*;
use vstd::string::StringExecFns;
use crate::error::Error;

verus! {

/// The text of the helper script that fetches a model: a fixed template
/// around the download source, the model name and the target directory.
pub open spec fn download_script_text(mirror: Seq<char>, name: Seq<char>, dir: Seq<char>) -> Seq<
    char,
> {
    "import os\nimport sys\nfrom transformers import AutoTokenizer, AutoModelForSeq2SeqLM, AutoConfig\nimport torch\n\ndef download_model(model_name, save_dir):\n    print(f\"downloading model: {model_name}\")\n    print(f\"saving under: {save_dir}\")\n\n    try:\n        os.environ['HF_ENDPOINT'] = '"@ + mirror + "'\n\n        print(\"fetching tokenizer...\")\n        tokenizer = AutoTokenizer.from_pretrained(model_name, cache_dir=save_dir)\n        tokenizer.save_pretrained(save_dir)\n\n        print(\"fetching model configuration...\")\n        config = AutoConfig.from_pretrained(model_name, cache_dir=save_dir)\n        config.save_pretrained(save_dir)\n\n        print(\"fetching model weights...\")\n        model = AutoModelForSeq2SeqLM.from_pretrained(\n            model_name,\n            cache_dir=save_dir,\n            torch_dtype=torch.float16,\n            device_map=\"auto\"\n        )\n        model.save_pretrained(save_dir)\n\n        print(\"model download finished\")\n    except Exception as e:\n        print(f\"download failed: {e}\", file=sys.stderr)\n        sys.exit(1)\n\nif __name__ == \"__main__\":\n    model_name = \""@ + name + "\"\n    save_dir = \""@ + dir + "\"\n    download_model(model_name, save_dir)\n"@
}

/// Checks and generates what a model download needs; the caller probes
/// the file system, writes the script and runs it.
pub struct ModelDownloader {
    /// Directory the models are cached under.
    pub cache_dir: String,
    /// Whether downloads go through the mirror.
    pub use_mirror: bool,
}

impl ModelDownloader {
    /// A downloader over `cache_dir`, using the main source.
    pub fn new(cache_dir: String) -> (d: Self)
        ensures
            d.cache_dir == cache_dir,
            d.use_mirror == false,
    {
        ModelDownloader { cache_dir, use_mirror: false }
    }

    /// Switches between the main download source and the mirror.
    pub fn use_mirror(&mut self, use_mirror: bool)
        ensures
            final(self).use_mirror == use_mirror,
            final(self).cache_dir == old(self).cache_dir,
    {
        self.use_mirror = use_mirror;
    }

    /// The base URL downloads currently go through.
    pub open spec fn mirror_text(&self) -> Seq<char> {
        if self.use_mirror {
            "https://hf-mirror.com"@
        } else {
            "https://huggingface.co"@
        }
    }

    /// The base URL downloads currently go through.
    pub fn mirror_url(&self) -> (r: &'static str)
        ensures
            r@ == self.mirror_text(),
    {
        if self.use_mirror {
            "https://hf-mirror.com"
        } else {
            "https://huggingface.co"
        }
    }

    /// The helper script that fetches `model_name` into `model_dir`,
    /// exactly the template of `download_script_text` around the current
    /// download source and the two arguments.
    pub fn generate_download_script(&self, model_name: &str, model_dir: &str) -> (r: Result<
        String,
        Error,
    >)
        ensures
            r matches Ok(s) && s@ == download_script_text(
                self.mirror_text(),
                model_name@,
                model_dir@,
            ),
    {
        let mut script = String::new();
        script.append("import os\nimport sys\nfrom transformers import AutoTokenizer, AutoModelForSeq2SeqLM, AutoConfig\nimport torch\n\ndef download_model(model_name, save_dir):\n    print(f\"downloading model: {model_name}\")\n    print(f\"saving under: {save_dir}\")\n\n    try:\n        os.environ['HF_ENDPOINT'] = '");
        script.append(self.mirror_url());
        script.append("'\n\n        print(\"fetching tokenizer...\")\n        tokenizer = AutoTokenizer.from_pretrained(model_name, cache_dir=save_dir)\n        tokenizer.save_pretrained(save_dir)\n\n        print(\"fetching model configuration...\")\n        config = AutoConfig.from_pretrained(model_name, cache_dir=save_dir)\n        config.save_pretrained(save_dir)\n\n        print(\"fetching model weights...\")\n        model = AutoModelForSeq2SeqLM.from_pretrained(\n            model_name,\n            cache_dir=save_dir,\n            torch_dtype=torch.float16,\n            device_map=\"auto\"\n        )\n        model.save_pretrained(save_dir)\n\n        print(\"model download finished\")\n    except Exception as e:\n        print(f\"download failed: {e}\", file=sys.stderr)\n        sys.exit(1)\n\nif __name__ == \"__main__\":\n    model_name = \"");
        script.append(model_name);
        script.append("\"\n    save_dir = \"");
        script.append(model_dir);
        script.append("\"\n    download_model(model_name, save_dir)\n");
        proof {
            assert(script@ =~= download_script_text(
                self.mirror_text(),
                model_name@,
                model_dir@,
            ));
        }
        Ok(script)
    }

    /// Decides whether a model directory's artefacts are complete. The
    /// caller reports which files exist; a model needs its
    /// configuration, its tokenizer, and weights in either the binary or
    /// the safetensors format. Each missing artefact is a
    /// `ModelLoadError`, checked in that order.
    pub fn verify_model(
        &self,
        has_config: bool,
        has_tokenizer: bool,
        has_bin_weights: bool,
        has_safetensors: bool,
    ) -> (r: Result<bool, Error>)
        ensures
            r is Ok <==> has_config && has_tokenizer && (has_bin_weights || has_safetensors),
            r matches Ok(b) ==> b == true,
            r matches Err(e) ==> e is ModelLoadError,
    {
        if !has_config {
            return Err(Error::ModelLoadError("required file missing: config.json".to_string()));
        }
        if !has_tokenizer {
            return Err(
                Error::ModelLoadError("required file missing: tokenizer.json".to_string()),
            );
        }
        if !has_bin_weights && !has_safetensors {
            return Err(
                Error::ModelLoadError(
                    "model weights missing (pytorch_model.bin or model.safetensors)".to_string(),
                ),
            );
        }
        Ok(true)
    }
}

} // verus!
