//! Static catalog of the Whisper model variants the picker offers.

use vstd::prelude::*;
use vstd::string::StringExecFns;

use crate::text::str_eq;

verus! {

/// Static metadata of one model.
#[derive(Debug, Clone, PartialEq, Eq)]
pub struct ModelMetadata {
    /// Stable identifier, e.g. `whisper-base`.
    pub id: String,
    /// Name shown on the picker card.
    pub display_name: String,
    /// File name in the models directory.
    pub filename: String,
    /// Approximate size on disk, in MB.
    pub size_mb: u32,
    /// Perceived speed, 1–10 (10 fastest).
    pub speed_rating: u8,
    /// Perceived accuracy, 1–10 (10 most accurate).
    pub accuracy_rating: u8,
    /// One-line description.
    pub description: String,
    /// Whether this is the recommended model.
    pub is_default: bool,
    /// Where the model file is downloaded from.
    pub download_url: String,
    /// Expected SHA-256 in hex; empty until verified.
    pub sha256: String,
}

/// Mathematical view of a [`ModelMetadata`].
pub struct ModelView {
    pub id: Seq<char>,
    pub display_name: Seq<char>,
    pub filename: Seq<char>,
    pub size_mb: u32,
    pub speed_rating: u8,
    pub accuracy_rating: u8,
    pub description: Seq<char>,
    pub is_default: bool,
    pub download_url: Seq<char>,
    pub sha256: Seq<char>,
}

impl View for ModelMetadata {
    type V = ModelView;

    open spec fn view(&self) -> ModelView {
        ModelView {
            id: self.id@,
            display_name: self.display_name@,
            filename: self.filename@,
            size_mb: self.size_mb,
            speed_rating: self.speed_rating,
            accuracy_rating: self.accuracy_rating,
            description: self.description@,
            is_default: self.is_default,
            download_url: self.download_url@,
            sha256: self.sha256@,
        }
    }
}

impl ModelMetadata {
    /// A field-by-field copy.
    pub fn duplicate(&self) -> (r: ModelMetadata)
        ensures
            r@ == self@,
    {
        ModelMetadata {
            id: self.id.clone(),
            display_name: self.display_name.clone(),
            filename: self.filename.clone(),
            size_mb: self.size_mb,
            speed_rating: self.speed_rating,
            accuracy_rating: self.accuracy_rating,
            description: self.description.clone(),
            is_default: self.is_default,
            download_url: self.download_url.clone(),
            sha256: self.sha256.clone(),
        }
    }
}

/// Base URL of the upstream model mirror.
pub const WHISPER_DOWNLOAD_BASE: &'static str = "https://huggingface.co/ggerganov/whisper.cpp/resolve/main";

/// Download URL of a model file: the base URL, a slash, the file name.
pub open spec fn download_url_spec(filename: Seq<char>) -> Seq<char> {
    WHISPER_DOWNLOAD_BASE@ + "/"@ + filename
}

/// The download URL of `filename`.
pub fn download_url_for(filename: &str) -> (r: String)
    ensures
        r@ == download_url_spec(filename@),
{
    let mut url = WHISPER_DOWNLOAD_BASE.to_owned();
    url.append("/");
    url.append(filename);
    url
}

/// The catalog, smallest and fastest model first.
pub open spec fn catalog_spec() -> Seq<ModelView> {
    seq![
        ModelView {
            id: "whisper-tiny"@,
            display_name: "Whisper Tiny"@,
            filename: "ggml-tiny.bin"@,
            size_mb: 75,
            speed_rating: 10,
            accuracy_rating: 4,
            description: "Fastest variant. Good for quick notes; weak on accents and proper nouns."@,
            is_default: false,
            download_url: download_url_spec("ggml-tiny.bin"@),
            sha256: seq![],
        },
        ModelView {
            id: "whisper-base"@,
            display_name: "Whisper Base"@,
            filename: "ggml-base.bin"@,
            size_mb: 142,
            speed_rating: 9,
            accuracy_rating: 6,
            description: "Recommended default. Solid accuracy at near-real-time speed."@,
            is_default: true,
            download_url: download_url_spec("ggml-base.bin"@),
            sha256: seq![],
        },
        ModelView {
            id: "whisper-small"@,
            display_name: "Whisper Small"@,
            filename: "ggml-small.bin"@,
            size_mb: 466,
            speed_rating: 7,
            accuracy_rating: 8,
            description: "Better accuracy for technical jargon and accents. ~3× slower than base."@,
            is_default: false,
            download_url: download_url_spec("ggml-small.bin"@),
            sha256: seq![],
        },
        ModelView {
            id: "whisper-medium"@,
            display_name: "Whisper Medium"@,
            filename: "ggml-medium.bin"@,
            size_mb: 1500,
            speed_rating: 5,
            accuracy_rating: 9,
            description: "High-accuracy. Recommended only on M-series Macs or recent x86."@,
            is_default: false,
            download_url: download_url_spec("ggml-medium.bin"@),
            sha256: seq![],
        },
        ModelView {
            id: "whisper-large-v3"@,
            display_name: "Whisper Large v3"@,
            filename: "ggml-large-v3.bin"@,
            size_mb: 3094,
            speed_rating: 3,
            accuracy_rating: 10,
            description: "Top-tier accuracy. Slow on consumer hardware — for offline batch use."@,
            is_default: false,
            download_url: download_url_spec("ggml-large-v3.bin"@),
            sha256: seq![],
        }
    ]
}

/// The views of a sequence of models.
pub open spec fn models_view(s: Seq<ModelMetadata>) -> Seq<ModelView> {
    s.map_values(|m: ModelMetadata| m@)
}

/// The catalog of Whisper variants (see [`catalog_spec`]).
pub fn whisper_models() -> (r: Vec<ModelMetadata>)
    ensures
        models_view(r@) == catalog_spec(),
{
    let mut models: Vec<ModelMetadata> = Vec::new();
    models.push(ModelMetadata {
            id: "whisper-tiny".to_owned(),
            display_name: "Whisper Tiny".to_owned(),
            filename: "ggml-tiny.bin".to_owned(),
            size_mb: 75,
            speed_rating: 10,
            accuracy_rating: 4,
            description: "Fastest variant. Good for quick notes; weak on accents and proper nouns.".to_owned(),
            is_default: false,
            download_url: download_url_for("ggml-tiny.bin"),
            sha256: String::new(),
        });
    models.push(ModelMetadata {
            id: "whisper-base".to_owned(),
            display_name: "Whisper Base".to_owned(),
            filename: "ggml-base.bin".to_owned(),
            size_mb: 142,
            speed_rating: 9,
            accuracy_rating: 6,
            description: "Recommended default. Solid accuracy at near-real-time speed.".to_owned(),
            is_default: true,
            download_url: download_url_for("ggml-base.bin"),
            sha256: String::new(),
        });
    models.push(ModelMetadata {
            id: "whisper-small".to_owned(),
            display_name: "Whisper Small".to_owned(),
            filename: "ggml-small.bin".to_owned(),
            size_mb: 466,
            speed_rating: 7,
            accuracy_rating: 8,
            description: "Better accuracy for technical jargon and accents. ~3× slower than base.".to_owned(),
            is_default: false,
            download_url: download_url_for("ggml-small.bin"),
            sha256: String::new(),
        });
    models.push(ModelMetadata {
            id: "whisper-medium".to_owned(),
            display_name: "Whisper Medium".to_owned(),
            filename: "ggml-medium.bin".to_owned(),
            size_mb: 1500,
            speed_rating: 5,
            accuracy_rating: 9,
            description: "High-accuracy. Recommended only on M-series Macs or recent x86.".to_owned(),
            is_default: false,
            download_url: download_url_for("ggml-medium.bin"),
            sha256: String::new(),
        });
    models.push(ModelMetadata {
            id: "whisper-large-v3".to_owned(),
            display_name: "Whisper Large v3".to_owned(),
            filename: "ggml-large-v3.bin".to_owned(),
            size_mb: 3094,
            speed_rating: 3,
            accuracy_rating: 10,
            description: "Top-tier accuracy. Slow on consumer hardware — for offline batch use.".to_owned(),
            is_default: false,
            download_url: download_url_for("ggml-large-v3.bin"),
            sha256: String::new(),
        });
    assert(models_view(models@) =~= catalog_spec());
    models
}

/// The first model of `s` with identifier `id`.
pub open spec fn find_spec(s: Seq<ModelView>, id: Seq<char>) -> Option<ModelView>
    decreases s.len(),
{
    if s.len() == 0 {
        None
    } else if s[0].id == id {
        Some(s[0])
    } else {
        find_spec(s.drop_first(), id)
    }
}

/// The first model of `s` marked default.
pub open spec fn first_default(s: Seq<ModelView>) -> Option<ModelView>
    decreases s.len(),
{
    if s.len() == 0 {
        None
    } else if s[0].is_default {
        Some(s[0])
    } else {
        first_default(s.drop_first())
    }
}

/// Looks a model up by identifier; `None` for an unknown identifier.
pub fn find_by_id(id: &str) -> (r: Option<ModelMetadata>)
    ensures
        match r {
            Some(m) => find_spec(catalog_spec(), id@) == Some(m@),
            None => find_spec(catalog_spec(), id@) is None,
        },
{
    let models = whisper_models();
    let ghost cs = catalog_spec();
    let mut i: usize = 0;
    assert(cs.subrange(0, cs.len() as int) =~= cs);
    while i < models.len()
        invariant
            i <= models@.len(),
            models_view(models@) == cs,
            cs == catalog_spec(),
            find_spec(cs, id@) == find_spec(cs.subrange(i as int, cs.len() as int), id@),
        decreases models@.len() - i,
    {
        proof {
            assert(cs.subrange(i as int, cs.len() as int).drop_first() =~= cs.subrange(i + 1, cs.len() as int));
        }
        proof {
            assert(models_view(models@)[i as int] == models@[i as int]@);
            assert(cs.subrange(i as int, cs.len() as int)[0] == cs[i as int]);
        }
        if str_eq(models[i].id.as_str(), id) {
            return Some(models[i].duplicate());
        }
        i = i + 1;
    }
    None
}

/// The model marked default, or the first model if none is marked.
pub fn default_model() -> (r: ModelMetadata)
    ensures
        r@ == (match first_default(catalog_spec()) {
            Some(m) => m,
            None => catalog_spec()[0],
        }),
{
    let models = whisper_models();
    let ghost cs = catalog_spec();
    let mut i: usize = 0;
    assert(cs.subrange(0, cs.len() as int) =~= cs);
    while i < models.len()
        invariant
            i <= models@.len(),
            models_view(models@) == cs,
            cs == catalog_spec(),
            first_default(cs) == first_default(cs.subrange(i as int, cs.len() as int)),
        decreases models@.len() - i,
    {
        proof {
            assert(cs.subrange(i as int, cs.len() as int).drop_first() =~= cs.subrange(i + 1, cs.len() as int));
        }
        proof {
            assert(models_view(models@)[i as int] == models@[i as int]@);
            assert(cs.subrange(i as int, cs.len() as int)[0] == cs[i as int]);
        }
        if models[i].is_default {
            return models[i].duplicate();
        }
        i = i + 1;
    }
    models[0].duplicate()
}

/// The catalog's shape: exactly one model is the default (the base
/// model), every rating lies in 1..=10, and size and accuracy never
/// decrease along the catalog.
pub proof fn law_catalog_shape()
    ensures
        forall|i: int|
            0 <= i < catalog_spec().len() ==> (#[trigger] catalog_spec()[i]).is_default == (i == 1),
        catalog_spec()[1].id == "whisper-base"@,
        forall|i: int|
            0 <= i < catalog_spec().len() ==> 1 <= (#[trigger] catalog_spec()[i]).speed_rating <= 10
                && 1 <= catalog_spec()[i].accuracy_rating <= 10,
        forall|i: int, j: int|
            0 <= i < j < catalog_spec().len() ==> (#[trigger] catalog_spec()[i]).size_mb
                <= (#[trigger] catalog_spec()[j]).size_mb && catalog_spec()[i].accuracy_rating
                <= catalog_spec()[j].accuracy_rating,
        first_default(catalog_spec()) == Some(catalog_spec()[1]),
{
    let cs = catalog_spec();
    assert(cs.len() == 5);
    assert(cs.drop_first()[0] == cs[1]);
    assert(first_default(cs.drop_first()) == Some(cs[1]));
}

} // verus!
