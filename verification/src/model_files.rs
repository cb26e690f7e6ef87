//! Which files a Parakeet model directory must hold: an encoder, a
//! decoder+joint network and the vocabulary, each under one of a few
//! accepted names, plus the weights sidecar of the full-precision encoder.
//! The caller lists the regular files present; the decision is made here.

use vstd::prelude::*;

use crate::export::join_spec;
use crate::text::str_eq;

verus! {

/// A required part of a model directory.
#[derive(Debug, Clone, Copy, PartialEq, Eq, Structural)]
pub enum ModelPart {
    Encoder,
    DecoderJoint,
    Vocabulary,
}

/// Why a directory does not hold a loadable model.
#[derive(Debug, Clone, Copy, PartialEq, Eq, Structural)]
pub enum ModelFilesError {
    /// No accepted file name of this part is present.
    Missing(ModelPart),
    /// The full-precision encoder is present without its weights file.
    MissingEncoderSidecar,
}

/// Whether `name` is among the listed files.
pub open spec fn listed(present: Seq<String>, name: Seq<char>) -> bool {
    exists|k: int| 0 <= k < present.len() && (#[trigger] present[k])@ == name
}

/// Accepted file names of each part, in order of preference.
pub open spec fn candidates_spec(part: ModelPart) -> Seq<Seq<char>> {
    match part {
        ModelPart::Encoder => seq!["encoder-model.onnx"@, "encoder.onnx"@, "encoder-model.int8.onnx"@],
        ModelPart::DecoderJoint => seq![
            "decoder_joint-model.onnx"@,
            "decoder_joint-model.int8.onnx"@,
            "decoder_joint.onnx"@,
            "decoder-model.onnx"@,
        ],
        ModelPart::Vocabulary => seq!["vocab.txt"@],
    }
}

/// Some accepted name of `part` is listed.
pub open spec fn part_present(present: Seq<String>, part: ModelPart) -> bool {
    exists|j: int| 0 <= j < candidates_spec(part).len() && listed(present, #[trigger] candidates_spec(part)[j])
}

/// The verdict on a directory: the first missing part in the order
/// encoder, decoder+joint, vocabulary; then the encoder sidecar.
pub open spec fn check_spec(present: Seq<String>) -> Result<(), ModelFilesError> {
    if !part_present(present, ModelPart::Encoder) {
        Err(ModelFilesError::Missing(ModelPart::Encoder))
    } else if !part_present(present, ModelPart::DecoderJoint) {
        Err(ModelFilesError::Missing(ModelPart::DecoderJoint))
    } else if !part_present(present, ModelPart::Vocabulary) {
        Err(ModelFilesError::Missing(ModelPart::Vocabulary))
    } else if listed(present, "encoder-model.onnx"@) && !listed(present, "encoder-model.onnx.data"@) {
        Err(ModelFilesError::MissingEncoderSidecar)
    } else {
        Ok(())
    }
}

fn is_listed(present: &Vec<String>, name: &str) -> (r: bool)
    ensures
        r == listed(present@, name@),
{
    let mut k: usize = 0;
    while k < present.len()
        invariant
            k <= present@.len(),
            forall|q: int| 0 <= q < k ==> (#[trigger] present@[q])@ != name@,
        decreases present@.len() - k,
    {
        if str_eq(present[k].as_str(), name) {
            return true;
        }
        k = k + 1;
    }
    false
}

/// The accepted file names of `part`.
pub fn candidates(part: ModelPart) -> (r: Vec<&'static str>)
    ensures
        r@.map_values(|s: &'static str| s@) == candidates_spec(part),
{
    let v: Vec<&'static str> = match part {
        ModelPart::Encoder => vec!["encoder-model.onnx", "encoder.onnx", "encoder-model.int8.onnx"],
        ModelPart::DecoderJoint => vec![
            "decoder_joint-model.onnx",
            "decoder_joint-model.int8.onnx",
            "decoder_joint.onnx",
            "decoder-model.onnx",
        ],
        ModelPart::Vocabulary => vec!["vocab.txt"],
    };
    proof {
        assert(v@.map_values(|s: &'static str| s@) =~= candidates_spec(part));
    }
    v
}

fn part_is_present(present: &Vec<String>, part: ModelPart) -> (r: bool)
    ensures
        r == part_present(present@, part),
{
    let names = candidates(part);
    let ghost cs = candidates_spec(part);
    let mut j: usize = 0;
    while j < names.len()
        invariant
            j <= names@.len(),
            names@.map_values(|s: &'static str| s@) == cs,
            cs == candidates_spec(part),
            forall|q: int| 0 <= q < j ==> !listed(present@, #[trigger] cs[q]),
        decreases names@.len() - j,
    {
        proof {
            assert(names@.map_values(|s: &'static str| s@)[j as int] == names@[j as int]@);
        }
        if is_listed(present, names[j]) {
            return true;
        }
        j = j + 1;
    }
    proof {
        assert(names@.map_values(|s: &'static str| s@).len() == names@.len());
    }
    false
}

/// Checks a directory listing (see [`check_spec`]).
pub fn check_model_files(present: &Vec<String>) -> (r: Result<(), ModelFilesError>)
    ensures
        r == check_spec(present@),
{
    if !part_is_present(present, ModelPart::Encoder) {
        return Err(ModelFilesError::Missing(ModelPart::Encoder));
    }
    if !part_is_present(present, ModelPart::DecoderJoint) {
        return Err(ModelFilesError::Missing(ModelPart::DecoderJoint));
    }
    if !part_is_present(present, ModelPart::Vocabulary) {
        return Err(ModelFilesError::Missing(ModelPart::Vocabulary));
    }
    if is_listed(present, "encoder-model.onnx") && !is_listed(present, "encoder-model.onnx.data") {
        return Err(ModelFilesError::MissingEncoderSidecar);
    }
    Ok(())
}

/// Whether the listing holds a usable model: exactly when
/// [`check_model_files`] accepts it, so a directory reported present
/// always loads as far as its files go.
pub fn files_present(present: &Vec<String>) -> (r: bool)
    ensures
        r == (check_spec(present@) is Ok),
{
    check_model_files(present).is_ok()
}

/// A loadable directory holds every part: an encoder, a decoder+joint
/// network and the vocabulary under accepted names.
pub proof fn law_check_implies_present(present: Seq<String>)
    ensures
        check_spec(present) is Ok ==> part_present(present, ModelPart::Encoder) && part_present(
            present,
            ModelPart::DecoderJoint,
        ) && part_present(present, ModelPart::Vocabulary),
{
}

/// Name of a part in messages.
pub open spec fn part_name_spec(part: ModelPart) -> Seq<char> {
    match part {
        ModelPart::Encoder => "encoder"@,
        ModelPart::DecoderJoint => "decoder+joint"@,
        ModelPart::Vocabulary => "vocabulary"@,
    }
}

/// Names of a part in messages.
pub fn part_name(part: ModelPart) -> (r: &'static str)
    ensures
        r@ == part_name_spec(part),
{
    match part {
        ModelPart::Encoder => "encoder",
        ModelPart::DecoderJoint => "decoder+joint",
        ModelPart::Vocabulary => "vocabulary",
    }
}

/// The message of a model-files error for directory `dir`.
pub open spec fn files_message_spec(e: ModelFilesError, dir: Seq<char>) -> Seq<char> {
    match e {
        ModelFilesError::Missing(part) => "parakeet: no "@ + part_name_spec(part) + " model found in "@ + dir
            + " — expected one of: "@ + join_spec(candidates_spec(part), ", "@),
        ModelFilesError::MissingEncoderSidecar => "parakeet: encoder-model.onnx is present but its weights sidecar encoder-model.onnx.data is missing from "@
            + dir,
    }
}

impl ModelFilesError {
    /// The message for this error about directory `dir`.
    pub fn message(self, dir: &str) -> (r: String)
        ensures
            r@ == files_message_spec(self, dir@),
    {
        match self {
            ModelFilesError::Missing(part) => {
                let mut s = "parakeet: no ".to_owned();
                s.append(part_name(part));
                s.append(" model found in ");
                s.append(dir);
                s.append(" — expected one of: ");
                let names = candidates(part);
                let ghost cs = candidates_spec(part);
                let ghost start = s@;
                let mut j: usize = 0;
                while j < names.len()
                    invariant
                        j <= names@.len(),
                        names@.map_values(|x: &'static str| x@) == cs,
                        s@ == start + join_spec(cs.take(j as int), ", "@),
                    decreases names@.len() - j,
                {
                    if j > 0 {
                        s.append(", ");
                    }
                    s.append(names[j]);
                    proof {
                        let tk = cs.take(j + 1);
                        assert(tk.drop_last() =~= cs.take(j as int));
                        assert(names@.map_values(|x: &'static str| x@)[j as int] == names@[j as int]@);
                        assert(tk.last() == names@[j as int]@);
                        if j == 0 {
                            assert(tk.len() == 1);
                        }
                    }
                    j = j + 1;
                }
                proof {
                    assert(cs.take(cs.len() as int) =~= cs);
                }
                s
            },
            ModelFilesError::MissingEncoderSidecar => {
                let mut s = "parakeet: encoder-model.onnx is present but its weights sidecar encoder-model.onnx.data is missing from ".to_owned();
                s.append(dir);
                s
            },
        }
    }
}

} // verus!
