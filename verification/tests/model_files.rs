use hush::model_files::{candidates, check_model_files, files_present, ModelFilesError, ModelPart};

fn names(list: &[&str]) -> Vec<String> {
    list.iter().map(|s| s.to_string()).collect()
}

#[test]
fn files_present_rejects_an_incomplete_directory() {
    let mut dir = names(&[]);
    assert!(!files_present(&dir), "empty directory must not report as present");
    dir.push("encoder-model.onnx".to_owned());
    dir.push("vocab.txt".to_owned());
    assert!(!files_present(&dir), "missing decoder must not report as present");
    dir.push("decoder_joint-model.onnx".to_owned());
    assert!(
        !files_present(&dir),
        "fp32 encoder without its .onnx.data sidecar must not report as present"
    );
    dir.push("encoder-model.onnx.data".to_owned());
    assert!(files_present(&dir));
}

#[test]
fn files_present_and_load_agree_about_the_sidecar() {
    let dir = names(&["encoder-model.onnx", "decoder_joint-model.onnx", "vocab.txt"]);
    let present = files_present(&dir);
    let loads = check_model_files(&dir).is_ok();
    assert!(!present && !loads, "files_present ({present}) must not disagree with load ({loads})");
}

#[test]
fn files_present_accepts_the_int8_variant() {
    let dir = names(&["encoder-model.int8.onnx", "decoder_joint-model.int8.onnx", "vocab.txt"]);
    assert!(files_present(&dir));
    assert_eq!(check_model_files(&dir), Ok(()));
}

#[test]
fn load_rejects_fp32_encoder_without_its_weights_sidecar() {
    let dir = names(&["encoder-model.onnx", "decoder_joint-model.onnx", "vocab.txt"]);
    let err = check_model_files(&dir).unwrap_err();
    assert_eq!(err, ModelFilesError::MissingEncoderSidecar);
    let msg = err.message("/models/p");
    assert!(msg.contains("encoder-model.onnx.data"), "error should name the missing sidecar, got: {msg}");
    assert!(msg.ends_with("missing from /models/p"));
}

#[test]
fn load_names_the_missing_file() {
    let err = check_model_files(&names(&[])).unwrap_err();
    assert_eq!(err, ModelFilesError::Missing(ModelPart::Encoder));
    let msg = err.message("/models/p");
    assert!(msg.contains("no encoder model found"), "got: {msg}");
    assert_eq!(
        msg,
        "parakeet: no encoder model found in /models/p — expected one of: encoder-model.onnx, encoder.onnx, encoder-model.int8.onnx"
    );
}

#[test]
fn missing_parts_are_reported_in_order() {
    assert_eq!(
        check_model_files(&names(&["encoder.onnx", "vocab.txt"])),
        Err(ModelFilesError::Missing(ModelPart::DecoderJoint))
    );
    let v = check_model_files(&names(&["encoder.onnx", "decoder-model.onnx"])).unwrap_err();
    assert_eq!(v, ModelFilesError::Missing(ModelPart::Vocabulary));
    assert_eq!(v.message("d"), "parakeet: no vocabulary model found in d — expected one of: vocab.txt");
}

#[test]
fn candidate_lists() {
    assert_eq!(candidates(ModelPart::Vocabulary), vec!["vocab.txt"]);
    assert_eq!(candidates(ModelPart::DecoderJoint).len(), 4);
}
