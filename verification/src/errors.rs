use vstd::prelude::*;

verus! {

/// Errors returned by this crate.
#[derive(Debug)]
pub enum CrossEncoderError {
    HuggingFaceLoadError(String),
    IOError(String),
    TokenizerError(String),
    InferenceError(String),
    OnnxLoadingError(String),
    GenericFailure(String),
}

impl CrossEncoderError {
    /// The human-readable text of an error: a fixed prefix per kind,
    /// followed by the detail the error carries.
    pub open spec fn message_spec(&self) -> Seq<char> {
        match self {
            CrossEncoderError::HuggingFaceLoadError(s) =>
                "Error while loading the model from HuggingFace (or from cache): "@ + s@,
            CrossEncoderError::IOError(s) => "IO error: "@ + s@,
            CrossEncoderError::TokenizerError(s) => "Error loading the tokenizer: "@ + s@,
            CrossEncoderError::InferenceError(s) => "Error while running inference: "@ + s@,
            CrossEncoderError::OnnxLoadingError(s) => "Error while loading ONNX model: "@ + s@,
            CrossEncoderError::GenericFailure(s) => s@,
        }
    }

    /// Renders the error as text (what `Display` prints for it).
    pub fn message(&self) -> (m: String)
        ensures
            m@ == self.message_spec(),
    {
        match self {
            CrossEncoderError::HuggingFaceLoadError(s) => String::from_str(
                "Error while loading the model from HuggingFace (or from cache): ",
            ).concat(s.as_str()),
            CrossEncoderError::IOError(s) => String::from_str("IO error: ").concat(s.as_str()),
            CrossEncoderError::TokenizerError(s) => String::from_str(
                "Error loading the tokenizer: ",
            ).concat(s.as_str()),
            CrossEncoderError::InferenceError(s) => String::from_str(
                "Error while running inference: ",
            ).concat(s.as_str()),
            CrossEncoderError::OnnxLoadingError(s) => String::from_str(
                "Error while loading ONNX model: ",
            ).concat(s.as_str()),
            CrossEncoderError::GenericFailure(s) => s.clone(),
        }
    }

    /// A generic failure carrying `msg` as its text.
    pub fn generic(msg: &str) -> (e: CrossEncoderError)
        ensures
            e matches CrossEncoderError::GenericFailure(s) && s@ == msg@,
    {
        CrossEncoderError::GenericFailure(String::from_str(msg))
    }
}

} // verus!
