//! The state of the interactive front end, and how it answers to events.
//!
//! The front end itself reads files, draws and waits. What it decides is
//! here: the state that follows an event, and whether a log may be processed.

use crate::classification::ClassificationOutput;
use vstd::prelude::*;

verus! {

/// Why the front end could not show a classification.
#[derive(Debug, Clone, PartialEq)]
pub enum AppError {
    FileReadError(String),
    XesParseError(String),
    ClassificationError(String),
}

impl AppError {
    /// The failure as it is shown to a reader.
    pub open spec fn text(&self) -> Seq<char> {
        match self {
            AppError::FileReadError(detail) => "File reading error: "@ + detail@,
            AppError::XesParseError(detail) => "XES parsing error: "@ + detail@,
            AppError::ClassificationError(detail) => "Classification error: "@ + detail@,
        }
    }

    /// The failure as it is shown to a reader.
    pub fn to_string(&self) -> (text: String)
        ensures
            text@ == self.text(),
    {
        match self {
            AppError::FileReadError(detail) => "File reading error: ".to_owned().concat(
                detail.as_str(),
            ),
            AppError::XesParseError(detail) => "XES parsing error: ".to_owned().concat(
                detail.as_str(),
            ),
            AppError::ClassificationError(detail) => "Classification error: ".to_owned().concat(
                detail.as_str(),
            ),
        }
    }
}

/// What can happen to the front end.
pub enum AppMessage {
    /// A file was chosen, or the choice was taken back.
    FileSelected(Option<String>),
    /// The chosen file was read, or could not be read.
    FileLoaded(Result<String, String>),
    /// The text of the existential threshold was edited.
    ExistentialThresholdChanged(String),
    /// The text of the temporal threshold was edited.
    TemporalThresholdChanged(String),
    /// Processing of the loaded log has begun.
    ProcessLog,
    /// Processing has ended, with a classification or a failure.
    SetClassificationResult(Result<ClassificationOutput, AppError>),
}

/// What the front end knows between two events.
#[derive(Clone, PartialEq)]
pub struct AppState {
    pub file_name: Option<String>,
    pub file_content: Option<String>,
    pub existential_threshold_str: String,
    pub temporal_threshold_str: String,
    pub classification_result: Option<Result<ClassificationOutput, AppError>>,
    pub is_processing: bool,
}

impl Default for AppState {
    /// The state at the start: no file, both thresholds at "1.0", nothing
    /// classified and nothing under way.
    fn default() -> (state: Self)
        ensures
            state.file_name is None,
            state.file_content is None,
            state.existential_threshold_str@ == "1.0"@,
            state.temporal_threshold_str@ == "1.0"@,
            state.classification_result is None,
            !state.is_processing,
    {
        AppState {
            file_name: None,
            file_content: None,
            existential_threshold_str: "1.0".to_owned(),
            temporal_threshold_str: "1.0".to_owned(),
            classification_result: None,
            is_processing: false,
        }
    }
}

impl AppState {
    /// The state that follows `self` on the event `message`.
    pub open spec fn next(self, message: AppMessage) -> AppState {
        match message {
            AppMessage::FileSelected(file_name) => AppState {
                file_name,
                file_content: None,
                classification_result: None,
                ..self
            },
            AppMessage::FileLoaded(Ok(content)) => AppState {
                file_content: Some(content),
                is_processing: false,
                ..self
            },
            AppMessage::FileLoaded(Err(detail)) => AppState {
                classification_result: Some(Err(AppError::FileReadError(detail))),
                is_processing: false,
                ..self
            },
            AppMessage::ExistentialThresholdChanged(text) => AppState {
                existential_threshold_str: text,
                ..self
            },
            AppMessage::TemporalThresholdChanged(text) => AppState {
                temporal_threshold_str: text,
                ..self
            },
            AppMessage::ProcessLog => AppState {
                is_processing: true,
                classification_result: None,
                ..self
            },
            AppMessage::SetClassificationResult(result) => AppState {
                classification_result: Some(result),
                is_processing: false,
                ..self
            },
        }
    }

    /// Takes the state over the event `message`.
    pub fn update(self, message: AppMessage) -> (state: Self)
        ensures
            state == self.next(message),
    {
        let mut new_state = self;
        match message {
            AppMessage::FileSelected(file_name_opt) => {
                new_state.file_name = file_name_opt;
                new_state.file_content = None;
                new_state.classification_result = None;
            },
            AppMessage::FileLoaded(result) => {
                match result {
                    Ok(content) => new_state.file_content = Some(content),
                    Err(e) => {
                        new_state.classification_result = Some(Err(AppError::FileReadError(e)));
                    },
                }
                new_state.is_processing = false;
            },
            AppMessage::ExistentialThresholdChanged(val_str) => {
                new_state.existential_threshold_str = val_str;
            },
            AppMessage::TemporalThresholdChanged(val_str) => {
                new_state.temporal_threshold_str = val_str;
            },
            AppMessage::ProcessLog => {
                new_state.is_processing = true;
                new_state.classification_result = None;
            },
            AppMessage::SetClassificationResult(result) => {
                new_state.classification_result = Some(result);
                new_state.is_processing = false;
            },
        }
        new_state
    }

    /// Whether the loaded log may be processed: a file has been read, nothing
    /// is under way, and both thresholds are valid.
    pub fn can_process(&self, temporal_threshold_valid: bool, existential_threshold_valid: bool) -> (ready: bool)
        ensures
            ready == (self.file_content is Some && !self.is_processing && temporal_threshold_valid
                && existential_threshold_valid),
    {
        self.file_content.is_some() && !self.is_processing && temporal_threshold_valid
            && existential_threshold_valid
    }
}

/// Whether the text of a threshold is to be marked as wrong: it is not valid,
/// and it is not empty either.
pub fn threshold_is_marked(valid: bool, text: &str) -> (marked: bool)
    ensures
        marked == (!valid && text@.len() != 0),
{
    !valid && !text.is_empty()
}

} // verus!
