//! Errors of the user service.

use vstd::prelude::*;

verus! {

/// What went wrong while a request was handled.
#[derive(Debug, PartialEq, Eq)]
pub enum AppError {
    /// The table store failed; the text says how.
    Dynamo(String),
    /// Authentication failed; the text says how.
    Auth(String),
}

/// Mathematical value of an [`AppError`].
pub ghost enum AppErrorView {
    Dynamo(Seq<char>),
    Auth(Seq<char>),
}

impl View for AppError {
    type V = AppErrorView;

    open spec fn view(&self) -> AppErrorView {
        match self {
            AppError::Dynamo(text) => AppErrorView::Dynamo(text@),
            AppError::Auth(text) => AppErrorView::Auth(text@),
        }
    }
}

impl AppError {
    /// The class of the error as a short word.
    pub open spec fn category_spec(self) -> Seq<char> {
        match self {
            AppError::Dynamo(_) => "dynamodb"@,
            AppError::Auth(_) => "auth"@,
        }
    }

    /// The error as one line: its class in words, a colon, and its text.
    pub open spec fn message_spec(self) -> Seq<char> {
        match self {
            AppError::Dynamo(text) => "dynamodb error: "@ + text@,
            AppError::Auth(text) => "authentication error: "@ + text@,
        }
    }

    /// Short classification string used for logging.
    pub fn category(&self) -> (word: &'static str)
        ensures
            word@ == self.category_spec(),
    {
        match self {
            AppError::Dynamo(_) => "dynamodb",
            AppError::Auth(_) => "auth",
        }
    }

    /// The error as one line of text.
    pub fn to_string(&self) -> (line: String)
        ensures
            line@ == self.message_spec(),
    {
        match self {
            AppError::Dynamo(text) => String::from_str("dynamodb error: ").concat(text.as_str()),
            AppError::Auth(text) => String::from_str("authentication error: ").concat(
                text.as_str(),
            ),
        }
    }
}

} // verus!
