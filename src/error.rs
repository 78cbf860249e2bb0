use vstd::prelude::*;

use crate::platform::{identify_platform, is_pdd_link, Platform};

verus! {

/// Errors of translating a link.
#[derive(Clone, Debug, PartialEq, Eq)]
pub enum TranslateError {
    /// The request to the platform could not be made.
    Request(String),
    /// The platform answered with something unusable.
    Internal(String),
    /// The link belongs to no supported platform.
    UnsupportedPlatform(String),
}

/// Errors of the service, as its handlers report them.
#[derive(Clone, Debug, PartialEq, Eq)]
pub enum AppError {
    Translate(TranslateError),
    Internal(String),
    Unknown(String),
}

pub type TranslateResult<T> = Result<T, TranslateError>;

pub type AppResult<T> = Result<T, AppError>;

impl TranslateError {
    /// The human-readable text of the error.
    pub open spec fn message_spec(&self) -> Seq<char> {
        match self {
            TranslateError::Request(s) => "HTTP请求失败: "@ + s@,
            TranslateError::Internal(s) => "服务器内部错误: "@ + s@,
            TranslateError::UnsupportedPlatform(s) => "平台不支持: "@ + s@,
        }
    }

    pub fn message(&self) -> (r: String)
        ensures
            r@ == self.message_spec(),
    {
        match self {
            TranslateError::Request(s) => String::from_str("HTTP请求失败: ").concat(s.as_str()),
            TranslateError::Internal(s) => String::from_str("服务器内部错误: ").concat(s.as_str()),
            TranslateError::UnsupportedPlatform(s) => String::from_str("平台不支持: ").concat(
                s.as_str(),
            ),
        }
    }
}

impl AppError {
    /// The human-readable text of the error.
    pub open spec fn message_spec(&self) -> Seq<char> {
        match self {
            AppError::Translate(e) => "转链错误: "@ + e.message_spec(),
            AppError::Internal(s) => "服务器内部错误: "@ + s@,
            AppError::Unknown(s) => "未知错误: "@ + s@,
        }
    }

    pub fn message(&self) -> (r: String)
        ensures
            r@ == self.message_spec(),
    {
        match self {
            AppError::Translate(e) => {
                let inner = e.message();
                String::from_str("转链错误: ").concat(inner.as_str())
            },
            AppError::Internal(s) => String::from_str("服务器内部错误: ").concat(s.as_str()),
            AppError::Unknown(s) => String::from_str("未知错误: ").concat(s.as_str()),
        }
    }

    /// The HTTP status the error is answered with: 501 (not implemented) for a
    /// link of an unsupported platform, 500 otherwise.
    pub open spec fn status_spec(&self) -> u16 {
        match self {
            AppError::Translate(TranslateError::UnsupportedPlatform(_)) => 501,
            _ => 500,
        }
    }

    pub fn status_code(&self) -> (r: u16)
        ensures
            r == self.status_spec(),
    {
        match self {
            AppError::Translate(TranslateError::UnsupportedPlatform(_)) => 501,
            _ => 500,
        }
    }
}

impl From<TranslateError> for AppError {
    fn from(e: TranslateError) -> (r: AppError) {
        AppError::Translate(e)
    }
}

impl vstd::std_specs::convert::FromSpecImpl<TranslateError> for AppError {
    open spec fn obeys_from_spec() -> bool {
        true
    }

    open spec fn from_spec(v: TranslateError) -> AppError {
        AppError::Translate(v)
    }
}

/// The translator to use for `url`: the platform it belongs to, or an
/// unsupported-platform error.
pub fn get_translator(url: &str) -> (r: AppResult<Platform>)
    ensures
        is_pdd_link(url@) ==> r == Ok::<Platform, AppError>(Platform::Pdd),
        !is_pdd_link(url@) ==> (r matches Err(
            AppError::Translate(TranslateError::UnsupportedPlatform(m)),
        ) && m@ == "平台暂不支持"@),
{
    match identify_platform(url) {
        Some(Platform::Pdd) => Ok(Platform::Pdd),
        Some(Platform::Unknown) => Err(
            AppError::Translate(TranslateError::UnsupportedPlatform(String::from_str("未知平台"))),
        ),
        None => Err(
            AppError::from(
                TranslateError::UnsupportedPlatform(String::from_str("平台暂不支持")),
            ),
        ),
    }
}

} // verus!
