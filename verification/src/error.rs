//! The error surface of the library's decisions.

use crate::models::Platform;
use std::path::PathBuf;
use vstd::prelude::*;

verus! {

#[verifier::external_type_specification]
#[verifier::external_body]
pub struct ExPathBuf(PathBuf);

/// Errors that the account, repository and vault rules report.
#[derive(Debug)]
pub enum GitcoreError {
    /// The account list breaks an invariant; the text says which.
    InvalidConfig(String),
    /// The account name holds characters other than ASCII letters, digits, `-` and `_`, or is empty.
    InvalidAccountName(String),
    /// Another account already has this name (compared ignoring ASCII case).
    DuplicateAccountName(String),
    /// Another account already has this host alias (compared ignoring ASCII case).
    DuplicateHostAlias(String),
    /// Another account already uses this SSH key file (compared ignoring ASCII case).
    DuplicateKeyPath(String),
    /// The platform name is not one of the supported platforms.
    UnsupportedPlatform(String),
    /// No account matches the selector.
    AccountNotFound(String),
    /// The username is empty or only whitespace.
    EmptyUsername,
    /// The email is empty or only whitespace.
    EmptyEmail,
    /// The password is missing or empty.
    EmptyPassword,
    /// The path is not inside a Git repository.
    NotGitRepository(PathBuf),
    /// The repository has no readable `origin` remote.
    MissingOriginRemote(PathBuf),
    /// The platform has no provider URL.
    MissingProviderUrl(Platform),
}


/// The mathematical content of a [`GitcoreError`]: its variant and the text it carries.
pub enum ErrorView {
    InvalidConfig(Seq<char>),
    InvalidAccountName(Seq<char>),
    DuplicateAccountName(Seq<char>),
    DuplicateHostAlias(Seq<char>),
    DuplicateKeyPath(Seq<char>),
    UnsupportedPlatform(Seq<char>),
    AccountNotFound(Seq<char>),
    EmptyUsername,
    EmptyEmail,
    EmptyPassword,
    NotGitRepository(PathBuf),
    MissingOriginRemote(PathBuf),
    MissingProviderUrl(Platform),
}

impl View for GitcoreError {
    type V = ErrorView;

    open spec fn view(&self) -> ErrorView {
        match self {
            GitcoreError::InvalidConfig(s) => ErrorView::InvalidConfig(s@),
            GitcoreError::InvalidAccountName(s) => ErrorView::InvalidAccountName(s@),
            GitcoreError::DuplicateAccountName(s) => ErrorView::DuplicateAccountName(s@),
            GitcoreError::DuplicateHostAlias(s) => ErrorView::DuplicateHostAlias(s@),
            GitcoreError::DuplicateKeyPath(s) => ErrorView::DuplicateKeyPath(s@),
            GitcoreError::UnsupportedPlatform(s) => ErrorView::UnsupportedPlatform(s@),
            GitcoreError::AccountNotFound(s) => ErrorView::AccountNotFound(s@),
            GitcoreError::EmptyUsername => ErrorView::EmptyUsername,
            GitcoreError::EmptyEmail => ErrorView::EmptyEmail,
            GitcoreError::EmptyPassword => ErrorView::EmptyPassword,
            GitcoreError::NotGitRepository(p) => ErrorView::NotGitRepository(*p),
            GitcoreError::MissingOriginRemote(p) => ErrorView::MissingOriginRemote(*p),
            GitcoreError::MissingProviderUrl(p) => ErrorView::MissingProviderUrl(*p),
        }
    }
}

/// The view of a result whose error is a [`GitcoreError`].
pub open spec fn err_view<T>(r: Result<T, GitcoreError>) -> Result<T, ErrorView> {
    match r {
        Ok(v) => Ok(v),
        Err(e) => Err(e@),
    }
}

} // verus!
