use crate::backend::{
    class_name_of, class_of, code_name_of, code_of, error_class_name, error_code_name, message_of,
};
use vstd::prelude::*;
use vstd::string::StringExecFns;

verus! {

/// What `{:?}` prints for a string: the text between double quotes, with
/// quotes, backslashes and control characters escaped.
pub uninterp spec fn quoted_text(text: Seq<char>) -> Seq<char>;

/// `format!("{:?}", text)`: the quoted rendering of `text`.
#[verifier::external_body]
fn quoted(text: &str) -> (r: String)
    ensures
        r@ == quoted_text(text@),
{
    format!("{:?}", text)
}

/// Why a browsing operation failed.
#[derive(Debug)]
pub enum GitError {
    /// No object with the id asked for is in the store; the backend's message.
    ObjectNotFound(String),
    /// The location holds no repository; the location asked for.
    RepositoryNotFound(String),
    /// Any other failure of the backend, with its diagnostic text.
    Unhandled(String),
}

/// A failure with its texts as character sequences.
pub enum GitErrorView {
    ObjectNotFound(Seq<char>),
    RepositoryNotFound(Seq<char>),
    Unhandled(Seq<char>),
}

impl View for GitError {
    type V = GitErrorView;

    open spec fn view(&self) -> GitErrorView {
        match self {
            GitError::ObjectNotFound(m) => GitErrorView::ObjectNotFound(m@),
            GitError::RepositoryNotFound(p) => GitErrorView::RepositoryNotFound(p@),
            GitError::Unhandled(m) => GitErrorView::Unhandled(m@),
        }
    }
}

/// What a browsing operation gives: its result, or why it failed.
pub type GitResult<T> = Result<T, GitError>;

/// The rendering of a backend failure: the name of its class, the name of
/// its code, a colon, and its message.
pub open spec fn detail_text(class_name: Seq<char>, code_name: Seq<char>, message: Seq<char>) -> Seq<
    char,
> {
    class_name + " "@ + code_name + ": "@ + message
}

/// The rendering of a backend failure with the given names and message.
pub fn failure_detail(class_name: &str, code_name: &str, message: &str) -> (detail: String)
    ensures
        detail@ == detail_text(class_name@, code_name@, message@),
{
    String::from_str(class_name).concat(" ").concat(code_name).concat(": ").concat(message)
}

/// Whether `detail` is the rendering of a backend failure: some name of a
/// class, some name of a code, a colon, and some message.
pub open spec fn is_detail(detail: Seq<char>) -> bool {
    exists|class_name: Seq<char>, code_name: Seq<char>, message: Seq<char>|
        detail == #[trigger] detail_text(class_name, code_name, message)
}

/// The rendering of the backend error `e`: the name of its class, the name
/// of its code, a colon, and its message.
pub open spec fn detail_of(e: git2::Error) -> Seq<char> {
    detail_text(class_name_of(class_of(e)), code_name_of(code_of(e)), message_of(e))
}

/// The rendering of a backend error, with the names that the backend has
/// for its class and code and with its message.
pub fn describe(e: &git2::Error) -> (detail: String)
    ensures
        detail@ == detail_of(*e),
        is_detail(detail@),
{
    let class_name = error_class_name(e.class());
    let code_name = error_code_name(e.code());
    let message = e.message();
    failure_detail(class_name.as_str(), code_name.as_str(), message)
}

/// Whether a failure of this class and code says that an object is missing
/// from the store.
pub open spec fn is_missing_object(class: git2::ErrorClass, code: git2::ErrorCode) -> bool {
    class == git2::ErrorClass::Odb && code == git2::ErrorCode::NotFound
}

/// Whether a failure of this class and code, met on opening a location, says
/// that no repository is there.
pub open spec fn is_missing_repository(class: git2::ErrorClass, code: git2::ErrorCode) -> bool {
    (class == git2::ErrorClass::Os || class == git2::ErrorClass::Repository) && code
        == git2::ErrorCode::NotFound
}

/// The failure that a backend error of this class and code stands for, met on
/// an open repository.
pub open spec fn classified(
    class: git2::ErrorClass,
    code: git2::ErrorCode,
    message: Seq<char>,
    detail: Seq<char>,
) -> GitErrorView {
    if is_missing_object(class, code) {
        GitErrorView::ObjectNotFound(message)
    } else {
        GitErrorView::Unhandled("Unhandled "@ + detail)
    }
}

/// The failure that a backend error of this class and code stands for, met on
/// opening `location`.
pub open spec fn classified_on_open(
    location: Seq<char>,
    class: git2::ErrorClass,
    code: git2::ErrorCode,
    message: Seq<char>,
    detail: Seq<char>,
) -> GitErrorView {
    if is_missing_repository(class, code) {
        GitErrorView::RepositoryNotFound(location)
    } else {
        classified(class, code, message, detail)
    }
}

/// The HTTP status and the message with which a failure is answered: a
/// missing object or repository is not found, anything else is a fault of
/// the server.
pub open spec fn error_answer(e: GitErrorView) -> (u16, Seq<char>) {
    match e {
        GitErrorView::ObjectNotFound(m) => (404, "Git object not found: "@ + m),
        GitErrorView::RepositoryNotFound(p) => (
            404,
            "Git repository "@ + quoted_text(p) + " not found"@,
        ),
        GitErrorView::Unhandled(m) => (500, m),
    }
}

/// The failure that a backend error stands for, met on an open repository:
/// what `classified` makes of its class, its code, its message, and the
/// rendering of these under the names that the backend has for them.
pub open spec fn failure_of(
    class: git2::ErrorClass,
    code: git2::ErrorCode,
    class_name: Seq<char>,
    code_name: Seq<char>,
    message: Seq<char>,
) -> GitErrorView {
    classified(class, code, message, detail_text(class_name, code_name, message))
}

/// The failure that a backend error stands for, met on opening `location`.
pub open spec fn failure_on_open_of(
    location: Seq<char>,
    class: git2::ErrorClass,
    code: git2::ErrorCode,
    class_name: Seq<char>,
    code_name: Seq<char>,
    message: Seq<char>,
) -> GitErrorView {
    classified_on_open(location, class, code, message, detail_text(class_name, code_name, message))
}

/// The failure that the backend error `e` stands for, met on an open
/// repository: a missing object where its class and code say so, with its
/// message, and else unhandled, with its rendering.
pub open spec fn failure_from(e: git2::Error) -> GitErrorView {
    failure_of(
        class_of(e),
        code_of(e),
        class_name_of(class_of(e)),
        code_name_of(code_of(e)),
        message_of(e),
    )
}

/// The failure that the backend error `e` stands for, met on opening
/// `location`: a missing repository where its class and code say so, with
/// the location, and else what it stands for on an open repository.
pub open spec fn failure_on_open_from(location: Seq<char>, e: git2::Error) -> GitErrorView {
    failure_on_open_of(
        location,
        class_of(e),
        code_of(e),
        class_name_of(class_of(e)),
        code_name_of(code_of(e)),
        message_of(e),
    )
}

/// Whether `e` is the failure that some backend error stands for, met on an
/// open repository.
pub open spec fn is_backend_failure(e: GitErrorView) -> bool {
    exists|cause: git2::Error| e == #[trigger] failure_from(cause)
}

/// Whether `e` is the failure that some backend error stands for, met on
/// opening `location`.
pub open spec fn is_open_failure(e: GitErrorView, location: Seq<char>) -> bool {
    exists|cause: git2::Error| e == #[trigger] failure_on_open_from(location, cause)
}

/// What a failure reads as.
pub open spec fn error_text(e: GitErrorView) -> Seq<char> {
    match e {
        GitErrorView::ObjectNotFound(m) => "ObjectNotFound: "@ + m,
        GitErrorView::RepositoryNotFound(p) => "RepositoryNotFound: "@ + quoted_text(p),
        GitErrorView::Unhandled(m) => m,
    }
}

impl GitError {
    /// Sorts a backend failure, given by its class, code, message and
    /// rendering: a missing object is told apart, everything else is
    /// unhandled and keeps the rendering.
    pub fn classify(
        class: git2::ErrorClass,
        code: git2::ErrorCode,
        message: &str,
        detail: &str,
    ) -> (e: GitError)
        ensures
            e@ == classified(class, code, message@, detail@),
    {
        let missing = match (class, code) {
            (git2::ErrorClass::Odb, git2::ErrorCode::NotFound) => true,
            _ => false,
        };
        if missing {
            GitError::ObjectNotFound(String::from_str(message))
        } else {
            GitError::Unhandled(String::from_str("Unhandled ").concat(detail))
        }
    }

    /// Sorts a backend failure met on opening `location`: a location without
    /// a repository is told apart, the rest goes as in `classify`.
    pub fn classify_on_open(
        location: &str,
        class: git2::ErrorClass,
        code: git2::ErrorCode,
        message: &str,
        detail: &str,
    ) -> (e: GitError)
        ensures
            e@ == classified_on_open(location@, class, code, message@, detail@),
    {
        let missing = match (class, code) {
            (git2::ErrorClass::Os, git2::ErrorCode::NotFound) => true,
            (git2::ErrorClass::Repository, git2::ErrorCode::NotFound) => true,
            _ => false,
        };
        if missing {
            GitError::RepositoryNotFound(String::from_str(location))
        } else {
            GitError::classify(class, code, message, detail)
        }
    }

    /// The failure that a backend error stands for: what `classified` makes
    /// of its class, code and message and of their rendering. It never says
    /// that a repository is missing: only opening one can find that.
    pub fn from_backend(e: &git2::Error) -> (r: GitError)
        ensures
            r@ == failure_from(*e),
            is_backend_failure(r@),
            r is ObjectNotFound || r is Unhandled,
    {
        let class = e.class();
        let code = e.code();
        let message = e.message();
        let class_name = error_class_name(class);
        let code_name = error_code_name(code);
        let detail = failure_detail(class_name.as_str(), code_name.as_str(), message);
        GitError::classify(class, code, message, detail.as_str())
    }

    /// The failure that a backend error stands for when it came from opening
    /// `location`: what `classified_on_open` makes of the location, of the
    /// error's class, code and message and of their rendering. A missing
    /// repository is reported with that location.
    pub fn from_open(location: &str, e: &git2::Error) -> (r: GitError)
        ensures
            r@ == failure_on_open_from(location@, *e),
            is_open_failure(r@, location@),
            r matches GitError::RepositoryNotFound(p) ==> p@ == location@,
    {
        let class = e.class();
        let code = e.code();
        let message = e.message();
        let class_name = error_class_name(class);
        let code_name = error_code_name(code);
        let detail = failure_detail(class_name.as_str(), code_name.as_str(), message);
        GitError::classify_on_open(location, class, code, message, detail.as_str())
    }

    /// The HTTP status and the message with which the failure is answered.
    pub fn answer(&self) -> (r: (u16, String))
        ensures
            (r.0, r.1@) == error_answer(self@),
    {
        match self {
            GitError::ObjectNotFound(m) => (
                404,
                String::from_str("Git object not found: ").concat(m.as_str()),
            ),
            GitError::RepositoryNotFound(p) => {
                let q = quoted(p.as_str());
                (404, String::from_str("Git repository ").concat(q.as_str()).concat(" not found"))
            },
            GitError::Unhandled(m) => (500, m.clone()),
        }
    }

    /// What the failure reads as.
    pub fn to_string(&self) -> (text: String)
        ensures
            text@ == error_text(self@),
    {
        match self {
            GitError::ObjectNotFound(m) => String::from_str("ObjectNotFound: ").concat(m.as_str()),
            GitError::RepositoryNotFound(p) => {
                let q = quoted(p.as_str());
                String::from_str("RepositoryNotFound: ").concat(q.as_str())
            },
            GitError::Unhandled(m) => m.clone(),
        }
    }
}

impl vstd::std_specs::convert::FromSpecImpl<git2::Error> for GitError {
    open spec fn obeys_from_spec() -> bool {
        false
    }

    open spec fn from_spec(e: git2::Error) -> Self {
        arbitrary()
    }
}

impl From<git2::Error> for GitError {
    fn from(e: git2::Error) -> (r: GitError)
        ensures
            r@ == failure_from(e),
            is_backend_failure(r@),
            r is ObjectNotFound || r is Unhandled,
    {
        GitError::from_backend(&e)
    }
}

} // verus!
