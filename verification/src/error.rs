use vstd::prelude::*;
use vstd::string::StringExecFns;

verus! {

/// An Engine service failure: a stable machine-readable code and a
/// human-readable detail.
#[derive(Debug)]
pub struct CsharpEngineServicesError {
    code: &'static str,
    detail: String,
}

impl CsharpEngineServicesError {
    /// The stable code of this error.
    pub closed spec fn code_view(&self) -> Seq<char> {
        self.code@
    }

    /// The detail text of this error.
    pub closed spec fn detail_view(&self) -> Seq<char> {
        self.detail@
    }

    pub fn new(code: &'static str, detail: String) -> (e: Self)
        ensures
            e.code_view() == code@,
            e.detail_view() == detail@,
    {
        Self { code, detail }
    }

    pub fn code(&self) -> (c: &'static str)
        ensures
            c@ == self.code_view(),
    {
        self.code
    }

    pub fn detail(&self) -> (d: &str)
        ensures
            d@ == self.detail_view(),
    {
        self.detail.as_str()
    }

    /// The error as text: its code, a colon and a space, and its detail.
    pub fn message(&self) -> (s: String)
        ensures
            s@ == self.code_view() + ": "@ + self.detail_view(),
    {
        let mut s = String::from_str(self.code);
        s.append(": ");
        s.append(self.detail.as_str());
        s
    }
}

} // verus!
