use vstd::prelude::*;
use vstd::string::StringExecFns;

verus! {

/// Platform-independent classification of an I/O failure raised at
/// file-open time.
#[derive(Debug, Clone, Copy, PartialEq, Eq, Structural)]
pub enum IoKind {
    NotFound,
    PermissionDenied,
    Other,
}

/// Mathematical image of a `SpeakError`: the same variants, with the
/// offending date string seen as a sequence of characters.
pub ghost enum SpeakErrorView {
    Io(IoKind),
    Date(Seq<char>),
}

/// The errors of this library: an I/O failure classified by kind, or a
/// date string that did not decompose into three unsigned numbers
/// (carried verbatim for diagnostics).
#[derive(Debug, Eq)]
pub enum SpeakError {
    Io(IoKind),
    Date(String),
}

impl View for SpeakError {
    type V = SpeakErrorView;

    open spec fn view(&self) -> SpeakErrorView {
        match self {
            SpeakError::Io(k) => SpeakErrorView::Io(*k),
            SpeakError::Date(s) => SpeakErrorView::Date(s@),
        }
    }
}

impl PartialEq for SpeakError {
    fn eq(&self, other: &SpeakError) -> bool {
        match (self, other) {
            (SpeakError::Io(a), SpeakError::Io(b)) => a == b,
            (SpeakError::Date(a), SpeakError::Date(b)) => *a == *b,
            _ => false,
        }
    }
}

impl vstd::std_specs::cmp::PartialEqSpecImpl for SpeakError {
    open spec fn obeys_eq_spec() -> bool {
        true
    }

    open spec fn eq_spec(&self, other: &SpeakError) -> bool {
        match (self, other) {
            (SpeakError::Io(a), SpeakError::Io(b)) => a == b,
            (SpeakError::Date(a), SpeakError::Date(b)) => a@ == b@,
            _ => false,
        }
    }
}

/// The words used for each I/O kind in a rendered message.
pub open spec fn io_kind_label(k: IoKind) -> Seq<char> {
    match k {
        IoKind::NotFound => "not found"@,
        IoKind::PermissionDenied => "permission denied"@,
        IoKind::Other => "other"@,
    }
}

/// The one-line rendering of an error, as a sequence of characters.
pub open spec fn spec_message(e: SpeakErrorView) -> Seq<char> {
    match e {
        SpeakErrorView::Io(k) => "IO error: "@ + io_kind_label(k),
        SpeakErrorView::Date(s) => "Can't format '"@ + s + "' as a Date"@,
    }
}

impl SpeakError {
    /// One-line rendering of the error for the user-visible error stream.
    pub fn message(&self) -> (r: String)
        ensures
            r@ == spec_message(self@),
    {
        match self {
            SpeakError::Io(k) => {
                let mut m = "IO error: ".to_owned();
                let label: &str = match k {
                    IoKind::NotFound => "not found",
                    IoKind::PermissionDenied => "permission denied",
                    IoKind::Other => "other",
                };
                m.append(label);
                m
            },
            SpeakError::Date(s) => {
                let mut m = "Can't format '".to_owned();
                m.append(s.as_str());
                m.append("' as a Date");
                m
            },
        }
    }
}

} // verus!
