//! Transport-neutral request-lowering failures.
use vstd::prelude::*;
use vstd::std_specs::convert::FromSpecImpl;

verus! {

#[derive(Debug, Clone)]
pub enum RendererError {
    Validation(String),
}

impl RendererError {
    /// What went wrong, for the client.
    pub open spec fn message(self) -> Seq<char> {
        match self {
            RendererError::Validation(message) => message@,
        }
    }

    /// What went wrong, for the client.
    pub fn to_string(&self) -> (r: String)
        ensures
            r@ == self.message(),
    {
        match self {
            RendererError::Validation(message) => message.clone(),
        }
    }
}

impl From<String> for RendererError {
    fn from(message: String) -> (r: Self) {
        RendererError::Validation(message)
    }
}

impl FromSpecImpl<String> for RendererError {
    open spec fn obeys_from_spec() -> bool {
        true
    }

    open spec fn from_spec(message: String) -> Self {
        RendererError::Validation(message)
    }
}

impl<'a> From<&'a str> for RendererError {
    fn from(message: &'a str) -> (r: Self)
        ensures
            r.message() == message@,
    {
        RendererError::Validation(message.to_owned())
    }
}

impl<'a> FromSpecImpl<&'a str> for RendererError {
    open spec fn obeys_from_spec() -> bool {
        false
    }

    open spec fn from_spec(message: &'a str) -> Self {
        RendererError::Validation(choose|text: String| text@ == message@)
    }
}

/// An error says what it was made of, whether of an owned text or of a borrowed one.
pub proof fn law_errors_say_their_message(message: String, said: String)
    requires
        call_ensures(RendererError::to_string, (&RendererError::Validation(message),), said),
    ensures
        said@ == message@,
        RendererError::Validation(message).message() == message@,
{
}

/// An error made of a text holds that text, whether the text was owned or borrowed.
pub proof fn law_errors_hold_their_text<'a>(
    owned: String,
    of_owned: RendererError,
    borrowed: &'a str,
    of_borrowed: RendererError,
)
    requires
        call_ensures(<RendererError as From<String>>::from, (owned,), of_owned),
        call_ensures(<RendererError as From<&'a str>>::from, (borrowed,), of_borrowed),
    ensures
        of_owned matches RendererError::Validation(message) && message@ == owned@,
        of_borrowed matches RendererError::Validation(message) && message@ == borrowed@,
{
}

} // verus!
