//! Deployment variables as a process finds them.
use vstd::prelude::*;
use vstd::string::*;

verus! {

/// The value of a deployment variable, as read at boot.
#[derive(Debug)]
pub enum Variable {
    Unset,
    Text(String),
    /// It is set, to bytes that are not UTF-8.
    NotText,
}

/// The same, as values.
pub enum Setting {
    Unset,
    Text(Seq<char>),
    NotText,
}

impl View for Variable {
    type V = Setting;

    open spec fn view(&self) -> Setting {
        match self {
            Variable::Unset => Setting::Unset,
            Variable::Text(value) => Setting::Text(value@),
            Variable::NotText => Setting::NotText,
        }
    }
}

impl Variable {
    /// Whether the variable is set, to whatever.
    pub fn is_set(&self) -> (r: bool)
        ensures
            r == !(self@ is Unset),
    {
        match self {
            Variable::Unset => false,
            _ => true,
        }
    }
}

/// The refusal of a variable that is set to something other than text.
pub open spec fn not_text_refusal(name: Seq<char>) -> Seq<char> {
    "invalid "@ + name + ": must be UTF-8 text"@
}

pub fn refuse_not_text(name: &str) -> (r: String)
    ensures
        r@ == not_text_refusal(name@),
{
    let mut detail = "invalid ".to_owned();
    detail.append(name);
    detail.append(": must be UTF-8 text");
    detail
}

} // verus!
