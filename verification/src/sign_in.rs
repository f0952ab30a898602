//! Signing in.

use crate::text::{between, framed};
use vstd::prelude::*;

verus! {

/// What the user is asked first.
pub const CODE_PROMPT: &'static str = "Enter code you received:";

/// What the server answers to a code.
#[derive(Debug, PartialEq, Eq)]
pub enum SignInOutcome {
    SignedIn,
    /// The account has a password, with a hint perhaps.
    PasswordRequired { hint: Option<String> },
    InvalidCode,
}

/// What follows.
#[derive(Debug, PartialEq, Eq)]
pub enum SignInStep {
    Done,
    /// Ask for the password with this prompt; signing in ends with it.
    AskPassword(String),
    /// Ask for a code again with this prompt.
    AskCode(String),
}

/// The prompt for the password.
pub open spec fn password_prompt(hint: Option<Seq<char>>) -> Seq<char> {
    "Enter the password (hint "@ + crate::text::or_dash(hint) + "): "@
}

impl SignInOutcome {
    /// The hint at the password, if the server gives one.
    pub open spec fn hint(self) -> Option<Seq<char>> {
        match self {
            SignInOutcome::PasswordRequired { hint: Some(hint) } => Some(hint@),
            _ => None,
        }
    }
}

/// What follows the answer to a code: the password is asked for where there is
/// one, and a wrong code is asked for again.
pub fn sign_in(outcome: &SignInOutcome) -> (r: SignInStep)
    ensures
        outcome is SignedIn <==> r is Done,
        outcome is PasswordRequired <==> r is AskPassword,
        outcome is InvalidCode <==> r is AskCode,
        r is AskPassword ==> r->AskPassword_0@ == password_prompt(outcome.hint()),
        r is AskCode ==> r->AskCode_0@ == "Invalid code, please try again:"@,
{
    match outcome {
        SignInOutcome::SignedIn => SignInStep::Done,
        SignInOutcome::PasswordRequired { hint } => {
            let mut prompt = "Enter the password (hint ".to_owned();
            match hint {
                Some(hint) => prompt.append(hint.as_str()),
                None => prompt.append("-"),
            }
            prompt.append("): ");
            SignInStep::AskPassword(prompt)
        },
        SignInOutcome::InvalidCode => SignInStep::AskCode(
            "Invalid code, please try again:".to_owned(),
        ),
    }
}

/// The prompt for the password holds the hint, and a dash where there is none.
pub proof fn law_prompt_holds_the_hint(hint: Seq<char>)
    requires
        hint.len() > 0,
    ensures
        framed(password_prompt(Some(hint)), "Enter the password (hint "@, "): "@),
        between(password_prompt(Some(hint)), "Enter the password (hint "@, "): "@) == hint,
        password_prompt(None) == password_prompt(Some(seq!['-'])),
{
    reveal_strlit("-");
    assert("-"@ =~= seq!['-']);
    let start = "Enter the password (hint "@;
    let end = "): "@;
    let prompt = password_prompt(Some(hint));
    assert(prompt.take(start.len() as int) =~= start);
    assert(prompt.skip(prompt.len() - end.len()) =~= end);
    assert(between(prompt, start, end) =~= hint);
}

/// The hint of an outcome is the one that the server gave, and only a request for
/// a password has one.
pub proof fn law_hint_is_the_given_one(outcome: SignInOutcome)
    ensures
        outcome.hint() is Some <==> (outcome matches SignInOutcome::PasswordRequired { hint }
            && hint is Some),
        outcome matches SignInOutcome::PasswordRequired { hint: Some(hint) } ==> outcome.hint()
            == Some(hint@),
{
}

} // verus!
