//! The command line surface of the tool: the action to perform and the
//! values that accompany it. Reading the process arguments themselves is the
//! caller's business; this module holds the data and the action parser.

use vstd::prelude::*;
use vstd::string::StringExecFns;

verus! {

/// The two operations the tool performs.
#[derive(Debug, Clone, Copy, PartialEq, Eq, Structural)]
pub enum Action {
    Encrypt,
    Decrypt,
}

/// The parsed command line: what to do, which file to read, which file to
/// write, and whether a passphrase should be prompted for (an empty
/// passphrase is used otherwise).
#[derive(Debug)]
pub struct GiopgArgs {
    pub action: Action,
    pub input_file: String,
    pub output_file: String,
    pub passphrase: bool,
}

/// The error for an action value that is neither `encrypt` nor `decrypt`;
/// it carries the offending value.
#[derive(Debug, Clone)]
pub struct ActionParseError {
    s: String,
}

impl View for ActionParseError {
    type V = Seq<char>;

    closed spec fn view(&self) -> Seq<char> {
        self.s@
    }
}

impl ActionParseError {
    /// The rejected action value.
    pub fn value(&self) -> (r: &str)
        ensures
            r@ == self@,
    {
        self.s.as_str()
    }

    /// Describes the error, naming the offending value and the two values
    /// that would have been accepted.
    pub fn message(&self) -> (r: String)
        ensures
            r@ == "illegal value '"@ + self@ + "' for Action (expected: encrypt|decrypt)"@,
    {
        let mut m = String::from_str("illegal value '");
        m.append(self.s.as_str());
        m.append("' for Action (expected: encrypt|decrypt)");
        m
    }
}

impl Action {
    /// Parses an action value: exactly `encrypt` and `decrypt` are accepted,
    /// and any other value is rejected with an error holding it.
    pub fn from_str(s: &str) -> (r: Result<Action, ActionParseError>)
        ensures
            s@ == "encrypt"@ ==> r == Ok::<Action, ActionParseError>(Action::Encrypt),
            s@ == "decrypt"@ ==> r == Ok::<Action, ActionParseError>(Action::Decrypt),
            s@ != "encrypt"@ && s@ != "decrypt"@ ==> (r matches Err(e) && e@ == s@),
    {
        proof {
            broadcast use vstd::string::group_string_axioms;

            reveal_strlit("encrypt");
            reveal_strlit("decrypt");
            assert("encrypt"@[0] == 'e' && "decrypt"@[0] == 'd');
        }
        let owned = String::from_str(s);
        if owned == String::from_str("encrypt") {
            Ok(Action::Encrypt)
        } else if owned == String::from_str("decrypt") {
            Ok(Action::Decrypt)
        } else {
            Err(ActionParseError { s: owned })
        }
    }
}

} // verus!
