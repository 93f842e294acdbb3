//! The decisions of a vendor scraper's default routines. The scraper itself
//! drives a remote browser; what it should do next, and what to make of what
//! the page gave, is decided here on plain values.

use crate::decimal::Decimal;
use crate::price::{parse_price_unsigned, unsigned_price};
use crate::text::{contains_text, has_substring, lowercase, text_or_empty, to_lowercase};
use vstd::prelude::*;

verus! {

/// The CSS selector of the login form: the first form of the page.
pub const FORM_SELECTOR: &'static str = "form";

/// The CSS selector of the inputs within the login form.
pub const INPUT_SELECTOR: &'static str = "input";

/// The property by whose text an input is judged.
pub const NAME_PROPERTY: &'static str = "name";

/// The property in which an input element holds its price.
pub const VALUE_PROPERTY: &'static str = "value";

/// The run of characters that marks the name of a username input.
pub open spec fn user_marker() -> Seq<char> {
    seq!['u', 's', 'e', 'r']
}

/// The run of characters that marks the name of a password input.
pub open spec fn pass_marker() -> Seq<char> {
    seq!['p', 'a', 's', 's']
}

/// A lowercased input name that marks a username field.
pub open spec fn names_user(lowered: Seq<char>) -> bool {
    has_substring(lowered, user_marker())
}

/// A lowercased input name that marks a password field.
pub open spec fn names_pass(lowered: Seq<char>) -> bool {
    has_substring(lowered, pass_marker())
}

/// Why the login form could not be filled in.
#[derive(Clone, Copy, Debug, PartialEq, Eq, Structural)]
pub enum LoginError {
    /// No input of the form is named like a username field.
    NoUserInput,
    /// No input of the form is left that is named like a password field.
    NoPasswdInput,
}

impl LoginError {
    /// The logical name of the field that was not found.
    pub open spec fn argument_text(self) -> Seq<char> {
        match self {
            LoginError::NoUserInput => "user_input"@,
            LoginError::NoPasswdInput => "passwd_input"@,
        }
    }

    /// The explanation that goes with the error.
    pub open spec fn message_text(self) -> Seq<char> {
        match self {
            LoginError::NoUserInput => "Could not find a valid username input field on the page"@,
            LoginError::NoPasswdInput => "Could not find a valid password input field on the page"@,
        }
    }

    /// The argument that an invalid-argument error names for this failure.
    pub fn argument(&self) -> (res: String)
        ensures
            res@ == self.argument_text(),
    {
        match self {
            LoginError::NoUserInput => "user_input".to_owned(),
            LoginError::NoPasswdInput => "passwd_input".to_owned(),
        }
    }

    /// The explanation for a reader.
    pub fn message(&self) -> (res: String)
        ensures
            res@ == self.message_text(),
    {
        match self {
            LoginError::NoUserInput => "Could not find a valid username input field on the page".to_owned(),
            LoginError::NoPasswdInput => "Could not find a valid password input field on the page".to_owned(),
        }
    }
}

/// The two inputs of the login form, by their position among its inputs.
#[derive(Clone, Copy, Debug, PartialEq, Eq, Structural)]
pub struct LoginFields {
    pub user: usize,
    pub pass: usize,
}

/// What the scan of a login form knows after some of its inputs.
pub struct ScanView {
    /// How many inputs the form has.
    pub total: nat,
    /// How many of them have been looked at.
    pub seen: nat,
    /// The input chosen as the username field.
    pub user: Option<nat>,
    /// The input chosen as the password field.
    pub pass: Option<nat>,
}

impl ScanView {
    /// The scan of a form of `total` inputs before any was looked at.
    pub open spec fn start(total: nat) -> ScanView {
        ScanView { total, seen: 0, user: None, pass: None }
    }

    /// What holds of every scan: the chosen inputs are among those looked
    /// at, and no input is chosen for both fields.
    pub open spec fn wf(self) -> bool {
        &&& self.seen <= self.total
        &&& self.user matches Some(user) ==> user < self.seen
        &&& self.pass matches Some(pass) ==> pass < self.seen
        &&& self.complete() ==> self.user != self.pass
    }

    /// Both fields are chosen.
    pub open spec fn complete(self) -> bool {
        self.user is Some && self.pass is Some
    }

    /// The scan goes on: a field is still missing and an input is left.
    pub open spec fn wants_name(self) -> bool {
        !self.complete() && self.seen < self.total
    }

    /// The scan after the next input, whose lowercased name is `lowered`.
    /// A name with the user marker becomes the username field if none is
    /// chosen yet; else one with the password marker becomes the password
    /// field if none is chosen yet. A scan that does not go on stays as it is.
    pub open spec fn step(self, lowered: Seq<char>) -> ScanView {
        if !self.wants_name() {
            self
        } else if names_user(lowered) && self.user is None {
            ScanView { seen: self.seen + 1, user: Some(self.seen), ..self }
        } else if names_pass(lowered) && self.pass is None {
            ScanView { seen: self.seen + 1, pass: Some(self.seen), ..self }
        } else {
            ScanView { seen: self.seen + 1, ..self }
        }
    }

    /// The error of a scan that ended without both fields: it names the
    /// username field where that is missing, else the password field.
    pub open spec fn missing(self) -> Option<LoginError> {
        match (self.user, self.pass) {
            (None, _) => Some(LoginError::NoUserInput),
            (Some(_), None) => Some(LoginError::NoPasswdInput),
            (Some(_), Some(_)) => None,
        }
    }
}

/// What the scraper does next while it scans the login form.
#[derive(Clone, Copy, Debug, PartialEq, Eq, Structural)]
pub enum ScanStep {
    /// Read the `name` attribute of the input at this position and report it.
    ReadName(usize),
    /// The scan is over: these are the fields to type into.
    Chosen(LoginFields),
    /// The scan is over: login fails with this error.
    Failed(LoginError),
}

/// The scan of a login form for its username and password inputs, one input
/// name at a time.
#[derive(Clone, Copy, Debug)]
pub struct LoginScan {
    total: usize,
    seen: usize,
    user: Option<usize>,
    pass: Option<usize>,
}

impl View for LoginScan {
    type V = ScanView;

    closed spec fn view(&self) -> ScanView {
        ScanView {
            total: self.total as nat,
            seen: self.seen as nat,
            user: match self.user {
                Some(i) => Some(i as nat),
                None => None,
            },
            pass: match self.pass {
                Some(i) => Some(i as nat),
                None => None,
            },
        }
    }
}

impl LoginScan {
    #[verifier::type_invariant]
    spec fn inv(self) -> bool {
        self@.wf()
    }

    /// The scan of a form with `total` inputs, none looked at yet.
    pub fn new(total: usize) -> (res: LoginScan)
        ensures
            res@ == ScanView::start(total as nat),
    {
        LoginScan { total, seen: 0, user: None, pass: None }
    }

    /// What to do next: read the next input's name while a field is missing
    /// and an input is left, else end with what was found.
    pub fn next_step(&self) -> (res: ScanStep)
        ensures
            self@.wf(),
            match res {
                ScanStep::ReadName(index) => self@.wants_name() && index == self@.seen,
                ScanStep::Chosen(fields) => {
                    &&& self@.user == Some(fields.user as nat)
                    &&& self@.pass == Some(fields.pass as nat)
                },
                ScanStep::Failed(error) => !self@.wants_name() && self@.missing() == Some(error),
            },
    {
        proof {
            use_type_invariant(self);
        }
        match (self.user, self.pass) {
            (Some(user), Some(pass)) => ScanStep::Chosen(LoginFields { user, pass }),
            (None, _) => {
                if self.seen < self.total {
                    ScanStep::ReadName(self.seen)
                } else {
                    ScanStep::Failed(LoginError::NoUserInput)
                }
            },
            (Some(_), None) => {
                if self.seen < self.total {
                    ScanStep::ReadName(self.seen)
                } else {
                    ScanStep::Failed(LoginError::NoPasswdInput)
                }
            },
        }
    }

    /// Takes in the name of the next input, already in lowercase.
    pub fn observe_lowered(self, lowered: &str) -> (res: LoginScan)
        ensures
            res@ == self@.step(lowered@),
    {
        proof {
            use_type_invariant(&self);
        }
        let complete = self.user.is_some() && self.pass.is_some();
        if complete || self.seen >= self.total {
            return self;
        }
        proof {
            reveal_strlit("user");
            reveal_strlit("pass");
            assert("user"@ =~= user_marker());
            assert("pass"@ =~= pass_marker());
        }
        let seen: usize = self.seen + 1;
        if self.user.is_none() && contains_text(lowered, "user") {
            LoginScan { seen, user: Some(self.seen), ..self }
        } else if self.pass.is_none() && contains_text(lowered, "pass") {
            LoginScan { seen, pass: Some(self.seen), ..self }
        } else {
            LoginScan { seen, ..self }
        }
    }

    /// Takes in the `name` attribute of the next input as the page gave it.
    pub fn observe(self, name: &Option<String>) -> (res: LoginScan)
        ensures
            res@ == self@.step(lowercase(text_or_empty(*name))),
    {
        let lowered = match name {
            Some(text) => to_lowercase(text.as_str()),
            None => to_lowercase(""),
        };
        proof {
            reveal_strlit("");
            assert(""@ =~= Seq::<char>::empty());
        }
        self.observe_lowered(lowered.as_str())
    }
}

/// The lowercased names of a form's inputs, in the order of the page.
pub open spec fn lowered_names(names: Seq<Option<String>>) -> Seq<Seq<char>> {
    Seq::new(names.len(), |i: int| lowercase(text_or_empty(names[i])))
}

/// Input `i` is the first whose name marks a username field.
pub open spec fn is_first_user(lowered: Seq<Seq<char>>, i: int) -> bool {
    &&& 0 <= i < lowered.len()
    &&& names_user(lowered[i])
    &&& forall|j: int| 0 <= j < i ==> !names_user(lowered[j])
}

/// Input `i` can serve as the password field: its name marks one, and it is
/// not the input that serves as the username field.
pub open spec fn may_be_pass(lowered: Seq<Seq<char>>, i: int) -> bool {
    &&& 0 <= i < lowered.len()
    &&& names_pass(lowered[i])
    &&& !is_first_user(lowered, i)
}

/// Input `i` is the first that can serve as the password field.
pub open spec fn is_first_pass(lowered: Seq<Seq<char>>, i: int) -> bool {
    &&& may_be_pass(lowered, i)
    &&& forall|j: int| 0 <= j < i ==> !may_be_pass(lowered, j)
}

/// The scan of a form after `k` reports of input names, each the name of the
/// next input not looked at yet.
pub open spec fn scan_after(lowered: Seq<Seq<char>>, k: nat) -> ScanView
    decreases k,
{
    if k == 0 {
        ScanView::start(lowered.len())
    } else {
        let before = scan_after(lowered, (k - 1) as nat);
        before.step(lowered[before.seen as int])
    }
}

/// The scan chooses the first input named like a username field and the first
/// other input named like a password field, and looks at no input after the
/// later of the two.
pub proof fn lemma_scan_chooses_first(lowered: Seq<Seq<char>>, k: nat)
    ensures
        ({
            let scan = scan_after(lowered, k);
            &&& scan.total == lowered.len()
            &&& scan.seen <= scan.total
            &&& scan.seen <= k
            &&& scan.seen < k ==> !scan.wants_name()
            &&& scan.user matches Some(u) ==> u < scan.seen && is_first_user(lowered, u as int)
            &&& scan.user is None ==> forall|j: int| 0 <= j < scan.seen ==> !names_user(lowered[j])
            &&& scan.pass matches Some(p) ==> p < scan.seen && is_first_pass(lowered, p as int)
            &&& scan.pass is None ==> forall|j: int| 0 <= j < scan.seen ==> !may_be_pass(lowered, j)
            &&& scan.complete() ==> scan.seen == scan.user->0 + 1 || scan.seen == scan.pass->0 + 1
        }),
    decreases k,
{
    if k > 0 {
        lemma_scan_chooses_first(lowered, (k - 1) as nat);
    }
}

/// Chooses the username and password inputs of a login form from the `name`
/// attributes of its inputs, in the order of the page.
pub fn select_login_fields(names: &Vec<Option<String>>) -> (res: Result<LoginFields, LoginError>)
    ensures
        match res {
            Ok(fields) => {
                &&& is_first_user(lowered_names(names@), fields.user as int)
                &&& is_first_pass(lowered_names(names@), fields.pass as int)
            },
            Err(LoginError::NoUserInput) => forall|i: int|
                0 <= i < names.len() ==> !names_user(#[trigger] lowered_names(names@)[i]),
            Err(LoginError::NoPasswdInput) => {
                &&& exists|i: int| is_first_user(lowered_names(names@), i)
                &&& forall|i: int| 0 <= i < names.len() ==> !may_be_pass(lowered_names(names@), i)
            },
        },
{
    let ghost lowered = lowered_names(names@);
    let ghost mut reports: nat = 0;
    let mut scan = LoginScan::new(names.len());
    loop
        invariant
            lowered == lowered_names(names@),
            scan@ == scan_after(lowered, reports),
        decreases names.len() - scan@.seen,
    {
        proof {
            lemma_scan_chooses_first(lowered, reports);
        }
        match scan.next_step() {
            ScanStep::ReadName(index) => {
                scan = scan.observe(&names[index]);
                proof {
                    reports = reports + 1;
                }
            },
            ScanStep::Chosen(fields) => {
                return Ok(fields);
            },
            ScanStep::Failed(error) => {
                proof {
                    if error == LoginError::NoPasswdInput {
                        assert(is_first_user(lowered, scan@.user->0 as int));
                    }
                }
                return Err(error);
            },
        }
    }
}

/// Keys to send to one input of the login form.
#[derive(Debug, PartialEq, Eq)]
pub struct Keystrokes {
    /// The position of the input among the form's inputs.
    pub input: usize,
    /// The text to type.
    pub text: String,
}

/// The key that submits the form.
pub open spec fn submit_keys() -> Seq<char> {
    seq!['\n']
}

/// What to type to log in, in this order: the username into the username
/// field, the password into the password field, then the submit key into the
/// password field.
pub fn login_keystrokes(fields: LoginFields, user: &str, passwd: &str) -> (res: Vec<Keystrokes>)
    ensures
        res.len() == 3,
        res[0].input == fields.user && res[0].text@ == user@,
        res[1].input == fields.pass && res[1].text@ == passwd@,
        res[2].input == fields.pass && res[2].text@ == submit_keys(),
{
    proof {
        reveal_strlit("\n");
        assert("\n"@ =~= submit_keys());
    }
    let mut plan: Vec<Keystrokes> = Vec::new();
    plan.push(Keystrokes { input: fields.user, text: user.to_owned() });
    plan.push(Keystrokes { input: fields.pass, text: passwd.to_owned() });
    plan.push(Keystrokes { input: fields.pass, text: "\n".to_owned() });
    plan
}

/// Whether an element's rendered text has to be read for its price: its
/// `value` property is absent or empty.
pub fn price_wants_text(value: &Option<String>) -> (res: bool)
    ensures
        res == (text_or_empty(*value).len() == 0),
{
    match value {
        Some(v) => v.as_str().is_empty(),
        None => true,
    }
}

/// The text in which an element shows its price: its `value` property where
/// that holds anything, else its rendered text.
pub open spec fn shown_price(value: Option<String>, text: Option<String>) -> Seq<char> {
    if text_or_empty(value).len() > 0 {
        text_or_empty(value)
    } else {
        text_or_empty(text)
    }
}

/// The price that an element shows, from its `value` property and its
/// rendered text as far as they were read. Only digits and the decimal point
/// count. Where they spell no decimal there is no price, which is no error.
pub fn price_from_elem(value: &Option<String>, text: &Option<String>) -> (res: Option<Decimal>)
    ensures
        match res {
            Some(d) => unsigned_price(shown_price(*value, *text)) == Some(d@),
            None => unsigned_price(shown_price(*value, *text)) is None,
        },
{
    let shown = if price_wants_text(value) {
        text
    } else {
        value
    };
    proof {
        reveal_strlit("");
        assert(""@ =~= Seq::<char>::empty());
    }
    let parsed = match shown {
        Some(t) => parse_price_unsigned(t.as_str()),
        None => parse_price_unsigned(""),
    };
    match parsed {
        Ok(d) => Some(d),
        Err(_) => None,
    }
}

} // verus!
