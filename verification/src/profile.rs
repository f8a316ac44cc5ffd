//! The identity profile: scanning a file's lines for the name and email
//! values, and building the status message a successful swap reports.

use vstd::prelude::*;

use crate::errors::AppErr;
use crate::text::contains_token;
use crate::text::extract_value;
use crate::text::has_token;
use crate::text::line_value;

verus! {

/// One version-control identity: a user name and an email address.
pub struct Profile {
    pub name: String,
    pub email: String,
}

/// The token that marks a line as carrying the user name.
pub open spec fn name_key() -> Seq<char> {
    "name"@
}

/// The token that marks a line as carrying the email address.
pub open spec fn email_key() -> Seq<char> {
    "email"@
}

/// The view of an optional owned string.
spec fn opt_text(o: Option<String>) -> Option<Seq<char>> {
    match o {
        Option::Some(s) => Option::Some(s@),
        Option::None => Option::None,
    }
}

/// One line's effect on the scan state: a line containing the name token
/// sets the name to the line's value, a line containing the email token
/// sets the email likewise; other lines change nothing.
pub open spec fn scan_step(
    line: Seq<char>,
    name: Option<Seq<char>>,
    email: Option<Seq<char>>,
) -> (Option<Seq<char>>, Option<Seq<char>>) {
    (
        if has_token(line, name_key()) {
            Option::Some(line_value(line))
        } else {
            name
        },
        if has_token(line, email_key()) {
            Option::Some(line_value(line))
        } else {
            email
        },
    )
}

/// The scan state after walking `lines` from position `i` onward, starting
/// from `name` and `email`; the walk stops early once both are set.
pub open spec fn scan_from(
    lines: Seq<Seq<char>>,
    i: int,
    name: Option<Seq<char>>,
    email: Option<Seq<char>>,
) -> (Option<Seq<char>>, Option<Seq<char>>)
    decreases lines.len() - i,
{
    if !(0 <= i < lines.len()) || (name is Some && email is Some) {
        (name, email)
    } else {
        let next = scan_step(lines[i], name, email);
        scan_from(lines, i + 1, next.0, next.1)
    }
}

/// The name and email a full scan of `lines` finds.
pub open spec fn scan_lines(lines: Seq<Seq<char>>) -> (Option<Seq<char>>, Option<Seq<char>>) {
    scan_from(lines, 0, Option::None, Option::None)
}

/// Some line of `lines` contains `key`.
pub open spec fn key_in_lines(lines: Seq<Seq<char>>, key: Seq<char>) -> bool {
    exists|i: int| 0 <= i < lines.len() && has_token(lines[i], key)
}

impl Profile {
    /// A profile from its two attributes.
    pub fn new(name: String, email: String) -> (r: Self)
        ensures
            r.name == name,
            r.email == email,
    {
        Self { name, email }
    }

    /// The highlighted status message reporting this profile as active.
    pub fn detail(&self) -> (r: String)
        ensures
            r@ == detail_text(self.name@, self.email@),
    {
        let mut r = String::new();
        r.append("\u{1b}[33musing ");
        r.append(".gitconfig");
        r.append(" with name ");
        r.append(self.name.as_str());
        r.append(" & email ");
        r.append(self.email.as_str());
        r.append("\u{1b}[0m");
        proof {
            assert(r@ =~= detail_text(self.name@, self.email@));
        }
        r
    }
}

/// The status message for an active profile with the given name and email:
/// the destination path and both values, wrapped in a yellow highlight.
pub open spec fn detail_text(name: Seq<char>, email: Seq<char>) -> Seq<char> {
    "\u{1b}[33musing "@ + ".gitconfig"@ + " with name "@ + name + " & email "@ + email
        + "\u{1b}[0m"@
}

/// Scan `lines` for the name and email values, as the swap reports them.
///
/// Succeeds exactly when some line contains the name token and some line
/// contains the email token; the values returned are those of the scan,
/// which takes each key's last value seen before both keys were found.
pub fn parse_profile(lines: &Vec<String>) -> (r: Result<Profile, AppErr>)
    ensures
        r is Ok <==> key_in_lines(lines.deep_view(), name_key()) && key_in_lines(
            lines.deep_view(),
            email_key(),
        ),
        r is Ok ==> scan_lines(lines.deep_view()) == (
            Option::Some(r->Ok_0.name@),
            Option::Some(r->Ok_0.email@),
        ),
        r is Err ==> r->Err_0 is FileNameOrEmailMissing,
{
    let ghost lv = lines.deep_view();
    let mut name: Option<String> = None;
    let mut email: Option<String> = None;
    let mut idx: usize = 0;
    let n = lines.len();
    loop
        invariant
            n == lines.len(),
            lv == lines.deep_view(),
            idx <= n,
            scan_from(lv, idx as int, opt_text(name), opt_text(email)) == scan_lines(lv),
            name is Some <==> exists|j: int| 0 <= j < idx && has_token(lv[j], name_key()),
            email is Some <==> exists|j: int| 0 <= j < idx && has_token(lv[j], email_key()),
        ensures
            scan_lines(lv) == (opt_text(name), opt_text(email)),
            name is Some ==> key_in_lines(lv, name_key()),
            email is Some ==> key_in_lines(lv, email_key()),
            name is None ==> !key_in_lines(lv, name_key()),
            email is None ==> !key_in_lines(lv, email_key()),
        decreases n - idx,
    {
        if idx == n {
            break;
        }
        if name.is_some() && email.is_some() {
            break;
        }
        let ghost prev_name = opt_text(name);
        let ghost prev_email = opt_text(email);
        let line = &lines[idx];
        proof {
            assert(lv[idx as int] == line@);
        }
        if contains_token(line.as_str(), "name") {
            name = Some(extract_value(line.as_str()));
        }
        if contains_token(line.as_str(), "email") {
            email = Some(extract_value(line.as_str()));
        }
        proof {
            assert(scan_step(lv[idx as int], prev_name, prev_email) == (
                opt_text(name),
                opt_text(email),
            ));
            assert(scan_from(lv, idx as int, prev_name, prev_email) == scan_from(
                lv,
                idx + 1,
                opt_text(name),
                opt_text(email),
            ));
        }
        idx = idx + 1;
    }
    match (name, email) {
        (Some(n_), Some(e_)) => Ok(Profile::new(n_, e_)),
        _ => Err(AppErr::FileNameOrEmailMissing),
    }
}

proof fn lemma_scan_from_values(
    lines: Seq<Seq<char>>,
    i: int,
    nm: Option<Seq<char>>,
    em: Option<Seq<char>>,
    n_val: Seq<char>,
    e_val: Seq<char>,
)
    requires
        0 <= i <= lines.len(),
        forall|k: int|
            0 <= k < lines.len() && has_token(lines[k], name_key()) ==> line_value(lines[k])
                == n_val,
        forall|k: int|
            0 <= k < lines.len() && has_token(lines[k], email_key()) ==> line_value(lines[k])
                == e_val,
        nm is Some ==> nm == Option::Some(n_val),
        em is Some ==> em == Option::Some(e_val),
        nm is None ==> exists|k: int| i <= k < lines.len() && has_token(lines[k], name_key()),
        em is None ==> exists|k: int| i <= k < lines.len() && has_token(lines[k], email_key()),
    ensures
        scan_from(lines, i, nm, em) == (Option::Some(n_val), Option::Some(e_val)),
    decreases lines.len() - i,
{
    if nm is Some && em is Some {
    } else {
        assert(i < lines.len());
        let next = scan_step(lines[i], nm, em);
        if next.0 is None {
            let k = choose|k: int| i <= k < lines.len() && has_token(lines[k], name_key());
            assert(i + 1 <= k < lines.len() && has_token(lines[k], name_key()));
        }
        if next.1 is None {
            let k = choose|k: int| i <= k < lines.len() && has_token(lines[k], email_key());
            assert(i + 1 <= k < lines.len() && has_token(lines[k], email_key()));
        }
        lemma_scan_from_values(lines, i + 1, next.0, next.1, n_val, e_val);
    }
}

/// Wherever in the file the lines stand and in whatever order: when every
/// line containing the name token carries the value `n_val`, every line
/// containing the email token carries the value `e_val`, and at least one
/// line of each kind is present, the scan reports exactly `n_val` as the
/// name and `e_val` as the email.
pub proof fn lemma_scan_reports_values(lines: Seq<Seq<char>>, n_val: Seq<char>, e_val: Seq<char>)
    requires
        forall|k: int|
            0 <= k < lines.len() && has_token(lines[k], name_key()) ==> line_value(lines[k])
                == n_val,
        forall|k: int|
            0 <= k < lines.len() && has_token(lines[k], email_key()) ==> line_value(lines[k])
                == e_val,
        key_in_lines(lines, name_key()),
        key_in_lines(lines, email_key()),
    ensures
        scan_lines(lines) == (Option::Some(n_val), Option::Some(e_val)),
{
    lemma_scan_from_values(lines, 0, Option::None, Option::None, n_val, e_val);
}

/// The report a swap makes from the source file's lines: the status message
/// for the profile the lines carry, or the error for lines missing a key.
pub fn swap_report(lines: &Vec<String>) -> (r: Result<String, AppErr>)
    ensures
        r is Ok <==> key_in_lines(lines.deep_view(), name_key()) && key_in_lines(
            lines.deep_view(),
            email_key(),
        ),
        r is Ok ==> ({
            let found = scan_lines(lines.deep_view());
            &&& found.0 is Some
            &&& found.1 is Some
            &&& r->Ok_0@ == detail_text(found.0->0, found.1->0)
        }),
        r is Err ==> r->Err_0 is FileNameOrEmailMissing,
{
    match parse_profile(lines) {
        Ok(p) => Ok(p.detail()),
        Err(e) => Err(e),
    }
}

} // verus!
