//! The command validator: a raw command line is held against a deny-list of
//! dangerous patterns and then against an allow-list of permitted base
//! executables. The deny-list runs first, so a denied command is reported
//! with the more specific reason even when its base token is also
//! disallowed. Validation always runs on the pre-substitution command.
use vstd::prelude::*;
use crate::chars::{space_char, is_space, str_chars, str_eq, chars_to_string};

verus! {

/// What `text` the regular expression `pattern` matches.
pub uninterp spec fn regex_match(pattern: Seq<char>, text: Seq<char>) -> bool;

/// Relies on `regex::Regex::new` and `regex::Regex::is_match`: whether
/// `text` matches the regular expression `pattern`. For a fixed pattern the
/// result depends on the two strings alone; a pattern that does not parse
/// as a regular expression matches no text.
#[verifier::external_body]
fn regex_is_match(pattern: &str, text: &str) -> (r: bool)
    ensures
        r == regex_match(pattern@, text@),
{
    match regex::Regex::new(pattern) {
        Ok(re) => re.is_match(text),
        Err(_) => false,
    }
}

/// The deny-list: patterns of known-dangerous invocations, matched
/// case-sensitively against the literal command text.
pub open spec fn deny_patterns() -> Seq<Seq<char>> {
    seq![
        "rm\\s+.*-rf"@,
        "sudo\\s+"@,
        "su\\s+"@,
        "chmod\\s+777"@,
        "wget\\s+"@,
        "curl\\s+.*\\|\\s*sh"@,
        "nc\\s+.*-e"@,
    ]
}

/// Whether a command matches some deny-list pattern.
pub open spec fn denied(cmd: Seq<char>) -> bool {
    exists|i: int| 0 <= i < deny_patterns().len() && regex_match(deny_patterns()[i], cmd)
}

/// The allow-list: the permitted base executable names.
pub open spec fn allowed_commands() -> Seq<Seq<char>> {
    seq!["ls"@, "cat"@, "echo"@, "date"@, "whoami"@, "pwd"@, "ping"@, "nslookup"@, "dig"@]
}

/// Whether a base token is on the allow-list.
pub open spec fn allowed_base(t: Seq<char>) -> bool {
    exists|i: int| 0 <= i < allowed_commands().len() && allowed_commands()[i] == t
}

/// Whether the command has at least one whitespace-delimited token.
pub open spec fn has_token(s: Seq<char>) -> bool {
    exists|i: int| 0 <= i < s.len() && !space_char(s[i])
}

/// The longest whitespace-free prefix of a string.
pub open spec fn leading_run(s: Seq<char>) -> Seq<char>
    decreases s.len(),
{
    if s.len() == 0 || space_char(s[0]) {
        Seq::empty()
    } else {
        seq![s[0]] + leading_run(s.drop_first())
    }
}

/// The first whitespace-delimited token of a string (empty when the string
/// has no token).
pub open spec fn first_token(s: Seq<char>) -> Seq<char>
    decreases s.len(),
{
    if s.len() == 0 {
        Seq::empty()
    } else if space_char(s[0]) {
        first_token(s.drop_first())
    } else {
        leading_run(s)
    }
}

/// A command passes validation exactly when no deny-list pattern matches
/// it, it has a base token, and that token is on the allow-list.
pub open spec fn validate_ok(cmd: Seq<char>) -> bool {
    &&& !denied(cmd)
    &&& has_token(cmd)
    &&& allowed_base(first_token(cmd))
}

proof fn lemma_leading_run_is_prefix(u: Seq<char>, k: int)
    requires
        0 <= k <= u.len(),
        forall|m: int| 0 <= m < k ==> !space_char(u[m]),
        k == u.len() || space_char(u[k]),
    ensures
        leading_run(u) == u.take(k),
    decreases k,
{
    if k == 0 {
        assert(leading_run(u) =~= u.take(0));
    } else {
        assert(!space_char(u[0]));
        assert(forall|m: int| 0 <= m < k - 1 ==> !space_char(u.drop_first()[m]));
        lemma_leading_run_is_prefix(u.drop_first(), k - 1);
        assert(seq![u[0]] + u.drop_first().take(k - 1) =~= u.take(k));
    }
}

/// The first whitespace-delimited token of a character vector, or `None`
/// when every character is whitespace (or the vector is empty).
fn first_token_of(v: &Vec<char>) -> (r: Option<Vec<char>>)
    ensures
        r is None <==> !has_token(v@),
        r matches Some(t) ==> t@ == first_token(v@) && has_token(v@),
{
    let n = v.len();
    let mut i: usize = 0;
    proof {
        assert(v@.skip(0) =~= v@);
    }
    while i < n && is_space(v[i])
        invariant
            n == v@.len(),
            i <= n,
            forall|j: int| 0 <= j < i ==> space_char(v@[j]),
            first_token(v@) == first_token(v@.skip(i as int)),
        decreases n - i,
    {
        proof {
            assert(v@.skip(i as int)[0] == v@[i as int]);
            assert(v@.skip(i as int).drop_first() =~= v@.skip(i + 1));
        }
        i = i + 1;
    }
    if i == n {
        proof {
            assert(!has_token(v@));
        }
        return None;
    }
    proof {
        assert(!space_char(v@[i as int]));
        assert(has_token(v@));
    }
    let mut j: usize = i;
    let mut t: Vec<char> = Vec::new();
    while j < n && !is_space(v[j])
        invariant
            n == v@.len(),
            i <= j <= n,
            i < n,
            forall|m: int| i <= m < j ==> !space_char(v@[m]),
            t@ == v@.subrange(i as int, j as int),
        decreases n - j,
    {
        t.push(v[j]);
        proof {
            assert(t@ =~= v@.subrange(i as int, j + 1));
        }
        j = j + 1;
    }
    proof {
        let u = v@.skip(i as int);
        let k = j - i;
        assert(forall|m: int| 0 <= m < k ==> u[m] == v@[m + i] && !space_char(u[m]));
        if k < u.len() {
            assert(u[k] == v@[j as int]);
            assert(space_char(u[k]));
        }
        lemma_leading_run_is_prefix(u, k);
        assert(u.take(k) =~= v@.subrange(i as int, j as int));
        assert(!space_char(u[0]));
        assert(first_token(v@) == leading_run(u));
        assert(t@ == first_token(v@));
    }
    Some(t)
}

/// Validates a raw command line. Rejects with "Dangerous command detected"
/// when a deny-list pattern matches, then with "Empty command" when the
/// command has no token, then with "Command not in allowlist" when the
/// first token is not a permitted base executable; passes otherwise.
pub fn validate_command(command: &str) -> (r: Result<(), String>)
    ensures
        r is Ok <==> validate_ok(command@),
        denied(command@) ==> (r matches Err(e) && e@ == "Dangerous command detected"@),
        !denied(command@) && !has_token(command@) ==> (r matches Err(e) && e@
            == "Empty command"@),
        !denied(command@) && has_token(command@) && !allowed_base(first_token(command@)) ==> (
        r matches Err(e) && e@ == "Command not in allowlist"@),
{
    let ghost cmd = command@;
    if regex_is_match("rm\\s+.*-rf", command) {
        proof {
            assert(deny_patterns()[0] == "rm\\s+.*-rf"@ && regex_match(deny_patterns()[0], cmd));
        }
        return Err("Dangerous command detected".to_owned());
    }
    if regex_is_match("sudo\\s+", command) {
        proof {
            assert(deny_patterns()[1] == "sudo\\s+"@ && regex_match(deny_patterns()[1], cmd));
        }
        return Err("Dangerous command detected".to_owned());
    }
    if regex_is_match("su\\s+", command) {
        proof {
            assert(deny_patterns()[2] == "su\\s+"@ && regex_match(deny_patterns()[2], cmd));
        }
        return Err("Dangerous command detected".to_owned());
    }
    if regex_is_match("chmod\\s+777", command) {
        proof {
            assert(deny_patterns()[3] == "chmod\\s+777"@ && regex_match(deny_patterns()[3], cmd));
        }
        return Err("Dangerous command detected".to_owned());
    }
    if regex_is_match("wget\\s+", command) {
        proof {
            assert(deny_patterns()[4] == "wget\\s+"@ && regex_match(deny_patterns()[4], cmd));
        }
        return Err("Dangerous command detected".to_owned());
    }
    if regex_is_match("curl\\s+.*\\|\\s*sh", command) {
        proof {
            assert(deny_patterns()[5] == "curl\\s+.*\\|\\s*sh"@ && regex_match(
                deny_patterns()[5],
                cmd,
            ));
        }
        return Err("Dangerous command detected".to_owned());
    }
    if regex_is_match("nc\\s+.*-e", command) {
        proof {
            assert(deny_patterns()[6] == "nc\\s+.*-e"@ && regex_match(deny_patterns()[6], cmd));
        }
        return Err("Dangerous command detected".to_owned());
    }
    proof {
        assert forall|i: int| 0 <= i < deny_patterns().len() implies !regex_match(
            deny_patterns()[i],
            cmd,
        ) by {
            if i == 0 {
            } else if i == 1 {
            } else if i == 2 {
            } else if i == 3 {
            } else if i == 4 {
            } else if i == 5 {
            } else {
                assert(i == 6);
            }
        }
        assert(!denied(cmd));
    }
    let chars = str_chars(command);
    let token = match first_token_of(&chars) {
        None => {
            return Err("Empty command".to_owned());
        },
        Some(t) => t,
    };
    let base = chars_to_string(&token);
    if str_eq(base.as_str(), "ls") {
        proof {
            assert(allowed_commands()[0] == base@);
        }
        return Ok(());
    }
    if str_eq(base.as_str(), "cat") {
        proof {
            assert(allowed_commands()[1] == base@);
        }
        return Ok(());
    }
    if str_eq(base.as_str(), "echo") {
        proof {
            assert(allowed_commands()[2] == base@);
        }
        return Ok(());
    }
    if str_eq(base.as_str(), "date") {
        proof {
            assert(allowed_commands()[3] == base@);
        }
        return Ok(());
    }
    if str_eq(base.as_str(), "whoami") {
        proof {
            assert(allowed_commands()[4] == base@);
        }
        return Ok(());
    }
    if str_eq(base.as_str(), "pwd") {
        proof {
            assert(allowed_commands()[5] == base@);
        }
        return Ok(());
    }
    if str_eq(base.as_str(), "ping") {
        proof {
            assert(allowed_commands()[6] == base@);
        }
        return Ok(());
    }
    if str_eq(base.as_str(), "nslookup") {
        proof {
            assert(allowed_commands()[7] == base@);
        }
        return Ok(());
    }
    if str_eq(base.as_str(), "dig") {
        proof {
            assert(allowed_commands()[8] == base@);
        }
        return Ok(());
    }
    proof {
        assert forall|i: int| 0 <= i < allowed_commands().len() implies allowed_commands()[i]
            != first_token(cmd) by {
            if i == 0 {
            } else if i == 1 {
            } else if i == 2 {
            } else if i == 3 {
            } else if i == 4 {
            } else if i == 5 {
            } else if i == 6 {
            } else if i == 7 {
            } else {
                assert(i == 8);
            }
        }
        assert(!allowed_base(first_token(cmd)));
    }
    Err("Command not in allowlist".to_owned())
}

} // verus!
