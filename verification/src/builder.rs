//! The encoding decoder and the command builder: sanitized parameter values
//! are optionally reinterpreted (base64 or URL percent-encoding) and then
//! substituted for their `{name}` placeholders in the validated command
//! line. Validation always runs on the raw, pre-substitution command; no
//! new validation runs after substitution.
use vstd::prelude::*;
use crate::chars::{str_chars, str_eq, chars_to_string};
use crate::replace::{replace_spec, replace_all, contains_seq, lemma_replace_absent};
use crate::sanitize::{ParamMap, sanitize_spec, sanitize_parameters};
use crate::validate::{validate_command, validate_ok, denied, has_token, first_token, allowed_base};

verus! {

/// A task request: a raw command line with `{name}` placeholders, the
/// parameters to substitute, an optional encoding tag for the values, and
/// an optional timeout in seconds.
pub struct TaskRequest {
    pub command: String,
    pub parameters: ParamMap,
    pub encoding: Option<String>,
    pub timeout: Option<u64>,
}

/// The view of an optional encoding tag.
pub open spec fn encoding_view(enc: &Option<String>) -> Option<Seq<char>> {
    match *enc {
        Some(ref e) => Some(e@),
        None => None,
    }
}

/// What the standard-alphabet base64 decoding of a string is: the decoded
/// text when the string is valid base64 whose decoded bytes are valid
/// UTF-8, `None` otherwise.
pub uninterp spec fn base64_decoded(s: Seq<char>) -> Option<Seq<char>>;

/// Relies on `base64::engine::general_purpose::STANDARD.decode` and
/// `String::from_utf8`: decodes `s` as standard base64, when `s` is valid
/// base64 and the decoded bytes are valid UTF-8. The result depends on the
/// characters of `s` alone.
#[verifier::external_body]
fn decode_base64(s: &str) -> (r: Option<String>)
    ensures
        r matches Some(t) ==> base64_decoded(s@) == Some(t@),
        r is None ==> base64_decoded(s@) is None,
{
    match base64::Engine::decode(&base64::engine::general_purpose::STANDARD, s) {
        Ok(bytes) => match String::from_utf8(bytes) {
            Ok(t) => Some(t),
            Err(_) => None,
        },
        Err(_) => None,
    }
}

/// What the percent-decoding of a string is: the decoded text when the
/// decoded bytes are valid UTF-8, `None` otherwise.
pub uninterp spec fn url_decoded(s: Seq<char>) -> Option<Seq<char>>;

/// Relies on `urlencoding::decode`: percent-decodes `s`, assuming UTF-8.
/// The result depends on the characters of `s` alone.
#[verifier::external_body]
fn decode_url(s: &str) -> (r: Option<String>)
    ensures
        r matches Some(t) ==> url_decoded(s@) == Some(t@),
        r is None ==> url_decoded(s@) is None,
{
    match urlencoding::decode(s) {
        Ok(t) => Some(t.into_owned()),
        Err(_) => None,
    }
}

/// The text substituted for a placeholder: under the `base64` tag the
/// decoded value, or the sanitized value itself when decoding fails; under
/// the `url` tag the percent-decoded value, or the empty string when
/// decoding fails; under no tag, or an unknown one, the sanitized value
/// itself.
pub open spec fn subst_value(enc: Option<Seq<char>>, v: Seq<char>) -> Seq<char> {
    if enc == Some("base64"@) {
        match base64_decoded(v) {
            Some(d) => d,
            None => v,
        }
    } else if enc == Some("url"@) {
        match url_decoded(v) {
            Some(d) => d,
            None => Seq::empty(),
        }
    } else {
        v
    }
}

/// The placeholder token of a parameter key: `{key}`.
pub open spec fn placeholder(k: Seq<char>) -> Seq<char> {
    seq!['{'] + k + seq!['}']
}

/// The command after substitution: for every parameter in order, each
/// occurrence of its placeholder is replaced by its substitution text.
pub open spec fn substitute_spec(
    cmd: Seq<char>,
    params: Seq<(Seq<char>, Seq<char>)>,
    enc: Option<Seq<char>>,
) -> Seq<char>
    decreases params.len(),
{
    if params.len() == 0 {
        cmd
    } else {
        substitute_spec(
            replace_spec(cmd, placeholder(params[0].0), subst_value(enc, params[0].1)),
            params.drop_first(),
            enc,
        )
    }
}

/// The built command: the raw command with the placeholders of the
/// sanitized parameters substituted.
pub open spec fn built_spec(
    cmd: Seq<char>,
    params: Seq<(Seq<char>, Seq<char>)>,
    enc: Option<Seq<char>>,
) -> Seq<char> {
    substitute_spec(cmd, sanitize_spec(params), enc)
}

/// A command none of whose parameters' placeholders occur in it is left
/// unchanged by substitution; in particular a placeholder whose key has no
/// matching parameter keeps its literal text.
pub proof fn lemma_substitute_untouched(
    cmd: Seq<char>,
    params: Seq<(Seq<char>, Seq<char>)>,
    enc: Option<Seq<char>>,
)
    requires
        forall|i: int|
            0 <= i < params.len() ==> !#[trigger] contains_seq(cmd, placeholder(params[i].0)),
    ensures
        substitute_spec(cmd, params, enc) == cmd,
    decreases params.len(),
{
    if params.len() > 0 {
        assert(!contains_seq(cmd, placeholder(params[0].0)));
        lemma_replace_absent(cmd, placeholder(params[0].0), subst_value(enc, params[0].1));
        assert(forall|i: int|
            0 <= i < params.drop_first().len() ==> params.drop_first()[i] == params[i + 1]);
        lemma_substitute_untouched(cmd, params.drop_first(), enc);
    }
}

/// The substitution text for one sanitized value under the given encoding
/// tag.
fn decode_value(enc: &Option<String>, v: &str) -> (r: String)
    ensures
        r@ == subst_value(encoding_view(enc), v@),
{
    match enc {
        Some(e) => {
            if str_eq(e.as_str(), "base64") {
                match decode_base64(v) {
                    Some(d) => d,
                    None => v.to_owned(),
                }
            } else if str_eq(e.as_str(), "url") {
                match decode_url(v) {
                    Some(d) => d,
                    None => String::new(),
                }
            } else {
                v.to_owned()
            }
        },
        None => v.to_owned(),
    }
}

/// The `{key}` placeholder of a key, as a character vector.
fn make_placeholder(k: &str) -> (p: Vec<char>)
    ensures
        p@ == placeholder(k@),
{
    let kc = str_chars(k);
    let mut p: Vec<char> = Vec::new();
    p.push('{');
    let mut i: usize = 0;
    while i < kc.len()
        invariant
            kc@ == k@,
            i <= kc@.len(),
            p@ == seq!['{'] + k@.take(i as int),
        decreases kc@.len() - i,
    {
        p.push(kc[i]);
        proof {
            assert(p@ =~= seq!['{'] + k@.take(i + 1));
        }
        i = i + 1;
    }
    p.push('}');
    proof {
        assert(k@.take(k@.len() as int) =~= k@);
        assert(p@ =~= placeholder(k@));
    }
    p
}

/// Builds the final command line: validates the raw command, sanitizes the
/// parameters, and substitutes each sanitized parameter's placeholder with
/// its (possibly decoded) value, in parameter order. Returns the
/// validator's reason unchanged when validation rejects the command.
pub fn build_command(task: &TaskRequest) -> (r: Result<String, String>)
    ensures
        r is Ok <==> validate_ok(task.command@),
        r matches Ok(c) ==> c@ == built_spec(
            task.command@,
            task.parameters@,
            encoding_view(&task.encoding),
        ),
        denied(task.command@) ==> (r matches Err(e) && e@ == "Dangerous command detected"@),
        !denied(task.command@) && !has_token(task.command@) ==> (r matches Err(e) && e@
            == "Empty command"@),
        !denied(task.command@) && has_token(task.command@) && !allowed_base(
            first_token(task.command@),
        ) ==> (r matches Err(e) && e@ == "Command not in allowlist"@),
{
    match validate_command(task.command.as_str()) {
        Err(e) => {
            return Err(e);
        },
        Ok(()) => {},
    }
    let sanitized = sanitize_parameters(&task.parameters);
    let ghost sparams = sanitize_spec(task.parameters@);
    let mut cur = str_chars(task.command.as_str());
    let ghost enc = encoding_view(&task.encoding);
    let ghost built = substitute_spec(task.command@, sparams, enc);
    let mut i: usize = 0;
    proof {
        assert(sparams.skip(0) =~= sparams);
    }
    while i < sanitized.entries.len()
        invariant
            sanitized@ == sparams,
            sanitized@.len() == sanitized.entries@.len(),
            i <= sparams.len(),
            built == substitute_spec(task.command@, sparams, enc),
            enc == encoding_view(&task.encoding),
            substitute_spec(cur@, sparams.skip(i as int), enc) == built,
        decreases sparams.len() - i,
    {
        proof {
            assert(sparams.skip(i as int)[0] == sparams[i as int]);
            assert(sparams.skip(i as int).drop_first() =~= sparams.skip(i + 1));
            assert(sparams[i as int] == sanitized.entries@[i as int]@);
        }
        let entry = &sanitized.entries[i];
        let pat = make_placeholder(entry.key.as_str());
        let value = decode_value(&task.encoding, entry.value.as_str());
        let rv = str_chars(value.as_str());
        cur = replace_all(&cur, &pat, &rv);
        i = i + 1;
    }
    proof {
        assert(sparams.skip(sparams.len() as int) =~= Seq::<(Seq<char>, Seq<char>)>::empty());
    }
    Ok(chars_to_string(&cur))
}

} // verus!
